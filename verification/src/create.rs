//! Creating a plan: the plan and its heirs are stored in one transaction.
//!
//! The database does the work, one action after the other; after each it is told here what
//! comes next.

use crate::amount::Amount;
use crate::model::{
    beneficiary_response, beneficiary_row_to_response, plan_row_to_response, shows_plan,
    BeneficiaryResponse, BeneficiaryRow, Plan, PlanBeneficiary, PlanResponse,
    PlanRow,
};
use crate::plan::{
    new_beneficiary, plan_error, split_plan, stores_heir, stores_plan, validate_plan,
    NewBeneficiary, NewPlan, PlanError,
};
use crate::reply::{Reply, BAD_REQUEST, INTERNAL_SERVER_ERROR};
use crate::text::joined;
use vstd::pervasive::unreached;
use vstd::prelude::*;
use vstd::string::*;

verus! {

/// How far the creation of a plan has come.
#[derive(Debug, Clone, PartialEq, Eq)]
pub enum CreatePlan {
    /// The plan is accepted; a transaction is being opened.
    Opening { plan: Plan, amount: Amount },
    /// The plan is being stored.
    SavingPlan { beneficiaries: Vec<PlanBeneficiary> },
    /// The heirs are being stored; `saved` are those that are.
    SavingBeneficiaries {
        beneficiaries: Vec<PlanBeneficiary>,
        row: PlanRow,
        saved: Vec<BeneficiaryResponse>,
    },
    /// The transaction is being committed.
    Committing { response: PlanResponse },
    /// The request is answered. A transaction that was opened and not committed is dropped.
    Finished,
}

/// What is to be done next.
#[derive(Debug, Clone, PartialEq, Eq)]
pub enum CreateAction {
    Begin,
    InsertPlan(NewPlan),
    InsertBeneficiary(NewBeneficiary),
    Commit,
    Answer(Reply),
}

/// What came of an action, with the words of the database where it failed.
#[derive(Debug, PartialEq, Eq)]
pub enum CreateEvent {
    Began(Result<(), String>),
    PlanSaved(Result<PlanRow, String>),
    BeneficiarySaved(Result<BeneficiaryRow, String>),
    Committed(Result<(), String>),
}

impl CreateEvent {
    /// What the caller is told where the action failed.
    pub open spec fn failure(self) -> Option<Seq<char>> {
        match self {
            CreateEvent::Began(Err(e)) => Some("Failed to begin database transaction: "@ + e@),
            CreateEvent::PlanSaved(Err(e)) => Some("Failed to save plan: "@ + e@),
            CreateEvent::BeneficiarySaved(Err(e)) => Some("Failed to save beneficiary: "@ + e@),
            CreateEvent::Committed(Err(e)) => Some(
                "Failed to commit database transaction: "@ + e@,
            ),
            _ => None,
        }
    }
}

/// Whether the request ends with the failure `error`.
pub open spec fn ends_failing(
    next: CreatePlan,
    action: CreateAction,
    status: u16,
    error: Seq<char>,
) -> bool {
    &&& next is Finished
    &&& action matches CreateAction::Answer(reply) && reply.fails_with(status, error)
}

/// Whether the first heir that is not yet stored comes next, or the commit where all are.
pub open spec fn goes_on(
    heirs: Seq<PlanBeneficiary>,
    row: PlanRow,
    saved: Seq<BeneficiaryResponse>,
    next: CreatePlan,
    action: CreateAction,
) -> bool {
    if saved.len() < heirs.len() {
        &&& next matches CreatePlan::SavingBeneficiaries { beneficiaries, row: r, saved: s }
        &&& beneficiaries@ == heirs
        &&& r == row
        &&& s@ == saved
        &&& action matches CreateAction::InsertBeneficiary(new)
        &&& stores_heir(row.id, heirs[saved.len() as int], new)
    } else {
        &&& next matches CreatePlan::Committing { response }
        &&& shows_plan(row, response)
        &&& response.beneficiaries@ == saved
        &&& action is Commit
    }
}

/// What becomes of a request to create `plan`, whose amount is `amount` as a decimal where it
/// is one.
pub open spec fn create_starts(
    plan: Plan,
    amount: Option<Amount>,
    next: CreatePlan,
    action: CreateAction,
) -> bool {
    match plan_error(plan) {
        Some(error) => ends_failing(next, action, BAD_REQUEST, error.text()),
        None => match amount {
            None => ends_failing(next, action, BAD_REQUEST, PlanError::InvalidAmount.text()),
            Some(amount) => {
                &&& next matches CreatePlan::Opening { plan: p, amount: a }
                &&& p == plan
                &&& a@ == amount@.stripped()
                &&& action is Begin
            },
        },
    }
}

/// What follows `event` in the state `state`.
pub open spec fn create_continues(
    state: CreatePlan,
    event: CreateEvent,
    next: CreatePlan,
    action: CreateAction,
) -> bool {
    match event.failure() {
        Some(error) => ends_failing(next, action, INTERNAL_SERVER_ERROR, error),
        None => match (state, event) {
            (CreatePlan::Opening { plan, amount }, CreateEvent::Began(Ok(_))) => {
                &&& next matches CreatePlan::SavingPlan { beneficiaries }
                &&& beneficiaries == plan.beneficiaries
                &&& action matches CreateAction::InsertPlan(new)
                &&& stores_plan(plan, amount, new)
            },
            (CreatePlan::SavingPlan { beneficiaries }, CreateEvent::PlanSaved(Ok(row))) => goes_on(
                beneficiaries@,
                row,
                Seq::empty(),
                next,
                action,
            ),
            (
                CreatePlan::SavingBeneficiaries { beneficiaries, row, saved },
                CreateEvent::BeneficiarySaved(Ok(heir)),
            ) => goes_on(
                beneficiaries@,
                row,
                saved@.push(beneficiary_response(heir)),
                next,
                action,
            ),
            (CreatePlan::Committing { response }, CreateEvent::Committed(Ok(_))) => {
                &&& next is Finished
                &&& action == CreateAction::Answer(Reply::Created(response))
            },
            _ => false,
        },
    }
}

/// The end of a request that failed.
fn fail(status: u16, error: String) -> (r: (CreatePlan, CreateAction))
    ensures
        ends_failing(r.0, r.1, status, error@),
{
    (CreatePlan::Finished, CreateAction::Answer(Reply::Error { status, error }))
}

/// The next heir, or the commit.
fn go_on(
    beneficiaries: Vec<PlanBeneficiary>,
    row: PlanRow,
    saved: Vec<BeneficiaryResponse>,
) -> (r: (CreatePlan, CreateAction))
    ensures
        goes_on(beneficiaries@, row, saved@, r.0, r.1),
{
    if saved.len() < beneficiaries.len() {
        let new = new_beneficiary(row.id, &beneficiaries[saved.len()]);
        (
            CreatePlan::SavingBeneficiaries { beneficiaries, row, saved },
            CreateAction::InsertBeneficiary(new),
        )
    } else {
        let response = plan_row_to_response(row, saved);
        (CreatePlan::Committing { response }, CreateAction::Commit)
    }
}

/// Takes up a request to create `plan`. `amount` is the plan's amount as a decimal, where it
/// can be written as one.
pub fn create_plan(plan: Plan, amount: Option<Amount>) -> (r: (CreatePlan, CreateAction))
    ensures
        create_starts(plan, amount, r.0, r.1),
{
    match validate_plan(&plan) {
        Err(error) => fail(BAD_REQUEST, error.message()),
        Ok(()) => match amount {
            None => fail(BAD_REQUEST, PlanError::InvalidAmount.message()),
            Some(amount) => {
                (CreatePlan::Opening { plan, amount: amount.normalize() }, CreateAction::Begin)
            },
        },
    }
}

impl CreatePlan {
    /// Whether `event` tells what came of the last action.
    pub open spec fn awaits(self, event: CreateEvent) -> bool {
        match self {
            CreatePlan::Opening { .. } => event is Began,
            CreatePlan::SavingPlan { .. } => event is PlanSaved,
            CreatePlan::SavingBeneficiaries { .. } => event is BeneficiarySaved,
            CreatePlan::Committing { .. } => event is Committed,
            CreatePlan::Finished => false,
        }
    }

    /// Whether `event` tells what came of the last action.
    pub fn expects(&self, event: &CreateEvent) -> (r: bool)
        ensures
            r == self.awaits(*event),
    {
        match (self, event) {
            (CreatePlan::Opening { .. }, CreateEvent::Began(_)) => true,
            (CreatePlan::SavingPlan { .. }, CreateEvent::PlanSaved(_)) => true,
            (CreatePlan::SavingBeneficiaries { .. }, CreateEvent::BeneficiarySaved(_)) => true,
            (CreatePlan::Committing { .. }, CreateEvent::Committed(_)) => true,
            _ => false,
        }
    }

    /// What comes next, now that the last action came out as `event`.
    pub fn step(self, event: CreateEvent) -> (r: (CreatePlan, CreateAction))
        requires
            self.awaits(event),
        ensures
            create_continues(self, event, r.0, r.1),
    {
        match (self, event) {
            (CreatePlan::Opening { plan, amount }, CreateEvent::Began(Ok(_))) => {
                let (new, beneficiaries) = split_plan(plan, amount);
                (CreatePlan::SavingPlan { beneficiaries }, CreateAction::InsertPlan(new))
            },
            (CreatePlan::SavingPlan { beneficiaries }, CreateEvent::PlanSaved(Ok(row))) => {
                go_on(beneficiaries, row, Vec::new())
            },
            (
                CreatePlan::SavingBeneficiaries { beneficiaries, row, saved },
                CreateEvent::BeneficiarySaved(Ok(heir)),
            ) => {
                let mut saved = saved;
                saved.push(beneficiary_row_to_response(heir));
                go_on(beneficiaries, row, saved)
            },
            (CreatePlan::Committing { response }, CreateEvent::Committed(Ok(_))) => {
                (CreatePlan::Finished, CreateAction::Answer(Reply::Created(response)))
            },
            (_, CreateEvent::Began(Err(e))) => fail(
                INTERNAL_SERVER_ERROR,
                joined("Failed to begin database transaction: ", e.as_str()),
            ),
            (_, CreateEvent::PlanSaved(Err(e))) => fail(
                INTERNAL_SERVER_ERROR,
                joined("Failed to save plan: ", e.as_str()),
            ),
            (_, CreateEvent::BeneficiarySaved(Err(e))) => fail(
                INTERNAL_SERVER_ERROR,
                joined("Failed to save beneficiary: ", e.as_str()),
            ),
            (_, CreateEvent::Committed(Err(e))) => fail(
                INTERNAL_SERVER_ERROR,
                joined("Failed to commit database transaction: ", e.as_str()),
            ),
            _ => unreached(),
        }
    }
}

} // verus!
