//! Listing plans: the plans that a query asks for, each with its heirs and with the yield that
//! it has accrued by now.
//!
//! The database, the clock and the yield formula do the work, one action after the other; after
//! each it is told here what comes next.

use crate::amount::{sum, Amount, Fixed};
use crate::model::{
    beneficiary_responses, load_beneficiaries, plan_row_to_response, shows_terms,
    BeneficiaryResponse, BeneficiaryRow, PlanQuery, PlanResponse, PlanRow,
};
use crate::reply::{Reply, INTERNAL_SERVER_ERROR};
use crate::text::joined;
use crate::yields::{accrual_terms, seconds_since, wrapped_u32};
use vstd::pervasive::unreached;
use vstd::prelude::*;
use vstd::string::*;

verus! {

/// Which stored plans are wanted. They are wanted latest first.
#[derive(Debug, Clone, PartialEq, Eq)]
pub enum PlanFilter {
    /// Those of an owner.
    Owner(String),
    /// Those that have an heir with a wallet address.
    Beneficiary(String),
    /// Those of an owner that have an heir with a wallet address.
    OwnerAndBeneficiary { owner: String, beneficiary: String },
    /// All.
    All,
}

impl PlanFilter {
    /// Whether a plan of `owner` is wanted whose heirs have the wallet addresses `heirs`.
    pub open spec fn admits(self, owner: Seq<char>, heirs: Set<Seq<char>>) -> bool {
        match self {
            PlanFilter::Owner(o) => owner == o@,
            PlanFilter::Beneficiary(b) => heirs.contains(b@),
            PlanFilter::OwnerAndBeneficiary { owner: o, beneficiary: b } => owner == o@
                && heirs.contains(b@),
            PlanFilter::All => true,
        }
    }
}

/// The plans that a query asks for.
pub open spec fn query_filter(query: PlanQuery) -> PlanFilter {
    match (query.owner, query.beneficiary) {
        (Some(owner), None) => PlanFilter::Owner(owner),
        (None, Some(beneficiary)) => PlanFilter::Beneficiary(beneficiary),
        (Some(owner), Some(beneficiary)) => PlanFilter::OwnerAndBeneficiary { owner, beneficiary },
        (None, None) => PlanFilter::All,
    }
}

/// The plans that a query asks for.
pub fn plan_filter(query: PlanQuery) -> (r: PlanFilter)
    ensures
        r == query_filter(query),
{
    match (query.owner, query.beneficiary) {
        (Some(owner), None) => PlanFilter::Owner(owner),
        (None, Some(beneficiary)) => PlanFilter::Beneficiary(beneficiary),
        (Some(owner), Some(beneficiary)) => PlanFilter::OwnerAndBeneficiary { owner, beneficiary },
        (None, None) => PlanFilter::All,
    }
}

/// A query asks for the plans that meet each condition that it gives, and no others.
pub proof fn law_query_conditions(query: PlanQuery, owner: Seq<char>, heirs: Set<Seq<char>>)
    ensures
        query_filter(query).admits(owner, heirs) <==> {
            &&& query.owner matches Some(o) ==> owner == o@
            &&& query.beneficiary matches Some(b) ==> heirs.contains(b@)
        },
{
}

/// A query asks by the conditions that it gives: by its owner, by its heir, by both, or for all;
/// and each filter admits a plan by what it names.
pub proof fn law_query_filter(query: PlanQuery, owner: Seq<char>, heirs: Set<Seq<char>>)
    ensures
        query.owner is Some && query.beneficiary is None ==> query_filter(query)
            == PlanFilter::Owner(query.owner->0),
        query.owner is None && query.beneficiary is Some ==> query_filter(query)
            == PlanFilter::Beneficiary(query.beneficiary->0),
        query.owner is Some && query.beneficiary is Some ==> query_filter(query) == (
        PlanFilter::OwnerAndBeneficiary {
            owner: query.owner->0,
            beneficiary: query.beneficiary->0,
        }),
        query.owner is None && query.beneficiary is None ==> query_filter(query)
            == PlanFilter::All,
        forall|o: String|
            #[trigger] PlanFilter::Owner(o).admits(owner, heirs) <==> owner == o@,
        forall|b: String|
            #[trigger] PlanFilter::Beneficiary(b).admits(owner, heirs) <==> heirs.contains(b@),
        forall|o: String, b: String|
            #[trigger] (PlanFilter::OwnerAndBeneficiary { owner: o, beneficiary: b }).admits(
                owner,
                heirs,
            ) <==> owner == o@ && heirs.contains(b@),
        PlanFilter::All.admits(owner, heirs),
{
}

/// How far a listing has come.
#[derive(Debug, Clone, PartialEq, Eq)]
pub enum GetPlans {
    /// The plans are being selected.
    Selecting,
    /// The heirs of the last plan of `pending` are being loaded. The plans that come after it
    /// in the listing stand before it there.
    Loading { pending: Vec<PlanRow>, responses: Vec<PlanResponse> },
    /// The yield of the last plan of `pending`, whose heirs are `heirs`, is being computed.
    Accruing {
        pending: Vec<PlanRow>,
        heirs: Vec<BeneficiaryResponse>,
        responses: Vec<PlanResponse>,
    },
    /// The request is answered.
    Finished,
}

/// What is to be done next.
#[derive(Debug, Clone, PartialEq, Eq)]
pub enum GetAction {
    Select(PlanFilter),
    /// The heirs of the plan with this identifier are to be loaded, and the clock to be read
    /// after that.
    LoadBeneficiaries(u128),
    /// The yield of `amount` at `rate_bps` over `elapsed` seconds is to be computed.
    ComputeYield { amount: Amount, rate_bps: u32, elapsed: u64 },
    Answer(Reply),
}

/// What came of an action, with the words of the database where it failed.
#[derive(Debug, PartialEq, Eq)]
pub enum GetEvent {
    Selected(Result<Vec<PlanRow>, String>),
    /// The heirs of the plan, and the time in seconds since the start of 1970.
    Loaded { heirs: Result<Vec<BeneficiaryRow>, String>, now: i64 },
    /// The yield as a decimal, where it can be written as one.
    Computed(Option<Amount>),
}

impl GetEvent {
    /// What the caller is told where the action failed.
    pub open spec fn failure(self) -> Option<Seq<char>> {
        match self {
            GetEvent::Selected(Err(e)) => Some("Database query failed: "@ + e@),
            GetEvent::Loaded { heirs: Err(e), .. } => Some("Failed to load beneficiaries: "@ + e@),
            _ => None,
        }
    }
}

/// Whether `row` accrues yield while it is listed: it does where it has a rate and gave a sign
/// of life. Whether the plan is set to earn yield makes no difference to what is listed; that
/// decides what a ping credits.
pub open spec fn accrues(row: PlanRow) -> bool {
    row.yield_rate_bps != 0 && row.last_ping != 0
}

/// Whether `action` asks for the yield of `row` since its last sign of life, up to `now`.
pub open spec fn asks_for_yield(row: PlanRow, now: i64, action: GetAction) -> bool {
    &&& action matches GetAction::ComputeYield { amount, rate_bps, elapsed }
    &&& amount == row.amount
    &&& rate_bps == wrapped_u32(row.yield_rate_bps)
    &&& elapsed == seconds_since(row.last_ping, now)
}

/// The yield that is listed: what is stored and what accrued since. What is stored alone is listed
/// where nothing accrued, or the sum is out of range.
pub open spec fn total_yield(stored: Fixed, earned: Option<Amount>) -> Fixed {
    match earned {
        None => stored,
        Some(e) => match sum(stored, e@.stripped()) {
            Some(total) => total,
            None => stored,
        },
    }
}

/// Whether `response` shows the plan `row` with the yield `earned` on top of what is stored, and
/// with the heirs `heirs`.
pub open spec fn shows_whole_plan(
    row: PlanRow,
    earned: Option<Amount>,
    heirs: Seq<BeneficiaryResponse>,
    response: PlanResponse,
) -> bool {
    &&& shows_terms(row, response)
    &&& response.accrued_yield@ == total_yield(row.accrued_yield@, earned)
    &&& response.beneficiaries@ == heirs
}

/// Whether the heirs of the first plan of `rows` are loaded next, after `responses`, or these
/// are the answer where no plan is left.
pub open spec fn lists_on(
    rows: Seq<PlanRow>,
    responses: Seq<PlanResponse>,
    next: GetPlans,
    action: GetAction,
) -> bool {
    if rows.len() > 0 {
        &&& next matches GetPlans::Loading { pending, responses: r }
        &&& pending@ == rows.reverse()
        &&& r@ == responses
        &&& action == GetAction::LoadBeneficiaries(rows[0].id)
    } else {
        &&& next is Finished
        &&& action matches GetAction::Answer(Reply::Plans(r))
        &&& r@ == responses
    }
}

/// What follows once the heirs and the yield of the last plan of `pending` are known: the plan
/// is shown after `responses`.
pub open spec fn shows_next(
    pending: Seq<PlanRow>,
    heirs: Seq<BeneficiaryResponse>,
    earned: Option<Amount>,
    responses: Seq<PlanResponse>,
    next: GetPlans,
    action: GetAction,
) -> bool {
    exists|response: PlanResponse|
        {
            &&& #[trigger] shows_whole_plan(pending.last(), earned, heirs, response)
            &&& lists_on(pending.drop_last().reverse(), responses.push(response), next, action)
        }
}

/// What follows `event` in the state `state`.
pub open spec fn get_continues(
    state: GetPlans,
    event: GetEvent,
    next: GetPlans,
    action: GetAction,
) -> bool {
    match event.failure() {
        Some(error) => {
            &&& next is Finished
            &&& action matches GetAction::Answer(reply)
            &&& reply.fails_with(INTERNAL_SERVER_ERROR, error)
        },
        None => match (state, event) {
            (GetPlans::Selecting, GetEvent::Selected(Ok(rows))) => lists_on(
                rows@,
                Seq::empty(),
                next,
                action,
            ),
            (
                GetPlans::Loading { pending, responses },
                GetEvent::Loaded { heirs: Ok(heirs), now },
            ) => if accrues(pending@.last()) {
                &&& next matches GetPlans::Accruing { pending: p, heirs: h, responses: r }
                &&& p == pending
                &&& h@ == beneficiary_responses(heirs@)
                &&& r == responses
                &&& asks_for_yield(pending@.last(), now, action)
            } else {
                shows_next(
                    pending@,
                    beneficiary_responses(heirs@),
                    None,
                    responses@,
                    next,
                    action,
                )
            },
            (
                GetPlans::Accruing { pending, heirs, responses },
                GetEvent::Computed(earned),
            ) => shows_next(pending@, heirs@, earned, responses@, next, action),
            _ => false,
        },
    }
}

/// The rows in the opposite order.
fn reversed(rows: Vec<PlanRow>) -> (r: Vec<PlanRow>)
    ensures
        r@ == rows@.reverse(),
{
    let ghost all = rows@;
    let mut rest = rows;
    let mut r: Vec<PlanRow> = Vec::new();
    while rest.len() > 0
        invariant
            rest@.len() <= all.len(),
            rest@ == all.take(rest@.len() as int),
            r@ == all.skip(rest@.len() as int).reverse(),
        decreases rest@.len(),
    {
        match rest.pop() {
            Some(row) => {
                r.push(row);
                assert(rest@ == all.take(rest@.len() as int));
                assert(r@ == all.skip(rest@.len() as int).reverse());
            },
            None => {},
        }
    }
    assert(all.skip(0) == all);
    r
}

/// The heirs of the next plan, or the answer.
fn list_on(pending: Vec<PlanRow>, responses: Vec<PlanResponse>) -> (r: (GetPlans, GetAction))
    ensures
        lists_on(pending@.reverse(), responses@, r.0, r.1),
{
    if pending.len() > 0 {
        let id = pending[pending.len() - 1].id;
        assert(pending@.reverse().reverse() == pending@);
        (GetPlans::Loading { pending, responses }, GetAction::LoadBeneficiaries(id))
    } else {
        (GetPlans::Finished, GetAction::Answer(Reply::Plans(responses)))
    }
}

/// The yield that a listing shows for `row`: what is stored, and `earned` on top of it, unless
/// the sum is out of range.
pub fn shown_yield(row: &PlanRow, earned: Option<Amount>) -> (r: Amount)
    ensures
        r@ == total_yield(row.accrued_yield@, earned),
{
    match earned {
        None => row.accrued_yield,
        Some(e) => match row.accrued_yield.plus(&e.normalize()) {
            Some(total) => total,
            None => row.accrued_yield,
        },
    }
}

/// Shows the last plan of `pending`, whose heirs and yield are known, and goes on.
fn show_next(
    pending: Vec<PlanRow>,
    heirs: Vec<BeneficiaryResponse>,
    earned: Option<Amount>,
    responses: Vec<PlanResponse>,
) -> (r: (GetPlans, GetAction))
    requires
        pending@.len() > 0,
    ensures
        shows_next(pending@, heirs@, earned, responses@, r.0, r.1),
{
    let ghost before = pending@;
    let mut pending = pending;
    let mut responses = responses;
    match pending.pop() {
        Some(row) => {
            let accrued_yield = shown_yield(&row, earned);
            let mut response = plan_row_to_response(row, heirs);
            response.accrued_yield = accrued_yield;
            assert(shows_whole_plan(before.last(), earned, heirs@, response));
            assert(pending@ == before.drop_last());
            responses.push(response);
            list_on(pending, responses)
        },
        None => unreached(),
    }
}

/// The end of a request that failed.
fn fail(error: String) -> (r: (GetPlans, GetAction))
    ensures
        r.0 is Finished,
        r.1 matches GetAction::Answer(reply) && reply.fails_with(INTERNAL_SERVER_ERROR, error@),
{
    (
        GetPlans::Finished,
        GetAction::Answer(Reply::Error { status: INTERNAL_SERVER_ERROR, error }),
    )
}

/// Takes up a request to list the plans that `query` asks for.
pub fn get_plans(query: PlanQuery) -> (r: (GetPlans, GetAction))
    ensures
        r.0 is Selecting,
        r.1 == GetAction::Select(query_filter(query)),
{
    (GetPlans::Selecting, GetAction::Select(plan_filter(query)))
}

impl GetPlans {
    /// Whether `event` tells what came of the last action.
    pub open spec fn awaits(self, event: GetEvent) -> bool {
        match self {
            GetPlans::Selecting => event is Selected,
            GetPlans::Loading { pending, .. } => event is Loaded && pending@.len() > 0,
            GetPlans::Accruing { pending, .. } => event is Computed && pending@.len() > 0,
            GetPlans::Finished => false,
        }
    }

    /// Whether `event` tells what came of the last action.
    pub fn expects(&self, event: &GetEvent) -> (r: bool)
        ensures
            r == self.awaits(*event),
    {
        match (self, event) {
            (GetPlans::Selecting, GetEvent::Selected(_)) => true,
            (GetPlans::Loading { pending, .. }, GetEvent::Loaded { .. }) => pending.len() > 0,
            (GetPlans::Accruing { pending, .. }, GetEvent::Computed(_)) => pending.len() > 0,
            _ => false,
        }
    }

    /// What comes next, now that the last action came out as `event`.
    pub fn step(self, event: GetEvent) -> (r: (GetPlans, GetAction))
        requires
            self.awaits(event),
        ensures
            get_continues(self, event, r.0, r.1),
    {
        match (self, event) {
            (GetPlans::Selecting, GetEvent::Selected(Ok(rows))) => {
                let ghost stored = rows@;
                assert(stored.reverse().reverse() == stored);
                list_on(reversed(rows), Vec::new())
            },
            (
                GetPlans::Loading { pending, responses },
                GetEvent::Loaded { heirs: Ok(heirs), now },
            ) => {
                let row = &pending[pending.len() - 1];
                let heirs = load_beneficiaries(heirs);
                match accrual_terms(row.yield_rate_bps, row.last_ping, now) {
                    Some((rate_bps, elapsed)) => {
                        let action = GetAction::ComputeYield {
                            amount: row.amount,
                            rate_bps,
                            elapsed,
                        };
                        (GetPlans::Accruing { pending, heirs, responses }, action)
                    },
                    None => show_next(pending, heirs, None, responses),
                }
            },
            (GetPlans::Accruing { pending, heirs, responses }, GetEvent::Computed(earned)) => {
                show_next(pending, heirs, earned, responses)
            },
            (_, GetEvent::Selected(Err(e))) => fail(joined("Database query failed: ", e.as_str())),
            (_, GetEvent::Loaded { heirs: Err(e), .. }) => fail(
                joined("Failed to load beneficiaries: ", e.as_str()),
            ),
            _ => unreached(),
        }
    }
}

} // verus!
