//! What holds of every request to create a plan, from its first action to its answer.

use crate::amount::{law_stripped, Amount};
use crate::create::{
    create_continues, create_starts, ends_failing, CreateAction, CreateEvent, CreatePlan,
};
use crate::model::{
    beneficiary_response, shows_plan, BeneficiaryRow, Plan, PlanResponse, PlanRow,
};
use crate::plan::{law_accepted_plan, plan_error, stores_heir, stores_plan, PlanError};
use crate::reply::{Reply, BAD_REQUEST, INTERNAL_SERVER_ERROR};
use vstd::arithmetic::power::pow;
use vstd::prelude::*;

verus! {

/// The history of one request: `actions[0]` and `states[0]` are what `create_plan` gives, and
/// `actions[i + 1]` and `states[i + 1]` what `step` gives in `states[i]` for `events[i]`.
pub struct CreateRun {
    pub plan: Plan,
    pub amount: Option<Amount>,
    pub states: Seq<CreatePlan>,
    pub events: Seq<CreateEvent>,
    pub actions: Seq<CreateAction>,
}

impl CreateRun {
    /// Whether `states[i + 1]` and `actions[i + 1]` follow `events[i]`.
    pub open spec fn follows(self, i: int) -> bool {
        &&& self.states[i].awaits(self.events[i])
        &&& create_continues(
            self.states[i],
            self.events[i],
            self.states[i + 1],
            self.actions[i + 1],
        )
    }

    /// Whether this is the history of a request.
    pub open spec fn valid(self) -> bool {
        &&& self.states.len() == self.events.len() + 1
        &&& self.actions.len() == self.events.len() + 1
        &&& create_starts(self.plan, self.amount, self.states[0], self.actions[0])
        &&& forall|i: int| 0 <= i < self.events.len() ==> #[trigger] self.follows(i)
    }

    /// How many heirs the plan has.
    pub open spec fn heirs(self) -> nat {
        self.plan.beneficiaries@.len()
    }

    /// The stored plan that the database reported.
    pub open spec fn plan_row(self) -> PlanRow {
        self.events[1]->PlanSaved_0->Ok_0
    }

    /// The stored heir that the database reported for the heir `j` of the plan.
    pub open spec fn heir_row(self, j: int) -> BeneficiaryRow {
        self.events[j + 2]->BeneficiarySaved_0->Ok_0
    }

    /// Whether the heir `j` was stored as asked for and reported so.
    pub open spec fn heir_done(self, j: int) -> bool {
        &&& self.actions[j + 2] matches CreateAction::InsertBeneficiary(new)
        &&& stores_heir(self.plan_row().id, self.plan.beneficiaries@[j], new)
        &&& self.events[j + 2] is BeneficiarySaved
        &&& self.events[j + 2]->BeneficiarySaved_0 is Ok
    }

    /// Whether the plan was stored as asked for and reported so.
    pub open spec fn plan_done(self) -> bool {
        &&& self.amount matches Some(amount)
        &&& self.states[0] matches CreatePlan::Opening { plan: _, amount: stripped }
        &&& stripped@ == amount@.stripped()
        &&& self.actions[1] matches CreateAction::InsertPlan(new)
        &&& stores_plan(self.plan, stripped, new)
        &&& self.events[1] is PlanSaved
        &&& self.events[1]->PlanSaved_0 is Ok
    }

    /// Whether the action `k` is a commit that came out well.
    pub open spec fn commits(self, k: int) -> bool {
        &&& 0 <= k < self.events.len()
        &&& self.actions[k] is Commit
        &&& self.events[k].failure() is None
    }

    /// Whether the plan was reported as created in the end.
    pub open spec fn is_created(self) -> bool {
        self.actions.last() is Answer && self.actions.last()->Answer_0 is Created
    }

    /// The plan as it was reported in the end.
    pub open spec fn response(self) -> PlanResponse {
        self.actions.last()->Answer_0->Created_0
    }

    /// What the state `k` of a request is that is not answered yet.
    spec fn underway(self, k: int) -> bool {
        &&& plan_error(self.plan) is None
        &&& self.amount is Some
        &&& self.actions[0] is Begin
        &&& self.states[0] is Opening
        &&& k <= self.heirs() + 2
        &&& k >= 1 ==> {
            &&& self.events[0] is Began
            &&& self.events[0].failure() is None
            &&& self.actions[1] is InsertPlan
        }
        &&& match self.states[k] {
            CreatePlan::Opening { plan, amount } => {
                &&& k == 0
                &&& plan == self.plan
                &&& amount@ == self.amount->0@.stripped()
            },
            CreatePlan::SavingPlan { beneficiaries } => {
                &&& k == 1
                &&& beneficiaries == self.plan.beneficiaries
                &&& self.actions[1] matches CreateAction::InsertPlan(new)
                &&& self.states[0] matches CreatePlan::Opening { plan: _, amount }
                &&& amount@ == self.amount->0@.stripped()
                &&& stores_plan(self.plan, amount, new)
            },
            CreatePlan::SavingBeneficiaries { beneficiaries, row, saved } => {
                &&& 2 <= k < self.heirs() + 2
                &&& self.plan_done()
                &&& beneficiaries@ == self.plan.beneficiaries@
                &&& row == self.plan_row()
                &&& saved@.len() == k - 2
                &&& self.actions[k] matches CreateAction::InsertBeneficiary(new)
                &&& stores_heir(row.id, beneficiaries@[k - 2], new)
                &&& forall|j: int|
                    0 <= j < k - 2 ==> #[trigger] self.heir_done(j) && saved@[j]
                        == beneficiary_response(self.heir_row(j))
            },
            CreatePlan::Committing { response } => {
                &&& k == self.heirs() + 2
                &&& self.plan_done()
                &&& self.actions[k] is Commit
                &&& shows_plan(self.plan_row(), response)
                &&& response.beneficiaries@.len() == self.heirs()
                &&& forall|j: int|
                    0 <= j < self.heirs() ==> #[trigger] self.heir_done(j)
                        && response.beneficiaries@[j] == beneficiary_response(self.heir_row(j))
            },
            CreatePlan::Finished => false,
        }
    }
}

proof fn lemma_underway(run: CreateRun, k: int)
    requires
        run.valid(),
        0 <= k < run.states.len(),
        !(run.states[k] is Finished),
    ensures
        run.underway(k),
    decreases k,
{
    if k > 0 {
        assert(run.follows(k - 1));
        lemma_underway(run, k - 1);
        law_accepted_plan(run.plan);
        match run.states[k - 1] {
            CreatePlan::SavingBeneficiaries { beneficiaries, row, saved } => {
                assert(run.heir_done(k - 3));
                let now = saved@.push(beneficiary_response(run.heir_row(k - 3)));
                assert forall|j: int| 0 <= j < k - 2 implies #[trigger] run.heir_done(j) && now[j]
                    == beneficiary_response(run.heir_row(j)) by {
                    if j < k - 3 {
                        assert(run.heir_done(j));
                    }
                }
            },
            _ => {},
        }
    }
}

/// While a transaction is being committed, the report is ready.
pub(crate) proof fn lemma_committing(run: CreateRun, k: int)
    requires
        run.valid(),
        0 <= k < run.actions.len(),
        run.actions[k] is Commit,
    ensures
        run.states[k] is Committing,
{
    if k > 0 {
        assert(run.follows(k - 1));
        lemma_underway(run, k - 1);
    }
    lemma_underway(run, k);
}

/// A request that is refused reaches no database: it is answered at once, with the first thing
/// that is wrong with the plan, or that its amount is no decimal.
pub proof fn law_refused_at_once(run: CreateRun)
    requires
        run.valid(),
        plan_error(run.plan) is Some || run.amount is None,
    ensures
        run.events.len() == 0,
        run.actions.len() == 1,
        ends_failing(
            run.states[0],
            run.actions[0],
            BAD_REQUEST,
            match plan_error(run.plan) {
                Some(error) => error.text(),
                None => PlanError::InvalidAmount.text(),
            },
        ),
{
    if run.events.len() > 0 {
        assert(run.follows(0));
    }
}

/// A transaction is committed only after the plan and then each of its heirs were stored, in
/// the order of the request and each exactly once.
pub proof fn law_commit_comes_last(run: CreateRun, k: int)
    requires
        run.valid(),
        0 <= k < run.actions.len(),
        run.actions[k] is Commit,
    ensures
        plan_error(run.plan) is None,
        k == run.heirs() + 2,
        run.actions[0] is Begin,
        run.events[0] is Began,
        run.events[0].failure() is None,
        run.plan_done(),
        forall|j: int| 0 <= j < run.heirs() ==> #[trigger] run.heir_done(j),
{
    if k > 0 {
        assert(run.follows(k - 1));
        lemma_underway(run, k - 1);
    }
    lemma_underway(run, k);
}

/// A plan is reported as created only after the commit succeeded, and the report shows what the
/// database reported of the plan and of each of its heirs.
pub proof fn law_created_is_committed(run: CreateRun, k: int)
    requires
        run.valid(),
        0 <= k < run.actions.len(),
        run.actions[k] is Answer,
        run.actions[k]->Answer_0 is Created,
    ensures
        k == run.heirs() + 3,
        run.actions[k - 1] is Commit,
        run.events[k - 1] is Committed,
        run.events[k - 1].failure() is None,
        shows_plan(run.plan_row(), run.actions[k]->Answer_0->Created_0),
        run.actions[k]->Answer_0->Created_0.beneficiaries@.len() == run.heirs(),
        forall|j: int|
            0 <= j < run.heirs() ==> run.actions[k]->Answer_0->Created_0.beneficiaries@[j]
                == beneficiary_response(#[trigger] run.heir_row(j)),
{
    if k > 0 {
        assert(run.follows(k - 1));
        lemma_underway(run, k - 1);
        let response = run.actions[k]->Answer_0->Created_0;
        assert forall|j: int| 0 <= j < run.heirs() implies response.beneficiaries@[j]
            == beneficiary_response(#[trigger] run.heir_row(j)) by {
            assert(run.heir_done(j));
        }
    }
}

/// The first action that fails ends the request with an internal error that names it. Nothing
/// is asked of the database after that, and, unless it was the commit that failed, no commit is
/// asked for at all.
pub proof fn law_failure_ends(run: CreateRun, i: int)
    requires
        run.valid(),
        0 <= i < run.events.len(),
        run.events[i].failure() is Some,
    ensures
        run.events.len() == i + 1,
        ends_failing(
            run.states[i + 1],
            run.actions[i + 1],
            INTERNAL_SERVER_ERROR,
            run.events[i].failure()->0,
        ),
        forall|k: int|
            0 <= k < run.actions.len() && !(run.events[i] is Committed) ==> !(
            #[trigger] run.actions[k] is Commit),
{
    assert(run.follows(i));
    if i + 1 < run.events.len() {
        assert(run.follows(i + 1));
    }
    assert forall|k: int|
        0 <= k < run.actions.len() && !(run.events[i] is Committed) implies !(
    #[trigger] run.actions[k] is Commit) by {
        if run.actions[k] is Commit {
            law_commit_comes_last(run, k);
            lemma_underway(run, i);
            if k < i {
                assert(run.follows(k));
                lemma_underway(run, k);
            }
        }
    }
}

/// Where no action fails, a plan that is accepted is created: after one action for the
/// transaction, one for the plan, one for each heir and the commit comes the report.
pub proof fn law_accepted_plan_is_created(run: CreateRun)
    requires
        run.valid(),
        plan_error(run.plan) is None,
        run.amount is Some,
        run.events.len() == run.heirs() + 3,
        forall|i: int| 0 <= i < run.events.len() ==> (#[trigger] run.events[i]).failure() is None,
    ensures
        run.states.last() is Finished,
        run.actions.last() is Answer,
        run.actions.last()->Answer_0 is Created,
{
    let k = run.events.len() - 1;
    assert(run.follows(k));
    assert(run.events[k].failure() is None);
    lemma_underway(run, k);
}

/// Whether what was asked for came out well.
pub open spec fn went_well(event: CreateEvent) -> bool {
    match event {
        CreateEvent::Began(done) => done is Ok,
        CreateEvent::PlanSaved(row) => row is Ok,
        CreateEvent::BeneficiarySaved(row) => row is Ok,
        CreateEvent::Committed(done) => done is Ok,
    }
}

/// A plan that is accepted and whose amount is a decimal opens a transaction. Any other is
/// answered with status 400 at once, with what is wrong with it.
pub proof fn law_first_action(run: CreateRun)
    requires
        run.valid(),
    ensures
        plan_error(run.plan) is None && run.amount is Some ==> run.actions[0] is Begin,
        plan_error(run.plan) is Some || run.amount is None ==> {
            &&& run.events.len() == 0
            &&& run.actions[0] is Answer
            &&& run.actions[0]->Answer_0 matches Reply::Error { status, error } && status == 400
                && error@ == (if plan_error(run.plan) is Some {
                plan_error(run.plan)->0.text()
            } else {
                "Invalid amount representation"@
            })
        },
{
    if plan_error(run.plan) is Some || run.amount is None {
        law_refused_at_once(run);
    }
}

/// What is asked for after the transaction is open is to store the plan as the request has it:
/// its owner, token, yield and state as they are, its amount without zeros at the end, its time
/// of grace twice and its rate by their bits, no yield so far, and the status of an active plan.
pub proof fn law_plan_is_stored_as_asked(run: CreateRun)
    requires
        run.valid(),
        run.events.len() > 0,
        went_well(run.events[0]),
    ensures
        run.events[0] is Began,
        run.actions[1] is InsertPlan,
        run.amount is Some,
        ({
            let plan = run.plan;
            let new = run.actions[1]->InsertPlan_0;
            let amount = run.amount->0@;
            &&& new.owner_address == plan.owner
            &&& new.token_address == plan.token
            &&& new.amount@.mantissa * pow(10, (amount.scale - new.amount@.scale) as nat)
                == amount.mantissa
            &&& new.amount@.scale <= amount.scale
            &&& new.amount@.scale == 0 || new.amount@.mantissa % 10 != 0
            &&& new.grace_period == plan.grace_period as i64
            &&& new.grace_period_seconds == plan.grace_period as i64
            &&& new.earn_yield == plan.earn_yield
            &&& new.yield_rate_bps == plan.yield_rate_bps as i32
            &&& new.accrued_yield@.mantissa == 0
            &&& new.last_ping == plan.last_ping
            &&& new.is_active == plan.is_active
            &&& new.status@ == "ACTIVE"@
        }),
{
    assert(run.follows(0));
    lemma_underway(run, 0);
    law_stripped(run.amount->0@);
    let g = run.plan.grace_period;
    let r = run.plan.yield_rate_bps;
    assert(g < 0x8000_0000_0000_0000 ==> g as i64 == g) by (bit_vector);
    assert(g >= 0x8000_0000_0000_0000 ==> g as i64 == g - 0x1_0000_0000_0000_0000) by (bit_vector);
    assert(r < 0x8000_0000 ==> r as i32 == r) by (bit_vector);
    assert(r >= 0x8000_0000 ==> r as i32 == r - 0x1_0000_0000) by (bit_vector);
}

/// What is asked for after the plan is stored is to store its heirs, one after the other in the
/// order of the request, each under the identifier that was reported for the plan, with its
/// address, its share and its details as the request has them; after the last, to commit; and
/// after that nothing, but the report: it shows what was reported of the plan.
pub proof fn law_creation(run: CreateRun, k: int)
    requires
        run.valid(),
        1 < k < run.actions.len(),
        went_well(run.events[k - 1]),
    ensures
        plan_error(run.plan) is None,
        k <= run.plan.beneficiaries@.len() + 3,
        run.events[1] is PlanSaved,
        run.events[1]->PlanSaved_0 is Ok,
        k < run.plan.beneficiaries@.len() + 2 ==> {
            let heir = run.plan.beneficiaries@[k - 2];
            &&& run.actions[k] is InsertBeneficiary
            &&& run.actions[k]->InsertBeneficiary_0.plan_id == run.events[1]->PlanSaved_0->Ok_0.id
            &&& run.actions[k]->InsertBeneficiary_0.wallet_address == heir.address
            &&& run.actions[k]->InsertBeneficiary_0.allocation_bps == heir.allocation_bps
            &&& run.actions[k]->InsertBeneficiary_0.fiat_anchor_info == heir.fiat_anchor_info
        },
        k == run.plan.beneficiaries@.len() + 2 ==> run.actions[k] is Commit,
        k == run.plan.beneficiaries@.len() + 3 ==> {
            let row = run.events[1]->PlanSaved_0->Ok_0;
            let shown = run.actions[k]->Answer_0->Created_0;
            &&& run.events.len() == k
            &&& run.actions[k] is Answer
            &&& run.actions[k]->Answer_0 is Created
            &&& shown.id == row.id
            &&& shown.owner_address == row.owner_address
            &&& shown.token_address == row.token_address
            &&& shown.amount == row.amount
            &&& shown.grace_period == row.grace_period
            &&& shown.grace_period_seconds == row.grace_period_seconds
            &&& shown.earn_yield == row.earn_yield
            &&& shown.last_ping == row.last_ping
            &&& shown.is_active == row.is_active
            &&& shown.status == row.status
            &&& shown.yield_rate_bps == row.yield_rate_bps
            &&& shown.accrued_yield == row.accrued_yield
            &&& shown.created_at == row.created_at
            &&& shown.beneficiaries@.len() == run.plan.beneficiaries@.len()
        },
{
    assert(run.follows(k - 1));
    assert(run.follows(k - 2));
    lemma_underway(run, k - 1);
    law_accepted_plan(run.plan);
    if run.states[k] is Finished {
        if k < run.events.len() {
            assert(run.follows(k));
        }
    } else {
        lemma_underway(run, k);
    }
}

/// The report shows the heirs in the order of the request, each as it was reported when it was
/// stored.
pub proof fn law_reported_heir(run: CreateRun, k: int, j: int)
    requires
        run.valid(),
        0 <= k < run.actions.len(),
        run.actions[k] is Answer,
        run.actions[k]->Answer_0 is Created,
        0 <= j < run.plan.beneficiaries@.len(),
    ensures
        run.actions[k]->Answer_0->Created_0.beneficiaries@.len() == run.plan.beneficiaries@.len(),
        run.events[j + 2] is BeneficiarySaved,
        run.events[j + 2]->BeneficiarySaved_0 is Ok,
        ({
            let heir = run.events[j + 2]->BeneficiarySaved_0->Ok_0;
            let shown = run.actions[k]->Answer_0->Created_0.beneficiaries@[j];
            &&& shown.id == heir.id
            &&& shown.plan_id == heir.plan_id
            &&& shown.wallet_address == heir.wallet_address
            &&& shown.allocation_bps == heir.allocation_bps
            &&& shown.fiat_anchor_info == heir.fiat_anchor_info
        }),
{
    law_created_is_committed(run, k);
    law_commit_comes_last(run, k - 1);
    assert(run.heir_done(j));
    assert(run.actions[k]->Answer_0->Created_0.beneficiaries@[j] == beneficiary_response(
        run.heir_row(j),
    ));
}

/// A database that fails ends the request with status 500, and its words are told.
pub proof fn law_failure_words(run: CreateRun, i: int)
    requires
        run.valid(),
        0 <= i < run.events.len(),
        !went_well(run.events[i]),
    ensures
        run.events.len() == i + 1,
        run.actions[i + 1] is Answer,
        run.actions[i + 1]->Answer_0 matches Reply::Error { status, error } && status == 500
            && error@ == match run.events[i] {
            CreateEvent::Began(done) => "Failed to begin database transaction: "@ + done->Err_0@,
            CreateEvent::PlanSaved(row) => "Failed to save plan: "@ + row->Err_0@,
            CreateEvent::BeneficiarySaved(row) => "Failed to save beneficiary: "@ + row->Err_0@,
            CreateEvent::Committed(done) => "Failed to commit database transaction: "@
                + done->Err_0@,
        },
{
    law_failure_ends(run, i);
}

/// While no answer is given, the request takes whatever comes of the action that it asked for,
/// and nothing else; once it is answered it takes nothing.
pub proof fn law_any_outcome_is_taken(run: CreateRun, event: CreateEvent)
    requires
        run.valid(),
    ensures
        run.states.last().awaits(event) <==> match run.actions.last() {
            CreateAction::Begin => event is Began,
            CreateAction::InsertPlan(_) => event is PlanSaved,
            CreateAction::InsertBeneficiary(_) => event is BeneficiarySaved,
            CreateAction::Commit => event is Committed,
            CreateAction::Answer(_) => false,
        },
{
    let k = run.states.len() - 1;
    if k > 0 {
        assert(run.follows(k - 1));
        lemma_underway(run, k - 1);
    }
    if !(run.states[k] is Finished) {
        lemma_underway(run, k);
    }
}

} // verus!
