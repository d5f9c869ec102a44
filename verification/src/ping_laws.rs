//! What holds of every ping, from its first action to its answer.

use crate::amount::{
    common_scale, exact_sum, law_same_digits, law_stripped, law_sum_grows, law_sum_rounds, sum,
    sums_exactly,
};
use crate::model::{PingRequest, PlanRow};
use crate::ping::{
    earns, ends_failing, ping_continues, ping_starts, PingAction, PingEvent, PingPlan,
};
use crate::reply::{Reply, UNAUTHORIZED};
use crate::signature::signed_by_owner;
use crate::yields::{law_rate_bits, law_seconds_since};
use vstd::arithmetic::power::pow;
use vstd::prelude::*;

verus! {

/// The history of one ping: `actions[0]` and `states[0]` are what `ping_plan` gives, and
/// `actions[i + 1]` and `states[i + 1]` what `step` gives in `states[i]` for `events[i]`.
pub struct PingRun {
    pub request: PingRequest,
    pub states: Seq<PingPlan>,
    pub events: Seq<PingEvent>,
    pub actions: Seq<PingAction>,
}

impl PingRun {
    /// Whether the account that the request names signed its message.
    pub open spec fn signed(self) -> bool {
        signed_by_owner(self.request.owner@, self.request.signature@, self.request.message@)
    }

    /// Whether `states[i + 1]` and `actions[i + 1]` follow `events[i]`.
    pub open spec fn follows(self, i: int) -> bool {
        &&& self.states[i].awaits(self.events[i])
        &&& ping_continues(self.states[i], self.events[i], self.states[i + 1], self.actions[i + 1])
    }

    /// Whether this is the history of a ping.
    pub open spec fn valid(self) -> bool {
        &&& self.states.len() == self.events.len() + 1
        &&& self.actions.len() == self.events.len() + 1
        &&& ping_starts(self.request.owner, self.signed(), self.states[0], self.actions[0])
        &&& forall|i: int| 0 <= i < self.events.len() ==> #[trigger] self.follows(i)
    }

    /// The plan that was fetched.
    pub open spec fn plan(self) -> PlanRow {
        self.events[0]->Fetched_plan->Ok_0->Some_0
    }

    /// The time that was read after the plan was fetched.
    pub open spec fn now(self) -> i64 {
        self.events[0]->Fetched_now
    }

    /// Whether a plan was fetched for an owner who signed.
    pub open spec fn fetched(self) -> bool {
        &&& self.signed()
        &&& self.actions[0] == (PingAction::Fetch { owner: self.request.owner })
        &&& self.events[0] is Fetched
        &&& self.events[0].failure() is None
    }
}

proof fn lemma_states(run: PingRun, k: int)
    requires
        run.valid(),
        0 <= k < run.states.len(),
    ensures
        match run.states[k] {
            PingPlan::Fetching => k == 0 && run.signed(),
            PingPlan::Accruing { plan, now } => {
                &&& k == 1
                &&& run.fetched()
                &&& plan == run.plan()
                &&& now == run.now()
                &&& earns(plan, now)
            },
            PingPlan::Updating { plan, accrued_yield } => {
                &&& 1 <= k <= 2
                &&& run.fetched()
                &&& plan == run.plan()
                &&& run.actions[k] == (PingAction::Update {
                    id: plan.id,
                    last_ping: run.now(),
                    accrued_yield,
                })
                &&& k == 2 ==> {
                    &&& earns(plan, run.now())
                    &&& run.states[1] is Accruing
                    &&& run.events[1] is Computed
                }
                &&& k == 1 ==> !earns(plan, run.now()) && accrued_yield == plan.accrued_yield
            },
            PingPlan::Finished => !(run.actions[k] is Update),
        },
    decreases k,
{
    if k > 0 {
        assert(run.follows(k - 1));
        lemma_states(run, k - 1);
    }
}

/// A ping that its owner did not sign reaches no database: it is answered at once.
pub proof fn law_unsigned_is_refused(run: PingRun)
    requires
        run.valid(),
        !run.signed(),
    ensures
        run.events.len() == 0,
        run.actions.len() == 1,
        ends_failing(run.states[0], run.actions[0], UNAUTHORIZED, "Invalid signature"@),
{
    if run.events.len() > 0 {
        assert(run.follows(0));
    }
}

/// A ping asks for at most one change: that of the plan that was fetched for the owner who
/// signed, which gets the time that was read as its last sign of life.
pub proof fn law_one_update(run: PingRun, k: int)
    requires
        run.valid(),
        0 <= k < run.actions.len(),
        run.actions[k] is Update,
    ensures
        run.fetched(),
        run.actions[k]->id == run.plan().id,
        run.actions[k]->last_ping == run.now(),
        k == (if earns(run.plan(), run.now()) {
            2int
        } else {
            1
        }),
        forall|j: int| 0 <= j < run.actions.len() && #[trigger] run.actions[j] is Update ==> j == k,
{
    if k > 0 {
        assert(run.follows(k - 1));
    }
    lemma_states(run, k);
    assert forall|j: int|
        0 <= j < run.actions.len() && #[trigger] run.actions[j] is Update implies j == k by {
        if j > 0 {
            assert(run.follows(j - 1));
        }
        lemma_states(run, j);
    }
}

/// The yield that is stored is what was stored before, where the plan earns none, or no time
/// passed since its last sign of life, or the yield is no decimal; else it is the sum of what
/// was stored before and of the yield, which is exact where it fits. That is never less than
/// what was stored before where the yield is more than nothing, and more where the yield is more
/// than half a unit of the last digit of the sum.
pub proof fn law_yield_credited(run: PingRun, k: int)
    requires
        run.valid(),
        0 <= k < run.actions.len(),
        run.actions[k] is Update,
    ensures
        !earns(run.plan(), run.now()) ==> run.actions[k]->Update_accrued_yield
            == run.plan().accrued_yield,
        earns(run.plan(), run.now()) ==> match run.events[1]->Computed_0 {
            None => run.actions[k]->Update_accrued_yield == run.plan().accrued_yield,
            Some(e) => {
                let before = run.plan().accrued_yield@;
                let earned = e@.stripped();
                let after = run.actions[k]->Update_accrued_yield@;
                &&& sum(before, earned) == Some(after)
                &&& before.mantissa != 0 && earned.mantissa != 0 && sums_exactly(before, earned)
                    ==> after == exact_sum(before, earned)
                &&& e@.mantissa == 0 && before.mantissa != 0 ==> after == before
                &&& before.mantissa == 0 ==> after == earned
                &&& before.valid() && e@.mantissa > 0 ==> !after.below(before)
                &&& before.valid() && e@.mantissa > 0 && {
                    let scale = common_scale(before, earned);
                    2 * earned.mantissa_at(scale) > pow(10, (scale - after.scale) as nat)
                } ==> before.below(after)
            },
        },
{
    law_one_update(run, k);
    lemma_states(run, k);
    assert(run.follows(k - 1));
    lemma_states(run, k - 1);
    if earns(run.plan(), run.now()) && run.events[1]->Computed_0 is Some {
        let before = run.plan().accrued_yield@;
        let earned = run.events[1]->Computed_0->0@.stripped();
        law_stripped(run.events[1]->Computed_0->0@);
        if before.mantissa != 0 && earned.mantissa != 0 {
            law_sum_rounds(before, earned);
        }
        if before.valid() && earned.mantissa > 0 {
            law_sum_grows(before, earned, run.actions[k]->Update_accrued_yield@);
        }
    }
}

/// The balance that is answered is the sum of the plan's amount and of the yield that was
/// stored just before, and it is answered only once that was stored.
pub proof fn law_balance_is_stored(run: PingRun, k: int)
    requires
        run.valid(),
        0 <= k < run.actions.len(),
        run.actions[k] is Answer,
        run.actions[k]->Answer_0 is Pinged,
    ensures
        k > 0,
        run.fetched(),
        run.actions[k - 1] is Update,
        run.events[k - 1] is Updated,
        run.events[k - 1].failure() is None,
        run.actions[k]->Answer_0->Pinged_0.owner == run.plan().owner_address,
        run.actions[k]->Answer_0->Pinged_0.status == run.plan().status,
        sum(run.plan().amount@, run.actions[k - 1]->Update_accrued_yield@) == Some(
            run.actions[k]->Answer_0->Pinged_0.virtual_balance@,
        ),
        run.plan().amount@.mantissa != 0 && run.actions[k - 1]->Update_accrued_yield@.mantissa != 0
            && sums_exactly(run.plan().amount@, run.actions[k - 1]->Update_accrued_yield@)
            ==> run.actions[k]->Answer_0->Pinged_0.virtual_balance@ == exact_sum(
            run.plan().amount@,
            run.actions[k - 1]->Update_accrued_yield@,
        ),
{
    if k > 0 {
        assert(run.follows(k - 1));
        lemma_states(run, k - 1);
        let amount = run.plan().amount@;
        let accrued = run.actions[k - 1]->Update_accrued_yield@;
        if amount.mantissa != 0 && accrued.mantissa != 0 {
            law_sum_rounds(amount, accrued);
        }
    }
}

/// A ping that finds the plan as another ping left it at the same second credits nothing: the
/// yield stays, and so does the last sign of life. Where the rest of the plan is as it was too
/// and both updates are done, the second ping is answered as the first was.
pub proof fn law_same_second(run: PingRun, again: PingRun, k: int, j: int)
    requires
        run.valid(),
        again.valid(),
        0 <= k < run.actions.len(),
        run.actions[k] is Update,
        0 <= j < again.actions.len(),
        again.actions[j] is Update,
        again.plan().last_ping == run.actions[k]->last_ping,
        again.plan().accrued_yield == run.actions[k]->Update_accrued_yield,
        again.now() == run.now(),
    ensures
        again.actions[j]->last_ping == run.actions[k]->last_ping,
        again.actions[j]->Update_accrued_yield == run.actions[k]->Update_accrued_yield,
        ({
            &&& again.plan() == (PlanRow {
                last_ping: again.plan().last_ping,
                accrued_yield: again.plan().accrued_yield,
                ..run.plan()
            })
            &&& k < run.events.len() && run.events[k].failure() is None
            &&& j < again.events.len() && again.events[j].failure() is None
        }) ==> again.actions[j + 1] == run.actions[k + 1],
{
    law_one_update(run, k);
    law_one_update(again, j);
    law_yield_credited(again, j);
    lemma_states(run, k);
    lemma_states(again, j);
    if k < run.events.len() && j < again.events.len() {
        assert(run.follows(k));
        assert(again.follows(j));
        if run.actions[k + 1] is Answer && again.actions[j + 1] is Answer {
            match (run.actions[k + 1]->Answer_0, again.actions[j + 1]->Answer_0) {
                (Reply::Pinged(a), Reply::Pinged(b)) => {
                    if a.virtual_balance@ == b.virtual_balance@ {
                        law_same_digits(a.virtual_balance, b.virtual_balance);
                    }
                },
                _ => {},
            }
        }
    }
}

/// The first action that fails ends the ping with a failure that names it; a plan that is not
/// found is such a failure, and then nothing is stored.
pub proof fn law_failure_ends(run: PingRun, i: int)
    requires
        run.valid(),
        0 <= i < run.events.len(),
        run.events[i].failure() is Some,
    ensures
        run.events.len() == i + 1,
        run.events[i].failure() matches Some((status, error)) && ends_failing(
            run.states[i + 1],
            run.actions[i + 1],
            status,
            error,
        ),
        run.events[i] is Fetched ==> forall|k: int|
            0 <= k < run.actions.len() ==> !(#[trigger] run.actions[k] is Update),
{
    assert(run.follows(i));
    if i + 1 < run.events.len() {
        assert(run.follows(i + 1));
    }
    if run.events[i] is Fetched {
        assert forall|k: int| 0 <= k < run.actions.len() implies !(
        #[trigger] run.actions[k] is Update) by {
            if run.actions[k] is Update {
                law_one_update(run, k);
                lemma_states(run, i);
            }
        }
    }
}

/// Where no action fails and no sum is out of range, a signed ping is answered with a balance:
/// after the plan was fetched, its yield computed where it earned any, and the plan updated.
pub proof fn law_signed_ping_is_answered(run: PingRun)
    requires
        run.valid(),
        run.signed(),
        run.events.len() > 0,
        forall|i: int| 0 <= i < run.events.len() ==> (#[trigger] run.events[i]).failure() is None,
        forall|i: int| 0 <= i < run.actions.len() ==> !(#[trigger] run.actions[i] is Overflow),
        run.events.len() == (if earns(run.plan(), run.now()) {
            3int
        } else {
            2
        }),
    ensures
        run.states.last() is Finished,
        run.actions.last() is Answer,
        run.actions.last()->Answer_0 is Pinged,
{
    let k = run.events.len() - 1;
    assert(run.events[k].failure() is None);
    assert(!(run.actions[k + 1] is Overflow));
    assert(run.follows(k));
    lemma_states(run, k);
    assert(run.follows(k - 1));
    lemma_states(run, k - 1);
}

/// Whether what was asked for came out well.
pub open spec fn went_well(event: PingEvent) -> bool {
    match event {
        PingEvent::Fetched { plan, .. } => plan is Ok && plan->Ok_0 is Some,
        PingEvent::Computed(_) => true,
        PingEvent::Updated(done) => done is Ok,
    }
}

/// A ping that its owner signed asks for their active plan first; any other ping is answered with
/// status 401 at once.
pub proof fn law_signature_decides(run: PingRun)
    requires
        run.valid(),
    ensures
        signed_by_owner(run.request.owner@, run.request.signature@, run.request.message@)
            ==> run.actions[0] == (PingAction::Fetch { owner: run.request.owner }),
        !signed_by_owner(run.request.owner@, run.request.signature@, run.request.message@) ==> {
            &&& run.events.len() == 0
            &&& run.actions[0] is Answer
            &&& run.actions[0]->Answer_0 matches Reply::Error { status, error } && status == 401
                && error@ == "Invalid signature"@
        },
{
    if !run.signed() {
        law_unsigned_is_refused(run);
    }
}

/// Once the plan is fetched, the yield of its amount at its rate over the seconds from its last
/// sign of life to the time that was read is asked for, where the plan earns yield and that time
/// is later. Else the plan is updated at once: it gets the time that was read and keeps its
/// yield.
pub proof fn law_fetched(run: PingRun)
    requires
        run.valid(),
        run.events.len() > 0,
        went_well(run.events[0]),
    ensures
        run.events[0] is Fetched,
        ({
            let plan = run.events[0]->Fetched_plan->Ok_0->Some_0;
            let now = run.events[0]->Fetched_now;
            &&& plan.earn_yield && now > plan.last_ping ==> {
                &&& run.actions[1] is ComputeYield
                &&& run.actions[1]->amount == plan.amount
                &&& run.actions[1]->rate_bps == plan.yield_rate_bps as u32
                &&& run.actions[1]->elapsed == now - plan.last_ping
            }
            &&& !plan.earn_yield || now <= plan.last_ping ==> run.actions[1] == (
            PingAction::Update {
                id: plan.id,
                last_ping: now,
                accrued_yield: plan.accrued_yield,
            })
        }),
{
    assert(run.follows(0));
    lemma_states(run, 0);
    let plan = run.events[0]->Fetched_plan->Ok_0->Some_0;
    law_rate_bits(plan.yield_rate_bps);
    law_seconds_since(plan.last_ping, run.events[0]->Fetched_now);
}

/// Once the yield is computed, the plan that was fetched is updated: it gets the time that was
/// read, and the yield on top of what it had, where the yield is a decimal. Where that sum is out
/// of range, the ping is over.
pub proof fn law_computed(run: PingRun, i: int)
    requires
        run.valid(),
        0 <= i < run.events.len(),
        run.events[i] is Computed,
    ensures
        i == 1,
        run.events[0] is Fetched,
        went_well(run.events[0]),
        ({
            let plan = run.events[0]->Fetched_plan->Ok_0->Some_0;
            let now = run.events[0]->Fetched_now;
            let before = plan.accrued_yield;
            let total = match run.events[1]->Computed_0 {
                None => Some(before@),
                Some(e) => sum(before@, e@.stripped()),
            };
            &&& plan.earn_yield && now > plan.last_ping
            &&& total is Some ==> {
                &&& run.actions[2] is Update
                &&& run.actions[2]->id == plan.id
                &&& run.actions[2]->last_ping == now
                &&& run.actions[2]->Update_accrued_yield@ == total->0
            }
            &&& total is None ==> run.actions[2] is Overflow && run.events.len() == 2
        }),
{
    assert(run.follows(i));
    lemma_states(run, i);
    assert(run.follows(0));
    law_seconds_since(run.plan().last_ping, run.now());
    if i + 1 < run.events.len() {
        assert(run.follows(i + 1));
    }
}

/// Once the plan is updated, the ping is answered with the owner and the status of the plan that
/// was fetched, and with its amount and the yield that was stored together. Where that sum is out
/// of range, the ping is over.
pub proof fn law_updated(run: PingRun, i: int)
    requires
        run.valid(),
        0 <= i < run.events.len(),
        run.events[i] is Updated,
        went_well(run.events[i]),
    ensures
        run.events.len() == i + 1,
        run.events[0] is Fetched,
        went_well(run.events[0]),
        run.actions[i] is Update,
        ({
            let plan = run.events[0]->Fetched_plan->Ok_0->Some_0;
            let now = run.events[0]->Fetched_now;
            let balance = sum(plan.amount@, run.actions[i]->Update_accrued_yield@);
            &&& i == (if plan.earn_yield && now > plan.last_ping {
                2int
            } else {
                1
            })
            &&& balance is None ==> run.actions[i + 1] is Overflow
            &&& balance is Some ==> {
                &&& run.actions[i + 1] is Answer
                &&& run.actions[i + 1]->Answer_0 matches Reply::Pinged(response)
                    && response.owner == plan.owner_address && response.status == plan.status
                    && response.virtual_balance@ == balance->0
            }
        }),
{
    assert(run.follows(i));
    lemma_states(run, i);
    law_seconds_since(run.plan().last_ping, run.now());
    if i + 1 < run.events.len() {
        assert(run.follows(i + 1));
    }
}

/// A plan that is not found ends the ping with status 404; a database that fails ends it with
/// status 500, and its words are told.
pub proof fn law_failure_words(run: PingRun, i: int)
    requires
        run.valid(),
        0 <= i < run.events.len(),
        !went_well(run.events[i]),
    ensures
        run.events.len() == i + 1,
        run.actions[i + 1] is Answer,
        run.actions[i + 1]->Answer_0 is Error,
        ({
            let status = run.actions[i + 1]->Answer_0->Error_status;
            let error = run.actions[i + 1]->Answer_0->error@;
            match run.events[i] {
                PingEvent::Fetched { plan: Ok(_), .. } => status == 404 && error
                    == "Active plan not found"@,
                PingEvent::Fetched { plan: Err(e), .. } => status == 500 && error
                    == "Database error: "@ + e@,
                PingEvent::Updated(done) => status == 500 && error == "Failed to update plan: "@
                    + done->Err_0@,
                PingEvent::Computed(_) => false,
            }
        }),
{
    law_failure_ends(run, i);
}

/// While the ping is not over, it takes whatever comes of the action that it asked for, and
/// nothing else; once it is over it takes nothing.
pub proof fn law_any_outcome_is_taken(run: PingRun, event: PingEvent)
    requires
        run.valid(),
    ensures
        run.states.last().awaits(event) <==> match run.actions.last() {
            PingAction::Fetch { .. } => event is Fetched,
            PingAction::ComputeYield { .. } => event is Computed,
            PingAction::Update { .. } => event is Updated,
            PingAction::Answer(_) => false,
            PingAction::Overflow => false,
        },
{
    let k = run.states.len() - 1;
    lemma_states(run, k);
    if k > 0 {
        assert(run.follows(k - 1));
        lemma_states(run, k - 1);
    }
}

} // verus!
