//! What holds of every request to list plans, from its first action to its answer.

use crate::amount::{
    common_scale, exact_sum, law_same_digits, law_stripped, law_sum_grows, law_sum_rounds, sum,
    sums_exactly, Amount,
};
use crate::list::{
    accrues, asks_for_yield, get_continues, lists_on, query_filter, shows_whole_plan, total_yield,
    GetAction, GetEvent, GetPlans,
};
use crate::model::{
    beneficiary_responses, law_heirs_are_shown, BeneficiaryRow, PlanQuery, PlanResponse, PlanRow,
};
use crate::reply::{Reply, INTERNAL_SERVER_ERROR};
use crate::yields::{law_rate_bits, law_seconds_since};
use vstd::arithmetic::power::pow;
use vstd::prelude::*;

verus! {

/// The history of one request: `actions[0]` and `states[0]` are what `get_plans` gives, and
/// `actions[i + 1]` and `states[i + 1]` what `step` gives in `states[i]` for `events[i]`.
pub struct GetRun {
    pub query: PlanQuery,
    pub states: Seq<GetPlans>,
    pub events: Seq<GetEvent>,
    pub actions: Seq<GetAction>,
}

impl GetRun {
    /// Whether `states[i + 1]` and `actions[i + 1]` follow `events[i]`.
    pub open spec fn follows(self, i: int) -> bool {
        &&& self.states[i].awaits(self.events[i])
        &&& get_continues(self.states[i], self.events[i], self.states[i + 1], self.actions[i + 1])
    }

    /// Whether this is the history of a request.
    pub open spec fn valid(self) -> bool {
        &&& self.states.len() == self.events.len() + 1
        &&& self.actions.len() == self.events.len() + 1
        &&& self.states[0] is Selecting
        &&& self.actions[0] == GetAction::Select(query_filter(self.query))
        &&& forall|i: int| 0 <= i < self.events.len() ==> #[trigger] self.follows(i)
    }

    /// Whether `plans` is the answer `k`.
    pub open spec fn answers(self, k: int, plans: Seq<PlanResponse>) -> bool {
        &&& 0 <= k < self.actions.len()
        &&& self.actions[k] is Answer
        &&& self.actions[k]->Answer_0 is Plans
        &&& self.actions[k]->Answer_0->Plans_0@ == plans
    }

    /// The plans that the database selected.
    pub open spec fn rows(self) -> Seq<PlanRow> {
        self.events[0]->Selected_0->Ok_0@
    }

    /// Where the heirs of the plan `j` are asked for: each plan before it took one action, and
    /// one more where it has a rate and gave a sign of life, for its yield.
    pub open spec fn at(self, j: int) -> int
        decreases j,
    {
        if j <= 0 {
            1
        } else if self.rows()[j - 1].yield_rate_bps != 0 && self.rows()[j - 1].last_ping != 0 {
            self.at(j - 1) + 2
        } else {
            self.at(j - 1) + 1
        }
    }

    /// The heirs that the database reported for the plan `j`.
    pub open spec fn heirs(self, j: int) -> Seq<BeneficiaryRow> {
        self.events[self.at(j)]->Loaded_heirs->Ok_0@
    }

    /// The time that was read after the heirs of the plan `j` were loaded.
    pub open spec fn now(self, j: int) -> i64 {
        self.events[self.at(j)]->Loaded_now
    }

    /// The yield that the plan `j` accrued since its last sign of life, where there is any.
    pub open spec fn earned(self, j: int) -> Option<Amount> {
        if self.rows()[j].yield_rate_bps != 0 && self.rows()[j].last_ping != 0 {
            self.events[self.at(j) + 1]->Computed_0
        } else {
            None
        }
    }

    /// Whether the heirs of the plan `j` were asked for and reported.
    pub open spec fn heirs_loaded(self, j: int) -> bool {
        &&& self.actions[self.at(j)] == GetAction::LoadBeneficiaries(self.rows()[j].id)
        &&& self.events[self.at(j)] is Loaded
        &&& self.events[self.at(j)].failure() is None
    }

    /// Whether the heirs of the plan `j` were loaded, its yield up to the time that was read
    /// then was computed where it accrues any, and both are shown in `response`.
    pub open spec fn listed(self, j: int, response: PlanResponse) -> bool {
        let row = self.rows()[j];
        &&& self.heirs_loaded(j)
        &&& accrues(row) ==> {
            &&& asks_for_yield(row, self.now(j), self.actions[self.at(j) + 1])
            &&& self.events[self.at(j) + 1] is Computed
        }
        &&& shows_whole_plan(
            row,
            self.earned(j),
            beneficiary_responses(self.heirs(j)),
            response,
        )
    }

    /// Whether the plans were selected, and the first of them listed in `responses`.
    pub open spec fn all_listed(self, responses: Seq<PlanResponse>) -> bool {
        &&& self.events[0] is Selected
        &&& self.events[0].failure() is None
        &&& responses.len() <= self.rows().len()
        &&& forall|j: int| 0 <= j < responses.len() ==> self.listed(j, #[trigger] responses[j])
    }

    /// What the state `k` of a request is whose plans are selected and that is not over yet.
    spec fn underway(self, k: int) -> bool {
        match self.states[k] {
            GetPlans::Loading { pending, responses } => {
                let j = responses@.len() as int;
                &&& self.all_listed(responses@)
                &&& j < self.rows().len()
                &&& k == self.at(j)
                &&& pending@ == self.rows().skip(j).reverse()
                &&& self.actions[k] == GetAction::LoadBeneficiaries(self.rows()[j].id)
            },
            GetPlans::Accruing { pending, heirs, responses } => {
                let j = responses@.len() as int;
                &&& self.all_listed(responses@)
                &&& j < self.rows().len()
                &&& k == self.at(j) + 1
                &&& pending@ == self.rows().skip(j).reverse()
                &&& self.heirs_loaded(j)
                &&& heirs@ == beneficiary_responses(self.heirs(j))
                &&& accrues(self.rows()[j])
                &&& asks_for_yield(self.rows()[j], self.now(j), self.actions[k])
            },
            _ => false,
        }
    }

    /// Whether the plans up to some were listed, and the next of them, or the answer, follows.
    spec fn listed_up_to(self, k: int, responses: Seq<PlanResponse>) -> bool {
        &&& self.all_listed(responses)
        &&& k == self.at(responses.len() as int)
        &&& lists_on(
            self.rows().skip(responses.len() as int),
            responses,
            self.states[k],
            self.actions[k],
        )
    }
}

proof fn lemma_underway(run: GetRun, k: int)
    requires
        run.valid(),
        0 < k < run.states.len(),
        !(run.states[k] is Finished),
    ensures
        run.underway(k),
    decreases k,
{
    assert(run.follows(k - 1));
    if k == 1 {
        assert(run.rows().skip(0) == run.rows());
    } else {
        assert(run.follows(k - 2));
        lemma_underway(run, k - 1);
        if !(run.states[k] is Accruing) {
            let responses = lemma_shown(run, k);
        } else {
            let pending = run.states[k - 1]->Loading_pending@;
            let j = run.states[k - 1]->Loading_responses@.len() as int;
            assert(pending.last() == run.rows()[j]);
        }
    }
}

/// After a plan was shown, the rest is the plans after it.
proof fn lemma_shown(run: GetRun, k: int) -> (responses: Seq<PlanResponse>)
    requires
        run.valid(),
        1 < k < run.states.len(),
        run.underway(k - 1),
        run.events[k - 1].failure() is None,
        !(run.states[k] is Accruing),
    ensures
        run.listed_up_to(k, responses),
        responses.len() > 0,
{
    assert(run.follows(k - 1));
    let (pending, before) = match run.states[k - 1] {
        GetPlans::Loading { pending, responses } => (pending@, responses@),
        GetPlans::Accruing { pending, responses, .. } => (pending@, responses@),
        _ => (Seq::empty(), Seq::empty()),
    };
    let j = before.len() as int;
    let row = pending.last();
    assert(row == run.rows()[j]);
    let heirs = beneficiary_responses(run.heirs(j));
    let earned = run.earned(j);
    let response = choose|response: PlanResponse|
        {
            &&& #[trigger] shows_whole_plan(row, earned, heirs, response)
            &&& lists_on(
                pending.drop_last().reverse(),
                before.push(response),
                run.states[k],
                run.actions[k],
            )
        };
    assert(pending.drop_last().reverse() == run.rows().skip(j + 1));
    let after = before.push(response);
    assert forall|i: int| 0 <= i < after.len() implies run.listed(i, #[trigger] after[i]) by {
        if i < j {
            assert(run.listed(i, before[i]));
        }
    }
    after
}

/// Later plans are asked for later.
proof fn lemma_at_grows(run: GetRun, i: int, j: int)
    requires
        0 <= i < j,
    ensures
        run.at(i) < run.at(j),
        accrues(run.rows()[i]) ==> run.at(i) + 1 < run.at(j),
    decreases j,
{
    if i < j - 1 {
        lemma_at_grows(run, i, j - 1);
    }
}

/// The answer lists each selected plan once, in the order of the database, with the heirs that
/// were reported for it and with the yield that it accrued up to then.
pub proof fn law_all_plans_listed(run: GetRun, k: int, plans: Seq<PlanResponse>)
    requires
        run.valid(),
        run.answers(k, plans),
    ensures
        run.all_listed(plans),
        plans.len() == run.rows().len(),
        k == run.at(run.rows().len() as int),
{
    assert(k > 0);
    assert(run.follows(k - 1));
    if k > 1 {
        assert(run.follows(k - 2));
        lemma_underway(run, k - 1);
        let responses = lemma_shown(run, k);
    } else {
        assert(run.rows().skip(0) == run.rows());
    }
}

/// The yield that is listed of a plan is accumulated on the fly. It is what is stored, where the
/// plan has no rate or never gave a sign of life, or its yield is no decimal, or the sum is out
/// of range; else it is the sum of what is stored and of the yield since its last sign of life,
/// which is exact where it fits. That is never less than what is stored where the yield is more
/// than nothing, and more where the yield is more than half a unit of the last digit of the sum.
pub proof fn law_yield_on_the_fly(run: GetRun, k: int, plans: Seq<PlanResponse>, j: int)
    requires
        run.valid(),
        run.answers(k, plans),
        0 <= j < plans.len(),
    ensures
        accrues(run.rows()[j]) ==> {
            &&& asks_for_yield(run.rows()[j], run.now(j), run.actions[run.at(j) + 1])
            &&& run.events[run.at(j) + 1] == GetEvent::Computed(run.earned(j))
        },
        !accrues(run.rows()[j]) ==> run.earned(j) is None,
        plans[j].accrued_yield@ == total_yield(run.rows()[j].accrued_yield@, run.earned(j)),
        run.earned(j) matches Some(e) ==> {
            let before = run.rows()[j].accrued_yield@;
            let earned = e@.stripped();
            let shown = plans[j].accrued_yield@;
            &&& sum(before, earned) matches Some(total) ==> shown == total
            &&& sum(before, earned) is None ==> shown == before
            &&& before.mantissa != 0 && earned.mantissa != 0 && sums_exactly(before, earned)
                ==> shown == exact_sum(before, earned)
            &&& e@.mantissa == 0 && before.mantissa != 0 ==> shown == before
            &&& before.mantissa == 0 ==> shown == earned
            &&& before.valid() && e@.mantissa > 0 ==> !shown.below(before)
            &&& before.valid() && e@.mantissa > 0 && sum(before, earned) is Some && {
                let scale = common_scale(before, earned);
                2 * earned.mantissa_at(scale) > pow(10, (scale - shown.scale) as nat)
            } ==> before.below(shown)
        },
{
    law_all_plans_listed(run, k, plans);
    assert(run.listed(j, plans[j]));
    if run.earned(j) is Some {
        let before = run.rows()[j].accrued_yield@;
        let earned = run.earned(j)->0@.stripped();
        law_stripped(run.earned(j)->0@);
        if before.mantissa != 0 && earned.mantissa != 0 {
            law_sum_rounds(before, earned);
        }
        if before.valid() && earned.mantissa > 0 && sum(before, earned) is Some {
            law_sum_grows(before, earned, plans[j].accrued_yield@);
        }
    }
}

/// The first action that fails ends the request with an internal error that names it.
pub proof fn law_failure_ends(run: GetRun, i: int)
    requires
        run.valid(),
        0 <= i < run.events.len(),
        run.events[i].failure() is Some,
    ensures
        run.events.len() == i + 1,
        run.actions[i + 1] is Answer,
        run.actions[i + 1]->Answer_0.fails_with(
            INTERNAL_SERVER_ERROR,
            run.events[i].failure()->0,
        ),
{
    assert(run.follows(i));
    if i + 1 < run.events.len() {
        assert(run.follows(i + 1));
    }
}

/// Where no action fails, the plans are answered once the heirs of each were loaded and its yield
/// computed where it accrues any.
pub proof fn law_plans_are_answered(run: GetRun)
    requires
        run.valid(),
        run.events.len() > 0,
        forall|i: int| 0 <= i < run.events.len() ==> (#[trigger] run.events[i]).failure() is None,
        run.events.len() == run.at(run.rows().len() as int),
    ensures
        run.states.last() is Finished,
        run.actions.last() is Answer,
        run.actions.last()->Answer_0 is Plans,
{
    let k = run.events.len() as int;
    let n = run.rows().len() as int;
    assert(run.follows(k - 1));
    assert(run.events[k - 1].failure() is None);
    if !(run.states[k] is Finished) {
        lemma_underway(run, k);
        match run.states[k] {
            GetPlans::Loading { responses, .. } => {
                lemma_at_grows(run, responses@.len() as int, n);
            },
            GetPlans::Accruing { responses, .. } => {
                lemma_at_grows(run, responses@.len() as int, n);
            },
            _ => {},
        }
    } else if k > 1 {
        lemma_underway(run, k - 1);
        let responses = lemma_shown(run, k);
    }
}

/// Whether what was asked for came out well.
pub open spec fn went_well(event: GetEvent) -> bool {
    match event {
        GetEvent::Selected(rows) => rows is Ok,
        GetEvent::Loaded { heirs, .. } => heirs is Ok,
        GetEvent::Computed(_) => true,
    }
}

/// The answer shows each selected plan in its place with all that is stored of it and with the
/// heirs that were loaded for it, one for one and in their order. Of a plan with a rate that gave
/// a sign of life it shows the yield since then on top of what is stored, unless the sum is out
/// of range: the yield of its amount at its rate over the seconds from its last sign of life to
/// the time that was read when its heirs were loaded. Of any other plan it shows what is stored.
pub proof fn law_listing(run: GetRun, k: int, plans: Seq<PlanResponse>, j: int)
    requires
        run.valid(),
        run.answers(k, plans),
        0 <= j < plans.len(),
    ensures
        plans.len() == run.rows().len(),
        run.events[0] matches GetEvent::Selected(Ok(rows)) && rows@ == run.rows(),
        plans[j].id == run.rows()[j].id,
        plans[j].owner_address == run.rows()[j].owner_address,
        plans[j].token_address == run.rows()[j].token_address,
        plans[j].amount == run.rows()[j].amount,
        plans[j].grace_period == run.rows()[j].grace_period,
        plans[j].grace_period_seconds == run.rows()[j].grace_period_seconds,
        plans[j].earn_yield == run.rows()[j].earn_yield,
        plans[j].last_ping == run.rows()[j].last_ping,
        plans[j].is_active == run.rows()[j].is_active,
        plans[j].status == run.rows()[j].status,
        plans[j].yield_rate_bps == run.rows()[j].yield_rate_bps,
        plans[j].created_at == run.rows()[j].created_at,
        run.actions[run.at(j)] == GetAction::LoadBeneficiaries(run.rows()[j].id),
        run.events[run.at(j)] is Loaded,
        run.events[run.at(j)]->Loaded_heirs is Ok,
        plans[j].beneficiaries@.len() == run.heirs(j).len(),
        forall|i: int|
            0 <= i < run.heirs(j).len() ==> {
                let shown = #[trigger] plans[j].beneficiaries@[i];
                &&& shown.id == run.heirs(j)[i].id
                &&& shown.plan_id == run.heirs(j)[i].plan_id
                &&& shown.wallet_address == run.heirs(j)[i].wallet_address
                &&& shown.allocation_bps == run.heirs(j)[i].allocation_bps
                &&& shown.fiat_anchor_info == run.heirs(j)[i].fiat_anchor_info
            },
        run.rows()[j].yield_rate_bps == 0 || run.rows()[j].last_ping == 0
            ==> plans[j].accrued_yield == run.rows()[j].accrued_yield,
        run.rows()[j].yield_rate_bps != 0 && run.rows()[j].last_ping != 0 ==> {
            let row = run.rows()[j];
            let asked = run.actions[run.at(j) + 1];
            let shown = plans[j].accrued_yield@;
            &&& asked is ComputeYield
            &&& asked->amount == row.amount
            &&& asked->rate_bps == row.yield_rate_bps as u32
            &&& run.now(j) > row.last_ping ==> asked->elapsed == run.now(j) - row.last_ping
            &&& run.now(j) <= row.last_ping ==> asked->elapsed == 0
            &&& run.events[run.at(j) + 1] is Computed
            &&& match run.events[run.at(j) + 1]->Computed_0 {
                None => shown == row.accrued_yield@,
                Some(e) => match sum(row.accrued_yield@, e@.stripped()) {
                    Some(total) => shown == total,
                    None => shown == row.accrued_yield@,
                },
            }
        },
{
    law_all_plans_listed(run, k, plans);
    assert(run.listed(j, plans[j]));
    law_heirs_are_shown(run.heirs(j));
    law_rate_bits(run.rows()[j].yield_rate_bps);
    law_seconds_since(run.rows()[j].last_ping, run.now(j));
    assert(run.follows(0));
    if plans[j].accrued_yield@ == run.rows()[j].accrued_yield@ {
        law_same_digits(plans[j].accrued_yield, run.rows()[j].accrued_yield);
    }
}

/// While no answer is given, the request takes whatever comes of the action that it asked for,
/// and nothing else; once it is answered it takes nothing.
pub proof fn law_any_outcome_is_taken(run: GetRun, event: GetEvent)
    requires
        run.valid(),
    ensures
        run.states.last().awaits(event) <==> match run.actions.last() {
            GetAction::Select(_) => event is Selected,
            GetAction::LoadBeneficiaries(_) => event is Loaded,
            GetAction::ComputeYield { .. } => event is Computed,
            GetAction::Answer(_) => false,
        },
{
    let k = run.states.len() - 1;
    if k > 0 {
        assert(run.follows(k - 1));
        if !(run.states[k] is Finished) {
            lemma_underway(run, k);
        } else if run.events[k - 1].failure() is None {
            if k > 1 {
                assert(run.follows(k - 2));
                lemma_underway(run, k - 1);
                let responses = lemma_shown(run, k);
            }
        }
    }
}

/// A database that fails ends the request with status 500, and its words are told.
pub proof fn law_failure_words(run: GetRun, i: int)
    requires
        run.valid(),
        0 <= i < run.events.len(),
        !went_well(run.events[i]),
    ensures
        run.events.len() == i + 1,
        run.actions[i + 1] is Answer,
        run.actions[i + 1]->Answer_0 matches Reply::Error { status, error } && status == 500
            && error@ == match run.events[i] {
            GetEvent::Selected(rows) => "Database query failed: "@ + rows->Err_0@,
            GetEvent::Loaded { heirs, .. } => "Failed to load beneficiaries: "@ + heirs->Err_0@,
            GetEvent::Computed(_) => Seq::empty(),
        },
{
    law_failure_ends(run, i);
}

/// Where the database does not fail, a request is answered with plans: after one action for the
/// selection, one for the heirs of each plan, and one for the yield of each plan with a rate that
/// gave a sign of life; and before that it is not answered.
pub proof fn law_listing_succeeds(run: GetRun)
    requires
        run.valid(),
        run.events.len() > 0,
        forall|i: int| 0 <= i < run.events.len() ==> went_well(#[trigger] run.events[i]),
    ensures
        run.events.len() <= run.at(run.rows().len() as int),
        run.actions.last() is Answer <==> run.events.len() == run.at(run.rows().len() as int),
        run.actions.last() is Answer ==> run.actions.last()->Answer_0 is Plans,
{
    let k = run.events.len() as int;
    let n = run.rows().len() as int;
    assert forall|i: int| 0 <= i < run.events.len() implies (
    #[trigger] run.events[i]).failure() is None by {
        assert(went_well(run.events[i]));
    }
    assert(run.follows(k - 1));
    if run.states[k] is Finished {
        if k > 1 {
            assert(run.follows(k - 2));
            lemma_underway(run, k - 1);
            let responses = lemma_shown(run, k);
        } else {
            assert(run.rows().skip(0) == run.rows());
        }
        law_all_plans_listed(run, k, run.actions[k]->Answer_0->Plans_0@);
    } else {
        lemma_underway(run, k);
        match run.states[k] {
            GetPlans::Loading { responses, .. } => {
                lemma_at_grows(run, responses@.len() as int, n);
            },
            GetPlans::Accruing { responses, .. } => {
                lemma_at_grows(run, responses@.len() as int, n);
            },
            _ => {},
        }
    }
}

} // verus!
