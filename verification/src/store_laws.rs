//! What holds of the stored plans across requests.

use crate::amount::law_same_digits;
use crate::create::{CreateAction, CreateEvent};
use crate::create_laws::{
    law_commit_comes_last, law_created_is_committed, law_creation, law_plan_is_stored_as_asked,
    law_reported_heir, lemma_committing, CreateRun,
};
use crate::list::{accrues, law_query_conditions, query_filter, total_yield, GetAction};
use crate::list_laws::{law_all_plans_listed, law_listing, law_yield_on_the_fly, GetRun};
use crate::model::{
    beneficiary_response, beneficiary_responses, shows_terms, BeneficiaryResponse, BeneficiaryRow,
    PlanResponse, PlanRow,
};
use crate::ping::{earns, PingAction, PingEvent};
use crate::ping_laws::{law_one_update, law_yield_credited, PingRun};
use crate::plan::{law_accepted_plan, plan_error, total_bps, wrapped_i32, WHOLE_BPS};
use crate::store::{earlier, share_the_whole, total_shares, Store};
use vstd::prelude::*;

verus! {

/// Whether the plan `id` is among `plans`.
pub open spec fn lists(plans: Seq<PlanResponse>, id: u128) -> bool {
    exists|i: int| 0 <= i < plans.len() && (#[trigger] plans[i]).id == id
}

/// Where the database selects what it is asked for, the answer lists exactly the plans that meet
/// the conditions of the query, each once, the newest first, and each with what is stored of it.
pub proof fn law_answer_is_the_selection(
    run: GetRun,
    k: int,
    plans: Seq<PlanResponse>,
    store: Store,
)
    requires
        run.valid(),
        run.answers(k, plans),
        store.selects(query_filter(run.query), run.rows()),
    ensures
        forall|id: u128| #[trigger]
            lists(plans, id) <==> store.admits(query_filter(run.query), id),
        forall|i: int, j: int|
            0 <= i < j < plans.len() ==> {
                &&& (#[trigger] plans[i]).id != (#[trigger] plans[j]).id
                &&& !earlier(plans[i].created_at, plans[j].created_at)
            },
        forall|i: int|
            0 <= i < plans.len() ==> shows_terms(
                store.plans[plans[i].id],
                #[trigger] plans[i],
            ),
{
    law_all_plans_listed(run, k, plans);
    let filter = query_filter(run.query);
    let rows = run.rows();
    assert forall|i: int| 0 <= i < plans.len() implies shows_terms(
        rows[i],
        #[trigger] plans[i],
    ) && store.plans[plans[i].id] == rows[i] by {
        assert(run.listed(i, plans[i]));
        assert(store.has_plan(rows[i]));
    }
    assert forall|id: u128| #[trigger] lists(plans, id) <==> store.admits(filter, id) by {
        if lists(plans, id) {
            let i = choose|i: int| 0 <= i < plans.len() && (#[trigger] plans[i]).id == id;
            assert(store.admits(filter, rows[i].id));
        }
        if store.admits(filter, id) {
            let i = choose|i: int| 0 <= i < rows.len() && (#[trigger] rows[i]).id == id;
            assert(plans[i].id == id);
        }
    }
    assert forall|i: int, j: int| 0 <= i < j < plans.len() implies {
        &&& (#[trigger] plans[i]).id != (#[trigger] plans[j]).id
        &&& !earlier(plans[i].created_at, plans[j].created_at)
    } by {
        assert(rows[i].id != rows[j].id);
    }
}

/// Where the database selects what it is asked for, a stored plan is listed where its owner is the
/// one that the query names, if it names one, and an heir with the address that the query names,
/// if it names one, is stored for the plan; and only there.
pub proof fn law_query_answer(
    run: GetRun,
    k: int,
    plans: Seq<PlanResponse>,
    store: Store,
    id: u128,
)
    requires
        run.valid(),
        run.answers(k, plans),
        store.sound(),
        store.selects(query_filter(run.query), run.rows()),
    ensures
        (exists|i: int| 0 <= i < plans.len() && (#[trigger] plans[i]).id == id) <==> {
            &&& store.plans.contains_key(id)
            &&& run.query.owner matches Some(owner) ==> store.plans[id].owner_address@ == owner@
            &&& run.query.beneficiary matches Some(address) ==> exists|h: u128|
                {
                    &&& #[trigger] store.heirs.contains_key(h)
                    &&& store.heirs[h].plan_id == id
                    &&& store.heirs[h].wallet_address@ == address@
                }
        },
{
    law_answer_is_the_selection(run, k, plans, store);
    law_query_conditions(run.query, store.plans[id].owner_address@, store.heir_addresses(id));
    assert(lists(plans, id) <==> store.admits(query_filter(run.query), id));
    if run.query.beneficiary is Some {
        let address = run.query.beneficiary->0@;
        if store.heir_addresses(id).contains(address) {
            let row = choose|row: BeneficiaryRow| #[trigger]
                store.has_heir(id, row) && row.wallet_address@ == address;
            assert(store.heirs.contains_key(row.id));
        }
        if exists|h: u128|
            {
                &&& #[trigger] store.heirs.contains_key(h)
                &&& store.heirs[h].plan_id == id
                &&& store.heirs[h].wallet_address@ == address
            } {
            let h = choose|h: u128|
                {
                    &&& #[trigger] store.heirs.contains_key(h)
                    &&& store.heirs[h].plan_id == id
                    &&& store.heirs[h].wallet_address@ == address
                };
            assert(store.has_heir(id, store.heirs[h]));
        }
    }
}

/// Where the database selects what it is asked for, every listed plan is stored, and the answer
/// has each of its fields as it is stored, but for the yield.
pub proof fn law_listed_is_stored(
    run: GetRun,
    k: int,
    plans: Seq<PlanResponse>,
    store: Store,
    j: int,
)
    requires
        run.valid(),
        run.answers(k, plans),
        store.selects(query_filter(run.query), run.rows()),
        0 <= j < plans.len(),
    ensures
        store.plans.contains_key(plans[j].id),
        plans[j].owner_address == store.plans[plans[j].id].owner_address,
        plans[j].token_address == store.plans[plans[j].id].token_address,
        plans[j].amount == store.plans[plans[j].id].amount,
        plans[j].grace_period == store.plans[plans[j].id].grace_period,
        plans[j].grace_period_seconds == store.plans[plans[j].id].grace_period_seconds,
        plans[j].earn_yield == store.plans[plans[j].id].earn_yield,
        plans[j].last_ping == store.plans[plans[j].id].last_ping,
        plans[j].is_active == store.plans[plans[j].id].is_active,
        plans[j].status == store.plans[plans[j].id].status,
        plans[j].yield_rate_bps == store.plans[plans[j].id].yield_rate_bps,
        plans[j].created_at == store.plans[plans[j].id].created_at,
{
    law_listing(run, k, plans, j);
    assert(store.has_plan(run.rows()[j]));
}

/// A query with both conditions lists the plans that each condition alone lists too, and no
/// others.
pub proof fn law_both_filters(
    both: GetRun,
    owned: GetRun,
    inherited: GetRun,
    k: int,
    k_owned: int,
    k_inherited: int,
    plans: Seq<PlanResponse>,
    plans_owned: Seq<PlanResponse>,
    plans_inherited: Seq<PlanResponse>,
    store: Store,
)
    requires
        both.valid(),
        owned.valid(),
        inherited.valid(),
        both.answers(k, plans),
        owned.answers(k_owned, plans_owned),
        inherited.answers(k_inherited, plans_inherited),
        store.selects(query_filter(both.query), both.rows()),
        store.selects(query_filter(owned.query), owned.rows()),
        store.selects(query_filter(inherited.query), inherited.rows()),
        both.query.owner is Some,
        both.query.beneficiary is Some,
        owned.query.owner == both.query.owner,
        owned.query.beneficiary is None,
        inherited.query.owner is None,
        inherited.query.beneficiary == both.query.beneficiary,
    ensures
        forall|id: u128| #[trigger]
            lists(plans, id) <==> lists(plans_owned, id) && lists(plans_inherited, id),
{
    law_answer_is_the_selection(both, k, plans, store);
    law_answer_is_the_selection(owned, k_owned, plans_owned, store);
    law_answer_is_the_selection(inherited, k_inherited, plans_inherited, store);
}

/// The tables after the first `n` actions of a ping, of which those took effect whose places are
/// in `done`.
pub open spec fn after_ping(run: PingRun, store: Store, done: Set<int>, n: int) -> Store
    decreases n,
{
    if n <= 0 {
        store
    } else {
        let before = after_ping(run, store, done, n - 1);
        match run.actions[n - 1] {
            PingAction::Update { id, last_ping, accrued_yield } => if done.contains(n - 1) {
                before.updated(id, last_ping, accrued_yield)
            } else {
                before
            },
            _ => before,
        }
    }
}

/// Before the update of a ping nothing changes, and after it nothing more.
proof fn lemma_after_ping(run: PingRun, store: Store, done: Set<int>, n: int)
    requires
        run.valid(),
        0 <= n <= run.actions.len(),
    ensures
        (forall|k: int|
            0 <= k < n && #[trigger] run.actions[k] is Update ==> !done.contains(k))
            ==> after_ping(run, store, done, n) == store,
        forall|k: int|
            0 <= k < n && done.contains(k) && #[trigger] run.actions[k] is Update ==> after_ping(
                run,
                store,
                done,
                n,
            ) == store.updated(
                run.plan().id,
                run.now(),
                run.actions[k]->Update_accrued_yield,
            ),
    decreases n,
{
    if n > 0 {
        lemma_after_ping(run, store, done, n - 1);
        if run.actions[n - 1] is Update {
            law_one_update(run, n - 1);
        }
    }
}

/// A ping changes no plan but the active plan of the owner who signed it, and of that plan
/// nothing but the last sign of life and the yield; it changes no heir. So it is whichever of
/// its actions took effect; and where the update did, the plan has the time that was read and
/// the yield that was asked for.
pub proof fn law_ping_changes_one_plan(run: PingRun, store: Store, done: Set<int>)
    requires
        run.valid(),
        run.events.len() > 0 ==> match run.events[0] {
            PingEvent::Fetched { plan: Ok(plan), .. } => store.reports_active(
                run.request.owner@,
                plan,
            ),
            _ => true,
        },
    ensures
        ({
            let after = after_ping(run, store, done, run.actions.len() as int);
            &&& after.heirs == store.heirs
            &&& after.plans.dom() == store.plans.dom()
            &&& forall|id: u128|
                store.plans.contains_key(id) && #[trigger] after.plans[id] != store.plans[id] ==> {
                    &&& run.signed()
                    &&& id == run.plan().id
                    &&& store.plans[id].owner_address@ == run.request.owner@
                    &&& store.plans[id].is_active
                    &&& after.plans[id] == (PlanRow {
                        last_ping: run.now(),
                        accrued_yield: after.plans[id].accrued_yield,
                        ..store.plans[id]
                    })
                }
            &&& forall|k: int|
                0 <= k < run.actions.len() && #[trigger] run.actions[k] is Update && done.contains(
                    k,
                ) ==> after.plans[run.plan().id] == (PlanRow {
                    last_ping: run.now(),
                    accrued_yield: run.actions[k]->Update_accrued_yield,
                    ..run.plan()
                })
        }),
{
    let n = run.actions.len() as int;
    lemma_after_ping(run, store, done, n);
    if exists|k: int| 0 <= k < n && done.contains(k) && #[trigger] run.actions[k] is Update {
        let k = choose|k: int|
            0 <= k < n && done.contains(k) && #[trigger] run.actions[k] is Update;
        law_one_update(run, k);
        assert(store.has_plan(run.plan()));
        let after = after_ping(run, store, done, n);
        assert(after.plans.dom() =~= store.plans.dom());
    }
}

/// A plan whose owner gave a sign of life is listed for them exactly once, with that sign of
/// life, and with the yield that was stored then and what accrued since on top of it.
pub proof fn law_pinged_is_listed(
    ping: PingRun,
    k: int,
    before: Store,
    done: Set<int>,
    run: GetRun,
    n: int,
    plans: Seq<PlanResponse>,
)
    requires
        ping.valid(),
        0 <= k < ping.actions.len(),
        ping.actions[k] is Update,
        done.contains(k),
        before.reports_active(ping.request.owner@, Some(ping.plan())),
        run.valid(),
        run.answers(n, plans),
        run.query.owner matches Some(owner) && owner@ == ping.request.owner@,
        run.query.beneficiary is None,
        after_ping(ping, before, done, ping.actions.len() as int).selects(
            query_filter(run.query),
            run.rows(),
        ),
    ensures
        exists|i: int|
            {
                &&& 0 <= i < plans.len()
                &&& (#[trigger] plans[i]).last_ping == ping.now()
                &&& plans[i].accrued_yield@ == total_yield(
                    ping.actions[k]->Update_accrued_yield@,
                    run.earned(i),
                )
                &&& forall|m: int|
                    0 <= m < plans.len() ==> ((#[trigger] plans[m]).id == ping.plan().id <==> m
                        == i)
            },
{
    law_one_update(ping, k);
    law_ping_changes_one_plan(ping, before, done);
    let store = after_ping(ping, before, done, ping.actions.len() as int);
    let id = ping.plan().id;
    law_all_plans_listed(run, n, plans);
    law_answer_is_the_selection(run, n, plans, store);
    assert(before.plans.dom().contains(id));
    assert(store.plans.dom().contains(id));
    assert(store.admits(query_filter(run.query), id));
    assert(lists(plans, id));
    let i = choose|i: int| 0 <= i < plans.len() && (#[trigger] plans[i]).id == id;
    assert(run.listed(i, plans[i]));
    assert(store.has_plan(run.rows()[i]));
}

/// The yield that is listed of a plan is the yield that a ping stores which finds it so at the
/// same second, where the plan earns yield: both ask for the yield of the same amount at the
/// same rate over the same time.
pub proof fn law_listed_yield_is_credited(
    run: GetRun,
    n: int,
    plans: Seq<PlanResponse>,
    j: int,
    ping: PingRun,
    k: int,
)
    requires
        run.valid(),
        run.answers(n, plans),
        0 <= j < plans.len(),
        accrues(run.rows()[j]),
        ping.valid(),
        0 <= k < ping.actions.len(),
        ping.actions[k] is Update,
        ping.plan() == run.rows()[j],
        ping.now() == run.now(j),
        earns(ping.plan(), ping.now()),
    ensures
        ping.actions[1] matches PingAction::ComputeYield { amount, rate_bps, elapsed }
            && run.actions[run.at(j) + 1] == (GetAction::ComputeYield {
            amount,
            rate_bps,
            elapsed,
        }),
        ping.events[1] == PingEvent::Computed(run.earned(j)) ==> plans[j].accrued_yield
            == ping.actions[k]->Update_accrued_yield,
{
    law_yield_on_the_fly(run, n, plans, j);
    law_one_update(ping, k);
    law_yield_credited(ping, k);
    assert(ping.follows(0));
    assert(ping.follows(1));
    if plans[j].accrued_yield@ == ping.actions[k]->Update_accrued_yield@ {
        law_same_digits(plans[j].accrued_yield, ping.actions[k]->Update_accrued_yield);
    }
}

/// What the transaction of a request to create a plan sees of the tables after its first `n`
/// actions: the rows that were reported as stored are there too.
pub open spec fn inserted(run: CreateRun, store: Store, n: int) -> Store
    decreases n,
{
    if n <= 0 {
        store
    } else {
        let before = inserted(run, store, n - 1);
        match run.events[n - 1] {
            CreateEvent::PlanSaved(Ok(row)) => before.with_plan(row),
            CreateEvent::BeneficiarySaved(Ok(row)) => before.with_heir(row),
            _ => before,
        }
    }
}

/// The tables after the first `n` actions of a request to create a plan: as its transaction sees
/// them once the commit came out well, and unchanged till then.
pub open spec fn after_create(run: CreateRun, store: Store, n: int) -> Store
    decreases n,
{
    if n <= 0 {
        store
    } else if run.commits(n - 1) {
        inserted(run, store, n - 1)
    } else {
        after_create(run, store, n - 1)
    }
}

/// Whether the database stored what the action `i` asked for, if that was a row and it was
/// reported as stored.
pub open spec fn stored_as_asked(run: CreateRun, store: Store, i: int) -> bool {
    match (run.actions[i], run.events[i]) {
        (CreateAction::InsertPlan(new), CreateEvent::PlanSaved(Ok(row))) => {
            inserted(run, store, i).takes_plan(new, row)
        },
        (CreateAction::InsertBeneficiary(new), CreateEvent::BeneficiarySaved(Ok(row))) => {
            inserted(run, store, i).takes_heir(new, row)
        },
        _ => true,
    }
}

/// Whether the database stored what the request asked for each time.
pub open spec fn all_stored_as_asked(run: CreateRun, store: Store) -> bool {
    forall|i: int| 0 <= i < run.events.len() ==> #[trigger] stored_as_asked(run, store, i)
}

/// Whether `after` is `before` with the plan and the heirs that were reported as stored, and with
/// nothing else: the earlier rows are as they were.
pub open spec fn adds_created(run: CreateRun, before: Store, after: Store) -> bool {
    let row = run.plan_row();
    &&& !before.plans.contains_key(row.id)
    &&& after.plans == before.plans.insert(row.id, row)
    &&& adds_heirs(run, before, after, run.heirs() as int)
}

/// Whether `after` has the first `n` heirs that were reported as stored, under identifiers that
/// are new and differ, and no other heir that `before` does not have.
pub open spec fn adds_heirs(run: CreateRun, before: Store, after: Store, n: int) -> bool {
    &&& forall|j: int|
        0 <= j < n ==> {
            &&& !before.heirs.contains_key((#[trigger] run.heir_row(j)).id)
            &&& after.heirs.contains_key(run.heir_row(j).id)
            &&& after.heirs[run.heir_row(j).id] == run.heir_row(j)
        }
    &&& forall|i: int, j: int|
        0 <= i < j < n ==> (#[trigger] run.heir_row(i)).id != (#[trigger] run.heir_row(j)).id
    &&& forall|id: u128| #[trigger]
        before.heirs.contains_key(id) ==> after.heirs.contains_key(id) && after.heirs[id]
            == before.heirs[id]
    &&& forall|id: u128| #[trigger]
        after.heirs.contains_key(id) ==> before.heirs.contains_key(id) || exists|j: int|
            0 <= j < n && (#[trigger] run.heir_row(j)).id == id
}

/// Whether the heir `j` is stored as a part of the plan and as it was asked for.
pub open spec fn heir_as_asked(run: CreateRun, j: int) -> bool {
    let row = run.heir_row(j);
    let heir = run.plan.beneficiaries@[j];
    &&& row.plan_id == run.plan_row().id
    &&& row.wallet_address@ == heir.address@
    &&& row.allocation_bps == wrapped_i32(heir.allocation_bps)
    &&& row.fiat_anchor_info@ == heir.fiat_anchor_info@
}

proof fn lemma_inserted(run: CreateRun, store: Store, k: int, n: int)
    requires
        run.valid(),
        all_stored_as_asked(run, store),
        0 <= k < run.events.len(),
        run.actions[k] is Commit,
        2 <= n <= k,
    ensures
        ({
            let t = inserted(run, store, n);
            let row = run.plan_row();
            &&& !store.plans.contains_key(row.id)
            &&& row.owner_address@ == run.plan.owner@
            &&& t.plans == store.plans.insert(row.id, row)
            &&& adds_heirs(run, store, t, n - 2)
            &&& forall|j: int| 0 <= j < n - 2 ==> #[trigger] heir_as_asked(run, j)
        }),
    decreases n,
{
    law_commit_comes_last(run, k);
    assert(stored_as_asked(run, store, n - 1));
    if n == 2 {
        assert(inserted(run, store, 0) == store);
        assert(run.follows(0));
        assert(inserted(run, store, 1) == store);
    } else {
        let before = inserted(run, store, n - 1);
        let t = inserted(run, store, n);
        lemma_inserted(run, store, k, n - 1);
        assert(run.heir_done(n - 3));
        let heir = run.heir_row(n - 3);
        assert(t == before.with_heir(heir));
        assert(heir_as_asked(run, n - 3));
        assert forall|id: u128| #[trigger] t.heirs.contains_key(id) implies
            store.heirs.contains_key(id) || exists|j: int|
            0 <= j < n - 2 && (#[trigger] run.heir_row(j)).id == id by {
            if id == heir.id {
                assert(run.heir_row(n - 3).id == id);
            } else {
                assert(before.heirs.contains_key(id));
                if !store.heirs.contains_key(id) {
                    let j = choose|j: int|
                        0 <= j < n - 3 && (#[trigger] run.heir_row(j)).id == id;
                    assert(run.heir_row(j).id == id);
                }
            }
        }
        assert forall|i: int, j: int| 0 <= i < j < n - 2 implies (#[trigger] run.heir_row(i)).id
            != (#[trigger] run.heir_row(j)).id by {
            if j == n - 3 {
                assert(before.heirs.contains_key(run.heir_row(i).id));
            }
        }
    }
}

/// A commit that came out well is answered by the report, and nothing comes after that.
proof fn lemma_commits(run: CreateRun, k: int)
    requires
        run.valid(),
        run.commits(k),
    ensures
        k + 1 == run.events.len(),
        run.is_created(),
{
    law_commit_comes_last(run, k);
    assert(run.follows(k));
    lemma_committing(run, k);
    if k + 1 < run.events.len() {
        assert(run.follows(k + 1));
    }
}

proof fn lemma_after_create(run: CreateRun, store: Store, n: int)
    requires
        run.valid(),
        0 <= n <= run.actions.len(),
    ensures
        (forall|k: int| 0 <= k < n ==> !#[trigger] run.commits(k)) ==> after_create(run, store, n)
            == store,
        forall|k: int|
            0 <= k < n && #[trigger] run.commits(k) ==> after_create(run, store, n) == inserted(
                run,
                store,
                k,
            ),
    decreases n,
{
    if n > 0 {
        lemma_after_create(run, store, n - 1);
        assert forall|k: int| 0 <= k < n && #[trigger] run.commits(k) implies after_create(
            run,
            store,
            n,
        ) == inserted(run, store, k) by {
            law_commit_comes_last(run, k);
            if run.commits(n - 1) {
                law_commit_comes_last(run, n - 1);
            }
        }
    }
}

/// A plan that is reported as created is in the tables afterwards, with its heirs, and nothing
/// else has changed: each earlier row is as it was. A request that is not answered so changes
/// nothing. Either way each heir still belongs to a stored plan.
pub proof fn law_creation_adds_one_plan(run: CreateRun, store: Store)
    requires
        run.valid(),
        store.sound(),
        all_stored_as_asked(run, store),
    ensures
        ({
            let after = after_create(run, store, run.actions.len() as int);
            &&& after.sound()
            &&& !run.is_created() ==> after == store
            &&& run.is_created() ==> {
                &&& adds_created(run, store, after)
                &&& run.plan_row().owner_address@ == run.plan.owner@
                &&& forall|j: int| 0 <= j < run.heirs() ==> #[trigger] heir_as_asked(run, j)
            }
        }),
{
    let n = run.actions.len() as int;
    lemma_after_create(run, store, n);
    let after = after_create(run, store, n);
    if run.is_created() {
        law_created_is_committed(run, n - 1);
        let k = n - 2;
        assert(run.commits(k));
        lemma_inserted(run, store, k, k);
        assert forall|id: u128| #[trigger] after.heirs.contains_key(id) implies after.heirs[id].id
            == id && after.plans.contains_key(after.heirs[id].plan_id) by {
            if !store.heirs.contains_key(id) {
                let j = choose|j: int|
                    0 <= j < run.heirs() && (#[trigger] run.heir_row(j)).id == id;
                assert(heir_as_asked(run, j));
            }
        }
    } else {
        assert forall|k: int| 0 <= k < n implies !#[trigger] run.commits(k) by {
            if run.commits(k) {
                lemma_commits(run, k);
            }
        }
    }
}

/// The heirs of a plan that was created, as they were reported.
pub open spec fn created_heirs(run: CreateRun) -> Seq<BeneficiaryRow> {
    Seq::new(run.heirs(), |j: int| run.heir_row(j))
}

/// The heirs of the new plan are those that were reported, and every other plan has the heirs
/// that it had.
proof fn lemma_heirs_after(run: CreateRun, store: Store, after: Store)
    requires
        store.sound(),
        adds_created(run, store, after),
        forall|j: int| 0 <= j < run.heirs() ==> #[trigger] heir_as_asked(run, j),
    ensures
        after.reports_heirs(run.plan_row().id, created_heirs(run)),
        forall|id: u128, rows: Seq<BeneficiaryRow>|
            id != run.plan_row().id && store.reports_heirs(id, rows)
                ==> #[trigger] after.reports_heirs(id, rows),
{
    let new = run.plan_row().id;
    let heirs = created_heirs(run);
    assert forall|i: int| 0 <= i < heirs.len() implies after.has_heir(new, #[trigger] heirs[i]) by {
        assert(heir_as_asked(run, i));
        assert(heirs[i] == run.heir_row(i));
    }
    assert forall|row: BeneficiaryRow| #[trigger] after.has_heir(new, row) implies heirs.contains(
        row,
    ) by {
        assert(after.heirs.contains_key(row.id));
        if store.heirs.contains_key(row.id) {
            assert(store.plans.contains_key(store.heirs[row.id].plan_id));
        }
        let j = choose|j: int| 0 <= j < run.heirs() && (#[trigger] run.heir_row(j)).id == row.id;
        assert(heirs[j] == row);
    }
    assert forall|i: int, j: int| 0 <= i < j < heirs.len() implies heirs[i] != heirs[j] by {
        assert(run.heir_row(i).id != run.heir_row(j).id);
    }
    assert forall|id: u128, rows: Seq<BeneficiaryRow>|
        id != new && store.reports_heirs(id, rows) implies #[trigger] after.reports_heirs(
        id,
        rows,
    ) by {
        assert forall|i: int| 0 <= i < rows.len() implies after.has_heir(
            id,
            #[trigger] rows[i],
        ) by {
            assert(store.has_heir(id, rows[i]));
            assert(store.heirs.contains_key(rows[i].id));
        }
        assert forall|row: BeneficiaryRow| #[trigger] after.has_heir(id, row) implies rows.contains(
            row,
        ) by {
            if !store.heirs.contains_key(row.id) {
                let j = choose|j: int|
                    0 <= j < run.heirs() && (#[trigger] run.heir_row(j)).id == row.id;
                assert(heir_as_asked(run, j));
            }
            assert(store.has_heir(id, row));
        }
    }
}

/// The stored shares add up to the shares that were asked for.
proof fn lemma_total_kept(run: CreateRun, n: int)
    requires
        plan_error(run.plan) is None,
        0 <= n <= run.heirs(),
        forall|j: int| 0 <= j < run.heirs() ==> #[trigger] heir_as_asked(run, j),
    ensures
        total_shares(created_heirs(run).take(n)) == total_bps(run.plan.beneficiaries@.take(n)),
    decreases n,
{
    if n > 0 {
        let rows = created_heirs(run).take(n);
        let heirs = run.plan.beneficiaries@.take(n);
        lemma_total_kept(run, n - 1);
        assert(rows.drop_last() == created_heirs(run).take(n - 1));
        assert(heirs.drop_last() == run.plan.beneficiaries@.take(n - 1));
        law_accepted_plan(run.plan);
        assert(heir_as_asked(run, n - 1));
    }
}

/// Where the heirs of every stored plan share the whole of it, they do so after every request to
/// create a plan, whatever it asks for and whatever it is answered.
pub proof fn law_creation_keeps_shares(run: CreateRun, store: Store)
    requires
        run.valid(),
        store.sound(),
        store.all_shared(),
        all_stored_as_asked(run, store),
    ensures
        after_create(run, store, run.actions.len() as int).sound(),
        after_create(run, store, run.actions.len() as int).all_shared(),
{
    law_creation_adds_one_plan(run, store);
    if run.is_created() {
        let n = run.actions.len() as int;
        let after = after_create(run, store, n);
        law_created_is_committed(run, n - 1);
        law_commit_comes_last(run, n - 2);
        law_accepted_plan(run.plan);
        lemma_heirs_after(run, store, after);
        let new = run.plan_row().id;
        let heirs = created_heirs(run);
        let asked = run.plan.beneficiaries@;
        lemma_total_kept(run, run.heirs() as int);
        assert(heirs.take(heirs.len() as int) == heirs);
        assert(asked.take(asked.len() as int) == asked);
        assert forall|i: int| 0 <= i < heirs.len() implies 0 <= (
        #[trigger] heirs[i]).allocation_bps <= WHOLE_BPS by {
            assert(heir_as_asked(run, i));
        }
        assert forall|id: u128| #[trigger] after.plans.contains_key(id) implies after.is_shared(
            id,
        ) by {
            if id == new {
                assert(after.reports_heirs(id, heirs) && share_the_whole(heirs));
            } else {
                assert(store.plans.contains_key(id));
                assert(store.is_shared(id));
                let rows = choose|rows: Seq<BeneficiaryRow>| #[trigger]
                    store.reports_heirs(id, rows) && share_the_whole(rows);
                assert(after.reports_heirs(id, rows) && share_the_whole(rows));
            }
        }
    }
}

/// Where the heirs of every stored plan share the whole of it, they do so after every ping.
pub proof fn law_ping_keeps_shares(run: PingRun, store: Store, done: Set<int>)
    requires
        run.valid(),
        store.sound(),
        store.all_shared(),
        run.events.len() > 0 ==> match run.events[0] {
            PingEvent::Fetched { plan: Ok(plan), .. } => store.reports_active(
                run.request.owner@,
                plan,
            ),
            _ => true,
        },
    ensures
        after_ping(run, store, done, run.actions.len() as int).sound(),
        after_ping(run, store, done, run.actions.len() as int).all_shared(),
{
    law_ping_changes_one_plan(run, store, done);
    let after = after_ping(run, store, done, run.actions.len() as int);
    assert forall|id: u128| #[trigger] after.plans.contains_key(id) implies after.plans[id].id == id
        && after.is_shared(id) by {
        assert(store.plans.dom().contains(id));
        assert(store.plans.contains_key(id));
        assert(store.is_shared(id));
        let rows = choose|rows: Seq<BeneficiaryRow>| #[trigger]
            store.reports_heirs(id, rows) && share_the_whole(rows);
        lemma_same_reports(store, after, id, rows);
        assert(after.reports_heirs(id, rows) && share_the_whole(rows));
    }
    assert forall|id: u128| #[trigger] after.heirs.contains_key(id) implies after.heirs[id].id == id
        && after.plans.contains_key(after.heirs[id].plan_id) by {
        assert(store.heirs.contains_key(id));
        assert(store.plans.dom().contains(store.heirs[id].plan_id));
        assert(after.plans.dom().contains(store.heirs[id].plan_id));
    }
}

/// What is reported of heirs depends on the table of heirs alone.
proof fn lemma_same_reports(store: Store, after: Store, id: u128, rows: Seq<BeneficiaryRow>)
    requires
        after.heirs == store.heirs,
        store.reports_heirs(id, rows),
    ensures
        after.reports_heirs(id, rows),
{
    assert forall|i: int| 0 <= i < rows.len() implies after.has_heir(id, #[trigger] rows[i]) by {
        assert(store.has_heir(id, rows[i]));
    }
    assert forall|row: BeneficiaryRow| #[trigger] after.has_heir(id, row) implies rows.contains(
        row,
    ) by {
        assert(store.has_heir(id, row));
    }
}

/// Taking out one heir takes away its share.
proof fn lemma_total_without(rows: Seq<BeneficiaryRow>, i: int)
    requires
        0 <= i < rows.len(),
    ensures
        total_shares(rows) == total_shares(rows.remove(i)) + rows[i].allocation_bps,
    decreases rows.len(),
{
    if i == rows.len() - 1 {
        assert(rows.remove(i) == rows.drop_last());
    } else {
        lemma_total_without(rows.drop_last(), i);
        assert(rows.remove(i).drop_last() == rows.drop_last().remove(i));
        assert(rows.remove(i).last() == rows.last());
    }
}

/// The order of heirs makes no difference to what they have together.
proof fn lemma_total_of_any_order(a: Seq<BeneficiaryRow>, b: Seq<BeneficiaryRow>)
    requires
        a.no_duplicates(),
        b.no_duplicates(),
        forall|row: BeneficiaryRow| a.contains(row) <==> b.contains(row),
    ensures
        a.len() == b.len(),
        total_shares(a) == total_shares(b),
    decreases a.len(),
{
    if a.len() == 0 {
        if b.len() > 0 {
            assert(b.contains(b[0]));
        }
    } else {
        let x = a.last();
        assert(a.contains(x));
        let i = choose|i: int| 0 <= i < b.len() && b[i] == x;
        let front = a.drop_last();
        let rest = b.remove(i);
        assert forall|row: BeneficiaryRow| front.contains(row) <==> rest.contains(row) by {
            if front.contains(row) {
                let j = choose|j: int| 0 <= j < front.len() && front[j] == row;
                assert(a[j] == row && a.contains(row));
                let m = choose|m: int| 0 <= m < b.len() && b[m] == row;
                if m < i {
                    assert(rest[m] == row);
                } else {
                    assert(rest[m - 1] == row);
                }
            }
            if rest.contains(row) {
                let m = choose|m: int| 0 <= m < rest.len() && rest[m] == row;
                let at = if m < i {
                    m
                } else {
                    m + 1
                };
                assert(b[at] == row && b.contains(row));
                let j = choose|j: int| 0 <= j < a.len() && a[j] == row;
                assert(front[j] == row);
            }
        }
        lemma_total_of_any_order(front, rest);
        lemma_total_without(b, i);
    }
}

/// Where the heirs of a stored plan share the whole of it, the heirs that are reported for it do.
pub proof fn law_shares_reported(store: Store, id: u128, rows: Seq<BeneficiaryRow>)
    requires
        store.is_shared(id),
        store.reports_heirs(id, rows),
    ensures
        share_the_whole(rows),
{
    let known = choose|known: Seq<BeneficiaryRow>| #[trigger]
        store.reports_heirs(id, known) && share_the_whole(known);
    assert forall|row: BeneficiaryRow| known.contains(row) <==> rows.contains(row) by {
        if known.contains(row) {
            let i = choose|i: int| 0 <= i < known.len() && known[i] == row;
            assert(store.has_heir(id, known[i]));
        }
        if rows.contains(row) {
            let i = choose|i: int| 0 <= i < rows.len() && rows[i] == row;
            assert(store.has_heir(id, rows[i]));
        }
    }
    lemma_total_of_any_order(known, rows);
    assert forall|i: int| 0 <= i < rows.len() implies 0 <= (#[trigger] rows[i]).allocation_bps
        <= WHOLE_BPS by {
        assert(rows.contains(rows[i]));
        let j = choose|j: int| 0 <= j < known.len() && known[j] == rows[i];
        assert(known[j] == rows[i]);
    }
}

/// Whether `listed` shows the plan that was reported as `created`, with the same heirs in some
/// order; yield aside.
pub open spec fn same_plan(created: PlanResponse, listed: PlanResponse) -> bool {
    &&& listed.id == created.id
    &&& listed.owner_address == created.owner_address
    &&& listed.token_address == created.token_address
    &&& listed.amount == created.amount
    &&& listed.grace_period == created.grace_period
    &&& listed.grace_period_seconds == created.grace_period_seconds
    &&& listed.earn_yield == created.earn_yield
    &&& listed.last_ping == created.last_ping
    &&& listed.is_active == created.is_active
    &&& listed.status == created.status
    &&& listed.yield_rate_bps == created.yield_rate_bps
    &&& listed.created_at == created.created_at
    &&& listed.beneficiaries@.to_multiset() == created.beneficiaries@.to_multiset()
}

/// Two sequences with the same elements, each once, are the same in some order.
proof fn lemma_same_elements<A>(s: Seq<A>, t: Seq<A>)
    requires
        s.no_duplicates(),
        t.no_duplicates(),
        forall|x: A| s.contains(x) <==> t.contains(x),
    ensures
        s.to_multiset() == t.to_multiset(),
{
    s.lemma_multiset_has_no_duplicates();
    t.lemma_multiset_has_no_duplicates();
    s.to_multiset_ensures();
    t.to_multiset_ensures();
    assert forall|x: A| s.to_multiset().count(x) == t.to_multiset().count(x) by {
        assert(s.contains(x) <==> t.contains(x));
        assert(s.contains(x) <==> s.to_multiset().count(x) > 0);
        assert(t.contains(x) <==> t.to_multiset().count(x) > 0);
    }
    assert(s.to_multiset() =~= t.to_multiset());
}

/// The heirs that are stored of a plan that was created are answered alike by the request that
/// created it and by one that lists it, but for their order.
proof fn lemma_same_heirs(
    run: CreateRun,
    store: Store,
    created: Seq<BeneficiaryResponse>,
    rows: Seq<BeneficiaryRow>,
)
    requires
        created == beneficiary_responses(created_heirs(run)),
        store.reports_heirs(run.plan_row().id, created_heirs(run)),
        store.reports_heirs(run.plan_row().id, rows),
    ensures
        beneficiary_responses(rows).to_multiset() == created.to_multiset(),
{
    let id = run.plan_row().id;
    let heirs = created_heirs(run);
    let listed = beneficiary_responses(rows);
    lemma_distinct_responses(store, id, rows);
    lemma_distinct_responses(store, id, heirs);
    assert forall|x: BeneficiaryResponse| listed.contains(x) <==> created.contains(x) by {
        if listed.contains(x) {
            let i = choose|i: int| 0 <= i < listed.len() && listed[i] == x;
            assert(store.has_heir(id, rows[i]));
            let j = choose|j: int| 0 <= j < heirs.len() && heirs[j] == rows[i];
            assert(created[j] == x);
        }
        if created.contains(x) {
            let j = choose|j: int| 0 <= j < created.len() && created[j] == x;
            assert(store.has_heir(id, heirs[j]));
            let i = choose|i: int| 0 <= i < rows.len() && rows[i] == heirs[j];
            assert(listed[i] == x);
        }
    }
    lemma_same_elements(listed, created);
}

/// Heirs that are reported are answered once each.
proof fn lemma_distinct_responses(store: Store, id: u128, rows: Seq<BeneficiaryRow>)
    requires
        store.reports_heirs(id, rows),
    ensures
        beneficiary_responses(rows).no_duplicates(),
{
    let shown = beneficiary_responses(rows);
    assert forall|i: int, j: int| 0 <= i < j < shown.len() implies shown[i] != shown[j] by {
        assert(store.has_heir(id, rows[i]) && store.has_heir(id, rows[j]));
        assert(rows[i] != rows[j]);
    }
}

/// A plan that was reported as created is listed exactly once by every query whose conditions
/// it meets: its owner, or the address of one of its heirs, or both, or none. It is listed as it
/// was reported, its heirs in some order, with the yield that it accrued by then.
pub proof fn law_created_is_listed(
    created: CreateRun,
    before: Store,
    run: GetRun,
    n: int,
    plans: Seq<PlanResponse>,
)
    requires
        created.valid(),
        created.is_created(),
        before.sound(),
        all_stored_as_asked(created, before),
        run.valid(),
        run.answers(n, plans),
        run.query.owner matches Some(owner) ==> owner@ == created.plan.owner@,
        run.query.beneficiary matches Some(address) ==> exists|j: int|
            0 <= j < created.heirs() && (#[trigger] created.plan.beneficiaries@[j]).address@
                == address@,
        after_create(created, before, created.actions.len() as int).selects(
            query_filter(run.query),
            run.rows(),
        ),
        forall|j: int|
            0 <= j < run.rows().len() ==> after_create(
                created,
                before,
                created.actions.len() as int,
            ).reports_heirs((#[trigger] run.rows()[j]).id, run.heirs(j)),
    ensures
        exists|i: int|
            {
                let c = created.response();
                &&& 0 <= i < plans.len()
                &&& same_plan(c, #[trigger] plans[i])
                &&& plans[i].accrued_yield@ == total_yield(c.accrued_yield@, run.earned(i))
                &&& forall|m: int|
                    0 <= m < plans.len() && (#[trigger] plans[m]).id == c.id ==> m == i
            },
{
    let k = created.actions.len() as int;
    let store = after_create(created, before, k);
    law_creation_adds_one_plan(created, before);
    law_created_is_committed(created, k - 1);
    lemma_heirs_after(created, before, store);
    law_all_plans_listed(run, n, plans);
    law_answer_is_the_selection(run, n, plans, store);
    let c = created.response();
    let row = created.plan_row();
    let filter = query_filter(run.query);
    if run.query.beneficiary is Some {
        let address = run.query.beneficiary->0@;
        let j = choose|j: int|
            0 <= j < created.heirs() && (#[trigger] created.plan.beneficiaries@[j]).address@
                == address;
        assert(heir_as_asked(created, j));
        assert(store.has_heir(row.id, created_heirs(created)[j]));
        assert(store.heir_addresses(row.id).contains(address));
    }
    assert(store.admits(filter, row.id));
    assert(lists(plans, row.id));
    let i = choose|i: int| 0 <= i < plans.len() && (#[trigger] plans[i]).id == row.id;
    assert(run.listed(i, plans[i]));
    assert(store.has_plan(run.rows()[i]));
    assert forall|j: int| 0 <= j < created.heirs() implies c.beneficiaries@[j]
        == beneficiary_responses(created_heirs(created))[j] by {
        assert(c.beneficiaries@[j] == beneficiary_response(created.heir_row(j)));
    }
    assert(c.beneficiaries@ =~= beneficiary_responses(created_heirs(created)));
    lemma_same_heirs(created, store, c.beneficiaries@, run.heirs(i));
    assert(same_plan(c, plans[i]));
}

/// A plan that is reported as created is stored, and reported, as the request has it: its owner,
/// token, yield and state as they are, its time of grace twice and its rate by their bits, and
/// with the status of an active plan.
pub proof fn law_created_as_asked(run: CreateRun, store: Store)
    requires
        run.valid(),
        run.is_created(),
        store.sound(),
        all_stored_as_asked(run, store),
    ensures
        ({
            let after = after_create(run, store, run.actions.len() as int);
            let shown = run.response();
            let row = after.plans[shown.id];
            let plan = run.plan;
            &&& after.plans.contains_key(shown.id)
            &&& !store.plans.contains_key(shown.id)
            &&& row.id == shown.id
            &&& row.owner_address@ == plan.owner@
            &&& row.token_address@ == plan.token@
            &&& row.grace_period == plan.grace_period as i64
            &&& row.grace_period_seconds == plan.grace_period as i64
            &&& row.earn_yield == plan.earn_yield
            &&& row.yield_rate_bps == plan.yield_rate_bps as i32
            &&& row.last_ping == plan.last_ping
            &&& row.is_active == plan.is_active
            &&& row.status@ == "ACTIVE"@
            &&& shown.owner_address@ == plan.owner@
            &&& shown.token_address@ == plan.token@
            &&& shown.amount == row.amount
            &&& shown.grace_period == plan.grace_period as i64
            &&& shown.grace_period_seconds == plan.grace_period as i64
            &&& shown.earn_yield == plan.earn_yield
            &&& shown.yield_rate_bps == plan.yield_rate_bps as i32
            &&& shown.accrued_yield == row.accrued_yield
            &&& shown.last_ping == plan.last_ping
            &&& shown.is_active == plan.is_active
            &&& shown.status@ == "ACTIVE"@
            &&& shown.created_at == row.created_at
        }),
{
    let n = run.actions.len() as int;
    law_creation_adds_one_plan(run, store);
    law_created_is_committed(run, n - 1);
    law_commit_comes_last(run, n - 2);
    assert(run.follows(0));
    assert(run.follows(n - 2));
    law_plan_is_stored_as_asked(run);
    law_creation(run, n - 1);
    assert(stored_as_asked(run, store, 1));
}

/// A plan that is reported as created has, as it is stored and as it is reported, the heirs of the
/// request in its order, each with its address, its share and its details.
pub proof fn law_created_heir_as_asked(run: CreateRun, store: Store, j: int)
    requires
        run.valid(),
        run.is_created(),
        store.sound(),
        all_stored_as_asked(run, store),
        0 <= j < run.plan.beneficiaries@.len(),
    ensures
        run.response().beneficiaries@.len() == run.plan.beneficiaries@.len(),
        ({
            let after = after_create(run, store, run.actions.len() as int);
            let heir = run.plan.beneficiaries@[j];
            let shown = run.response().beneficiaries@[j];
            let row = after.heirs[shown.id];
            &&& after.heirs.contains_key(shown.id)
            &&& !store.heirs.contains_key(shown.id)
            &&& row.id == shown.id
            &&& row.plan_id == run.response().id
            &&& row.wallet_address@ == heir.address@
            &&& row.allocation_bps == heir.allocation_bps
            &&& row.fiat_anchor_info@ == heir.fiat_anchor_info@
            &&& shown.plan_id == run.response().id
            &&& shown.wallet_address@ == heir.address@
            &&& shown.allocation_bps == heir.allocation_bps
            &&& shown.fiat_anchor_info@ == heir.fiat_anchor_info@
        }),
{
    let n = run.actions.len() as int;
    law_creation_adds_one_plan(run, store);
    law_created_is_committed(run, n - 1);
    law_commit_comes_last(run, n - 2);
    law_accepted_plan(run.plan);
    law_reported_heir(run, n - 1, j);
    assert(heir_as_asked(run, j));
    assert(run.heir_row(j) == run.events[j + 2]->BeneficiarySaved_0->Ok_0);
    assert(run.follows(n - 2));
    law_creation(run, n - 1);
}

} // verus!
