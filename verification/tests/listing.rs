use inheritance_plans::amount::{Amount, MAX_MANTISSA};
use inheritance_plans::list::{
    get_plans, shown_yield, GetAction, GetEvent, GetPlans, PlanFilter,
};
use inheritance_plans::model::{
    load_beneficiaries, plan_row_to_response, AnchorQuery, BeneficiaryRow, PayoutRequest,
    PlanQuery, PlanResponse, PlanRow, Timestamp,
};
use inheritance_plans::payout::{get_anchor_payouts, trigger_payout};
use inheritance_plans::reply::Reply;
use inheritance_plans::routes::{endpoints, Endpoint, Method};

fn amount(mantissa: i128, scale: u32) -> Amount {
    Amount::new(mantissa, scale).unwrap()
}

/// A plan that accrues no yield.
fn row(id: u128) -> PlanRow {
    let mut row = earning_row(id);
    row.yield_rate_bps = 0;
    row
}

fn earning_row(id: u128) -> PlanRow {
    PlanRow {
        id,
        owner_address: "GOWNER".to_string(),
        token_address: "USDC".to_string(),
        amount: amount(1000, 0),
        grace_period: 60,
        grace_period_seconds: 61,
        earn_yield: true,
        last_ping: 1_700_000_000,
        is_active: true,
        status: "ACTIVE".to_string(),
        yield_rate_bps: 500,
        accrued_yield: amount(125, 1),
        created_at: Timestamp { seconds: 1_600_000_000, nanoseconds: 7 },
    }
}

fn heir(id: u128, plan_id: u128) -> BeneficiaryRow {
    BeneficiaryRow {
        id,
        plan_id,
        wallet_address: format!("G{}", id),
        allocation_bps: 5_000,
        fiat_anchor_info: String::new(),
    }
}

fn step(state: GetPlans, event: GetEvent) -> (GetPlans, GetAction) {
    assert!(state.expects(&event));
    state.step(event)
}

fn filter(owner: Option<&str>, beneficiary: Option<&str>) -> GetAction {
    let (_, action) = get_plans(PlanQuery {
        owner: owner.map(|s| s.to_string()),
        beneficiary: beneficiary.map(|s| s.to_string()),
    });
    action
}

fn loaded(heirs: Vec<BeneficiaryRow>, now: i64) -> GetEvent {
    GetEvent::Loaded { heirs: Ok(heirs), now }
}

fn plans(action: GetAction) -> Vec<PlanResponse> {
    match action {
        GetAction::Answer(reply) => {
            assert_eq!(reply.status(), 200);
            match reply {
                Reply::Plans(plans) => plans,
                other => panic!("{:?}", other),
            }
        }
        other => panic!("{:?}", other),
    }
}

/// The plan as it is listed at `now`, where the yield since its last sign of life is `earned`.
fn listed(row: PlanRow, now: i64, earned: Option<Amount>) -> PlanResponse {
    let (state, _) = step(everything(), GetEvent::Selected(Ok(vec![row])));
    let (state, action) = step(state, loaded(vec![], now));
    match action {
        GetAction::ComputeYield { .. } => {
            let (state, action) = step(state, GetEvent::Computed(earned));
            assert_eq!(state, GetPlans::Finished);
            plans(action).remove(0)
        }
        other => plans(other).remove(0),
    }
}

fn everything() -> GetPlans {
    get_plans(PlanQuery { owner: None, beneficiary: None }).0
}

#[test]
fn a_query_gives_the_conditions() {
    assert_eq!(filter(Some("A"), None), GetAction::Select(PlanFilter::Owner("A".to_string())));
    assert_eq!(
        filter(None, Some("B")),
        GetAction::Select(PlanFilter::Beneficiary("B".to_string()))
    );
    assert_eq!(
        filter(Some("A"), Some("B")),
        GetAction::Select(PlanFilter::OwnerAndBeneficiary {
            owner: "A".to_string(),
            beneficiary: "B".to_string(),
        })
    );
    assert_eq!(filter(None, None), GetAction::Select(PlanFilter::All));
}

#[test]
fn no_plans_are_an_answer() {
    let (state, action) = step(everything(), GetEvent::Selected(Ok(vec![])));
    assert_eq!(state, GetPlans::Finished);
    assert_eq!(action, GetAction::Answer(Reply::Plans(vec![])));
}

#[test]
fn plans_are_listed_in_order_with_their_heirs() {
    let (state, action) = step(everything(), GetEvent::Selected(Ok(vec![row(3), row(1), row(2)])));
    assert_eq!(action, GetAction::LoadBeneficiaries(3));
    let (state, action) = step(state, loaded(vec![heir(30, 3), heir(31, 3)], 1));
    assert_eq!(action, GetAction::LoadBeneficiaries(1));
    let (state, action) = step(state, loaded(vec![], 2));
    assert_eq!(action, GetAction::LoadBeneficiaries(2));
    let (state, action) = step(state, loaded(vec![heir(20, 2)], 3));
    assert_eq!(state, GetPlans::Finished);
    let plans = plans(action);
    let ids: Vec<u128> = plans.iter().map(|p| p.id).collect();
    assert_eq!(ids, vec![3, 1, 2]);
    let heirs: Vec<Vec<u128>> =
        plans.iter().map(|p| p.beneficiaries.iter().map(|b| b.id).collect()).collect();
    assert_eq!(heirs, vec![vec![30, 31], vec![], vec![20]]);
    assert_eq!(plans[0].accrued_yield, amount(125, 1));
}

#[test]
fn yield_is_accumulated_on_the_fly() {
    let rows = vec![earning_row(3), row(1), earning_row(2)];
    let (state, action) = step(everything(), GetEvent::Selected(Ok(rows)));
    assert_eq!(action, GetAction::LoadBeneficiaries(3));
    let (state, action) = step(state, loaded(vec![heir(30, 3)], 1_700_003_600));
    assert_eq!(
        action,
        GetAction::ComputeYield { amount: amount(1000, 0), rate_bps: 500, elapsed: 3_600 }
    );
    let (state, action) = step(state, GetEvent::Computed(Some(amount(2500, 3))));
    assert_eq!(action, GetAction::LoadBeneficiaries(1));
    let (state, action) = step(state, loaded(vec![], 1_700_003_601));
    assert_eq!(action, GetAction::LoadBeneficiaries(2));
    let (state, action) = step(state, loaded(vec![heir(20, 2)], 1_700_003_602));
    assert_eq!(
        action,
        GetAction::ComputeYield { amount: amount(1000, 0), rate_bps: 500, elapsed: 3_602 }
    );
    let (state, action) = step(state, GetEvent::Computed(Some(amount(26, 1))));
    assert_eq!(state, GetPlans::Finished);
    let plans = plans(action);
    let shown: Vec<(u128, Amount)> = plans.iter().map(|p| (p.id, p.accrued_yield)).collect();
    assert_eq!(shown, vec![(3, amount(150, 1)), (1, amount(125, 1)), (2, amount(151, 1))]);
    assert_eq!(plans[0].beneficiaries[0].id, 30);
    assert_eq!(plans[2].beneficiaries[0].id, 20);
    assert_eq!(plans[0].last_ping, 1_700_000_000);
}

#[test]
fn a_plan_without_rate_or_sign_of_life_accrues_nothing() {
    assert_eq!(listed(row(1), i64::MAX, None).accrued_yield, amount(125, 1));
    let mut silent = earning_row(1);
    silent.last_ping = 0;
    let (state, _) = step(everything(), GetEvent::Selected(Ok(vec![silent])));
    let (state, action) = step(state, loaded(vec![], 1_700_003_600));
    assert_eq!(state, GetPlans::Finished);
    assert_eq!(plans(action)[0].accrued_yield, amount(125, 1));
}

#[test]
fn listed_yield_goes_by_the_rate_alone() {
    let mut plan = earning_row(1);
    plan.earn_yield = false;
    let shown = listed(plan, 1_700_003_600, Some(amount(25, 1)));
    assert!(!shown.earn_yield);
    assert_eq!(shown.accrued_yield, amount(150, 1));
}

#[test]
fn a_clock_before_the_last_sign_of_life_counts_no_seconds() {
    let (state, _) = step(everything(), GetEvent::Selected(Ok(vec![earning_row(1)])));
    let (_, action) = step(state, loaded(vec![], 1_699_999_999));
    assert_eq!(
        action,
        GetAction::ComputeYield { amount: amount(1000, 0), rate_bps: 500, elapsed: 0 }
    );
}

#[test]
fn listed_yield_is_the_sum_of_both() {
    let stored = earning_row(1);
    assert_eq!(shown_yield(&stored, None), amount(125, 1));
    assert_eq!(shown_yield(&stored, Some(amount(100, 4))), amount(1251, 2));
    assert_eq!(shown_yield(&stored, Some(amount(0, 3))), amount(125, 1));
    let mut fresh = earning_row(1);
    fresh.accrued_yield = Amount::zero();
    assert_eq!(shown_yield(&fresh, Some(amount(12_500, 4))), amount(125, 2));
    assert_eq!(listed(stored, 1_700_003_600, None).accrued_yield, amount(125, 1));
}

#[test]
fn yield_out_of_range_leaves_what_is_stored() {
    let mut full = earning_row(1);
    full.accrued_yield = amount(MAX_MANTISSA, 0);
    assert_eq!(shown_yield(&full, Some(amount(1, 0))), amount(MAX_MANTISSA, 0));
    let (state, _) = step(everything(), GetEvent::Selected(Ok(vec![full, row(2)])));
    let (state, _) = step(state, loaded(vec![], 1_700_003_600));
    let (state, action) = step(state, GetEvent::Computed(Some(amount(1, 0))));
    assert_eq!(action, GetAction::LoadBeneficiaries(2));
    let (state, action) = step(state, loaded(vec![], 1_700_003_600));
    assert_eq!(state, GetPlans::Finished);
    let plans = plans(action);
    assert_eq!(plans[0].accrued_yield, amount(MAX_MANTISSA, 0));
    assert_eq!(plans[1].accrued_yield, amount(125, 1));
}

#[test]
fn a_yield_with_many_digits_is_rounded_to_what_fits() {
    let mut plan = earning_row(1);
    plan.accrued_yield = amount(1005, 1);
    // 100.5 and 0.0123456789012345678901234567 with 28 digits behind the point.
    let earned = amount(123_456_789_012_345_678_901_234_567, 28);
    let shown = listed(plan, 1_700_003_600, Some(earned)).accrued_yield;
    assert_eq!(shown, amount(10_051_234_567_890_123_456_789_012_346, 26));
}

#[test]
fn a_listing_expects_what_it_asked_for() {
    assert!(everything().expects(&GetEvent::Selected(Ok(vec![]))));
    assert!(!everything().expects(&GetEvent::Computed(None)));
    let (state, _) = step(everything(), GetEvent::Selected(Ok(vec![earning_row(1)])));
    assert!(!state.expects(&GetEvent::Computed(None)));
    let (state, _) = step(state, loaded(vec![], 1_700_003_600));
    assert!(!state.expects(&loaded(vec![], 1_700_003_600)));
    assert!(state.expects(&GetEvent::Computed(None)));
    assert!(!GetPlans::Finished.expects(&GetEvent::Computed(None)));
}

#[test]
fn a_failure_ends_the_listing() {
    let (state, action) = step(everything(), GetEvent::Selected(Err("down".to_string())));
    assert_eq!(state, GetPlans::Finished);
    assert_eq!(
        action,
        GetAction::Answer(Reply::Error {
            status: 500,
            error: "Database query failed: down".to_string(),
        })
    );
    let (state, _) = step(everything(), GetEvent::Selected(Ok(vec![row(3), row(1)])));
    let (state, _) = step(state, loaded(vec![], 1));
    let down = GetEvent::Loaded { heirs: Err("down".to_string()), now: 2 };
    let (state, action) = step(state, down);
    assert_eq!(state, GetPlans::Finished);
    assert_eq!(
        action,
        GetAction::Answer(Reply::Error {
            status: 500,
            error: "Failed to load beneficiaries: down".to_string(),
        })
    );
}

#[test]
fn a_response_shows_what_is_stored() {
    let stored = earning_row(9);
    let heirs = load_beneficiaries(vec![heir(90, 9)]);
    assert_eq!(heirs[0].wallet_address, "G90");
    assert_eq!(heirs[0].plan_id, 9);
    let shown = plan_row_to_response(stored.clone(), heirs.clone());
    assert_eq!(shown.id, stored.id);
    assert_eq!(shown.owner_address, stored.owner_address);
    assert_eq!(shown.token_address, stored.token_address);
    assert_eq!(shown.amount, stored.amount);
    assert_eq!(shown.grace_period, 60);
    assert_eq!(shown.grace_period_seconds, 61);
    assert_eq!(shown.earn_yield, stored.earn_yield);
    assert_eq!(shown.last_ping, stored.last_ping);
    assert_eq!(shown.is_active, stored.is_active);
    assert_eq!(shown.status, stored.status);
    assert_eq!(shown.yield_rate_bps, stored.yield_rate_bps);
    assert_eq!(shown.accrued_yield, stored.accrued_yield);
    assert_eq!(shown.created_at, stored.created_at);
    assert_eq!(shown.beneficiaries, heirs);
}

#[test]
fn payouts_are_not_implemented() {
    let reply = trigger_payout(&PayoutRequest { owner: "GOWNER".to_string() });
    assert_eq!(reply.status(), 501);
    assert_eq!(
        reply,
        Reply::Text { status: 501, body: "Payout trigger logic not implemented".to_string() }
    );
}

#[test]
fn payouts_of_the_registry_are_listed() {
    let everyone = AnchorQuery { beneficiary_address: None };
    let (status, payouts) = get_anchor_payouts(vec!["p1", "p2"], &everyone);
    assert_eq!(status, 200);
    assert_eq!(payouts, vec!["p1", "p2"]);
    let (status, payouts) = get_anchor_payouts::<u8>(vec![], &everyone);
    assert_eq!(status, 200);
    assert!(payouts.is_empty());
}

#[test]
fn an_address_leaves_no_payout_out() {
    let one = AnchorQuery { beneficiary_address: Some("GA".to_string()) };
    let (status, payouts) = get_anchor_payouts(vec![3u8, 1, 2], &one);
    assert_eq!(status, 200);
    assert_eq!(payouts, vec![3, 1, 2]);
}

#[test]
fn user_routes_ask_for_a_signature() {
    let guarded: Vec<Endpoint> =
        endpoints().into_iter().filter(|e| e.requires_signature()).collect();
    assert_eq!(guarded, vec![Endpoint::CreatePlan, Endpoint::TriggerPayout]);
    assert_eq!(Endpoint::CreatePlan.path(), "/api/plans");
    assert_eq!(Endpoint::CreatePlan.method(), Method::Post);
    assert_eq!(Endpoint::GetPlans.path(), "/api/plans");
    assert_eq!(Endpoint::GetPlans.method(), Method::Get);
    assert_eq!(Endpoint::WatchKyc.path(), "/ws/kyc");
}

#[test]
fn routes_do_not_clash() {
    let all = endpoints();
    assert_eq!(all.len(), 7);
    for (i, a) in all.iter().enumerate() {
        for b in &all[i + 1..] {
            assert!(a.method() != b.method() || a.path() != b.path());
        }
    }
}
