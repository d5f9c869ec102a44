use inheritance_plans::amount::Amount;
use inheritance_plans::binary64::Binary64;
use inheritance_plans::create::{create_plan, CreateAction, CreateEvent, CreatePlan};
use inheritance_plans::model::{
    BeneficiaryRow, Plan, PlanBeneficiary, PlanRow, Timestamp,
};
use inheritance_plans::plan::{validate_plan, NewBeneficiary, NewPlan, PlanError};
use inheritance_plans::reply::Reply;

fn heir(address: &str, allocation_bps: u32) -> PlanBeneficiary {
    PlanBeneficiary {
        address: address.to_string(),
        name: "Heir".to_string(),
        allocation_bps,
        fiat_anchor_info: format!("iban-{}", address),
    }
}

fn plan() -> Plan {
    Plan {
        owner: "GOWNER".to_string(),
        token: "USDC".to_string(),
        amount: Binary64 { bits: 1250.5f64.to_bits() },
        beneficiaries: vec![heir("GA", 6_000), heir("GB", 4_000)],
        last_ping: 1_700_000_000,
        grace_period: 86_400,
        earn_yield: true,
        yield_rate_bps: 500,
        is_active: true,
    }
}

fn amount(mantissa: i128, scale: u32) -> Amount {
    Amount::new(mantissa, scale).unwrap()
}

fn plan_row(new: &NewPlan) -> PlanRow {
    PlanRow {
        id: 77,
        owner_address: new.owner_address.clone(),
        token_address: new.token_address.clone(),
        amount: new.amount,
        grace_period: new.grace_period,
        grace_period_seconds: new.grace_period_seconds,
        earn_yield: new.earn_yield,
        last_ping: new.last_ping,
        is_active: new.is_active,
        status: new.status.clone(),
        yield_rate_bps: new.yield_rate_bps,
        accrued_yield: new.accrued_yield,
        created_at: Timestamp { seconds: 1_700_000_001, nanoseconds: 5 },
    }
}

fn heir_row(id: u128, new: &NewBeneficiary) -> BeneficiaryRow {
    BeneficiaryRow {
        id,
        plan_id: new.plan_id,
        wallet_address: new.wallet_address.clone(),
        allocation_bps: new.allocation_bps,
        fiat_anchor_info: new.fiat_anchor_info.clone(),
    }
}

fn step(state: CreatePlan, event: CreateEvent) -> (CreatePlan, CreateAction) {
    assert!(state.expects(&event));
    state.step(event)
}

fn new_plan(action: CreateAction) -> NewPlan {
    match action {
        CreateAction::InsertPlan(new) => new,
        other => panic!("{:?}", other),
    }
}

fn new_heir(action: CreateAction) -> NewBeneficiary {
    match action {
        CreateAction::InsertBeneficiary(new) => new,
        other => panic!("{:?}", other),
    }
}

fn failed(status: u16, error: &str) -> CreateAction {
    CreateAction::Answer(Reply::Error { status, error: error.to_string() })
}

fn refusal(plan: Plan, error: &str) {
    let (state, action) = create_plan(plan, Some(amount(1, 0)));
    assert_eq!(action, failed(400, error));
    assert_eq!(state, CreatePlan::Finished);
}

#[test]
fn a_sound_plan_is_accepted() {
    assert_eq!(validate_plan(&plan()), Ok(()));
}

#[test]
fn a_plan_needs_an_owner() {
    let mut p = plan();
    p.owner = " \t".to_string();
    p.token = String::new();
    assert_eq!(validate_plan(&p), Err(PlanError::EmptyOwner));
    refusal(p, "Owner address cannot be empty");
}

#[test]
fn a_plan_needs_a_token() {
    let mut p = plan();
    p.token = "\n".to_string();
    refusal(p, "Token address cannot be empty");
}

#[test]
fn an_amount_is_not_negative() {
    let mut p = plan();
    p.amount = Binary64 { bits: (-0.01f64).to_bits() };
    p.grace_period = 0;
    refusal(p, "Amount must be non-negative");
    let mut p = plan();
    p.amount = Binary64 { bits: (-0.0f64).to_bits() };
    assert_eq!(validate_plan(&p), Ok(()));
}

#[test]
fn a_plan_needs_a_time_of_grace() {
    let mut p = plan();
    p.grace_period = 0;
    p.beneficiaries.clear();
    refusal(p, "Grace period must be greater than zero");
}

#[test]
fn a_plan_needs_an_heir() {
    let mut p = plan();
    p.beneficiaries.clear();
    refusal(p, "Plan must have at least one beneficiary");
}

#[test]
fn an_heir_needs_an_address() {
    let mut p = plan();
    p.beneficiaries = vec![heir("GA", 10_000), heir(" ", 10_001)];
    refusal(p, "Beneficiary address cannot be empty");
}

#[test]
fn a_share_is_at_most_the_whole() {
    let mut p = plan();
    p.beneficiaries = vec![heir("GA", 10_001), heir(" ", 1)];
    refusal(p, "Beneficiary allocation_bps cannot exceed 10000");
}

#[test]
fn shares_add_up_to_the_whole() {
    let mut p = plan();
    p.beneficiaries = vec![heir("GA", 6_000), heir("GB", 3_999)];
    assert_eq!(
        validate_plan(&p),
        Err(PlanError::WrongTotalAllocation { total_bps: 9_999 })
    );
    refusal(p, "Total allocation_bps must be exactly 10000 (100%), got 9999");
    let mut p = plan();
    p.beneficiaries = vec![heir("GA", 10_000), heir("GB", 10_000)];
    refusal(p, "Total allocation_bps must be exactly 10000 (100%), got 20000");
    let mut p = plan();
    p.beneficiaries = vec![heir("GA", 10_000), heir("GB", 0)];
    assert_eq!(validate_plan(&p), Ok(()));
}

#[test]
fn an_amount_is_a_decimal() {
    let mut p = plan();
    p.amount = Binary64 { bits: f64::NAN.to_bits() };
    let (state, action) = create_plan(p, None);
    assert_eq!(action, failed(400, "Invalid amount representation"));
    assert_eq!(state, CreatePlan::Finished);
}

#[test]
fn what_is_wrong_first_is_told() {
    let mut p = plan();
    p.beneficiaries = vec![heir("GA", 1)];
    let (_, action) = create_plan(p, None);
    assert_eq!(action, failed(400, "Total allocation_bps must be exactly 10000 (100%), got 1"));
}

#[test]
fn a_plan_is_stored_with_its_heirs_and_committed() {
    let (state, action) = create_plan(plan(), Some(amount(1_250_500, 3)));
    assert_eq!(action, CreateAction::Begin);
    let (state, action) = step(state, CreateEvent::Began(Ok(())));
    let new = new_plan(action);
    assert_eq!(
        new,
        NewPlan {
            owner_address: "GOWNER".to_string(),
            token_address: "USDC".to_string(),
            amount: amount(12_505, 1),
            grace_period: 86_400,
            grace_period_seconds: 86_400,
            earn_yield: true,
            yield_rate_bps: 500,
            accrued_yield: Amount::zero(),
            last_ping: 1_700_000_000,
            is_active: true,
            status: "ACTIVE".to_string(),
        }
    );
    let row = plan_row(&new);
    let (state, action) = step(state, CreateEvent::PlanSaved(Ok(row.clone())));
    let first = new_heir(action);
    assert_eq!(first.plan_id, 77);
    assert_eq!(first.wallet_address, "GA");
    assert_eq!(first.allocation_bps, 6_000);
    assert_eq!(first.fiat_anchor_info, "iban-GA");
    let (state, action) = step(state, CreateEvent::BeneficiarySaved(Ok(heir_row(101, &first))));
    let second = new_heir(action);
    assert_eq!(second.wallet_address, "GB");
    assert_eq!(second.allocation_bps, 4_000);
    let (state, action) = step(state, CreateEvent::BeneficiarySaved(Ok(heir_row(102, &second))));
    assert_eq!(action, CreateAction::Commit);
    let (state, action) = step(state, CreateEvent::Committed(Ok(())));
    assert_eq!(state, CreatePlan::Finished);
    match action {
        CreateAction::Answer(reply) => {
            assert_eq!(reply.status(), 201);
            match reply {
                Reply::Created(response) => {
                    assert_eq!(response.id, 77);
                    assert_eq!(response.owner_address, row.owner_address);
                    assert_eq!(response.amount, row.amount);
                    assert_eq!(response.status, "ACTIVE");
                    assert_eq!(response.created_at, row.created_at);
                    let ids: Vec<u128> = response.beneficiaries.iter().map(|b| b.id).collect();
                    assert_eq!(ids, vec![101, 102]);
                    assert_eq!(response.beneficiaries[1].wallet_address, "GB");
                }
                other => panic!("{:?}", other),
            }
        }
        other => panic!("{:?}", other),
    }
}

#[test]
fn a_failure_ends_the_creation() {
    let (state, _) = create_plan(plan(), Some(amount(1, 0)));
    let (state, action) = step(state, CreateEvent::Began(Err("no pool".to_string())));
    assert_eq!(action, failed(500, "Failed to begin database transaction: no pool"));
    assert_eq!(state, CreatePlan::Finished);

    let (state, _) = create_plan(plan(), Some(amount(1, 0)));
    let (state, _) = step(state, CreateEvent::Began(Ok(())));
    let (state, action) = step(state, CreateEvent::PlanSaved(Err("full".to_string())));
    assert_eq!(action, failed(500, "Failed to save plan: full"));
    assert_eq!(state, CreatePlan::Finished);

    let (state, _) = create_plan(plan(), Some(amount(1, 0)));
    let (state, action) = step(state, CreateEvent::Began(Ok(())));
    let row = plan_row(&new_plan(action));
    let (state, action) = step(state, CreateEvent::PlanSaved(Ok(row)));
    let first = new_heir(action);
    let (state, _) = step(state, CreateEvent::BeneficiarySaved(Ok(heir_row(1, &first))));
    let (state, action) = step(state, CreateEvent::BeneficiarySaved(Err("lost".to_string())));
    assert_eq!(action, failed(500, "Failed to save beneficiary: lost"));
    assert_eq!(state, CreatePlan::Finished);
}

#[test]
fn a_failed_commit_is_no_creation() {
    let mut p = plan();
    p.beneficiaries = vec![heir("GA", 10_000)];
    let (state, _) = create_plan(p, Some(amount(1, 0)));
    let (state, action) = step(state, CreateEvent::Began(Ok(())));
    let row = plan_row(&new_plan(action));
    let (state, action) = step(state, CreateEvent::PlanSaved(Ok(row)));
    let only = new_heir(action);
    let (state, action) = step(state, CreateEvent::BeneficiarySaved(Ok(heir_row(1, &only))));
    assert_eq!(action, CreateAction::Commit);
    let (state, action) = step(state, CreateEvent::Committed(Err("conflict".to_string())));
    assert_eq!(action, failed(500, "Failed to commit database transaction: conflict"));
    assert_eq!(state, CreatePlan::Finished);
}

#[test]
fn columns_take_the_low_bits() {
    let mut p = plan();
    p.grace_period = 1 << 63;
    p.yield_rate_bps = u32::MAX;
    let (state, _) = create_plan(p, Some(amount(1, 0)));
    let (_, action) = step(state, CreateEvent::Began(Ok(())));
    let new = new_plan(action);
    assert_eq!(new.grace_period, i64::MIN);
    assert_eq!(new.grace_period_seconds, i64::MIN);
    assert_eq!(new.yield_rate_bps, -1);
}

#[test]
fn only_what_came_of_the_last_action_is_expected() {
    let (state, _) = create_plan(plan(), Some(amount(1, 0)));
    assert!(state.expects(&CreateEvent::Began(Ok(()))));
    assert!(!state.expects(&CreateEvent::Committed(Ok(()))));
    assert!(!CreatePlan::Finished.expects(&CreateEvent::Began(Ok(()))));
}
