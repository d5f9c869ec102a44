use ed25519_dalek::{Signer, SigningKey};
use inheritance_plans::amount::{Amount, MAX_MANTISSA};
use inheritance_plans::model::{PingRequest, PingResponse, PlanRow, Timestamp};
use inheritance_plans::ping::{ping_plan, ping_signed, PingAction, PingEvent, PingPlan};
use inheritance_plans::reply::Reply;
use stellar_strkey::ed25519::PublicKey;

fn amount(mantissa: i128, scale: u32) -> Amount {
    Amount::new(mantissa, scale).unwrap()
}

fn row() -> PlanRow {
    PlanRow {
        id: 5,
        owner_address: "GOWNER".to_string(),
        token_address: "USDC".to_string(),
        amount: amount(1000, 0),
        grace_period: 60,
        grace_period_seconds: 60,
        earn_yield: true,
        last_ping: 1_000,
        is_active: true,
        status: "ACTIVE".to_string(),
        yield_rate_bps: 500,
        accrued_yield: amount(125, 1),
        created_at: Timestamp { seconds: 0, nanoseconds: 0 },
    }
}

fn step(state: PingPlan, event: PingEvent) -> (PingPlan, PingAction) {
    assert!(state.expects(&event));
    state.step(event)
}

fn fetching() -> PingPlan {
    ping_signed("GOWNER".to_string(), true).0
}

fn fetched(plan: PlanRow, now: i64) -> (PingPlan, PingAction) {
    step(fetching(), PingEvent::Fetched { plan: Ok(Some(plan)), now })
}

fn update(last_ping: i64, accrued_yield: Amount) -> PingAction {
    PingAction::Update { id: 5, last_ping, accrued_yield }
}

fn failed(status: u16, error: &str) -> PingAction {
    PingAction::Answer(Reply::Error { status, error: error.to_string() })
}

#[test]
fn a_signed_ping_fetches_the_plan_of_its_owner() {
    let key = SigningKey::from_bytes(&[9u8; 32]);
    let owner = PublicKey(key.verifying_key().to_bytes()).to_string().as_str().to_string();
    let signature = hex::encode(key.sign(b"alive").to_bytes());
    let (state, action) = ping_plan(PingRequest {
        owner: owner.clone(),
        signature: signature.clone(),
        message: "alive".to_string(),
    });
    assert_eq!(state, PingPlan::Fetching);
    assert_eq!(action, PingAction::Fetch { owner: owner.clone() });
    let (state, action) =
        ping_plan(PingRequest { owner, signature, message: "dead".to_string() });
    assert_eq!(state, PingPlan::Finished);
    assert_eq!(action, failed(401, "Invalid signature"));
}

#[test]
fn an_unsigned_ping_is_refused() {
    let (state, action) = ping_signed("GOWNER".to_string(), false);
    assert_eq!(state, PingPlan::Finished);
    assert_eq!(action, failed(401, "Invalid signature"));
}

#[test]
fn a_ping_credits_the_yield_since_the_last_one() {
    let (state, action) = fetched(row(), 4_600);
    assert_eq!(
        action,
        PingAction::ComputeYield { amount: amount(1000, 0), rate_bps: 500, elapsed: 3_600 }
    );
    let (state, action) = step(state, PingEvent::Computed(Some(amount(2500, 3))));
    assert_eq!(action, update(4_600, amount(150, 1)));
    let (state, action) = step(state, PingEvent::Updated(Ok(())));
    assert_eq!(state, PingPlan::Finished);
    assert_eq!(
        action,
        PingAction::Answer(Reply::Pinged(PingResponse {
            owner: "GOWNER".to_string(),
            status: "ACTIVE".to_string(),
            virtual_balance: amount(10_150, 1),
        }))
    );
}

#[test]
fn a_plan_without_yield_is_not_credited() {
    let mut plan = row();
    plan.earn_yield = false;
    let (state, action) = fetched(plan, 4_600);
    assert_eq!(action, update(4_600, amount(125, 1)));
    let (_, action) = step(state, PingEvent::Updated(Ok(())));
    match action {
        PingAction::Answer(Reply::Pinged(response)) => {
            assert_eq!(response.virtual_balance, amount(10_125, 1))
        }
        other => panic!("{:?}", other),
    }
}

#[test]
fn a_clock_that_stands_before_the_last_ping_credits_nothing() {
    let (_, action) = fetched(row(), 999);
    assert_eq!(action, update(999, amount(125, 1)));
}

#[test]
fn a_second_ping_at_the_same_second_credits_nothing() {
    let (state, _) = fetched(row(), 4_600);
    let (_, action) = step(state, PingEvent::Computed(Some(amount(25, 1))));
    assert_eq!(action, update(4_600, amount(150, 1)));
    let mut again = row();
    again.last_ping = 4_600;
    again.accrued_yield = amount(150, 1);
    let (_, action) = fetched(again, 4_600);
    assert_eq!(action, update(4_600, amount(150, 1)));
}

#[test]
fn a_yield_that_is_no_decimal_is_not_credited() {
    let (state, _) = fetched(row(), 4_600);
    let (_, action) = step(state, PingEvent::Computed(None));
    assert_eq!(action, update(4_600, amount(125, 1)));
}

#[test]
fn the_first_yield_is_credited_as_it_is_written_shortest() {
    let mut plan = row();
    plan.accrued_yield = Amount::zero();
    let (state, _) = fetched(plan, 4_600);
    let (_, action) = step(state, PingEvent::Computed(Some(amount(12_500, 4))));
    assert_eq!(action, update(4_600, amount(125, 2)));
}

#[test]
fn a_negative_rate_is_taken_by_its_bits() {
    let mut plan = row();
    plan.yield_rate_bps = -1;
    let (_, action) = fetched(plan, 1_001);
    assert_eq!(
        action,
        PingAction::ComputeYield { amount: amount(1000, 0), rate_bps: u32::MAX, elapsed: 1 }
    );
}

#[test]
fn sums_out_of_range_end_the_ping() {
    let mut plan = row();
    plan.accrued_yield = amount(MAX_MANTISSA, 0);
    let (state, _) = fetched(plan, 4_600);
    let (state, action) = step(state, PingEvent::Computed(Some(amount(1, 0))));
    assert_eq!(state, PingPlan::Finished);
    assert_eq!(action, PingAction::Overflow);

    let mut plan = row();
    plan.amount = amount(MAX_MANTISSA, 0);
    plan.accrued_yield = amount(1, 0);
    plan.earn_yield = false;
    let (state, _) = fetched(plan, 4_600);
    let (_, action) = step(state, PingEvent::Updated(Ok(())));
    assert_eq!(action, PingAction::Overflow);
}

#[test]
fn a_failure_ends_the_ping() {
    let (state, action) = step(fetching(), PingEvent::Fetched { plan: Ok(None), now: 1 });
    assert_eq!(state, PingPlan::Finished);
    assert_eq!(action, failed(404, "Active plan not found"));
    let down = PingEvent::Fetched { plan: Err("down".to_string()), now: 1 };
    let (_, action) = step(fetching(), down);
    assert_eq!(action, failed(500, "Database error: down"));
    let (state, _) = fetched(row(), 1_000);
    let (state, action) = step(state, PingEvent::Updated(Err("locked".to_string())));
    assert_eq!(state, PingPlan::Finished);
    assert_eq!(action, failed(500, "Failed to update plan: locked"));
}

#[test]
fn a_second_ping_at_the_same_second_is_answered_alike() {
    let (state, _) = fetched(row(), 4_600);
    let (state, _) = step(state, PingEvent::Computed(Some(amount(25, 1))));
    let (_, first) = step(state, PingEvent::Updated(Ok(())));
    let mut again = row();
    again.last_ping = 4_600;
    again.accrued_yield = amount(150, 1);
    let (state, _) = fetched(again, 4_600);
    let (_, second) = step(state, PingEvent::Updated(Ok(())));
    assert_eq!(second, first);
}
