use inheritance_plans::amount::Amount;
use inheritance_plans::binary64::Binary64;
use inheritance_plans::create::{create_plan, CreateAction, CreateEvent};
use inheritance_plans::list::{get_plans, GetAction, GetEvent, PlanFilter};
use inheritance_plans::model::{
    BeneficiaryResponse, BeneficiaryRow, PingResponse, Plan, PlanBeneficiary, PlanQuery,
    PlanResponse, PlanRow, Timestamp,
};
use inheritance_plans::ping::{ping_signed, PingAction, PingEvent};
use inheritance_plans::reply::Reply;

/// The two tables, held in memory.
#[derive(Clone, Debug, PartialEq, Eq)]
struct Tables {
    plans: Vec<PlanRow>,
    heirs: Vec<BeneficiaryRow>,
}

fn amount(mantissa: i128, scale: u32) -> Amount {
    Amount::new(mantissa, scale).unwrap()
}

/// A tenth of a unit for each second.
fn computed(elapsed: u64) -> Option<Amount> {
    Amount::new(elapsed as i128, 1)
}

fn plan(owner: &str, heirs: &[(&str, u32)]) -> Plan {
    Plan {
        owner: owner.to_string(),
        token: "USDC".to_string(),
        amount: Binary64 { bits: 500.0f64.to_bits() },
        beneficiaries: heirs
            .iter()
            .map(|(address, allocation_bps)| PlanBeneficiary {
                address: address.to_string(),
                name: "Heir".to_string(),
                allocation_bps: *allocation_bps,
                fiat_anchor_info: format!("iban-{}", address),
            })
            .collect(),
        last_ping: 1_000,
        grace_period: 60,
        earn_yield: true,
        yield_rate_bps: 500,
        is_active: true,
    }
}

impl Tables {
    fn new() -> Tables {
        Tables { plans: vec![], heirs: vec![] }
    }

    fn create(&mut self, plan: Plan) -> PlanResponse {
        match self.try_create(plan, true) {
            Reply::Created(response) => response,
            other => panic!("{:?}", other),
        }
    }

    fn try_create(&mut self, plan: Plan, commits: bool) -> Reply {
        let mut changed = self.clone();
        let (mut machine, mut action) = create_plan(plan, Some(amount(5000, 1)));
        loop {
            let event = match action {
                CreateAction::Begin => CreateEvent::Began(Ok(())),
                CreateAction::InsertPlan(new) => {
                    let n = changed.plans.len();
                    let row = PlanRow {
                        id: 100 + n as u128,
                        owner_address: new.owner_address,
                        token_address: new.token_address,
                        amount: new.amount,
                        grace_period: new.grace_period,
                        grace_period_seconds: new.grace_period_seconds,
                        earn_yield: new.earn_yield,
                        last_ping: new.last_ping,
                        is_active: new.is_active,
                        status: new.status,
                        yield_rate_bps: new.yield_rate_bps,
                        accrued_yield: new.accrued_yield,
                        created_at: Timestamp { seconds: 900, nanoseconds: n as u32 },
                    };
                    changed.plans.push(row.clone());
                    CreateEvent::PlanSaved(Ok(row))
                }
                CreateAction::InsertBeneficiary(new) => {
                    let row = BeneficiaryRow {
                        id: 200 + changed.heirs.len() as u128,
                        plan_id: new.plan_id,
                        wallet_address: new.wallet_address,
                        allocation_bps: new.allocation_bps,
                        fiat_anchor_info: new.fiat_anchor_info,
                    };
                    changed.heirs.push(row.clone());
                    CreateEvent::BeneficiarySaved(Ok(row))
                }
                CreateAction::Commit => {
                    if commits {
                        *self = changed.clone();
                        CreateEvent::Committed(Ok(()))
                    } else {
                        CreateEvent::Committed(Err("conflict".to_string()))
                    }
                }
                CreateAction::Answer(reply) => return reply,
            };
            assert!(machine.expects(&event));
            (machine, action) = machine.step(event);
        }
    }

    fn has_heir(&self, plan: &PlanRow, address: &str) -> bool {
        self.heirs.iter().any(|h| h.plan_id == plan.id && h.wallet_address == address)
    }

    fn select(&self, filter: PlanFilter) -> Vec<PlanRow> {
        let mut rows: Vec<PlanRow> = self
            .plans
            .iter()
            .filter(|p| match &filter {
                PlanFilter::Owner(owner) => &p.owner_address == owner,
                PlanFilter::Beneficiary(address) => self.has_heir(p, address),
                PlanFilter::OwnerAndBeneficiary { owner, beneficiary } => {
                    &p.owner_address == owner && self.has_heir(p, beneficiary)
                }
                PlanFilter::All => true,
            })
            .cloned()
            .collect();
        rows.sort_by_key(|p| (p.created_at.seconds, p.created_at.nanoseconds));
        rows.reverse();
        rows
    }

    fn list(&self, owner: Option<&str>, address: Option<&str>, now: i64) -> Vec<PlanResponse> {
        let (mut machine, mut action) = get_plans(PlanQuery {
            owner: owner.map(|s| s.to_string()),
            beneficiary: address.map(|s| s.to_string()),
        });
        loop {
            let event = match action {
                GetAction::Select(filter) => GetEvent::Selected(Ok(self.select(filter))),
                GetAction::LoadBeneficiaries(id) => {
                    let rows = self.heirs.iter().rev().filter(|h| h.plan_id == id);
                    GetEvent::Loaded { heirs: Ok(rows.cloned().collect()), now }
                }
                GetAction::ComputeYield { elapsed, .. } => GetEvent::Computed(computed(elapsed)),
                GetAction::Answer(Reply::Plans(plans)) => return plans,
                other => panic!("{:?}", other),
            };
            assert!(machine.expects(&event));
            (machine, action) = machine.step(event);
        }
    }

    fn ping(&mut self, owner: &str, now: i64) -> PingResponse {
        let (mut machine, mut action) = ping_signed(owner.to_string(), true);
        loop {
            let event = match action {
                PingAction::Fetch { owner } => {
                    let plan =
                        self.plans.iter().find(|p| p.owner_address == owner && p.is_active);
                    PingEvent::Fetched { plan: Ok(plan.cloned()), now }
                }
                PingAction::ComputeYield { elapsed, .. } => PingEvent::Computed(computed(elapsed)),
                PingAction::Update { id, last_ping, accrued_yield } => {
                    for plan in self.plans.iter_mut().filter(|p| p.id == id) {
                        plan.last_ping = last_ping;
                        plan.accrued_yield = accrued_yield;
                    }
                    PingEvent::Updated(Ok(()))
                }
                PingAction::Answer(Reply::Pinged(response)) => return response,
                other => panic!("{:?}", other),
            };
            assert!(machine.expects(&event));
            (machine, action) = machine.step(event);
        }
    }
}

fn ids(plans: &[PlanResponse]) -> Vec<u128> {
    plans.iter().map(|p| p.id).collect()
}

fn family() -> Tables {
    let mut tables = Tables::new();
    tables.create(plan("GANNA", &[("GX", 6_000), ("GY", 4_000)]));
    tables.create(plan("GBERT", &[("GY", 10_000)]));
    tables.create(plan("GANNA", &[("GZ", 10_000)]));
    tables.create(plan("GANNA", &[("GY", 5_000), ("GY", 5_000)]));
    tables
}

#[test]
fn a_created_plan_is_listed_once() {
    let mut tables = family();
    let created = tables.create(plan("GCARL", &[("GX", 2_000), ("GW", 8_000)]));
    for (owner, address) in [
        (Some("GCARL"), None),
        (None, Some("GX")),
        (None, Some("GW")),
        (Some("GCARL"), Some("GX")),
        (None, None),
    ] {
        let plans = tables.list(owner, address, 1_600);
        let found: Vec<&PlanResponse> = plans.iter().filter(|p| p.id == created.id).collect();
        assert_eq!(found.len(), 1);
        let mut heirs: Vec<BeneficiaryResponse> = found[0].beneficiaries.clone();
        heirs.sort_by_key(|h| h.id);
        assert_eq!(heirs, created.beneficiaries);
        assert_eq!(created.accrued_yield, Amount::zero());
        assert_eq!(found[0].accrued_yield, amount(60, 0));
        let mut shown = found[0].clone();
        shown.accrued_yield = created.accrued_yield;
        shown.beneficiaries = created.beneficiaries.clone();
        assert_eq!(shown, created);
    }
    assert_eq!(ids(&tables.list(Some("GCARL"), None, 1_600)), vec![created.id]);
    assert_eq!(ids(&tables.list(Some("GCARL"), Some("GY"), 1_600)), vec![]);
}

#[test]
fn a_creation_adds_one_plan() {
    let mut tables = family();
    let before = tables.clone();
    let created = tables.create(plan("GCARL", &[("GX", 2_000), ("GW", 8_000)]));
    assert_eq!(tables.plans.len(), before.plans.len() + 1);
    assert_eq!(tables.plans[..before.plans.len()], before.plans[..]);
    assert_eq!(tables.plans[before.plans.len()].id, created.id);
    assert_eq!(tables.heirs.len(), before.heirs.len() + 2);
    assert_eq!(tables.heirs[..before.heirs.len()], before.heirs[..]);
    for (row, shown) in tables.heirs[before.heirs.len()..].iter().zip(&created.beneficiaries) {
        assert_eq!(row.plan_id, created.id);
        assert_eq!(row.id, shown.id);
    }
}

#[test]
fn a_creation_that_fails_changes_nothing() {
    let mut tables = family();
    let before = tables.clone();
    let reply = tables.try_create(plan("GCARL", &[("GX", 10_000)]), false);
    assert_eq!(reply.status(), 500);
    assert_eq!(tables, before);
    let reply = tables.try_create(plan("GCARL", &[("GX", 9_999)]), true);
    assert_eq!(reply.status(), 400);
    assert_eq!(tables, before);
}

#[test]
fn heirs_share_the_whole_of_every_plan() {
    let mut tables = family();
    tables.try_create(plan("GCARL", &[("GX", 9_999)]), true);
    tables.try_create(plan("GCARL", &[("GX", 10_001)]), true);
    tables.try_create(plan("GCARL", &[]), true);
    tables.try_create(plan("GCARL", &[("GX", 0), ("GY", 10_000)]), true);
    tables.try_create(plan("GCARL", &[("GX", 10_000)]), false);
    tables.ping("GCARL", 2_000);
    assert_eq!(tables.plans.len(), 5);
    for plan in tables.list(None, None, 2_000) {
        assert!(!plan.beneficiaries.is_empty());
        assert!(plan.beneficiaries.iter().all(|b| (0..=10_000).contains(&b.allocation_bps)));
        assert_eq!(plan.beneficiaries.iter().map(|b| b.allocation_bps).sum::<i32>(), 10_000);
    }
}

#[test]
fn the_newest_plan_is_listed_first() {
    let tables = family();
    assert_eq!(ids(&tables.list(None, None, 1_000)), vec![103, 102, 101, 100]);
    assert_eq!(ids(&tables.list(Some("GANNA"), None, 1_000)), vec![103, 102, 100]);
}

#[test]
fn both_filters_list_what_each_lists() {
    let tables = family();
    for owner in ["GANNA", "GBERT", "GCARL"] {
        for address in ["GX", "GY", "GZ"] {
            let owned = ids(&tables.list(Some(owner), None, 1_000));
            let inherited = ids(&tables.list(None, Some(address), 1_000));
            let common: Vec<u128> =
                owned.into_iter().filter(|id| inherited.contains(id)).collect();
            assert_eq!(ids(&tables.list(Some(owner), Some(address), 1_000)), common);
        }
    }
    assert_eq!(ids(&tables.list(Some("GANNA"), Some("GY"), 1_000)), vec![103, 100]);
}

#[test]
fn a_ping_changes_one_plan() {
    let mut tables = family();
    tables.plans[0].is_active = false;
    let before = tables.clone();
    let response = tables.ping("GANNA", 1_050);
    assert_eq!(response.virtual_balance, amount(505, 0));
    assert_eq!(tables.heirs, before.heirs);
    let changed: Vec<usize> =
        (0..before.plans.len()).filter(|i| tables.plans[*i] != before.plans[*i]).collect();
    assert_eq!(changed, vec![2]);
    let mut expected = before.plans[2].clone();
    expected.last_ping = 1_050;
    expected.accrued_yield = amount(5, 0);
    assert_eq!(tables.plans[2], expected);
}

#[test]
fn a_pinged_plan_is_listed_with_its_sign_of_life() {
    let mut tables = family();
    tables.ping("GBERT", 1_050);
    let plans = tables.list(Some("GBERT"), None, 1_075);
    assert_eq!(plans.len(), 1);
    assert_eq!(plans[0].last_ping, 1_050);
    assert_eq!(plans[0].accrued_yield, amount(75, 1));
}

#[test]
fn the_listed_yield_is_what_a_ping_credits() {
    let mut tables = family();
    let shown = tables.list(Some("GBERT"), None, 1_333)[0].accrued_yield;
    assert_eq!(shown, amount(333, 1));
    tables.ping("GBERT", 1_333);
    assert_eq!(tables.plans[1].accrued_yield, shown);
    assert_eq!(tables.list(Some("GBERT"), None, 1_333)[0].accrued_yield, shown);
}
