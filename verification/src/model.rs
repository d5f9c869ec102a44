//! The requests, the stored rows and the answers of the service.

use crate::amount::Amount;
use crate::binary64::Binary64;
use vstd::prelude::*;

verus! {

/// One heir of a plan that is to be created.
#[derive(Debug, Clone, PartialEq, Eq)]
pub struct PlanBeneficiary {
    pub address: String,
    pub name: String,
    /// The share of the plan, in hundredths of a percent.
    pub allocation_bps: u32,
    pub fiat_anchor_info: String,
}

/// A plan that is to be created.
#[derive(Debug, Clone, PartialEq, Eq)]
pub struct Plan {
    pub owner: String,
    pub token: String,
    pub amount: Binary64,
    pub beneficiaries: Vec<PlanBeneficiary>,
    pub last_ping: i64,
    pub grace_period: u64,
    pub earn_yield: bool,
    pub yield_rate_bps: u32,
    pub is_active: bool,
}

/// Which plans are to be listed.
#[derive(Debug, Clone, PartialEq, Eq)]
pub struct PlanQuery {
    pub owner: Option<String>,
    pub beneficiary: Option<String>,
}

/// A sign of life: `signature` is the owner's signature of `message`, in hexadecimal.
#[derive(Debug, Clone, PartialEq, Eq)]
pub struct PingRequest {
    pub owner: String,
    pub signature: String,
    pub message: String,
}

/// The answer to a sign of life.
#[derive(Debug, Clone, PartialEq, Eq)]
pub struct PingResponse {
    pub owner: String,
    pub status: String,
    pub virtual_balance: Amount,
}

/// The plan that is to be paid out.
#[derive(Debug, Clone, PartialEq, Eq)]
pub struct PayoutRequest {
    pub owner: String,
}

/// Whose payouts are to be listed.
#[derive(Debug, Clone, PartialEq, Eq)]
pub struct AnchorQuery {
    pub beneficiary_address: Option<String>,
}

/// A point in time: whole seconds since the start of 1970 in UTC, and nanoseconds after them.
#[derive(Clone, Copy, Debug, PartialEq, Eq, Structural)]
pub struct Timestamp {
    pub seconds: i64,
    pub nanoseconds: u32,
}

/// A stored plan. Its identifier is the number that its UUID spells.
#[derive(Debug, Clone, PartialEq, Eq)]
pub struct PlanRow {
    pub id: u128,
    pub owner_address: String,
    pub token_address: String,
    pub amount: Amount,
    pub grace_period: i64,
    pub grace_period_seconds: i64,
    pub earn_yield: bool,
    pub last_ping: i64,
    pub is_active: bool,
    pub status: String,
    pub yield_rate_bps: i32,
    pub accrued_yield: Amount,
    pub created_at: Timestamp,
}

/// A stored heir of a plan.
#[derive(Debug, Clone, PartialEq, Eq)]
pub struct BeneficiaryRow {
    pub id: u128,
    pub plan_id: u128,
    pub wallet_address: String,
    pub allocation_bps: i32,
    pub fiat_anchor_info: String,
}

/// A plan as it is answered, with its heirs.
#[derive(Debug, Clone, PartialEq, Eq)]
pub struct PlanResponse {
    pub id: u128,
    pub owner_address: String,
    pub token_address: String,
    pub amount: Amount,
    pub grace_period: i64,
    pub grace_period_seconds: i64,
    pub earn_yield: bool,
    pub last_ping: i64,
    pub is_active: bool,
    pub status: String,
    pub yield_rate_bps: i32,
    pub accrued_yield: Amount,
    pub created_at: Timestamp,
    pub beneficiaries: Vec<BeneficiaryResponse>,
}

/// An heir as it is answered.
#[derive(Debug, Clone, PartialEq, Eq)]
pub struct BeneficiaryResponse {
    pub id: u128,
    pub plan_id: u128,
    pub wallet_address: String,
    pub allocation_bps: i32,
    pub fiat_anchor_info: String,
}

/// A stored heir as it is answered.
pub open spec fn beneficiary_response(row: BeneficiaryRow) -> BeneficiaryResponse {
    BeneficiaryResponse {
        id: row.id,
        plan_id: row.plan_id,
        wallet_address: row.wallet_address,
        allocation_bps: row.allocation_bps,
        fiat_anchor_info: row.fiat_anchor_info,
    }
}

/// Stored heirs as they are answered, one for one and in their order.
pub open spec fn beneficiary_responses(rows: Seq<BeneficiaryRow>) -> Seq<BeneficiaryResponse> {
    rows.map_values(|row: BeneficiaryRow| beneficiary_response(row))
}

/// Whether `response` shows what is stored in `row`, yield and heirs aside.
pub open spec fn shows_terms(row: PlanRow, response: PlanResponse) -> bool {
    &&& response.id == row.id
    &&& response.owner_address == row.owner_address
    &&& response.token_address == row.token_address
    &&& response.amount == row.amount
    &&& response.grace_period == row.grace_period
    &&& response.grace_period_seconds == row.grace_period_seconds
    &&& response.earn_yield == row.earn_yield
    &&& response.last_ping == row.last_ping
    &&& response.is_active == row.is_active
    &&& response.status == row.status
    &&& response.yield_rate_bps == row.yield_rate_bps
    &&& response.created_at == row.created_at
}

/// Whether `response` shows what is stored in `row`, heirs aside.
pub open spec fn shows_plan(row: PlanRow, response: PlanResponse) -> bool {
    &&& shows_terms(row, response)
    &&& response.accrued_yield == row.accrued_yield
}

/// The answer for one stored heir.
pub fn beneficiary_row_to_response(row: BeneficiaryRow) -> (r: BeneficiaryResponse)
    ensures
        r == beneficiary_response(row),
{
    BeneficiaryResponse {
        id: row.id,
        plan_id: row.plan_id,
        wallet_address: row.wallet_address,
        allocation_bps: row.allocation_bps,
        fiat_anchor_info: row.fiat_anchor_info,
    }
}

/// The answers for the stored heirs of a plan, in the order of the rows.
pub fn load_beneficiaries(rows: Vec<BeneficiaryRow>) -> (r: Vec<BeneficiaryResponse>)
    ensures
        r@ == beneficiary_responses(rows@),
{
    let ghost stored = rows@;
    let mut responses: Vec<BeneficiaryResponse> = Vec::new();
    for row in it: rows
        invariant
            it.seq() == stored,
            responses@ == beneficiary_responses(stored.take(it.index())),
    {
        responses.push(beneficiary_row_to_response(row));
    }
    assert(stored.take(stored.len() as int) == stored);
    responses
}

/// The answer for a plan and its heirs. It carries the yield that the row holds.
pub fn plan_row_to_response(row: PlanRow, beneficiaries: Vec<BeneficiaryResponse>) -> (r:
    PlanResponse)
    ensures
        shows_plan(row, r),
        r.beneficiaries == beneficiaries,
        r.id == row.id,
        r.owner_address == row.owner_address,
        r.token_address == row.token_address,
        r.amount == row.amount,
        r.grace_period == row.grace_period,
        r.grace_period_seconds == row.grace_period_seconds,
        r.earn_yield == row.earn_yield,
        r.last_ping == row.last_ping,
        r.is_active == row.is_active,
        r.status == row.status,
        r.yield_rate_bps == row.yield_rate_bps,
        r.accrued_yield == row.accrued_yield,
        r.created_at == row.created_at,
{
    PlanResponse {
        id: row.id,
        owner_address: row.owner_address,
        token_address: row.token_address,
        amount: row.amount,
        grace_period: row.grace_period,
        grace_period_seconds: row.grace_period_seconds,
        earn_yield: row.earn_yield,
        last_ping: row.last_ping,
        is_active: row.is_active,
        status: row.status,
        yield_rate_bps: row.yield_rate_bps,
        accrued_yield: row.accrued_yield,
        created_at: row.created_at,
        beneficiaries,
    }
}

/// Stored heirs are answered one for one and in their order, each with all that is stored of it.
pub proof fn law_heirs_are_shown(rows: Seq<BeneficiaryRow>)
    ensures
        beneficiary_responses(rows).len() == rows.len(),
        forall|i: int|
            0 <= i < rows.len() ==> {
                let shown = #[trigger] beneficiary_responses(rows)[i];
                &&& shown.id == rows[i].id
                &&& shown.plan_id == rows[i].plan_id
                &&& shown.wallet_address == rows[i].wallet_address
                &&& shown.allocation_bps == rows[i].allocation_bps
                &&& shown.fiat_anchor_info == rows[i].fiat_anchor_info
            },
{
}

} // verus!
