//! Plans that are to be created: when they are accepted, and what is stored of them.

use crate::amount::{Amount, Fixed};
use crate::model::{Plan, PlanBeneficiary};
use crate::text::{blank, decimal, decimal_numeral, is_blank, joined, law_numeral, spelled};
use vstd::prelude::*;
use vstd::string::*;

verus! {

/// All of a plan, in hundredths of a percent.
pub const WHOLE_BPS: u32 = 10_000;

/// Why a plan is refused.
#[derive(Debug, Clone, Copy, PartialEq, Eq, Structural)]
pub enum PlanError {
    EmptyOwner,
    EmptyToken,
    NegativeAmount,
    ZeroGracePeriod,
    NoBeneficiary,
    EmptyBeneficiaryAddress,
    ExcessiveAllocation,
    WrongTotalAllocation { total_bps: u128 },
    InvalidAmount,
}

impl PlanError {
    /// What the caller is told.
    pub open spec fn text(self) -> Seq<char> {
        match self {
            PlanError::EmptyOwner => "Owner address cannot be empty"@,
            PlanError::EmptyToken => "Token address cannot be empty"@,
            PlanError::NegativeAmount => "Amount must be non-negative"@,
            PlanError::ZeroGracePeriod => "Grace period must be greater than zero"@,
            PlanError::NoBeneficiary => "Plan must have at least one beneficiary"@,
            PlanError::EmptyBeneficiaryAddress => "Beneficiary address cannot be empty"@,
            PlanError::ExcessiveAllocation => "Beneficiary allocation_bps cannot exceed 10000"@,
            PlanError::WrongTotalAllocation { total_bps } =>
                "Total allocation_bps must be exactly 10000 (100%), got "@
                    + decimal_numeral(total_bps as nat),
            PlanError::InvalidAmount => "Invalid amount representation"@,
        }
    }

    /// What the caller is told.
    pub fn message(&self) -> (r: String)
        ensures
            r@ == self.text(),
    {
        match self {
            PlanError::EmptyOwner => "Owner address cannot be empty".to_string(),
            PlanError::EmptyToken => "Token address cannot be empty".to_string(),
            PlanError::NegativeAmount => "Amount must be non-negative".to_string(),
            PlanError::ZeroGracePeriod => "Grace period must be greater than zero".to_string(),
            PlanError::NoBeneficiary => "Plan must have at least one beneficiary".to_string(),
            PlanError::EmptyBeneficiaryAddress => {
                "Beneficiary address cannot be empty".to_string()
            },
            PlanError::ExcessiveAllocation => {
                "Beneficiary allocation_bps cannot exceed 10000".to_string()
            },
            PlanError::WrongTotalAllocation { total_bps } => {
                let total = decimal(*total_bps);
                joined("Total allocation_bps must be exactly 10000 (100%), got ", total.as_str())
            },
            PlanError::InvalidAmount => "Invalid amount representation".to_string(),
        }
    }
}

/// What all heirs are allotted together.
pub open spec fn total_bps(heirs: Seq<PlanBeneficiary>) -> nat
    decreases heirs.len(),
{
    if heirs.len() == 0 {
        0
    } else {
        total_bps(heirs.drop_last()) + heirs.last().allocation_bps as nat
    }
}

/// What is wrong with one heir.
pub open spec fn heir_error(heir: PlanBeneficiary) -> Option<PlanError> {
    if is_blank(heir.address@) {
        Some(PlanError::EmptyBeneficiaryAddress)
    } else if heir.allocation_bps > WHOLE_BPS {
        Some(PlanError::ExcessiveAllocation)
    } else {
        None
    }
}

/// What is wrong with the first heir that anything is wrong with.
pub open spec fn first_heir_error(heirs: Seq<PlanBeneficiary>) -> Option<PlanError>
    decreases heirs.len(),
{
    if heirs.len() == 0 {
        None
    } else {
        match first_heir_error(heirs.drop_last()) {
            Some(error) => Some(error),
            None => heir_error(heirs.last()),
        }
    }
}

/// The first thing that is wrong with a plan, in the order in which plans are examined.
pub open spec fn plan_error(plan: Plan) -> Option<PlanError> {
    if is_blank(plan.owner@) {
        Some(PlanError::EmptyOwner)
    } else if is_blank(plan.token@) {
        Some(PlanError::EmptyToken)
    } else if plan.amount.is_below_zero() {
        Some(PlanError::NegativeAmount)
    } else if plan.grace_period == 0 {
        Some(PlanError::ZeroGracePeriod)
    } else if plan.beneficiaries@.len() == 0 {
        Some(PlanError::NoBeneficiary)
    } else if first_heir_error(plan.beneficiaries@) is Some {
        first_heir_error(plan.beneficiaries@)
    } else if total_bps(plan.beneficiaries@) != WHOLE_BPS {
        Some(
            PlanError::WrongTotalAllocation {
                total_bps: total_bps(plan.beneficiaries@) as u128,
            },
        )
    } else {
        None
    }
}

proof fn lemma_heir_error_stays(heirs: Seq<PlanBeneficiary>, n: int)
    requires
        0 <= n <= heirs.len(),
        first_heir_error(heirs.take(n)) is Some,
    ensures
        first_heir_error(heirs) == first_heir_error(heirs.take(n)),
    decreases heirs.len() - n,
{
    if n == heirs.len() {
        assert(heirs.take(n) == heirs);
    } else {
        assert(heirs.take(n + 1).drop_last() == heirs.take(n));
        lemma_heir_error_stays(heirs, n + 1);
    }
}

/// Nothing is wrong with any heir where no first wrong heir is found.
proof fn lemma_no_heir_error(heirs: Seq<PlanBeneficiary>)
    ensures
        first_heir_error(heirs) is None <==> forall|i: int|
            0 <= i < heirs.len() ==> heir_error(#[trigger] heirs[i]) is None,
        first_heir_error(heirs) matches Some(error) ==> error is EmptyBeneficiaryAddress
            || error is ExcessiveAllocation,
    decreases heirs.len(),
{
    if heirs.len() > 0 {
        let front = heirs.drop_last();
        lemma_no_heir_error(front);
        if first_heir_error(heirs) is None {
            assert forall|i: int| 0 <= i < heirs.len() implies heir_error(
                #[trigger] heirs[i],
            ) is None by {
                if i < front.len() {
                    assert(heir_error(front[i]) is None);
                }
            }
        }
        if forall|i: int| 0 <= i < heirs.len() ==> heir_error(#[trigger] heirs[i]) is None {
            assert forall|i: int| 0 <= i < front.len() implies heir_error(
                #[trigger] front[i],
            ) is None by {
                assert(heir_error(heirs[i]) is None);
            }
            assert(heir_error(heirs[heirs.len() - 1]) is None);
        }
    }
}

/// Whether a plan is accepted, or what is wrong with it first.
pub fn validate_plan(plan: &Plan) -> (r: Result<(), PlanError>)
    ensures
        r == (match plan_error(*plan) {
            Some(error) => Err::<(), PlanError>(error),
            None => Ok(()),
        }),
        r matches Err(PlanError::WrongTotalAllocation { total_bps: total }) ==> total == total_bps(
            plan.beneficiaries@,
        ),
{
    if blank(plan.owner.as_str()) {
        return Err(PlanError::EmptyOwner);
    }
    if blank(plan.token.as_str()) {
        return Err(PlanError::EmptyToken);
    }
    if plan.amount.below_zero() {
        return Err(PlanError::NegativeAmount);
    }
    if plan.grace_period == 0 {
        return Err(PlanError::ZeroGracePeriod);
    }
    if plan.beneficiaries.len() == 0 {
        return Err(PlanError::NoBeneficiary);
    }
    let mut total: u128 = 0;
    let ghost heirs = plan.beneficiaries@;
    for i in 0..plan.beneficiaries.len()
        invariant
            heirs == plan.beneficiaries@,
            !is_blank(plan.owner@),
            !is_blank(plan.token@),
            !plan.amount.is_below_zero(),
            plan.grace_period != 0,
            heirs.len() != 0,
            first_heir_error(heirs.take(i as int)) is None,
            total == total_bps(heirs.take(i as int)),
            total <= i * 10_000,
    {
        let heir = &plan.beneficiaries[i];
        assert(heirs.take(i + 1).drop_last() == heirs.take(i as int));
        assert(heirs.take(i + 1).last() == *heir);
        if blank(heir.address.as_str()) {
            proof {
                lemma_heir_error_stays(heirs, i + 1);
            }
            return Err(PlanError::EmptyBeneficiaryAddress);
        }
        if heir.allocation_bps > WHOLE_BPS {
            proof {
                lemma_heir_error_stays(heirs, i + 1);
            }
            return Err(PlanError::ExcessiveAllocation);
        }
        total = total + heir.allocation_bps as u128;
    }
    assert(heirs.take(heirs.len() as int) == heirs);
    if total != WHOLE_BPS as u128 {
        return Err(PlanError::WrongTotalAllocation { total_bps: total });
    }
    Ok(())
}

/// An accepted plan names an owner, a token and at least one heir, asks for no negative
/// amount, leaves some time of grace, and allots exactly the whole to heirs with an address,
/// none of them more than the whole; and every plan of which all that holds is accepted.
pub proof fn law_accepted_plan(plan: Plan)
    ensures
        plan_error(plan) is None <==> {
            &&& !is_blank(plan.owner@)
            &&& !is_blank(plan.token@)
            &&& !plan.amount.is_below_zero()
            &&& plan.grace_period > 0
            &&& plan.beneficiaries@.len() > 0
            &&& forall|i: int|
                0 <= i < plan.beneficiaries@.len() ==> !is_blank(
                    (#[trigger] plan.beneficiaries@[i]).address@,
                ) && plan.beneficiaries@[i].allocation_bps <= WHOLE_BPS
            &&& total_bps(plan.beneficiaries@) == WHOLE_BPS
        },
{
    let heirs = plan.beneficiaries@;
    lemma_no_heir_error(heirs);
    if plan_error(plan) is None {
        assert forall|i: int| 0 <= i < heirs.len() implies !is_blank(
            (#[trigger] heirs[i]).address@,
        ) && heirs[i].allocation_bps <= WHOLE_BPS by {
            assert(heir_error(heirs[i]) is None);
        }
    }
}

/// The total that a refused plan is told is the total of its heirs.
pub proof fn law_reported_total(plan: Plan, total: u128)
    requires
        plan_error(plan) == Some(PlanError::WrongTotalAllocation { total_bps: total }),
    ensures
        total == total_bps(plan.beneficiaries@),
        total != WHOLE_BPS,
{
    let heirs = plan.beneficiaries@;
    lemma_no_heir_error(heirs);
    lemma_total_bound(heirs);
    assert(heirs.len() == plan.beneficiaries.len());
}

proof fn lemma_total_bound(heirs: Seq<PlanBeneficiary>)
    requires
        forall|i: int| 0 <= i < heirs.len() ==> heir_error(#[trigger] heirs[i]) is None,
    ensures
        total_bps(heirs) <= heirs.len() * WHOLE_BPS,
    decreases heirs.len(),
{
    if heirs.len() > 0 {
        let front = heirs.drop_last();
        assert forall|i: int| 0 <= i < front.len() implies heir_error(
            #[trigger] front[i],
        ) is None by {
            assert(heir_error(heirs[i]) is None);
        }
        lemma_total_bound(front);
        assert(heir_error(heirs[heirs.len() - 1]) is None);
    }
}

/// The number that the bits of `x` spell in two's complement.
pub open spec fn wrapped_i64(x: u64) -> int {
    if x < 0x8000_0000_0000_0000 {
        x as int
    } else {
        x - 0x1_0000_0000_0000_0000
    }
}

/// The number that the bits of `x` spell in two's complement.
pub open spec fn wrapped_i32(x: u32) -> int {
    if x < 0x8000_0000 {
        x as int
    } else {
        x - 0x1_0000_0000
    }
}

/// Takes the bits of `x` for a signed number.
fn wrap_i64(x: u64) -> (r: i64)
    ensures
        r == wrapped_i64(x),
{
    assert(x < 0x8000_0000_0000_0000 ==> x as i64 == x) by (bit_vector);
    assert(x >= 0x8000_0000_0000_0000 ==> x as i64 == x - 0x1_0000_0000_0000_0000) by (bit_vector);
    x as i64
}

/// Takes the bits of `x` for a signed number.
fn wrap_i32(x: u32) -> (r: i32)
    ensures
        r == wrapped_i32(x),
{
    assert(x < 0x8000_0000 ==> x as i32 == x) by (bit_vector);
    assert(x >= 0x8000_0000 ==> x as i32 == x - 0x1_0000_0000) by (bit_vector);
    x as i32
}

/// A plan that is to be stored.
#[derive(Debug, Clone, PartialEq, Eq)]
pub struct NewPlan {
    pub owner_address: String,
    pub token_address: String,
    pub amount: Amount,
    pub grace_period: i64,
    pub grace_period_seconds: i64,
    pub earn_yield: bool,
    pub yield_rate_bps: i32,
    pub accrued_yield: Amount,
    pub last_ping: i64,
    pub is_active: bool,
    pub status: String,
}

/// An heir that is to be stored.
#[derive(Debug, Clone, PartialEq, Eq)]
pub struct NewBeneficiary {
    pub plan_id: u128,
    pub wallet_address: String,
    pub allocation_bps: i32,
    pub fiat_anchor_info: String,
}

/// Whether `new` is what is stored of `plan` with the decimal `amount`: an active plan
/// without yield so far.
pub open spec fn stores_plan(plan: Plan, amount: Amount, new: NewPlan) -> bool {
    &&& new.owner_address == plan.owner
    &&& new.token_address == plan.token
    &&& new.amount == amount
    &&& new.grace_period == wrapped_i64(plan.grace_period)
    &&& new.grace_period_seconds == wrapped_i64(plan.grace_period)
    &&& new.earn_yield == plan.earn_yield
    &&& new.yield_rate_bps == wrapped_i32(plan.yield_rate_bps)
    &&& new.accrued_yield@ == (Fixed { mantissa: 0, scale: 0 })
    &&& new.last_ping == plan.last_ping
    &&& new.is_active == plan.is_active
    &&& new.status@ == "ACTIVE"@
}

/// Whether `new` is what is stored of `heir` for the plan `plan_id`.
pub open spec fn stores_heir(plan_id: u128, heir: PlanBeneficiary, new: NewBeneficiary) -> bool {
    &&& new.plan_id == plan_id
    &&& new.wallet_address == heir.address
    &&& new.allocation_bps == wrapped_i32(heir.allocation_bps)
    &&& new.fiat_anchor_info == heir.fiat_anchor_info
}

/// What is stored of a plan, and its heirs, which are stored apart.
pub fn split_plan(plan: Plan, amount: Amount) -> (r: (NewPlan, Vec<PlanBeneficiary>))
    ensures
        stores_plan(plan, amount, r.0),
        r.0.owner_address == plan.owner,
        r.0.token_address == plan.token,
        r.0.amount == amount,
        r.0.earn_yield == plan.earn_yield,
        r.0.last_ping == plan.last_ping,
        r.0.is_active == plan.is_active,
        r.1 == plan.beneficiaries,
{
    let new = NewPlan {
        owner_address: plan.owner,
        token_address: plan.token,
        amount,
        grace_period: wrap_i64(plan.grace_period),
        grace_period_seconds: wrap_i64(plan.grace_period),
        earn_yield: plan.earn_yield,
        yield_rate_bps: wrap_i32(plan.yield_rate_bps),
        accrued_yield: Amount::zero(),
        last_ping: plan.last_ping,
        is_active: plan.is_active,
        status: "ACTIVE".to_string(),
    };
    (new, plan.beneficiaries)
}

/// What is stored of an heir of the plan `plan_id`.
pub fn new_beneficiary(plan_id: u128, heir: &PlanBeneficiary) -> (r: NewBeneficiary)
    ensures
        stores_heir(plan_id, *heir, r),
{
    NewBeneficiary {
        plan_id,
        wallet_address: heir.address.clone(),
        allocation_bps: wrap_i32(heir.allocation_bps),
        fiat_anchor_info: heir.fiat_anchor_info.clone(),
    }
}

/// The shares that are stored of an accepted plan are the shares that were asked for.
pub proof fn law_shares_kept(plan: Plan, plan_id: u128, i: int, new: NewBeneficiary)
    requires
        plan_error(plan) is None,
        0 <= i < plan.beneficiaries@.len(),
        stores_heir(plan_id, plan.beneficiaries@[i], new),
    ensures
        new.allocation_bps == plan.beneficiaries@[i].allocation_bps,
        0 <= new.allocation_bps <= WHOLE_BPS,
{
    law_accepted_plan(plan);
}

/// The time of grace and the rate that are stored of a plan are those that were asked for, and
/// some time of grace is left to an accepted plan, where the columns can hold them.
pub proof fn law_terms_kept(plan: Plan, amount: Amount, new: NewPlan)
    requires
        stores_plan(plan, amount, new),
    ensures
        plan.grace_period <= i64::MAX ==> new.grace_period == plan.grace_period
            && new.grace_period_seconds == plan.grace_period,
        plan.yield_rate_bps <= i32::MAX ==> new.yield_rate_bps == plan.yield_rate_bps,
        plan_error(plan) is None && plan.grace_period <= i64::MAX ==> new.grace_period > 0,
{
    law_accepted_plan(plan);
}

/// What heirs are allotted together is the sum of their shares, however many there are: nobody
/// has nothing, and one more heir adds its share.
pub proof fn law_total(heirs: Seq<PlanBeneficiary>, heir: PlanBeneficiary)
    ensures
        total_bps(Seq::empty()) == 0,
        total_bps(heirs.push(heir)) == total_bps(heirs) + heir.allocation_bps,
        total_bps(heirs) == heirs.fold_left(
            0int,
            |total: int, h: PlanBeneficiary| total + h.allocation_bps,
        ),
    decreases heirs.len(),
{
    assert(heirs.push(heir).drop_last() == heirs);
    if heirs.len() > 0 {
        law_total(heirs.drop_last(), heir);
    }
}

/// The first heir that anything is wrong with is the one that is told.
proof fn lemma_first_heir_error(heirs: Seq<PlanBeneficiary>)
    ensures
        first_heir_error(heirs) matches Some(error) ==> exists|i: int|
            {
                &&& 0 <= i < heirs.len()
                &&& heir_error(#[trigger] heirs[i]) == Some(error)
                &&& forall|j: int| 0 <= j < i ==> heir_error(#[trigger] heirs[j]) is None
            },
    decreases heirs.len(),
{
    if heirs.len() > 0 && first_heir_error(heirs) is Some {
        let front = heirs.drop_last();
        lemma_first_heir_error(front);
        lemma_no_heir_error(front);
        match first_heir_error(front) {
            Some(error) => {
                let i = choose|i: int|
                    {
                        &&& 0 <= i < front.len()
                        &&& heir_error(#[trigger] front[i]) == Some(error)
                        &&& forall|j: int| 0 <= j < i ==> heir_error(#[trigger] front[j]) is None
                    };
                assert(heir_error(heirs[i]) == Some(error));
                assert forall|j: int| 0 <= j < i implies heir_error(
                    #[trigger] heirs[j],
                ) is None by {
                    assert(heir_error(front[j]) is None);
                }
            },
            None => {
                let i = heirs.len() - 1;
                assert(heir_error(heirs[i]) == first_heir_error(heirs));
                assert forall|j: int| 0 <= j < i implies heir_error(
                    #[trigger] heirs[j],
                ) is None by {
                    assert(heir_error(front[j]) is None);
                }
            },
        }
    }
}

/// A plan is accepted where it names an owner and a token, its amount is not less than zero, it
/// leaves some time of grace, it has an heir, each heir has an address and at most 10000
/// hundredths of a percent, and the shares of all heirs, added up, are 10000; and only there.
pub proof fn law_acceptance(plan: Plan)
    ensures
        plan_error(plan) is None <==> {
            &&& !is_blank(plan.owner@)
            &&& !is_blank(plan.token@)
            &&& !plan.amount.is_below_zero()
            &&& plan.grace_period != 0
            &&& plan.beneficiaries@.len() != 0
            &&& forall|i: int|
                0 <= i < plan.beneficiaries@.len() ==> !is_blank(
                    (#[trigger] plan.beneficiaries@[i]).address@,
                ) && plan.beneficiaries@[i].allocation_bps <= 10_000
            &&& plan.beneficiaries@.fold_left(
                0int,
                |total: int, h: PlanBeneficiary| total + h.allocation_bps,
            ) == 10_000
        },
{
    law_accepted_plan(plan);
    let heirs = plan.beneficiaries@;
    law_total(heirs, arbitrary());
}

/// A plan that is refused is told the first thing that is wrong: the owner, the token, the
/// amount, the time of grace, that there is no heir, the first heir without an address or with
/// more than 10000 hundredths of a percent, and then the sum of the shares.
pub proof fn law_refusal(plan: Plan)
    ensures
        ({
            let heirs = plan.beneficiaries@;
            let sound = |i: int| !is_blank(heirs[i].address@) && heirs[i].allocation_bps <= 10_000;
            let named = !is_blank(plan.owner@) && !is_blank(plan.token@);
            let funded = named && !plan.amount.is_below_zero();
            let lasting = funded && plan.grace_period != 0;
            let shares = heirs.fold_left(
                0int,
                |total: int, h: PlanBeneficiary| total + h.allocation_bps,
            );
            &&& is_blank(plan.owner@) ==> plan_error(plan) == Some(PlanError::EmptyOwner)
            &&& !is_blank(plan.owner@) && is_blank(plan.token@) ==> plan_error(plan) == Some(
                PlanError::EmptyToken,
            )
            &&& named && !funded ==> plan_error(plan) == Some(PlanError::NegativeAmount)
            &&& funded && !lasting ==> plan_error(plan) == Some(PlanError::ZeroGracePeriod)
            &&& lasting && heirs.len() == 0 ==> plan_error(plan) == Some(PlanError::NoBeneficiary)
            &&& forall|i: int|
                lasting && 0 <= i < heirs.len() && (forall|j: int|
                    0 <= j < i ==> #[trigger] sound(j))
                    && is_blank((#[trigger] heirs[i]).address@) ==> plan_error(plan) == Some(
                    PlanError::EmptyBeneficiaryAddress,
                )
            &&& forall|i: int|
                lasting && 0 <= i < heirs.len() && (forall|j: int|
                    0 <= j < i ==> #[trigger] sound(j))
                    && !is_blank((#[trigger] heirs[i]).address@) && heirs[i].allocation_bps > 10_000
                    ==> plan_error(plan) == Some(PlanError::ExcessiveAllocation)
            &&& lasting && heirs.len() > 0 && (forall|j: int|
                0 <= j < heirs.len() ==> #[trigger] sound(j)) && shares != 10_000
                ==> plan_error(plan) == Some(
                (PlanError::WrongTotalAllocation { total_bps: shares as u128 }),
            ) && 0 <= shares <= u128::MAX
        }),
{
    let heirs = plan.beneficiaries@;
    let sound = |i: int| !is_blank(heirs[i].address@) && heirs[i].allocation_bps <= 10_000;
    law_total(heirs, arbitrary());
    lemma_first_heir_error(heirs);
    lemma_no_heir_error(heirs);
    assert forall|i: int| 0 <= i < heirs.len() implies (heir_error(#[trigger] heirs[i]) is None
        <==> sound(i)) by {}
    assert forall|i: int|
        0 <= i < heirs.len() && (forall|j: int| 0 <= j < i ==> #[trigger] sound(j)) && heir_error(
            #[trigger] heirs[i],
        ) is Some implies first_heir_error(heirs) == heir_error(heirs[i]) by {
        assert(first_heir_error(heirs) is Some);
        let error = first_heir_error(heirs)->0;
        let k = choose|k: int|
            {
                &&& 0 <= k < heirs.len()
                &&& heir_error(#[trigger] heirs[k]) == Some(error)
                &&& forall|j: int| 0 <= j < k ==> heir_error(#[trigger] heirs[j]) is None
            };
        if k < i {
            assert(sound(k));
        }
        if i < k {
            assert(heir_error(heirs[i]) is None);
        }
    }
    if first_heir_error(heirs) is None {
        lemma_total_bound(heirs);
        assert(heirs.len() == plan.beneficiaries.len());
    } else {
        let error = first_heir_error(heirs)->0;
        let k = choose|k: int|
            {
                &&& 0 <= k < heirs.len()
                &&& heir_error(#[trigger] heirs[k]) == Some(error)
                &&& forall|j: int| 0 <= j < k ==> heir_error(#[trigger] heirs[j]) is None
            };
        assert(!sound(k));
    }
}

/// What a refused caller is told names what is wrong; of the shares it tells their total, as a
/// decimal numeral.
pub proof fn law_refusal_texts(error: PlanError)
    ensures
        match error {
            PlanError::EmptyOwner => error.text() == "Owner address cannot be empty"@,
            PlanError::EmptyToken => error.text() == "Token address cannot be empty"@,
            PlanError::NegativeAmount => error.text() == "Amount must be non-negative"@,
            PlanError::ZeroGracePeriod => error.text()
                == "Grace period must be greater than zero"@,
            PlanError::NoBeneficiary => error.text() == "Plan must have at least one beneficiary"@,
            PlanError::EmptyBeneficiaryAddress => error.text()
                == "Beneficiary address cannot be empty"@,
            PlanError::ExcessiveAllocation => error.text()
                == "Beneficiary allocation_bps cannot exceed 10000"@,
            PlanError::WrongTotalAllocation { total_bps } => exists|numeral: Seq<char>|
                {
                    &&& error.text() == "Total allocation_bps must be exactly 10000 (100%), got "@
                        + numeral
                    &&& #[trigger] spelled(numeral) == total_bps
                    &&& numeral.len() > 0
                    &&& forall|i: int|
                        0 <= i < numeral.len() ==> '0' <= #[trigger] numeral[i] <= '9'
                    &&& numeral[0] == '0' ==> numeral.len() == 1
                },
            PlanError::InvalidAmount => error.text() == "Invalid amount representation"@,
        },
{
    match error {
        PlanError::WrongTotalAllocation { total_bps } => {
            law_numeral(total_bps as nat);
            assert(spelled(decimal_numeral(total_bps as nat)) == total_bps);
        },
        _ => {},
    }
}

/// A column takes the low bits of a number: what is stored is within the range of the column and
/// differs from the number by a multiple of two to its width.
pub proof fn law_low_bits(x: u64, y: u32)
    ensures
        i64::MIN <= wrapped_i64(x) <= i64::MAX,
        (x - wrapped_i64(x)) % 0x1_0000_0000_0000_0000 == 0,
        i32::MIN <= wrapped_i32(y) <= i32::MAX,
        (y - wrapped_i32(y)) % 0x1_0000_0000 == 0,
{
}

/// What is stored of a plan, and of an heir, has each field of the request, numbers by their bits
/// where a column is of another kind.
pub proof fn law_stored_fields(
    plan: Plan,
    amount: Amount,
    new: NewPlan,
    plan_id: u128,
    heir: PlanBeneficiary,
    stored: NewBeneficiary,
)
    requires
        stores_plan(plan, amount, new),
        stores_heir(plan_id, heir, stored),
    ensures
        new.owner_address == plan.owner,
        new.token_address == plan.token,
        new.amount == amount,
        new.grace_period == plan.grace_period as i64,
        new.grace_period_seconds == plan.grace_period as i64,
        new.earn_yield == plan.earn_yield,
        new.yield_rate_bps == plan.yield_rate_bps as i32,
        new.accrued_yield@.mantissa == 0,
        new.last_ping == plan.last_ping,
        new.is_active == plan.is_active,
        new.status@ == "ACTIVE"@,
        stored.plan_id == plan_id,
        stored.wallet_address == heir.address,
        stored.allocation_bps == heir.allocation_bps as i32,
        stored.fiat_anchor_info == heir.fiat_anchor_info,
{
    let g = plan.grace_period;
    let r = plan.yield_rate_bps;
    let a = heir.allocation_bps;
    assert(g < 0x8000_0000_0000_0000 ==> g as i64 == g) by (bit_vector);
    assert(g >= 0x8000_0000_0000_0000 ==> g as i64 == g - 0x1_0000_0000_0000_0000) by (bit_vector);
    assert(r < 0x8000_0000 ==> r as i32 == r) by (bit_vector);
    assert(r >= 0x8000_0000 ==> r as i32 == r - 0x1_0000_0000) by (bit_vector);
    assert(a < 0x8000_0000 ==> a as i32 == a) by (bit_vector);
    assert(a >= 0x8000_0000 ==> a as i32 == a - 0x1_0000_0000) by (bit_vector);
}

} // verus!
