//! The stored plans and heirs, and what the database has to report of them.
//!
//! All of this is ghost: the laws across requests speak of it.

use crate::amount::Amount;
use crate::list::PlanFilter;
use crate::model::{BeneficiaryRow, PlanRow, Timestamp};
use crate::plan::{NewBeneficiary, NewPlan, WHOLE_BPS};
use vstd::prelude::*;

verus! {

/// The two tables, each by the identifier of its rows.
pub struct Store {
    pub plans: Map<u128, PlanRow>,
    pub heirs: Map<u128, BeneficiaryRow>,
}

/// Whether `a` lies before `b`.
pub open spec fn earlier(a: Timestamp, b: Timestamp) -> bool {
    a.seconds < b.seconds || a.seconds == b.seconds && a.nanoseconds < b.nanoseconds
}

/// Whether no row comes before one that was created later.
pub open spec fn newest_first(rows: Seq<PlanRow>) -> bool {
    forall|i: int, j: int|
        0 <= i < j < rows.len() ==> !earlier(
            (#[trigger] rows[i]).created_at,
            (#[trigger] rows[j]).created_at,
        )
}

/// What stored heirs are allotted together.
pub open spec fn total_shares(rows: Seq<BeneficiaryRow>) -> int
    decreases rows.len(),
{
    if rows.len() == 0 {
        0
    } else {
        total_shares(rows.drop_last()) + rows.last().allocation_bps
    }
}

/// Whether these heirs share the whole: there is one, none has less than nothing or more than
/// the whole, and together they have the whole.
pub open spec fn share_the_whole(rows: Seq<BeneficiaryRow>) -> bool {
    &&& rows.len() > 0
    &&& forall|i: int| 0 <= i < rows.len() ==> 0 <= (#[trigger] rows[i]).allocation_bps <= WHOLE_BPS
    &&& total_shares(rows) == WHOLE_BPS
}

impl Store {
    /// Whether each row stands under its identifier, and each heir belongs to a stored plan.
    pub open spec fn sound(self) -> bool {
        &&& forall|id: u128| #[trigger]
            self.plans.contains_key(id) ==> self.plans[id].id == id
        &&& forall|id: u128| #[trigger]
            self.heirs.contains_key(id) ==> self.heirs[id].id == id && self.plans.contains_key(
                self.heirs[id].plan_id,
            )
    }

    /// Whether the heirs of the plan `plan_id` share the whole of it.
    pub open spec fn is_shared(self, plan_id: u128) -> bool {
        exists|rows: Seq<BeneficiaryRow>| #[trigger]
            self.reports_heirs(plan_id, rows) && share_the_whole(rows)
    }

    /// Whether the heirs of every plan share the whole of it.
    pub open spec fn all_shared(self) -> bool {
        forall|id: u128| #[trigger] self.plans.contains_key(id) ==> self.is_shared(id)
    }

    /// What has to be reported of a plan that is stored as `new`: what was asked for, under a new
    /// identifier. Of the amounts nothing is said, as a column may keep fewer digits.
    pub open spec fn takes_plan(self, new: NewPlan, row: PlanRow) -> bool {
        &&& !self.plans.contains_key(row.id)
        &&& row.owner_address@ == new.owner_address@
        &&& row.token_address@ == new.token_address@
        &&& row.grace_period == new.grace_period
        &&& row.grace_period_seconds == new.grace_period_seconds
        &&& row.earn_yield == new.earn_yield
        &&& row.yield_rate_bps == new.yield_rate_bps
        &&& row.last_ping == new.last_ping
        &&& row.is_active == new.is_active
        &&& row.status@ == new.status@
    }

    /// What has to be reported of an heir that is stored as `new`: what was asked for, under a new
    /// identifier.
    pub open spec fn takes_heir(self, new: NewBeneficiary, row: BeneficiaryRow) -> bool {
        &&& !self.heirs.contains_key(row.id)
        &&& row.plan_id == new.plan_id
        &&& row.wallet_address@ == new.wallet_address@
        &&& row.allocation_bps == new.allocation_bps
        &&& row.fiat_anchor_info@ == new.fiat_anchor_info@
    }

    /// The tables with one more plan.
    pub open spec fn with_plan(self, row: PlanRow) -> Store {
        Store { plans: self.plans.insert(row.id, row), heirs: self.heirs }
    }

    /// The tables with one more heir.
    pub open spec fn with_heir(self, row: BeneficiaryRow) -> Store {
        Store { plans: self.plans, heirs: self.heirs.insert(row.id, row) }
    }

    /// Whether `row` is a stored plan.
    pub open spec fn has_plan(self, row: PlanRow) -> bool {
        self.plans.contains_key(row.id) && self.plans[row.id] == row
    }

    /// Whether `row` is a stored heir of the plan `plan_id`.
    pub open spec fn has_heir(self, plan_id: u128, row: BeneficiaryRow) -> bool {
        &&& self.heirs.contains_key(row.id)
        &&& self.heirs[row.id] == row
        &&& row.plan_id == plan_id
    }

    /// The wallet addresses of the heirs of the plan `plan_id`.
    pub open spec fn heir_addresses(self, plan_id: u128) -> Set<Seq<char>> {
        Set::new(
            |address: Seq<char>|
                exists|row: BeneficiaryRow| #[trigger]
                    self.has_heir(plan_id, row) && row.wallet_address@ == address,
        )
    }

    /// Whether the plan `id` is stored and wanted.
    pub open spec fn admits(self, filter: PlanFilter, id: u128) -> bool {
        &&& self.plans.contains_key(id)
        &&& self.plans[id].id == id
        &&& filter.admits(self.plans[id].owner_address@, self.heir_addresses(id))
    }

    /// What a selection has to report: exactly the plans that are wanted, each once, and the
    /// newest first.
    pub open spec fn selects(self, filter: PlanFilter, rows: Seq<PlanRow>) -> bool {
        &&& forall|i: int|
            0 <= i < rows.len() ==> self.has_plan(#[trigger] rows[i]) && self.admits(
                filter,
                rows[i].id,
            )
        &&& forall|id: u128| #[trigger]
            self.admits(filter, id) ==> exists|i: int|
                0 <= i < rows.len() && (#[trigger] rows[i]).id == id
        &&& forall|i: int, j: int|
            0 <= i < j < rows.len() ==> (#[trigger] rows[i]).id != (#[trigger] rows[j]).id
        &&& newest_first(rows)
    }

    /// What has to be reported as the heirs of the plan `plan_id`: exactly these, each once.
    pub open spec fn reports_heirs(self, plan_id: u128, rows: Seq<BeneficiaryRow>) -> bool {
        &&& forall|i: int| 0 <= i < rows.len() ==> self.has_heir(plan_id, #[trigger] rows[i])
        &&& forall|row: BeneficiaryRow| #[trigger]
            self.has_heir(plan_id, row) ==> rows.contains(row)
        &&& rows.no_duplicates()
    }

    /// What a fetch of the active plan of `owner` has to report: one that is theirs and active,
    /// and none only where there is none.
    pub open spec fn reports_active(self, owner: Seq<char>, plan: Option<PlanRow>) -> bool {
        match plan {
            Some(row) => self.has_plan(row) && row.owner_address@ == owner && row.is_active,
            None => forall|row: PlanRow| #[trigger]
                self.has_plan(row) ==> row.owner_address@ != owner || !row.is_active,
        }
    }

    /// The tables once the plan `id` has a new sign of life and new yield.
    pub open spec fn updated(self, id: u128, last_ping: i64, accrued_yield: Amount) -> Store {
        if self.plans.contains_key(id) {
            let row = PlanRow { last_ping, accrued_yield, ..self.plans[id] };
            Store { plans: self.plans.insert(id, row), heirs: self.heirs }
        } else {
            self
        }
    }
}

} // verus!
