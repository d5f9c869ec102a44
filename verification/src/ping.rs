//! Signs of life: a signed ping credits the yield since the last one and starts anew.
//!
//! The database, the clock and the yield formula do the work, one action after the other;
//! after each it is told here what comes next.

use crate::amount::{sum, Amount};
use crate::model::{PingRequest, PingResponse, PlanRow};
use crate::reply::{Reply, INTERNAL_SERVER_ERROR, NOT_FOUND, UNAUTHORIZED};
use crate::signature::{signed_by_owner, verify_ping_signature};
use crate::text::joined;
use crate::yields::{elapsed_seconds, rate_bps, seconds_since, wrapped_u32};
use vstd::pervasive::unreached;
use vstd::prelude::*;
use vstd::string::*;

verus! {

/// How far a ping has come.
#[derive(Debug, Clone, PartialEq, Eq)]
pub enum PingPlan {
    /// The active plan of the owner is being fetched.
    Fetching,
    /// The yield of `plan` up to the time `now` is being computed.
    Accruing { plan: PlanRow, now: i64 },
    /// The plan is being updated; `accrued_yield` is what it has earned now.
    Updating { plan: PlanRow, accrued_yield: Amount },
    /// The request is over.
    Finished,
}

/// What is to be done next.
#[derive(Debug, Clone, PartialEq, Eq)]
pub enum PingAction {
    /// The active plan of `owner` is to be fetched, and the clock to be read after that.
    Fetch { owner: String },
    /// The yield of `amount` at `rate_bps` over `elapsed` seconds is to be computed.
    ComputeYield { amount: Amount, rate_bps: u32, elapsed: u64 },
    /// The plan `id` is to be stored with a new sign of life and new yield.
    Update { id: u128, last_ping: i64, accrued_yield: Amount },
    Answer(Reply),
    /// A sum is out of range: the request cannot be answered.
    Overflow,
}

/// What came of an action, with the words of the database where it failed.
#[derive(Debug, PartialEq, Eq)]
pub enum PingEvent {
    /// The active plan of the owner, if there is one, and the time in seconds since the start
    /// of 1970.
    Fetched { plan: Result<Option<PlanRow>, String>, now: i64 },
    /// The yield as a decimal, where it can be written as one.
    Computed(Option<Amount>),
    Updated(Result<(), String>),
}

impl PingEvent {
    /// With what status, and in what words, the caller is told that the request failed.
    pub open spec fn failure(self) -> Option<(u16, Seq<char>)> {
        match self {
            PingEvent::Fetched { plan: Ok(None), .. } => Some(
                (NOT_FOUND, "Active plan not found"@),
            ),
            PingEvent::Fetched { plan: Err(e), .. } => Some(
                (INTERNAL_SERVER_ERROR, "Database error: "@ + e@),
            ),
            PingEvent::Updated(Err(e)) => Some(
                (INTERNAL_SERVER_ERROR, "Failed to update plan: "@ + e@),
            ),
            _ => None,
        }
    }
}

/// Whether the request ends with a failure.
pub open spec fn ends_failing(
    next: PingPlan,
    action: PingAction,
    status: u16,
    error: Seq<char>,
) -> bool {
    &&& next is Finished
    &&& action matches PingAction::Answer(reply) && reply.fails_with(status, error)
}

/// Whether `plan` is updated next, with the time `now` and the yield `accrued`.
pub open spec fn updates(
    plan: PlanRow,
    now: i64,
    accrued: Amount,
    next: PingPlan,
    action: PingAction,
) -> bool {
    &&& next == (PingPlan::Updating { plan, accrued_yield: accrued })
    &&& action == (PingAction::Update { id: plan.id, last_ping: now, accrued_yield: accrued })
}

/// Whether `plan` earned anything between its last sign of life and `now`.
pub open spec fn earns(plan: PlanRow, now: i64) -> bool {
    plan.earn_yield && seconds_since(plan.last_ping, now) > 0
}

/// What becomes of a ping in the name of `owner`, which they signed or not.
pub open spec fn ping_starts(
    owner: String,
    signed: bool,
    next: PingPlan,
    action: PingAction,
) -> bool {
    if signed {
        next is Fetching && action == (PingAction::Fetch { owner })
    } else {
        ends_failing(next, action, UNAUTHORIZED, "Invalid signature"@)
    }
}

/// What follows `event` in the state `state`.
pub open spec fn ping_continues(
    state: PingPlan,
    event: PingEvent,
    next: PingPlan,
    action: PingAction,
) -> bool {
    match event.failure() {
        Some((status, error)) => ends_failing(next, action, status, error),
        None => match (state, event) {
            (PingPlan::Fetching, PingEvent::Fetched { plan: Ok(Some(plan)), now }) => if earns(
                plan,
                now,
            ) {
                &&& next == (PingPlan::Accruing { plan, now })
                &&& action matches PingAction::ComputeYield { amount, rate_bps, elapsed }
                &&& amount == plan.amount
                &&& rate_bps == wrapped_u32(plan.yield_rate_bps)
                &&& elapsed == seconds_since(plan.last_ping, now)
            } else {
                updates(plan, now, plan.accrued_yield, next, action)
            },
            (PingPlan::Accruing { plan, now }, PingEvent::Computed(None)) => updates(
                plan,
                now,
                plan.accrued_yield,
                next,
                action,
            ),
            (PingPlan::Accruing { plan, now }, PingEvent::Computed(Some(earned))) => {
                match sum(plan.accrued_yield@, earned@.stripped()) {
                    Some(accrued) => {
                        &&& action matches PingAction::Update { accrued_yield, .. }
                        &&& accrued_yield@ == accrued
                        &&& updates(plan, now, accrued_yield, next, action)
                    },
                    None => next is Finished && action is Overflow,
                }
            },
            (PingPlan::Updating { plan, accrued_yield }, PingEvent::Updated(Ok(_))) => {
                &&& next is Finished
                &&& match sum(plan.amount@, accrued_yield@) {
                    Some(balance) => {
                        &&& action matches PingAction::Answer(Reply::Pinged(response))
                        &&& response.owner == plan.owner_address
                        &&& response.status == plan.status
                        &&& response.virtual_balance@ == balance
                    },
                    None => action is Overflow,
                }
            },
            _ => false,
        },
    }
}

/// The end of a request that failed.
fn fail(status: u16, error: String) -> (r: (PingPlan, PingAction))
    ensures
        ends_failing(r.0, r.1, status, error@),
{
    (PingPlan::Finished, PingAction::Answer(Reply::Error { status, error }))
}

/// The update of a plan.
fn update(plan: PlanRow, now: i64, accrued: Amount) -> (r: (PingPlan, PingAction))
    ensures
        updates(plan, now, accrued, r.0, r.1),
{
    let action = PingAction::Update { id: plan.id, last_ping: now, accrued_yield: accrued };
    (PingPlan::Updating { plan, accrued_yield: accrued }, action)
}

/// Takes up a ping in the name of `owner`, which they signed or not.
pub fn ping_signed(owner: String, signed: bool) -> (r: (PingPlan, PingAction))
    ensures
        ping_starts(owner, signed, r.0, r.1),
{
    if !signed {
        return fail(UNAUTHORIZED, "Invalid signature".to_string());
    }
    (PingPlan::Fetching, PingAction::Fetch { owner })
}

/// Takes up a ping.
pub fn ping_plan(request: PingRequest) -> (r: (PingPlan, PingAction))
    ensures
        ping_starts(
            request.owner,
            signed_by_owner(request.owner@, request.signature@, request.message@),
            r.0,
            r.1,
        ),
{
    let signed = verify_ping_signature(
        request.owner.as_str(),
        request.signature.as_str(),
        request.message.as_str(),
    );
    ping_signed(request.owner, signed)
}

impl PingPlan {
    /// Whether `event` tells what came of the last action.
    pub open spec fn awaits(self, event: PingEvent) -> bool {
        match self {
            PingPlan::Fetching => event is Fetched,
            PingPlan::Accruing { .. } => event is Computed,
            PingPlan::Updating { .. } => event is Updated,
            PingPlan::Finished => false,
        }
    }

    /// Whether `event` tells what came of the last action.
    pub fn expects(&self, event: &PingEvent) -> (r: bool)
        ensures
            r == self.awaits(*event),
    {
        match (self, event) {
            (PingPlan::Fetching, PingEvent::Fetched { .. }) => true,
            (PingPlan::Accruing { .. }, PingEvent::Computed(_)) => true,
            (PingPlan::Updating { .. }, PingEvent::Updated(_)) => true,
            _ => false,
        }
    }

    /// What comes next, now that the last action came out as `event`.
    pub fn step(self, event: PingEvent) -> (r: (PingPlan, PingAction))
        requires
            self.awaits(event),
        ensures
            ping_continues(self, event, r.0, r.1),
    {
        match (self, event) {
            (PingPlan::Fetching, PingEvent::Fetched { plan: Ok(Some(plan)), now }) => {
                let elapsed = elapsed_seconds(plan.last_ping, now);
                if plan.earn_yield && elapsed > 0 {
                    let action = PingAction::ComputeYield {
                        amount: plan.amount,
                        rate_bps: rate_bps(plan.yield_rate_bps),
                        elapsed,
                    };
                    (PingPlan::Accruing { plan, now }, action)
                } else {
                    let accrued = plan.accrued_yield;
                    update(plan, now, accrued)
                }
            },
            (PingPlan::Accruing { plan, now }, PingEvent::Computed(None)) => {
                let accrued = plan.accrued_yield;
                update(plan, now, accrued)
            },
            (PingPlan::Accruing { plan, now }, PingEvent::Computed(Some(earned))) => {
                match plan.accrued_yield.plus(&earned.normalize()) {
                    Some(accrued) => update(plan, now, accrued),
                    None => (PingPlan::Finished, PingAction::Overflow),
                }
            },
            (PingPlan::Updating { plan, accrued_yield }, PingEvent::Updated(Ok(_))) => {
                match plan.amount.plus(&accrued_yield) {
                    Some(virtual_balance) => {
                        let response = PingResponse {
                            owner: plan.owner_address,
                            status: plan.status,
                            virtual_balance,
                        };
                        (PingPlan::Finished, PingAction::Answer(Reply::Pinged(response)))
                    },
                    None => (PingPlan::Finished, PingAction::Overflow),
                }
            },
            (_, PingEvent::Fetched { plan: Ok(None), .. }) => fail(
                NOT_FOUND,
                "Active plan not found".to_string(),
            ),
            (_, PingEvent::Fetched { plan: Err(e), .. }) => fail(
                INTERNAL_SERVER_ERROR,
                joined("Database error: ", e.as_str()),
            ),
            (_, PingEvent::Updated(Err(e))) => fail(
                INTERNAL_SERVER_ERROR,
                joined("Failed to update plan: ", e.as_str()),
            ),
            _ => unreached(),
        }
    }
}

} // verus!
