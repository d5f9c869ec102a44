//! Payouts: the service lists those of the registry of anchors, and does not make any yet.

use crate::model::{AnchorQuery, PayoutRequest};
use crate::reply::{Reply, NOT_IMPLEMENTED, OK};
use vstd::prelude::*;
use vstd::string::*;

verus! {

/// The answer to a request to pay out a plan: that this is not implemented.
pub fn trigger_payout(_request: &PayoutRequest) -> (r: Reply)
    ensures
        r matches Reply::Text { status, body } && status == NOT_IMPLEMENTED && body@
            == "Payout trigger logic not implemented"@,
{
    Reply::Text {
        status: NOT_IMPLEMENTED,
        body: "Payout trigger logic not implemented".to_string(),
    }
}

/// The status and the payouts for a query: all payouts of the registry of anchors, which are
/// `payouts`, in its order. The address of the query leaves none out. `P` is the record of a
/// payout, which is handed on unread.
pub fn get_anchor_payouts<P>(payouts: Vec<P>, _query: &AnchorQuery) -> (r: (u16, Vec<P>))
    ensures
        r.0 == OK,
        r.1 == payouts,
{
    (OK, payouts)
}

} // verus!
