//! What the service answers.

use crate::model::{PingResponse, PlanResponse};
use vstd::prelude::*;

verus! {

pub const OK: u16 = 200;

pub const CREATED: u16 = 201;

pub const BAD_REQUEST: u16 = 400;

pub const UNAUTHORIZED: u16 = 401;

pub const NOT_FOUND: u16 = 404;

pub const INTERNAL_SERVER_ERROR: u16 = 500;

pub const NOT_IMPLEMENTED: u16 = 501;

/// An answer to a request.
#[derive(Debug, Clone, PartialEq, Eq)]
pub enum Reply {
    /// The request failed, for the reason `error`.
    Error { status: u16, error: String },
    /// The plan was created.
    Created(PlanResponse),
    /// The plans that were asked for.
    Plans(Vec<PlanResponse>),
    /// The sign of life was recorded.
    Pinged(PingResponse),
    /// Plain words.
    Text { status: u16, body: String },
}

impl Reply {
    /// Whether the request failed with `status` for the reason `error`.
    pub open spec fn fails_with(self, status: u16, error: Seq<char>) -> bool {
        self matches Reply::Error { status: s, error: e } && s == status && e@ == error
    }

    /// The status code of the answer.
    pub open spec fn code(self) -> u16 {
        match self {
            Reply::Error { status, .. } => status,
            Reply::Created(_) => CREATED,
            Reply::Plans(_) => OK,
            Reply::Pinged(_) => OK,
            Reply::Text { status, .. } => status,
        }
    }

    /// The status code of the answer.
    pub fn status(&self) -> (r: u16)
        ensures
            r == self.code(),
    {
        match self {
            Reply::Error { status, .. } => *status,
            Reply::Created(_) => CREATED,
            Reply::Plans(_) => OK,
            Reply::Pinged(_) => OK,
            Reply::Text { status, .. } => *status,
        }
    }
}

/// A failure, and plain words, have the status that they carry; a plan that was created is told
/// so; any other success is plain.
pub proof fn law_status(reply: Reply)
    ensures
        match reply {
            Reply::Error { status, .. } => reply.code() == status,
            Reply::Created(_) => reply.code() == 201,
            Reply::Plans(_) => reply.code() == 200,
            Reply::Pinged(_) => reply.code() == 200,
            Reply::Text { status, .. } => reply.code() == status,
        },
{
}

/// The statuses are those of HTTP.
pub proof fn law_status_numbers()
    ensures
        OK == 200,
        CREATED == 201,
        BAD_REQUEST == 400,
        UNAUTHORIZED == 401,
        NOT_FOUND == 404,
        INTERNAL_SERVER_ERROR == 500,
        NOT_IMPLEMENTED == 501,
{
}

} // verus!
