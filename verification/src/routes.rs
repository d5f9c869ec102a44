//! Under which method and path the service is reached, and where a signature is asked for.

use vstd::prelude::*;
use vstd::string::*;

verus! {

/// A method of a request.
#[derive(Clone, Copy, Debug, PartialEq, Eq, Structural)]
pub enum Method {
    Get,
    Post,
}

/// What the service can be asked for.
#[derive(Clone, Copy, Debug, PartialEq, Eq, Structural)]
pub enum Endpoint {
    CreatePlan,
    TriggerPayout,
    GetPlans,
    PingPlan,
    GetAnchorPayouts,
    KycWebhook,
    WatchKyc,
}

impl Endpoint {
    /// The method of the endpoint.
    pub open spec fn verb(self) -> Method {
        match self {
            Endpoint::CreatePlan => Method::Post,
            Endpoint::TriggerPayout => Method::Post,
            Endpoint::GetPlans => Method::Get,
            Endpoint::PingPlan => Method::Post,
            Endpoint::GetAnchorPayouts => Method::Get,
            Endpoint::KycWebhook => Method::Post,
            Endpoint::WatchKyc => Method::Get,
        }
    }

    /// The path of the endpoint.
    pub open spec fn place(self) -> Seq<char> {
        match self {
            Endpoint::CreatePlan => "/api/plans"@,
            Endpoint::TriggerPayout => "/api/plans/payout"@,
            Endpoint::GetPlans => "/api/plans"@,
            Endpoint::PingPlan => "/api/plans/ping"@,
            Endpoint::GetAnchorPayouts => "/api/anchor/payout-status"@,
            Endpoint::KycWebhook => "/api/kyc/webhook"@,
            Endpoint::WatchKyc => "/ws/kyc"@,
        }
    }

    /// Whether the request itself must be signed by a user.
    pub open spec fn guarded(self) -> bool {
        self == Endpoint::CreatePlan || self == Endpoint::TriggerPayout
    }

    /// The method of the endpoint.
    pub fn method(&self) -> (r: Method)
        ensures
            r == self.verb(),
    {
        match self {
            Endpoint::CreatePlan => Method::Post,
            Endpoint::TriggerPayout => Method::Post,
            Endpoint::GetPlans => Method::Get,
            Endpoint::PingPlan => Method::Post,
            Endpoint::GetAnchorPayouts => Method::Get,
            Endpoint::KycWebhook => Method::Post,
            Endpoint::WatchKyc => Method::Get,
        }
    }

    /// The path of the endpoint.
    pub fn path(&self) -> (r: &'static str)
        ensures
            r@ == self.place(),
    {
        match self {
            Endpoint::CreatePlan => "/api/plans",
            Endpoint::TriggerPayout => "/api/plans/payout",
            Endpoint::GetPlans => "/api/plans",
            Endpoint::PingPlan => "/api/plans/ping",
            Endpoint::GetAnchorPayouts => "/api/anchor/payout-status",
            Endpoint::KycWebhook => "/api/kyc/webhook",
            Endpoint::WatchKyc => "/ws/kyc",
        }
    }

    /// Whether the request itself must be signed by a user.
    pub fn requires_signature(&self) -> (r: bool)
        ensures
            r == self.guarded(),
    {
        match self {
            Endpoint::CreatePlan => true,
            Endpoint::TriggerPayout => true,
            _ => false,
        }
    }
}

/// Every endpoint.
pub open spec fn all_endpoints() -> Seq<Endpoint> {
    seq![
        Endpoint::CreatePlan,
        Endpoint::TriggerPayout,
        Endpoint::GetPlans,
        Endpoint::PingPlan,
        Endpoint::GetAnchorPayouts,
        Endpoint::KycWebhook,
        Endpoint::WatchKyc,
    ]
}

/// Every endpoint.
pub fn endpoints() -> (r: Vec<Endpoint>)
    ensures
        r@ == all_endpoints(),
{
    vec![
        Endpoint::CreatePlan,
        Endpoint::TriggerPayout,
        Endpoint::GetPlans,
        Endpoint::PingPlan,
        Endpoint::GetAnchorPayouts,
        Endpoint::KycWebhook,
        Endpoint::WatchKyc,
    ]
}

/// Each endpoint is registered.
pub proof fn law_every_endpoint(e: Endpoint)
    ensures
        all_endpoints().contains(e),
{
    let all = all_endpoints();
    match e {
        Endpoint::CreatePlan => assert(all[0] == e),
        Endpoint::TriggerPayout => assert(all[1] == e),
        Endpoint::GetPlans => assert(all[2] == e),
        Endpoint::PingPlan => assert(all[3] == e),
        Endpoint::GetAnchorPayouts => assert(all[4] == e),
        Endpoint::KycWebhook => assert(all[5] == e),
        Endpoint::WatchKyc => assert(all[6] == e),
    }
}

/// A method and a path lead to one endpoint at most.
pub proof fn law_no_clash(a: Endpoint, b: Endpoint)
    requires
        a.verb() == b.verb(),
        a.place() == b.place(),
    ensures
        a == b,
{
    reveal_strlit("/api/plans");
    reveal_strlit("/api/plans/payout");
    reveal_strlit("/api/plans/ping");
    reveal_strlit("/api/anchor/payout-status");
    reveal_strlit("/api/kyc/webhook");
    reveal_strlit("/ws/kyc");
    assert("/api/plans"@.len() == 10);
    assert("/api/plans/payout"@.len() == 17);
    assert("/api/plans/ping"@.len() == 15);
    assert("/api/anchor/payout-status"@.len() == 25);
    assert("/api/kyc/webhook"@.len() == 16);
    assert("/ws/kyc"@.len() == 7);
}

/// The service registers these seven routes, each once, and no other: a method and a path, whether
/// a user must sign the request, and what it leads to.
pub proof fn law_route_table()
    ensures
        all_endpoints().no_duplicates(),
        all_endpoints().map_values(
            |e: Endpoint| (e.verb(), e.place(), e.guarded(), e),
        ).to_set() == set![
            (Method::Post, "/api/plans"@, true, Endpoint::CreatePlan),
            (Method::Post, "/api/plans/payout"@, true, Endpoint::TriggerPayout),
            (Method::Get, "/api/plans"@, false, Endpoint::GetPlans),
            (Method::Post, "/api/plans/ping"@, false, Endpoint::PingPlan),
            (Method::Get, "/api/anchor/payout-status"@, false, Endpoint::GetAnchorPayouts),
            (Method::Post, "/api/kyc/webhook"@, false, Endpoint::KycWebhook),
            (Method::Get, "/ws/kyc"@, false, Endpoint::WatchKyc),
        ],
{
    let all = all_endpoints();
    let table = all.map_values(|e: Endpoint| (e.verb(), e.place(), e.guarded(), e));
    let routes = set![
        (Method::Post, "/api/plans"@, true, Endpoint::CreatePlan),
        (Method::Post, "/api/plans/payout"@, true, Endpoint::TriggerPayout),
        (Method::Get, "/api/plans"@, false, Endpoint::GetPlans),
        (Method::Post, "/api/plans/ping"@, false, Endpoint::PingPlan),
        (Method::Get, "/api/anchor/payout-status"@, false, Endpoint::GetAnchorPayouts),
        (Method::Post, "/api/kyc/webhook"@, false, Endpoint::KycWebhook),
        (Method::Get, "/ws/kyc"@, false, Endpoint::WatchKyc),
    ];
    assert(all.len() == 7);
    assert forall|r: (Method, Seq<char>, bool, Endpoint)| routes.contains(r) implies table.contains(
        r,
    ) by {
        law_every_endpoint(r.3);
        let i = choose|i: int| 0 <= i < all.len() && all[i] == r.3;
        assert(table[i] == r);
    }
    assert forall|r: (Method, Seq<char>, bool, Endpoint)| table.contains(r) implies routes.contains(
        r,
    ) by {
        let i = choose|i: int| 0 <= i < table.len() && table[i] == r;
        assert(r.3 == all[i]);
    }
    assert(table.to_set() =~= routes);
}

} // verus!
