//! Blocking a client IP at the edge, as a sequence of Kubernetes calls: the
//! decisions of each step (which call comes next, when to read again after a
//! conflict, which error ends the block) are made here; the caller performs
//! the calls and hands back what they answered.
use vstd::prelude::*;
use crate::json::JsonValue;
use crate::k8s::blocker::{BlockerError, BlockerFault, IpFamily, KubeFailure, TraefikBlocker,
    TraefikMiddlewareApiGroup, cidr_for, client_ip_rule, current_routes, edge_patch, edge_routes_ok, kube_fault,
    is_kube_conflict};
use crate::text::own;

verus! {

/// How many times the patch is tried when it meets resource conflicts.
pub const MAX_PATCH_ATTEMPTS: usize = 5;

/// Where an edge block stands.
#[derive(Debug, Clone, Copy, PartialEq, Eq, Structural)]
pub enum EdgePhase {
    /// Waiting to learn whether the IngressRoute CRD exists.
    CheckingCrd,
    /// Waiting for the edge deny IngressRoute.
    Reading,
    /// Waiting for the answer to the patch.
    Patching,
    /// Finished.
    Done,
}

/// An edge block under way.
#[derive(Debug, Clone)]
pub struct EdgeBlock {
    /// The edge deny IngressRoute's name.
    pub name: String,
    /// The `ClientIP` rule that blocks the address.
    pub rule: String,
    /// The service of a route that has to be created.
    pub service_name: String,
    /// Its port.
    pub service_port: u16,
    /// The IngressRoute CRD that must exist.
    pub crd: String,
    /// The number of the current read-and-patch attempt (0 before the first).
    pub attempt: usize,
    /// Where the block stands.
    pub phase: EdgePhase,
}

/// The next call to make, or the outcome.
#[derive(Debug)]
pub enum EdgeBlockCommand {
    /// Ask whether this CRD exists.
    CheckCrd(String),
    /// Read the edge deny IngressRoute.
    GetRoute,
    /// Send this merge patch to the edge deny IngressRoute.
    Patch(JsonValue),
    /// The block is over, with this outcome.
    Finish(Result<String, BlockerError>),
}

/// What a call answered.
#[derive(Debug)]
pub enum EdgeBlockEvent {
    /// Whether the CRD exists, or why that could not be learned.
    CrdChecked(Result<bool, BlockerError>),
    /// The IngressRoute's object data and resource version, or the failure.
    RouteRead(Result<(JsonValue, Option<String>), KubeFailure>),
    /// Whether the patch went through.
    Patched(Result<(), KubeFailure>),
}

/// The IngressRoute CRD of an API group.
pub open spec fn ingressroute_crd(g: TraefikMiddlewareApiGroup) -> Seq<char> {
    match g {
        TraefikMiddlewareApiGroup::TraefikIoV1Alpha1 => "ingressroutes.traefik.io"@,
        TraefikMiddlewareApiGroup::TraefikContainousV1Alpha1 => "ingressroutes.traefik.containo.us"@,
    }
}

/// The text of an optional string.
pub open spec fn opt_chars(o: Option<String>) -> Option<Seq<char>> {
    match o {
        Some(s) => Some(s@),
        None => None,
    }
}

/// A block in progress is between its first and last attempt.
pub open spec fn edge_wf(s: EdgeBlock) -> bool {
    match s.phase {
        EdgePhase::Reading | EdgePhase::Patching => 1 <= s.attempt <= MAX_PATCH_ATTEMPTS,
        _ => s.attempt <= MAX_PATCH_ATTEMPTS,
    }
}

/// The event that answers the phase's call. A route read is one whose first
/// route can take a block (none, an object, or `null`): the block does not
/// go on with any other.
pub open spec fn edge_accepts(s: EdgeBlock, e: EdgeBlockEvent) -> bool {
    match s.phase {
        EdgePhase::CheckingCrd => e is CrdChecked,
        EdgePhase::Reading => match e {
            EdgeBlockEvent::RouteRead(Ok((d, _))) => edge_routes_ok(current_routes(d@)),
            EdgeBlockEvent::RouteRead(Err(_)) => true,
            _ => false,
        },
        EdgePhase::Patching => e is Patched,
        EdgePhase::Done => false,
    }
}

/// `b` is the block `a` with a new phase and attempt.
pub open spec fn same_block(a: EdgeBlock, b: EdgeBlock) -> bool {
    &&& b.name == a.name
    &&& b.rule == a.rule
    &&& b.service_name == a.service_name
    &&& b.service_port == a.service_port
    &&& b.crd == a.crd
}

/// `c` ends the block with success, naming the IngressRoute `name`.
pub open spec fn finishes_ok(c: EdgeBlockCommand, name: Seq<char>) -> bool {
    c matches EdgeBlockCommand::Finish(Ok(n)) && n@ == name
}

/// `c` ends the block with the error `f`.
pub open spec fn finishes_err(c: EdgeBlockCommand, f: BlockerFault) -> bool {
    c matches EdgeBlockCommand::Finish(Err(e)) && e@ == f
}

fn done(s: EdgeBlock) -> (r: EdgeBlock)
    ensures
        same_block(s, r),
        r.phase == EdgePhase::Done,
        r.attempt == s.attempt,
{
    EdgeBlock { phase: EdgePhase::Done, ..s }
}

/// Starts blocking `ip` at the edge deny IngressRoute `name`; `family` is
/// what parsing `ip` as an address gave. An address that is not one ends the
/// block at once with the invalid-address error; else the IngressRoute CRD
/// of `group` is checked first.
pub fn begin_edge_block(
    ip: &str,
    family: Option<IpFamily>,
    group: TraefikMiddlewareApiGroup,
    name: &str,
    service_name: &str,
    service_port: u16,
) -> (r: (EdgeBlock, EdgeBlockCommand))
    ensures
        edge_wf(r.0),
        match cidr_for(ip@, family) {
            Err(f) => r.0.phase == EdgePhase::Done && finishes_err(r.1, f),
            Ok(c) => {
                &&& r.0.phase == EdgePhase::CheckingCrd
                &&& r.0.attempt == 0
                &&& r.0.name@ == name@
                &&& r.0.rule@ == client_ip_rule(c)
                &&& r.0.service_name@ == service_name@
                &&& r.0.service_port == service_port
                &&& r.0.crd@ == ingressroute_crd(group)
                &&& r.1 matches EdgeBlockCommand::CheckCrd(crd) && crd@ == ingressroute_crd(group)
            },
        },
{
    let crd = own(group.ingressroute_crd_name());
    match TraefikBlocker::cidr_for_ip(ip, family) {
        Err(e) => {
            let s = EdgeBlock {
                name: own(name),
                rule: String::new(),
                service_name: own(service_name),
                service_port,
                crd,
                attempt: 0,
                phase: EdgePhase::Done,
            };
            (s, EdgeBlockCommand::Finish(Err(e)))
        },
        Ok(cidr) => {
            let s = EdgeBlock {
                name: own(name),
                rule: TraefikBlocker::client_ip_rule(cidr.as_str()),
                service_name: own(service_name),
                service_port,
                crd: crd.clone(),
                attempt: 0,
                phase: EdgePhase::CheckingCrd,
            };
            (s, EdgeBlockCommand::CheckCrd(crd))
        },
    }
}

/// Takes one step of an edge block: from where it stands and what the last
/// call answered, the next stand and call. A missing CRD ends it with
/// `CrdNotFound`; a failed read ends it with the read's error; a route that
/// already blocks the rule needs no patch; a conflict on the patch before the
/// last attempt reads the route again, and any other failure of the patch,
/// a conflict on the last attempt too, ends it with the patch's error.
pub fn edge_block_step(s: EdgeBlock, e: EdgeBlockEvent) -> (r: (EdgeBlock, EdgeBlockCommand))
    requires
        edge_wf(s),
        edge_accepts(s, e),
    ensures
        edge_wf(r.0),
        same_block(s, r.0),
        match s.phase {
            EdgePhase::CheckingCrd => match e {
                EdgeBlockEvent::CrdChecked(Ok(true)) => r.0.phase == EdgePhase::Reading && r.0.attempt == 1
                    && r.1 is GetRoute,
                EdgeBlockEvent::CrdChecked(Ok(false)) => r.0.phase == EdgePhase::Done && finishes_err(
                    r.1,
                    BlockerFault::CrdNotFound(s.crd@),
                ),
                EdgeBlockEvent::CrdChecked(Err(x)) => r.0.phase == EdgePhase::Done && finishes_err(r.1, x@),
                _ => false,
            },
            EdgePhase::Reading => match e {
                EdgeBlockEvent::RouteRead(Err(f)) => r.0.phase == EdgePhase::Done && finishes_err(
                    r.1,
                    kube_fault(f, "get edge deny ingressroute"@),
                ),
                EdgeBlockEvent::RouteRead(Ok((d, rv))) => match edge_patch(
                    d@,
                    opt_chars(rv),
                    s.rule@,
                    s.service_name@,
                    s.service_port,
                ) {
                    None => r.0.phase == EdgePhase::Done && finishes_ok(r.1, s.name@),
                    Some(p) => {
                        &&& r.0.phase == EdgePhase::Patching
                        &&& r.0.attempt == s.attempt
                        &&& r.1 matches EdgeBlockCommand::Patch(q) && q@ == p
                    },
                },
                _ => false,
            },
            EdgePhase::Patching => match e {
                EdgeBlockEvent::Patched(Ok(())) => r.0.phase == EdgePhase::Done && finishes_ok(r.1, s.name@),
                EdgeBlockEvent::Patched(Err(f)) => if (f matches KubeFailure::Api { code, .. } && code == 409)
                    && s.attempt < MAX_PATCH_ATTEMPTS {
                    r.0.phase == EdgePhase::Reading && r.0.attempt == s.attempt + 1 && r.1 is GetRoute
                } else {
                    r.0.phase == EdgePhase::Done && finishes_err(r.1, kube_fault(f, "patch edge deny ingressroute"@))
                },
                _ => false,
            },
            EdgePhase::Done => false,
        },
{
    match s.phase {
        EdgePhase::CheckingCrd => match e {
            EdgeBlockEvent::CrdChecked(Ok(true)) => {
                (EdgeBlock { phase: EdgePhase::Reading, attempt: 1, ..s }, EdgeBlockCommand::GetRoute)
            },
            EdgeBlockEvent::CrdChecked(Ok(false)) => {
                let m = s.crd.clone();
                (done(s), EdgeBlockCommand::Finish(Err(BlockerError::CrdNotFound(m))))
            },
            EdgeBlockEvent::CrdChecked(Err(x)) => (done(s), EdgeBlockCommand::Finish(Err(x))),
            _ => (done(s), EdgeBlockCommand::GetRoute),
        },
        EdgePhase::Reading => match e {
            EdgeBlockEvent::RouteRead(Err(f)) => {
                let x = BlockerError::from_kube_error(&f, "get edge deny ingressroute");
                (done(s), EdgeBlockCommand::Finish(Err(x)))
            },
            EdgeBlockEvent::RouteRead(Ok((d, rv))) => {
                let plan = TraefikBlocker::plan_edge_block(
                    &d,
                    rv,
                    s.rule.as_str(),
                    s.service_name.as_str(),
                    s.service_port,
                );
                match plan {
                    None => {
                        let n = s.name.clone();
                        (done(s), EdgeBlockCommand::Finish(Ok(n)))
                    },
                    Some(p) => (EdgeBlock { phase: EdgePhase::Patching, ..s }, EdgeBlockCommand::Patch(p)),
                }
            },
            _ => (done(s), EdgeBlockCommand::GetRoute),
        },
        EdgePhase::Patching => match e {
            EdgeBlockEvent::Patched(Ok(())) => {
                let n = s.name.clone();
                (done(s), EdgeBlockCommand::Finish(Ok(n)))
            },
            EdgeBlockEvent::Patched(Err(f)) => {
                if is_kube_conflict(&f) && s.attempt < MAX_PATCH_ATTEMPTS {
                    let next = s.attempt + 1;
                    (EdgeBlock { phase: EdgePhase::Reading, attempt: next, ..s }, EdgeBlockCommand::GetRoute)
                } else {
                    let x = BlockerError::from_kube_error(&f, "patch edge deny ingressroute");
                    (done(s), EdgeBlockCommand::Finish(Err(x)))
                }
            },
            _ => (done(s), EdgeBlockCommand::GetRoute),
        },
        EdgePhase::Done => (s, EdgeBlockCommand::GetRoute),
    }
}

} // verus!
