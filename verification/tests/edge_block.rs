use devops_agent::json::JsonValue;
use devops_agent::k8s::blocker::{BlockerError, IpFamily, KubeFailure, TraefikMiddlewareApiGroup};
use devops_agent::k8s::edge::{begin_edge_block, edge_block_step, EdgeBlock, EdgeBlockCommand, EdgeBlockEvent, EdgePhase};

fn s(v: &str) -> JsonValue {
    JsonValue::String(v.to_string())
}

fn obj(entries: Vec<(&str, JsonValue)>) -> JsonValue {
    JsonValue::Object(entries.into_iter().map(|(k, v)| (k.to_string(), v)).collect())
}

fn route_data(routes: Vec<JsonValue>) -> JsonValue {
    obj(vec![("spec", obj(vec![("routes", JsonValue::Array(routes))]))])
}

fn conflict() -> KubeFailure {
    KubeFailure::Api { code: 409, message: "the object has been modified".to_string() }
}

fn start() -> EdgeBlock {
    let (state, command) = begin_edge_block(
        "203.0.113.10",
        Some(IpFamily::V4),
        TraefikMiddlewareApiGroup::TraefikIoV1Alpha1,
        "edge-deny",
        "edge-deny-svc",
        80,
    );
    assert!(matches!(command, EdgeBlockCommand::CheckCrd(ref c) if c == "ingressroutes.traefik.io"));
    assert_eq!(state.rule, "ClientIP(`203.0.113.10/32`)");
    let (state, command) = edge_block_step(state, EdgeBlockEvent::CrdChecked(Ok(true)));
    assert!(matches!(command, EdgeBlockCommand::GetRoute));
    state
}

#[test]
fn edge_block_refuses_an_invalid_address() {
    let (state, command) =
        begin_edge_block("not-an-ip", None, TraefikMiddlewareApiGroup::TraefikIoV1Alpha1, "edge-deny", "svc", 80);
    assert_eq!(state.phase, EdgePhase::Done);
    match command {
        EdgeBlockCommand::Finish(Err(e)) => assert_eq!(e, BlockerError::Generic("Invalid IP address: not-an-ip".to_string())),
        _ => panic!("expected the invalid-address error"),
    }
}

#[test]
fn edge_block_needs_the_ingressroute_crd() {
    let (state, _) = begin_edge_block(
        "2001:db8::1",
        Some(IpFamily::V6),
        TraefikMiddlewareApiGroup::TraefikContainousV1Alpha1,
        "edge-deny",
        "svc",
        80,
    );
    let (_, command) = edge_block_step(state, EdgeBlockEvent::CrdChecked(Ok(false)));
    match command {
        EdgeBlockCommand::Finish(Err(e)) => {
            assert_eq!(e, BlockerError::CrdNotFound("ingressroutes.traefik.containo.us".to_string()))
        }
        _ => panic!("expected CrdNotFound"),
    }
}

#[test]
fn edge_block_without_change_succeeds_without_patch() {
    let state = start();
    let data = route_data(vec![obj(vec![
        ("kind", s("Rule")),
        ("match", s("ClientIP(`203.0.113.10/32`)")),
        ("priority", JsonValue::Number(devops_agent::json::JsonNumber::PosInt(100001))),
        ("services", JsonValue::Array(vec![])),
    ])]);
    let (_, command) = edge_block_step(state, EdgeBlockEvent::RouteRead(Ok((data, None))));
    match command {
        EdgeBlockCommand::Finish(Ok(name)) => assert_eq!(name, "edge-deny"),
        _ => panic!("expected success without a patch"),
    }
}

#[test]
fn edge_block_retries_conflicts_then_gives_up() {
    let mut state = start();
    for attempt in 1..=5 {
        assert_eq!(state.attempt, attempt);
        let (next, command) = edge_block_step(state, EdgeBlockEvent::RouteRead(Ok((route_data(vec![]), Some("7".to_string())))));
        assert!(matches!(command, EdgeBlockCommand::Patch(_)));
        let (next, command) = edge_block_step(next, EdgeBlockEvent::Patched(Err(conflict())));
        state = next;
        if attempt < 5 {
            assert!(matches!(command, EdgeBlockCommand::GetRoute));
        } else {
            match command {
                EdgeBlockCommand::Finish(Err(e)) => assert_eq!(
                    e,
                    BlockerError::ResourceConflict(
                        "patch edge deny ingressroute failed: the object has been modified".to_string()
                    )
                ),
                _ => panic!("expected the conflict error"),
            }
        }
    }
    assert_eq!(state.phase, EdgePhase::Done);
}

#[test]
fn edge_block_read_failure_ends_the_block() {
    let state = start();
    let failure = KubeFailure::Api { code: 403, message: "forbidden".to_string() };
    let (_, command) = edge_block_step(state, EdgeBlockEvent::RouteRead(Err(failure)));
    match command {
        EdgeBlockCommand::Finish(Err(e)) => assert_eq!(
            e,
            BlockerError::RbacPermissionDenied("get edge deny ingressroute failed: forbidden".to_string())
        ),
        _ => panic!("expected the read error"),
    }
}

#[test]
fn edge_block_patch_success_names_the_route() {
    let state = start();
    let (state, _) = edge_block_step(state, EdgeBlockEvent::RouteRead(Ok((route_data(vec![]), None))));
    let (_, command) = edge_block_step(state, EdgeBlockEvent::Patched(Ok(())));
    match command {
        EdgeBlockCommand::Finish(Ok(name)) => assert_eq!(name, "edge-deny"),
        _ => panic!("expected success"),
    }
}

fn member<'a>(v: &'a JsonValue, key: &str) -> &'a JsonValue {
    match v {
        JsonValue::Object(entries) => &entries.iter().find(|(k, _)| k == key).expect("member").1,
        _ => panic!("not an object"),
    }
}

fn patched_routes(command: &EdgeBlockCommand) -> &Vec<JsonValue> {
    match command {
        EdgeBlockCommand::Patch(p) => match member(member(p, "spec"), "routes") {
            JsonValue::Array(a) => a,
            _ => panic!("routes is not an array"),
        },
        _ => panic!("expected a patch"),
    }
}

#[test]
fn edge_block_appends_the_rule_to_the_first_route() {
    let state = start();
    let data = route_data(vec![
        obj(vec![("kind", s("Rule")), ("match", s("ClientIP(`198.51.100.1/32`)")), ("priority", s("p")), ("services", s("x"))]),
        obj(vec![("match", s("Host(`other`)"))]),
    ]);
    let (state, command) = edge_block_step(state, EdgeBlockEvent::RouteRead(Ok((data, Some("9".to_string())))));
    let routes = patched_routes(&command);
    assert_eq!(routes.len(), 2);
    assert_eq!(member(&routes[0], "match"), &s("ClientIP(`198.51.100.1/32`) || ClientIP(`203.0.113.10/32`)"));
    assert_eq!(member(&routes[1], "match"), &s("Host(`other`)"));
    let (_, command) = edge_block_step(state, EdgeBlockEvent::Patched(Ok(())));
    assert!(matches!(command, EdgeBlockCommand::Finish(Ok(ref n)) if n == "edge-deny"));
}

#[test]
fn edge_block_creates_the_deny_route_when_there_is_none() {
    let state = start();
    let (_, command) = edge_block_step(state, EdgeBlockEvent::RouteRead(Ok((route_data(vec![]), None))));
    let routes = patched_routes(&command);
    assert_eq!(routes.len(), 1);
    assert_eq!(member(&routes[0], "kind"), &s("Rule"));
    assert_eq!(member(&routes[0], "match"), &s("ClientIP(`203.0.113.10/32`)"));
    assert_eq!(
        member(&routes[0], "priority"),
        &JsonValue::Number(devops_agent::json::JsonNumber::PosInt(100001))
    );
    let services = member(&routes[0], "services");
    match services {
        JsonValue::Array(a) => {
            assert_eq!(member(&a[0], "name"), &s("edge-deny-svc"));
            assert_eq!(member(&a[0], "port"), &JsonValue::Number(devops_agent::json::JsonNumber::PosInt(80)));
        }
        _ => panic!("services is not an array"),
    }
}

#[test]
fn blocked_cidrs_list_the_cidr_after_the_block() {
    let after = route_data(vec![obj(vec![(
        "match",
        s("ClientIP(`198.51.100.1/32`) || ClientIP(`203.0.113.10/32`)"),
    )])]);
    assert_eq!(
        devops_agent::k8s::blocker::edge_blocked_cidrs(&after),
        vec!["198.51.100.1/32".to_string(), "203.0.113.10/32".to_string()]
    );
}

#[test]
fn an_unclosed_matcher_hides_the_appended_cidr() {
    let state = start();
    let data = route_data(vec![obj(vec![
        ("kind", s("Rule")),
        ("match", s("ClientIP(`a`, `b")),
        ("priority", s("p")),
        ("services", s("x")),
    ])]);
    let (_, command) = edge_block_step(state, EdgeBlockEvent::RouteRead(Ok((data, None))));
    let routes = patched_routes(&command);
    assert_eq!(member(&routes[0], "match"), &s("ClientIP(`a`, `b || ClientIP(`203.0.113.10/32`)"));
    let after = route_data(vec![obj(vec![("match", s("ClientIP(`a`, `b || ClientIP(`203.0.113.10/32`)"))])]);
    assert_eq!(
        devops_agent::k8s::blocker::edge_blocked_cidrs(&after),
        vec!["a".to_string(), "b || ClientIP(".to_string()]
    );
}
