//! Inspecting the Traefik patterns of a cluster.
use vstd::prelude::*;
use crate::json::{Json, JsonValue, entries_view, items_view, push_entry, push_item, str_value};
use crate::k8s::inspector::{InspectorResults, IngressRouteDiscovery, IngressRoutePathConfig, MiddlewareDiscovery};

verus! {

/// The namespace to inspect; all namespaces when absent.
#[derive(Debug, Clone)]
pub struct InspectPatternsInput {
    pub namespace: Option<String>,
}

/// A string, or `null` when absent.
pub open spec fn opt_str_json(o: Option<String>) -> Json {
    match o {
        Some(s) => Json::Str(s@),
        None => Json::Null,
    }
}

/// An array of strings.
pub open spec fn str_array(v: Seq<String>) -> Json {
    Json::Arr(v.map_values(|s: String| Json::Str(s@)))
}

/// `{"source_range": [..]}`.
pub open spec fn source_range_json(v: Seq<String>) -> Json {
    Json::Obj(seq![("source_range"@, str_array(v))])
}

/// A middleware as the tool reports it.
pub open spec fn middleware_json(m: MiddlewareDiscovery) -> Json {
    Json::Obj(
        seq![
            ("denyip"@, match m.config.denyip {
                Some(d) => source_range_json(d.source_range@),
                None => Json::Null,
            }),
            ("ip_allowlist"@, match m.config.ip_allowlist {
                Some(a) => source_range_json(a.source_range@),
                None => Json::Null,
            }),
            ("name"@, Json::Str(m.name@)),
            ("namespace"@, Json::Str(m.namespace@)),
        ],
    )
}

/// A route as the tool reports it.
pub open spec fn route_json(r: IngressRoutePathConfig) -> Json {
    Json::Obj(
        seq![
            ("match_rule"@, opt_str_json(r.match_rule)),
            ("path"@, Json::Str(r.path@)),
            ("path_regexp"@, match r.path_regexp {
                Some(p) => Json::Obj(seq![("name"@, Json::Str(p.name@)), ("pattern"@, Json::Str(p.pattern@))]),
                None => Json::Null,
            }),
            ("path_type"@, Json::Str(r.path_type@)),
        ],
    )
}

/// An IngressRoute as the tool reports it.
pub open spec fn ingress_route_json(i: IngressRouteDiscovery) -> Json {
    Json::Obj(
        seq![
            ("entry_points"@, str_array(i.config.entry_points@)),
            ("name"@, Json::Str(i.name@)),
            ("namespace"@, Json::Str(i.namespace@)),
            ("routes"@, Json::Arr(i.config.routes@.map_values(|r: IngressRoutePathConfig| route_json(r)))),
        ],
    )
}

/// The tool's report of an inspection.
pub open spec fn inspection_json(r: InspectorResults) -> Json {
    Json::Obj(
        seq![
            ("api_group_used"@, opt_str_json(r.api_group_used)),
            ("ingress_routes"@, Json::Arr(r.ingress_routes@.map_values(|i: IngressRouteDiscovery| ingress_route_json(i)))),
            ("middlewares"@, Json::Arr(r.middlewares@.map_values(|m: MiddlewareDiscovery| middleware_json(m)))),
            ("success"@, Json::Bool(true)),
        ],
    )
}

fn opt_string_value(o: &Option<String>) -> (r: JsonValue)
    ensures
        r@ == opt_str_json(*o),
{
    match o {
        Some(s) => str_value(s.as_str()),
        None => JsonValue::Null,
    }
}

fn string_array(v: &Vec<String>) -> (r: JsonValue)
    ensures
        r@ == str_array(v@),
{
    let ghost want = v@.map_values(|s: String| Json::Str(s@));
    let mut out: Vec<JsonValue> = Vec::new();
    proof {
        crate::json::lemma_items_view(Seq::<JsonValue>::empty(), 0);
    }
    let mut i: usize = 0;
    while i < v.len()
        invariant
            want == v@.map_values(|s: String| Json::Str(s@)),
            i <= v@.len(),
            items_view(out@, out@.len() as int) == want.take(i as int),
        decreases v@.len() - i,
    {
        push_item(&mut out, str_value(v[i].as_str()));
        assert(want.take(i as int + 1) =~= want.take(i as int).push(Json::Str(v@[i as int]@)));
        i = i + 1;
    }
    assert(want.take(v@.len() as int) =~= want);
    JsonValue::Array(out)
}

fn object_of(m: Vec<(String, JsonValue)>) -> (r: JsonValue)
    ensures
        r@ == Json::Obj(entries_view(m@, m@.len() as int)),
{
    JsonValue::Object(m)
}

fn source_range_value(v: &Vec<String>) -> (r: JsonValue)
    ensures
        r@ == source_range_json(v@),
{
    let mut m: Vec<(String, JsonValue)> = Vec::new();
    proof {
        crate::json::lemma_entries_view(Seq::<(String, JsonValue)>::empty(), 0);
    }
    push_entry(&mut m, "source_range", string_array(v));
    assert(entries_view(m@, m@.len() as int) =~= seq![("source_range"@, str_array(v@))]);
    object_of(m)
}

fn middleware_value(mw: &MiddlewareDiscovery) -> (r: JsonValue)
    ensures
        r@ == middleware_json(*mw),
{
    let deny = match &mw.config.denyip {
        Some(d) => source_range_value(&d.source_range),
        None => JsonValue::Null,
    };
    let allow = match &mw.config.ip_allowlist {
        Some(a) => source_range_value(&a.source_range),
        None => JsonValue::Null,
    };
    let mut m: Vec<(String, JsonValue)> = Vec::new();
    proof {
        crate::json::lemma_entries_view(Seq::<(String, JsonValue)>::empty(), 0);
    }
    let ghost dj = deny@;
    let ghost aj = allow@;
    assert(dj == match mw.config.denyip {
        Some(d) => source_range_json(d.source_range@),
        None => Json::Null,
    });
    assert(aj == match mw.config.ip_allowlist {
        Some(a) => source_range_json(a.source_range@),
        None => Json::Null,
    });
    push_entry(&mut m, "denyip", deny);
    push_entry(&mut m, "ip_allowlist", allow);
    push_entry(&mut m, "name", str_value(mw.name.as_str()));
    push_entry(&mut m, "namespace", str_value(mw.namespace.as_str()));
    assert(entries_view(m@, m@.len() as int) =~= seq![
        ("denyip"@, match mw.config.denyip {
            Some(d) => source_range_json(d.source_range@),
            None => Json::Null,
        }),
        ("ip_allowlist"@, match mw.config.ip_allowlist {
            Some(a) => source_range_json(a.source_range@),
            None => Json::Null,
        }),
        ("name"@, Json::Str(mw.name@)),
        ("namespace"@, Json::Str(mw.namespace@)),
    ]);
    object_of(m)
}

fn route_value(rt: &IngressRoutePathConfig) -> (r: JsonValue)
    ensures
        r@ == route_json(*rt),
{
    let regexp = match &rt.path_regexp {
        Some(p) => {
            let mut pm: Vec<(String, JsonValue)> = Vec::new();
            proof {
                crate::json::lemma_entries_view(Seq::<(String, JsonValue)>::empty(), 0);
            }
            push_entry(&mut pm, "name", str_value(p.name.as_str()));
            push_entry(&mut pm, "pattern", str_value(p.pattern.as_str()));
            assert(entries_view(pm@, pm@.len() as int) =~= seq![
                ("name"@, Json::Str(p.name@)),
                ("pattern"@, Json::Str(p.pattern@)),
            ]);
            object_of(pm)
        },
        None => JsonValue::Null,
    };
    let ghost rj = regexp@;
    assert(rj == match rt.path_regexp {
        Some(p) => Json::Obj(seq![("name"@, Json::Str(p.name@)), ("pattern"@, Json::Str(p.pattern@))]),
        None => Json::Null,
    });
    let mut m: Vec<(String, JsonValue)> = Vec::new();
    proof {
        crate::json::lemma_entries_view(Seq::<(String, JsonValue)>::empty(), 0);
    }
    push_entry(&mut m, "match_rule", opt_string_value(&rt.match_rule));
    push_entry(&mut m, "path", str_value(rt.path.as_str()));
    push_entry(&mut m, "path_regexp", regexp);
    push_entry(&mut m, "path_type", str_value(rt.path_type.as_str()));
    assert(entries_view(m@, m@.len() as int) =~= seq![
        ("match_rule"@, opt_str_json(rt.match_rule)),
        ("path"@, Json::Str(rt.path@)),
        ("path_regexp"@, match rt.path_regexp {
            Some(p) => Json::Obj(seq![("name"@, Json::Str(p.name@)), ("pattern"@, Json::Str(p.pattern@))]),
            None => Json::Null,
        }),
        ("path_type"@, Json::Str(rt.path_type@)),
    ]);
    object_of(m)
}

fn ingress_route_value(ir: &IngressRouteDiscovery) -> (r: JsonValue)
    ensures
        r@ == ingress_route_json(*ir),
{
    let routes = &ir.config.routes;
    let ghost want = routes@.map_values(|x: IngressRoutePathConfig| route_json(x));
    let mut items: Vec<JsonValue> = Vec::new();
    proof {
        crate::json::lemma_items_view(Seq::<JsonValue>::empty(), 0);
    }
    let mut i: usize = 0;
    while i < routes.len()
        invariant
            want == routes@.map_values(|x: IngressRoutePathConfig| route_json(x)),
            i <= routes@.len(),
            items_view(items@, items@.len() as int) == want.take(i as int),
        decreases routes@.len() - i,
    {
        push_item(&mut items, route_value(&routes[i]));
        assert(want.take(i as int + 1) =~= want.take(i as int).push(route_json(routes@[i as int])));
        i = i + 1;
    }
    assert(want.take(routes@.len() as int) =~= want);
    let mut m: Vec<(String, JsonValue)> = Vec::new();
    proof {
        crate::json::lemma_entries_view(Seq::<(String, JsonValue)>::empty(), 0);
    }
    push_entry(&mut m, "entry_points", string_array(&ir.config.entry_points));
    push_entry(&mut m, "name", str_value(ir.name.as_str()));
    push_entry(&mut m, "namespace", str_value(ir.namespace.as_str()));
    push_entry(&mut m, "routes", JsonValue::Array(items));
    assert(entries_view(m@, m@.len() as int) =~= seq![
        ("entry_points"@, str_array(ir.config.entry_points@)),
        ("name"@, Json::Str(ir.name@)),
        ("namespace"@, Json::Str(ir.namespace@)),
        ("routes"@, Json::Arr(want)),
    ]);
    object_of(m)
}

/// The tool's report of an inspection: every middleware with its allow and
/// deny ranges, every IngressRoute with its entry points and routes, and
/// the API group used.
pub fn inspection_result(results: &InspectorResults) -> (r: JsonValue)
    ensures
        r@ == inspection_json(*results),
{
    let mws = &results.middlewares;
    let ghost want_m = mws@.map_values(|x: MiddlewareDiscovery| middleware_json(x));
    let mut mw_items: Vec<JsonValue> = Vec::new();
    proof {
        crate::json::lemma_items_view(Seq::<JsonValue>::empty(), 0);
    }
    let mut i: usize = 0;
    while i < mws.len()
        invariant
            want_m == mws@.map_values(|x: MiddlewareDiscovery| middleware_json(x)),
            i <= mws@.len(),
            items_view(mw_items@, mw_items@.len() as int) == want_m.take(i as int),
        decreases mws@.len() - i,
    {
        push_item(&mut mw_items, middleware_value(&mws[i]));
        assert(want_m.take(i as int + 1) =~= want_m.take(i as int).push(middleware_json(mws@[i as int])));
        i = i + 1;
    }
    assert(want_m.take(mws@.len() as int) =~= want_m);
    let irs = &results.ingress_routes;
    let ghost want_i = irs@.map_values(|x: IngressRouteDiscovery| ingress_route_json(x));
    let mut ir_items: Vec<JsonValue> = Vec::new();
    let mut j: usize = 0;
    while j < irs.len()
        invariant
            want_i == irs@.map_values(|x: IngressRouteDiscovery| ingress_route_json(x)),
            j <= irs@.len(),
            items_view(ir_items@, ir_items@.len() as int) == want_i.take(j as int),
        decreases irs@.len() - j,
    {
        push_item(&mut ir_items, ingress_route_value(&irs[j]));
        assert(want_i.take(j as int + 1) =~= want_i.take(j as int).push(ingress_route_json(irs@[j as int])));
        j = j + 1;
    }
    assert(want_i.take(irs@.len() as int) =~= want_i);
    let mut m: Vec<(String, JsonValue)> = Vec::new();
    proof {
        crate::json::lemma_entries_view(Seq::<(String, JsonValue)>::empty(), 0);
    }
    push_entry(&mut m, "api_group_used", opt_string_value(&results.api_group_used));
    push_entry(&mut m, "ingress_routes", JsonValue::Array(ir_items));
    push_entry(&mut m, "middlewares", JsonValue::Array(mw_items));
    push_entry(&mut m, "success", JsonValue::Bool(true));
    assert(entries_view(m@, m@.len() as int) =~= seq![
        ("api_group_used"@, opt_str_json(results.api_group_used)),
        ("ingress_routes"@, Json::Arr(want_i)),
        ("middlewares"@, Json::Arr(want_m)),
        ("success"@, Json::Bool(true)),
    ]);
    object_of(m)
}

} // verus!
