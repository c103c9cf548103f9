//! Discovery of Traefik middlewares and ingress routes: API groups, errors,
//! and the reading of resource data into configurations.
use vstd::prelude::*;
use crate::elasticsearch::queries::texts;
use crate::json::{Json, JsonValue, items_view, lemma_items_view};
use crate::text::{has_prefix, has_suffix, occurrence_from, lemma_occurrence_from, trim, own, push_str,
    chars_of, string_of_range, occurs_at_vec, find_after, trim_str};

verus! {

/// Traefik Middleware API group and version variants.
#[derive(Debug, Clone, Copy, PartialEq, Eq, Structural)]
pub enum MiddlewareApiGroup {
    /// Preferred: traefik.io/v1alpha1
    TraefikIoV1Alpha1,
    /// Fallback: traefik.containo.us/v1alpha1
    TraefikContainousV1Alpha1,
}

impl MiddlewareApiGroup {
    /// The API group.
    pub fn group(&self) -> (r: &'static str)
        ensures
            r@ == (match self {
                MiddlewareApiGroup::TraefikIoV1Alpha1 => "traefik.io"@,
                MiddlewareApiGroup::TraefikContainousV1Alpha1 => "traefik.containo.us"@,
            }),
    {
        match self {
            MiddlewareApiGroup::TraefikIoV1Alpha1 => "traefik.io",
            MiddlewareApiGroup::TraefikContainousV1Alpha1 => "traefik.containo.us",
        }
    }

    /// The API version.
    pub fn version(&self) -> (r: &'static str)
        ensures
            r@ == "v1alpha1"@,
    {
        "v1alpha1"
    }

    /// The Middleware CRD name.
    pub fn crd_name(&self) -> (r: &'static str)
        ensures
            r@ == (match self {
                MiddlewareApiGroup::TraefikIoV1Alpha1 => "middlewares.traefik.io"@,
                MiddlewareApiGroup::TraefikContainousV1Alpha1 => "middlewares.traefik.containo.us"@,
            }),
    {
        match self {
            MiddlewareApiGroup::TraefikIoV1Alpha1 => "middlewares.traefik.io",
            MiddlewareApiGroup::TraefikContainousV1Alpha1 => "middlewares.traefik.containo.us",
        }
    }
}

/// Traefik IngressRoute API group and version variants.
#[derive(Debug, Clone, Copy, PartialEq, Eq, Structural)]
pub enum IngressRouteApiGroup {
    /// Preferred: traefik.io/v1alpha1
    TraefikIoV1Alpha1,
    /// Fallback: traefik.containo.us/v1alpha1
    TraefikContainousV1Alpha1,
}

impl IngressRouteApiGroup {
    /// The API group.
    pub fn group(&self) -> (r: &'static str)
        ensures
            r@ == (match self {
                IngressRouteApiGroup::TraefikIoV1Alpha1 => "traefik.io"@,
                IngressRouteApiGroup::TraefikContainousV1Alpha1 => "traefik.containo.us"@,
            }),
    {
        match self {
            IngressRouteApiGroup::TraefikIoV1Alpha1 => "traefik.io",
            IngressRouteApiGroup::TraefikContainousV1Alpha1 => "traefik.containo.us",
        }
    }

    /// The API version.
    pub fn version(&self) -> (r: &'static str)
        ensures
            r@ == "v1alpha1"@,
    {
        "v1alpha1"
    }

    /// The IngressRoute CRD name.
    pub fn crd_name(&self) -> (r: &'static str)
        ensures
            r@ == (match self {
                IngressRouteApiGroup::TraefikIoV1Alpha1 => "ingressroutes.traefik.io"@,
                IngressRouteApiGroup::TraefikContainousV1Alpha1 => "ingressroutes.traefik.containo.us"@,
            }),
    {
        match self {
            IngressRouteApiGroup::TraefikIoV1Alpha1 => "ingressroutes.traefik.io",
            IngressRouteApiGroup::TraefikContainousV1Alpha1 => "ingressroutes.traefik.containo.us",
        }
    }
}

/// Kubernetes API errors.
#[derive(Debug, Clone, PartialEq, Eq)]
pub enum K8sError {
    /// Connection failure.
    ConnectionFailed(String),
    /// Missing CRD.
    CrdNotFound(String),
    /// API version deprecated or not available.
    ApiVersionDeprecated(String),
    /// Any other failure.
    Generic(String),
}

/// The message a Kubernetes error displays.
pub open spec fn k8s_error_text(e: K8sError) -> Seq<char> {
    match e {
        K8sError::ConnectionFailed(m) => "K8s API connection failed: "@ + m@,
        K8sError::CrdNotFound(m) => "CRD not found: "@ + m@,
        K8sError::ApiVersionDeprecated(m) => "API version deprecated or not available: "@ + m@,
        K8sError::Generic(m) => "K8s error: "@ + m@,
    }
}

fn join2(a: &str, b: &str) -> (r: String)
    ensures
        r@ == a@ + b@,
{
    let mut r = String::new();
    push_str(&mut r, a);
    push_str(&mut r, b);
    r
}

impl K8sError {
    /// The error's message.
    pub fn to_string(&self) -> (r: String)
        ensures
            r@ == k8s_error_text(*self),
    {
        match self {
            K8sError::ConnectionFailed(m) => join2("K8s API connection failed: ", m.as_str()),
            K8sError::CrdNotFound(m) => join2("CRD not found: ", m.as_str()),
            K8sError::ApiVersionDeprecated(m) => join2("API version deprecated or not available: ", m.as_str()),
            K8sError::Generic(m) => join2("K8s error: ", m.as_str()),
        }
    }
}

/// Middleware IP allowlist configuration.
#[derive(Debug, Clone, PartialEq, Eq)]
pub struct IpAllowListConfig {
    pub source_range: Vec<String>,
}

impl Default for IpAllowListConfig {
    fn default() -> (r: Self)
        ensures
            r.source_range@.len() == 0,
    {
        IpAllowListConfig { source_range: Vec::new() }
    }
}

/// Middleware denyip plugin configuration.
#[derive(Debug, Clone, PartialEq, Eq)]
pub struct DenyIpConfig {
    pub source_range: Vec<String>,
}

impl Default for DenyIpConfig {
    fn default() -> (r: Self)
        ensures
            r.source_range@.len() == 0,
    {
        DenyIpConfig { source_range: Vec::new() }
    }
}

/// Middleware configuration.
#[derive(Debug, Clone, PartialEq, Eq)]
pub struct MiddlewareConfig {
    pub ip_allowlist: Option<IpAllowListConfig>,
    pub denyip: Option<DenyIpConfig>,
}

impl Default for MiddlewareConfig {
    fn default() -> (r: Self)
        ensures
            r.ip_allowlist is None,
            r.denyip is None,
    {
        MiddlewareConfig { ip_allowlist: None, denyip: None }
    }
}

/// A named path regexp of a route.
#[derive(Debug, Clone, PartialEq, Eq)]
pub struct PathRegexpConfig {
    pub name: String,
    pub pattern: String,
}

impl Default for PathRegexpConfig {
    fn default() -> (r: Self)
        ensures
            r.name@.len() == 0,
            r.pattern@.len() == 0,
    {
        PathRegexpConfig { name: String::new(), pattern: String::new() }
    }
}

/// IngressRoute path configuration.
#[derive(Debug, Clone, PartialEq, Eq)]
pub struct IngressRoutePathConfig {
    pub path: String,
    pub path_type: String,
    pub match_rule: Option<String>,
    pub path_regexp: Option<PathRegexpConfig>,
}

impl Default for IngressRoutePathConfig {
    fn default() -> (r: Self)
        ensures
            r.path@.len() == 0,
            r.path_type@.len() == 0,
            r.match_rule is None,
            r.path_regexp is None,
    {
        IngressRoutePathConfig { path: String::new(), path_type: String::new(), match_rule: None, path_regexp: None }
    }
}

/// IngressRoute configuration.
#[derive(Debug, Clone, PartialEq, Eq)]
pub struct IngressRouteConfig {
    pub name: String,
    pub namespace: String,
    pub entry_points: Vec<String>,
    pub routes: Vec<IngressRoutePathConfig>,
}

impl Default for IngressRouteConfig {
    fn default() -> (r: Self)
        ensures
            r.name@.len() == 0,
            r.namespace@.len() == 0,
            r.entry_points@.len() == 0,
            r.routes@.len() == 0,
    {
        IngressRouteConfig { name: String::new(), namespace: String::new(), entry_points: Vec::new(), routes: Vec::new() }
    }
}

/// A discovered Middleware resource.
#[derive(Debug, Clone)]
pub struct MiddlewareDiscovery {
    pub name: String,
    pub namespace: String,
    pub config: MiddlewareConfig,
}

/// A discovered IngressRoute resource.
#[derive(Debug, Clone)]
pub struct IngressRouteDiscovery {
    pub name: String,
    pub namespace: String,
    pub config: IngressRouteConfig,
}

/// What an inspection found.
#[derive(Debug, Clone)]
pub struct InspectorResults {
    pub middlewares: Vec<MiddlewareDiscovery>,
    pub ingress_routes: Vec<IngressRouteDiscovery>,
    pub api_group_used: Option<String>,
}

impl Default for InspectorResults {
    fn default() -> (r: Self)
        ensures
            r.middlewares@.len() == 0,
            r.ingress_routes@.len() == 0,
            r.api_group_used is None,
    {
        InspectorResults { middlewares: Vec::new(), ingress_routes: Vec::new(), api_group_used: None }
    }
}

/// The string elements of the first `n` of `a`, in order; others are skipped.
pub open spec fn str_items(a: Seq<Json>, n: int) -> Seq<Seq<char>>
    decreases n,
{
    if n <= 0 || n > a.len() {
        seq![]
    } else {
        str_items(a, n - 1) + match a[n - 1] {
            Json::Str(s) => seq![s],
            _ => seq![],
        }
    }
}

/// The string elements of an array value; `None` for any other value.
pub open spec fn string_list(v: Option<Json>) -> Option<Seq<Seq<char>>> {
    match v {
        Some(Json::Arr(a)) => Some(str_items(a, a.len() as int)),
        _ => None,
    }
}

/// Member `key` of an optional value.
pub open spec fn member_of(v: Option<Json>, key: Seq<char>) -> Option<Json> {
    match v {
        Some(j) => j.member(key),
        None => None,
    }
}

/// The `ipAllowList` source ranges of a middleware's data.
pub open spec fn allow_ranges(data: Json) -> Option<Seq<Seq<char>>> {
    string_list(member_of(member_of(data.member("spec"@), "ipAllowList"@), "sourceRange"@))
}

/// The denyip plugin source ranges of a middleware's data.
pub open spec fn deny_ranges(data: Json) -> Option<Seq<Seq<char>>> {
    string_list(member_of(member_of(member_of(data.member("spec"@), "plugin"@), "denyip"@), "sourceRange"@))
}

/// The argument of a call-like rule `prefix...)`.
pub open spec fn call_argument(s: Seq<char>, prefix: Seq<char>) -> Option<Seq<char>> {
    if has_prefix(s, prefix) && has_suffix(s.skip(prefix.len() as int), ")"@) {
        Some(s.skip(prefix.len() as int).drop_last())
    } else {
        None
    }
}

/// The path and path type a match rule names: `PathPrefix(..)`,
/// `PathRegexp(..)` or `Path(..)`, and empty texts otherwise.
pub open spec fn path_of_rule(s: Seq<char>) -> (Seq<char>, Seq<char>) {
    if has_prefix(s, "PathPrefix("@) {
        match call_argument(s, "PathPrefix("@) {
            Some(p) => (p, "PathPrefix"@),
            None => (seq![], seq![]),
        }
    } else if has_prefix(s, "PathRegexp("@) {
        match call_argument(s, "PathRegexp("@) {
            Some(p) => (p, "PathRegexp"@),
            None => (seq![], seq![]),
        }
    } else if has_prefix(s, "Path("@) {
        match call_argument(s, "Path("@) {
            Some(p) => (p, "Path"@),
            None => (seq![], seq![]),
        }
    } else {
        (seq![], seq![])
    }
}

/// The name and pattern of a `PathRegexp(name,pattern)` rule, split at the
/// first comma and trimmed.
pub open spec fn regexp_of_rule(s: Seq<char>) -> Option<(Seq<char>, Seq<char>)> {
    match call_argument(s, "PathRegexp("@) {
        Some(body) => match occurrence_from(body, ","@, 0) {
            Some(i) => Some((trim(body.take(i)), trim(body.skip(i + 1)))),
            None => None,
        },
        None => None,
    }
}

/// Model of a route path configuration.
pub struct RoutePathModel {
    pub path: Seq<char>,
    pub path_type: Seq<char>,
    pub match_rule: Option<Seq<char>>,
    pub path_regexp: Option<(Seq<char>, Seq<char>)>,
}

impl View for IngressRoutePathConfig {
    type V = RoutePathModel;

    open spec fn view(&self) -> RoutePathModel {
        RoutePathModel {
            path: self.path@,
            path_type: self.path_type@,
            match_rule: match self.match_rule {
                Some(m) => Some(m@),
                None => None,
            },
            path_regexp: match self.path_regexp {
                Some(p) => Some((p.name@, p.pattern@)),
                None => None,
            },
        }
    }
}

/// The path configuration of a route whose match rule is `s`.
pub open spec fn rule_path_config(s: Seq<char>) -> RoutePathModel {
    RoutePathModel {
        path: path_of_rule(s).0,
        path_type: path_of_rule(s).1,
        match_rule: Some(s),
        path_regexp: regexp_of_rule(s),
    }
}

/// The path configuration read from one route of an IngressRoute.
pub open spec fn route_path_of(route: Json) -> RoutePathModel {
    match route.member("match"@) {
        Some(Json::Str(s)) => rule_path_config(s),
        _ => RoutePathModel { path: seq![], path_type: seq![], match_rule: None, path_regexp: None },
    }
}

/// The route path configurations of the first `n` routes.
pub open spec fn route_paths(routes: Seq<Json>, n: int) -> Seq<RoutePathModel>
    decreases n,
{
    if n <= 0 || n > routes.len() {
        seq![]
    } else {
        route_paths(routes, n - 1).push(route_path_of(routes[n - 1]))
    }
}

/// The models of route path configurations.
pub open spec fn path_models(v: Seq<IngressRoutePathConfig>) -> Seq<RoutePathModel> {
    v.map_values(|c: IngressRoutePathConfig| c@)
}

/// The entry points of an IngressRoute's data: its string elements when an array, else none.
pub open spec fn entry_points_of(data: Json) -> Seq<Seq<char>> {
    match string_list(member_of(data.member("spec"@), "entryPoints"@)) {
        Some(l) => l,
        None => seq![],
    }
}

/// The routes of an IngressRoute's data: the elements when an array, else none.
pub open spec fn routes_of_data(data: Json) -> Seq<Json> {
    match member_of(data.member("spec"@), "routes"@) {
        Some(Json::Arr(a)) => a,
        _ => seq![],
    }
}


/// The string elements of an array, in order.
fn strings_of(items: &Vec<JsonValue>) -> (r: Vec<String>)
    ensures
        texts(r@) == str_items(items_view(items@, items@.len() as int), items@.len() as int),
{
    let ghost a = items_view(items@, items@.len() as int);
    proof {
        lemma_items_view(items@, items@.len() as int);
    }
    let mut out: Vec<String> = Vec::new();
    let mut i: usize = 0;
    while i < items.len()
        invariant
            a == items_view(items@, items@.len() as int),
            a.len() == items.len(),
            forall|k: int| 0 <= k < items.len() ==> #[trigger] a[k] == items@[k]@,
            i <= items.len(),
            texts(out@) == str_items(a, i as int),
        decreases items.len() - i,
    {
        let ghost before = out@;
        match &items[i] {
            JsonValue::String(s) => {
                out.push(s.clone());
                proof {
                    assert(a[i as int] == Json::Str(s@));
                    assert(texts(out@) =~= texts(before) + seq![s@]);
                }
            },
            _ => {
                proof {
                    assert(str_items(a, i + 1) =~= str_items(a, i as int) + seq![]);
                }
            },
        }
        i = i + 1;
    }
    out
}

/// The string elements of an optional array value.
fn string_list_of(v: Option<&JsonValue>) -> (r: Option<Vec<String>>)
    ensures
        match r {
            Some(l) => string_list(match v { Some(j) => Some(j@), None => None }) == Some(texts(l@)),
            None => string_list(match v { Some(j) => Some(j@), None => None }) is None,
        },
{
    match v {
        Some(JsonValue::Array(a)) => {
            proof {
                lemma_items_view(a@, a@.len() as int);
            }
            Some(strings_of(a))
        },
        _ => None,
    }
}

/// Member `key` of an optional value.
fn member_in<'a>(v: Option<&'a JsonValue>, key: &str) -> (r: Option<&'a JsonValue>)
    ensures
        (match r { Some(j) => Some(j@), None => None }) == member_of(match v { Some(j) => Some(j@), None => None }, key@),
{
    match v {
        Some(j) => j.get(key),
        None => None,
    }
}

/// The argument of a call-like rule `prefix...)`.
fn call_argument_of(s: &Vec<char>, prefix: &str) -> (r: Option<String>)
    ensures
        match r {
            Some(a) => call_argument(s@, prefix@) == Some(a@),
            None => call_argument(s@, prefix@) is None,
        },
{
    let p = chars_of(prefix);
    if !occurs_at_vec(s, &p, 0) {
        return None;
    }
    proof {
        reveal_strlit(")");
    }
    let n = s.len();
    let k = p.len();
    if n > k && s[n - 1] == ')' {
        proof {
            assert(s@.skip(k as int).subrange(s@.skip(k as int).len() - 1, s@.skip(k as int).len() as int) =~= ")"@);
        }
        let a = string_of_range(s, k, n - 1);
        proof {
            assert(s@.skip(k as int).drop_last() =~= s@.subrange(k as int, n - 1));
        }
        Some(a)
    } else {
        proof {
            if n > k {
                assert(s@.skip(k as int).subrange(s@.skip(k as int).len() - 1, s@.skip(k as int).len() as int)[0] == s@[n - 1]);
            }
        }
        None
    }
}

impl IngressRoutePathConfig {
    /// The path configuration of a route whose `match` rule is `rule`: the
    /// rule itself, the path and path type of a `PathPrefix`, `PathRegexp` or
    /// `Path` rule, and the name and pattern of a `PathRegexp` rule.
    pub fn from_match_rule(rule: &str) -> (r: IngressRoutePathConfig)
        ensures
            r@ == rule_path_config(rule@),
    {
        let v = chars_of(rule);
        let mut path = String::new();
        let mut path_type = String::new();
        let pp = chars_of("PathPrefix(");
        let pr = chars_of("PathRegexp(");
        let pa = chars_of("Path(");
        if occurs_at_vec(&v, &pp, 0) {
            match call_argument_of(&v, "PathPrefix(") {
                Some(a) => {
                    path = a;
                    path_type = own("PathPrefix");
                },
                None => {},
            }
        } else if occurs_at_vec(&v, &pr, 0) {
            match call_argument_of(&v, "PathRegexp(") {
                Some(a) => {
                    path = a;
                    path_type = own("PathRegexp");
                },
                None => {},
            }
        } else if occurs_at_vec(&v, &pa, 0) {
            match call_argument_of(&v, "Path(") {
                Some(a) => {
                    path = a;
                    path_type = own("Path");
                },
                None => {},
            }
        }
        let path_regexp = match call_argument_of(&v, "PathRegexp(") {
            Some(body) => {
                let b = chars_of(body.as_str());
                let comma = chars_of(",");
                proof {
                    reveal_strlit(",");
                    lemma_occurrence_from(b@, comma@, 0);
                }
                assert(comma@.len() == 1);
                match find_after(&b, &comma, 0) {
                    Some(i) => {
                        assert(i + 1 <= b.len());
                        let name_part = string_of_range(&b, 0, i);
                        let rest_part = string_of_range(&b, i + 1, b.len());
                        let name = trim_str(name_part.as_str());
                        let pattern = trim_str(rest_part.as_str());
                        proof {
                            assert(b@.take(i as int) =~= b@.subrange(0, i as int));
                            assert(b@.skip(i + 1) =~= b@.subrange(i + 1, b@.len() as int));
                        }
                        Some(PathRegexpConfig { name, pattern })
                    },
                    None => None,
                }
            },
            None => None,
        };
        IngressRoutePathConfig { path, path_type, match_rule: Some(own(rule)), path_regexp }
    }
}

/// Traefik inspector: a Kubernetes client, the namespace to look in (all
/// when absent) and the API groups in use.
pub struct TraefikInspector {
    pub client: kube::Client,
    pub namespace: Option<String>,
    pub middleware_api_group: MiddlewareApiGroup,
    pub ingressroute_api_group: IngressRouteApiGroup,
}

/// The `group/version` label of a Middleware API group.
pub open spec fn group_label(g: MiddlewareApiGroup) -> Seq<char> {
    let group = match g {
        MiddlewareApiGroup::TraefikIoV1Alpha1 => "traefik.io"@,
        MiddlewareApiGroup::TraefikContainousV1Alpha1 => "traefik.containo.us"@,
    };
    group + "/"@ + "v1alpha1"@
}

impl TraefikInspector {
    /// An inspector using the traefik.io groups.
    pub fn new(client: kube::Client, namespace: Option<String>) -> (r: Self)
        ensures
            r.client == client,
            r.namespace == namespace,
            r.middleware_api_group == MiddlewareApiGroup::TraefikIoV1Alpha1,
            r.ingressroute_api_group == IngressRouteApiGroup::TraefikIoV1Alpha1,
    {
        TraefikInspector {
            client,
            namespace,
            middleware_api_group: MiddlewareApiGroup::TraefikIoV1Alpha1,
            ingressroute_api_group: IngressRouteApiGroup::TraefikIoV1Alpha1,
        }
    }

    /// The `group/version` of the Middleware API in use.
    pub fn api_group_used(&self) -> (r: String)
        ensures
            r@ == group_label(self.middleware_api_group),
    {
        let mut r = own(self.middleware_api_group.group());
        push_str(&mut r, "/");
        push_str(&mut r, self.middleware_api_group.version());
        r
    }

    /// The discovery of a Middleware named `name` in `namespace` (empty and
    /// `default` when absent) whose object data is `data`: the ipAllowList
    /// and denyip plugin source ranges its spec declares.
    pub fn parse_middleware(&self, name: Option<String>, namespace: Option<String>, data: &JsonValue) -> (r: MiddlewareDiscovery)
        ensures
            r.name@ == (match name { Some(n) => n@, None => seq![] }),
            r.namespace@ == (match namespace { Some(n) => n@, None => "default"@ }),
            (match r.config.ip_allowlist { Some(c) => Some(texts(c.source_range@)), None => None }) == allow_ranges(data@),
            (match r.config.denyip { Some(c) => Some(texts(c.source_range@)), None => None }) == deny_ranges(data@),
    {
        let name = match name {
            Some(n) => n,
            None => String::new(),
        };
        let namespace = match namespace {
            Some(n) => n,
            None => own("default"),
        };
        let spec = data.get("spec");
        let allow = string_list_of(member_in(member_in(spec, "ipAllowList"), "sourceRange"));
        let deny = string_list_of(member_in(member_in(member_in(spec, "plugin"), "denyip"), "sourceRange"));
        let ip_allowlist = match allow {
            Some(l) => Some(IpAllowListConfig { source_range: l }),
            None => None,
        };
        let denyip = match deny {
            Some(l) => Some(DenyIpConfig { source_range: l }),
            None => None,
        };
        MiddlewareDiscovery { name, namespace, config: MiddlewareConfig { ip_allowlist, denyip } }
    }

    /// The discovery of an IngressRoute named `name` in `namespace` (empty
    /// and `default` when absent) whose object data is `data`: its entry
    /// points and the path configuration of each route.
    pub fn parse_ingress_route(&self, name: Option<String>, namespace: Option<String>, data: &JsonValue) -> (r: IngressRouteDiscovery)
        ensures
            r.name@ == (match name { Some(n) => n@, None => seq![] }),
            r.namespace@ == (match namespace { Some(n) => n@, None => "default"@ }),
            r.config.name@ == r.name@,
            r.config.namespace@ == r.namespace@,
            texts(r.config.entry_points@) == entry_points_of(data@),
            path_models(r.config.routes@) == route_paths(routes_of_data(data@), routes_of_data(data@).len() as int),
    {
        let name = match name {
            Some(n) => n,
            None => String::new(),
        };
        let namespace = match namespace {
            Some(n) => n,
            None => own("default"),
        };
        let spec = data.get("spec");
        let entry_points = match string_list_of(member_in(spec, "entryPoints")) {
            Some(l) => l,
            None => {
                let e: Vec<String> = Vec::new();
                assert(texts(e@) =~= seq![]);
                e
            },
        };
        let mut routes: Vec<IngressRoutePathConfig> = Vec::new();
        match member_in(spec, "routes") {
            Some(JsonValue::Array(items)) => {
                let ghost a = items_view(items@, items@.len() as int);
                proof {
                    lemma_items_view(items@, items@.len() as int);
                }
                let mut i: usize = 0;
                while i < items.len()
                    invariant
                        a == items_view(items@, items@.len() as int),
                        a == routes_of_data(data@),
                        a.len() == items.len(),
                        forall|k: int| 0 <= k < items.len() ==> #[trigger] a[k] == items@[k]@,
                        i <= items.len(),
                        path_models(routes@) == route_paths(a, i as int),
                    decreases items.len() - i,
                {
                    let route = &items[i];
                    let cfg = match route.get("match") {
                        Some(JsonValue::String(m)) => IngressRoutePathConfig::from_match_rule(m.as_str()),
                        _ => {
                            let c = IngressRoutePathConfig::default();
                            assert(c.path@ =~= seq![]);
                            assert(c.path_type@ =~= seq![]);
                            c
                        },
                    };
                    assert(cfg@ == route_path_of(a[i as int]));
                    let ghost before = routes@;
                    routes.push(cfg);
                    proof {
                        assert(path_models(routes@) =~= path_models(before).push(cfg@));
                    }
                    i = i + 1;
                }
            },
            _ => {
                assert(path_models(routes@) =~= seq![]);
            },
        }
        let config = IngressRouteConfig { name: name.clone(), namespace: namespace.clone(), entry_points, routes };
        IngressRouteDiscovery { name, namespace, config }
    }
}

} // verus!
