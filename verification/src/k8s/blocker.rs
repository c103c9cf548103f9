//! Blocking client IPs with Traefik: middleware manifests, the edge deny
//! IngressRoute plan, and what an existing route already blocks.
use vstd::prelude::*;
use crate::json::{Json, JsonValue, JsonNumber, Num, entries_view, items_view, lemma_entries_view,
    lemma_items_view, upsert_json, lemma_member_upsert, str_value, push_entry, push_item, lookup};
use crate::elasticsearch::queries::texts;
use crate::text::{contains, decimal, occurs_at, own, push_str, push_char, replace_char, replace_chars,
    str_contains, u64_text, trim, trim_str, chars_of, string_of_range, occurrence_from,
    lemma_occurrence_from, find_after, seq_less, str_less, str_eq, lemma_seq_less_total,
    lemma_seq_less_transitive};

verus! {

/// Traefik Middleware API group and version variants.
#[derive(Debug, Clone, Copy, PartialEq, Eq, Structural)]
pub enum TraefikMiddlewareApiGroup {
    /// Preferred: traefik.io/v1alpha1
    TraefikIoV1Alpha1,
    /// Fallback: traefik.containo.us/v1alpha1
    TraefikContainousV1Alpha1,
}

impl TraefikMiddlewareApiGroup {
    /// The API group.
    pub fn group(&self) -> (r: &'static str)
        ensures
            r@ == (match self {
                TraefikMiddlewareApiGroup::TraefikIoV1Alpha1 => "traefik.io"@,
                TraefikMiddlewareApiGroup::TraefikContainousV1Alpha1 => "traefik.containo.us"@,
            }),
    {
        match self {
            TraefikMiddlewareApiGroup::TraefikIoV1Alpha1 => "traefik.io",
            TraefikMiddlewareApiGroup::TraefikContainousV1Alpha1 => "traefik.containo.us",
        }
    }

    /// The API version.
    pub fn version(&self) -> (r: &'static str)
        ensures
            r@ == "v1alpha1"@,
    {
        "v1alpha1"
    }

    /// The Middleware CRD name.
    pub fn crd_name(&self) -> (r: &'static str)
        ensures
            r@ == (match self {
                TraefikMiddlewareApiGroup::TraefikIoV1Alpha1 => "middlewares.traefik.io"@,
                TraefikMiddlewareApiGroup::TraefikContainousV1Alpha1 => "middlewares.traefik.containo.us"@,
            }),
    {
        match self {
            TraefikMiddlewareApiGroup::TraefikIoV1Alpha1 => "middlewares.traefik.io",
            TraefikMiddlewareApiGroup::TraefikContainousV1Alpha1 => "middlewares.traefik.containo.us",
        }
    }

    /// The IngressRoute CRD name in the same group.
    pub fn ingressroute_crd_name(&self) -> (r: &'static str)
        ensures
            r@ == (match self {
                TraefikMiddlewareApiGroup::TraefikIoV1Alpha1 => "ingressroutes.traefik.io"@,
                TraefikMiddlewareApiGroup::TraefikContainousV1Alpha1 => "ingressroutes.traefik.containo.us"@,
            }),
    {
        match self {
            TraefikMiddlewareApiGroup::TraefikIoV1Alpha1 => "ingressroutes.traefik.io",
            TraefikMiddlewareApiGroup::TraefikContainousV1Alpha1 => "ingressroutes.traefik.containo.us",
        }
    }
}

/// Blocker errors.
#[derive(Debug, Clone, PartialEq, Eq)]
pub enum BlockerError {
    /// RBAC permission denied.
    RbacPermissionDenied(String),
    /// Resource conflict (409).
    ResourceConflict(String),
    /// CRD not found.
    CrdNotFound(String),
    /// API version deprecated or not available.
    ApiVersionDeprecated(String),
    /// Kubernetes API connection failure.
    ConnectionFailed(String),
    /// Any other failure.
    Generic(String),
}

/// Model of a blocker error: its kind and message.
pub enum BlockerFault {
    RbacPermissionDenied(Seq<char>),
    ResourceConflict(Seq<char>),
    CrdNotFound(Seq<char>),
    ApiVersionDeprecated(Seq<char>),
    ConnectionFailed(Seq<char>),
    Generic(Seq<char>),
}

impl View for BlockerError {
    type V = BlockerFault;

    open spec fn view(&self) -> BlockerFault {
        match self {
            BlockerError::RbacPermissionDenied(m) => BlockerFault::RbacPermissionDenied(m@),
            BlockerError::ResourceConflict(m) => BlockerFault::ResourceConflict(m@),
            BlockerError::CrdNotFound(m) => BlockerFault::CrdNotFound(m@),
            BlockerError::ApiVersionDeprecated(m) => BlockerFault::ApiVersionDeprecated(m@),
            BlockerError::ConnectionFailed(m) => BlockerFault::ConnectionFailed(m@),
            BlockerError::Generic(m) => BlockerFault::Generic(m@),
        }
    }
}

/// The message a blocker error displays.
pub open spec fn blocker_error_text(e: BlockerFault) -> Seq<char> {
    match e {
        BlockerFault::RbacPermissionDenied(m) => "RBAC permission denied: "@ + m,
        BlockerFault::ResourceConflict(m) => "Resource conflict: "@ + m,
        BlockerFault::CrdNotFound(m) => "CRD not found: "@ + m,
        BlockerFault::ApiVersionDeprecated(m) => "API version deprecated or not available: "@ + m,
        BlockerFault::ConnectionFailed(m) => "K8s API connection failed: "@ + m,
        BlockerFault::Generic(m) => "Blocker error: "@ + m,
    }
}

/// A failed Kubernetes API call as the blocker reads it: an API error
/// response with its HTTP code and message, or any other failure with its
/// debug rendering.
#[derive(Debug, Clone)]
pub enum KubeFailure {
    Api { code: u16, message: String },
    Other(String),
}

/// The blocker error for a failed operation.
pub open spec fn kube_fault(err: KubeFailure, op: Seq<char>) -> BlockerFault {
    match err {
        KubeFailure::Api { code, message } => {
            let m = message@;
            if code == 403 {
                BlockerFault::RbacPermissionDenied(op + " failed: "@ + m)
            } else if code == 404 {
                if contains(m, "customresourcedefinitions"@) || contains(m, "middlewares.traefik"@) {
                    BlockerFault::CrdNotFound(m)
                } else {
                    BlockerFault::Generic(op + " failed: resource not found - "@ + m)
                }
            } else if code == 409 {
                BlockerFault::ResourceConflict(op + " failed: "@ + m)
            } else if code == 410 {
                BlockerFault::ApiVersionDeprecated(op + " failed: "@ + m)
            } else {
                BlockerFault::Generic(op + " failed with HTTP "@ + decimal(code as nat) + ": "@ + m)
            }
        },
        KubeFailure::Other(d) => BlockerFault::ConnectionFailed(op + " failed: "@ + d@),
    }
}

fn join2(a: &str, b: &str) -> (r: String)
    ensures
        r@ == a@ + b@,
{
    let mut r = String::new();
    push_str(&mut r, a);
    push_str(&mut r, b);
    r
}

fn join3(a: &str, b: &str, c: &str) -> (r: String)
    ensures
        r@ == a@ + b@ + c@,
{
    let mut r = String::new();
    push_str(&mut r, a);
    push_str(&mut r, b);
    push_str(&mut r, c);
    r
}

impl BlockerError {
    /// The error's message.
    pub fn to_string(&self) -> (r: String)
        ensures
            r@ == blocker_error_text(self@),
    {
        match self {
            BlockerError::RbacPermissionDenied(m) => join2("RBAC permission denied: ", m.as_str()),
            BlockerError::ResourceConflict(m) => join2("Resource conflict: ", m.as_str()),
            BlockerError::CrdNotFound(m) => join2("CRD not found: ", m.as_str()),
            BlockerError::ApiVersionDeprecated(m) => join2(
                "API version deprecated or not available: ",
                m.as_str(),
            ),
            BlockerError::ConnectionFailed(m) => join2("K8s API connection failed: ", m.as_str()),
            BlockerError::Generic(m) => join2("Blocker error: ", m.as_str()),
        }
    }

    /// The blocker error for a failed Kubernetes `operation`, by HTTP code:
    /// 403 permission, 404 missing CRD or resource, 409 conflict, 410
    /// deprecated API, any other code generic; a non-API failure is a
    /// connection failure.
    pub fn from_kube_error(err: &KubeFailure, operation: &str) -> (r: BlockerError)
        ensures
            r@ == kube_fault(*err, operation@),
    {
        match err {
            KubeFailure::Api { code, message } => {
                let m = message.as_str();
                if *code == 403 {
                    BlockerError::RbacPermissionDenied(join3(operation, " failed: ", m))
                } else if *code == 404 {
                    if str_contains(m, "customresourcedefinitions") || str_contains(m, "middlewares.traefik") {
                        BlockerError::CrdNotFound(message.clone())
                    } else {
                        BlockerError::Generic(join3(operation, " failed: resource not found - ", m))
                    }
                } else if *code == 409 {
                    BlockerError::ResourceConflict(join3(operation, " failed: ", m))
                } else if *code == 410 {
                    BlockerError::ApiVersionDeprecated(join3(operation, " failed: ", m))
                } else {
                    let d = u64_text(*code as u64);
                    let mut s = join3(operation, " failed with HTTP ", d.as_str());
                    push_str(&mut s, ": ");
                    push_str(&mut s, m);
                    BlockerError::Generic(s)
                }
            },
            KubeFailure::Other(d) => BlockerError::ConnectionFailed(join3(operation, " failed: ", d.as_str())),
        }
    }
}

/// Whether a failed call was a resource conflict (HTTP 409).
pub fn is_kube_conflict(err: &KubeFailure) -> (r: bool)
    ensures
        r == (err matches KubeFailure::Api { code, .. } && code == 409),
{
    match err {
        KubeFailure::Api { code, .. } => *code == 409,
        _ => false,
    }
}

/// IP deny list configuration.
#[derive(Debug, Clone, PartialEq, Eq)]
pub struct IpDenyListConfig {
    pub ips: Vec<String>,
}

impl Default for IpDenyListConfig {
    fn default() -> (r: Self)
        ensures
            r.ips@.len() == 0,
    {
        IpDenyListConfig { ips: Vec::new() }
    }
}

/// DenyIP plugin block configuration.
#[derive(Debug, Clone, PartialEq, Eq)]
pub struct DenyIpBlockConfig {
    pub ip_deny_list: Option<IpDenyListConfig>,
}

impl Default for DenyIpBlockConfig {
    fn default() -> (r: Self)
        ensures
            r.ip_deny_list is None,
    {
        DenyIpBlockConfig { ip_deny_list: None }
    }
}

/// Middleware block configuration.
#[derive(Debug, Clone, PartialEq, Eq)]
pub struct MiddlewareBlockConfig {
    pub plugin: Option<PluginBlockConfig>,
}

impl Default for MiddlewareBlockConfig {
    fn default() -> (r: Self)
        ensures
            r.plugin is None,
    {
        MiddlewareBlockConfig { plugin: None }
    }
}

/// Plugin part of a middleware block configuration.
#[derive(Debug, Clone, PartialEq, Eq)]
pub struct PluginBlockConfig {
    pub denyip: Option<DenyIpBlockConfig>,
}

impl Default for PluginBlockConfig {
    fn default() -> (r: Self)
        ensures
            r.denyip is None,
    {
        PluginBlockConfig { denyip: None }
    }
}

/// The address family of a parsed IP address.
#[derive(Debug, Clone, Copy, PartialEq, Eq, Structural)]
pub enum IpFamily {
    V4,
    V6,
}

/// The name of the middleware that blocks `ip`.
pub open spec fn middleware_name_for(ip: Seq<char>) -> Seq<char> {
    "denyip-block-"@ + replace_char(ip, '.', '-')
}

/// The single-address CIDR for an address of the given family; an address
/// that did not parse is refused.
pub open spec fn cidr_for(ip: Seq<char>, family: Option<IpFamily>) -> Result<Seq<char>, BlockerFault> {
    match family {
        Some(IpFamily::V4) => Ok(ip + "/32"@),
        Some(IpFamily::V6) => Ok(ip + "/128"@),
        None => Err(BlockerFault::Generic("Invalid IP address: "@ + ip)),
    }
}

/// The Traefik `ClientIP` matcher for a CIDR.
pub open spec fn client_ip_rule(cidr: Seq<char>) -> Seq<char> {
    "ClientIP(`"@ + cidr + "`)"@
}

/// The spec of a middleware that denies `ip` through the denyip plugin.
pub open spec fn deny_spec(ip: Seq<char>) -> Json {
    Json::Obj(seq![("plugin"@, Json::Obj(seq![("denyip"@, Json::Obj(seq![("ipDenyList"@, Json::Obj(seq![("ips"@, Json::Arr(seq![Json::Str(ip)]))]))]))]))])
}

/// The full Middleware manifest blocking `ip`.
pub open spec fn middleware_manifest_of(group: Seq<char>, name: Seq<char>, namespace: Seq<char>, ip: Seq<char>) -> Json {
    Json::Obj(seq![
        ("apiVersion"@, Json::Str(group + "/"@ + "v1alpha1"@)),
        ("kind"@, Json::Str("Middleware"@)),
        ("metadata"@, Json::Obj(seq![("name"@, Json::Str(name)), ("namespace"@, Json::Str(namespace))])),
        ("spec"@, deny_spec(ip)),
    ])
}

/// Traefik blocker: a Kubernetes client, the namespace it works in and the
/// Middleware API group in use.
pub struct TraefikBlocker {
    pub client: kube::Client,
    pub namespace: String,
    pub middleware_api_group: TraefikMiddlewareApiGroup,
}

fn single_entry(key: &str, v: JsonValue) -> (r: JsonValue)
    ensures
        r@ == Json::Obj(seq![(key@, v@)]),
{
    let mut m: Vec<(String, JsonValue)> = Vec::new();
    push_entry(&mut m, key, v);
    proof {
        assert(entries_view(m@, m@.len() as int) =~= seq![(key@, v@)]);
    }
    JsonValue::Object(m)
}

impl TraefikBlocker {
    /// A blocker for `namespace`, using the traefik.io Middleware group.
    pub fn new(client: kube::Client, namespace: String) -> (r: Self)
        ensures
            r.client == client,
            r.namespace == namespace,
            r.middleware_api_group == TraefikMiddlewareApiGroup::TraefikIoV1Alpha1,
    {
        TraefikBlocker { client, namespace, middleware_api_group: TraefikMiddlewareApiGroup::TraefikIoV1Alpha1 }
    }

    /// The middleware name for an IP: `denyip-block-` and the IP with dots as dashes.
    pub fn generate_middleware_name(ip: &str) -> (r: String)
        ensures
            r@ == middleware_name_for(ip@),
    {
        let mut r = own("denyip-block-");
        let d = replace_chars(ip, '.', '-');
        push_str(&mut r, d.as_str());
        r
    }

    /// The middleware name to use: the one given, else the generated one.
    pub fn middleware_name(ip: &str, middleware_name: Option<&str>) -> (r: String)
        ensures
            r@ == (match middleware_name {
                Some(n) => n@,
                None => middleware_name_for(ip@),
            }),
    {
        match middleware_name {
            Some(n) => own(n),
            None => Self::generate_middleware_name(ip),
        }
    }

    /// The single-address CIDR for `ip`, whose family is what parsing it as
    /// an IP address gave (`None` when it is not one).
    pub fn cidr_for_ip(ip: &str, family: Option<IpFamily>) -> (r: Result<String, BlockerError>)
        ensures
            match r {
                Ok(c) => cidr_for(ip@, family) == Ok::<Seq<char>, BlockerFault>(c@),
                Err(e) => cidr_for(ip@, family) == Err::<Seq<char>, BlockerFault>(e@),
            },
    {
        match family {
            Some(IpFamily::V4) => Ok(join2(ip, "/32")),
            Some(IpFamily::V6) => Ok(join2(ip, "/128")),
            None => Err(BlockerError::Generic(join2("Invalid IP address: ", ip))),
        }
    }

    /// The `ClientIP` matcher rule for a CIDR.
    pub fn client_ip_rule(cidr: &str) -> (r: String)
        ensures
            r@ == client_ip_rule(cidr@),
    {
        join3("ClientIP(`", cidr, "`)")
    }

    /// The Middleware manifest that blocks `ip` under the name `name` in this
    /// blocker's namespace and API group.
    pub fn middleware_manifest(&self, ip: &str, name: &str) -> (r: JsonValue)
        ensures
            r@ == middleware_manifest_of(
                match self.middleware_api_group {
                    TraefikMiddlewareApiGroup::TraefikIoV1Alpha1 => "traefik.io"@,
                    TraefikMiddlewareApiGroup::TraefikContainousV1Alpha1 => "traefik.containo.us"@,
                },
                name@,
                self.namespace@,
                ip@,
            ),
    {
        let mut ips: Vec<JsonValue> = Vec::new();
        push_item(&mut ips, str_value(ip));
        let deny_list = single_entry("ips", JsonValue::Array(ips));
        let denyip = single_entry("ipDenyList", deny_list);
        let plugin = single_entry("denyip", denyip);
        let spec = single_entry("plugin", plugin);
        proof {
            assert(items_view(ips@, ips@.len() as int) =~= seq![Json::Str(ip@)]);
        }
        assert(spec@ == deny_spec(ip@));
        let mut meta: Vec<(String, JsonValue)> = Vec::new();
        push_entry(&mut meta, "name", str_value(name));
        push_entry(&mut meta, "namespace", str_value(self.namespace.as_str()));
        let mut m: Vec<(String, JsonValue)> = Vec::new();
        let api_version = join3(self.middleware_api_group.group(), "/", self.middleware_api_group.version());
        push_entry(&mut m, "apiVersion", JsonValue::String(api_version));
        push_entry(&mut m, "kind", str_value("Middleware"));
        push_entry(&mut m, "metadata", JsonValue::Object(meta));
        push_entry(&mut m, "spec", spec);
        proof {
            assert(entries_view(meta@, meta@.len() as int) =~= seq![("name"@, Json::Str(name@)), ("namespace"@, Json::Str(self.namespace@))]);
        }
        proof {
            let g = match self.middleware_api_group {
                TraefikMiddlewareApiGroup::TraefikIoV1Alpha1 => "traefik.io"@,
                TraefikMiddlewareApiGroup::TraefikContainousV1Alpha1 => "traefik.containo.us"@,
            };
            assert(entries_view(m@, m@.len() as int) =~= seq![
                ("apiVersion"@, Json::Str(g + "/"@ + "v1alpha1"@)),
                ("kind"@, Json::Str("Middleware"@)),
                ("metadata"@, Json::Obj(seq![("name"@, Json::Str(name@)), ("namespace"@, Json::Str(self.namespace@))])),
                ("spec"@, deny_spec(ip@)),
            ]);
        }
        let r = JsonValue::Object(m);
        r
    }
}


/// The trimmed, non-empty texts between matching quotes (`` ` ``, `"` or `'`)
/// of `s`, scanning with `quote` open and `current` read since it opened.
pub open spec fn quoted_from(s: Seq<char>, quote: Option<char>, current: Seq<char>) -> Seq<Seq<char>>
    decreases s.len(),
{
    if s.len() == 0 {
        seq![]
    } else {
        let ch = s[0];
        let rest = s.drop_first();
        match quote {
            Some(q) => if ch == q {
                let v = trim(current);
                (if v.len() > 0 {
                    seq![v]
                } else {
                    seq![]
                }) + quoted_from(rest, None, seq![])
            } else {
                quoted_from(rest, Some(q), current.push(ch))
            },
            None => if ch == '`' || ch == '"' || ch == '\'' {
                quoted_from(rest, Some(ch), current)
            } else {
                quoted_from(rest, None, current)
            },
        }
    }
}

/// The quoted arguments of a matcher's argument text.
pub open spec fn quoted_args(s: Seq<char>) -> Seq<Seq<char>> {
    quoted_from(s, None, seq![])
}

/// The quoted arguments of every `ClientIP(...)` matcher of `s` from position `pos` on.
pub open spec fn client_ip_values_from(s: Seq<char>, pos: int) -> Seq<Seq<char>>
    decreases s.len() + 1 - pos,
{
    if pos < 0 || pos > s.len() {
        seq![]
    } else {
        match occurrence_from(s, "ClientIP("@, pos) {
            None => seq![],
            Some(i) => {
                let a = i + "ClientIP("@.len();
                match occurrence_from(s, ")"@, a) {
                    None => seq![],
                    Some(e) => {
                        proof {
                            lemma_occurrence_from(s, "ClientIP("@, pos);
                            lemma_occurrence_from(s, ")"@, a);
                        }
                        quoted_args(s.subrange(a, e)) + client_ip_values_from(s, e + 1)
                    },
                }
            },
        }
    }
}

/// The values of all `ClientIP(...)` matchers of a rule.
pub open spec fn client_ip_values(s: Seq<char>) -> Seq<Seq<char>> {
    client_ip_values_from(s, 0)
}

/// The trimmed, non-empty quoted arguments of a matcher's argument text.
pub fn extract_quoted_match_args(args: &str) -> (r: Vec<String>)
    ensures
        texts(r@) == quoted_args(args@),
{
    let v = chars_of(args);
    let mut values: Vec<String> = Vec::new();
    let mut current = String::new();
    let mut quote: Option<char> = None;
    let mut i: usize = 0;
    assert(v@.skip(0) =~= v@);
    assert(texts(values@) + quoted_args(v@) =~= quoted_args(v@));
    while i < v.len()
        invariant
            v@ == args@,
            i <= v.len(),
            texts(values@) + quoted_from(v@.skip(i as int), quote, current@) == quoted_args(v@),
        decreases v.len() - i,
    {
        let ch = v[i];
        let ghost rest = v@.skip(i as int);
        proof {
            assert(rest.drop_first() =~= v@.skip(i + 1));
            assert(rest[0] == ch);
        }
        match quote {
            Some(q) => {
                if ch == q {
                    let value = trim_str(current.as_str());
                    let ghost before = values@;
                    if value.as_str().unicode_len() > 0 {
                        values.push(value);
                        proof {
                            assert(texts(values@) =~= texts(before) + seq![trim(current@)]);
                        }
                    } else {
                        proof {
                            assert(seq![] + quoted_from(v@.skip(i + 1), None, seq![]) =~= quoted_from(v@.skip(i + 1), None, seq![]));
                        }
                    }
                    current = String::new();
                    quote = None;
                } else {
                    push_char(&mut current, ch);
                }
            },
            None => {
                if ch == '`' || ch == '"' || ch == '\'' {
                    quote = Some(ch);
                }
            },
        }
        i = i + 1;
    }
    proof {
        assert(texts(values@) + quoted_from(v@.skip(i as int), quote, current@) =~= texts(values@));
    }
    values
}

/// The values of all `ClientIP(...)` matchers of a Traefik rule, in order.
pub fn extract_client_ip_match_values(rule: &str) -> (r: Vec<String>)
    ensures
        texts(r@) == client_ip_values(rule@),
{
    let v = chars_of(rule);
    let pat = chars_of("ClientIP(");
    let close = chars_of(")");
    let mut values: Vec<String> = Vec::new();
    let mut pos: usize = 0;
    proof {
        reveal_strlit(")");
        reveal_strlit("ClientIP(");
    }
    assert(texts(values@) + client_ip_values(v@) =~= client_ip_values(v@));
    loop
        invariant
            v@ == rule@,
            pat@ == "ClientIP("@,
            close@ == ")"@,
            close@.len() == 1,
            pos <= v.len(),
            texts(values@) + client_ip_values_from(v@, pos as int) == client_ip_values(v@),
        ensures
            texts(values@) == client_ip_values(rule@),
        decreases v.len() + 1 - pos,
    {
        proof {
            lemma_occurrence_from(v@, pat@, pos as int);
        }
        let start = find_after(&v, &pat, pos);
        match start {
            None => {
                assert(texts(values@) + client_ip_values_from(v@, pos as int) =~= texts(values@));
                break;
            },
            Some(i) => {
                let a = i + pat.len();
                proof {
                    lemma_occurrence_from(v@, close@, a as int);
                }
                let end = find_after(&v, &close, a);
                match end {
                    None => {
                        assert(texts(values@) + client_ip_values_from(v@, pos as int) =~= texts(values@));
                        break;
                    },
                    Some(e) => {
                        let args = string_of_range(&v, a, e);
                        let mut q = extract_quoted_match_args(args.as_str());
                        let ghost before = values@;
                        let ghost qv = q@;
                        values.append(&mut q);
                        proof {
                            assert(texts(values@) =~= texts(before) + texts(qv));
                            assert(texts(values@) + client_ip_values_from(v@, e + 1) =~= texts(before)
                                + client_ip_values_from(v@, pos as int));
                        }
                        pos = e + 1;
                    },
                }
            },
        }
    }
    values
}


/// The text of a route's `match` member; empty when absent or not a string.
pub open spec fn route_match_text(r: Json) -> Seq<char> {
    match r.member("match"@) {
        Some(Json::Str(s)) => s,
        _ => seq![],
    }
}

/// The service list of the edge deny route.
pub open spec fn services_json(svc: Seq<char>, port: u16) -> Json {
    Json::Arr(seq![Json::Obj(seq![("name"@, Json::Str(svc)), ("port"@, Json::Num(Num::PosInt(port as u64)))])])
}

/// The route added to an edge IngressRoute that has none.
pub open spec fn new_edge_route(rule: Seq<char>, svc: Seq<char>, port: u16) -> Json {
    Json::Obj(seq![
        ("kind"@, Json::Str("Rule"@)),
        ("match"@, Json::Str(rule)),
        ("priority"@, Json::Num(Num::PosInt(100001))),
        ("services"@, services_json(svc, port)),
    ])
}

/// A route whose `match` covers `rule`: unchanged when it already contains
/// it, else `rule` alone (blank match) or appended with `||`.
pub open spec fn matched_route(r: Json, rule: Seq<char>) -> Json {
    let m = route_match_text(r);
    if contains(m, rule) {
        r
    } else {
        upsert_json(
            r,
            "match"@,
            Json::Str(
                if trim(m).len() == 0 {
                    rule
                } else {
                    m + " || "@ + rule
                },
            ),
        )
    }
}

/// `r` with member `key` set to `v` when it has none.
pub open spec fn filled(r: Json, key: Seq<char>, v: Json) -> Json {
    if r.member(key) is None {
        upsert_json(r, key, v)
    } else {
        r
    }
}

/// The first route after the edge block: its match covers `rule`, and a
/// missing kind, priority or service list is filled in.
pub open spec fn updated_first_route(r: Json, rule: Seq<char>, svc: Seq<char>, port: u16) -> Json {
    filled(
        filled(
            filled(matched_route(r, rule), "kind"@, Json::Str("Rule"@)),
            "priority"@,
            Json::Num(Num::PosInt(100001)),
        ),
        "services"@,
        services_json(svc, port),
    )
}

/// Whether the first route needs a change for `rule`.
pub open spec fn first_route_changed(r: Json, rule: Seq<char>) -> bool {
    ||| !contains(route_match_text(r), rule)
    ||| r.member("kind"@) is None
    ||| r.member("priority"@) is None
    ||| r.member("services"@) is None
}

/// The routes of the edge deny IngressRoute after blocking `rule`.
pub open spec fn edge_routes(routes: Seq<Json>, rule: Seq<char>, svc: Seq<char>, port: u16) -> Seq<Json> {
    if routes.len() == 0 {
        seq![new_edge_route(rule, svc, port)]
    } else {
        routes.update(0, updated_first_route(routes[0], rule, svc, port))
    }
}

/// Whether blocking `rule` changes the routes.
pub open spec fn edge_changed(routes: Seq<Json>, rule: Seq<char>) -> bool {
    routes.len() == 0 || first_route_changed(routes[0], rule)
}

/// Routes that can be updated: none, or a first route that is an object or `null`.
pub open spec fn edge_routes_ok(routes: Seq<Json>) -> bool {
    routes.len() == 0 || routes[0] is Obj || routes[0] is Null
}

/// Some route's match contains `rule`.
pub open spec fn routes_block(routes: Seq<Json>, rule: Seq<char>) -> bool {
    exists|i: int| 0 <= i < routes.len() && contains(route_match_text(#[trigger] routes[i]), rule)
}

/// The spec of an IngressRoute object's data; an empty object when absent.
pub open spec fn current_spec(data: Json) -> Json {
    match data.member("spec"@) {
        Some(s) => s,
        None => Json::Obj(seq![]),
    }
}

/// The routes of an IngressRoute object's data; none unless an array.
pub open spec fn current_routes(data: Json) -> Seq<Json> {
    match current_spec(data).member("routes"@) {
        Some(Json::Arr(a)) => a,
        _ => seq![],
    }
}

/// The entry points of an IngressRoute object's data; `websecure` when absent.
pub open spec fn current_entry_points(data: Json) -> Json {
    match current_spec(data).member("entryPoints"@) {
        Some(e) => e,
        None => Json::Arr(seq![Json::Str("websecure"@)]),
    }
}

/// The merge patch that blocks `rule` at the edge, carrying the resource
/// version when known; none when the routes already block it.
pub open spec fn edge_patch(data: Json, rv: Option<Seq<char>>, rule: Seq<char>, svc: Seq<char>, port: u16) -> Option<Json> {
    let routes = current_routes(data);
    if !edge_changed(routes, rule) {
        None
    } else {
        let spec = Json::Obj(seq![
            ("entryPoints"@, current_entry_points(data)),
            ("routes"@, Json::Arr(edge_routes(routes, rule, svc, port))),
        ]);
        Some(Json::Obj(seq![("spec"@, spec)] + match rv {
            Some(v) => seq![("metadata"@, Json::Obj(seq![("resourceVersion"@, Json::Str(v))]))],
            None => seq![],
        }))
    }
}

proof fn lemma_route_keys_distinct()
    ensures
        "match"@ != "kind"@,
        "match"@ != "priority"@,
        "match"@ != "services"@,
        "kind"@ != "priority"@,
        "kind"@ != "services"@,
        "priority"@ != "services"@,
{
    reveal_strlit("match");
    reveal_strlit("kind");
    reveal_strlit("priority");
    reveal_strlit("services");
    assert("match"@[0] != "kind"@[0]);
    assert("match"@[0] != "priority"@[0]);
    assert("match"@[0] != "services"@[0]);
    assert("kind"@[0] != "priority"@[0]);
    assert("kind"@[0] != "services"@[0]);
    assert("priority"@[0] != "services"@[0]);
}

/// `s` contains itself, and `m || s` contains `s`.
proof fn lemma_contains_rule(m: Seq<char>, rule: Seq<char>)
    ensures
        contains(rule, rule),
        contains(m + " || "@ + rule, rule),
{
    assert(occurs_at(rule, rule, 0)) by {
        assert(rule.subrange(0, rule.len() as int) =~= rule);
    }
    let t = m + " || "@ + rule;
    let k: int = (m.len() + " || "@.len()) as int;
    assert(occurs_at(t, rule, k)) by {
        assert(t.subrange(k, k + rule.len()) =~= rule);
    }
}

/// What the updated first route holds: a match covering `rule`, and a kind,
/// priority and service list.
proof fn lemma_updated_route(r: Json, rule: Seq<char>, svc: Seq<char>, port: u16)
    requires
        r is Obj || r is Null,
    ensures
        contains(route_match_text(updated_first_route(r, rule, svc, port)), rule),
        updated_first_route(r, rule, svc, port).member("kind"@) is Some,
        updated_first_route(r, rule, svc, port).member("priority"@) is Some,
        updated_first_route(r, rule, svc, port).member("services"@) is Some,
        updated_first_route(r, rule, svc, port) is Obj,
        route_match_text(updated_first_route(r, rule, svc, port)) == (if contains(route_match_text(r), rule) {
            route_match_text(r)
        } else if trim(route_match_text(r)).len() == 0 {
            rule
        } else {
            route_match_text(r) + " || "@ + rule
        }),
{
    lemma_route_keys_distinct();
    let m = route_match_text(r);
    let r1 = matched_route(r, rule);
    lemma_contains_rule(m, rule);
    if !contains(m, rule) {
        let next = if trim(m).len() == 0 {
            rule
        } else {
            m + " || "@ + rule
        };
        lemma_member_upsert(r, "match"@, Json::Str(next), "match"@);
    }
    assert(r1 is Obj || r1 is Null);
    assert(contains(route_match_text(r1), rule));
    let r2 = filled(r1, "kind"@, Json::Str("Rule"@));
    lemma_member_upsert(r1, "kind"@, Json::Str("Rule"@), "kind"@);
    lemma_member_upsert(r1, "kind"@, Json::Str("Rule"@), "match"@);
    assert(r2 is Obj || r2 is Null);
    let r3 = filled(r2, "priority"@, Json::Num(Num::PosInt(100001)));
    lemma_member_upsert(r2, "priority"@, Json::Num(Num::PosInt(100001)), "priority"@);
    lemma_member_upsert(r2, "priority"@, Json::Num(Num::PosInt(100001)), "match"@);
    lemma_member_upsert(r2, "priority"@, Json::Num(Num::PosInt(100001)), "kind"@);
    assert(r3 is Obj || r3 is Null);
    let r4 = filled(r3, "services"@, services_json(svc, port));
    lemma_member_upsert(r3, "services"@, services_json(svc, port), "services"@);
    lemma_member_upsert(r3, "services"@, services_json(svc, port), "match"@);
    lemma_member_upsert(r3, "services"@, services_json(svc, port), "kind"@);
    lemma_member_upsert(r3, "services"@, services_json(svc, port), "priority"@);
    if r3 is Null {
        assert(r3.member("services"@) is None);
    }
}

/// The first route's match after blocking `rule`: unchanged when it already
/// holds the rule, the rule alone when blank, else `m || rule`.
pub open spec fn merged_match(m: Seq<char>, rule: Seq<char>) -> Seq<char> {
    if contains(m, rule) {
        m
    } else if trim(m).len() == 0 {
        rule
    } else {
        m + " || "@ + rule
    }
}

/// Member `k` of the first route after blocking `rule`: the match as
/// merged, a missing kind, priority or service list filled in, and every
/// other member as it was.
pub open spec fn merged_member(r: Json, k: Seq<char>, rule: Seq<char>, svc: Seq<char>, port: u16) -> Option<Json> {
    if k == "match"@ {
        if contains(route_match_text(r), rule) {
            r.member(k)
        } else {
            Some(Json::Str(merged_match(route_match_text(r), rule)))
        }
    } else if k == "kind"@ {
        if r.member(k) is None {
            Some(Json::Str("Rule"@))
        } else {
            r.member(k)
        }
    } else if k == "priority"@ {
        if r.member(k) is None {
            Some(Json::Num(Num::PosInt(100001)))
        } else {
            r.member(k)
        }
    } else if k == "services"@ {
        if r.member(k) is None {
            Some(services_json(svc, port))
        } else {
            r.member(k)
        }
    } else {
        r.member(k)
    }
}

/// Each member of the updated first route is the merged one.
proof fn lemma_updated_route_member(r: Json, rule: Seq<char>, svc: Seq<char>, port: u16, k: Seq<char>)
    requires
        r is Obj || r is Null,
    ensures
        updated_first_route(r, rule, svc, port).member(k) == merged_member(r, k, rule, svc, port),
{
    lemma_route_keys_distinct();
    let m = route_match_text(r);
    let r1 = matched_route(r, rule);
    if !contains(m, rule) {
        lemma_member_upsert(r, "match"@, Json::Str(merged_match(m, rule)), k);
        lemma_member_upsert(r, "match"@, Json::Str(merged_match(m, rule)), "kind"@);
        lemma_member_upsert(r, "match"@, Json::Str(merged_match(m, rule)), "priority"@);
        lemma_member_upsert(r, "match"@, Json::Str(merged_match(m, rule)), "services"@);
    }
    assert(r1 is Obj || r1 is Null);
    let r2 = filled(r1, "kind"@, Json::Str("Rule"@));
    lemma_member_upsert(r1, "kind"@, Json::Str("Rule"@), k);
    lemma_member_upsert(r1, "kind"@, Json::Str("Rule"@), "priority"@);
    lemma_member_upsert(r1, "kind"@, Json::Str("Rule"@), "services"@);
    assert(r2 is Obj || r2 is Null);
    let r3 = filled(r2, "priority"@, Json::Num(Num::PosInt(100001)));
    lemma_member_upsert(r2, "priority"@, Json::Num(Num::PosInt(100001)), k);
    lemma_member_upsert(r2, "priority"@, Json::Num(Num::PosInt(100001)), "services"@);
    assert(r3 is Obj || r3 is Null);
    lemma_member_upsert(r3, "services"@, services_json(svc, port), k);
}

/// The edge-block merge, for any routes and service: with no routes the
/// routes become the one deny route (kind `Rule`, the rule as match,
/// priority 100001, the given service and port); otherwise the first route's
/// match becomes `merged_match` of it, a missing kind, priority or service
/// list is filled in, its other members and every later route stay as they
/// were; and a patch is sent exactly when this changes something.
pub proof fn law_edge_block_merge(data: Json, rv: Option<Seq<char>>, rule: Seq<char>, svc: Seq<char>, port: u16)
    requires
        edge_routes_ok(current_routes(data)),
    ensures
        edge_patch(data, rv, rule, svc, port) is None <==> !edge_changed(current_routes(data), rule),
        current_routes(data).len() == 0 ==> edge_routes(current_routes(data), rule, svc, port) == seq![
            new_edge_route(rule, svc, port),
        ],
        current_routes(data).len() > 0 ==> edge_routes(current_routes(data), rule, svc, port).len()
            == current_routes(data).len(),
        forall|i: int|
            1 <= i < current_routes(data).len() ==> #[trigger] edge_routes(current_routes(data), rule, svc, port)[i]
                == current_routes(data)[i],
        current_routes(data).len() > 0 ==> route_match_text(edge_routes(current_routes(data), rule, svc, port)[0])
            == merged_match(route_match_text(current_routes(data)[0]), rule),
        forall|k: Seq<char>|
            current_routes(data).len() > 0 ==> #[trigger] edge_routes(current_routes(data), rule, svc, port)[0].member(k)
                == merged_member(current_routes(data)[0], k, rule, svc, port),
{
    let routes = current_routes(data);
    if routes.len() > 0 {
        lemma_updated_route(routes[0], rule, svc, port);
        assert forall|k: Seq<char>| #[trigger] edge_routes(routes, rule, svc, port)[0].member(k) == merged_member(
            routes[0],
            k,
            rule,
            svc,
            port,
        ) by {
            lemma_updated_route_member(routes[0], rule, svc, port, k);
        }
    }
}

/// Blocking a client IP at the edge takes effect and settles: the planned
/// routes contain the rule, planning the same block again changes nothing,
/// and a plan without change means the routes already block the rule.
pub proof fn law_edge_block_takes_effect(routes: Seq<Json>, rule: Seq<char>, svc: Seq<char>, port: u16)
    requires
        edge_routes_ok(routes),
    ensures
        routes_block(edge_routes(routes, rule, svc, port), rule),
        !edge_changed(edge_routes(routes, rule, svc, port), rule),
        !edge_changed(routes, rule) ==> routes_block(routes, rule),
{
    lemma_route_keys_distinct();
    let out = edge_routes(routes, rule, svc, port);
    if routes.len() == 0 {
        let nr = new_edge_route(rule, svc, port);
        lemma_member_upsert(Json::Null, "kind"@, Json::Str("Rule"@), "kind"@);
        assert(lookup(seq![("kind"@, Json::Str("Rule"@)), ("match"@, Json::Str(rule)), ("priority"@, Json::Num(Num::PosInt(100001))), ("services"@, services_json(svc, port))], "match"@) == Some(Json::Str(rule))) by {
            reveal_with_fuel(crate::json::key_index_from, 3);
        }
        assert(nr.member("kind"@) is Some) by {
            reveal_with_fuel(crate::json::key_index_from, 3);
        }
        assert(nr.member("priority"@) is Some) by {
            reveal_with_fuel(crate::json::key_index_from, 4);
        }
        assert(nr.member("services"@) is Some) by {
            reveal_with_fuel(crate::json::key_index_from, 5);
        }
        lemma_contains_rule(seq![], rule);
        assert(contains(route_match_text(out[0]), rule));
    } else {
        lemma_updated_route(routes[0], rule, svc, port);
        assert(contains(route_match_text(out[0]), rule));
        if !edge_changed(routes, rule) {
            assert(contains(route_match_text(routes[0]), rule));
        }
    }
}


fn services_value(service_name: &str, service_port: u16) -> (r: JsonValue)
    ensures
        r@ == services_json(service_name@, service_port),
{
    let mut svc: Vec<(String, JsonValue)> = Vec::new();
    push_entry(&mut svc, "name", str_value(service_name));
    push_entry(&mut svc, "port", JsonValue::Number(JsonNumber::PosInt(service_port as u64)));
    let mut list: Vec<JsonValue> = Vec::new();
    push_item(&mut list, JsonValue::Object(svc));
    proof {
        assert(entries_view(svc@, svc@.len() as int) =~= seq![("name"@, Json::Str(service_name@)), ("port"@, Json::Num(Num::PosInt(service_port as u64)))]);
        assert(items_view(list@, list@.len() as int) =~= seq![Json::Obj(seq![("name"@, Json::Str(service_name@)), ("port"@, Json::Num(Num::PosInt(service_port as u64)))])]);
    }
    JsonValue::Array(list)
}

/// The text of a route's `match` member; empty when absent or not a string.
fn match_text(route: &JsonValue) -> (r: String)
    ensures
        r@ == route_match_text(route@),
{
    match route.get("match") {
        Some(m) => match m.as_str() {
            Some(s) => own(s),
            None => String::new(),
        },
        None => String::new(),
    }
}

/// Updates the first route of the edge deny IngressRoute for `rule`; tells
/// whether anything changed.
fn update_first_route(route: &mut JsonValue, rule: &str, service_name: &str, service_port: u16) -> (changed: bool)
    requires
        old(route)@ is Obj || old(route)@ is Null,
    ensures
        final(route)@ == updated_first_route(old(route)@, rule@, service_name@, service_port),
        changed == first_route_changed(old(route)@, rule@),
{
    proof {
        lemma_route_keys_distinct();
    }
    let ghost r0 = route@;
    let current = match_text(route);
    let mut changed = false;
    if !str_contains(current.as_str(), rule) {
        let blank = trim_str(current.as_str());
        let next = if blank.as_str().unicode_len() == 0 {
            own(rule)
        } else {
            join3(current.as_str(), " || ", rule)
        };
        proof {
            lemma_member_upsert(r0, "match"@, Json::Str(next@), "kind"@);
            lemma_member_upsert(r0, "match"@, Json::Str(next@), "priority"@);
            lemma_member_upsert(r0, "match"@, Json::Str(next@), "services"@);
        }
        route.set_entry("match", JsonValue::String(next));
        changed = true;
    }
    let ghost r1 = route@;
    assert(r1 == matched_route(r0, rule@));
    if route.get("kind").is_none() {
        proof {
            lemma_member_upsert(r1, "kind"@, Json::Str("Rule"@), "priority"@);
            lemma_member_upsert(r1, "kind"@, Json::Str("Rule"@), "services"@);
        }
        route.set_entry("kind", str_value("Rule"));
        changed = true;
    }
    let ghost r2 = route@;
    if route.get("priority").is_none() {
        proof {
            lemma_member_upsert(r2, "priority"@, Json::Num(Num::PosInt(100001)), "services"@);
        }
        route.set_entry("priority", JsonValue::Number(JsonNumber::PosInt(100001)));
        changed = true;
    }
    if route.get("services").is_none() {
        route.set_entry("services", services_value(service_name, service_port));
        changed = true;
    }
    changed
}

fn duplicate_items(a: &Vec<JsonValue>) -> (r: Vec<JsonValue>)
    ensures
        items_view(r@, r@.len() as int) == items_view(a@, a@.len() as int),
{
    let mut out: Vec<JsonValue> = Vec::new();
    let mut i: usize = 0;
    while i < a.len()
        invariant
            i <= a.len(),
            items_view(out@, out@.len() as int) == items_view(a@, i as int),
        decreases a.len() - i,
    {
        push_item(&mut out, a[i].duplicate());
        i = i + 1;
    }
    out
}

/// The routes an IngressRoute object's data holds.
fn routes_of(data: &JsonValue) -> (r: Vec<JsonValue>)
    ensures
        items_view(r@, r@.len() as int) == current_routes(data@),
{
    match data.get("spec") {
        Some(spec) => match spec.get("routes") {
            Some(JsonValue::Array(a)) => duplicate_items(a),
            _ => Vec::new(),
        },
        None => {
            proof {
                assert(Json::Obj(seq![]).member("routes"@) is None);
            }
            Vec::new()
        },
    }
}

/// Whether the routes of an IngressRoute object's data handle requests by
/// a route whose match contains `rule`.
pub fn routes_block_rule(data: &JsonValue, rule: &str) -> (r: bool)
    ensures
        r == routes_block(current_routes(data@), rule@),
{
    let routes = routes_of(data);
    let ghost rs = current_routes(data@);
    proof {
        lemma_items_view(routes@, routes@.len() as int);
    }
    let mut i: usize = 0;
    while i < routes.len()
        invariant
            rs == current_routes(data@),
            rs == items_view(routes@, routes@.len() as int),
            rs.len() == routes.len(),
            forall|k: int| 0 <= k < routes.len() ==> #[trigger] rs[k] == routes@[k]@,
            i <= routes.len(),
            forall|k: int| 0 <= k < i ==> !contains(route_match_text(#[trigger] rs[k]), rule@),
        decreases routes.len() - i,
    {
        let m = match_text(&routes[i]);
        if str_contains(m.as_str(), rule) {
            assert(contains(route_match_text(rs[i as int]), rule@));
            return true;
        }
        i = i + 1;
    }
    false
}

/// Whether the edge route's routes can take a block: none, or a first
/// route that is an object or `null`.
pub fn edge_routes_updatable(data: &JsonValue) -> (r: bool)
    ensures
        r == edge_routes_ok(current_routes(data@)),
{
    let routes = routes_of(data);
    proof {
        lemma_items_view(routes@, routes@.len() as int);
    }
    if routes.len() == 0 {
        return true;
    }
    match &routes[0] {
        JsonValue::Object(_) => true,
        JsonValue::Null => true,
        _ => false,
    }
}

impl TraefikBlocker {
    /// The merge patch that adds `client_ip_rule` to the edge deny
    /// IngressRoute whose object data is `data` (`None` when it already
    /// blocks it). The first route's match gains the rule; a route list that
    /// is empty gets a high-priority route to the given service.
    pub fn plan_edge_block(
        data: &JsonValue,
        resource_version: Option<String>,
        client_ip_rule: &str,
        service_name: &str,
        service_port: u16,
    ) -> (r: Option<JsonValue>)
        requires
            edge_routes_ok(current_routes(data@)),
        ensures
            match r {
                Some(p) => edge_patch(data@, match resource_version {
                    Some(v) => Some(v@),
                    None => None,
                }, client_ip_rule@, service_name@, service_port) == Some(p@),
                None => edge_patch(data@, match resource_version {
                    Some(v) => Some(v@),
                    None => None,
                }, client_ip_rule@, service_name@, service_port) is None,
            },
    {
        let ghost rs = current_routes(data@);
        let entry_points = match data.get("spec") {
            Some(spec) => match spec.get("entryPoints") {
                Some(e) => e.duplicate(),
                None => {
                    let mut ep: Vec<JsonValue> = Vec::new();
                    push_item(&mut ep, str_value("websecure"));
                    proof {
                        assert(items_view(ep@, ep@.len() as int) =~= seq![Json::Str("websecure"@)]);
                    }
                    JsonValue::Array(ep)
                },
            },
            None => {
                let mut ep: Vec<JsonValue> = Vec::new();
                push_item(&mut ep, str_value("websecure"));
                proof {
                    assert(items_view(ep@, ep@.len() as int) =~= seq![Json::Str("websecure"@)]);
                    assert(Json::Obj(seq![]).member("entryPoints"@) is None);
                }
                JsonValue::Array(ep)
            },
        };
        assert(entry_points@ == current_entry_points(data@));
        let mut routes = routes_of(data);
        proof {
            lemma_items_view(routes@, routes@.len() as int);
        }
        let mut changed = false;
        if routes.len() == 0 {
            let mut nr: Vec<(String, JsonValue)> = Vec::new();
            push_entry(&mut nr, "kind", str_value("Rule"));
            push_entry(&mut nr, "match", str_value(client_ip_rule));
            push_entry(&mut nr, "priority", JsonValue::Number(JsonNumber::PosInt(100001)));
            push_entry(&mut nr, "services", services_value(service_name, service_port));
            proof {
                assert(entries_view(nr@, nr@.len() as int) =~= seq![
                    ("kind"@, Json::Str("Rule"@)),
                    ("match"@, Json::Str(client_ip_rule@)),
                    ("priority"@, Json::Num(Num::PosInt(100001))),
                    ("services"@, services_json(service_name@, service_port)),
                ]);
            }
            push_item(&mut routes, JsonValue::Object(nr));
            proof {
                assert(items_view(routes@, routes@.len() as int) =~= edge_routes(rs, client_ip_rule@, service_name@, service_port));
            }
            changed = true;
        } else {
            let mut first = routes.remove(0);
            assert(first@ == rs[0]);
            let c = update_first_route(&mut first, client_ip_rule, service_name, service_port);
            let ghost rest = routes@;
            routes.insert(0, first);
            proof {
                lemma_items_view(routes@, routes@.len() as int);
                assert(items_view(routes@, routes@.len() as int) =~= edge_routes(rs, client_ip_rule@, service_name@, service_port));
            }
            changed = c;
        }
        if !changed {
            return None;
        }
        let mut spec: Vec<(String, JsonValue)> = Vec::new();
        let ghost ep_v = entry_points@;
        push_entry(&mut spec, "entryPoints", entry_points);
        let ghost final_routes = items_view(routes@, routes@.len() as int);
        push_entry(&mut spec, "routes", JsonValue::Array(routes));
        proof {
            assert(entries_view(spec@, spec@.len() as int) =~= seq![("entryPoints"@, ep_v), ("routes"@, Json::Arr(final_routes))]);
        }
        let mut patch: Vec<(String, JsonValue)> = Vec::new();
        push_entry(&mut patch, "spec", JsonValue::Object(spec));
        let ghost spec_part = entries_view(patch@, patch@.len() as int);
        match resource_version {
            Some(v) => {
                let mut meta: Vec<(String, JsonValue)> = Vec::new();
                push_entry(&mut meta, "resourceVersion", JsonValue::String(v));
                push_entry(&mut patch, "metadata", JsonValue::Object(meta));
                proof {
                    assert(entries_view(meta@, meta@.len() as int) =~= seq![("resourceVersion"@, Json::Str(v@))]);
                    assert(entries_view(patch@, patch@.len() as int) =~= spec_part + seq![("metadata"@, Json::Obj(seq![("resourceVersion"@, Json::Str(v@))]))]);
                }
            },
            None => {
                assert(entries_view(patch@, patch@.len() as int) =~= spec_part + seq![]);
            },
        }
        proof {
            assert(spec_part =~= seq![("spec"@, Json::Obj(seq![
                ("entryPoints"@, current_entry_points(data@)),
                ("routes"@, Json::Arr(edge_routes(rs, client_ip_rule@, service_name@, service_port))),
            ]))]);
        }
        Some(JsonValue::Object(patch))
    }
}


/// A CIDR that a `ClientIP` rule quotes cleanly: non-empty, without
/// surrounding whitespace, a backtick or a closing parenthesis.
pub open spec fn plain_cidr(c: Seq<char>) -> bool {
    &&& c.len() > 0
    &&& trim(c) == c
    &&& forall|k: int| 0 <= k < c.len() ==> #[trigger] c[k] != '`' && c[k] != ')'
}

/// Every `ClientIP(` matcher of `m` is closed by a `)` of `m` before another
/// one starts.
pub open spec fn matchers_closed(m: Seq<char>) -> bool {
    forall|i: int|
        #[trigger] occurs_at(m, "ClientIP("@, i) ==> exists|e: int|
            i + 9 <= e < m.len() && m[e] == ')' && forall|j: int| i < j <= e ==> !occurs_at(m, "ClientIP("@, j)
}

/// Every `ClientIP(` of `s` that ends by `k` is closed by a `)` before `k`.
pub open spec fn closed_before(s: Seq<char>, k: int) -> bool {
    forall|i: int|
        #[trigger] occurs_at(s, "ClientIP("@, i) && i + 9 <= k ==> exists|e: int| i + 9 <= e < k && s[e] == ')'
}

/// The quoted text up to a closing backtick is one argument.
proof fn lemma_quoted_to_close(x: Seq<char>, cur: Seq<char>)
    requires
        forall|k: int| 0 <= k < x.len() ==> #[trigger] x[k] != '`',
    ensures
        quoted_from(x + "`"@, Some('`'), cur) == (if trim(cur + x).len() > 0 {
            seq![trim(cur + x)]
        } else {
            seq![]
        }),
    decreases x.len(),
{
    reveal_strlit("`");
    let s = x + "`"@;
    if x.len() == 0 {
        assert(s.len() == 1);
        assert(s[0] == '`');
        assert(s.drop_first() =~= Seq::<char>::empty());
        assert(cur + x =~= cur);
        let tail = quoted_from(s.drop_first(), None, seq![]);
        assert(tail == Seq::<Seq<char>>::empty());
        let v = trim(cur);
        assert(quoted_from(s, Some('`'), cur) == (if v.len() > 0 {
            seq![v]
        } else {
            seq![]
        }) + tail);
        assert(seq![v] + tail =~= seq![v]);
        assert(Seq::<Seq<char>>::empty() + tail =~= Seq::<Seq<char>>::empty());
    } else {
        assert(s.len() > 0);
        assert(s[0] == x[0]);
        assert(x[0] != '`');
        assert(s.drop_first() =~= x.drop_first() + "`"@);
        assert(cur.push(x[0]) + x.drop_first() =~= cur + x);
        assert forall|k: int| 0 <= k < x.drop_first().len() implies #[trigger] x.drop_first()[k] != '`' by {
            assert(x.drop_first()[k] == x[k + 1]);
        }
        lemma_quoted_to_close(x.drop_first(), cur.push(x[0]));
        assert(quoted_from(s, Some('`'), cur) == quoted_from(s.drop_first(), Some('`'), cur.push(x[0])));
    }
}

/// The argument text of a CIDR's rule quotes just that CIDR.
proof fn lemma_rule_args(c: Seq<char>)
    requires
        plain_cidr(c),
    ensures
        quoted_args("`"@ + c + "`"@) == seq![c],
{
    reveal_strlit("`");
    let s = "`"@ + c + "`"@;
    assert(s[0] == '`');
    assert(s.drop_first() =~= c + "`"@);
    lemma_quoted_to_close(c, seq![]);
    assert(Seq::<char>::empty() + c =~= c);
}

/// The characters of `ClientIP(`: `C` only at its start, and neither a
/// space nor `|` anywhere.
proof fn lemma_matcher_chars()
    ensures
        "ClientIP("@.len() == 9,
        "ClientIP("@[0] == 'C',
        forall|k: int| 1 <= k < 9 ==> #[trigger] "ClientIP("@[k] != 'C',
        forall|k: int| 0 <= k < 9 ==> #[trigger] "ClientIP("@[k] != ' ' && "ClientIP("@[k] != '|',
{
    reveal_strlit("ClientIP(");
}

/// Scanning `s` from `pos` reaches the rule of `c` at `k` when every matcher
/// before it is closed before it: `c` is among the values found.
proof fn lemma_scan_reaches_rule(s: Seq<char>, k: int, c: Seq<char>, pos: int)
    requires
        plain_cidr(c),
        occurs_at(s, client_ip_rule(c), k),
        closed_before(s, k),
        0 <= pos <= k,
    ensures
        client_ip_values_from(s, pos).contains(c),
    decreases s.len() + 1 - pos,
{
    let p = "ClientIP("@;
    let r = client_ip_rule(c);
    reveal_strlit("ClientIP(");
    reveal_strlit("ClientIP(`");
    reveal_strlit("`)");
    lemma_matcher_chars();
    assert(r.len() == c.len() + 12);
    assert(s.subrange(k, k + r.len()) == r);
    assert(occurs_at(s, p, k)) by {
        assert(s.subrange(k, k + 9) =~= r.subrange(0, 9));
        assert(r.subrange(0, 9) =~= p);
    }
    lemma_occurrence_from(s, p, pos);
    let i = occurrence_from(s, p, pos)->0;
    assert(i <= k);
    if i < k {
        if i + 9 > k {
            assert(s[k] == r[0]);
            assert(s.subrange(i, i + 9)[k - i] == s[k]);
            assert(false);
        }
        let e0 = choose|e: int| i + 9 <= e < k && s[e] == ')';
        let a = i + 9;
        lemma_occurrence_from(s, ")"@, a);
        reveal_strlit(")");
        assert(occurs_at(s, ")"@, e0)) by {
            assert(s.subrange(e0, e0 + 1) =~= ")"@);
        }
        let e = occurrence_from(s, ")"@, a)->0;
        assert(e <= e0);
        lemma_scan_reaches_rule(s, k, c, e + 1);
        let head = quoted_args(s.subrange(a, e));
        let rest = client_ip_values_from(s, e + 1);
        assert(client_ip_values_from(s, pos) == head + rest);
        let w = choose|w: int| 0 <= w < rest.len() && rest[w] == c;
        assert((head + rest)[head.len() + w] == c);
    } else {
        let a = k + 9;
        let e1 = k + c.len() + 11;
        reveal_strlit(")");
        lemma_occurrence_from(s, ")"@, a);
        assert(s[e1] == r[c.len() + 11int]);
        assert(occurs_at(s, ")"@, e1)) by {
            assert(s.subrange(e1, e1 + 1) =~= ")"@);
        }
        let e = occurrence_from(s, ")"@, a)->0;
        if e < e1 {
            assert(s.subrange(e, e + 1) == ")"@);
            assert(s.subrange(e, e + 1)[0] == s[e]);
            assert(s[e] == ')');
            assert(s[e] == r[e - k]);
            if e - k == 9 {
                assert(r[9] == '`');
            } else {
                assert(r[e - k] == c[e - k - 10]);
            }
            assert(false);
        }
        assert(e == e1);
        assert(s.subrange(a, e) =~= "`"@ + c + "`"@) by {
            reveal_strlit("`");
            assert(forall|t: int| 0 <= t < e - a ==> s.subrange(a, e)[t] == r[9 + t]);
        }
        lemma_rule_args(c);
        let rest = client_ip_values_from(s, e + 1);
        assert(client_ip_values_from(s, pos) == seq![c] + rest);
        assert((seq![c] + rest)[0] == c);
    }
}

/// Appending the rule of `c` to a text whose matchers are closed leaves
/// every matcher before the rule closed before it.
proof fn lemma_closed_appended(m: Seq<char>, c: Seq<char>)
    requires
        matchers_closed(m),
    ensures
        occurs_at(m + " || "@ + client_ip_rule(c), client_ip_rule(c), m.len() + 4int),
        closed_before(m + " || "@ + client_ip_rule(c), m.len() + 4int),
{
    reveal_strlit(" || ");
    let p = "ClientIP("@;
    let r = client_ip_rule(c);
    let s = m + " || "@ + r;
    let k: int = m.len() + 4int;
    assert(s.subrange(k, k + r.len()) =~= r);
    lemma_matcher_chars();
    assert forall|i: int| #[trigger] occurs_at(s, p, i) && i + 9 <= k implies exists|e: int|
        i + 9 <= e < k && s[e] == ')' by {
        if i + 9 <= m.len() {
            assert(s.subrange(i, i + 9) =~= m.subrange(i, i + 9));
            assert(occurs_at(m, p, i));
            let e = choose|e: int|
                i + 9 <= e < m.len() && m[e] == ')' && forall|j: int| i < j <= e ==> !occurs_at(m, p, j);
            assert(s[e] == m[e]);
        } else {
            assert(s[m.len() as int] == ' ');
            assert(s.subrange(i, i + 9)[m.len() - i] == s[m.len() as int]);
            assert(false);
        }
    }
}

/// A rule of `c` found inside a text whose matchers are closed has every
/// earlier matcher closed before it.
proof fn lemma_closed_inside(m: Seq<char>, c: Seq<char>, k: int)
    requires
        matchers_closed(m),
        occurs_at(m, client_ip_rule(c), k),
    ensures
        closed_before(m, k),
{
    reveal_strlit("ClientIP(");
    reveal_strlit("ClientIP(`");
    let p = "ClientIP("@;
    let r = client_ip_rule(c);
    assert(occurs_at(m, p, k)) by {
        assert(m.subrange(k, k + 9) =~= m.subrange(k, k + r.len()).subrange(0, 9));
        assert(r.subrange(0, 9) =~= p);
    }
    assert forall|i: int| #[trigger] occurs_at(m, p, i) && i + 9 <= k implies exists|e: int|
        i + 9 <= e < k && m[e] == ')' by {
        let e = choose|e: int|
            i + 9 <= e < m.len() && m[e] == ')' && forall|j: int| i < j <= e ==> !occurs_at(m, p, j);
        if e >= k {
            assert(!occurs_at(m, p, k));
        }
    }
}

/// The values of the first route are among those of the first `n` routes.
proof fn lemma_first_route_ips(routes: Seq<Json>, n: int, x: Seq<char>)
    requires
        1 <= n <= routes.len(),
        client_ip_values(route_match_text(routes[0])).contains(x),
    ensures
        routes_client_ips(routes, n).contains(x),
    decreases n,
{
    let prev = routes_client_ips(routes, n - 1);
    let last = client_ip_values(route_match_text(routes[n - 1]));
    assert(routes_client_ips(routes, n) == prev + last);
    if n == 1 {
        let w = choose|w: int| 0 <= w < last.len() && last[w] == x;
        assert((prev + last)[prev.len() + w] == x);
    } else {
        lemma_first_route_ips(routes, n - 1, x);
        let w = choose|w: int| 0 <= w < prev.len() && prev[w] == x;
        assert((prev + last)[w] == x);
    }
}

/// After the edge block of a CIDR the routes list that CIDR among their
/// `ClientIP` values, which is what the blocked-CIDR listing reads; stated
/// for a CIDR that its rule quotes cleanly and a first route whose matchers
/// are each closed before the next one. Without that condition it fails: a
/// first route matching ``ClientIP(`a`, `b`` has its unclosed matcher read
/// up to the `)` of the appended rule, whose backticks then pair with the
/// open quote, so the listing gives `a` and ``b || ClientIP(`` and not the
/// CIDR.
pub proof fn law_edge_block_lists_cidr(routes: Seq<Json>, c: Seq<char>, svc: Seq<char>, port: u16)
    requires
        edge_routes_ok(routes),
        plain_cidr(c),
        routes.len() > 0 ==> matchers_closed(route_match_text(routes[0])),
    ensures
        routes_client_ips(
            edge_routes(routes, client_ip_rule(c), svc, port),
            edge_routes(routes, client_ip_rule(c), svc, port).len() as int,
        ).contains(c),
{
    let rule = client_ip_rule(c);
    let out = edge_routes(routes, rule, svc, port);
    let t = route_match_text(out[0]);
    if routes.len() == 0 {
        lemma_route_keys_distinct();
        assert(lookup(seq![("kind"@, Json::Str("Rule"@)), ("match"@, Json::Str(rule)), ("priority"@, Json::Num(Num::PosInt(100001))), ("services"@, services_json(svc, port))], "match"@) == Some(Json::Str(rule))) by {
            reveal_with_fuel(crate::json::key_index_from, 3);
        }
        assert(t == rule);
        assert(rule.subrange(0, rule.len() as int) =~= rule);
        lemma_scan_reaches_rule(rule, 0, c, 0);
    } else {
        let m = route_match_text(routes[0]);
        lemma_updated_route(routes[0], rule, svc, port);
        assert(out[0] == updated_first_route(routes[0], rule, svc, port));
        if contains(m, rule) {
            let k = choose|k: int| occurs_at(m, rule, k);
            lemma_closed_inside(m, c, k);
            lemma_scan_reaches_rule(m, k, c, 0);
        } else if trim(m).len() == 0 {
            assert(rule.subrange(0, rule.len() as int) =~= rule);
            lemma_scan_reaches_rule(rule, 0, c, 0);
        } else {
            lemma_closed_appended(m, c);
            lemma_scan_reaches_rule(m + " || "@ + rule, m.len() + 4int, c, 0);
        }
    }
    assert(client_ip_values(t).contains(c));
    lemma_first_route_ips(out, out.len() as int, c);
}

/// The `ClientIP` values of the first `n` routes, route by route.
pub open spec fn routes_client_ips(routes: Seq<Json>, n: int) -> Seq<Seq<char>>
    decreases n,
{
    if n <= 0 || n > routes.len() {
        seq![]
    } else {
        routes_client_ips(routes, n - 1) + client_ip_values(route_match_text(routes[n - 1]))
    }
}

/// Strictly ascending in `seq_less` order: sorted, without duplicates.
pub open spec fn strictly_sorted(s: Seq<Seq<char>>) -> bool {
    forall|i: int, j: int| 0 <= i < j < s.len() ==> seq_less(#[trigger] s[i], #[trigger] s[j])
}

/// Adds `s` to a strictly sorted list, unless it is there already.
pub(crate) fn insert_sorted(out: &mut Vec<String>, s: String)
    requires
        strictly_sorted(texts(old(out)@)),
    ensures
        strictly_sorted(texts(final(out)@)),
        forall|x: Seq<char>| #[trigger] texts(final(out)@).contains(x) <==> (texts(old(out)@).contains(x) || x == s@),
{
    let ghost t0 = texts(out@);
    let mut p: usize = 0;
    while p < out.len() && str_less(out[p].as_str(), s.as_str())
        invariant
            t0 == texts(out@),
            p <= out.len(),
            forall|k: int| 0 <= k < p ==> seq_less(#[trigger] t0[k], s@),
        decreases out.len() - p,
    {
        p = p + 1;
    }
    if p < out.len() && str_eq(out[p].as_str(), s.as_str()) {
        proof {
            assert(t0[p as int] == s@);
        }
        return;
    }
    proof {
        if p < out.len() {
            lemma_seq_less_total(s@, t0[p as int]);
            assert(seq_less(s@, t0[p as int]));
        }
    }
    let ghost sv = s@;
    out.insert(p, s);
    proof {
        let t1 = texts(out@);
        assert(t1 =~= t0.insert(p as int, sv));
        assert forall|i: int, j: int| 0 <= i < j < t1.len() implies seq_less(#[trigger] t1[i], #[trigger] t1[j]) by {
            if j < p {
            } else if i < p && j == p {
            } else if i < p {
                assert(t1[j] == t0[j - 1]);
                if j - 1 == p {
                    lemma_seq_less_transitive(t0[i], sv, t0[p as int]);
                } else {
                    lemma_seq_less_transitive(t0[i], t0[p as int], t0[j - 1]);
                    assert(seq_less(t0[i], t0[p as int]) ==> seq_less(t0[i], t0[j - 1]));
                }
            } else if i == p {
                if j - 1 > p {
                    lemma_seq_less_transitive(sv, t0[p as int], t0[j - 1]);
                }
            } else {
                assert(t1[i] == t0[i - 1]);
                assert(t1[j] == t0[j - 1]);
            }
        }
        assert forall|x: Seq<char>| t1.contains(x) <==> (t0.contains(x) || x == sv) by {
            if t1.contains(x) {
                let k = choose|k: int| 0 <= k < t1.len() && t1[k] == x;
                if k < p {
                    assert(t0[k] == x);
                } else if k > p {
                    assert(t0[k - 1] == x);
                }
            }
            if t0.contains(x) {
                let k = choose|k: int| 0 <= k < t0.len() && t0[k] == x;
                if k < p {
                    assert(t1[k] == x);
                } else {
                    assert(t1[k + 1] == x);
                }
            }
            if x == sv {
                assert(t1[p as int] == x);
            }
        }
    }
}

/// The distinct `ClientIP` values that the routes of an IngressRoute
/// object's data block, in ascending order.
pub fn edge_blocked_cidrs(data: &JsonValue) -> (r: Vec<String>)
    ensures
        strictly_sorted(texts(r@)),
        forall|x: Seq<char>| texts(r@).contains(x) <==> routes_client_ips(
            current_routes(data@),
            current_routes(data@).len() as int,
        ).contains(x),
{
    let routes = routes_of(data);
    let ghost rs = current_routes(data@);
    proof {
        lemma_items_view(routes@, routes@.len() as int);
    }
    let mut out: Vec<String> = Vec::new();
    let mut i: usize = 0;
    while i < routes.len()
        invariant
            rs == current_routes(data@),
            rs == items_view(routes@, routes@.len() as int),
            rs.len() == routes.len(),
            forall|k: int| 0 <= k < routes.len() ==> #[trigger] rs[k] == routes@[k]@,
            i <= routes.len(),
            strictly_sorted(texts(out@)),
            forall|x: Seq<char>| #[trigger] texts(out@).contains(x) <==> routes_client_ips(rs, i as int).contains(x),
        decreases routes.len() - i,
    {
        let m = match_text(&routes[i]);
        let vals = extract_client_ip_match_values(m.as_str());
        let ghost vs = texts(vals@);
        let ghost prev = routes_client_ips(rs, i as int);
        let mut j: usize = 0;
        while j < vals.len()
            invariant
                vs == texts(vals@),
                j <= vals.len(),
                strictly_sorted(texts(out@)),
                forall|x: Seq<char>| #[trigger] texts(out@).contains(x) <==> (prev.contains(x) || vs.take(j as int).contains(x)),
            decreases vals.len() - j,
        {
            let ghost before = texts(out@);
            let c = vals[j].clone();
            assert(c@ == vs[j as int]);
            insert_sorted(&mut out, c);
            proof {
                assert forall|x: Seq<char>| texts(out@).contains(x) <==> (prev.contains(x) || vs.take(j + 1).contains(x)) by {
                    assert(vs.take(j + 1) =~= vs.take(j as int).push(vs[j as int]));
                    assert(texts(out@).contains(x) <==> (before.contains(x) || x == vs[j as int]));
                    assert(before.contains(x) <==> (prev.contains(x) || vs.take(j as int).contains(x)));
                    if vs.take(j + 1).contains(x) && !vs.take(j as int).contains(x) {
                        let k = choose|k: int| 0 <= k < j + 1 && #[trigger] vs.take(j + 1)[k] == x;
                        if k < j {
                            assert(vs.take(j as int)[k] == x);
                        }
                    }
                    if vs.take(j as int).contains(x) {
                        let k = choose|k: int| 0 <= k < j && #[trigger] vs.take(j as int)[k] == x;
                        assert(vs.take(j + 1)[k] == x);
                    }
                    if x == vs[j as int] {
                        assert(vs.take(j + 1)[j as int] == x);
                    }
                }
            }
            j = j + 1;
        }
        proof {
            assert(vs.take(vals.len() as int) =~= vs);
            assert(rs[i as int] == routes@[i as int]@);
            let next = routes_client_ips(rs, i + 1);
            assert(next == prev + vs);
            assert forall|x: Seq<char>| next.contains(x) <==> (prev.contains(x) || vs.contains(x)) by {
                if next.contains(x) {
                    let k = choose|k: int| 0 <= k < next.len() && next[k] == x;
                    if k >= prev.len() {
                        assert(vs[k - prev.len()] == x);
                    }
                }
                if prev.contains(x) {
                    let k = choose|k: int| 0 <= k < prev.len() && prev[k] == x;
                    assert(next[k] == x);
                }
                if vs.contains(x) {
                    let k = choose|k: int| 0 <= k < vs.len() && vs[k] == x;
                    assert(next[prev.len() + k] == x);
                }
            }
        }
        i = i + 1;
    }
    out
}

} // verus!
