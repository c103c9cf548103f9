//! WHOIS/RDAP: which registries to ask and what a registry's answer says
//! about a network, its organization and its abuse contacts.
use vstd::prelude::*;
use crate::elasticsearch::queries::{texts, lemma_texts_push};
use crate::k8s::inspector::str_items;
use crate::json::{Json, JsonValue, items_view, lemma_items_view, entries_view, lemma_entries_view,
    key_index_from, key_index, lemma_key_index_from, entry_position};
use crate::text::{lower_ascii_str, upper_ascii_str, has_suffix, eq_ignore_ascii_case, to_ascii_uppercase,
    ends_with, own, push_str, join_seq, unicode_lower, seq_less, str_less, str_eq, to_lowercase, contains_char,
    join_strings, lemma_seq_less_total, lemma_seq_less_transitive, lemma_seq_less_irreflexive};

verus! {

/// An abuse contact named in RDAP data.
#[derive(Debug, Clone, PartialEq, Eq)]
pub struct AbuseContact {
    pub name: Option<String>,
    pub role: Option<String>,
    pub emails: Vec<String>,
}

/// What a registry says about an address.
#[derive(Debug, Clone, PartialEq, Eq)]
pub struct WhoisInfo {
    pub ip: String,
    pub registry_url: Option<String>,
    pub network_name: Option<String>,
    pub handle: Option<String>,
    pub country: Option<String>,
    pub start_address: Option<String>,
    pub end_address: Option<String>,
    pub organization: Option<String>,
    pub abuse_contacts: Vec<AbuseContact>,
}

/// Lookup errors; a failed request carries the client error's message and
/// a refused one the HTTP status as written and the body.
#[derive(Debug, Clone)]
pub enum WhoisError {
    InvalidIp(String),
    Request(String),
    Http { status: String, body: String },
    NotFound(String),
}

/// The message a lookup error displays.
pub open spec fn whois_error_text(e: WhoisError) -> Seq<char> {
    match e {
        WhoisError::InvalidIp(ip) => "Invalid IP address: "@ + ip@,
        WhoisError::Request(m) => "WHOIS/RDAP lookup failed: "@ + m@,
        WhoisError::Http { status, body } => "WHOIS/RDAP lookup returned HTTP "@ + status@ + ": "@ + body@,
        WhoisError::NotFound(ip) => "No WHOIS/RDAP endpoint returned data for "@ + ip@,
    }
}

impl WhoisError {
    /// The error's message.
    pub fn to_string(&self) -> (r: String)
        ensures
            r@ == whois_error_text(*self),
    {
        match self {
            WhoisError::InvalidIp(ip) => {
                let mut r = own("Invalid IP address: ");
                push_str(&mut r, ip.as_str());
                r
            },
            WhoisError::Request(m) => {
                let mut r = own("WHOIS/RDAP lookup failed: ");
                push_str(&mut r, m.as_str());
                r
            },
            WhoisError::Http { status, body } => {
                let mut r = own("WHOIS/RDAP lookup returned HTTP ");
                push_str(&mut r, status.as_str());
                push_str(&mut r, ": ");
                push_str(&mut r, body.as_str());
                r
            },
            WhoisError::NotFound(ip) => {
                let mut r = own("No WHOIS/RDAP endpoint returned data for ");
                push_str(&mut r, ip.as_str());
                r
            },
        }
    }
}

/// WHOIS/RDAP client.
#[derive(Debug)]
pub struct WhoisClient {
    pub client: reqwest::Client,
}

impl WhoisClient {
    /// A lookup client that sends its requests with `client`.
    pub fn new(client: reqwest::Client) -> (r: Self)
        ensures
            r.client == client,
    {
        WhoisClient { client }
    }
}

/// First octets of IPv4 networks that RIPE most likely administers.
pub open spec fn ripe_octet(o: u8) -> bool {
    o == 2 || o == 5 || o == 31 || o == 37 || o == 46 || o == 51 || o == 62 || o == 77 || o == 78 || o == 79 || (80
        <= o && o <= 91) || o == 93 || o == 94 || o == 95 || o == 109 || o == 141 || o == 145 || o == 151 || o
        == 176 || o == 178 || o == 185 || o == 188 || o == 193 || o == 194 || o == 195 || o == 212 || o == 213
        || o == 217
}

/// Whether an IPv4 address with this first octet most likely belongs to RIPE.
pub fn likely_ripe_ipv4(first_octet: u8) -> (r: bool)
    ensures
        r == ripe_octet(first_octet),
{
    let o = first_octet;
    o == 2 || o == 5 || o == 31 || o == 37 || o == 46 || o == 51 || o == 62 || o == 77 || o == 78 || o == 79 || (80
        <= o && o <= 91) || o == 93 || o == 94 || o == 95 || o == 109 || o == 141 || o == 145 || o == 151 || o
        == 176 || o == 178 || o == 185 || o == 188 || o == 193 || o == 194 || o == 195 || o == 212 || o == 213
        || o == 217
}

/// The RDAP endpoints to ask, in order: RIPE first for a likely-RIPE IPv4
/// address, ARIN first otherwise; then APNIC, LACNIC, AFRINIC and rdap.org.
pub open spec fn rdap_url_list(ip: Seq<char>, ripe_first: bool) -> Seq<Seq<char>> {
    let arin = "https://rdap.arin.net/registry/ip/"@ + ip;
    let ripe = "https://rdap.db.ripe.net/ip/"@ + ip;
    let rest = seq!["https://rdap.apnic.net/ip/"@ + ip, "https://rdap.lacnic.net/rdap/ip/"@ + ip,
        "https://rdap.afrinic.net/rdap/ip/"@ + ip, "https://rdap.org/ip/"@ + ip];
    if ripe_first {
        seq![ripe, arin] + rest
    } else {
        seq![arin, ripe] + rest
    }
}

fn url_for(base: &str, ip: &str) -> (r: String)
    ensures
        r@ == base@ + ip@,
{
    let mut r = own(base);
    push_str(&mut r, ip);
    r
}

/// The RDAP endpoints for an address written as `ip`, whose first octet is
/// given when it is an IPv4 address.
pub fn rdap_urls(ip: &str, ipv4_first_octet: Option<u8>) -> (r: Vec<String>)
    ensures
        texts(r@) == rdap_url_list(ip@, match ipv4_first_octet {
            Some(o) => ripe_octet(o),
            None => false,
        }),
{
    let arin = url_for("https://rdap.arin.net/registry/ip/", ip);
    let ripe = url_for("https://rdap.db.ripe.net/ip/", ip);
    let ripe_first = match ipv4_first_octet {
        Some(o) => likely_ripe_ipv4(o),
        None => false,
    };
    let mut r: Vec<String> = Vec::new();
    if ripe_first {
        r.push(ripe);
        r.push(arin);
    } else {
        r.push(arin);
        r.push(ripe);
    }
    r.push(url_for("https://rdap.apnic.net/ip/", ip));
    r.push(url_for("https://rdap.lacnic.net/rdap/ip/", ip));
    r.push(url_for("https://rdap.afrinic.net/rdap/ip/", ip));
    r.push(url_for("https://rdap.org/ip/", ip));
    assert(texts(r@) =~= rdap_url_list(ip@, ripe_first));
    r
}

/// ASCII case-insensitive equality.
pub open spec fn eq_ci(a: Seq<char>, b: Seq<char>) -> bool {
    lower_ascii_str(a) == lower_ascii_str(b)
}

/// A string member of a value.
pub open spec fn string_member(v: Json, name: Seq<char>) -> Option<Seq<char>> {
    match v.member(name) {
        Some(Json::Str(s)) => Some(s),
        _ => None,
    }
}

fn string_field(value: &JsonValue, name: &str) -> (r: Option<String>)
    ensures
        (match r { Some(s) => Some(s@), None => None }) == string_member(value@, name@),
{
    match value.get(name) {
        Some(JsonValue::String(s)) => Some(s.clone()),
        _ => None,
    }
}

/// The `href` of the first link whose `rel` is `self` and that has one,
/// among links `i..`.
pub open spec fn self_link_from(links: Seq<Json>, i: int) -> Option<Seq<char>>
    decreases links.len() - i,
{
    if i < 0 || i >= links.len() {
        None
    } else if string_member(links[i], "rel"@) == Some("self"@) && string_member(links[i], "href"@) is Some {
        string_member(links[i], "href"@)
    } else {
        self_link_from(links, i + 1)
    }
}

/// The registry's own URL for the answer: the `self` link.
pub open spec fn self_link_of(body: Json) -> Option<Seq<char>> {
    match body.member("links"@) {
        Some(Json::Arr(a)) => self_link_from(a, 0),
        _ => None,
    }
}

fn self_link(value: &JsonValue) -> (r: Option<String>)
    ensures
        (match r { Some(s) => Some(s@), None => None }) == self_link_of(value@),
{
    match value.get("links") {
        Some(JsonValue::Array(links)) => {
            let ghost a = items_view(links@, links@.len() as int);
            proof {
                lemma_items_view(links@, links@.len() as int);
            }
            let mut i: usize = 0;
            while i < links.len()
                invariant
                    a == items_view(links@, links@.len() as int),
                    a.len() == links.len(),
                    forall|k: int| 0 <= k < links.len() ==> #[trigger] a[k] == links@[k]@,
                    i <= links.len(),
                    self_link_of(value@) == self_link_from(a, 0),
                    self_link_from(a, 0) == self_link_from(a, i as int),
                decreases links.len() - i,
            {
                let rel = string_field(&links[i], "rel");
                let href = string_field(&links[i], "href");
                proof {
                    reveal_strlit("self");
                }
                let is_self = match &rel {
                    Some(r) => crate::text::str_eq(r.as_str(), "self"),
                    None => false,
                };
                if is_self {
                    match href {
                        Some(h) => {
                            return Some(h);
                        },
                        None => {},
                    }
                }
                i = i + 1;
            }
            None
        },
        _ => None,
    }
}

/// The values of a vCard `type` parameter: one string or the strings of an array.
pub open spec fn vcard_type_list(v: Json) -> Seq<Seq<char>> {
    match v {
        Json::Str(s) => seq![s],
        Json::Arr(a) => str_items(a, a.len() as int),
        _ => seq![],
    }
}

/// The values of a vCard `type` parameter.
pub fn vcard_type_values(value: &JsonValue) -> (r: Vec<String>)
    ensures
        texts(r@) == vcard_type_list(value@),
{
    match value {
        JsonValue::String(s) => {
            let mut r: Vec<String> = Vec::new();
            r.push(s.clone());
            assert(texts(r@) =~= seq![s@]);
            r
        },
        JsonValue::Array(a) => {
            let ghost items = items_view(a@, a@.len() as int);
            proof {
                lemma_items_view(a@, a@.len() as int);
            }
            let mut out: Vec<String> = Vec::new();
            let mut i: usize = 0;
            while i < a.len()
                invariant
                    items == items_view(a@, a@.len() as int),
                    items.len() == a.len(),
                    forall|k: int| 0 <= k < a.len() ==> #[trigger] items[k] == a@[k]@,
                    i <= a.len(),
                    texts(out@) == str_items(items, i as int),
                decreases a.len() - i,
            {
                let ghost before = out@;
                match &a[i] {
                    JsonValue::String(s) => {
                        let c = s.clone();
                        out.push(c);
                        proof {
                            lemma_texts_push(before, c);
                        }
                    },
                    _ => {
                        assert(str_items(items, i + 1) =~= str_items(items, i as int) + seq![]);
                    },
                }
                i = i + 1;
            }
            out
        },
        _ => {
            let r: Vec<String> = Vec::new();
            assert(texts(r@) =~= seq![]);
            r
        },
    }
}


/// A vCard property value with its `type` parameter values.
#[derive(Debug, Clone)]
pub struct VcardValue {
    pub value: String,
    pub types: Vec<String>,
}

/// The rows of an entity's vCard.
pub open spec fn vcard_rows(e: Json) -> Seq<Json> {
    match e.member("vcardArray"@) {
        Some(v) => match v.element(1) {
            Some(Json::Arr(a)) => a,
            _ => seq![],
        },
        None => seq![],
    }
}

/// A vCard row's value and types when the row is property `field` (any
/// ASCII case) with a string value.
pub open spec fn vcard_row_value(row: Json, field: Seq<char>) -> Option<(Seq<char>, Seq<Seq<char>>)> {
    match row {
        Json::Arr(r) => if r.len() >= 1 && r[0] is Str && eq_ci(r[0]->Str_0, field) && r.len() >= 4
            && r[3] is Str {
            Some(
                (
                    r[3]->Str_0,
                    match r[1].member("type"@) {
                        Some(t) => vcard_type_list(t),
                        None => seq![],
                    },
                ),
            )
        } else {
            None
        },
        _ => None,
    }
}

/// The values of property `field` among the first `n` vCard rows.
pub open spec fn vcard_list(rows: Seq<Json>, field: Seq<char>, n: int) -> Seq<(Seq<char>, Seq<Seq<char>>)>
    decreases n,
{
    if n <= 0 || n > rows.len() {
        seq![]
    } else {
        vcard_list(rows, field, n - 1) + match vcard_row_value(rows[n - 1], field) {
            Some(v) => seq![v],
            None => seq![],
        }
    }
}

/// The values of property `field` in an entity's vCard.
pub open spec fn vcard_of(e: Json, field: Seq<char>) -> Seq<(Seq<char>, Seq<Seq<char>>)> {
    vcard_list(vcard_rows(e), field, vcard_rows(e).len() as int)
}

/// The model of a vCard value.
pub open spec fn vcard_model(v: VcardValue) -> (Seq<char>, Seq<Seq<char>>) {
    (v.value@, texts(v.types@))
}

/// The values of property `field` in an entity's vCard, with their types.
pub fn vcard_values(entity: &JsonValue, field_name: &str) -> (r: Vec<VcardValue>)
    ensures
        r@.map_values(|v: VcardValue| vcard_model(v)) == vcard_of(entity@, field_name@),
{
    let mut out: Vec<VcardValue> = Vec::new();
    let rows = match entity.get("vcardArray") {
        Some(v) => match v.at(1) {
            Some(JsonValue::Array(a)) => a,
            _ => {
                assert(out@.map_values(|v: VcardValue| vcard_model(v)) =~= seq![]);
                return out;
            },
        },
        None => {
            assert(out@.map_values(|v: VcardValue| vcard_model(v)) =~= seq![]);
            return out;
        },
    };
    let ghost a = items_view(rows@, rows@.len() as int);
    proof {
        lemma_items_view(rows@, rows@.len() as int);
    }
    let mut i: usize = 0;
    while i < rows.len()
        invariant
            a == vcard_rows(entity@),
            a == items_view(rows@, rows@.len() as int),
            a.len() == rows.len(),
            forall|k: int| 0 <= k < rows.len() ==> #[trigger] a[k] == rows@[k]@,
            i <= rows.len(),
            out@.map_values(|v: VcardValue| vcard_model(v)) == vcard_list(a, field_name@, i as int),
        decreases rows.len() - i,
    {
        let ghost before = out@;
        let mut found: Option<VcardValue> = None;
        match &rows[i] {
            JsonValue::Array(row) => {
                proof {
                    lemma_items_view(row@, row@.len() as int);
                }
                if row.len() >= 4 {
                    match (&row[0], &row[3]) {
                        (JsonValue::String(name), JsonValue::String(value)) => {
                            if eq_ignore_ascii_case(name.as_str(), field_name) {
                                let types = match row[1].get("type") {
                                    Some(t) => vcard_type_values(t),
                                    None => {
                                        let e: Vec<String> = Vec::new();
                                        assert(texts(e@) =~= seq![]);
                                        e
                                    },
                                };
                                found = Some(VcardValue { value: value.clone(), types });
                            }
                        },
                        _ => {},
                    }
                }
            },
            _ => {},
        }
        match found {
            Some(fv) => {
                proof {
                    assert(vcard_row_value(a[i as int], field_name@) == Some(vcard_model(fv)));
                }
                out.push(fv);
                proof {
                    assert(out@.map_values(|v: VcardValue| vcard_model(v)) =~= before.map_values(|v: VcardValue| vcard_model(v)).push(vcard_model(fv)));
                }
            },
            None => {
                proof {
                    assert(vcard_row_value(a[i as int], field_name@) is None);
                    assert(vcard_list(a, field_name@, i + 1) =~= vcard_list(a, field_name@, i as int) + seq![]);
                }
            },
        }
        i = i + 1;
    }
    out
}

/// Whether an entity's roles include `expected`, in any ASCII case.
pub open spec fn has_role(e: Json, expected: Seq<char>) -> bool {
    match e.member("roles"@) {
        Some(Json::Arr(a)) => exists|i: int| 0 <= i < a.len() && #[trigger] a[i] is Str && eq_ci(a[i]->Str_0, expected),
        _ => false,
    }
}

/// Whether an entity has role `expected`.
pub fn entity_has_role(entity: &JsonValue, expected: &str) -> (r: bool)
    ensures
        r == has_role(entity@, expected@),
{
    match entity.get("roles") {
        Some(JsonValue::Array(roles)) => {
            let ghost a = items_view(roles@, roles@.len() as int);
            proof {
                lemma_items_view(roles@, roles@.len() as int);
            }
            let mut i: usize = 0;
            while i < roles.len()
                invariant
                    entity@.member("roles"@) == Some(Json::Arr(a)),
                    a == items_view(roles@, roles@.len() as int),
                    a.len() == roles.len(),
                    forall|k: int| 0 <= k < roles.len() ==> #[trigger] a[k] == roles@[k]@,
                    i <= roles.len(),
                    forall|k: int| 0 <= k < i ==> !(#[trigger] a[k] is Str && eq_ci(a[k]->Str_0, expected@)),
                decreases roles.len() - i,
            {
                match &roles[i] {
                    JsonValue::String(role) => {
                        if eq_ignore_ascii_case(role.as_str(), expected) {
                            assert(a[i as int] is Str && eq_ci(a[i as int]->Str_0, expected@));
                            return true;
                        }
                    },
                    _ => {},
                }
                i = i + 1;
            }
            false
        },
        _ => false,
    }
}

/// An entity's display name: its first vCard `fn`, else its first `org`.
pub open spec fn display_name(e: Json) -> Option<Seq<char>> {
    if vcard_of(e, "fn"@).len() > 0 {
        Some(vcard_of(e, "fn"@)[0].0)
    } else if vcard_of(e, "org"@).len() > 0 {
        Some(vcard_of(e, "org"@)[0].0)
    } else {
        None
    }
}

/// An entity's display name.
pub fn entity_display_name(entity: &JsonValue) -> (r: Option<String>)
    ensures
        (match r { Some(s) => Some(s@), None => None }) == display_name(entity@),
{
    let f = vcard_values(entity, "fn");
    if f.len() > 0 {
        assert(f@.map_values(|v: VcardValue| vcard_model(v))[0] == vcard_model(f@[0]));
        return Some(f[0].value.clone());
    }
    let o = vcard_values(entity, "org");
    if o.len() > 0 {
        assert(o@.map_values(|v: VcardValue| vcard_model(v))[0] == vcard_model(o@[0]));
        return Some(o[0].value.clone());
    }
    None
}

/// A name that looks like a RIPE maintainer object (`-MNT` or `-MAINT`, any case).
pub open spec fn maintainer_name(n: Seq<char>) -> bool {
    has_suffix(upper_ascii_str(n), "-MNT"@) || has_suffix(upper_ascii_str(n), "-MAINT"@)
}

/// Whether a name looks like a maintainer object.
pub fn looks_like_maintainer_name(name: &str) -> (r: bool)
    ensures
        r == maintainer_name(name@),
{
    let upper = to_ascii_uppercase(name);
    ends_with(upper.as_str(), "-MNT") || ends_with(upper.as_str(), "-MAINT")
}

/// The display names of the registrant entities among the first `n`.
pub open spec fn registrant_names(es: Seq<Json>, n: int) -> Seq<Seq<char>>
    decreases n,
{
    if n <= 0 || n > es.len() {
        seq![]
    } else {
        registrant_names(es, n - 1) + if has_role(es[n - 1], "registrant"@) && display_name(es[n - 1]) is Some {
            seq![display_name(es[n - 1])->0]
        } else {
            seq![]
        }
    }
}

/// The first of `names` from `i` on that is not a maintainer name.
pub open spec fn first_non_maintainer(names: Seq<Seq<char>>, i: int) -> Option<Seq<char>>
    decreases names.len() - i,
{
    if i < 0 || i >= names.len() {
        None
    } else if !maintainer_name(names[i]) {
        Some(names[i])
    } else {
        first_non_maintainer(names, i + 1)
    }
}

/// The first display name among entities `i..`.
pub open spec fn first_display_name(es: Seq<Json>, i: int) -> Option<Seq<char>>
    decreases es.len() - i,
{
    if i < 0 || i >= es.len() {
        None
    } else if display_name(es[i]) is Some {
        display_name(es[i])
    } else {
        first_display_name(es, i + 1)
    }
}

/// The organization behind a network: the first registrant that is not a
/// maintainer object, else the first registrant, else the first named entity.
pub open spec fn organization_of(es: Seq<Json>) -> Option<Seq<char>> {
    let regs = registrant_names(es, es.len() as int);
    match first_non_maintainer(regs, 0) {
        Some(n) => Some(n),
        None => if regs.len() > 0 {
            Some(regs[0])
        } else {
            first_display_name(es, 0)
        },
    }
}

/// The organization named by RDAP entities.
pub fn organization_name(entities: &Vec<JsonValue>) -> (r: Option<String>)
    ensures
        (match r { Some(s) => Some(s@), None => None }) == organization_of(items_view(entities@, entities@.len() as int)),
{
    let ghost es = items_view(entities@, entities@.len() as int);
    proof {
        lemma_items_view(entities@, entities@.len() as int);
    }
    let mut regs: Vec<String> = Vec::new();
    let mut i: usize = 0;
    while i < entities.len()
        invariant
            es == items_view(entities@, entities@.len() as int),
            es.len() == entities.len(),
            forall|k: int| 0 <= k < entities.len() ==> #[trigger] es[k] == entities@[k]@,
            i <= entities.len(),
            texts(regs@) == registrant_names(es, i as int),
        decreases entities.len() - i,
    {
        if entity_has_role(&entities[i], "registrant") {
            match entity_display_name(&entities[i]) {
                Some(n) => {
                    let ghost before = regs@;
                    regs.push(n);
                    proof {
                        lemma_texts_push(before, n);
                    }
                },
                None => {
                    assert(registrant_names(es, i + 1) =~= registrant_names(es, i as int) + seq![]);
                },
            }
        } else {
            assert(registrant_names(es, i + 1) =~= registrant_names(es, i as int) + seq![]);
        }
        i = i + 1;
    }
    let ghost names = texts(regs@);
    let mut j: usize = 0;
    while j < regs.len()
        invariant
            es == items_view(entities@, entities@.len() as int),
            names == texts(regs@),
            names == registrant_names(es, es.len() as int),
            j <= regs.len(),
            first_non_maintainer(names, 0) == first_non_maintainer(names, j as int),
        decreases regs.len() - j,
    {
        assert(names[j as int] == regs@[j as int]@);
        if !looks_like_maintainer_name(regs[j].as_str()) {
            return Some(regs[j].clone());
        }
        j = j + 1;
    }
    if regs.len() > 0 {
        assert(names[0] == regs@[0]@);
        return Some(regs[0].clone());
    }
    let mut k: usize = 0;
    while k < entities.len()
        invariant
            es == items_view(entities@, entities@.len() as int),
            es.len() == entities.len(),
            forall|m: int| 0 <= m < entities.len() ==> #[trigger] es[m] == entities@[m]@,
            k <= entities.len(),
            organization_of(es) == first_display_name(es, k as int),
        decreases entities.len() - k,
    {
        match entity_display_name(&entities[k]) {
            Some(n) => {
                return Some(n);
            },
            None => {},
        }
        k = k + 1;
    }
    None
}


/// Model of an abuse contact.
pub struct ContactModel {
    pub name: Option<Seq<char>>,
    pub role: Option<Seq<char>>,
    pub emails: Seq<Seq<char>>,
}

/// The text of an optional string.
pub open spec fn opt_seq(o: Option<String>) -> Option<Seq<char>> {
    match o {
        Some(s) => Some(s@),
        None => None,
    }
}

/// The model of an abuse contact.
pub open spec fn contact_model(c: AbuseContact) -> ContactModel {
    ContactModel { name: opt_seq(c.name), role: opt_seq(c.role), emails: texts(c.emails@) }
}

/// An entity's roles joined with `, `; absent when there are none.
pub open spec fn role_text(e: Json) -> Option<Seq<char>> {
    match e.member("roles"@) {
        Some(Json::Arr(a)) => {
            let j = join_seq(str_items(a, a.len() as int), ", "@);
            if j.len() > 0 {
                Some(j)
            } else {
                None
            }
        },
        _ => None,
    }
}

/// Some email value carries the `abuse` type, in any ASCII case.
pub open spec fn has_abuse_type(vals: Seq<(Seq<char>, Seq<Seq<char>>)>) -> bool {
    exists|i: int, j: int| 0 <= i < vals.len() && 0 <= j < vals[i].1.len() && eq_ci(#[trigger] vals[i].1[j], "abuse"@)
}

/// The email values among the first `n` that contain `@`.
pub open spec fn at_emails(vals: Seq<(Seq<char>, Seq<Seq<char>>)>, n: int) -> Seq<Seq<char>>
    decreases n,
{
    if n <= 0 || n > vals.len() {
        seq![]
    } else {
        at_emails(vals, n - 1) + if vals[n - 1].0.contains('@') {
            seq![vals[n - 1].0]
        } else {
            seq![]
        }
    }
}

/// The first `n` values without later ones that lower-case (Unicode) to an
/// earlier one's lower case.
pub open spec fn dedup_lower(vs: Seq<Seq<char>>, n: int) -> Seq<Seq<char>>
    decreases n,
{
    if n <= 0 || n > vs.len() {
        seq![]
    } else {
        let prev = dedup_lower(vs, n - 1);
        if exists|k: int| 0 <= k < prev.len() && unicode_lower(#[trigger] prev[k]) == unicode_lower(vs[n - 1]) {
            prev
        } else {
            prev.push(vs[n - 1])
        }
    }
}

/// Each email value among the first `n` that contains `@` is kept.
proof fn lemma_at_emails_keeps(vals: Seq<(Seq<char>, Seq<Seq<char>>)>, n: int, k: int)
    requires
        0 <= k < n <= vals.len(),
        vals[k].0.contains('@'),
    ensures
        at_emails(vals, n).contains(vals[k].0),
    decreases n,
{
    let prev = at_emails(vals, n - 1);
    let last = if vals[n - 1].0.contains('@') {
        seq![vals[n - 1].0]
    } else {
        seq![]
    };
    assert(at_emails(vals, n) == prev + last);
    if k == n - 1 {
        assert((prev + last)[prev.len() as int] == vals[k].0);
    } else {
        lemma_at_emails_keeps(vals, n - 1, k);
        let w = choose|w: int| 0 <= w < prev.len() && prev[w] == vals[k].0;
        assert((prev + last)[w] == vals[k].0);
    }
}

/// Dropping case-insensitive repeats keeps every value up to case.
proof fn lemma_dedup_lower_keeps(vs: Seq<Seq<char>>, n: int, m: int)
    requires
        0 <= m < n <= vs.len(),
    ensures
        exists|j: int|
            0 <= j < dedup_lower(vs, n).len() && unicode_lower(#[trigger] dedup_lower(vs, n)[j]) == unicode_lower(vs[m]),
    decreases n,
{
    let prev = dedup_lower(vs, n - 1);
    let found = exists|k: int| 0 <= k < prev.len() && unicode_lower(#[trigger] prev[k]) == unicode_lower(vs[n - 1]);
    if m == n - 1 {
        if found {
            let k = choose|k: int| 0 <= k < prev.len() && unicode_lower(#[trigger] prev[k]) == unicode_lower(vs[n - 1]);
            assert(dedup_lower(vs, n)[k] == prev[k]);
        } else {
            assert(dedup_lower(vs, n)[prev.len() as int] == vs[m]);
        }
    } else {
        lemma_dedup_lower_keeps(vs, n - 1, m);
        let j = choose|j: int| 0 <= j < prev.len() && unicode_lower(#[trigger] prev[j]) == unicode_lower(vs[m]);
        assert(dedup_lower(vs, n)[j] == prev[j]);
    }
}

/// `x` is one of the email values, and contains `@`.
pub open spec fn is_email_value_with_at(vals: Seq<(Seq<char>, Seq<Seq<char>>)>, x: Seq<char>) -> bool {
    x.contains('@') && exists|k: int| 0 <= k < vals.len() && #[trigger] vals[k].0 == x
}

/// Each email value kept among the first `n` is one of them that contains `@`.
proof fn lemma_at_emails_from(vals: Seq<(Seq<char>, Seq<Seq<char>>)>, n: int, j: int)
    requires
        0 <= n <= vals.len(),
        0 <= j < at_emails(vals, n).len(),
    ensures
        exists|k: int| 0 <= k < n && #[trigger] vals[k].0 == at_emails(vals, n)[j] && vals[k].0.contains('@'),
    decreases n,
{
    let prev = at_emails(vals, n - 1);
    if j < prev.len() {
        lemma_at_emails_from(vals, n - 1, j);
        let k = choose|k: int| 0 <= k < n - 1 && #[trigger] vals[k].0 == prev[j] && vals[k].0.contains('@');
        assert(vals[k].0 == at_emails(vals, n)[j]);
    } else {
        assert(vals[n - 1].0 == at_emails(vals, n)[j]);
    }
}

/// What dropping case-insensitive repeats keeps comes from the input, and
/// no two kept values are equal up to case.
proof fn lemma_dedup_lower_sound(vs: Seq<Seq<char>>, n: int)
    requires
        0 <= n <= vs.len(),
    ensures
        forall|j: int|
            #![trigger dedup_lower(vs, n)[j]]
            0 <= j < dedup_lower(vs, n).len() ==> exists|m: int| 0 <= m < n && #[trigger] vs[m] == dedup_lower(vs, n)[j],
        forall|a: int, b: int|
            0 <= a < b < dedup_lower(vs, n).len() ==> unicode_lower(#[trigger] dedup_lower(vs, n)[a]) != unicode_lower(
                #[trigger] dedup_lower(vs, n)[b],
            ),
    decreases n,
{
    if n > 0 {
        lemma_dedup_lower_sound(vs, n - 1);
        let prev = dedup_lower(vs, n - 1);
        let d = dedup_lower(vs, n);
        assert forall|j: int| #![trigger d[j]] 0 <= j < d.len() implies exists|m: int| 0 <= m < n && #[trigger] vs[m] == d[j] by {
            if j < prev.len() {
                assert(d[j] == prev[j]);
                let m = choose|m: int| 0 <= m < n - 1 && #[trigger] vs[m] == prev[j];
                assert(vs[m] == d[j]);
            } else {
                assert(vs[n - 1] == d[j]);
            }
        }
        assert forall|a: int, b: int| 0 <= a < b < d.len() implies unicode_lower(#[trigger] d[a]) != unicode_lower(
            #[trigger] d[b],
        ) by {
            if b < prev.len() {
                assert(d[a] == prev[a] && d[b] == prev[b]);
            } else {
                assert(d[a] == prev[a]);
            }
        }
    }
}

/// An entity's contact lists only its own vCard email values that contain
/// `@`, each at most once up to letter case.
pub proof fn law_abuse_contact_addresses_are_its_own(e: Json, c: ContactModel)
    requires
        entity_contact_of(e) == Some(c),
    ensures
        forall|j: int| 0 <= j < c.emails.len() ==> is_email_value_with_at(vcard_of(e, "email"@), #[trigger] c.emails[j]),
        forall|a: int, b: int|
            0 <= a < b < c.emails.len() ==> unicode_lower(#[trigger] c.emails[a]) != unicode_lower(#[trigger] c.emails[b]),
{
    let vals = vcard_of(e, "email"@);
    let emails = at_emails(vals, vals.len() as int);
    lemma_dedup_lower_sound(emails, emails.len() as int);
    let d = dedup_lower(emails, emails.len() as int);
    assert(c.emails == d);
    assert forall|j: int| 0 <= j < c.emails.len() implies is_email_value_with_at(vals, #[trigger] c.emails[j]) by {
        assert(c.emails[j] == d[j]);
        let m = choose|m: int| 0 <= m < emails.len() && #[trigger] emails[m] == d[j];
        lemma_at_emails_from(vals, vals.len() as int, m);
    }
}

/// An abuse entity's contact lists every one of its vCard email values that
/// contains `@`, up to letter case: an entity with the abuse role or an
/// abuse-typed email has a contact, and for each such value some address of
/// the contact lower-cases to the value's lower case.
pub proof fn law_abuse_contact_lists_every_address(e: Json, k: int)
    requires
        has_role(e, "abuse"@) || has_abuse_type(vcard_of(e, "email"@)),
        0 <= k < vcard_of(e, "email"@).len(),
        vcard_of(e, "email"@)[k].0.contains('@'),
    ensures
        entity_contact_of(e) is Some,
        exists|j: int|
            0 <= j < entity_contact_of(e)->0.emails.len() && unicode_lower(#[trigger] entity_contact_of(e)->0.emails[j])
                == unicode_lower(vcard_of(e, "email"@)[k].0),
{
    let vals = vcard_of(e, "email"@);
    let emails = at_emails(vals, vals.len() as int);
    lemma_at_emails_keeps(vals, vals.len() as int, k);
    let w = choose|w: int| 0 <= w < emails.len() && emails[w] == vals[k].0;
    lemma_dedup_lower_keeps(emails, emails.len() as int, w);
    let d = dedup_lower(emails, emails.len() as int);
    assert(entity_contact_of(e)->0.emails == d);
    let j = choose|j: int| 0 <= j < d.len() && unicode_lower(#[trigger] d[j]) == unicode_lower(emails[w]);
    assert(unicode_lower(entity_contact_of(e)->0.emails[j]) == unicode_lower(vals[k].0));
}

/// The abuse contact an entity declares: one with the abuse role or an
/// abuse-typed email, with at least one address.
pub open spec fn entity_contact_of(e: Json) -> Option<ContactModel> {
    let vals = vcard_of(e, "email"@);
    if has_role(e, "abuse"@) || has_abuse_type(vals) {
        let emails = at_emails(vals, vals.len() as int);
        if emails.len() > 0 {
            Some(ContactModel { name: display_name(e), role: role_text(e), emails: dedup_lower(emails, emails.len() as int) })
        } else {
            None
        }
    } else {
        None
    }
}

/// The abuse contacts of an `entities` value, entity by entity, each
/// followed by those of its nested entities.
pub open spec fn contacts_in(v: Json) -> Seq<ContactModel>
    decreases v, 0int,
{
    match v {
        Json::Arr(a) => contacts_list(a, a.len() as int),
        _ => seq![],
    }
}

/// The abuse contacts of the first `n` entities.
pub open spec fn contacts_list(a: Seq<Json>, n: int) -> Seq<ContactModel>
    decreases a, n,
{
    if n <= 0 || n > a.len() {
        seq![]
    } else {
        contacts_list(a, n - 1) + entity_contacts(a[n - 1])
    }
}

/// An entity's own abuse contact, then those of its nested entities.
pub open spec fn entity_contacts(e: Json) -> Seq<ContactModel>
    decreases e, 0int,
{
    (match entity_contact_of(e) {
        Some(c) => seq![c],
        None => seq![],
    }) + match e {
        Json::Obj(m) => nested_contacts(m, 0),
        _ => seq![],
    }
}

/// The abuse contacts under the first `entities` member among entries `i..`.
pub open spec fn nested_contacts(m: Seq<(Seq<char>, Json)>, i: int) -> Seq<ContactModel>
    decreases m, m.len() - i,
{
    if i < 0 || i >= m.len() {
        seq![]
    } else if m[i].0 == "entities"@ {
        contacts_in(m[i].1)
    } else {
        nested_contacts(m, i + 1)
    }
}

/// The key contacts are merged under: their addresses joined with commas.
pub open spec fn contact_key(c: ContactModel) -> Seq<char> {
    join_seq(c.emails, ","@)
}

/// Adds a contact unless one with the same key is there already.
pub open spec fn insert_first(mp: Map<Seq<char>, ContactModel>, c: ContactModel) -> Map<Seq<char>, ContactModel> {
    if mp.contains_key(contact_key(c)) {
        mp
    } else {
        mp.insert(contact_key(c), c)
    }
}

/// Contacts added in order, the first for each key winning.
pub open spec fn fold_first(mp: Map<Seq<char>, ContactModel>, cs: Seq<ContactModel>) -> Map<Seq<char>, ContactModel>
    decreases cs.len(),
{
    if cs.len() == 0 {
        mp
    } else {
        insert_first(fold_first(mp, cs.drop_last()), cs.last())
    }
}

/// Adding two runs of contacts is adding the first, then the second.
pub proof fn lemma_fold_first_concat(mp: Map<Seq<char>, ContactModel>, a: Seq<ContactModel>, b: Seq<ContactModel>)
    ensures
        fold_first(mp, a + b) == fold_first(fold_first(mp, a), b),
    decreases b.len(),
{
    if b.len() == 0 {
        assert(a + b =~= a);
    } else {
        lemma_fold_first_concat(mp, a, b.drop_last());
        assert((a + b).drop_last() =~= a + b.drop_last());
    }
}

/// `nested_contacts` reads the first `entities` member.
proof fn lemma_nested_contacts(m: Seq<(Seq<char>, Json)>, i: int)
    requires
        0 <= i,
    ensures
        nested_contacts(m, i) == match key_index_from(m, "entities"@, i) {
            Some(j) => contacts_in(m[j].1),
            None => seq![],
        },
    decreases m.len() - i,
{
    if i < m.len() && m[i].0 != "entities"@ {
        lemma_nested_contacts(m, i + 1);
    }
}

/// Whether some merged entry has key `k`.
pub open spec fn has_key(v: Seq<(String, AbuseContact)>, k: Seq<char>) -> bool {
    exists|i: int| 0 <= i < v.len() && (#[trigger] v[i]).0@ == k
}

/// A merged entry with key `k`.
pub open spec fn key_position(v: Seq<(String, AbuseContact)>, k: Seq<char>) -> int {
    choose|i: int| 0 <= i < v.len() && (#[trigger] v[i]).0@ == k
}

/// The merged contacts as a map from key to contact.
pub open spec fn keyed_map(v: Seq<(String, AbuseContact)>) -> Map<Seq<char>, ContactModel> {
    Map::new(|k: Seq<char>| has_key(v, k), |k: Seq<char>| contact_model(v[key_position(v, k)].1))
}

/// Merged contacts: keys strictly ascending, each the key of its contact.
pub open spec fn keyed_sorted(v: Seq<(String, AbuseContact)>) -> bool {
    &&& forall|i: int, j: int| 0 <= i < j < v.len() ==> seq_less((#[trigger] v[i]).0@, (#[trigger] v[j]).0@)
    &&& forall|i: int| 0 <= i < v.len() ==> (#[trigger] v[i]).0@ == contact_key(contact_model(v[i].1))
}


/// An entity's roles joined with `, `.
fn role_joined(entity: &JsonValue) -> (r: Option<String>)
    ensures
        opt_seq(r) == role_text(entity@),
{
    match entity.get("roles") {
        Some(JsonValue::Array(roles)) => {
            let ghost a = items_view(roles@, roles@.len() as int);
            proof {
                lemma_items_view(roles@, roles@.len() as int);
            }
            let mut names: Vec<String> = Vec::new();
            let mut i: usize = 0;
            while i < roles.len()
                invariant
                    a == items_view(roles@, roles@.len() as int),
                    a.len() == roles.len(),
                    forall|k: int| 0 <= k < roles.len() ==> #[trigger] a[k] == roles@[k]@,
                    i <= roles.len(),
                    texts(names@) == str_items(a, i as int),
                decreases roles.len() - i,
            {
                let ghost before = names@;
                match &roles[i] {
                    JsonValue::String(s) => {
                        let c = s.clone();
                        names.push(c);
                        proof {
                            lemma_texts_push(before, c);
                        }
                    },
                    _ => {
                        assert(str_items(a, i + 1) =~= str_items(a, i as int) + seq![]);
                    },
                }
                i = i + 1;
            }
            let j = join_strings(&names, ", ");
            if j.as_str().unicode_len() > 0 {
                Some(j)
            } else {
                None
            }
        },
        _ => None,
    }
}

/// Values without later ones whose lower case (Unicode) repeats an earlier one's.
pub fn dedup(values: Vec<String>) -> (r: Vec<String>)
    ensures
        texts(r@) == dedup_lower(texts(values@), values@.len() as int),
{
    let ghost vs = texts(values@);
    let mut out: Vec<String> = Vec::new();
    let mut lowered: Vec<String> = Vec::new();
    let mut i: usize = 0;
    while i < values.len()
        invariant
            vs == texts(values@),
            i <= values.len(),
            texts(out@) == dedup_lower(vs, i as int),
            lowered.len() == out.len(),
            forall|k: int| 0 <= k < out.len() ==> #[trigger] lowered@[k]@ == unicode_lower(out@[k]@),
        decreases values.len() - i,
    {
        let l = to_lowercase(values[i].as_str());
        let mut seen = false;
        let mut k: usize = 0;
        while k < lowered.len()
            invariant
                k <= lowered.len(),
                seen <==> exists|m: int| 0 <= m < k && (#[trigger] lowered@[m])@ == l@,
            decreases lowered.len() - k,
        {
            if str_eq(lowered[k].as_str(), l.as_str()) {
                seen = true;
            }
            k = k + 1;
        }
        let ghost prev = texts(out@);
        proof {
            assert(vs[i as int] == values@[i as int]@);
            if seen {
                let m = choose|m: int| 0 <= m < lowered.len() && (#[trigger] lowered@[m])@ == l@;
                assert(prev[m] == out@[m]@);
                assert(unicode_lower(prev[m]) == unicode_lower(vs[i as int]));
            } else {
                assert forall|m: int| 0 <= m < prev.len() implies unicode_lower(#[trigger] prev[m]) != unicode_lower(vs[i as int]) by {
                    assert(prev[m] == out@[m]@);
                    assert(lowered@[m]@ != l@);
                }
            }
        }
        if !seen {
            let c = values[i].clone();
            let ghost before = out@;
            out.push(c);
            lowered.push(l);
            proof {
                lemma_texts_push(before, c);
            }
        }
        i = i + 1;
    }
    out
}

/// Whether some email value carries the `abuse` type.
fn any_abuse_type(vals: &Vec<VcardValue>) -> (r: bool)
    ensures
        r == has_abuse_type(vals@.map_values(|v: VcardValue| vcard_model(v))),
{
    let ghost vm = vals@.map_values(|v: VcardValue| vcard_model(v));
    let mut i: usize = 0;
    while i < vals.len()
        invariant
            vm == vals@.map_values(|v: VcardValue| vcard_model(v)),
            i <= vals.len(),
            forall|a: int, b: int| 0 <= a < i && 0 <= b < vm[a].1.len() ==> !eq_ci(#[trigger] vm[a].1[b], "abuse"@),
        decreases vals.len() - i,
    {
        let types = &vals[i].types;
        let mut j: usize = 0;
        while j < types.len()
            invariant
                vm == vals@.map_values(|v: VcardValue| vcard_model(v)),
                i < vals.len(),
                types == vals@[i as int].types,
                j <= types.len(),
                forall|b: int| 0 <= b < j ==> !eq_ci(#[trigger] vm[i as int].1[b], "abuse"@),
            decreases types.len() - j,
        {
            assert(vm[i as int].1[j as int] == types@[j as int]@);
            if eq_ignore_ascii_case(types[j].as_str(), "abuse") {
                assert(eq_ci(vm[i as int].1[j as int], "abuse"@));
                return true;
            }
            j = j + 1;
        }
        i = i + 1;
    }
    false
}

/// The abuse contact an entity declares, if any.
pub fn entity_contact(entity: &JsonValue) -> (r: Option<AbuseContact>)
    ensures
        match r {
            Some(c) => entity_contact_of(entity@) == Some(contact_model(c)),
            None => entity_contact_of(entity@) is None,
        },
{
    let is_abuse = entity_has_role(entity, "abuse");
    let vals = vcard_values(entity, "email");
    let ghost vm = vals@.map_values(|v: VcardValue| vcard_model(v));
    let has_abuse_email = any_abuse_type(&vals);
    if !(is_abuse || has_abuse_email) {
        return None;
    }
    let mut emails: Vec<String> = Vec::new();
    let mut i: usize = 0;
    while i < vals.len()
        invariant
            vm == vals@.map_values(|v: VcardValue| vcard_model(v)),
            i <= vals.len(),
            texts(emails@) == at_emails(vm, i as int),
        decreases vals.len() - i,
    {
        assert(vm[i as int].0 == vals@[i as int].value@);
        if contains_char(vals[i].value.as_str(), '@') {
            let c = vals[i].value.clone();
            let ghost before = emails@;
            emails.push(c);
            proof {
                lemma_texts_push(before, c);
            }
        } else {
            assert(at_emails(vm, i + 1) =~= at_emails(vm, i as int) + seq![]);
        }
        i = i + 1;
    }
    if emails.len() == 0 {
        return None;
    }
    let name = entity_display_name(entity);
    let role = role_joined(entity);
    let emails = dedup(emails);
    Some(AbuseContact { name, role, emails })
}


/// Keys of merged contacts are distinct.
proof fn lemma_keyed_distinct(v: Seq<(String, AbuseContact)>, i: int, j: int)
    requires
        keyed_sorted(v),
        0 <= i < v.len(),
        0 <= j < v.len(),
        i != j,
    ensures
        v[i].0@ != v[j].0@,
{
    if i < j {
        lemma_seq_less_irreflexive(v[i].0@);
    } else {
        lemma_seq_less_irreflexive(v[j].0@);
    }
}

/// The merged map holds each entry's contact under its key.
proof fn lemma_keyed_map_at(v: Seq<(String, AbuseContact)>, i: int)
    requires
        keyed_sorted(v),
        0 <= i < v.len(),
    ensures
        keyed_map(v).contains_key(v[i].0@),
        keyed_map(v)[v[i].0@] == contact_model(v[i].1),
{
    let k = v[i].0@;
    assert(has_key(v, k));
    let c = key_position(v, k);
    if c != i {
        lemma_keyed_distinct(v, c, i);
    }
    assert(c == i);
    assert(keyed_map(v).contains_key(k));
    assert(keyed_map(v)[k] == contact_model(v[c].1));
}

/// Adds a contact to the merged contacts unless its key is there already.
fn insert_contact(v: &mut Vec<(String, AbuseContact)>, c: AbuseContact)
    requires
        keyed_sorted(old(v)@),
    ensures
        keyed_sorted(final(v)@),
        keyed_map(final(v)@) == insert_first(keyed_map(old(v)@), contact_model(c)),
{
    let key = join_strings(&c.emails, ",");
    proof {
        reveal_strlit(",");
    }
    let ghost k = key@;
    assert(k == contact_key(contact_model(c)));
    let ghost v0 = v@;
    let mut p: usize = 0;
    while p < v.len() && str_less(v[p].0.as_str(), key.as_str())
        invariant
            v@ == v0,
            k == key@,
            p <= v.len(),
            forall|q: int| 0 <= q < p ==> seq_less((#[trigger] v0[q]).0@, k),
        decreases v.len() - p,
    {
        p = p + 1;
    }
    if p < v.len() && str_eq(v[p].0.as_str(), key.as_str()) {
        proof {
            lemma_keyed_map_at(v0, p as int);
        }
        return;
    }
    proof {
        if p < v.len() {
            lemma_seq_less_total(k, v0[p as int].0@);
        }
        assert forall|q: int| 0 <= q < v0.len() implies (#[trigger] v0[q]).0@ != k by {
            if q < p {
                lemma_seq_less_irreflexive(k);
            } else {
                if q > p {
                    lemma_seq_less_transitive(k, v0[p as int].0@, v0[q].0@);
                }
                lemma_seq_less_irreflexive(k);
            }
        }
        assert(!keyed_map(v0).contains_key(k));
    }
    let ghost cm = contact_model(c);
    v.insert(p, (key, c));
    proof {
        let v1 = v@;
        assert(v1 == v0.insert(p as int, v1[p as int]));
        assert forall|i: int, j: int| 0 <= i < j < v1.len() implies seq_less((#[trigger] v1[i]).0@, (#[trigger] v1[j]).0@) by {
            if j < p {
            } else if i < p && j == p {
            } else if i < p {
                assert(v1[j] == v0[j - 1]);
                if j - 1 == p {
                    lemma_seq_less_transitive(v0[i].0@, k, v0[p as int].0@);
                } else {
                    lemma_seq_less_transitive(v0[i].0@, v0[p as int].0@, v0[j - 1].0@);
                }
            } else if i == p {
                assert(v1[j] == v0[j - 1]);
                if j - 1 > p {
                    lemma_seq_less_transitive(k, v0[p as int].0@, v0[j - 1].0@);
                }
            } else {
                assert(v1[i] == v0[i - 1]);
                assert(v1[j] == v0[j - 1]);
            }
        }
        assert forall|i: int| 0 <= i < v1.len() implies (#[trigger] v1[i]).0@ == contact_key(contact_model(v1[i].1)) by {
            if i < p {
                assert(v1[i] == v0[i]);
            } else if i > p {
                assert(v1[i] == v0[i - 1]);
            }
        }
        assert(keyed_sorted(v1));
        assert forall|kk: Seq<char>| #[trigger] keyed_map(v1).contains_key(kk) <==> keyed_map(v0).insert(k, cm).contains_key(kk) by {
            if keyed_map(v1).contains_key(kk) {
                let q = key_position(v1, kk);
                if q < p {
                    assert(v1[q] == v0[q]);
                } else if q > p {
                    assert(v1[q] == v0[q - 1]);
                }
            }
            if keyed_map(v0).contains_key(kk) {
                let q = key_position(v0, kk);
                if q < p {
                    assert(v1[q] == v0[q]);
                } else {
                    assert(v1[q + 1] == v0[q]);
                }
            }
            if kk == k {
                assert(v1[p as int].0@ == k);
            }
        }
        assert forall|kk: Seq<char>| #[trigger] keyed_map(v1).contains_key(kk) implies keyed_map(v1)[kk] == keyed_map(v0).insert(k, cm)[kk] by {
            let q = key_position(v1, kk);
            lemma_keyed_map_at(v1, q);
            if q < p {
                assert(v1[q] == v0[q]);
                lemma_keyed_map_at(v0, q);
            } else if q > p {
                assert(v1[q] == v0[q - 1]);
                lemma_keyed_map_at(v0, q - 1);
            }
        }
        assert(keyed_map(v1) =~= keyed_map(v0).insert(k, cm));
    }
}


/// Merges the abuse contacts of an `entities` value into `contacts`, the
/// first contact for each key winning, nested entities included.
fn collect_contacts_in(entities: &JsonValue, contacts: &mut Vec<(String, AbuseContact)>)
    requires
        keyed_sorted(old(contacts)@),
    ensures
        keyed_sorted(final(contacts)@),
        keyed_map(final(contacts)@) == fold_first(keyed_map(old(contacts)@), contacts_in(entities@)),
    decreases entities,
{
    match entities {
        JsonValue::Array(a) => {
            let ghost items = items_view(a@, a@.len() as int);
            let ghost m0 = keyed_map(contacts@);
            proof {
                lemma_items_view(a@, a@.len() as int);
            }
            let mut i: usize = 0;
            while i < a.len()
                invariant
                    *entities == JsonValue::Array(*a),
                    items == items_view(a@, a@.len() as int),
                    items.len() == a.len(),
                    forall|k: int| 0 <= k < a.len() ==> #[trigger] items[k] == a@[k]@,
                    i <= a.len(),
                    keyed_sorted(contacts@),
                    keyed_map(contacts@) == fold_first(m0, contacts_list(items, i as int)),
                decreases a.len() - i,
            {
                let e = &a[i];
                let ghost own = match entity_contact_of(items[i as int]) {
                    Some(c) => seq![c],
                    None => seq![],
                };
                let ghost before = contacts@;
                match entity_contact(e) {
                    Some(c) => {
                        insert_contact(contacts, c);
                        proof {
                            assert(own == seq![contact_model(c)]);
                            assert(own.drop_last() =~= Seq::<ContactModel>::empty());
                            assert(fold_first(keyed_map(before), own.drop_last()) == keyed_map(before));
                            assert(fold_first(keyed_map(before), own) == keyed_map(contacts@));
                        }
                    },
                    None => {
                        assert(own.len() == 0);
                        assert(fold_first(keyed_map(before), own) == keyed_map(contacts@));
                    },
                }
                proof {
                    lemma_fold_first_concat(m0, contacts_list(items, i as int), own);
                }
                let ghost mid = contacts@;
                let ghost nested = match items[i as int] {
                    Json::Obj(m) => nested_contacts(m, 0),
                    _ => seq![],
                };
                match e {
                    JsonValue::Object(m) => {
                        proof {
                            lemma_entries_view(m@, m@.len() as int);
                            lemma_nested_contacts(entries_view(m@, m@.len() as int), 0);
                        }
                        match entry_position(m, "entities") {
                            Some(j) => {
                                proof {
                                    vstd::std_specs::vec::axiom_vec_index_decreases(*a, i as int);
                                    vstd::std_specs::vec::axiom_vec_index_decreases(*m, j as int);
                                    assert(decreases_to!(*entities => (*entities)->Array_0));
                                    assert(decreases_to!(a[i as int] => (a[i as int])->Object_0));
                                    assert(decreases_to!(m[j as int] => m[j as int].1));
                                    lemma_key_index_from(entries_view(m@, m@.len() as int), "entities"@, 0);
                                }
                                collect_contacts_in(&m[j].1, contacts);
                            },
                            None => {
                                assert(fold_first(keyed_map(mid), nested) == keyed_map(contacts@));
                            },
                        }
                    },
                    _ => {
                        assert(fold_first(keyed_map(mid), nested) == keyed_map(contacts@));
                    },
                }
                proof {
                    lemma_fold_first_concat(m0, contacts_list(items, i as int) + own, nested);
                    assert(entity_contacts(items[i as int]) == own + nested);
                    assert(contacts_list(items, i + 1) == contacts_list(items, i as int) + entity_contacts(items[i as int]));
                    assert(contacts_list(items, i + 1) =~= contacts_list(items, i as int) + own + nested);
                }
                i = i + 1;
            }
        },
        _ => {},
    }
}

/// Merges the abuse contacts of an optional `entities` value into `contacts`.
pub fn collect_abuse_contacts(entities: Option<&JsonValue>, contacts: &mut Vec<(String, AbuseContact)>)
    requires
        keyed_sorted(old(contacts)@),
    ensures
        keyed_sorted(final(contacts)@),
        keyed_map(final(contacts)@) == fold_first(keyed_map(old(contacts)@), match entities {
            Some(v) => contacts_in(v@),
            None => seq![],
        }),
{
    match entities {
        Some(v) => collect_contacts_in(v, contacts),
        None => {},
    }
}

/// The abuse contacts of an RDAP answer: merged by address list (the first
/// for each winning), in ascending order of that key.
pub open spec fn abuse_contacts_of(body: Json) -> Map<Seq<char>, ContactModel> {
    fold_first(Map::empty(), match body.member("entities"@) {
        Some(v) => contacts_in(v),
        None => seq![],
    })
}

impl AbuseContact {
    /// A separately owned contact with the same model.
    pub fn duplicate(&self) -> (r: AbuseContact)
        ensures
            contact_model(r) == contact_model(*self),
    {
        let mut emails: Vec<String> = Vec::new();
        let mut i: usize = 0;
        while i < self.emails.len()
            invariant
                i <= self.emails.len(),
                texts(emails@) == texts(self.emails@).take(i as int),
            decreases self.emails.len() - i,
        {
            let c = self.emails[i].clone();
            let ghost before = emails@;
            emails.push(c);
            proof {
                lemma_texts_push(before, c);
                assert(texts(self.emails@).take(i + 1) =~= texts(self.emails@).take(i as int).push(self.emails@[i as int]@));
            }
            i = i + 1;
        }
        assert(texts(self.emails@).take(self.emails.len() as int) =~= texts(self.emails@));
        let name = match &self.name {
            Some(n) => Some(n.clone()),
            None => None,
        };
        let role = match &self.role {
            Some(n) => Some(n.clone()),
            None => None,
        };
        AbuseContact { name, role, emails }
    }
}

/// The abuse contacts of an RDAP answer, in ascending order of their
/// comma-joined addresses.
pub fn abuse_contacts(body: &JsonValue) -> (r: Vec<AbuseContact>)
    ensures
        forall|i: int, j: int| 0 <= i < j < r@.len() ==> seq_less(contact_key(contact_model(#[trigger] r@[i])), contact_key(contact_model(#[trigger] r@[j]))),
        forall|i: int| 0 <= i < r@.len() ==> abuse_contacts_of(body@).contains_key(contact_key(contact_model(#[trigger] r@[i])))
            && abuse_contacts_of(body@)[contact_key(contact_model(r@[i]))] == contact_model(r@[i]),
        forall|k: Seq<char>| #[trigger] abuse_contacts_of(body@).contains_key(k) ==> exists|i: int| 0 <= i < r@.len() && contact_key(contact_model(#[trigger] r@[i])) == k,
{
    let mut merged: Vec<(String, AbuseContact)> = Vec::new();
    assert(keyed_map(merged@) =~= Map::empty());
    collect_abuse_contacts(body.get("entities"), &mut merged);
    let ghost mv = merged@;
    let mut out: Vec<AbuseContact> = Vec::new();
    let mut i: usize = 0;
    while i < merged.len()
        invariant
            merged@ == mv,
            keyed_sorted(mv),
            keyed_map(mv) == abuse_contacts_of(body@),
            i <= merged.len(),
            out.len() == i,
            forall|k: int| 0 <= k < i ==> contact_model(#[trigger] out@[k]) == contact_model(mv[k].1),
        decreases merged.len() - i,
    {
        out.push(merged[i].1.duplicate());
        i = i + 1;
    }
    proof {
        assert forall|i: int| 0 <= i < out@.len() implies abuse_contacts_of(body@).contains_key(contact_key(contact_model(#[trigger] out@[i])))
            && abuse_contacts_of(body@)[contact_key(contact_model(out@[i]))] == contact_model(out@[i]) by {
            lemma_keyed_map_at(mv, i);
        }
        assert forall|k: Seq<char>| #[trigger] abuse_contacts_of(body@).contains_key(k) implies exists|i: int| 0 <= i < out@.len() && contact_key(contact_model(#[trigger] out@[i])) == k by {
            let q = key_position(mv, k);
            assert(contact_model(out@[q]) == contact_model(mv[q].1));
        }
    }
    out
}


/// The entities of an RDAP answer; none unless an array.
pub open spec fn entities_of(body: Json) -> Seq<Json> {
    match body.member("entities"@) {
        Some(Json::Arr(a)) => a,
        _ => seq![],
    }
}

impl WhoisClient {
    /// What an RDAP answer `body` says about address `ip`: the registry's
    /// link, the network's name, handle, country and address range, the
    /// organization, and the merged abuse contacts.
    pub fn parse_rdap_response(ip: &str, body: &JsonValue) -> (r: WhoisInfo)
        ensures
            r.ip@ == ip@,
            opt_seq(r.registry_url) == self_link_of(body@),
            opt_seq(r.network_name) == string_member(body@, "name"@),
            opt_seq(r.handle) == string_member(body@, "handle"@),
            opt_seq(r.country) == string_member(body@, "country"@),
            opt_seq(r.start_address) == string_member(body@, "startAddress"@),
            opt_seq(r.end_address) == string_member(body@, "endAddress"@),
            opt_seq(r.organization) == organization_of(entities_of(body@)),
            forall|i: int, j: int| 0 <= i < j < r.abuse_contacts@.len() ==> seq_less(contact_key(contact_model(#[trigger] r.abuse_contacts@[i])), contact_key(contact_model(#[trigger] r.abuse_contacts@[j]))),
            forall|i: int| 0 <= i < r.abuse_contacts@.len() ==> abuse_contacts_of(body@).contains_key(contact_key(contact_model(#[trigger] r.abuse_contacts@[i])))
                && abuse_contacts_of(body@)[contact_key(contact_model(r.abuse_contacts@[i]))] == contact_model(r.abuse_contacts@[i]),
            forall|k: Seq<char>| #[trigger] abuse_contacts_of(body@).contains_key(k) ==> exists|i: int| 0 <= i < r.abuse_contacts@.len() && contact_key(contact_model(#[trigger] r.abuse_contacts@[i])) == k,
    {
        let organization = match body.get("entities") {
            Some(JsonValue::Array(a)) => {
                proof {
                    lemma_items_view(a@, a@.len() as int);
                }
                organization_name(a)
            },
            _ => {
                let none: Vec<JsonValue> = Vec::new();
                assert(items_view(none@, 0) =~= seq![]);
                organization_name(&none)
            },
        };
        WhoisInfo {
            ip: own(ip),
            registry_url: self_link(body),
            network_name: string_field(body, "name"),
            handle: string_field(body, "handle"),
            country: string_field(body, "country"),
            start_address: string_field(body, "startAddress"),
            end_address: string_field(body, "endAddress"),
            organization,
            abuse_contacts: abuse_contacts(body),
        }
    }
}

} // verus!
