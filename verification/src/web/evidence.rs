//! Raw log evidence for abuse reports: the Elasticsearch query that finds the
//! source's refused requests and the events read back from its hits.
use vstd::prelude::*;
use crate::config::models::SchedulerConfig;
use crate::elasticsearch::queries::{Hit, texts};
use crate::json::{Json, JsonValue, JsonNumber, Num, json_text};
use crate::text::{has_suffix, truncated, collapse_ws, bool_text, own, chars_of, string_of_range, ends_with,
    push_char, bool_string};
use crate::web::api::{opt_chars, LogEvidenceEvent, compact_log_value, sanitize_path, sanitized_path};
use crate::db::queries::IncidentDb;
use crate::k8s::blocker::{strictly_sorted, insert_sorted};
use crate::json::{items_view, entries_view, push_entry, push_item, str_value};
use crate::text::{decimal_int, i64_text, push_str};

verus! {

/// The parts of `s` between the occurrences of `sep` (`str::split`).
pub open spec fn split_on(s: Seq<char>, sep: char) -> Seq<Seq<char>>
    decreases s.len(),
{
    if s.len() == 0 {
        seq![seq![]]
    } else {
        let g = split_on(s.drop_last(), sep);
        if s.last() == sep {
            g.push(seq![])
        } else {
            g.update(g.len() - 1, g.last().push(s.last()))
        }
    }
}

proof fn lemma_split_on_len(s: Seq<char>, sep: char)
    ensures
        split_on(s, sep).len() >= 1,
    decreases s.len(),
{
    if s.len() > 0 {
        lemma_split_on_len(s.drop_last(), sep);
    }
}

/// Splits `s` at each `sep`.
fn split_chars(s: &str, sep: char) -> (r: Vec<String>)
    ensures
        texts(r@) == split_on(s@, sep),
{
    let v = chars_of(s);
    let mut parts: Vec<String> = Vec::new();
    let mut cur = String::new();
    let mut i: usize = 0;
    while i < v.len()
        invariant
            i <= v@.len(),
            v@ == s@,
            texts(parts@).push(cur@) == split_on(v@.take(i as int), sep),
        decreases v@.len() - i,
    {
        proof {
            lemma_split_on_len(v@.take(i as int), sep);
            assert(v@.take(i as int + 1).drop_last() =~= v@.take(i as int));
        }
        if v[i] == sep {
            let done = cur;
            parts.push(done);
            cur = String::new();
            proof {
                assert(texts(parts@).push(cur@) =~= split_on(v@.take(i as int), sep).push(seq![]));
            }
        } else {
            push_char(&mut cur, v[i]);
            proof {
                let g = split_on(v@.take(i as int), sep);
                assert(texts(parts@).push(cur@) =~= g.update(g.len() - 1, g.last().push(v@[i as int])));
            }
        }
        i = i + 1;
    }
    assert(v@.take(v@.len() as int) =~= v@);
    parts.push(cur);
    parts
}

/// The value reached from `j` through the members named by the first `n`
/// parts.
pub open spec fn path_value(j: Json, parts: Seq<Seq<char>>, n: int) -> Option<Json>
    decreases n,
{
    if n <= 0 {
        Some(j)
    } else {
        match path_value(j, parts, n - 1) {
            Some(v) => v.member(parts[n - 1]),
            None => None,
        }
    }
}

/// The value at a dotted path such as `request.headers.host`.
pub open spec fn dotted(j: Json, field: Seq<char>) -> Option<Json> {
    let parts = split_on(field, '.');
    path_value(j, parts, parts.len() as int)
}

/// Follows a dotted path through nested objects.
pub fn dotted_value<'a>(source: &'a JsonValue, field: &str) -> (r: Option<&'a JsonValue>)
    ensures
        match r {
            Some(v) => dotted(source@, field@) == Some(v@),
            None => dotted(source@, field@) is None,
        },
{
    let parts = split_chars(field, '.');
    let ghost ps = split_on(field@, '.');
    let mut current = source;
    let mut i: usize = 0;
    while i < parts.len()
        invariant
            ps == split_on(field@, '.'),
            texts(parts@) == ps,
            i <= parts@.len(),
            path_value(source@, ps, i as int) == Some(current@),
        decreases parts@.len() - i,
    {
        assert(ps[i as int] == parts@[i as int]@);
        match current.get(parts[i].as_str()) {
            Some(next) => {
                current = next;
            },
            None => {
                proof {
                    assert(path_value(source@, ps, i as int + 1) is None);
                    assert(ps.len() == parts@.len());
                    lemma_path_none(source@, ps, i as int + 1, ps.len() as int);
                }
                return None;
            },
        }
        i = i + 1;
    }
    Some(current)
}

proof fn lemma_path_none(j: Json, parts: Seq<Seq<char>>, a: int, b: int)
    requires
        0 < a <= b,
        path_value(j, parts, a) is None,
    ensures
        path_value(j, parts, b) is None,
    decreases b - a,
{
    if a < b {
        lemma_path_none(j, parts, a, b - 1);
    }
}

/// A field name without its `.keyword` suffix: the name under which the
/// field stands in a hit's source.
pub open spec fn lookup_field(f: Seq<char>) -> Seq<char> {
    if has_suffix(f, ".keyword"@) {
        f.take(f.len() - 8)
    } else {
        f
    }
}

/// The source name of a field.
pub fn source_lookup_field(field: &str) -> (r: String)
    ensures
        r@ == lookup_field(field@),
{
    proof {
        reveal_strlit(".keyword");
    }
    if ends_with(field, ".keyword") {
        let v = chars_of(field);
        let r = string_of_range(&v, 0, v.len() - 8);
        assert(v@.subrange(0, v@.len() - 8) =~= v@.take(v@.len() - 8));
        r
    } else {
        own(field)
    }
}

/// The text of a scalar: a string as it is, a number or a boolean as JSON
/// writes it; nothing for other values.
pub open spec fn scalar_text(j: Json) -> Option<Seq<char>> {
    match j {
        Json::Str(s) => Some(s),
        Json::Num(_) => Some(json_text(j)),
        Json::Bool(b) => Some(bool_text(b)),
        _ => None,
    }
}

/// The text of a scalar value.
pub fn json_value_to_string(value: &JsonValue) -> (r: Option<String>)
    ensures
        match r {
            Some(t) => scalar_text(value@) == Some(t@),
            None => scalar_text(value@) is None,
        },
{
    match value {
        JsonValue::String(s) => Some(s.clone()),
        JsonValue::Number(_) => Some(value.to_json_text()),
        JsonValue::Bool(b) => Some(bool_string(*b)),
        _ => None,
    }
}

/// The value a field names in a hit's source: the member under its source
/// name, else under the name as given, else along its dotted path.
pub open spec fn field_value(source: Json, field: Seq<char>) -> Option<Json> {
    let l = lookup_field(field);
    match source.member(l) {
        Some(v) => Some(v),
        None => match source.member(field) {
            Some(v) => Some(v),
            None => dotted(source, l),
        },
    }
}

/// A field's text in a hit's source, compacted to 240 characters.
pub open spec fn source_text(source: Json, field: Seq<char>) -> Option<Seq<char>> {
    match field_value(source, field) {
        Some(v) => match scalar_text(v) {
            Some(t) => Some(truncated(collapse_ws(t), 240)),
            None => None,
        },
        None => None,
    }
}

/// A field's text in a hit's source.
pub fn source_string(source: &JsonValue, field: &str) -> (r: Option<String>)
    ensures
        match r {
            Some(t) => source_text(source@, field@) == Some(t@),
            None => source_text(source@, field@) is None,
        },
{
    let lookup = source_lookup_field(field);
    let found = match source.get(lookup.as_str()) {
        Some(v) => Some(v),
        None => match source.get(field) {
            Some(v) => Some(v),
            None => dotted_value(source, lookup.as_str()),
        },
    };
    match found {
        Some(v) => match json_value_to_string(v) {
            Some(t) => Some(compact_log_value(t.as_str(), 240)),
            None => None,
        },
        None => None,
    }
}

/// `t`, or `unknown` when absent.
pub open spec fn or_unknown(t: Option<Seq<char>>) -> Seq<char> {
    match t {
        Some(s) => s,
        None => "unknown"@,
    }
}

fn or_unknown_string(t: Option<String>) -> (r: String)
    ensures
        r@ == or_unknown(match t { Some(s) => Some(s@), None => None }),
{
    match t {
        Some(s) => s,
        None => own("unknown"),
    }
}

/// `e` is the event hit `hit` records: each configured field's text
/// (`unknown` when absent), the path without its query, the user agent from
/// `RequestUserAgent` or else `UserAgent` cut to 160 characters, and the
/// hit's index.
pub open spec fn hit_event(hit: Hit, cfg: SchedulerConfig, e: LogEvidenceEvent) -> bool {
    let ua = match source_text(hit.source@, "RequestUserAgent"@) {
        Some(t) => Some(t),
        None => source_text(hit.source@, "UserAgent"@),
    };
    &&& e.timestamp@ == or_unknown(source_text(hit.source@, cfg.time_field@))
    &&& e.source_ip@ == or_unknown(source_text(hit.source@, cfg.client_host_field@))
    &&& e.status@ == or_unknown(source_text(hit.source@, cfg.status_field@))
    &&& e.method@ == or_unknown(source_text(hit.source@, cfg.request_method_field@))
    &&& e.host@ == or_unknown(source_text(hit.source@, cfg.request_host_field@))
    &&& e.path@ == (match source_text(hit.source@, cfg.request_path_field@) {
        Some(p) => sanitized_path(p),
        None => "unknown"@,
    })
    &&& match (e.user_agent, ua) {
        (Some(u), Some(t)) => u@ == truncated(collapse_ws(t), 160),
        (None, None) => true,
        _ => false,
    }
    &&& e.index == hit.index
}

/// The event a hit records.
pub fn log_evidence_event_from_hit(hit: &Hit, cfg: &SchedulerConfig) -> (r: LogEvidenceEvent)
    ensures
        hit_event(*hit, *cfg, r),
{
    let source = &hit.source;
    let path = match source_string(source, cfg.request_path_field.as_str()) {
        Some(p) => sanitize_path(p.as_str()),
        None => own("unknown"),
    };
    let agent = match source_string(source, "RequestUserAgent") {
        Some(t) => Some(t),
        None => source_string(source, "UserAgent"),
    };
    let user_agent = match agent {
        Some(t) => Some(compact_log_value(t.as_str(), 160)),
        None => None,
    };
    LogEvidenceEvent {
        timestamp: or_unknown_string(source_string(source, cfg.time_field.as_str())),
        source_ip: or_unknown_string(source_string(source, cfg.client_host_field.as_str())),
        status: or_unknown_string(source_string(source, cfg.status_field.as_str())),
        method: or_unknown_string(source_string(source, cfg.request_method_field.as_str())),
        host: or_unknown_string(source_string(source, cfg.request_host_field.as_str())),
        path,
        user_agent,
        index: hit.index.clone(),
    }
}


/// The window an incident's evidence covers: its recorded `window_minutes`
/// when positive, else the scheduler's look-back (as a signed count).
pub open spec fn window_of_details(details: Option<Json>, lookback: u64) -> i64 {
    let recorded = match details {
        Some(d) => match d.member("window_minutes"@) {
            Some(v) => v.signed(),
            None => None,
        },
        None => None,
    };
    match recorded {
        Some(m) => if m > 0 { m } else { lookback as i64 },
        None => lookback as i64,
    }
}

/// The evidence window in minutes.
pub fn evidence_window(details: Option<&JsonValue>, lookback_minutes: u64) -> (r: i64)
    ensures
        r == window_of_details(match details { Some(d) => Some(d@), None => None }, lookback_minutes),
{
    let recorded = match details {
        Some(d) => match d.get("window_minutes") {
            Some(v) => v.as_i64(),
            None => None,
        },
        None => None,
    };
    match recorded {
        Some(m) => if m > 0 {
            m
        } else {
            #[verifier::truncate]
            (lookback_minutes as i64)
        },
        None => #[verifier::truncate]
        (lookback_minutes as i64),
    }
}

/// The RFC 3339 time `minutes` minutes after the time `value` spells, in
/// chrono's `to_rfc3339` form; `None` when `value` is no RFC 3339 time or the
/// shifted time is outside chrono's range.
pub uninterp spec fn rfc3339_shift(value: Seq<char>, minutes: int) -> Option<Seq<char>>;

/// The largest minute count chrono's `TimeDelta::minutes` accepts.
pub const MAX_DELTA_MINUTES: i64 = 153_722_867_280_912;

/// Shifts an RFC 3339 time by whole minutes (chrono's
/// `DateTime::parse_from_rfc3339`, then `checked_add_signed` of
/// `TimeDelta::minutes`, then `to_rfc3339`). The result is named by
/// `rfc3339_shift`; nothing more is stated of it.
#[verifier::external_body]
fn shift_rfc3339(value: &str, minutes: i64) -> (r: Option<String>)
    requires
        -MAX_DELTA_MINUTES <= minutes <= MAX_DELTA_MINUTES,
    ensures
        match r {
            Some(t) => rfc3339_shift(value@, minutes as int) == Some(t@),
            None => rfc3339_shift(value@, minutes as int) is None,
        },
{
    let time = chrono::DateTime::parse_from_rfc3339(value).ok()?;
    let shifted = time.checked_add_signed(chrono::TimeDelta::minutes(minutes))?;
    Some(shifted.to_rfc3339())
}

/// The time the evidence window ends at: the incident's recorded
/// `last_seen` when it is a string, else its detection time.
pub open spec fn evidence_end(incident: IncidentDb, details: Option<Json>) -> Seq<char> {
    let seen = match details {
        Some(d) => match d.member("last_seen"@) {
            Some(v) => v.text(),
            None => None,
        },
        None => None,
    };
    match seen {
        Some(t) => t,
        None => incident.detected_at@,
    }
}

/// The time range searched for evidence, `(gte, lte)`: from `w + 1`
/// minutes before the end to a minute after it (`w` the window, at least
/// one minute); `now-{w}m` and no upper bound when the end is no RFC 3339
/// time.
pub open spec fn evidence_range(end: Seq<char>, window: i64) -> (Seq<char>, Option<Seq<char>>) {
    let w: int = if window < 1 { 1 } else { window as int };
    match (rfc3339_shift(end, -(w + 1)), rfc3339_shift(end, 1)) {
        (Some(start), Some(stop)) => (start, Some(stop)),
        _ => ("now-"@ + decimal_int(w) + "m"@, None),
    }
}

/// The evidence time range of an incident.
pub fn evidence_time_range(incident: &IncidentDb, details: Option<&JsonValue>, window_minutes: i64) -> (r: (
    String,
    Option<String>,
))
    requires
        window_minutes < MAX_DELTA_MINUTES,
    ensures
        ({
            let range = evidence_range(
                evidence_end(*incident, match details { Some(d) => Some(d@), None => None }),
                window_minutes,
            );
            &&& r.0@ == range.0
            &&& match r.1 {
                Some(t) => range.1 == Some(t@),
                None => range.1 is None,
            }
        }),
{
    let seen = match details {
        Some(d) => match d.get("last_seen") {
            Some(v) => v.as_str(),
            None => None,
        },
        None => None,
    };
    let end: &str = match seen {
        Some(t) => t,
        None => incident.detected_at.as_str(),
    };
    let w: i64 = if window_minutes < 1 { 1 } else { window_minutes };
    let start = shift_rfc3339(end, -(w + 1));
    let stop = shift_rfc3339(end, 1);
    match (start, stop) {
        (Some(a), Some(b)) => (a, Some(b)),
        _ => {
            let mut t = own("now-");
            push_str(&mut t, i64_text(w).as_str());
            push_str(&mut t, "m");
            (t, None)
        },
    }
}

/// The source fields an evidence hit carries: the configured fields under
/// their source names, and the user-agent, address, origin-status, router
/// and service fields.
pub open spec fn evidence_fields(cfg: SchedulerConfig) -> Seq<Seq<char>> {
    seq![
        lookup_field(cfg.time_field@),
        lookup_field(cfg.status_field@),
        lookup_field(cfg.client_host_field@),
        lookup_field(cfg.request_method_field@),
        lookup_field(cfg.request_host_field@),
        lookup_field(cfg.request_path_field@),
        "RequestUserAgent"@,
        "UserAgent"@,
        "RequestAddr"@,
        "OriginStatus"@,
        "RouterName"@,
        "ServiceName"@,
    ]
}

/// The evidence source fields, sorted and without repeats.
pub fn evidence_source_fields(cfg: &SchedulerConfig) -> (r: Vec<String>)
    ensures
        strictly_sorted(texts(r@)),
        forall|x: Seq<char>| texts(r@).contains(x) <==> evidence_fields(*cfg).contains(x),
{
    let mut all: Vec<String> = Vec::new();
    all.push(source_lookup_field(cfg.time_field.as_str()));
    all.push(source_lookup_field(cfg.status_field.as_str()));
    all.push(source_lookup_field(cfg.client_host_field.as_str()));
    all.push(source_lookup_field(cfg.request_method_field.as_str()));
    all.push(source_lookup_field(cfg.request_host_field.as_str()));
    all.push(source_lookup_field(cfg.request_path_field.as_str()));
    all.push(own("RequestUserAgent"));
    all.push(own("UserAgent"));
    all.push(own("RequestAddr"));
    all.push(own("OriginStatus"));
    all.push(own("RouterName"));
    all.push(own("ServiceName"));
    let ghost fs = evidence_fields(*cfg);
    assert(texts(all@) =~= fs);
    let mut out: Vec<String> = Vec::new();
    let mut i: usize = 0;
    while i < all.len()
        invariant
            texts(all@) == fs,
            i <= all@.len(),
            strictly_sorted(texts(out@)),
            forall|x: Seq<char>| #[trigger] texts(out@).contains(x) <==> fs.take(i as int).contains(x),
        decreases all@.len() - i,
    {
        let s = all[i].clone();
        insert_sorted(&mut out, s);
        proof {
            assert forall|x: Seq<char>| #[trigger] fs.take(i as int + 1).contains(x) <==> (fs.take(
                i as int,
            ).contains(x) || x == fs[i as int]) by {
                if fs.take(i as int + 1).contains(x) {
                    let k = choose|k: int| 0 <= k < i + 1 && #[trigger] fs.take(i as int + 1)[k] == x;
                    if k < i {
                        assert(fs.take(i as int)[k] == x);
                    }
                }
                if fs.take(i as int).contains(x) {
                    let k = choose|k: int| 0 <= k < i && #[trigger] fs.take(i as int)[k] == x;
                    assert(fs.take(i as int + 1)[k] == x);
                }
                if x == fs[i as int] {
                    assert(fs.take(i as int + 1)[i as int] == x);
                }
            }
        }
        i = i + 1;
    }
    assert(fs.take(12) =~= fs);
    out
}

/// `{"term": {field: v}}`.
pub open spec fn term_json(field: Seq<char>, v: Json) -> Json {
    Json::Obj(seq![("term"@, Json::Obj(seq![(field, v)]))])
}

/// The strings of a list as JSON strings.
pub open spec fn str_items(s: Seq<Seq<char>>) -> Seq<Json> {
    s.map_values(|t: Seq<char>| Json::Str(t))
}

/// The evidence search: the source's requests in the time range that were
/// answered 401 or 403, the ten most recent first, with the given source
/// fields. Members are in the order JSON text writes them.
pub open spec fn evidence_query_json(
    cfg: SchedulerConfig,
    ip: Seq<char>,
    range: (Seq<char>, Option<Seq<char>>),
    fields: Seq<Seq<char>>,
) -> Json {
    let bounds = match range.1 {
        Some(l) => seq![("gte"@, Json::Str(range.0)), ("lte"@, Json::Str(l))],
        None => seq![("gte"@, Json::Str(range.0))],
    };
    let must = Json::Arr(
        seq![
            term_json(cfg.client_host_field@, Json::Str(ip)),
            Json::Obj(seq![("range"@, Json::Obj(seq![(cfg.time_field@, Json::Obj(bounds))]))]),
        ],
    );
    let should = Json::Arr(
        seq![
            term_json(cfg.status_field@, Json::Num(Num::PosInt(401))),
            term_json(cfg.status_field@, Json::Num(Num::PosInt(403))),
        ],
    );
    Json::Obj(
        seq![
            ("_source"@, Json::Arr(str_items(fields))),
            (
                "query"@,
                Json::Obj(
                    seq![
                        (
                            "bool"@,
                            Json::Obj(
                                seq![
                                    ("minimum_should_match"@, Json::Num(Num::PosInt(1))),
                                    ("must"@, must),
                                    ("should"@, should),
                                ],
                            ),
                        ),
                    ],
                ),
            ),
            ("size"@, Json::Num(Num::PosInt(10))),
            (
                "sort"@,
                Json::Arr(
                    seq![
                        Json::Obj(seq![(cfg.time_field@, Json::Obj(seq![("order"@, Json::Str("desc"@))]))]),
                    ],
                ),
            ),
        ],
    )
}

pub(crate) fn single(key: &str, v: JsonValue) -> (r: JsonValue)
    ensures
        r@ == Json::Obj(seq![(key@, v@)]),
{
    let mut m: Vec<(String, JsonValue)> = Vec::new();
    push_entry(&mut m, key, v);
    proof {
        crate::json::lemma_entries_view(Seq::<(String, JsonValue)>::empty(), 0);
    }
    let r = JsonValue::Object(m);
    assert(r@ == Json::Obj(entries_view(m@, m@.len() as int)));
    r
}

pub(crate) fn term(field: &str, v: JsonValue) -> (r: JsonValue)
    ensures
        r@ == term_json(field@, v@),
{
    single("term", single(field, v))
}

pub(crate) fn array_of(items: Vec<JsonValue>) -> (r: JsonValue)
    ensures
        r@ == Json::Arr(items_view(items@, items@.len() as int)),
{
    JsonValue::Array(items)
}

/// The evidence search for `ip` over `range` with the given source fields.
pub fn evidence_query(cfg: &SchedulerConfig, ip: &str, range: (String, Option<String>), fields: &Vec<String>) -> (r:
    JsonValue)
    ensures
        r@ == evidence_query_json(
            *cfg,
            ip@,
            (range.0@, opt_chars(range.1)),
            texts(fields@),
        ),
{
    let ghost g = range.0@;
    let ghost l = opt_chars(range.1);
    let (gte, lte) = range;
    let mut bounds: Vec<(String, JsonValue)> = Vec::new();
    push_entry(&mut bounds, "gte", str_value(gte.as_str()));
    match lte {
        Some(t) => push_entry(&mut bounds, "lte", str_value(t.as_str())),
        None => {},
    }
    proof {
        crate::json::lemma_entries_view(Seq::<(String, JsonValue)>::empty(), 0);
    }
    let ghost bseq = match l {
        Some(t) => seq![("gte"@, Json::Str(g)), ("lte"@, Json::Str(t))],
        None => seq![("gte"@, Json::Str(g))],
    };
    assert(entries_view(bounds@, bounds@.len() as int) =~= bseq);
    let bounds_obj = JsonValue::Object(bounds);
    assert(bounds_obj@ == Json::Obj(bseq));
    let mut must: Vec<JsonValue> = Vec::new();
    push_item(&mut must, term(cfg.client_host_field.as_str(), str_value(ip)));
    push_item(&mut must, single("range", single(cfg.time_field.as_str(), bounds_obj)));
    let mut should: Vec<JsonValue> = Vec::new();
    push_item(&mut should, term(cfg.status_field.as_str(), JsonValue::Number(JsonNumber::PosInt(401))));
    push_item(&mut should, term(cfg.status_field.as_str(), JsonValue::Number(JsonNumber::PosInt(403))));
    proof {
        crate::json::lemma_items_view(Seq::<JsonValue>::empty(), 0);
    }
    let ghost must_j = Json::Arr(
        seq![
            term_json(cfg.client_host_field@, Json::Str(ip@)),
            Json::Obj(seq![("range"@, Json::Obj(seq![(cfg.time_field@, Json::Obj(bseq))]))]),
        ],
    );
    let ghost should_j = Json::Arr(
        seq![
            term_json(cfg.status_field@, Json::Num(Num::PosInt(401))),
            term_json(cfg.status_field@, Json::Num(Num::PosInt(403))),
        ],
    );
    assert(items_view(must@, must@.len() as int) =~= must_j->Arr_0);
    assert(items_view(should@, should@.len() as int) =~= should_j->Arr_0);
    let must_v = array_of(must);
    let should_v = array_of(should);
    let mut b: Vec<(String, JsonValue)> = Vec::new();
    push_entry(&mut b, "minimum_should_match", JsonValue::Number(JsonNumber::PosInt(1)));
    push_entry(&mut b, "must", must_v);
    push_entry(&mut b, "should", should_v);
    let ghost bool_seq = seq![
        ("minimum_should_match"@, Json::Num(Num::PosInt(1))),
        ("must"@, must_j),
        ("should"@, should_j),
    ];
    assert(entries_view(b@, b@.len() as int) =~= bool_seq);
    let query = single("bool", JsonValue::Object(b));
    let mut src: Vec<JsonValue> = Vec::new();
    let mut i: usize = 0;
    while i < fields.len()
        invariant
            i <= fields@.len(),
            items_view(src@, src@.len() as int) == str_items(texts(fields@)).take(i as int),
        decreases fields@.len() - i,
    {
        push_item(&mut src, str_value(fields[i].as_str()));
        assert(str_items(texts(fields@)).take(i as int + 1) =~= str_items(texts(fields@)).take(i as int).push(
            Json::Str(fields@[i as int]@),
        ));
        i = i + 1;
    }
    assert(str_items(texts(fields@)).take(fields@.len() as int) =~= str_items(texts(fields@)));
    let mut sort: Vec<JsonValue> = Vec::new();
    push_item(&mut sort, single(cfg.time_field.as_str(), single("order", str_value("desc"))));
    let ghost sort_j = seq![Json::Obj(seq![(cfg.time_field@, Json::Obj(seq![("order"@, Json::Str("desc"@))]))])];
    assert(items_view(sort@, sort@.len() as int) =~= sort_j);
    let src_v = array_of(src);
    let sort_v = array_of(sort);
    let mut top: Vec<(String, JsonValue)> = Vec::new();
    push_entry(&mut top, "_source", src_v);
    push_entry(&mut top, "query", query);
    push_entry(&mut top, "size", JsonValue::Number(JsonNumber::PosInt(10)));
    push_entry(&mut top, "sort", sort_v);
    let ghost top_seq = seq![
        ("_source"@, Json::Arr(str_items(texts(fields@)))),
        ("query"@, Json::Obj(seq![("bool"@, Json::Obj(bool_seq))])),
        ("size"@, Json::Num(Num::PosInt(10))),
        ("sort"@, Json::Arr(sort_j)),
    ];
    assert(entries_view(top@, top@.len() as int) =~= top_seq);
    let r = JsonValue::Object(top);
    assert(r@ == Json::Obj(top_seq));
    r
}

/// The evidence search for an incident whose details parsed as `details`:
/// its window and range, and the sorted distinct source fields.
pub fn abuse_evidence_query(cfg: &SchedulerConfig, incident: &IncidentDb, details: Option<&JsonValue>) -> (r:
    JsonValue)
    requires
        window_of_details(match details { Some(d) => Some(d@), None => None }, cfg.lookback_minutes)
            < MAX_DELTA_MINUTES,
    ensures
        exists|f: Seq<Seq<char>>|
            #![auto]
            strictly_sorted(f) && (forall|x: Seq<char>| f.contains(x) <==> evidence_fields(*cfg).contains(x))
                && r@ == evidence_query_json(
                *cfg,
                incident.source_ip@,
                evidence_range(
                    evidence_end(*incident, match details { Some(d) => Some(d@), None => None }),
                    window_of_details(match details { Some(d) => Some(d@), None => None }, cfg.lookback_minutes),
                ),
                f,
            ),
{
    let window = evidence_window(details, cfg.lookback_minutes);
    let range = evidence_time_range(incident, details, window);
    let fields = evidence_source_fields(cfg);
    let r = evidence_query(cfg, incident.source_ip.as_str(), range, &fields);
    assert(strictly_sorted(texts(fields@)));
    r
}

} // verus!
