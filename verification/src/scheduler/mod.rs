//! The incident scheduler's decisions: which aggregated sources become
//! incidents and what metrics each incident records.
use vstd::prelude::*;
use crate::config::models::SchedulerConfig;
use crate::json::{Json, JsonValue, JsonNumber, Num, json_text, entries_view, items_view, lemma_items_view,
    push_entry, push_item, str_value};
use crate::text::{own, push_str, str_eq};
use crate::elasticsearch::queries::texts;
use crate::elasticsearch::{EsError, es_error_text};
use crate::web::evidence::{single, term, term_json, array_of};
use crate::text::decimal;

verus! {

/// The `[key, count]` pair of one aggregation bucket: a string key as it is,
/// any other key as JSON text, and the count value as given.
pub open spec fn bucket_pair(b: Json) -> Option<Json> {
    match (b.member("key"@), b.member("doc_count"@)) {
        (Some(k), Some(c)) => Some(
            Json::Arr(
                seq![
                    Json::Str(
                        match k {
                            Json::Str(s) => s,
                            _ => json_text(k),
                        },
                    ),
                    c,
                ],
            ),
        ),
        _ => None,
    }
}

/// The pairs of the first `n` buckets.
pub open spec fn bucket_pairs(bs: Seq<Json>, n: int) -> Seq<Json>
    decreases n,
{
    if n <= 0 || n > bs.len() {
        seq![]
    } else {
        bucket_pairs(bs, n - 1) + match bucket_pair(bs[n - 1]) {
            Some(p) => seq![p],
            None => seq![],
        }
    }
}

/// The `[key, count]` pairs of sub-aggregation `name` of a bucket.
pub open spec fn terms_of(bucket: Json, name: Seq<char>) -> Seq<Json> {
    match bucket.member(name) {
        Some(agg) => match agg.member("buckets"@) {
            Some(Json::Arr(bs)) => bucket_pairs(bs, bs.len() as int),
            _ => seq![],
        },
        None => seq![],
    }
}

/// The last-seen time of a bucket, or `null`.
pub open spec fn last_seen_of(bucket: Json) -> Json {
    match bucket.member("last_seen"@) {
        Some(l) => match l.member("value_as_string"@) {
            Some(Json::Str(s)) => Json::Str(s),
            _ => Json::Null,
        },
        None => Json::Null,
    }
}

/// The metrics an incident records for a source's aggregation bucket.
pub open spec fn incident_details_of(lookback: u64, bucket: Json, failure_count: u64) -> Json {
    Json::Obj(
        seq![
            ("window_minutes"@, Json::Num(Num::PosInt(lookback))),
            ("failure_count"@, Json::Num(Num::PosInt(failure_count))),
            ("status_breakdown"@, Json::Arr(terms_of(bucket, "by_status"@))),
            ("methods"@, Json::Arr(terms_of(bucket, "methods"@))),
            ("top_paths"@, Json::Arr(terms_of(bucket, "top_paths"@))),
            ("target_hosts"@, Json::Arr(terms_of(bucket, "top_hosts"@))),
            ("last_seen"@, last_seen_of(bucket)),
        ],
    )
}

fn terms(bucket: &JsonValue, name: &str) -> (r: Vec<JsonValue>)
    ensures
        items_view(r@, r@.len() as int) == terms_of(bucket@, name@),
{
    let mut out: Vec<JsonValue> = Vec::new();
    let bs = match bucket.get(name) {
        Some(agg) => match agg.get("buckets") {
            Some(JsonValue::Array(bs)) => bs,
            _ => {
                assert(items_view(out@, 0) =~= seq![]);
                return out;
            },
        },
        None => {
            assert(items_view(out@, 0) =~= seq![]);
            return out;
        },
    };
    let ghost items = items_view(bs@, bs@.len() as int);
    proof {
        lemma_items_view(bs@, bs@.len() as int);
    }
    let mut i: usize = 0;
    assert(items_view(out@, 0) =~= seq![]);
    while i < bs.len()
        invariant
            items == items_view(bs@, bs@.len() as int),
            items.len() == bs.len(),
            forall|k: int| 0 <= k < bs.len() ==> #[trigger] items[k] == bs@[k]@,
            i <= bs.len(),
            items_view(out@, out@.len() as int) == bucket_pairs(items, i as int),
        decreases bs.len() - i,
    {
        let b = &bs[i];
        match (b.get("key"), b.get("doc_count")) {
            (Some(k), Some(c)) => {
                let key = match k {
                    JsonValue::String(s) => s.clone(),
                    _ => k.to_json_text(),
                };
                let mut pair: Vec<JsonValue> = Vec::new();
                push_item(&mut pair, JsonValue::String(key));
                push_item(&mut pair, c.duplicate());
                proof {
                    assert(items_view(pair@, pair@.len() as int) =~= bucket_pair(items[i as int])->0->Arr_0);
                }
                let ghost before = items_view(out@, out@.len() as int);
                push_item(&mut out, JsonValue::Array(pair));
            },
            _ => {
                assert(bucket_pairs(items, i + 1) =~= bucket_pairs(items, i as int) + seq![]);
            },
        }
        i = i + 1;
    }
    out
}

/// The metrics an incident records for a source whose aggregation bucket is
/// `bucket` and that failed `failure_count` times.
pub fn build_incident_details(config: &SchedulerConfig, bucket: &JsonValue, failure_count: u64) -> (r: JsonValue)
    ensures
        r@ == incident_details_of(config.lookback_minutes, bucket@, failure_count),
{
    let last_seen = match bucket.get("last_seen") {
        Some(l) => match l.get("value_as_string") {
            Some(JsonValue::String(s)) => JsonValue::String(s.clone()),
            _ => JsonValue::Null,
        },
        None => JsonValue::Null,
    };
    let mut m: Vec<(String, JsonValue)> = Vec::new();
    push_entry(&mut m, "window_minutes", JsonValue::Number(JsonNumber::PosInt(config.lookback_minutes)));
    push_entry(&mut m, "failure_count", JsonValue::Number(JsonNumber::PosInt(failure_count)));
    push_entry(&mut m, "status_breakdown", JsonValue::Array(terms(bucket, "by_status")));
    push_entry(&mut m, "methods", JsonValue::Array(terms(bucket, "methods")));
    push_entry(&mut m, "top_paths", JsonValue::Array(terms(bucket, "top_paths")));
    push_entry(&mut m, "target_hosts", JsonValue::Array(terms(bucket, "top_hosts")));
    push_entry(&mut m, "last_seen", last_seen);
    let r = JsonValue::Object(m);
    assert(entries_view(m@, m@.len() as int) =~= incident_details_of(config.lookback_minutes, bucket@, failure_count)->Obj_0);
    r
}

/// A source that crossed the failure threshold.
#[derive(Debug)]
pub struct IncidentCandidate {
    pub incident_id: String,
    pub source_ip: String,
    pub failure_count: u64,
    pub details: JsonValue,
}

/// The buckets of a search response's `source_ips` aggregation.
pub open spec fn source_buckets(response: Json) -> Seq<Json> {
    match response.member("aggregations"@) {
        Some(a) => match a.member("source_ips"@) {
            Some(s) => match s.member("buckets"@) {
                Some(Json::Arr(bs)) => bs,
                _ => seq![],
            },
            None => seq![],
        },
        None => seq![],
    }
}

/// The source and count of a bucket that crossed the threshold, unless the
/// source is allowlisted.
pub open spec fn candidate_of(b: Json, threshold: u64, allowlist: Seq<Seq<char>>) -> Option<(Seq<char>, u64)> {
    match (b.member("key"@), b.member("doc_count"@)) {
        (Some(Json::Str(ip)), Some(c)) => match c.unsigned() {
            Some(n) => if n >= threshold && !allowlist.contains(ip) {
                Some((ip, n))
            } else {
                None
            },
            None => None,
        },
        _ => None,
    }
}

/// The sources among the first `n` buckets that crossed the threshold and
/// are not allowlisted.
pub open spec fn candidates_of(bs: Seq<Json>, threshold: u64, allowlist: Seq<Seq<char>>, n: int) -> Seq<(Seq<char>, u64)>
    decreases n,
{
    if n <= 0 || n > bs.len() {
        seq![]
    } else {
        candidates_of(bs, threshold, allowlist, n - 1) + match candidate_of(bs[n - 1], threshold, allowlist) {
            Some(c) => seq![c],
            None => seq![],
        }
    }
}

/// Every source bucket among the first `n` that has a string key, an
/// unsigned count at least the threshold and a source outside the allowlist
/// yields a candidate with that source and count.
pub proof fn law_every_qualifying_bucket_is_a_candidate(
    bs: Seq<Json>,
    threshold: u64,
    allowlist: Seq<Seq<char>>,
    n: int,
    i: int,
    ip: Seq<char>,
    count: u64,
)
    requires
        0 <= i < n <= bs.len(),
        bs[i].member("key"@) == Some(Json::Str(ip)),
        bs[i].member("doc_count"@) matches Some(c) && c.unsigned() == Some(count),
        count >= threshold,
        !allowlist.contains(ip),
    ensures
        candidates_of(bs, threshold, allowlist, n).contains((ip, count)),
    decreases n,
{
    let prev = candidates_of(bs, threshold, allowlist, n - 1);
    let last = match candidate_of(bs[n - 1], threshold, allowlist) {
        Some(c) => seq![c],
        None => seq![],
    };
    assert(candidates_of(bs, threshold, allowlist, n) == prev + last);
    if i == n - 1 {
        assert(candidate_of(bs[i], threshold, allowlist) == Some((ip, count)));
        assert((prev + last)[prev.len() as int] == (ip, count));
    } else {
        law_every_qualifying_bucket_is_a_candidate(bs, threshold, allowlist, n - 1, i, ip, count);
        let w = choose|w: int| 0 <= w < prev.len() && prev[w] == (ip, count);
        assert((prev + last)[w] == prev[w]);
    }
}

/// Bucket `b` has the string key `ip`, an unsigned count `count` of at
/// least `threshold`, and `ip` is not allowlisted.
pub open spec fn bucket_qualifies(b: Json, threshold: u64, allowlist: Seq<Seq<char>>, ip: Seq<char>, count: u64) -> bool {
    &&& b.member("key"@) == Some(Json::Str(ip))
    &&& b.member("doc_count"@) matches Some(c) && c.unsigned() == Some(count)
    &&& count >= threshold
    &&& !allowlist.contains(ip)
}

/// Every candidate comes from a qualifying bucket among the first `n`, in
/// bucket order, and there are no more candidates than buckets.
pub proof fn law_candidates_come_from_qualifying_buckets(
    bs: Seq<Json>,
    threshold: u64,
    allowlist: Seq<Seq<char>>,
    n: int,
)
    requires
        0 <= n <= bs.len(),
    ensures
        candidates_of(bs, threshold, allowlist, n).len() <= n,
        forall|j: int|
            #![trigger candidates_of(bs, threshold, allowlist, n)[j]]
            0 <= j < candidates_of(bs, threshold, allowlist, n).len() ==> exists|i: int|
                0 <= i < n && bucket_qualifies(
                    #[trigger] bs[i],
                    threshold,
                    allowlist,
                    candidates_of(bs, threshold, allowlist, n)[j].0,
                    candidates_of(bs, threshold, allowlist, n)[j].1,
                ),
    decreases n,
{
    if n > 0 {
        law_candidates_come_from_qualifying_buckets(bs, threshold, allowlist, n - 1);
        let prev = candidates_of(bs, threshold, allowlist, n - 1);
        let cur = candidates_of(bs, threshold, allowlist, n);
        assert forall|j: int| #![trigger cur[j]] 0 <= j < cur.len() implies exists|i: int|
            0 <= i < n && bucket_qualifies(#[trigger] bs[i], threshold, allowlist, cur[j].0, cur[j].1) by {
            if j < prev.len() {
                assert(cur[j] == prev[j]);
                let i = choose|i: int|
                    0 <= i < n - 1 && bucket_qualifies(#[trigger] bs[i], threshold, allowlist, prev[j].0, prev[j].1);
            } else {
                assert(candidate_of(bs[n - 1], threshold, allowlist) == Some(cur[j]));
                assert(bucket_qualifies(bs[n - 1], threshold, allowlist, cur[j].0, cur[j].1));
            }
        }
    }
}

/// The model of a candidate.
pub open spec fn candidate_model(c: IncidentCandidate) -> (Seq<char>, u64) {
    (c.source_ip@, c.failure_count)
}

fn is_listed(ip: &str, list: &Vec<String>) -> (r: bool)
    ensures
        r == texts(list@).contains(ip@),
{
    let mut k: usize = 0;
    while k < list.len()
        invariant
            k <= list@.len(),
            forall|j: int| 0 <= j < k ==> texts(list@)[j] != ip@,
        decreases list@.len() - k,
    {
        if str_eq(list[k].as_str(), ip) {
            assert(texts(list@)[k as int] == ip@);
            return true;
        }
        k = k + 1;
    }
    false
}

/// The incidents an aggregation response calls for: one per source bucket
/// with a string key and an unsigned count of at least `failure_threshold`
/// whose source is not in `allowlist`, named `incident-<ip>` and carrying
/// the bucket's metrics. Allowlisted sources never become incidents.
pub fn incident_candidates(config: &SchedulerConfig, response: &JsonValue, allowlist: &Vec<String>) -> (r: Vec<IncidentCandidate>)
    ensures
        r@.map_values(|c: IncidentCandidate| candidate_model(c)) == candidates_of(
            source_buckets(response@),
            config.failure_threshold,
            texts(allowlist@),
            source_buckets(response@).len() as int,
        ),
        forall|i: int| 0 <= i < r@.len() ==> (#[trigger] r@[i]).incident_id@ == incident_id_of(r@[i].source_ip@),
{
    let mut out: Vec<IncidentCandidate> = Vec::new();
    let bs = match response.get("aggregations") {
        Some(a) => match a.get("source_ips") {
            Some(s) => match s.get("buckets") {
                Some(JsonValue::Array(bs)) => bs,
                _ => {
                    assert(out@.map_values(|c: IncidentCandidate| candidate_model(c)) =~= seq![]);
                    return out;
                },
            },
            None => {
                assert(out@.map_values(|c: IncidentCandidate| candidate_model(c)) =~= seq![]);
                return out;
            },
        },
        None => {
            assert(out@.map_values(|c: IncidentCandidate| candidate_model(c)) =~= seq![]);
            return out;
        },
    };
    let ghost items = items_view(bs@, bs@.len() as int);
    proof {
        lemma_items_view(bs@, bs@.len() as int);
    }
    let mut i: usize = 0;
    while i < bs.len()
        invariant
            items == items_view(bs@, bs@.len() as int),
            items == source_buckets(response@),
            items.len() == bs.len(),
            forall|k: int| 0 <= k < bs.len() ==> #[trigger] items[k] == bs@[k]@,
            i <= bs.len(),
            out@.map_values(|c: IncidentCandidate| candidate_model(c)) == candidates_of(items, config.failure_threshold, texts(allowlist@), i as int),
            forall|k: int| 0 <= k < out@.len() ==> (#[trigger] out@[k]).incident_id@ == "incident-"@ + out@[k].source_ip@,
        decreases bs.len() - i,
    {
        let b = &bs[i];
        let mut found: Option<IncidentCandidate> = None;
        match (b.get("key"), b.get("doc_count")) {
            (Some(JsonValue::String(ip)), Some(c)) => match c.as_u64() {
                Some(n) => {
                    if n >= config.failure_threshold && !is_listed(ip.as_str(), allowlist) {
                        let mut id = own("incident-");
                        push_str(&mut id, ip.as_str());
                        let details = build_incident_details(config, b, n);
                        found = Some(IncidentCandidate { incident_id: id, source_ip: ip.clone(), failure_count: n, details });
                    }
                },
                None => {},
            },
            _ => {},
        }
        let ghost before = out@;
        match found {
            Some(c) => {
                assert(candidate_of(items[i as int], config.failure_threshold, texts(allowlist@)) == Some(candidate_model(c)));
                out.push(c);
                proof {
                    assert(out@.map_values(|c: IncidentCandidate| candidate_model(c)) =~= before.map_values(|c: IncidentCandidate| candidate_model(c)).push(candidate_model(c)));
                }
            },
            None => {
                assert(candidate_of(items[i as int], config.failure_threshold, texts(allowlist@)) is None);
                assert(candidates_of(items, config.failure_threshold, texts(allowlist@), i + 1) =~= candidates_of(items, config.failure_threshold, texts(allowlist@), i as int) + seq![]);
            },
        }
        i = i + 1;
    }
    out
}


/// The database crate's error, carried as it is.
#[verifier::external_type_specification]
#[verifier::external_body]
pub struct ExSqlxError(sqlx::Error);

/// The JSON crate's error, carried as it is.
#[verifier::external_type_specification]
#[verifier::external_body]
pub struct ExSerdeJsonError(serde_json::Error);

/// Why a scheduler run failed.
#[derive(Debug)]
pub enum SchedulerError {
    Es(EsError),
    Db(sqlx::Error),
    Serialization(serde_json::Error),
}

impl From<EsError> for SchedulerError {
    fn from(e: EsError) -> (r: Self) {
        SchedulerError::Es(e)
    }
}

impl vstd::std_specs::convert::FromSpecImpl<EsError> for SchedulerError {
    open spec fn obeys_from_spec() -> bool {
        true
    }

    open spec fn from_spec(e: EsError) -> Self {
        SchedulerError::Es(e)
    }
}

impl From<sqlx::Error> for SchedulerError {
    fn from(e: sqlx::Error) -> (r: Self) {
        SchedulerError::Db(e)
    }
}

impl vstd::std_specs::convert::FromSpecImpl<sqlx::Error> for SchedulerError {
    open spec fn obeys_from_spec() -> bool {
        true
    }

    open spec fn from_spec(e: sqlx::Error) -> Self {
        SchedulerError::Db(e)
    }
}

impl From<serde_json::Error> for SchedulerError {
    fn from(e: serde_json::Error) -> (r: Self) {
        SchedulerError::Serialization(e)
    }
}

impl vstd::std_specs::convert::FromSpecImpl<serde_json::Error> for SchedulerError {
    open spec fn obeys_from_spec() -> bool {
        true
    }

    open spec fn from_spec(e: serde_json::Error) -> Self {
        SchedulerError::Serialization(e)
    }
}

/// The display text of a database error, as the database crate writes it.
/// Nothing is stated of the text.
#[verifier::external_body]
fn sqlx_error_text(e: &sqlx::Error) -> (r: String) {
    format!("{}", e)
}

/// The display text of a JSON error, as the JSON crate writes it. Nothing is
/// stated of the text.
#[verifier::external_body]
fn serde_json_error_text(e: &serde_json::Error) -> (r: String) {
    format!("{}", e)
}

impl SchedulerError {
    /// The error's message: a prefix naming the failing part, then the
    /// underlying error's text.
    pub fn to_string(&self) -> (r: String)
        ensures
            match *self {
                SchedulerError::Es(e) => r@ == "Elasticsearch error: "@ + es_error_text(e),
                SchedulerError::Db(_) => r@.len() >= 16 && r@.subrange(0, 16) == "Database error: "@,
                SchedulerError::Serialization(_) => r@.len() >= 21 && r@.subrange(0, 21)
                    == "Serialization error: "@,
            },
    {
        proof {
            reveal_strlit("Database error: ");
            reveal_strlit("Serialization error: ");
        }
        match self {
            SchedulerError::Es(e) => {
                let mut r = own("Elasticsearch error: ");
                let t = e.to_string();
                push_str(&mut r, t.as_str());
                r
            },
            SchedulerError::Db(e) => {
                let mut r = own("Database error: ");
                let t = sqlx_error_text(e);
                push_str(&mut r, t.as_str());
                r
            },
            SchedulerError::Serialization(e) => {
                let mut r = own("Serialization error: ");
                let t = serde_json_error_text(e);
                push_str(&mut r, t.as_str());
                r
            },
        }
    }
}


/// `{"terms": {"field": f}}`, with a size when given.
pub open spec fn terms_json(field: Seq<char>, size: Option<u64>) -> Json {
    Json::Obj(
        seq![
            (
                "terms"@,
                Json::Obj(
                    match size {
                        Some(n) => seq![("field"@, Json::Str(field)), ("size"@, Json::Num(Num::PosInt(n)))],
                        None => seq![("field"@, Json::Str(field))],
                    },
                ),
            ),
        ],
    )
}

/// The detection search: requests of the look-back window answered 401 or
/// 403, aggregated by source (the top 50), with each source's status,
/// method, path and host breakdowns and its last request time. Members are
/// in the order JSON text writes them.
pub open spec fn detection_query_json(cfg: SchedulerConfig) -> Json {
    let gte = "now-"@ + decimal(cfg.lookback_minutes as nat) + "m"@;
    Json::Obj(
        seq![
            (
                "aggs"@,
                Json::Obj(
                    seq![
                        (
                            "source_ips"@,
                            Json::Obj(
                                seq![
                                    (
                                        "aggs"@,
                                        Json::Obj(
                                            seq![
                                                ("by_status"@, terms_json(cfg.status_field@, None)),
                                                (
                                                    "last_seen"@,
                                                    Json::Obj(
                                                        seq![
                                                            (
                                                                "max"@,
                                                                Json::Obj(
                                                                    seq![
                                                                        ("field"@, Json::Str(cfg.time_field@)),
                                                                        ("format"@, Json::Str("strict_date_optional_time"@)),
                                                                    ],
                                                                ),
                                                            ),
                                                        ],
                                                    ),
                                                ),
                                                ("methods"@, terms_json(cfg.request_method_field@, Some(5))),
                                                ("top_hosts"@, terms_json(cfg.request_host_field@, Some(5))),
                                                ("top_paths"@, terms_json(cfg.request_path_field@, Some(8))),
                                            ],
                                        ),
                                    ),
                                    (
                                        "terms"@,
                                        Json::Obj(
                                            seq![
                                                ("field"@, Json::Str(cfg.client_host_field@)),
                                                ("size"@, Json::Num(Num::PosInt(50))),
                                            ],
                                        ),
                                    ),
                                ],
                            ),
                        ),
                    ],
                ),
            ),
            (
                "query"@,
                Json::Obj(
                    seq![
                        (
                            "bool"@,
                            Json::Obj(
                                seq![
                                    ("minimum_should_match"@, Json::Num(Num::PosInt(1))),
                                    (
                                        "must"@,
                                        Json::Arr(
                                            seq![
                                                Json::Obj(
                                                    seq![
                                                        (
                                                            "range"@,
                                                            Json::Obj(
                                                                seq![(cfg.time_field@, Json::Obj(seq![("gte"@, Json::Str(gte))]))],
                                                            ),
                                                        ),
                                                    ],
                                                ),
                                            ],
                                        ),
                                    ),
                                    (
                                        "should"@,
                                        Json::Arr(
                                            seq![
                                                term_json(cfg.status_field@, Json::Num(Num::PosInt(401))),
                                                term_json(cfg.status_field@, Json::Num(Num::PosInt(403))),
                                            ],
                                        ),
                                    ),
                                ],
                            ),
                        ),
                    ],
                ),
            ),
            ("size"@, Json::Num(Num::PosInt(0))),
        ],
    )
}

fn terms_value(field: &str, size: Option<u64>) -> (r: JsonValue)
    ensures
        r@ == terms_json(field@, size),
{
    let mut m: Vec<(String, JsonValue)> = Vec::new();
    proof {
        crate::json::lemma_entries_view(Seq::<(String, JsonValue)>::empty(), 0);
    }
    push_entry(&mut m, "field", str_value(field));
    match size {
        Some(n) => push_entry(&mut m, "size", JsonValue::Number(JsonNumber::PosInt(n))),
        None => {},
    }
    let ghost inner = match size {
        Some(n) => seq![("field"@, Json::Str(field@)), ("size"@, Json::Num(Num::PosInt(n)))],
        None => seq![("field"@, Json::Str(field@))],
    };
    assert(entries_view(m@, m@.len() as int) =~= inner);
    single("terms", JsonValue::Object(m))
}

fn object_from(m: Vec<(String, JsonValue)>) -> (r: JsonValue)
    ensures
        r@ == Json::Obj(entries_view(m@, m@.len() as int)),
{
    JsonValue::Object(m)
}

/// The detection search of the scheduler.
pub fn detection_query(cfg: &SchedulerConfig) -> (r: JsonValue)
    ensures
        r@ == detection_query_json(*cfg),
{
    proof {
        crate::json::lemma_entries_view(Seq::<(String, JsonValue)>::empty(), 0);
        crate::json::lemma_items_view(Seq::<JsonValue>::empty(), 0);
    }
    let mut max_m: Vec<(String, JsonValue)> = Vec::new();
    push_entry(&mut max_m, "field", str_value(cfg.time_field.as_str()));
    push_entry(&mut max_m, "format", str_value("strict_date_optional_time"));
    let ghost max_seq = seq![
        ("field"@, Json::Str(cfg.time_field@)),
        ("format"@, Json::Str("strict_date_optional_time"@)),
    ];
    assert(entries_view(max_m@, max_m@.len() as int) =~= max_seq);
    let last_seen = single("max", object_from(max_m));
    let mut sub: Vec<(String, JsonValue)> = Vec::new();
    push_entry(&mut sub, "by_status", terms_value(cfg.status_field.as_str(), None));
    push_entry(&mut sub, "last_seen", last_seen);
    push_entry(&mut sub, "methods", terms_value(cfg.request_method_field.as_str(), Some(5)));
    push_entry(&mut sub, "top_hosts", terms_value(cfg.request_host_field.as_str(), Some(5)));
    push_entry(&mut sub, "top_paths", terms_value(cfg.request_path_field.as_str(), Some(8)));
    let ghost sub_seq = seq![
        ("by_status"@, terms_json(cfg.status_field@, None)),
        ("last_seen"@, Json::Obj(seq![("max"@, Json::Obj(max_seq))])),
        ("methods"@, terms_json(cfg.request_method_field@, Some(5))),
        ("top_hosts"@, terms_json(cfg.request_host_field@, Some(5))),
        ("top_paths"@, terms_json(cfg.request_path_field@, Some(8))),
    ];
    assert(entries_view(sub@, sub@.len() as int) =~= sub_seq);
    let mut src_terms: Vec<(String, JsonValue)> = Vec::new();
    push_entry(&mut src_terms, "field", str_value(cfg.client_host_field.as_str()));
    push_entry(&mut src_terms, "size", JsonValue::Number(JsonNumber::PosInt(50)));
    let ghost src_terms_seq = seq![
        ("field"@, Json::Str(cfg.client_host_field@)),
        ("size"@, Json::Num(Num::PosInt(50))),
    ];
    assert(entries_view(src_terms@, src_terms@.len() as int) =~= src_terms_seq);
    let mut source_ips: Vec<(String, JsonValue)> = Vec::new();
    push_entry(&mut source_ips, "aggs", object_from(sub));
    push_entry(&mut source_ips, "terms", object_from(src_terms));
    let ghost source_seq = seq![("aggs"@, Json::Obj(sub_seq)), ("terms"@, Json::Obj(src_terms_seq))];
    assert(entries_view(source_ips@, source_ips@.len() as int) =~= source_seq);
    let aggs = single("source_ips", object_from(source_ips));
    let mut gte = own("now-");
    push_str(&mut gte, crate::text::u64_text(cfg.lookback_minutes).as_str());
    push_str(&mut gte, "m");
    let range = single("range", single(cfg.time_field.as_str(), single("gte", str_value(gte.as_str()))));
    let ghost range_j = range@;
    let mut must: Vec<JsonValue> = Vec::new();
    push_item(&mut must, range);
    assert(items_view(must@, must@.len() as int) =~= seq![range_j]);
    let mut should: Vec<JsonValue> = Vec::new();
    push_item(&mut should, term(cfg.status_field.as_str(), JsonValue::Number(JsonNumber::PosInt(401))));
    push_item(&mut should, term(cfg.status_field.as_str(), JsonValue::Number(JsonNumber::PosInt(403))));
    let ghost should_seq = seq![
        term_json(cfg.status_field@, Json::Num(Num::PosInt(401))),
        term_json(cfg.status_field@, Json::Num(Num::PosInt(403))),
    ];
    assert(items_view(should@, should@.len() as int) =~= should_seq);
    let mut b: Vec<(String, JsonValue)> = Vec::new();
    push_entry(&mut b, "minimum_should_match", JsonValue::Number(JsonNumber::PosInt(1)));
    push_entry(&mut b, "must", array_of(must));
    push_entry(&mut b, "should", array_of(should));
    let ghost b_seq = seq![
        ("minimum_should_match"@, Json::Num(Num::PosInt(1))),
        ("must"@, Json::Arr(seq![range_j])),
        ("should"@, Json::Arr(should_seq)),
    ];
    assert(entries_view(b@, b@.len() as int) =~= b_seq);
    let query = single("bool", object_from(b));
    let ghost aggs_j = aggs@;
    let ghost query_j = query@;
    let mut top: Vec<(String, JsonValue)> = Vec::new();
    push_entry(&mut top, "aggs", aggs);
    push_entry(&mut top, "query", query);
    push_entry(&mut top, "size", JsonValue::Number(JsonNumber::PosInt(0)));
    let ghost top_seq = seq![("aggs"@, aggs_j), ("query"@, query_j), ("size"@, Json::Num(Num::PosInt(0)))];
    assert(entries_view(top@, top@.len() as int) =~= top_seq);
    let r = object_from(top);
    assert(r@ == Json::Obj(top_seq));
    r
}


/// The incident id of a source address.
pub open spec fn incident_id_of(ip: Seq<char>) -> Seq<char> {
    "incident-"@ + ip
}

/// Incident ids are stable per source: two candidates share an id exactly
/// when they come from the same address, so a persistent source keeps one
/// incident that each run refreshes.
pub proof fn law_incident_id_per_source(a: Seq<char>, b: Seq<char>)
    ensures
        incident_id_of(a) == incident_id_of(b) <==> a == b,
{
    if incident_id_of(a) == incident_id_of(b) {
        let p = "incident-"@;
        assert(a =~= incident_id_of(a).skip(p.len() as int));
        assert(b =~= incident_id_of(b).skip(p.len() as int));
    }
}


/// An allowlisted address never becomes an incident: no candidate drawn
/// from any buckets has an allowlisted source.
pub proof fn law_allowlisted_never_incident(
    bs: Seq<Json>,
    threshold: u64,
    allowlist: Seq<Seq<char>>,
    n: int,
    ip: Seq<char>,
)
    requires
        allowlist.contains(ip),
    ensures
        forall|k: int|
            0 <= k < candidates_of(bs, threshold, allowlist, n).len() ==> (#[trigger] candidates_of(
                bs,
                threshold,
                allowlist,
                n,
            )[k]).0 != ip,
    decreases n,
{
    if n > 0 && n <= bs.len() {
        law_allowlisted_never_incident(bs, threshold, allowlist, n - 1, ip);
        let prev = candidates_of(bs, threshold, allowlist, n - 1);
        let last = match candidate_of(bs[n - 1], threshold, allowlist) {
            Some(c) => seq![c],
            None => seq![],
        };
        assert forall|k: int|
            0 <= k < candidates_of(bs, threshold, allowlist, n).len() implies (#[trigger] candidates_of(
            bs,
            threshold,
            allowlist,
            n,
        )[k]).0 != ip by {
            if k < prev.len() {
                assert(candidates_of(bs, threshold, allowlist, n)[k] == prev[k]);
            } else {
                assert(candidates_of(bs, threshold, allowlist, n)[k] == last[k - prev.len()]);
            }
        }
    }
}

} // verus!
