//! Guard for Elasticsearch query DSL produced by operators or a language model.
use vstd::prelude::*;
use crate::elasticsearch::EsError;
use crate::elasticsearch::queries::{EsSearchRequest, Query, QueryType, SourceConfig, clauses_view,
    lemma_clauses_view, texts};
use crate::json::{Json, JsonValue, JsonNumber, Num, entries_view, items_view, lemma_entries_view,
    lemma_items_view, lookup, set_member, key_index, entry_position, lemma_key_index_from,
    lemma_lookup_set_member, lemma_set_member_same};
use crate::text::{contains, count_char, decimal, unicode_lower, unicode_alnum, push_str, push_char,
    u64_text, str_eq, str_contains, to_lowercase, count_occurrences, own, chars_of, is_alphanumeric};

verus! {

/// Maximum allowed size for search queries.
pub const MAX_QUERY_SIZE: usize = 1000;

/// Maximum allowed depth for nested query structures.
pub const MAX_QUERY_DEPTH: usize = 10;

/// Maximum number of terms in a terms query.
pub const MAX_TERMS_COUNT: usize = 100;

/// Maximum number of clauses in each part of a bool query.
pub const MAX_BOOL_CLAUSES: usize = 32;

/// DSL validator for Elasticsearch queries.
#[derive(Debug, Clone, Default)]
pub struct DslValidator {
    pub max_size: usize,
    pub max_depth: usize,
    pub max_terms_count: usize,
    pub max_bool_clauses: usize,
}

/// Keys that name scripts, bulk rewrites or costly aggregations, compared in
/// lower case.
pub open spec fn is_dangerous_key(k: Seq<char>) -> bool {
    let l = unicode_lower(k);
    ||| l == "script"@
    ||| l == "script_score"@
    ||| l == "scripted_score"@
    ||| l == "_update_by_query"@
    ||| l == "_delete_by_query"@
    ||| l == "_reindex"@
    ||| l == "_msearch"@
    ||| l == "_mget"@
    ||| l == "matrix_stats"@
    ||| l == "median_absolute_deviation"@
    ||| l == "geo_bounds"@
}

/// The dotted path of the first dangerous key among entries `i..` of an object,
/// looking into nested objects.
pub open spec fn dangerous_path(es: Seq<(Seq<char>, Json)>, i: int) -> Option<Seq<char>>
    decreases es, es.len() - i,
{
    if i < 0 || i >= es.len() {
        None
    } else if is_dangerous_key(es[i].0) {
        Some(es[i].0)
    } else {
        match es[i].1 {
            Json::Obj(m) => match dangerous_path(m, 0) {
                Some(d) => Some(es[i].0 + seq!['.'] + d),
                None => dangerous_path(es, i + 1),
            },
            _ => dangerous_path(es, i + 1),
        }
    }
}

/// String contents that look like script injection.
pub open spec fn is_dangerous_text(s: Seq<char>) -> bool {
    let l = unicode_lower(s);
    ||| contains(l, "script("@)
    ||| contains(l, "painless"@)
    ||| contains(l, "lang:"@)
    ||| contains(l, "ctx."@)
    ||| contains(l, "_source"@) && contains(l, "script"@)
    ||| contains(l, "params."@)
}

/// A `_source` value whose `includes` list holds a pattern with more than two `*`.
pub open spec fn source_too_wild(v: Json) -> bool {
    match v {
        Json::Obj(m) => match lookup(m, "includes"@) {
            Some(Json::Arr(items)) => exists|j: int|
                0 <= j < items.len() && #[trigger] items[j] is Str && count_char(items[j]->Str_0, '*')
                    > 2,
            _ => false,
        },
        _ => false,
    }
}

pub open spec fn depth_message(max_depth: nat) -> Seq<char> {
    "Query depth exceeds maximum limit of "@ + decimal(max_depth)
}

pub open spec fn danger_message(path: Seq<char>) -> Seq<char> {
    "Dangerous field or query type detected: "@ + path
}

pub open spec fn wildcard_message() -> Seq<char> {
    "Too many wildcards in _source includes"@
}

pub open spec fn string_message() -> Seq<char> {
    "Potentially dangerous string pattern detected"@
}

/// The first problem found in `v` at nesting `depth`, if any.
pub open spec fn check_value(v: Json, depth: int, max_depth: nat) -> Option<Seq<char>>
    decreases v, 0int,
{
    if depth > max_depth {
        Some(depth_message(max_depth))
    } else {
        match v {
            Json::Obj(m) => match dangerous_path(m, 0) {
                Some(p) => Some(danger_message(p)),
                None => check_entries(m, 0, depth, max_depth),
            },
            Json::Arr(a) => check_items(a, 0, depth, max_depth),
            Json::Str(s) => if is_dangerous_text(s) {
                Some(string_message())
            } else {
                None
            },
            _ => None,
        }
    }
}

/// Some dangerous path is found from entry `j` on when entry `i >= j` has a
/// dangerous key.
proof fn lemma_dangerous_path_found(es: Seq<(Seq<char>, Json)>, j: int, i: int)
    requires
        0 <= j <= i < es.len(),
        is_dangerous_key(es[i].0),
    ensures
        dangerous_path(es, j) is Some,
    decreases i - j,
{
    if j < i && !is_dangerous_key(es[j].0) {
        match es[j].1 {
            Json::Obj(m) => {
                if dangerous_path(m, 0) is None {
                    lemma_dangerous_path_found(es, j + 1, i);
                }
            },
            _ => {
                lemma_dangerous_path_found(es, j + 1, i);
            },
        }
    }
}

/// An object that holds a dangerous key (such as `script` or `_reindex`) is
/// refused: within the depth limit, with the dangerous-field error naming the
/// first dangerous path; beyond it, with the depth error.
pub proof fn law_dangerous_key_refused(es: Seq<(Seq<char>, Json)>, i: int, depth: int, max_depth: nat)
    requires
        0 <= i < es.len(),
        is_dangerous_key(es[i].0),
    ensures
        check_value(Json::Obj(es), depth, max_depth) is Some,
        depth <= max_depth ==> dangerous_path(es, 0) is Some && check_value(Json::Obj(es), depth, max_depth)
            == Some(danger_message(dangerous_path(es, 0)->0)),
{
    lemma_dangerous_path_found(es, 0, i);
}

/// A refused element makes the elements from `j` on refused.
proof fn lemma_items_refused(a: Seq<Json>, j: int, i: int, depth: int, max_depth: nat)
    requires
        0 <= j <= i < a.len(),
        check_value(a[i], depth + 1, max_depth) is Some,
    ensures
        check_items(a, j, depth, max_depth) is Some,
    decreases i - j,
{
    if j < i && check_value(a[j], depth + 1, max_depth) is None {
        lemma_items_refused(a, j + 1, i, depth, max_depth);
    }
}

/// Elements from `j` on that all pass leave the array's check passing.
proof fn lemma_items_pass(a: Seq<Json>, j: int, depth: int, max_depth: nat)
    requires
        0 <= j,
        forall|i: int| j <= i < a.len() ==> check_value(#[trigger] a[i], depth + 1, max_depth) is None,
    ensures
        check_items(a, j, depth, max_depth) is None,
    decreases a.len() - j,
{
    if j < a.len() {
        lemma_items_pass(a, j + 1, depth, max_depth);
    }
}

/// An array within the depth limit is refused exactly when one of its
/// elements, one level deeper, would be refused on its own.
pub proof fn law_array_passes_iff_elements_pass(a: Seq<Json>, depth: int, max_depth: nat)
    requires
        depth <= max_depth,
    ensures
        check_value(Json::Arr(a), depth, max_depth) is None <==> forall|i: int|
            0 <= i < a.len() ==> check_value(#[trigger] a[i], depth + 1, max_depth) is None,
{
    if forall|i: int| 0 <= i < a.len() ==> check_value(#[trigger] a[i], depth + 1, max_depth) is None {
        lemma_items_pass(a, 0, depth, max_depth);
    } else {
        let i = choose|i: int| 0 <= i < a.len() && !(check_value(#[trigger] a[i], depth + 1, max_depth) is None);
        law_array_refusal_propagates(a, i, depth, max_depth);
    }
}

/// The check reaches into arrays: an array holding an element that would be
/// refused on its own, one level deeper, is refused.
pub proof fn law_array_refusal_propagates(a: Seq<Json>, i: int, depth: int, max_depth: nat)
    requires
        0 <= i < a.len(),
        check_value(a[i], depth + 1, max_depth) is Some,
    ensures
        check_value(Json::Arr(a), depth, max_depth) is Some,
{
    if depth <= max_depth {
        lemma_items_refused(a, 0, i, depth, max_depth);
    }
}

/// A refused member value makes the entries from `j` on refused.
proof fn lemma_entries_refused(es: Seq<(Seq<char>, Json)>, j: int, i: int, depth: int, max_depth: nat)
    requires
        0 <= j <= i < es.len(),
        es[i].0 != "_source"@,
        check_value(es[i].1, depth + 1, max_depth) is Some,
    ensures
        check_entries(es, j, depth, max_depth) is Some,
    decreases i - j,
{
    if j < i {
        if es[j].0 == "_source"@ {
            if !source_too_wild(es[j].1) {
                lemma_entries_refused(es, j + 1, i, depth, max_depth);
            }
        } else if check_value(es[j].1, depth + 1, max_depth) is None {
            lemma_entries_refused(es, j + 1, i, depth, max_depth);
        }
    }
}

/// The check reaches into objects: an object with a member (other than
/// `_source`) whose value would be refused on its own, one level deeper, is
/// refused.
pub proof fn law_member_refusal_propagates(es: Seq<(Seq<char>, Json)>, i: int, depth: int, max_depth: nat)
    requires
        0 <= i < es.len(),
        es[i].0 != "_source"@,
        check_value(es[i].1, depth + 1, max_depth) is Some,
    ensures
        check_value(Json::Obj(es), depth, max_depth) is Some,
{
    if depth <= max_depth && dangerous_path(es, 0) is None {
        lemma_entries_refused(es, 0, i, depth, max_depth);
    }
}

/// A dangerous key (such as `script`) in an object that is an element of an
/// array is refused, within the depth limit, whatever array holds it: the
/// array is refused with the dangerous-field error.
pub proof fn law_dangerous_key_in_array_refused(a: Seq<Json>, i: int, es: Seq<(Seq<char>, Json)>, k: int, depth: int, max_depth: nat)
    requires
        0 <= i < a.len(),
        a[i] == Json::Obj(es),
        0 <= k < es.len(),
        is_dangerous_key(es[k].0),
        depth + 1 <= max_depth,
    ensures
        check_value(Json::Arr(a), depth, max_depth) is Some,
{
    law_dangerous_key_refused(es, k, depth + 1, max_depth);
    law_array_refusal_propagates(a, i, depth, max_depth);
}

/// The first problem among the entries `i..` of an object at nesting `depth`.
pub open spec fn check_entries(es: Seq<(Seq<char>, Json)>, i: int, depth: int, max_depth: nat) -> Option<Seq<char>>
    decreases es, es.len() - i,
{
    if i < 0 || i >= es.len() {
        None
    } else if es[i].0 == "_source"@ {
        if source_too_wild(es[i].1) {
            Some(wildcard_message())
        } else {
            check_entries(es, i + 1, depth, max_depth)
        }
    } else {
        match check_value(es[i].1, depth + 1, max_depth) {
            Some(e) => Some(e),
            None => check_entries(es, i + 1, depth, max_depth),
        }
    }
}

/// The first problem among the elements `i..` of an array at nesting `depth`.
pub open spec fn check_items(a: Seq<Json>, i: int, depth: int, max_depth: nat) -> Option<Seq<char>>
    decreases a, a.len() - i,
{
    if i < 0 || i >= a.len() {
        None
    } else {
        match check_value(a[i], depth + 1, max_depth) {
            Some(e) => Some(e),
            None => check_items(a, i + 1, depth, max_depth),
        }
    }
}

/// The outcome of a check, as an optional error message.
pub open spec fn dsl_outcome(r: Result<(), EsError>) -> Option<Seq<char>> {
    match r {
        Ok(()) => None,
        Err(EsError::InvalidDsl(m)) => Some(m@),
        Err(_) => Some(seq![]),
    }
}

/// A check outcome is `Ok` or an `InvalidDsl` error.
pub open spec fn is_dsl_result(r: Result<(), EsError>) -> bool {
    r is Ok || r matches Err(EsError::InvalidDsl(_))
}

fn message(prefix: &str, rest: &str) -> (r: String)
    ensures
        r@ == prefix@ + rest@,
{
    let mut r = String::new();
    push_str(&mut r, prefix);
    push_str(&mut r, rest);
    r
}

impl DslValidator {
    /// A validator with the default limits.
    pub fn new() -> (r: Self)
        ensures
            r.max_size == MAX_QUERY_SIZE,
            r.max_depth == MAX_QUERY_DEPTH,
            r.max_terms_count == MAX_TERMS_COUNT,
            r.max_bool_clauses == MAX_BOOL_CLAUSES,
    {
        DslValidator {
            max_size: MAX_QUERY_SIZE,
            max_depth: MAX_QUERY_DEPTH,
            max_terms_count: MAX_TERMS_COUNT,
            max_bool_clauses: MAX_BOOL_CLAUSES,
        }
    }

    /// A validator with custom limits.
    pub fn with_settings(
        max_size: usize,
        max_depth: usize,
        max_terms_count: usize,
        max_bool_clauses: usize,
    ) -> (r: Self)
        ensures
            r.max_size == max_size,
            r.max_depth == max_depth,
            r.max_terms_count == max_terms_count,
            r.max_bool_clauses == max_bool_clauses,
    {
        DslValidator { max_size, max_depth, max_terms_count, max_bool_clauses }
    }

    /// Whether `key` (in lower case) names a forbidden query type or field.
    pub fn is_dangerous_key(key: &str) -> (r: bool)
        ensures
            r == is_dangerous_key(key@),
    {
        let l = to_lowercase(key);
        let l = l.as_str();
        str_eq(l, "script") || str_eq(l, "script_score") || str_eq(l, "scripted_score") || str_eq(
            l,
            "_update_by_query",
        ) || str_eq(l, "_delete_by_query") || str_eq(l, "_reindex") || str_eq(l, "_msearch")
            || str_eq(l, "_mget") || str_eq(l, "matrix_stats") || str_eq(
            l,
            "median_absolute_deviation",
        ) || str_eq(l, "geo_bounds")
    }

    /// The dotted path of the first dangerous key of an object, looking into
    /// nested objects.
    pub fn detect_dangerous_fields(&self, map: &Vec<(String, JsonValue)>) -> (r: Option<String>)
        ensures
            match r {
                Some(p) => dangerous_path(entries_view(map@, map@.len() as int), 0) == Some(p@),
                None => dangerous_path(entries_view(map@, map@.len() as int), 0) is None,
            },
        decreases map,
    {
        let ghost es = entries_view(map@, map@.len() as int);
        proof {
            lemma_entries_view(map@, map@.len() as int);
        }
        let mut i: usize = 0;
        while i < map.len()
            invariant
                es == entries_view(map@, map@.len() as int),
                es.len() == map.len(),
                forall|k: int| 0 <= k < map.len() ==> #[trigger] es[k] == (map@[k].0@, map@[k].1@),
                i <= map.len(),
                dangerous_path(es, 0) == dangerous_path(es, i as int),
            decreases map.len() - i,
        {
            let key = map[i].0.as_str();
            assert(es[i as int].0 == key@);
            if Self::is_dangerous_key(key) {
                return Some(map[i].0.clone());
            }
            match &map[i].1 {
                JsonValue::Object(nested) => {
                    proof {
                        vstd::std_specs::vec::axiom_vec_index_decreases(*map, i as int);
                        assert(decreases_to!(map[i as int].1 => (map[i as int].1)->Object_0));
                    }
                    let inner = self.detect_dangerous_fields(nested);
                    match inner {
                        Some(d) => {
                            let mut p = map[i].0.clone();
                            push_str(&mut p, ".");
                            push_str(&mut p, d.as_str());
                            proof {
                                reveal_strlit(".");
                                assert(p@ =~= es[i as int].0 + seq!['.'] + d@);
                            }
                            return Some(p);
                        },
                        None => {},
                    }
                },
                _ => {},
            }
            i = i + 1;
        }
        None
    }

    /// Whether a string value looks like script injection.
    pub fn is_dangerous_string(&self, s: &str) -> (r: bool)
        ensures
            r == is_dangerous_text(s@),
    {
        let l = to_lowercase(s);
        let l = l.as_str();
        str_contains(l, "script(") || str_contains(l, "painless") || str_contains(l, "lang:")
            || str_contains(l, "ctx.") || (str_contains(l, "_source") && str_contains(l, "script"))
            || str_contains(l, "params.")
    }

    /// Whether a `_source` value's `includes` list holds a pattern with more
    /// than two `*`.
    pub fn source_includes_too_wild(&self, val: &JsonValue) -> (r: bool)
        ensures
            r == source_too_wild(val@),
    {
        match val {
            JsonValue::Object(_) => {
                let inc = val.get("includes");
                match inc {
                    Some(JsonValue::Array(items)) => {
                        let ghost its = items_view(items@, items@.len() as int);
                        proof {
                            lemma_items_view(items@, items@.len() as int);
                        }
                        let mut j: usize = 0;
                        while j < items.len()
                            invariant
                                val@ is Obj,
                                val@.member("includes"@) == Some(Json::Arr(its)),
                                its == items_view(items@, items@.len() as int),
                                its.len() == items.len(),
                                forall|k: int| 0 <= k < items.len() ==> #[trigger] its[k] == items@[k]@,
                                j <= items.len(),
                                forall|k: int|
                                    0 <= k < j ==> !(#[trigger] its[k] is Str && count_char(
                                        its[k]->Str_0,
                                        '*',
                                    ) > 2),
                            decreases items.len() - j,
                        {
                            match &items[j] {
                                JsonValue::String(t) => {
                                    assert(its[j as int] == Json::Str(t@));
                                    if count_occurrences(t.as_str(), '*') > 2 {
                                        proof {
                                            let k = j as int;
                                            assert(0 <= k < its.len() && its[k] is Str && count_char(its[k]->Str_0, '*') > 2);
                                        }
                                        return true;
                                    }
                                },
                                _ => {
                                    assert(!(its[j as int] is Str));
                                },
                            }
                            j = j + 1;
                        }
                        false
                    },
                    _ => false,
                }
            },
            _ => false,
        }
    }

    /// Checks a parsed DSL value at nesting `depth` for forbidden keys,
    /// injection-like strings, over-broad `_source` includes and excessive depth.
    pub fn validate_json_value(&self, value: &JsonValue, depth: u128) -> (r: Result<(), EsError>)
        ensures
            is_dsl_result(r),
            dsl_outcome(r) == check_value(value@, depth as int, self.max_depth as nat),
        decreases value,
    {
        if depth > self.max_depth as u128 {
            let d = u64_text(self.max_depth as u64);
            return Err(EsError::InvalidDsl(message("Query depth exceeds maximum limit of ", d.as_str())));
        }
        match value {
            JsonValue::Object(map) => {
                match self.detect_dangerous_fields(map) {
                    Some(f) => {
                        return Err(EsError::InvalidDsl(message("Dangerous field or query type detected: ", f.as_str())));
                    },
                    None => {},
                }
                let ghost es = entries_view(map@, map@.len() as int);
                proof {
                    lemma_entries_view(map@, map@.len() as int);
                }
                let mut i: usize = 0;
                while i < map.len()
                    invariant
                        *value == JsonValue::Object(*map),
                        depth <= self.max_depth,
                        dangerous_path(es, 0) is None,
                        es == entries_view(map@, map@.len() as int),
                        es.len() == map.len(),
                        forall|k: int| 0 <= k < map.len() ==> #[trigger] es[k] == (map@[k].0@, map@[k].1@),
                        i <= map.len(),
                        check_entries(es, 0, depth as int, self.max_depth as nat) == check_entries(es, i as int, depth as int, self.max_depth as nat),
                    decreases map.len() - i,
                {
                    assert(es[i as int].0 == map@[i as int].0@);
                    if str_eq(map[i].0.as_str(), "_source") {
                        if self.source_includes_too_wild(&map[i].1) {
                            return Err(EsError::InvalidDsl(own("Too many wildcards in _source includes")));
                        }
                    } else {
                        proof {
                            vstd::std_specs::vec::axiom_vec_index_decreases(*map, i as int);
                            assert(decreases_to!(*value => (*value)->Object_0));
                        }
                        let sub = self.validate_json_value(&map[i].1, depth + 1);
                        match sub {
                            Err(e) => {
                                return Err(e);
                            },
                            Ok(()) => {},
                        }
                    }
                    i = i + 1;
                }
                Ok(())
            },
            JsonValue::Array(arr) => {
                let ghost its = items_view(arr@, arr@.len() as int);
                proof {
                    lemma_items_view(arr@, arr@.len() as int);
                }
                let mut i: usize = 0;
                while i < arr.len()
                    invariant
                        *value == JsonValue::Array(*arr),
                        depth <= self.max_depth,
                        its == items_view(arr@, arr@.len() as int),
                        its.len() == arr.len(),
                        forall|k: int| 0 <= k < arr.len() ==> #[trigger] its[k] == arr@[k]@,
                        i <= arr.len(),
                        check_items(its, 0, depth as int, self.max_depth as nat) == check_items(its, i as int, depth as int, self.max_depth as nat),
                    decreases arr.len() - i,
                {
                    proof {
                        vstd::std_specs::vec::axiom_vec_index_decreases(*arr, i as int);
                        assert(decreases_to!(*value => (*value)->Array_0));
                    }
                    let sub = self.validate_json_value(&arr[i], depth + 1);
                    match sub {
                        Err(e) => {
                            return Err(e);
                        },
                        Ok(()) => {},
                    }
                    i = i + 1;
                }
                Ok(())
            },
            JsonValue::String(s) => {
                if self.is_dangerous_string(s.as_str()) {
                    Err(EsError::InvalidDsl(own("Potentially dangerous string pattern detected")))
                } else {
                    Ok(())
                }
            },
            _ => Ok(()),
        }
    }

    /// Validates a DSL query: `dsl_query` is its text and `parsed` what a JSON
    /// parser made of that text (a parse error's message on failure).
    pub fn validate(&self, dsl_query: &str, parsed: &Result<JsonValue, String>) -> (r: Result<(), EsError>)
        ensures
            is_dsl_result(r),
            dsl_outcome(r) == (if dsl_query.len() > self.max_size * 10 {
                Some("Query exceeds maximum size limit"@)
            } else {
                match *parsed {
                    Err(e) => Some("Invalid JSON in DSL query: "@ + e@),
                    Ok(v) => check_value(v@, 0, self.max_depth as nat),
                }
            }),
    {
        if dsl_query.len() as u128 > self.max_size as u128 * 10 {
            return Err(EsError::InvalidDsl(own("Query exceeds maximum size limit")));
        }
        match parsed {
            Err(e) => Err(EsError::InvalidDsl(message("Invalid JSON in DSL query: ", e.as_str()))),
            Ok(v) => self.validate_json_value(v, 0),
        }
    }
}


/// Characters a field name may keep: alphanumerics, `_`, `.` and `-`.
pub open spec fn keep_field_char(c: char) -> bool {
    unicode_alnum(c) || c == '_' || c == '.' || c == '-'
}

/// The characters of `s` that a field name may keep, in order.
pub open spec fn field_chars(s: Seq<char>) -> Seq<char> {
    s.filter(|c: char| keep_field_char(c))
}

/// The sanitized form of a field name, or the error message.
pub open spec fn sanitized_field(s: Seq<char>) -> Result<Seq<char>, Seq<char>> {
    let f = field_chars(s);
    if f.len() == 0 {
        Err("Invalid field name"@)
    } else if contains(f, ".."@) || contains(f, "*/"@) || contains(f, "*."@) {
        Err("Invalid field name pattern"@)
    } else {
        Ok(f)
    }
}

/// A wildcard value with more than two `*` or more than five `?` is refused.
pub open spec fn sanitized_wildcard(s: Seq<char>) -> Result<Seq<char>, Seq<char>> {
    if count_char(s, '*') > 2 || count_char(s, '?') > 5 {
        Err("Wildcard pattern too complex"@)
    } else {
        Ok(s)
    }
}

/// The first 50 patterns, without those holding a recursive wildcard `*/`.
pub open spec fn limited_patterns(s: Seq<Seq<char>>) -> Seq<Seq<char>> {
    s.take(if s.len() < 50 { s.len() as int } else { 50 }).filter(|p: Seq<char>| !contains(p, "*/"@))
}

/// The model of optional pattern lists.
pub open spec fn opt_texts(o: Option<Vec<String>>) -> Option<Seq<Seq<char>>> {
    match o {
        Some(v) => Some(texts(v@)),
        None => None,
    }
}

/// Pattern lists limited by `limited_patterns`, absent lists staying absent.
pub open spec fn limited_opt(o: Option<Seq<Seq<char>>>) -> Option<Seq<Seq<char>>> {
    match o {
        Some(s) => Some(limited_patterns(s)),
        None => None,
    }
}

/// The smaller of `n` and `limit`.
pub open spec fn at_most(n: int, limit: int) -> int {
    if n < limit {
        n
    } else {
        limit
    }
}

/// The sanitized form of a query clause at nesting `depth`, or the error message.
pub open spec fn sanitized_query(q: Query, depth: int, v: DslValidator) -> Result<Query, Seq<char>>
    decreases q, 0int,
{
    if depth > v.max_depth {
        Err(depth_message(v.max_depth as nat))
    } else {
        match q {
            Query::Match { field, value } => match sanitized_field(field) {
                Ok(f) => Ok(Query::Match { field: f, value }),
                Err(e) => Err(e),
            },
            Query::Term { field, value } => match sanitized_field(field) {
                Ok(f) => Ok(Query::Term { field: f, value }),
                Err(e) => Err(e),
            },
            Query::Terms { field, values } => match sanitized_field(field) {
                Ok(f) => Ok(
                    Query::Terms {
                        field: f,
                        values: values.take(at_most(values.len() as int, v.max_terms_count as int)),
                    },
                ),
                Err(e) => Err(e),
            },
            Query::Range { field, gt, gte, lt, lte } => match sanitized_field(field) {
                Ok(f) => Ok(Query::Range { field: f, gt, gte, lt, lte }),
                Err(e) => Err(e),
            },
            Query::Bool { must, must_not, should } => Ok(
                Query::Bool {
                    must: sanitized_clauses(must, depth + 1, v),
                    must_not: sanitized_clauses(must_not, depth + 1, v),
                    should: sanitized_clauses(should, depth + 1, v),
                },
            ),
            Query::Wildcard { field, value } => match sanitized_field(field) {
                Ok(f) => match sanitized_wildcard(value) {
                    Ok(w) => Ok(Query::Wildcard { field: f, value: w }),
                    Err(e) => Err(e),
                },
                Err(e) => Err(e),
            },
            Query::MatchAll => Ok(Query::MatchAll),
        }
    }
}

/// The clauses among the first `n` of `qs` that sanitize, each sanitized;
/// the others are dropped.
pub open spec fn sanitized_list(qs: Seq<Query>, n: int, depth: int, v: DslValidator) -> Seq<Query>
    decreases qs, n,
{
    if n <= 0 || n > qs.len() {
        Seq::empty()
    } else {
        let prev = sanitized_list(qs, n - 1, depth, v);
        match sanitized_query(qs[n - 1], depth, v) {
            Ok(s) => prev.push(s),
            Err(_) => prev,
        }
    }
}

/// A bool query's clause list after sanitizing: at most `max_bool_clauses`
/// are looked at, failing clauses are dropped, and an empty result is absent.
pub open spec fn sanitized_clauses(o: Option<Seq<Query>>, depth: int, v: DslValidator) -> Option<Seq<Query>>
    decreases o, 1int,
{
    match o {
        Some(qs) => {
            let l = sanitized_list(qs, at_most(qs.len() as int, v.max_bool_clauses as int), depth, v);
            if l.len() == 0 {
                None
            } else {
                Some(l)
            }
        },
        None => None,
    }
}

/// The model of an optional clause list.
pub open spec fn opt_clauses(o: Option<Vec<QueryType>>) -> Option<Seq<Query>> {
    match o {
        Some(v) => Some(clauses_view(v@, v@.len() as int)),
        None => None,
    }
}

/// A text result as its text or its `InvalidDsl` message.
pub open spec fn text_outcome(r: Result<String, EsError>) -> Result<Seq<char>, Seq<char>> {
    match r {
        Ok(s) => Ok(s@),
        Err(EsError::InvalidDsl(m)) => Err(m@),
        Err(_) => Err(seq![]),
    }
}

/// A clause result as its model or its `InvalidDsl` message.
pub open spec fn query_outcome(r: Result<QueryType, EsError>) -> Result<Query, Seq<char>> {
    match r {
        Ok(q) => Ok(q@),
        Err(EsError::InvalidDsl(m)) => Err(m@),
        Err(_) => Err(seq![]),
    }
}

/// The model of a `_source` configuration.
pub open spec fn source_view(s: SourceConfig) -> (Option<Seq<Seq<char>>>, Option<Seq<Seq<char>>>) {
    (opt_texts(s.includes), opt_texts(s.excludes))
}

/// A JSON object with its member `key`, when that is an unsigned number,
/// lowered to at most `limit`.
pub open spec fn clamp_member(v: Json, key: Seq<char>, limit: u64) -> Json {
    match v {
        Json::Obj(m) => match lookup(m, key) {
            Some(x) => match x.unsigned() {
                Some(n) => Json::Obj(
                    set_member(m, key, Json::Num(Num::PosInt(if n < limit { n } else { limit }))),
                ),
                None => v,
            },
            None => v,
        },
        _ => v,
    }
}

/// A raw request body with `size` clamped to 1000 and `from` to 10000.
pub open spec fn clamped_body(v: Json) -> Json {
    clamp_member(clamp_member(v, "size"@, 1000), "from"@, 10000)
}

/// Replaces an unsigned member `key` of an object by its value clamped to `limit`.
fn clamp_entry(body: &mut JsonValue, key: &str, limit: u64)
    ensures
        final(body)@ == clamp_member(old(body)@, key@, limit),
{
    let mut taken = JsonValue::Null;
    std::mem::swap(&mut taken, body);
    match taken {
        JsonValue::Object(mut m) => {
            let ghost m0 = m@;
            proof {
                lemma_entries_view(m@, m@.len() as int);
            }
            let pos = entry_position(&m, key);
            match pos {
                Some(i) => {
                    let n_opt = m[i].1.as_u64();
                    match n_opt {
                        Some(n) => {
                            let k = m[i].0.clone();
                            let c = if n < limit {
                                n
                            } else {
                                limit
                            };
                            m.set(i, (k, JsonValue::Number(JsonNumber::PosInt(c))));
                            proof {
                                lemma_entries_view(m@, m@.len() as int);
                                let es0 = entries_view(m0, m0.len() as int);
                                assert(entries_view(m@, m@.len() as int) =~= es0.update(
                                    i as int,
                                    (es0[i as int].0, Json::Num(Num::PosInt(c))),
                                ));
                            }
                        },
                        None => {},
                    }
                },
                None => {},
            }
            *body = JsonValue::Object(m);
        },
        other => {
            *body = other;
        },
    }
}

impl DslValidator {
    /// Clamps the resource-bounding top-level members of a raw request body:
    /// `size` to at most 1000 and `from` to at most 10000. Other values are
    /// left alone.
    pub fn sanitize_value(&self, body: &mut JsonValue)
        ensures
            final(body)@ == clamped_body(old(body)@),
    {
        clamp_entry(body, "size", 1000);
        clamp_entry(body, "from", 10000);
    }

    /// A field name reduced to alphanumerics, `_`, `.` and `-`; refused when
    /// nothing is left or a traversal-like pattern remains.
    pub fn sanitize_field_name(&self, field: &str) -> (r: Result<String, EsError>)
        ensures
            is_text_result(r),
            text_outcome(r) == sanitized_field(field@),
    {
        let v = chars_of(field);
        let mut out = String::new();
        let mut i: usize = 0;
        while i < v.len()
            invariant
                v@ == field@,
                i <= v.len(),
                out@ == field_chars(v@.subrange(0, i as int)),
            decreases v.len() - i,
        {
            proof {
                reveal(Seq::filter);
                assert(v@.subrange(0, i + 1).drop_last() =~= v@.subrange(0, i as int));
            }
            let c = v[i];
            if is_alphanumeric(c) || c == '_' || c == '.' || c == '-' {
                push_char(&mut out, c);
            }
            i = i + 1;
        }
        assert(v@.subrange(0, v.len() as int) =~= v@);
        if out.as_str().unicode_len() == 0 {
            return Err(EsError::InvalidDsl(own("Invalid field name")));
        }
        let o = out.as_str();
        if str_contains(o, "..") || str_contains(o, "*/") || str_contains(o, "*.") {
            return Err(EsError::InvalidDsl(own("Invalid field name pattern")));
        }
        Ok(out)
    }

    /// A wildcard value, refused when it has more than two `*` or more than five `?`.
    pub fn sanitize_wildcard_value(&self, value: &str) -> (r: Result<String, EsError>)
        ensures
            is_text_result(r),
            text_outcome(r) == sanitized_wildcard(value@),
    {
        let asterisks = count_occurrences(value, '*');
        let questions = count_occurrences(value, '?');
        if asterisks > 2 || questions > 5 {
            return Err(EsError::InvalidDsl(own("Wildcard pattern too complex")));
        }
        Ok(own(value))
    }

    /// The first 50 patterns without those holding `*/`.
    fn limit_patterns(&self, pats: Vec<String>) -> (r: Vec<String>)
        ensures
            texts(r@) == limited_patterns(texts(pats@)),
    {
        let n: usize = if pats.len() < 50 {
            pats.len()
        } else {
            50
        };
        let ghost ts = texts(pats@);
        let mut out: Vec<String> = Vec::new();
        let mut i: usize = 0;
        while i < n
            invariant
                ts == texts(pats@),
                n <= pats.len(),
                n == (if pats.len() < 50 { pats.len() } else { 50 }),
                i <= n,
                texts(out@) == ts.take(i as int).filter(|p: Seq<char>| !contains(p, "*/"@)),
            decreases n - i,
        {
            proof {
                reveal(Seq::filter);
                assert(ts.take(i + 1).drop_last() =~= ts.take(i as int));
                assert(ts.take(i + 1).last() == pats@[i as int]@);
            }
            if !str_contains(pats[i].as_str(), "*/") {
                let ghost before = out@;
                out.push(pats[i].clone());
                proof {
                    assert(texts(out@) =~= texts(before).push(pats@[i as int]@));
                }
            }
            i = i + 1;
        }
        out
    }

    /// `_source` filtering limited to 50 include and 50 exclude patterns,
    /// without recursive wildcards.
    pub fn sanitize_source_config(&self, source: SourceConfig) -> (r: SourceConfig)
        ensures
            opt_texts(r.includes) == limited_opt(opt_texts(source.includes)),
            opt_texts(r.excludes) == limited_opt(opt_texts(source.excludes)),
    {
        let includes = match source.includes {
            Some(v) => Some(self.limit_patterns(v)),
            None => None,
        };
        let excludes = match source.excludes {
            Some(v) => Some(self.limit_patterns(v)),
            None => None,
        };
        SourceConfig { includes, excludes }
    }

    /// Sanitizes a bool query's clause list at nesting `depth`.
    fn sanitize_clause_list(&self, items: Option<Vec<QueryType>>, depth: u128) -> (r: Option<Vec<QueryType>>)
        requires
            depth <= self.max_depth as int + 1,
        ensures
            opt_clauses(r) == sanitized_clauses(opt_clauses(items), depth as int, *self),
        decreases items,
    {
        match items {
            None => None,
            Some(list) => {
                let ghost orig = list;
                let ghost qs = clauses_view(orig@, orig@.len() as int);
                proof {
                    lemma_clauses_view(orig@, orig@.len() as int);
                }
                let n: usize = if list.len() < self.max_bool_clauses {
                    list.len()
                } else {
                    self.max_bool_clauses
                };
                let mut rest = list;
                rest.truncate(n);
                let mut out: Vec<QueryType> = Vec::new();
                let mut j: usize = 0;
                while j < n
                    invariant
                        items == Some(orig),
                        depth <= self.max_depth as int + 1,
                        qs == clauses_view(orig@, orig@.len() as int),
                        qs.len() == orig@.len(),
                        forall|k: int| 0 <= k < orig@.len() ==> #[trigger] qs[k] == query_view_of(orig@[k]),
                        n <= orig@.len(),
                        j <= n,
                        rest@ == orig@.subrange(j as int, n as int),
                        clauses_view(out@, out@.len() as int) == sanitized_list(qs, j as int, depth as int, *self),
                    decreases n - j,
                {
                    let q = rest.remove(0);
                    assert(q == orig@[j as int]);
                    proof {
                        vstd::std_specs::vec::axiom_vec_index_decreases(orig, j as int);
                        assert(decreases_to!(items => items->0));
                        assert(decreases_to!(items => q));
                        assert(rest@ =~= orig@.subrange(j + 1, n as int));
                    }
                    let s = self.sanitize_query_type(q, depth);
                    match s {
                        Ok(sq) => {
                            let ghost before = out@;
                            out.push(sq);
                            proof {
                                lemma_clauses_view(before, before.len() as int);
                                lemma_clauses_view(out@, out@.len() as int);
                                assert(clauses_view(out@, out@.len() as int) =~= clauses_view(
                                    before,
                                    before.len() as int,
                                ).push(sq@));
                            }
                        },
                        Err(_) => {},
                    }
                    j = j + 1;
                }
                if out.len() == 0 {
                    proof {
                        lemma_clauses_view(out@, out@.len() as int);
                    }
                    None
                } else {
                    proof {
                        lemma_clauses_view(out@, out@.len() as int);
                    }
                    Some(out)
                }
            },
        }
    }

    /// Sanitizes a query clause at nesting `depth`: field names are cleaned,
    /// term lists and bool clause lists are limited, failing bool clauses are
    /// dropped, and nesting beyond `max_depth` is refused.
    pub fn sanitize_query_type(&self, query: QueryType, depth: u128) -> (r: Result<QueryType, EsError>)
        ensures
            is_query_result(r),
            query_outcome(r) == sanitized_query(query@, depth as int, *self),
        decreases query,
    {
        if depth > self.max_depth as u128 {
            let d = u64_text(self.max_depth as u64);
            return Err(EsError::InvalidDsl(message("Query depth exceeds maximum limit of ", d.as_str())));
        }
        match query {
            QueryType::Match { field, value } => {
                match self.sanitize_field_name(field.as_str()) {
                    Ok(f) => Ok(QueryType::Match { field: f, value }),
                    Err(e) => Err(e),
                }
            },
            QueryType::Term { field, value } => {
                match self.sanitize_field_name(field.as_str()) {
                    Ok(f) => Ok(QueryType::Term { field: f, value }),
                    Err(e) => Err(e),
                }
            },
            QueryType::Terms { field, values } => {
                let mut limited = values;
                limited.truncate(self.max_terms_count);
                match self.sanitize_field_name(field.as_str()) {
                    Ok(f) => {
                        proof {
                            assert(texts(limited@) =~= texts(values@).take(
                                at_most(values@.len() as int, self.max_terms_count as int),
                            ));
                        }
                        Ok(QueryType::Terms { field: f, values: limited })
                    },
                    Err(e) => Err(e),
                }
            },
            QueryType::Range { field, gt, gte, lt, lte } => {
                match self.sanitize_field_name(field.as_str()) {
                    Ok(f) => Ok(QueryType::Range { field: f, gt, gte, lt, lte }),
                    Err(e) => Err(e),
                }
            },
            QueryType::Bool { must, must_not, should } => {
                let m = self.sanitize_clause_list(must, depth + 1);
                let mn = self.sanitize_clause_list(must_not, depth + 1);
                let sh = self.sanitize_clause_list(should, depth + 1);
                Ok(QueryType::Bool { must: m, must_not: mn, should: sh })
            },
            QueryType::Wildcard { field, value } => {
                match self.sanitize_field_name(field.as_str()) {
                    Ok(f) => match self.sanitize_wildcard_value(value.as_str()) {
                        Ok(w) => Ok(QueryType::Wildcard { field: f, value: w }),
                        Err(e) => Err(e),
                    },
                    Err(e) => Err(e),
                }
            },
            QueryType::MatchAll => Ok(QueryType::MatchAll),
        }
    }

    /// Sanitizes a structured search request: `size` at most 1000, `from` at
    /// most 10000, the query clause sanitized (its error is the request's) and
    /// `_source` patterns limited.
    pub fn sanitize(&self, request: EsSearchRequest) -> (r: Result<EsSearchRequest, EsError>)
        ensures
            match request.query {
                Some(q) => match sanitized_query(q@, 0, *self) {
                    Ok(_) => r is Ok,
                    Err(m) => r matches Err(EsError::InvalidDsl(e)) && e@ == m,
                },
                None => r is Ok,
            },
            r matches Ok(out) ==> {
                &&& out.size == (match request.size {
                    Some(s) => Some(if s < 1000 { s } else { 1000 }),
                    None => None,
                })
                &&& out.from == (match request.from {
                    Some(f) => Some(if f < 10000 { f } else { 10000 }),
                    None => None,
                })
                &&& out.query.is_some() == request.query.is_some()
                &&& (request.query matches Some(q) ==> sanitized_query(q@, 0, *self) == Ok::<Query, Seq<char>>(out.query->0@))
                &&& out.sort == request.sort
                &&& out.aggs == request.aggs
                &&& out._source.is_some() == request._source.is_some()
                &&& (request._source matches Some(s) ==> {
                    &&& opt_texts(out._source->0.includes) == limited_opt(opt_texts(s.includes))
                    &&& opt_texts(out._source->0.excludes) == limited_opt(opt_texts(s.excludes))
                })
            },
    {
        let size = match request.size {
            Some(s) => Some(if s < 1000 { s } else { 1000 }),
            None => None,
        };
        let from = match request.from {
            Some(f) => Some(if f < 10000 { f } else { 10000 }),
            None => None,
        };
        let query = match request.query {
            Some(q) => match self.sanitize_query_type(q, 0) {
                Ok(sq) => Some(sq),
                Err(e) => {
                    return Err(e);
                },
            },
            None => None,
        };
        let source = match request._source {
            Some(s) => Some(self.sanitize_source_config(s)),
            None => None,
        };
        Ok(EsSearchRequest { query, size, from, sort: request.sort, aggs: request.aggs, _source: source })
    }
}

/// A text result is `Ok` or an `InvalidDsl` error.
pub open spec fn is_text_result(r: Result<String, EsError>) -> bool {
    r is Ok || r matches Err(EsError::InvalidDsl(_))
}

/// A clause result is `Ok` or an `InvalidDsl` error.
pub open spec fn is_query_result(r: Result<QueryType, EsError>) -> bool {
    r is Ok || r matches Err(EsError::InvalidDsl(_))
}

/// The model of one clause.
pub open spec fn query_view_of(q: QueryType) -> Query {
    q@
}


/// After clamping, member `key` is absent, not an unsigned number, or at most `limit`.
proof fn lemma_clamp_member_bound(w: Json, key: Seq<char>, limit: u64)
    ensures
        clamp_member(w, key, limit).member(key) matches Some(x) ==> (x.unsigned() matches Some(n)
            ==> n <= limit),
        clamp_member(w, key, limit) is Obj <==> w is Obj,
{
    match w {
        Json::Obj(m) => {
            match lookup(m, key) {
                Some(x) => {
                    lemma_key_index_from(m, key, 0);
                    match x.unsigned() {
                        Some(n) => {
                            let c: u64 = if n < limit { n } else { limit };
                            lemma_lookup_set_member(m, key, Json::Num(Num::PosInt(c)), key);
                        },
                        None => {},
                    }
                },
                None => {},
            }
        },
        _ => {},
    }
}

/// Clamping a member leaves the lookup of every other key as it was.
proof fn lemma_clamp_member_other(w: Json, key: Seq<char>, limit: u64, other: Seq<char>)
    requires
        other != key,
    ensures
        clamp_member(w, key, limit).member(other) == w.member(other),
{
    match w {
        Json::Obj(m) => {
            match lookup(m, key) {
                Some(x) => {
                    match x.unsigned() {
                        Some(n) => {
                            let c: u64 = if n < limit { n } else { limit };
                            lemma_lookup_set_member(m, key, Json::Num(Num::PosInt(c)), other);
                        },
                        None => {},
                    }
                },
                None => {},
            }
        },
        _ => {},
    }
}

/// Clamping a member that is already within its limit changes nothing.
proof fn lemma_clamp_member_fixed(w: Json, key: Seq<char>, limit: u64)
    requires
        w.member(key) matches Some(x) ==> (x.unsigned() matches Some(n) ==> n <= limit),
    ensures
        clamp_member(w, key, limit) == w,
{
    match w {
        Json::Obj(m) => {
            match lookup(m, key) {
                Some(x) => {
                    match x.unsigned() {
                        Some(n) => {
                            assert(x == Json::Num(Num::PosInt(n)));
                            lemma_set_member_same(m, key, x);
                        },
                        None => {},
                    }
                },
                None => {},
            }
        },
        _ => {},
    }
}

/// Sanitizing a raw request body leaves `size`, when it is an unsigned
/// number, at most 1000 and `from` at most 10000.
pub proof fn law_clamped_body_bounds(v: Json)
    ensures
        clamped_body(v).member("size"@) matches Some(x) ==> (x.unsigned() matches Some(n) ==> n
            <= 1000),
        clamped_body(v).member("from"@) matches Some(x) ==> (x.unsigned() matches Some(n) ==> n
            <= 10000),
{
    reveal_strlit("size");
    reveal_strlit("from");
    let v1 = clamp_member(v, "size"@, 1000);
    assert("from"@[0] != "size"@[0]);
    lemma_clamp_member_bound(v, "size"@, 1000);
    lemma_clamp_member_other(v1, "from"@, 10000, "size"@);
    lemma_clamp_member_bound(v1, "from"@, 10000);
}

/// Sanitizing a raw request body a second time changes nothing.
pub proof fn law_clamped_body_idempotent(v: Json)
    ensures
        clamped_body(clamped_body(v)) == clamped_body(v),
{
    reveal_strlit("size");
    reveal_strlit("from");
    let v2 = clamped_body(v);
    law_clamped_body_bounds(v);
    lemma_clamp_member_fixed(v2, "size"@, 1000);
    lemma_clamp_member_fixed(v2, "from"@, 10000);
}

/// Filtering a sequence whose elements all pass leaves it unchanged.
proof fn lemma_filter_all(s: Seq<char>)
    requires
        forall|i: int| 0 <= i < s.len() ==> keep_field_char(#[trigger] s[i]),
    ensures
        field_chars(s) == s,
    decreases s.len(),
{
    reveal(Seq::filter);
    if s.len() > 0 {
        lemma_filter_all(s.drop_last());
        assert(field_chars(s.drop_last()).push(s.last()) =~= s);
    }
}

/// A sanitized field name sanitizes to itself.
pub proof fn law_sanitized_field_idempotent(s: Seq<char>)
    requires
        sanitized_field(s) is Ok,
    ensures
        sanitized_field(sanitized_field(s)->Ok_0) == sanitized_field(s),
{
    let f = field_chars(s);
    broadcast use vstd::seq_lib::group_filter_ensures;
    lemma_filter_all(f);
}

/// At most `n` clauses survive from the first `n`.
proof fn lemma_sanitized_list_len(qs: Seq<Query>, n: int, depth: int, v: DslValidator)
    requires
        0 <= n <= qs.len(),
    ensures
        sanitized_list(qs, n, depth, v).len() <= n,
    decreases n,
{
    if n > 0 {
        lemma_sanitized_list_len(qs, n - 1, depth, v);
    }
}

/// A sanitized clause keeps at most `max_terms_count` terms, and each list of
/// a sanitized bool query holds between one and `max_bool_clauses` clauses.
pub proof fn law_sanitized_query_bounds(q: Query, depth: int, v: DslValidator)
    ensures
        sanitized_query(q, depth, v) matches Ok(Query::Terms { values, .. }) ==> values.len()
            <= v.max_terms_count,
        sanitized_query(q, depth, v) matches Ok(Query::Bool { must, must_not, should }) ==> {
            &&& (must matches Some(l) ==> 1 <= l.len() <= v.max_bool_clauses)
            &&& (must_not matches Some(l) ==> 1 <= l.len() <= v.max_bool_clauses)
            &&& (should matches Some(l) ==> 1 <= l.len() <= v.max_bool_clauses)
        },
{
    if depth <= v.max_depth {
        match q {
            Query::Bool { must, must_not, should } => {
                if let Some(qs) = must {
                    lemma_sanitized_list_len(qs, at_most(qs.len() as int, v.max_bool_clauses as int), depth + 1, v);
                }
                if let Some(qs) = must_not {
                    lemma_sanitized_list_len(qs, at_most(qs.len() as int, v.max_bool_clauses as int), depth + 1, v);
                }
                if let Some(qs) = should {
                    lemma_sanitized_list_len(qs, at_most(qs.len() as int, v.max_bool_clauses as int), depth + 1, v);
                }
            },
            _ => {},
        }
    }
}

} // verus!
