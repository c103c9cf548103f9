//! Typed Elasticsearch search requests and response pieces.
use vstd::prelude::*;
use crate::json::{Json, JsonValue};

verus! {

/// A structured search request.
#[derive(Debug)]
pub struct EsSearchRequest {
    pub query: Option<QueryType>,
    pub size: Option<usize>,
    pub from: Option<usize>,
    pub sort: Option<Vec<SortField>>,
    pub aggs: Option<JsonValue>,
    pub _source: Option<SourceConfig>,
}

/// A free-form search request: a raw query with optional paging.
#[derive(Debug)]
pub struct EsQueryRequest {
    pub query: JsonValue,
    pub size: Option<usize>,
    pub from: Option<usize>,
}

/// The query clauses a structured request can hold.
#[derive(Debug)]
pub enum QueryType {
    Match { field: String, value: String },
    Term { field: String, value: String },
    Terms { field: String, values: Vec<String> },
    Range {
        field: String,
        gt: Option<JsonValue>,
        gte: Option<JsonValue>,
        lt: Option<JsonValue>,
        lte: Option<JsonValue>,
    },
    Bool {
        must: Option<Vec<QueryType>>,
        must_not: Option<Vec<QueryType>>,
        should: Option<Vec<QueryType>>,
    },
    Wildcard { field: String, value: String },
    MatchAll,
}

/// A sort key.
#[derive(Debug, Clone)]
pub struct SortField {
    pub field: String,
    pub order: Option<String>,
}

/// `_source` filtering.
#[derive(Debug, Clone)]
pub struct SourceConfig {
    pub includes: Option<Vec<String>>,
    pub excludes: Option<Vec<String>>,
}

/// Shard statistics of a response.
#[derive(Debug, Clone)]
pub struct ShardsInfo {
    pub total: u64,
    pub successful: u64,
    pub skipped: u64,
    pub failed: u64,
}

/// The total hit count of a response.
#[derive(Debug, Clone)]
pub enum TotalHits {
    Exact { value: u64, relation: String },
    Relational { value: u64, relation: String },
}

/// One search hit: its index, id, source document and highlights.
#[derive(Debug)]
pub struct Hit {
    pub index: String,
    pub id: String,
    pub source: JsonValue,
    pub highlight: Option<JsonValue>,
}

/// Model of a query clause.
pub enum Query {
    Match { field: Seq<char>, value: Seq<char> },
    Term { field: Seq<char>, value: Seq<char> },
    Terms { field: Seq<char>, values: Seq<Seq<char>> },
    Range {
        field: Seq<char>,
        gt: Option<Json>,
        gte: Option<Json>,
        lt: Option<Json>,
        lte: Option<Json>,
    },
    Bool { must: Option<Seq<Query>>, must_not: Option<Seq<Query>>, should: Option<Seq<Query>> },
    Wildcard { field: Seq<char>, value: Seq<char> },
    MatchAll,
}

/// The texts of a vector of strings.
pub open spec fn texts(v: Seq<String>) -> Seq<Seq<char>> {
    v.map_values(|s: String| s@)
}

/// The texts after a push.
pub proof fn lemma_texts_push(v: Seq<String>, x: String)
    ensures
        texts(v.push(x)) == texts(v).push(x@),
{
    assert(texts(v.push(x)) =~= texts(v).push(x@));
}

/// The model of an optional JSON value.
pub open spec fn opt_json(o: Option<JsonValue>) -> Option<Json> {
    match o {
        Some(v) => Some(v@),
        None => None,
    }
}

/// The models of the first `n` clauses of `qs`.
pub open spec fn clauses_view(qs: Seq<QueryType>, n: int) -> Seq<Query>
    decreases qs, n,
{
    if n <= 0 || n > qs.len() {
        Seq::empty()
    } else {
        clauses_view(qs, n - 1).push(query_view(qs[n - 1]))
    }
}

/// The model of a query clause.
pub open spec fn query_view(q: QueryType) -> Query
    decreases q, 0int,
{
    match q {
        QueryType::Match { field, value } => Query::Match { field: field@, value: value@ },
        QueryType::Term { field, value } => Query::Term { field: field@, value: value@ },
        QueryType::Terms { field, values } => Query::Terms { field: field@, values: texts(values@) },
        QueryType::Range { field, gt, gte, lt, lte } => Query::Range {
            field: field@,
            gt: opt_json(gt),
            gte: opt_json(gte),
            lt: opt_json(lt),
            lte: opt_json(lte),
        },
        QueryType::Bool { must, must_not, should } => Query::Bool {
            must: match must {
                Some(v) => Some(clauses_view(v@, v@.len() as int)),
                None => None,
            },
            must_not: match must_not {
                Some(v) => Some(clauses_view(v@, v@.len() as int)),
                None => None,
            },
            should: match should {
                Some(v) => Some(clauses_view(v@, v@.len() as int)),
                None => None,
            },
        },
        QueryType::Wildcard { field, value } => Query::Wildcard { field: field@, value: value@ },
        QueryType::MatchAll => Query::MatchAll,
    }
}

impl View for QueryType {
    type V = Query;

    open spec fn view(&self) -> Query {
        query_view(*self)
    }
}

/// Length and elements of `clauses_view`.
pub proof fn lemma_clauses_view(qs: Seq<QueryType>, n: int)
    requires
        0 <= n <= qs.len(),
    ensures
        clauses_view(qs, n).len() == n,
        forall|i: int| 0 <= i < n ==> #[trigger] clauses_view(qs, n)[i] == query_view(qs[i]),
    decreases n,
{
    if n > 0 {
        lemma_clauses_view(qs, n - 1);
    }
}

} // verus!
