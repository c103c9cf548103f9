//! The agent's tools: their inputs and the JSON results they hand back.
use vstd::prelude::*;
use crate::json::{Json, JsonValue, entries_view, push_entry, str_value};

pub mod apply_block;
pub mod check_allowlist;
pub mod inspect_patterns;
pub mod query_logs;

verus! {

/// `{"error": message, "success": false}`.
pub open spec fn failure_json(message: Seq<char>) -> Json {
    Json::Obj(seq![("error"@, Json::Str(message)), ("success"@, Json::Bool(false))])
}

/// The result of a tool that failed with `message`.
pub fn tool_failure(message: &str) -> (r: JsonValue)
    ensures
        r@ == failure_json(message@),
{
    let mut m: Vec<(String, JsonValue)> = Vec::new();
    push_entry(&mut m, "error", str_value(message));
    push_entry(&mut m, "success", JsonValue::Bool(false));
    proof {
        crate::json::lemma_entries_view(Seq::<(String, JsonValue)>::empty(), 0);
    }
    let r = JsonValue::Object(m);
    assert(entries_view(m@, m@.len() as int) =~= seq![("error"@, Json::Str(message@)), ("success"@, Json::Bool(false))]);
    r
}

} // verus!
