//! Checking an address against the allowlist.
use vstd::prelude::*;
use crate::json::{Json, JsonValue, entries_view, push_entry, str_value};

verus! {

/// The address to check.
#[derive(Debug, Clone)]
pub struct CheckAllowlistInput {
    pub ip: String,
}

/// The result of an allowlist check: whether `ip` is allowlisted, or the
/// error the lookup failed with.
pub open spec fn allowlist_check_json(ip: Seq<char>, outcome: Result<bool, Seq<char>>) -> Json {
    match outcome {
        Ok(b) => Json::Obj(seq![("ip"@, Json::Str(ip)), ("is_allowlisted"@, Json::Bool(b)), ("success"@, Json::Bool(true))]),
        Err(e) => Json::Obj(seq![("error"@, Json::Str(e)), ("ip"@, Json::Str(ip)), ("success"@, Json::Bool(false))]),
    }
}

/// The tool's result for `ip` and the lookup's outcome.
pub fn allowlist_check_result(ip: &str, outcome: Result<bool, String>) -> (r: JsonValue)
    ensures
        r@ == allowlist_check_json(
            ip@,
            match outcome {
                Ok(b) => Ok(b),
                Err(e) => Err(e@),
            },
        ),
{
    let mut m: Vec<(String, JsonValue)> = Vec::new();
    proof {
        crate::json::lemma_entries_view(Seq::<(String, JsonValue)>::empty(), 0);
    }
    match outcome {
        Ok(b) => {
            push_entry(&mut m, "ip", str_value(ip));
            push_entry(&mut m, "is_allowlisted", JsonValue::Bool(b));
            push_entry(&mut m, "success", JsonValue::Bool(true));
            assert(entries_view(m@, m@.len() as int) =~= seq![
                ("ip"@, Json::Str(ip@)),
                ("is_allowlisted"@, Json::Bool(b)),
                ("success"@, Json::Bool(true)),
            ]);
        },
        Err(e) => {
            push_entry(&mut m, "error", str_value(e.as_str()));
            push_entry(&mut m, "ip", str_value(ip));
            push_entry(&mut m, "success", JsonValue::Bool(false));
            assert(entries_view(m@, m@.len() as int) =~= seq![
                ("error"@, Json::Str(e@)),
                ("ip"@, Json::Str(ip@)),
                ("success"@, Json::Bool(false)),
            ]);
        },
    }
    JsonValue::Object(m)
}

} // verus!
