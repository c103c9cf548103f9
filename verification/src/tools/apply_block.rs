//! Blocking and unblocking an address through a Traefik Middleware.
use vstd::prelude::*;
use crate::json::{Json, JsonValue, entries_view, push_entry, str_value};
use crate::text::{own, push_str, str_eq};
use crate::tools::{failure_json, tool_failure};

verus! {

/// The address, the namespace (the tool's own when absent) and the action,
/// `block` or `unblock`.
#[derive(Debug, Clone)]
pub struct ApplyBlockInput {
    pub ip: String,
    pub namespace: Option<String>,
    pub action: String,
}

/// The two actions of the tool.
#[derive(Debug, Clone, Copy, PartialEq, Eq, Structural)]
pub enum BlockToolAction {
    Block,
    Unblock,
}

/// The refusal of an unknown action.
pub open spec fn invalid_action_json(action: Seq<char>) -> Json {
    failure_json("Invalid action: "@ + action + ". Must be 'block' or 'unblock'"@)
}

/// The action an input names, or the tool's refusal.
pub fn block_tool_action(action: &str) -> (r: Result<BlockToolAction, JsonValue>)
    ensures
        action@ == "block"@ ==> r == Ok::<BlockToolAction, JsonValue>(BlockToolAction::Block),
        action@ == "unblock"@ ==> r == Ok::<BlockToolAction, JsonValue>(BlockToolAction::Unblock),
        action@ != "block"@ && action@ != "unblock"@ ==> (r matches Err(j) && j@ == invalid_action_json(action@)),
{
    proof {
        reveal_strlit("block");
        reveal_strlit("unblock");
    }
    if str_eq(action, "block") {
        Ok(BlockToolAction::Block)
    } else if str_eq(action, "unblock") {
        Ok(BlockToolAction::Unblock)
    } else {
        let mut m = own("Invalid action: ");
        push_str(&mut m, action);
        push_str(&mut m, ". Must be 'block' or 'unblock'");
        Err(tool_failure(m.as_str()))
    }
}

/// The namespace the tool works in: the input's, else its own.
pub fn tool_namespace(requested: &Option<String>, default_namespace: &str) -> (r: String)
    ensures
        r@ == (match requested {
            Some(n) => n@,
            None => default_namespace@,
        }),
{
    match requested {
        Some(n) => n.clone(),
        None => own(default_namespace),
    }
}

/// The name of an action.
pub open spec fn action_name(a: BlockToolAction) -> Seq<char> {
    match a {
        BlockToolAction::Block => "block"@,
        BlockToolAction::Unblock => "unblock"@,
    }
}

/// The tool's result: on success the address, the action, and for a block
/// the middleware that holds it; on failure the error too.
pub open spec fn apply_block_json(ip: Seq<char>, a: BlockToolAction, outcome: Result<Seq<char>, Seq<char>>) -> Json {
    match outcome {
        Ok(name) => if a == BlockToolAction::Block {
            Json::Obj(
                seq![
                    ("action"@, Json::Str(action_name(a))),
                    ("ip"@, Json::Str(ip)),
                    ("middleware_name"@, Json::Str(name)),
                    ("success"@, Json::Bool(true)),
                ],
            )
        } else {
            Json::Obj(seq![("action"@, Json::Str(action_name(a))), ("ip"@, Json::Str(ip)), ("success"@, Json::Bool(true))])
        },
        Err(e) => Json::Obj(
            seq![
                ("action"@, Json::Str(action_name(a))),
                ("error"@, Json::Str(e)),
                ("ip"@, Json::Str(ip)),
                ("success"@, Json::Bool(false)),
            ],
        ),
    }
}

/// The tool's result for `ip`, given the middleware name a block went to
/// (ignored for an unblock) or the error.
pub fn apply_block_result(ip: &str, action: BlockToolAction, outcome: Result<String, String>) -> (r: JsonValue)
    ensures
        r@ == apply_block_json(
            ip@,
            action,
            match outcome {
                Ok(n) => Ok(n@),
                Err(e) => Err(e@),
            },
        ),
{
    let name = match action {
        BlockToolAction::Block => "block",
        BlockToolAction::Unblock => "unblock",
    };
    assert(name@ == action_name(action)) by {
        reveal_strlit("block");
        reveal_strlit("unblock");
    }
    let mut m: Vec<(String, JsonValue)> = Vec::new();
    proof {
        crate::json::lemma_entries_view(Seq::<(String, JsonValue)>::empty(), 0);
    }
    push_entry(&mut m, "action", str_value(name));
    match outcome {
        Ok(n) => {
            push_entry(&mut m, "ip", str_value(ip));
            match action {
                BlockToolAction::Block => {
                    push_entry(&mut m, "middleware_name", str_value(n.as_str()));
                    push_entry(&mut m, "success", JsonValue::Bool(true));
                    assert(entries_view(m@, m@.len() as int) =~= seq![
                        ("action"@, Json::Str(action_name(action))),
                        ("ip"@, Json::Str(ip@)),
                        ("middleware_name"@, Json::Str(n@)),
                        ("success"@, Json::Bool(true)),
                    ]);
                },
                BlockToolAction::Unblock => {
                    push_entry(&mut m, "success", JsonValue::Bool(true));
                    assert(entries_view(m@, m@.len() as int) =~= seq![
                        ("action"@, Json::Str(action_name(action))),
                        ("ip"@, Json::Str(ip@)),
                        ("success"@, Json::Bool(true)),
                    ]);
                },
            }
        },
        Err(e) => {
            push_entry(&mut m, "error", str_value(e.as_str()));
            push_entry(&mut m, "ip", str_value(ip));
            push_entry(&mut m, "success", JsonValue::Bool(false));
            assert(entries_view(m@, m@.len() as int) =~= seq![
                ("action"@, Json::Str(action_name(action))),
                ("error"@, Json::Str(e@)),
                ("ip"@, Json::Str(ip@)),
                ("success"@, Json::Bool(false)),
            ]);
        },
    }
    JsonValue::Object(m)
}

} // verus!
