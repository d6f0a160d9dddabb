//! The messages of a Chat Completions conversation.

use vstd::prelude::*;

use crate::json::{Json, JsonView};

verus! {

/// `{role: "system", content}`.
pub open spec fn system_message_view(content: Seq<char>) -> JsonView {
    JsonView::Object(
        map!["role"@ => JsonView::Str("system"@), "content"@ => JsonView::Str(content)],
    )
}

/// `{role: "user", content}`.
pub open spec fn user_message_view(content: Seq<char>) -> JsonView {
    JsonView::Object(map!["role"@ => JsonView::Str("user"@), "content"@ => JsonView::Str(content)])
}

/// `{role: "assistant", content}`, with `tool_calls` where there are any.
pub open spec fn assistant_message_view(
    content: JsonView,
    tool_calls: Option<JsonView>,
) -> JsonView {
    let bare = map!["role"@ => JsonView::Str("assistant"@), "content"@ => content];
    match tool_calls {
        Some(calls) => JsonView::Object(bare.insert("tool_calls"@, calls)),
        None => JsonView::Object(bare),
    }
}

/// `{role: "tool", tool_call_id, content}`.
pub open spec fn tool_message_view(id: Seq<char>, content: Seq<char>) -> JsonView {
    JsonView::Object(
        map![
            "role"@ => JsonView::Str("tool"@),
            "tool_call_id"@ => JsonView::Str(id),
            "content"@ => JsonView::Str(content),
        ],
    )
}

/// The system prompt as a message.
pub fn system_message(content: &str) -> (message: Json)
    ensures
        message@ == system_message_view(content@),
{
    Json::object().with("role", Json::text("system")).with("content", Json::text(content))
}

/// What the user said as a message.
pub fn user_message(content: &str) -> (message: Json)
    ensures
        message@ == user_message_view(content@),
{
    Json::object().with("role", Json::text("user")).with("content", Json::text(content))
}

/// What the model said as a message.
pub fn assistant_message(content: Json, tool_calls: Option<Json>) -> (message: Json)
    ensures
        message@ == assistant_message_view(
            content@,
            match tool_calls {
                Some(calls) => Some(calls@),
                None => None,
            },
        ),
{
    let bare = Json::object().with("role", Json::text("assistant")).with("content", content);
    match tool_calls {
        Some(calls) => bare.with("tool_calls", calls),
        None => bare,
    }
}

/// What a tool answered as a message.
pub fn tool_message(id: &str, content: &str) -> (message: Json)
    ensures
        message@ == tool_message_view(id@, content@),
{
    Json::object().with("role", Json::text("tool")).with("tool_call_id", Json::text(id)).with(
        "content",
        Json::text(content),
    )
}

} // verus!
