//! What the documents that are written hold, member by member, and that they
//! hold nothing else.

use vstd::prelude::*;

use crate::bridge;
use crate::bridge::ToolView;
use crate::json;
use crate::json::{Json, JsonView};
use crate::message;
use crate::reply;
use crate::reply::CallView;
use crate::report;
use crate::request;
use crate::request::ConfigView;
use crate::sessionlog;
use crate::words;

verus! {

/// A text, where there is one, and null where there is none.
pub open spec fn stands_for(value: Option<JsonView>, content: Option<Seq<char>>) -> bool {
    match content {
        Some(s) => value == Some(JsonView::Str(s)),
        None => value == Some(JsonView::Null),
    }
}

/// An object has a member for each of its keys and for no other text, and what
/// is no object has none. A member is a text, or a truth value, where it holds
/// one, and only there.
pub proof fn law_members(members: Map<Seq<char>, JsonView>, value: JsonView, key: Seq<char>)
    ensures
        members.contains_key(key) ==> json::member(JsonView::Object(members), key) == Some(
            members[key],
        ),
        !members.contains_key(key) ==> json::member(JsonView::Object(members), key) is None,
        !(value is Object) ==> json::member(value, key) is None,
        forall|s: Seq<char>|
            json::text_member(value, key) == Some(s) <==> json::member(value, key) == Some(
                JsonView::Str(s),
            ),
        forall|b: bool|
            json::bool_member(value, key) == Some(b) <==> json::member(value, key) == Some(
                JsonView::Bool(b),
            ),
{
}

/// A value is what it was made of: a text has all its characters, an array all
/// its items in order, and an object the last value given for each key.
pub proof fn law_values(
    s: String,
    b: bool,
    items: Vec<Json>,
    entries: Vec<(String, Json)>,
    longer: Vec<(String, Json)>,
    key: Seq<char>,
)
    requires
        longer@.len() > 0,
        longer@.drop_last() == entries@,
    ensures
        Json::Str(s)@ == JsonView::Str(s@),
        Json::Bool(b)@ == JsonView::Bool(b),
        Json::Null@ == JsonView::Null,
        Json::Array(items)@ is Array,
        Json::Array(items)@->Array_0.len() == items@.len(),
        forall|i: int|
            0 <= i < items@.len() ==> #[trigger] Json::Array(items)@->Array_0[i] == items@[i]@,
        json::views(items@) == Json::Array(items)@->Array_0,
        entries@.len() == 0 ==> json::member(Json::Object(entries)@, key) is None,
        json::member(Json::Object(longer)@, key) == (if key == longer@.last().0@ {
            Some(longer@.last().1@)
        } else {
            json::member(Json::Object(entries)@, key)
        }),
{
    reveal_with_fuel(json::json_view, 2);
    reveal_with_fuel(json::entries_view, 2);
    assert(Json::Array(items)@->Array_0 =~= json::views(items@));
}

/// The system prompt is a message of the role `system` with the prompt itself.
pub proof fn law_system_message(content: Seq<char>)
    ensures
        ({
            let said = message::system_message_view(content);
            &&& json::member(said, "role"@) == Some(JsonView::Str("system"@))
            &&& json::member(said, "content"@) == Some(JsonView::Str(content))
            &&& forall|key: Seq<char>| #[trigger]
                json::member(said, key) is Some ==> key == "role"@ || key == "content"@
        }),
{
    words::lemma_words();
}

/// What the user says is a message of the role `user` with just that text.
pub proof fn law_user_message(content: Seq<char>)
    ensures
        ({
            let said = message::user_message_view(content);
            &&& json::member(said, "role"@) == Some(JsonView::Str("user"@))
            &&& json::member(said, "content"@) == Some(JsonView::Str(content))
            &&& forall|key: Seq<char>| #[trigger]
                json::member(said, key) is Some ==> key == "role"@ || key == "content"@
        }),
{
    words::lemma_words();
}

/// What the model says is a message of the role `assistant` with just that
/// content, and with calls where it makes any.
pub proof fn law_assistant_message(content: JsonView, tool_calls: Option<JsonView>)
    ensures
        ({
            let said = message::assistant_message_view(content, tool_calls);
            &&& json::member(said, "role"@) == Some(JsonView::Str("assistant"@))
            &&& json::member(said, "content"@) == Some(content)
            &&& json::member(said, "tool_calls"@) == tool_calls
            &&& forall|key: Seq<char>| #[trigger]
                json::member(said, key) is Some ==> key == "role"@ || key == "content"@ || key
                    == "tool_calls"@
        }),
{
    words::lemma_words();
}

/// What a tool answers is a message of the role `tool` with just that text and
/// the call that it answers.
pub proof fn law_tool_message(id: Seq<char>, content: Seq<char>)
    ensures
        ({
            let said = message::tool_message_view(id, content);
            &&& json::member(said, "role"@) == Some(JsonView::Str("tool"@))
            &&& json::member(said, "tool_call_id"@) == Some(JsonView::Str(id))
            &&& json::member(said, "content"@) == Some(JsonView::Str(content))
            &&& forall|key: Seq<char>| #[trigger]
                json::member(said, key) is Some ==> key == "role"@ || key == "tool_call_id"@ || key
                    == "content"@
        }),
{
    words::lemma_words();
}

/// The start of a session is logged with the model, the base URL and the
/// system prompt, which is null where there is none.
pub proof fn law_session_start(
    model: Seq<char>,
    base_url: Seq<char>,
    system_prompt: Option<Seq<char>>,
)
    ensures
        ({
            let event = sessionlog::session_start_view(model, base_url, system_prompt);
            &&& json::member(event, "event"@) == Some(JsonView::Str("session_start"@))
            &&& json::member(event, "model"@) == Some(JsonView::Str(model))
            &&& json::member(event, "base_url"@) == Some(JsonView::Str(base_url))
            &&& stands_for(json::member(event, "system_prompt"@), system_prompt)
            &&& forall|key: Seq<char>| #[trigger]
                json::member(event, key) is Some ==> key == "event"@ || key == "model"@ || key
                    == "base_url"@ || key == "system_prompt"@
        }),
{
    words::lemma_words();
}

/// What the user said is logged with just that text.
pub proof fn law_user_logged(content: Seq<char>)
    ensures
        ({
            let event = sessionlog::user_view(content);
            &&& json::member(event, "event"@) == Some(JsonView::Str("user"@))
            &&& json::member(event, "content"@) == Some(JsonView::Str(content))
            &&& forall|key: Seq<char>| #[trigger]
                json::member(event, key) is Some ==> key == "event"@ || key == "content"@
        }),
{
    words::lemma_words();
}

/// What the model said is logged with just that text, null where there is
/// none, and with the calls that it made.
pub proof fn law_assistant_logged(content: Option<Seq<char>>, tool_calls: JsonView)
    ensures
        ({
            let event = sessionlog::assistant_view(content, tool_calls);
            &&& json::member(event, "event"@) == Some(JsonView::Str("assistant"@))
            &&& stands_for(json::member(event, "content"@), content)
            &&& json::member(event, "tool_calls"@) == Some(tool_calls)
            &&& forall|key: Seq<char>| #[trigger]
                json::member(event, key) is Some ==> key == "event"@ || key == "content"@ || key
                    == "tool_calls"@
        }),
{
    words::lemma_words();
}

/// A call is logged with its id, its tool and its arguments as they came.
pub proof fn law_call_logged(id: Seq<char>, name: Seq<char>, arguments: Seq<char>)
    ensures
        ({
            let event = sessionlog::tool_call_view(id, name, arguments);
            &&& json::member(event, "event"@) == Some(JsonView::Str("tool_call"@))
            &&& json::member(event, "id"@) == Some(JsonView::Str(id))
            &&& json::member(event, "name"@) == Some(JsonView::Str(name))
            &&& json::member(event, "arguments"@) == Some(JsonView::Str(arguments))
            &&& forall|key: Seq<char>| #[trigger]
                json::member(event, key) is Some ==> key == "event"@ || key == "id"@ || key
                    == "name"@ || key == "arguments"@
        }),
{
    words::lemma_words();
}

/// The result of a call is logged with the id of the call, the whole text and
/// whether it is an error.
pub proof fn law_result_logged(id: Seq<char>, content: Seq<char>, is_error: bool)
    ensures
        ({
            let event = sessionlog::tool_result_view(id, content, is_error);
            &&& json::member(event, "event"@) == Some(JsonView::Str("tool_result"@))
            &&& json::member(event, "tool_call_id"@) == Some(JsonView::Str(id))
            &&& json::member(event, "content"@) == Some(JsonView::Str(content))
            &&& json::member(event, "is_error"@) == Some(JsonView::Bool(is_error))
            &&& forall|key: Seq<char>| #[trigger]
                json::member(event, key) is Some ==> key == "event"@ || key == "tool_call_id"@
                    || key == "content"@ || key == "is_error"@
        }),
{
    words::lemma_words();
}

/// An error is logged with just its message, and the end of a session with
/// nothing.
pub proof fn law_error_and_end_logged(said: Seq<char>)
    ensures
        ({
            let event = sessionlog::error_view(said);
            &&& json::member(event, "event"@) == Some(JsonView::Str("error"@))
            &&& json::member(event, "message"@) == Some(JsonView::Str(said))
            &&& forall|key: Seq<char>| #[trigger]
                json::member(event, key) is Some ==> key == "event"@ || key == "message"@
        }),
        ({
            let event = sessionlog::session_end_view();
            &&& json::member(event, "event"@) == Some(JsonView::Str("session_end"@))
            &&& forall|key: Seq<char>| #[trigger]
                json::member(event, key) is Some ==> key == "event"@
        }),
{
    words::lemma_words();
}

/// A time stamp is one more member of an event, and the other members stay as
/// they are.
pub proof fn law_stamp_is_added(
    members: Map<Seq<char>, JsonView>,
    ts: Seq<char>,
    key: Seq<char>,
)
    ensures
        ({
            let event = JsonView::Object(members);
            let stamped = sessionlog::stamped(event, ts);
            &&& json::member(stamped, "ts"@) == Some(JsonView::Str(ts))
            &&& key != "ts"@ ==> json::member(stamped, key) == json::member(event, key)
        }),
{
}

/// Calls stand in the conversation one for one and in order, each with its id,
/// its tool and its arguments as they came.
pub proof fn law_call_entries(calls: Seq<CallView>)
    ensures
        reply::calls_view(calls) is Array,
        reply::calls_view(calls)->Array_0.len() == calls.len(),
        forall|i: int|
            0 <= i < calls.len() ==> {
                let entry = #[trigger] reply::calls_view(calls)->Array_0[i];
                &&& json::member(entry, "id"@) == Some(JsonView::Str(calls[i].id))
                &&& json::member(entry, "type"@) == Some(JsonView::Str("function"@))
                &&& json::member(entry, "function"@) matches Some(function) && {
                    &&& json::member(function, "name"@) == Some(JsonView::Str(calls[i].name))
                    &&& json::member(function, "arguments"@) == Some(
                        JsonView::Str(calls[i].arguments),
                    )
                    &&& forall|key: Seq<char>| #[trigger]
                        json::member(function, key) is Some ==> key == "name"@ || key
                            == "arguments"@
                }
                &&& forall|key: Seq<char>| #[trigger]
                    json::member(entry, key) is Some ==> key == "id"@ || key == "type"@ || key
                        == "function"@
            },
{
    words::lemma_words();
}

/// Tools are listed one for one and in order, each with its name, its schema
/// as the server gave it, and its description where it has one.
pub proof fn law_tool_entries(tools: Seq<ToolView>)
    ensures
        bridge::openai_tools_view(tools).len() == tools.len(),
        forall|i: int|
            0 <= i < tools.len() ==> {
                let entry = #[trigger] bridge::openai_tools_view(tools)[i];
                &&& json::member(entry, "type"@) == Some(JsonView::Str("function"@))
                &&& json::member(entry, "function"@) matches Some(function) && {
                    &&& json::member(function, "name"@) == Some(JsonView::Str(tools[i].name))
                    &&& json::member(function, "parameters"@) == Some(tools[i].input_schema)
                    &&& match tools[i].description {
                        Some(s) => json::member(function, "description"@) == Some(JsonView::Str(s)),
                        None => json::member(function, "description"@) is None,
                    }
                    &&& forall|key: Seq<char>| #[trigger]
                        json::member(function, key) is Some ==> key == "name"@ || key
                            == "parameters"@ || key == "description"@
                }
                &&& forall|key: Seq<char>| #[trigger]
                    json::member(entry, key) is Some ==> key == "type"@ || key == "function"@
            },
{
    words::lemma_words();
}

/// A request holds the model, the whole conversation, the tools where there
/// are any and the providers where any are named, and nothing else. The
/// providers are named one for one and in order, and no other may be taken.
pub proof fn law_request(cfg: ConfigView, tools: Seq<JsonView>, history: Seq<JsonView>)
    ensures
        ({
            let body = request::body_view(cfg, tools, history);
            &&& json::member(body, "model"@) == Some(JsonView::Str(cfg.model))
            &&& json::member(body, "messages"@) == Some(JsonView::Array(history))
            &&& tools.len() > 0 ==> json::member(body, "tools"@) == Some(JsonView::Array(tools))
            &&& tools.len() == 0 ==> json::member(body, "tools"@) is None
            &&& cfg.provider_order.len() == 0 ==> json::member(body, "provider"@) is None
            &&& cfg.provider_order.len() > 0 ==> (json::member(body, "provider"@) matches Some(
                provider,
            ) && {
                &&& json::member(provider, "order"@) matches Some(JsonView::Array(order)) && {
                    &&& order.len() == cfg.provider_order.len()
                    &&& forall|i: int|
                        0 <= i < order.len() ==> #[trigger] order[i] == JsonView::Str(
                            cfg.provider_order[i],
                        )
                }
                &&& json::member(provider, "allow_fallbacks"@) == Some(JsonView::Bool(false))
                &&& forall|key: Seq<char>| #[trigger]
                    json::member(provider, key) is Some ==> key == "order"@ || key
                        == "allow_fallbacks"@
            })
            &&& forall|key: Seq<char>| #[trigger]
                json::member(body, key) is Some ==> key == "model"@ || key == "messages"@ || key
                    == "tools"@ || key == "provider"@
        }),
{
    words::lemma_words();
}

/// A report holds the model, all the events in order, and the id of the
/// session where it has one, and nothing else.
pub proof fn law_report(
    model: Seq<char>,
    events: Seq<JsonView>,
    session_id: Option<Seq<char>>,
)
    ensures
        ({
            let document = report::report_view(model, events, session_id);
            &&& json::member(document, "model"@) == Some(JsonView::Str(model))
            &&& json::member(document, "events"@) == Some(JsonView::Array(events))
            &&& match session_id {
                Some(id) => json::member(document, "session_id"@) == Some(JsonView::Str(id)),
                None => json::member(document, "session_id"@) is None,
            }
            &&& forall|key: Seq<char>| #[trigger]
                json::member(document, key) is Some ==> key == "model"@ || key == "events"@ || key
                    == "session_id"@
        }),
{
    words::lemma_words();
}

} // verus!
