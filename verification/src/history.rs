//! The conversation that a session log holds.

use vstd::prelude::*;

use crate::json;
use crate::json::{Json, JsonView};
use crate::json_text;
use crate::json_text::parse_json;
use crate::message;
use crate::message::{assistant_message, tool_message, user_message};
use crate::text;
use crate::text::{same_text, to_decimal, trim};
use crate::words;

verus! {

/// The kind of a logged event.
pub open spec fn event_kind(event: JsonView) -> Seq<char> {
    text::or_empty(json::text_member(event, "event"@))
}

/// Whether an event of this kind is kept in the log for the record only.
pub open spec fn bookkeeping(kind: Seq<char>) -> bool {
    kind == "session_start"@ || kind == "error"@ || kind == "session_end"@ || kind == "tool_call"@
}

/// The message that a logged event stands for.
pub open spec fn event_message(event: JsonView) -> Option<JsonView> {
    let kind = event_kind(event);
    if bookkeeping(kind) {
        None
    } else if kind == "user"@ {
        Some(message::user_message_view(text::or_empty(json::text_member(event, "content"@))))
    } else if kind == "assistant"@ {
        Some(
            message::assistant_message_view(
                match json::member(event, "content"@) {
                    Some(content) => content,
                    None => JsonView::Null,
                },
                match json::member(event, "tool_calls"@) {
                    Some(calls) => if calls is Null {
                        None
                    } else {
                        Some(calls)
                    },
                    None => None,
                },
            ),
        )
    } else if kind == "tool_result"@ {
        Some(
            message::tool_message_view(
                text::or_empty(json::text_member(event, "tool_call_id"@)),
                text::or_empty(json::text_member(event, "content"@)),
            ),
        )
    } else {
        None
    }
}

/// Whether a logged event is of a kind that the log is known to have.
pub open spec fn known_kind(kind: Seq<char>) -> bool {
    bookkeeping(kind) || kind == "user"@ || kind == "assistant"@ || kind == "tool_result"@
}

/// The message of a line that was read with this outcome.
pub open spec fn outcome_message(outcome: Result<JsonView, Seq<char>>) -> Option<JsonView> {
    match outcome {
        Ok(event) => event_message(event),
        Err(_) => None,
    }
}

/// What is said of the line with this number that was read with this outcome.
pub open spec fn outcome_warning(outcome: Result<JsonView, Seq<char>>, number: nat) -> Option<
    Seq<char>,
> {
    match outcome {
        Ok(event) => if known_kind(event_kind(event)) {
            None
        } else {
            Some(
                "warn: unknown event type '"@ + event_kind(event) + "' at line "@ + text::decimal(
                    number,
                ),
            )
        },
        Err(e) => Some("warn: skipping malformed log line "@ + text::decimal(number) + ": "@ + e),
    }
}

/// Whether a line has nothing but white space in it.
pub open spec fn blank(line: Seq<char>) -> bool {
    text::trimmed(line).len() == 0
}

/// The message that a line of a log stands for.
pub open spec fn line_message(line: Seq<char>) -> Option<JsonView> {
    if blank(line) {
        None
    } else {
        outcome_message(json_text::parsed(line))
    }
}

/// What is said of the line with this number, counted from one.
pub open spec fn line_warning(line: Seq<char>, number: nat) -> Option<Seq<char>> {
    if blank(line) {
        None
    } else {
        outcome_warning(json_text::parsed(line), number)
    }
}

/// The conversation in the lines of a log: the messages of its lines, in
/// order.
pub open spec fn history_of(lines: Seq<Seq<char>>) -> Seq<JsonView>
    decreases lines.len(),
{
    if lines.len() == 0 {
        Seq::empty()
    } else {
        text::push_opt(history_of(lines.drop_last()), line_message(lines.last()))
    }
}

/// What is said of the lines of a log, in order.
pub open spec fn warnings_of(lines: Seq<Seq<char>>) -> Seq<Seq<char>>
    decreases lines.len(),
{
    if lines.len() == 0 {
        Seq::empty()
    } else {
        text::push_opt(warnings_of(lines.drop_last()), line_warning(lines.last(), lines.len()))
    }
}

/// A conversation, and what was said of the lines that it was read from.
pub struct LoadedHistory {
    pub messages: Vec<Json>,
    pub warnings: Vec<String>,
}

/// The text of a member, or the empty one.
fn text_or_empty<'a>(event: &'a Json, key: &str) -> (s: String)
    ensures
        s@ == text::or_empty(json::text_member(event@, key@)),
{
    match event.get_str(key) {
        Some(s) => s.to_owned(),
        None => String::new(),
    }
}

/// The message that a logged event stands for.
pub fn message_of_event(event: &Json) -> (message: Option<Json>)
    ensures
        match message {
            Some(m) => event_message(event@) == Some(m@),
            None => event_message(event@) is None,
        },
{
    let kind_text = text_or_empty(event, "event");
    let kind = kind_text.as_str();
    if same_text(kind, "session_start") || same_text(kind, "error") || same_text(
        kind,
        "session_end",
    ) || same_text(kind, "tool_call") {
        None
    } else if same_text(kind, "user") {
        Some(user_message(text_or_empty(event, "content").as_str()))
    } else if same_text(kind, "assistant") {
        let content = match event.get("content") {
            Some(content) => content.copy(),
            None => Json::Null,
        };
        let tool_calls = match event.get("tool_calls") {
            Some(Json::Null) => None,
            Some(calls) => Some(calls.copy()),
            None => None,
        };
        Some(assistant_message(content, tool_calls))
    } else if same_text(kind, "tool_result") {
        let id = text_or_empty(event, "tool_call_id");
        let content = text_or_empty(event, "content");
        Some(tool_message(id.as_str(), content.as_str()))
    } else {
        None
    }
}

fn kind_is_known(kind: &str) -> (known: bool)
    ensures
        known == known_kind(kind@),
{
    same_text(kind, "session_start") || same_text(kind, "error") || same_text(kind, "session_end")
        || same_text(kind, "tool_call") || same_text(kind, "user") || same_text(kind, "assistant")
        || same_text(kind, "tool_result")
}

/// What became of one line of a log: its message, and what is said of it.
pub struct LineReading {
    pub message: Option<Json>,
    pub warning: Option<String>,
}

/// Judges the line with this number by the outcome of reading it.
pub fn judge_line(outcome: &Result<Json, String>, number: u64) -> (reading: LineReading)
    ensures
        json::opt_view(reading.message) == outcome_message(json_text::outcome_view(*outcome)),
        text::opt_string(reading.warning) == outcome_warning(
            json_text::outcome_view(*outcome),
            number as nat,
        ),
{
    match outcome {
        Ok(event) => {
            let kind = text_or_empty(event, "event");
            let message = message_of_event(event);
            if kind_is_known(kind.as_str()) {
                LineReading { message, warning: None }
            } else {
                let warning = "warn: unknown event type '".to_owned().concat(kind.as_str()).concat(
                    "' at line ",
                ).concat(to_decimal(number).as_str());
                LineReading { message, warning: Some(warning) }
            }
        },
        Err(e) => {
            let warning = "warn: skipping malformed log line ".to_owned().concat(
                to_decimal(number).as_str(),
            ).concat(": ").concat(e.as_str());
            LineReading { message: None, warning: Some(warning) }
        },
    }
}

/// Reads the lines of a session log as a conversation. Blank lines and the
/// events that are kept for the record only are passed over; of a line that
/// is malformed, or whose event is of no known kind, that is said.
pub fn load_history_from_log(lines: &Vec<String>) -> (loaded: LoadedHistory)
    ensures
        json::views(loaded.messages@) == history_of(text::texts(lines@)),
        text::texts(loaded.warnings@) == warnings_of(text::texts(lines@)),
{
    let mut messages: Vec<Json> = Vec::new();
    let mut warnings: Vec<String> = Vec::new();
    let mut i: usize = 0;
    let ghost all = text::texts(lines@);
    assert(json::views(messages@) =~= history_of(all.take(0)));
    assert(text::texts(warnings@) =~= warnings_of(all.take(0)));
    while i < lines.len()
        invariant
            i <= lines@.len(),
            all == text::texts(lines@),
            json::views(messages@) == history_of(all.take(i as int)),
            text::texts(warnings@) == warnings_of(all.take(i as int)),
        decreases lines@.len() - i,
    {
        let line = lines[i].as_str();
        let ghost old_messages = json::views(messages@);
        let ghost old_warnings = text::texts(warnings@);
        proof {
            assert(all.take(i + 1).drop_last() =~= all.take(i as int));
            assert(all.take(i + 1).last() == line@);
        }
        i += 1;
        if !trim(line).as_str().is_empty() {
            let reading = judge_line(&parse_json(line), i as u64);
            match reading.message {
                Some(message) => {
                    messages.push(message);
                    assert(json::views(messages@) =~= old_messages.push(message@));
                },
                None => {},
            }
            match reading.warning {
                Some(warning) => {
                    warnings.push(warning);
                    assert(text::texts(warnings@) =~= old_warnings.push(warning@));
                },
                None => {},
            }
        }
    }
    assert(all.take(lines@.len() as int) =~= all);
    LoadedHistory { messages, warnings }
}

/// A log to which another was appended holds the conversation of the one and
/// then that of the other.
pub proof fn law_history_of_appended_logs(one: Seq<Seq<char>>, other: Seq<Seq<char>>)
    ensures
        history_of(one + other) == history_of(one) + history_of(other),
    decreases other.len(),
{
    if other.len() == 0 {
        assert(one + other =~= one);
        assert(history_of(one) + history_of(other) =~= history_of(one));
    } else {
        law_history_of_appended_logs(one, other.drop_last());
        assert((one + other).drop_last() =~= one + other.drop_last());
        assert(history_of(one + other) =~= history_of(one) + history_of(other));
    }
}

/// What an event of a log stands for in the conversation. What the user said, a
/// reply, and the answer of a tool are messages with the contents that were
/// logged; calls that are null are left out. Nothing else is a message.
pub proof fn law_message_of_event(event: JsonView)
    ensures
        ({
            let kind = json::member(event, "event"@);
            let content = json::member(event, "content"@);
            let calls = json::member(event, "tool_calls"@);
            let id = json::member(event, "tool_call_id"@);
            let read = event_message(event);
            &&& kind == Some(JsonView::Str("user"@)) ==> (read matches Some(said) && {
                &&& json::member(said, "role"@) == Some(JsonView::Str("user"@))
                &&& content matches Some(JsonView::Str(s)) ==> json::member(said, "content"@)
                    == Some(JsonView::Str(s))
                &&& !(content matches Some(JsonView::Str(_))) ==> json::member(said, "content"@)
                    == Some(JsonView::Str(Seq::empty()))
            })
            &&& kind == Some(JsonView::Str("assistant"@)) ==> (read matches Some(said) && {
                &&& json::member(said, "role"@) == Some(JsonView::Str("assistant"@))
                &&& content is Some ==> json::member(said, "content"@) == content
                &&& content is None ==> json::member(said, "content"@) == Some(JsonView::Null)
                &&& calls is None || calls == Some(JsonView::Null) ==> json::member(
                    said,
                    "tool_calls"@,
                ) is None
                &&& calls is Some && calls != Some(JsonView::Null) ==> json::member(
                    said,
                    "tool_calls"@,
                ) == calls
            })
            &&& kind == Some(JsonView::Str("tool_result"@)) ==> (read matches Some(said) && {
                &&& json::member(said, "role"@) == Some(JsonView::Str("tool"@))
                &&& content matches Some(JsonView::Str(s)) ==> json::member(said, "content"@)
                    == Some(JsonView::Str(s))
                &&& !(content matches Some(JsonView::Str(_))) ==> json::member(said, "content"@)
                    == Some(JsonView::Str(Seq::empty()))
                &&& id matches Some(JsonView::Str(s)) ==> json::member(said, "tool_call_id"@)
                    == Some(JsonView::Str(s))
                &&& !(id matches Some(JsonView::Str(_))) ==> json::member(said, "tool_call_id"@)
                    == Some(JsonView::Str(Seq::empty()))
            })
            &&& read matches Some(said) ==> forall|key: Seq<char>| #[trigger]
                json::member(said, key) is Some ==> {
                    ||| key == "role"@
                    ||| key == "content"@
                    ||| key == "tool_calls"@ && kind == Some(JsonView::Str("assistant"@))
                    ||| key == "tool_call_id"@ && kind == Some(JsonView::Str("tool_result"@))
                }
            &&& kind != Some(JsonView::Str("user"@)) && kind != Some(JsonView::Str("assistant"@))
                && kind != Some(JsonView::Str("tool_result"@)) ==> read is None
        }),
{
    words::lemma_words();
}

/// Only a kind that a log never has is warned of, with the kind and the number
/// of the line. An event without a kind counts as one of an empty kind.
pub proof fn law_unknown_kinds_are_warned_of(event: JsonView, kind: Seq<char>, number: nat)
    requires
        json::member(event, "event"@) == Some(JsonView::Str(kind)) || !(json::member(
            event,
            "event"@,
        ) matches Some(JsonView::Str(_))) && kind.len() == 0,
    ensures
        ({
            let warning = outcome_warning(Ok(event), number);
            if kind == "user"@ || kind == "assistant"@ || kind == "tool_result"@ || kind
                == "tool_call"@ || kind == "session_start"@ || kind == "session_end"@ || kind
                == "error"@ {
                warning is None
            } else {
                warning == Some(
                    "warn: unknown event type '"@ + kind + "' at line "@ + text::decimal(number),
                )
            }
        }),
{
    words::lemma_words();
    assert(kind.len() == 0 ==> kind =~= Seq::empty());
}

/// A log is read line by line. A blank line is passed over; a line that is no
/// JSON is passed over with a warning that has its number, from one on, and
/// the reason; and any other line gives the message of its event, behind those
/// of the lines before it.
pub proof fn law_log_is_read_line_by_line(before: Seq<Seq<char>>, line: Seq<char>)
    ensures
        ({
            let lines = before.push(line);
            let read = json_text::parsed(line);
            &&& text::trimmed(line).len() == 0 ==> {
                &&& history_of(lines) == history_of(before)
                &&& warnings_of(lines) == warnings_of(before)
            }
            &&& text::trimmed(line).len() > 0 && read is Err ==> {
                &&& history_of(lines) == history_of(before)
                &&& warnings_of(lines) == warnings_of(before).push(
                    "warn: skipping malformed log line "@ + text::decimal(before.len() + 1) + ": "@
                        + read->Err_0,
                )
            }
            &&& text::trimmed(line).len() > 0 && read is Ok ==> {
                &&& event_message(read->Ok_0) matches Some(said) ==> history_of(lines)
                    == history_of(before).push(said)
                &&& event_message(read->Ok_0) is None ==> history_of(lines) == history_of(before)
                &&& outcome_warning(read, before.len() + 1) matches Some(said) ==> warnings_of(
                    lines,
                ) == warnings_of(before).push(said)
                &&& outcome_warning(read, before.len() + 1) is None ==> warnings_of(lines)
                    == warnings_of(before)
            }
        }),
        history_of(Seq::empty()).len() == 0,
        warnings_of(Seq::empty()).len() == 0,
{
    assert(before.push(line).drop_last() =~= before);
}

} // verus!
