//! What each thing that happens comes to: what the conversation gains, what is
//! shown and logged, and what is asked for next.

use vstd::prelude::*;

use crate::bridge;
use crate::bridge::ToolView;
use crate::chat;
use crate::chat::{ChatView, NextView, PhaseView};
use crate::json;
use crate::json::JsonView;
use crate::json_text;
use crate::message;
use crate::reply;
use crate::reply::{CallView, ReplyView};
use crate::request;
use crate::request::ConfigView;
use crate::sessionlog;
use crate::step::{ActionView, EffectView, EventView, OutcomeView};
use crate::text;
use crate::words;

verus! {

/// Whether a message says this in this role.
pub open spec fn says(said: JsonView, role: Seq<char>, content: JsonView) -> bool {
    &&& json::member(said, "role"@) == Some(JsonView::Str(role))
    &&& json::member(said, "content"@) == Some(content)
}

/// Whether an effect logs an event of this kind with this member.
pub open spec fn logs(
    effect: EffectView,
    kind: Seq<char>,
    key: Seq<char>,
    value: JsonView,
) -> bool {
    effect matches EffectView::Log(event) && {
        &&& json::member(event, "event"@) == Some(JsonView::Str(kind))
        &&& json::member(event, key) == Some(value)
    }
}

/// Whether an effect logs the end of a session.
pub open spec fn logs_end(effect: EffectView) -> bool {
    effect matches EffectView::Log(event) && {
        &&& event == sessionlog::session_end_view()
        &&& json::member(event, "event"@) == Some(JsonView::Str("session_end"@))
    }
}

/// Whether an action asks the model for its reply to the conversation of a
/// chat, with the key and the tools of the chat.
pub open spec fn asks_model(action: ActionView, chat: ChatView) -> bool {
    action matches ActionView::Post { url, api_key, body } && {
        &&& url == text::without_end(chat.cfg.base_url, '/') + "/chat/completions"@
        &&& api_key == chat.cfg.api_key
        &&& body == request::body_view(chat.cfg, chat.tools, chat.history)
        &&& json::member(body, "model"@) == Some(JsonView::Str(chat.cfg.model))
        &&& json::member(body, "messages"@) == Some(JsonView::Array(chat.history))
        &&& chat.tools.len() > 0 ==> json::member(body, "tools"@) == Some(
            JsonView::Array(chat.tools),
        )
    }
}

/// Whether a chat is another one that has gone on: the configuration, the tools
/// and the kind of chat are the same, and no message is gone or changed.
pub open spec fn went_on(before: ChatView, after: ChatView) -> bool {
    &&& after.cfg == before.cfg
    &&& after.tools == before.tools
    &&& after.interactive == before.interactive
    &&& before.history.is_prefix_of(after.history)
}

/// Whether the call that is out is answered with this text: the conversation
/// goes on with it, it is shown, and it is logged.
pub open spec fn answers_call(
    chat: ChatView,
    after: ChatView,
    effects: Seq<EffectView>,
    text: Seq<char>,
    is_error: bool,
) -> bool {
    let id = chat.phase->calls[chat.phase->next].id;
    let at = chat.history.len() as int;
    &&& went_on(chat, after)
    &&& at < after.history.len()
    &&& after.history[at] == message::tool_message_view(id, text)
    &&& says(after.history[at], "tool"@, JsonView::Str(text))
    &&& json::member(after.history[at], "tool_call_id"@) == Some(JsonView::Str(id))
    &&& effects.len() >= 2
    &&& effects[0] == (EffectView::ToolEnd { text, is_error })
    &&& effects[1] == EffectView::Log(sessionlog::tool_result_view(id, text, is_error))
    &&& logs(effects[1], "tool_result"@, "content"@, JsonView::Str(text))
    &&& logs(effects[1], "tool_result"@, "tool_call_id"@, JsonView::Str(id))
    &&& logs(effects[1], "tool_result"@, "is_error"@, JsonView::Bool(is_error))
}

proof fn lemma_advance_goes_on(chat: ChatView, calls: Seq<CallView>, next: int)
    requires
        0 <= next,
    ensures
        went_on(chat, chat::advance_view(chat, calls, next).chat),
        chat::advance_view(chat, calls, next).next is Act,
        chat::advance_view(chat, calls, next).chat.phase is Sent || chat::advance_view(
            chat,
            calls,
            next,
        ).chat.phase is Calling,
        forall|i: int|
            0 <= i < chat::advance_view(chat, calls, next).effects.len() ==> !(
            #[trigger] chat::advance_view(chat, calls, next).effects[i] is Say),
    decreases calls.len() - next,
{
    if next < calls.len() {
        let call = calls[next];
        match reply::arguments_view(call.arguments) {
            Err(e) => {
                lemma_advance_goes_on(
                    chat::answered(chat, call, chat::refusal(e)),
                    calls,
                    next + 1,
                );
            },
            Ok(_) => {},
        }
    }
}

proof fn lemma_outcome_answers(
    chat: ChatView,
    outcome: OutcomeView,
    text: Seq<char>,
    is_error: bool,
)
    requires
        chat.wf(),
        chat.phase is Calling,
        chat::outcome_text(outcome) == text,
        chat::outcome_is_error(outcome) == is_error,
    ensures
        ({
            let (after, asked) = chat::resume_view(chat, EventView::ToolDone(outcome));
            answers_call(chat, after, asked.effects, text, is_error)
        }),
{
    words::lemma_words();
    let calls = chat.phase->calls;
    let next = chat.phase->next;
    let answered = chat::answered(chat, calls[next], text);
    lemma_advance_goes_on(answered, calls, next + 1);
    assert(answered.history[chat.history.len() as int] == answered.history.last());
}

/// Whatever a tool answers is told to the model, shown and logged word for
/// word. It counts as an error where the tool says that it is one, and only
/// there.
pub proof fn law_answer_of_a_tool_is_told(
    chat: ChatView,
    text: Seq<char>,
    is_error: Option<bool>,
)
    requires
        chat.wf(),
        chat.phase is Calling,
    ensures
        ({
            let outcome = OutcomeView::Replied { text: Some(text), is_error };
            let (after, asked) = chat::resume_view(chat, EventView::ToolDone(outcome));
            answers_call(chat, after, asked.effects, text, is_error == Some(true))
        }),
        chat::outcome_text(OutcomeView::Replied { text: Some(text), is_error }) == text,
{
    let outcome = OutcomeView::Replied { text: Some(text), is_error };
    lemma_outcome_answers(chat, outcome, text, is_error == Some(true));
}

/// An answer that cannot be written down is told as one, and counts as an
/// error where the tool says so, and only there.
pub proof fn law_unwritable_answer_is_told(chat: ChatView, is_error: Option<bool>)
    requires
        chat.wf(),
        chat.phase is Calling,
    ensures
        ({
            let outcome = OutcomeView::Replied { text: None, is_error };
            let (after, asked) = chat::resume_view(chat, EventView::ToolDone(outcome));
            answers_call(
                chat,
                after,
                asked.effects,
                "(unserializable tool result)"@,
                is_error == Some(true),
            )
        }),
{
    let outcome = OutcomeView::Replied { text: None, is_error };
    lemma_outcome_answers(
        chat,
        outcome,
        "(unserializable tool result)"@,
        is_error == Some(true),
    );
}

/// That a tool could not be reached is told with every cause, the outermost
/// first, and counts as an error.
pub proof fn law_unreached_tool_is_told(chat: ChatView, chain: Seq<Seq<char>>)
    requires
        chat.wf(),
        chat.phase is Calling,
    ensures
        ({
            let outcome = OutcomeView::Failed(chain);
            let (after, asked) = chat::resume_view(chat, EventView::ToolDone(outcome));
            let text = "tool error: "@ + text::joined(
                seq!["MCP tools/call failed"@] + chain,
                ": "@,
            );
            answers_call(chat, after, asked.effects, text, true)
        }),
{
    let outcome = OutcomeView::Failed(chain);
    let text = "tool error: "@ + text::joined(seq!["MCP tools/call failed"@] + chain, ": "@);
    lemma_outcome_answers(chat, outcome, text, true);
}

/// After the answer to a call, the turn goes on with the calls behind it.
pub proof fn law_next_call_follows(chat: ChatView, outcome: OutcomeView)
    requires
        chat.wf(),
        chat.phase is Calling,
    ensures
        ({
            let turn = chat::handle_turn_view(chat, EventView::ToolDone(outcome));
            let calls = chat.phase->calls;
            let next = chat.phase->next;
            let at = chat.history.len() as int;
            let answered = ChatView {
                history: chat.history.push(turn.chat.history[at]),
                ..chat
            };
            let rest = chat::advance_view(answered, calls, next + 1);
            &&& turn.chat == rest.chat
            &&& turn.next == rest.next
            &&& turn.effects.len() == rest.effects.len() + 2
            &&& turn.effects.skip(2) == rest.effects
        }),
{
    let calls = chat.phase->calls;
    let next = chat.phase->next;
    let turn = chat::handle_turn_view(chat, EventView::ToolDone(outcome));
    let text = chat::outcome_text(outcome);
    let answered = chat::answered(chat, calls[next], text);
    lemma_advance_goes_on(answered, calls, next + 1);
    let at = chat.history.len() as int;
    assert(answered.history[at] == turn.chat.history[at]);
    assert(turn.effects.skip(2) =~= chat::advance_view(answered, calls, next + 1).effects);
}

/// How the calls of a reply are made. When none is left, the model is asked
/// again, and nothing else happens. A call with proper arguments is logged and
/// shown as it came, and the tool of that name is called with them. A call
/// whose arguments are no JSON is logged, shown and answered with the reason,
/// which counts as an error, and the next one follows.
pub proof fn law_calls_are_made(chat: ChatView, calls: Seq<CallView>, next: int)
    requires
        0 <= next <= calls.len(),
    ensures
        ({
            let turn = chat::advance_view(chat, calls, next);
            let call = calls[next];
            &&& next == calls.len() ==> {
                &&& turn.chat == ChatView { phase: PhaseView::Sent, ..chat }
                &&& turn.effects.len() == 0
                &&& turn.next matches NextView::Act(action) && asks_model(action, chat)
            }
            &&& next < calls.len() ==> {
                &&& turn.effects.len() >= 2
                &&& turn.effects[0] == EffectView::Log(
                    sessionlog::tool_call_view(call.id, call.name, call.arguments),
                )
                &&& logs(turn.effects[0], "tool_call"@, "id"@, JsonView::Str(call.id))
                &&& logs(turn.effects[0], "tool_call"@, "name"@, JsonView::Str(call.name))
                &&& logs(
                    turn.effects[0],
                    "tool_call"@,
                    "arguments"@,
                    JsonView::Str(call.arguments),
                )
                &&& turn.effects[1] == (EffectView::ToolBegin {
                    name: call.name,
                    arguments: call.arguments,
                })
            }
            &&& next < calls.len() ==> match reply::arguments_view(call.arguments) {
                Ok(arguments) => {
                    &&& turn.effects.len() == 2
                    &&& turn.chat == ChatView { phase: PhaseView::Calling { calls, next }, ..chat }
                    &&& turn.next == NextView::Act(
                        ActionView::CallTool { name: call.name, arguments },
                    )
                },
                Err(e) => {
                    let text = "invalid JSON arguments: "@ + e;
                    let at = chat.history.len() as int;
                    let said = turn.chat.history[at];
                    let answered = ChatView { history: chat.history.push(said), ..chat };
                    let rest = chat::advance_view(answered, calls, next + 1);
                    &&& turn.chat.history.len() > at
                    &&& said == message::tool_message_view(call.id, text)
                    &&& says(said, "tool"@, JsonView::Str(text))
                    &&& json::member(said, "tool_call_id"@) == Some(JsonView::Str(call.id))
                    &&& turn.effects.len() == 4 + rest.effects.len()
                    &&& turn.effects[2] == (EffectView::ToolEnd { text, is_error: true })
                    &&& turn.effects[3] == EffectView::Log(
                        sessionlog::tool_result_view(call.id, text, true),
                    )
                    &&& logs(
                        turn.effects[3],
                        "tool_result"@,
                        "tool_call_id"@,
                        JsonView::Str(call.id),
                    )
                    &&& logs(turn.effects[3], "tool_result"@, "content"@, JsonView::Str(text))
                    &&& logs(turn.effects[3], "tool_result"@, "is_error"@, JsonView::Bool(true))
                    &&& turn.effects.skip(4) == rest.effects
                    &&& turn.chat == rest.chat
                    &&& turn.next == rest.next
                },
            }
        }),
{
    words::lemma_words();
    let turn = chat::advance_view(chat, calls, next);
    if next < calls.len() {
        let call = calls[next];
        match reply::arguments_view(call.arguments) {
            Err(e) => {
                let answered = chat::answered(chat, call, chat::refusal(e));
                lemma_advance_goes_on(answered, calls, next + 1);
                let at = chat.history.len() as int;
                let rest = chat::advance_view(answered, calls, next + 1);
                assert(turn.chat.history[at] == answered.history[at]);
                assert(turn.effects.skip(4) =~= rest.effects);
            },
            Ok(_) => {},
        }
    }
}

/// Arguments are what their text says: the object that it holds, or nothing
/// where it is blank or holds something else. A text that is no JSON is
/// refused with the reason.
pub proof fn law_arguments(s: Seq<char>, members: Map<Seq<char>, JsonView>, e: Seq<char>)
    ensures
        text::trimmed(s).len() == 0 ==> reply::arguments_view(s) == Ok::<
            Option<JsonView>,
            Seq<char>,
        >(None),
        text::trimmed(s).len() > 0 ==> {
            let read = json_text::parsed(text::trimmed(s));
            &&& read == Ok::<JsonView, Seq<char>>(JsonView::Object(members))
                ==> reply::arguments_view(s) == Ok::<Option<JsonView>, Seq<char>>(
                Some(JsonView::Object(members)),
            )
            &&& read is Ok && !(read->Ok_0 is Object) ==> reply::arguments_view(s) == Ok::<
                Option<JsonView>,
                Seq<char>,
            >(None)
            &&& read == Err::<JsonView, Seq<char>>(e) ==> reply::arguments_view(s) == Err::<
                Option<JsonView>,
                Seq<char>,
            >(e)
        },
{
}

/// A reply becomes part of the conversation with the text that it has, or null
/// where it has none, and with its calls where it makes any; and it is logged
/// with the same, null where it makes no call.
pub proof fn law_reply_is_heard(chat: ChatView, choices: Seq<ReplyView>)
    requires
        chat.phase is Parsing,
        choices.len() > 0,
    ensures
        ({
            let (after, asked) = chat::resume_view(chat, EventView::Parsed(choices));
            let at = chat.history.len() as int;
            let said = after.history[at];
            let content = match choices[0].content {
                Some(s) => JsonView::Str(s),
                None => JsonView::Null,
            };
            let calls = reply::calls_view(choices[0].calls);
            &&& went_on(chat, after)
            &&& after.history.len() > at
            &&& says(said, "assistant"@, content)
            &&& asked.effects.len() > 0
            &&& logs(asked.effects[0], "assistant"@, "content"@, content)
            &&& if choices[0].calls.len() > 0 {
                &&& said == message::assistant_message_view(content, Some(calls))
                &&& asked.effects[0] == EffectView::Log(
                    sessionlog::assistant_view(choices[0].content, calls),
                )
                &&& json::member(said, "tool_calls"@) == Some(calls)
                &&& logs(asked.effects[0], "assistant"@, "tool_calls"@, calls)
            } else {
                &&& said == message::assistant_message_view(content, None)
                &&& asked.effects[0] == EffectView::Log(
                    sessionlog::assistant_view(choices[0].content, JsonView::Null),
                )
                &&& json::member(said, "tool_calls"@) is None
                &&& logs(asked.effects[0], "assistant"@, "tool_calls"@, JsonView::Null)
                &&& after.history.len() == at + 1
            }
        }),
{
    words::lemma_words();
    let reply = choices[0];
    let heard = chat.said(chat::reply_message(reply));
    assert(heard.history[chat.history.len() as int] == heard.history.last());
    if reply.calls.len() > 0 {
        lemma_advance_goes_on(heard, reply.calls, 0);
    }
}

/// A reply that calls no tool is shown whole, where it has a text, and once;
/// nothing else is shown as said by the model. The turn is then over: an
/// interactive chat asks for a line, and another ends.
pub proof fn law_reply_is_shown(chat: ChatView, choices: Seq<ReplyView>)
    requires
        chat.phase is Parsing,
        choices.len() > 0,
        choices[0].calls.len() == 0,
    ensures
        ({
            let (after, asked) = chat::resume_view(chat, EventView::Parsed(choices));
            let shown = asked.effects;
            let turn = chat::handle_turn_view(chat, EventView::Parsed(choices));
            &&& match choices[0].content {
                Some(content) => {
                    &&& turn.effects.len() == 2
                    &&& turn.effects[1] == EffectView::Say(content)
                    &&& shown.len() > 1
                    &&& shown[1] == EffectView::Say(content)
                    &&& forall|i: int|
                        0 <= i < shown.len() && i != 1 ==> !(#[trigger] shown[i] is Say)
                },
                None => {
                    &&& turn.effects.len() == 1
                    &&& forall|i: int| 0 <= i < shown.len() ==> !(#[trigger] shown[i] is Say)
                },
            }
            &&& turn.next is Done
            &&& chat.interactive ==> {
                &&& shown.len() == turn.effects.len() + 2
                &&& shown[shown.len() - 2] is Blank
                &&& shown[shown.len() - 1] == EffectView::Pad(4)
                &&& asked.action is ReadLine
                &&& after.phase is Reading
            }
            &&& !chat.interactive ==> {
                &&& shown.len() == turn.effects.len() + 1
                &&& logs_end(shown[shown.len() - 1])
                &&& asked.action == ActionView::Exit(Ok(()))
                &&& after.phase is Over
            }
        }),
{
    words::lemma_words();
}

/// A reply that calls tools shows nothing as said. Behind the log of the reply
/// its calls are made, from the first on.
pub proof fn law_reply_with_calls(chat: ChatView, choices: Seq<ReplyView>)
    requires
        chat.phase is Parsing,
        choices.len() > 0,
        choices[0].calls.len() > 0,
    ensures
        ({
            let (after, asked) = chat::resume_view(chat, EventView::Parsed(choices));
            let at = chat.history.len() as int;
            let heard = ChatView { history: chat.history.push(after.history[at]), ..chat };
            let rest = chat::advance_view(heard, choices[0].calls, 0);
            &&& after == rest.chat
            &&& asked.effects.len() == 1 + rest.effects.len()
            &&& asked.effects.skip(1) == rest.effects
            &&& rest.next == NextView::Act(asked.action)
            &&& forall|i: int|
                0 <= i < asked.effects.len() ==> !(#[trigger] asked.effects[i] is Say)
        }),
{
    let reply = choices[0];
    let heard = chat.said(chat::reply_message(reply));
    let (after, asked) = chat::resume_view(chat, EventView::Parsed(choices));
    lemma_advance_goes_on(heard, reply.calls, 0);
    let at = chat.history.len() as int;
    assert(after.history[at] == heard.history[at]);
    assert(asked.effects.skip(1) =~= chat::advance_view(heard, reply.calls, 0).effects);
}

/// Only a reply is shown as said by the model: nothing else that happens shows
/// anything so.
pub proof fn law_nothing_else_is_said(chat: ChatView, event: EventView)
    requires
        chat.wf(),
        chat::accepts(chat.phase, event),
        !(event is Parsed),
    ensures
        ({
            let shown = chat::resume_view(chat, event).1.effects;
            forall|i: int| 0 <= i < shown.len() ==> !(#[trigger] shown[i] is Say)
        }),
{
    match (chat.phase, event) {
        (PhaseView::Calling { calls, next }, EventView::ToolDone(outcome)) => {
            let text = chat::outcome_text(outcome);
            lemma_advance_goes_on(chat::answered(chat, calls[next], text), calls, next + 1);
        },
        _ => {},
    }
}

/// Whatever happens, a chat keeps its configuration, its tools and its kind,
/// and no message is lost or changed.
pub proof fn law_nothing_is_lost(chat: ChatView, event: EventView)
    requires
        chat.wf(),
        chat::accepts(chat.phase, event),
    ensures
        went_on(chat, chat::resume_view(chat, event).0),
{
    match (chat.phase, event) {
        (PhaseView::Parsing(_), EventView::Parsed(choices)) => {
            if choices.len() > 0 {
                law_reply_is_heard(chat, choices);
            }
        },
        (PhaseView::Calling { calls, next }, EventView::ToolDone(outcome)) => {
            let text = chat::outcome_text(outcome);
            lemma_advance_goes_on(chat::answered(chat, calls[next], text), calls, next + 1);
        },
        _ => {},
    }
}

/// What the user enters, without the white space around it, is remembered,
/// becomes part of the conversation, is logged, and is sent to the model with
/// all that was said before.
pub proof fn law_line_is_told(chat: ChatView, line: Seq<char>)
    requires
        text::trimmed(line).len() > 0,
        text::trimmed(line) != "/exit"@,
        text::trimmed(line) != "/quit"@,
    ensures
        ({
            let (after, asked) = chat::resume_view(chat, EventView::Line(line));
            let said = text::trimmed(line);
            &&& went_on(chat, after)
            &&& after.history.len() == chat.history.len() + 1
            &&& after.history.last() == message::user_message_view(said)
            &&& says(after.history.last(), "user"@, JsonView::Str(said))
            &&& after.phase is Sent
            &&& asked.effects.len() == 3
            &&& asked.effects[0] == EffectView::Remember(said)
            &&& asked.effects[1] is Blank
            &&& asked.effects[2] == EffectView::Log(sessionlog::user_view(said))
            &&& logs(asked.effects[2], "user"@, "content"@, JsonView::Str(said))
            &&& asks_model(asked.action, after)
        }),
{
    words::lemma_words();
}

/// A blank line changes nothing, and another line is asked for. `/exit`,
/// `/quit` and the end of the input end the session, which is logged. Where
/// the input fails, the chat ends with that failure.
pub proof fn law_lines_that_say_nothing(
    chat: ChatView,
    line: Seq<char>,
    chain: Seq<Seq<char>>,
)
    ensures
        text::trimmed(line).len() == 0 ==> {
            let (after, asked) = chat::resume_view(chat, EventView::Line(line));
            &&& after == ChatView { phase: PhaseView::Reading, ..chat }
            &&& asked.effects.len() == 2
            &&& asked.effects[0] is Blank
            &&& asked.effects[1] == EffectView::Pad(4)
            &&& asked.action is ReadLine
        },
        text::trimmed(line) == "/exit"@ || text::trimmed(line) == "/quit"@ ==> {
            let (after, asked) = chat::resume_view(chat, EventView::Line(line));
            &&& after == ChatView { phase: PhaseView::Over, ..chat }
            &&& asked.effects.len() == 1
            &&& logs_end(asked.effects[0])
            &&& asked.action == ActionView::Exit(Ok(()))
        },
        ({
            let (after, asked) = chat::resume_view(chat, EventView::EndOfInput);
            &&& after == ChatView { phase: PhaseView::Over, ..chat }
            &&& asked.effects.len() == 1
            &&& logs_end(asked.effects[0])
            &&& asked.action == ActionView::Exit(Ok(()))
        }),
        ({
            let (after, asked) = chat::resume_view(chat, EventView::InputFailed(chain));
            &&& after == ChatView { phase: PhaseView::Over, ..chat }
            &&& asked.effects.len() == 0
            &&& asked.action == ActionView::Exit(Err(chain))
        }),
{
    words::lemma_words();
}

/// Whether a turn fails with this chain of causes and leaves the conversation
/// as it is: the causes are shown and logged on one line, an interactive chat
/// asks for a line, and another ends with them.
pub open spec fn fails_with(chat: ChatView, event: EventView, chain: Seq<Seq<char>>) -> bool {
    let (after, asked) = chat::resume_view(chat, event);
    let said = text::joined(chain, ": "@);
    &&& chat::handle_turn_view(chat, event).next == NextView::Failed(chain)
    &&& after.history == chat.history
    &&& went_on(chat, after)
    &&& asked.effects.len() >= 2
    &&& asked.effects[0] == EffectView::Complain(said)
    &&& asked.effects[1] == EffectView::Log(sessionlog::error_view(said))
    &&& logs(asked.effects[1], "error"@, "message"@, JsonView::Str(said))
    &&& if chat.interactive {
        &&& after.phase is Reading
        &&& asked.effects.len() == 4
        &&& asked.effects[2] is Blank
        &&& asked.effects[3] == EffectView::Pad(4)
        &&& asked.action is ReadLine
    } else {
        &&& after.phase is Over
        &&& asked.effects.len() == 2
        &&& asked.action == ActionView::Exit(Err(chain))
    }
}

/// A request that could not be sent, and a response that could not be read,
/// fail the turn with the reason in front of every cause.
pub proof fn law_lost_requests(chat: ChatView, chain: Seq<Seq<char>>)
    requires
        chat.phase is Sent,
    ensures
        fails_with(
            chat,
            EventView::SendFailed(chain),
            seq!["POST "@ + text::without_end(chat.cfg.base_url, '/') + "/chat/completions"@]
                + chain,
        ),
        fails_with(
            chat,
            EventView::ReadFailed(chain),
            seq!["read OpenRouter response body"@] + chain,
        ),
{
    words::lemma_words();
    let base = text::without_end(chat.cfg.base_url, '/');
    assert("POST "@ + (base + "/chat/completions"@) =~= "POST "@ + base + "/chat/completions"@);
}

/// A response is read where its status is one of the two hundreds, and the body
/// is read as it came. Any other status fails the turn, with the status and the
/// complaint.
pub proof fn law_response(chat: ChatView, status: u16, body: Seq<char>)
    requires
        chat.phase is Sent,
    ensures
        200 <= status <= 299 ==> {
            let (after, asked) = chat::resume_view(chat, EventView::Reply { status, body });
            &&& after == ChatView { phase: PhaseView::Parsing(body), ..chat }
            &&& asked.effects.len() == 0
            &&& asked.action == ActionView::Parse(body)
        },
        !(200 <= status <= 299) ==> fails_with(
            chat,
            EventView::Reply { status, body },
            seq![
                "OpenRouter "@ + (text::decimal(status as nat) + " "@ + reply::status_reason(status))
                    + ": "@ + reply::error_message_view(body),
            ],
        ),
{
    words::lemma_words();
}

/// A body that is no reply, and a reply without choices, fail the turn; the
/// first with the whole body and every cause.
pub proof fn law_bad_replies(
    chat: ChatView,
    body: Seq<char>,
    chain: Seq<Seq<char>>,
    choices: Seq<ReplyView>,
)
    requires
        chat.phase == PhaseView::Parsing(body),
        choices.len() == 0,
    ensures
        fails_with(
            chat,
            EventView::Unparsable(chain),
            seq!["parse OpenRouter success body: "@ + body] + chain,
        ),
        fails_with(
            chat,
            EventView::Parsed(choices),
            seq!["OpenRouter response had no choices"@],
        ),
{
    words::lemma_words();
}

/// Only the first choice of a reply counts.
pub proof fn law_first_choice_counts(
    chat: ChatView,
    one: Seq<ReplyView>,
    other: Seq<ReplyView>,
)
    requires
        chat.phase is Parsing,
        one.len() > 0,
        other.len() > 0,
        one[0] == other[0],
    ensures
        chat::resume_view(chat, EventView::Parsed(one)) == chat::resume_view(
            chat,
            EventView::Parsed(other),
        ),
{
}

/// Whether an effect logs the start of a session of this configuration.
pub open spec fn logs_start(effect: EffectView, cfg: ConfigView) -> bool {
    &&& effect == EffectView::Log(
        sessionlog::session_start_view(cfg.model, cfg.base_url, cfg.system_prompt),
    )
    &&& logs(effect, "session_start"@, "model"@, JsonView::Str(cfg.model))
    &&& logs(effect, "session_start"@, "base_url"@, JsonView::Str(cfg.base_url))
    &&& match cfg.system_prompt {
        Some(prompt) => logs(
            effect,
            "session_start"@,
            "system_prompt"@,
            JsonView::Str(prompt),
        ),
        None => logs(effect, "session_start"@, "system_prompt"@, JsonView::Null),
    }
}

/// An interactive chat starts with the system prompt, where there is one, as
/// all of its conversation. It counts and names the tools, logs the start of
/// the session, and asks for a line.
pub proof fn law_interactive_start(cfg: ConfigView, tools: Seq<ToolView>)
    ensures
        ({
            let (chat, asked) = chat::run_view(cfg, tools);
            let names = Seq::new(tools.len(), |i: int| tools[i].name);
            &&& chat.cfg == cfg
            &&& chat.tools == bridge::openai_tools_view(tools)
            &&& chat.interactive
            &&& chat.phase is Reading
            &&& match cfg.system_prompt {
                Some(prompt) => {
                    &&& chat.history == seq![message::system_message_view(prompt)]
                    &&& says(chat.history[0], "system"@, JsonView::Str(prompt))
                },
                None => chat.history.len() == 0,
            }
            &&& asked.effects.len() == 4
            &&& asked.effects[0] == EffectView::Note(
                "Connected to MCP. "@ + text::decimal(tools.len()) + " tool(s) available: "@
                    + text::joined(names, ", "@),
            )
            &&& logs_start(asked.effects[1], cfg)
            &&& asked.effects[2] is Blank
            &&& asked.effects[3] == EffectView::Pad(4)
            &&& asked.action is ReadLine
        }),
{
    words::lemma_words();
    assert(chat::tool_names(tools) =~= Seq::new(tools.len(), |i: int| tools[i].name));
}

/// A chat of one turn starts with the earlier conversation and the new message
/// behind it. The system prompt, where there is one, is in front unless the
/// conversation begins with one. The start and the message are logged, and the
/// model is asked.
pub proof fn law_oneshot_start(
    cfg: ConfigView,
    tools: Seq<ToolView>,
    prior: Seq<JsonView>,
    prompt: Seq<char>,
)
    ensures
        ({
            let (chat, asked) = chat::run_oneshot_view(cfg, tools, prior, prompt);
            let kept = prior.len() > 0 && json::member(prior[0], "role"@) == Some(
                JsonView::Str("system"@),
            );
            &&& chat.cfg == cfg
            &&& chat.tools == bridge::openai_tools_view(tools)
            &&& !chat.interactive
            &&& chat.phase is Sent
            &&& chat.history.len() > 0
            &&& chat.history.last() == message::user_message_view(prompt)
            &&& says(chat.history.last(), "user"@, JsonView::Str(prompt))
            &&& cfg.system_prompt is None || kept ==> chat.history.drop_last() == prior
            &&& cfg.system_prompt matches Some(system) ==> (!kept ==> {
                &&& chat.history.len() == prior.len() + 2
                &&& chat.history[0] == message::system_message_view(system)
                &&& says(chat.history[0], "system"@, JsonView::Str(system))
                &&& chat.history.subrange(1, chat.history.len() - 1) == prior
            })
            &&& asked.effects.len() == 2
            &&& logs_start(asked.effects[0], cfg)
            &&& asked.effects[1] == EffectView::Log(sessionlog::user_view(prompt))
            &&& logs(asked.effects[1], "user"@, "content"@, JsonView::Str(prompt))
            &&& asks_model(asked.action, chat)
        }),
{
    words::lemma_words();
    let (chat, asked) = chat::run_oneshot_view(cfg, tools, prior, prompt);
    let start = chat::with_system(prior, cfg.system_prompt);
    assert(chat.history.drop_last() =~= start);
    match cfg.system_prompt {
        Some(system) => {
            if !chat::has_system(prior) {
                assert(chat.history.subrange(1, chat.history.len() - 1) =~= prior);
            }
        },
        None => {},
    }
}

/// A refusal is reported with the status and the complaint, and arguments that
/// are no JSON with the reason, each as it came.
pub proof fn law_reports(status: Seq<char>, said: Seq<char>)
    ensures
        chat::status_failure(status, said) == "OpenRouter "@ + status + ": "@ + said,
        chat::refusal(said) == "invalid JSON arguments: "@ + said,
{
}

} // verus!
