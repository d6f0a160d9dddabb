//! What holds of a whole session: of a chat, whatever happens to it, and of the
//! log that it leaves.

use vstd::prelude::*;

use crate::bridge::ToolView;
use crate::chat;
use crate::chat::{ChatView, NextView, PhaseView};
use crate::history;
use crate::json;
use crate::json::JsonView;
use crate::message;
use crate::reply;
use crate::reply::{CallView, ReplyView};
use crate::request;
use crate::request::ConfigView;
use crate::sessionlog;
use crate::step;
use crate::step::{ActionView, EffectView, EventView, StepView, Stream};
use crate::text;

verus! {

/// The keys that a conversation is read by are no time stamps.
pub proof fn lemma_stamp_hides_nothing(event: JsonView, ts: Seq<char>)
    ensures
        json::member(sessionlog::stamped(event, ts), "event"@) == json::member(event, "event"@),
        json::member(sessionlog::stamped(event, ts), "content"@) == json::member(event, "content"@),
        json::member(sessionlog::stamped(event, ts), "tool_calls"@) == json::member(
            event,
            "tool_calls"@,
        ),
        json::member(sessionlog::stamped(event, ts), "tool_call_id"@) == json::member(
            event,
            "tool_call_id"@,
        ),
{
    reveal_strlit("ts");
    reveal_strlit("event");
    reveal_strlit("content");
    reveal_strlit("tool_calls");
    reveal_strlit("tool_call_id");
    assert("ts"@.len() == 2 && "event"@.len() == 5 && "content"@.len() == 7);
    assert("tool_calls"@.len() == 10 && "tool_call_id"@.len() == 12);
}

/// The kinds of events are told apart.
pub proof fn lemma_kinds()
    ensures
        !history::bookkeeping("user"@),
        !history::bookkeeping("assistant"@),
        !history::bookkeeping("tool_result"@),
        "user"@ != "assistant"@,
        "user"@ != "tool_result"@,
        "assistant"@ != "tool_result"@,
{
    reveal_strlit("session_start");
    reveal_strlit("error");
    reveal_strlit("session_end");
    reveal_strlit("tool_call");
    reveal_strlit("user");
    reveal_strlit("assistant");
    reveal_strlit("tool_result");
    assert("session_start"@.len() == 13 && "error"@.len() == 5 && "session_end"@.len() == 11);
    assert("tool_call"@.len() == 9 && "user"@.len() == 4 && "assistant"@.len() == 9);
    assert("tool_result"@.len() == 11);
    assert("tool_call"@[0] == 't' && "assistant"@[0] == 'a');
    assert("session_end"@[0] == 's' && "tool_result"@[0] == 't');
}

/// The keys of events are told apart.
pub proof fn lemma_keys()
    ensures
        "event"@ != "content"@,
        "event"@ != "tool_calls"@,
        "event"@ != "tool_call_id"@,
        "event"@ != "is_error"@,
        "event"@ != "model"@,
        "event"@ != "base_url"@,
        "event"@ != "system_prompt"@,
        "event"@ != "id"@,
        "event"@ != "name"@,
        "event"@ != "arguments"@,
        "event"@ != "message"@,
        "content"@ != "tool_calls"@,
        "content"@ != "tool_call_id"@,
        "content"@ != "is_error"@,
        "tool_call_id"@ != "is_error"@,
{
    reveal_strlit("event");
    reveal_strlit("content");
    reveal_strlit("tool_calls");
    reveal_strlit("tool_call_id");
    reveal_strlit("is_error");
    reveal_strlit("model");
    reveal_strlit("base_url");
    reveal_strlit("system_prompt");
    reveal_strlit("id");
    reveal_strlit("name");
    reveal_strlit("arguments");
    reveal_strlit("message");
    assert("event"@.len() == 5 && "content"@.len() == 7 && "tool_calls"@.len() == 10);
    assert("tool_call_id"@.len() == 12 && "is_error"@.len() == 8 && "model"@.len() == 5);
    assert("base_url"@.len() == 8 && "system_prompt"@.len() == 13 && "id"@.len() == 2);
    assert("name"@.len() == 4 && "arguments"@.len() == 9 && "message"@.len() == 7);
    assert("event"@[0] == 'e' && "model"@[0] == 'm');
}

/// The event of a user's message stands for that message.
pub proof fn law_user_event(content: Seq<char>)
    ensures
        history::event_message(sessionlog::user_view(content)) == Some(
            message::user_message_view(content),
        ),
{
    lemma_kinds();
    lemma_keys();
}

/// The event of a reply stands for that reply.
pub proof fn law_assistant_event(reply: ReplyView)
    ensures
        history::event_message(chat::reply_event(reply)) == Some(chat::reply_message(reply)),
{
    lemma_kinds();
    lemma_keys();
}

/// The event of a tool's answer stands for that answer.
pub proof fn law_tool_result_event(id: Seq<char>, content: Seq<char>, is_error: bool)
    ensures
        history::event_message(sessionlog::tool_result_view(id, content, is_error)) == Some(
            message::tool_message_view(id, content),
        ),
{
    lemma_kinds();
    lemma_keys();
}

/// The other events are kept for the record only: they stand for no message.
pub proof fn law_bookkeeping_events(
    model: Seq<char>,
    base_url: Seq<char>,
    system_prompt: Option<Seq<char>>,
    call: CallView,
    message: Seq<char>,
)
    ensures
        history::event_message(sessionlog::session_start_view(model, base_url, system_prompt))
            is None,
        history::event_message(
            sessionlog::tool_call_view(call.id, call.name, call.arguments),
        ) is None,
        history::event_message(sessionlog::error_view(message)) is None,
        history::event_message(sessionlog::session_end_view()) is None,
{
    lemma_keys();
}

/// The event that an effect logs.
pub open spec fn logged_event(effect: EffectView) -> Option<JsonView> {
    match effect {
        EffectView::Log(event) => Some(event),
        _ => None,
    }
}

/// The events that effects log, in order.
pub open spec fn logged(effects: Seq<EffectView>) -> Seq<JsonView>
    decreases effects.len(),
{
    if effects.len() == 0 {
        Seq::empty()
    } else {
        text::push_opt(logged(effects.drop_last()), logged_event(effects.last()))
    }
}

/// The messages that events stand for, in order.
pub open spec fn messages_of(events: Seq<JsonView>) -> Seq<JsonView>
    decreases events.len(),
{
    if events.len() == 0 {
        Seq::empty()
    } else {
        text::push_opt(messages_of(events.drop_last()), history::event_message(events.last()))
    }
}

pub proof fn lemma_logged_push(effects: Seq<EffectView>, effect: EffectView)
    ensures
        logged(effects.push(effect)) == text::push_opt(logged(effects), logged_event(effect)),
{
    assert(effects.push(effect).drop_last() =~= effects);
}

pub proof fn lemma_logged_add(a: Seq<EffectView>, b: Seq<EffectView>)
    ensures
        logged(a + b) == logged(a) + logged(b),
    decreases b.len(),
{
    if b.len() == 0 {
        assert(a + b =~= a);
        assert(logged(a) + logged(b) =~= logged(a));
    } else {
        lemma_logged_add(a, b.drop_last());
        assert((a + b).drop_last() =~= a + b.drop_last());
        assert(logged(a + b) =~= logged(a) + logged(b));
    }
}

pub proof fn lemma_messages_push(events: Seq<JsonView>, event: JsonView)
    ensures
        messages_of(events.push(event)) == text::push_opt(
            messages_of(events),
            history::event_message(event),
        ),
{
    assert(events.push(event).drop_last() =~= events);
}

pub proof fn lemma_messages_add(a: Seq<JsonView>, b: Seq<JsonView>)
    ensures
        messages_of(a + b) == messages_of(a) + messages_of(b),
    decreases b.len(),
{
    if b.len() == 0 {
        assert(a + b =~= a);
        assert(messages_of(a) + messages_of(b) =~= messages_of(a));
    } else {
        lemma_messages_add(a, b.drop_last());
        assert((a + b).drop_last() =~= a + b.drop_last());
        assert(messages_of(a + b) =~= messages_of(a) + messages_of(b));
    }
}

/// One effect logs its event, where it is one that logs.
pub proof fn lemma_logged_one(effect: EffectView)
    ensures
        logged(seq![effect]) == text::push_opt(Seq::empty(), logged_event(effect)),
{
    lemma_logged_push(Seq::empty(), effect);
}

pub proof fn lemma_logged_two(one: EffectView, two: EffectView)
    ensures
        logged(seq![one, two]) == text::push_opt(
            text::push_opt(Seq::empty(), logged_event(one)),
            logged_event(two),
        ),
{
    lemma_logged_one(one);
    lemma_logged_push(seq![one], two);
    assert(seq![one, two] =~= seq![one].push(two));
}

pub proof fn lemma_call_effects(call: CallView, text: Seq<char>, is_error: bool)
    ensures
        logged(chat::begin_effects(call)) == seq![
            sessionlog::tool_call_view(call.id, call.name, call.arguments),
        ],
        logged(chat::end_effects(call, text, is_error)) == seq![
            sessionlog::tool_result_view(call.id, text, is_error),
        ],
        messages_of(logged(chat::begin_effects(call))) == Seq::<JsonView>::empty(),
        messages_of(logged(chat::end_effects(call, text, is_error))) == seq![
            message::tool_message_view(call.id, text),
        ],
{
    let began = sessionlog::tool_call_view(call.id, call.name, call.arguments);
    let ended = sessionlog::tool_result_view(call.id, text, is_error);
    lemma_logged_two(
        EffectView::Log(began),
        EffectView::ToolBegin { name: call.name, arguments: call.arguments },
    );
    lemma_logged_two(EffectView::ToolEnd { text, is_error }, EffectView::Log(ended));
    law_bookkeeping_events(Seq::empty(), Seq::empty(), None, call, Seq::empty());
    law_tool_result_event(call.id, text, is_error);
    lemma_messages_push(Seq::empty(), began);
    lemma_messages_push(Seq::empty(), ended);
}

/// Whether a conversation grew by exactly the messages of what was logged.
pub open spec fn mirrors(
    before: Seq<JsonView>,
    effects: Seq<EffectView>,
    after: Seq<JsonView>,
) -> bool {
    after == before + messages_of(logged(effects))
}

proof fn lemma_mirrors_add(
    one: Seq<JsonView>,
    first: Seq<EffectView>,
    two: Seq<JsonView>,
    second: Seq<EffectView>,
    three: Seq<JsonView>,
)
    requires
        mirrors(one, first, two),
        mirrors(two, second, three),
    ensures
        mirrors(one, first + second, three),
{
    lemma_logged_add(first, second);
    lemma_messages_add(logged(first), logged(second));
    assert(three =~= one + (messages_of(logged(first)) + messages_of(logged(second))));
}

proof fn lemma_nothing_mirrors(history: Seq<JsonView>, effects: Seq<EffectView>)
    requires
        messages_of(logged(effects)) == Seq::<JsonView>::empty(),
    ensures
        mirrors(history, effects, history),
{
    assert(history + messages_of(logged(effects)) =~= history);
}

proof fn lemma_answer_mirrors(chat: ChatView, call: CallView, text: Seq<char>, is_error: bool)
    ensures
        mirrors(
            chat.history,
            chat::end_effects(call, text, is_error),
            chat::answered(chat, call, text).history,
        ),
{
    lemma_call_effects(call, text, is_error);
    assert(chat::answered(chat, call, text).history =~= chat.history + seq![
        message::tool_message_view(call.id, text),
    ]);
}

pub proof fn lemma_advance_mirrors(chat: ChatView, calls: Seq<CallView>, next: int)
    requires
        0 <= next,
    ensures
        mirrors(
            chat.history,
            chat::advance_view(chat, calls, next).effects,
            chat::advance_view(chat, calls, next).chat.history,
        ),
    decreases calls.len() - next,
{
    if next >= calls.len() {
        lemma_nothing_mirrors(chat.history, Seq::empty());
    } else {
        let call = calls[next];
        lemma_call_effects(call, Seq::empty(), false);
        lemma_nothing_mirrors(chat.history, chat::begin_effects(call));
        match reply::arguments_view(call.arguments) {
            Err(e) => {
                let answered = chat::answered(chat, call, chat::refusal(e));
                let rest = chat::advance_view(answered, calls, next + 1);
                lemma_advance_mirrors(answered, calls, next + 1);
                lemma_answer_mirrors(chat, call, chat::refusal(e), true);
                lemma_mirrors_add(
                    chat.history,
                    chat::begin_effects(call),
                    chat.history,
                    chat::end_effects(call, chat::refusal(e), true),
                    answered.history,
                );
                lemma_mirrors_add(
                    chat.history,
                    chat::begin_effects(call) + chat::end_effects(call, chat::refusal(e), true),
                    answered.history,
                    rest.effects,
                    rest.chat.history,
                );
            },
            Ok(_) => {},
        }
    }
}

proof fn lemma_reply_mirrors(chat: ChatView, reply: ReplyView)
    ensures
        mirrors(
            chat.history,
            seq![EffectView::Log(chat::reply_event(reply))],
            chat.said(chat::reply_message(reply)).history,
        ),
        mirrors(
            chat.said(chat::reply_message(reply)).history,
            chat::say_effects(reply.content),
            chat.said(chat::reply_message(reply)).history,
        ),
{
    law_assistant_event(reply);
    lemma_logged_one(EffectView::Log(chat::reply_event(reply)));
    lemma_messages_push(Seq::empty(), chat::reply_event(reply));
    let heard = chat.said(chat::reply_message(reply));
    assert(heard.history =~= chat.history + seq![chat::reply_message(reply)]);
    match reply.content {
        Some(content) => {
            lemma_logged_one(EffectView::Say(content));
        },
        None => {},
    }
    lemma_nothing_mirrors(heard.history, chat::say_effects(reply.content));
}

proof fn lemma_turn_mirrors(chat: ChatView, event: EventView)
    requires
        chat.wf(),
    ensures
        mirrors(
            chat.history,
            chat::handle_turn_view(chat, event).effects,
            chat::handle_turn_view(chat, event).chat.history,
        ),
{
    lemma_nothing_mirrors(chat.history, Seq::empty());
    match (chat.phase, event) {
        (PhaseView::Parsing(_), EventView::Parsed(choices)) => {
            if choices.len() > 0 {
                let reply = choices[0];
                let heard = chat.said(chat::reply_message(reply));
                let first = seq![EffectView::Log(chat::reply_event(reply))];
                lemma_reply_mirrors(chat, reply);
                if reply.calls.len() == 0 {
                    lemma_mirrors_add(
                        chat.history,
                        first,
                        heard.history,
                        chat::say_effects(reply.content),
                        heard.history,
                    );
                } else {
                    let rest = chat::advance_view(heard, reply.calls, 0);
                    lemma_advance_mirrors(heard, reply.calls, 0);
                    lemma_mirrors_add(
                        chat.history,
                        first,
                        heard.history,
                        rest.effects,
                        rest.chat.history,
                    );
                }
            }
        },
        (PhaseView::Calling { calls, next }, EventView::ToolDone(outcome)) => {
            let call = calls[next];
            let answer = chat::outcome_text(outcome);
            let is_error = chat::outcome_is_error(outcome);
            let answered = chat::answered(chat, call, answer);
            let rest = chat::advance_view(answered, calls, next + 1);
            lemma_answer_mirrors(chat, call, answer, is_error);
            lemma_advance_mirrors(answered, calls, next + 1);
            lemma_mirrors_add(
                chat.history,
                chat::end_effects(call, answer, is_error),
                answered.history,
                rest.effects,
                rest.chat.history,
            );
        },
        _ => {},
    }
}

proof fn lemma_prompt_mirrors(history: Seq<JsonView>)
    ensures
        mirrors(history, chat::prompt_effects(), history),
{
    lemma_logged_two(EffectView::Blank, EffectView::Pad(4));
    lemma_nothing_mirrors(history, chat::prompt_effects());
}

proof fn lemma_end_mirrors(history: Seq<JsonView>)
    ensures
        mirrors(history, seq![EffectView::Log(sessionlog::session_end_view())], history),
{
    let end = sessionlog::session_end_view();
    lemma_logged_one(EffectView::Log(end));
    law_bookkeeping_events(
        Seq::empty(),
        Seq::empty(),
        None,
        CallView { id: Seq::empty(), name: Seq::empty(), arguments: Seq::empty() },
        Seq::empty(),
    );
    lemma_messages_push(Seq::empty(), end);
    lemma_nothing_mirrors(history, seq![EffectView::Log(end)]);
}

proof fn lemma_failure_mirrors(history: Seq<JsonView>, chain: Seq<Seq<char>>)
    ensures
        mirrors(history, chat::failure_effects(chain), history),
{
    let said = step::failure_message(chain);
    let event = sessionlog::error_view(said);
    lemma_logged_two(EffectView::Complain(said), EffectView::Log(event));
    law_bookkeeping_events(
        Seq::empty(),
        Seq::empty(),
        None,
        CallView { id: Seq::empty(), name: Seq::empty(), arguments: Seq::empty() },
        said,
    );
    lemma_messages_push(Seq::empty(), event);
    lemma_nothing_mirrors(history, chat::failure_effects(chain));
}

proof fn lemma_told_mirrors(chat: ChatView, line: Seq<char>, effects: Seq<EffectView>)
    requires
        mirrors(chat.history, effects, chat.history),
    ensures
        mirrors(
            chat.history,
            chat::told_view(chat, line, effects).1.effects,
            chat::told_view(chat, line, effects).0.history,
        ),
{
    let event = sessionlog::user_view(line);
    let told = chat::told_view(chat, line, effects);
    lemma_logged_one(EffectView::Log(event));
    law_user_event(line);
    lemma_messages_push(Seq::empty(), event);
    assert(told.0.history =~= chat.history + seq![message::user_message_view(line)]);
    lemma_mirrors_add(
        chat.history,
        effects,
        chat.history,
        seq![EffectView::Log(event)],
        told.0.history,
    );
    assert(told.1.effects =~= effects + seq![EffectView::Log(event)]);
}

/// The log mirrors the conversation: whatever happens to a chat, its
/// conversation grows by exactly the messages that the newly logged events
/// stand for. Nothing that was said is changed or lost.
pub proof fn law_log_mirrors_conversation(chat: ChatView, event: EventView)
    requires
        chat.wf(),
    ensures
        chat::resume_view(chat, event).0.history == chat.history + messages_of(
            logged(chat::resume_view(chat, event).1.effects),
        ),
{
    let none = Seq::<EffectView>::empty();
    let end = seq![EffectView::Log(sessionlog::session_end_view())];
    lemma_nothing_mirrors(chat.history, none);
    lemma_prompt_mirrors(chat.history);
    lemma_end_mirrors(chat.history);
    assert(none + chat::prompt_effects() =~= chat::prompt_effects());
    assert(none.push(EffectView::Log(sessionlog::session_end_view())) =~= end);
    match event {
        EventView::Line(line) => {
            let trimmed = text::trimmed(line);
            let first = seq![EffectView::Remember(trimmed), EffectView::Blank];
            lemma_logged_two(EffectView::Remember(trimmed), EffectView::Blank);
            lemma_nothing_mirrors(chat.history, first);
            lemma_told_mirrors(chat, trimmed, first);
        },
        EventView::EndOfInput => {},
        EventView::InputFailed(_) => {},
        _ => {
            let turn = chat::handle_turn_view(chat, event);
            let after = turn.chat.history;
            lemma_turn_mirrors(chat, event);
            lemma_prompt_mirrors(after);
            lemma_end_mirrors(after);
            lemma_mirrors_add(chat.history, turn.effects, after, chat::prompt_effects(), after);
            lemma_mirrors_add(chat.history, turn.effects, after, end, after);
            assert(turn.effects + end =~= turn.effects.push(
                EffectView::Log(sessionlog::session_end_view()),
            ));
            match turn.next {
                NextView::Failed(chain) => {
                    let shown = turn.effects + chat::failure_effects(chain);
                    lemma_failure_mirrors(after, chain);
                    lemma_mirrors_add(
                        chat.history,
                        turn.effects,
                        after,
                        chat::failure_effects(chain),
                        after,
                    );
                    lemma_mirrors_add(chat.history, shown, after, chat::prompt_effects(), after);
                },
                _ => {},
            }
        },
    }
}

/// Whether an action is what a chat in this phase waits for the outcome of.
pub open spec fn fits(phase: PhaseView, action: ActionView) -> bool {
    match action {
        ActionView::ReadLine => phase is Reading,
        ActionView::Post { .. } => phase is Sent,
        ActionView::Parse(body) => phase == PhaseView::Parsing(body),
        ActionView::CallTool { name, arguments } => phase matches PhaseView::Calling {
            calls,
            next,
        } && calls[next].name == name && reply::arguments_view(calls[next].arguments) == Ok::<
            Option<JsonView>,
            Seq<char>,
        >(arguments),
        ActionView::Exit(_) => phase is Over,
    }
}

/// Whether a request carries all of a chat's conversation.
pub open spec fn carries_conversation(chat: ChatView, action: ActionView) -> bool {
    action is Post ==> action == chat::post_view(chat)
}

proof fn lemma_advance_fits(chat: ChatView, calls: Seq<CallView>, next: int)
    requires
        0 <= next,
    ensures
        ({
            let turn = chat::advance_view(chat, calls, next);
            &&& turn.chat.wf()
            &&& turn.chat.cfg == chat.cfg
            &&& turn.chat.tools == chat.tools
            &&& turn.chat.interactive == chat.interactive
            &&& turn.next matches NextView::Act(action) && fits(turn.chat.phase, action)
                && carries_conversation(turn.chat, action)
        }),
    decreases calls.len() - next,
{
    if next < calls.len() {
        let call = calls[next];
        match reply::arguments_view(call.arguments) {
            Err(e) => {
                lemma_advance_fits(
                    chat::answered(chat, call, chat::refusal(e)),
                    calls,
                    next + 1,
                );
            },
            Ok(_) => {},
        }
    }
}

/// Whatever happens, a chat then waits for the outcome of the action that it
/// asks for: the next event is one that it can take. Every request carries the
/// whole conversation. Configuration and tools stay as they are.
pub proof fn law_action_fits(chat: ChatView, event: EventView)
    requires
        chat.wf(),
        chat::accepts(chat.phase, event),
    ensures
        ({
            let (after, asked) = chat::resume_view(chat, event);
            &&& after.wf()
            &&& after.cfg == chat.cfg
            &&& after.tools == chat.tools
            &&& after.interactive == chat.interactive
            &&& fits(after.phase, asked.action)
            &&& carries_conversation(after, asked.action)
        }),
{
    match (chat.phase, event) {
        (PhaseView::Parsing(_), EventView::Parsed(choices)) => {
            if choices.len() > 0 && choices[0].calls.len() > 0 {
                lemma_advance_fits(
                    chat.said(chat::reply_message(choices[0])),
                    choices[0].calls,
                    0,
                );
            }
        },
        (PhaseView::Calling { calls, next }, EventView::ToolDone(outcome)) => {
            lemma_advance_fits(
                chat::answered(chat, calls[next], chat::outcome_text(outcome)),
                calls,
                next + 1,
            );
        },
        _ => {},
    }
}

/// Both ways to start a chat: it waits for the outcome of its first action.
pub proof fn law_first_action_fits(
    cfg: ConfigView,
    tools: Seq<ToolView>,
    prior: Seq<JsonView>,
    prompt: Seq<char>,
)
    ensures
        chat::run_view(cfg, tools).0.wf(),
        fits(chat::run_view(cfg, tools).0.phase, chat::run_view(cfg, tools).1.action),
        chat::run_oneshot_view(cfg, tools, prior, prompt).0.wf(),
        fits(
            chat::run_oneshot_view(cfg, tools, prior, prompt).0.phase,
            chat::run_oneshot_view(cfg, tools, prior, prompt).1.action,
        ),
        carries_conversation(
            chat::run_oneshot_view(cfg, tools, prior, prompt).0,
            chat::run_oneshot_view(cfg, tools, prior, prompt).1.action,
        ),
{
}

/// No turn ends an interactive chat, a failed one neither: it asks for the
/// next line. It ends when the user leaves, or when the input ends or fails.
pub proof fn law_interactive_chat_survives(chat: ChatView, event: EventView)
    requires
        chat.wf(),
        chat.interactive,
        chat::accepts(chat.phase, event),
    ensures
        chat::resume_view(chat, event).1.action is Exit <==> (match event {
            EventView::Line(line) => chat::leaves(text::trimmed(line)),
            EventView::EndOfInput => true,
            EventView::InputFailed(_) => true,
            _ => false,
        }),
        chat::handle_turn_view(chat, event).next is Failed && !(chat.phase is Reading)
            ==> chat::resume_view(chat, event).1.action == ActionView::ReadLine,
{
    reveal_strlit("/exit");
    reveal_strlit("/quit");
    assert("/exit"@.len() == 5 && "/quit"@.len() == 5);
    match (chat.phase, event) {
        (PhaseView::Parsing(_), EventView::Parsed(choices)) => {
            if choices.len() > 0 && choices[0].calls.len() > 0 {
                lemma_advance_fits(
                    chat.said(chat::reply_message(choices[0])),
                    choices[0].calls,
                    0,
                );
                lemma_advance_acts(
                    chat.said(chat::reply_message(choices[0])),
                    choices[0].calls,
                    0,
                );
            }
        },
        (PhaseView::Calling { calls, next }, EventView::ToolDone(outcome)) => {
            lemma_advance_fits(
                chat::answered(chat, calls[next], chat::outcome_text(outcome)),
                calls,
                next + 1,
            );
            lemma_advance_acts(
                chat::answered(chat, calls[next], chat::outcome_text(outcome)),
                calls,
                next + 1,
            );
        },
        _ => {},
    }
}

pub proof fn lemma_advance_acts(chat: ChatView, calls: Seq<CallView>, next: int)
    requires
        0 <= next,
    ensures
        chat::advance_view(chat, calls, next).next matches NextView::Act(action) && (
        action is Post || action is CallTool),
    decreases calls.len() - next,
{
    if next < calls.len() {
        let call = calls[next];
        match reply::arguments_view(call.arguments) {
            Err(e) => {
                lemma_advance_acts(chat::answered(chat, call, chat::refusal(e)), calls, next + 1);
            },
            Ok(_) => {},
        }
    }
}

/// A chat of one turn succeeds with the first reply that calls no tool, and
/// closes its session then. When its turn fails, it shows and logs the error,
/// no more, and fails with it. Otherwise it goes on.
pub proof fn law_oneshot_exit(chat: ChatView, event: EventView)
    requires
        chat.wf(),
        !chat.interactive,
        !(chat.phase is Reading),
        chat::accepts(chat.phase, event),
    ensures
        ({
            let turn = chat::handle_turn_view(chat, event);
            let (after, asked) = chat::resume_view(chat, event);
            &&& turn.next is Done <==> asked.action == ActionView::Exit(Ok(()))
            &&& turn.next is Done <==> (event matches EventView::Parsed(choices) && choices.len()
                > 0 && choices[0].calls.len() == 0)
            &&& turn.next is Done ==> asked.effects.last() == EffectView::Log(
                sessionlog::session_end_view(),
            )
            &&& turn.next is Failed <==> (asked.action matches ActionView::Exit(result) && result
                is Err)
            &&& turn.next matches NextView::Failed(chain) ==> asked.action == ActionView::Exit(
                Err(chain),
            ) && asked.effects == chat::failure_effects(chain)
        }),
{
    match (chat.phase, event) {
        (PhaseView::Parsing(_), EventView::Parsed(choices)) => {
            if choices.len() > 0 && choices[0].calls.len() > 0 {
                lemma_advance_acts(
                    chat.said(chat::reply_message(choices[0])),
                    choices[0].calls,
                    0,
                );
            }
        },
        (PhaseView::Calling { calls, next }, EventView::ToolDone(outcome)) => {
            lemma_advance_acts(
                chat::answered(chat, calls[next], chat::outcome_text(outcome)),
                calls,
                next + 1,
            );
        },
        _ => {},
    }
}

/// A session so far: the chat, and the events that were logged.
pub struct Session {
    pub chat: ChatView,
    pub log: Seq<JsonView>,
}

/// A session that begins with this chat and what it wants first.
pub open spec fn begun(first: (ChatView, StepView)) -> Session {
    Session { chat: first.0, log: logged(first.1.effects) }
}

/// A session after these events.
pub open spec fn session_after(start: Session, events: Seq<EventView>) -> Session
    decreases events.len(),
{
    if events.len() == 0 {
        start
    } else {
        let before = session_after(start, events.drop_last());
        let next = chat::resume_view(before.chat, events.last());
        Session { chat: next.0, log: before.log + logged(next.1.effects) }
    }
}

/// Whether each of these events is one that the chat waits for by then.
pub open spec fn can_happen(start: Session, events: Seq<EventView>) -> bool
    decreases events.len(),
{
    events.len() > 0 ==> can_happen(start, events.drop_last()) && chat::accepts(
        session_after(start, events.drop_last()).chat.phase,
        events.last(),
    )
}

/// Whatever happens in a session, the conversation is what it began with and
/// the messages of the logged events.
pub proof fn law_conversation_is_logged(
    base: Seq<JsonView>,
    start: Session,
    events: Seq<EventView>,
)
    requires
        start.chat.wf(),
        start.chat.history == base + messages_of(start.log),
        can_happen(start, events),
    ensures
        session_after(start, events).chat.wf(),
        session_after(start, events).chat.cfg == start.chat.cfg,
        session_after(start, events).chat.tools == start.chat.tools,
        session_after(start, events).chat.history == base + messages_of(
            session_after(start, events).log,
        ),
    decreases events.len(),
{
    if events.len() > 0 {
        law_conversation_is_logged(base, start, events.drop_last());
        let before = session_after(start, events.drop_last());
        let next = chat::resume_view(before.chat, events.last());
        law_log_mirrors_conversation(before.chat, events.last());
        law_action_fits(before.chat, events.last());
        lemma_messages_add(before.log, logged(next.1.effects));
        assert(next.0.history =~= base + (messages_of(before.log) + messages_of(
            logged(next.1.effects),
        )));
    }
}

/// The conversation that a chat begins with.
pub open spec fn opening(system_prompt: Option<Seq<char>>) -> Seq<JsonView> {
    chat::with_system(Seq::empty(), system_prompt)
}

pub proof fn lemma_begun_interactive(cfg: ConfigView, tools: Seq<ToolView>)
    ensures
        begun(chat::run_view(cfg, tools)).log == seq![chat::start_event(cfg)],
        begun(chat::run_view(cfg, tools)).chat.history == opening(cfg.system_prompt) + messages_of(
            begun(chat::run_view(cfg, tools)).log,
        ),
{
    let first = chat::run_view(cfg, tools);
    let start = chat::start_event(cfg);
    let shown = seq![EffectView::Note(chat::tools_note(tools)), EffectView::Log(start)];
    lemma_logged_two(EffectView::Note(chat::tools_note(tools)), EffectView::Log(start));
    lemma_logged_two(EffectView::Blank, EffectView::Pad(4));
    lemma_logged_add(shown, chat::prompt_effects());
    assert(logged(first.1.effects) =~= seq![start]);
    law_bookkeeping_events(
        cfg.model,
        cfg.base_url,
        cfg.system_prompt,
        CallView { id: Seq::empty(), name: Seq::empty(), arguments: Seq::empty() },
        Seq::empty(),
    );
    lemma_messages_push(Seq::empty(), start);
    assert(first.0.history =~= opening(cfg.system_prompt) + Seq::empty());
}

/// The conversation of an interactive chat is the system prompt, where there
/// is one, and the messages of the logged events.
pub proof fn law_interactive_conversation(
    cfg: ConfigView,
    tools: Seq<ToolView>,
    events: Seq<EventView>,
)
    requires
        can_happen(begun(chat::run_view(cfg, tools)), events),
    ensures
        ({
            let session = session_after(begun(chat::run_view(cfg, tools)), events);
            session.chat.history == opening(cfg.system_prompt) + messages_of(session.log)
        }),
{
    lemma_begun_interactive(cfg, tools);
    law_conversation_is_logged(
        opening(cfg.system_prompt),
        begun(chat::run_view(cfg, tools)),
        events,
    );
}

/// The conversation of a chat of one turn is the earlier one, with the system
/// prompt in front where it is missing, and the messages of the logged events.
pub proof fn law_oneshot_conversation(
    cfg: ConfigView,
    tools: Seq<ToolView>,
    prior: Seq<JsonView>,
    prompt: Seq<char>,
    events: Seq<EventView>,
)
    requires
        can_happen(begun(chat::run_oneshot_view(cfg, tools, prior, prompt)), events),
    ensures
        ({
            let session = session_after(
                begun(chat::run_oneshot_view(cfg, tools, prior, prompt)),
                events,
            );
            session.chat.history == chat::with_system(prior, cfg.system_prompt) + messages_of(
                session.log,
            )
        }),
{
    let first = chat::run_oneshot_view(cfg, tools, prior, prompt);
    let start = chat::start_event(cfg);
    let base = chat::with_system(prior, cfg.system_prompt);
    let said = sessionlog::user_view(prompt);
    lemma_logged_two(EffectView::Log(start), EffectView::Log(said));
    assert(first.1.effects =~= seq![EffectView::Log(start), EffectView::Log(said)]);
    assert(logged(first.1.effects) =~= seq![start].push(said));
    law_bookkeeping_events(
        cfg.model,
        cfg.base_url,
        cfg.system_prompt,
        CallView { id: Seq::empty(), name: Seq::empty(), arguments: Seq::empty() },
        Seq::empty(),
    );
    law_user_event(prompt);
    lemma_messages_push(Seq::empty(), start);
    lemma_messages_push(seq![start], said);
    assert(first.0.history =~= base + messages_of(logged(first.1.effects)));
    law_conversation_is_logged(base, begun(first), events);
}

/// A system prompt is put in front of a conversation that does not begin with
/// one, and only there: a conversation never gets a second one.
pub proof fn law_one_system_prompt(history: Seq<JsonView>, prompt: Seq<char>)
    ensures
        chat::has_system(history) ==> chat::with_system(history, Some(prompt)) == history,
        !chat::has_system(history) ==> chat::with_system(history, Some(prompt)) == seq![
            message::system_message_view(prompt),
        ] + history,
        chat::has_system(chat::with_system(history, Some(prompt))),
        chat::with_system(chat::with_system(history, Some(prompt)), Some(prompt))
            == chat::with_system(history, Some(prompt)),
        chat::with_system(history, None) == history,
{
    reveal_strlit("role");
    reveal_strlit("content");
    assert("role"@.len() == 4 && "content"@.len() == 7);
}

/// Whether nothing of these effects is shown on standard output.
pub open spec fn keeps_out_clean(effects: Seq<EffectView>) -> bool {
    forall|i: int|
        0 <= i < effects.len() ==> step::stream_view(#[trigger] effects[i], false) != Some(
            Stream::Output,
        )
}

proof fn lemma_advance_keeps_out_clean(chat: ChatView, calls: Seq<CallView>, next: int)
    requires
        0 <= next,
    ensures
        keeps_out_clean(chat::advance_view(chat, calls, next).effects),
    decreases calls.len() - next,
{
    if next < calls.len() {
        let call = calls[next];
        match reply::arguments_view(call.arguments) {
            Err(e) => {
                lemma_advance_keeps_out_clean(
                    chat::answered(chat, call, chat::refusal(e)),
                    calls,
                    next + 1,
                );
            },
            Ok(_) => {},
        }
    }
}

/// A chat of one turn shows nothing on standard output, whatever happens: what
/// stands there in the end is the report on the turn alone.
pub proof fn law_oneshot_keeps_out_clean(chat: ChatView, event: EventView)
    requires
        chat.wf(),
        !chat.interactive,
        !(chat.phase is Reading),
        chat::accepts(chat.phase, event),
    ensures
        keeps_out_clean(chat::resume_view(chat, event).1.effects),
{
    match (chat.phase, event) {
        (PhaseView::Parsing(_), EventView::Parsed(choices)) => {
            if choices.len() > 0 {
                let heard = chat.said(chat::reply_message(choices[0]));
                lemma_advance_keeps_out_clean(heard, choices[0].calls, 0);
                lemma_advance_acts(heard, choices[0].calls, 0);
            }
        },
        (PhaseView::Calling { calls, next }, EventView::ToolDone(outcome)) => {
            let answered = chat::answered(chat, calls[next], chat::outcome_text(outcome));
            lemma_advance_keeps_out_clean(answered, calls, next + 1);
            lemma_advance_acts(answered, calls, next + 1);
        },
        _ => {},
    }
}

/// A chat of one turn shows nothing on standard output when it starts either.
pub proof fn law_oneshot_starts_clean(
    cfg: ConfigView,
    tools: Seq<ToolView>,
    prior: Seq<JsonView>,
    prompt: Seq<char>,
)
    ensures
        !chat::run_oneshot_view(cfg, tools, prior, prompt).0.interactive,
        keeps_out_clean(chat::run_oneshot_view(cfg, tools, prior, prompt).1.effects),
{
}

/// The model sees what is logged, and nothing else: whatever happens, a request
/// carries what the conversation began with and the messages of the logged
/// events.
pub proof fn law_model_sees_what_is_logged(
    base: Seq<JsonView>,
    start: Session,
    events: Seq<EventView>,
)
    requires
        start.chat.wf(),
        start.chat.history == base + messages_of(start.log),
        can_happen(start, events),
        events.len() > 0,
    ensures
        ({
            let before = session_after(start, events.drop_last());
            let asked = chat::resume_view(before.chat, events.last()).1;
            asked.action matches ActionView::Post { url, api_key, body } ==> json::member(
                body,
                "messages"@,
            ) == Some(JsonView::Array(base + messages_of(session_after(start, events).log)))
        }),
{
    let before = session_after(start, events.drop_last());
    let after = chat::resume_view(before.chat, events.last()).0;
    law_conversation_is_logged(base, start, events.drop_last());
    law_conversation_is_logged(base, start, events);
    law_action_fits(before.chat, events.last());
    request::law_request_members(after.cfg, after.tools, after.history);
}

} // verus!
