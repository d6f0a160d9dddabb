//! What holds of the calls of tools in a session: each is answered, in the
//! order in which the model made them, before the model is asked again.

use vstd::prelude::*;

use crate::chat;
use crate::chat::{ChatView, PhaseView};
use crate::json::JsonView;
use crate::message;
use crate::reply;
use crate::reply::{CallView, ReplyView};
use crate::session;
use crate::session::Session;
use crate::sessionlog;
use crate::step::{EffectView, EventView, OutcomeView};

verus! {

/// Whether a message answers a call.
pub open spec fn answers(said: JsonView, call: CallView) -> bool {
    exists|text: Seq<char>| said == #[trigger] message::tool_message_view(call.id, text)
}

/// Whether a message is a reply that makes these calls.
pub open spec fn makes(said: JsonView, calls: Seq<CallView>) -> bool {
    exists|content: Option<Seq<char>>|
        said == chat::reply_message(#[trigger] reply_of(content, calls))
}

/// A reply of the model.
pub open spec fn reply_of(content: Option<Seq<char>>, calls: Seq<CallView>) -> ReplyView {
    ReplyView { content, calls }
}

/// Whether a conversation ends with a reply that makes `calls` and answers to
/// the first `done` of them, in order.
pub open spec fn ends_with_answers(
    history: Seq<JsonView>,
    calls: Seq<CallView>,
    done: int,
) -> bool {
    let at = history.len() - done - 1;
    &&& 0 <= done <= calls.len()
    &&& 0 <= at
    &&& makes(history[at], calls)
    &&& forall|k: int| 0 <= k < done ==> answers(history[at + 1 + k], #[trigger] calls[k])
}

/// The event of a call.
pub open spec fn call_event(call: CallView) -> JsonView {
    sessionlog::tool_call_view(call.id, call.name, call.arguments)
}

/// Whether an event is the result of a call.
pub open spec fn is_result(event: JsonView, call: CallView) -> bool {
    exists|text: Seq<char>, is_error: bool|
        event == #[trigger] sessionlog::tool_result_view(call.id, text, is_error)
}

/// Whether an event is a reply that makes these calls.
pub open spec fn logs_making(event: JsonView, calls: Seq<CallView>) -> bool {
    exists|content: Option<Seq<char>>|
        event == chat::reply_event(#[trigger] reply_of(content, calls))
}

/// Whether a log ends with a reply that makes `calls` and, for each of the
/// first `done` of them and in order, the call and its result.
pub open spec fn ends_with_results(log: Seq<JsonView>, calls: Seq<CallView>, done: int) -> bool {
    let at = log.len() - 2 * done - 1;
    &&& 0 <= done <= calls.len()
    &&& 0 <= at
    &&& logs_making(log[at], calls)
    &&& forall|k: int|
        0 <= k < done ==> log[at + 1 + 2 * k] == call_event(#[trigger] calls[k]) && is_result(
            log[at + 2 + 2 * k],
            calls[k],
        )
}

/// Whether a session is in order: while a call is out, all that were made
/// before it have their answers, and the log says so.
pub open spec fn in_order(session: Session) -> bool {
    session.chat.phase matches PhaseView::Calling { calls, next } ==> {
        &&& ends_with_answers(session.chat.history, calls, next)
        &&& session.log.len() > 0
        &&& session.log.last() == call_event(calls[next])
        &&& ends_with_results(session.log.drop_last(), calls, next)
    }
}

/// Whether all these calls have their answers, and the log says so.
pub open spec fn all_answered(session: Session, calls: Seq<CallView>) -> bool {
    &&& ends_with_answers(session.chat.history, calls, calls.len() as int)
    &&& ends_with_results(session.log, calls, calls.len() as int)
}

proof fn lemma_one_more_answer(
    history: Seq<JsonView>,
    log: Seq<JsonView>,
    calls: Seq<CallView>,
    done: int,
    text: Seq<char>,
    is_error: bool,
)
    requires
        ends_with_answers(history, calls, done),
        ends_with_results(log, calls, done),
        done < calls.len(),
    ensures
        ends_with_answers(
            history.push(message::tool_message_view(calls[done].id, text)),
            calls,
            done + 1,
        ),
        ends_with_results(
            log.push(call_event(calls[done])).push(
                sessionlog::tool_result_view(calls[done].id, text, is_error),
            ),
            calls,
            done + 1,
        ),
{
    let said = history.push(message::tool_message_view(calls[done].id, text));
    let at = history.len() - done - 1;
    assert forall|k: int| 0 <= k < done + 1 implies answers(
        said[at + 1 + k],
        #[trigger] calls[k],
    ) by {
        if k < done {
            assert(said[at + 1 + k] == history[at + 1 + k]);
        }
    }
    let result = sessionlog::tool_result_view(calls[done].id, text, is_error);
    let longer = log.push(call_event(calls[done])).push(result);
    let from = log.len() - 2 * done - 1;
    assert(longer[from] == log[from]);
    assert forall|k: int| 0 <= k < done + 1 implies longer[from + 1 + 2 * k] == call_event(
        #[trigger] calls[k],
    ) && is_result(longer[from + 2 + 2 * k], calls[k]) by {
        if k < done {
            assert(longer[from + 1 + 2 * k] == log[from + 1 + 2 * k]);
            assert(longer[from + 2 + 2 * k] == log[from + 2 + 2 * k]);
        } else {
            assert(longer[from + 2 + 2 * k] == result);
        }
    }
}

proof fn lemma_advance_in_order(
    chat: ChatView,
    log: Seq<JsonView>,
    calls: Seq<CallView>,
    next: int,
)
    requires
        ends_with_answers(chat.history, calls, next),
        ends_with_results(log, calls, next),
    ensures
        ({
            let turn = chat::advance_view(chat, calls, next);
            let session = Session {
                chat: turn.chat,
                log: log + session::logged(turn.effects),
            };
            &&& in_order(session)
            &&& turn.chat.phase is Sent || turn.chat.phase is Calling
            &&& turn.chat.phase is Sent ==> all_answered(session, calls)
        }),
    decreases calls.len() - next,
{
    let turn = chat::advance_view(chat, calls, next);
    if next >= calls.len() {
        assert(log + session::logged(turn.effects) =~= log);
    } else {
        let call = calls[next];
        match reply::arguments_view(call.arguments) {
            Err(e) => {
                let text = chat::refusal(e);
                let answered = chat::answered(chat, call, text);
                let result = sessionlog::tool_result_view(call.id, text, true);
                let longer = log.push(call_event(call)).push(result);
                let rest = chat::advance_view(answered, calls, next + 1);
                lemma_one_more_answer(chat.history, log, calls, next, text, true);
                lemma_advance_in_order(answered, longer, calls, next + 1);
                session::lemma_call_effects(call, text, true);
                session::lemma_logged_add(
                    chat::begin_effects(call) + chat::end_effects(call, text, true),
                    rest.effects,
                );
                session::lemma_logged_add(
                    chat::begin_effects(call),
                    chat::end_effects(call, text, true),
                );
                assert(log + session::logged(turn.effects) =~= longer + session::logged(
                    rest.effects,
                ));
            },
            Ok(_) => {
                session::lemma_call_effects(call, Seq::empty(), false);
                let longer = log + session::logged(turn.effects);
                assert(longer =~= log.push(call_event(call)));
                assert(longer.drop_last() =~= log);
            },
        }
    }
}

/// Calls are answered in order. Whatever happens, a session that is in order
/// stays so. When the model is asked again after a reply that made calls, each
/// of them has its answer, and the log has, for each and in order, the call
/// and its result.
pub proof fn law_calls_answered_in_order(session: Session, event: EventView)
    requires
        session.chat.wf(),
        in_order(session),
        chat::accepts(session.chat.phase, event),
    ensures
        ({
            let (after, asked) = chat::resume_view(session.chat, event);
            let reached = Session {
                chat: after,
                log: session.log + session::logged(asked.effects),
            };
            &&& in_order(reached)
            &&& session.chat.phase matches PhaseView::Calling { calls, next } ==> (after.phase
                is Sent ==> all_answered(reached, calls))
            &&& event matches EventView::Parsed(choices) ==> (after.phase is Sent ==> all_answered(
                reached,
                choices[0].calls,
            ))
        }),
{
    let (after, asked) = chat::resume_view(session.chat, event);
    match (session.chat.phase, event) {
        (PhaseView::Parsing(_), EventView::Parsed(choices)) => {
            if choices.len() > 0 && choices[0].calls.len() > 0 {
                let reply = choices[0];
                let heard = session.chat.said(chat::reply_message(reply));
                let first = seq![EffectView::Log(chat::reply_event(reply))];
                let log = session.log.push(chat::reply_event(reply));
                let rest = chat::advance_view(heard, reply.calls, 0);
                assert(reply == reply_of(reply.content, reply.calls));
                lemma_advance_in_order(heard, log, reply.calls, 0);
                session::lemma_logged_one(EffectView::Log(chat::reply_event(reply)));
                session::lemma_logged_add(first, rest.effects);
                session::lemma_advance_acts(heard, reply.calls, 0);
                assert(session.log + session::logged(asked.effects) =~= log + session::logged(
                    rest.effects,
                ));
            }
        },
        (PhaseView::Calling { calls, next }, EventView::ToolDone(outcome)) => {
            let call = calls[next];
            let text = chat::outcome_text(outcome);
            let is_error = chat::outcome_is_error(outcome);
            let answered = chat::answered(session.chat, call, text);
            let result = sessionlog::tool_result_view(call.id, text, is_error);
            let rest = chat::advance_view(answered, calls, next + 1);
            let before = session.log.drop_last();
            assert(session.log =~= before.push(call_event(call)));
            lemma_one_more_answer(session.chat.history, before, calls, next, text, is_error);
            lemma_advance_in_order(answered, session.log.push(result), calls, next + 1);
            session::lemma_call_effects(call, text, is_error);
            session::lemma_logged_add(chat::end_effects(call, text, is_error), rest.effects);
            session::lemma_advance_acts(answered, calls, next + 1);
            assert(session.log + session::logged(asked.effects) =~= session.log.push(result)
                + session::logged(rest.effects));
        },
        _ => {},
    }
}

/// A session that begins in order stays in order, whatever happens.
pub proof fn law_sessions_stay_in_order(start: Session, events: Seq<EventView>)
    requires
        start.chat.wf(),
        in_order(start),
        session::can_happen(start, events),
    ensures
        session::session_after(start, events).chat.wf(),
        in_order(session::session_after(start, events)),
    decreases events.len(),
{
    if events.len() > 0 {
        law_sessions_stay_in_order(start, events.drop_last());
        let before = session::session_after(start, events.drop_last());
        session::law_action_fits(before.chat, events.last());
        law_calls_answered_in_order(before, events.last());
    }
}

/// The outcome of a call is shown, logged and told to the model alike. It is an
/// error where the tool says so, or where the tool could not be reached, and
/// only there.
pub proof fn law_outcome_is_shown_logged_and_told(chat: ChatView, outcome: OutcomeView)
    requires
        chat.wf(),
        chat.phase is Calling,
    ensures
        ({
            let turn = chat::handle_turn_view(chat, EventView::ToolDone(outcome));
            let call = chat.phase->calls[chat.phase->next];
            let text = chat::outcome_text(outcome);
            let is_error = chat::outcome_is_error(outcome);
            &&& turn.effects.len() >= 2
            &&& turn.effects[0] == (EffectView::ToolEnd { text, is_error })
            &&& turn.effects[1] == EffectView::Log(
                sessionlog::tool_result_view(call.id, text, is_error),
            )
            &&& turn.chat.history.len() > chat.history.len()
            &&& turn.chat.history[chat.history.len() as int] == message::tool_message_view(
                call.id,
                text,
            )
            &&& is_error <==> (outcome is Failed || (outcome matches OutcomeView::Replied {
                text: _,
                is_error: Some(said),
            } && said))
        }),
{
    let calls = chat.phase->calls;
    let next = chat.phase->next;
    let call = calls[next];
    let text = chat::outcome_text(outcome);
    let answered = chat::answered(chat, call, text);
    session::lemma_advance_mirrors(answered, calls, next + 1);
}

} // verus!
