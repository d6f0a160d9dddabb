//! What holds of a replay of the log that a chat left: every result finds its
//! call.

use vstd::prelude::*;

use crate::bridge::ToolView;
use crate::chat;
use crate::chat::{ChatView, NextView, PhaseView};
use crate::history;
use crate::json::JsonView;
use crate::replay;
use crate::reply;
use crate::reply::{CallView, ReplyView};
use crate::request::ConfigView;
use crate::session;
use crate::session::Session;
use crate::sessionlog;
use crate::step;
use crate::step::{EffectView, EventView};
use crate::text;

verus! {

/// No call is pending.
pub open spec fn none_pending() -> Map<Seq<char>, (Seq<char>, Seq<char>)> {
    Map::empty()
}

/// The calls whose results are still to come after these events.
pub open spec fn pending_after(
    pending: Map<Seq<char>, (Seq<char>, Seq<char>)>,
    log: Seq<JsonView>,
) -> Map<Seq<char>, (Seq<char>, Seq<char>)>
    decreases log.len(),
{
    if log.len() == 0 {
        pending
    } else {
        replay::event_pending(pending_after(pending, log.drop_last()), log.last())
    }
}

/// Whether a replay finds the call of each result among these events.
pub open spec fn no_orphans(
    pending: Map<Seq<char>, (Seq<char>, Seq<char>)>,
    log: Seq<JsonView>,
) -> bool
    decreases log.len(),
{
    log.len() > 0 ==> {
        &&& no_orphans(pending, log.drop_last())
        &&& history::event_kind(log.last()) == "tool_result"@ ==> pending_after(
            pending,
            log.drop_last(),
        ).contains_key(replay::result_id(log.last()))
    }
}

/// Whether an event is neither a call nor a result.
pub open spec fn neutral(event: JsonView) -> bool {
    history::event_kind(event) != "tool_call"@ && history::event_kind(event) != "tool_result"@
}

/// Whether these events leave no call pending and no result without a call.
pub open spec fn settled(log: Seq<JsonView>) -> bool {
    no_orphans(none_pending(), log) && pending_after(none_pending(), log) == none_pending()
}

/// Whether a replay of what was logged so far would find the call of each
/// result, with no call pending but the one that is out.
pub open spec fn replayable(session: Session) -> bool {
    match session.chat.phase {
        PhaseView::Calling { calls, next } => {
            &&& session.log.len() > 0
            &&& settled(session.log.drop_last())
            &&& session.log.last() == sessionlog::tool_call_view(
                calls[next].id,
                calls[next].name,
                calls[next].arguments,
            )
        },
        _ => settled(session.log),
    }
}

proof fn lemma_neutral(log: Seq<JsonView>, event: JsonView)
    requires
        settled(log),
        neutral(event),
    ensures
        settled(log.push(event)),
{
    assert(log.push(event).drop_last() =~= log);
}

proof fn lemma_pair(log: Seq<JsonView>, call: CallView, content: Seq<char>, is_error: bool)
    requires
        settled(log),
    ensures
        ({
            let called = sessionlog::tool_call_view(call.id, call.name, call.arguments);
            let result = sessionlog::tool_result_view(call.id, content, is_error);
            settled(log.push(called).push(result))
        }),
{
    let called = sessionlog::tool_call_view(call.id, call.name, call.arguments);
    let result = sessionlog::tool_result_view(call.id, content, is_error);
    replay::lemma_call_kinds();
    session::lemma_keys();
    assert(history::event_kind(called) == "tool_call"@);
    assert(history::event_kind(result) == "tool_result"@);
    assert(replay::result_id(result) == call.id);
    let first = log.push(called);
    assert(first.drop_last() =~= log);
    assert(first.push(result).drop_last() =~= first);
    let during = pending_after(none_pending(), first);
    assert(during == replay::event_pending(none_pending(), called));
    assert(during.contains_key(call.id));
    assert(during.remove(call.id) =~= none_pending());
    assert(no_orphans(none_pending(), first));
    assert(no_orphans(none_pending(), first.push(result)));
    assert(pending_after(none_pending(), first.push(result)) == none_pending());
}

proof fn lemma_neutral_events(cfg: ConfigView, content: Seq<char>, reply: ReplyView)
    ensures
        neutral(chat::start_event(cfg)),
        neutral(sessionlog::user_view(content)),
        neutral(chat::reply_event(reply)),
        neutral(sessionlog::error_view(content)),
        neutral(sessionlog::session_end_view()),
{
    session::lemma_keys();
    reveal_strlit("session_start");
    reveal_strlit("user");
    reveal_strlit("assistant");
    reveal_strlit("error");
    reveal_strlit("session_end");
    reveal_strlit("tool_call");
    reveal_strlit("tool_result");
    assert("session_start"@.len() == 13 && "user"@.len() == 4 && "assistant"@.len() == 9);
    assert("error"@.len() == 5 && "session_end"@.len() == 11 && "tool_call"@.len() == 9);
    assert("tool_result"@.len() == 11 && "session_end"@[0] == 's' && "tool_result"@[0] == 't');
    assert("assistant"@[0] == 'a' && "tool_call"@[0] == 't');
}

proof fn lemma_advance_replayable(
    chat: ChatView,
    log: Seq<JsonView>,
    calls: Seq<CallView>,
    next: int,
)
    requires
        0 <= next,
        settled(log),
    ensures
        ({
            let turn = chat::advance_view(chat, calls, next);
            replayable(Session { chat: turn.chat, log: log + session::logged(turn.effects) })
        }),
    decreases calls.len() - next,
{
    let turn = chat::advance_view(chat, calls, next);
    if next >= calls.len() {
        assert(log + session::logged(turn.effects) =~= log);
    } else {
        let call = calls[next];
        let called = sessionlog::tool_call_view(call.id, call.name, call.arguments);
        match reply::arguments_view(call.arguments) {
            Err(e) => {
                let answer = chat::refusal(e);
                let answered = chat::answered(chat, call, answer);
                let rest = chat::advance_view(answered, calls, next + 1);
                let result = sessionlog::tool_result_view(call.id, answer, true);
                let longer = log.push(called).push(result);
                lemma_pair(log, call, answer, true);
                lemma_advance_replayable(answered, longer, calls, next + 1);
                session::lemma_call_effects(call, answer, true);
                session::lemma_logged_add(
                    chat::begin_effects(call) + chat::end_effects(call, answer, true),
                    rest.effects,
                );
                session::lemma_logged_add(
                    chat::begin_effects(call),
                    chat::end_effects(call, answer, true),
                );
                assert(log + session::logged(turn.effects) =~= longer + session::logged(
                    rest.effects,
                ));
            },
            Ok(_) => {
                session::lemma_call_effects(call, Seq::empty(), false);
                let longer = log + session::logged(turn.effects);
                assert(longer =~= log.push(called));
                assert(longer.drop_last() =~= log);
            },
        }
    }
}

/// The piece of a turn that an event brings keeps the log replayable.
proof fn lemma_turn_replayable(session: Session, event: EventView)
    requires
        session.chat.wf(),
        replayable(session),
        chat::accepts(session.chat.phase, event),
    ensures
        ({
            let turn = chat::handle_turn_view(session.chat, event);
            let log = session.log + session::logged(turn.effects);
            &&& turn.next is Act ==> replayable(Session { chat: turn.chat, log })
            &&& !(turn.next is Act) ==> settled(log)
        }),
{
    let turn = chat::handle_turn_view(session.chat, event);
    let log = session.log + session::logged(turn.effects);
    match (session.chat.phase, event) {
        (PhaseView::Parsing(_), EventView::Parsed(choices)) => {
            if choices.len() > 0 {
                let reply = choices[0];
                let heard = session.chat.said(chat::reply_message(reply));
                let first = seq![EffectView::Log(chat::reply_event(reply))];
                let so_far = session.log.push(chat::reply_event(reply));
                lemma_neutral_events(session.chat.cfg, Seq::empty(), reply);
                lemma_neutral(session.log, chat::reply_event(reply));
                session::lemma_logged_one(EffectView::Log(chat::reply_event(reply)));
                if reply.calls.len() == 0 {
                    session::lemma_logged_add(first, chat::say_effects(reply.content));
                    match reply.content {
                        Some(content) => {
                            session::lemma_logged_one(EffectView::Say(content));
                        },
                        None => {},
                    }
                    assert(log =~= so_far);
                } else {
                    let rest = chat::advance_view(heard, reply.calls, 0);
                    lemma_advance_replayable(heard, so_far, reply.calls, 0);
                    session::lemma_advance_acts(heard, reply.calls, 0);
                    session::lemma_logged_add(first, rest.effects);
                    assert(log =~= so_far + session::logged(rest.effects));
                }
            } else {
                assert(log =~= session.log);
            }
        },
        (PhaseView::Calling { calls, next }, EventView::ToolDone(outcome)) => {
            let call = calls[next];
            let called = sessionlog::tool_call_view(call.id, call.name, call.arguments);
            let answer = chat::outcome_text(outcome);
            let is_error = chat::outcome_is_error(outcome);
            let answered = chat::answered(session.chat, call, answer);
            let result = sessionlog::tool_result_view(call.id, answer, is_error);
            let rest = chat::advance_view(answered, calls, next + 1);
            let before = session.log.drop_last();
            assert(session.log =~= before.push(called));
            lemma_pair(before, call, answer, is_error);
            lemma_advance_replayable(answered, session.log.push(result), calls, next + 1);
            session::lemma_advance_acts(answered, calls, next + 1);
            session::lemma_call_effects(call, answer, is_error);
            session::lemma_logged_add(chat::end_effects(call, answer, is_error), rest.effects);
            assert(log =~= session.log.push(result) + session::logged(rest.effects));
        },
        _ => {
            assert(log =~= session.log);
        },
    }
}

/// Whatever happens, the log of a chat stays replayable: a replay of it finds
/// the call of each result, and no call is pending but the one that is out.
pub proof fn law_log_stays_replayable(session: Session, event: EventView)
    requires
        session.chat.wf(),
        replayable(session),
        chat::accepts(session.chat.phase, event),
    ensures
        ({
            let (after, asked) = chat::resume_view(session.chat, event);
            replayable(
                Session { chat: after, log: session.log + session::logged(asked.effects) },
            )
        }),
{
    let (after, asked) = chat::resume_view(session.chat, event);
    let log = session.log + session::logged(asked.effects);
    let end = sessionlog::session_end_view();
    let no_reply = ReplyView { content: None, calls: Seq::empty() };
    lemma_neutral_events(session.chat.cfg, Seq::empty(), no_reply);
    session::lemma_logged_two(EffectView::Blank, EffectView::Pad(4));
    session::lemma_logged_one(EffectView::Log(end));
    match event {
        EventView::Line(line) => {
            let trimmed = text::trimmed(line);
            let first = seq![EffectView::Remember(trimmed), EffectView::Blank];
            lemma_neutral_events(session.chat.cfg, trimmed, no_reply);
            lemma_neutral(session.log, end);
            lemma_neutral(session.log, sessionlog::user_view(trimmed));
            session::lemma_logged_two(EffectView::Remember(trimmed), EffectView::Blank);
            session::lemma_logged_push(first, EffectView::Log(sessionlog::user_view(trimmed)));
            session::lemma_logged_add(Seq::empty(), chat::prompt_effects());
            session::lemma_logged_push(Seq::empty(), EffectView::Log(end));
            if trimmed.len() == 0 {
                assert(log =~= session.log);
            } else if chat::leaves(trimmed) {
                assert(log =~= session.log.push(end));
            } else {
                assert(log =~= session.log.push(sessionlog::user_view(trimmed)));
            }
        },
        EventView::EndOfInput => {
            lemma_neutral(session.log, end);
            session::lemma_logged_push(Seq::empty(), EffectView::Log(end));
            assert(log =~= session.log.push(end));
        },
        EventView::InputFailed(_) => {
            assert(log =~= session.log);
        },
        _ => {
            let turn = chat::handle_turn_view(session.chat, event);
            let so_far = session.log + session::logged(turn.effects);
            lemma_turn_replayable(session, event);
            match turn.next {
                NextView::Act(_) => {},
                NextView::Done => {
                    lemma_neutral(so_far, end);
                    session::lemma_logged_add(turn.effects, chat::prompt_effects());
                    session::lemma_logged_push(turn.effects, EffectView::Log(end));
                    if turn.chat.interactive {
                        assert(log =~= so_far);
                    } else {
                        assert(log =~= so_far.push(end));
                    }
                },
                NextView::Failed(chain) => {
                    let said = step::failure_message(chain);
                    let shown = turn.effects + chat::failure_effects(chain);
                    lemma_neutral_events(session.chat.cfg, said, no_reply);
                    lemma_neutral(so_far, sessionlog::error_view(said));
                    session::lemma_logged_two(
                        EffectView::Complain(said),
                        EffectView::Log(sessionlog::error_view(said)),
                    );
                    session::lemma_logged_add(turn.effects, chat::failure_effects(chain));
                    session::lemma_logged_add(shown, chat::prompt_effects());
                    assert(log =~= so_far.push(sessionlog::error_view(said)));
                },
            }
        },
    }
}

/// Both ways to start a chat: what is logged at first is replayable.
pub proof fn law_first_events_replayable(
    cfg: ConfigView,
    tools: Seq<ToolView>,
    prior: Seq<JsonView>,
    prompt: Seq<char>,
)
    ensures
        replayable(session::begun(chat::run_view(cfg, tools))),
        replayable(session::begun(chat::run_oneshot_view(cfg, tools, prior, prompt))),
{
    let none = Seq::<JsonView>::empty();
    let no_reply = ReplyView { content: None, calls: Seq::empty() };
    let start = chat::start_event(cfg);
    let said = sessionlog::user_view(prompt);
    let first = chat::run_oneshot_view(cfg, tools, prior, prompt);
    session::lemma_begun_interactive(cfg, tools);
    lemma_neutral_events(cfg, prompt, no_reply);
    lemma_neutral(none, start);
    lemma_neutral(none.push(start), said);
    assert(session::begun(chat::run_view(cfg, tools)).log =~= none.push(start));
    session::lemma_logged_two(EffectView::Log(start), EffectView::Log(said));
    assert(first.1.effects =~= seq![EffectView::Log(start), EffectView::Log(said)]);
    assert(session::begun(first).log =~= none.push(start).push(said));
}

/// A session whose log is replayable at first keeps it so, whatever happens.
pub proof fn law_sessions_stay_replayable(start: Session, events: Seq<EventView>)
    requires
        start.chat.wf(),
        replayable(start),
        session::can_happen(start, events),
    ensures
        session::session_after(start, events).chat.wf(),
        replayable(session::session_after(start, events)),
    decreases events.len(),
{
    if events.len() > 0 {
        law_sessions_stay_replayable(start, events.drop_last());
        let before = session::session_after(start, events.drop_last());
        session::law_action_fits(before.chat, events.last());
        law_log_stays_replayable(before, events.last());
    }
}

} // verus!
