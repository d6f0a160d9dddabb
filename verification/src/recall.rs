//! What a session log says when it is read back.

use vstd::prelude::*;

use crate::bridge::ToolView;
use crate::chat;
use crate::chat::{ChatView, NextView, PhaseView};
use crate::history;
use crate::json;
use crate::json::JsonView;
use crate::json_text;
use crate::message;
use crate::reply;
use crate::reply::{CallView, ReplyView};
use crate::request;
use crate::request::ConfigView;
use crate::session;
use crate::session::Session;
use crate::sessionlog;
use crate::sessionlog::LogView;
use crate::step;
use crate::step::{ActionView, EffectView, EventView};
use crate::text;

verus! {

/// How deep the events of a session nest.
pub const EVENT_LEVELS: u8 = 4;

/// Whether an event is one that a log is known to have and gives back as it
/// was.
pub open spec fn recordable(event: JsonView) -> bool {
    &&& event is Object
    &&& json_text::plain(event, EVENT_LEVELS as nat)
    &&& history::known_kind(history::event_kind(event))
}

proof fn lemma_plain_more_levels(value: JsonView, few: nat, many: nat)
    requires
        json_text::plain(value, few),
        few <= many,
    ensures
        json_text::plain(value, many),
    decreases few,
{
    match value {
        JsonView::Array(items) => {
            assert forall|i: int| 0 <= i < items.len() implies json_text::plain(
                #[trigger] items[i],
                (many - 1) as nat,
            ) by {
                lemma_plain_more_levels(items[i], (few - 1) as nat, (many - 1) as nat);
            }
        },
        JsonView::Object(members) => {
            assert forall|key: Seq<char>| #[trigger]
                members.contains_key(key) implies json_text::plain(
                members[key],
                (many - 1) as nat,
            ) by {
                lemma_plain_more_levels(members[key], (few - 1) as nat, (many - 1) as nat);
            }
        },
        _ => {},
    }
}

/// A time stamp makes an event no less plain.
proof fn lemma_plain_stamped(event: JsonView, ts: Seq<char>, levels: nat)
    requires
        json_text::plain(event, levels),
    ensures
        json_text::plain(sessionlog::stamped(event, ts), levels),
{
    match event {
        JsonView::Object(members) => {
            let stamped = members.insert("ts"@, JsonView::Str(ts));
            assert forall|key: Seq<char>| #[trigger]
                stamped.contains_key(key) implies json_text::plain(
                stamped[key],
                (levels - 1) as nat,
            ) by {
                if key != "ts"@ {
                    assert(members.contains_key(key));
                }
            }
        },
        _ => {},
    }
}

proof fn lemma_call_entry_plain(call: CallView)
    ensures
        json_text::plain(reply::call_entry_view(call), 2),
{
    reveal_with_fuel(json_text::plain, 3);
}

proof fn lemma_calls_plain(calls: Seq<CallView>)
    ensures
        json_text::plain(reply::calls_view(calls), 3),
{
    let items = reply::calls_view(calls)->Array_0;
    assert forall|i: int| 0 <= i < items.len() implies json_text::plain(#[trigger] items[i], 2) by {
        lemma_call_entry_plain(calls[i]);
    }
}

/// Every event that a chat can log is recordable.
proof fn lemma_events_recordable(
    cfg: ConfigView,
    content: Seq<char>,
    reply: ReplyView,
    call: CallView,
    is_error: bool,
)
    ensures
        recordable(chat::start_event(cfg)),
        recordable(sessionlog::user_view(content)),
        recordable(chat::reply_event(reply)),
        recordable(sessionlog::tool_call_view(call.id, call.name, call.arguments)),
        recordable(sessionlog::tool_result_view(call.id, content, is_error)),
        recordable(sessionlog::error_view(content)),
        recordable(sessionlog::session_end_view()),
{
    session::lemma_keys();
    lemma_calls_plain(reply.calls);
    reveal_with_fuel(json_text::plain, 2);
}

/// Whether all that effects log is recordable.
pub open spec fn well_logged(effects: Seq<EffectView>) -> bool {
    forall|i: int|
        0 <= i < effects.len() ==> (session::logged_event(#[trigger] effects[i]) matches Some(event)
            ==> recordable(event))
}

proof fn lemma_logged_recordable(effects: Seq<EffectView>)
    requires
        well_logged(effects),
    ensures
        forall|i: int|
            0 <= i < session::logged(effects).len() ==> recordable(
                #[trigger] session::logged(effects)[i],
            ),
    decreases effects.len(),
{
    if effects.len() > 0 {
        let front = session::logged(effects.drop_last());
        let all = session::logged(effects);
        lemma_logged_recordable(effects.drop_last());
        assert forall|i: int| 0 <= i < all.len() implies recordable(#[trigger] all[i]) by {
            if i < front.len() {
                assert(all[i] == front[i]);
            } else {
                assert(session::logged_event(effects[effects.len() - 1]) == Some(all[i]));
            }
        }
    }
}

proof fn lemma_call_effects_recordable(call: CallView, text: Seq<char>, is_error: bool)
    ensures
        well_logged(chat::begin_effects(call)),
        well_logged(chat::end_effects(call, text, is_error)),
{
    lemma_events_recordable(
        arbitrary(),
        text,
        ReplyView { content: None, calls: Seq::empty() },
        call,
        is_error,
    );
}

proof fn lemma_advance_recordable(chat: ChatView, calls: Seq<CallView>, next: int)
    requires
        0 <= next,
    ensures
        well_logged(chat::advance_view(chat, calls, next).effects),
    decreases calls.len() - next,
{
    if next < calls.len() {
        let call = calls[next];
        match reply::arguments_view(call.arguments) {
            Err(e) => {
                let answered = chat::answered(chat, call, chat::refusal(e));
                lemma_advance_recordable(answered, calls, next + 1);
                lemma_call_effects_recordable(call, chat::refusal(e), true);
            },
            Ok(_) => {
                lemma_call_effects_recordable(call, Seq::empty(), false);
            },
        }
    }
}

proof fn lemma_turn_recordable(chat: ChatView, event: EventView)
    requires
        chat.wf(),
    ensures
        well_logged(chat::handle_turn_view(chat, event).effects),
{
    match (chat.phase, event) {
        (PhaseView::Parsing(_), EventView::Parsed(choices)) => {
            if choices.len() > 0 {
                let reply = choices[0];
                lemma_events_recordable(
                    chat.cfg,
                    Seq::empty(),
                    reply,
                    arbitrary(),
                    false,
                );
                lemma_advance_recordable(chat.said(chat::reply_message(reply)), reply.calls, 0);
            }
        },
        (PhaseView::Calling { calls, next }, EventView::ToolDone(outcome)) => {
            let call = calls[next];
            let answer = chat::outcome_text(outcome);
            lemma_call_effects_recordable(call, answer, chat::outcome_is_error(outcome));
            lemma_advance_recordable(chat::answered(chat, call, answer), calls, next + 1);
        },
        _ => {},
    }
}

proof fn lemma_step_recordable(chat: ChatView, event: EventView)
    requires
        chat.wf(),
    ensures
        well_logged(chat::resume_view(chat, event).1.effects),
{
    let no_reply = ReplyView { content: None, calls: Seq::empty() };
    lemma_events_recordable(chat.cfg, Seq::empty(), no_reply, arbitrary(), false);
    match event {
        EventView::Line(line) => {
            lemma_events_recordable(
                chat.cfg,
                text::trimmed(line),
                no_reply,
                arbitrary(),
                false,
            );
        },
        EventView::EndOfInput => {},
        EventView::InputFailed(_) => {},
        _ => {
            lemma_turn_recordable(chat, event);
            match chat::handle_turn_view(chat, event).next {
                NextView::Failed(chain) => {
                    lemma_events_recordable(
                        chat.cfg,
                        step::failure_message(chain),
                        no_reply,
                        arbitrary(),
                        false,
                    );
                },
                _ => {},
            }
        },
    }
}

/// Whether all of a log is recordable.
pub open spec fn all_recordable(log: Seq<JsonView>) -> bool {
    forall|i: int| 0 <= i < log.len() ==> recordable(#[trigger] log[i])
}

/// Whatever happens in a session, all that is logged is recordable.
pub proof fn law_log_is_recordable(start: Session, events: Seq<EventView>)
    requires
        start.chat.wf(),
        all_recordable(start.log),
        session::can_happen(start, events),
    ensures
        session::session_after(start, events).chat.wf(),
        all_recordable(session::session_after(start, events).log),
    decreases events.len(),
{
    if events.len() > 0 {
        law_log_is_recordable(start, events.drop_last());
        let before = session::session_after(start, events.drop_last());
        let next = chat::resume_view(before.chat, events.last());
        session::law_action_fits(before.chat, events.last());
        lemma_step_recordable(before.chat, events.last());
        lemma_logged_recordable(next.1.effects);
    }
}

/// Both ways to start a chat: what is logged at first is recordable.
pub proof fn law_first_events_recordable(
    cfg: ConfigView,
    tools: Seq<ToolView>,
    prior: Seq<JsonView>,
    prompt: Seq<char>,
)
    ensures
        all_recordable(session::begun(chat::run_view(cfg, tools)).log),
        all_recordable(session::begun(chat::run_oneshot_view(cfg, tools, prior, prompt)).log),
{
    let no_reply = ReplyView { content: None, calls: Seq::empty() };
    lemma_events_recordable(cfg, prompt, no_reply, arbitrary(), false);
    lemma_logged_recordable(chat::run_view(cfg, tools).1.effects);
    lemma_logged_recordable(chat::run_oneshot_view(cfg, tools, prior, prompt).1.effects);
}

/// Lines one behind the other.
pub open spec fn log_text(lines: Seq<Seq<char>>) -> Seq<char>
    decreases lines.len(),
{
    if lines.len() == 0 {
        Seq::empty()
    } else {
        log_text(lines.drop_last()) + lines.last()
    }
}

/// Whether these lines record these events, each one.
pub open spec fn recorded(lines: Seq<Seq<char>>, log: Seq<JsonView>) -> bool {
    &&& lines.len() == log.len()
    &&& forall|i: int| 0 <= i < log.len() ==> sessionlog::records(#[trigger] lines[i], log[i])
}

/// A text that begins with a character that is no white space is not blank.
proof fn lemma_not_blank(s: Seq<char>)
    requires
        s.len() > 0,
        !text::is_white_space(s[0]),
    ensures
        text::trimmed_end(s).len() > 0,
        !history::blank(s),
    decreases s.len(),
{
    if text::is_white_space(s.last()) {
        lemma_not_blank(s.drop_last());
    }
}

/// What is read of a recorded event: its message, and nothing to warn of.
pub proof fn lemma_line_reads_back(line: Seq<char>, event: JsonView, number: nat)
    requires
        sessionlog::records(line, event),
        recordable(event),
    ensures
        line.len() > 0,
        line.last() == '\n',
        json_text::single_line(line.drop_last()),
        exists|ts: Seq<char>|
            sessionlog::is_time(ts) && json_text::reads_as(
                line.drop_last(),
                #[trigger] sessionlog::stamped(event, ts),
            ),
        !history::blank(line.drop_last()),
        history::line_message(line.drop_last()) == history::event_message(event),
        history::line_warning(line.drop_last(), number) is None,
{
    let ts = choose|ts: Seq<char>|
        sessionlog::is_time(ts) && #[trigger] sessionlog::records_at(line, event, ts);
    let body = json_text::written(sessionlog::stamped(event, ts));
    assert(line.drop_last() =~= body);
    lemma_plain_more_levels(event, EVENT_LEVELS as nat, json_text::READ_LEVELS as nat);
    lemma_plain_stamped(event, ts, json_text::READ_LEVELS as nat);
    session::lemma_stamp_hides_nothing(event, ts);
    lemma_not_blank(body);
    assert(json_text::reads_as(line.drop_last(), sessionlog::stamped(event, ts)));
}

/// The lines without what they end with.
pub open spec fn bodies(lines: Seq<Seq<char>>) -> Seq<Seq<char>> {
    lines.map_values(|line: Seq<char>| line.drop_last())
}

proof fn lemma_log_text(lines: Seq<Seq<char>>)
    requires
        forall|i: int|
            0 <= i < lines.len() ==> (#[trigger] lines[i]).len() > 0 && lines[i].last() == '\n',
    ensures
        log_text(lines) == text::unlines(bodies(lines)),
    decreases lines.len(),
{
    if lines.len() > 0 {
        lemma_log_text(lines.drop_last());
        assert(bodies(lines).drop_last() =~= bodies(lines.drop_last()));
        assert(lines[lines.len() - 1] == lines.last());
        assert(lines.last().drop_last().push('\n') =~= lines.last());
    }
}

/// The lines that are read from a log are the lines that were written.
pub proof fn lemma_log_lines(lines: Seq<Seq<char>>, log: Seq<JsonView>)
    requires
        recorded(lines, log),
        all_recordable(log),
    ensures
        text::lines_of(log_text(lines)) == bodies(lines),
{
    assert forall|i: int| 0 <= i < lines.len() implies (#[trigger] lines[i]).len() > 0
        && lines[i].last() == '\n' by {
        lemma_line_reads_back(lines[i], log[i], 0);
    }
    lemma_log_text(lines);
    let list = bodies(lines);
    assert forall|i: int, k: int| 0 <= i < list.len() && 0 <= k < list[i].len() implies (
    #[trigger] list[i][k]) != '\n' && list[i][k] != '\r' by {
        lemma_line_reads_back(lines[i], log[i], 0);
        assert(list[i] == lines[i].drop_last());
    }
    text::law_lines_read_back(list);
}

proof fn lemma_bodies_read_back(lines: Seq<Seq<char>>, log: Seq<JsonView>)
    requires
        recorded(lines, log),
        all_recordable(log),
    ensures
        history::history_of(bodies(lines)) == session::messages_of(log),
        history::warnings_of(bodies(lines)) == Seq::<Seq<char>>::empty(),
    decreases lines.len(),
{
    if lines.len() > 0 {
        let before = lines.drop_last();
        let last: int = lines.len() - 1;
        assert(recorded(before, log.drop_last())) by {
            assert forall|i: int| 0 <= i < last implies sessionlog::records(
                #[trigger] before[i],
                log.drop_last()[i],
            ) by {
                assert(before[i] == lines[i]);
            }
        }
        lemma_bodies_read_back(before, log.drop_last());
        assert(bodies(lines).drop_last() =~= bodies(before));
        assert(sessionlog::records(lines[last], log[last]));
        lemma_line_reads_back(lines[last], log[last], lines.len());
    }
}

/// Reading a log gives the conversation back: the messages of the events that
/// its lines record, in order, and nothing to warn of. That holds of a log to
/// which several sessions were appended as well.
pub proof fn law_log_reads_back(lines: Seq<Seq<char>>, log: Seq<JsonView>)
    requires
        recorded(lines, log),
        all_recordable(log),
    ensures
        history::history_of(text::lines_of(log_text(lines))) == session::messages_of(log),
        history::warnings_of(text::lines_of(log_text(lines))) == Seq::<Seq<char>>::empty(),
{
    lemma_log_lines(lines, log);
    lemma_bodies_read_back(lines, log);
}

/// No logged event stands for a system prompt.
proof fn lemma_message_role(event: JsonView)
    ensures
        history::event_message(event) matches Some(said) ==> json::text_member(said, "role"@)
            != Some("system"@),
{
    reveal_strlit("role");
    reveal_strlit("content");
    reveal_strlit("tool_calls");
    reveal_strlit("tool_call_id");
    reveal_strlit("system");
    reveal_strlit("user");
    reveal_strlit("assistant");
    reveal_strlit("tool");
    assert("role"@.len() == 4 && "content"@.len() == 7 && "tool_calls"@.len() == 10);
    assert("tool_call_id"@.len() == 12 && "system"@.len() == 6 && "user"@.len() == 4);
    assert("assistant"@.len() == 9 && "tool"@.len() == 4);
}

/// A conversation that is read from a log does not begin with a system prompt.
pub proof fn law_log_holds_no_system_prompt(log: Seq<JsonView>)
    ensures
        !chat::has_system(session::messages_of(log)),
    decreases log.len(),
{
    if log.len() > 0 {
        law_log_holds_no_system_prompt(log.drop_last());
        lemma_message_role(log.last());
        let before = session::messages_of(log.drop_last());
        if before.len() > 0 {
            assert(session::messages_of(log)[0] == before[0]);
        }
    }
}

/// A chat of one turn on what a log holds picks the conversation up where the
/// logged sessions left it. Let `log` be all that a log holds, `session` a
/// session that began with the conversation of its first part, and let the
/// rest be what `session` logged. Then the request that the chat makes carries
/// the very conversation of `session`, with the user's new message behind it.
pub proof fn law_oneshot_continues(
    earlier: Seq<JsonView>,
    session: Session,
    lines: Seq<Seq<char>>,
    cfg: ConfigView,
    tools: Seq<ToolView>,
    prompt: Seq<char>,
)
    requires
        session.chat.history == chat::with_system(
            session::messages_of(earlier),
            cfg.system_prompt,
        ) + session::messages_of(session.log),
        all_recordable(earlier),
        all_recordable(session.log),
        recorded(lines, earlier + session.log),
    ensures
        ({
            let prior = history::history_of(text::lines_of(log_text(lines)));
            let (chat, asked) = chat::run_oneshot_view(cfg, tools, prior, prompt);
            let conversation = session.chat.history.push(message::user_message_view(prompt));
            &&& chat.history == conversation
            &&& asked.action matches ActionView::Post { url, api_key, body } && json::member(
                body,
                "messages"@,
            ) == Some(JsonView::Array(conversation))
        }),
{
    let prior = history::history_of(text::lines_of(log_text(lines)));
    law_log_reads_back(lines, earlier + session.log);
    session::lemma_messages_add(earlier, session.log);
    law_log_holds_no_system_prompt(earlier);
    law_log_holds_no_system_prompt(earlier + session.log);
    assert(chat::with_system(prior, cfg.system_prompt) =~= session.chat.history);
    let (chat, asked) = chat::run_oneshot_view(cfg, tools, prior, prompt);
    request::law_request_members(chat.cfg, chat.tools, chat.history);
}

/// A chat of one turn on the log of an interactive session picks the
/// conversation up where the session left it, under the same system prompt.
pub proof fn law_oneshot_continues_interactive(
    cfg: ConfigView,
    tools: Seq<ToolView>,
    events: Seq<EventView>,
    lines: Seq<Seq<char>>,
    prompt: Seq<char>,
)
    requires
        session::can_happen(session::begun(chat::run_view(cfg, tools)), events),
        recorded(
            lines,
            session::session_after(session::begun(chat::run_view(cfg, tools)), events).log,
        ),
    ensures
        chat::run_oneshot_view(
            cfg,
            tools,
            history::history_of(text::lines_of(log_text(lines))),
            prompt,
        ).0.history == session::session_after(
            session::begun(chat::run_view(cfg, tools)),
            events,
        ).chat.history.push(message::user_message_view(prompt)),
{
    let start = session::begun(chat::run_view(cfg, tools));
    let session = session::session_after(start, events);
    session::law_interactive_conversation(cfg, tools, events);
    law_first_events_recordable(cfg, tools, Seq::empty(), Seq::empty());
    law_log_is_recordable(start, events);
    let none = Seq::<JsonView>::empty();
    assert(session::messages_of(none) =~= Seq::empty());
    assert(none + session.log =~= session.log);
    law_oneshot_continues(none, session, lines, cfg, tools, prompt);
}

/// A chat of one turn on the log to which an earlier chat of one turn appended
/// picks the conversation up where that chat left it: chats with one session
/// id are one conversation.
pub proof fn law_oneshot_continues_oneshot(
    earlier: Seq<JsonView>,
    cfg: ConfigView,
    tools: Seq<ToolView>,
    first_prompt: Seq<char>,
    events: Seq<EventView>,
    lines: Seq<Seq<char>>,
    prompt: Seq<char>,
)
    requires
        all_recordable(earlier),
        ({
            let first = chat::run_oneshot_view(
                cfg,
                tools,
                session::messages_of(earlier),
                first_prompt,
            );
            &&& session::can_happen(session::begun(first), events)
            &&& recorded(
                lines,
                earlier + session::session_after(session::begun(first), events).log,
            )
        }),
    ensures
        chat::run_oneshot_view(
            cfg,
            tools,
            history::history_of(text::lines_of(log_text(lines))),
            prompt,
        ).0.history == session::session_after(
            session::begun(
                chat::run_oneshot_view(cfg, tools, session::messages_of(earlier), first_prompt),
            ),
            events,
        ).chat.history.push(message::user_message_view(prompt)),
{
    let prior = session::messages_of(earlier);
    let start = session::begun(chat::run_oneshot_view(cfg, tools, prior, first_prompt));
    let session = session::session_after(start, events);
    session::law_oneshot_conversation(cfg, tools, prior, first_prompt, events);
    law_first_events_recordable(cfg, tools, prior, first_prompt);
    law_log_is_recordable(start, events);
    law_oneshot_continues(earlier, session, lines, cfg, tools, prompt);
}

/// Whether a log took these events, one after the other.
pub open spec fn took_all(before: LogView, after: LogView, log: Seq<JsonView>) -> bool
    decreases log.len(),
{
    if log.len() == 0 {
        after == before
    } else {
        exists|between: LogView|
            took_all(before, between, log.drop_last()) && #[trigger] between.took(after, log.last())
    }
}

/// A log in memory captures all that it takes: a line for each event, in
/// order, behind what it had captured before.
pub proof fn law_buffer_captures_all(before: LogView, after: LogView, log: Seq<JsonView>)
    requires
        before.path is None,
        took_all(before, after, log),
    ensures
        after.path is None,
        exists|lines: Seq<Seq<char>>|
            recorded(lines, log) && after.captured == before.captured + #[trigger] log_text(lines),
    decreases log.len(),
{
    if log.len() == 0 {
        let lines = Seq::<Seq<char>>::empty();
        assert(recorded(lines, log));
        assert(before.captured + log_text(lines) =~= before.captured);
    } else {
        let between = choose|between: LogView|
            took_all(before, between, log.drop_last()) && #[trigger] between.took(
                after,
                log.last(),
            );
        law_buffer_captures_all(before, between, log.drop_last());
        let front = choose|lines: Seq<Seq<char>>|
            recorded(lines, log.drop_last()) && between.captured == before.captured
                + #[trigger] log_text(lines);
        let line = choose|line: Seq<char>|
            sessionlog::records(line, log.last()) && after == #[trigger] between.appended(line);
        let lines = front.push(line);
        assert forall|i: int| 0 <= i < log.len() implies sessionlog::records(
            #[trigger] lines[i],
            log[i],
        ) by {
            if i < front.len() {
                assert(sessionlog::records(front[i], log.drop_last()[i]));
            }
        }
        assert(lines.drop_last() =~= front);
        assert(before.captured + log_text(lines) =~= between.captured + line);
    }
}

/// A log with a file hands out the line that it took, once. Where it also
/// captures, it has captured the line if and only if the line was appended to
/// the file, and else nothing: the copy is what the file got.
pub proof fn law_copy_is_what_the_file_got(log: LogView, line: Seq<char>, ok: bool)
    requires
        log.path is Some,
        log.pending.len() == 0,
    ensures
        log.appended(line).pending == seq![line],
        log.appended(line).captured == log.captured,
        ({
            let after = log.appended(line).delivered(ok);
            &&& after.path == log.path
            &&& after.captures == log.captures
            &&& after.pending.len() == 0
            &&& after.captured == log.captured + (if ok && log.captures {
                line
            } else {
                Seq::empty()
            })
        }),
{
    assert(log.appended(line).pending =~= seq![line]);
    assert(log.captured + Seq::<char>::empty() =~= log.captured);
}

} // verus!
