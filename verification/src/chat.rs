//! The chat itself: a conversation between a user and a model that may call
//! tools, as a machine that is told what happened and says what to do next.

use vstd::prelude::*;

use crate::bridge;
use crate::bridge::{to_openai_tools, McpTool, ToolView};
use crate::json;
use crate::json::{Json, JsonView};
use crate::message;
use crate::message::{assistant_message, system_message, tool_message, user_message};
use crate::reply;
use crate::reply::{
    calls_json, extract_error_message, is_success, parse_args, status_text, CallView, ReplyView,
    ResponseMessage, ToolCall,
};
use crate::request;
pub use crate::request::ChatConfig;
use crate::request::{endpoint, request_body, ConfigView};
use crate::sessionlog;
use crate::sessionlog::{
    assistant_event, error_event, session_end_event, session_start_event, tool_call_event,
    tool_result_event, user_event,
};
use crate::step;
use crate::step::{
    Action, ActionView, Effect, EffectView, Event, EventView, Failure, OutcomeView, Step, StepView,
    ToolOutcome,
};
use crate::text;
use crate::text::{join, same_text, to_decimal, trim};

verus! {

/// What a chat is waiting for.
pub enum Phase {
    /// A line from the user.
    Reading,
    /// The response to a request.
    Sent,
    /// The body of a response, read as a reply of the model.
    Parsing(String),
    /// The call number `next`, from zero, of the calls that the model asked
    /// for.
    Calling { calls: Vec<ToolCall>, next: usize },
    /// Nothing more.
    Over,
}

/// The mathematical value of a `Phase`.
pub enum PhaseView {
    Reading,
    Sent,
    Parsing(Seq<char>),
    Calling { calls: Seq<CallView>, next: int },
    Over,
}

impl View for Phase {
    type V = PhaseView;

    open spec fn view(&self) -> PhaseView {
        match self {
            Phase::Reading => PhaseView::Reading,
            Phase::Sent => PhaseView::Sent,
            Phase::Parsing(body) => PhaseView::Parsing(body@),
            Phase::Calling { calls, next } => PhaseView::Calling {
                calls: reply::call_views(calls@),
                next: *next as int,
            },
            Phase::Over => PhaseView::Over,
        }
    }
}

/// A chat. An interactive one goes on from turn to turn; another has one turn.
pub struct Chat {
    pub cfg: ChatConfig,
    pub tools: Vec<Json>,
    pub history: Vec<Json>,
    pub phase: Phase,
    pub interactive: bool,
}

/// The mathematical value of a `Chat`.
pub struct ChatView {
    pub cfg: ConfigView,
    pub tools: Seq<JsonView>,
    pub history: Seq<JsonView>,
    pub phase: PhaseView,
    pub interactive: bool,
}

impl View for Chat {
    type V = ChatView;

    open spec fn view(&self) -> ChatView {
        ChatView {
            cfg: self.cfg@,
            tools: json::views(self.tools@),
            history: json::views(self.history@),
            phase: self.phase@,
            interactive: self.interactive,
        }
    }
}

impl ChatView {
    /// The number of the call that is out is one of the calls.
    pub open spec fn wf(self) -> bool {
        self.phase matches PhaseView::Calling { calls, next } ==> 0 <= next < calls.len()
    }

    /// The chat in another phase.
    pub open spec fn at(self, phase: PhaseView) -> ChatView {
        ChatView { phase, ..self }
    }

    /// The chat with one more message.
    pub open spec fn said(self, message: JsonView) -> ChatView {
        ChatView { history: self.history.push(message), ..self }
    }
}

/// Whether this can happen to a chat that waits like this.
pub open spec fn accepts(phase: PhaseView, event: EventView) -> bool {
    match (phase, event) {
        (PhaseView::Reading, EventView::Line(_)) => true,
        (PhaseView::Reading, EventView::EndOfInput) => true,
        (PhaseView::Reading, EventView::InputFailed(_)) => true,
        (PhaseView::Sent, EventView::SendFailed(_)) => true,
        (PhaseView::Sent, EventView::ReadFailed(_)) => true,
        (PhaseView::Sent, EventView::Reply { status, body }) => 100 <= status <= 999,
        (PhaseView::Parsing(_), EventView::Parsed(_)) => true,
        (PhaseView::Parsing(_), EventView::Unparsable(_)) => true,
        (PhaseView::Calling { calls, next }, EventView::ToolDone(_)) => true,
        _ => false,
    }
}

/// How a turn goes on.
pub enum Next {
    /// There is something to do.
    Act(Action),
    /// The turn is complete.
    Done,
    /// The turn failed.
    Failed(Failure),
}

/// The mathematical value of a `Next`.
pub enum NextView {
    Act(ActionView),
    Done,
    Failed(Seq<Seq<char>>),
}

impl View for Next {
    type V = NextView;

    open spec fn view(&self) -> NextView {
        match self {
            Next::Act(action) => NextView::Act(action@),
            Next::Done => NextView::Done,
            Next::Failed(failure) => NextView::Failed(failure@),
        }
    }
}

/// The chat after something happened in a turn, the effects in order, and how
/// the turn goes on.
pub struct Turn {
    pub chat: Chat,
    pub effects: Vec<Effect>,
    pub next: Next,
}

/// The mathematical value of a `Turn`.
pub struct TurnView {
    pub chat: ChatView,
    pub effects: Seq<EffectView>,
    pub next: NextView,
}

impl View for Turn {
    type V = TurnView;

    open spec fn view(&self) -> TurnView {
        TurnView {
            chat: self.chat@,
            effects: step::effect_views(self.effects@),
            next: self.next@,
        }
    }
}

/// The request that a chat makes of its conversation.
pub open spec fn post_view(chat: ChatView) -> ActionView {
    ActionView::Post {
        url: request::endpoint_view(chat.cfg.base_url),
        api_key: chat.cfg.api_key,
        body: request::body_view(chat.cfg, chat.tools, chat.history),
    }
}

/// A turn that failed.
pub open spec fn failed_view(chat: ChatView, chain: Seq<Seq<char>>) -> TurnView {
    TurnView { chat, effects: Seq::empty(), next: NextView::Failed(chain) }
}

/// That a call is made is logged and then shown.
pub open spec fn begin_effects(call: CallView) -> Seq<EffectView> {
    seq![
        EffectView::Log(sessionlog::tool_call_view(call.id, call.name, call.arguments)),
        EffectView::ToolBegin { name: call.name, arguments: call.arguments },
    ]
}

/// What a call came to is shown and then logged.
pub open spec fn end_effects(call: CallView, text: Seq<char>, is_error: bool) -> Seq<EffectView> {
    seq![
        EffectView::ToolEnd { text, is_error },
        EffectView::Log(sessionlog::tool_result_view(call.id, text, is_error)),
    ]
}

/// The answer to a call whose arguments are no JSON.
pub open spec fn refusal(e: Seq<char>) -> Seq<char> {
    "invalid JSON arguments: "@ + e
}

/// What the model is told of the outcome of a call.
pub open spec fn outcome_text(outcome: OutcomeView) -> Seq<char> {
    match outcome {
        OutcomeView::Replied { text: Some(text), is_error } => text,
        OutcomeView::Replied { text: None, is_error } => "(unserializable tool result)"@,
        OutcomeView::Failed(chain) => "tool error: "@ + step::failure_message(
            seq!["MCP tools/call failed"@] + chain,
        ),
    }
}

/// Whether a call came out as an error: where the tool says so, and where it
/// could not be reached.
pub open spec fn outcome_is_error(outcome: OutcomeView) -> bool {
    match outcome {
        OutcomeView::Replied { text, is_error: Some(is_error) } => is_error,
        OutcomeView::Replied { text, is_error: None } => false,
        OutcomeView::Failed(_) => true,
    }
}

/// The chat in which a call has its answer.
pub open spec fn answered(chat: ChatView, call: CallView, text: Seq<char>) -> ChatView {
    chat.said(message::tool_message_view(call.id, text))
}

/// The turn from the call number `next` on: a call whose arguments are no JSON
/// is answered with that at once, and the first other one is made. When all
/// calls have their answers, the conversation goes back to the model.
pub open spec fn advance_view(chat: ChatView, calls: Seq<CallView>, next: int) -> TurnView
    decreases calls.len() - next,
{
    if next < 0 || next >= calls.len() {
        TurnView {
            chat: chat.at(PhaseView::Sent),
            effects: Seq::empty(),
            next: NextView::Act(post_view(chat)),
        }
    } else {
        let call = calls[next];
        match reply::arguments_view(call.arguments) {
            Err(e) => {
                let rest = advance_view(answered(chat, call, refusal(e)), calls, next + 1);
                TurnView {
                    effects: begin_effects(call) + end_effects(call, refusal(e), true)
                        + rest.effects,
                    ..rest
                }
            },
            Ok(arguments) => TurnView {
                chat: chat.at(PhaseView::Calling { calls, next }),
                effects: begin_effects(call),
                next: NextView::Act(ActionView::CallTool { name: call.name, arguments }),
            },
        }
    }
}

/// The calls of a reply as they stand in the conversation, where there are
/// any.
pub open spec fn reply_calls(reply: ReplyView) -> Option<JsonView> {
    if reply.calls.len() > 0 {
        Some(reply::calls_view(reply.calls))
    } else {
        None
    }
}

/// A reply of the model as a message.
pub open spec fn reply_message(reply: ReplyView) -> JsonView {
    message::assistant_message_view(sessionlog::text_or_null(reply.content), reply_calls(reply))
}

/// A reply of the model as a logged event.
pub open spec fn reply_event(reply: ReplyView) -> JsonView {
    sessionlog::assistant_view(
        reply.content,
        match reply_calls(reply) {
            Some(calls) => calls,
            None => JsonView::Null,
        },
    )
}

/// What is shown of a reply that calls no tool.
pub open spec fn say_effects(content: Option<Seq<char>>) -> Seq<EffectView> {
    match content {
        Some(content) => seq![EffectView::Say(content)],
        None => Seq::empty(),
    }
}

/// The turn after the model's reply. It becomes part of the conversation and
/// is logged. Without calls it is shown and the turn is complete; with calls
/// they are made.
pub open spec fn replied_view(chat: ChatView, reply: ReplyView) -> TurnView {
    let heard = chat.said(reply_message(reply));
    let logged = seq![EffectView::Log(reply_event(reply))];
    if reply.calls.len() == 0 {
        TurnView {
            chat: heard,
            effects: logged + say_effects(reply.content),
            next: NextView::Done,
        }
    } else {
        let rest = advance_view(heard, reply.calls, 0);
        TurnView { effects: logged + rest.effects, ..rest }
    }
}

/// What a status that reports no success comes to.
pub open spec fn status_failure(status: Seq<char>, message: Seq<char>) -> Seq<char> {
    "OpenRouter "@ + status + ": "@ + message
}

/// One turn of the conversation: a request, the model's reply, the calls that
/// it asks for, a request with their answers, and so on until a reply calls no
/// tool.
pub open spec fn handle_turn_view(chat: ChatView, event: EventView) -> TurnView {
    match (chat.phase, event) {
        (PhaseView::Sent, EventView::SendFailed(chain)) => failed_view(
            chat,
            seq!["POST "@ + request::endpoint_view(chat.cfg.base_url)] + chain,
        ),
        (PhaseView::Sent, EventView::ReadFailed(chain)) => failed_view(
            chat,
            seq!["read OpenRouter response body"@] + chain,
        ),
        (PhaseView::Sent, EventView::Reply { status, body }) => if reply::success(status) {
            TurnView {
                chat: chat.at(PhaseView::Parsing(body)),
                effects: Seq::empty(),
                next: NextView::Act(ActionView::Parse(body)),
            }
        } else {
            failed_view(
                chat,
                seq![status_failure(reply::status_view(status), reply::error_message_view(body))],
            )
        },
        (PhaseView::Parsing(body), EventView::Unparsable(chain)) => failed_view(
            chat,
            seq!["parse OpenRouter success body: "@ + body] + chain,
        ),
        (PhaseView::Parsing(_), EventView::Parsed(choices)) => if choices.len() == 0 {
            failed_view(chat, seq!["OpenRouter response had no choices"@])
        } else {
            replied_view(chat, choices[0])
        },
        (PhaseView::Calling { calls, next }, EventView::ToolDone(outcome)) => {
            let call = calls[next];
            let rest = advance_view(
                answered(chat, call, outcome_text(outcome)),
                calls,
                next + 1,
            );
            TurnView {
                effects: end_effects(call, outcome_text(outcome), outcome_is_error(outcome))
                    + rest.effects,
                ..rest
            }
        },
        _ => TurnView { chat, effects: Seq::empty(), next: NextView::Done },
    }
}

/// What is shown before a line is read.
pub open spec fn prompt_effects() -> Seq<EffectView> {
    seq![EffectView::Blank, EffectView::Pad(4)]
}

/// A chat that asks the user for a line, after these effects.
pub open spec fn prompting_view(chat: ChatView, effects: Seq<EffectView>) -> (ChatView, StepView) {
    (
        chat.at(PhaseView::Reading),
        StepView { effects: effects + prompt_effects(), action: ActionView::ReadLine },
    )
}

/// A chat that ends, after these effects.
pub open spec fn ending_view(chat: ChatView, effects: Seq<EffectView>) -> (ChatView, StepView) {
    (
        chat.at(PhaseView::Over),
        StepView {
            effects: effects.push(EffectView::Log(sessionlog::session_end_view())),
            action: ActionView::Exit(Ok(())),
        },
    )
}

/// What is shown and logged of a failed turn.
pub open spec fn failure_effects(chain: Seq<Seq<char>>) -> Seq<EffectView> {
    let message = step::failure_message(chain);
    seq![EffectView::Complain(message), EffectView::Log(sessionlog::error_view(message))]
}

/// How a chat goes on after a piece of a turn. After a complete turn an
/// interactive chat asks for the next line, and another ends. A failure is
/// shown and logged; an interactive chat survives it.
pub open spec fn settled_view(turn: TurnView) -> (ChatView, StepView) {
    match turn.next {
        NextView::Act(action) => (turn.chat, StepView { effects: turn.effects, action }),
        NextView::Done => if turn.chat.interactive {
            prompting_view(turn.chat, turn.effects)
        } else {
            ending_view(turn.chat, turn.effects)
        },
        NextView::Failed(chain) => if turn.chat.interactive {
            prompting_view(turn.chat, turn.effects + failure_effects(chain))
        } else {
            (
                turn.chat.at(PhaseView::Over),
                StepView {
                    effects: turn.effects + failure_effects(chain),
                    action: ActionView::Exit(Err(chain)),
                },
            )
        },
    }
}

/// Whether a line asks to leave.
pub open spec fn leaves(line: Seq<char>) -> bool {
    line == "/exit"@ || line == "/quit"@
}

/// A chat to which the user says something.
pub open spec fn told_view(
    chat: ChatView,
    line: Seq<char>,
    effects: Seq<EffectView>,
) -> (ChatView, StepView) {
    let told = chat.said(message::user_message_view(line)).at(PhaseView::Sent);
    (
        told,
        StepView {
            effects: effects.push(EffectView::Log(sessionlog::user_view(line))),
            action: post_view(told),
        },
    )
}

/// What a chat does when something happens.
pub open spec fn resume_view(chat: ChatView, event: EventView) -> (ChatView, StepView) {
    match event {
        EventView::Line(line) => {
            let trimmed = text::trimmed(line);
            if trimmed.len() == 0 {
                prompting_view(chat, Seq::empty())
            } else if leaves(trimmed) {
                ending_view(chat, Seq::empty())
            } else {
                told_view(chat, trimmed, seq![EffectView::Remember(trimmed), EffectView::Blank])
            }
        },
        EventView::EndOfInput => ending_view(chat, Seq::empty()),
        EventView::InputFailed(chain) => (
            chat.at(PhaseView::Over),
            StepView { effects: Seq::empty(), action: ActionView::Exit(Err(chain)) },
        ),
        _ => settled_view(handle_turn_view(chat, event)),
    }
}

/// The event that opens the session of a chat.
pub open spec fn start_event(cfg: ConfigView) -> JsonView {
    sessionlog::session_start_view(cfg.model, cfg.base_url, cfg.system_prompt)
}

/// Names of tools.
pub open spec fn tool_names(tools: Seq<ToolView>) -> Seq<Seq<char>> {
    tools.map_values(|tool: ToolView| tool.name)
}

/// The remark on the tools that there are.
pub open spec fn tools_note(tools: Seq<ToolView>) -> Seq<char> {
    "Connected to MCP. "@ + text::decimal(tools.len()) + " tool(s) available: "@ + text::joined(
        tool_names(tools),
        ", "@,
    )
}

/// An interactive chat at its start: the system prompt, where there is one, is
/// all of the conversation.
pub open spec fn run_view(cfg: ConfigView, tools: Seq<ToolView>) -> (ChatView, StepView) {
    let chat = ChatView {
        cfg,
        tools: bridge::openai_tools_view(tools),
        history: match cfg.system_prompt {
            Some(prompt) => seq![message::system_message_view(prompt)],
            None => Seq::empty(),
        },
        phase: PhaseView::Reading,
        interactive: true,
    };
    prompting_view(
        chat,
        seq![EffectView::Note(tools_note(tools)), EffectView::Log(start_event(cfg))],
    )
}

/// Whether a conversation begins with a system prompt.
pub open spec fn has_system(history: Seq<JsonView>) -> bool {
    history.len() > 0 && json::text_member(history[0], "role"@) == Some("system"@)
}

/// An earlier conversation, with the system prompt in front where there is one
/// and the conversation does not begin with one.
pub open spec fn with_system(history: Seq<JsonView>, prompt: Option<Seq<char>>) -> Seq<JsonView> {
    match prompt {
        Some(prompt) => if has_system(history) {
            history
        } else {
            seq![message::system_message_view(prompt)] + history
        },
        None => history,
    }
}

/// A chat of one turn at its start: the earlier conversation and the user's
/// new message.
pub open spec fn run_oneshot_view(
    cfg: ConfigView,
    tools: Seq<ToolView>,
    prior_history: Seq<JsonView>,
    prompt: Seq<char>,
) -> (ChatView, StepView) {
    let chat = ChatView {
        cfg,
        tools: bridge::openai_tools_view(tools),
        history: with_system(prior_history, cfg.system_prompt),
        phase: PhaseView::Sent,
        interactive: false,
    };
    told_view(chat, prompt, seq![EffectView::Log(start_event(cfg))])
}

/// What is done about a call that the model asks for.
pub enum CallDecision {
    /// It is made, with these arguments.
    Make(Option<Json>),
    /// It is answered at once, with this text.
    Refuse(String),
}

/// Decides on a call by the outcome of reading its arguments.
pub fn decide_call(arguments: Result<Option<Json>, String>) -> (decision: CallDecision)
    ensures
        match reply::arguments_outcome(arguments) {
            Ok(arguments) => decision matches CallDecision::Make(made) && json::opt_view(made)
                == arguments,
            Err(e) => decision matches CallDecision::Refuse(text) && text@ == refusal(e),
        },
{
    match arguments {
        Ok(arguments) => CallDecision::Make(arguments),
        Err(e) => CallDecision::Refuse("invalid JSON arguments: ".to_owned().concat(e.as_str())),
    }
}

/// What the model is told of the outcome of a call, and whether it came out as
/// an error.
pub fn judge_outcome(outcome: ToolOutcome) -> (judged: (String, bool))
    ensures
        judged.0@ == outcome_text(outcome@),
        judged.1 == outcome_is_error(outcome@),
{
    match outcome {
        ToolOutcome::Replied { text, is_error } => {
            let is_error = match is_error {
                Some(is_error) => is_error,
                None => false,
            };
            match text {
                Some(text) => (text, is_error),
                None => ("(unserializable tool result)".to_owned(), is_error),
            }
        },
        ToolOutcome::Failed(failure) => {
            let failure = failure.context("MCP tools/call failed".to_owned());
            ("tool error: ".to_owned().concat(failure.message().as_str()), true)
        },
    }
}

fn push_effect(effects: &mut Vec<Effect>, effect: Effect)
    ensures
        step::effect_views(final(effects)@) == step::effect_views(old(effects)@).push(effect@),
{
    let ghost before = effects@;
    effects.push(effect);
    assert(step::effect_views(effects@) =~= step::effect_views(before).push(effect@));
}

fn push_message(history: &mut Vec<Json>, message: Json)
    ensures
        json::views(final(history)@) == json::views(old(history)@).push(message@),
{
    let ghost before = history@;
    history.push(message);
    assert(json::views(history@) =~= json::views(before).push(message@));
}

fn post(chat: &Chat) -> (action: Action)
    ensures
        action@ == post_view(chat@),
{
    Action::Post {
        url: endpoint(chat.cfg.base_url.as_str()),
        api_key: chat.cfg.api_key.clone(),
        body: request_body(&chat.cfg, &chat.tools, &chat.history),
    }
}

fn push_begin(effects: &mut Vec<Effect>, call: &ToolCall)
    ensures
        step::effect_views(final(effects)@) == step::effect_views(old(effects)@) + begin_effects(
            call@,
        ),
{
    let name = call.function.name.as_str();
    let arguments = call.function.arguments.as_str();
    push_effect(effects, Effect::Log(tool_call_event(call.id.as_str(), name, arguments)));
    push_effect(
        effects,
        Effect::ToolBegin { name: name.to_owned(), arguments: arguments.to_owned() },
    );
    assert(step::effect_views(effects@) =~= step::effect_views(old(effects)@) + begin_effects(
        call@,
    ));
}

fn push_end(effects: &mut Vec<Effect>, call: &ToolCall, text: &str, is_error: bool)
    ensures
        step::effect_views(final(effects)@) == step::effect_views(old(effects)@) + end_effects(
            call@,
            text@,
            is_error,
        ),
{
    push_effect(effects, Effect::ToolEnd { text: text.to_owned(), is_error });
    push_effect(effects, Effect::Log(tool_result_event(call.id.as_str(), text, is_error)));
    assert(step::effect_views(effects@) =~= step::effect_views(old(effects)@) + end_effects(
        call@,
        text@,
        is_error,
    ));
}

/// A turn with effects in front of it.
pub open spec fn after(effects: Seq<EffectView>, turn: TurnView) -> TurnView {
    TurnView { effects: effects + turn.effects, ..turn }
}

/// Goes on with the calls from number `next` on.
fn advance(chat: Chat, calls: Vec<ToolCall>, next: usize, effects: Vec<Effect>) -> (turn: Turn)
    requires
        next <= calls@.len(),
    ensures
        turn@ == after(
            step::effect_views(effects@),
            advance_view(chat@, reply::call_views(calls@), next as int),
        ),
        turn@.chat.wf(),
{
    let mut here = chat;
    let mut number = next;
    let mut shown = effects;
    let ghost views = reply::call_views(calls@);
    let ghost whole = after(step::effect_views(effects@), advance_view(chat@, views, next as int));
    while number < calls.len()
        invariant
            number <= calls@.len(),
            views == reply::call_views(calls@),
            whole == after(
                step::effect_views(effects@),
                advance_view(chat@, views, next as int),
            ),
            whole == after(
                step::effect_views(shown@),
                advance_view(here@, views, number as int),
            ),
        decreases calls@.len() - number,
    {
        let ghost before = step::effect_views(shown@);
        let call = &calls[number];
        assert(views[number as int] == call@);
        push_begin(&mut shown, call);
        match decide_call(parse_args(call.function.arguments.as_str())) {
            CallDecision::Make(arguments) => {
                let name = call.function.name.clone();
                here.phase = Phase::Calling { calls, next: number };
                return Turn {
                    chat: here,
                    effects: shown,
                    next: Next::Act(Action::CallTool { name, arguments }),
                };
            },
            CallDecision::Refuse(text) => {
                let ghost rest = advance_view(answered(here@, call@, text@), views, number + 1);
                push_end(&mut shown, call, text.as_str(), true);
                push_message(&mut here.history, tool_message(call.id.as_str(), text.as_str()));
                assert(step::effect_views(shown@) + rest.effects =~= before + (begin_effects(call@)
                    + end_effects(call@, text@, true) + rest.effects));
                number += 1;
            },
        }
    }
    let action = post(&here);
    here.phase = Phase::Sent;
    assert(step::effect_views(shown@) + Seq::<EffectView>::empty() =~= step::effect_views(shown@));
    Turn { chat: here, effects: shown, next: Next::Act(action) }
}

fn failed(chat: Chat, failure: Failure) -> (turn: Turn)
    ensures
        turn@ == failed_view(chat@, failure@),
{
    Turn { chat, effects: no_effects(), next: Next::Failed(failure) }
}

/// Goes on after a reply of the model.
fn replied(chat: Chat, message: ResponseMessage) -> (turn: Turn)
    ensures
        turn@ == replied_view(chat@, message@),
        chat@.wf() ==> turn@.chat.wf(),
{
    let ghost reply = message@;
    let ResponseMessage { content, tool_calls } = message;
    let calls: Vec<ToolCall> = match tool_calls {
        Some(calls) => calls,
        None => Vec::new(),
    };
    assert(reply::call_views(calls@) =~= reply.calls);
    let content_json = match &content {
        Some(content) => Json::text(content.as_str()),
        None => Json::Null,
    };
    let content_str = match &content {
        Some(content) => Some(content.as_str()),
        None => None,
    };
    let mut heard = chat;
    let mut effects = no_effects();
    if calls.len() == 0 {
        push_message(&mut heard.history, assistant_message(content_json, None));
        push_effect(&mut effects, Effect::Log(assistant_event(content_str, &Json::Null)));
        match content {
            Some(content) => {
                push_effect(&mut effects, Effect::Say(content));
            },
            None => {},
        }
        let turn = Turn { chat: heard, effects, next: Next::Done };
        assert(turn@.effects =~= replied_view(chat@, reply).effects);
        turn
    } else {
        let entries = calls_json(&calls);
        let logged = assistant_event(content_str, &entries);
        push_message(&mut heard.history, assistant_message(content_json, Some(entries)));
        push_effect(&mut effects, Effect::Log(logged));
        assert(step::effect_views(effects@) =~= seq![EffectView::Log(reply_event(reply))]);
        advance(heard, calls, 0, effects)
    }
}

/// What a status that reports no success comes to.
pub fn refusal_message(status: &str, message: &str) -> (s: String)
    ensures
        s@ == status_failure(status@, message@),
{
    "OpenRouter ".to_owned().concat(status).concat(": ").concat(message)
}

/// Goes on with a turn when something happens.
pub fn handle_turn(chat: Chat, event: Event) -> (turn: Turn)
    requires
        chat@.wf(),
        accepts(chat@.phase, event@),
        !(chat@.phase is Reading),
    ensures
        turn@ == handle_turn_view(chat@, event@),
        turn@.chat.wf(),
{
    let ghost start = chat@;
    let Chat { cfg, tools, history, phase, interactive } = chat;
    match (phase, event) {
        (Phase::Sent, Event::SendFailed(failure)) => {
            let failure = failure.context(
                "POST ".to_owned().concat(endpoint(cfg.base_url.as_str()).as_str()),
            );
            failed(Chat { cfg, tools, history, phase: Phase::Sent, interactive }, failure)
        },
        (Phase::Sent, Event::ReadFailed(failure)) => {
            let failure = failure.context("read OpenRouter response body".to_owned());
            failed(Chat { cfg, tools, history, phase: Phase::Sent, interactive }, failure)
        },
        (Phase::Sent, Event::Reply { status, body }) => {
            if is_success(status) {
                let effects = no_effects();
                let phase = Phase::Parsing(body.clone());
                Turn {
                    chat: Chat { cfg, tools, history, phase, interactive },
                    effects,
                    next: Next::Act(Action::Parse(body)),
                }
            } else {
                let message = refusal_message(
                    status_text(status).as_str(),
                    extract_error_message(body.as_str()).as_str(),
                );
                failed(
                    Chat { cfg, tools, history, phase: Phase::Sent, interactive },
                    Failure::new(message),
                )
            }
        },
        (Phase::Parsing(body), Event::Unparsable(failure)) => {
            let failure = failure.context(
                "parse OpenRouter success body: ".to_owned().concat(body.as_str()),
            );
            failed(Chat { cfg, tools, history, phase: Phase::Parsing(body), interactive }, failure)
        },
        (Phase::Parsing(body), Event::Parsed(response)) => {
            let ghost choices = response@;
            let mut offered = response.choices;
            assert(choices.len() == offered@.len());
            let chat = Chat { cfg, tools, history, phase: Phase::Parsing(body), interactive };
            if offered.len() == 0 {
                failed(chat, Failure::new("OpenRouter response had no choices".to_owned()))
            } else {
                let choice = offered.remove(0);
                assert(choices[0] == choice.message@);
                replied(chat, choice.message)
            }
        },
        (Phase::Calling { calls, next }, Event::ToolDone(outcome)) => {
            let (answer, is_error) = judge_outcome(outcome);
            let mut effects = no_effects();
            push_end(&mut effects, &calls[next], answer.as_str(), is_error);
            let ghost call = calls@[next as int]@;
            assert(step::effect_views(effects@) =~= end_effects(call, answer@, is_error));
            let mut history = history;
            push_message(
                &mut history,
                tool_message(calls[next].id.as_str(), answer.as_str()),
            );
            let ghost views = reply::call_views(calls@);
            let chat = Chat { cfg, tools, history, phase: Phase::Over, interactive };
            proof {
                assert(views[next as int] == call);
                lemma_advance_forgets_phase(
                    chat@,
                    answered(start, call, answer@),
                    views,
                    next + 1,
                );
            }
            assert(next < calls.len());
            advance(chat, calls, next + 1, effects)
        },
        (phase, _) => {
            Turn {
                chat: Chat { cfg, tools, history, phase, interactive },
                effects: no_effects(),
                next: Next::Done,
            }
        },
    }
}

/// How calls are made does not depend on what the chat waited for.
proof fn lemma_advance_forgets_phase(
    one: ChatView,
    other: ChatView,
    calls: Seq<CallView>,
    next: int,
)
    requires
        one == other.at(one.phase),
        0 <= next,
    ensures
        advance_view(one, calls, next) == advance_view(other, calls, next),
    decreases calls.len() - next,
{
    if next < calls.len() {
        let call = calls[next];
        match reply::arguments_view(call.arguments) {
            Err(e) => {
                lemma_advance_forgets_phase(
                    answered(one, call, refusal(e)),
                    answered(other, call, refusal(e)),
                    calls,
                    next + 1,
                );
            },
            Ok(_) => {},
        }
    }
}

fn no_effects() -> (effects: Vec<Effect>)
    ensures
        step::effect_views(effects@) == Seq::<EffectView>::empty(),
{
    let effects: Vec<Effect> = Vec::new();
    assert(step::effect_views(effects@) =~= Seq::empty());
    effects
}

fn in_phase(chat: Chat, phase: Phase) -> (moved: Chat)
    ensures
        moved@ == chat@.at(phase@),
{
    Chat {
        cfg: chat.cfg,
        tools: chat.tools,
        history: chat.history,
        phase,
        interactive: chat.interactive,
    }
}

fn prompting(chat: Chat, effects: Vec<Effect>) -> (next: (Chat, Step))
    ensures
        (next.0@, next.1@) == prompting_view(chat@, step::effect_views(effects@)),
{
    let mut shown = effects;
    push_effect(&mut shown, Effect::Blank);
    push_effect(&mut shown, Effect::Pad(4));
    assert(step::effect_views(shown@) =~= step::effect_views(effects@) + prompt_effects());
    (in_phase(chat, Phase::Reading), Step { effects: shown, action: Action::ReadLine })
}

fn ending(chat: Chat, effects: Vec<Effect>) -> (next: (Chat, Step))
    ensures
        (next.0@, next.1@) == ending_view(chat@, step::effect_views(effects@)),
{
    let mut shown = effects;
    push_effect(&mut shown, Effect::Log(session_end_event()));
    (in_phase(chat, Phase::Over), Step { effects: shown, action: Action::Exit(Ok(())) })
}

/// Goes on after a piece of a turn.
pub fn settle(turn: Turn) -> (next: (Chat, Step))
    ensures
        (next.0@, next.1@) == settled_view(turn@),
{
    let Turn { chat, effects, next } = turn;
    match next {
        Next::Act(action) => (chat, Step { effects, action }),
        Next::Done => if chat.interactive {
            prompting(chat, effects)
        } else {
            ending(chat, effects)
        },
        Next::Failed(failure) => {
            let mut shown = effects;
            let message = failure.message();
            let logged = error_event(message.as_str());
            push_effect(&mut shown, Effect::Complain(message));
            push_effect(&mut shown, Effect::Log(logged));
            assert(step::effect_views(shown@) =~= step::effect_views(effects@) + failure_effects(
                failure@,
            ));
            if chat.interactive {
                prompting(chat, shown)
            } else {
                (
                    in_phase(chat, Phase::Over),
                    Step { effects: shown, action: Action::Exit(Err(failure)) },
                )
            }
        },
    }
}

fn told(chat: Chat, line: String, effects: Vec<Effect>) -> (next: (Chat, Step))
    ensures
        (next.0@, next.1@) == told_view(chat@, line@, step::effect_views(effects@)),
{
    let mut here = in_phase(chat, Phase::Sent);
    let mut shown = effects;
    push_message(&mut here.history, user_message(line.as_str()));
    push_effect(&mut shown, Effect::Log(user_event(line.as_str())));
    let action = post(&here);
    (here, Step { effects: shown, action })
}

/// Tells a chat what happened. Back come the chat and what it wants: what is to
/// be shown and logged, and what is to be done next.
pub fn resume(chat: Chat, event: Event) -> (next: (Chat, Step))
    requires
        chat@.wf(),
        accepts(chat@.phase, event@),
    ensures
        (next.0@, next.1@) == resume_view(chat@, event@),
        next.0@.wf(),
{
    match event {
        Event::Line(line) => {
            let trimmed = trim(line.as_str());
            if trimmed.as_str().is_empty() {
                prompting(chat, no_effects())
            } else if same_text(trimmed.as_str(), "/exit") || same_text(trimmed.as_str(), "/quit") {
                ending(chat, no_effects())
            } else {
                let mut effects = no_effects();
                push_effect(&mut effects, Effect::Remember(trimmed.clone()));
                push_effect(&mut effects, Effect::Blank);
                assert(step::effect_views(effects@) =~= seq![
                    EffectView::Remember(trimmed@),
                    EffectView::Blank,
                ]);
                told(chat, trimmed, effects)
            }
        },
        Event::EndOfInput => ending(chat, no_effects()),
        Event::InputFailed(failure) => (
            in_phase(chat, Phase::Over),
            Step { effects: no_effects(), action: Action::Exit(Err(failure)) },
        ),
        event => settle(handle_turn(chat, event)),
    }
}

/// The remark on the tools that there are.
pub fn tools_remark(tools: &Vec<McpTool>) -> (note: String)
    ensures
        note@ == tools_note(bridge::tool_views(tools@)),
{
    let mut names: Vec<String> = Vec::new();
    let mut i: usize = 0;
    while i < tools.len()
        invariant
            i <= tools@.len(),
            names@.len() == i,
            forall|k: int| 0 <= k < i ==> (#[trigger] names@[k])@ == tools@[k].name@,
        decreases tools@.len() - i,
    {
        names.push(tools[i].name.clone());
        i += 1;
    }
    assert(text::texts(names@) =~= tool_names(bridge::tool_views(tools@)));
    "Connected to MCP. ".to_owned().concat(to_decimal(tools.len() as u64).as_str()).concat(
        " tool(s) available: ",
    ).concat(join(&names, ", ").as_str())
}

fn start_of(cfg: &ChatConfig) -> (event: Json)
    ensures
        event@ == start_event(cfg@),
{
    let system_prompt = match &cfg.system_prompt {
        Some(prompt) => Some(prompt.as_str()),
        None => None,
    };
    session_start_event(cfg.model.as_str(), cfg.base_url.as_str(), system_prompt)
}

/// Starts an interactive chat.
pub fn run(cfg: ChatConfig, tools: &Vec<McpTool>) -> (next: (Chat, Step))
    ensures
        (next.0@, next.1@) == run_view(cfg@, bridge::tool_views(tools@)),
        next.0@.wf(),
{
    let mut effects = no_effects();
    push_effect(&mut effects, Effect::Note(tools_remark(tools)));
    push_effect(&mut effects, Effect::Log(start_of(&cfg)));
    assert(step::effect_views(effects@) =~= seq![
        EffectView::Note(tools_note(bridge::tool_views(tools@))),
        EffectView::Log(start_event(cfg@)),
    ]);
    let mut history: Vec<Json> = Vec::new();
    assert(json::views(history@) =~= Seq::empty());
    match &cfg.system_prompt {
        Some(prompt) => {
            push_message(&mut history, system_message(prompt.as_str()));
            assert(json::views(history@) =~= seq![message::system_message_view(prompt@)]);
        },
        None => {},
    }
    let tools = to_openai_tools(tools);
    prompting(Chat { cfg, tools, history, phase: Phase::Reading, interactive: true }, effects)
}

fn begins_with_system(history: &Vec<Json>) -> (yes: bool)
    ensures
        yes == has_system(json::views(history@)),
{
    if history.len() == 0 {
        return false;
    }
    assert(json::views(history@)[0] == history@[0]@);
    match history[0].get_str("role") {
        Some(role) => same_text(role, "system"),
        None => false,
    }
}

/// Starts a chat of one turn, on an earlier conversation.
pub fn run_oneshot(
    cfg: ChatConfig,
    tools: &Vec<McpTool>,
    prior_history: Vec<Json>,
    prompt: String,
) -> (next: (Chat, Step))
    ensures
        (next.0@, next.1@) == run_oneshot_view(
            cfg@,
            bridge::tool_views(tools@),
            json::views(prior_history@),
            prompt@,
        ),
        next.0@.wf(),
{
    let mut history = prior_history;
    match &cfg.system_prompt {
        Some(system) => {
            if !begins_with_system(&history) {
                history.insert(0, system_message(system.as_str()));
                assert(json::views(history@) =~= seq![message::system_message_view(system@)]
                    + json::views(prior_history@));
            }
        },
        None => {},
    }
    let mut effects = no_effects();
    push_effect(&mut effects, Effect::Log(start_of(&cfg)));
    assert(step::effect_views(effects@) =~= seq![EffectView::Log(start_event(cfg@))]);
    let tools = to_openai_tools(tools);
    told(
        Chat { cfg, tools, history, phase: Phase::Sent, interactive: false },
        prompt,
        effects,
    )
}

/// The value of a chat has all that the chat has.
pub proof fn law_chat_seen(chat: Chat, turn: Turn, asked: Step)
    ensures
        chat@.cfg == chat.cfg@,
        chat@.tools == json::views(chat.tools@),
        chat@.history == json::views(chat.history@),
        chat@.phase == chat.phase@,
        chat@.interactive == chat.interactive,
        turn@.chat == turn.chat@,
        turn@.effects == step::effect_views(turn.effects@),
        turn@.next == turn.next@,
        asked@.effects == step::effect_views(asked.effects@),
        asked@.action == asked.action@,
{
}

/// The value of what a chat waits for has all that it waits for, and so has
/// that of how a turn goes on.
pub proof fn law_phases_seen(
    body: String,
    calls: Vec<ToolCall>,
    next: usize,
    action: Action,
    failure: Failure,
)
    ensures
        Phase::Reading@ == PhaseView::Reading,
        Phase::Sent@ == PhaseView::Sent,
        Phase::Parsing(body)@ == PhaseView::Parsing(body@),
        (Phase::Calling { calls, next })@ == (PhaseView::Calling {
            calls: Seq::new(calls@.len(), |i: int| calls@[i]@),
            next: next as int,
        }),
        Phase::Over@ == PhaseView::Over,
        Next::Act(action)@ == NextView::Act(action@),
        Next::Done@ == NextView::Done,
        Next::Failed(failure)@ == NextView::Failed(failure@),
{
    assert(reply::call_views(calls@) =~= Seq::new(calls@.len(), |i: int| calls@[i]@));
}

} // verus!
