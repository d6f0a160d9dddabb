//! What a chat exchanges with the world around it: what happens, what is to be
//! shown and logged, and what is to be done next.

use vstd::prelude::*;

use crate::json;
use crate::json::{Json, JsonView};
use crate::reply::{ChatResponse, ReplyView};
use crate::text;
use crate::text::join;

verus! {

/// An error: what failed and then why, the outermost first.
pub struct Failure {
    pub chain: Vec<String>,
}

impl View for Failure {
    type V = Seq<Seq<char>>;

    open spec fn view(&self) -> Seq<Seq<char>> {
        text::texts(self.chain@)
    }
}

/// An error on one line.
pub open spec fn failure_message(chain: Seq<Seq<char>>) -> Seq<char> {
    text::joined(chain, ": "@)
}

impl Failure {
    /// An error without a deeper cause.
    pub fn new(what: String) -> (failure: Failure)
        ensures
            failure@ == seq![what@],
    {
        let mut chain: Vec<String> = Vec::new();
        chain.push(what);
        assert(text::texts(chain@) =~= seq![what@]);
        Failure { chain }
    }

    /// The error that `what` failed because of this one.
    pub fn context(self, what: String) -> (failure: Failure)
        ensures
            failure@ == seq![what@] + self@,
    {
        let mut chain: Vec<String> = Vec::new();
        chain.push(what);
        let mut i: usize = 0;
        while i < self.chain.len()
            invariant
                i <= self.chain@.len(),
                chain@ == seq![what] + self.chain@.take(i as int),
            decreases self.chain@.len() - i,
        {
            let cause = self.chain[i].clone();
            chain.push(cause);
            i += 1;
            assert(chain@ =~= seq![what] + self.chain@.take(i as int));
        }
        assert(text::texts(chain@) =~= seq![what@] + self@);
        Failure { chain }
    }

    /// The error on one line.
    pub fn message(&self) -> (s: String)
        ensures
            s@ == failure_message(self@),
    {
        join(&self.chain, ": ")
    }
}

/// What is to be shown or logged.
pub enum Effect {
    /// Append an event to the session log.
    Log(Json),
    /// Show that a tool is being called.
    ToolBegin { name: String, arguments: String },
    /// Show what the tool answered.
    ToolEnd { text: String, is_error: bool },
    /// Show what the model said.
    Say(String),
    /// Show an error.
    Complain(String),
    /// Show a remark.
    Note(String),
    /// Leave a line blank.
    Blank,
    /// Keep this many rows free below the cursor.
    Pad(usize),
    /// Remember a line for the editor's history.
    Remember(String),
}

/// The mathematical value of an `Effect`.
pub enum EffectView {
    Log(JsonView),
    ToolBegin { name: Seq<char>, arguments: Seq<char> },
    ToolEnd { text: Seq<char>, is_error: bool },
    Say(Seq<char>),
    Complain(Seq<char>),
    Note(Seq<char>),
    Blank,
    Pad(usize),
    Remember(Seq<char>),
}

impl View for Effect {
    type V = EffectView;

    open spec fn view(&self) -> EffectView {
        match self {
            Effect::Log(event) => EffectView::Log(event@),
            Effect::ToolBegin { name, arguments } => EffectView::ToolBegin {
                name: name@,
                arguments: arguments@,
            },
            Effect::ToolEnd { text, is_error } => EffectView::ToolEnd {
                text: text@,
                is_error: *is_error,
            },
            Effect::Say(s) => EffectView::Say(s@),
            Effect::Complain(s) => EffectView::Complain(s@),
            Effect::Note(s) => EffectView::Note(s@),
            Effect::Blank => EffectView::Blank,
            Effect::Pad(rows) => EffectView::Pad(*rows),
            Effect::Remember(s) => EffectView::Remember(s@),
        }
    }
}

/// Views of a list of effects.
pub open spec fn effect_views(effects: Seq<Effect>) -> Seq<EffectView> {
    effects.map_values(|effect: Effect| effect@)
}

/// Where something is shown.
#[derive(Clone, Copy, PartialEq, Eq, Structural)]
pub enum Stream {
    Output,
    Error,
}

/// Where an effect of a chat is shown, where it is shown at all. Standard
/// output is for the conversation of an interactive chat, and for nothing else.
pub open spec fn stream_view(effect: EffectView, interactive: bool) -> Option<Stream> {
    match effect {
        EffectView::Log(_) => None,
        EffectView::ToolBegin { .. } => Some(Stream::Error),
        EffectView::ToolEnd { .. } => Some(Stream::Error),
        EffectView::Say(_) => Some(
            if interactive {
                Stream::Output
            } else {
                Stream::Error
            },
        ),
        EffectView::Complain(_) => Some(Stream::Error),
        EffectView::Note(_) => Some(Stream::Error),
        EffectView::Blank => Some(Stream::Output),
        EffectView::Pad(_) => Some(Stream::Output),
        EffectView::Remember(_) => None,
    }
}

/// Where an effect of a chat is shown, where it is shown at all.
pub fn stream_of(effect: &Effect, interactive: bool) -> (stream: Option<Stream>)
    ensures
        stream == stream_view(effect@, interactive),
{
    match effect {
        Effect::Log(_) => None,
        Effect::ToolBegin { .. } => Some(Stream::Error),
        Effect::ToolEnd { .. } => Some(Stream::Error),
        Effect::Say(_) => if interactive {
            Some(Stream::Output)
        } else {
            Some(Stream::Error)
        },
        Effect::Complain(_) => Some(Stream::Error),
        Effect::Note(_) => Some(Stream::Error),
        Effect::Blank => Some(Stream::Output),
        Effect::Pad(_) => Some(Stream::Output),
        Effect::Remember(_) => None,
    }
}

/// What is to be done next.
pub enum Action {
    /// Read a line from the user.
    ReadLine,
    /// Post a request to the model.
    Post { url: String, api_key: String, body: Json },
    /// Read the body of a response as a reply of the model.
    Parse(String),
    /// Call a tool.
    CallTool { name: String, arguments: Option<Json> },
    /// Leave.
    Exit(Result<(), Failure>),
}

/// The mathematical value of an `Action`.
pub enum ActionView {
    ReadLine,
    Post { url: Seq<char>, api_key: Seq<char>, body: JsonView },
    Parse(Seq<char>),
    CallTool { name: Seq<char>, arguments: Option<JsonView> },
    Exit(Result<(), Seq<Seq<char>>>),
}

impl View for Action {
    type V = ActionView;

    open spec fn view(&self) -> ActionView {
        match self {
            Action::ReadLine => ActionView::ReadLine,
            Action::Post { url, api_key, body } => ActionView::Post {
                url: url@,
                api_key: api_key@,
                body: body@,
            },
            Action::Parse(body) => ActionView::Parse(body@),
            Action::CallTool { name, arguments } => ActionView::CallTool {
                name: name@,
                arguments: json::opt_view(*arguments),
            },
            Action::Exit(result) => ActionView::Exit(
                match result {
                    Ok(_) => Ok(()),
                    Err(failure) => Err(failure@),
                },
            ),
        }
    }
}

/// What a chat wants after something happened: effects in order, and then one
/// action.
pub struct Step {
    pub effects: Vec<Effect>,
    pub action: Action,
}

/// The mathematical value of a `Step`.
pub struct StepView {
    pub effects: Seq<EffectView>,
    pub action: ActionView,
}

impl View for Step {
    type V = StepView;

    open spec fn view(&self) -> StepView {
        StepView { effects: effect_views(self.effects@), action: self.action@ }
    }
}

/// How the call of a tool came out.
pub enum ToolOutcome {
    /// The tool answered. Without a text, the answer could not be written
    /// down.
    Replied { text: Option<String>, is_error: Option<bool> },
    /// The tool could not be reached.
    Failed(Failure),
}

/// The mathematical value of a `ToolOutcome`.
pub enum OutcomeView {
    Replied { text: Option<Seq<char>>, is_error: Option<bool> },
    Failed(Seq<Seq<char>>),
}

impl View for ToolOutcome {
    type V = OutcomeView;

    open spec fn view(&self) -> OutcomeView {
        match self {
            ToolOutcome::Replied { text, is_error } => OutcomeView::Replied {
                text: text::opt_string(*text),
                is_error: *is_error,
            },
            ToolOutcome::Failed(failure) => OutcomeView::Failed(failure@),
        }
    }
}

/// What happened.
pub enum Event {
    /// The user entered a line.
    Line(String),
    /// The user interrupted, or the input ended.
    EndOfInput,
    /// The input could not be read.
    InputFailed(Failure),
    /// The request could not be sent.
    SendFailed(Failure),
    /// The body of the response could not be read.
    ReadFailed(Failure),
    /// The response arrived.
    Reply { status: u16, body: String },
    /// The body of the response is a reply of the model.
    Parsed(ChatResponse),
    /// The body of the response is no reply of the model.
    Unparsable(Failure),
    /// The call of a tool came out.
    ToolDone(ToolOutcome),
}

/// The mathematical value of an `Event`.
pub enum EventView {
    Line(Seq<char>),
    EndOfInput,
    InputFailed(Seq<Seq<char>>),
    SendFailed(Seq<Seq<char>>),
    ReadFailed(Seq<Seq<char>>),
    Reply { status: u16, body: Seq<char> },
    Parsed(Seq<ReplyView>),
    Unparsable(Seq<Seq<char>>),
    ToolDone(OutcomeView),
}

impl View for Event {
    type V = EventView;

    open spec fn view(&self) -> EventView {
        match self {
            Event::Line(s) => EventView::Line(s@),
            Event::EndOfInput => EventView::EndOfInput,
            Event::InputFailed(failure) => EventView::InputFailed(failure@),
            Event::SendFailed(failure) => EventView::SendFailed(failure@),
            Event::ReadFailed(failure) => EventView::ReadFailed(failure@),
            Event::Reply { status, body } => EventView::Reply { status: *status, body: body@ },
            Event::Parsed(response) => EventView::Parsed(response@),
            Event::Unparsable(failure) => EventView::Unparsable(failure@),
            Event::ToolDone(outcome) => EventView::ToolDone(outcome@),
        }
    }
}

/// An error reads as what failed, a colon, and why it did, cause by cause.
pub proof fn law_failure_message(what: Seq<char>, why: Seq<Seq<char>>)
    ensures
        failure_message(seq![what]) == what,
        why.len() > 0 ==> failure_message(seq![what] + why) == what + ": "@ + failure_message(why),
{
    text::law_join(what, why, ": "@);
}

/// What the model says is shown on standard output in an interactive chat and
/// on standard error in another. Remarks, errors and calls are shown on
/// standard error; what only moves the cursor, on standard output. The log and
/// the editor's history are shown nowhere.
pub proof fn law_streams(
    effect: EffectView,
    interactive: bool,
)
    ensures
        effect is Say ==> stream_view(effect, true) == Some(Stream::Output),
        effect is Say ==> stream_view(effect, false) == Some(Stream::Error),
        effect is Complain || effect is Note || effect is ToolBegin || effect is ToolEnd
            ==> stream_view(effect, interactive) == Some(Stream::Error),
        effect is Blank || effect is Pad ==> stream_view(effect, interactive) == Some(
            Stream::Output,
        ),
        effect is Log || effect is Remember ==> stream_view(effect, interactive) is None,
{
}

/// The value of an effect has all that the effect has.
pub proof fn law_effects_seen(
    effects: Seq<Effect>,
    event: Json,
    s: String,
    t: String,
    b: bool,
    rows: usize,
)
    ensures
        Effect::Log(event)@ == EffectView::Log(event@),
        (Effect::ToolBegin { name: s, arguments: t })@ == (EffectView::ToolBegin {
            name: s@,
            arguments: t@,
        }),
        (Effect::ToolEnd { text: s, is_error: b })@ == (EffectView::ToolEnd {
            text: s@,
            is_error: b,
        }),
        Effect::Say(s)@ == EffectView::Say(s@),
        Effect::Complain(s)@ == EffectView::Complain(s@),
        Effect::Note(s)@ == EffectView::Note(s@),
        Effect::Blank@ == EffectView::Blank,
        Effect::Pad(rows)@ == EffectView::Pad(rows),
        Effect::Remember(s)@ == EffectView::Remember(s@),
        effect_views(effects).len() == effects.len(),
        forall|i: int| 0 <= i < effects.len() ==> #[trigger] effect_views(effects)[i] == effects[i]@,
{
}

/// The value of an action has all that the action has.
pub proof fn law_actions_seen(s: String, t: String, body: Json, arguments: Json, failure: Failure)
    ensures
        Action::ReadLine@ == ActionView::ReadLine,
        (Action::Post { url: s, api_key: t, body })@ == (ActionView::Post {
            url: s@,
            api_key: t@,
            body: body@,
        }),
        Action::Parse(s)@ == ActionView::Parse(s@),
        (Action::CallTool { name: s, arguments: Some(arguments) })@ == (ActionView::CallTool {
            name: s@,
            arguments: Some(arguments@),
        }),
        (Action::CallTool { name: s, arguments: None })@ == (ActionView::CallTool {
            name: s@,
            arguments: None,
        }),
        Action::Exit(Ok(()))@ == ActionView::Exit(Ok(())),
        Action::Exit(Err(failure))@ == ActionView::Exit(Err(text::texts(failure.chain@))),
{
}

/// The value of what happened has all that happened.
pub proof fn law_events_seen(
    s: String,
    status: u16,
    failure: Failure,
    response: ChatResponse,
    said: Option<bool>,
)
    ensures
        Event::Line(s)@ == EventView::Line(s@),
        Event::EndOfInput@ == EventView::EndOfInput,
        Event::InputFailed(failure)@ == EventView::InputFailed(failure@),
        Event::SendFailed(failure)@ == EventView::SendFailed(failure@),
        Event::ReadFailed(failure)@ == EventView::ReadFailed(failure@),
        (Event::Reply { status, body: s })@ == (EventView::Reply { status, body: s@ }),
        Event::Parsed(response)@ == EventView::Parsed(response@),
        Event::Unparsable(failure)@ == EventView::Unparsable(failure@),
        Event::ToolDone(ToolOutcome::Replied { text: Some(s), is_error: said })@
            == EventView::ToolDone(OutcomeView::Replied { text: Some(s@), is_error: said }),
        Event::ToolDone(ToolOutcome::Replied { text: None, is_error: said })@
            == EventView::ToolDone(OutcomeView::Replied { text: None, is_error: said }),
        Event::ToolDone(ToolOutcome::Failed(failure))@ == EventView::ToolDone(
            OutcomeView::Failed(text::texts(failure.chain@)),
        ),
{
}

} // verus!
