//! Replaying a session log: what is shown of each line, without a model and
//! without a server.

use vstd::prelude::*;

use crate::history;
use crate::json;
use crate::json::{Json, JsonView};
use crate::json_text;
use crate::json_text::parse_json;
use crate::recall;
use crate::session;
use crate::sessionlog;
use crate::text;
use crate::text::{chars_of, same_text, to_decimal, trim};
use crate::ui;
use crate::ui::{pad_screen_bottom, paint, Emphasis, Hue};
use crate::words;

verus! {

/// Something that is shown.
pub enum Scene {
    /// A remark.
    Info(String),
    /// An error.
    Complain(String),
    /// What the user said, typed character by character.
    Type(String),
    /// What the model said.
    Say(String),
    /// The call of a tool and what came of it.
    Tool { name: String, arguments: String, text: String, is_error: bool },
}

/// The mathematical value of a `Scene`.
pub enum SceneView {
    Info(Seq<char>),
    Complain(Seq<char>),
    Type(Seq<char>),
    Say(Seq<char>),
    Tool { name: Seq<char>, arguments: Seq<char>, text: Seq<char>, is_error: bool },
}

impl View for Scene {
    type V = SceneView;

    open spec fn view(&self) -> SceneView {
        match self {
            Scene::Info(s) => SceneView::Info(s@),
            Scene::Complain(s) => SceneView::Complain(s@),
            Scene::Type(s) => SceneView::Type(s@),
            Scene::Say(s) => SceneView::Say(s@),
            Scene::Tool { name, arguments, text, is_error } => SceneView::Tool {
                name: name@,
                arguments: arguments@,
                text: text@,
                is_error: *is_error,
            },
        }
    }
}

/// Views of a list of scenes.
pub open spec fn scene_views(scenes: Seq<Scene>) -> Seq<SceneView> {
    scenes.map_values(|scene: Scene| scene@)
}

/// What becomes of a line: what is shown, whether a pause follows, and whether
/// the replay is over.
pub struct Showing {
    pub scenes: Vec<Scene>,
    pub pause: bool,
    pub over: bool,
}

/// The mathematical value of a `Showing`.
pub struct ShowingView {
    pub scenes: Seq<SceneView>,
    pub pause: bool,
    pub over: bool,
}

impl View for Showing {
    type V = ShowingView;

    open spec fn view(&self) -> ShowingView {
        ShowingView { scenes: scene_views(self.scenes@), pause: self.pause, over: self.over }
    }
}

/// A call whose result is still to come.
struct PendingCall {
    id: String,
    name: String,
    arguments: String,
}

/// A replay: the calls whose results are still to come.
pub struct Replay {
    pending: Vec<PendingCall>,
}

/// The calls by their ids: of two with one id the later counts.
spec fn pending_view(pending: Seq<PendingCall>) -> Map<Seq<char>, (Seq<char>, Seq<char>)>
    decreases pending.len(),
{
    if pending.len() == 0 {
        Map::empty()
    } else {
        let last = pending.last();
        pending_view(pending.drop_last()).insert(last.id@, (last.name@, last.arguments@))
    }
}

impl View for Replay {
    type V = Map<Seq<char>, (Seq<char>, Seq<char>)>;

    closed spec fn view(&self) -> Map<Seq<char>, (Seq<char>, Seq<char>)> {
        pending_view(self.pending@)
    }
}

/// The text of a member, or another one where there is none.
pub open spec fn text_or(event: JsonView, key: Seq<char>, other: Seq<char>) -> Seq<char> {
    match json::text_member(event, key) {
        Some(s) => s,
        None => other,
    }
}

/// What is shown of a system prompt, where there is one.
pub open spec fn prompt_scenes(prompt: Option<Seq<char>>) -> Seq<SceneView> {
    match prompt {
        Some(prompt) => if prompt.len() > 0 {
            seq![SceneView::Info("[replay] system prompt: "@ + prompt)]
        } else {
            Seq::empty()
        },
        None => Seq::empty(),
    }
}

/// What is shown of what the model said, where it said something.
pub open spec fn said_scenes(content: Option<Seq<char>>) -> Seq<SceneView> {
    match content {
        Some(content) => if content.len() > 0 {
            seq![SceneView::Say(content)]
        } else {
            Seq::empty()
        },
        None => Seq::empty(),
    }
}

/// What is shown of a logged error.
pub open spec fn error_scenes(message: Option<Seq<char>>) -> Seq<SceneView> {
    match message {
        Some(message) => seq![SceneView::Complain(message)],
        None => Seq::empty(),
    }
}

/// What is shown of a result, given the call that it belongs to.
pub open spec fn result_scene(
    call: Option<(Seq<char>, Seq<char>)>,
    id: Seq<char>,
    content: Seq<char>,
    is_error: bool,
) -> SceneView {
    match call {
        Some((name, arguments)) => SceneView::Tool { name, arguments, text: content, is_error },
        None => SceneView::Complain("orphan tool_result for id="@ + id),
    }
}

/// The call with this id.
pub open spec fn call_of(
    pending: Map<Seq<char>, (Seq<char>, Seq<char>)>,
    id: Seq<char>,
) -> Option<(Seq<char>, Seq<char>)> {
    if pending.contains_key(id) {
        Some(pending[id])
    } else {
        None
    }
}

/// A showing with a pause behind it.
pub open spec fn shown(scenes: Seq<SceneView>) -> ShowingView {
    ShowingView { scenes, pause: true, over: false }
}

/// The id of the result that an event is.
pub open spec fn result_id(event: JsonView) -> Seq<char> {
    text_or(event, "tool_call_id"@, ""@)
}

/// What is shown of an event.
pub open spec fn event_showing(
    pending: Map<Seq<char>, (Seq<char>, Seq<char>)>,
    event: JsonView,
) -> ShowingView {
    let kind = history::event_kind(event);
    if kind == "session_start"@ {
        let heading = "[replay] model="@ + text_or(event, "model"@, "?"@) + ", base="@ + text_or(
            event,
            "base_url"@,
            "?"@,
        );
        shown(
            seq![SceneView::Info(heading)] + prompt_scenes(
                json::text_member(event, "system_prompt"@),
            ),
        )
    } else if kind == "user"@ {
        shown(seq![SceneView::Type(text_or(event, "content"@, ""@))])
    } else if kind == "assistant"@ {
        shown(said_scenes(json::text_member(event, "content"@)))
    } else if kind == "tool_call"@ {
        shown(Seq::empty())
    } else if kind == "tool_result"@ {
        let call = call_of(pending, result_id(event));
        let scene = result_scene(
            call,
            result_id(event),
            text_or(event, "content"@, ""@),
            json::bool_member(event, "is_error"@) == Some(true),
        );
        ShowingView { scenes: seq![scene], pause: call is None, over: false }
    } else if kind == "error"@ {
        shown(error_scenes(json::text_member(event, "message"@)))
    } else if kind == "session_end"@ {
        ShowingView {
            scenes: seq![SceneView::Info("[replay] session ended"@)],
            pause: false,
            over: true,
        }
    } else {
        shown(seq![SceneView::Complain("unknown event type: "@ + kind)])
    }
}

/// The calls whose results are still to come after an event.
pub open spec fn event_pending(
    pending: Map<Seq<char>, (Seq<char>, Seq<char>)>,
    event: JsonView,
) -> Map<Seq<char>, (Seq<char>, Seq<char>)> {
    let kind = history::event_kind(event);
    if kind == "tool_call"@ {
        pending.insert(
            text_or(event, "id"@, ""@),
            (text_or(event, "name"@, ""@), text_or(event, "arguments"@, ""@)),
        )
    } else if kind == "tool_result"@ {
        pending.remove(result_id(event))
    } else {
        pending
    }
}

/// Nothing shown, and no pause.
pub open spec fn nothing() -> ShowingView {
    ShowingView { scenes: Seq::empty(), pause: false, over: false }
}

/// What is shown of the line with this number that was read with this outcome.
pub open spec fn outcome_showing(
    pending: Map<Seq<char>, (Seq<char>, Seq<char>)>,
    outcome: Result<JsonView, Seq<char>>,
    number: nat,
) -> ShowingView {
    match outcome {
        Ok(event) => event_showing(pending, event),
        Err(e) => ShowingView {
            scenes: seq![
                SceneView::Complain("skip malformed line "@ + text::decimal(number) + ": "@ + e),
            ],
            pause: false,
            over: false,
        },
    }
}

/// The calls whose results are still to come after a line that was read with
/// this outcome.
pub open spec fn outcome_pending(
    pending: Map<Seq<char>, (Seq<char>, Seq<char>)>,
    outcome: Result<JsonView, Seq<char>>,
) -> Map<Seq<char>, (Seq<char>, Seq<char>)> {
    match outcome {
        Ok(event) => event_pending(pending, event),
        Err(_) => pending,
    }
}

/// What is shown of the line with this number.
pub open spec fn line_showing(
    pending: Map<Seq<char>, (Seq<char>, Seq<char>)>,
    line: Seq<char>,
    number: nat,
) -> ShowingView {
    if history::blank(line) {
        nothing()
    } else {
        outcome_showing(pending, json_text::parsed(line), number)
    }
}

/// The calls whose results are still to come after a line.
pub open spec fn line_pending(
    pending: Map<Seq<char>, (Seq<char>, Seq<char>)>,
    line: Seq<char>,
) -> Map<Seq<char>, (Seq<char>, Seq<char>)> {
    if history::blank(line) {
        pending
    } else {
        outcome_pending(pending, json_text::parsed(line))
    }
}

fn member_or(event: &Json, key: &str, other: &str) -> (s: String)
    ensures
        s@ == text_or(event@, key@, other@),
{
    match event.get_str(key) {
        Some(s) => s.to_owned(),
        None => other.to_owned(),
    }
}

fn one(scene: Scene) -> (scenes: Vec<Scene>)
    ensures
        scene_views(scenes@) == seq![scene@],
{
    let mut scenes: Vec<Scene> = Vec::new();
    scenes.push(scene);
    assert(scene_views(scenes@) =~= seq![scene@]);
    scenes
}

fn no_scenes() -> (scenes: Vec<Scene>)
    ensures
        scene_views(scenes@) == Seq::<SceneView>::empty(),
{
    let scenes: Vec<Scene> = Vec::new();
    assert(scene_views(scenes@) =~= Seq::empty());
    scenes
}

fn paused(scenes: Vec<Scene>) -> (showing: Showing)
    ensures
        showing@ == shown(scene_views(scenes@)),
{
    Showing { scenes, pause: true, over: false }
}

fn kind_of(event: &Json) -> (kind: String)
    ensures
        kind@ == history::event_kind(event@),
{
    match event.get_str("event") {
        Some(kind) => kind.to_owned(),
        None => String::new(),
    }
}

fn show_start(event: &Json) -> (scenes: Vec<Scene>)
    ensures
        scene_views(scenes@) == seq![
            SceneView::Info(
                "[replay] model="@ + text_or(event@, "model"@, "?"@) + ", base="@ + text_or(
                    event@,
                    "base_url"@,
                    "?"@,
                ),
            ),
        ] + prompt_scenes(json::text_member(event@, "system_prompt"@)),
{
    let model = member_or(event, "model", "?");
    let base = member_or(event, "base_url", "?");
    let heading = "[replay] model=".to_owned().concat(model.as_str()).concat(", base=").concat(
        base.as_str(),
    );
    let mut scenes = one(Scene::Info(heading));
    let ghost first = scene_views(scenes@);
    match event.get_str("system_prompt") {
        Some(prompt) => {
            if !prompt.is_empty() {
                let remark = "[replay] system prompt: ".to_owned().concat(prompt);
                scenes.push(Scene::Info(remark));
                assert(scene_views(scenes@) =~= first + prompt_scenes(Some(prompt@)));
            } else {
                assert(scene_views(scenes@) =~= first + Seq::empty());
            }
        },
        None => {
            assert(scene_views(scenes@) =~= first + Seq::empty());
        },
    }
    scenes
}

impl Replay {
    /// A replay at its start.
    pub fn new() -> (replay: Replay)
        ensures
            replay@ == Map::<Seq<char>, (Seq<char>, Seq<char>)>::empty(),
    {
        Replay { pending: Vec::new() }
    }

    /// Forgets the call with an id.
    fn forget(&mut self, id: &str)
        ensures
            final(self)@ == old(self)@.remove(id@),
    {
        let mut kept: Vec<PendingCall> = Vec::new();
        let mut i: usize = 0;
        let ghost all = self.pending@;
        assert(pending_view(kept@) =~= pending_view(all.take(0)).remove(id@));
        while i < self.pending.len()
            invariant
                i <= self.pending@.len(),
                all == self.pending@,
                pending_view(kept@) == pending_view(all.take(i as int)).remove(id@),
            decreases self.pending@.len() - i,
        {
            let call = &self.pending[i];
            assert(all.take(i + 1).drop_last() =~= all.take(i as int));
            let ghost before = pending_view(all.take(i as int));
            let ghost entry = (call.name@, call.arguments@);
            if !same_text(call.id.as_str(), id) {
                let ghost so_far = kept@;
                kept.push(
                    PendingCall {
                        id: call.id.clone(),
                        name: call.name.clone(),
                        arguments: call.arguments.clone(),
                    },
                );
                assert(kept@.drop_last() =~= so_far);
                assert(before.remove(id@).insert(call.id@, entry) =~= before.insert(
                    call.id@,
                    entry,
                ).remove(id@));
            } else {
                assert(before.remove(id@) =~= before.insert(call.id@, entry).remove(id@));
            }
            i += 1;
        }
        assert(all.take(all.len() as int) =~= all);
        self.pending = kept;
    }

    /// Keeps a call until its result comes.
    fn keep(&mut self, id: String, name: String, arguments: String)
        ensures
            final(self)@ == old(self)@.insert(id@, (name@, arguments@)),
    {
        let ghost before = self@;
        self.forget(id.as_str());
        let ghost rest = self.pending@;
        self.pending.push(PendingCall { id, name, arguments });
        assert(self.pending@.drop_last() =~= rest);
        assert(self@ =~= before.insert(id@, (name@, arguments@)));
    }

    /// The name and the arguments of the call with an id.
    fn find(&self, id: &str) -> (call: Option<(String, String)>)
        ensures
            call_of(self@, id@) == (match call {
                Some((name, arguments)) => Some((name@, arguments@)),
                None => None,
            }),
    {
        let mut i: usize = self.pending.len();
        let ghost all = self.pending@;
        assert(all.take(i as int) =~= all);
        while 0 < i
            invariant
                i <= self.pending@.len(),
                all == self.pending@,
                call_of(self@, id@) == call_of(pending_view(all.take(i as int)), id@),
            decreases i,
        {
            assert(all.take(i as int).drop_last() =~= all.take(i - 1));
            let call = &self.pending[i - 1];
            if same_text(call.id.as_str(), id) {
                return Some((call.name.clone(), call.arguments.clone()));
            }
            i -= 1;
        }
        None
    }

    /// Shows an event.
    pub fn show_event(&mut self, event: &Json) -> (showing: Showing)
        ensures
            showing@ == event_showing(old(self)@, event@),
            final(self)@ == event_pending(old(self)@, event@),
    {
        let kind_text = kind_of(event);
        let kind = kind_text.as_str();
        proof {
            lemma_call_kinds();
        }
        if same_text(kind, "session_start") {
            paused(show_start(event))
        } else if same_text(kind, "user") {
            paused(one(Scene::Type(member_or(event, "content", ""))))
        } else if same_text(kind, "assistant") {
            match event.get_str("content") {
                Some(content) => {
                    if content.is_empty() {
                        paused(no_scenes())
                    } else {
                        paused(one(Scene::Say(content.to_owned())))
                    }
                },
                None => paused(no_scenes()),
            }
        } else if same_text(kind, "tool_call") {
            self.keep(
                member_or(event, "id", ""),
                member_or(event, "name", ""),
                member_or(event, "arguments", ""),
            );
            paused(no_scenes())
        } else if same_text(kind, "tool_result") {
            let id = member_or(event, "tool_call_id", "");
            let content = member_or(event, "content", "");
            let is_error = match event.get_bool("is_error") {
                Some(is_error) => is_error,
                None => false,
            };
            let call = self.find(id.as_str());
            self.forget(id.as_str());
            match call {
                Some((name, arguments)) => {
                    let scene = Scene::Tool { name, arguments, text: content, is_error };
                    Showing { scenes: one(scene), pause: false, over: false }
                },
                None => {
                    let message = "orphan tool_result for id=".to_owned().concat(id.as_str());
                    paused(one(Scene::Complain(message)))
                },
            }
        } else if same_text(kind, "error") {
            match event.get_str("message") {
                Some(message) => paused(one(Scene::Complain(message.to_owned()))),
                None => paused(no_scenes()),
            }
        } else if same_text(kind, "session_end") {
            Showing {
                scenes: one(Scene::Info("[replay] session ended".to_owned())),
                pause: false,
                over: true,
            }
        } else {
            paused(one(Scene::Complain("unknown event type: ".to_owned().concat(kind))))
        }
    }

    /// Shows the line with this number by the outcome of reading it.
    pub fn show_outcome(&mut self, outcome: &Result<Json, String>, number: u64) -> (showing:
        Showing)
        ensures
            showing@ == outcome_showing(
                old(self)@,
                json_text::outcome_view(*outcome),
                number as nat,
            ),
            final(self)@ == outcome_pending(old(self)@, json_text::outcome_view(*outcome)),
    {
        match outcome {
            Ok(event) => self.show_event(event),
            Err(e) => {
                let message = "skip malformed line ".to_owned().concat(
                    to_decimal(number).as_str(),
                ).concat(": ").concat(e.as_str());
                Showing { scenes: one(Scene::Complain(message)), pause: false, over: false }
            },
        }
    }

    /// Shows the line with this number.
    pub fn show_line(&mut self, line: &str, number: u64) -> (showing: Showing)
        ensures
            showing@ == line_showing(old(self)@, line@, number as nat),
            final(self)@ == line_pending(old(self)@, line@),
    {
        if trim(line).as_str().is_empty() {
            Showing { scenes: no_scenes(), pause: false, over: false }
        } else {
            self.show_outcome(&parse_json(line), number)
        }
    }
}

/// The remark that a replay begins with.
pub fn opening_note(path: &str, type_ms: u64, tool_ms: u64, gap_ms: u64) -> (note: String)
    ensures
        note@ == "Replaying session from "@ + path@ + " (type="@ + text::decimal(type_ms as nat)
            + "ms/char, tool="@ + text::decimal(tool_ms as nat) + "ms, gap="@ + text::decimal(
            gap_ms as nat,
        ) + "ms)"@,
{
    "Replaying session from ".to_owned().concat(path).concat(" (type=").concat(
        to_decimal(type_ms).as_str(),
    ).concat("ms/char, tool=").concat(to_decimal(tool_ms).as_str()).concat("ms, gap=").concat(
        to_decimal(gap_ms).as_str(),
    ).concat("ms)")
}

/// A message of the user as it is typed: what stands before it, the keys, and
/// what stands behind it.
pub struct Typing {
    pub opening: String,
    pub keys: Vec<String>,
    pub closing: String,
}

/// The keys of a message, each in white.
pub open spec fn keys_view(s: Seq<char>) -> Seq<Seq<char>> {
    s.map_values(|c: char| ui::painted(Hue::White, Emphasis::Plain, seq![c]))
}

/// Types a message, behind a prompt on a line of its own.
pub fn type_user_message(s: &str) -> (typing: Typing)
    ensures
        typing.opening@ == "\n"@ + ui::padding(4) + ui::painted(Hue::White, Emphasis::Bold, ">"@)
            + " "@,
        text::texts(typing.keys@) == keys_view(s@),
        typing.closing@ == "\n\n"@,
{
    let opening = "\n".to_owned().concat(pad_screen_bottom(4).as_str()).concat(
        paint(Hue::White, Emphasis::Bold, ">").as_str(),
    ).concat(" ");
    let chars = chars_of(s);
    let mut keys: Vec<String> = Vec::new();
    let mut i: usize = 0;
    while i < chars.len()
        invariant
            i <= chars@.len(),
            keys@.len() == i,
            forall|k: int|
                0 <= k < i ==> (#[trigger] keys@[k])@ == ui::painted(
                    Hue::White,
                    Emphasis::Plain,
                    seq![chars@[k]],
                ),
        decreases chars@.len() - i,
    {
        let mut key = String::new();
        key.push(chars[i]);
        assert(key@ =~= seq![chars@[i as int]]);
        keys.push(paint(Hue::White, Emphasis::Plain, key.as_str()));
        i += 1;
    }
    assert(text::texts(keys@) =~= keys_view(s@));
    Typing { opening, keys, closing: "\n\n".to_owned() }
}

/// The kinds of calls and results are told apart from those that a replay
/// looks at before them, and their keys from each other.
pub proof fn lemma_call_kinds()
    ensures
        "tool_call"@ != "session_start"@,
        "tool_call"@ != "user"@,
        "tool_call"@ != "assistant"@,
        "tool_result"@ != "session_start"@,
        "tool_result"@ != "user"@,
        "tool_result"@ != "assistant"@,
        "tool_result"@ != "tool_call"@,
        "id"@ != "name"@,
        "id"@ != "arguments"@,
        "name"@ != "arguments"@,
{
    reveal_strlit("tool_call");
    reveal_strlit("tool_result");
    reveal_strlit("session_start");
    reveal_strlit("user");
    reveal_strlit("assistant");
    reveal_strlit("id");
    reveal_strlit("name");
    reveal_strlit("arguments");
    assert("tool_call"@.len() == 9 && "tool_result"@.len() == 11 && "session_start"@.len() == 13);
    assert("user"@.len() == 4 && "assistant"@.len() == 9);
    assert("tool_call"@[0] == 't' && "assistant"@[0] == 'a');
    assert("id"@.len() == 2 && "name"@.len() == 4 && "arguments"@.len() == 9);
}

/// A call is shown when its result comes, with that result and no pause behind
/// it, whatever other calls are pending. It is shown once: a second result
/// under the same id is an orphan.
pub proof fn law_call_shown_with_its_result(
    pending: Map<Seq<char>, (Seq<char>, Seq<char>)>,
    id: Seq<char>,
    name: Seq<char>,
    arguments: Seq<char>,
    content: Seq<char>,
    is_error: bool,
)
    ensures
        ({
            let call = sessionlog::tool_call_view(id, name, arguments);
            let result = sessionlog::tool_result_view(id, content, is_error);
            let during = event_pending(pending, call);
            let after = event_pending(during, result);
            &&& event_showing(pending, call) == shown(Seq::empty())
            &&& event_showing(during, result) == (ShowingView {
                scenes: seq![SceneView::Tool { name, arguments, text: content, is_error }],
                pause: false,
                over: false,
            })
            &&& after == pending.remove(id)
            &&& event_showing(after, result) == shown(
                seq![SceneView::Complain("orphan tool_result for id="@ + id)],
            )
        }),
{
    lemma_call_kinds();
    session::lemma_keys();
    let call = sessionlog::tool_call_view(id, name, arguments);
    let result = sessionlog::tool_result_view(id, content, is_error);
    let during = event_pending(pending, call);
    assert(history::event_kind(call) == "tool_call"@);
    assert(history::event_kind(result) == "tool_result"@);
    assert(event_pending(during, result) =~= pending.remove(id));
}

/// The keys that a replay looks for are no time stamps.
proof fn lemma_stamp_hides_nothing(event: JsonView, ts: Seq<char>, key: Seq<char>)
    requires
        key != "ts"@,
    ensures
        json::member(sessionlog::stamped(event, ts), key) == json::member(event, key),
{
}

/// A recorded event is replayed as it was logged: the time at which it was
/// written, and that it went through a file, make no difference.
pub proof fn law_recorded_event_is_replayed(
    pending: Map<Seq<char>, (Seq<char>, Seq<char>)>,
    line: Seq<char>,
    event: JsonView,
    number: nat,
)
    requires
        sessionlog::records(line, event),
        recall::recordable(event),
    ensures
        line_showing(pending, line.drop_last(), number) == event_showing(pending, event),
        line_pending(pending, line.drop_last()) == event_pending(pending, event),
{
    recall::lemma_line_reads_back(line, event, number);
    let ts = choose|ts: Seq<char>|
        sessionlog::is_time(ts) && json_text::reads_as(
            line.drop_last(),
            #[trigger] sessionlog::stamped(event, ts),
        );
    reveal_strlit("ts");
    reveal_strlit("event");
    reveal_strlit("model");
    reveal_strlit("base_url");
    reveal_strlit("system_prompt");
    reveal_strlit("content");
    reveal_strlit("id");
    reveal_strlit("name");
    reveal_strlit("arguments");
    reveal_strlit("tool_call_id");
    reveal_strlit("is_error");
    reveal_strlit("message");
    assert("ts"@.len() == 2 && "ts"@[0] == 't' && "id"@[0] == 'i');
    assert("event"@.len() == 5 && "model"@.len() == 5 && "base_url"@.len() == 8);
    assert("system_prompt"@.len() == 13 && "content"@.len() == 7 && "name"@.len() == 4);
    assert("arguments"@.len() == 9 && "tool_call_id"@.len() == 12 && "is_error"@.len() == 8);
    assert("message"@.len() == 7);
    lemma_stamp_hides_nothing(event, ts, "event"@);
    lemma_stamp_hides_nothing(event, ts, "model"@);
    lemma_stamp_hides_nothing(event, ts, "base_url"@);
    lemma_stamp_hides_nothing(event, ts, "system_prompt"@);
    lemma_stamp_hides_nothing(event, ts, "content"@);
    lemma_stamp_hides_nothing(event, ts, "id"@);
    lemma_stamp_hides_nothing(event, ts, "name"@);
    lemma_stamp_hides_nothing(event, ts, "arguments"@);
    lemma_stamp_hides_nothing(event, ts, "tool_call_id"@);
    lemma_stamp_hides_nothing(event, ts, "is_error"@);
    lemma_stamp_hides_nothing(event, ts, "message"@);
}

/// Whether one scene is shown, with a pause behind it.
pub open spec fn shows_one(showing: ShowingView, scene: SceneView) -> bool {
    showing.scenes == seq![scene] && showing.pause && !showing.over
}

/// Whether nothing is shown, with a pause behind it.
pub open spec fn shows_none(showing: ShowingView) -> bool {
    showing.scenes.len() == 0 && showing.pause && !showing.over
}

/// What the user said is typed, and what the model said is shown, word for
/// word, whatever else was logged with it. A reply without a text shows
/// nothing. An error is shown with its message.
pub proof fn law_words_are_replayed(
    pending: Map<Seq<char>, (Seq<char>, Seq<char>)>,
    event: JsonView,
)
    ensures
        ({
            let kind = json::member(event, "event"@);
            let content = json::member(event, "content"@);
            let said = json::member(event, "message"@);
            let showing = event_showing(pending, event);
            &&& kind == Some(JsonView::Str("user"@)) ==> {
                &&& content matches Some(JsonView::Str(s)) ==> shows_one(
                    showing,
                    SceneView::Type(s),
                )
                &&& !(content matches Some(JsonView::Str(_))) ==> shows_one(
                    showing,
                    SceneView::Type(Seq::empty()),
                )
            }
            &&& kind == Some(JsonView::Str("assistant"@)) ==> {
                &&& content matches Some(JsonView::Str(s)) ==> (s.len() > 0 ==> shows_one(
                    showing,
                    SceneView::Say(s),
                ))
                &&& content matches Some(JsonView::Str(s)) ==> (s.len() == 0 ==> shows_none(
                    showing,
                ))
                &&& !(content matches Some(JsonView::Str(_))) ==> shows_none(showing)
            }
            &&& kind == Some(JsonView::Str("error"@)) ==> {
                &&& said matches Some(JsonView::Str(s)) ==> shows_one(
                    showing,
                    SceneView::Complain(s),
                )
                &&& !(said matches Some(JsonView::Str(_))) ==> shows_none(showing)
            }
        }),
{
    words::lemma_words();
    reveal_strlit("");
    assert(""@ =~= Seq::empty());
}

/// What was logged of a conversation is replayed word for word: what the user
/// said, what the model said where it said something, and errors.
pub proof fn law_conversation_is_replayed(
    pending: Map<Seq<char>, (Seq<char>, Seq<char>)>,
    content: Seq<char>,
    calls: JsonView,
)
    ensures
        shows_one(
            event_showing(pending, sessionlog::user_view(content)),
            SceneView::Type(content),
        ),
        content.len() > 0 ==> shows_one(
            event_showing(pending, sessionlog::assistant_view(Some(content), calls)),
            SceneView::Say(content),
        ),
        shows_none(event_showing(pending, sessionlog::assistant_view(None, calls))),
        shows_one(
            event_showing(pending, sessionlog::error_view(content)),
            SceneView::Complain(content),
        ),
{
    words::lemma_words();
    law_words_are_replayed(pending, sessionlog::user_view(content));
    law_words_are_replayed(pending, sessionlog::assistant_view(Some(content), calls));
    law_words_are_replayed(pending, sessionlog::assistant_view(None, calls));
    law_words_are_replayed(pending, sessionlog::error_view(content));
}

/// The start of a session is replayed with the model, the base URL and the
/// system prompt where there is one, and its end ends the replay.
pub proof fn law_start_and_end_are_replayed(
    pending: Map<Seq<char>, (Seq<char>, Seq<char>)>,
    model: Seq<char>,
    base_url: Seq<char>,
    prompt: Option<Seq<char>>,
)
    ensures
        ({
            let event = sessionlog::session_start_view(model, base_url, prompt);
            let showing = event_showing(pending, event);
            let heading = "[replay] model="@ + model + ", base="@ + base_url;
            &&& showing.pause && !showing.over
            &&& match prompt {
                Some(s) => if s.len() > 0 {
                    showing.scenes == seq![
                        SceneView::Info(heading),
                        SceneView::Info("[replay] system prompt: "@ + s),
                    ]
                } else {
                    showing.scenes == seq![SceneView::Info(heading)]
                },
                None => showing.scenes == seq![SceneView::Info(heading)],
            }
        }),
        ({
            let showing = event_showing(pending, sessionlog::session_end_view());
            &&& showing.scenes == seq![SceneView::Info("[replay] session ended"@)]
            &&& !showing.pause && showing.over
        }),
{
    words::lemma_words();
    let event = sessionlog::session_start_view(model, base_url, prompt);
    let heading = "[replay] model="@ + model + ", base="@ + base_url;
    assert(history::event_kind(event) == "session_start"@);
    match prompt {
        Some(s) => {
            if s.len() > 0 {
                assert(event_showing(pending, event).scenes =~= seq![
                    SceneView::Info(heading),
                    SceneView::Info("[replay] system prompt: "@ + s),
                ]);
            } else {
                assert(event_showing(pending, event).scenes =~= seq![SceneView::Info(heading)]);
            }
        },
        None => {
            assert(event_showing(pending, event).scenes =~= seq![SceneView::Info(heading)]);
        },
    }
}

/// Whether a text stands for a member of an event: it is the member, where that
/// is a text, and the other text where it is not.
pub open spec fn stands_for(
    s: Seq<char>,
    event: JsonView,
    key: Seq<char>,
    other: Seq<char>,
) -> bool {
    match json::member(event, key) {
        Some(JsonView::Str(said)) => s == said,
        _ => s == other,
    }
}

/// Of the start of any session, what was not logged is shown as a question
/// mark, and a system prompt that was not logged, or is empty, is not shown.
pub proof fn law_any_start_is_replayed(
    pending: Map<Seq<char>, (Seq<char>, Seq<char>)>,
    event: JsonView,
    model: Seq<char>,
    base_url: Seq<char>,
    prompt: Seq<char>,
)
    requires
        json::member(event, "event"@) == Some(JsonView::Str("session_start"@)),
        stands_for(model, event, "model"@, "?"@),
        stands_for(base_url, event, "base_url"@, "?"@),
        stands_for(prompt, event, "system_prompt"@, Seq::empty()),
    ensures
        ({
            let showing = event_showing(pending, event);
            let heading = SceneView::Info("[replay] model="@ + model + ", base="@ + base_url);
            &&& showing.pause && !showing.over
            &&& if prompt.len() > 0 {
                showing.scenes == seq![
                    heading,
                    SceneView::Info("[replay] system prompt: "@ + prompt),
                ]
            } else {
                showing.scenes == seq![heading]
            }
        }),
{
    words::lemma_words();
    let heading = SceneView::Info("[replay] model="@ + model + ", base="@ + base_url);
    if prompt.len() > 0 {
        assert(event_showing(pending, event).scenes =~= seq![
            heading,
            SceneView::Info("[replay] system prompt: "@ + prompt),
        ]);
    } else {
        assert(event_showing(pending, event).scenes =~= seq![heading]);
    }
}

/// Any call waits for its result under its id, in place of one that waits under
/// the same, and shows nothing. What was not logged of it is empty.
pub proof fn law_any_call_waits(
    pending: Map<Seq<char>, (Seq<char>, Seq<char>)>,
    event: JsonView,
    id: Seq<char>,
    name: Seq<char>,
    arguments: Seq<char>,
)
    requires
        json::member(event, "event"@) == Some(JsonView::Str("tool_call"@)),
        stands_for(id, event, "id"@, Seq::empty()),
        stands_for(name, event, "name"@, Seq::empty()),
        stands_for(arguments, event, "arguments"@, Seq::empty()),
    ensures
        shows_none(event_showing(pending, event)),
        event_pending(pending, event) == pending.insert(id, (name, arguments)),
{
    words::lemma_words();
    reveal_strlit("");
    assert(""@ =~= Seq::empty());
}

/// Any result is shown with the call that waits under its id, which then waits
/// no more; where none does, it is complained of. It is an error only where it
/// was logged as one.
pub proof fn law_any_result_is_shown(
    pending: Map<Seq<char>, (Seq<char>, Seq<char>)>,
    event: JsonView,
    id: Seq<char>,
    content: Seq<char>,
)
    requires
        json::member(event, "event"@) == Some(JsonView::Str("tool_result"@)),
        stands_for(id, event, "tool_call_id"@, Seq::empty()),
        stands_for(content, event, "content"@, Seq::empty()),
    ensures
        ({
            let showing = event_showing(pending, event);
            let is_error = json::member(event, "is_error"@) == Some(JsonView::Bool(true));
            &&& event_pending(pending, event) == pending.remove(id)
            &&& pending.contains_key(id) ==> {
                let (name, arguments) = pending[id];
                &&& showing.scenes == seq![
                    SceneView::Tool { name, arguments, text: content, is_error },
                ]
                &&& !showing.pause && !showing.over
            }
            &&& !pending.contains_key(id) ==> shows_one(
                showing,
                SceneView::Complain("orphan tool_result for id="@ + id),
            )
        }),
{
    words::lemma_words();
    reveal_strlit("");
    assert(""@ =~= Seq::empty());
}

/// A call is kept until its result, and shown only then: with its tool, its
/// arguments, the whole result and whether that is an error, without a pause.
/// Other calls are kept as they are. A result without a call is complained of.
pub proof fn law_calls_are_replayed(
    pending: Map<Seq<char>, (Seq<char>, Seq<char>)>,
    id: Seq<char>,
    name: Seq<char>,
    arguments: Seq<char>,
    content: Seq<char>,
    is_error: bool,
    other: Seq<char>,
)
    ensures
        ({
            let call = sessionlog::tool_call_view(id, name, arguments);
            let result = sessionlog::tool_result_view(id, content, is_error);
            let kept = event_pending(pending, call);
            let left = event_pending(pending, result);
            &&& shows_none(event_showing(pending, call))
            &&& kept.contains_key(id) && kept[id] == (name, arguments)
            &&& other != id ==> kept.contains_key(other) == pending.contains_key(other)
            &&& other != id && pending.contains_key(other) ==> kept[other] == pending[other]
            &&& !left.contains_key(id)
            &&& other != id ==> left.contains_key(other) == pending.contains_key(other)
            &&& other != id && pending.contains_key(other) ==> left[other] == pending[other]
            &&& pending.contains_key(id) && pending[id] == (name, arguments) ==> {
                let showing = event_showing(pending, result);
                &&& showing.scenes == seq![
                    SceneView::Tool { name, arguments, text: content, is_error },
                ]
                &&& !showing.pause && !showing.over
            }
            &&& !pending.contains_key(id) ==> shows_one(
                event_showing(pending, result),
                SceneView::Complain("orphan tool_result for id="@ + id),
            )
        }),
{
    words::lemma_words();
}

/// Only calls and their results change which calls wait for a result.
pub proof fn law_other_events_keep_the_calls(
    pending: Map<Seq<char>, (Seq<char>, Seq<char>)>,
    event: JsonView,
)
    requires
        json::member(event, "event"@) != Some(JsonView::Str("tool_call"@)),
        json::member(event, "event"@) != Some(JsonView::Str("tool_result"@)),
    ensures
        event_pending(pending, event) == pending,
{
    words::lemma_words();
}

/// A kind that a log never has is complained of.
pub proof fn law_unknown_kinds_are_complained_of(
    pending: Map<Seq<char>, (Seq<char>, Seq<char>)>,
    event: JsonView,
    kind: Seq<char>,
)
    requires
        json::member(event, "event"@) == Some(JsonView::Str(kind)) || !(json::member(
            event,
            "event"@,
        ) matches Some(JsonView::Str(_))) && kind.len() == 0,
        kind != "session_start"@,
        kind != "user"@,
        kind != "assistant"@,
        kind != "tool_call"@,
        kind != "tool_result"@,
        kind != "error"@,
        kind != "session_end"@,
    ensures
        shows_one(
            event_showing(pending, event),
            SceneView::Complain("unknown event type: "@ + kind),
        ),
{
    words::lemma_words();
    assert(kind.len() == 0 ==> kind =~= Seq::empty());
}

/// A blank line shows nothing and changes nothing. A line that is no JSON is
/// complained of with its number and the reason, and changes nothing. Any
/// other line is shown as its event.
pub proof fn law_lines_are_replayed(
    pending: Map<Seq<char>, (Seq<char>, Seq<char>)>,
    line: Seq<char>,
    number: nat,
)
    ensures
        ({
            let read = json_text::parsed(line);
            let showing = line_showing(pending, line, number);
            let kept = line_pending(pending, line);
            &&& text::trimmed(line).len() == 0 ==> {
                &&& showing.scenes.len() == 0 && !showing.pause && !showing.over
                &&& kept == pending
            }
            &&& text::trimmed(line).len() > 0 && read is Err ==> {
                &&& showing.scenes == seq![
                    SceneView::Complain(
                        "skip malformed line "@ + text::decimal(number) + ": "@ + read->Err_0,
                    ),
                ]
                &&& !showing.pause && !showing.over
                &&& kept == pending
            }
            &&& text::trimmed(line).len() > 0 && read is Ok ==> {
                &&& showing == event_showing(pending, read->Ok_0)
                &&& kept == event_pending(pending, read->Ok_0)
            }
        }),
{
}

/// A text is typed key by key, one for each of its characters and in order.
pub proof fn law_keys(s: Seq<char>)
    ensures
        keys_view(s).len() == s.len(),
        forall|i: int|
            0 <= i < s.len() ==> #[trigger] keys_view(s)[i] == "\x1b["@ + "37"@ + "m"@ + seq![s[i]]
                + "\x1b[0m"@,
{
    reveal_strlit("");
    assert forall|i: int| 0 <= i < s.len() implies #[trigger] keys_view(s)[i] == "\x1b["@ + "37"@
        + "m"@ + seq![s[i]] + "\x1b[0m"@ by {
        assert("\x1b["@ + ""@ =~= "\x1b["@);
    }
}

/// The value of a scene has all that the scene has.
pub proof fn law_scenes_seen(s: String, t: String, u: String, b: bool, showing: Showing)
    ensures
        Scene::Info(s)@ == SceneView::Info(s@),
        Scene::Complain(s)@ == SceneView::Complain(s@),
        Scene::Type(s)@ == SceneView::Type(s@),
        Scene::Say(s)@ == SceneView::Say(s@),
        (Scene::Tool { name: s, arguments: t, text: u, is_error: b })@ == (SceneView::Tool {
            name: s@,
            arguments: t@,
            text: u@,
            is_error: b,
        }),
        showing@.scenes.len() == showing.scenes@.len(),
        forall|i: int|
            0 <= i < showing.scenes@.len() ==> #[trigger] showing@.scenes[i]
                == showing.scenes@[i]@,
        showing@.pause == showing.pause,
        showing@.over == showing.over,
{
}

} // verus!
