//! The session log: one JSON object to a line, each with the time at which it
//! was written.

use vstd::prelude::*;

use crate::json::{Json, JsonView};
use crate::json_text;
use crate::json_text::write_json;
use crate::text;
use crate::text::chars_of;

verus! {

/// A JSON string, or `null`.
pub open spec fn text_or_null(s: Option<Seq<char>>) -> JsonView {
    match s {
        Some(s) => JsonView::Str(s),
        None => JsonView::Null,
    }
}

/// `{event: "session_start", model, base_url, system_prompt}`.
pub open spec fn session_start_view(
    model: Seq<char>,
    base_url: Seq<char>,
    system_prompt: Option<Seq<char>>,
) -> JsonView {
    JsonView::Object(
        map![
            "event"@ => JsonView::Str("session_start"@),
            "model"@ => JsonView::Str(model),
            "base_url"@ => JsonView::Str(base_url),
            "system_prompt"@ => text_or_null(system_prompt),
        ],
    )
}

/// `{event: "user", content}`.
pub open spec fn user_view(content: Seq<char>) -> JsonView {
    JsonView::Object(map!["event"@ => JsonView::Str("user"@), "content"@ => JsonView::Str(content)])
}

/// `{event: "assistant", content, tool_calls}`.
pub open spec fn assistant_view(content: Option<Seq<char>>, tool_calls: JsonView) -> JsonView {
    JsonView::Object(
        map![
            "event"@ => JsonView::Str("assistant"@),
            "content"@ => text_or_null(content),
            "tool_calls"@ => tool_calls,
        ],
    )
}

/// `{event: "tool_call", id, name, arguments}`.
pub open spec fn tool_call_view(
    id: Seq<char>,
    name: Seq<char>,
    arguments: Seq<char>,
) -> JsonView {
    JsonView::Object(
        map![
            "event"@ => JsonView::Str("tool_call"@),
            "id"@ => JsonView::Str(id),
            "name"@ => JsonView::Str(name),
            "arguments"@ => JsonView::Str(arguments),
        ],
    )
}

/// `{event: "tool_result", tool_call_id, content, is_error}`.
pub open spec fn tool_result_view(id: Seq<char>, content: Seq<char>, is_error: bool) -> JsonView {
    JsonView::Object(
        map![
            "event"@ => JsonView::Str("tool_result"@),
            "tool_call_id"@ => JsonView::Str(id),
            "content"@ => JsonView::Str(content),
            "is_error"@ => JsonView::Bool(is_error),
        ],
    )
}

/// `{event: "error", message}`.
pub open spec fn error_view(message: Seq<char>) -> JsonView {
    JsonView::Object(
        map!["event"@ => JsonView::Str("error"@), "message"@ => JsonView::Str(message)],
    )
}

/// `{event: "session_end"}`.
pub open spec fn session_end_view() -> JsonView {
    JsonView::Object(map!["event"@ => JsonView::Str("session_end"@)])
}

fn json_text_or_null(s: Option<&str>) -> (json: Json)
    ensures
        json@ == text_or_null(text::opt_text(s)),
{
    match s {
        Some(s) => Json::text(s),
        None => Json::Null,
    }
}

/// The event that opens a session.
pub fn session_start_event(model: &str, base_url: &str, system_prompt: Option<&str>) -> (event:
    Json)
    ensures
        event@ == session_start_view(model@, base_url@, text::opt_text(system_prompt)),
{
    Json::object().with("event", Json::text("session_start")).with("model", Json::text(model)).with(
        "base_url",
        Json::text(base_url),
    ).with("system_prompt", json_text_or_null(system_prompt))
}

/// The event of a user's message.
pub fn user_event(content: &str) -> (event: Json)
    ensures
        event@ == user_view(content@),
{
    Json::object().with("event", Json::text("user")).with("content", Json::text(content))
}

/// The event of the model's message. Without tool calls, `tool_calls` is
/// `null`.
pub fn assistant_event(content: Option<&str>, tool_calls: &Json) -> (event: Json)
    ensures
        event@ == assistant_view(text::opt_text(content), tool_calls@),
{
    Json::object().with("event", Json::text("assistant")).with(
        "content",
        json_text_or_null(content),
    ).with("tool_calls", tool_calls.copy())
}

/// The event of a tool's call.
pub fn tool_call_event(id: &str, name: &str, arguments: &str) -> (event: Json)
    ensures
        event@ == tool_call_view(id@, name@, arguments@),
{
    Json::object().with("event", Json::text("tool_call")).with("id", Json::text(id)).with(
        "name",
        Json::text(name),
    ).with("arguments", Json::text(arguments))
}

/// The event of a tool's answer.
pub fn tool_result_event(id: &str, content: &str, is_error: bool) -> (event: Json)
    ensures
        event@ == tool_result_view(id@, content@, is_error),
{
    Json::object().with("event", Json::text("tool_result")).with(
        "tool_call_id",
        Json::text(id),
    ).with("content", Json::text(content)).with("is_error", Json::Bool(is_error))
}

/// The event of a failed turn.
pub fn error_event(message: &str) -> (event: Json)
    ensures
        event@ == error_view(message@),
{
    Json::object().with("event", Json::text("error")).with("message", Json::text(message))
}

/// The event that closes a session.
pub fn session_end_event() -> (event: Json)
    ensures
        event@ == session_end_view(),
{
    Json::object().with("event", Json::text("session_end"))
}

/// An event with the time at which it was written.
pub open spec fn stamped(event: JsonView, ts: Seq<char>) -> JsonView {
    match event {
        JsonView::Object(members) => JsonView::Object(members.insert("ts"@, JsonView::Str(ts))),
        other => other,
    }
}

/// Whether `line` is the line that records `event` as written at `ts`: the
/// event on one line with a line break behind it, to be read back as it was
/// where all its numbers are integers and it does not nest too deep for the
/// reader.
pub open spec fn records_at(line: Seq<char>, event: JsonView, ts: Seq<char>) -> bool {
    let body = json_text::written(stamped(event, ts));
    &&& line == body.push('\n')
    &&& json_text::single_line(body)
    &&& event is Object ==> body.len() > 0 && body[0] == '{'
    &&& json_text::plain(stamped(event, ts), json_text::READ_LEVELS as nat) ==> json_text::reads_as(
        body,
        stamped(event, ts),
    )
}

/// Whether a time stamp ends with the offset of UTC.
pub open spec fn in_utc(ts: Seq<char>) -> bool {
    ts.len() >= 6 && ts.skip(ts.len() - 6) == "+00:00"@
}

/// Whether these are digits, one or more.
pub open spec fn all_digits(s: Seq<char>) -> bool {
    s.len() > 0 && forall|i: int| 0 <= i < s.len() ==> '0' <= #[trigger] s[i] <= '9'
}

/// Whether a text is a year: four digits, or a sign and four digits or more.
pub open spec fn is_year(s: Seq<char>) -> bool {
    ||| s.len() == 4 && all_digits(s)
    ||| s.len() >= 5 && (s[0] == '+' || s[0] == '-') && all_digits(s.drop_first())
}

/// Whether a text is the fraction of a second: none, or a point and three, six
/// or nine digits.
pub open spec fn is_fraction(s: Seq<char>) -> bool {
    ||| s.len() == 0
    ||| (s.len() == 4 || s.len() == 7 || s.len() == 10) && s[0] == '.' && all_digits(s.drop_first())
}

/// The number that two digits stand for.
pub open spec fn two_digits(s: Seq<char>, at: int) -> int {
    (s[at] as int - '0' as int) * 10 + (s[at + 1] as int - '0' as int)
}

/// Whether a text has two digits at this place, which stand for a number in
/// this range.
pub open spec fn has_number(s: Seq<char>, at: int, least: int, most: int) -> bool {
    &&& '0' <= s[at] <= '9'
    &&& '0' <= s[at + 1] <= '9'
    &&& least <= two_digits(s, at) <= most
}

/// The last day that a month can have.
pub open spec fn last_day(month: int) -> int {
    if month == 2 {
        29
    } else if month == 4 || month == 6 || month == 9 || month == 11 {
        30
    } else {
        31
    }
}

/// Whether a text is a time of RFC 3339 in UTC, with a year of so many
/// characters: the year, month and day with hyphens between them, `T`, hour,
/// minute and second with colons between them, the fraction of the second, and
/// the offset of UTC. A second may be a leap second. A year that RFC 3339 has
/// no form for, of more than four digits or before the year zero, has a sign.
pub open spec fn is_time_with_year(ts: Seq<char>, year: int) -> bool {
    &&& in_utc(ts)
    &&& 4 <= year && year + 21 <= ts.len()
    &&& is_year(ts.take(year))
    &&& ts[year] == '-' && has_number(ts, year + 1, 1, 12)
    &&& ts[year + 3] == '-' && has_number(ts, year + 4, 1, last_day(two_digits(ts, year + 1)))
    &&& ts[year + 6] == 'T' && has_number(ts, year + 7, 0, 23)
    &&& ts[year + 9] == ':' && has_number(ts, year + 10, 0, 59)
    &&& ts[year + 12] == ':' && has_number(ts, year + 13, 0, 60)
    &&& is_fraction(ts.subrange(year + 15, ts.len() - 6))
}

/// Whether a text is a time of RFC 3339 in UTC, but for a year that it has no
/// form for.
pub open spec fn is_time(ts: Seq<char>) -> bool {
    in_utc(ts) && exists|year: int| is_time_with_year(ts, year)
}

/// Whether `line` records `event`, at whatever time.
pub open spec fn records(line: Seq<char>, event: JsonView) -> bool {
    exists|ts: Seq<char>| is_time(ts) && #[trigger] records_at(line, event, ts)
}

/// The line that records an event at a time.
pub fn log_line(event: Json, ts: &str) -> (line: String)
    ensures
        line@ == json_text::written(stamped(event@, ts@)).push('\n'),
        records_at(line@, event@, ts@),
{
    let stamped_event = match &event {
        Json::Object(_) => event.with("ts", Json::text(ts)),
        _ => event,
    };
    let mut line = write_json(&stamped_event);
    line.push('\n');
    line
}

/// `chrono::Utc::now` as written by `DateTime::to_rfc3339`: a time of RFC 3339
/// in UTC, with a sign before a year that has not four digits. Which time it is
/// depends on the clock.
#[verifier::external_body]
fn utc_now_rfc3339() -> (ts: String)
    ensures
        is_time(ts@),
{
    chrono::Utc::now().to_rfc3339()
}

/// Whether a text is a time stamp for the name of a file: year, month and day,
/// `T`, hour, minute and second, and `Z`.
pub open spec fn is_stamp(s: Seq<char>) -> bool {
    let year = s.len() - 12;
    &&& 4 <= year
    &&& is_year(s.take(year))
    &&& has_number(s, year, 1, 12)
    &&& has_number(s, year + 2, 1, last_day(two_digits(s, year)))
    &&& s[year + 4] == 'T'
    &&& has_number(s, year + 5, 0, 23)
    &&& has_number(s, year + 7, 0, 59)
    &&& has_number(s, year + 9, 0, 60)
    &&& s[year + 11] == 'Z'
}

/// `chrono::Utc::now` as written by `DateTime::format`, in this one format: the
/// year, the two digits each of month, day, hour, minute and second, and the
/// letters, which are copied. Which time it is depends on the clock.
#[verifier::external_body]
fn utc_now_formatted(format: &str) -> (stamp: String)
    requires
        format@ == "%Y%m%dT%H%M%SZ"@,
    ensures
        is_stamp(stamp@),
{
    chrono::Utc::now().format(format).to_string()
}

/// A path below a directory, for a name that is relative.
pub open spec fn path_join(dir: Seq<char>, name: Seq<char>) -> Seq<char> {
    if dir.len() == 0 || dir.last() == '/' {
        dir + name
    } else {
        dir.push('/') + name
    }
}

/// The name of the log of a session with this id.
pub open spec fn file_name(id: Seq<char>) -> Seq<char> {
    "session-"@ + id + ".jsonl"@
}

fn ends_with_slash(dir: &str) -> (yes: bool)
    ensures
        yes == (dir@.len() > 0 && dir@.last() == '/'),
{
    let n = dir.unicode_len();
    n > 0 && dir.get_char(n - 1) == '/'
}

/// Where the log of a session with this id lives.
pub fn session_path(log_dir: &str, id: &str) -> (path: String)
    ensures
        path@ == path_join(log_dir@, file_name(id@)),
{
    let name = "session-".to_owned().concat(id).concat(".jsonl");
    if log_dir.is_empty() || ends_with_slash(log_dir) {
        log_dir.to_owned().concat(name.as_str())
    } else {
        let mut path = log_dir.to_owned();
        path.push('/');
        path.concat(name.as_str())
    }
}

/// A character that a model's name keeps in the name of a log.
pub open spec fn kept_in_slug(c: char) -> bool {
    ||| 'a' <= c <= 'z'
    ||| 'A' <= c <= 'Z'
    ||| '0' <= c <= '9'
    ||| c == '-'
    ||| c == '.'
}

/// A model's name as it stands in the name of a log.
pub open spec fn slug(model: Seq<char>) -> Seq<char> {
    model.map_values(
        |c: char|
            if kept_in_slug(c) {
                c
            } else {
                '_'
            },
    )
}

/// A model's name with an underscore for each character but ASCII letters,
/// digits, `-` and `.`.
pub fn model_slug(model: &str) -> (s: String)
    ensures
        s@ == slug(model@),
{
    let chars = chars_of(model);
    let mut s = String::new();
    let mut i: usize = 0;
    while i < chars.len()
        invariant
            i <= chars@.len(),
            s@ == slug(chars@.take(i as int)),
        decreases chars@.len() - i,
    {
        let c = chars[i];
        if ('a' <= c && c <= 'z') || ('A' <= c && c <= 'Z') || ('0' <= c && c <= '9') || c == '-'
            || c == '.' {
            s.push(c);
        } else {
            s.push('_');
        }
        i += 1;
        assert(slug(chars@.take(i as int)) =~= s@);
    }
    assert(chars@.take(chars@.len() as int) =~= chars@);
    s
}

/// A model's name never leads out of the directory of a log: in the name of the
/// file it is one character for one, and none of them is a slash.
pub proof fn law_slug_stays_in_directory(model: Seq<char>)
    ensures
        slug(model).len() == model.len(),
        forall|i: int| 0 <= i < model.len() ==> #[trigger] slug(model)[i] != '/',
        forall|i: int|
            0 <= i < model.len() && kept_in_slug(model[i]) ==> #[trigger] slug(model)[i]
                == model[i],
{
}

/// A log that is named after a time and a model lies directly in its directory,
/// whatever the model: there is no slash in its name.
pub proof fn law_log_lies_in_its_directory(stamp: Seq<char>, model: Seq<char>)
    requires
        is_stamp(stamp),
    ensures
        !file_name(stamp + "-"@ + slug(model)).contains('/'),
{
    reveal_strlit("session-");
    reveal_strlit("-");
    reveal_strlit(".jsonl");
    law_slug_stays_in_directory(model);
    let year = stamp.len() - 12;
    assert forall|i: int| 0 <= i < stamp.len() implies stamp[i] != '/' by {
        if i < year {
            assert(stamp.take(year)[i] == stamp[i]);
            if i > 0 {
                assert(stamp.take(year).drop_first()[i - 1] == stamp[i]);
            }
        }
    }
    let id = stamp + "-"@ + slug(model);
    assert forall|i: int| 0 <= i < id.len() implies id[i] != '/' by {
        if i >= stamp.len() + 1 {
            assert(id[i] == slug(model)[i - stamp.len() - 1]);
        }
    }
    let name = file_name(id);
    assert forall|i: int| 0 <= i < name.len() implies name[i] != '/' by {
        if 8 <= i < 8 + id.len() {
            assert(name[i] == id[i - 8]);
        }
    }
}

/// The abstract state of a log.
#[verifier::ext_equal]
pub struct LogView {
    pub path: Option<Seq<char>>,
    pub captures: bool,
    pub pending: Seq<Seq<char>>,
    pub captured: Seq<char>,
}

/// A session log. A log with a path hands its lines out to be appended to the
/// file there; a log that captures keeps a copy of what it took. Without a
/// path, what is written goes into the copy alone.
pub struct SessionLog {
    pub path: Option<String>,
    captures: bool,
    pending: Vec<String>,
    captured: String,
}

impl View for SessionLog {
    type V = LogView;

    closed spec fn view(&self) -> LogView {
        LogView {
            path: text::opt_string(self.path),
            captures: self.captures,
            pending: text::texts(self.pending@),
            captured: self.captured@,
        }
    }
}

impl LogView {
    /// A log in memory captures and has no line waiting.
    pub open spec fn wf(self) -> bool {
        self.path is None ==> self.captures && self.pending.len() == 0
    }

    /// The log that has taken one more line.
    pub open spec fn appended(self, line: Seq<char>) -> LogView {
        if self.path is Some {
            LogView { pending: self.pending.push(line), ..self }
        } else {
            LogView { captured: self.captured + line, ..self }
        }
    }

    /// Whether `after` is the log that has taken one more line, which records
    /// `event`.
    pub open spec fn took(self, after: LogView, event: JsonView) -> bool {
        exists|line: Seq<char>| records(line, event) && after == #[trigger] self.appended(line)
    }

    /// The log whose oldest waiting line was or was not appended to the file.
    pub open spec fn delivered(self, ok: bool) -> LogView {
        LogView {
            pending: self.pending.drop_first(),
            captured: if ok && self.captures {
                self.captured + self.pending[0]
            } else {
                self.captured
            },
            ..self
        }
    }
}

/// A log that has taken nothing yet.
pub open spec fn fresh_log(path: Option<Seq<char>>, captures: bool) -> LogView {
    LogView { path, captures, pending: Seq::empty(), captured: Seq::empty() }
}

impl SessionLog {
    fn fresh(path: Option<String>, captures: bool) -> (log: SessionLog)
        ensures
            log@ == fresh_log(text::opt_string(path), captures),
    {
        let log = SessionLog { path, captures, pending: Vec::new(), captured: String::new() };
        assert(log@ =~= fresh_log(text::opt_string(path), captures));
        log
    }

    /// A log whose file is named after a time stamp and the model.
    pub fn open_at(dir: &str, model: &str, stamp: &str) -> (log: SessionLog)
        ensures
            log@.wf(),
            log@ == fresh_log(
                Some(path_join(dir@, file_name(stamp@ + "-"@ + slug(model@)))),
                false,
            ),
    {
        let id = stamp.to_owned().concat("-").concat(model_slug(model).as_str());
        SessionLog::fresh(Some(session_path(dir, id.as_str())), false)
    }

    /// A log whose file is named after the present time and the model.
    pub fn open(dir: &str, model: &str) -> (log: SessionLog)
        ensures
            log@.wf(),
            exists|stamp: Seq<char>|
                is_stamp(stamp) && log@ == fresh_log(
                    Some(path_join(dir@, #[trigger] file_name(stamp + "-"@ + slug(model@)))),
                    false,
                ),
    {
        let stamp = utc_now_formatted("%Y%m%dT%H%M%SZ");
        SessionLog::open_at(dir, model, stamp.as_str())
    }

    /// A log in memory alone.
    pub fn open_buffer() -> (log: SessionLog)
        ensures
            log@.wf(),
            log@ == fresh_log(None, true),
    {
        SessionLog::fresh(None, true)
    }

    /// The log of a session with an id: the same id, the same file.
    pub fn open_with_id(dir: &str, id: &str) -> (log: SessionLog)
        ensures
            log@.wf(),
            log@ == fresh_log(Some(path_join(dir@, file_name(id@))), false),
    {
        SessionLog::fresh(Some(session_path(dir, id)), false)
    }

    /// The log of a session with an id, which also captures.
    pub fn open_with_id_tee(dir: &str, id: &str) -> (log: SessionLog)
        ensures
            log@.wf(),
            log@ == fresh_log(Some(path_join(dir@, file_name(id@))), true),
    {
        SessionLog::fresh(Some(session_path(dir, id)), true)
    }

    /// Takes a line.
    pub fn append_line(&mut self, line: String)
        requires
            old(self)@.wf(),
        ensures
            final(self)@.wf(),
            final(self)@ == old(self)@.appended(line@),
    {
        let ghost before = self@;
        match &self.path {
            Some(_) => {
                self.pending.push(line);
            },
            None => {
                self.captured.append(line.as_str());
            },
        }
        assert(self@ =~= before.appended(line@));
    }

    /// Takes an event, written at the present time.
    pub fn write(&mut self, event: Json)
        requires
            old(self)@.wf(),
        ensures
            final(self)@.wf(),
            old(self)@.took(final(self)@, event@),
    {
        let ts = utc_now_rfc3339();
        let ghost event_view = event@;
        let line = log_line(event, ts.as_str());
        assert(records(line@, event_view));
        self.append_line(line);
    }

    /// Records that a session begins.
    pub fn session_start(&mut self, model: &str, base_url: &str, system_prompt: Option<&str>)
        requires
            old(self)@.wf(),
        ensures
            final(self)@.wf(),
            old(self)@.took(
                final(self)@,
                session_start_view(model@, base_url@, text::opt_text(system_prompt)),
            ),
    {
        self.write(session_start_event(model, base_url, system_prompt));
    }

    /// Records what the user said.
    pub fn user(&mut self, content: &str)
        requires
            old(self)@.wf(),
        ensures
            final(self)@.wf(),
            old(self)@.took(final(self)@, user_view(content@)),
    {
        self.write(user_event(content));
    }

    /// Records what the model said.
    pub fn assistant(&mut self, content: Option<&str>, tool_calls: &Json)
        requires
            old(self)@.wf(),
        ensures
            final(self)@.wf(),
            old(self)@.took(final(self)@, assistant_view(text::opt_text(content), tool_calls@)),
    {
        self.write(assistant_event(content, tool_calls));
    }

    /// Records that the model calls a tool.
    pub fn tool_call(&mut self, id: &str, name: &str, arguments: &str)
        requires
            old(self)@.wf(),
        ensures
            final(self)@.wf(),
            old(self)@.took(final(self)@, tool_call_view(id@, name@, arguments@)),
    {
        self.write(tool_call_event(id, name, arguments));
    }

    /// Records what a tool answered.
    pub fn tool_result(&mut self, id: &str, content: &str, is_error: bool)
        requires
            old(self)@.wf(),
        ensures
            final(self)@.wf(),
            old(self)@.took(final(self)@, tool_result_view(id@, content@, is_error)),
    {
        self.write(tool_result_event(id, content, is_error));
    }

    /// Records that a turn failed.
    pub fn error(&mut self, message: &str)
        requires
            old(self)@.wf(),
        ensures
            final(self)@.wf(),
            old(self)@.took(final(self)@, error_view(message@)),
    {
        self.write(error_event(message));
    }

    /// Records that the session ends.
    pub fn session_end(&mut self)
        requires
            old(self)@.wf(),
        ensures
            final(self)@.wf(),
            old(self)@.took(final(self)@, session_end_view()),
    {
        self.write(session_end_event());
    }

    /// Where the file of the log is, where it has one.
    pub fn path(&self) -> (p: Option<&str>)
        ensures
            text::opt_text(p) == self@.path,
    {
        match &self.path {
            Some(path) => Some(path.as_str()),
            None => None,
        }
    }

    /// The oldest line that waits to be appended to the file.
    pub fn next_line(&self) -> (line: Option<&String>)
        ensures
            match line {
                Some(line) => self@.pending.len() > 0 && line@ == self@.pending[0],
                None => self@.pending.len() == 0,
            },
    {
        if self.pending.len() == 0 {
            None
        } else {
            Some(&self.pending[0])
        }
    }

    /// Reports whether the oldest waiting line was appended to the file. Either
    /// way it waits no more; a log that captures copies it where it was.
    pub fn delivered(&mut self, ok: bool)
        requires
            old(self)@.wf(),
            old(self)@.pending.len() > 0,
        ensures
            final(self)@.wf(),
            final(self)@ == old(self)@.delivered(ok),
    {
        let ghost before = self@;
        let ghost lines = self.pending@;
        let line = self.pending.remove(0);
        assert(text::texts(lines.remove(0)) =~= text::texts(lines).drop_first());
        if ok && self.captures {
            self.captured.append(line.as_str());
        }
        assert(self@ =~= before.delivered(ok));
    }

    /// What the log has captured.
    pub fn captured(&self) -> (s: &str)
        ensures
            s@ == self@.captured,
    {
        self.captured.as_str()
    }
}

/// A log that has a file keeps lines waiting for it, in order and unchanged; a
/// log in memory has them at once. Nothing else changes.
pub proof fn law_log_takes_lines(log: LogView, line: Seq<char>)
    ensures
        ({
            let after = log.appended(line);
            &&& after.path == log.path
            &&& after.captures == log.captures
            &&& log.path is Some ==> after.pending == log.pending.push(line) && after.captured
                == log.captured
            &&& log.path is None ==> after.pending == log.pending && after.captured == log.captured
                + line
        }),
{
}

/// The oldest waiting line leaves when it was tried, and the others wait on. A
/// log that captures has it then, if it was written, and only then.
pub proof fn law_log_delivers_lines(log: LogView, ok: bool)
    requires
        log.pending.len() > 0,
    ensures
        ({
            let after = log.delivered(ok);
            &&& after.path == log.path
            &&& after.captures == log.captures
            &&& log.pending == seq![log.pending[0]] + after.pending
            &&& ok && log.captures ==> after.captured == log.captured + log.pending[0]
            &&& !ok || !log.captures ==> after.captured == log.captured
        }),
{
    assert(log.pending =~= seq![log.pending[0]] + log.pending.drop_first());
}

/// A log that was just opened has its path, captures or not as it was opened
/// to, and has nothing in it.
pub proof fn law_log_starts_empty(path: Option<Seq<char>>, captures: bool)
    ensures
        fresh_log(path, captures).path == path,
        fresh_log(path, captures).captures == captures,
        fresh_log(path, captures).pending.len() == 0,
        fresh_log(path, captures).captured.len() == 0,
{
}

/// A log that takes an event takes just one line: the event with its time stamp
/// and all its members, written as JSON, and a line feed.
pub proof fn law_log_takes_events(log: LogView, after: LogView, event: JsonView)
    requires
        log.took(after, event),
    ensures
        exists|line: Seq<char>, ts: Seq<char>|
            {
                &&& is_time(ts)
                &&& line == #[trigger] json_text::written(stamped(event, ts)).push('\n')
                &&& after == #[trigger] log.appended(line)
            },
{
    let line = choose|line: Seq<char>| records(line, event) && after == #[trigger] log.appended(
        line,
    );
    let ts = choose|ts: Seq<char>| is_time(ts) && #[trigger] records_at(line, event, ts);
    assert(line == json_text::written(stamped(event, ts)).push('\n'));
}

/// The log of a session lies in its directory, under a name that has the id of
/// the session in it.
pub proof fn law_session_file(dir: Seq<char>, id: Seq<char>)
    ensures
        path_join(Seq::empty(), file_name(id)) == "session-"@ + id + ".jsonl"@,
        path_join(dir.push('/'), file_name(id)) == dir.push('/') + ("session-"@ + id + ".jsonl"@),
        dir.len() > 0 && dir.last() != '/' ==> path_join(dir, file_name(id)) == dir + seq!['/'] + (
        "session-"@ + id + ".jsonl"@),
{
    assert(path_join(Seq::empty(), file_name(id)) =~= "session-"@ + id + ".jsonl"@);
    assert(dir.push('/') =~= dir + seq!['/']);
}

/// A model's name in a file name keeps its letters, digits, hyphens and dots,
/// and has an underscore for every other character.
pub proof fn law_slug(model: Seq<char>, i: int)
    requires
        0 <= i < model.len(),
    ensures
        slug(model).len() == model.len(),
        ({
            let n = model[i] as int;
            let kept = 97 <= n <= 122 || 65 <= n <= 90 || 48 <= n <= 57 || n == 45 || n == 46;
            slug(model)[i] == (if kept {
                model[i]
            } else {
                '_'
            })
        }),
{
}

} // verus!
