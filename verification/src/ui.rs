//! What is put on the terminal.

use vstd::prelude::*;

use vstd::utf8;

use crate::text;
use crate::text::to_decimal;

verus! {

/// How much is shown of the calls of tools.
#[derive(Clone, Copy, PartialEq, Eq, Structural)]
pub enum Verbosity {
    /// Nothing at all.
    Quiet,
    /// The name, with a spinner while the call is out. No arguments, and no
    /// raw result.
    Normal,
    /// The name with the arguments, and the result.
    Verbose,
}

/// The verbosity that two switches ask for. Quiet overrides verbose.
pub fn verbosity(quiet: bool, verbose: bool) -> (level: Verbosity)
    ensures
        level == (if quiet {
            Verbosity::Quiet
        } else if verbose {
            Verbosity::Verbose
        } else {
            Verbosity::Normal
        }),
{
    if quiet {
        Verbosity::Quiet
    } else if verbose {
        Verbosity::Verbose
    } else {
        Verbosity::Normal
    }
}

/// A color of the terminal.
#[derive(Clone, Copy, PartialEq, Eq, Structural)]
pub enum Hue {
    Red,
    Green,
    Yellow,
    Magenta,
    Cyan,
    White,
    DarkGray,
}

/// What else there is to a piece of text.
#[derive(Clone, Copy, PartialEq, Eq, Structural)]
pub enum Emphasis {
    Plain,
    Bold,
    Dimmed,
    Italic,
}

/// The number of a color in a control sequence.
pub open spec fn hue_code(hue: Hue) -> Seq<char> {
    match hue {
        Hue::Red => "31"@,
        Hue::Green => "32"@,
        Hue::Yellow => "33"@,
        Hue::Magenta => "35"@,
        Hue::Cyan => "36"@,
        Hue::White => "37"@,
        Hue::DarkGray => "90"@,
    }
}

/// What stands in front of the color in a control sequence.
pub open spec fn emphasis_code(emphasis: Emphasis) -> Seq<char> {
    match emphasis {
        Emphasis::Plain => ""@,
        Emphasis::Bold => "1;"@,
        Emphasis::Dimmed => "2;"@,
        Emphasis::Italic => "3;"@,
    }
}

/// A text between the control sequence that begins its color and the one that
/// ends it.
pub open spec fn painted(hue: Hue, emphasis: Emphasis, s: Seq<char>) -> Seq<char> {
    "\x1b["@ + emphasis_code(emphasis) + hue_code(hue) + "m"@ + s + "\x1b[0m"@
}

/// `nu_ansi_term::Color`, its `normal`, `bold`, `dimmed` and `italic`, and
/// `Style::paint`, displayed: the text, as it is, between the control sequence
/// of the style and the one that resets it.
#[verifier::external_body]
pub(crate) fn paint(hue: Hue, emphasis: Emphasis, s: &str) -> (out: String)
    ensures
        out@ == painted(hue, emphasis, s@),
{
    let color = match hue {
        Hue::Red => nu_ansi_term::Color::Red,
        Hue::Green => nu_ansi_term::Color::Green,
        Hue::Yellow => nu_ansi_term::Color::Yellow,
        Hue::Magenta => nu_ansi_term::Color::Magenta,
        Hue::Cyan => nu_ansi_term::Color::Cyan,
        Hue::White => nu_ansi_term::Color::White,
        Hue::DarkGray => nu_ansi_term::Color::DarkGray,
    };
    let style = match emphasis {
        Emphasis::Plain => color.normal(), Emphasis::Bold => color.bold(),
        Emphasis::Dimmed => color.dimmed(), Emphasis::Italic => color.italic(),
    };
    style.paint(s).to_string()
}

/// The length of a text in bytes.
pub open spec fn byte_len(s: Seq<char>) -> nat {
    utf8::encode_utf8(s).len()
}

/// Whether a text has a character that begins `at` bytes in, or ends there.
pub open spec fn divides(s: Seq<char>, at: nat) -> bool {
    utf8::is_char_boundary(utf8::encode_utf8(s), at as int)
}

/// The first `max` bytes of a text.
pub open spec fn cut(s: Seq<char>, max: nat) -> Seq<char> {
    utf8::decode_utf8(utf8::encode_utf8(s).subrange(0, max as int))
}

/// A text of at most `max` bytes as it is; of a longer one the first `max`
/// bytes, and a remark.
pub open spec fn truncated(s: Seq<char>, max: nat) -> Seq<char> {
    if byte_len(s) <= max {
        s
    } else {
        cut(s, max) + "… [truncated]"@
    }
}

/// Whether a text can be truncated to `max` bytes: no character straddles the
/// cut.
pub open spec fn can_truncate(s: Seq<char>, max: nat) -> bool {
    byte_len(s) <= max || divides(s, max)
}

/// Shortens a text to `max` bytes. What is kept is a beginning of the text.
pub fn truncate(s: &str, max: usize) -> (out: String)
    requires
        can_truncate(s@, max as nat),
    ensures
        out@ == truncated(s@, max as nat),
        byte_len(s@) > max ==> cut(s@, max as nat).is_prefix_of(s@) && byte_len(
            cut(s@, max as nat),
        ) == max,
{
    if s.as_bytes().len() <= max {
        s.to_owned()
    } else {
        let ghost bytes = utf8::encode_utf8(s@);
        proof {
            utf8::encode_utf8_valid_utf8(s@);
            utf8::encode_utf8_decode_utf8(s@);
            utf8::valid_utf8_split(bytes, max as int);
            utf8::decode_utf8_split(bytes, max as int);
            utf8::decode_utf8_encode_utf8(bytes.subrange(0, max as int));
        }
        let (kept, _) = s.split_at(max);
        proof {
            utf8::encode_utf8_decode_utf8(kept@);
            assert(kept@ == cut(s@, max as nat));
        }
        kept.to_owned().concat("… [truncated]")
    }
}

/// How many bytes of a result are shown.
pub const RESULT_BYTES: usize = 4_000;

/// The rows that a terminal keeps free below the cursor, made by as many line
/// feeds and a move back up.
pub open spec fn padding(rows: nat) -> Seq<char> {
    if rows == 0 {
        Seq::empty()
    } else {
        Seq::new(rows, |i: int| '\n') + "\x1b["@ + text::decimal(rows) + "F"@
    }
}

/// What to print so that `lines` blank rows stay visible below the cursor, and
/// the prompt is not pinned to the bottom of the terminal. The move up also
/// goes back to the first column, which a line feed alone does not do in raw
/// mode.
pub fn pad_screen_bottom(lines: usize) -> (out: String)
    ensures
        out@ == padding(lines as nat),
{
    let mut out = String::new();
    if lines == 0 {
        return out;
    }
    let mut i: usize = 0;
    while i < lines
        invariant
            i <= lines,
            out@ == Seq::new(i as nat, |k: int| '\n'),
        decreases lines - i,
    {
        out.push('\n');
        i += 1;
        assert(out@ =~= Seq::new(i as nat, |k: int| '\n'));
    }
    out.concat("\x1b[").concat(to_decimal(lines as u64).as_str()).concat("F")
}

/// What stands before the line that the user enters: a bold white `>`. Line
/// editors take the control sequences to be of no width as they are; the
/// markers that a shell would want around them would be shown.
pub fn input_prompt() -> (out: String)
    ensures
        out@ == painted(Hue::White, Emphasis::Bold, "> "@),
{
    paint(Hue::White, Emphasis::Bold, "> ")
}

/// A call of a tool that is being shown: the line that announces it, and the
/// prefix of a spinner that runs while the call is out.
pub struct ToolCallSpan {
    pub line: Option<String>,
    pub spinner: Option<String>,
}

/// The mathematical value of a `ToolCallSpan`.
pub struct SpanView {
    pub line: Option<Seq<char>>,
    pub spinner: Option<Seq<char>>,
}

impl View for ToolCallSpan {
    type V = SpanView;

    open spec fn view(&self) -> SpanView {
        SpanView { line: text::opt_string(self.line), spinner: text::opt_string(self.spinner) }
    }
}

/// What ends the display of a call: the mark that a spinner ends with, and a
/// line.
pub struct ToolCallEnd {
    pub mark: Option<String>,
    pub line: Option<String>,
}

/// The mathematical value of a `ToolCallEnd`.
pub struct EndView {
    pub mark: Option<Seq<char>>,
    pub line: Option<Seq<char>>,
}

impl View for ToolCallEnd {
    type V = EndView;

    open spec fn view(&self) -> EndView {
        EndView { mark: text::opt_string(self.mark), line: text::opt_string(self.line) }
    }
}

/// The arrow and the name of a call.
pub open spec fn call_heading(name: Seq<char>) -> Seq<char> {
    painted(Hue::Cyan, Emphasis::Bold, "→"@) + " "@ + painted(Hue::Cyan, Emphasis::Bold, name)
}

/// How a call is announced.
pub open spec fn begin_view(level: Verbosity, name: Seq<char>, args: Seq<char>) -> SpanView {
    match level {
        Verbosity::Quiet => SpanView { line: None, spinner: None },
        Verbosity::Verbose => SpanView {
            line: Some(
                call_heading(name) + "("@ + painted(Hue::Yellow, Emphasis::Dimmed, args) + ")"@,
            ),
            spinner: None,
        },
        Verbosity::Normal => SpanView { line: None, spinner: Some(call_heading(name) + " "@) },
    }
}

/// The mark for the outcome of a call.
pub open spec fn mark_view(is_error: bool) -> Seq<char> {
    if is_error {
        painted(Hue::Red, Emphasis::Bold, "✗"@)
    } else {
        painted(Hue::Green, Emphasis::Bold, "✓"@)
    }
}

/// Whether the result of a call is shown.
pub open spec fn shows_result(level: Verbosity) -> bool {
    level == Verbosity::Verbose
}

/// How the outcome of a call is shown: a spinner ends with a mark, and the
/// result is shown where it is to be.
pub open spec fn end_view(
    level: Verbosity,
    span: SpanView,
    result: Seq<char>,
    is_error: bool,
) -> EndView {
    let body = truncated(result, RESULT_BYTES as nat);
    EndView {
        mark: if span.spinner is Some {
            Some(mark_view(is_error))
        } else {
            None
        },
        line: match level {
            Verbosity::Quiet => None,
            Verbosity::Normal => None,
            Verbosity::Verbose => Some(
                painted(Hue::Green, Emphasis::Bold, "←"@) + " "@ + painted(
                    if is_error {
                        Hue::Red
                    } else {
                        Hue::Yellow
                    },
                    Emphasis::Dimmed,
                    body,
                ),
            ),
        },
    }
}

/// What the model said: a heading, and Markdown to be rendered below it.
pub struct Spoken {
    pub heading: String,
    pub markdown: String,
}

/// The user interface.
#[derive(Clone, Copy)]
pub struct Ui {
    pub verbosity: Verbosity,
}

impl Ui {
    /// A user interface of this verbosity.
    pub fn new(verbosity: Verbosity) -> (ui: Ui)
        ensures
            ui.verbosity == verbosity,
    {
        Ui { verbosity }
    }

    /// Announces a call.
    pub fn tool_call_begin(&self, name: &str, args: &str) -> (span: ToolCallSpan)
        ensures
            span@ == begin_view(self.verbosity, name@, args@),
    {
        match self.verbosity {
            Verbosity::Quiet => ToolCallSpan { line: None, spinner: None },
            Verbosity::Verbose => {
                let heading = paint(Hue::Cyan, Emphasis::Bold, "→").concat(" ").concat(
                    paint(Hue::Cyan, Emphasis::Bold, name).as_str(),
                );
                let line = heading.concat("(").concat(
                    paint(Hue::Yellow, Emphasis::Dimmed, args).as_str(),
                ).concat(")");
                ToolCallSpan { line: Some(line), spinner: None }
            },
            Verbosity::Normal => {
                let heading = paint(Hue::Cyan, Emphasis::Bold, "→").concat(" ").concat(
                    paint(Hue::Cyan, Emphasis::Bold, name).as_str(),
                );
                ToolCallSpan { line: None, spinner: Some(heading.concat(" ")) }
            },
        }
    }

    /// Whether the outcome of a call can be shown: where the result is to be,
    /// no character of it may straddle the cut.
    pub fn can_show(&self, result: &str) -> (yes: bool)
        ensures
            yes == (shows_result(self.verbosity) ==> can_truncate(
                result@,
                RESULT_BYTES as nat,
            )),
    {
        let shows = match self.verbosity {
            Verbosity::Quiet => false,
            Verbosity::Normal => false,
            Verbosity::Verbose => true,
        };
        !shows || result.as_bytes().len() <= RESULT_BYTES || result.is_char_boundary(RESULT_BYTES)
    }

    /// Shows the outcome of a call.
    pub fn tool_call_end(&self, span: &ToolCallSpan, result: &str, is_error: bool) -> (end:
        ToolCallEnd)
        requires
            shows_result(self.verbosity) ==> can_truncate(result@, RESULT_BYTES as nat),
        ensures
            end@ == end_view(self.verbosity, span@, result@, is_error),
    {
        let mark = match &span.spinner {
            Some(_) => {
                if is_error {
                    Some(paint(Hue::Red, Emphasis::Bold, "✗"))
                } else {
                    Some(paint(Hue::Green, Emphasis::Bold, "✓"))
                }
            },
            None => None,
        };
        let line = match self.verbosity {
            Verbosity::Quiet => None,
            Verbosity::Normal => None,
            Verbosity::Verbose => {
                let body = truncate(result, RESULT_BYTES);
                let hue = if is_error {
                    Hue::Red
                } else {
                    Hue::Yellow
                };
                Some(
                    paint(Hue::Green, Emphasis::Bold, "←").concat(" ").concat(
                        paint(hue, Emphasis::Dimmed, body.as_str()).as_str(),
                    ),
                )
            },
        };
        ToolCallEnd { mark, line }
    }

    /// Shows what the model said.
    pub fn assistant(&self, s: &str) -> (spoken: Spoken)
        ensures
            spoken.heading@ == painted(Hue::Magenta, Emphasis::Bold, "assistant"@) + ":"@,
            spoken.markdown@ == s@,
    {
        Spoken {
            heading: paint(Hue::Magenta, Emphasis::Bold, "assistant").concat(":"),
            markdown: s.to_owned(),
        }
    }

    /// Shows an error.
    pub fn error(&self, s: &str) -> (line: String)
        ensures
            line@ == painted(Hue::Red, Emphasis::Bold, "error"@) + ": "@ + s@,
    {
        paint(Hue::Red, Emphasis::Bold, "error").concat(": ").concat(s)
    }

    /// Shows a remark.
    pub fn system_info(&self, s: &str) -> (line: String)
        ensures
            line@ == painted(Hue::DarkGray, Emphasis::Italic, s@),
    {
        paint(Hue::DarkGray, Emphasis::Italic, s)
    }
}

/// A quiet interface shows nothing of a call, neither that it is made nor what
/// came of it.
pub proof fn law_quiet_shows_nothing(
    name: Seq<char>,
    args: Seq<char>,
    result: Seq<char>,
    is_error: bool,
)
    ensures
        ({
            let span = begin_view(Verbosity::Quiet, name, args);
            let end = end_view(Verbosity::Quiet, span, result, is_error);
            &&& span.line is None
            &&& span.spinner is None
            &&& end.mark is None
            &&& end.line is None
        }),
{
}

/// A normal interface shows the name of a call and a spinner, which ends with a
/// mark: one for an error, and another for everything else. It shows neither
/// the arguments nor the result: they make no difference to what it shows.
pub proof fn law_normal_shows_names(
    name: Seq<char>,
    args: Seq<char>,
    other_args: Seq<char>,
    result: Seq<char>,
    other_result: Seq<char>,
    is_error: bool,
)
    ensures
        ({
            let span = begin_view(Verbosity::Normal, name, args);
            let end = end_view(Verbosity::Normal, span, result, is_error);
            &&& span == begin_view(Verbosity::Normal, name, other_args)
            &&& span.spinner is Some
            &&& end.mark == Some(mark_view(is_error))
            &&& end.line is None
            &&& span.line is None
            &&& end == end_view(Verbosity::Normal, span, other_result, is_error)
        }),
{
}

proof fn lemma_bytes_add(s: Seq<char>, t: Seq<char>)
    ensures
        utf8::encode_utf8(s + t) == utf8::encode_utf8(s) + utf8::encode_utf8(t),
    decreases s.len(),
{
    if s.len() == 0 {
        assert(s + t =~= t);
        assert(utf8::encode_utf8(s) + utf8::encode_utf8(t) =~= utf8::encode_utf8(t));
    } else {
        lemma_bytes_add(s.drop_first(), t);
        assert((s + t).drop_first() =~= s.drop_first() + t);
        assert(utf8::encode_utf8(s + t) =~= utf8::encode_utf8(s) + utf8::encode_utf8(t));
    }
}

proof fn lemma_divides(kept: Seq<char>, rest: Seq<char>)
    ensures
        divides(kept + rest, byte_len(kept)),
    decreases kept.len(),
{
    lemma_bytes_add(kept, rest);
    let bytes = utf8::encode_utf8(kept + rest);
    utf8::encode_utf8_valid_utf8(kept + rest);
    if kept.len() > 0 {
        lemma_divides(kept.drop_first(), rest);
        assert((kept + rest).drop_first() =~= kept.drop_first() + rest);
        utf8::encode_utf8_first_scalar(kept + rest);
        utf8::encode_utf8_first_scalar(kept);
        assert(utf8::pop_first_scalar(bytes) =~= utf8::encode_utf8(kept.drop_first() + rest));
        assert(byte_len(kept) == utf8::encode_scalar(kept[0] as u32).len() + byte_len(
            kept.drop_first(),
        ));
    }
}

/// A text that fits is kept as it is. Of one that does not, as much is kept as
/// fits, from its beginning on, and a remark says so.
pub proof fn law_truncate(kept: Seq<char>, rest: Seq<char>)
    ensures
        truncated(kept, byte_len(kept)) == kept,
        rest.len() > 0 ==> truncated(kept + rest, byte_len(kept)) == kept + "… [truncated]"@,
        forall|max: nat| byte_len(kept) <= max ==> #[trigger] truncated(kept, max) == kept,
        can_truncate(kept + rest, byte_len(kept)),
{
    lemma_bytes_add(kept, rest);
    lemma_divides(kept, rest);
    if rest.len() > 0 {
        let bytes = utf8::encode_utf8(kept + rest);
        utf8::encode_utf8_decode_utf8(kept);
        assert(bytes.subrange(0, byte_len(kept) as int) =~= utf8::encode_utf8(kept));
        assert(utf8::encode_utf8(rest).len() > 0) by {
            utf8::encode_utf8_first_scalar(rest);
        }
    }
}

/// A verbose interface shows the name and the arguments of a call, and of the
/// result all that fits into 4000 bytes, in another colour where it is an
/// error.
pub proof fn law_verbose_shows_everything(
    name: Seq<char>,
    args: Seq<char>,
    result: Seq<char>,
    is_error: bool,
)
    ensures
        ({
            let span = begin_view(Verbosity::Verbose, name, args);
            let end = end_view(Verbosity::Verbose, span, result, is_error);
            let arrow = painted(Hue::Green, Emphasis::Bold, "←"@);
            let shown = truncated(result, 4000);
            &&& span.spinner is None
            &&& span.line == Some(
                painted(Hue::Cyan, Emphasis::Bold, "→"@) + " "@ + painted(
                    Hue::Cyan,
                    Emphasis::Bold,
                    name,
                ) + "("@ + painted(Hue::Yellow, Emphasis::Dimmed, args) + ")"@,
            )
            &&& end.mark is None
            &&& !is_error ==> end.line == Some(
                arrow + " "@ + painted(Hue::Yellow, Emphasis::Dimmed, shown),
            )
            &&& is_error ==> end.line == Some(
                arrow + " "@ + painted(Hue::Red, Emphasis::Dimmed, shown),
            )
        }),
{
}

/// A normal interface shows the name behind an arrow while the call is out, and
/// then a cross for an error and a tick for everything else.
pub proof fn law_normal_marks_the_outcome(
    name: Seq<char>,
    args: Seq<char>,
    result: Seq<char>,
)
    ensures
        ({
            let span = begin_view(Verbosity::Normal, name, args);
            &&& span.spinner == Some(
                painted(Hue::Cyan, Emphasis::Bold, "→"@) + " "@ + painted(
                    Hue::Cyan,
                    Emphasis::Bold,
                    name,
                ) + " "@,
            )
            &&& end_view(Verbosity::Normal, span, result, true).mark == Some(
                painted(Hue::Red, Emphasis::Bold, "✗"@),
            )
            &&& end_view(Verbosity::Normal, span, result, false).mark == Some(
                painted(Hue::Green, Emphasis::Bold, "✓"@),
            )
        }),
{
}

/// A mark ends a spinner, and only a spinner; a line is shown of a result in a
/// verbose interface, and only there.
pub proof fn law_marks_end_spinners(
    level: Verbosity,
    span: SpanView,
    result: Seq<char>,
    is_error: bool,
)
    ensures
        end_view(level, span, result, is_error).mark is Some <==> span.spinner is Some,
        end_view(level, span, result, is_error).line is Some <==> level == Verbosity::Verbose,
        shows_result(level) <==> level == Verbosity::Verbose,
{
}

/// Painted text is the text itself between two escape sequences, of which the
/// first tells the colour and the emphasis.
pub proof fn law_paint(s: Seq<char>)
    ensures
        painted(Hue::Red, Emphasis::Bold, s) == "\x1b["@ + "1;"@ + "31"@ + "m"@ + s + "\x1b[0m"@,
        painted(Hue::Green, Emphasis::Bold, s) == "\x1b["@ + "1;"@ + "32"@ + "m"@ + s + "\x1b[0m"@,
        painted(Hue::Magenta, Emphasis::Bold, s) == "\x1b["@ + "1;"@ + "35"@ + "m"@ + s
            + "\x1b[0m"@,
        painted(Hue::Cyan, Emphasis::Bold, s) == "\x1b["@ + "1;"@ + "36"@ + "m"@ + s + "\x1b[0m"@,
        painted(Hue::White, Emphasis::Bold, s) == "\x1b["@ + "1;"@ + "37"@ + "m"@ + s + "\x1b[0m"@,
        painted(Hue::Yellow, Emphasis::Dimmed, s) == "\x1b["@ + "2;"@ + "33"@ + "m"@ + s
            + "\x1b[0m"@,
        painted(Hue::Red, Emphasis::Dimmed, s) == "\x1b["@ + "2;"@ + "31"@ + "m"@ + s + "\x1b[0m"@,
        painted(Hue::DarkGray, Emphasis::Italic, s) == "\x1b["@ + "3;"@ + "90"@ + "m"@ + s
            + "\x1b[0m"@,
{
}

/// Rows are kept free by as many line feeds and a move back up by as many
/// lines; no row takes nothing.
pub proof fn law_padding(rows: nat)
    ensures
        padding(0).len() == 0,
        rows > 0 ==> {
            &&& padding(rows).len() >= rows
            &&& forall|i: int| 0 <= i < rows ==> #[trigger] padding(rows)[i] == '\n'
            &&& padding(rows).skip(rows as int) == "\x1b["@ + text::decimal(rows) + "F"@
        },
{
    if rows > 0 {
        assert(padding(rows).skip(rows as int) =~= "\x1b["@ + text::decimal(rows) + "F"@);
    }
}

/// The value of what is shown of a call has all that is shown.
pub proof fn law_spans_seen(span: ToolCallSpan, end: ToolCallEnd)
    ensures
        span@.line == text::opt_string(span.line),
        span@.spinner == text::opt_string(span.spinner),
        end@.mark == text::opt_string(end.mark),
        end@.line == text::opt_string(end.line),
{
}

/// A longer text can be cut only where a character ends: what is kept then is a
/// beginning of the text with just so many bytes.
pub proof fn law_cut(s: Seq<char>, max: nat)
    requires
        can_truncate(s, max),
        byte_len(s) > max,
    ensures
        cut(s, max).is_prefix_of(s),
        byte_len(cut(s, max)) == max,
        truncated(s, max) == cut(s, max) + "… [truncated]"@,
{
    let bytes = utf8::encode_utf8(s);
    utf8::encode_utf8_valid_utf8(s);
    utf8::encode_utf8_decode_utf8(s);
    utf8::valid_utf8_split(bytes, max as int);
    utf8::decode_utf8_split(bytes, max as int);
    utf8::decode_utf8_encode_utf8(bytes.subrange(0, max as int));
}

} // verus!
