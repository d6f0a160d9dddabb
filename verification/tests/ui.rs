use mcp_chat::step::{stream_of, Effect, Stream};
use mcp_chat::ui::{
    input_prompt, pad_screen_bottom, truncate, verbosity, Ui, Verbosity, RESULT_BYTES,
};

#[test]
fn quiet_overrides_verbose() {
    assert!(verbosity(false, false) == Verbosity::Normal);
    assert!(verbosity(false, true) == Verbosity::Verbose);
    assert!(verbosity(true, false) == Verbosity::Quiet);
    assert!(verbosity(true, true) == Verbosity::Quiet);
}

#[test]
fn quiet_shows_nothing_of_a_call() {
    let ui = Ui::new(Verbosity::Quiet);
    let span = ui.tool_call_begin("search", "{}");
    assert_eq!(span.line, None);
    assert_eq!(span.spinner, None);
    let end = ui.tool_call_end(&span, "boom", true);
    assert_eq!(end.mark, None);
    assert_eq!(end.line, None);
}

#[test]
fn normal_shows_the_name_and_a_spinner() {
    let ui = Ui::new(Verbosity::Normal);
    let span = ui.tool_call_begin("search", "{\"q\":1}");
    assert_eq!(span.line, None);
    assert_eq!(
        span.spinner.as_deref(),
        Some("\x1b[1;36m→\x1b[0m \x1b[1;36msearch\x1b[0m ")
    );
    let end = ui.tool_call_end(&span, "fine", false);
    assert_eq!(end.mark.as_deref(), Some("\x1b[1;32m✓\x1b[0m"));
    assert_eq!(end.line, None);
}

#[test]
fn normal_shows_no_result_of_a_failed_call() {
    let ui = Ui::new(Verbosity::Normal);
    let span = ui.tool_call_begin("search", "{}");
    let end = ui.tool_call_end(&span, "boom", true);
    assert_eq!(end.mark.as_deref(), Some("\x1b[1;31m✗\x1b[0m"));
    assert_eq!(end.line, None);
}

#[test]
fn verbose_shows_arguments_and_results() {
    let ui = Ui::new(Verbosity::Verbose);
    let span = ui.tool_call_begin("search", "{\"q\":1}");
    assert_eq!(span.spinner, None);
    assert_eq!(
        span.line.as_deref(),
        Some("\x1b[1;36m→\x1b[0m \x1b[1;36msearch\x1b[0m(\x1b[2;33m{\"q\":1}\x1b[0m)")
    );
    let good = ui.tool_call_end(&span, "fine", false);
    assert_eq!(good.mark, None);
    assert_eq!(good.line.as_deref(), Some("\x1b[1;32m←\x1b[0m \x1b[2;33mfine\x1b[0m"));
    let bad = ui.tool_call_end(&span, "boom", true);
    assert_eq!(bad.line.as_deref(), Some("\x1b[1;32m←\x1b[0m \x1b[2;31mboom\x1b[0m"));
}

#[test]
fn a_long_result_is_cut() {
    let ui = Ui::new(Verbosity::Verbose);
    let span = ui.tool_call_begin("t", "");
    let end = ui.tool_call_end(&span, &"x".repeat(RESULT_BYTES + 1), false);
    let expected =
        format!("\x1b[1;32m←\x1b[0m \x1b[2;33m{}… [truncated]\x1b[0m", "x".repeat(4000));
    assert_eq!(end.line, Some(expected));
}

#[test]
fn truncation_counts_bytes() {
    assert_eq!(truncate("", 0), "");
    assert_eq!(truncate("abc", 3), "abc");
    assert_eq!(truncate("abcd", 3), "abc… [truncated]");
    assert_eq!(truncate("äöü", 4), "äö… [truncated]");
    assert_eq!(truncate("äöü", 6), "äöü");
    assert_eq!(truncate("→a", 0), "… [truncated]");
}

#[test]
fn messages_have_their_colors() {
    let ui = Ui::new(Verbosity::Normal);
    let spoken = ui.assistant("**hi**");
    assert_eq!(spoken.heading, "\x1b[1;35massistant\x1b[0m:");
    assert_eq!(spoken.markdown, "**hi**");
    assert_eq!(ui.error("no"), "\x1b[1;31merror\x1b[0m: no");
    assert_eq!(ui.system_info("note"), "\x1b[3;90mnote\x1b[0m");
}

#[test]
fn rows_are_kept_free() {
    assert_eq!(pad_screen_bottom(0), "");
    assert_eq!(pad_screen_bottom(1), "\n\x1b[1F");
    assert_eq!(pad_screen_bottom(12), format!("{}\x1b[12F", "\n".repeat(12)));
}

#[test]
fn the_prompt_is_bold_and_white() {
    assert_eq!(input_prompt(), "\x1b[1;37m> \x1b[0m");
}

#[test]
fn standard_output_is_for_an_interactive_conversation() {
    let say = Effect::Say("hi".to_string());
    assert!(stream_of(&say, true) == Some(Stream::Output));
    assert!(stream_of(&say, false) == Some(Stream::Error));
    assert!(stream_of(&Effect::Blank, true) == Some(Stream::Output));
    assert!(stream_of(&Effect::Pad(4), true) == Some(Stream::Output));
    assert!(stream_of(&Effect::Complain("e".to_string()), true) == Some(Stream::Error));
    assert!(stream_of(&Effect::Note("n".to_string()), true) == Some(Stream::Error));
    let end = Effect::ToolEnd { text: "x".to_string(), is_error: false };
    assert!(stream_of(&end, true) == Some(Stream::Error));
    assert!(stream_of(&Effect::Remember("l".to_string()), true).is_none());
}

#[test]
fn a_result_must_not_be_cut_inside_a_character() {
    let straddling = format!("{}→", "x".repeat(RESULT_BYTES - 1));
    assert!(!Ui::new(Verbosity::Verbose).can_show(&straddling));
    assert!(Ui::new(Verbosity::Normal).can_show(&straddling));
    assert!(Ui::new(Verbosity::Quiet).can_show(&straddling));
    let fitting = format!("{}→", "x".repeat(RESULT_BYTES));
    assert!(Ui::new(Verbosity::Verbose).can_show(&fitting));
    assert!(Ui::new(Verbosity::Verbose).can_show("short"));
}
