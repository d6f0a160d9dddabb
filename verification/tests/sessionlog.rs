use mcp_chat::history::{judge_line, load_history_from_log};
use mcp_chat::json::Json;
use mcp_chat::json_text::{json_to_value, parse_json};
use mcp_chat::report::{captured_events, write_report};
use mcp_chat::sessionlog::{
    assistant_event, error_event, log_line, model_slug, session_end_event, session_path,
    session_start_event, tool_call_event, tool_result_event, user_event, SessionLog,
};
use mcp_chat::text::lines;

fn value(s: &str) -> serde_json::Value {
    serde_json::from_str(s).unwrap()
}

fn tool_calls() -> Json {
    parse_json(
        r#"[{"id":"call_1","type":"function","function":{"name":"search","arguments":"{}"}}]"#,
    )
    .ok()
    .unwrap()
}

fn written() -> SessionLog {
    let mut log = SessionLog::open_buffer();
    log.session_start("m/x", "https://b", None);
    log.user("what\nis there?");
    log.assistant(None, &tool_calls());
    log.tool_call("call_1", "search", "{}");
    log.tool_result("call_1", "{\"found\":1}", false);
    log.error("later: boom");
    log.assistant(Some("One thing."), &Json::Null);
    log.session_end();
    log
}

#[test]
fn events_have_their_members() {
    let json = |event: Json| json_to_value(&event);
    assert_eq!(
        json(session_start_event("m", "b", Some("sys"))),
        value(r#"{"event":"session_start","model":"m","base_url":"b","system_prompt":"sys"}"#)
    );
    assert_eq!(
        json(session_start_event("m", "b", None)),
        value(r#"{"event":"session_start","model":"m","base_url":"b","system_prompt":null}"#)
    );
    assert_eq!(json(user_event("hi")), value(r#"{"event":"user","content":"hi"}"#));
    assert_eq!(
        json(assistant_event(None, &Json::Null)),
        value(r#"{"event":"assistant","content":null,"tool_calls":null}"#)
    );
    assert_eq!(
        json(tool_call_event("i", "n", "{}")),
        value(r#"{"event":"tool_call","id":"i","name":"n","arguments":"{}"}"#)
    );
    assert_eq!(
        json(tool_result_event("i", "c", true)),
        value(r#"{"event":"tool_result","tool_call_id":"i","content":"c","is_error":true}"#)
    );
    assert_eq!(json(error_event("e")), value(r#"{"event":"error","message":"e"}"#));
    assert_eq!(json(session_end_event()), value(r#"{"event":"session_end"}"#));
}

#[test]
fn a_line_has_the_event_and_its_time() {
    assert_eq!(
        log_line(user_event("a\nb"), "2026-05-14T12:34:56+00:00"),
        "{\"content\":\"a\\nb\",\"event\":\"user\",\"ts\":\"2026-05-14T12:34:56+00:00\"}\n"
    );
    assert_eq!(log_line(Json::text("x"), "t"), "\"x\"\n");
}

#[test]
fn a_log_in_memory_captures_all_that_it_takes() {
    let log = written();
    assert!(log.path.is_none());
    assert!(log.next_line().is_none());
    let list = lines(log.captured());
    assert_eq!(list.len(), 8);
    let kinds: Vec<String> = list
        .iter()
        .map(|line| value(line)["event"].as_str().unwrap().to_string())
        .collect();
    assert_eq!(
        kinds,
        vec![
            "session_start",
            "user",
            "assistant",
            "tool_call",
            "tool_result",
            "error",
            "assistant",
            "session_end"
        ]
    );
    for line in &list {
        let ts = value(line)["ts"].as_str().unwrap().to_string();
        assert!(ts.ends_with("+00:00"), "{}", ts);
        let shape: String =
            ts.chars().map(|c| if c.is_ascii_digit() { '0' } else { c }).collect();
        assert!(shape.starts_with("0000-00-00T00:00:00"), "{}", ts);
        let fraction = &shape[19..shape.len() - 6];
        assert!(["", ".000", ".000000", ".000000000"].contains(&fraction), "{}", ts);
    }
}

#[test]
fn reading_a_log_gives_the_conversation_back() {
    let loaded = load_history_from_log(&lines(written().captured()));
    assert_eq!(loaded.warnings, Vec::<String>::new());
    let messages: Vec<serde_json::Value> = loaded.messages.iter().map(json_to_value).collect();
    assert_eq!(
        messages,
        vec![
            value(r#"{"role":"user","content":"what\nis there?"}"#),
            value(
                r#"{"role":"assistant","content":null,"tool_calls":[{"id":"call_1",
                "type":"function","function":{"name":"search","arguments":"{}"}}]}"#
            ),
            value(r#"{"role":"tool","tool_call_id":"call_1","content":"{\"found\":1}"}"#),
            value(r#"{"role":"assistant","content":"One thing."}"#),
        ]
    );
}

#[test]
fn what_is_missing_in_an_event_is_empty() {
    let lines = vec![
        r#"{"event":"user"}"#.to_string(),
        r#"{"event":"user","content":7}"#.to_string(),
        r#"{"event":"assistant"}"#.to_string(),
        r#"{"event":"assistant","content":3,"tool_calls":[]}"#.to_string(),
        r#"{"event":"tool_result"}"#.to_string(),
    ];
    let loaded = load_history_from_log(&lines);
    let messages: Vec<serde_json::Value> = loaded.messages.iter().map(json_to_value).collect();
    assert_eq!(
        messages,
        vec![
            value(r#"{"role":"user","content":""}"#),
            value(r#"{"role":"user","content":""}"#),
            value(r#"{"role":"assistant","content":null}"#),
            value(r#"{"role":"assistant","content":3,"tool_calls":[]}"#),
            value(r#"{"role":"tool","tool_call_id":"","content":""}"#),
        ]
    );
}

#[test]
fn lines_that_cannot_be_used_are_warned_of() {
    let lines = vec![
        "".to_string(),
        "  \t".to_string(),
        "{oops".to_string(),
        r#"{"event":"noise"}"#.to_string(),
        "[]".to_string(),
        r#"{"event":"user","content":"hi"}"#.to_string(),
    ];
    let loaded = load_history_from_log(&lines);
    assert_eq!(loaded.messages.len(), 1);
    assert_eq!(
        loaded.warnings,
        vec![
            "warn: skipping malformed log line 3: key must be a string at line 1 column 2",
            "warn: unknown event type 'noise' at line 4",
            "warn: unknown event type '' at line 5",
        ]
    );
}

#[test]
fn a_line_is_judged_by_what_was_read() {
    let reading = judge_line(&Err("broken".to_string()), 7);
    assert!(reading.message.is_none());
    assert_eq!(
        reading.warning.as_deref(),
        Some("warn: skipping malformed log line 7: broken")
    );
    let reading = judge_line(&Ok(user_event("hi")), 7);
    assert!(reading.warning.is_none());
    assert_eq!(reading.message.unwrap().get_str("role"), Some("user"));
    let reading = judge_line(&Ok(session_end_event()), 7);
    assert!(reading.warning.is_none() && reading.message.is_none());
}

#[test]
fn a_log_with_a_file_hands_its_lines_out() {
    let mut log = SessionLog::open_with_id("logs", "s1");
    assert_eq!(log.path.as_deref(), Some("logs/session-s1.jsonl"));
    log.user("one");
    log.user("two");
    assert!(log.next_line().unwrap().contains("one"));
    log.delivered(true);
    assert!(log.next_line().unwrap().contains("two"));
    log.delivered(true);
    assert!(log.next_line().is_none());
    assert_eq!(log.captured(), "");
}

#[test]
fn a_copy_is_what_the_file_got() {
    let mut log = SessionLog::open_with_id_tee("logs", "s1");
    assert_eq!(log.path.as_deref(), Some("logs/session-s1.jsonl"));
    log.user("one");
    let line = log.next_line().unwrap().clone();
    assert!(line.ends_with('\n'));
    log.delivered(true);
    log.user("lost");
    log.delivered(false);
    assert!(log.next_line().is_none());
    assert_eq!(log.captured(), line);
}

#[test]
fn a_log_is_named_after_the_time_and_the_model() {
    let log = SessionLog::open_at("logs", "openai/gpt-5.1", "20260514T123456Z");
    assert_eq!(
        log.path.as_deref(),
        Some("logs/session-20260514T123456Z-openai_gpt-5.1.jsonl")
    );
    let path = SessionLog::open("/var/log/", "m").path.unwrap();
    assert!(path.starts_with("/var/log/session-"), "{}", path);
    assert!(path.ends_with("Z-m.jsonl"), "{}", path);
    let name = SessionLog::open("logs", "../../etc/passwd").path().unwrap().to_string();
    assert_eq!(name.matches('/').count(), 1, "{}", name);
    assert_eq!(SessionLog::open_buffer().path(), None);
    assert_eq!(model_slug("a/b c_é.-9Z"), "a_b_c__.-9Z");
}

#[test]
fn session_paths_are_joined_like_paths() {
    for dir in ["", "logs", "logs/", "/", "a/b"] {
        let expected = std::path::Path::new(dir).join("session-x.jsonl");
        assert_eq!(session_path(dir, "x"), expected.to_str().unwrap());
    }
}

#[test]
fn the_report_has_the_log() {
    let log = written();
    let events = captured_events(log.captured());
    assert_eq!(events.len(), 8);
    let report = write_report("m/x", log.captured(), Some("s1"), true).unwrap();
    let report = value(&report);
    assert_eq!(report["model"], "m/x");
    assert_eq!(report["session_id"], "s1");
    assert_eq!(report["events"][1]["content"], "what\nis there?");
    assert_eq!(report["events"][2]["tool_calls"][0]["id"], "call_1");
    assert_eq!(report["events"][7]["event"], "session_end");
    for (event, line) in events.iter().zip(lines(log.captured())) {
        assert_eq!(json_to_value(event), value(&line));
    }
}

#[test]
fn the_report_is_indented() {
    assert_eq!(
        write_report("m", "\n{\"event\":\"session_end\"}\nnoise\n", None, true).unwrap(),
        "{\n  \"events\": [\n    {\n      \"event\": \"session_end\"\n    }\n  ],\n  \"model\": \"m\"\n}"
    );
}

#[test]
fn a_failed_turn_is_reported_where_there_is_something() {
    assert_eq!(write_report("m", "", None, false), None);
    assert!(write_report("m", "", None, true).is_some());
    let report = write_report("m", "{\"event\":\"error\",\"message\":\"e\"}\n", None, false);
    assert_eq!(value(&report.unwrap())["events"][0]["message"], "e");
}

#[test]
fn an_empty_log_holds_no_conversation() {
    let loaded = load_history_from_log(&lines("\n"));
    assert!(loaded.messages.is_empty() && loaded.warnings.is_empty());
    assert!(load_history_from_log(&vec![]).messages.is_empty());
}

#[test]
fn appended_logs_are_one_conversation() {
    let one = lines(written().captured());
    let mut both = one.clone();
    both.extend(one.clone());
    let text = |list: &Vec<String>| -> Vec<serde_json::Value> {
        load_history_from_log(list).messages.iter().map(json_to_value).collect()
    };
    let mut expected = text(&one);
    expected.extend(text(&one));
    assert_eq!(text(&both), expected);
}

#[test]
fn an_event_with_integers_is_read_back() {
    let mut log = SessionLog::open_buffer();
    let event = parse_json(r#"{"event":"x","n":-5,"list":[1,2],"ts":"old"}"#).ok().unwrap();
    log.write(event);
    let written = lines(log.captured());
    assert_eq!(written.len(), 1);
    let read = value(&written[0]);
    assert_eq!(read["n"], -5);
    assert_eq!(read["list"], value("[1,2]"));
    assert!(read["ts"].as_str().unwrap().ends_with("+00:00"));
}
