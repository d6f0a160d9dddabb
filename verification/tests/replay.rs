use mcp_chat::replay::{opening_note, type_user_message, Replay, Scene, Showing};

fn words(showing: &Showing) -> Vec<String> {
    showing
        .scenes
        .iter()
        .map(|scene| match scene {
            Scene::Info(s) => format!("info {}", s),
            Scene::Complain(s) => format!("complain {}", s),
            Scene::Type(s) => format!("type {}", s),
            Scene::Say(s) => format!("say {}", s),
            Scene::Tool { name, arguments, text, is_error } => {
                format!("tool {}({}) = {} {}", name, arguments, text, is_error)
            }
        })
        .collect()
}

fn show(replay: &mut Replay, line: &str) -> (Vec<String>, bool, bool) {
    let showing = replay.show_line(line, 3);
    (words(&showing), showing.pause, showing.over)
}

#[test]
fn a_session_is_replayed() {
    let mut replay = Replay::new();
    assert_eq!(
        show(
            &mut replay,
            r#"{"event":"session_start","model":"m","base_url":"b","system_prompt":"be kind"}"#
        ),
        (
            vec![
                "info [replay] model=m, base=b".to_string(),
                "info [replay] system prompt: be kind".to_string()
            ],
            true,
            false
        )
    );
    assert_eq!(
        show(&mut replay, r#"{"event":"user","content":"hi"}"#),
        (vec!["type hi".to_string()], true, false)
    );
    assert_eq!(
        show(&mut replay, r#"{"event":"assistant","content":null}"#),
        (vec![], true, false)
    );
    assert_eq!(
        show(&mut replay, r#"{"event":"tool_call","id":"1","name":"f","arguments":"{}"}"#),
        (vec![], true, false)
    );
    assert_eq!(
        show(
            &mut replay,
            r#"{"event":"tool_result","tool_call_id":"1","content":"ok","is_error":true}"#
        ),
        (vec!["tool f({}) = ok true".to_string()], false, false)
    );
    assert_eq!(
        show(&mut replay, r#"{"event":"assistant","content":"done"}"#),
        (vec!["say done".to_string()], true, false)
    );
    assert_eq!(
        show(&mut replay, r#"{"event":"error","message":"boom"}"#),
        (vec!["complain boom".to_string()], true, false)
    );
    assert_eq!(
        show(&mut replay, r#"{"event":"session_end"}"#),
        (vec!["info [replay] session ended".to_string()], false, true)
    );
}

#[test]
fn what_is_missing_has_a_stand_in() {
    let mut replay = Replay::new();
    assert_eq!(
        show(&mut replay, r#"{"event":"session_start","system_prompt":""}"#),
        (vec!["info [replay] model=?, base=?".to_string()], true, false)
    );
    assert_eq!(
        show(&mut replay, r#"{"event":"user"}"#),
        (vec!["type ".to_string()], true, false)
    );
    assert_eq!(
        show(&mut replay, r#"{"event":"assistant","content":""}"#),
        (vec![], true, false)
    );
    assert_eq!(show(&mut replay, r#"{"event":"error"}"#), (vec![], true, false));
    assert_eq!(
        show(&mut replay, "7"),
        (vec!["complain unknown event type: ".to_string()], true, false)
    );
    assert_eq!(
        show(&mut replay, r#"{"event":"noise"}"#),
        (vec!["complain unknown event type: noise".to_string()], true, false)
    );
}

#[test]
fn a_call_is_shown_once_with_its_result() {
    let mut replay = Replay::new();
    let result = r#"{"event":"tool_result","tool_call_id":"1","content":"ok"}"#;
    let orphan = (vec!["complain orphan tool_result for id=1".to_string()], true, false);
    assert_eq!(show(&mut replay, result), orphan);
    show(&mut replay, r#"{"event":"tool_call","id":"1","name":"old","arguments":"a"}"#);
    show(&mut replay, r#"{"event":"tool_call","id":"2","name":"g","arguments":"b"}"#);
    show(&mut replay, r#"{"event":"tool_call","id":"1","name":"f","arguments":"c"}"#);
    assert_eq!(
        show(&mut replay, result),
        (vec!["tool f(c) = ok false".to_string()], false, false)
    );
    assert_eq!(show(&mut replay, result), orphan);
    assert_eq!(
        show(&mut replay, r#"{"event":"tool_result","tool_call_id":"2","content":"ok"}"#),
        (vec!["tool g(b) = ok false".to_string()], false, false)
    );
}

#[test]
fn other_lines_are_passed_over() {
    let mut replay = Replay::new();
    assert_eq!(show(&mut replay, "  "), (vec![], false, false));
    let (said, pause, over) = show(&mut replay, "{");
    assert_eq!(
        said,
        vec!["complain skip malformed line 3: EOF while parsing an object at line 1 column 1"]
    );
    assert!(!pause && !over);
    let showing = replay.show_outcome(&Err("broken".to_string()), 12);
    assert_eq!(words(&showing), vec!["complain skip malformed line 12: broken"]);
}

#[test]
fn a_replay_is_announced() {
    assert_eq!(
        opening_note("a.jsonl", 30, 2000, 1000),
        "Replaying session from a.jsonl (type=30ms/char, tool=2000ms, gap=1000ms)"
    );
}

#[test]
fn a_message_is_typed_character_by_character() {
    let typing = type_user_message("hé");
    assert_eq!(typing.opening, "\n\n\n\n\n\x1b[4F\x1b[1;37m>\x1b[0m ");
    assert_eq!(typing.keys, vec!["\x1b[37mh\x1b[0m", "\x1b[37mé\x1b[0m"]);
    assert_eq!(typing.closing, "\n\n");
    assert!(type_user_message("").keys.is_empty());
}
