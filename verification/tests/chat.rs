use mcp_chat::bridge::{to_openai_tools, McpTool};
use mcp_chat::chat::{
    decide_call, judge_outcome, resume, run, run_oneshot, CallDecision, Chat, ChatConfig, Phase,
};
use mcp_chat::history::load_history_from_log;
use mcp_chat::json::Json;
use mcp_chat::json_text::{json_to_value, parse_json};
use mcp_chat::message::{system_message, user_message};
use mcp_chat::replay::{Replay, Scene};
use mcp_chat::reply::{
    arguments_of, compose_error_message, extract_error_message, is_success, parse_args,
    ChatResponse, Choice, ResponseMessage, ToolCall, ToolCallFunction,
};
use mcp_chat::request::{endpoint, request_body};
use mcp_chat::sessionlog::SessionLog;
use mcp_chat::step::{stream_of, Action, Effect, Event, Failure, Step, Stream, ToolOutcome};
use mcp_chat::text::lines;

fn value(s: &str) -> serde_json::Value {
    serde_json::from_str(s).unwrap()
}

fn config(system_prompt: Option<&str>) -> ChatConfig {
    ChatConfig {
        api_key: "key".to_string(),
        base_url: "https://router/api/v1/".to_string(),
        model: "m/x".to_string(),
        system_prompt: system_prompt.map(str::to_string),
        provider_order: vec![],
    }
}

fn tools() -> Vec<McpTool> {
    vec![
        McpTool {
            name: "search".to_string(),
            description: Some("Finds things.".to_string()),
            input_schema: parse_json(r#"{"type":"object","properties":{}}"#).ok().unwrap(),
        },
        McpTool { name: "noop".to_string(), description: None, input_schema: Json::object() },
    ]
}

fn call(id: &str, name: &str, arguments: &str) -> ToolCall {
    ToolCall {
        id: id.to_string(),
        kind: Some("function".to_string()),
        function: ToolCallFunction { name: name.to_string(), arguments: arguments.to_string() },
    }
}

fn reply(content: Option<&str>, tool_calls: Option<Vec<ToolCall>>) -> Event {
    Event::Parsed(ChatResponse {
        choices: vec![Choice {
            message: ResponseMessage { content: content.map(str::to_string), tool_calls },
        }],
    })
}

fn ok_body(body: &str) -> Event {
    Event::Reply { status: 200, body: body.to_string() }
}

fn answer(text: &str) -> Event {
    Event::ToolDone(ToolOutcome::Replied { text: Some(text.to_string()), is_error: None })
}

fn failure(s: &str) -> Failure {
    Failure::new(s.to_string())
}

fn shown(step: &Step) -> Vec<String> {
    step.effects
        .iter()
        .map(|effect| match effect {
            Effect::Log(event) => format!("log {}", event.get_str("event").unwrap()),
            Effect::ToolBegin { name, arguments } => format!("begin {}({})", name, arguments),
            Effect::ToolEnd { text, is_error } => format!("end {} {}", text, is_error),
            Effect::Say(s) => format!("say {}", s),
            Effect::Complain(s) => format!("complain {}", s),
            Effect::Note(s) => format!("note {}", s),
            Effect::Blank => "blank".to_string(),
            Effect::Pad(rows) => format!("pad {}", rows),
            Effect::Remember(s) => format!("remember {}", s),
        })
        .collect()
}

fn record(log: &mut SessionLog, step: Step) -> Action {
    for effect in step.effects {
        if let Effect::Log(event) = effect {
            log.write(event);
        }
    }
    step.action
}

fn messages(action: &Action) -> Vec<serde_json::Value> {
    match action {
        Action::Post { body, .. } => {
            json_to_value(body)["messages"].as_array().unwrap().to_vec()
        }
        _ => panic!("a request expected"),
    }
}

fn conversation(chat: &Chat) -> Vec<serde_json::Value> {
    chat.history.iter().map(json_to_value).collect()
}

#[test]
fn a_turn_goes_from_reply_to_calls_to_reply() {
    let (chat, step) = run(config(Some("be kind")), &tools());
    assert_eq!(
        shown(&step),
        vec![
            "note Connected to MCP. 2 tool(s) available: search, noop",
            "log session_start",
            "blank",
            "pad 4"
        ]
    );
    assert!(matches!(step.action, Action::ReadLine));

    let (chat, step) = resume(chat, Event::Line("  find it \n".to_string()));
    assert_eq!(shown(&step), vec!["remember find it", "blank", "log user"]);
    match &step.action {
        Action::Post { url, api_key, body } => {
            assert_eq!(url, "https://router/api/v1/chat/completions");
            assert_eq!(api_key, "key");
            let body = json_to_value(body);
            assert_eq!(body["model"], "m/x");
            assert_eq!(body["tools"].as_array().unwrap().len(), 2);
            assert!(body.get("provider").is_none());
        }
        _ => panic!("a request expected"),
    }
    assert_eq!(
        messages(&step.action),
        vec![
            value(r#"{"role":"system","content":"be kind"}"#),
            value(r#"{"role":"user","content":"find it"}"#)
        ]
    );

    let (chat, step) = resume(chat, ok_body("{}"));
    assert!(shown(&step).is_empty());
    assert!(matches!(&step.action, Action::Parse(body) if body == "{}"));

    let calls = vec![call("c1", "search", " {\"q\":\"x\"} "), call("c2", "noop", "{oops")];
    let (chat, step) = resume(chat, reply(None, Some(calls)));
    assert_eq!(
        shown(&step),
        vec!["log assistant", "log tool_call", "begin search( {\"q\":\"x\"} )"]
    );
    match &step.action {
        Action::CallTool { name, arguments: Some(arguments) } => {
            assert_eq!(name, "search");
            assert_eq!(json_to_value(arguments), value(r#"{"q":"x"}"#));
        }
        _ => panic!("a call expected"),
    }

    let (chat, step) = resume(chat, answer("{\"hits\":1}"));
    assert_eq!(
        shown(&step),
        vec![
            "end {\"hits\":1} false",
            "log tool_result",
            "log tool_call",
            "begin noop({oops)",
            "end invalid JSON arguments: key must be a string at line 1 column 2 true",
            "log tool_result"
        ]
    );
    assert_eq!(
        messages(&step.action)[2..],
        [
            value(
                r#"{"role":"assistant","content":null,"tool_calls":[
                {"id":"c1","type":"function",
                 "function":{"name":"search","arguments":" {\"q\":\"x\"} "}},
                {"id":"c2","type":"function","function":{"name":"noop","arguments":"{oops"}}]}"#
            ),
            value(r#"{"role":"tool","tool_call_id":"c1","content":"{\"hits\":1}"}"#),
            value(
                r#"{"role":"tool","tool_call_id":"c2",
                "content":"invalid JSON arguments: key must be a string at line 1 column 2"}"#
            ),
        ]
    );

    let (chat, _) = resume(chat, ok_body("{}"));
    let (chat, step) = resume(chat, reply(Some("Here it is."), None));
    assert_eq!(shown(&step), vec!["log assistant", "say Here it is.", "blank", "pad 4"]);
    assert!(matches!(step.action, Action::ReadLine));
    assert_eq!(
        conversation(&chat).last(),
        Some(&value(r#"{"role":"assistant","content":"Here it is."}"#))
    );
}

#[test]
fn an_empty_line_asks_again() {
    let (chat, _) = run(config(None), &vec![]);
    let (chat, step) = resume(chat, Event::Line(" \t ".to_string()));
    assert_eq!(shown(&step), vec!["blank", "pad 4"]);
    assert!(matches!(step.action, Action::ReadLine));
    assert!(chat.history.is_empty());
}

#[test]
fn the_user_can_leave() {
    for line in ["/exit", " /quit "] {
        let (chat, _) = run(config(None), &vec![]);
        let (_, step) = resume(chat, Event::Line(line.to_string()));
        assert_eq!(shown(&step), vec!["log session_end"]);
        assert!(matches!(step.action, Action::Exit(Ok(()))));
    }
    let (chat, _) = run(config(None), &vec![]);
    let (_, step) = resume(chat, Event::EndOfInput);
    assert_eq!(shown(&step), vec!["log session_end"]);
    assert!(matches!(step.action, Action::Exit(Ok(()))));
    let (chat, _) = run(config(None), &vec![]);
    let (_, step) = resume(chat, Event::InputFailed(failure("no terminal")));
    assert!(shown(&step).is_empty());
    assert!(matches!(step.action, Action::Exit(Err(f)) if f.message() == "no terminal"));
}

#[test]
fn an_interactive_chat_survives_failures() {
    let events = vec![
        (Event::SendFailed(failure("no route")),
         "POST https://router/api/v1/chat/completions: no route"),
        (Event::ReadFailed(failure("cut off")), "read OpenRouter response body: cut off"),
        (Event::Reply { status: 404, body: "nothing".to_string() },
         "OpenRouter 404 Not Found: nothing"),
        (Event::Reply {
            status: 400,
            body: r#"{"error":{"message":"Provider returned error"}}"#.to_string(),
         },
         "OpenRouter 400 Bad Request: Provider returned error"),
    ];
    for (event, message) in events {
        let (chat, _) = run(config(None), &vec![]);
        let (chat, _) = resume(chat, Event::Line("hi".to_string()));
        let (chat, step) = resume(chat, event);
        assert_eq!(
            shown(&step),
            vec![format!("complain {}", message), "log error".to_string(), "blank".to_string(),
                 "pad 4".to_string()]
        );
        assert!(matches!(step.action, Action::ReadLine));
        assert_eq!(chat.history.len(), 1);
        let (chat, step) = resume(chat, Event::Line("again".to_string()));
        assert_eq!(messages(&step.action).len(), 2);
        assert!(matches!(chat.phase, Phase::Sent));
    }
}

#[test]
fn a_reply_must_be_one() {
    let after_body = |event: Event| {
        let (chat, _) = run(config(None), &vec![]);
        let (chat, _) = resume(chat, Event::Line("hi".to_string()));
        let (chat, _) = resume(chat, ok_body("[1]"));
        resume(chat, event).1
    };
    assert_eq!(
        shown(&after_body(Event::Unparsable(failure("not a map"))))[0],
        "complain parse OpenRouter success body: [1]: not a map"
    );
    assert_eq!(
        shown(&after_body(Event::Parsed(ChatResponse { choices: vec![] })))[0],
        "complain OpenRouter response had no choices"
    );
}

#[test]
fn a_chat_of_one_turn_ends_with_it() {
    let prior = vec![user_message("earlier")];
    let (chat, step) = run_oneshot(config(Some("sys")), &vec![], prior, "now".to_string());
    assert_eq!(shown(&step), vec!["log session_start", "log user"]);
    assert_eq!(
        messages(&step.action),
        vec![
            value(r#"{"role":"system","content":"sys"}"#),
            value(r#"{"role":"user","content":"earlier"}"#),
            value(r#"{"role":"user","content":"now"}"#)
        ]
    );
    match &step.action {
        Action::Post { body, .. } => assert!(json_to_value(body).get("tools").is_none()),
        _ => panic!("a request expected"),
    }
    let (chat, _) = resume(chat, ok_body("{}"));
    let (chat, step) = resume(chat, reply(None, Some(vec![])));
    assert_eq!(shown(&step), vec!["log assistant", "log session_end"]);
    assert!(matches!(step.action, Action::Exit(Ok(()))));
    assert!(matches!(chat.phase, Phase::Over));
}

#[test]
fn a_chat_of_one_turn_fails_with_it() {
    let (chat, _) = run_oneshot(config(None), &vec![], vec![], "now".to_string());
    let (_, step) = resume(chat, Event::Reply { status: 500, body: String::new() });
    assert_eq!(
        shown(&step),
        vec!["complain OpenRouter 500 Internal Server Error: ", "log error"]
    );
    assert!(matches!(
        step.action,
        Action::Exit(Err(f)) if f.message() == "OpenRouter 500 Internal Server Error: "
    ));
}

#[test]
fn a_conversation_has_one_system_prompt() {
    let prior = vec![system_message("old"), user_message("earlier")];
    let (chat, _) = run_oneshot(config(Some("new")), &vec![], prior, "now".to_string());
    assert_eq!(chat.history.len(), 3);
    assert_eq!(chat.history[0].get_str("content"), Some("old"));
    let (chat, _) = run_oneshot(config(None), &vec![], vec![], "now".to_string());
    assert_eq!(chat.history.len(), 1);
}

#[test]
fn a_chat_of_one_turn_continues_a_session() {
    let mut log = SessionLog::open_buffer();
    let (chat, step) = run(config(Some("sys")), &tools());
    record(&mut log, step);
    let (chat, step) = resume(chat, Event::Line("find it".to_string()));
    record(&mut log, step);
    let (chat, step) = resume(chat, ok_body("{}"));
    record(&mut log, step);
    let calls = vec![call("c1", "search", ""), call("c2", "noop", "[1]")];
    let (chat, step) = resume(chat, reply(Some("wait"), Some(calls)));
    record(&mut log, step);
    let (chat, step) = resume(chat, answer("a"));
    record(&mut log, step);
    let (chat, step) = resume(chat, answer("b"));
    record(&mut log, step);
    let (chat, step) = resume(chat, Event::SendFailed(failure("no route")));
    record(&mut log, step);
    let (chat, step) = resume(chat, Event::EndOfInput);
    assert!(matches!(record(&mut log, step), Action::Exit(Ok(()))));

    let loaded = load_history_from_log(&lines(log.captured()));
    assert!(loaded.warnings.is_empty());
    let (next, _) =
        run_oneshot(config(Some("sys")), &tools(), loaded.messages, "go on".to_string());
    let mut expected = conversation(&chat);
    expected.push(value(r#"{"role":"user","content":"go on"}"#));
    assert_eq!(conversation(&next), expected);
}

#[test]
fn chats_with_one_session_id_are_one_conversation() {
    let mut text = String::new();
    let mut expected = vec![value(r#"{"role":"system","content":"sys"}"#)];
    for prompt in ["one", "two", "three"] {
        let mut log = SessionLog::open_with_id_tee("logs", "s1");
        let prior = load_history_from_log(&lines(&text)).messages;
        let (chat, step) = run_oneshot(config(Some("sys")), &tools(), prior, prompt.to_string());
        record(&mut log, step);
        expected.push(json_to_value(&user_message(prompt)));
        assert_eq!(conversation(&chat), expected);
        let (chat, step) = resume(chat, ok_body("{}"));
        record(&mut log, step);
        let (chat, step) = resume(chat, reply(Some(prompt), None));
        record(&mut log, step);
        expected = conversation(&chat);
        while let Some(line) = log.next_line() {
            text.push_str(line);
            log.delivered(true);
        }
        assert!(text.ends_with(log.captured()));
    }
    assert_eq!(expected.len(), 7);
}

#[test]
fn a_chat_of_one_turn_keeps_standard_output_clean() {
    let clean = |step: &Step| {
        step.effects.iter().all(|effect| stream_of(effect, false) != Some(Stream::Output))
    };
    let (chat, step) = run_oneshot(config(None), &tools(), vec![], "now".to_string());
    assert!(clean(&step));
    let (chat, step) = resume(chat, ok_body("{}"));
    assert!(clean(&step));
    let (chat, step) = resume(chat, reply(Some("x"), Some(vec![call("c1", "noop", "")])));
    assert!(clean(&step));
    let (chat, step) = resume(chat, answer("a"));
    assert!(clean(&step));
    let (chat, step) = resume(chat, ok_body("{}"));
    assert!(clean(&step));
    let (_, step) = resume(chat, reply(Some("done"), None));
    assert!(clean(&step));
    assert_eq!(shown(&step), vec!["log assistant", "say done", "log session_end"]);
}

#[test]
fn a_replay_of_a_chat_finds_every_call() {
    let mut log = SessionLog::open_buffer();
    let (chat, step) = run(config(None), &tools());
    record(&mut log, step);
    let (chat, step) = resume(chat, Event::Line("go".to_string()));
    record(&mut log, step);
    let (chat, step) = resume(chat, ok_body("{}"));
    record(&mut log, step);
    let calls =
        vec![call("same", "noop", "{"), call("same", "search", "{}"), call("c", "noop", "")];
    let (chat, step) = resume(chat, reply(None, Some(calls)));
    record(&mut log, step);
    let failed = Event::ToolDone(ToolOutcome::Failed(failure("gone")));
    let (chat, step) = resume(chat, failed);
    record(&mut log, step);
    let (chat, step) = resume(chat, answer("ok"));
    record(&mut log, step);
    let (chat, step) = resume(chat, Event::ReadFailed(failure("cut off")));
    record(&mut log, step);
    let (_, step) = resume(chat, Event::EndOfInput);
    record(&mut log, step);

    let mut replay = Replay::new();
    let mut seen: Vec<String> = vec![];
    for (i, line) in lines(log.captured()).iter().enumerate() {
        for scene in replay.show_line(line, i as u64 + 1).scenes {
            match scene {
                Scene::Tool { name, text, is_error, .. } => {
                    seen.push(format!("{} {} {}", name, text, is_error))
                }
                Scene::Complain(message) => seen.push(format!("complain {}", message)),
                _ => {}
            }
        }
    }
    assert_eq!(
        seen,
        vec![
            "noop invalid JSON arguments: EOF while parsing an object at line 1 column 1 true",
            "search tool error: MCP tools/call failed: gone true",
            "noop ok false",
            "complain read OpenRouter response body: cut off"
        ]
    );
}

#[test]
fn outcomes_are_told_to_the_model() {
    let told = |outcome: ToolOutcome| judge_outcome(outcome);
    assert_eq!(
        told(ToolOutcome::Replied { text: Some("x".to_string()), is_error: Some(true) }),
        ("x".to_string(), true)
    );
    assert_eq!(
        told(ToolOutcome::Replied { text: None, is_error: Some(false) }),
        ("(unserializable tool result)".to_string(), false)
    );
    assert_eq!(
        told(ToolOutcome::Failed(failure("gone"))),
        ("tool error: MCP tools/call failed: gone".to_string(), true)
    );
}

#[test]
fn arguments_are_objects_or_nothing() {
    let parsed = |s: &str| parse_args(s).map(|a| a.map(|a| json_to_value(&a)));
    assert_eq!(parsed("").ok(), Some(None));
    assert_eq!(parsed(" \n").ok(), Some(None));
    assert_eq!(parsed("[1]").ok(), Some(None));
    assert_eq!(parsed("null").ok(), Some(None));
    assert_eq!(parsed(" {\"a\":1} ").ok(), Some(Some(value("{\"a\":1}"))));
    assert_eq!(parsed("{").err().unwrap(), "EOF while parsing an object at line 1 column 1");
    assert!(matches!(arguments_of(Ok(Json::text("x"))), Ok(None)));
    assert!(matches!(arguments_of(Ok(Json::object())), Ok(Some(_))));
    assert!(matches!(arguments_of(Err("e".to_string())), Err(e) if e == "e"));
    assert!(matches!(
        decide_call(Err("e".to_string())),
        CallDecision::Refuse(s) if s == "invalid JSON arguments: e"
    ));
    assert!(matches!(decide_call(Ok(None)), CallDecision::Make(None)));
}

#[test]
fn error_envelopes_are_unwrapped() {
    assert_eq!(extract_error_message("plain"), "plain");
    assert_eq!(extract_error_message("{}"), "{}");
    assert_eq!(extract_error_message("[1]"), "[1]");
    assert_eq!(
        extract_error_message(
            r#"{"error":{"message":"Provider returned error","code":400,"metadata":
            {"raw":"{\"message\":\"too long\"}","provider_name":"Bedrock"}}}"#
        ),
        "Provider returned error (provider: Bedrock) — too long"
    );
    assert_eq!(
        extract_error_message(r#"{"error":{"metadata":{"raw":"not json","provider_name":"P"}}}"#),
        "(provider: P)"
    );
    assert_eq!(
        extract_error_message(r#"{"error":{"metadata":{"raw":"{\"message\":\"m\"}"}}}"#),
        "— m"
    );
    let envelope = parse_json(r#"{"error":{"message":"m"}}"#).ok().unwrap();
    let inner = Json::object().with("message", Json::text("i"));
    assert_eq!(compose_error_message("b", &envelope, Some(&inner)), "m — i");
    assert_eq!(compose_error_message("b", &Json::Null, None), "b");
}

#[test]
fn statuses_report_success_or_not() {
    for (status, success) in [(199, false), (200, true), (204, true), (299, true), (300, false)] {
        assert_eq!(is_success(status), success);
    }
}

#[test]
fn requests_pin_the_providers_that_are_named() {
    let mut cfg = config(None);
    cfg.provider_order = vec!["anthropic".to_string(), "google-vertex".to_string()];
    let body = json_to_value(&request_body(&cfg, &vec![], &vec![user_message("hi")]));
    assert_eq!(
        body,
        value(
            r#"{"model":"m/x","messages":[{"role":"user","content":"hi"}],
            "provider":{"order":["anthropic","google-vertex"],"allow_fallbacks":false}}"#
        )
    );
}

#[test]
fn the_endpoint_is_below_the_base() {
    assert_eq!(endpoint("https://b"), "https://b/chat/completions");
    assert_eq!(endpoint("https://b///"), "https://b/chat/completions");
}

#[test]
fn tools_are_described_to_the_model() {
    let entries: Vec<serde_json::Value> =
        to_openai_tools(&tools()).iter().map(json_to_value).collect();
    assert_eq!(
        entries,
        vec![
            value(
                r#"{"type":"function","function":{"name":"search","description":"Finds things.",
                "parameters":{"type":"object","properties":{}}}}"#
            ),
            value(r#"{"type":"function","function":{"name":"noop","parameters":{}}}"#),
        ]
    );
}
