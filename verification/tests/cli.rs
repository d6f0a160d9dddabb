use mcp_chat::cli::{
    auth_config, auth_note, choose_mode, history_note, interactive_log, log_note, model_note,
    oneshot_log, provider_order, Auth, Mode,
};
use mcp_chat::headers::{forwarding_note, parse_header, parse_headers, HeaderError};

fn some(s: &str) -> Option<String> {
    Some(s.to_string())
}

fn owned(list: &[&str]) -> Vec<String> {
    list.iter().map(|s| s.to_string()).collect()
}

#[test]
fn auth_takes_all_three_options_or_none() {
    match auth_config(some("https://a"), some("id"), some("secret")) {
        Ok(Auth::OAuth { endpoint, client_id, client_secret }) => {
            assert_eq!(endpoint, "https://a");
            assert_eq!(client_id, "id");
            assert_eq!(client_secret, "secret");
        }
        _ => panic!("tokens expected"),
    }
    assert!(matches!(auth_config(None, None, None), Ok(Auth::Open)));
    let partial = [
        (some("e"), None, None),
        (None, some("i"), None),
        (None, None, some("s")),
        (some("e"), some("i"), None),
        (some("e"), None, some("s")),
        (None, some("i"), some("s")),
    ];
    for (e, i, s) in partial {
        let failure = auth_config(e, i, s).err().unwrap();
        assert_eq!(
            failure.message(),
            "Partial auth config: set ALL of --auth-token-endpoint / --auth-client-id / \
             --auth-client-secret, or NONE."
        );
    }
}

#[test]
fn auth_is_remarked_on() {
    let auth = auth_config(some("https://a"), some("id"), some("secret")).ok().unwrap();
    assert_eq!(auth_note(&auth), "Authenticated via OAuth2 at https://a");
    assert_eq!(
        auth_note(&Auth::Open),
        "No auth configured — MCP requests will be sent without Authorization header."
    );
}

#[test]
fn providers_are_separated_by_commas() {
    assert_eq!(provider_order(None), Vec::<String>::new());
    assert_eq!(provider_order(Some("")), Vec::<String>::new());
    assert_eq!(provider_order(Some(" , ,")), Vec::<String>::new());
    assert_eq!(
        provider_order(Some(" anthropic, google-vertex ,,")),
        owned(&["anthropic", "google-vertex"])
    );
}

#[test]
fn the_model_is_remarked_on() {
    assert_eq!(
        model_note("https://openrouter.ai/api/v1", "openai/gpt-5.1", &vec![]),
        "Using OpenRouter (base=https://openrouter.ai/api/v1, \
         model=openai/gpt-5.1, auto-route)."
    );
    assert_eq!(
        model_note("b", "m", &owned(&["anthropic", "google-vertex"])),
        "Using OpenRouter (base=b, model=m, provider order=[anthropic,google-vertex])."
    );
}

#[test]
fn a_message_calls_for_one_turn() {
    match choose_mode(some("hi"), some("/tmp/x.jsonl"), Some("id"), "logs") {
        Ok(Mode::OneShot { prompt, history }) => {
            assert_eq!(prompt, "hi");
            assert_eq!(history, "/tmp/x.jsonl");
        }
        _ => panic!("one turn expected"),
    }
    match choose_mode(some("hi"), None, Some("id"), "logs") {
        Ok(Mode::OneShot { history, .. }) => assert_eq!(history, "logs/session-id.jsonl"),
        _ => panic!("one turn expected"),
    }
    assert!(matches!(choose_mode(None, None, None, "logs"), Ok(Mode::Interactive)));
    assert!(matches!(choose_mode(None, None, Some("id"), "logs"), Ok(Mode::Interactive)));
}

#[test]
fn a_message_and_a_log_go_together() {
    assert_eq!(
        choose_mode(None, some("x.jsonl"), Some("id"), "logs").err().unwrap().message(),
        "--from-log requires --prompt (one-shot mode). For REPL history reuse, \
         pass --session-id instead."
    );
    assert_eq!(
        choose_mode(some("hi"), None, None, "logs").err().unwrap().message(),
        "--prompt requires --from-log or --session-id."
    );
}

#[test]
fn the_earlier_conversation_is_remarked_on() {
    assert_eq!(history_note(Some(12), "a.jsonl"), "Loaded 12 messages from a.jsonl");
    assert_eq!(history_note(None, "a.jsonl"), "Starting from empty history.");
}

#[test]
fn a_session_reads_the_log_that_it_appends_to() {
    let log = oneshot_log("logs/", Some("s1"), false);
    let mode = choose_mode(some("hi"), None, Some("s1"), "logs/").ok().unwrap();
    match mode {
        Mode::OneShot { history, .. } => assert_eq!(log.path, Some(history)),
        Mode::Interactive => panic!("one turn expected"),
    }
    assert_eq!(oneshot_log("logs", Some("s1"), true).path, None);
    assert_eq!(oneshot_log("logs", None, false).path, None);
}

#[test]
fn an_interactive_chat_has_a_log_unless_switched_off() {
    assert!(interactive_log("logs", "m", Some("s1"), true).is_none());
    let named = interactive_log("", "m", Some("s1"), false).unwrap();
    assert_eq!(named.path.as_deref(), Some("session-s1.jsonl"));
    let path = interactive_log("logs", "openai/gpt 5", None, false).unwrap().path.unwrap();
    assert!(path.starts_with("logs/session-"), "{}", path);
    assert!(path.ends_with("Z-openai_gpt_5.jsonl"), "{}", path);
    assert_eq!(path.len(), "logs/session-20260514T123456Z-openai_gpt_5.jsonl".len());
    assert_eq!(log_note("p", true), "Logging session to p");
    assert_eq!(log_note("p", false), "Appending session to p");
}

#[test]
fn headers_are_read() {
    let raw = owned(&["X-Trace: 1", "authorization:Bearer a:b", " x-trace :  2 ", "X-Empty:"]);
    let map = parse_headers(&raw).ok().unwrap();
    let traces: Vec<&str> = map.get_all("x-trace").iter().map(|v| v.to_str().unwrap()).collect();
    assert_eq!(traces, vec!["1", "2"]);
    assert_eq!(map.get("authorization").unwrap(), "Bearer a:b");
    assert_eq!(map.get("x-empty").unwrap(), "");
    assert_eq!(
        forwarding_note(&map).as_deref(),
        Some("Forwarding extra MCP headers: x-trace, authorization, x-empty")
    );
}

#[test]
fn without_headers_nothing_is_remarked_on() {
    let map = parse_headers(&vec![]).ok().unwrap();
    assert!(map.is_empty());
    assert_eq!(forwarding_note(&map), None);
}

#[test]
fn improper_headers_are_refused() {
    let message = |h: &str| match parse_headers(&owned(&["A: b", h, "no colon"])) {
        Ok(_) => panic!("refusal expected"),
        Err(error) => error.failure().message(),
    };
    assert_eq!(
        message("no \"colon\""),
        "failed to parse --mcp-header: --mcp-header must be of the form 'Name: Value', \
         got: \"no \\\"colon\\\"\""
    );
    assert_eq!(
        message("bad name: x"),
        "failed to parse --mcp-header: invalid header name in --mcp-header: \"bad name: x\": \
         invalid HTTP header name"
    );
    assert_eq!(
        message(": x"),
        "failed to parse --mcp-header: invalid header name in --mcp-header: \": x\": \
         invalid HTTP header name"
    );
    assert_eq!(
        message("a: b\u{1}c"),
        "failed to parse --mcp-header: invalid header value in --mcp-header: \"a: b\\u{1}c\": \
         failed to parse header value"
    );
}

#[test]
fn every_ascii_character_is_judged_like_a_header() {
    for code in 0..128u8 {
        let c = code as char;
        if c == ':' || c.is_whitespace() {
            continue;
        }
        let as_name = parse_header(&format!("x{}x: v", c));
        assert_eq!(as_name.is_ok(), http::HeaderName::from_bytes(&[code]).is_ok(), "{:?}", c);
        let as_value = parse_header(&format!("n: x{}x", c));
        assert_eq!(
            as_value.is_ok(),
            http::HeaderValue::from_str(&c.to_string()).is_ok(),
            "{:?}",
            c
        );
    }
    let (name, value) = parse_header("X-Größe: 1").map_or_else(
        |e| (matches!(e, HeaderError::BadName(_)).to_string(), String::new()),
        |pair| pair,
    );
    assert_eq!((name.as_str(), value.as_str()), ("true", ""));
    let (name, value) = parse_header("X-Tab: größer\tals").ok().unwrap();
    assert_eq!((name.as_str(), value.as_str()), ("x-tab", "größer\tals"));
}

#[test]
fn names_have_a_longest_length() {
    let longest = "a".repeat(65535);
    assert!(parse_header(&format!("{}: v", longest)).is_ok());
    assert!(matches!(
        parse_header(&format!("{}a: v", longest)),
        Err(HeaderError::BadName(_))
    ));
}

#[test]
fn there_is_room_for_many_headers() {
    let raw: Vec<String> = (0..6554).map(|i| format!("x-{}: {}", i, i)).collect();
    let map = parse_headers(&raw).ok().unwrap();
    assert_eq!(map.keys_len(), 6554);
    assert_eq!(map.get("x-6553").unwrap(), "6553");
}

#[test]
fn there_is_no_room_for_all_headers() {
    let raw: Vec<String> = (0..40000).map(|i| format!("x-{}: v", i)).collect();
    assert!(matches!(parse_headers(&raw), Err(HeaderError::Full)));
    assert_eq!(
        HeaderError::Full.failure().message(),
        "failed to parse --mcp-header: too many headers"
    );
}

#[test]
fn one_name_has_room_for_any_number_of_values() {
    let raw: Vec<String> = (0..40000).map(|i| format!("x-one: {}", i)).collect();
    let map = parse_headers(&raw).ok().unwrap();
    assert_eq!(map.keys_len(), 1);
    assert_eq!(map.get_all("x-one").iter().count(), 40000);
}
