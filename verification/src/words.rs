//! The words that documents are told by, and that they differ.

use vstd::prelude::*;

verus! {

/// How long each word is, and that words of one length differ.
pub proof fn lemma_words()
    ensures
        "id"@.len() == 2,
        "ts"@.len() == 2,
        "name"@.len() == 4,
        "role"@.len() == 4,
        "type"@.len() == 4,
        "user"@.len() == 4,
        "tool"@.len() == 4,
        "event"@.len() == 5,
        "model"@.len() == 5,
        "tools"@.len() == 5,
        "order"@.len() == 5,
        "error"@.len() == 5,
        "events"@.len() == 6,
        "system"@.len() == 6,
        "content"@.len() == 7,
        "message"@.len() == 7,
        "function"@.len() == 8,
        "base_url"@.len() == 8,
        "is_error"@.len() == 8,
        "messages"@.len() == 8,
        "provider"@.len() == 8,
        "metadata"@.len() == 8,
        "arguments"@.len() == 9,
        "tool_call"@.len() == 9,
        "assistant"@.len() == 9,
        "tool_calls"@.len() == 10,
        "parameters"@.len() == 10,
        "session_id"@.len() == 10,
        "description"@.len() == 11,
        "tool_result"@.len() == 11,
        "session_end"@.len() == 11,
        "tool_call_id"@.len() == 12,
        "system_prompt"@.len() == 13,
        "session_start"@.len() == 13,
        "provider_name"@.len() == 13,
        "allow_fallbacks"@.len() == 15,
        "raw"@.len() == 3,
        "/exit"@.len() == 5,
        "/quit"@.len() == 5,
        "id"@ != "ts"@,
        "name"@ != "role"@,
        "name"@ != "type"@,
        "name"@ != "user"@,
        "name"@ != "tool"@,
        "role"@ != "type"@,
        "role"@ != "user"@,
        "role"@ != "tool"@,
        "type"@ != "user"@,
        "type"@ != "tool"@,
        "user"@ != "tool"@,
        "event"@ != "model"@,
        "event"@ != "tools"@,
        "event"@ != "order"@,
        "event"@ != "error"@,
        "event"@ != "/exit"@,
        "event"@ != "/quit"@,
        "model"@ != "tools"@,
        "model"@ != "order"@,
        "model"@ != "error"@,
        "model"@ != "/exit"@,
        "model"@ != "/quit"@,
        "tools"@ != "order"@,
        "tools"@ != "error"@,
        "tools"@ != "/exit"@,
        "tools"@ != "/quit"@,
        "order"@ != "error"@,
        "order"@ != "/exit"@,
        "order"@ != "/quit"@,
        "error"@ != "/exit"@,
        "error"@ != "/quit"@,
        "/exit"@ != "/quit"@,
        "events"@ != "system"@,
        "content"@ != "message"@,
        "function"@ != "base_url"@,
        "function"@ != "is_error"@,
        "function"@ != "messages"@,
        "function"@ != "provider"@,
        "function"@ != "metadata"@,
        "base_url"@ != "is_error"@,
        "base_url"@ != "messages"@,
        "base_url"@ != "provider"@,
        "base_url"@ != "metadata"@,
        "is_error"@ != "messages"@,
        "is_error"@ != "provider"@,
        "is_error"@ != "metadata"@,
        "messages"@ != "provider"@,
        "messages"@ != "metadata"@,
        "provider"@ != "metadata"@,
        "arguments"@ != "tool_call"@,
        "arguments"@ != "assistant"@,
        "tool_call"@ != "assistant"@,
        "tool_calls"@ != "parameters"@,
        "tool_calls"@ != "session_id"@,
        "parameters"@ != "session_id"@,
        "description"@ != "tool_result"@,
        "description"@ != "session_end"@,
        "tool_result"@ != "session_end"@,
        "system_prompt"@ != "session_start"@,
        "system_prompt"@ != "provider_name"@,
        "session_start"@ != "provider_name"@,
{
    reveal_strlit("id");
    reveal_strlit("ts");
    reveal_strlit("name");
    reveal_strlit("role");
    reveal_strlit("type");
    reveal_strlit("user");
    reveal_strlit("tool");
    reveal_strlit("event");
    reveal_strlit("model");
    reveal_strlit("tools");
    reveal_strlit("order");
    reveal_strlit("error");
    reveal_strlit("events");
    reveal_strlit("system");
    reveal_strlit("content");
    reveal_strlit("message");
    reveal_strlit("function");
    reveal_strlit("base_url");
    reveal_strlit("is_error");
    reveal_strlit("messages");
    reveal_strlit("provider");
    reveal_strlit("metadata");
    reveal_strlit("arguments");
    reveal_strlit("tool_call");
    reveal_strlit("assistant");
    reveal_strlit("tool_calls");
    reveal_strlit("parameters");
    reveal_strlit("session_id");
    reveal_strlit("description");
    reveal_strlit("tool_result");
    reveal_strlit("session_end");
    reveal_strlit("tool_call_id");
    reveal_strlit("system_prompt");
    reveal_strlit("session_start");
    reveal_strlit("provider_name");
    reveal_strlit("allow_fallbacks");
    reveal_strlit("raw");
    reveal_strlit("/exit");
    reveal_strlit("/quit");
    assert("id"@[0] == 'i' && "ts"@[0] == 't');
    assert("name"@[0] == 'n' && "role"@[0] == 'r');
    assert("name"@[0] == 'n' && "type"@[0] == 't');
    assert("name"@[0] == 'n' && "user"@[0] == 'u');
    assert("name"@[0] == 'n' && "tool"@[0] == 't');
    assert("role"@[0] == 'r' && "type"@[0] == 't');
    assert("role"@[0] == 'r' && "user"@[0] == 'u');
    assert("role"@[0] == 'r' && "tool"@[0] == 't');
    assert("type"@[0] == 't' && "user"@[0] == 'u');
    assert("type"@[1] == 'y' && "tool"@[1] == 'o');
    assert("user"@[0] == 'u' && "tool"@[0] == 't');
    assert("event"@[0] == 'e' && "model"@[0] == 'm');
    assert("event"@[0] == 'e' && "tools"@[0] == 't');
    assert("event"@[0] == 'e' && "order"@[0] == 'o');
    assert("event"@[1] == 'v' && "error"@[1] == 'r');
    assert("event"@[0] == 'e' && "/exit"@[0] == '/');
    assert("event"@[0] == 'e' && "/quit"@[0] == '/');
    assert("model"@[0] == 'm' && "tools"@[0] == 't');
    assert("model"@[0] == 'm' && "order"@[0] == 'o');
    assert("model"@[0] == 'm' && "error"@[0] == 'e');
    assert("model"@[0] == 'm' && "/exit"@[0] == '/');
    assert("model"@[0] == 'm' && "/quit"@[0] == '/');
    assert("tools"@[0] == 't' && "order"@[0] == 'o');
    assert("tools"@[0] == 't' && "error"@[0] == 'e');
    assert("tools"@[0] == 't' && "/exit"@[0] == '/');
    assert("tools"@[0] == 't' && "/quit"@[0] == '/');
    assert("order"@[0] == 'o' && "error"@[0] == 'e');
    assert("order"@[0] == 'o' && "/exit"@[0] == '/');
    assert("order"@[0] == 'o' && "/quit"@[0] == '/');
    assert("error"@[0] == 'e' && "/exit"@[0] == '/');
    assert("error"@[0] == 'e' && "/quit"@[0] == '/');
    assert("/exit"@[1] == 'e' && "/quit"@[1] == 'q');
    assert("events"@[0] == 'e' && "system"@[0] == 's');
    assert("content"@[0] == 'c' && "message"@[0] == 'm');
    assert("function"@[0] == 'f' && "base_url"@[0] == 'b');
    assert("function"@[0] == 'f' && "is_error"@[0] == 'i');
    assert("function"@[0] == 'f' && "messages"@[0] == 'm');
    assert("function"@[0] == 'f' && "provider"@[0] == 'p');
    assert("function"@[0] == 'f' && "metadata"@[0] == 'm');
    assert("base_url"@[0] == 'b' && "is_error"@[0] == 'i');
    assert("base_url"@[0] == 'b' && "messages"@[0] == 'm');
    assert("base_url"@[0] == 'b' && "provider"@[0] == 'p');
    assert("base_url"@[0] == 'b' && "metadata"@[0] == 'm');
    assert("is_error"@[0] == 'i' && "messages"@[0] == 'm');
    assert("is_error"@[0] == 'i' && "provider"@[0] == 'p');
    assert("is_error"@[0] == 'i' && "metadata"@[0] == 'm');
    assert("messages"@[0] == 'm' && "provider"@[0] == 'p');
    assert("messages"@[2] == 's' && "metadata"@[2] == 't');
    assert("provider"@[0] == 'p' && "metadata"@[0] == 'm');
    assert("arguments"@[0] == 'a' && "tool_call"@[0] == 't');
    assert("arguments"@[1] == 'r' && "assistant"@[1] == 's');
    assert("tool_call"@[0] == 't' && "assistant"@[0] == 'a');
    assert("tool_calls"@[0] == 't' && "parameters"@[0] == 'p');
    assert("tool_calls"@[0] == 't' && "session_id"@[0] == 's');
    assert("parameters"@[0] == 'p' && "session_id"@[0] == 's');
    assert("description"@[0] == 'd' && "tool_result"@[0] == 't');
    assert("description"@[0] == 'd' && "session_end"@[0] == 's');
    assert("tool_result"@[0] == 't' && "session_end"@[0] == 's');
    assert("system_prompt"@[1] == 'y' && "session_start"@[1] == 'e');
    assert("system_prompt"@[0] == 's' && "provider_name"@[0] == 'p');
    assert("session_start"@[0] == 's' && "provider_name"@[0] == 'p');
}

} // verus!
