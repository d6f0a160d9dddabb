# mcp-chat

A small command line program that drives any Streamable HTTP MCP server with any
model behind OpenRouter, and a library, written and proved in Verus, that holds
everything it decides.

The library (`src/`) does no input or output. A chat is a machine: it is told
what happened, and answers with what is to be shown and logged and with one
action to take next. The program (`app/`) performs the action and reports back.

| Module | What it holds |
| --- | --- |
| `text`, `json`, `json_text` | text and JSON documents, reading and writing |
| `message`, `request`, `reply`, `bridge` | what is sent to the model and what comes back |
| `step`, `chat` | the chat as a machine |
| `sessionlog`, `history`, `report` | the session log, the conversation read from it, the report on a turn |
| `auth`, `mcp`, `headers` | tokens and headers of requests to the MCP server |
| `cli`, `ui`, `replay` | options, the terminal, the replay of a log |
| `session`, `calls`, `recall`, `playback` | what holds of a session as a whole |

## Flags

| Flag | Env | Default |
| --- | --- | --- |
| `--mcp-url` | `MCP_URL` | `http://localhost:8081/mcp` |
| `--auth-token-endpoint` | `AUTH_TOKEN_ENDPOINT` | (none: no auth) |
| `--auth-client-id` | `AUTH_CLIENT_ID` | (none) |
| `--auth-client-secret` | `AUTH_CLIENT_SECRET` | (none) |
| `--openrouter-api-key` | `OPENROUTER_API_KEY` | (required) |
| `--openrouter-base-url` | `OPENROUTER_BASE_URL` | `https://openrouter.ai/api/v1` |
| `--model` | `MODEL` | (required) |
| `--provider-order` | `OPENROUTER_PROVIDER_ORDER` | (none: auto-route) |
| `--system` | `SYSTEM_PROMPT` | (none) |
| `--verbose` | | off (only the tool's name and a spinner) |
| `--quiet` | | off |
| `--log-dir` | `MCP_CHAT_LOG_DIR` | `logs` |
| `--no-log` | | off (logging enabled) |
| `--mcp-header` | | (repeatable; `Name: Value`) |
| `--from-log` | | (none; requires `--prompt`) |
| `--prompt` | | (none; requires `--from-log` or `--session-id`) |
| `--session-id` | `MCP_CHAT_SESSION_ID` | (none) |

Under the name `mcp-replay` the program takes the path of a log, `--verbose`,
`--quiet`, `--type-delay-ms` (30), `--tool-delay-ms` (2000) and
`--event-delay-ms` (1000).

## What is proved

Of a session, among other things:

- the log mirrors the conversation: it grows by exactly the messages that the
  newly logged events stand for;
- a log that is read back gives the conversation that was recorded, and a chat
  of one turn on it goes on exactly where the recorded session stopped;
- every call of a tool is answered, in order, before the model is asked again;
- a failed turn never ends an interactive chat;
- a chat of one turn writes nothing to standard output but its report;
- a replay of a chat's log finds the call of every result.

Calls into `serde_json`, `chrono`, `http`, `base64` and `nu_ansi_term` stand
behind small functions marked `#[verifier::external_body]`, each with a comment
that says what is taken for granted of the outside function.
