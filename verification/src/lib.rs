//! A chat between a user, a model behind an OpenRouter-style API, and the tools
//! of an MCP server: what is said, logged, shown and asked for, as functions of
//! what happens. Sending, reading and printing are left to the caller.

pub mod auth;
pub mod bridge;
pub mod calls;
pub mod chat;
pub mod cli;
pub mod headers;
pub mod history;
pub mod json;
pub mod json_text;
pub mod mcp;
pub mod message;
pub mod playback;
pub mod recall;
pub mod replay;
pub mod reply;
pub mod report;
pub mod request;
pub mod session;
pub mod sessionlog;
pub mod shapes;
pub mod step;
pub mod text;
pub mod turns;
pub mod ui;
pub mod words;
