//! Client-side orchestration of conversations with a chat-completion
//! service: a branching conversation store, perspective-dependent rendering,
//! response extraction with usage accounting, and a tool-call pipeline.
pub mod chat_base;
pub mod chat_single;
pub mod chat_tool;
pub mod config;
pub mod directive;
pub mod errors;
pub mod json;
pub mod message;
pub mod response;
pub mod store;
pub mod stream;
pub mod text;
pub mod tool_run;
pub mod tools;
