use vstd::prelude::*;

pub mod error;
pub mod text;
pub mod lines;
pub mod hints;
pub mod line_fmt;
pub mod wechat_fmt;
pub mod slack_fmt;
pub mod discord;
pub mod protocol;
pub mod json;
pub mod mqtt;
pub mod providers;
pub mod context;
pub mod prompt;
pub mod keyed;
pub mod runtime;
pub mod tools;
pub mod crypto;
pub mod line_hook;
pub mod whatsapp_hook;
pub mod wechat_hook;
pub mod slack_hook;
pub mod slack_api;
pub mod anthropic;
pub mod openai;
pub mod config;
pub mod cli;
pub mod a2a;
pub mod codex;
pub mod ollama;
pub mod embeddings;
pub mod wizard;
pub mod message;
pub mod outbound;
pub mod mcp;

verus! {

} // verus!
