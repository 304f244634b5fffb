//! A conversational coding agent core: a protocol-neutral conversation model,
//! a streaming accumulator that rebuilds text and tool calls from server-sent
//! fragments, adapters for two chat backends, and the task pipeline that drives
//! one request from plan to verification.

pub mod text;
pub mod json;
pub mod message;
pub mod stream;
pub mod openai;
pub mod tools;
pub mod executor;
pub mod plan;
pub mod pipeline;
pub mod gemini;
pub mod config;
pub mod cli;
