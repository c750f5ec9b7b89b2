//! Request-path templating, tool-argument shaping and the per-stream decision
//! logic of an LLM gateway filter pair.
pub mod text;

pub mod path;
pub mod tools;
pub mod tokenizer;
pub mod openai;
pub mod errors;
pub mod prompt_gateway;
pub mod llm_gateway;
pub mod ratelimit;
