//! Request-routing core for an Anthropic-compatible proxy in front of
//! OpenRouter: error taxonomy, configuration, role selection, prompt
//! adaptation, tool translation, JSON repair, wire-format conversion,
//! SSE framing and metrics bookkeeping.

pub mod text;
pub mod string_map;
pub mod errors;
pub mod patterns;
pub mod config;
pub mod rules_engine;
pub mod prompt_adapter;
pub mod router;
pub mod translator;
pub mod metrics;
pub mod streaming;
pub mod json_repair;
pub mod provider_types;
pub mod openrouter;
pub mod sse;
pub mod messages;
