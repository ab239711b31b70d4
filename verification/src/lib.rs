//! A digest agent's verified core: configuration, keyword filtering,
//! item mapping for each source, prompt and message building, and the
//! decisions of a collection run.
pub mod text;
pub mod time;
pub mod json;
pub mod config;
pub mod models;
pub mod source;
pub mod pipeline;
pub mod llm;
pub mod email;
pub mod store;
