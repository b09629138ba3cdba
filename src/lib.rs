mod clock;
pub mod decimal;
pub mod entry;
pub mod errors;
pub mod cache;
pub mod json;
pub mod config;
pub mod llm;
pub mod http;
