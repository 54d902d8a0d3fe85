pub mod common;
pub mod openrouter;
pub mod prompts;
pub mod provider;
pub mod schema;
