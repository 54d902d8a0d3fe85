pub mod digest;
pub mod progress;
pub mod rate_limit;
pub mod translation;
