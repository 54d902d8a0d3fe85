use vstd::prelude::*;

pub mod api;
pub mod audio;
pub mod constants;
pub mod llm;
pub mod streaming;
pub mod text;
pub mod transcribe;
pub mod types;

verus! {

} // verus!
