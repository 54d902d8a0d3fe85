//! The JSON payloads of the progress and error events of a streamed
//! transcription.
use vstd::prelude::*;
use crate::api::translation::{json_string, push_json_string};
use crate::text::{decimal, push_decimal, push_decimal_wide, push_str};

verus! {

/// Payload of the event sent when a transcript is served from the cache.
pub const SERVED_FROM_CACHE_MESSAGE: &'static str = "{\"message\":\"served from cache\"}";

/// Payload of the event sent before the final transcript.
pub const FINALIZING_MESSAGE: &'static str = "{\"message\":\"finalizing transcript\"}";

/// A step taken for one chunk.
#[derive(Debug, Clone, Copy, PartialEq, Eq)]
pub enum ChunkStep {
    Transcribing,
    FillingWords,
    Summarizing,
    Stitching,
}

/// The words that describe a step.
pub open spec fn chunk_step_text(step: ChunkStep) -> Seq<char> {
    match step {
        ChunkStep::Transcribing => "transcribing chunk "@,
        ChunkStep::FillingWords => "filling word annotations "@,
        ChunkStep::Summarizing => "summarizing chunk "@,
        ChunkStep::Stitching => "stitching boundary "@,
    }
}

/// The progress payload of a step on chunk `index` of `total`: the message
/// counts chunks from 1, except for stitching, which names the boundary
/// before the chunk (boundary `index` of the transcript).
pub open spec fn chunk_step_json(step: ChunkStep, index: nat, total: nat) -> Seq<char> {
    let shown = if step == ChunkStep::Stitching {
        index
    } else {
        index + 1
    };
    "{\"message\":\""@ + chunk_step_text(step) + decimal(shown) + "/"@ + decimal(total)
        + "\",\"chunk_index\":"@ + decimal(index) + "}"@
}

/// The payload announcing how many chunks will be processed.
pub open spec fn processing_json(total: nat) -> Seq<char> {
    "{\"message\":\"processing "@ + decimal(total) + " chunks\",\"total_chunks\":"@ + decimal(total)
        + "}"@
}

/// A payload carrying only a message.
pub open spec fn message_json_text(message: Seq<char>) -> Seq<char> {
    "{\"message\":"@ + json_string(message) + "}"@
}

/// The payload announcing how many chunks will be processed.
pub fn processing_message(total: usize) -> (r: String)
    ensures
        r@ == processing_json(total as nat),
{
    let mut out = String::new();
    push_str(&mut out, "{\"message\":\"processing ");
    push_decimal(&mut out, total as u64);
    push_str(&mut out, " chunks\",\"total_chunks\":");
    push_decimal(&mut out, total as u64);
    push_str(&mut out, "}");
    out
}

/// The progress payload of `step` on chunk `index` of `total`.
pub fn chunk_step_message(step: ChunkStep, index: usize, total: usize) -> (r: String)
    ensures
        r@ == chunk_step_json(step, index as nat, total as nat),
{
    let mut out = String::new();
    push_str(&mut out, "{\"message\":\"");
    match step {
        ChunkStep::Transcribing => push_str(&mut out, "transcribing chunk "),
        ChunkStep::FillingWords => push_str(&mut out, "filling word annotations "),
        ChunkStep::Summarizing => push_str(&mut out, "summarizing chunk "),
        ChunkStep::Stitching => push_str(&mut out, "stitching boundary "),
    }
    let shown: u128 = match step {
        ChunkStep::Stitching => index as u128,
        _ => index as u128 + 1,
    };
    push_decimal_wide(&mut out, shown);
    push_str(&mut out, "/");
    push_decimal(&mut out, total as u64);
    push_str(&mut out, "\",\"chunk_index\":");
    push_decimal(&mut out, index as u64);
    push_str(&mut out, "}");
    out
}

/// A payload carrying only `message`, written as a JSON string.
pub fn message_json(message: &str) -> (r: String)
    ensures
        r@ == message_json_text(message@),
{
    let mut out = String::new();
    push_str(&mut out, "{\"message\":");
    push_json_string(&mut out, message);
    push_str(&mut out, "}");
    out
}

} // verus!
