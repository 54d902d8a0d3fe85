//! Planning how long audio is cut into overlapping chunks.
//!
//! Each chunk is at most `CHUNK_TARGET_MS` long and consecutive chunks overlap
//! by `CHUNK_OVERLAP_MS`, which the stitching step later reconciles. The audio
//! itself is cut by an external tool; this module decides where.
use vstd::prelude::*;
use crate::text::str_equal;

verus! {

/// Target chunk length, in milliseconds.
pub const CHUNK_TARGET_MS: i64 = 90000;

/// Overlap between consecutive chunks, in milliseconds.
pub const CHUNK_OVERLAP_MS: i64 = 15000;

/// Distance between the starts of consecutive chunks, in milliseconds.
pub const CHUNK_STRIDE_MS: i64 = 75000;

/// A planned chunk: its position in the sequence and its time span.
#[derive(Debug, Clone, Copy, PartialEq, Eq)]
pub struct ChunkSpan {
    pub index: usize,
    pub start_ms: i64,
    pub end_ms: i64,
}

/// A slice of the recording ready for a model call.
#[derive(Debug)]
pub struct AudioChunk {
    pub index: usize,
    pub bytes: Vec<u8>,
    pub start_ms: i64,
    pub end_ms: i64,
}

/// Why no chunk plan exists.
#[derive(Debug, Clone, Copy, PartialEq, Eq)]
pub enum ChunkPlanError {
    /// The measured duration is zero or negative.
    NonPositiveDuration,
}

/// How many chunks cover `d` milliseconds: one per stride started before `d`.
pub open spec fn chunk_count(d: int) -> int {
    (d + CHUNK_STRIDE_MS - 1) / CHUNK_STRIDE_MS as int
}

/// The `k`-th chunk of audio of length `d`.
pub open spec fn chunk_span(k: int, d: int) -> ChunkSpan {
    let start = k * CHUNK_STRIDE_MS;
    ChunkSpan {
        index: k as usize,
        start_ms: start as i64,
        end_ms: (if start + CHUNK_TARGET_MS < d { start + CHUNK_TARGET_MS } else { d }) as i64,
    }
}

/// Plans the chunks of audio lasting `duration_ms` milliseconds: chunk `k`
/// starts at `k` strides and ends one target length later, or at the end of
/// the audio; chunks are planned while their start lies before the end.
/// A non-positive duration has no plan.
pub fn plan_chunks(duration_ms: i64) -> (r: Result<Vec<ChunkSpan>, ChunkPlanError>)
    requires
        duration_ms < usize::MAX as int * CHUNK_STRIDE_MS,
    ensures
        duration_ms <= 0 <==> r is Err,
        r matches Ok(spans) ==> {
            &&& spans@.len() == chunk_count(duration_ms as int)
            &&& forall|k: int|
                0 <= k < spans@.len() ==> #[trigger] spans@[k] == chunk_span(k, duration_ms as int)
        },
{
    if duration_ms <= 0 {
        return Err(ChunkPlanError::NonPositiveDuration);
    }
    let mut spans: Vec<ChunkSpan> = Vec::new();
    let mut cursor: i64 = 0;
    let mut idx: usize = 0;
    loop
        invariant_except_break
            spans@.len() == idx,
            forall|k: int| 0 <= k < idx ==> #[trigger] spans@[k] == chunk_span(k, duration_ms as int),
        invariant
            0 <= cursor < duration_ms,
            duration_ms < usize::MAX as int * CHUNK_STRIDE_MS,
            cursor == idx * CHUNK_STRIDE_MS,
        ensures
            spans@.len() == chunk_count(duration_ms as int),
            forall|k: int|
                0 <= k < spans@.len() ==> #[trigger] spans@[k] == chunk_span(k, duration_ms as int),
        decreases duration_ms - cursor,
    {
        let chunk_end = if duration_ms - cursor > CHUNK_TARGET_MS {
            cursor + CHUNK_TARGET_MS
        } else {
            duration_ms
        };
        spans.push(ChunkSpan { index: idx, start_ms: cursor, end_ms: chunk_end });
        assert(spans@[idx as int] == chunk_span(idx as int, duration_ms as int));
        if duration_ms - cursor <= CHUNK_STRIDE_MS {
            assert(chunk_count(duration_ms as int) == idx + 1) by (nonlinear_arith)
                requires
                    cursor == idx * 75000,
                    0 <= cursor < duration_ms,
                    duration_ms - cursor <= 75000,
            ;
            break;
        }
        assert(idx + 1 < usize::MAX) by (nonlinear_arith)
            requires
                cursor == idx * 75000,
                cursor + 75000 < duration_ms,
                duration_ms < usize::MAX as int * 75000,
        ;
        cursor = cursor + CHUNK_STRIDE_MS;
        idx = idx + 1;
    }
    Ok(spans)
}

/// The planned chunks cover the whole audio: the first starts at 0, the last
/// ends at the end, each is non-empty and at most one target length long,
/// and each chunk after the first starts one overlap before its predecessor
/// ends (unless that predecessor already ends the audio).
pub proof fn law_chunk_plan_covers(d: int)
    requires
        0 < d <= i64::MAX,
    ensures
        chunk_count(d) >= 1,
        chunk_span(0, d).start_ms == 0,
        chunk_span(chunk_count(d) - 1, d).end_ms == d,
        forall|k: int|
            0 <= k < chunk_count(d) ==> (#[trigger] chunk_span(k, d)).start_ms < chunk_span(k, d).end_ms
                <= chunk_span(k, d).start_ms + CHUNK_TARGET_MS,
        forall|k: int|
            0 < k < chunk_count(d) ==> (#[trigger] chunk_span(k, d)).start_ms == chunk_span(
                k - 1,
                d,
            ).start_ms + CHUNK_STRIDE_MS,
        forall|k: int|
            0 < k < chunk_count(d) && chunk_span(k - 1, d).end_ms < d ==> (#[trigger] chunk_span(
                k,
                d,
            )).start_ms == chunk_span(k - 1, d).end_ms - CHUNK_OVERLAP_MS,
{
    let n = chunk_count(d);
    assert(n >= 1 && (n - 1) * 75000 < d && d <= n * 75000) by (nonlinear_arith)
        requires
            d > 0,
            n == (d + 74999) / 75000,
    ;
    assert forall|k: int| 0 <= k < n implies (#[trigger] chunk_span(k, d)).start_ms < chunk_span(k, d).end_ms
        <= chunk_span(k, d).start_ms + CHUNK_TARGET_MS by {
        assert(0 <= k * 75000 <= (n - 1) * 75000) by (nonlinear_arith)
            requires
                0 <= k < n,
        ;
    }
    assert forall|k: int| 0 < k < n implies (#[trigger] chunk_span(k, d)).start_ms == chunk_span(
        k - 1,
        d,
    ).start_ms + CHUNK_STRIDE_MS by {
        assert(k * 75000 == (k - 1) * 75000 + 75000) by (nonlinear_arith);
        assert(0 <= (k - 1) * 75000 && k * 75000 <= (n - 1) * 75000) by (nonlinear_arith)
            requires
                0 < k < n,
        ;
    }
    assert forall|k: int| 0 < k < n && chunk_span(k - 1, d).end_ms < d implies (#[trigger] chunk_span(
        k,
        d,
    )).start_ms == chunk_span(k - 1, d).end_ms - CHUNK_OVERLAP_MS by {
        assert(k * 75000 == (k - 1) * 75000 + 75000) by (nonlinear_arith);
        assert(0 <= (k - 1) * 75000 && k * 75000 <= (n - 1) * 75000) by (nonlinear_arith)
            requires
                0 < k < n,
        ;
    }
}

/// The file extension used for audio of the given MIME type.
pub open spec fn extension_for(mime: Seq<char>) -> Seq<char> {
    if mime == "audio/mpeg"@ || mime == "audio/mp3"@ {
        "mp3"@
    } else if mime == "audio/wav"@ || mime == "audio/x-wav"@ {
        "wav"@
    } else if mime == "audio/webm"@ {
        "webm"@
    } else if mime == "audio/ogg"@ {
        "ogg"@
    } else if mime == "audio/mp4"@ || mime == "audio/x-m4a"@ {
        "m4a"@
    } else {
        "bin"@
    }
}

/// The file extension for a MIME type, `bin` when it is not a known audio
/// type.
pub fn extension_from_mime(mime_type: &str) -> (r: &'static str)
    ensures
        r@ == extension_for(mime_type@),
{
    if str_equal(mime_type, "audio/mpeg") || str_equal(mime_type, "audio/mp3") {
        "mp3"
    } else if str_equal(mime_type, "audio/wav") || str_equal(mime_type, "audio/x-wav") {
        "wav"
    } else if str_equal(mime_type, "audio/webm") {
        "webm"
    } else if str_equal(mime_type, "audio/ogg") {
        "ogg"
    } else if str_equal(mime_type, "audio/mp4") || str_equal(mime_type, "audio/x-m4a") {
        "m4a"
    } else {
        "bin"
    }
}

} // verus!
