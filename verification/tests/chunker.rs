use transcriber_api::audio::chunker::{
    ChunkPlanError, ChunkSpan, CHUNK_OVERLAP_MS, CHUNK_STRIDE_MS, CHUNK_TARGET_MS,
    extension_from_mime, plan_chunks,
};
use transcriber_api::text::str_equal;

fn span(index: usize, start_ms: i64, end_ms: i64) -> ChunkSpan {
    ChunkSpan { index, start_ms, end_ms }
}

#[test]
fn stride_is_target_minus_overlap() {
    assert_eq!(CHUNK_STRIDE_MS, CHUNK_TARGET_MS - CHUNK_OVERLAP_MS);
    assert_eq!(CHUNK_TARGET_MS, 90_000);
    assert_eq!(CHUNK_OVERLAP_MS, 15_000);
}

#[test]
fn non_positive_duration_has_no_plan() {
    assert_eq!(plan_chunks(0), Err(ChunkPlanError::NonPositiveDuration));
    assert_eq!(plan_chunks(-5), Err(ChunkPlanError::NonPositiveDuration));
}

#[test]
fn short_audio_is_one_chunk() {
    assert_eq!(plan_chunks(60_000), Ok(vec![span(0, 0, 60_000)]));
    assert_eq!(plan_chunks(1), Ok(vec![span(0, 0, 1)]));
    assert_eq!(plan_chunks(75_000), Ok(vec![span(0, 0, 75_000)]));
}

#[test]
fn long_audio_overlaps() {
    assert_eq!(
        plan_chunks(200_000),
        Ok(vec![span(0, 0, 90_000), span(1, 75_000, 165_000), span(2, 150_000, 200_000)])
    );
    assert_eq!(plan_chunks(75_001), Ok(vec![span(0, 0, 75_001), span(1, 75_000, 75_001)]));
    assert_eq!(plan_chunks(150_000), Ok(vec![span(0, 0, 90_000), span(1, 75_000, 150_000)]));
}

#[test]
fn plan_covers_audio() {
    for d in [1i64, 74_999, 75_000, 90_000, 90_001, 1_000_000, 3_600_000] {
        let spans = plan_chunks(d).unwrap();
        assert_eq!(spans[0].start_ms, 0);
        assert_eq!(spans.last().unwrap().end_ms, d);
        for (k, s) in spans.iter().enumerate() {
            assert_eq!(s.index, k);
            assert!(s.start_ms < s.end_ms);
            assert!(s.end_ms - s.start_ms <= CHUNK_TARGET_MS);
            if k > 0 {
                let prev = spans[k - 1];
                assert!(prev.end_ms == d || s.start_ms == prev.end_ms - CHUNK_OVERLAP_MS);
            }
        }
    }
}

#[test]
fn extension_by_mime_type() {
    assert_eq!(extension_from_mime("audio/mpeg"), "mp3");
    assert_eq!(extension_from_mime("audio/mp3"), "mp3");
    assert_eq!(extension_from_mime("audio/wav"), "wav");
    assert_eq!(extension_from_mime("audio/x-wav"), "wav");
    assert_eq!(extension_from_mime("audio/webm"), "webm");
    assert_eq!(extension_from_mime("audio/ogg"), "ogg");
    assert_eq!(extension_from_mime("audio/mp4"), "m4a");
    assert_eq!(extension_from_mime("audio/x-m4a"), "m4a");
    assert_eq!(extension_from_mime("video/quicktime"), "bin");
    assert_eq!(extension_from_mime("audio/ogg; codecs=opus"), "bin");
}

#[test]
fn string_equality() {
    assert!(str_equal("abc", "abc"));
    assert!(!str_equal("abc", "abd"));
    assert!(!str_equal("abc", "ab"));
    assert!(str_equal("", ""));
}
