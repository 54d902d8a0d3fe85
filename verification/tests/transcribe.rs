use std::collections::HashMap;
use transcriber_api::audio::chunker::CHUNK_OVERLAP_MS;
use transcriber_api::constants::{CHUNK_CONTEXT_PROMPT, TRANSCRIPTION_SYSTEM_PROMPT};
use transcriber_api::llm::prompts::{format_stitch_prompt, format_summary_prompt, push_seconds};
use transcriber_api::transcribe::chunked::{
    build_system_prompt, chunk_shift_fits, contains_speaker_id, dedup_speakers, extract_head,
    extract_tail, push_new_speakers, reconcile_speakers, renumber_segments, shift_segments, with_id,
};
use transcriber_api::transcribe::session::{TranscriptionSession, STITCH_CONTEXT_SEGMENTS};
use transcriber_api::transcribe::stitcher::{apply_stitch, clone_speakers, contains_id, stitch_segments};
use transcriber_api::transcribe::word_fill::{
    apply_filled_words, collect_filled_words, needs_word_fill, word_fill_prompt, word_fill_request,
};
use transcriber_api::types::overlap::{OverlapResult, StitchedSegment, StitchedSpeaker, StitchedWord};
use transcriber_api::types::reading::{WordFillOutput, WordFillResultSegment};
use transcriber_api::types::transcript::{ComplexSegment, Speaker, TranscriptWord};

fn speaker(id: &str, label: &str) -> Speaker {
    Speaker { speaker_id: id.to_string(), label: label.to_string() }
}

fn word(t: &str) -> TranscriptWord {
    TranscriptWord { text: t.to_string(), reading: t.to_string(), romanization: t.to_string() }
}

fn seg(id: u64, start_ms: i64, end_ms: i64, text: &str, sp: Speaker) -> ComplexSegment {
    ComplexSegment {
        id,
        start_ms,
        end_ms,
        raw_text: text.to_string(),
        words: vec![word(text)],
        translation: format!("t:{text}"),
        speaker: sp,
    }
}

fn ids(segs: &[ComplexSegment]) -> Vec<u64> {
    segs.iter().map(|s| s.id).collect()
}

fn texts(segs: &[ComplexSegment]) -> Vec<String> {
    segs.iter().map(|s| s.raw_text.clone()).collect()
}

fn stitched(id: u64, start_ms: i64, end_ms: i64, text: &str, sp_id: &str, label: &str) -> StitchedSegment {
    StitchedSegment {
        id,
        start_ms,
        end_ms,
        raw_text: text.to_string(),
        words: vec![StitchedWord { text: text.to_string(), reading: "r".to_string(), romanization: "ro".to_string() }],
        translation: "tr".to_string(),
        speaker: StitchedSpeaker { speaker_id: sp_id.to_string(), label: label.to_string() },
        is_reconstructed: true,
    }
}

#[test]
fn first_chunk_prompt_is_base_prompt() {
    assert_eq!(build_system_prompt(0, &[]), TRANSCRIPTION_SYSTEM_PROMPT);
    assert_eq!(build_system_prompt(0, &["ignored".to_string()]), TRANSCRIPTION_SYSTEM_PROMPT);
    assert_eq!(build_system_prompt(3, &[]), TRANSCRIPTION_SYSTEM_PROMPT);
}

#[test]
fn later_chunk_prompt_carries_last_summary() {
    let summaries = vec!["first".to_string(), "Two people talk about cats.".to_string()];
    let p = build_system_prompt(2, &summaries);
    let expected = format!(
        "{}\n\n{}",
        TRANSCRIPTION_SYSTEM_PROMPT,
        CHUNK_CONTEXT_PROMPT.replace("{summary}", "Two people talk about cats.")
    );
    assert_eq!(p, expected);
    assert!(p.contains("Two people talk about cats."));
    assert!(!p.contains("{summary}"));
}

#[test]
fn shift_moves_time_and_ids() {
    let a = speaker("speaker_1", "A");
    let segs = vec![seg(1, 0, 1500, "x", a.clone()), seg(2, 1500, 3000, "y", a)];
    assert!(chunk_shift_fits(&segs, 75_000, 10));
    let moved = shift_segments(segs, 75_000, 10);
    assert_eq!(ids(&moved), vec![11, 12]);
    assert_eq!(moved[0].start_ms, 75_000);
    assert_eq!(moved[1].end_ms, 78_000);
    assert_eq!(moved[1].raw_text, "y");
}

#[test]
fn shift_fit_check_rejects_overflow() {
    let a = speaker("speaker_1", "A");
    assert!(!chunk_shift_fits(&[seg(u64::MAX - 5, 0, 1, "x", a.clone())], 0, 5));
    assert!(chunk_shift_fits(&[seg(u64::MAX - 6, 0, 1, "x", a.clone())], 0, 5));
    assert!(!chunk_shift_fits(&[seg(1, i64::MAX - 1, i64::MAX, "x", a.clone())], 2, 0));
    assert!(!chunk_shift_fits(&[seg(1, i64::MIN, 0, "x", a)], -1, 0));
    assert!(chunk_shift_fits(&[], i64::MAX, u64::MAX));
}

#[test]
fn with_id_keeps_other_fields() {
    let s = seg(4, 10, 20, "z", speaker("speaker_2", "B"));
    let t = with_id(&s, 9);
    assert_eq!(t.id, 9);
    assert_eq!((t.start_ms, t.end_ms, t.raw_text.as_str()), (10, 20, "z"));
    assert_eq!(t.speaker.label, "B");
}

#[test]
fn tail_and_head_take_boundary_segments() {
    let a = speaker("speaker_1", "A");
    let segs: Vec<ComplexSegment> = (1..=7).map(|i| seg(i, 0, 1, "s", a.clone())).collect();
    assert_eq!(ids(&extract_tail(&segs, 5)), vec![3, 4, 5, 6, 7]);
    assert_eq!(ids(&extract_head(&segs, 5)), vec![1, 2, 3, 4, 5]);
    assert_eq!(ids(&extract_tail(&segs[..2], 5)), vec![1, 2]);
    assert_eq!(ids(&extract_head(&segs[..2], 5)), vec![1, 2]);
    assert!(extract_tail(&segs, 0).is_empty());
    assert!(extract_head(&[], 5).is_empty());
}

#[test]
fn dedup_keeps_first_speaker_of_each_id() {
    let segs = vec![
        seg(1, 0, 1, "a", speaker("speaker_1", "A")),
        seg(2, 1, 2, "b", speaker("speaker_2", "B")),
        seg(3, 2, 3, "c", speaker("speaker_1", "A-other")),
    ];
    let sp = dedup_speakers(&segs);
    assert_eq!(sp.len(), 2);
    assert_eq!((sp[0].speaker_id.as_str(), sp[0].label.as_str()), ("speaker_1", "A"));
    assert_eq!(sp[1].speaker_id, "speaker_2");
    assert!(contains_speaker_id(&sp, &"speaker_2".to_string()));
    assert!(!contains_speaker_id(&sp, &"speaker_3".to_string()));
    let mut seed = vec![speaker("speaker_2", "seed")];
    push_new_speakers(&mut seed, &segs);
    assert_eq!(seed.len(), 2);
    assert_eq!(seed[0].label, "seed");
    assert_eq!(seed[1].speaker_id, "speaker_1");
}

#[test]
fn renumber_counts_from_one() {
    let a = speaker("speaker_1", "A");
    let mut segs = vec![seg(40, 0, 1, "a", a.clone()), seg(7, 1, 2, "b", a.clone()), seg(7, 2, 3, "c", a)];
    renumber_segments(&mut segs);
    assert_eq!(ids(&segs), vec![1, 2, 3]);
    assert_eq!(texts(&segs), vec!["a", "b", "c"]);
}

#[test]
fn reconcile_unifies_ids_by_label() {
    let mut segs = vec![
        seg(1, 0, 1, "a", speaker("speaker_1", "男性")),
        seg(2, 1, 2, "b", speaker("speaker_2", "女性")),
        seg(3, 2, 3, "c", speaker("speaker_7", "男性")),
        seg(4, 3, 4, "d", speaker("speaker_1", "子供")),
    ];
    let list = reconcile_speakers(&mut segs);
    let pairs: Vec<(String, String)> =
        list.iter().map(|s| (s.speaker_id.clone(), s.label.clone())).collect();
    assert_eq!(
        pairs,
        vec![
            ("speaker_1".to_string(), "男性".to_string()),
            ("speaker_2".to_string(), "女性".to_string()),
            ("speaker_1".to_string(), "子供".to_string()),
        ]
    );
    assert_eq!(segs[2].speaker.speaker_id, "speaker_1");
    assert_eq!(segs[2].speaker.label, "男性");
    assert_eq!(segs[3].speaker.speaker_id, "speaker_1");
}

#[test]
fn reconcile_is_idempotent() {
    let mut segs = vec![
        seg(1, 0, 1, "a", speaker("s1", "A")),
        seg(2, 1, 2, "b", speaker("s9", "A")),
        seg(3, 2, 3, "c", speaker("s2", "B")),
    ];
    let first = reconcile_speakers(&mut segs);
    let again = reconcile_speakers(&mut segs);
    let f: Vec<_> = first.iter().map(|s| (s.speaker_id.clone(), s.label.clone())).collect();
    let g: Vec<_> = again.iter().map(|s| (s.speaker_id.clone(), s.label.clone())).collect();
    assert_eq!(f, g);
    let spk: Vec<_> = segs.iter().map(|s| s.speaker.speaker_id.clone()).collect();
    assert_eq!(spk, vec!["s1", "s1", "s2"]);
}

#[test]
fn stitch_drops_replaced_tail_and_overlap() {
    let a = speaker("speaker_1", "A");
    let prev = vec![
        seg(1, 0, 1000, "p1", a.clone()),
        seg(2, 70_000, 80_000, "p2", a.clone()),
        seg(3, 80_000, 90_000, "p3", a.clone()),
    ];
    let next = vec![
        seg(4, 75_000, 85_000, "n1", a.clone()),
        seg(5, 89_999, 95_000, "n2", a.clone()),
        seg(6, 90_000, 99_000, "n3", a),
    ];
    let boundary = vec![stitched(50, 70_000, 90_000, "joined", "speaker_1", "A")];
    let out = stitch_segments(prev, &next, &vec![3, 2, 9], &boundary, 90_000);
    assert_eq!(texts(&out), vec!["p1", "joined", "n3"]);
    assert_eq!(out[1].words[0].reading, "r");
}

#[test]
fn stitch_only_drops_a_trailing_run() {
    let a = speaker("speaker_1", "A");
    let prev = vec![seg(1, 0, 1, "p1", a.clone()), seg(2, 1, 2, "p2", a.clone()), seg(3, 2, 3, "p3", a)];
    let out = stitch_segments(prev, &[], &vec![1, 3], &vec![], 0);
    assert_eq!(texts(&out), vec!["p1", "p2"]);
    assert!(contains_id(&vec![1, 3], 3));
    assert!(!contains_id(&vec![1, 3], 2));
}

#[test]
fn apply_stitch_extends_speaker_list() {
    let a = speaker("speaker_1", "A");
    let prev = vec![seg(1, 0, 1, "p1", a.clone())];
    let next = vec![seg(2, 20_000, 21_000, "n1", speaker("speaker_3", "C"))];
    let result = OverlapResult {
        overlap_end_ms: 15_000,
        replace_segment_ids: vec![],
        new_segments: vec![stitched(9, 1, 2, "b", "speaker_2", "B")],
    };
    let global = clone_speakers(&[a]);
    let (segs, speakers) = apply_stitch(prev, next, result, &global);
    assert_eq!(texts(&segs), vec!["p1", "b", "n1"]);
    let sp: Vec<_> = speakers.iter().map(|s| s.speaker_id.clone()).collect();
    assert_eq!(sp, vec!["speaker_1", "speaker_2", "speaker_3"]);
}

#[test]
fn word_fill_round_trip() {
    let a = speaker("speaker_1", "A");
    let mut segs = vec![seg(1, 0, 1, "a", a.clone()), seg(2, 1, 2, "b", a.clone()), seg(3, 2, 3, "c", a)];
    segs[1].words.clear();
    segs[2].words.clear();
    assert!(needs_word_fill(&segs));
    let req = word_fill_request(&segs);
    let asked: Vec<(u64, String)> = req.segments.iter().map(|s| (s.id, s.raw_text.clone())).collect();
    assert_eq!(asked, vec![(2, "b".to_string()), (3, "c".to_string())]);
    let answer = WordFillOutput {
        segments: vec![
            WordFillResultSegment { id: 2, words: vec![word("old")] },
            WordFillResultSegment { id: 3, words: vec![] },
            WordFillResultSegment { id: 2, words: vec![word("b1"), word("b2")] },
        ],
    };
    let filled: HashMap<u64, Vec<TranscriptWord>> = collect_filled_words(answer);
    assert_eq!(filled.len(), 1);
    apply_filled_words(&mut segs, &filled);
    assert_eq!(segs[0].words.len(), 1);
    let w: Vec<_> = segs[1].words.iter().map(|w| w.text.clone()).collect();
    assert_eq!(w, vec!["b1", "b2"]);
    assert!(segs[2].words.is_empty());
    assert!(needs_word_fill(&segs));
}

#[test]
fn no_word_fill_when_all_annotated() {
    let a = speaker("speaker_1", "A");
    assert!(!needs_word_fill(&[seg(1, 0, 1, "a", a)]));
    assert!(!needs_word_fill(&[]));
}

fn seconds(ms: i64) -> String {
    let mut s = String::new();
    push_seconds(&mut s, ms);
    s
}

#[test]
fn seconds_with_two_decimals() {
    assert_eq!(seconds(0), "0.00");
    assert_eq!(seconds(280), "0.28");
    assert_eq!(seconds(2760), "2.76");
    assert_eq!(seconds(75_000), "75.00");
    assert_eq!(seconds(1234), "1.23");
    assert_eq!(seconds(1235), "1.24");
    assert_eq!(seconds(-1500), "-1.50");
    for ms in [0i64, 10, 90, 280, 2760, 75_000, 123_450, 3_600_000] {
        assert_eq!(seconds(ms), format!("{:.2}", ms as f64 / 1000.0));
    }
}

#[test]
fn summary_prompt_lists_segments() {
    let segs = vec![
        seg(1, 0, 1, "はい。", speaker("speaker_1", "男性")),
        seg(2, 1, 2, "そう", speaker("speaker_2", "女性")),
    ];
    assert_eq!(
        format_summary_prompt(&segs),
        "Transcript segments:\n  男性: \"はい。\"\n  女性: \"そう\""
    );
    assert_eq!(format_summary_prompt(&[]), "Transcript segments:");
}

#[test]
fn stitch_prompt_lists_both_sides() {
    let prev = vec![seg(3, 280, 2760, "はい。", speaker("speaker_1", "男性"))];
    let next = vec![seg(4, 75_000, 77_500, "ね", speaker("speaker_2", "女性"))];
    let expected = [
        "prev_tail (chunk N — GLOBAL timestamps):".to_string(),
        format!(
            "  {{ \"id\": {}, \"start\": {:.2}, \"end\": {:.2}, \"speaker_id\": \"{}\", \"label\": \"{}\", \"text\": \"{}\" }}",
            3, 0.28, 2.76, "speaker_1", "男性", "はい。"
        ),
        "next_head (chunk N+1 — GLOBAL timestamps):".to_string(),
        format!(
            "  {{ \"id\": {}, \"start\": {:.2}, \"end\": {:.2}, \"speaker_id\": \"{}\", \"label\": \"{}\", \"text\": \"{}\" }}",
            4, 75.0, 77.5, "speaker_2", "女性", "ね"
        ),
    ]
    .join("\n");
    assert_eq!(format_stitch_prompt(&prev, &next), expected);
}

#[test]
fn session_runs_two_chunks() {
    let mut session = TranscriptionSession::new();
    assert_eq!(session.system_prompt(0), TRANSCRIPTION_SYSTEM_PROMPT);

    // Chunk 0: local ids 1..=3.
    let c0 = vec![
        seg(1, 0, 30_000, "a", speaker("speaker_1", "A")),
        seg(2, 30_000, 70_000, "b", speaker("speaker_2", "B")),
        seg(3, 70_000, 88_000, "c", speaker("speaker_1", "A")),
    ];
    let g0 = session.globalize_chunk(c0, 0);
    assert_eq!(ids(&g0), vec![1, 2, 3]);
    assert_eq!(session.next_id_offset, 4);
    session.record_summary("summary 0".to_string());
    assert!(session.stitch_inputs(0, &g0).is_none());
    session.append_chunk(g0);
    session.finish_chunk(90_000);
    assert_eq!(session.speakers.len(), 2);

    // Chunk 1 starts at 75 s; its model calls the first speaker "speaker_9".
    assert!(session.system_prompt(1).contains("summary 0"));
    let c1 = vec![
        seg(1, 0, 10_000, "c-again", speaker("speaker_9", "A")),
        seg(2, 16_000, 30_000, "d", speaker("speaker_9", "A")),
    ];
    assert!(chunk_shift_fits(&c1, 75_000, session.next_id_offset));
    let g1 = session.globalize_chunk(c1, 75_000);
    assert_eq!(ids(&g1), vec![5, 6]);
    assert_eq!(g1[1].start_ms, 91_000);
    assert_eq!(session.next_id_offset, 7);
    session.record_summary(String::new());

    let (tail, head) = session.stitch_inputs(1, &g1).unwrap();
    assert_eq!(ids(&tail), vec![1, 2, 3]);
    assert_eq!(ids(&head), vec![5, 6]);
    assert!(STITCH_CONTEXT_SEGMENTS >= tail.len());

    let overlap = OverlapResult {
        overlap_end_ms: 80_000,
        replace_segment_ids: vec![3],
        new_segments: vec![stitched(3, 70_000, 85_000, "c-joined", "speaker_1", "A")],
    };
    session.merge_stitched(g1, overlap, 75_000);
    // Only segments starting at or after 75 s + 15 s are kept from the chunk.
    assert_eq!(texts(&session.segments), vec!["a", "b", "c-joined", "d"]);
    session.finish_chunk(165_000);
    assert_eq!(ids(&session.segments), vec![1, 2, 3, 4]);
    assert_eq!(session.segments[3].speaker.speaker_id, "speaker_1");
    assert_eq!(session.speakers.len(), 2);

    let out = session.into_transcript();
    assert_eq!(out.source_language, "ja");
    assert_eq!(out.target_language, "en");
    assert_eq!(out.total_duration_ms, 165_000);
    assert_eq!(out.segments.len(), 4);
    assert_eq!(CHUNK_OVERLAP_MS, 15_000);
}

#[test]
fn session_empty_chunk_keeps_offset() {
    let mut session = TranscriptionSession::new();
    let g = session.globalize_chunk(vec![], 0);
    assert!(g.is_empty());
    assert_eq!(session.next_id_offset, 0);
    assert!(session.stitch_inputs(1, &g).is_none());
}

#[test]
fn word_fill_prompt_is_compact_json() {
    let a = speaker("speaker_1", "A");
    let mut segs = vec![seg(7, 0, 1, "猫\"です", a.clone()), seg(8, 1, 2, "b", a.clone()), seg(12, 2, 3, "c", a)];
    segs[0].words.clear();
    segs[2].words.clear();
    let req = word_fill_request(&segs);
    assert_eq!(
        word_fill_prompt(&req),
        "{\"segments\":[{\"id\":7,\"raw_text\":\"猫\\\"です\"},{\"id\":12,\"raw_text\":\"c\"}]}"
    );
    let empty = word_fill_request(&segs[1..2]);
    assert_eq!(word_fill_prompt(&empty), "{\"segments\":[]}");
}
