use serde_json::Value;
use transcriber_api::streaming::{find_segments_array_start, next_segment_candidate};

const SAMPLE: &str = r#"{
  "source_language": "Japanese",
  "target_language": "Japanese",
  "total_duration_seconds": 60,
  "speakers": [{"speaker_id": "speaker_1", "label": "男性"}],
  "segments": [
    {
      "id": 1,
      "start_seconds": 0.28,
      "end_seconds": 2.76,
      "raw_text": "はい。",
      "words": [{"text": "はい", "reading": "はい", "romanization": "hai"}],
      "translation": "Yes.",
      "speaker": {"speaker_id": "speaker_1", "label": "男性"}
    },
    {
      "id": 2,
      "start_seconds": 3.0,
      "end_seconds": 5.0,
      "raw_text": "そうです。",
      "words": [{"text": "そう", "reading": "そう", "romanization": "sou"}],
      "translation": "That's right.",
      "speaker": {"speaker_id": "speaker_1", "label": "男性"}
    }
  ]
}"#;

fn is_str(v: &Value, key: &str) -> bool {
    v.get(key).map_or(false, |x| x.is_string())
}

/// The id of a candidate object when it has the shape of a complete segment.
fn segment_id(text: &str) -> Option<u64> {
    let v: Value = serde_json::from_str(text).ok()?;
    let words_ok = v.get("words")?.as_array()?.iter().all(|w| {
        is_str(w, "text") && is_str(w, "reading") && is_str(w, "romanization")
    });
    let speaker = v.get("speaker")?;
    let ok = v.get("start_seconds")?.is_number()
        && v.get("end_seconds")?.is_number()
        && is_str(&v, "raw_text")
        && is_str(&v, "translation")
        && words_ok
        && is_str(speaker, "speaker_id")
        && is_str(speaker, "label");
    if ok {
        v.get("id")?.as_u64()
    } else {
        None
    }
}

/// The next complete segment at or after `scan_from`, and where to scan next;
/// candidates that are not segments are skipped.
fn try_extract_next_segment(buffer: &str, scan_from: usize) -> Option<(u64, usize)> {
    let mut from = scan_from;
    while let Some((s, e)) = next_segment_candidate(buffer, from) {
        if let Some(id) = segment_id(&buffer[s..=e]) {
            return Some((id, e + 1));
        }
        from = e + 1;
    }
    None
}

#[test]
fn extracts_first_segment_with_spaced_colon() {
    let (id, next) = try_extract_next_segment(SAMPLE, 0).expect("should find first segment");
    assert_eq!(id, 1);
    assert!(next < SAMPLE.len());
}

#[test]
fn extracts_second_segment_after_cursor() {
    let (_, next) = try_extract_next_segment(SAMPLE, 0).unwrap();
    let (id2, _) = try_extract_next_segment(SAMPLE, next).expect("should find second segment");
    assert_eq!(id2, 2);
}

#[test]
fn returns_none_when_segment_incomplete() {
    let partial = &SAMPLE[..SAMPLE.find("\"end_seconds\"").unwrap()];
    assert!(try_extract_next_segment(partial, 0).is_none());
    assert!(next_segment_candidate(partial, 0).is_none());
}

#[test]
fn extracts_segments_incrementally_from_chunked_buffer() {
    let chunks: Vec<&str> = vec![
        "{\n  \"source_language",
        "\": \"Japanese\",\n  \"target_language\": \"Japanese\",\n  \"total_duration_seconds\":",
        "60,\n  \"speakers\": [\n    {\n      \"speaker_id\": \"speaker_1\",\n      \"",
        "label\": \"男性\"\n    }\n  ],\n  \"segments\": [\n    {\n      \"id\":",
        "1,\n      \"start_seconds\": 0.28,\n      \"end_seconds\": 2.",
        "76,\n      \"raw_text\": \"はい。\",\n",
        "\"words\": [\n        {\n          \"text\": \"はい\",\n          \"reading\": \"はい\",\n          \"romanization\": \"hai\"\n        }\n      ],\n",
        "      \"translation\": \"Yes.\",\n      \"speaker\": {\"speaker_id\": \"speaker_1\", \"label\": \"男性\"}\n    },\n    {\n      \"id\":",
        "2,\n      \"start_seconds\": 3.0,\n      \"end_seconds\": 5.0,\n",
        "      \"raw_text\": \"そうです。\",\n      \"words\": [{\"text\": \"そう\", \"reading\": \"そう\", \"romanization\": \"sou\"}],\n      \"translation\": \"That's right.\",\n      \"speaker\": {\"speaker_id\": \"speaker_1\", \"label\": \"男性\"}\n    }\n  ]\n}",
    ];

    let mut buffer = String::new();
    let mut scan_cursor: usize = 0;
    let mut extracted: Vec<u64> = Vec::new();

    for chunk in &chunks {
        buffer.push_str(chunk);
        while let Some((id, next)) = try_extract_next_segment(&buffer, scan_cursor) {
            extracted.push(id);
            scan_cursor = next;
        }
    }

    assert_eq!(extracted, vec![1, 2], "should extract both segments incrementally");
}

#[test]
fn flat_speaker_id_causes_deser_failure_but_scanning_continues() {
    let buf = r#"{
  "source_language": "ja",
  "target_language": "ja",
  "total_duration_seconds": 60,
  "speakers": [{"speaker_id": "speaker_1", "label": "男性A"}],
  "segments": [
    {
      "id": 1,
      "start_seconds": 0.28,
      "end_seconds": 2.76,
      "raw_text": "はい。",
      "words": [{"text": "はい", "reading": "はい", "romanization": "hai"}],
      "translation": "Yes.",
      "speaker_id": "speaker_1"
    }
  ]
}"#;
    let result = try_extract_next_segment(buf, 0);
    assert!(result.is_none(), "flat speaker_id should not deserialize as ComplexSegment");
    // The object itself is still found as a balanced candidate.
    assert!(next_segment_candidate(buf, 0).is_some());
}

#[test]
fn array_start_points_after_bracket() {
    let a = find_segments_array_start(SAMPLE).unwrap();
    assert_eq!(&SAMPLE[a - 1..a], "[");
}

#[test]
fn array_start_uses_last_segments_key() {
    let buf = "{\"raw_text\": \"the \\\"segments\\\" word\", \"segments\" : \n [ {\"id\": 7}";
    let a = find_segments_array_start(buf).unwrap();
    assert_eq!(&buf[a - 1..a], "[");
    assert!(a > buf.rfind("\"segments\"").unwrap());
}

#[test]
fn array_start_requires_colon_and_bracket() {
    assert_eq!(find_segments_array_start("{\"segments\" \"x\""), None);
    assert_eq!(find_segments_array_start("{\"segments\": {"), None);
    assert_eq!(find_segments_array_start("{\"segments\":"), None);
    assert_eq!(find_segments_array_start("no key here"), None);
    assert_eq!(find_segments_array_start("\"segments\":["), Some(12));
}

#[test]
fn candidate_skips_braces_inside_strings() {
    let buf = r#"{"segments": [{"raw_text": "a } b { c", "id": 3}, {"id": 4}]"#;
    let (s, e) = next_segment_candidate(buf, 0).unwrap();
    assert_eq!(&buf[s..=e], r#"{"raw_text": "a } b { c", "id": 3}"#);
    let (s2, e2) = next_segment_candidate(buf, e + 1).unwrap();
    assert_eq!(&buf[s2..=e2], r#"{"id": 4}"#);
    assert_eq!(next_segment_candidate(buf, e2 + 1), None);
}

#[test]
fn candidate_handles_escaped_quotes() {
    let buf = r#"{"segments": [{"raw_text": "say \"}\" now", "id": 5}]"#;
    let (s, e) = next_segment_candidate(buf, 0).unwrap();
    assert_eq!(&buf[s..=e], r#"{"raw_text": "say \"}\" now", "id": 5}"#);
}

#[test]
fn candidate_stops_at_end_of_array() {
    let buf = r#"{"segments": [], "other": [{"id": 9}]}"#;
    assert_eq!(next_segment_candidate(buf, 0), None);
}

#[test]
fn candidate_is_nested_object_whole() {
    let buf = r#"{"segments": [{"speaker": {"label": "A"}, "id": 1}"#;
    let (s, e) = next_segment_candidate(buf, 0).unwrap();
    assert_eq!(&buf[s..=e], r#"{"speaker": {"label": "A"}, "id": 1}"#);
}

#[test]
fn candidate_unchanged_when_buffer_grows() {
    let short = r#"{"segments": [{"id": 1}, {"id""#;
    let long = r#"{"segments": [{"id": 1}, {"id": 2}]}"#;
    assert_eq!(next_segment_candidate(short, 0), next_segment_candidate(long, 0));
}
