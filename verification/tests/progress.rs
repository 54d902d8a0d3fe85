use transcriber_api::api::progress::{
    ChunkStep, FINALIZING_MESSAGE, SERVED_FROM_CACHE_MESSAGE, chunk_step_message, message_json,
    processing_message,
};
use transcriber_api::llm::common::{AudioTransport, FILE_API_THRESHOLD_BYTES, audio_transport};

#[test]
fn processing_payload() {
    assert_eq!(processing_message(3), "{\"message\":\"processing 3 chunks\",\"total_chunks\":3}");
}

#[test]
fn chunk_step_payloads() {
    assert_eq!(
        chunk_step_message(ChunkStep::Transcribing, 0, 3),
        "{\"message\":\"transcribing chunk 1/3\",\"chunk_index\":0}"
    );
    assert_eq!(
        chunk_step_message(ChunkStep::FillingWords, 1, 3),
        "{\"message\":\"filling word annotations 2/3\",\"chunk_index\":1}"
    );
    assert_eq!(
        chunk_step_message(ChunkStep::Summarizing, 2, 3),
        "{\"message\":\"summarizing chunk 3/3\",\"chunk_index\":2}"
    );
    assert_eq!(
        chunk_step_message(ChunkStep::Stitching, 1, 3),
        "{\"message\":\"stitching boundary 1/3\",\"chunk_index\":1}"
    );
}

#[test]
fn payloads_are_json() {
    let v: serde_json::Value = serde_json::from_str(&chunk_step_message(ChunkStep::Summarizing, 4, 10)).unwrap();
    assert_eq!(v["chunk_index"], 4);
    assert_eq!(v["message"], "summarizing chunk 5/10");
    let v: serde_json::Value = serde_json::from_str(SERVED_FROM_CACHE_MESSAGE).unwrap();
    assert_eq!(v["message"], "served from cache");
    let v: serde_json::Value = serde_json::from_str(FINALIZING_MESSAGE).unwrap();
    assert_eq!(v["message"], "finalizing transcript");
}

#[test]
fn message_payload_escapes_text() {
    let msg = "Chunk 2 transcription failed: \"quota\"\nretry";
    let out = message_json(msg);
    let v: serde_json::Value = serde_json::from_str(&out).unwrap();
    assert_eq!(v["message"], msg);
    assert_eq!(out, format!("{{\"message\":{}}}", serde_json::to_string(msg).unwrap()));
}

#[test]
fn large_audio_goes_through_file_api() {
    assert_eq!(FILE_API_THRESHOLD_BYTES, 10 * 1024 * 1024);
    assert_eq!(audio_transport(0), AudioTransport::Inline);
    assert_eq!(audio_transport(FILE_API_THRESHOLD_BYTES - 1), AudioTransport::Inline);
    assert_eq!(audio_transport(FILE_API_THRESHOLD_BYTES), AudioTransport::FileApi);
    assert_eq!(audio_transport(usize::MAX), AudioTransport::FileApi);
}

#[test]
fn chunk_step_payload_without_a_total_limit() {
    assert_eq!(
        chunk_step_message(ChunkStep::Transcribing, 5, 3),
        "{\"message\":\"transcribing chunk 6/3\",\"chunk_index\":5}"
    );
    let big = chunk_step_message(ChunkStep::Summarizing, usize::MAX, 0);
    assert!(big.contains(&format!("{}/0", usize::MAX as u128 + 1)));
}
