use transcriber_api::transcribe::flow::{
    ChunkAction, ChunkEvent, ChunkFailure, ChunkPhase, MergeKind, ModelCall, SummaryRecord, chunk_step,
};

fn none() -> ChunkAction {
    ChunkAction {
        report: None,
        globalize: false,
        apply_words: false,
        record_summary: SummaryRecord::Nothing,
        merge: MergeKind::Nothing,
        next_call: None,
    }
}

#[test]
fn failed_transcription_stops() {
    let (p, a) = chunk_step(ChunkPhase::Transcribing, ChunkEvent::TranscriptionFailed);
    assert_eq!(p, ChunkPhase::Stopped);
    assert_eq!(a, ChunkAction { report: Some(ChunkFailure::TranscriptionFailed), ..none() });
    let (p, a) = chunk_step(
        ChunkPhase::Transcribing,
        ChunkEvent::Transcribed { in_range: false, missing_words: true },
    );
    assert_eq!(p, ChunkPhase::Stopped);
    assert_eq!(a.report, Some(ChunkFailure::OutOfRange));
}

#[test]
fn full_path_with_word_fill_and_stitch() {
    let (p, a) = chunk_step(
        ChunkPhase::Transcribing,
        ChunkEvent::Transcribed { in_range: true, missing_words: true },
    );
    assert_eq!(p, ChunkPhase::FillingWords);
    assert_eq!(a, ChunkAction { globalize: true, next_call: Some(ModelCall::WordFill), ..none() });
    let (p, a) = chunk_step(p, ChunkEvent::WordFillAnswered { succeeded: true });
    assert_eq!(p, ChunkPhase::Summarizing);
    assert_eq!(a, ChunkAction { apply_words: true, next_call: Some(ModelCall::Summary), ..none() });
    let (p, a) = chunk_step(p, ChunkEvent::SummaryAnswered { succeeded: true, stitchable: true });
    assert_eq!(p, ChunkPhase::Stitching);
    assert_eq!(
        a,
        ChunkAction { record_summary: SummaryRecord::ModelText, next_call: Some(ModelCall::Stitch), ..none() }
    );
    let (p, a) = chunk_step(p, ChunkEvent::StitchAnswered { succeeded: true, start_in_range: true });
    assert_eq!(p, ChunkPhase::Done);
    assert_eq!(a, ChunkAction { merge: MergeKind::Stitched, ..none() });
}

#[test]
fn failures_after_transcription_do_not_stop() {
    let (p, a) = chunk_step(ChunkPhase::FillingWords, ChunkEvent::WordFillAnswered { succeeded: false });
    assert_eq!(p, ChunkPhase::Summarizing);
    assert!(!a.apply_words);
    let (p, a) = chunk_step(ChunkPhase::Summarizing, ChunkEvent::SummaryAnswered { succeeded: false, stitchable: false });
    assert_eq!(p, ChunkPhase::Done);
    assert_eq!(a, ChunkAction { record_summary: SummaryRecord::Empty, merge: MergeKind::Appended, ..none() });
    let (p, a) = chunk_step(ChunkPhase::Stitching, ChunkEvent::StitchAnswered { succeeded: false, start_in_range: true });
    assert_eq!(p, ChunkPhase::Done);
    assert_eq!(a.merge, MergeKind::Appended);
    let (_, a) = chunk_step(ChunkPhase::Stitching, ChunkEvent::StitchAnswered { succeeded: true, start_in_range: false });
    assert_eq!(a.merge, MergeKind::Appended);
}

#[test]
fn complete_words_skip_word_fill() {
    let (p, a) = chunk_step(
        ChunkPhase::Transcribing,
        ChunkEvent::Transcribed { in_range: true, missing_words: false },
    );
    assert_eq!(p, ChunkPhase::Summarizing);
    assert_eq!(a.next_call, Some(ModelCall::Summary));
}

#[test]
fn unexpected_answers_change_nothing() {
    for phase in [ChunkPhase::FillingWords, ChunkPhase::Done, ChunkPhase::Stopped] {
        let (p, a) = chunk_step(phase, ChunkEvent::TranscriptionFailed);
        assert_eq!(p, phase);
        assert_eq!(a, none());
    }
}
