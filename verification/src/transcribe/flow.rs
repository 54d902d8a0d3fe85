//! The steps taken for one chunk of a streamed transcription.
//!
//! The caller makes the model calls; after each answer it asks [`chunk_step`]
//! what to do with it and which call comes next. A failed or out-of-range
//! transcription ends the stream with an error; a failed word fill, summary or
//! stitch does not: the chunk goes on without that answer.
use vstd::prelude::*;

verus! {

/// Where the work on a chunk stands.
#[derive(Debug, Clone, Copy, PartialEq, Eq)]
pub enum ChunkPhase {
    /// Waiting for the transcription of the chunk.
    Transcribing,
    /// Waiting for the word-fill answer.
    FillingWords,
    /// Waiting for the summary of the chunk.
    Summarizing,
    /// Waiting for the stitching answer for the boundary before the chunk.
    Stitching,
    /// The chunk is merged; it only remains to finish it.
    Done,
    /// The stream ended with an error.
    Stopped,
}

/// An answer from a model call, as the flow needs it.
#[derive(Debug, Clone, Copy, PartialEq, Eq)]
pub enum ChunkEvent {
    /// The transcription came back: whether its ids and times can be moved
    /// into global space, and whether some segment lacks words.
    Transcribed { in_range: bool, missing_words: bool },
    /// The transcription call failed.
    TranscriptionFailed,
    /// The word-fill call ended.
    WordFillAnswered { succeeded: bool },
    /// The summary call ended; `stitchable` tells whether there is a boundary
    /// to stitch (both sides have segments, and the chunk is not the first).
    SummaryAnswered { succeeded: bool, stitchable: bool },
    /// The stitching call ended; `start_in_range` tells whether the chunk
    /// start plus the overlap fits in the time type.
    StitchAnswered { succeeded: bool, start_in_range: bool },
}

/// Why the stream ends with an error.
#[derive(Debug, Clone, Copy, PartialEq, Eq)]
pub enum ChunkFailure {
    TranscriptionFailed,
    OutOfRange,
}

/// The next model call.
#[derive(Debug, Clone, Copy, PartialEq, Eq)]
pub enum ModelCall {
    WordFill,
    Summary,
    Stitch,
}

/// What is recorded as the chunk's summary.
#[derive(Debug, Clone, Copy, PartialEq, Eq)]
pub enum SummaryRecord {
    Nothing,
    /// The model's text.
    ModelText,
    /// An empty summary (the call failed).
    Empty,
}

/// How the chunk joins the transcript.
#[derive(Debug, Clone, Copy, PartialEq, Eq)]
pub enum MergeKind {
    Nothing,
    /// Merge using the stitching answer.
    Stitched,
    /// Append the chunk's segments unchanged.
    Appended,
}

/// What to do after an answer, in this order: report and stop; move the
/// chunk into global time and ids; apply the filled words; record the
/// summary; merge; make the next call.
#[derive(Debug, Clone, Copy, PartialEq, Eq)]
pub struct ChunkAction {
    pub report: Option<ChunkFailure>,
    pub globalize: bool,
    pub apply_words: bool,
    pub record_summary: SummaryRecord,
    pub merge: MergeKind,
    pub next_call: Option<ModelCall>,
}

/// Doing nothing.
pub open spec fn no_action() -> ChunkAction {
    ChunkAction {
        report: None,
        globalize: false,
        apply_words: false,
        record_summary: SummaryRecord::Nothing,
        merge: MergeKind::Nothing,
        next_call: None,
    }
}

/// The next phase and the action after `event` in `phase`. An event that
/// does not answer the call the phase waits for changes nothing.
pub open spec fn chunk_step_spec(phase: ChunkPhase, event: ChunkEvent) -> (ChunkPhase, ChunkAction) {
    match (phase, event) {
        (ChunkPhase::Transcribing, ChunkEvent::TranscriptionFailed) => (
            ChunkPhase::Stopped,
            ChunkAction { report: Some(ChunkFailure::TranscriptionFailed), ..no_action() },
        ),
        (ChunkPhase::Transcribing, ChunkEvent::Transcribed { in_range, missing_words }) => {
            if !in_range {
                (ChunkPhase::Stopped, ChunkAction { report: Some(ChunkFailure::OutOfRange), ..no_action() })
            } else if missing_words {
                (
                    ChunkPhase::FillingWords,
                    ChunkAction { globalize: true, next_call: Some(ModelCall::WordFill), ..no_action() },
                )
            } else {
                (
                    ChunkPhase::Summarizing,
                    ChunkAction { globalize: true, next_call: Some(ModelCall::Summary), ..no_action() },
                )
            }
        },
        (ChunkPhase::FillingWords, ChunkEvent::WordFillAnswered { succeeded }) => (
            ChunkPhase::Summarizing,
            ChunkAction { apply_words: succeeded, next_call: Some(ModelCall::Summary), ..no_action() },
        ),
        (ChunkPhase::Summarizing, ChunkEvent::SummaryAnswered { succeeded, stitchable }) => {
            let record = if succeeded {
                SummaryRecord::ModelText
            } else {
                SummaryRecord::Empty
            };
            if stitchable {
                (
                    ChunkPhase::Stitching,
                    ChunkAction { record_summary: record, next_call: Some(ModelCall::Stitch), ..no_action() },
                )
            } else {
                (
                    ChunkPhase::Done,
                    ChunkAction { record_summary: record, merge: MergeKind::Appended, ..no_action() },
                )
            }
        },
        (ChunkPhase::Stitching, ChunkEvent::StitchAnswered { succeeded, start_in_range }) => (
            ChunkPhase::Done,
            ChunkAction {
                merge: if succeeded && start_in_range {
                    MergeKind::Stitched
                } else {
                    MergeKind::Appended
                },
                ..no_action()
            },
        ),
        _ => (phase, no_action()),
    }
}

/// Decides the next phase and action of a chunk after `event`.
pub fn chunk_step(phase: ChunkPhase, event: ChunkEvent) -> (r: (ChunkPhase, ChunkAction))
    ensures
        r == chunk_step_spec(phase, event),
{
    let none = ChunkAction {
        report: None,
        globalize: false,
        apply_words: false,
        record_summary: SummaryRecord::Nothing,
        merge: MergeKind::Nothing,
        next_call: None,
    };
    match (phase, event) {
        (ChunkPhase::Transcribing, ChunkEvent::TranscriptionFailed) => (
            ChunkPhase::Stopped,
            ChunkAction { report: Some(ChunkFailure::TranscriptionFailed), ..none },
        ),
        (ChunkPhase::Transcribing, ChunkEvent::Transcribed { in_range, missing_words }) => {
            if !in_range {
                (ChunkPhase::Stopped, ChunkAction { report: Some(ChunkFailure::OutOfRange), ..none })
            } else if missing_words {
                (
                    ChunkPhase::FillingWords,
                    ChunkAction { globalize: true, next_call: Some(ModelCall::WordFill), ..none },
                )
            } else {
                (
                    ChunkPhase::Summarizing,
                    ChunkAction { globalize: true, next_call: Some(ModelCall::Summary), ..none },
                )
            }
        },
        (ChunkPhase::FillingWords, ChunkEvent::WordFillAnswered { succeeded }) => (
            ChunkPhase::Summarizing,
            ChunkAction { apply_words: succeeded, next_call: Some(ModelCall::Summary), ..none },
        ),
        (ChunkPhase::Summarizing, ChunkEvent::SummaryAnswered { succeeded, stitchable }) => {
            let record = if succeeded {
                SummaryRecord::ModelText
            } else {
                SummaryRecord::Empty
            };
            if stitchable {
                (
                    ChunkPhase::Stitching,
                    ChunkAction { record_summary: record, next_call: Some(ModelCall::Stitch), ..none },
                )
            } else {
                (ChunkPhase::Done, ChunkAction { record_summary: record, merge: MergeKind::Appended, ..none })
            }
        },
        (ChunkPhase::Stitching, ChunkEvent::StitchAnswered { succeeded, start_in_range }) => (
            ChunkPhase::Done,
            ChunkAction {
                merge: if succeeded && start_in_range {
                    MergeKind::Stitched
                } else {
                    MergeKind::Appended
                },
                ..none
            },
        ),
        _ => (phase, none),
    }
}

/// The position of a phase in the order of the calls.
pub open spec fn phase_rank(p: ChunkPhase) -> int {
    match p {
        ChunkPhase::Transcribing => 0,
        ChunkPhase::FillingWords => 1,
        ChunkPhase::Summarizing => 2,
        ChunkPhase::Stitching => 3,
        ChunkPhase::Done => 4,
        ChunkPhase::Stopped => 4,
    }
}

/// The work on a chunk always moves forward and ends: every answer either
/// changes nothing (it does not belong to the phase) or moves to a later
/// phase, so a chunk takes at most four answers. Only a failed or
/// out-of-range transcription stops the stream, and then with a report; a
/// failed word fill, summary or stitch never does. The chunk is merged
/// exactly on reaching `Done`, with the stitching answer only when that call
/// succeeded; a summary is recorded (empty on failure) exactly once, when the
/// summary call ends.
pub proof fn law_chunk_flow(phase: ChunkPhase, event: ChunkEvent)
    ensures
        ({
            let (next, action) = chunk_step_spec(phase, event);
            &&& next == phase && action == no_action() || phase_rank(next) > phase_rank(phase)
            &&& (next == ChunkPhase::Stopped && phase != ChunkPhase::Stopped) <==> action.report is Some
            &&& next == ChunkPhase::Stopped && phase != ChunkPhase::Stopped ==> (event
                == ChunkEvent::TranscriptionFailed || (event matches ChunkEvent::Transcribed {
                in_range: false,
                ..
            }))
            &&& (next == ChunkPhase::Done && phase != ChunkPhase::Done) <==> !(action.merge
                == MergeKind::Nothing)
            &&& action.merge == MergeKind::Stitched ==> (event matches ChunkEvent::StitchAnswered {
                succeeded: true,
                start_in_range: true,
            })
            &&& !(action.record_summary == SummaryRecord::Nothing) <==> (phase
                == ChunkPhase::Summarizing && event is SummaryAnswered)
            &&& phase == ChunkPhase::Done || phase == ChunkPhase::Stopped ==> next == phase && action
                == no_action()
        }),
{
}

/// What each answer leads to, over all phases and answers:
/// - the chunk is moved into global time and ids exactly when its
///   transcription came back in range, whether or not words are missing;
/// - the filled words are applied exactly when the word-fill call succeeded;
/// - the model's summary is recorded exactly when the summary call succeeded,
///   and an empty one exactly when it failed, whether or not the chunk is
///   stitched;
/// - the word fill is called exactly when an in-range transcription lacks
///   words; the summary is called after the word fill, or right after an
///   in-range transcription with all words; stitching is called exactly when
///   the summary call ended and there is a boundary to stitch;
/// - the chunk is appended unchanged exactly when there is nothing to stitch
///   or stitching failed or is out of range.
pub proof fn law_chunk_actions(phase: ChunkPhase, event: ChunkEvent)
    ensures
        ({
            let (next, action) = chunk_step_spec(phase, event);
            &&& action.globalize <==> (phase == ChunkPhase::Transcribing && (event matches ChunkEvent::Transcribed {
                in_range: true,
                ..
            }))
            &&& action.apply_words <==> (phase == ChunkPhase::FillingWords && event
                == ChunkEvent::WordFillAnswered { succeeded: true })
            &&& action.record_summary == SummaryRecord::ModelText <==> (phase == ChunkPhase::Summarizing
                && (event matches ChunkEvent::SummaryAnswered { succeeded: true, .. }))
            &&& action.record_summary == SummaryRecord::Empty <==> (phase == ChunkPhase::Summarizing
                && (event matches ChunkEvent::SummaryAnswered { succeeded: false, .. }))
            &&& action.next_call == Some(ModelCall::WordFill) <==> (phase == ChunkPhase::Transcribing
                && event == ChunkEvent::Transcribed { in_range: true, missing_words: true })
            &&& action.next_call == Some(ModelCall::Summary) <==> ((phase == ChunkPhase::Transcribing
                && event == ChunkEvent::Transcribed { in_range: true, missing_words: false }) || (phase
                == ChunkPhase::FillingWords && (event is WordFillAnswered)))
            &&& action.next_call == Some(ModelCall::Stitch) <==> (phase == ChunkPhase::Summarizing
                && (event matches ChunkEvent::SummaryAnswered { stitchable: true, .. }))
            &&& action.merge == MergeKind::Appended <==> ((phase == ChunkPhase::Summarizing && (event matches ChunkEvent::SummaryAnswered {
                stitchable: false,
                ..
            })) || (phase == ChunkPhase::Stitching && (event is StitchAnswered) && !(event
                == ChunkEvent::StitchAnswered { succeeded: true, start_in_range: true })))
            &&& action.merge == MergeKind::Stitched <==> (phase == ChunkPhase::Stitching && event
                == ChunkEvent::StitchAnswered { succeeded: true, start_in_range: true })
        }),
{
}

} // verus!
