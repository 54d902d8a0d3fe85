//! Transcript data: speakers, words and timed segments.
//!
//! Times are held as whole milliseconds from the start of the audio, which is
//! how the library orders and shifts segments; callers convert from and to the
//! fractional seconds that appear on the wire.
use vstd::prelude::*;

verus! {

/// Query options of the transcription endpoint.
#[derive(Debug, Clone, Copy, PartialEq, Eq)]
pub struct TranscribeQuery {
    /// Reserved for a future simple-transcript path.
    pub transcript_words: bool,
    /// Bypass the transcription cache.
    pub force: bool,
}

/// A speaker as identified by the transcription model.
#[derive(Debug)]
pub struct Speaker {
    pub speaker_id: String,
    pub label: String,
}

impl Clone for Speaker {
    fn clone(&self) -> (r: Self)
        ensures
            r == *self,
    {
        Speaker { speaker_id: self.speaker_id.clone(), label: self.label.clone() }
    }
}

/// One lexical item of a segment with its reading and romanization.
#[derive(Debug)]
pub struct TranscriptWord {
    pub text: String,
    pub reading: String,
    pub romanization: String,
}

impl Clone for TranscriptWord {
    fn clone(&self) -> (r: Self)
        ensures
            r == *self,
    {
        TranscriptWord {
            text: self.text.clone(),
            reading: self.reading.clone(),
            romanization: self.romanization.clone(),
        }
    }
}

/// A timed segment of speech with word-level annotation.
#[derive(Debug)]
pub struct ComplexSegment {
    pub id: u64,
    /// Start of the segment, in milliseconds.
    pub start_ms: i64,
    /// End of the segment, in milliseconds.
    pub end_ms: i64,
    pub raw_text: String,
    pub words: Vec<TranscriptWord>,
    pub translation: String,
    pub speaker: Speaker,
}

/// Copies a vector of words, element by element.
pub fn clone_words(words: &Vec<TranscriptWord>) -> (r: Vec<TranscriptWord>)
    ensures
        r@ == words@,
{
    let mut out: Vec<TranscriptWord> = Vec::new();
    let mut i: usize = 0;
    while i < words.len()
        invariant
            i <= words@.len(),
            out@ == words@.subrange(0, i as int),
        decreases words@.len() - i,
    {
        out.push(words[i].clone());
        i = i + 1;
        assert(out@ =~= words@.subrange(0, i as int));
    }
    assert(words@.subrange(0, words@.len() as int) =~= words@);
    out
}

/// The mathematical value of a segment: its words as a sequence.
pub struct SegmentView {
    pub id: u64,
    pub start_ms: i64,
    pub end_ms: i64,
    pub raw_text: String,
    pub words: Seq<TranscriptWord>,
    pub translation: String,
    pub speaker: Speaker,
}

impl View for ComplexSegment {
    type V = SegmentView;

    open spec fn view(&self) -> SegmentView {
        SegmentView {
            id: self.id,
            start_ms: self.start_ms,
            end_ms: self.end_ms,
            raw_text: self.raw_text,
            words: self.words@,
            translation: self.translation,
            speaker: self.speaker,
        }
    }
}

/// The values of a sequence of segments.
pub open spec fn views(s: Seq<ComplexSegment>) -> Seq<SegmentView> {
    s.map_values(|x: ComplexSegment| x@)
}

impl Clone for ComplexSegment {
    fn clone(&self) -> (r: Self)
        ensures
            r@ == self@,
    {
        let words = clone_words(&self.words);
        ComplexSegment {
            id: self.id,
            start_ms: self.start_ms,
            end_ms: self.end_ms,
            raw_text: self.raw_text.clone(),
            words,
            translation: self.translation.clone(),
            speaker: self.speaker.clone(),
        }
    }
}

/// A timed segment of speech without word-level annotation.
#[derive(Debug)]
pub struct SimpleSegment {
    pub id: i64,
    /// Start of the segment, in milliseconds.
    pub start_ms: i64,
    /// End of the segment, in milliseconds.
    pub end_ms: i64,
    pub raw_text: String,
    pub translation: String,
    pub speaker_id: String,
}

/// A complete transcript without word-level annotation.
#[derive(Debug)]
pub struct SimpleTranscriptOutput {
    pub source_language: String,
    pub target_language: String,
    /// Total duration, in milliseconds.
    pub total_duration_ms: i64,
    pub speakers: Vec<Speaker>,
    pub segments: Vec<SimpleSegment>,
}

/// A complete transcript with word-level annotation.
#[derive(Debug)]
pub struct ComplexTranscriptOutput {
    pub source_language: String,
    pub target_language: String,
    /// Total duration, in milliseconds.
    pub total_duration_ms: i64,
    pub speakers: Vec<Speaker>,
    pub segments: Vec<ComplexSegment>,
}

} // verus!
