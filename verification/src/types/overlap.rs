//! The stitching model's answer for the boundary between two chunks.
use vstd::prelude::*;
use crate::types::transcript::{ComplexSegment, SegmentView, Speaker, TranscriptWord};

verus! {

/// Result of reconciling the overlap between the tail of chunk N and the head
/// of chunk N+1.
#[derive(Debug)]
pub struct OverlapResult {
    /// Time (in milliseconds) from which the segments of chunk N+1 are kept.
    pub overlap_end_ms: i64,
    /// Segment ids of chunk N that are duplicates or cut off and are replaced.
    pub replace_segment_ids: Vec<u64>,
    /// The corrected boundary segments that join the two chunks.
    pub new_segments: Vec<StitchedSegment>,
}

/// A boundary segment produced by the stitching model.
#[derive(Debug)]
pub struct StitchedSegment {
    pub id: u64,
    /// Start of the segment, in milliseconds.
    pub start_ms: i64,
    /// End of the segment, in milliseconds.
    pub end_ms: i64,
    pub raw_text: String,
    pub words: Vec<StitchedWord>,
    pub translation: String,
    pub speaker: StitchedSpeaker,
    /// True when the model reconstructed this segment from both chunks.
    pub is_reconstructed: bool,
}

/// A word of a stitched segment.
#[derive(Debug, Clone)]
pub struct StitchedWord {
    pub text: String,
    pub reading: String,
    pub romanization: String,
}

/// The speaker of a stitched segment.
#[derive(Debug, Clone)]
pub struct StitchedSpeaker {
    pub speaker_id: String,
    pub label: String,
}

/// The transcript word that carries the same text, reading and romanization.
pub open spec fn word_of_stitched(w: StitchedWord) -> TranscriptWord {
    TranscriptWord { text: w.text, reading: w.reading, romanization: w.romanization }
}

/// The transcript segment that carries the fields of `s`.
pub open spec fn stitched_view(s: StitchedSegment) -> SegmentView {
    SegmentView {
        id: s.id,
        start_ms: s.start_ms,
        end_ms: s.end_ms,
        raw_text: s.raw_text,
        words: s.words@.map_values(|w: StitchedWord| word_of_stitched(w)),
        translation: s.translation,
        speaker: Speaker { speaker_id: s.speaker.speaker_id, label: s.speaker.label },
    }
}

impl ComplexSegment {
    /// Converts a stitched boundary segment into a transcript segment, field
    /// by field (the reconstruction flag is dropped).
    pub fn from_stitched(s: &StitchedSegment) -> (r: ComplexSegment)
        ensures
            r@ == stitched_view(*s),
            r.id == s.id,
            r.start_ms == s.start_ms,
            r.end_ms == s.end_ms,
            r.raw_text == s.raw_text,
            r.translation == s.translation,
            r.speaker.speaker_id == s.speaker.speaker_id,
            r.speaker.label == s.speaker.label,
            r.words@.len() == s.words@.len(),
            forall|i: int|
                0 <= i < s.words@.len() ==> {
                    &&& (#[trigger] r.words@[i]).text == s.words@[i].text
                    &&& r.words@[i].reading == s.words@[i].reading
                    &&& r.words@[i].romanization == s.words@[i].romanization
                },
    {
        let ghost orig = *s;
        let words = &s.words;
        let mut out_words: Vec<TranscriptWord> = Vec::new();
        let mut i: usize = 0;
        while i < words.len()
            invariant
                words@ == orig.words@,
                i <= words@.len(),
                out_words@ == words@.subrange(0, i as int).map_values(
                    |w: StitchedWord| word_of_stitched(w),
                ),
            decreases words@.len() - i,
        {
            let w = &words[i];
            out_words.push(
                TranscriptWord {
                    text: w.text.clone(),
                    reading: w.reading.clone(),
                    romanization: w.romanization.clone(),
                },
            );
            i = i + 1;
            assert(out_words@ =~= words@.subrange(0, i as int).map_values(
                |w: StitchedWord| word_of_stitched(w),
            ));
        }
        assert(words@.subrange(0, words@.len() as int) =~= words@);
        ComplexSegment {
            id: s.id,
            start_ms: s.start_ms,
            end_ms: s.end_ms,
            raw_text: s.raw_text.clone(),
            words: out_words,
            translation: s.translation.clone(),
            speaker: Speaker {
                speaker_id: s.speaker.speaker_id.clone(),
                label: s.speaker.label.clone(),
            },
        }
    }
}

/// A stitched boundary segment keeps every field of the model's answer: its
/// id, times, raw text, translation, speaker, and each word with its reading
/// and romanization (only the reconstruction flag is not carried).
pub proof fn law_stitched_view_keeps_fields(s: StitchedSegment)
    ensures
        ({
            let v = stitched_view(s);
            &&& v.id == s.id && v.start_ms == s.start_ms && v.end_ms == s.end_ms
            &&& v.raw_text == s.raw_text && v.translation == s.translation
            &&& v.speaker.speaker_id == s.speaker.speaker_id && v.speaker.label == s.speaker.label
            &&& v.words.len() == s.words@.len()
            &&& forall|i: int|
                0 <= i < s.words@.len() ==> {
                    &&& (#[trigger] v.words[i]).text == s.words@[i].text
                    &&& v.words[i].reading == s.words@[i].reading
                    &&& v.words[i].romanization == s.words@[i].romanization
                }
        }),
{
}

} // verus!
