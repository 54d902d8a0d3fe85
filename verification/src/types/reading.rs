//! Requests and answers of the word-fill step, which back-fills missing
//! word-level annotation.
use vstd::prelude::*;
use crate::types::transcript::TranscriptWord;

verus! {

/// Input of the word-fill step: the segments whose `words` came back empty.
#[derive(Debug)]
pub struct WordFillInput {
    pub segments: Vec<WordFillSegment>,
}

/// A segment that needs word-level annotation.
#[derive(Debug, Clone)]
pub struct WordFillSegment {
    /// Identifier used to map the answer back to the segment.
    pub id: u64,
    /// The raw text to be broken down into words.
    pub raw_text: String,
}

/// Answer of the word-fill step.
#[derive(Debug)]
pub struct WordFillOutput {
    /// One entry per requested segment.
    pub segments: Vec<WordFillResultSegment>,
}

/// The words found for one requested segment.
#[derive(Debug)]
pub struct WordFillResultSegment {
    pub id: u64,
    pub words: Vec<TranscriptWord>,
}

} // verus!
