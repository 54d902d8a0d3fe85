//! The state of one long transcription, advanced chunk by chunk.
//!
//! The caller performs the model calls and the streaming of progress; this
//! type decides what is done with each answer: moving a chunk into global
//! time and ids, choosing whether and what to stitch, merging, numbering and
//! unifying speakers, and producing the final transcript.
use vstd::prelude::*;
use crate::audio::chunker::CHUNK_OVERLAP_MS;
use crate::transcribe::chunked::{
    build_system_prompt, extract_head, extract_tail, reconcile_speakers, renumber_segments,
    canonical_speaker, shift_fits, shifted, speakers_by_label, system_prompt,
};
use crate::transcribe::stitcher::{stitch_segments, stitched_transcript};
use crate::types::overlap::OverlapResult;
use crate::types::transcript::{
    ComplexSegment, ComplexTranscriptOutput, SegmentView, Speaker, views,
};

verus! {

/// Number of boundary segments on each side that are sent for stitching.
pub const STITCH_CONTEXT_SEGMENTS: usize = 5;

/// The largest id of `s`, or -1 when `s` is empty.
pub open spec fn max_id(s: Seq<SegmentView>) -> int
    decreases s.len(),
{
    if s.len() == 0 {
        -1
    } else {
        let m = max_id(s.drop_last());
        if s.last().id > m {
            s.last().id as int
        } else {
            m
        }
    }
}

proof fn lemma_max_id(s: Seq<SegmentView>)
    ensures
        forall|i: int| 0 <= i < s.len() ==> (#[trigger] s[i]).id <= max_id(s),
        s.len() > 0 ==> exists|i: int| 0 <= i < s.len() && (#[trigger] s[i]).id == max_id(s),
        s.len() == 0 ==> max_id(s) == -1,
    decreases s.len(),
{
    if s.len() > 0 {
        let init = s.drop_last();
        lemma_max_id(init);
        assert forall|i: int| 0 <= i < s.len() implies (#[trigger] s[i]).id <= max_id(s) by {
            if i < s.len() - 1 {
                assert(s[i] == init[i]);
            }
        }
        if s.last().id <= max_id(init) && init.len() > 0 {
            let j = choose|j: int| 0 <= j < init.len() && (#[trigger] init[j]).id == max_id(init);
            assert(s[j] == init[j]);
        } else {
            assert(s[s.len() - 1].id == max_id(s));
        }
    }
}

/// The segments with ids `1..=n` in order.
pub open spec fn renumbered(s: Seq<SegmentView>) -> Seq<SegmentView> {
    s.map(|i: int, v: SegmentView| SegmentView { id: (i + 1) as u64, ..v })
}

/// Each segment with the identifier of the first speaker listed under its
/// label.
pub open spec fn with_canonical_speakers(s: Seq<SegmentView>) -> Seq<SegmentView> {
    s.map_values(
        |v: SegmentView|
            SegmentView { speaker: canonical_speaker(speakers_by_label(s), v.speaker), ..v },
    )
}

/// The accumulated state of a chunked transcription.
pub struct TranscriptionSession {
    /// All segments so far, in global time.
    pub segments: Vec<ComplexSegment>,
    /// The speaker list, one entry per label.
    pub speakers: Vec<Speaker>,
    /// The summary of each finished chunk (empty when summarizing failed).
    pub summaries: Vec<String>,
    /// The id offset applied to the next chunk's segments.
    pub next_id_offset: u64,
    /// End of the last finished chunk, in milliseconds.
    pub total_duration_ms: i64,
}

impl TranscriptionSession {
    /// A session before the first chunk.
    pub fn new() -> (r: Self)
        ensures
            r.segments@.len() == 0,
            r.speakers@.len() == 0,
            r.summaries@.len() == 0,
            r.next_id_offset == 0,
            r.total_duration_ms == 0,
    {
        TranscriptionSession {
            segments: Vec::new(),
            speakers: Vec::new(),
            summaries: Vec::new(),
            next_id_offset: 0,
            total_duration_ms: 0,
        }
    }

    /// The system prompt for chunk `chunk_index`, built from the summaries so
    /// far.
    pub fn system_prompt(&self, chunk_index: usize) -> (r: String)
        ensures
            r@ == system_prompt(chunk_index as int, self.summaries@),
    {
        build_system_prompt(chunk_index, self.summaries.as_slice())
    }

    /// Moves a freshly transcribed chunk into global time and ids: every
    /// timestamp is shifted by the chunk start and every id by the current
    /// offset. Afterwards the offset lies above every id of the chunk (when
    /// the chunk has segments), so ids of later chunks never collide with
    /// these.
    pub fn globalize_chunk(&mut self, segments: Vec<ComplexSegment>, chunk_start_ms: i64) -> (r: Vec<
        ComplexSegment,
    >)
        requires
            shift_fits(views(segments@), chunk_start_ms as int, old(self).next_id_offset as int),
            forall|i: int|
                0 <= i < segments@.len() ==> (#[trigger] segments@[i]).id + old(self).next_id_offset
                    < u64::MAX,
        ensures
            views(r@) == views(segments@).map_values(
                |v: SegmentView| shifted(v, chunk_start_ms as int, old(self).next_id_offset as int),
            ),
            final(self).next_id_offset == if segments@.len() == 0 {
                old(self).next_id_offset as int
            } else {
                max_id(views(r@)) + 1
            },
            forall|i: int|
                0 <= i < r@.len() ==> old(self).next_id_offset <= (#[trigger] r@[i]).id
                    < final(self).next_id_offset,
            final(self).segments == old(self).segments,
            final(self).speakers == old(self).speakers,
            final(self).summaries == old(self).summaries,
            final(self).total_duration_ms == old(self).total_duration_ms,
    {
        let ghost offset = self.next_id_offset;
        let moved = crate::transcribe::chunked::shift_segments(
            segments,
            chunk_start_ms,
            self.next_id_offset,
        );
        let mut max: u64 = 0;
        let mut i: usize = 0;
        let ghost orig = views(segments@);
        assert(views(moved@).len() == moved@.len());
        assert(orig.len() == segments@.len());
        assert forall|k: int| 0 <= k < moved@.len() implies (#[trigger] moved@[k]).id < u64::MAX by {
            assert(views(moved@)[k] == moved@[k]@);
            assert(orig[k] == segments@[k]@);
        }
        while i < moved.len()
            invariant
                i <= moved@.len(),
                views(moved@).len() == moved@.len(),
                i > 0 ==> max == max_id(views(moved@).subrange(0, i as int)),
                forall|k: int| 0 <= k < moved@.len() ==> (#[trigger] moved@[k]).id < u64::MAX,
            decreases moved@.len() - i,
        {
            let ghost sub = views(moved@).subrange(0, i + 1);
            let ghost prev_max = max_id(views(moved@).subrange(0, i as int));
            proof {
                assert(sub.drop_last() =~= views(moved@).subrange(0, i as int));
                assert(sub.last() == moved@[i as int]@);
                assert(max_id(sub) == if sub.last().id > prev_max {
                    sub.last().id as int
                } else {
                    prev_max
                });
                if i == 0 {
                    assert(views(moved@).subrange(0, i as int).len() == 0);
                    assert(prev_max == -1);
                }
            }
            if i == 0 || moved[i].id > max {
                max = moved[i].id;
            }
            assert(max == max_id(sub));
            i = i + 1;
        }
        proof {
            assert(views(moved@).subrange(0, moved@.len() as int) =~= views(moved@));
            lemma_max_id(views(moved@));
            assert forall|k: int| 0 <= k < moved@.len() implies offset <= (#[trigger] moved@[k]).id by {
                assert(views(moved@)[k] == moved@[k]@);
            }
        }
        if moved.len() > 0 {
            assert forall|k: int| 0 <= k < moved@.len() implies (#[trigger] moved@[k]).id < max + 1 by {
                assert(views(moved@)[k] == moved@[k]@);
            }
            self.next_id_offset = max + 1;
        }
        moved
    }

    /// Records the summary of the chunk just transcribed.
    pub fn record_summary(&mut self, summary: String)
        ensures
            final(self).summaries@ == old(self).summaries@.push(summary),
            final(self).segments == old(self).segments,
            final(self).speakers == old(self).speakers,
            final(self).next_id_offset == old(self).next_id_offset,
            final(self).total_duration_ms == old(self).total_duration_ms,
    {
        self.summaries.push(summary);
    }

    /// What is sent to the stitching model for a chunk: the last segments so
    /// far and the first segments of the chunk. Only chunks after the first
    /// are stitched, and only when both sides have segments.
    pub fn stitch_inputs(&self, chunk_index: usize, chunk_segments: &[ComplexSegment]) -> (r: Option<
        (Vec<ComplexSegment>, Vec<ComplexSegment>),
    >)
        ensures
            r is Some <==> chunk_index > 0 && chunk_segments@.len() > 0 && self.segments@.len() > 0,
            r matches Some((tail, head)) ==> {
                &&& views(tail@) == views(self.segments@).subrange(
                    if STITCH_CONTEXT_SEGMENTS < self.segments@.len() {
                        self.segments@.len() - STITCH_CONTEXT_SEGMENTS
                    } else {
                        0
                    },
                    self.segments@.len() as int,
                )
                &&& views(head@) == views(chunk_segments@).subrange(
                    0,
                    if STITCH_CONTEXT_SEGMENTS < chunk_segments@.len() {
                        STITCH_CONTEXT_SEGMENTS as int
                    } else {
                        chunk_segments@.len() as int
                    },
                )
            },
    {
        if chunk_index > 0 && chunk_segments.len() > 0 {
            let prev_tail = extract_tail(self.segments.as_slice(), STITCH_CONTEXT_SEGMENTS);
            let next_head = extract_head(chunk_segments, STITCH_CONTEXT_SEGMENTS);
            assert(views(prev_tail@).len() == prev_tail@.len());
            assert(views(next_head@).len() == next_head@.len());
            if prev_tail.len() > 0 && next_head.len() > 0 {
                return Some((prev_tail, next_head));
            }
        }
        None
    }

    /// Merges a chunk using the stitching model's answer: the replaced tail
    /// is dropped, the boundary segments appended, then the chunk's segments
    /// that start after the fixed overlap window (the chunk start plus the
    /// overlap length; the model's own overlap end is not used).
    pub fn merge_stitched(
        &mut self,
        chunk_segments: Vec<ComplexSegment>,
        overlap: OverlapResult,
        chunk_start_ms: i64,
    )
        requires
            chunk_start_ms + CHUNK_OVERLAP_MS <= i64::MAX,
        ensures
            views(final(self).segments@) == stitched_transcript(
                views(old(self).segments@),
                views(chunk_segments@),
                overlap.replace_segment_ids@,
                overlap.new_segments@,
                chunk_start_ms + CHUNK_OVERLAP_MS,
            ),
            final(self).speakers == old(self).speakers,
            final(self).summaries == old(self).summaries,
            final(self).next_id_offset == old(self).next_id_offset,
            final(self).total_duration_ms == old(self).total_duration_ms,
    {
        let mut prev: Vec<ComplexSegment> = Vec::new();
        std::mem::swap(&mut prev, &mut self.segments);
        let merged = stitch_segments(
            prev,
            chunk_segments.as_slice(),
            &overlap.replace_segment_ids,
            &overlap.new_segments,
            chunk_start_ms + CHUNK_OVERLAP_MS,
        );
        self.segments = merged;
    }

    /// Appends a chunk's segments unchanged (first chunk, nothing to stitch,
    /// or stitching failed).
    pub fn append_chunk(&mut self, chunk_segments: Vec<ComplexSegment>)
        ensures
            final(self).segments@ == old(self).segments@ + chunk_segments@,
            final(self).speakers == old(self).speakers,
            final(self).summaries == old(self).summaries,
            final(self).next_id_offset == old(self).next_id_offset,
            final(self).total_duration_ms == old(self).total_duration_ms,
    {
        let mut more = chunk_segments;
        self.segments.append(&mut more);
    }

    /// Finishes a chunk: numbers all segments `1..=n`, unifies speaker
    /// identifiers by label, rebuilds the speaker list, and records the
    /// chunk's end as the transcript duration.
    pub fn finish_chunk(&mut self, chunk_end_ms: i64)
        ensures
            views(final(self).segments@) == with_canonical_speakers(
                renumbered(views(old(self).segments@)),
            ),
            final(self).speakers@ == speakers_by_label(renumbered(views(old(self).segments@))),
            final(self).summaries == old(self).summaries,
            final(self).next_id_offset == old(self).next_id_offset,
            final(self).total_duration_ms == chunk_end_ms,
    {
        let ghost orig = views(self.segments@);
        renumber_segments(self.segments.as_mut_slice());
        assert(views(self.segments@) =~= renumbered(orig));
        let ghost numbered = views(self.segments@);
        let speakers = reconcile_speakers(self.segments.as_mut_slice());
        assert(views(self.segments@) =~= with_canonical_speakers(numbered));
        self.speakers = speakers;
        self.total_duration_ms = chunk_end_ms;
    }

    /// The final transcript (Japanese source, English target).
    pub fn into_transcript(self) -> (r: ComplexTranscriptOutput)
        ensures
            r.source_language@ == "ja"@,
            r.target_language@ == "en"@,
            r.total_duration_ms == self.total_duration_ms,
            r.speakers == self.speakers,
            r.segments == self.segments,
    {
        ComplexTranscriptOutput {
            source_language: String::from_str("ja"),
            target_language: String::from_str("en"),
            total_duration_ms: self.total_duration_ms,
            speakers: self.speakers,
            segments: self.segments,
        }
    }
}

} // verus!
