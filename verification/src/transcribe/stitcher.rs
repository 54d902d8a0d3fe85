//! Merging two consecutive chunks with the stitching model's answer.
use vstd::prelude::*;
use crate::types::overlap::{OverlapResult, StitchedSegment, stitched_view};
use crate::types::transcript::{ComplexSegment, SegmentView, Speaker, views};
use crate::transcribe::chunked::{add_new_speakers, push_new_speakers};

verus! {

/// How many segments at the end of `prev` carry an id listed in `ids`
/// (counting back from the last one and stopping at the first that is not).
pub open spec fn trailing_replaced(prev: Seq<SegmentView>, ids: Seq<u64>) -> nat
    decreases prev.len(),
{
    if prev.len() == 0 {
        0
    } else if ids.contains(prev.last().id) {
        1 + trailing_replaced(prev.drop_last(), ids)
    } else {
        0
    }
}

/// The segments of `s` that start at or after `t`, in order.
pub open spec fn starting_from(s: Seq<SegmentView>, t: int) -> Seq<SegmentView>
    decreases s.len(),
{
    if s.len() == 0 {
        s
    } else {
        let kept = starting_from(s.drop_last(), t);
        if s.last().start_ms >= t {
            kept.push(s.last())
        } else {
            kept
        }
    }
}

/// The transcript that a stitch produces: `prev` without its replaced tail,
/// then the model's boundary segments, then the segments of `next` that start
/// at or after `overlap_end`.
pub open spec fn stitched_transcript(
    prev: Seq<SegmentView>,
    next: Seq<SegmentView>,
    replace_ids: Seq<u64>,
    boundary: Seq<StitchedSegment>,
    overlap_end: int,
) -> Seq<SegmentView> {
    prev.subrange(0, prev.len() - trailing_replaced(prev, replace_ids)) + boundary.map_values(
        |s: StitchedSegment| stitched_view(s),
    ) + starting_from(next, overlap_end)
}

proof fn lemma_trailing_replaced_bound(prev: Seq<SegmentView>, ids: Seq<u64>)
    ensures
        trailing_replaced(prev, ids) <= prev.len(),
    decreases prev.len(),
{
    if prev.len() > 0 {
        lemma_trailing_replaced_bound(prev.drop_last(), ids);
    }
}

/// Whether `id` is listed in `ids`.
pub fn contains_id(ids: &Vec<u64>, id: u64) -> (r: bool)
    ensures
        r == ids@.contains(id),
{
    let mut j: usize = 0;
    while j < ids.len()
        invariant
            j <= ids@.len(),
            forall|k: int| 0 <= k < j ==> ids@[k] != id,
        decreases ids@.len() - j,
    {
        if ids[j] == id {
            assert(ids@[j as int] == id);
            return true;
        }
        j = j + 1;
    }
    false
}

/// Counts the segments at the end of `prev` whose ids are to be replaced.
fn count_trailing_replaced(prev: &Vec<ComplexSegment>, ids: &Vec<u64>) -> (r: usize)
    ensures
        r == trailing_replaced(views(prev@), ids@),
{
    let len = prev.len();
    let mut count: usize = 0;
    assert(views(prev@).subrange(0, len as int) =~= views(prev@));
    while count < len && contains_id(ids, prev[len - 1 - count].id)
        invariant
            len == prev@.len(),
            count <= len,
            trailing_replaced(views(prev@), ids@) == count + trailing_replaced(
                views(prev@).subrange(0, len - count),
                ids@,
            ),
        decreases len - count,
    {
        proof {
            let p = views(prev@).subrange(0, len - count);
            assert(p.drop_last() =~= views(prev@).subrange(0, len - count - 1));
        }
        count = count + 1;
    }
    proof {
        let p = views(prev@).subrange(0, len - count);
        if count < len {
            assert(p.last() == prev@[len - 1 - count]@);
        }
    }
    count
}

/// Joins `prev` (without its trailing segments whose ids are listed in
/// `replace_ids`), the boundary segments, and the segments of `next` that
/// start at or after `overlap_end_ms`.
pub fn stitch_segments(
    prev: Vec<ComplexSegment>,
    next: &[ComplexSegment],
    replace_ids: &Vec<u64>,
    boundary: &Vec<StitchedSegment>,
    overlap_end_ms: i64,
) -> (r: Vec<ComplexSegment>)
    ensures
        views(r@) == stitched_transcript(
            views(prev@),
            views(next@),
            replace_ids@,
            boundary@,
            overlap_end_ms as int,
        ),
{
    let discard_count = count_trailing_replaced(&prev, replace_ids);
    proof {
        lemma_trailing_replaced_bound(views(prev@), replace_ids@);
    }
    let keep_up_to = prev.len() - discard_count;
    let ghost prev_views = views(prev@);
    let mut merged = prev;
    merged.truncate(keep_up_to);
    assert(views(merged@) =~= prev_views.subrange(0, keep_up_to as int));
    let ghost base = views(merged@);
    let mut i: usize = 0;
    while i < boundary.len()
        invariant
            i <= boundary@.len(),
            views(merged@) == base + boundary@.subrange(0, i as int).map_values(
                |s: StitchedSegment| stitched_view(s),
            ),
        decreases boundary@.len() - i,
    {
        let seg = ComplexSegment::from_stitched(&boundary[i]);
        let ghost before = views(merged@);
        merged.push(seg);
        assert(views(merged@) =~= before.push(stitched_view(boundary@[i as int])));
        i = i + 1;
        assert(views(merged@) =~= base + boundary@.subrange(0, i as int).map_values(
            |s: StitchedSegment| stitched_view(s),
        ));
    }
    assert(boundary@.subrange(0, boundary@.len() as int) =~= boundary@);
    let ghost base2 = views(merged@);
    let mut k: usize = 0;
    while k < next.len()
        invariant
            k <= next@.len(),
            views(merged@) == base2 + starting_from(
                views(next@).subrange(0, k as int),
                overlap_end_ms as int,
            ),
        decreases next@.len() - k,
    {
        proof {
            let sub = views(next@).subrange(0, k + 1);
            assert(sub.drop_last() =~= views(next@).subrange(0, k as int));
            assert(sub.last() == next@[k as int]@);
        }
        if next[k].start_ms >= overlap_end_ms {
            let c = next[k].clone();
            let ghost before = views(merged@);
            merged.push(c);
            assert(views(merged@) =~= before.push(next@[k as int]@));
        }
        k = k + 1;
        assert(views(merged@) =~= base2 + starting_from(
            views(next@).subrange(0, k as int),
            overlap_end_ms as int,
        ));
    }
    assert(views(next@).subrange(0, next@.len() as int) =~= views(next@));
    merged
}

/// Copies a speaker list.
pub fn clone_speakers(speakers: &[Speaker]) -> (r: Vec<Speaker>)
    ensures
        r@ == speakers@,
{
    let mut out: Vec<Speaker> = Vec::new();
    let mut j: usize = 0;
    while j < speakers.len()
        invariant
            j <= speakers@.len(),
            out@ == speakers@.subrange(0, j as int),
        decreases speakers@.len() - j,
    {
        out.push(speakers[j].clone());
        j = j + 1;
        assert(out@ =~= speakers@.subrange(0, j as int));
    }
    assert(speakers@.subrange(0, speakers@.len() as int) =~= speakers@);
    out
}

/// Merges two consecutive chunks into one continuous transcript.
///
/// `prev` holds the segments accumulated so far, `next` those of the new
/// chunk (both in global time), and `result` the stitching model's answer.
/// The trailing segments of `prev` whose ids the model replaces are dropped,
/// the model's boundary segments are appended, then the segments of `next`
/// that start at or after the overlap end. The speaker list is
/// `global_speakers` followed by each new speaker identifier of the merged
/// transcript, in order of first appearance.
pub fn apply_stitch(
    prev: Vec<ComplexSegment>,
    next: Vec<ComplexSegment>,
    result: OverlapResult,
    global_speakers: &[Speaker],
) -> (r: (Vec<ComplexSegment>, Vec<Speaker>))
    ensures
        views(r.0@) == stitched_transcript(
            views(prev@),
            views(next@),
            result.replace_segment_ids@,
            result.new_segments@,
            result.overlap_end_ms as int,
        ),
        r.1@ == add_new_speakers(global_speakers@, views(r.0@)),
{
    let merged = stitch_segments(
        prev,
        next.as_slice(),
        &result.replace_segment_ids,
        &result.new_segments,
        result.overlap_end_ms,
    );
    let mut speakers = clone_speakers(global_speakers);
    push_new_speakers(&mut speakers, merged.as_slice());
    (merged, speakers)
}

proof fn lemma_trailing_replaced_run(prev: Seq<SegmentView>, ids: Seq<u64>)
    ensures
        trailing_replaced(prev, ids) <= prev.len(),
        forall|i: int|
            prev.len() - trailing_replaced(prev, ids) <= i < prev.len() ==> ids.contains(
                (#[trigger] prev[i]).id,
            ),
        trailing_replaced(prev, ids) < prev.len() ==> !ids.contains(
            prev[prev.len() - trailing_replaced(prev, ids) - 1].id,
        ),
    decreases prev.len(),
{
    if prev.len() > 0 {
        let init = prev.drop_last();
        lemma_trailing_replaced_run(init, ids);
        if ids.contains(prev.last().id) {
            assert forall|i: int|
                prev.len() - trailing_replaced(prev, ids) <= i < prev.len() implies ids.contains(
                (#[trigger] prev[i]).id,
            ) by {
                if i < prev.len() - 1 {
                    assert(prev[i] == init[i]);
                }
            }
            if trailing_replaced(prev, ids) < prev.len() {
                assert(prev[prev.len() - trailing_replaced(prev, ids) - 1] == init[init.len()
                    - trailing_replaced(init, ids) - 1]);
            }
        }
    }
}

proof fn lemma_starting_from(s: Seq<SegmentView>, t: int)
    ensures
        forall|j: int|
            0 <= j < starting_from(s, t).len() ==> (#[trigger] starting_from(s, t)[j]).start_ms >= t
                && s.contains(starting_from(s, t)[j]),
        forall|i: int| 0 <= i < s.len() && (#[trigger] s[i]).start_ms >= t ==> starting_from(s, t).contains(s[i]),
    decreases s.len(),
{
    if s.len() > 0 {
        let init = s.drop_last();
        lemma_starting_from(init, t);
        let k = starting_from(init, t);
        let r = starting_from(s, t);
        assert forall|j: int| 0 <= j < r.len() implies (#[trigger] r[j]).start_ms >= t && s.contains(r[j]) by {
            if j < k.len() {
                assert(r[j] == k[j]);
                let m = choose|m: int| 0 <= m < init.len() && init[m] == k[j];
                assert(s[m] == init[m]);
            } else {
                assert(r[j] == s.last());
                assert(s[s.len() - 1] == s.last());
            }
        }
        assert forall|i: int| 0 <= i < s.len() && (#[trigger] s[i]).start_ms >= t implies r.contains(s[i]) by {
            if i < s.len() - 1 {
                assert(s[i] == init[i]);
                let m = choose|m: int| 0 <= m < k.len() && k[m] == init[i];
                assert(r[m] == k[m]);
            } else {
                assert(r[r.len() - 1] == s[i]);
            }
        }
    }
}

/// What a stitch keeps: `prev` loses exactly its trailing run of replaced
/// segments (every dropped segment has a listed id, and the last kept one
/// does not) and keeps the rest unchanged; then come the model's boundary
/// segments, each with the answer's id, times, text, translation, speaker
/// and words; then exactly the segments of `next` that start at or after
/// `overlap_end`.
pub proof fn law_stitch_keeps(
    prev: Seq<SegmentView>,
    next: Seq<SegmentView>,
    ids: Seq<u64>,
    boundary: Seq<StitchedSegment>,
    overlap_end: int,
)
    ensures
        ({
            let out = stitched_transcript(prev, next, ids, boundary, overlap_end);
            let kept = prev.len() - trailing_replaced(prev, ids);
            let b = boundary.len();
            &&& 0 <= kept <= prev.len()
            &&& forall|i: int| kept <= i < prev.len() ==> ids.contains((#[trigger] prev[i]).id)
            &&& kept > 0 ==> !ids.contains(prev[kept - 1].id)
            &&& kept + b <= out.len()
            &&& forall|i: int| 0 <= i < kept ==> #[trigger] out[i] == prev[i]
            &&& forall|k: int|
                0 <= k < b ==> {
                    &&& (#[trigger] out[kept + k]).id == boundary[k].id
                    &&& out[kept + k].start_ms == boundary[k].start_ms
                    &&& out[kept + k].end_ms == boundary[k].end_ms
                    &&& out[kept + k].raw_text == boundary[k].raw_text
                    &&& out[kept + k].translation == boundary[k].translation
                    &&& out[kept + k].speaker.speaker_id == boundary[k].speaker.speaker_id
                    &&& out[kept + k].speaker.label == boundary[k].speaker.label
                    &&& out[kept + k].words.len() == boundary[k].words@.len()
                }
            &&& forall|j: int|
                kept + b <= j < out.len() ==> (#[trigger] out[j]).start_ms >= overlap_end && next.contains(
                    out[j],
                )
            &&& forall|i: int|
                0 <= i < next.len() && (#[trigger] next[i]).start_ms >= overlap_end ==> out.subrange(
                    kept + b,
                    out.len() as int,
                ).contains(next[i])
        }),
{
    lemma_trailing_replaced_run(prev, ids);
    lemma_starting_from(next, overlap_end);
    let out = stitched_transcript(prev, next, ids, boundary, overlap_end);
    let kept = prev.len() - trailing_replaced(prev, ids);
    let b = boundary.len();
    let tail = starting_from(next, overlap_end);
    assert(out.subrange(kept + b, out.len() as int) =~= tail);
    assert forall|j: int| kept + b <= j < out.len() implies (#[trigger] out[j]).start_ms >= overlap_end
        && next.contains(out[j]) by {
        assert(out[j] == tail[j - kept - b]);
    }
}

} // verus!
