//! Helpers for transcribing long audio chunk by chunk: moving chunk-local
//! segments into global time, taking the boundary segments of two chunks,
//! numbering segments and keeping the speaker list consistent.
use vstd::prelude::*;
use crate::constants::{CHUNK_CONTEXT_PROMPT, TRANSCRIPTION_SYSTEM_PROMPT};
use crate::text::{push_str, replace_all, replace_str};
use crate::types::transcript::{ComplexSegment, SegmentView, Speaker, views, clone_words};

verus! {

/// The system prompt of chunk `chunk_index`: the base transcription prompt,
/// and from the second chunk on (when a summary exists) the context prompt
/// with the latest summary in place of `{summary}`.
pub open spec fn system_prompt(chunk_index: int, summaries: Seq<String>) -> Seq<char> {
    if chunk_index == 0 || summaries.len() == 0 {
        TRANSCRIPTION_SYSTEM_PROMPT@
    } else {
        TRANSCRIPTION_SYSTEM_PROMPT@ + "\n\n"@ + replace_all(
            CHUNK_CONTEXT_PROMPT@,
            "{summary}"@,
            summaries.last()@,
        )
    }
}

/// Builds the system prompt for chunk `chunk_index`.
///
/// Chunk 0 uses the base transcription prompt unchanged. Every later chunk
/// appends a summary of the previous chunk so the model knows what came
/// before (speaker labels, topic, register, ...).
pub fn build_system_prompt(chunk_index: usize, summaries: &[String]) -> (r: String)
    ensures
        r@ == system_prompt(chunk_index as int, summaries@),
{
    let base = TRANSCRIPTION_SYSTEM_PROMPT;
    let mut out = String::from_str(base);
    if chunk_index == 0 || summaries.len() == 0 {
        out
    } else {
        let summary = &summaries[summaries.len() - 1];
        proof {
            reveal_strlit("{summary}");
        }
        let ctx = replace_str(CHUNK_CONTEXT_PROMPT, "{summary}", summary.as_str());
        push_str(&mut out, "\n\n");
        push_str(&mut out, ctx.as_str());
        out
    }
}

/// A segment moved by `offset_ms` milliseconds and `id_offset` ids.
pub open spec fn shifted(v: SegmentView, offset_ms: int, id_offset: int) -> SegmentView {
    SegmentView {
        id: (v.id + id_offset) as u64,
        start_ms: (v.start_ms + offset_ms) as i64,
        end_ms: (v.end_ms + offset_ms) as i64,
        ..v
    }
}

/// Shifting every segment of `s` stays within the integer types.
pub open spec fn shift_fits(s: Seq<SegmentView>, offset_ms: int, id_offset: int) -> bool {
    forall|i: int|
        0 <= i < s.len() ==> {
            &&& (#[trigger] s[i]).id + id_offset <= u64::MAX
            &&& i64::MIN <= s[i].start_ms + offset_ms <= i64::MAX
            &&& i64::MIN <= s[i].end_ms + offset_ms <= i64::MAX
        }
}

/// A copy of the segment with another id.
pub fn with_id(seg: &ComplexSegment, id: u64) -> (r: ComplexSegment)
    ensures
        r@ == (SegmentView { id, ..seg@ }),
{
    ComplexSegment {
        id,
        start_ms: seg.start_ms,
        end_ms: seg.end_ms,
        raw_text: seg.raw_text.clone(),
        words: clone_words(&seg.words),
        translation: seg.translation.clone(),
        speaker: seg.speaker.clone(),
    }
}

/// Adds `offset_ms` to every segment timestamp and `id_offset` to every
/// segment id so that the chunk's local numbers become global.
pub fn shift_segments(segments: Vec<ComplexSegment>, offset_ms: i64, id_offset: u64) -> (r: Vec<
    ComplexSegment,
>)
    requires
        shift_fits(views(segments@), offset_ms as int, id_offset as int),
    ensures
        views(r@) == views(segments@).map_values(
            |v: SegmentView| shifted(v, offset_ms as int, id_offset as int),
        ),
{
    let mut out: Vec<ComplexSegment> = Vec::new();
    let mut i: usize = 0;
    while i < segments.len()
        invariant
            i <= segments@.len(),
            shift_fits(views(segments@), offset_ms as int, id_offset as int),
            views(out@) == views(segments@).subrange(0, i as int).map_values(
                |v: SegmentView| shifted(v, offset_ms as int, id_offset as int),
            ),
        decreases segments@.len() - i,
    {
        let seg = &segments[i];
        assert(views(segments@)[i as int] == seg@);
        let moved = ComplexSegment {
            id: seg.id + id_offset,
            start_ms: seg.start_ms + offset_ms,
            end_ms: seg.end_ms + offset_ms,
            raw_text: seg.raw_text.clone(),
            words: clone_words(&seg.words),
            translation: seg.translation.clone(),
            speaker: seg.speaker.clone(),
        };
        let ghost before = views(out@);
        assert(moved@ == shifted(seg@, offset_ms as int, id_offset as int));
        out.push(moved);
        assert(views(out@) =~= before.push(moved@));
        i = i + 1;
        assert(views(out@) =~= views(segments@).subrange(0, i as int).map_values(
            |v: SegmentView| shifted(v, offset_ms as int, id_offset as int),
        ));
    }
    assert(views(segments@).subrange(0, segments@.len() as int) =~= views(segments@));
    out
}

/// `a + b` lies within `i64`.
fn i64_sum_fits(a: i64, b: i64) -> (r: bool)
    ensures
        r == (i64::MIN <= a + b <= i64::MAX),
{
    if b >= 0 {
        a <= i64::MAX - b
    } else {
        a >= i64::MIN - b
    }
}

/// Whether a chunk's segments can be moved into global time and ids: every
/// shifted timestamp fits in `i64`, and every shifted id stays below
/// `u64::MAX`, which the id of the next chunk's first segment needs.
pub fn chunk_shift_fits(segments: &[ComplexSegment], offset_ms: i64, id_offset: u64) -> (r: bool)
    ensures
        r == (shift_fits(views(segments@), offset_ms as int, id_offset as int) && forall|i: int|
            0 <= i < segments@.len() ==> (#[trigger] segments@[i]).id + id_offset < u64::MAX),
{
    let mut i: usize = 0;
    while i < segments.len()
        invariant
            i <= segments@.len(),
            views(segments@).len() == segments@.len(),
            shift_fits(views(segments@).subrange(0, i as int), offset_ms as int, id_offset as int),
            forall|k: int| 0 <= k < i ==> (#[trigger] segments@[k]).id + id_offset < u64::MAX,
        decreases segments@.len() - i,
    {
        let seg = &segments[i];
        assert(views(segments@)[i as int] == seg@);
        if seg.id >= u64::MAX - id_offset || !i64_sum_fits(seg.start_ms, offset_ms)
            || !i64_sum_fits(seg.end_ms, offset_ms) {
            assert(!shift_fits(views(segments@), offset_ms as int, id_offset as int) || !(
            segments@[i as int].id + id_offset < u64::MAX));
            return false;
        }
        i = i + 1;
        assert forall|k: int| 0 <= k < i implies {
            let s = #[trigger] views(segments@).subrange(0, i as int)[k];
            &&& s.id + id_offset <= u64::MAX
            &&& i64::MIN <= s.start_ms + offset_ms <= i64::MAX
            &&& i64::MIN <= s.end_ms + offset_ms <= i64::MAX
        } by {
            if k < i - 1 {
                assert(views(segments@).subrange(0, i as int)[k] == views(segments@).subrange(
                    0,
                    i - 1,
                )[k]);
            }
        }
    }
    assert(views(segments@).subrange(0, segments@.len() as int) =~= views(segments@));
    true
}

/// Copies the segments `lo..hi`.
fn clone_range(segments: &[ComplexSegment], lo: usize, hi: usize) -> (r: Vec<ComplexSegment>)
    requires
        lo <= hi <= segments@.len(),
    ensures
        views(r@) == views(segments@).subrange(lo as int, hi as int),
{
    let mut out: Vec<ComplexSegment> = Vec::new();
    let mut i: usize = lo;
    while i < hi
        invariant
            lo <= i <= hi,
            hi <= segments@.len(),
            views(out@) == views(segments@).subrange(lo as int, i as int),
        decreases hi - i,
    {
        let c = segments[i].clone();
        let ghost before = views(out@);
        out.push(c);
        assert(views(out@) =~= before.push(segments@[i as int]@));
        i = i + 1;
        assert(views(out@) =~= views(segments@).subrange(lo as int, i as int));
    }
    out
}

/// Returns the last `n` segments (or fewer if the slice is short).
pub fn extract_tail(segments: &[ComplexSegment], n: usize) -> (r: Vec<ComplexSegment>)
    ensures
        views(r@) == views(segments@).subrange(
            if n < segments@.len() { segments@.len() - n } else { 0 },
            segments@.len() as int,
        ),
{
    let len = segments.len();
    let lo = if n < len {
        len - n
    } else {
        0
    };
    clone_range(segments, lo, len)
}

/// Returns the first `n` segments (or fewer if the slice is short).
pub fn extract_head(segments: &[ComplexSegment], n: usize) -> (r: Vec<ComplexSegment>)
    ensures
        views(r@) == views(segments@).subrange(
            0,
            if n < segments@.len() { n as int } else { segments@.len() as int },
        ),
{
    let len = segments.len();
    let hi = if n < len {
        n
    } else {
        len
    };
    clone_range(segments, 0, hi)
}

/// Some speaker of `list` has the identifier `id`.
pub open spec fn has_speaker_id(list: Seq<Speaker>, id: Seq<char>) -> bool {
    exists|j: int| 0 <= j < list.len() && (#[trigger] list[j]).speaker_id@ == id
}

/// `seed` followed by the speaker of each segment whose identifier is not
/// yet listed, in order of first appearance.
pub open spec fn add_new_speakers(seed: Seq<Speaker>, segs: Seq<SegmentView>) -> Seq<Speaker>
    decreases segs.len(),
{
    if segs.len() == 0 {
        seed
    } else {
        let prev = add_new_speakers(seed, segs.drop_last());
        let sp = segs.last().speaker;
        if has_speaker_id(prev, sp.speaker_id@) {
            prev
        } else {
            prev.push(sp)
        }
    }
}

/// Whether a speaker of `list` has the identifier `id`.
pub fn contains_speaker_id(list: &Vec<Speaker>, id: &String) -> (r: bool)
    ensures
        r == has_speaker_id(list@, id@),
{
    let mut j: usize = 0;
    while j < list.len()
        invariant
            j <= list@.len(),
            forall|k: int| 0 <= k < j ==> (#[trigger] list@[k]).speaker_id@ != id@,
        decreases list@.len() - j,
    {
        if list[j].speaker_id == *id {
            assert(list@[j as int].speaker_id@ == id@);
            return true;
        }
        j = j + 1;
    }
    false
}

/// Appends to `speakers` the speaker of each segment whose identifier is not
/// listed yet.
pub fn push_new_speakers(speakers: &mut Vec<Speaker>, segments: &[ComplexSegment])
    ensures
        final(speakers)@ == add_new_speakers(old(speakers)@, views(segments@)),
{
    let ghost seed = speakers@;
    let mut i: usize = 0;
    while i < segments.len()
        invariant
            i <= segments@.len(),
            speakers@ == add_new_speakers(seed, views(segments@).subrange(0, i as int)),
        decreases segments@.len() - i,
    {
        let seg = &segments[i];
        proof {
            let sub = views(segments@).subrange(0, i + 1);
            assert(sub.drop_last() =~= views(segments@).subrange(0, i as int));
            assert(sub.last() == seg@);
        }
        if !contains_speaker_id(speakers, &seg.speaker.speaker_id) {
            speakers.push(seg.speaker.clone());
        }
        i = i + 1;
    }
    assert(views(segments@).subrange(0, segments@.len() as int) =~= views(segments@));
}

/// Extracts a deduplicated, order-preserving speaker list from a segment
/// slice: the speaker of the first segment of each identifier.
pub fn dedup_speakers(segments: &[ComplexSegment]) -> (r: Vec<Speaker>)
    ensures
        r@ == add_new_speakers(Seq::empty(), views(segments@)),
{
    let mut speakers: Vec<Speaker> = Vec::new();
    push_new_speakers(&mut speakers, segments);
    speakers
}

/// Re-assigns sequential ids starting at 1, so that the numbering is
/// gap-free after stitching.
pub fn renumber_segments(segments: &mut [ComplexSegment])
    ensures
        final(segments)@.len() == old(segments)@.len(),
        forall|i: int|
            0 <= i < old(segments)@.len() ==> (#[trigger] final(segments)@[i])@ == (SegmentView {
                id: (i + 1) as u64,
                ..old(segments)@[i]@
            }),
{
    let ghost orig = segments@;
    let mut i: usize = 0;
    while i < segments.len()
        invariant
            segments@.len() == orig.len(),
            i <= orig.len(),
            forall|k: int|
                0 <= k < i ==> (#[trigger] segments@[k])@ == (SegmentView {
                    id: (k + 1) as u64,
                    ..orig[k]@
                }),
            forall|k: int| i <= k < orig.len() ==> #[trigger] segments@[k] == orig[k],
        decreases orig.len() - i,
    {
        let renumbered = with_id(&segments[i], (i + 1) as u64);
        segments[i] = renumbered;
        i = i + 1;
    }
}


/// Some speaker of `list` has the label `label`.
pub open spec fn has_label(list: Seq<Speaker>, label: Seq<char>) -> bool {
    exists|j: int| 0 <= j < list.len() && (#[trigger] list[j]).label@ == label
}

/// The speaker of the first segment of each label, in order of first
/// appearance.
pub open spec fn speakers_by_label(segs: Seq<SegmentView>) -> Seq<Speaker>
    decreases segs.len(),
{
    if segs.len() == 0 {
        Seq::empty()
    } else {
        let prev = speakers_by_label(segs.drop_last());
        let sp = segs.last().speaker;
        if has_label(prev, sp.label@) {
            prev
        } else {
            prev.push(sp)
        }
    }
}

/// The first position at or after `j` of a speaker labelled `label`.
pub open spec fn find_label_from(list: Seq<Speaker>, label: Seq<char>, j: int) -> Option<int>
    decreases list.len() - j,
{
    if j < 0 || j >= list.len() {
        None
    } else if list[j].label@ == label {
        Some(j)
    } else {
        find_label_from(list, label, j + 1)
    }
}

/// The speaker that `sp` becomes: the identifier of the first listed
/// speaker with the same label, keeping its own label.
pub open spec fn canonical_speaker(list: Seq<Speaker>, sp: Speaker) -> Speaker {
    match find_label_from(list, sp.label@, 0) {
        Some(j) => Speaker { speaker_id: list[j].speaker_id, label: sp.label },
        None => sp,
    }
}

/// The first position of a speaker labelled `label`.
fn find_label(list: &Vec<Speaker>, label: &String) -> (r: Option<usize>)
    ensures
        match r {
            Some(j) => find_label_from(list@, label@, 0) == Some(j as int),
            None => find_label_from(list@, label@, 0) is None,
        },
{
    let mut j: usize = 0;
    while j < list.len()
        invariant
            j <= list@.len(),
            find_label_from(list@, label@, 0) == find_label_from(list@, label@, j as int),
        decreases list@.len() - j,
    {
        if list[j].label == *label {
            return Some(j);
        }
        j = j + 1;
    }
    None
}

proof fn lemma_find_label_found(list: Seq<Speaker>, label: Seq<char>, j: int)
    requires
        0 <= j,
        exists|k: int| j <= k < list.len() && (#[trigger] list[k]).label@ == label,
    ensures
        find_label_from(list, label, j) matches Some(k) ==> j <= k < list.len() && list[k].label@
            == label,
        find_label_from(list, label, j) is Some,
    decreases list.len() - j,
{
    if j < list.len() && list[j].label@ != label {
        let k = choose|k: int| j <= k < list.len() && (#[trigger] list[k]).label@ == label;
        assert(j + 1 <= k);
        lemma_find_label_found(list, label, j + 1);
    }
}

proof fn lemma_find_label_sound(list: Seq<Speaker>, label: Seq<char>, j: int)
    ensures
        find_label_from(list, label, j) matches Some(k) ==> j <= k < list.len() && list[k].label@
            == label,
    decreases list.len() - j,
{
    if 0 <= j < list.len() && list[j].label@ != label {
        lemma_find_label_sound(list, label, j + 1);
    }
}

/// Unifies speaker ids across chunks by label: every segment takes the
/// identifier of the first segment with the same label, so the speaker list
/// stays deduplicated. Returns the speaker of the first segment of each
/// label, in order of first appearance.
pub fn reconcile_speakers(segments: &mut [ComplexSegment]) -> (r: Vec<Speaker>)
    ensures
        r@ == speakers_by_label(views(old(segments)@)),
        final(segments)@.len() == old(segments)@.len(),
        forall|i: int|
            0 <= i < old(segments)@.len() ==> (#[trigger] final(segments)@[i])@ == (SegmentView {
                speaker: canonical_speaker(r@, old(segments)@[i]@.speaker),
                ..old(segments)@[i]@
            }),
{
    let ghost orig = segments@;
    let mut speakers: Vec<Speaker> = Vec::new();
    let mut i: usize = 0;
    while i < segments.len()
        invariant
            segments@ == orig,
            i <= orig.len(),
            speakers@ == speakers_by_label(views(orig).subrange(0, i as int)),
        decreases orig.len() - i,
    {
        let seg = &segments[i];
        proof {
            let sub = views(orig).subrange(0, i + 1);
            assert(sub.drop_last() =~= views(orig).subrange(0, i as int));
            assert(sub.last() == seg@);
        }
        match find_label(&speakers, &seg.speaker.label) {
            Some(_) => {
                proof {
                    lemma_find_label_sound(speakers@, seg.speaker.label@, 0);
                }
            },
            None => {
                proof {
                    if has_label(speakers@, seg.speaker.label@) {
                        lemma_find_label_found(speakers@, seg.speaker.label@, 0);
                    }
                }
                speakers.push(seg.speaker.clone());
            },
        }
        i = i + 1;
    }
    assert(views(orig).subrange(0, orig.len() as int) =~= views(orig));
    let mut k: usize = 0;
    while k < segments.len()
        invariant
            segments@.len() == orig.len(),
            k <= orig.len(),
            speakers@ == speakers_by_label(views(orig)),
            forall|m: int|
                0 <= m < k ==> (#[trigger] segments@[m])@ == (SegmentView {
                    speaker: canonical_speaker(speakers@, orig[m]@.speaker),
                    ..orig[m]@
                }),
            forall|m: int| k <= m < orig.len() ==> #[trigger] segments@[m] == orig[m],
        decreases orig.len() - k,
    {
        match find_label(&speakers, &segments[k].speaker.label) {
            Some(j) => {
                proof {
                    lemma_find_label_sound(speakers@, segments@[k as int].speaker.label@, 0);
                }
                let seg = &segments[k];
                let updated = ComplexSegment {
                    id: seg.id,
                    start_ms: seg.start_ms,
                    end_ms: seg.end_ms,
                    raw_text: seg.raw_text.clone(),
                    words: clone_words(&seg.words),
                    translation: seg.translation.clone(),
                    speaker: Speaker {
                        speaker_id: speakers[j].speaker_id.clone(),
                        label: seg.speaker.label.clone(),
                    },
                };
                segments[k] = updated;
            },
            None => {},
        }
        k = k + 1;
    }
    speakers
}

} // verus!
