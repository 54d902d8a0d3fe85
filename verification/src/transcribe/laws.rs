//! Properties of the speaker lists that the chunk helpers build.
use vstd::prelude::*;
use crate::types::transcript::{SegmentView, Speaker};
use crate::transcribe::chunked::{add_new_speakers, canonical_speaker, find_label_from, has_label, has_speaker_id, speakers_by_label};
use crate::transcribe::session::with_canonical_speakers;

verus! {

/// The identifiers of `list` are pairwise distinct.
pub open spec fn unique_speaker_ids(list: Seq<Speaker>) -> bool {
    forall|i: int, j: int|
        0 <= i < j < list.len() ==> (#[trigger] list[i]).speaker_id@ != (#[trigger] list[j]).speaker_id@
}

/// The labels of `list` are pairwise distinct.
pub open spec fn unique_labels(list: Seq<Speaker>) -> bool {
    forall|i: int, j: int|
        0 <= i < j < list.len() ==> (#[trigger] list[i]).label@ != (#[trigger] list[j]).label@
}

proof fn lemma_add_new_speakers(seed: Seq<Speaker>, segs: Seq<SegmentView>)
    ensures
        add_new_speakers(seed, segs).len() >= seed.len(),
        add_new_speakers(seed, segs).subrange(0, seed.len() as int) == seed,
        unique_speaker_ids(seed) ==> unique_speaker_ids(add_new_speakers(seed, segs)),
        forall|i: int|
            0 <= i < segs.len() ==> has_speaker_id(
                add_new_speakers(seed, segs),
                (#[trigger] segs[i]).speaker.speaker_id@,
            ),
        forall|k: int|
            #![trigger add_new_speakers(seed, segs)[k]]
            seed.len() <= k < add_new_speakers(seed, segs).len() ==> exists|i: int|
                0 <= i < segs.len() && (#[trigger] segs[i]).speaker == add_new_speakers(
                    seed,
                    segs,
                )[k],
    decreases segs.len(),
{
    if segs.len() > 0 {
        let init = segs.drop_last();
        lemma_add_new_speakers(seed, init);
        let prev = add_new_speakers(seed, init);
        let r = add_new_speakers(seed, segs);
        let sp = segs.last().speaker;
        assert forall|i: int| 0 <= i < segs.len() implies has_speaker_id(
            r,
            (#[trigger] segs[i]).speaker.speaker_id@,
        ) by {
            if i < segs.len() - 1 {
                assert(init[i] == segs[i]);
                let j = choose|j: int|
                    0 <= j < prev.len() && (#[trigger] prev[j]).speaker_id@
                        == init[i].speaker.speaker_id@;
                assert(r[j] == prev[j]);
            } else {
                if !has_speaker_id(prev, sp.speaker_id@) {
                    assert(r[prev.len() as int] == sp);
                } else {
                    let j = choose|j: int|
                        0 <= j < prev.len() && (#[trigger] prev[j]).speaker_id@ == sp.speaker_id@;
                    assert(r[j] == prev[j]);
                }
            }
        }
        assert forall|k: int| #![trigger r[k]] seed.len() <= k < r.len() implies exists|i: int|
            0 <= i < segs.len() && (#[trigger] segs[i]).speaker == r[k] by {
            if k < prev.len() {
                let i = choose|i: int| 0 <= i < init.len() && (#[trigger] init[i]).speaker == prev[k];
                assert(segs[i] == init[i]);
            } else {
                assert(segs[segs.len() - 1].speaker == r[k]);
            }
        }
        if unique_speaker_ids(seed) {
            assert forall|i: int, j: int| 0 <= i < j < r.len() implies (#[trigger] r[i]).speaker_id@
                != (#[trigger] r[j]).speaker_id@ by {
                if j == prev.len() {
                    assert(r[i] == prev[i]);
                }
            }
        }
        assert(r.subrange(0, seed.len() as int) =~= prev.subrange(0, seed.len() as int));
    }
}

/// The speaker list of `dedup_speakers` has pairwise distinct identifiers,
/// lists the identifier of every segment, and holds only speakers that occur
/// in the segments.
pub proof fn law_dedup_speakers(segs: Seq<SegmentView>)
    ensures
        unique_speaker_ids(add_new_speakers(Seq::empty(), segs)),
        forall|i: int|
            0 <= i < segs.len() ==> has_speaker_id(
                add_new_speakers(Seq::empty(), segs),
                (#[trigger] segs[i]).speaker.speaker_id@,
            ),
        forall|k: int|
            #![trigger add_new_speakers(Seq::empty(), segs)[k]]
            0 <= k < add_new_speakers(Seq::empty(), segs).len() ==> exists|i: int|
                0 <= i < segs.len() && (#[trigger] segs[i]).speaker == add_new_speakers(
                    Seq::empty(),
                    segs,
                )[k],
{
    lemma_add_new_speakers(Seq::empty(), segs);
}

/// Merging keeps the given speaker list in front and adds each new
/// identifier once: when the given list has distinct identifiers, so does
/// the result, and it lists the identifier of every segment.
pub proof fn law_add_new_speakers(seed: Seq<Speaker>, segs: Seq<SegmentView>)
    ensures
        add_new_speakers(seed, segs).subrange(0, seed.len() as int) == seed,
        unique_speaker_ids(seed) ==> unique_speaker_ids(add_new_speakers(seed, segs)),
        forall|i: int|
            0 <= i < segs.len() ==> has_speaker_id(
                add_new_speakers(seed, segs),
                (#[trigger] segs[i]).speaker.speaker_id@,
            ),
{
    lemma_add_new_speakers(seed, segs);
}

proof fn lemma_speakers_by_label(segs: Seq<SegmentView>)
    ensures
        unique_labels(speakers_by_label(segs)),
        forall|i: int|
            0 <= i < segs.len() ==> has_label(
                speakers_by_label(segs),
                (#[trigger] segs[i]).speaker.label@,
            ),
    decreases segs.len(),
{
    if segs.len() > 0 {
        let init = segs.drop_last();
        lemma_speakers_by_label(init);
        let prev = speakers_by_label(init);
        let r = speakers_by_label(segs);
        let sp = segs.last().speaker;
        assert forall|i: int| 0 <= i < segs.len() implies has_label(
            r,
            (#[trigger] segs[i]).speaker.label@,
        ) by {
            if i < segs.len() - 1 {
                assert(init[i] == segs[i]);
                let j = choose|j: int|
                    0 <= j < prev.len() && (#[trigger] prev[j]).label@ == init[i].speaker.label@;
                assert(r[j] == prev[j]);
            } else {
                if !has_label(prev, sp.label@) {
                    assert(r[prev.len() as int] == sp);
                } else {
                    let j = choose|j: int| 0 <= j < prev.len() && (#[trigger] prev[j]).label@ == sp.label@;
                    assert(r[j] == prev[j]);
                }
            }
        }
        assert forall|i: int, j: int| 0 <= i < j < r.len() implies (#[trigger] r[i]).label@
            != (#[trigger] r[j]).label@ by {
            if j == prev.len() {
                assert(r[i] == prev[i]);
            }
        }
    }
}

proof fn lemma_find_label_hit(list: Seq<Speaker>, label: Seq<char>, j: int)
    requires
        0 <= j <= list.len(),
        has_label(list.subrange(j, list.len() as int), label),
    ensures
        find_label_from(list, label, j) matches Some(k) ==> j <= k < list.len() && list[k].label@
            == label,
        find_label_from(list, label, j) is Some,
    decreases list.len() - j,
{
    let sub = list.subrange(j, list.len() as int);
    let m = choose|m: int| 0 <= m < sub.len() && (#[trigger] sub[m]).label@ == label;
    assert(sub[m] == list[j + m]);
    if list[j].label@ != label {
        let sub2 = list.subrange(j + 1, list.len() as int);
        assert(sub2[m - 1] == list[j + m]);
        lemma_find_label_hit(list, label, j + 1);
    }
}

/// After `reconcile_speakers`, the returned list has one speaker per label,
/// every segment's label is listed, and two segments with the same label
/// carry the same speaker identifier: the identifier of the first segment
/// with that label.
pub proof fn law_reconcile_speakers(segs: Seq<SegmentView>)
    ensures
        unique_labels(speakers_by_label(segs)),
        forall|i: int|
            0 <= i < segs.len() ==> (#[trigger] find_label_from(
                speakers_by_label(segs),
                segs[i].speaker.label@,
                0,
            )) is Some,
        forall|i: int, j: int|
            0 <= i < segs.len() && 0 <= j < segs.len() && segs[i].speaker.label@
                == segs[j].speaker.label@ ==> (#[trigger] canonical_speaker(
                speakers_by_label(segs),
                segs[i].speaker,
            )).speaker_id == (#[trigger] canonical_speaker(
                speakers_by_label(segs),
                segs[j].speaker,
            )).speaker_id,
{
    lemma_speakers_by_label(segs);
    let r = speakers_by_label(segs);
    assert forall|i: int| 0 <= i < segs.len() implies (#[trigger] find_label_from(
        r,
        segs[i].speaker.label@,
        0,
    )) is Some by {
        assert(has_label(r, segs[i].speaker.label@));
        assert(r.subrange(0, r.len() as int) =~= r);
        lemma_find_label_hit(r, segs[i].speaker.label@, 0);
    }
}

/// The speaker list of a prefix of the segments is a prefix of the speaker
/// list of all of them.
proof fn lemma_speakers_by_label_prefix(segs: Seq<SegmentView>, n: int)
    requires
        0 <= n <= segs.len(),
    ensures
        speakers_by_label(segs.take(n)).len() <= speakers_by_label(segs).len(),
        speakers_by_label(segs).take(speakers_by_label(segs.take(n)).len() as int)
            == speakers_by_label(segs.take(n)),
    decreases segs.len() - n,
{
    if n < segs.len() {
        lemma_speakers_by_label_prefix(segs, n + 1);
        let t = segs.take(n + 1);
        assert(t.drop_last() =~= segs.take(n));
        let p = speakers_by_label(segs.take(n));
        let q = speakers_by_label(t);
        let r = speakers_by_label(segs);
        assert(q.take(p.len() as int) =~= p);
        assert(r.take(p.len() as int) =~= q.take(p.len() as int));
    } else {
        assert(segs.take(n) =~= segs);
        assert(speakers_by_label(segs).take(speakers_by_label(segs).len() as int) =~= speakers_by_label(segs));
    }
}

/// In a list with distinct labels, the first speaker with a label is the
/// only one.
proof fn lemma_find_label_unique(list: Seq<Speaker>, label: Seq<char>, k: int)
    requires
        unique_labels(list),
        0 <= k < list.len(),
        list[k].label@ == label,
    ensures
        find_label_from(list, label, 0) == Some(k),
{
    assert(list.subrange(0, list.len() as int) =~= list);
    assert(has_label(list.subrange(0, list.len() as int), label)) by {
        assert(list.subrange(0, list.len() as int)[k] == list[k]);
    }
    lemma_find_label_hit(list, label, 0);
}

/// Giving every segment its canonical speaker leaves the speaker list of
/// each prefix unchanged.
proof fn lemma_canonical_prefix(segs: Seq<SegmentView>, n: int)
    requires
        0 <= n <= segs.len(),
    ensures
        speakers_by_label(with_canonical_speakers(segs).take(n)) == speakers_by_label(segs.take(n)),
    decreases n,
{
    if n > 0 {
        lemma_canonical_prefix(segs, n - 1);
        let c = with_canonical_speakers(segs);
        let r = speakers_by_label(segs);
        let t = segs.take(n);
        let t2 = c.take(n);
        assert(t.drop_last() =~= segs.take(n - 1));
        assert(t2.drop_last() =~= c.take(n - 1));
        let sp = segs[n - 1].speaker;
        assert(t.last().speaker == sp);
        assert(t2.last().speaker == canonical_speaker(r, sp));
        let prev = speakers_by_label(segs.take(n - 1));
        if !has_label(prev, sp.label@) {
            lemma_speakers_by_label_prefix(segs, n);
            lemma_speakers_by_label(segs);
            assert(speakers_by_label(t) == prev.push(sp));
            assert(r.take(prev.len() + 1 as int)[prev.len() as int] == sp);
            assert(r[prev.len() as int] == sp);
            lemma_find_label_unique(r, sp.label@, prev.len() as int);
            assert(canonical_speaker(r, sp) == sp);
        }
    } else {
        assert(with_canonical_speakers(segs).take(0) =~= segs.take(0));
    }
}

/// Unifying speakers is idempotent: the unified segments have the same
/// speaker list, and unifying them again leaves them as they are (what
/// `finish_chunk` relies on when it unifies all segments after every chunk).
pub proof fn law_reconcile_idempotent(segs: Seq<SegmentView>)
    ensures
        speakers_by_label(with_canonical_speakers(segs)) == speakers_by_label(segs),
        with_canonical_speakers(with_canonical_speakers(segs)) == with_canonical_speakers(segs),
{
    let c = with_canonical_speakers(segs);
    let r = speakers_by_label(segs);
    lemma_canonical_prefix(segs, segs.len() as int);
    assert(c.take(segs.len() as int) =~= c);
    assert(segs.take(segs.len() as int) =~= segs);
    assert forall|i: int| 0 <= i < c.len() implies #[trigger] canonical_speaker(r, c[i].speaker)
        == c[i].speaker by {
        let sp = segs[i].speaker;
        assert(c[i].speaker == canonical_speaker(r, sp));
    }
    assert(with_canonical_speakers(c) =~= c);
}

} // verus!
