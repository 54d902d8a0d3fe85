//! The word-fill guard: segments whose transcription came back without
//! word-level annotation are sent to a second model, and its answers are
//! written back into the segments.
use vstd::prelude::*;
use std::collections::HashMap;
use crate::api::translation::{json_string, push_json_string};
use crate::text::{decimal, push_decimal, push_str};
use crate::types::reading::{WordFillInput, WordFillOutput, WordFillResultSegment, WordFillSegment};
use crate::types::transcript::{ComplexSegment, SegmentView, TranscriptWord, views, clone_words};

verus! {

broadcast use vstd::std_specs::hash::group_hash_axioms;

/// Some segment has an empty word list.
pub open spec fn any_without_words(segs: Seq<SegmentView>) -> bool {
    exists|i: int| 0 <= i < segs.len() && (#[trigger] segs[i]).words.len() == 0
}

/// The request entries for the segments without words, in order.
pub open spec fn missing_word_segments(segs: Seq<SegmentView>) -> Seq<WordFillSegment>
    decreases segs.len(),
{
    if segs.len() == 0 {
        Seq::empty()
    } else {
        let prev = missing_word_segments(segs.drop_last());
        if segs.last().words.len() == 0 {
            prev.push(WordFillSegment { id: segs.last().id, raw_text: segs.last().raw_text })
        } else {
            prev
        }
    }
}

/// The words found per segment id: later answers for the same id win, and
/// answers with no words are ignored.
pub open spec fn filled_words_map(answers: Seq<WordFillResultSegment>) -> Map<
    u64,
    Vec<TranscriptWord>,
>
    decreases answers.len(),
{
    if answers.len() == 0 {
        Map::empty()
    } else {
        let prev = filled_words_map(answers.drop_last());
        if answers.last().words@.len() > 0 {
            prev.insert(answers.last().id, answers.last().words)
        } else {
            prev
        }
    }
}

/// What the collected word-fill answers hold: every id whose last answer
/// with at least one word is at position `i` maps to that answer's words
/// (however many words it has), and every id in the map comes from such an
/// answer; an id whose answers all lack words is absent.
pub proof fn law_filled_words(answers: Seq<WordFillResultSegment>)
    ensures
        forall|i: int|
            0 <= i < answers.len() && (#[trigger] answers[i]).words@.len() > 0 && (forall|j: int|
                i < j < answers.len() && answers[j].id == answers[i].id ==> answers[j].words@.len()
                    == 0) ==> filled_words_map(answers).contains_key(answers[i].id)
                && filled_words_map(answers)[answers[i].id] == answers[i].words,
        forall|id: u64|
            #[trigger] filled_words_map(answers).contains_key(id) ==> exists|i: int|
                0 <= i < answers.len() && (#[trigger] answers[i]).id == id && answers[i].words@.len() > 0
                    && filled_words_map(answers)[id] == answers[i].words,
        forall|id: u64|
            (forall|i: int| 0 <= i < answers.len() && (#[trigger] answers[i]).id == id ==> answers[i].words@.len()
                == 0) ==> !filled_words_map(answers).contains_key(id),
    decreases answers.len(),
{
    if answers.len() > 0 {
        let init = answers.drop_last();
        law_filled_words(init);
        let last = answers.last();
        let m = filled_words_map(init);
        let r = filled_words_map(answers);
        assert forall|i: int|
            0 <= i < answers.len() && (#[trigger] answers[i]).words@.len() > 0 && (forall|j: int|
                i < j < answers.len() && answers[j].id == answers[i].id ==> answers[j].words@.len()
                    == 0) implies r.contains_key(answers[i].id) && r[answers[i].id] == answers[i].words by {
            if i < answers.len() - 1 {
                assert(answers[i] == init[i]);
                assert forall|j: int| i < j < init.len() && init[j].id == init[i].id implies init[j].words@.len()
                    == 0 by {
                    assert(init[j] == answers[j]);
                }
                if last.words@.len() > 0 {
                    assert(answers[answers.len() - 1] == last);
                }
            }
        }
        assert forall|id: u64| #[trigger] r.contains_key(id) implies exists|i: int|
            0 <= i < answers.len() && (#[trigger] answers[i]).id == id && answers[i].words@.len() > 0
                && r[id] == answers[i].words by {
            if last.words@.len() > 0 && id == last.id {
                assert(answers[answers.len() - 1] == last);
            } else {
                assert(m.contains_key(id));
                let i = choose|i: int|
                    0 <= i < init.len() && (#[trigger] init[i]).id == id && init[i].words@.len() > 0
                        && m[id] == init[i].words;
                assert(answers[i] == init[i]);
            }
        }
        assert forall|id: u64|
            (forall|i: int| 0 <= i < answers.len() && (#[trigger] answers[i]).id == id ==> answers[i].words@.len()
                == 0) implies !r.contains_key(id) by {
            assert forall|i: int| 0 <= i < init.len() && (#[trigger] init[i]).id == id implies init[i].words@.len()
                == 0 by {
                assert(init[i] == answers[i]);
            }
            assert(answers[answers.len() - 1] == last);
        }
    }
}

/// A segment after the word-fill answers are applied to it.
pub open spec fn with_filled_words(v: SegmentView, filled: Map<u64, Vec<TranscriptWord>>) -> SegmentView {
    if filled.contains_key(v.id) {
        SegmentView { words: filled[v.id]@, ..v }
    } else {
        v
    }
}

/// Whether some segment lacks word-level annotation.
pub fn needs_word_fill(segments: &[ComplexSegment]) -> (r: bool)
    ensures
        r == any_without_words(views(segments@)),
{
    let mut i: usize = 0;
    while i < segments.len()
        invariant
            i <= segments@.len(),
            forall|k: int| 0 <= k < i ==> (#[trigger] segments@[k]).words@.len() != 0,
        decreases segments@.len() - i,
    {
        if segments[i].words.len() == 0 {
            assert(views(segments@)[i as int].words.len() == 0);
            return true;
        }
        i = i + 1;
    }
    assert forall|k: int| 0 <= k < segments@.len() implies (#[trigger] views(segments@)[k]).words.len()
        != 0 by {
        assert(views(segments@)[k] == segments@[k]@);
    }
    false
}

/// The word-fill request: the id and raw text of every segment whose word
/// list is empty.
pub fn word_fill_request(segments: &[ComplexSegment]) -> (r: WordFillInput)
    ensures
        r.segments@ == missing_word_segments(views(segments@)),
{
    let mut out: Vec<WordFillSegment> = Vec::new();
    let mut i: usize = 0;
    while i < segments.len()
        invariant
            i <= segments@.len(),
            out@ == missing_word_segments(views(segments@).subrange(0, i as int)),
        decreases segments@.len() - i,
    {
        let seg = &segments[i];
        proof {
            let sub = views(segments@).subrange(0, i + 1);
            assert(sub.drop_last() =~= views(segments@).subrange(0, i as int));
            assert(sub.last() == seg@);
        }
        if seg.words.len() == 0 {
            out.push(WordFillSegment { id: seg.id, raw_text: seg.raw_text.clone() });
        }
        i = i + 1;
    }
    assert(views(segments@).subrange(0, segments@.len() as int) =~= views(segments@));
    WordFillInput { segments: out }
}

/// Collects the answers of the word-fill model into a map from segment id to
/// words, skipping answers with no words.
pub fn collect_filled_words(output: WordFillOutput) -> (r: HashMap<u64, Vec<TranscriptWord>>)
    ensures
        r@ == filled_words_map(output.segments@),
{
    let mut result: HashMap<u64, Vec<TranscriptWord>> = HashMap::new();
    let ghost all = output.segments@;
    let mut rest = output.segments;
    let mut taken: Vec<WordFillResultSegment> = Vec::new();
    let mut i: usize = 0;
    while i < rest.len()
        invariant
            rest@.len() == all.len(),
            i <= all.len(),
            forall|k: int| i <= k < all.len() ==> #[trigger] rest@[k] == all[k],
            result@ == filled_words_map(all.subrange(0, i as int)),
        decreases all.len() - i,
    {
        let mut slot = WordFillResultSegment { id: 0, words: Vec::new() };
        rest.set_and_swap(i, &mut slot);
        proof {
            let sub = all.subrange(0, i + 1);
            assert(sub.drop_last() =~= all.subrange(0, i as int));
            assert(sub.last() == slot);
        }
        if slot.words.len() > 0 {
            result.insert(slot.id, slot.words);
        }
        i = i + 1;
    }
    assert(all.subrange(0, all.len() as int) =~= all);
    result
}

/// Writes the found words into the segments whose id has an answer.
pub fn apply_filled_words(segments: &mut Vec<ComplexSegment>, filled: &HashMap<u64, Vec<TranscriptWord>>)
    ensures
        views(final(segments)@) == views(old(segments)@).map_values(
            |v: SegmentView| with_filled_words(v, filled@),
        ),
{
    let ghost orig = views(segments@);
    let mut i: usize = 0;
    while i < segments.len()
        invariant
            views(segments@).len() == orig.len(),
            i <= orig.len(),
            forall|k: int|
                0 <= k < i ==> (#[trigger] views(segments@)[k]) == with_filled_words(
                    orig[k],
                    filled@,
                ),
            forall|k: int| i <= k < orig.len() ==> #[trigger] views(segments@)[k] == orig[k],
        decreases orig.len() - i,
    {
        let id = segments[i].id;
        assert(views(segments@)[i as int] == segments@[i as int]@);
        match filled.get(&id) {
            Some(words) => {
                assert(filled@.contains_key(id) && filled@[id] == *words);
                let seg = &segments[i];
                let updated = ComplexSegment {
                    id: seg.id,
                    start_ms: seg.start_ms,
                    end_ms: seg.end_ms,
                    raw_text: seg.raw_text.clone(),
                    words: clone_words(words),
                    translation: seg.translation.clone(),
                    speaker: seg.speaker.clone(),
                };
                let ghost before = segments@;
                segments.set(i, updated);
                assert forall|k: int| 0 <= k < orig.len() && k != i implies #[trigger] views(
                    segments@,
                )[k] == views(before)[k] by {
                    assert(segments@[k] == before[k]);
                }
                assert(views(segments@)[i as int] == with_filled_words(orig[i as int], filled@));
            },
            None => {
                assert(!filled@.contains_key(id));
            },
        }
        i = i + 1;
    }
    assert(views(segments@) =~= orig.map_values(|v: SegmentView| with_filled_words(v, filled@)));
}

/// The compact JSON text of one entry of a word-fill request.
pub open spec fn word_fill_entry_json(e: WordFillSegment) -> Seq<char> {
    "{\"id\":"@ + decimal(e.id as nat) + ",\"raw_text\":"@ + json_string(e.raw_text@) + "}"@
}

/// The entries, written one after the other and separated by commas.
pub open spec fn word_fill_entries_json(es: Seq<WordFillSegment>) -> Seq<char>
    decreases es.len(),
{
    if es.len() == 0 {
        Seq::empty()
    } else if es.len() == 1 {
        word_fill_entry_json(es[0])
    } else {
        word_fill_entries_json(es.drop_last()) + ","@ + word_fill_entry_json(es.last())
    }
}

/// The compact JSON text of a word-fill request, as a derived serializer
/// writes it: `{"segments":[...]}` with the fields of each entry in order.
pub open spec fn word_fill_json(input: WordFillInput) -> Seq<char> {
    "{\"segments\":["@ + word_fill_entries_json(input.segments@) + "]}"@
}

/// The user prompt of the word-fill model: the request as JSON text.
pub fn word_fill_prompt(input: &WordFillInput) -> (r: String)
    ensures
        r@ == word_fill_json(*input),
{
    let mut out = String::new();
    push_str(&mut out, "{\"segments\":[");
    let ghost start = out@;
    let es = &input.segments;
    let mut i: usize = 0;
    while i < es.len()
        invariant
            es@ == input.segments@,
            i <= es@.len(),
            out@ == start + word_fill_entries_json(es@.subrange(0, i as int)),
        decreases es@.len() - i,
    {
        let ghost before = out@;
        proof {
            let sub = es@.subrange(0, i + 1);
            assert(sub.drop_last() =~= es@.subrange(0, i as int));
            assert(sub.last() == es@[i as int]);
            if i == 0 {
                assert(sub[0] == es@[0]);
            }
        }
        if i > 0 {
            push_str(&mut out, ",");
        }
        push_str(&mut out, "{\"id\":");
        push_decimal(&mut out, es[i].id);
        push_str(&mut out, ",\"raw_text\":");
        push_json_string(&mut out, es[i].raw_text.as_str());
        push_str(&mut out, "}");
        proof {
            if i == 0 {
                assert(out@ =~= before + word_fill_entry_json(es@[i as int]));
            } else {
                assert(out@ =~= before + ","@ + word_fill_entry_json(es@[i as int]));
            }
        }
        i = i + 1;
        assert(out@ =~= start + word_fill_entries_json(es@.subrange(0, i as int)));
    }
    assert(es@.subrange(0, es@.len() as int) =~= es@);
    push_str(&mut out, "]}");
    out
}

} // verus!
