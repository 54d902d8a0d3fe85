//! User prompts built from transcript segments for the summary and stitching
//! models.
use vstd::prelude::*;
use crate::text::{decimal, digit_char, push_decimal, push_str};
use crate::types::transcript::{ComplexSegment, SegmentView, views};

verus! {

/// The summary prompt: a header line, then one line per segment with the
/// speaker label and the quoted text.
pub open spec fn summary_prompt(segs: Seq<SegmentView>) -> Seq<char>
    decreases segs.len(),
{
    if segs.len() == 0 {
        "Transcript segments:"@
    } else {
        summary_prompt(segs.drop_last()) + "\n  "@ + segs.last().speaker.label@ + ": \""@
            + segs.last().raw_text@ + "\""@
    }
}

/// Builds the prompt asking for a summary of `segments`.
pub fn format_summary_prompt(segments: &[ComplexSegment]) -> (r: String)
    ensures
        r@ == summary_prompt(views(segments@)),
{
    let mut out = String::from_str("Transcript segments:");
    let mut i: usize = 0;
    while i < segments.len()
        invariant
            i <= segments@.len(),
            out@ == summary_prompt(views(segments@).subrange(0, i as int)),
        decreases segments@.len() - i,
    {
        let seg = &segments[i];
        proof {
            let sub = views(segments@).subrange(0, i + 1);
            assert(sub.drop_last() =~= views(segments@).subrange(0, i as int));
            assert(sub.last() == seg@);
        }
        push_str(&mut out, "\n  ");
        push_str(&mut out, seg.speaker.label.as_str());
        push_str(&mut out, ": \"");
        push_str(&mut out, seg.raw_text.as_str());
        push_str(&mut out, "\"");
        i = i + 1;
    }
    assert(views(segments@).subrange(0, segments@.len() as int) =~= views(segments@));
    out
}

/// Milliseconds rounded to hundredths of a second (halves away from zero),
/// as a magnitude.
pub open spec fn centiseconds(ms: int) -> int {
    ((if ms < 0 { -ms } else { ms }) + 5) / 10
}

/// A time in milliseconds written as seconds with two decimals.
pub open spec fn seconds_text(ms: int) -> Seq<char> {
    let c = centiseconds(ms);
    (if ms < 0 { "-"@ } else { ""@ }) + decimal((c / 100) as nat) + "."@ + seq![
        digit_char(((c % 100) / 10) as nat),
        digit_char((c % 10) as nat),
    ]
}

/// Appends `ms` as seconds with two decimals.
pub fn push_seconds(s: &mut String, ms: i64)
    ensures
        final(s)@ == old(s)@ + seconds_text(ms as int),
{
    let neg = ms < 0;
    let a: u64 = if neg {
        (0i128 - ms as i128) as u64
    } else {
        ms as u64
    };
    let c: u64 = (a + 5) / 10;
    let ghost before = s@;
    if neg {
        push_str(s, "-");
    } else {
        push_str(s, "");
    }
    push_decimal(s, c / 100);
    push_str(s, ".");
    let tens = (c % 100) / 10;
    let ones = c % 10;
    push_decimal(s, tens);
    push_decimal(s, ones);
    proof {
        reveal_strlit("-");
        reveal_strlit("");
        reveal_strlit(".");
        assert(decimal(tens as nat) == seq![digit_char(tens as nat)]);
        assert(decimal(ones as nat) == seq![digit_char(ones as nat)]);
        assert(s@ =~= before + seconds_text(ms as int));
    }
}

/// One segment line of the stitching prompt (with its leading newline).
pub open spec fn stitch_line(v: SegmentView) -> Seq<char> {
    "\n  { \"id\": "@ + decimal(v.id as nat) + ", \"start\": "@ + seconds_text(v.start_ms as int)
        + ", \"end\": "@ + seconds_text(v.end_ms as int) + ", \"speaker_id\": \""@
        + v.speaker.speaker_id@ + "\", \"label\": \""@ + v.speaker.label@ + "\", \"text\": \""@
        + v.raw_text@ + "\" }"@
}

/// The lines of all segments of `segs`.
pub open spec fn stitch_lines(segs: Seq<SegmentView>) -> Seq<char>
    decreases segs.len(),
{
    if segs.len() == 0 {
        Seq::empty()
    } else {
        stitch_lines(segs.drop_last()) + stitch_line(segs.last())
    }
}

/// The stitching prompt: the tail of chunk N, then the head of chunk N+1,
/// each under its header, one line per segment.
pub open spec fn stitch_prompt(prev: Seq<SegmentView>, next: Seq<SegmentView>) -> Seq<char> {
    "prev_tail (chunk N — GLOBAL timestamps):"@ + stitch_lines(prev) + "\n"@
        + "next_head (chunk N+1 — GLOBAL timestamps):"@ + stitch_lines(next)
}

fn push_stitch_lines(out: &mut String, segments: &[ComplexSegment])
    ensures
        final(out)@ == old(out)@ + stitch_lines(views(segments@)),
{
    let ghost start = out@;
    let mut i: usize = 0;
    assert(start + stitch_lines(views(segments@).subrange(0, 0)) =~= start);
    while i < segments.len()
        invariant
            i <= segments@.len(),
            out@ == start + stitch_lines(views(segments@).subrange(0, i as int)),
        decreases segments@.len() - i,
    {
        let seg = &segments[i];
        let ghost before = out@;
        proof {
            let sub = views(segments@).subrange(0, i + 1);
            assert(sub.drop_last() =~= views(segments@).subrange(0, i as int));
            assert(sub.last() == seg@);
        }
        push_str(out, "\n  { \"id\": ");
        push_decimal(out, seg.id);
        push_str(out, ", \"start\": ");
        push_seconds(out, seg.start_ms);
        push_str(out, ", \"end\": ");
        push_seconds(out, seg.end_ms);
        push_str(out, ", \"speaker_id\": \"");
        push_str(out, seg.speaker.speaker_id.as_str());
        push_str(out, "\", \"label\": \"");
        push_str(out, seg.speaker.label.as_str());
        push_str(out, "\", \"text\": \"");
        push_str(out, seg.raw_text.as_str());
        push_str(out, "\" }");
        assert(out@ =~= before + stitch_line(seg@));
        i = i + 1;
        assert(out@ =~= start + stitch_lines(views(segments@).subrange(0, i as int)));
    }
    assert(views(segments@).subrange(0, segments@.len() as int) =~= views(segments@));
}

/// Builds the prompt asking to stitch the tail of one chunk to the head of
/// the next.
pub fn format_stitch_prompt(prev: &[ComplexSegment], next: &[ComplexSegment]) -> (r: String)
    ensures
        r@ == stitch_prompt(views(prev@), views(next@)),
{
    let mut out = String::from_str("prev_tail (chunk N — GLOBAL timestamps):");
    push_stitch_lines(&mut out, prev);
    push_str(&mut out, "\n");
    push_str(&mut out, "next_head (chunk N+1 — GLOBAL timestamps):");
    push_stitch_lines(&mut out, next);
    out
}

} // verus!
