//! Progressive extraction of segment objects from a streamed JSON transcript.
//!
//! The model emits the transcript as one large JSON object, delivered in
//! arbitrary text chunks. Rather than waiting for the whole object, the
//! accumulated buffer is scanned for complete `{...}` objects inside the
//! `"segments": [...]` array, so that each one can be forwarded the moment it
//! becomes available. This module finds the byte range of each such candidate
//! object; turning a candidate into a typed segment is left to the caller.
use vstd::prelude::*;
use vstd::string::StringSliceAdditionalSpecFns;

verus! {

/// Lexical state of the brace scanner before a given byte.
pub struct ScanState {
    /// Brace nesting depth outside strings (may go below zero when the scan
    /// starts inside an object).
    pub depth: int,
    /// Start of the current depth-1 object, if one is open.
    pub obj_start: Option<int>,
    /// Whether the scanner is inside a JSON string literal.
    pub in_string: bool,
    /// Whether the previous byte was a backslash inside a string.
    pub escape: bool,
}

/// The state the scanner starts in.
pub open spec fn initial_scan_state() -> ScanState {
    ScanState { depth: 0, obj_start: None, in_string: false, escape: false }
}

/// The bytes of the key `"segments"` (quotes included).
pub open spec fn segments_key() -> Seq<u8> {
    seq![34u8, 115u8, 101u8, 103u8, 109u8, 101u8, 110u8, 116u8, 115u8, 34u8]
}

/// ASCII whitespace as `u8::is_ascii_whitespace` defines it.
pub open spec fn is_ascii_ws(c: u8) -> bool {
    c == 32u8 || c == 9u8 || c == 10u8 || c == 12u8 || c == 13u8
}

/// `key` occurs in `b` starting at byte `k`.
pub open spec fn occurs_at(b: Seq<u8>, k: int, key: Seq<u8>) -> bool {
    0 <= k && k + key.len() <= b.len() && b.subrange(k, k + key.len()) == key
}

/// The last start position below `n` at which `key` occurs in `b`.
pub open spec fn last_occurrence_below(b: Seq<u8>, key: Seq<u8>, n: int) -> Option<int>
    decreases n,
{
    if n <= 0 {
        None
    } else if occurs_at(b, n - 1, key) {
        Some(n - 1)
    } else {
        last_occurrence_below(b, key, n - 1)
    }
}

/// The start of the last occurrence of `key` in `b` (what `str::rfind` returns).
pub open spec fn last_occurrence(b: Seq<u8>, key: Seq<u8>) -> Option<int> {
    last_occurrence_below(b, key, b.len() + 1int)
}

/// The first position at or after `i` that is not ASCII whitespace.
pub open spec fn skip_ws(b: Seq<u8>, i: int) -> int
    decreases b.len() - i,
{
    if 0 <= i < b.len() && is_ascii_ws(b[i]) {
        skip_ws(b, i + 1)
    } else {
        i
    }
}

/// Index just after the `[` that opens the array of the last `"segments"` key,
/// when that key is followed (up to whitespace) by `:` and `[`.
pub open spec fn array_start(b: Seq<u8>) -> Option<int> {
    match last_occurrence(b, segments_key()) {
        None => None,
        Some(k) => {
            let c = skip_ws(b, k + 10);
            if c < b.len() && b[c] == 58u8 {
                let d = skip_ws(b, c + 1);
                if d < b.len() && b[d] == 91u8 {
                    Some(d + 1)
                } else {
                    None
                }
            } else {
                None
            }
        },
    }
}

/// Scans `b` from byte `i` in state `st` for the next complete top-level
/// object. Returns the positions of its `{` and of its matching `}`, or `None`
/// if the input ends first or a `]` closes the enclosing array.
pub open spec fn scan(b: Seq<u8>, i: int, st: ScanState) -> Option<(int, int)>
    decreases b.len() - i,
{
    if i < 0 || i >= b.len() {
        None
    } else {
        let c = b[i];
        if st.escape {
            scan(b, i + 1, ScanState { escape: false, ..st })
        } else if c == 92u8 && st.in_string {
            scan(b, i + 1, ScanState { escape: true, ..st })
        } else if c == 34u8 {
            scan(b, i + 1, ScanState { in_string: !st.in_string, ..st })
        } else if st.in_string {
            scan(b, i + 1, st)
        } else if c == 123u8 {
            scan(
                b,
                i + 1,
                ScanState {
                    depth: st.depth + 1,
                    obj_start: if st.depth == 0 { Some(i) } else { st.obj_start },
                    ..st
                },
            )
        } else if c == 125u8 {
            let d = st.depth - 1;
            if d == 0 && st.obj_start is Some {
                Some((st.obj_start->0, i))
            } else {
                scan(
                    b,
                    i + 1,
                    ScanState { depth: d, obj_start: if d == 0 { None } else { st.obj_start }, ..st },
                )
            }
        } else if c == 93u8 && st.depth == 0 {
            None
        } else {
            scan(b, i + 1, st)
        }
    }
}

/// The candidate object that a scan of `b` starting at `scan_from` yields: the
/// scan starts at `scan_from` or at the start of the segments array, whichever
/// is later.
pub open spec fn next_candidate(b: Seq<u8>, scan_from: int) -> Option<(int, int)> {
    match array_start(b) {
        None => None,
        Some(a) => scan(b, if scan_from > a { scan_from } else { a }, initial_scan_state()),
    }
}

proof fn lemma_scan_result_bounds(b: Seq<u8>, lo: int, i: int, st: ScanState)
    requires
        0 <= lo <= i,
        st.obj_start matches Some(s) ==> lo <= s < i && s < b.len() && b[s] == 123u8,
    ensures
        scan(b, i, st) matches Some((s, e)) ==> lo <= s < e < b.len() && b[s] == 123u8 && b[e]
            == 125u8,
    decreases b.len() - i,
{
    if i < 0 || i >= b.len() {
    } else {
        let c = b[i];
        if st.escape {
            lemma_scan_result_bounds(b, lo, i + 1, ScanState { escape: false, ..st });
        } else if c == 92u8 && st.in_string {
            lemma_scan_result_bounds(b, lo, i + 1, ScanState { escape: true, ..st });
        } else if c == 34u8 {
            lemma_scan_result_bounds(b, lo, i + 1, ScanState { in_string: !st.in_string, ..st });
        } else if st.in_string {
            lemma_scan_result_bounds(b, lo, i + 1, st);
        } else if c == 123u8 {
            lemma_scan_result_bounds(
                b,
                lo,
                i + 1,
                ScanState {
                    depth: st.depth + 1,
                    obj_start: if st.depth == 0 { Some(i) } else { st.obj_start },
                    ..st
                },
            );
        } else if c == 125u8 {
            let d = st.depth - 1;
            if d == 0 && st.obj_start is Some {
            } else {
                lemma_scan_result_bounds(
                    b,
                    lo,
                    i + 1,
                    ScanState { depth: d, obj_start: if d == 0 { None } else { st.obj_start }, ..st },
                );
            }
        } else if c == 93u8 && st.depth == 0 {
        } else {
            lemma_scan_result_bounds(b, lo, i + 1, st);
        }
    }
}


proof fn lemma_scan_prefix_stable(b: Seq<u8>, b2: Seq<u8>, i: int, st: ScanState)
    requires
        b.len() <= b2.len(),
        b == b2.subrange(0, b.len() as int),
        scan(b, i, st) is Some,
    ensures
        scan(b2, i, st) == scan(b, i, st),
    decreases b.len() - i,
{
    if i < 0 || i >= b.len() {
    } else {
        assert(b[i] == b2[i]);
        let c = b[i];
        if st.escape {
            lemma_scan_prefix_stable(b, b2, i + 1, ScanState { escape: false, ..st });
        } else if c == 92u8 && st.in_string {
            lemma_scan_prefix_stable(b, b2, i + 1, ScanState { escape: true, ..st });
        } else if c == 34u8 {
            lemma_scan_prefix_stable(b, b2, i + 1, ScanState { in_string: !st.in_string, ..st });
        } else if st.in_string {
            lemma_scan_prefix_stable(b, b2, i + 1, st);
        } else if c == 123u8 {
            lemma_scan_prefix_stable(
                b,
                b2,
                i + 1,
                ScanState {
                    depth: st.depth + 1,
                    obj_start: if st.depth == 0 { Some(i) } else { st.obj_start },
                    ..st
                },
            );
        } else if c == 125u8 {
            let d = st.depth - 1;
            if d == 0 && st.obj_start is Some {
            } else {
                lemma_scan_prefix_stable(
                    b,
                    b2,
                    i + 1,
                    ScanState { depth: d, obj_start: if d == 0 { None } else { st.obj_start }, ..st },
                );
            }
        } else if c == 93u8 && st.depth == 0 {
        } else {
            lemma_scan_prefix_stable(b, b2, i + 1, st);
        }
    }
}

/// Segments are found as soon as they are complete: once a scan of a buffer
/// finds a candidate object, scanning any longer buffer that extends it (and
/// whose segments array starts at the same place) from the same cursor finds
/// the same object.
pub proof fn law_candidate_stable_under_extension(b: Seq<u8>, more: Seq<u8>, scan_from: int)
    requires
        next_candidate(b, scan_from) is Some,
        array_start(b + more) == array_start(b),
    ensures
        next_candidate(b + more, scan_from) == next_candidate(b, scan_from),
{
    let a = array_start(b)->0;
    let start = if scan_from > a { scan_from } else { a };
    assert(b =~= (b + more).subrange(0, b.len() as int));
    lemma_scan_prefix_stable(b, b + more, start, initial_scan_state());
}

/// Candidates come in order and never repeat: a candidate found from a
/// cursor is a `{...}` object that starts at or after the cursor and inside
/// the segments array, so resuming right after its `}` finds only later
/// objects.
pub proof fn law_candidates_in_order(b: Seq<u8>, scan_from: int)
    requires
        0 <= scan_from,
    ensures
        next_candidate(b, scan_from) matches Some((s, e)) ==> {
            &&& array_start(b) matches Some(a) && a <= s
            &&& scan_from <= s < e < b.len()
            &&& b[s] == 123u8 && b[e] == 125u8
        },
        next_candidate(b, scan_from) matches Some((s, e)) ==> (next_candidate(b, e + 1) matches Some(
            (s2, e2),
        ) ==> e < s2),
{
    if let Some(a) = array_start(b) {
        lemma_last_occurrence_sound(b, segments_key(), b.len() + 1int);
        let k = last_occurrence(b, segments_key())->0;
        lemma_skip_ws_forward(b, k + 10);
        lemma_skip_ws_forward(b, skip_ws(b, k + 10) + 1);
        let start = if scan_from > a { scan_from } else { a };
        lemma_scan_result_bounds(b, start, start, initial_scan_state());
        if let Some((s, e)) = next_candidate(b, scan_from) {
            let start2 = if e + 1 > a { e + 1 } else { a };
            lemma_scan_result_bounds(b, start2, start2, initial_scan_state());
        }
    }
}

/// Skipping whitespace never moves backwards.
proof fn lemma_skip_ws_forward(b: Seq<u8>, i: int)
    ensures
        skip_ws(b, i) >= i,
    decreases b.len() - i,
{
    if 0 <= i < b.len() && is_ascii_ws(b[i]) {
        lemma_skip_ws_forward(b, i + 1);
    }
}

/// Whether the key `"segments"` occurs in `bs` at byte `k`.
fn key_at(bs: &[u8], k: usize) -> (r: bool)
    requires
        k + 10 <= bs@.len(),
    ensures
        r == occurs_at(bs@, k as int, segments_key()),
{
    let r = bs[k] == 34u8 && bs[k + 1] == 115u8 && bs[k + 2] == 101u8 && bs[k + 3] == 103u8
        && bs[k + 4] == 109u8 && bs[k + 5] == 101u8 && bs[k + 6] == 110u8 && bs[k + 7] == 116u8
        && bs[k + 8] == 115u8 && bs[k + 9] == 34u8;
    proof {
        let sub = bs@.subrange(k as int, k + 10);
        if r {
            assert(sub =~= segments_key());
        } else if sub == segments_key() {
            assert(sub[0] == segments_key()[0]);
            assert(sub[1] == segments_key()[1]);
            assert(sub[2] == segments_key()[2]);
            assert(sub[3] == segments_key()[3]);
            assert(sub[4] == segments_key()[4]);
            assert(sub[5] == segments_key()[5]);
            assert(sub[6] == segments_key()[6]);
            assert(sub[7] == segments_key()[7]);
            assert(sub[8] == segments_key()[8]);
            assert(sub[9] == segments_key()[9]);
        }
    }
    r
}

/// The start of the last occurrence of the key `"segments"` in `bs`.
fn rfind_segments_key(bs: &[u8]) -> (r: Option<usize>)
    ensures
        match r {
            Some(k) => last_occurrence(bs@, segments_key()) == Some(k as int),
            None => last_occurrence(bs@, segments_key()) is None,
        },
{
    if bs.len() < 10 {
        assert forall|n: int| 0 <= n <= bs@.len() + 1 implies last_occurrence_below(
            bs@,
            segments_key(),
            n,
        ) is None by {
            lemma_no_occurrence_below(bs@, n);
        }
        return None;
    }
    let mut n: usize = bs.len() - 9;
    proof {
        assert(!occurs_at(bs@, bs@.len() as int, segments_key()));
        assert(!occurs_at(bs@, bs@.len() - 1, segments_key()));
        lemma_skip_tail_positions(bs@, n as int, bs@.len() + 1int);
    }
    while n > 0
        invariant
            n <= bs@.len() - 9,
            bs@.len() >= 10,
            last_occurrence(bs@, segments_key()) == last_occurrence_below(
                bs@,
                segments_key(),
                n as int,
            ),
        decreases n,
    {
        if key_at(bs, n - 1) {
            return Some(n - 1);
        }
        n = n - 1;
    }
    None
}

proof fn lemma_last_occurrence_sound(b: Seq<u8>, key: Seq<u8>, n: int)
    ensures
        last_occurrence_below(b, key, n) matches Some(k) ==> occurs_at(b, k, key) && k < n,
    decreases n,
{
    if n > 0 {
        lemma_last_occurrence_sound(b, key, n - 1);
    }
}

proof fn lemma_no_occurrence_below(b: Seq<u8>, n: int)
    requires
        b.len() < 10,
    ensures
        last_occurrence_below(b, segments_key(), n) is None,
    decreases n,
{
    if n > 0 {
        lemma_no_occurrence_below(b, n - 1);
    }
}

/// Positions whose key would run past the end of `b` are never occurrences.
proof fn lemma_skip_tail_positions(b: Seq<u8>, lo: int, n: int)
    requires
        0 <= lo <= n,
        lo + 9 >= b.len(),
    ensures
        last_occurrence_below(b, segments_key(), n) == last_occurrence_below(
            b,
            segments_key(),
            lo,
        ),
    decreases n - lo,
{
    if n > lo {
        assert(!occurs_at(b, n - 1, segments_key()));
        lemma_skip_tail_positions(b, lo, n - 1);
    }
}

/// The first position at or after `i` that is not ASCII whitespace.
fn skip_whitespace(bs: &[u8], i: usize) -> (r: usize)
    requires
        i <= bs@.len(),
    ensures
        r as int == skip_ws(bs@, i as int),
        r <= bs@.len(),
{
    let mut ci = i;
    while ci < bs.len() && (bs[ci] == 32u8 || bs[ci] == 9u8 || bs[ci] == 10u8 || bs[ci] == 12u8
        || bs[ci] == 13u8)
        invariant
            i <= ci <= bs@.len(),
            skip_ws(bs@, i as int) == skip_ws(bs@, ci as int),
        decreases bs@.len() - ci,
    {
        ci = ci + 1;
    }
    ci
}

/// Locates the byte index right after the opening `[` of the `"segments"`
/// array, using the last occurrence of the key so that the word "segments"
/// inside an earlier string value is not mistaken for it.
pub fn find_segments_array_start(buffer: &str) -> (r: Option<usize>)
    ensures
        match r {
            Some(k) => array_start(buffer.spec_bytes()) == Some(k as int),
            None => array_start(buffer.spec_bytes()) is None,
        },
{
    let bs = buffer.as_bytes();
    let len = bs.len();
    let key_pos = rfind_segments_key(bs)?;
    proof {
        lemma_last_occurrence_sound(bs@, segments_key(), bs@.len() + 1int);
        assert(segments_key().len() == 10);
        assert(occurs_at(bs@, key_pos as int, segments_key()));
        assert(key_pos + 10 <= len);
    }
    let ci = skip_whitespace(bs, key_pos + 10);
    if ci >= bs.len() || bs[ci] != 58u8 {
        return None;
    }
    let di = skip_whitespace(bs, ci + 1);
    if di >= bs.len() || bs[di] != 91u8 {
        return None;
    }
    Some(di + 1)
}

/// The scanner state as a specification value.
spec fn state_of(depth: i128, obj_start: Option<usize>, in_string: bool, escape: bool) -> ScanState {
    ScanState {
        depth: depth as int,
        obj_start: match obj_start {
            Some(s) => Some(s as int),
            None => None,
        },
        in_string,
        escape,
    }
}

/// Finds the next complete JSON object inside the `"segments"` array of
/// `buffer`, scanning from `scan_from` (or from the start of the array, if
/// that is later). Returns the byte positions of the object's opening `{` and
/// closing `}`; the next scan should start right after the `}`. Returns `None`
/// when there is no segments array yet, when the buffer ends before an object
/// is complete, or when the array is closed first.
pub fn next_segment_candidate(buffer: &str, scan_from: usize) -> (r: Option<(usize, usize)>)
    ensures
        match r {
            Some((s, e)) => next_candidate(buffer.spec_bytes(), scan_from as int) == Some(
                (s as int, e as int),
            ),
            None => next_candidate(buffer.spec_bytes(), scan_from as int) is None,
        },
        r matches Some((s, e)) ==> s < e < buffer.spec_bytes().len(),
{
    let array_start = find_segments_array_start(buffer)?;
    let start = if scan_from > array_start {
        scan_from
    } else {
        array_start
    };
    let bytes = buffer.as_bytes();
    let ghost b = bytes@;
    let mut depth: i128 = 0;
    let mut obj_start: Option<usize> = None;
    let mut in_string = false;
    let mut escape = false;
    let mut i = start;
    proof {
        lemma_scan_result_bounds(b, start as int, start as int, initial_scan_state());
    }
    while i < bytes.len()
        invariant
            b == bytes@,
            b == buffer.spec_bytes(),
            next_candidate(b, scan_from as int) == scan(b, start as int, initial_scan_state()),
            start <= i,
            -(i - start) <= depth <= i - start,
            obj_start matches Some(s) ==> s < i && b[s as int] == 123u8,
            scan(b, start as int, initial_scan_state()) == scan(
                b,
                i as int,
                state_of(depth, obj_start, in_string, escape),
            ),
            scan(b, start as int, initial_scan_state()) matches Some((s, e)) ==> s < e < b.len(),
        decreases bytes@.len() - i,
    {
        let ch = bytes[i];
        let ghost st0 = state_of(depth, obj_start, in_string, escape);
        if escape {
            escape = false;
            i = i + 1;
            continue;
        }
        if ch == 92u8 && in_string {
            escape = true;
            i = i + 1;
            continue;
        }
        if ch == 34u8 {
            in_string = !in_string;
            i = i + 1;
            continue;
        }
        if in_string {
            i = i + 1;
            continue;
        }
        if ch == 123u8 {
            if depth == 0 {
                obj_start = Some(i);
            }
            depth = depth + 1;
        } else if ch == 125u8 {
            depth = depth - 1;
            if depth == 0 {
                if let Some(start_idx) = obj_start {
                    assert(scan(b, i as int, st0) == Some((start_idx as int, i as int)));
                    return Some((start_idx, i));
                }
                obj_start = None;
            }
        } else if ch == 93u8 && depth == 0 {
            assert(scan(b, i as int, state_of(depth, obj_start, in_string, escape)) is None);
            return None;
        }
        i = i + 1;
    }
    None
}

} // verus!
