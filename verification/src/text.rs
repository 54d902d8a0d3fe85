//! Text building blocks over character sequences: appending, searching and
//! replacing substrings, and writing integers in decimal.
use vstd::prelude::*;

verus! {

/// Appends one character to `s`.
///
/// Trusted: calls `String::push`, which std documents as appending the given
/// `char` to the end of the `String`; the contract states exactly that.
#[verifier::external_body]
pub(crate) fn push_char(s: &mut String, c: char)
    ensures
        final(s)@ == old(s)@.push(c),
{
    s.push(c);
}

/// Appends `t` to `s`.
pub fn push_str(s: &mut String, t: &str)
    ensures
        final(s)@ == old(s)@ + t@,
{
    s.append(t);
}

/// The characters of `s`, in order.
pub fn chars_of(s: &str) -> (r: Vec<char>)
    ensures
        r@ == s@,
{
    let mut out: Vec<char> = Vec::new();
    for c in it: s.chars()
        invariant
            it.seq() == s@,
            out@ == it.seq().take(it.index() as int),
    {
        out.push(c);
        assert(out@ =~= it.seq().take(it.index() + 1));
    }
    assert(s@.take(s@.len() as int) =~= s@);
    out
}

/// A string holding the characters `cs[lo..hi]`.
pub fn string_from_chars(cs: &[char], lo: usize, hi: usize) -> (r: String)
    requires
        lo <= hi <= cs@.len(),
    ensures
        r@ == cs@.subrange(lo as int, hi as int),
{
    let mut out = String::new();
    let mut i = lo;
    while i < hi
        invariant
            lo <= i <= hi,
            hi <= cs@.len(),
            out@ == cs@.subrange(lo as int, i as int),
        decreases hi - i,
    {
        push_char(&mut out, cs[i]);
        i = i + 1;
        assert(out@ =~= cs@.subrange(lo as int, i as int));
    }
    out
}

/// `pat` occurs in `s` at position `i`.
pub open spec fn matches_at(s: Seq<char>, i: int, pat: Seq<char>) -> bool {
    0 <= i && i + pat.len() <= s.len() && s.subrange(i, i + pat.len()) == pat
}

/// `pat` occurs somewhere in `s`.
pub open spec fn contains_seq(s: Seq<char>, pat: Seq<char>) -> bool {
    exists|i: int| matches_at(s, i, pat)
}

/// Whether `pat` occurs in `s` at position `i`.
fn matches_at_exec(s: &[char], i: usize, pat: &[char]) -> (r: bool)
    requires
        i <= s@.len(),
    ensures
        r == matches_at(s@, i as int, pat@),
{
    let slen = s.len();
    if pat.len() > slen - i {
        return false;
    }
    let mut j: usize = 0;
    while j < pat.len()
        invariant
            j <= pat@.len(),
            slen == s@.len(),
            i + pat@.len() <= slen,
            forall|k: int| 0 <= k < j ==> s@[i + k] == pat@[k],
        decreases pat@.len() - j,
    {
        if s[i + j] != pat[j] {
            assert(s@.subrange(i as int, i + pat@.len())[j as int] != pat@[j as int]);
            return false;
        }
        j = j + 1;
    }
    assert(s@.subrange(i as int, i + pat@.len()) =~= pat@);
    true
}

/// Whether `pat` occurs anywhere in `s`.
pub fn contains_chars(s: &[char], pat: &[char]) -> (r: bool)
    ensures
        r == contains_seq(s@, pat@),
{
    let mut i: usize = 0;
    while i < s.len()
        invariant
            i <= s@.len(),
            forall|k: int| 0 <= k < i ==> !matches_at(s@, k, pat@),
        decreases s@.len() - i,
    {
        if matches_at_exec(s, i, pat) {
            return true;
        }
        i = i + 1;
    }
    if matches_at_exec(s, i, pat) {
        return true;
    }
    assert forall|k: int| !matches_at(s@, k, pat@) by {
        if 0 <= k <= s@.len() {
        }
    }
    false
}

/// `s` with every occurrence of `pat` replaced by `rep`, scanning from the
/// left and not letting replaced occurrences overlap (what `str::replace`
/// does for a non-empty pattern).
pub open spec fn replace_all(s: Seq<char>, pat: Seq<char>, rep: Seq<char>) -> Seq<char>
    recommends
        pat.len() > 0,
    decreases s.len(),
{
    if s.len() == 0 || pat.len() == 0 {
        s
    } else if matches_at(s, 0, pat) {
        rep + replace_all(s.subrange(pat.len() as int, s.len() as int), pat, rep)
    } else {
        seq![s[0]] + replace_all(s.subrange(1, s.len() as int), pat, rep)
    }
}

proof fn lemma_matches_at_shift(s: Seq<char>, i: int, pat: Seq<char>)
    requires
        0 <= i <= s.len(),
    ensures
        matches_at(s, i, pat) == matches_at(s.subrange(i, s.len() as int), 0, pat),
{
    let t = s.subrange(i, s.len() as int);
    if matches_at(s, i, pat) {
        assert(t.subrange(0, pat.len() as int) =~= s.subrange(i, i + pat.len()));
    }
    if matches_at(t, 0, pat) {
        assert(t.subrange(0, pat.len() as int) =~= s.subrange(i, i + pat.len()));
    }
}

/// Replaces every occurrence of the non-empty pattern `pat` in `s` by `rep`.
pub fn replace_str(s: &str, pat: &str, rep: &str) -> (r: String)
    requires
        pat@.len() > 0,
    ensures
        r@ == replace_all(s@, pat@, rep@),
{
    let cs = chars_of(s);
    let pc = chars_of(pat);
    let mut out = String::new();
    let mut i: usize = 0;
    assert(cs@.subrange(0, cs@.len() as int) =~= s@);
    assert(out@ + replace_all(s@, pat@, rep@) =~= replace_all(s@, pat@, rep@));
    while i < cs.len()
        invariant
            cs@ == s@,
            pc@ == pat@,
            pat@.len() > 0,
            i <= cs@.len(),
            out@ + replace_all(cs@.subrange(i as int, cs@.len() as int), pat@, rep@) == replace_all(
                s@,
                pat@,
                rep@,
            ),
        decreases cs@.len() - i,
    {
        let ghost rest = cs@.subrange(i as int, cs@.len() as int);
        proof {
            lemma_matches_at_shift(cs@, i as int, pat@);
        }
        if matches_at_exec(cs.as_slice(), i, pc.as_slice()) {
            push_str(&mut out, rep);
            proof {
                assert(rest.subrange(pat@.len() as int, rest.len() as int) =~= cs@.subrange(
                    i + pat@.len(),
                    cs@.len() as int,
                ));
                assert(out@ + replace_all(
                    cs@.subrange(i + pat@.len(), cs@.len() as int),
                    pat@,
                    rep@,
                ) =~= (out@.subrange(0, out@.len() - rep@.len())) + replace_all(rest, pat@, rep@));
            }
            i = i + pc.len();
        } else {
            push_char(&mut out, cs[i]);
            proof {
                assert(rest.subrange(1, rest.len() as int) =~= cs@.subrange(i + 1, cs@.len() as int));
                assert(out@ + replace_all(cs@.subrange(i + 1, cs@.len() as int), pat@, rep@)
                    =~= out@.drop_last() + replace_all(rest, pat@, rep@));
            }
            i = i + 1;
        }
    }
    assert(cs@.subrange(i as int, cs@.len() as int) =~= Seq::<char>::empty());
    assert(out@ + Seq::<char>::empty() =~= out@);
    out
}

/// The decimal digits of `n`, most significant first (no leading zeros; `0`
/// is written as one digit).
pub open spec fn decimal(n: nat) -> Seq<char>
    decreases n,
{
    if n < 10 {
        seq![digit_char(n)]
    } else {
        decimal(n / 10) + seq![digit_char(n % 10)]
    }
}

/// The character of a decimal digit.
pub open spec fn digit_char(d: nat) -> char {
    if d == 0 {
        '0'
    } else if d == 1 {
        '1'
    } else if d == 2 {
        '2'
    } else if d == 3 {
        '3'
    } else if d == 4 {
        '4'
    } else if d == 5 {
        '5'
    } else if d == 6 {
        '6'
    } else if d == 7 {
        '7'
    } else if d == 8 {
        '8'
    } else {
        '9'
    }
}

fn digit_char_exec(d: u64) -> (c: char)
    requires
        d < 10,
    ensures
        c == digit_char(d as nat),
{
    if d == 0 {
        '0'
    } else if d == 1 {
        '1'
    } else if d == 2 {
        '2'
    } else if d == 3 {
        '3'
    } else if d == 4 {
        '4'
    } else if d == 5 {
        '5'
    } else if d == 6 {
        '6'
    } else if d == 7 {
        '7'
    } else if d == 8 {
        '8'
    } else {
        '9'
    }
}

/// Appends the decimal digits of `n` to `s`.
pub fn push_decimal(s: &mut String, n: u64)
    ensures
        final(s)@ == old(s)@ + decimal(n as nat),
    decreases n,
{
    if n >= 10 {
        push_decimal(s, n / 10);
    }
    push_char(s, digit_char_exec(n % 10));
    assert(n < 10 ==> n % 10 == n);
}

/// Appends the decimal digits of `n` to `s`, for numbers beyond `u64`.
pub fn push_decimal_wide(s: &mut String, n: u128)
    ensures
        final(s)@ == old(s)@ + decimal(n as nat),
    decreases n,
{
    if n >= 10 {
        push_decimal_wide(s, n / 10);
    }
    let d = (n % 10) as u64;
    push_char(s, digit_char_exec(d));
    assert(n < 10 ==> n % 10 == n);
}

/// Whether two strings hold the same characters.
pub fn str_equal(a: &str, b: &str) -> (r: bool)
    ensures
        r == (a@ == b@),
{
    let ac = chars_of(a);
    let bc = chars_of(b);
    if ac.len() != bc.len() {
        return false;
    }
    let mut i: usize = 0;
    while i < ac.len()
        invariant
            ac@ == a@,
            bc@ == b@,
            ac@.len() == bc@.len(),
            i <= ac@.len(),
            forall|k: int| 0 <= k < i ==> ac@[k] == bc@[k],
        decreases ac@.len() - i,
    {
        if ac[i] != bc[i] {
            return false;
        }
        i = i + 1;
    }
    assert(a@ =~= b@);
    true
}

} // verus!
