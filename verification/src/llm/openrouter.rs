//! Text handling for the OpenRouter chat API: the audio format field and the
//! lines of its server-sent event stream.
use vstd::prelude::*;
use crate::text::{chars_of, string_from_chars};

verus! {

/// The first position at or after `j` of `c` in `s`.
pub open spec fn index_of_from(s: Seq<char>, c: char, j: int) -> Option<int>
    decreases s.len() - j,
{
    if j < 0 || j >= s.len() {
        None
    } else if s[j] == c {
        Some(j)
    } else {
        index_of_from(s, c, j + 1)
    }
}

/// The text of `s` before the first `c` (all of `s` when there is none).
pub open spec fn before_char(s: Seq<char>, c: char) -> Seq<char> {
    match index_of_from(s, c, 0) {
        Some(i) => s.subrange(0, i),
        None => s,
    }
}

/// The text of `s` after the first `c`, if there is one.
pub open spec fn after_char(s: Seq<char>, c: char) -> Option<Seq<char>> {
    match index_of_from(s, c, 0) {
        Some(i) => Some(s.subrange(i + 1, s.len() as int)),
        None => None,
    }
}

/// The audio format named by a MIME type: its subtype (the part between the
/// first and a second `/`) up to any `;` parameters, or `wav` when there is
/// no `/`.
pub open spec fn audio_format(mime: Seq<char>) -> Seq<char> {
    let sub = match after_char(mime, '/') {
        Some(rest) => before_char(rest, '/'),
        None => "wav"@,
    };
    before_char(sub, ';')
}

proof fn lemma_index_of_from_sound(s: Seq<char>, c: char, j: int)
    ensures
        index_of_from(s, c, j) matches Some(i) ==> j <= i < s.len() && s[i] == c,
    decreases s.len() - j,
{
    if 0 <= j < s.len() && s[j] != c {
        lemma_index_of_from_sound(s, c, j + 1);
    }
}

/// The first position of `c` in `s`.
fn index_of(s: &Vec<char>, c: char) -> (r: Option<usize>)
    ensures
        match r {
            Some(i) => index_of_from(s@, c, 0) == Some(i as int),
            None => index_of_from(s@, c, 0) is None,
        },
{
    let mut j: usize = 0;
    while j < s.len()
        invariant
            j <= s@.len(),
            index_of_from(s@, c, 0) == index_of_from(s@, c, j as int),
        decreases s@.len() - j,
    {
        if s[j] == c {
            return Some(j);
        }
        j = j + 1;
    }
    None
}

/// The characters of `s` before the first `c`.
fn chars_before(s: &Vec<char>, c: char) -> (r: Vec<char>)
    ensures
        r@ == before_char(s@, c),
{
    let end = match index_of(s, c) {
        Some(i) => {
            proof {
                lemma_index_of_from_sound(s@, c, 0);
            }
            i
        },
        None => s.len(),
    };
    let mut out: Vec<char> = Vec::new();
    let mut k: usize = 0;
    while k < end
        invariant
            end <= s@.len(),
            k <= end,
            out@ == s@.subrange(0, k as int),
        decreases end - k,
    {
        out.push(s[k]);
        k = k + 1;
        assert(out@ =~= s@.subrange(0, k as int));
    }
    assert(s@.subrange(0, s@.len() as int) =~= s@);
    out
}

/// The audio format field for OpenRouter, derived from a MIME type
/// (`audio/webm` gives `webm`, `audio/ogg; codecs=opus` gives `ogg`).
pub fn audio_format_from_mime(mime_type: &str) -> (r: String)
    ensures
        r@ == audio_format(mime_type@),
{
    let m = chars_of(mime_type);
    let sub: Vec<char> = match index_of(&m, '/') {
        Some(i) => {
            proof {
                lemma_index_of_from_sound(m@, '/', 0);
            }
            let mut rest: Vec<char> = Vec::new();
            let mut k = i + 1;
            while k < m.len()
                invariant
                    i + 1 <= k <= m@.len(),
                    rest@ == m@.subrange(i + 1, k as int),
                decreases m@.len() - k,
            {
                rest.push(m[k]);
                k = k + 1;
                assert(rest@ =~= m@.subrange(i + 1, k as int));
            }
            chars_before(&rest, '/')
        },
        None => {
            proof {
                reveal_strlit("wav");
            }
            chars_of("wav")
        },
    };
    let f = chars_before(&sub, ';');
    string_from_chars(f.as_slice(), 0, f.len())
}

/// `s` without its trailing carriage returns.
pub open spec fn trim_trailing_cr(s: Seq<char>) -> Seq<char>
    decreases s.len(),
{
    if s.len() > 0 && s.last() == '\r' {
        trim_trailing_cr(s.drop_last())
    } else {
        s
    }
}

/// The first complete line of a stream buffer (without its trailing
/// carriage returns) and the text after its newline, if the buffer holds a
/// newline.
pub open spec fn first_line(buffer: Seq<char>) -> Option<(Seq<char>, Seq<char>)> {
    match index_of_from(buffer, '\n', 0) {
        Some(p) => Some(
            (trim_trailing_cr(buffer.subrange(0, p)), buffer.subrange(p + 1, buffer.len() as int)),
        ),
        None => None,
    }
}

/// Splits the first complete line off a stream buffer: returns the line
/// (carriage returns before the newline removed) and the rest of the buffer,
/// or `None` when no newline has arrived yet.
pub fn split_first_line(buffer: &str) -> (r: Option<(String, String)>)
    ensures
        match r {
            Some((line, rest)) => first_line(buffer@) == Some((line@, rest@)),
            None => first_line(buffer@) is None,
        },
{
    let cs = chars_of(buffer);
    match index_of(&cs, '\n') {
        Some(p) => {
            proof {
                lemma_index_of_from_sound(cs@, '\n', 0);
            }
            let mut end = p;
            while end > 0 && cs[end - 1] == '\r'
                invariant
                    end <= p,
                    p < cs@.len(),
                    trim_trailing_cr(cs@.subrange(0, p as int)) == trim_trailing_cr(
                        cs@.subrange(0, end as int),
                    ),
                decreases end,
            {
                assert(cs@.subrange(0, end as int).drop_last() =~= cs@.subrange(0, end - 1));
                end = end - 1;
            }
            let n = cs.len();
            let line = string_from_chars(cs.as_slice(), 0, end);
            let rest = string_from_chars(cs.as_slice(), p + 1, n);
            Some((line, rest))
        },
        None => None,
    }
}

/// What the model sent in the `data:` payload of an event, as
/// `serde_json` reads it: the text at `choices[0].delta.content`, if the
/// payload is JSON and that field is a string.
pub uninterp spec fn delta_content(data: Seq<char>) -> Option<Seq<char>>;

/// Reads the streamed text out of an event payload.
///
/// Trusted: parses `data` with `serde_json::from_str` into a
/// `serde_json::Value` and reads the string at `choices[0].delta.content`;
/// the result depends on `data` alone and is only named here.
#[verifier::external_body]
fn read_delta_content(data: &str) -> (r: Option<String>)
    ensures
        match r {
            Some(t) => delta_content(data@) == Some(t@),
            None => delta_content(data@) is None,
        },
{
    serde_json::from_str::<serde_json::Value>(data).ok().and_then(
        |v| v["choices"][0]["delta"]["content"].as_str().map(|s| s.to_owned()),
    )
}

/// What one line of the event stream means.
#[derive(Debug, Clone, PartialEq, Eq)]
pub enum SseLine {
    /// A piece of generated text.
    Text(String),
    /// The end-of-stream marker.
    Done,
    /// A line that carries nothing (not a data line, or no text).
    Skip,
}

/// The meaning of a line: data lines start with `data: `; the payload
/// `[DONE]` ends the stream; otherwise non-empty delta text is forwarded.
pub open spec fn sse_line_meaning(line: Seq<char>) -> Option<Option<Seq<char>>> {
    if line.len() >= 6 && line.subrange(0, 6) == "data: "@ {
        let data = line.subrange(6, line.len() as int);
        if data == "[DONE]"@ {
            None
        } else {
            match delta_content(data) {
                Some(t) if t.len() > 0 => Some(Some(t)),
                _ => Some(None),
            }
        }
    } else {
        Some(None)
    }
}

/// What a data line carrying `content` (the delta text read from its payload,
/// if any) means: non-empty text is forwarded, anything else skipped.
pub fn sse_line_of_content(content: Option<String>) -> (r: SseLine)
    ensures
        match content {
            Some(t) => if t@.len() > 0 {
                r matches SseLine::Text(s) && s@ == t@
            } else {
                r == SseLine::Skip
            },
            None => r == SseLine::Skip,
        },
{
    match content {
        Some(t) => {
            if !t.as_str().is_empty() {
                SseLine::Text(t)
            } else {
                SseLine::Skip
            }
        },
        None => SseLine::Skip,
    }
}

/// Interprets one line of the OpenRouter event stream.
pub fn interpret_sse_line(line: &str) -> (r: SseLine)
    ensures
        match sse_line_meaning(line@) {
            None => r == SseLine::Done,
            Some(None) => r == SseLine::Skip,
            Some(Some(t)) => r matches SseLine::Text(s) && s@ == t,
        },
{
    let cs = chars_of(line);
    proof {
        reveal_strlit("data: ");
        reveal_strlit("[DONE]");
    }
    if cs.len() >= 6 && cs[0] == 'd' && cs[1] == 'a' && cs[2] == 't' && cs[3] == 'a' && cs[4] == ':'
        && cs[5] == ' ' {
        assert(cs@.subrange(0, 6) =~= "data: "@);
        let data = string_from_chars(cs.as_slice(), 6, cs.len());
        let d = chars_of(data.as_str());
        if d.len() == 6 && d[0] == '[' && d[1] == 'D' && d[2] == 'O' && d[3] == 'N' && d[4] == 'E'
            && d[5] == ']' {
            assert(d@ =~= "[DONE]"@);
            return SseLine::Done;
        }
        proof {
            if d@ == "[DONE]"@ {
                assert(d@[0] == '[' && d@[1] == 'D' && d@[2] == 'O' && d@[3] == 'N' && d@[4] == 'E'
                    && d@[5] == ']');
            }
        }
        sse_line_of_content(read_delta_content(data.as_str()))
    } else {
        proof {
            if cs@.len() >= 6 && cs@.subrange(0, 6) == "data: "@ {
                assert(cs@.subrange(0, 6)[0] == 'd');
                assert(cs@.subrange(0, 6)[1] == 'a');
                assert(cs@.subrange(0, 6)[2] == 't');
                assert(cs@.subrange(0, 6)[3] == 'a');
                assert(cs@.subrange(0, 6)[4] == ':');
                assert(cs@.subrange(0, 6)[5] == ' ');
            }
        }
        SseLine::Skip
    }
}

} // verus!
