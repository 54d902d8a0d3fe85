//! Translation requests: the canonical JSON text of a request and the cache
//! key derived from it.
use vstd::prelude::*;
use vstd::string::StringSliceAdditionalSpecFns;
use crate::api::digest::{hex_digit, hex_lower, hex_sha256, sha256};
use crate::text::{push_char, push_str};
use crate::types::translate::{TranslationInput, TranslationInputRequest};

verus! {

/// The JSON escape of one character inside a string literal: quote and
/// backslash are escaped, the control characters get their short escape
/// (`\b \t \n \f \r`) or a `\u00XX` escape, everything else stands as is.
pub open spec fn json_escape_char(c: char) -> Seq<char> {
    if c == '"' {
        seq!['\\', '"']
    } else if c == '\\' {
        seq!['\\', '\\']
    } else if c == '\x08' {
        seq!['\\', 'b']
    } else if c == '\t' {
        seq!['\\', 't']
    } else if c == '\n' {
        seq!['\\', 'n']
    } else if c == '\x0C' {
        seq!['\\', 'f']
    } else if c == '\r' {
        seq!['\\', 'r']
    } else if (c as u32) < 0x20 {
        seq!['\\', 'u', '0', '0', hex_digit((c as u32) as int / 16), hex_digit((c as u32) as int % 16)]
    } else {
        seq![c]
    }
}

/// The escaped contents of a JSON string literal.
pub open spec fn json_escaped(s: Seq<char>) -> Seq<char>
    decreases s.len(),
{
    if s.len() == 0 {
        Seq::empty()
    } else {
        json_escaped(s.drop_last()) + json_escape_char(s.last())
    }
}

/// A JSON string literal holding `s`.
pub open spec fn json_string(s: Seq<char>) -> Seq<char> {
    seq!['"'] + json_escaped(s) + seq!['"']
}

/// The compact JSON text of a translation input: its two fields in order,
/// a missing context written as `null`.
pub open spec fn translation_input_json(input: TranslationInput) -> Seq<char> {
    "{\"translation_input\":"@ + json_string(input.translation_input@) + ",\"context\":"@ + match input.context {
        Some(c) => json_string(c@),
        None => "null"@,
    } + "}"@
}

fn hex_char_exec(d: u32) -> (c: char)
    requires
        d < 16,
    ensures
        c == hex_digit(d as int),
{
    let b: u8 = if d < 10 {
        (d + 48) as u8
    } else {
        (d - 10 + 97) as u8
    };
    b as char
}

/// Appends `s` to `out` as a JSON string literal.
pub fn push_json_string(out: &mut String, s: &str)
    ensures
        final(out)@ == old(out)@ + json_string(s@),
{
    let ghost start = out@;
    push_char(out, '"');
    let ghost opened = out@;
    for c in it: s.chars()
        invariant
            it.seq() == s@,
            out@ == opened + json_escaped(it.seq().take(it.index() as int)),
    {
        let ghost before = out@;
        proof {
            let t = it.seq().take(it.index() + 1);
            assert(t.drop_last() =~= it.seq().take(it.index() as int));
            assert(t.last() == c);
        }
        if c == '"' {
            push_char(out, '\\');
            push_char(out, '"');
        } else if c == '\\' {
            push_char(out, '\\');
            push_char(out, '\\');
        } else if c == '\x08' {
            push_char(out, '\\');
            push_char(out, 'b');
        } else if c == '\t' {
            push_char(out, '\\');
            push_char(out, 't');
        } else if c == '\n' {
            push_char(out, '\\');
            push_char(out, 'n');
        } else if c == '\x0C' {
            push_char(out, '\\');
            push_char(out, 'f');
        } else if c == '\r' {
            push_char(out, '\\');
            push_char(out, 'r');
        } else if (c as u32) < 0x20 {
            push_char(out, '\\');
            push_char(out, 'u');
            push_char(out, '0');
            push_char(out, '0');
            push_char(out, hex_char_exec((c as u32) / 16));
            push_char(out, hex_char_exec((c as u32) % 16));
        } else {
            push_char(out, c);
        }
        assert(out@ =~= before + json_escape_char(c));
    }
    assert(s@.take(s@.len() as int) =~= s@);
    push_char(out, '"');
    assert(out@ =~= start + json_string(s@));
}

/// The compact JSON text of a translation input, as a derived serializer
/// writes it.
pub fn translation_input_to_json(input: &TranslationInput) -> (r: String)
    ensures
        r@ == translation_input_json(*input),
{
    let mut out = String::new();
    push_str(&mut out, "{\"translation_input\":");
    push_json_string(&mut out, input.translation_input.as_str());
    push_str(&mut out, ",\"context\":");
    match &input.context {
        Some(c) => push_json_string(&mut out, c.as_str()),
        None => push_str(&mut out, "null"),
    }
    push_str(&mut out, "}");
    out
}

/// What is sent to the model for a translation request: its text and
/// context.
pub fn translation_input_of(req: &TranslationInputRequest) -> (r: TranslationInput)
    ensures
        r.translation_input == req.translation_input,
        r.context == req.context,
{
    let context = match &req.context {
        Some(c) => Some(c.clone()),
        None => None,
    };
    TranslationInput { translation_input: req.translation_input.clone(), context }
}

/// The cache key of a translation input: the hexadecimal SHA-256 digest of
/// the UTF-8 bytes of its JSON text.
pub fn translation_input_hash(input: &TranslationInput) -> (r: String)
    ensures
        r@ == hex_lower(sha256(vstd::utf8::encode_utf8(translation_input_json(*input)))),
{
    let json = translation_input_to_json(input);
    hex_sha256(json.as_str().as_bytes())
}

} // verus!
