//! Reading `data:` URLs that carry base64.

use crate::text::{
    chars_of, eq_ignore_case, has_prefix, same_ignoring_case, string_of, strip_start, trim,
    trim_start_of, trimmed, Strip,
};
use vstd::prelude::*;
use vstd::utf8::encode_utf8;

verus! {

/// The bytes that the standard base64 alphabet with padding decodes a text
/// to, or nothing where the text is not such base64.
pub uninterp spec fn base64_decoded(input: Seq<u8>) -> Option<Seq<u8>>;

/// `Engine::decode` of `general_purpose::STANDARD`: decoding is a function
/// of the input alone, fixed by [`base64_decoded`]; an input that is not
/// base64 gives nothing.
#[verifier::external_body]
pub(crate) fn decode_base64(input: &[u8]) -> (r: Option<Vec<u8>>)
    ensures
        match r {
            Some(bytes) => base64_decoded(input@) == Some(bytes@),
            None => base64_decoded(input@) is None,
        },
{
    base64::Engine::decode(&base64::engine::general_purpose::STANDARD, input).ok()
}

/// The first index at or after `i` at which `s` holds `c`, or the length of `s`.
pub open spec fn first_index(s: Seq<char>, c: char, i: int) -> int
    decreases s.len() - i,
{
    if i < 0 || i >= s.len() {
        s.len() as int
    } else if s[i] == c {
        i
    } else {
        first_index(s, c, i + 1)
    }
}

/// The number of characters that the leading repetitions of `data:` take in `s`, from `i` on.
pub open spec fn scheme_end(s: Seq<char>, i: int) -> int
    decreases s.len() - i,
{
    if 0 <= i && i + 5 <= s.len() && s.subrange(i, i + 5) == "data:"@ {
        scheme_end(s, i + 5)
    } else {
        i
    }
}

/// Whether one of the segments of `s` that `;` separates, from the segment
/// that starts at `i` on, is `base64` once trimmed, in any letter case.
pub open spec fn names_base64(s: Seq<char>, i: int) -> bool
    decreases s.len() - i,
{
    if i < 0 || i > s.len() {
        false
    } else {
        let end = first_index(s, ';', i);
        i <= end <= s.len() && (same_ignoring_case(trimmed(s.subrange(i, end)), "base64"@) || (end
            < s.len() && names_base64(s, end + 1)))
    }
}

/// The media type and the payload of a `data:` URL that declares base64:
/// the text is trimmed and must begin with `data:` and hold a comma; what
/// precedes the first comma, without the scheme, is a list of segments
/// that `;` separates, the first of them the media type and one of the
/// others `base64`; what follows the commas is the payload.
pub open spec fn data_url_parts(data_url: Seq<char>) -> Option<(Seq<char>, Seq<char>)> {
    let input = trimmed(data_url);
    let comma = first_index(input, ',', 0);
    if !has_prefix(input, "data:"@) || comma >= input.len() {
        None
    } else {
        let head = input.subrange(0, comma);
        let meta = trimmed(head.subrange(scheme_end(head, 0), head.len() as int));
        let payload = trimmed(
            strip_start(input.subrange(comma, input.len() as int), Strip::Char(',')),
        );
        let first = first_index(meta, ';', 0);
        if first < meta.len() && names_base64(meta, first + 1) {
            Some((trimmed(meta.subrange(0, first)), payload))
        } else {
            None
        }
    }
}

/// What a `data:` URL carries: its media type and its bytes.
pub open spec fn data_url_content(data_url: Seq<char>) -> Option<(Seq<char>, Seq<u8>)> {
    match data_url_parts(data_url) {
        Some((mime, payload)) => match base64_decoded(encode_utf8(payload)) {
            Some(bytes) => Some((mime, bytes)),
            None => None,
        },
        None => None,
    }
}

/// The first index at or after `from` at which `v` holds `c`, or the length of `v`.
fn find_char(v: &Vec<char>, c: char, from: usize) -> (r: usize)
    requires
        from <= v.len(),
    ensures
        r == first_index(v@, c, from as int),
        from <= r <= v.len(),
{
    let mut i: usize = from;
    while i < v.len() && v[i] != c
        invariant
            from <= i <= v.len(),
            first_index(v@, c, i as int) == first_index(v@, c, from as int),
        decreases v.len() - i,
    {
        i += 1;
    }
    i
}

fn skip_scheme(v: &Vec<char>) -> (r: usize)
    ensures
        r == scheme_end(v@, 0),
        r <= v.len(),
{
    let mut i: usize = 0;
    proof {
        reveal_strlit("data:");
    }
    while v.len() - i >= 5 && v[i] == 'd' && v[i + 1] == 'a' && v[i + 2] == 't' && v[i + 3] == 'a'
        && v[i + 4] == ':'
        invariant
            i <= v.len(),
            scheme_end(v@, i as int) == scheme_end(v@, 0),
            "data:"@.len() == 5,
            "data:"@[0] == 'd',
            "data:"@[1] == 'a',
            "data:"@[2] == 't',
            "data:"@[3] == 'a',
            "data:"@[4] == ':',
        decreases v.len() - i,
    {
        assert(v@.subrange(i as int, i + 5) =~= "data:"@);
        i += 5;
    }
    proof {
        if i + 5 <= v.len() {
            let part = v@.subrange(i as int, i + 5);
            assert(part[0] == v@[i as int] && part[1] == v@[i + 1] && part[2] == v@[i + 2]
                && part[3] == v@[i + 3] && part[4] == v@[i + 4]);
            assert(part != "data:"@);
        }
    }
    i
}

fn find_base64(v: &Vec<char>, from: usize) -> (r: bool)
    requires
        from <= v.len(),
    ensures
        r == names_base64(v@, from as int),
{
    let mut i: usize = from;
    loop
        invariant
            from <= i <= v.len(),
            names_base64(v@, i as int) == names_base64(v@, from as int),
        decreases v.len() - i,
    {
        let end = find_char(v, ';', i);
        let segment = string_of(v, i, end);
        let name = trim(segment.as_str());
        if eq_ignore_case(name.as_str(), "base64") {
            return true;
        }
        if end >= v.len() {
            return false;
        }
        i = end + 1;
    }
}

/// Splits a `data:` URL that declares base64 into its media type and its
/// payload, still encoded.
pub fn split_data_url(data_url: &str) -> (r: Option<(String, String)>)
    ensures
        match r {
            Some((mime, payload)) => data_url_parts(data_url@) == Some((mime@, payload@)),
            None => data_url_parts(data_url@) is None,
        },
{
    let input = trim(data_url);
    if !crate::text::starts_with(input.as_str(), "data:") {
        return None;
    }
    let v = chars_of(input.as_str());
    let comma = find_char(&v, ',', 0);
    if comma >= v.len() {
        return None;
    }
    let head_text = string_of(&v, 0, comma);
    let head = chars_of(head_text.as_str());
    let scheme = skip_scheme(&head);
    let meta_text = string_of(&head, scheme, head.len());
    let meta_trimmed = trim(meta_text.as_str());
    let meta = chars_of(meta_trimmed.as_str());
    let tail = string_of(&v, comma, v.len());
    let uncomma = trim_start_of(tail.as_str(), Strip::Char(','));
    let payload = trim(uncomma.as_str());
    let first = find_char(&meta, ';', 0);
    if first < meta.len() && find_base64(&meta, first + 1) {
        let mime_text = string_of(&meta, 0, first);
        Some((trim(mime_text.as_str()), payload))
    } else {
        None
    }
}

/// Reads a `data:` URL that carries base64: its media type and its bytes;
/// nothing for any other text and for a payload that is not base64.
pub fn data_url_decode(data_url: &str) -> (r: Option<(String, Vec<u8>)>)
    ensures
        match r {
            Some((mime, bytes)) => data_url_content(data_url@) == Some((mime@, bytes@)),
            None => data_url_content(data_url@) is None,
        },
{
    match split_data_url(data_url) {
        Some((mime, payload)) => match decode_base64(payload.as_str().as_bytes()) {
            Some(bytes) => Some((mime, bytes)),
            None => None,
        },
        None => None,
    }
}

} // verus!
