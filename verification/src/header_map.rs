//! What this library relies on of the `http` crate's header map.

use crate::text::lower_ascii;
use http::header::MaxSizeReached;
use http::{HeaderMap, HeaderName, HeaderValue};
use vstd::prelude::*;

verus! {

/// `http::HeaderMap`: a multimap from header names to values, of which
/// nothing is seen here but what [`listed`] names.
#[verifier::external_type_specification]
#[verifier::external_body]
#[verifier::reject_recursive_types(T)]
pub struct ExHeaderMap<T>(http::HeaderMap<T>);

/// `http::HeaderName`: a header name, in lower case.
#[verifier::external_type_specification]
#[verifier::external_body]
pub struct ExHeaderName(http::HeaderName);

/// `http::HeaderValue`: the bytes of a header value.
#[verifier::external_type_specification]
#[verifier::external_body]
pub struct ExHeaderValue(http::HeaderValue);

/// `http::header::MaxSizeReached`: a header map's answer when it is full.
#[verifier::external_type_specification]
#[verifier::external_body]
pub struct ExMaxSizeReached(http::header::MaxSizeReached);

/// The name and value pairs that a header map holds, in the order in which
/// it yields them.
pub uninterp spec fn listed(map: HeaderMap<HeaderValue>) -> Seq<(Seq<char>, Seq<u8>)>;

/// The text of a header name.
pub uninterp spec fn name_text(name: HeaderName) -> Seq<char>;

/// The bytes of a header value.
pub uninterp spec fn value_bytes(value: HeaderValue) -> Seq<u8>;

/// The values that `pairs` holds under `name`, in order.
pub open spec fn values_named(pairs: Seq<(Seq<char>, Seq<u8>)>, name: Seq<char>) -> Seq<Seq<u8>>
    decreases pairs.len(),
{
    if pairs.len() == 0 {
        Seq::empty()
    } else if pairs.last().0 == name {
        values_named(pairs.drop_last(), name).push(pairs.last().1)
    } else {
        values_named(pairs.drop_last(), name)
    }
}

/// The values that a header map holds under `name`, in order.
pub open spec fn stored(map: HeaderMap<HeaderValue>, name: Seq<char>) -> Seq<Seq<u8>> {
    values_named(listed(map), name)
}

/// Whether `c` may stand in a header name.
pub open spec fn token_char(c: char) -> bool {
    ||| 'a' <= c <= 'z'
    ||| 'A' <= c <= 'Z'
    ||| '0' <= c <= '9'
    ||| c == '!'
    ||| c == '#'
    ||| c == '$'
    ||| c == '%'
    ||| c == '&'
    ||| c == '\''
    ||| c == '*'
    ||| c == '+'
    ||| c == '-'
    ||| c == '.'
    ||| c == '^'
    ||| c == '_'
    ||| c == '`'
    ||| c == '|'
    ||| c == '~'
}

/// Whether `text` can be a header name: 1 to 65535 token characters.
pub open spec fn valid_name(text: Seq<char>) -> bool {
    &&& 1 <= text.len() <= 65535
    &&& forall|i: int| 0 <= i < text.len() ==> token_char(#[trigger] text[i])
}

/// Whether `b` may stand in a header value.
pub open spec fn value_byte(b: u8) -> bool {
    (b >= 32 && b != 127) || b == 9
}

/// Whether `bytes` can be a header value.
pub open spec fn valid_value(bytes: Seq<u8>) -> bool {
    forall|i: int| 0 <= i < bytes.len() ==> value_byte(#[trigger] bytes[i])
}

/// The least number of pairs that a map holds when it reports that it is
/// full. The table of a map has at most 32768 slots; it grows when three
/// quarters of the slots are taken, or, in a map that met many collisions,
/// when a fifth of them is taken, and a fifth of 32768 slots is 6554 names.
pub const FULL_AT_LEAST: usize = 6554;

/// The views of a list of pairs.
pub open spec fn pairs_view(pairs: Seq<(String, Vec<u8>)>) -> Seq<(Seq<char>, Seq<u8>)> {
    Seq::new(pairs.len(), |i: int| (pairs[i].0@, pairs[i].1@))
}

/// `HeaderMap::new`: a map that holds nothing.
#[verifier::external_body]
pub(crate) fn empty_map() -> (map: HeaderMap)
    ensures
        listed(map) == Seq::<(Seq<char>, Seq<u8>)>::empty(),
{
    HeaderMap::new()
}

/// `HeaderMap::iter`, each item copied out as text and bytes: the pairs of
/// the map in the order in which it yields them.
#[verifier::external_body]
pub(crate) fn header_list(map: &HeaderMap) -> (pairs: Vec<(String, Vec<u8>)>)
    ensures
        pairs_view(pairs@) == listed(*map),
{
    map.iter().map(|(name, value)| (name.as_str().to_string(), value.as_bytes().to_vec())).collect()
}

/// `HeaderName::from_bytes` on the bytes of a text: a name for every text
/// of 1 to 65535 token characters and for no other, in lower case.
#[verifier::external_body]
pub(crate) fn parse_name(text: &str) -> (r: Option<HeaderName>)
    ensures
        r is Some <==> valid_name(text@),
        r matches Some(name) ==> name_text(name) == lower_ascii(text@),
{
    HeaderName::from_bytes(text.as_bytes()).ok()
}

/// `HeaderValue::from_bytes`: a value with these bytes, where each byte is
/// 9, or at least 32 and not 127; nothing for any other bytes.
#[verifier::external_body]
pub(crate) fn parse_value(bytes: &[u8]) -> (r: Option<HeaderValue>)
    ensures
        r is Some <==> valid_value(bytes@),
        r matches Some(value) ==> value_bytes(value) == bytes@,
{
    HeaderValue::from_bytes(bytes).ok()
}

/// `HeaderMap::contains_key`: whether the map holds a value under the name.
#[verifier::external_body]
pub(crate) fn has_header(map: &HeaderMap, name: &HeaderName) -> (r: bool)
    ensures
        r == (stored(*map, name_text(*name)).len() > 0),
{
    map.contains_key(name)
}

/// `HeaderMap::try_append`: the value becomes the last one under its name
/// and nothing else changes, so the map holds one pair more; the answer
/// says whether the name was there before. Where the map reports that it is
/// full, it is unchanged, and it does so only where it holds at least
/// [`FULL_AT_LEAST`] pairs: `try_reserve_one` and `try_grow` fail only for a
/// table of 32768 slots with a fifth of them or more taken, and
/// `try_insert_entry` only at 32768 names.
#[verifier::external_body]
pub(crate) fn append_header(map: &mut HeaderMap, name: HeaderName, value: HeaderValue) -> (r:
    Result<bool, MaxSizeReached>)
    ensures
        match r {
            Ok(existed) => {
                &&& existed == (stored(*old(map), name_text(name)).len() > 0)
                &&& forall|n: Seq<char>|
                    #[trigger] stored(*final(map), n) == if n == name_text(name) {
                        stored(*old(map), n).push(value_bytes(value))
                    } else {
                        stored(*old(map), n)
                    }
                &&& listed(*final(map)).len() == listed(*old(map)).len() + 1
            },
            Err(_) => listed(*final(map)) == listed(*old(map)) && listed(*old(map)).len()
                >= FULL_AT_LEAST,
        },
{
    map.try_append(name, value)
}

/// `HeaderMap::try_insert`: the value becomes the only one under its name
/// and nothing else changes, so the map holds at most one pair more; the
/// answer says whether the name was there before. Where the map reports
/// that it is full, it is unchanged, and it does so only where it holds at
/// least [`FULL_AT_LEAST`] pairs, as `try_append` does.
#[verifier::external_body]
pub(crate) fn insert_header(map: &mut HeaderMap, name: HeaderName, value: HeaderValue) -> (r:
    Result<bool, MaxSizeReached>)
    ensures
        match r {
            Ok(existed) => {
                &&& existed == (stored(*old(map), name_text(name)).len() > 0)
                &&& forall|n: Seq<char>|
                    #[trigger] stored(*final(map), n) == if n == name_text(name) {
                        seq![value_bytes(value)]
                    } else {
                        stored(*old(map), n)
                    }
                &&& listed(*final(map)).len() <= listed(*old(map)).len() + 1
            },
            Err(_) => listed(*final(map)) == listed(*old(map)) && listed(*old(map)).len()
                >= FULL_AT_LEAST,
        },
{
    map.try_insert(name, value).map(|previous| previous.is_some())
}

/// `HeaderMap::remove`: no value is left under the name and nothing else
/// changes, so the map holds no more pairs than before; the answer says
/// whether the name was there before.
#[verifier::external_body]
pub(crate) fn remove_header(map: &mut HeaderMap, name: &HeaderName) -> (existed: bool)
    ensures
        existed == (stored(*old(map), name_text(*name)).len() > 0),
        forall|n: Seq<char>|
            #[trigger] stored(*final(map), n) == if n == name_text(*name) {
                Seq::<Seq<u8>>::empty()
            } else {
                stored(*old(map), n)
            },
        listed(*final(map)).len() <= listed(*old(map)).len(),
{
    map.remove(name).is_some()
}

/// Removes every value under the text `name`, where it is a header name.
pub(crate) fn clear_header(map: &mut HeaderMap, name: &str)
    requires
        valid_name(name@),
        lower_ascii(name@) == name@,
    ensures
        forall|n: Seq<char>|
            #[trigger] stored(*final(map), n) == if n == name@ {
                Seq::<Seq<u8>>::empty()
            } else {
                stored(*old(map), n)
            },
        listed(*final(map)).len() <= listed(*old(map)).len(),
{
    match parse_name(name) {
        Some(n) => {
            remove_header(map, &n);
        },
        None => {},
    }
}

} // verus!
