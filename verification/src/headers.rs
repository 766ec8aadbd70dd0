//! The header filter of the gateway: which headers cross it, in each direction.

use crate::header_map::{
    append_header, header_list, listed, pairs_view, parse_name, parse_value, stored, valid_name,
    valid_value, values_named, FULL_AT_LEAST,
};
use crate::text::{lower_ascii, text_eq, to_lower_ascii};
use http::HeaderMap;
use vstd::prelude::*;

verus! {

/// Whether `name` is a header that holds for one transport leg only,
/// whatever the case of its letters.
pub open spec fn hop_by_hop(name: Seq<char>) -> bool {
    let lower = lower_ascii(name);
    ||| lower == "connection"@
    ||| lower == "keep-alive"@
    ||| lower == "proxy-authenticate"@
    ||| lower == "proxy-authorization"@
    ||| lower == "te"@
    ||| lower == "trailer"@
    ||| lower == "transfer-encoding"@
    ||| lower == "upgrade"@
}

/// The direction in which headers cross the gateway.
#[derive(Clone, Copy, Debug, PartialEq, Eq, Structural)]
pub enum Direction {
    /// From the local caller to the backend.
    Request,
    /// From the backend to the local caller.
    Response,
}

/// Whether the gateway keeps the header `name` to itself in this direction.
pub open spec fn withheld(direction: Direction, name: Seq<char>) -> bool {
    let lower = lower_ascii(name);
    match direction {
        Direction::Request => hop_by_hop(name) || lower == "host"@,
        Direction::Response => hop_by_hop(name) || lower == "set-cookie"@ || lower
            == "cross-origin-resource-policy"@,
    }
}

/// Whether a pair is copied in this direction: it is not withheld, and name
/// and value can be encoded again.
pub open spec fn passes(direction: Direction, pair: (Seq<char>, Seq<u8>)) -> bool {
    !withheld(direction, pair.0) && valid_name(pair.0) && valid_value(pair.1)
}

/// The pairs of `pairs` that are copied in this direction, in order, each
/// name in lower case.
pub open spec fn forwarded(direction: Direction, pairs: Seq<(Seq<char>, Seq<u8>)>) -> Seq<
    (Seq<char>, Seq<u8>),
>
    decreases pairs.len(),
{
    if pairs.len() == 0 {
        Seq::empty()
    } else if passes(direction, pairs.last()) {
        forwarded(direction, pairs.drop_last()).push((lower_ascii(pairs.last().0), pairs.last().1))
    } else {
        forwarded(direction, pairs.drop_last())
    }
}

/// Lower case of lower case is lower case.
pub proof fn lemma_lower_twice(s: Seq<char>)
    ensures
        lower_ascii(lower_ascii(s)) == lower_ascii(s),
{
    assert(lower_ascii(lower_ascii(s)) =~= lower_ascii(s));
}

/// Nothing is copied under a withheld name, however the name is written:
/// no hop-by-hop header crosses the gateway, no `Host` reaches the backend,
/// and no `Set-Cookie` or `Cross-Origin-Resource-Policy` of the backend
/// reaches the caller.
pub proof fn lemma_withheld_not_forwarded(
    direction: Direction,
    pairs: Seq<(Seq<char>, Seq<u8>)>,
    name: Seq<char>,
)
    requires
        withheld(direction, name),
    ensures
        values_named(forwarded(direction, pairs), name) == Seq::<Seq<u8>>::empty(),
        values_named(forwarded(direction, pairs), lower_ascii(name)) == Seq::<Seq<u8>>::empty(),
    decreases pairs.len(),
{
    if pairs.len() > 0 {
        lemma_withheld_not_forwarded(direction, pairs.drop_last(), name);
        lemma_lower_twice(pairs.last().0);
        lemma_lower_twice(name);
        if passes(direction, pairs.last()) {
            let out = forwarded(direction, pairs);
            assert(out.drop_last() =~= forwarded(direction, pairs.drop_last()));
        }
    }
}

/// Whether a pair is a cookie that the backend sets.
pub open spec fn sets_cookie(pair: (Seq<char>, Seq<u8>)) -> bool {
    lower_ascii(pair.0) == "set-cookie"@
}

/// The pairs of `pairs` that set no cookie, in order.
pub open spec fn without_cookies(pairs: Seq<(Seq<char>, Seq<u8>)>) -> Seq<(Seq<char>, Seq<u8>)>
    decreases pairs.len(),
{
    if pairs.len() == 0 {
        Seq::empty()
    } else if sets_cookie(pairs.last()) {
        without_cookies(pairs.drop_last())
    } else {
        without_cookies(pairs.drop_last()).push(pairs.last())
    }
}

/// What is copied of a response does not depend on the cookies it sets.
pub proof fn lemma_cookies_ignored(pairs: Seq<(Seq<char>, Seq<u8>)>)
    ensures
        forwarded(Direction::Response, pairs) == forwarded(
            Direction::Response,
            without_cookies(pairs),
        ),
    decreases pairs.len(),
{
    if pairs.len() > 0 {
        lemma_cookies_ignored(pairs.drop_last());
        if !sets_cookie(pairs.last()) {
            let kept = without_cookies(pairs);
            assert(kept.drop_last() =~= without_cookies(pairs.drop_last()));
            assert(kept.last() == pairs.last());
        }
    }
}

/// Two responses that differ only in the cookies they set are copied to
/// the same headers.
pub proof fn lemma_same_but_cookies(
    first: Seq<(Seq<char>, Seq<u8>)>,
    second: Seq<(Seq<char>, Seq<u8>)>,
)
    requires
        without_cookies(first) == without_cookies(second),
    ensures
        forwarded(Direction::Response, first) == forwarded(Direction::Response, second),
{
    lemma_cookies_ignored(first);
    lemma_cookies_ignored(second);
}

/// Whether `name` is a hop-by-hop header.
pub fn is_hop_by_hop_header(name: &str) -> (b: bool)
    ensures
        b == hop_by_hop(name@),
{
    let lower = to_lower_ascii(name);
    let l = lower.as_str();
    text_eq(l, "connection") || text_eq(l, "keep-alive") || text_eq(l, "proxy-authenticate")
        || text_eq(l, "proxy-authorization") || text_eq(l, "te") || text_eq(l, "trailer")
        || text_eq(l, "transfer-encoding") || text_eq(l, "upgrade")
}

/// Whether the gateway keeps the header `name` to itself in this direction.
pub fn is_withheld(direction: Direction, name: &str) -> (b: bool)
    ensures
        b == withheld(direction, name@),
{
    if is_hop_by_hop_header(name) {
        return true;
    }
    let lower = to_lower_ascii(name);
    match direction {
        Direction::Request => text_eq(lower.as_str(), "host"),
        Direction::Response => text_eq(lower.as_str(), "set-cookie") || text_eq(
            lower.as_str(),
            "cross-origin-resource-policy",
        ),
    }
}

/// The number of headers of a source of `len` headers that a copy dealt
/// with: all of them, or as many as the copy says it managed.
pub open spec fn handled_of(r: Result<(), usize>, len: nat) -> int {
    match r {
        Ok(_) => len as int,
        Err(handled) => handled as int,
    }
}

/// Appends to `dst` the headers of `src` that cross the gateway in this
/// direction. Where `dst` reports that it is full, the copy stops and
/// answers with the number of headers of `src` that it dealt with: those
/// before the header that `dst` had no room for. A copy that leaves fewer
/// than [`FULL_AT_LEAST`] headers in `dst` never stops.
pub fn copy_headers(direction: Direction, src: &HeaderMap, dst: &mut HeaderMap) -> (r: Result<
    (),
    usize,
>)
    ensures
        listed(*old(dst)).len() + listed(*src).len() <= FULL_AT_LEAST ==> r is Ok,
        r matches Err(handled) ==> {
            &&& handled < listed(*src).len()
            &&& passes(direction, listed(*src)[handled as int])
            &&& listed(*old(dst)).len() + handled >= FULL_AT_LEAST
        },
        listed(*final(dst)).len() <= listed(*old(dst)).len() + handled_of(
            r,
            listed(*src).len(),
        ),
        forall|n: Seq<char>|
            #[trigger] stored(*final(dst), n) == stored(*old(dst), n) + values_named(
                forwarded(direction, listed(*src).take(handled_of(r, listed(*src).len()))),
                n,
            ),
        forall|n: Seq<char>|
            withheld(direction, n) ==> #[trigger] stored(*final(dst), n) == stored(*old(dst), n),
{
    let pairs = header_list(src);
    let ghost all = listed(*src);
    let mut i: usize = 0;
    proof {
        assert(all.take(0) =~= Seq::<(Seq<char>, Seq<u8>)>::empty());
        assert forall|n: Seq<char>| #[trigger]
            stored(*dst, n) == stored(*old(dst), n) + values_named(
                forwarded(direction, all.take(0)),
                n,
            ) by {
            assert(stored(*old(dst), n) + Seq::<Seq<u8>>::empty() =~= stored(*old(dst), n));
        }
    }
    while i < pairs.len()
        invariant
            i <= pairs.len(),
            all == listed(*src),
            pairs_view(pairs@) == all,
            listed(*dst).len() <= listed(*old(dst)).len() + i,
            forall|n: Seq<char>|
                #[trigger] stored(*dst, n) == stored(*old(dst), n) + values_named(
                    forwarded(direction, all.take(i as int)),
                    n,
                ),
        decreases pairs.len() - i,
    {
        let ghost before = *dst;
        let ghost pair = all[i as int];
        proof {
            assert(pair == (pairs@[i as int].0@, pairs@[i as int].1@));
            assert(all.take(i + 1).drop_last() =~= all.take(i as int));
            assert(all.take(i + 1).last() == pair);
        }
        let name = &pairs[i].0;
        let value = &pairs[i].1;
        if !is_withheld(direction, name.as_str()) {
            match parse_name(name.as_str()) {
                Some(n) => match parse_value(value.as_slice()) {
                    Some(v) => match append_header(dst, n, v) {
                        Ok(_) => {
                            proof {
                                let sel = forwarded(direction, all.take(i as int));
                                let sel1 = forwarded(direction, all.take(i + 1));
                                assert(sel1 == sel.push((lower_ascii(pair.0), pair.1)));
                                assert(sel1.drop_last() =~= sel);
                                assert forall|m: Seq<char>| #[trigger]
                                    stored(*dst, m) == stored(*old(dst), m) + values_named(
                                        sel1,
                                        m,
                                    ) by {
                                    assert(stored(before, m) == stored(*old(dst), m)
                                        + values_named(sel, m));
                                    if m == lower_ascii(pair.0) {
                                        assert(stored(*dst, m) =~= stored(*old(dst), m)
                                            + values_named(sel1, m));
                                    }
                                }
                            }
                        },
                        Err(_) => {
                            proof {
                                assert forall|m: Seq<char>| #[trigger]
                                    stored(*dst, m) == stored(*old(dst), m) + values_named(
                                        forwarded(direction, all.take(i as int)),
                                        m,
                                    ) by {
                                    assert(stored(*dst, m) == stored(before, m));
                                }
                                lemma_copied_withheld(direction, all.take(i as int), *old(dst), *dst);
                            }
                            return Err(i);
                        },
                    },
                    None => {},
                },
                None => {},
            }
        }
        i += 1;
    }
    proof {
        assert(all.take(i as int) =~= all);
        lemma_copied_withheld(direction, all.take(i as int), *old(dst), *dst);
    }
    Ok(())
}

proof fn lemma_copied_withheld(
    direction: Direction,
    pairs: Seq<(Seq<char>, Seq<u8>)>,
    before: HeaderMap,
    after: HeaderMap,
)
    requires
        forall|n: Seq<char>|
            #[trigger] stored(after, n) == stored(before, n) + values_named(
                forwarded(direction, pairs),
                n,
            ),
    ensures
        forall|n: Seq<char>|
            withheld(direction, n) ==> #[trigger] stored(after, n) == stored(before, n),
{
    assert forall|n: Seq<char>| withheld(direction, n) implies #[trigger] stored(after, n)
        == stored(before, n) by {
        lemma_withheld_not_forwarded(direction, pairs, n);
        assert(stored(before, n) + Seq::<Seq<u8>>::empty() =~= stored(before, n));
    }
}

/// Appends to `target` the headers of an inbound request that the gateway
/// forwards to the backend: all but the hop-by-hop headers and `Host`. The
/// copy is complete wherever the two maps together hold no more than
/// [`FULL_AT_LEAST`] headers.
pub fn copy_request_headers(req_headers: &HeaderMap, target: &mut HeaderMap) -> (r: Result<
    (),
    usize,
>)
    ensures
        listed(*old(target)).len() + listed(*req_headers).len() <= FULL_AT_LEAST ==> r is Ok,
        r matches Err(handled) ==> {
            &&& handled < listed(*req_headers).len()
            &&& passes(Direction::Request, listed(*req_headers)[handled as int])
            &&& listed(*old(target)).len() + handled >= FULL_AT_LEAST
        },
        listed(*final(target)).len() <= listed(*old(target)).len() + handled_of(
            r,
            listed(*req_headers).len(),
        ),
        forall|n: Seq<char>|
            #[trigger] stored(*final(target), n) == stored(*old(target), n) + values_named(
                forwarded(
                    Direction::Request,
                    listed(*req_headers).take(handled_of(r, listed(*req_headers).len())),
                ),
                n,
            ),
        forall|n: Seq<char>|
            withheld(Direction::Request, n) ==> #[trigger] stored(*final(target), n) == stored(
                *old(target),
                n,
            ),
{
    copy_headers(Direction::Request, req_headers, target)
}

/// Appends to `dst` the headers of a backend response that the gateway
/// hands to the caller: all but the hop-by-hop headers, `Set-Cookie` and
/// `Cross-Origin-Resource-Policy`. The copy is complete wherever the two
/// maps together hold no more than [`FULL_AT_LEAST`] headers.
pub fn copy_response_headers(src: &HeaderMap, dst: &mut HeaderMap) -> (r: Result<(), usize>)
    ensures
        listed(*old(dst)).len() + listed(*src).len() <= FULL_AT_LEAST ==> r is Ok,
        r matches Err(handled) ==> {
            &&& handled < listed(*src).len()
            &&& passes(Direction::Response, listed(*src)[handled as int])
            &&& listed(*old(dst)).len() + handled >= FULL_AT_LEAST
        },
        listed(*final(dst)).len() <= listed(*old(dst)).len() + handled_of(
            r,
            listed(*src).len(),
        ),
        forall|n: Seq<char>|
            #[trigger] stored(*final(dst), n) == stored(*old(dst), n) + values_named(
                forwarded(
                    Direction::Response,
                    listed(*src).take(handled_of(r, listed(*src).len())),
                ),
                n,
            ),
        forall|n: Seq<char>|
            withheld(Direction::Response, n) ==> #[trigger] stored(*final(dst), n) == stored(
                *old(dst),
                n,
            ),
{
    copy_headers(Direction::Response, src, dst)
}

} // verus!
