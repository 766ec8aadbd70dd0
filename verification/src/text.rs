//! Character-level text operations with exact specifications over `Seq<char>`.

use vstd::prelude::*;

verus! {

/// `String::push`: the character is appended to the text.
pub assume_specification[ String::push ](s: &mut String, c: char)
    ensures
        final(s)@ == old(s)@.push(c),
;

/// The view of an optional text.
pub open spec fn opt_view(t: Option<String>) -> Option<Seq<char>> {
    match t {
        Some(s) => Some(s@),
        None => None,
    }
}

/// Whether `c` has the Unicode property White_Space.
pub open spec fn is_space(c: char) -> bool {
    ||| '\u{9}' <= c <= '\u{d}'
    ||| c == ' '
    ||| c == '\u{85}'
    ||| c == '\u{a0}'
    ||| c == '\u{1680}'
    ||| '\u{2000}' <= c <= '\u{200a}'
    ||| c == '\u{2028}'
    ||| c == '\u{2029}'
    ||| c == '\u{202f}'
    ||| c == '\u{205f}'
    ||| c == '\u{3000}'
}

/// A set of characters that can be stripped from the ends of a text.
#[derive(Clone, Copy, Debug)]
pub enum Strip {
    /// Every white-space character.
    Whitespace,
    /// One given character.
    Char(char),
}

impl Strip {
    /// Whether `c` belongs to the set.
    pub open spec fn holds(self, c: char) -> bool {
        match self {
            Strip::Whitespace => is_space(c),
            Strip::Char(x) => c == x,
        }
    }

    /// Executable form of [`Strip::holds`].
    pub fn test(&self, c: char) -> (b: bool)
        ensures
            b == self.holds(c),
    {
        match self {
            Strip::Whitespace => {
                ('\u{9}' <= c && c <= '\u{d}') || c == ' ' || c == '\u{85}' || c == '\u{a0}' || c
                    == '\u{1680}' || ('\u{2000}' <= c && c <= '\u{200a}') || c == '\u{2028}' || c
                    == '\u{2029}' || c == '\u{202f}' || c == '\u{205f}' || c == '\u{3000}'
            },
            Strip::Char(x) => c == *x,
        }
    }
}

/// First index at or after `i` whose character is outside `k` (or `s.len()`).
pub open spec fn lead_from(s: Seq<char>, k: Strip, i: int) -> int
    decreases s.len() - i,
{
    if 0 <= i < s.len() && k.holds(s[i]) {
        lead_from(s, k, i + 1)
    } else {
        i
    }
}

/// Smallest index `e` in `lo..=j` such that all of `s[e..j]` is inside `k`.
pub open spec fn trail_to(s: Seq<char>, k: Strip, lo: int, j: int) -> int
    decreases j - lo,
{
    if lo < j <= s.len() && k.holds(s[j - 1]) {
        trail_to(s, k, lo, j - 1)
    } else {
        j
    }
}

/// `s` without its leading characters from `k`.
pub open spec fn strip_start(s: Seq<char>, k: Strip) -> Seq<char> {
    s.subrange(lead_from(s, k, 0), s.len() as int)
}

/// `s` without its trailing characters from `k`.
pub open spec fn strip_end(s: Seq<char>, k: Strip) -> Seq<char> {
    s.subrange(0, trail_to(s, k, 0, s.len() as int))
}

/// `s` without leading and trailing white space.
pub open spec fn trimmed(s: Seq<char>) -> Seq<char> {
    strip_end(strip_start(s, Strip::Whitespace), Strip::Whitespace)
}

pub proof fn lemma_lead_bounds(s: Seq<char>, k: Strip, i: int)
    requires
        0 <= i <= s.len(),
    ensures
        i <= lead_from(s, k, i) <= s.len(),
        forall|j: int| i <= j < lead_from(s, k, i) ==> k.holds(#[trigger] s[j]),
        lead_from(s, k, i) < s.len() ==> !k.holds(s[lead_from(s, k, i)]),
    decreases s.len() - i,
{
    if i < s.len() && k.holds(s[i]) {
        lemma_lead_bounds(s, k, i + 1);
    }
}

pub proof fn lemma_trail_bounds(s: Seq<char>, k: Strip, lo: int, j: int)
    requires
        0 <= lo <= j <= s.len(),
    ensures
        lo <= trail_to(s, k, lo, j) <= j,
        forall|i: int| trail_to(s, k, lo, j) <= i < j ==> k.holds(#[trigger] s[i]),
        lo < trail_to(s, k, lo, j) ==> !k.holds(s[trail_to(s, k, lo, j) - 1]),
    decreases j - lo,
{
    if lo < j && k.holds(s[j - 1]) {
        lemma_trail_bounds(s, k, lo, j - 1);
    }
}

/// Stripping the end of a suffix of `s` is the same scan on `s` itself.
pub proof fn lemma_trail_suffix(s: Seq<char>, k: Strip, a: int, j: int)
    requires
        0 <= a <= j <= s.len(),
    ensures
        trail_to(s.subrange(a, s.len() as int), k, 0, j - a) == trail_to(s, k, a, j) - a,
    decreases j - a,
{
    let t = s.subrange(a, s.len() as int);
    if a < j {
        assert(t[j - a - 1] == s[j - 1]);
        if k.holds(s[j - 1]) {
            lemma_trail_suffix(s, k, a, j - 1);
        }
    }
}

/// Trimming a trimmed text changes nothing.
pub proof fn lemma_trim_twice(s: Seq<char>)
    ensures
        trimmed(trimmed(s)) == trimmed(s),
{
    let k = Strip::Whitespace;
    let a = lead_from(s, k, 0);
    let front = s.subrange(a, s.len() as int);
    lemma_lead_bounds(s, k, 0);
    lemma_trail_bounds(front, k, 0, front.len() as int);
    let b = trail_to(front, k, 0, front.len() as int);
    let t = front.subrange(0, b);
    assert(t == trimmed(s));
    lemma_lead_bounds(t, k, 0);
    if t.len() > 0 {
        if b == front.len() {
            assert(t =~= front);
        }
        assert(t[0] == front[0] && front[0] == s[a]);
        assert(!k.holds(t[0]));
        assert(t[t.len() - 1] == front[b - 1]);
        assert(!k.holds(t[t.len() - 1]));
    }
    assert(lead_from(t, k, 0) == 0);
    assert(t.subrange(0, t.len() as int) =~= t);
    assert(strip_start(t, k) == t);
    assert(trail_to(t, k, 0, t.len() as int) == t.len());
    assert(strip_end(t, k) =~= t);
}

/// The characters of `s`, in order.
pub fn chars_of(s: &str) -> (out: Vec<char>)
    ensures
        out@ == s@,
{
    let mut out: Vec<char> = Vec::new();
    for c in it: s.chars()
        invariant
            it.seq() == s@,
            out@ =~= s@.take(it.index()),
    {
        out.push(c);
    }
    assert(out@ =~= s@);
    out
}

/// The string made of the characters `v[from..to]`.
pub fn string_of(v: &Vec<char>, from: usize, to: usize) -> (out: String)
    requires
        from <= to <= v.len(),
    ensures
        out@ == v@.subrange(from as int, to as int),
{
    let mut out = String::new();
    let mut i: usize = from;
    while i < to
        invariant
            from <= i <= to <= v.len(),
            out@ =~= v@.subrange(from as int, i as int),
        decreases to - i,
    {
        out.push(v[i]);
        i += 1;
    }
    out
}

/// Index of the first character of `v` at or after `from` that is outside `k`.
pub fn scan_start(v: &Vec<char>, k: Strip, from: usize) -> (i: usize)
    requires
        from <= v.len(),
    ensures
        i == lead_from(v@, k, from as int),
        from <= i <= v.len(),
{
    let mut i: usize = from;
    proof {
        lemma_lead_bounds(v@, k, from as int);
    }
    while i < v.len() && k.test(v[i])
        invariant
            from <= i <= v.len(),
            lead_from(v@, k, i as int) == lead_from(v@, k, from as int),
        decreases v.len() - i,
    {
        i += 1;
    }
    i
}

/// Index just past the last character of `v[lo..to]` that is outside `k`.
pub fn scan_end(v: &Vec<char>, k: Strip, lo: usize, to: usize) -> (j: usize)
    requires
        lo <= to <= v.len(),
    ensures
        j == trail_to(v@, k, lo as int, to as int),
        lo <= j <= to,
{
    let mut j: usize = to;
    proof {
        lemma_trail_bounds(v@, k, lo as int, to as int);
    }
    while j > lo && k.test(v[j - 1])
        invariant
            lo <= j <= to <= v.len(),
            trail_to(v@, k, lo as int, j as int) == trail_to(v@, k, lo as int, to as int),
        decreases j - lo,
    {
        j -= 1;
    }
    j
}

/// `s` without leading and trailing white space.
pub fn trim(s: &str) -> (out: String)
    ensures
        out@ == trimmed(s@),
{
    let v = chars_of(s);
    let a = scan_start(&v, Strip::Whitespace, 0);
    let b = scan_end(&v, Strip::Whitespace, a, v.len());
    proof {
        lemma_trail_suffix(v@, Strip::Whitespace, a as int, v.len() as int);
        assert(v@.subrange(a as int, v.len() as int).subrange(0, b - a) =~= v@.subrange(
            a as int,
            b as int,
        ));
    }
    string_of(&v, a, b)
}

/// `s` without its leading characters from `k`.
pub fn trim_start_of(s: &str, k: Strip) -> (out: String)
    ensures
        out@ == strip_start(s@, k),
{
    let v = chars_of(s);
    let a = scan_start(&v, k, 0);
    string_of(&v, a, v.len())
}

/// `s` without its trailing characters from `k`.
pub fn trim_end_of(s: &str, k: Strip) -> (out: String)
    ensures
        out@ == strip_end(s@, k),
{
    let v = chars_of(s);
    let b = scan_end(&v, k, 0, v.len());
    string_of(&v, 0, b)
}

/// The ASCII lower-case form of `c`; other characters are unchanged.
pub open spec fn ascii_lower(c: char) -> char {
    if 'A' <= c <= 'Z' {
        ((c as u8) + 32) as char
    } else {
        c
    }
}

/// `s` with each ASCII upper-case letter replaced by its lower-case form.
pub open spec fn lower_ascii(s: Seq<char>) -> Seq<char> {
    Seq::new(s.len(), |i: int| ascii_lower(s[i]))
}

/// Whether `a` and `b` are equal up to ASCII letter case.
pub open spec fn same_ignoring_case(a: Seq<char>, b: Seq<char>) -> bool {
    lower_ascii(a) == lower_ascii(b)
}

/// Whether `s` begins with `p`.
pub open spec fn has_prefix(s: Seq<char>, p: Seq<char>) -> bool {
    p.len() <= s.len() && s.subrange(0, p.len() as int) == p
}

/// Executable form of [`ascii_lower`].
pub fn lower_char(c: char) -> (r: char)
    ensures
        r == ascii_lower(c),
{
    if 'A' <= c && c <= 'Z' {
        ((c as u8) + 32) as char
    } else {
        c
    }
}

/// `s` in ASCII lower case.
pub fn to_lower_ascii(s: &str) -> (out: String)
    ensures
        out@ == lower_ascii(s@),
{
    let mut out = String::new();
    for c in it: s.chars()
        invariant
            it.seq() == s@,
            out@ =~= lower_ascii(s@.take(it.index())),
    {
        out.push(lower_char(c));
    }
    assert(out@ =~= lower_ascii(s@));
    out
}

/// Whether two texts hold the same characters.
pub fn text_eq(a: &str, b: &str) -> (r: bool)
    ensures
        r == (a@ == b@),
{
    let x = chars_of(a);
    let y = chars_of(b);
    if x.len() != y.len() {
        return false;
    }
    let mut i: usize = 0;
    while i < x.len()
        invariant
            i <= x.len(),
            x.len() == y.len(),
            x@ == a@,
            y@ == b@,
            forall|j: int| 0 <= j < i ==> x@[j] == y@[j],
        decreases x.len() - i,
    {
        if x[i] != y[i] {
            return false;
        }
        i += 1;
    }
    assert(x@ =~= y@);
    true
}

/// Whether two texts are equal up to ASCII letter case.
pub fn eq_ignore_case(a: &str, b: &str) -> (r: bool)
    ensures
        r == same_ignoring_case(a@, b@),
{
    let x = to_lower_ascii(a);
    let y = to_lower_ascii(b);
    text_eq(x.as_str(), y.as_str())
}

/// Whether `s` begins with `p`.
pub fn starts_with(s: &str, p: &str) -> (r: bool)
    ensures
        r == has_prefix(s@, p@),
{
    let x = chars_of(s);
    let y = chars_of(p);
    if y.len() > x.len() {
        return false;
    }
    let mut i: usize = 0;
    while i < y.len()
        invariant
            i <= y.len() <= x.len(),
            x@ == s@,
            y@ == p@,
            forall|j: int| 0 <= j < i ==> x@[j] == y@[j],
        decreases y.len() - i,
    {
        if x[i] != y[i] {
            assert(x@.subrange(0, y.len() as int)[i as int] != y@[i as int]);
            return false;
        }
        i += 1;
    }
    assert(x@.subrange(0, y.len() as int) =~= y@);
    true
}

/// The two texts joined.
pub fn concat2(a: &str, b: &str) -> (out: String)
    ensures
        out@ == a@ + b@,
{
    let mut out = a.to_owned();
    out.append(b);
    out
}

/// The three texts joined.
pub fn concat3(a: &str, b: &str, c: &str) -> (out: String)
    ensures
        out@ == a@ + b@ + c@,
{
    let mut out = a.to_owned();
    out.append(b);
    out.append(c);
    out
}

/// The decimal digit for `d`.
pub open spec fn digit_char(d: int) -> char
    recommends
        0 <= d <= 9,
{
    (('0' as u8) + d) as char
}

/// The decimal notation of `n`, without leading zeros.
pub open spec fn decimal(n: nat) -> Seq<char>
    decreases n,
{
    if n < 10 {
        seq![digit_char(n as int)]
    } else {
        decimal(n / 10).push(digit_char((n % 10) as int))
    }
}

/// The decimal notation of `n`.
pub fn decimal_text(n: u128) -> (out: String)
    ensures
        out@ == decimal(n as nat),
{
    let mut digits: Vec<char> = Vec::new();
    let mut rest: u128 = n;
    // digits holds the low-order digits of n, least significant first
    while rest >= 10
        invariant
            decimal(n as nat) == decimal(rest as nat) + digits@.reverse(),
        decreases rest,
    {
        let d: u8 = (rest % 10) as u8;
        let ghost before = digits@;
        digits.push((48u8 + d) as char);
        proof {
            assert(digits@.reverse() =~= seq![digit_char((rest % 10) as int)] + before.reverse());
            assert(decimal(rest as nat) == decimal((rest / 10) as nat).push(
                digit_char((rest % 10) as int),
            ));
            assert(decimal(n as nat) =~= decimal((rest / 10) as nat) + digits@.reverse());
        }
        rest = rest / 10;
    }
    let ghost before = digits@;
    digits.push((48u8 + (rest as u8)) as char);
    proof {
        assert(digits@.reverse() =~= seq![digit_char(rest as int)] + before.reverse());
        assert(decimal(n as nat) =~= digits@.reverse());
    }
    let mut out = String::new();
    let mut i: usize = digits.len();
    while i > 0
        invariant
            i <= digits.len(),
            out@ =~= digits@.reverse().subrange(0, digits.len() - i),
        decreases i,
    {
        i -= 1;
        out.push(digits[i]);
    }
    assert(out@ =~= digits@.reverse());
    out
}

} // verus!
