//! Character-level helpers for the text the library builds and inspects.
//!
//! Everything here works on the character sequence (`@`) of a string, so
//! that the contracts of the rest of the library can be stated over
//! `Seq<char>`.

use vstd::prelude::*;

verus! {

// ── Specification ───────────────────────────────────────────────────────────

/// ASCII lowercase of one character: `A`..=`Z` become `a`..=`z`, every other
/// character is kept (the behaviour of `char::to_ascii_lowercase`).
pub open spec fn lower_char(c: char) -> char {
    if 'A' <= c && c <= 'Z' {
        ((c as u32) + 32) as char
    } else {
        c
    }
}

/// ASCII lowercase of a character sequence.
pub open spec fn ascii_lower(s: Seq<char>) -> Seq<char> {
    s.map_values(|c: char| lower_char(c))
}

/// Unicode `White_Space`, the property that `char::is_whitespace` tests.
pub open spec fn is_ws(c: char) -> bool {
    ||| ('\u{9}' <= c && c <= '\u{d}')
    ||| c == ' '
    ||| c == '\u{85}'
    ||| c == '\u{a0}'
    ||| c == '\u{1680}'
    ||| ('\u{2000}' <= c && c <= '\u{200a}')
    ||| c == '\u{2028}'
    ||| c == '\u{2029}'
    ||| c == '\u{202f}'
    ||| c == '\u{205f}'
    ||| c == '\u{3000}'
}

/// `s` without its leading characters that satisfy `is_ws`.
pub open spec fn trim_start_ws(s: Seq<char>) -> Seq<char>
    decreases s.len(),
{
    if s.len() > 0 && is_ws(s[0]) {
        trim_start_ws(s.drop_first())
    } else {
        s
    }
}

/// `s` without its trailing characters that satisfy `is_ws`.
pub open spec fn trim_end_ws(s: Seq<char>) -> Seq<char>
    decreases s.len(),
{
    if s.len() > 0 && is_ws(s.last()) {
        trim_end_ws(s.drop_last())
    } else {
        s
    }
}

/// `s` without leading and trailing whitespace (`str::trim`).
pub open spec fn trim_ws(s: Seq<char>) -> Seq<char> {
    trim_end_ws(trim_start_ws(s))
}

/// `s` without every leading `c` (`str::trim_start_matches` with a `char`).
pub open spec fn strip_leading(s: Seq<char>, c: char) -> Seq<char>
    decreases s.len(),
{
    if s.len() > 0 && s[0] == c {
        strip_leading(s.drop_first(), c)
    } else {
        s
    }
}

/// `s` without every trailing `c` (`str::trim_end_matches` with a `char`).
pub open spec fn strip_trailing(s: Seq<char>, c: char) -> Seq<char>
    decreases s.len(),
{
    if s.len() > 0 && s.last() == c {
        strip_trailing(s.drop_last(), c)
    } else {
        s
    }
}

/// `p` occurs in `s` starting at index `i`.
pub open spec fn occurs_at(s: Seq<char>, p: Seq<char>, i: int) -> bool {
    0 <= i && i + p.len() <= s.len() && s.subrange(i, i + p.len()) == p
}

/// `p` occurs somewhere in `s` (`str::contains` with a string pattern).
pub open spec fn has_infix(s: Seq<char>, p: Seq<char>) -> bool {
    exists|i: int| occurs_at(s, p, i)
}

/// `s` ends with `p` (`str::ends_with`).
pub open spec fn has_suffix(s: Seq<char>, p: Seq<char>) -> bool {
    p.len() <= s.len() && s.subrange(s.len() - p.len(), s.len() as int) == p
}

/// The character of a decimal digit `d < 10`.
pub open spec fn digit_char(d: nat) -> char {
    ((d + 48) as u32) as char
}

/// Decimal digits of `n`, most significant first, without leading zeros
/// (`0` is written `"0"`).
pub open spec fn nat_decimal(n: nat) -> Seq<char>
    decreases n,
{
    if n < 10 {
        seq![digit_char(n)]
    } else {
        nat_decimal(n / 10).push(digit_char(n % 10))
    }
}

/// Decimal form of an integer as `Display` writes it: a `-` before the
/// digits of a negative number.
pub open spec fn int_decimal(n: int) -> Seq<char> {
    if n < 0 {
        seq!['-'].add(nat_decimal((-n) as nat))
    } else {
        nat_decimal(n as nat)
    }
}

// ── Building strings ────────────────────────────────────────────────────────

/// Appends one character to a `String` (`String::push`).
///
/// Trusted: the new contents are the old contents followed by `c`.
#[verifier::external_body]
pub(crate) fn push_char(s: &mut String, c: char)
    ensures
        final(s)@ == old(s)@.push(c),
{
    s.push(c);
}

/// The characters of `s`, in order.
pub fn chars_of(s: &str) -> (r: Vec<char>)
    ensures
        r@ == s@,
{
    let mut r: Vec<char> = Vec::new();
    for c in it: s.chars()
        invariant
            r@ == it.seq().take(it.index() as int),
            it.seq() == s@,
    {
        r.push(c);
    }
    r
}

/// A `String` made of the characters `v[start..end]`.
pub fn string_of_range(v: &Vec<char>, start: usize, end: usize) -> (r: String)
    requires
        start <= end <= v@.len(),
    ensures
        r@ == v@.subrange(start as int, end as int),
{
    let mut r = String::new();
    let mut i = start;
    while i < end
        invariant
            start <= i <= end <= v@.len(),
            r@ == v@.subrange(start as int, i as int),
        decreases end - i,
    {
        push_char(&mut r, v[i]);
        assert(v@.subrange(start as int, i + 1) == v@.subrange(start as int, i as int).push(v@[i as int]));
        i = i + 1;
    }
    r
}

/// A `String` made of the characters of `v`.
pub fn string_of(v: &Vec<char>) -> (r: String)
    ensures
        r@ == v@,
{
    let r = string_of_range(v, 0, v.len());
    assert(v@.subrange(0, v@.len() as int) == v@);
    r
}

/// Appends the characters of `t` to `s`.
pub fn push_str(s: &mut String, t: &str)
    ensures
        final(s)@ == old(s)@ + t@,
{
    let ghost s0 = s@;
    for c in it: t.chars()
        invariant
            it.seq() == t@,
            s@ == s0 + it.seq().take(it.index() as int),
    {
        assert(it.seq().take(it.index() + 1) == it.seq().take(it.index() as int).push(c));
        push_char(s, c);
    }
    assert(t@.take(t@.len() as int) == t@);
}

/// An owned copy of `s`.
pub fn owned(s: &str) -> (r: String)
    ensures
        r@ == s@,
{
    let mut r = String::new();
    push_str(&mut r, s);
    assert(Seq::<char>::empty() + s@ == s@);
    r
}

/// `a` followed by `b`, as a new `String`.
pub fn concat(a: &str, b: &str) -> (r: String)
    ensures
        r@ == a@ + b@,
{
    let mut r = String::new();
    push_str(&mut r, a);
    assert(Seq::<char>::empty() + a@ == a@);
    push_str(&mut r, b);
    r
}

// ── Case and whitespace ─────────────────────────────────────────────────────

/// ASCII lowercase of one character (`char::to_ascii_lowercase`).
pub fn to_lower_char(c: char) -> (r: char)
    ensures
        r == lower_char(c),
{
    if 'A' <= c && c <= 'Z' {
        let code: u8 = ((c as u32) + 32) as u8;
        code as char
    } else {
        c
    }
}

/// The ASCII lowercase form of `s` (`str::to_ascii_lowercase`).
pub fn ascii_lowercase(s: &str) -> (r: Vec<char>)
    ensures
        r@ == ascii_lower(s@),
{
    let mut r: Vec<char> = Vec::new();
    for c in it: s.chars()
        invariant
            it.seq() == s@,
            r@ == ascii_lower(it.seq().take(it.index() as int)),
    {
        let l = to_lower_char(c);
        r.push(l);
        assert(ascii_lower(it.seq().take(it.index() + 1)) == ascii_lower(
            it.seq().take(it.index() as int),
        ).push(l));
    }
    assert(s@.take(s@.len() as int) == s@);
    r
}

/// The ASCII lowercase form of `v[start..end]`, as a `String`.
pub fn lowercase_range(v: &Vec<char>, start: usize, end: usize) -> (r: String)
    requires
        start <= end <= v@.len(),
    ensures
        r@ == ascii_lower(v@.subrange(start as int, end as int)),
{
    let mut r = String::new();
    let mut i = start;
    while i < end
        invariant
            start <= i <= end <= v@.len(),
            r@ == ascii_lower(v@.subrange(start as int, i as int)),
        decreases end - i,
    {
        let l = to_lower_char(v[i]);
        push_char(&mut r, l);
        assert(v@.subrange(start as int, i + 1) == v@.subrange(start as int, i as int).push(
            v@[i as int],
        ));
        assert(ascii_lower(v@.subrange(start as int, i + 1)) == ascii_lower(
            v@.subrange(start as int, i as int),
        ).push(l));
        i = i + 1;
    }
    r
}

/// Whether `c` is Unicode whitespace (`char::is_whitespace`).
pub fn is_whitespace(c: char) -> (r: bool)
    ensures
        r == is_ws(c),
{
    ('\u{9}' <= c && c <= '\u{d}') || c == ' ' || c == '\u{85}' || c == '\u{a0}' || c
        == '\u{1680}' || ('\u{2000}' <= c && c <= '\u{200a}') || c == '\u{2028}' || c
        == '\u{2029}' || c == '\u{202f}' || c == '\u{205f}' || c == '\u{3000}'
}


/// Where the whitespace-trimmed part of `v` starts and ends: `trim_ws(v@)`
/// is `v@[start..end]`.
pub fn trim_bounds(v: &Vec<char>) -> (r: (usize, usize))
    ensures
        r.0 <= r.1 <= v@.len(),
        trim_ws(v@) == v@.subrange(r.0 as int, r.1 as int),
{
    let n = v.len();
    let mut start: usize = 0;
    while start < n && is_whitespace(v[start])
        invariant
            start <= n == v@.len(),
            forall|i: int| 0 <= i < start ==> is_ws(#[trigger] v@[i]),
        decreases n - start,
    {
        start = start + 1;
    }
    proof {
        lemma_trim_start(v@, start as int);
    }
    let mut end: usize = n;
    while end > start && is_whitespace(v[end - 1])
        invariant
            start <= end <= n == v@.len(),
            forall|i: int| end <= i < n ==> is_ws(#[trigger] v@[i]),
        decreases end,
    {
        end = end - 1;
    }
    proof {
        let t = v@.subrange(start as int, n as int);
        assert forall|i: int| (end - start) <= i < t.len() implies is_ws(#[trigger] t[i]) by {
            assert(t[i] == v@[i + start]);
        }
        lemma_trim_end(t, end - start);
        assert(t.subrange(0, end - start) == v@.subrange(start as int, end as int));
    }
    (start, end)
}

/// `trim_start_ws` drops exactly the leading whitespace run `s[..k]`.
proof fn lemma_trim_start(s: Seq<char>, k: int)
    requires
        0 <= k <= s.len(),
        forall|i: int| 0 <= i < k ==> is_ws(#[trigger] s[i]),
        k == s.len() || !is_ws(s[k]),
    ensures
        trim_start_ws(s) == s.subrange(k, s.len() as int),
    decreases k,
{
    if k == 0 {
        assert(s.subrange(0, s.len() as int) == s);
    } else {
        let t = s.drop_first();
        assert forall|i: int| 0 <= i < k - 1 implies is_ws(#[trigger] t[i]) by {
            assert(t[i] == s[i + 1]);
        }
        lemma_trim_start(t, k - 1);
        assert(t.subrange(k - 1, t.len() as int) == s.subrange(k, s.len() as int));
    }
}

/// `trim_end_ws` drops exactly the trailing whitespace run `s[k..]`.
proof fn lemma_trim_end(s: Seq<char>, k: int)
    requires
        0 <= k <= s.len(),
        forall|i: int| k <= i < s.len() ==> is_ws(#[trigger] s[i]),
        k == 0 || !is_ws(s[k - 1]),
    ensures
        trim_end_ws(s) == s.subrange(0, k),
    decreases s.len() - k,
{
    if k == s.len() {
        assert(s.subrange(0, s.len() as int) == s);
    } else {
        let t = s.drop_last();
        assert forall|i: int| k <= i < t.len() implies is_ws(#[trigger] t[i]) by {
            assert(t[i] == s[i]);
        }
        lemma_trim_end(t, k);
        assert(t.subrange(0, k) == s.subrange(0, k));
    }
}

/// Index of the first character of `s` that is not `c`: `s[..k]` is all `c`.
proof fn lemma_strip_leading(s: Seq<char>, c: char, k: int)
    requires
        0 <= k <= s.len(),
        forall|i: int| 0 <= i < k ==> #[trigger] s[i] == c,
        k == s.len() || s[k] != c,
    ensures
        strip_leading(s, c) == s.subrange(k, s.len() as int),
    decreases k,
{
    if k == 0 {
        assert(s.subrange(0, s.len() as int) == s);
    } else {
        let t = s.drop_first();
        assert forall|i: int| 0 <= i < k - 1 implies #[trigger] t[i] == c by {
            assert(t[i] == s[i + 1]);
        }
        lemma_strip_leading(t, c, k - 1);
        assert(t.subrange(k - 1, t.len() as int) == s.subrange(k, s.len() as int));
    }
}

/// `strip_trailing` drops exactly the trailing run `s[k..]` of `c`.
proof fn lemma_strip_trailing(s: Seq<char>, c: char, k: int)
    requires
        0 <= k <= s.len(),
        forall|i: int| k <= i < s.len() ==> #[trigger] s[i] == c,
        k == 0 || s[k - 1] != c,
    ensures
        strip_trailing(s, c) == s.subrange(0, k),
    decreases s.len() - k,
{
    if k == s.len() {
        assert(s.subrange(0, s.len() as int) == s);
    } else {
        let t = s.drop_last();
        assert forall|i: int| k <= i < t.len() implies #[trigger] t[i] == c by {
            assert(t[i] == s[i]);
        }
        lemma_strip_trailing(t, c, k);
        assert(t.subrange(0, k) == s.subrange(0, k));
    }
}

/// `s` without its leading `c` characters (`str::trim_start_matches(c)`).
pub fn strip_leading_char(s: &str, c: char) -> (r: String)
    ensures
        r@ == strip_leading(s@, c),
{
    let v = chars_of(s);
    let n = v.len();
    let mut k: usize = 0;
    while k < n && v[k] == c
        invariant
            k <= n == v@.len(),
            forall|i: int| 0 <= i < k ==> #[trigger] v@[i] == c,
        decreases n - k,
    {
        k = k + 1;
    }
    proof {
        lemma_strip_leading(v@, c, k as int);
    }
    string_of_range(&v, k, n)
}

/// `s` without its trailing `c` characters (`str::trim_end_matches(c)`).
pub fn strip_trailing_char(s: &str, c: char) -> (r: String)
    ensures
        r@ == strip_trailing(s@, c),
{
    let v = chars_of(s);
    let mut k: usize = v.len();
    while k > 0 && v[k - 1] == c
        invariant
            k <= v@.len(),
            forall|i: int| k <= i < v@.len() ==> #[trigger] v@[i] == c,
        decreases k,
    {
        k = k - 1;
    }
    proof {
        lemma_strip_trailing(v@, c, k as int);
    }
    string_of_range(&v, 0, k)
}

// ── Searching ───────────────────────────────────────────────────────────────

/// Whether `p` occurs in `s` at index `i`.
pub fn matches_at(s: &Vec<char>, p: &Vec<char>, i: usize) -> (r: bool)
    ensures
        r == occurs_at(s@, p@, i as int),
{
    if i > s.len() || p.len() > s.len() - i {
        return false;
    }
    let mut j: usize = 0;
    while j < p.len()
        invariant
            i + p@.len() <= s@.len(),
            s@.len() == s.len(),
            j <= p@.len(),
            forall|k: int| 0 <= k < j ==> s@[i + k] == #[trigger] p@[k],
        decreases p@.len() - j,
    {
        if s[i + j] != p[j] {
            assert(s@.subrange(i as int, i + p@.len())[j as int] != p@[j as int]);
            return false;
        }
        j = j + 1;
    }
    assert(s@.subrange(i as int, i + p@.len()) =~= p@);
    true
}

/// Whether `p` occurs anywhere in `s`.
pub fn contains_chars(s: &Vec<char>, p: &Vec<char>) -> (r: bool)
    ensures
        r == has_infix(s@, p@),
{
    if p.len() > s.len() {
        return false;
    }
    let last = s.len() - p.len();
    let mut i: usize = 0;
    while i < last
        invariant
            i <= last,
            last + p@.len() == s@.len(),
            forall|k: int| 0 <= k < i ==> !occurs_at(s@, p@, k),
        decreases last - i,
    {
        if matches_at(s, p, i) {
            return true;
        }
        i = i + 1;
    }
    if matches_at(s, p, last) {
        return true;
    }
    assert forall|k: int| !occurs_at(s@, p@, k) by {
        if 0 <= k < i {
        }
    }
    false
}

/// Whether `s` ends with `p`.
pub fn ends_with_chars(s: &Vec<char>, p: &Vec<char>) -> (r: bool)
    ensures
        r == has_suffix(s@, p@),
{
    if p.len() > s.len() {
        return false;
    }
    let start = s.len() - p.len();
    let r = matches_at(s, p, start);
    assert(start + p@.len() == s@.len());
    r
}

// ── Numbers ─────────────────────────────────────────────────────────────────

/// The character of the decimal digit `d`.
fn digit(d: u64) -> (r: char)
    requires
        d < 10,
    ensures
        r == digit_char(d as nat),
{
    let b: u8 = (d as u8) + 48;
    b as char
}

/// Appends the decimal digits of `n` to `s`.
pub fn push_decimal(s: &mut String, n: u64)
    ensures
        final(s)@ == old(s)@ + nat_decimal(n as nat),
    decreases n,
{
    if n < 10 {
        push_char(s, digit(n));
    } else {
        push_decimal(s, n / 10);
        push_char(s, digit(n % 10));
        assert(old(s)@ + nat_decimal(n as nat) == old(s)@ + nat_decimal((n / 10) as nat) + seq![
            digit_char((n % 10) as nat),
        ]);
    }
}

/// Appends the decimal form of `n` to `s`, as `Display` writes it.
pub fn push_int_decimal(s: &mut String, n: i64)
    ensures
        final(s)@ == old(s)@ + int_decimal(n as int),
{
    if n < 0 {
        push_char(s, '-');
        let m: u64 = if n == i64::MIN {
            9223372036854775808u64
        } else {
            (-n) as u64
        };
        push_decimal(s, m);
        assert(old(s)@.push('-') + nat_decimal(m as nat) == old(s)@ + (seq!['-'] + nat_decimal(
            m as nat,
        )));
    } else {
        push_decimal(s, n as u64);
    }
}

/// The decimal form of `n` (`i64::to_string`).
pub fn int_to_string(n: i64) -> (r: String)
    ensures
        r@ == int_decimal(n as int),
{
    let mut r = String::new();
    push_int_decimal(&mut r, n);
    assert(Seq::<char>::empty() + int_decimal(n as int) == int_decimal(n as int));
    r
}

} // verus!
