//! Character-level helpers: decimal and hexadecimal rendering of numbers,
//! prefix and substring tests, and case folding of filter strings.

use vstd::prelude::*;

verus! {

/// The ASCII character of a decimal or hexadecimal digit (lowercase letters).
pub open spec fn digit_char(d: int) -> char {
    if d < 10 {
        (d + 48) as char
    } else {
        (d + 87) as char
    }
}

/// The decimal rendering of `n`, without leading zeros (`0` is `"0"`).
pub open spec fn decimal(n: nat) -> Seq<char>
    decreases n,
{
    if n < 10 {
        seq![digit_char(n as int)]
    } else {
        decimal(n / 10).push(digit_char((n % 10) as int))
    }
}

/// The two-digit lowercase hexadecimal rendering of a byte (as `{:02x}` prints it).
pub open spec fn hex2(b: u8) -> Seq<char> {
    seq![digit_char(b as int / 16), digit_char(b as int % 16)]
}

/// Appends one character to a string.
#[verifier::external_body]
pub(crate) fn push_char(s: &mut String, c: char)
    ensures
        final(s)@ == old(s)@.push(c),
{
    s.push(c);
}

/// The character of the digit `d`, for `d < 16`.
fn digit(d: u8) -> (c: char)
    requires
        d < 16,
    ensures
        c == digit_char(d as int),
{
    if d < 10 {
        (d + 48) as char
    } else {
        (d + 87) as char
    }
}

/// Appends the decimal rendering of `n` to `s`.
pub fn push_decimal(s: &mut String, n: u16)
    ensures
        final(s)@ == old(s)@ + decimal(n as nat),
    decreases n,
{
    if n >= 10 {
        push_decimal(s, n / 10);
    }
    push_char(s, digit((n % 10) as u8));
    assert(n < 10 ==> decimal(n as nat) == seq![digit_char(n as int)]);
}


/// Appends the two-digit lowercase hexadecimal rendering of `b` to `s`.
pub fn push_hex2(s: &mut String, b: u8)
    ensures
        final(s)@ == old(s)@ + hex2(b),
{
    push_char(s, digit(b / 16));
    push_char(s, digit(b % 16));
    assert(final(s)@ =~= old(s)@ + hex2(b)) by {
        assert(s@ =~= old(s)@ + hex2(b));
    }
}

/// `p` is a prefix of `s`.
pub open spec fn has_prefix(s: Seq<char>, p: Seq<char>) -> bool {
    p.is_prefix_of(s)
}

/// `needle` occurs in `hay` as a contiguous run (the empty string occurs everywhere).
pub open spec fn has_substring(hay: Seq<char>, needle: Seq<char>) -> bool {
    exists|i: int|
        0 <= i && i + needle.len() <= hay.len() && #[trigger] hay.subrange(i, i + needle.len())
            == needle
}

/// Whether `p` is a prefix of `s`, compared character by character.
pub fn starts_with(s: &str, p: &str) -> (res: bool)
    ensures
        res == has_prefix(s@, p@),
{
    let n = s.unicode_len();
    let m = p.unicode_len();
    if m > n {
        return false;
    }
    let mut i: usize = 0;
    while i < m
        invariant
            n == s@.len(),
            m == p@.len(),
            m <= n,
            i <= m,
            forall|k: int| 0 <= k < i ==> s@[k] == p@[k],
        decreases m - i,
    {
        if s.get_char(i) != p.get_char(i) {
            assert(s@.subrange(0, m as int)[i as int] != p@[i as int]);
            return false;
        }
        i = i + 1;
    }
    assert(p@ =~= s@.subrange(0, m as int));
    true
}

/// Whether `needle` matches `hay` at position `at`.
fn matches_at(hay: &str, needle: &str, at: usize) -> (res: bool)
    requires
        at + needle@.len() <= hay@.len(),
    ensures
        res == (hay@.subrange(at as int, at + needle@.len()) == needle@),
{
    let n = hay.unicode_len();
    let m = needle.unicode_len();
    let mut i: usize = 0;
    while i < m
        invariant
            n == hay@.len(),
            m == needle@.len(),
            at + m <= hay@.len(),
            i <= m,
            forall|k: int| 0 <= k < i ==> hay@[at + k] == needle@[k],
        decreases m - i,
    {
        if hay.get_char(at + i) != needle.get_char(i) {
            assert(hay@.subrange(at as int, at + m)[i as int] != needle@[i as int]);
            return false;
        }
        i = i + 1;
    }
    assert(hay@.subrange(at as int, at + m) =~= needle@);
    true
}

/// Whether `needle` occurs in `hay` (as `str::contains` with a string pattern).
pub fn contains(hay: &str, needle: &str) -> (res: bool)
    ensures
        res == has_substring(hay@, needle@),
{
    let n = hay.unicode_len();
    let m = needle.unicode_len();
    if m > n {
        return false;
    }
    let mut at: usize = 0;
    loop
        invariant
            n == hay@.len(),
            m == needle@.len(),
            m <= n,
            at <= n - m,
            forall|k: int| 0 <= k < at ==> #[trigger] hay@.subrange(k, k + m) != needle@,
        decreases n - m - at,
    {
        if matches_at(hay, needle, at) {
            return true;
        }
        if at == n - m {
            return false;
        }
        at = at + 1;
    }
}

/// What `str::to_uppercase` returns for a string: its Unicode uppercase mapping.
pub uninterp spec fn uppercase(s: Seq<char>) -> Seq<char>;

/// Every character is ASCII.
pub open spec fn is_ascii_text(s: Seq<char>) -> bool {
    forall|i: int| 0 <= i < s.len() ==> (s[i] as int) < 128
}

/// The ASCII upper case of a character: `a`..`z` become `A`..`Z`, all else stays.
pub open spec fn ascii_upper_char(c: char) -> char {
    if 'a' <= c && c <= 'z' {
        ((c as int) - 32) as char
    } else {
        c
    }
}

/// The ASCII upper case of a string, character by character.
pub open spec fn ascii_upper(s: Seq<char>) -> Seq<char> {
    s.map_values(|c: char| ascii_upper_char(c))
}

/// `str::to_uppercase`: the Unicode uppercase of `s`, a function of `s` alone.
/// On ASCII text the Unicode mapping is the ASCII one (letters `a`..`z` to
/// `A`..`Z`, every other ASCII character unchanged); of other text only the name
/// is stated.
#[verifier::external_body]
pub(crate) fn to_uppercase(s: &str) -> (res: String)
    ensures
        res@ == uppercase(s@),
        is_ascii_text(s@) ==> res@ == ascii_upper(s@),
{
    s.to_uppercase()
}

/// `name`, case-folded, starts with `filter`, case-folded: how a protocol filter
/// matches. Case folding is Unicode upper case, which on ASCII text is the ASCII one.
pub open spec fn name_matches(name: Seq<char>, filter: Seq<char>) -> bool {
    if is_ascii_text(name) && is_ascii_text(filter) {
        has_prefix(ascii_upper(name), ascii_upper(filter))
    } else {
        has_prefix(uppercase(name), uppercase(filter))
    }
}

/// Whether the case-folded `name` starts with the case-folded `filter`.
pub fn name_starts_with(name: &str, filter: &str) -> (res: bool)
    ensures
        res == name_matches(name@, filter@),
{
    let a = to_uppercase(name);
    let b = to_uppercase(filter);
    starts_with(a.as_str(), b.as_str())
}

/// Filters ignore case: on ASCII text, a filter matches a name exactly when its
/// ASCII upper case starts the name's ASCII upper case.
pub proof fn law_filter_ignores_ascii_case(name: Seq<char>, filter: Seq<char>)
    requires
        is_ascii_text(name),
        is_ascii_text(filter),
    ensures
        name_matches(name, filter) == has_prefix(ascii_upper(name), ascii_upper(filter)),
{
}


} // verus!
