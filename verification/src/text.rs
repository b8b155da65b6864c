//! Small text utilities shared by the library: building strings one
//! character at a time, decimal and hexadecimal rendering of integers,
//! and whitespace trimming.

use vstd::prelude::*;

verus! {

/// The character that renders digit `d` (0..=15) in base 10 or 16,
/// lower-case letters above 9.
pub open spec fn digit_char(d: nat) -> char {
    if d < 10 {
        (48 + d) as char
    } else {
        (87 + d) as char
    }
}

/// The digits of `n` in base `radix`, most significant first, without
/// leading zeros (`0` renders as a single `0`).
pub open spec fn radix_digits(n: nat, radix: nat) -> Seq<char>
    recommends
        2 <= radix <= 16,
    decreases n,
{
    if n < radix || radix < 2 {
        seq![digit_char(n)]
    } else {
        proof {
            assert(n / radix < n) by (nonlinear_arith)
                requires
                    n >= radix,
                    radix >= 2,
            ;
        }
        radix_digits(n / radix, radix).push(digit_char(n % radix))
    }
}

/// Two decimal digits of `n` (which is below 100), zero padded.
pub open spec fn two_digits(n: nat) -> Seq<char> {
    seq![digit_char(n / 10), digit_char(n % 10)]
}

/// The character contents of a sequence of strings.
pub open spec fn strings_view(v: Seq<String>) -> Seq<Seq<char>> {
    v.map_values(|s: String| s@)
}

/// Appends one character to a string.
/// Calls `String::push`, which std documents as appending the given char
/// to the end of the string.
#[verifier::external_body]
pub(crate) fn push_char(s: &mut String, c: char)
    ensures
        final(s)@ == old(s)@.push(c),
{
    s.push(c)
}

/// The character for digit `d`.
pub fn digit_to_char(d: u64) -> (c: char)
    requires
        d < 16,
    ensures
        c == digit_char(d as nat),
{
    let b: u8 = if d < 10 {
        48u8 + (d as u8)
    } else {
        87u8 + (d as u8)
    };
    b as char
}

/// Appends the digits of `n` in base `radix` to `s`.
pub fn push_radix(s: &mut String, n: u64, radix: u64)
    requires
        2 <= radix <= 16,
    ensures
        final(s)@ == old(s)@ + radix_digits(n as nat, radix as nat),
    decreases n,
{
    if n >= radix {
        assert(n / radix < n) by (nonlinear_arith)
            requires
                n >= radix,
                radix >= 2,
        ;
        push_radix(s, n / radix, radix);
    }
    let ghost mid = s@;
    if n < radix {
        assert(n % radix == n) by (nonlinear_arith)
            requires
                n < radix,
        ;
    }
    let c = digit_to_char(n % radix);
    push_char(s, c);
    assert(s@ == mid.push(c));
    assert(s@ =~= old(s)@ + radix_digits(n as nat, radix as nat));
}

/// Appends the two-digit, zero-padded decimal rendering of `n` to `s`.
pub fn push_two_digits(s: &mut String, n: u64)
    requires
        n < 100,
    ensures
        final(s)@ == old(s)@ + two_digits(n as nat),
{
    push_char(s, digit_to_char(n / 10));
    push_char(s, digit_to_char(n % 10));
    assert(final(s)@ =~= old(s)@ + two_digits(n as nat));
}

/// Whether two texts hold the same characters.
pub fn text_eq(a: &str, b: &str) -> (same: bool)
    ensures
        same == (a@ == b@),
{
    let x = chars_of(a);
    let y = chars_of(b);
    if x.len() != y.len() {
        return false;
    }
    let n = x.len();
    let mut i: usize = 0;
    while i < n
        invariant
            x@ == a@,
            y@ == b@,
            n == x@.len(),
            n == y@.len(),
            i <= n,
            forall|k: int| 0 <= k < i ==> x@[k] == y@[k],
        decreases n - i,
    {
        if x[i] != y[i] {
            return false;
        }
        i = i + 1;
    }
    assert(a@ =~= b@);
    true
}

/// Whether `c` has the Unicode `White_Space` property, the whitespace that
/// `char::is_whitespace` and `str::trim` go by.
pub open spec fn is_unicode_space(c: char) -> bool {
    ||| ('\u{9}' <= c && c <= '\u{d}')
    ||| c == ' '
    ||| c == '\u{85}'
    ||| c == '\u{a0}'
    ||| c == '\u{1680}'
    ||| ('\u{2000}' <= c && c <= '\u{200a}')
    ||| c == '\u{2028}'
    ||| c == '\u{2029}'
    ||| c == '\u{202f}'
    ||| c == '\u{205f}'
    ||| c == '\u{3000}'
}

/// Whether `c` is Unicode whitespace.
pub fn is_space_char(c: char) -> (space: bool)
    ensures
        space == is_unicode_space(c),
{
    ('\u{9}' <= c && c <= '\u{d}') || c == ' ' || c == '\u{85}' || c == '\u{a0}' || c == '\u{1680}'
        || ('\u{2000}' <= c && c <= '\u{200a}') || c == '\u{2028}' || c == '\u{2029}'
        || c == '\u{202f}' || c == '\u{205f}' || c == '\u{3000}'
}

/// `s` without its leading whitespace.
pub open spec fn trim_front(s: Seq<char>) -> Seq<char>
    decreases s.len(),
{
    if s.len() > 0 && is_unicode_space(s[0]) {
        trim_front(s.drop_first())
    } else {
        s
    }
}

/// `s` without its trailing whitespace.
pub open spec fn trim_back(s: Seq<char>) -> Seq<char>
    decreases s.len(),
{
    if s.len() > 0 && is_unicode_space(s.last()) {
        trim_back(s.drop_last())
    } else {
        s
    }
}

/// `s` without its leading and trailing whitespace.
pub open spec fn spec_trim(s: Seq<char>) -> Seq<char> {
    trim_back(trim_front(s))
}

/// The characters of a string, in order.
pub fn chars_of(s: &str) -> (chars: Vec<char>)
    ensures
        chars@ == s@,
{
    let mut chars: Vec<char> = Vec::new();
    let ghost text = s@;
    for c in it: s.chars()
        invariant
            text == s@,
            it.seq() == text,
            chars@ == text.take(it.index()),
    {
        chars.push(c);
        assert(chars@ =~= text.take(it.index() + 1));
    }
    assert(text.take(text.len() as int) =~= text);
    chars
}

/// A copy of `s` without its leading and trailing whitespace, as
/// `str::trim` gives it.
pub fn trim_text(s: &str) -> (trimmed: String)
    ensures
        trimmed@ == spec_trim(s@),
{
    let chars = chars_of(s);
    let n = chars.len();
    let mut start: usize = 0;
    proof {
        assert(s@.skip(0) =~= s@);
    }
    while start < n && is_space_char(chars[start])
        invariant
            chars@ == s@,
            n == chars@.len(),
            start <= n,
            trim_front(s@) == trim_front(s@.skip(start as int)),
        decreases n - start,
    {
        assert(s@.skip(start as int).drop_first() =~= s@.skip(start + 1));
        start = start + 1;
    }
    let ghost front = s@.skip(start as int);
    proof {
        if start < n {
            assert(front[0] == chars@[start as int]);
        }
        assert(trim_front(s@) == front);
    }
    let mut end: usize = n;
    proof {
        assert(s@.subrange(start as int, n as int) =~= front);
    }
    while end > start && is_space_char(chars[end - 1])
        invariant
            chars@ == s@,
            n == chars@.len(),
            start <= end <= n,
            trim_back(front) == trim_back(s@.subrange(start as int, end as int)),
        decreases end - start,
    {
        assert(s@.subrange(start as int, end as int).drop_last() =~= s@.subrange(start as int, end - 1));
        end = end - 1;
    }
    proof {
        let mid = s@.subrange(start as int, end as int);
        if end > start {
            assert(mid.last() == chars@[end - 1]);
        }
        assert(trim_back(mid) == mid);
    }
    let mut trimmed = String::new();
    let mut k: usize = start;
    while k < end
        invariant
            chars@ == s@,
            n == chars@.len(),
            start <= k <= end <= n,
            trimmed@ == s@.subrange(start as int, k as int),
        decreases end - k,
    {
        push_char(&mut trimmed, chars[k]);
        assert(trimmed@ =~= s@.subrange(start as int, k + 1));
        k = k + 1;
    }
    trimmed
}

} // verus!
