//! Character-level helpers shared by the pattern parsers and printers:
//! searching, splitting, trimming, and decimal numbers in the syntax of
//! Rust's `FromStr` for unsigned integers.

use vstd::prelude::*;

verus! {

/// `Some(i)` as an integer index.
pub open spec fn opt_index(o: Option<usize>) -> Option<int> {
    match o {
        Some(i) => Some(i as int),
        None => None,
    }
}

/// Index of the first `c` in `s` at or after `from`.
pub open spec fn find_char_from(s: Seq<char>, c: char, from: int) -> Option<int>
    decreases s.len() - from,
{
    if from < 0 || from >= s.len() {
        None
    } else if s[from] == c {
        Some(from)
    } else {
        find_char_from(s, c, from + 1)
    }
}

/// Index of the first `c` in `s` (`str::find` with a `char`).
pub open spec fn find_char(s: Seq<char>, c: char) -> Option<int> {
    find_char_from(s, c, 0)
}

/// Index of the first occurrence of the two-character string `a b` in `s`,
/// at or after `from`.
pub open spec fn find_pair_from(s: Seq<char>, a: char, b: char, from: int) -> Option<int>
    decreases s.len() - from,
{
    if from < 0 || from + 1 >= s.len() {
        None
    } else if s[from] == a && s[from + 1] == b {
        Some(from)
    } else {
        find_pair_from(s, a, b, from + 1)
    }
}

/// Index of the first occurrence of `a b` in `s` (`str::find` with a two-character `&str`).
pub open spec fn find_pair(s: Seq<char>, a: char, b: char) -> Option<int> {
    find_pair_from(s, a, b, 0)
}

/// Index of the last `c` in `s` (`str::rfind` with a `char`).
pub open spec fn rfind_char(s: Seq<char>, c: char) -> Option<int>
    decreases s.len(),
{
    if s.len() == 0 {
        None
    } else if s.last() == c {
        Some(s.len() - 1)
    } else {
        rfind_char(s.drop_last(), c)
    }
}

/// The one-character sequence `c` when `b` holds, else nothing.
pub open spec fn flag_char_if(c: char, b: bool) -> Seq<char> {
    if b {
        seq![c]
    } else {
        Seq::empty()
    }
}

/// `s` contains the character `c`.
pub open spec fn has_char(s: Seq<char>, c: char) -> bool {
    exists|i: int| 0 <= i < s.len() && s[i] == c
}

pub proof fn lemma_find_char_from_some(s: Seq<char>, c: char, from: int)
    ensures
        find_char_from(s, c, from) matches Some(i) ==> from <= i < s.len() && s[i] == c
            && forall|j: int| from <= j < i ==> s[j] != c,
        find_char_from(s, c, from) is None && 0 <= from ==> forall|j: int|
            from <= j < s.len() ==> s[j] != c,
    decreases s.len() - from,
{
    if from < 0 || from >= s.len() {
    } else if s[from] == c {
    } else {
        lemma_find_char_from_some(s, c, from + 1);
    }
}

pub proof fn lemma_find_pair_from_some(s: Seq<char>, a: char, b: char, from: int)
    ensures
        find_pair_from(s, a, b, from) matches Some(i) ==> from <= i && i + 1 < s.len() && s[i]
            == a && s[i + 1] == b && forall|j: int|
            #![trigger s[j]] from <= j < i ==> !(s[j] == a && s[j + 1] == b),
        find_pair_from(s, a, b, from) is None && 0 <= from ==> forall|j: int|
            #![trigger s[j]] from <= j && j + 1 < s.len() ==> !(s[j] == a && s[j + 1] == b),
    decreases s.len() - from,
{
    if from < 0 || from + 1 >= s.len() {
    } else if s[from] == a && s[from + 1] == b {
    } else {
        lemma_find_pair_from_some(s, a, b, from + 1);
    }
}

pub proof fn lemma_rfind_char(s: Seq<char>, c: char)
    ensures
        rfind_char(s, c) matches Some(i) ==> 0 <= i < s.len() && s[i] == c && forall|j: int|
            i < j < s.len() ==> s[j] != c,
        rfind_char(s, c) is None ==> forall|j: int| 0 <= j < s.len() ==> s[j] != c,
    decreases s.len(),
{
    if s.len() == 0 {
    } else if s.last() == c {
    } else {
        lemma_rfind_char(s.drop_last(), c);
        assert forall|j: int| 0 <= j < s.len() - 1 implies s.drop_last()[j] == s[j] by {}
    }
}

/// The characters of `s` as a vector.
pub fn chars_of(s: &str) -> (v: Vec<char>)
    ensures
        v@ == s@,
{
    let n = s.unicode_len();
    let mut v: Vec<char> = Vec::new();
    let mut i: usize = 0;
    while i < n
        invariant
            n == s@.len(),
            i <= n,
            v@ == s@.subrange(0, i as int),
        decreases n - i,
    {
        v.push(s.get_char(i));
        i = i + 1;
    }
    assert(v@ == s@);
    v
}

/// The characters `s[lo..hi]` as a new vector.
pub fn sub_chars(s: &Vec<char>, lo: usize, hi: usize) -> (v: Vec<char>)
    requires
        lo <= hi <= s.len(),
    ensures
        v@ == s@.subrange(lo as int, hi as int),
{
    let mut v: Vec<char> = Vec::new();
    let mut i: usize = lo;
    while i < hi
        invariant
            lo <= i <= hi <= s.len(),
            v@ == s@.subrange(lo as int, i as int),
        decreases hi - i,
    {
        v.push(s[i]);
        i = i + 1;
    }
    v
}

/// The string made of the characters `s[lo..hi]`.
pub fn string_of(s: &Vec<char>, lo: usize, hi: usize) -> (r: String)
    requires
        lo <= hi <= s.len(),
    ensures
        r@ == s@.subrange(lo as int, hi as int),
{
    let mut r = String::new();
    let mut i: usize = lo;
    while i < hi
        invariant
            lo <= i <= hi <= s.len(),
            r@ == s@.subrange(lo as int, i as int),
        decreases hi - i,
    {
        push_char(&mut r, s[i]);
        i = i + 1;
    }
    r
}

/// `String::push`: appends one character to a string; the contract says
/// that the string's characters gain `c` at the end, as std documents.
#[verifier::external_body]
pub(crate) fn push_char(s: &mut String, c: char)
    ensures
        final(s)@ == old(s)@.push(c),
{
    s.push(c);
}

/// `v` when `b` holds, else 0.
pub fn bit_if(b: bool, v: u32) -> (r: u32)
    ensures
        r == (if b { v } else { 0 }),
{
    if b {
        v
    } else {
        0
    }
}

/// Appends `c` to `s` when `b` holds.
pub fn push_char_if(s: &mut String, c: char, b: bool)
    ensures
        final(s)@ == old(s)@ + flag_char_if(c, b),
{
    if b {
        push_char(s, c);
    }
    assert(final(s)@ =~= old(s)@ + flag_char_if(c, b));
}

/// First index of `c` in `s` at or after `from`.
pub fn find_char_in(s: &Vec<char>, c: char, from: usize) -> (r: Option<usize>)
    requires
        from <= s.len(),
    ensures
        opt_index(r) == find_char_from(s@, c, from as int),
{
    let mut i = from;
    while i < s.len()
        invariant
            from <= i <= s.len(),
            find_char_from(s@, c, from as int) == find_char_from(s@, c, i as int),
        decreases s.len() - i,
    {
        if s[i] == c {
            return Some(i);
        }
        i = i + 1;
    }
    None
}

/// First index of `c` in `s[lo..hi]`, relative to `lo`.
pub fn find_char_range(s: &Vec<char>, c: char, lo: usize, hi: usize) -> (r: Option<usize>)
    requires
        lo <= hi <= s.len(),
    ensures
        opt_index(r) == find_char(s@.subrange(lo as int, hi as int), c),
{
    let ghost t = s@.subrange(lo as int, hi as int);
    let mut i = lo;
    while i < hi
        invariant
            lo <= i <= hi <= s.len(),
            t == s@.subrange(lo as int, hi as int),
            find_char(t, c) == find_char_from(t, c, i - lo),
        decreases hi - i,
    {
        if s[i] == c {
            return Some(i - lo);
        }
        i = i + 1;
    }
    None
}

/// `s[lo..hi]` is the text of `key`.
pub fn eq_chars(s: &Vec<char>, lo: usize, hi: usize, key: &str) -> (r: bool)
    requires
        lo <= hi <= s.len(),
    ensures
        r == (s@.subrange(lo as int, hi as int) == key@),
{
    let n = key.unicode_len();
    if hi - lo != n {
        assert(s@.subrange(lo as int, hi as int).len() != key@.len());
        return false;
    }
    let mut i: usize = 0;
    while i < n
        invariant
            n == key@.len(),
            hi - lo == n,
            lo <= hi <= s.len(),
            i <= n,
            forall|j: int| 0 <= j < i ==> s@[lo + j] == key@[j],
        decreases n - i,
    {
        if s[lo + i] != key.get_char(i) {
            assert(s@.subrange(lo as int, hi as int)[i as int] != key@[i as int]);
            return false;
        }
        i = i + 1;
    }
    assert(s@.subrange(lo as int, hi as int) =~= key@);
    true
}

/// Skipping characters that are not `c` does not change where `c` is found.
pub proof fn lemma_find_char_from_skip(s: Seq<char>, c: char, from: int, to: int)
    requires
        0 <= from <= to <= s.len(),
        forall|j: int| from <= j < to ==> s[j] != c,
    ensures
        find_char_from(s, c, from) == find_char_from(s, c, to),
    decreases to - from,
{
    if from < to {
        lemma_find_char_from_skip(s, c, from + 1, to);
    }
}

/// In `a c b` where `a` has no `c`, the first `c` is right after `a`.
pub proof fn lemma_find_char_after(a: Seq<char>, c: char, b: Seq<char>)
    requires
        !has_char(a, c),
    ensures
        find_char(a + seq![c] + b, c) == Some(a.len() as int),
{
    let s = a + seq![c] + b;
    assert forall|j: int| 0 <= j < a.len() implies s[j] != c by {
        assert(s[j] == a[j]);
    }
    lemma_find_char_from_skip(s, c, 0, a.len() as int);
    assert(s[a.len() as int] == c);
}

/// A string without `c` has no first `c`.
pub proof fn lemma_find_char_none(a: Seq<char>, c: char)
    requires
        !has_char(a, c),
    ensures
        find_char(a, c) is None,
{
    lemma_find_char_from_skip(a, c, 0, a.len() as int);
}

/// First index of the two characters `a b` in `s`.
pub fn find_pair_in(s: &Vec<char>, a: char, b: char) -> (r: Option<usize>)
    ensures
        opt_index(r) == find_pair(s@, a, b),
{
    let mut i: usize = 0;
    while i < s.len() && i + 1 < s.len()
        invariant
            i <= s.len(),
            find_pair(s@, a, b) == find_pair_from(s@, a, b, i as int),
        decreases s.len() - i,
    {
        if s[i] == a && s[i + 1] == b {
            return Some(i);
        }
        i = i + 1;
    }
    None
}

/// Last index of `c` in `s[lo..hi]`, relative to `lo`.
pub fn rfind_char_in(s: &Vec<char>, c: char, lo: usize, hi: usize) -> (r: Option<usize>)
    requires
        lo <= hi <= s.len(),
    ensures
        opt_index(r) == rfind_char(s@.subrange(lo as int, hi as int), c),
{
    let mut j = hi;
    while j > lo
        invariant
            lo <= j <= hi <= s.len(),
            rfind_char(s@.subrange(lo as int, hi as int), c) == rfind_char(
                s@.subrange(lo as int, j as int),
                c,
            ),
        decreases j - lo,
    {
        let ghost t = s@.subrange(lo as int, j as int);
        assert(t.drop_last() == s@.subrange(lo as int, j - 1));
        if s[j - 1] == c {
            return Some(j - 1 - lo);
        }
        j = j - 1;
    }
    None
}

// ---------------------------------------------------------------------------
// Unsigned decimal numbers
// ---------------------------------------------------------------------------

/// Why a decimal number was refused (the kinds of `std::num::ParseIntError`
/// that an unsigned parse can give).
#[derive(Clone, Copy, Debug, PartialEq, Eq, Structural)]
pub enum IntErrorKind {
    /// The string was empty.
    Empty,
    /// A character that is not a digit.
    InvalidDigit,
    /// The number is larger than the target type can hold.
    PosOverflow,
}

pub open spec fn is_digit(c: char) -> bool {
    '0' <= c && c <= '9'
}

pub open spec fn digit_value(c: char) -> int {
    (c as int) - ('0' as int)
}

/// Left-to-right accumulation of a digit string, refusing at the first
/// character that is not a digit or that makes the value exceed `max`.
pub open spec fn digits_value(s: Seq<char>, max: int) -> Result<int, IntErrorKind>
    decreases s.len(),
{
    if s.len() == 0 {
        Ok(0)
    } else {
        match digits_value(s.drop_last(), max) {
            Err(e) => Err(e),
            Ok(v) => if !is_digit(s.last()) {
                Err(IntErrorKind::InvalidDigit)
            } else if v * 10 + digit_value(s.last()) > max {
                Err(IntErrorKind::PosOverflow)
            } else {
                Ok(v * 10 + digit_value(s.last()))
            },
        }
    }
}

/// An unsigned integer no larger than `max` written in decimal, with an
/// optional leading `+`, as `FromStr` for `u8`..`u64` and `usize` reads it.
pub open spec fn parse_uint(s: Seq<char>, max: int) -> Result<int, IntErrorKind> {
    if s.len() == 0 {
        Err(IntErrorKind::Empty)
    } else if s.len() == 1 && (s[0] == '+' || s[0] == '-') {
        Err(IntErrorKind::InvalidDigit)
    } else if s[0] == '+' {
        digits_value(s.drop_first(), max)
    } else {
        digits_value(s, max)
    }
}

pub proof fn lemma_digits_value_bounds(s: Seq<char>, max: int)
    requires
        max >= 0,
    ensures
        digits_value(s, max) matches Ok(v) ==> 0 <= v <= max,
    decreases s.len(),
{
    if s.len() > 0 {
        lemma_digits_value_bounds(s.drop_last(), max);
    }
}

/// Parses `s[lo..hi]` as an unsigned decimal no larger than `max`.
pub fn parse_uint_in(s: &Vec<char>, lo: usize, hi: usize, max: u64) -> (r: Result<u64, IntErrorKind>)
    requires
        lo <= hi <= s.len(),
    ensures
        match r {
            Ok(v) => parse_uint(s@.subrange(lo as int, hi as int), max as int) == Ok::<int, IntErrorKind>(v as int),
            Err(e) => parse_uint(s@.subrange(lo as int, hi as int), max as int) == Err::<int, IntErrorKind>(e),
        },
{
    let ghost t = s@.subrange(lo as int, hi as int);
    if lo == hi {
        return Err(IntErrorKind::Empty);
    }
    if hi - lo == 1 && (s[lo] == '+' || s[lo] == '-') {
        return Err(IntErrorKind::InvalidDigit);
    }
    let start = if s[lo] == '+' { lo + 1 } else { lo };
    proof {
        if s[lo as int] == '+' {
            assert(t.drop_first() == s@.subrange(start as int, hi as int));
        } else {
            assert(t == s@.subrange(start as int, hi as int));
        }
    }
    assert(parse_uint(t, max as int) == digits_value(s@.subrange(start as int, hi as int), max as int));
    let mut v: u64 = 0;
    let mut i = start;
    while i < hi
        invariant
            lo <= start <= i <= hi <= s.len(),
            parse_uint(s@.subrange(lo as int, hi as int), max as int) == digits_value(
                s@.subrange(start as int, hi as int),
                max as int,
            ),
            digits_value(s@.subrange(start as int, i as int), max as int) == Ok::<int, IntErrorKind>(v as int),
            v <= max,
        decreases hi - i,
    {
        let ghost p = s@.subrange(start as int, (i + 1) as int);
        assert(p.drop_last() == s@.subrange(start as int, i as int));
        assert(p.last() == s@[i as int]);
        let c = s[i];
        if !('0' <= c && c <= '9') {
            proof {
                assert(s@.subrange(start as int, hi as int).subrange(0, (i - start) as int + 1) == p);
                assert(digits_value(p, max as int) == Err::<int, IntErrorKind>(IntErrorKind::InvalidDigit));
                lemma_digits_prefix_err(s@.subrange(start as int, hi as int), (i - start) as int + 1, max as int);
            }
            return Err(IntErrorKind::InvalidDigit);
        }
        let d = (c as u32 - '0' as u32) as u64;
        if d > max || v > (max - d) / 10 {
            proof {
                if d <= max {
                    assert(v * 10 + d > max) by (nonlinear_arith)
                        requires v > (max - d) / 10, d <= max, v >= 0;
                }
                assert(s@.subrange(start as int, hi as int).subrange(0, (i - start) as int + 1) == p);
                assert(digits_value(p, max as int) == Err::<int, IntErrorKind>(IntErrorKind::PosOverflow));
                lemma_digits_prefix_err(s@.subrange(start as int, hi as int), (i - start) as int + 1, max as int);
            }
            return Err(IntErrorKind::PosOverflow);
        }
        proof {
            assert(v * 10 + d <= max) by (nonlinear_arith)
                requires v <= (max - d) / 10, d <= max, v >= 0;
        }
        v = v * 10 + d;
        i = i + 1;
    }
    assert(s@.subrange(start as int, i as int) == s@.subrange(start as int, hi as int));
    Ok(v)
}

/// Once a prefix of the digits is refused, the whole string is refused the same way.
pub proof fn lemma_digits_prefix_err(s: Seq<char>, k: int, max: int)
    requires
        0 <= k <= s.len(),
        digits_value(s.subrange(0, k), max) is Err,
    ensures
        digits_value(s, max) == digits_value(s.subrange(0, k), max),
    decreases s.len() - k,
{
    if k < s.len() {
        let p = s.subrange(0, k + 1);
        assert(p.drop_last() == s.subrange(0, k));
        lemma_digits_prefix_err(s, k + 1, max);
    } else {
        assert(s.subrange(0, k) == s);
    }
}


/// The character of the decimal digit `d` (0..=9).
pub open spec fn digit_char(d: int) -> char {
    (('0' as int) + d) as char
}

pub proof fn lemma_digit_char(d: int)
    requires
        0 <= d < 10,
    ensures
        digit_char(d) as int == 48 + d,
        is_digit(digit_char(d)),
        digit_value(digit_char(d)) == d,
{
}

/// `n` written in decimal, without sign or leading zeros.
pub open spec fn decimal(n: nat) -> Seq<char>
    decreases n,
{
    if n < 10 {
        seq![digit_char(n as int)]
    } else {
        decimal(n / 10).push(digit_char((n % 10) as int))
    }
}

pub proof fn lemma_decimal_digits(n: nat)
    ensures
        decimal(n).len() >= 1,
        forall|i: int| 0 <= i < decimal(n).len() ==> is_digit(#[trigger] decimal(n)[i]),
        forall|i: int|
            0 <= i < decimal(n).len() ==> (#[trigger] decimal(n)[i]) != '+' && decimal(n)[i]
                != '-' && decimal(n)[i] != '/' && decimal(n)[i] != ':' && decimal(n)[i] != '{'
                && decimal(n)[i] != '}' && decimal(n)[i] != ',' && decimal(n)[i] != '=',
    decreases n,
{
    lemma_digit_char((n % 10) as int);
    if n >= 10 {
        lemma_decimal_digits(n / 10);
    }
}

/// Reading back a number written in decimal gives the number.
pub proof fn lemma_decimal_digits_value(n: nat, max: int)
    requires
        n <= max,
    ensures
        digits_value(decimal(n), max) == Ok::<int, IntErrorKind>(n as int),
    decreases n,
{
    lemma_digit_char((n % 10) as int);
    let s = decimal(n);
    if n < 10 {
        assert(s.drop_last() =~= Seq::<char>::empty());
        assert(digits_value(s.drop_last(), max) == Ok::<int, IntErrorKind>(0));
        assert(s.last() == digit_char(n as int));
    } else {
        lemma_decimal_digits_value(n / 10, max);
        assert(s.drop_last() == decimal(n / 10));
        assert(s.last() == digit_char((n % 10) as int));
        assert((n / 10) * 10 + n % 10 == n);
    }
}

/// `parse_uint` undoes `decimal`.
pub proof fn lemma_parse_decimal(n: nat, max: int)
    requires
        n <= max,
    ensures
        parse_uint(decimal(n), max) == Ok::<int, IntErrorKind>(n as int),
{
    lemma_decimal_digits(n);
    lemma_decimal_digits_value(n, max);
    assert(is_digit(decimal(n)[0]));
}

fn digit_to_char(d: u64) -> (c: char)
    requires
        d < 10,
    ensures
        c == digit_char(d as int),
{
    let b: u8 = 48u8 + d as u8;
    b as char
}

/// Appends `n` in decimal to `out`.
pub fn append_decimal(out: &mut String, n: u64)
    ensures
        final(out)@ == old(out)@ + decimal(n as nat),
    decreases n,
{
    if n >= 10 {
        append_decimal(out, n / 10);
    }
    push_char(out, digit_to_char(n % 10));
    proof {
        if n >= 10 {
            assert(old(out)@ + decimal(n as nat) == old(out)@ + decimal((n / 10) as nat) + seq![digit_char((n % 10) as int)]);
        } else {
            assert(old(out)@ + decimal(n as nat) == old(out)@.push(digit_char((n % 10) as int)));
        }
    }
}

// ---------------------------------------------------------------------------
// White space
// ---------------------------------------------------------------------------

/// `char::is_whitespace`: the characters with the Unicode White_Space property.
pub open spec fn is_whitespace(c: char) -> bool {
    ||| ('\t' <= c && c <= '\r')
    ||| c == ' '
    ||| c == '\u{85}'
    ||| c == '\u{A0}'
    ||| c == '\u{1680}'
    ||| ('\u{2000}' <= c && c <= '\u{200A}')
    ||| c == '\u{2028}'
    ||| c == '\u{2029}'
    ||| c == '\u{202F}'
    ||| c == '\u{205F}'
    ||| c == '\u{3000}'
}

pub fn char_is_whitespace(c: char) -> (b: bool)
    ensures
        b == is_whitespace(c),
{
    ('\t' <= c && c <= '\r') || c == ' ' || c == '\u{85}' || c == '\u{A0}' || c == '\u{1680}'
        || ('\u{2000}' <= c && c <= '\u{200A}') || c == '\u{2028}' || c == '\u{2029}' || c
        == '\u{202F}' || c == '\u{205F}' || c == '\u{3000}'
}

pub open spec fn trim_start(s: Seq<char>) -> Seq<char>
    decreases s.len(),
{
    if s.len() > 0 && is_whitespace(s[0]) {
        trim_start(s.drop_first())
    } else {
        s
    }
}

pub open spec fn trim_end(s: Seq<char>) -> Seq<char>
    decreases s.len(),
{
    if s.len() > 0 && is_whitespace(s.last()) {
        trim_end(s.drop_last())
    } else {
        s
    }
}

/// `str::trim`: `s` without leading and trailing white space.
pub open spec fn trim(s: Seq<char>) -> Seq<char> {
    trim_end(trim_start(s))
}

/// The bounds of `trim(s[lo..hi])` within `s`.
pub fn trim_in(s: &Vec<char>, lo: usize, hi: usize) -> (r: (usize, usize))
    requires
        lo <= hi <= s.len(),
    ensures
        lo <= r.0 <= r.1 <= hi,
        s@.subrange(r.0 as int, r.1 as int) == trim(s@.subrange(lo as int, hi as int)),
{
    let mut a = lo;
    while a < hi && char_is_whitespace(s[a])
        invariant
            lo <= a <= hi <= s.len(),
            trim_start(s@.subrange(lo as int, hi as int)) == trim_start(s@.subrange(a as int, hi as int)),
        decreases hi - a,
    {
        assert(s@.subrange(a as int, hi as int).drop_first() == s@.subrange(a + 1, hi as int));
        a = a + 1;
    }
    let mut b = hi;
    while b > a && char_is_whitespace(s[b - 1])
        invariant
            lo <= a <= b <= hi <= s.len(),
            trim(s@.subrange(lo as int, hi as int)) == trim_end(s@.subrange(a as int, b as int)),
        decreases b - a,
    {
        assert(s@.subrange(a as int, b as int).drop_last() == s@.subrange(a as int, b - 1));
        b = b - 1;
    }
    (a, b)
}


/// `s` holds none of the characters `/`, `:`, `{` and `}`.
pub open spec fn no_delimiters(s: Seq<char>) -> bool {
    forall|j: int| 0 <= j < s.len() ==> s[j] != '/' && s[j] != ':' && s[j] != '{' && s[j] != '}'
}

/// The last `c` of `a + b` is the last character of `a` where `b` holds no `c`.
pub proof fn lemma_rfind_char_last(a: Seq<char>, c: char, b: Seq<char>)
    requires
        a.len() > 0,
        a.last() == c,
        forall|j: int| 0 <= j < b.len() ==> b[j] != c,
    ensures
        rfind_char(a + b, c) == Some(a.len() - 1),
{
    let s = a + b;
    lemma_rfind_char(s, c);
    assert(s[a.len() - 1] == c);
    match rfind_char(s, c) {
        Some(i) => {
            if i >= a.len() {
                assert(s[i] == b[i - a.len()]);
            }
        },
        None => {},
    }
}

/// The first `a b` of `s` is at `i` where it is there and nowhere before.
pub proof fn lemma_find_pair_at(s: Seq<char>, a: char, b: char, i: int)
    requires
        0 <= i,
        i + 1 < s.len(),
        s[i] == a,
        s[i + 1] == b,
        forall|j: int| 0 <= j < i ==> !(#[trigger] s[j] == a && s[j + 1] == b),
    ensures
        find_pair(s, a, b) == Some(i),
{
    lemma_find_pair_from_some(s, a, b, 0);
    match find_pair(s, a, b) {
        Some(k) => {
            if k > i {
                assert(s[i] == a);
            }
        },
        None => {
            assert(s[i] == a);
        },
    }
}

/// There is no `a b` in `s` where no position starts one.
pub proof fn lemma_find_pair_none(s: Seq<char>, a: char, b: char)
    requires
        forall|j: int| 0 <= j && j + 1 < s.len() ==> !(#[trigger] s[j] == a && s[j + 1] == b),
    ensures
        find_pair(s, a, b) is None,
{
    lemma_find_pair_from_some(s, a, b, 0);
    match find_pair(s, a, b) {
        Some(k) => {
            assert(s[k] == a);
        },
        None => {},
    }
}


/// The first `c` of `s` is at `i` where it is there and nowhere before.
pub proof fn lemma_find_char_at(s: Seq<char>, c: char, i: int)
    requires
        0 <= i < s.len(),
        s[i] == c,
        forall|j: int| 0 <= j < i ==> s[j] != c,
    ensures
        find_char(s, c) == Some(i),
{
    lemma_find_char_from_some(s, c, 0);
    match find_char(s, c) {
        Some(k) => {
            if k > i {
                assert(s[i] == c);
            }
        },
        None => {
            assert(s[i] == c);
        },
    }
}


/// `s` holds no `c`.
pub open spec fn lacks(s: Seq<char>, c: char) -> bool {
    forall|j: int| 0 <= j < s.len() ==> s[j] != c
}

/// Two texts without `c` make a text without `c`.
pub proof fn lemma_lacks_concat(x: Seq<char>, y: Seq<char>, c: char)
    requires
        lacks(x, c),
        lacks(y, c),
    ensures
        lacks(x + y, c),
{
    assert forall|j: int| 0 <= j < (x + y).len() implies (x + y)[j] != c by {
        if j < x.len() {
            assert((x + y)[j] == x[j]);
        } else {
            assert((x + y)[j] == y[j - x.len()]);
        }
    }
}

} // verus!
