//! Byte-level text: decimal integers, white space, and searching.
//!
//! Everything here works on raw bytes. The grammars are those of the
//! standard library's integer parsing and of its `trim`, stated over the
//! UTF-8 encoding of the characters involved, so that callers never need to
//! decode the text first: a byte string that is not valid UTF-8 can never
//! match a literal, and is rejected like any other malformed text.

use vstd::prelude::*;
use vstd::string::StringExecFns;

verus! {

/// The byte `+`.
pub const PLUS: u8 = 0x2b;

/// The byte `-`.
pub const MINUS: u8 = 0x2d;

/// The byte `0`.
pub const ZERO: u8 = 0x30;

/// The byte `9`.
pub const NINE: u8 = 0x39;

/// Whether `b` is an ASCII decimal digit.
pub open spec fn is_digit(b: u8) -> bool {
    ZERO <= b <= NINE
}

/// The number that the digit `b` stands for (zero for any other byte).
pub open spec fn digit_value(b: u8) -> nat {
    if is_digit(b) {
        (b - ZERO) as nat
    } else {
        0
    }
}

/// Whether every byte of `s` is a decimal digit.
pub open spec fn all_digits(s: Seq<u8>) -> bool {
    forall|i: int| 0 <= i < s.len() ==> is_digit(#[trigger] s[i])
}

/// The number written by the digits `s`, most significant digit first.
pub open spec fn digits_value(s: Seq<u8>) -> nat
    decreases s.len(),
{
    if s.len() == 0 {
        0
    } else {
        digits_value(s.drop_last()) * 10 + digit_value(s.last())
    }
}

/// The number written by a non-empty run of digits, and `None` for anything else.
pub open spec fn unsigned_literal(s: Seq<u8>) -> Option<int> {
    if s.len() > 0 && all_digits(s) {
        Some(digits_value(s) as int)
    } else {
        None
    }
}

/// The integer written by a decimal literal: an optional sign and at least
/// one digit. A `-` is a sign only where `signed` holds; a `+` always is.
pub open spec fn int_literal(s: Seq<u8>, signed: bool) -> Option<int> {
    if s.len() > 0 && s[0] == PLUS {
        unsigned_literal(s.skip(1))
    } else if signed && s.len() > 0 && s[0] == MINUS {
        match unsigned_literal(s.skip(1)) {
            Some(v) => Some(-v),
            None => None,
        }
    } else {
        unsigned_literal(s)
    }
}

/// The integer written by `s`, provided that it lies in `min ..= max`.
pub open spec fn bounded_literal(s: Seq<u8>, signed: bool, min: int, max: int) -> Option<int> {
    match int_literal(s, signed) {
        Some(v) => if min <= v <= max {
            Some(v)
        } else {
            None
        },
        None => None,
    }
}

/// What parsing `s` as an `i32` gives.
pub open spec fn i32_literal(s: Seq<u8>) -> Option<i32> {
    match bounded_literal(s, true, i32::MIN as int, i32::MAX as int) {
        Some(v) => Some(v as i32),
        None => None,
    }
}

/// What parsing `s` as an `i64` gives.
pub open spec fn i64_literal(s: Seq<u8>) -> Option<i64> {
    match bounded_literal(s, true, i64::MIN as int, i64::MAX as int) {
        Some(v) => Some(v as i64),
        None => None,
    }
}

/// What parsing `s` as a `u64` gives.
pub open spec fn u64_literal(s: Seq<u8>) -> Option<u64> {
    match bounded_literal(s, false, 0, u64::MAX as int) {
        Some(v) => Some(v as u64),
        None => None,
    }
}

/// Appending one digit multiplies by ten and adds.
pub proof fn lemma_digits_value_push(s: Seq<u8>, b: u8)
    ensures
        digits_value(s.push(b)) == digits_value(s) * 10 + digit_value(b),
{
    assert(s.push(b).drop_last() =~= s);
}

/// A prefix of a run of digits never writes a larger number than the whole.
pub proof fn lemma_digits_value_prefix(s: Seq<u8>, k: int)
    requires
        0 <= k <= s.len(),
    ensures
        digits_value(s.take(k)) <= digits_value(s),
    decreases s.len(),
{
    if k == s.len() {
        assert(s.take(k) =~= s);
    } else {
        lemma_digits_value_prefix(s.drop_last(), k);
        assert(s.drop_last().take(k) =~= s.take(k));
    }
}

/// Reads the digits of `s` from `start` on, giving up once they pass `cap`.
fn parse_digits(s: &[u8], start: usize, cap: u128) -> (r: Option<u128>)
    requires
        start <= s@.len(),
        cap <= 0x1_0000_0000_0000_0000,
    ensures
        r matches Some(v) ==> unsigned_literal(s@.skip(start as int)) == Some(v as int) && v <= cap,
        r is None ==> (match unsigned_literal(s@.skip(start as int)) {
            Some(v) => v > cap,
            None => true,
        }),
{
    let n: usize = s.len();
    if start == n {
        return None;
    }
    let ghost digits = s@.skip(start as int);
    let mut acc: u128 = 0;
    let mut i: usize = start;
    while i < n
        invariant
            start <= i <= n,
            n == s@.len(),
            digits == s@.skip(start as int),
            acc == digits_value(digits.take(i - start)),
            all_digits(digits.take(i - start)),
            acc <= cap <= 0x1_0000_0000_0000_0000,
        decreases n - i,
    {
        let b: u8 = s[i];
        proof {
            assert(digits.take(i + 1 - start) =~= digits.take(i - start).push(b));
            lemma_digits_value_push(digits.take(i - start), b);
            lemma_digits_value_prefix(digits, i + 1 - start);
        }
        if b < ZERO || b > NINE {
            assert(digits[i - start] == b);
            return None;
        }
        acc = acc * 10 + (b - ZERO) as u128;
        if acc > cap {
            return None;
        }
        i = i + 1;
    }
    assert(digits.take(n - start) =~= digits);
    Some(acc)
}

/// Parses a decimal literal whose value must lie in `min ..= max`.
fn parse_bounded(s: &[u8], signed: bool, min: i128, max: i128) -> (r: Option<i128>)
    requires
        -0x1_0000_0000_0000_0000 <= min <= 0 <= max <= 0x1_0000_0000_0000_0000,
    ensures
        r matches Some(v) ==> bounded_literal(s@, signed, min as int, max as int) == Some(v as int),
        r is None ==> bounded_literal(s@, signed, min as int, max as int) is None,
{
    if s.len() == 0 {
        return None;
    }
    let first: u8 = s[0];
    if signed && first == MINUS {
        match parse_digits(s, 1, (-min) as u128) {
            Some(v) => Some(-(v as i128)),
            None => None,
        }
    } else if first == PLUS {
        match parse_digits(s, 1, max as u128) {
            Some(v) => Some(v as i128),
            None => None,
        }
    } else {
        assert(s@.skip(0) =~= s@);
        match parse_digits(s, 0, max as u128) {
            Some(v) => Some(v as i128),
            None => None,
        }
    }
}

/// Parses `s` as an `i32`, as the standard library does.
pub fn parse_i32(s: &[u8]) -> (r: Option<i32>)
    ensures
        r == i32_literal(s@),
{
    match parse_bounded(s, true, -0x8000_0000, 0x7fff_ffff) {
        Some(v) => Some(v as i32),
        None => None,
    }
}

/// Parses `s` as an `i64`, as the standard library does.
pub fn parse_i64(s: &[u8]) -> (r: Option<i64>)
    ensures
        r == i64_literal(s@),
{
    match parse_bounded(s, true, -0x8000_0000_0000_0000, 0x7fff_ffff_ffff_ffff) {
        Some(v) => Some(v as i64),
        None => None,
    }
}

/// Parses `s` as a `u64`, as the standard library does.
pub fn parse_u64(s: &[u8]) -> (r: Option<u64>)
    ensures
        r == u64_literal(s@),
{
    match parse_bounded(s, false, 0, 0xffff_ffff_ffff_ffff) {
        Some(v) => Some(v as u64),
        None => None,
    }
}

/// The decimal digits of `n`, without leading zeros.
pub open spec fn decimal_digits(n: nat) -> Seq<u8>
    decreases n,
{
    if n < 10 {
        seq![(ZERO + n) as u8]
    } else {
        decimal_digits(n / 10).push((ZERO + n % 10) as u8)
    }
}

/// The decimal text of `v`: a `-` for a negative number, then its digits.
pub open spec fn decimal_text(v: int) -> Seq<u8> {
    if v < 0 {
        seq![MINUS] + decimal_digits((-v) as nat)
    } else {
        decimal_digits(v as nat)
    }
}

/// The digits of a number are digits, and write that number.
pub proof fn lemma_decimal_digits(n: nat)
    ensures
        decimal_digits(n).len() > 0,
        all_digits(decimal_digits(n)),
        digits_value(decimal_digits(n)) == n,
    decreases n,
{
    if n < 10 {
        let s = decimal_digits(n);
        assert(s.drop_last() =~= Seq::<u8>::empty());
        assert(digits_value(s.drop_last()) == 0);
    } else {
        lemma_decimal_digits(n / 10);
        lemma_digits_value_push(decimal_digits(n / 10), (ZERO + n % 10) as u8);
    }
}

/// Reading the decimal text of an integer gives the integer back.
pub proof fn lemma_decimal_text_roundtrip(v: int)
    ensures
        int_literal(decimal_text(v), true) == Some(v),
        v >= 0 ==> int_literal(decimal_text(v), false) == Some(v),
{
    if v < 0 {
        lemma_decimal_digits((-v) as nat);
        assert(decimal_text(v).skip(1) =~= decimal_digits((-v) as nat));
    } else {
        lemma_decimal_digits(v as nat);
        assert(is_digit(decimal_text(v)[0]));
    }
}

/// Every byte of a decimal text is a digit or the minus sign.
pub proof fn lemma_decimal_text_bytes(v: int)
    ensures
        decimal_text(v).len() > 0,
        forall|i: int|
            0 <= i < decimal_text(v).len() ==> is_digit(#[trigger] decimal_text(v)[i])
                || decimal_text(v)[i] == MINUS,
{
    if v < 0 {
        lemma_decimal_digits((-v) as nat);
    } else {
        lemma_decimal_digits(v as nat);
    }
}

/// Appends the decimal digits of `n` to `out`.
pub fn push_decimal(out: &mut Vec<u8>, n: u64)
    ensures
        final(out)@ == old(out)@ + decimal_digits(n as nat),
    decreases n,
{
    if n >= 10 {
        push_decimal(out, n / 10);
    }
    out.push(ZERO + (n % 10) as u8);
    assert(out@ =~= old(out)@ + decimal_digits(n as nat));
}

/// Appends the decimal text of `v` to `out`.
pub fn push_signed_decimal(out: &mut Vec<u8>, v: i64)
    ensures
        final(out)@ == old(out)@ + decimal_text(v as int),
{
    if v < 0 {
        out.push(MINUS);
        let magnitude: u64 = (-(v as i128)) as u64;
        push_decimal(out, magnitude);
        assert(out@ =~= old(out)@ + decimal_text(v as int));
    } else {
        push_decimal(out, v as u64);
    }
}

/// Whether `b` is one of the ASCII white-space characters: tab, line feed,
/// vertical tab, form feed, carriage return, or space.
pub open spec fn is_ascii_space(b: u8) -> bool {
    0x09 <= b <= 0x0d || b == 0x20
}

/// Whether `a b` is the encoding of a two-byte white-space character
/// (U+0085 or U+00A0).
pub open spec fn is_space_pair(a: u8, b: u8) -> bool {
    a == 0xc2 && (b == 0x85 || b == 0xa0)
}

/// Whether `a b c` is the encoding of a three-byte white-space character
/// (U+1680, U+2000 to U+200A, U+2028, U+2029, U+202F, U+205F or U+3000).
pub open spec fn is_space_triple(a: u8, b: u8, c: u8) -> bool {
    ||| a == 0xe1 && b == 0x9a && c == 0x80
    ||| a == 0xe2 && b == 0x80 && (0x80 <= c <= 0x8a || c == 0xa8 || c == 0xa9 || c == 0xaf)
    ||| a == 0xe2 && b == 0x81 && c == 0x9f
    ||| a == 0xe3 && b == 0x80 && c == 0x80
}

/// The length of the white-space character that `s` begins with, or zero
/// where it begins with none.
pub open spec fn space_prefix_len(s: Seq<u8>) -> nat {
    if s.len() >= 1 && is_ascii_space(s[0]) {
        1
    } else if s.len() >= 2 && is_space_pair(s[0], s[1]) {
        2
    } else if s.len() >= 3 && is_space_triple(s[0], s[1], s[2]) {
        3
    } else {
        0
    }
}

/// The length of the white-space character that `s` ends with, or zero
/// where it ends with none.
pub open spec fn space_suffix_len(s: Seq<u8>) -> nat {
    let n = s.len() as int;
    if n >= 1 && is_ascii_space(s[n - 1]) {
        1
    } else if n >= 2 && is_space_pair(s[n - 2], s[n - 1]) {
        2
    } else if n >= 3 && is_space_triple(s[n - 3], s[n - 2], s[n - 1]) {
        3
    } else {
        0
    }
}

/// `s` without the white space that it begins with.
pub open spec fn trim_start(s: Seq<u8>) -> Seq<u8>
    decreases s.len(),
{
    let k = space_prefix_len(s);
    if k == 0 {
        s
    } else {
        trim_start(s.skip(k as int))
    }
}

/// `s` without the white space that it ends with.
pub open spec fn trim_end(s: Seq<u8>) -> Seq<u8>
    decreases s.len(),
{
    let k = space_suffix_len(s);
    if k == 0 {
        s
    } else {
        trim_end(s.take(s.len() - k))
    }
}

/// `s` without the white space on either side.
pub open spec fn trim(s: Seq<u8>) -> Seq<u8> {
    trim_end(trim_start(s))
}

/// A text that begins and ends with a digit or a sign has nothing to trim.
pub proof fn lemma_trim_nothing(s: Seq<u8>)
    requires
        s.len() > 0,
        is_digit(s[0]) || s[0] == MINUS || s[0] == PLUS,
        is_digit(s.last()) || s.last() == MINUS || s.last() == PLUS,
    ensures
        trim(s) == s,
{
}

/// Whether `b` can neither be trimmed away nor stand in a decimal literal:
/// an ASCII character that is no white space, digit or sign.
pub open spec fn is_foreign(b: u8) -> bool {
    b < 0x80 && !is_ascii_space(b) && !is_digit(b) && b != PLUS && b != MINUS
}

/// Trimming at the start stops in front of an ASCII character that is no
/// white space: the result is `s` from some place on that is not behind
/// that character.
pub proof fn lemma_trim_start_keeps(s: Seq<u8>, i: int) -> (k: int)
    requires
        0 <= i < s.len(),
        s[i] < 0x80,
        !is_ascii_space(s[i]),
    ensures
        0 <= k <= i,
        trim_start(s) == s.skip(k),
    decreases s.len(),
{
    let p = space_prefix_len(s) as int;
    if p == 0 {
        assert(s.skip(0) =~= s);
        0
    } else {
        let k = lemma_trim_start_keeps(s.skip(p), i - p);
        assert(s.skip(p).skip(k) =~= s.skip(p + k));
        p + k
    }
}

/// Trimming at the end stops behind an ASCII character that is no white
/// space: the result is `s` up to some place behind that character.
pub proof fn lemma_trim_end_keeps(s: Seq<u8>, i: int) -> (e: int)
    requires
        0 <= i < s.len(),
        s[i] < 0x80,
        !is_ascii_space(s[i]),
    ensures
        i < e <= s.len(),
        trim_end(s) == s.take(e),
    decreases s.len(),
{
    let p = space_suffix_len(s) as int;
    if p == 0 {
        assert(s.take(s.len() as int) =~= s);
        s.len() as int
    } else {
        let e = lemma_trim_end_keeps(s.take(s.len() - p), i);
        assert(s.take(s.len() - p).take(e) =~= s.take(e));
        e
    }
}

/// A text that holds an ASCII character that is no white space, digit or
/// sign is no integer, even with the white space around it removed.
pub proof fn lemma_foreign_byte_is_no_integer(s: Seq<u8>, i: int)
    requires
        0 <= i < s.len(),
        is_foreign(s[i]),
    ensures
        i32_literal(trim(s)) is None,
{
    let k = lemma_trim_start_keeps(s, i);
    let e = lemma_trim_end_keeps(s.skip(k), i - k);
    let t = trim(s);
    assert(t == s.skip(k).take(e));
    assert(t[i - k] == s[i]);
    if t[0] == PLUS || t[0] == MINUS {
        assert(t.skip(1)[i - k - 1] == s[i]);
    }
}

/// The length of the white-space character at `lo` in `s[lo..hi]`.
fn space_len_at_start(s: &[u8], lo: usize, hi: usize) -> (k: usize)
    requires
        lo <= hi <= s@.len(),
    ensures
        k == space_prefix_len(s@.subrange(lo as int, hi as int)),
        lo + k <= hi,
{
    let n: usize = hi - lo;
    if n >= 1 {
        let a: u8 = s[lo];
        if (0x09 <= a && a <= 0x0d) || a == 0x20 {
            return 1;
        }
        if n >= 2 {
            let b: u8 = s[lo + 1];
            if a == 0xc2 && (b == 0x85 || b == 0xa0) {
                return 2;
            }
            if n >= 3 {
                let c: u8 = s[lo + 2];
                if (a == 0xe1 && b == 0x9a && c == 0x80) || (a == 0xe2 && b == 0x80 && ((0x80 <= c
                    && c <= 0x8a) || c == 0xa8 || c == 0xa9 || c == 0xaf)) || (a == 0xe2 && b
                    == 0x81 && c == 0x9f) || (a == 0xe3 && b == 0x80 && c == 0x80) {
                    return 3;
                }
            }
        }
    }
    0
}

/// The length of the white-space character that ends `s[lo..hi]`.
fn space_len_at_end(s: &[u8], lo: usize, hi: usize) -> (k: usize)
    requires
        lo <= hi <= s@.len(),
    ensures
        k == space_suffix_len(s@.subrange(lo as int, hi as int)),
        lo + k <= hi,
{
    let n: usize = hi - lo;
    if n >= 1 {
        let c: u8 = s[hi - 1];
        if (0x09 <= c && c <= 0x0d) || c == 0x20 {
            return 1;
        }
        if n >= 2 {
            let b: u8 = s[hi - 2];
            if b == 0xc2 && (c == 0x85 || c == 0xa0) {
                return 2;
            }
            if n >= 3 {
                let a: u8 = s[hi - 3];
                if (a == 0xe1 && b == 0x9a && c == 0x80) || (a == 0xe2 && b == 0x80 && ((0x80 <= c
                    && c <= 0x8a) || c == 0xa8 || c == 0xa9 || c == 0xaf)) || (a == 0xe2 && b
                    == 0x81 && c == 0x9f) || (a == 0xe3 && b == 0x80 && c == 0x80) {
                    return 3;
                }
            }
        }
    }
    0
}

/// Finds the part of `s[lo..hi]` that is left when the white space on
/// either side is removed.
pub fn trim_range(s: &[u8], lo: usize, hi: usize) -> (r: (usize, usize))
    requires
        lo <= hi <= s@.len(),
    ensures
        lo <= r.0 <= r.1 <= hi,
        s@.subrange(r.0 as int, r.1 as int) == trim(s@.subrange(lo as int, hi as int)),
{
    let mut start: usize = lo;
    loop
        invariant
            lo <= start <= hi <= s@.len(),
            trim_start(s@.subrange(lo as int, hi as int)) == trim_start(
                s@.subrange(start as int, hi as int),
            ),
        ensures
            lo <= start <= hi,
            trim_start(s@.subrange(lo as int, hi as int)) == s@.subrange(start as int, hi as int),
        decreases hi - start,
    {
        let k: usize = space_len_at_start(s, start, hi);
        if k == 0 {
            break ;
        }
        assert(s@.subrange(start as int, hi as int).skip(k as int) =~= s@.subrange(
            start + k,
            hi as int,
        ));
        start = start + k;
    }
    let mut end: usize = hi;
    loop
        invariant
            start <= end <= hi <= s@.len(),
            trim_end(s@.subrange(start as int, hi as int)) == trim_end(
                s@.subrange(start as int, end as int),
            ),
        ensures
            start <= end <= hi,
            trim_end(s@.subrange(start as int, hi as int)) == s@.subrange(start as int, end as int),
        decreases end - start,
    {
        let k: usize = space_len_at_end(s, start, end);
        if k == 0 {
            break ;
        }
        assert(s@.subrange(start as int, end as int).take(end - start - k) =~= s@.subrange(
            start as int,
            end - k,
        ));
        end = end - k;
    }
    (start, end)
}

/// The first place at or after `from` where the byte `b` occurs in `text`,
/// or the length of `text` where it does not occur.
pub open spec fn find_byte_from(text: Seq<u8>, b: u8, from: int) -> int
    decreases text.len() - from,
{
    if from < 0 || from >= text.len() {
        text.len() as int
    } else if text[from] == b {
        from
    } else {
        find_byte_from(text, b, from + 1)
    }
}

/// Whether `key` stands in `text` at `at`.
pub fn occurs_at(text: &[u8], key: &[u8], at: usize) -> (r: bool)
    requires
        at + key@.len() <= text@.len(),
    ensures
        r == (text@.subrange(at as int, at + key@.len()) == key@),
{
    let n: usize = key.len();
    let size: usize = text.len();
    let mut i: usize = 0;
    while i < n
        invariant
            i <= n,
            n == key@.len(),
            size == text@.len(),
            at + n <= text@.len(),
            text@.subrange(at as int, at + i) == key@.take(i as int),
        decreases n - i,
    {
        if text[at + i] != key[i] {
            assert(text@.subrange(at as int, at + key@.len())[i as int] != key@[i as int]);
            return false;
        }
        assert(text@.subrange(at as int, at + i + 1) =~= text@.subrange(at as int, at + i).push(
            text@[at + i],
        ));
        assert(key@.take(i + 1) =~= key@.take(i as int).push(key@[i as int]));
        i = i + 1;
    }
    assert(key@.take(n as int) =~= key@);
    true
}

/// Finds the first occurrence of the byte `b` in `text` at or after `from`;
/// gives the length of `text` where there is none.
pub fn find_byte(text: &[u8], b: u8, from: usize) -> (at: usize)
    requires
        from <= text@.len(),
    ensures
        at == find_byte_from(text@, b, from as int),
        from <= at <= text@.len(),
{
    let n: usize = text.len();
    let mut i: usize = from;
    while i < n && text[i] != b
        invariant
            from <= i <= n,
            n == text@.len(),
            find_byte_from(text@, b, from as int) == find_byte_from(text@, b, i as int),
        decreases n - i,
    {
        i = i + 1;
    }
    i
}

/// The byte `.`.
pub const DOT: u8 = 0x2e;

/// The place just past the run of digits that begins at `from` in `s`.
pub open spec fn digits_end(s: Seq<u8>, from: int) -> int
    decreases s.len() - from,
{
    if 0 <= from < s.len() && is_digit(s[from]) {
        digits_end(s, from + 1)
    } else {
        from
    }
}

/// Whether `b` is the letter `letter` in either case; `letter` is given in
/// lower case.
pub open spec fn is_letter(b: u8, letter: u8) -> bool {
    b == letter || b + 0x20 == letter
}

/// Whether `s` spells `word`, whatever the case of its letters; `word` is
/// given in lower case.
pub open spec fn spells(s: Seq<u8>, word: Seq<u8>) -> bool {
    s.len() == word.len() && forall|i: int| 0 <= i < s.len() ==> is_letter(#[trigger] s[i], word[i])
}

/// The words `inf`, `infinity` and `nan`, in any case.
pub open spec fn is_special_float(s: Seq<u8>) -> bool {
    ||| spells(s, seq![0x69u8, 0x6e, 0x66])
    ||| spells(s, seq![0x69u8, 0x6e, 0x66, 0x69, 0x6e, 0x69, 0x74, 0x79])
    ||| spells(s, seq![0x6eu8, 0x61, 0x6e])
}

/// Whether `s` from `from` on is an exponent without its letter: an
/// optional sign and at least one digit, up to the end of `s`.
pub open spec fn is_exponent(s: Seq<u8>, from: int) -> bool {
    let digits = if from < s.len() && (s[from] == PLUS || s[from] == MINUS) {
        from + 1
    } else {
        from
    };
    digits < s.len() && is_digit(s[digits]) && digits_end(s, digits) == s.len()
}

/// Whether `s` is an unsigned decimal number: digits with at most one `.`
/// among them and at least one digit in all, then possibly an exponent,
/// which is `e` or `E`, an optional sign and at least one digit.
pub open spec fn is_float_number(s: Seq<u8>) -> bool {
    let whole_end = digits_end(s, 0);
    let has_dot = whole_end < s.len() && s[whole_end] == DOT;
    let mantissa_end = if has_dot {
        digits_end(s, whole_end + 1)
    } else {
        whole_end
    };
    let digits = if has_dot {
        mantissa_end - 1
    } else {
        mantissa_end
    };
    digits > 0 && (mantissa_end == s.len() || (is_letter(s[mantissa_end], 0x65) && is_exponent(
        s,
        mantissa_end + 1,
    )))
}

/// Whether `s` is a floating-point literal as the standard library reads
/// one: an optional sign, then a decimal number or one of the words `inf`,
/// `infinity` and `nan`.
pub open spec fn is_float_literal(s: Seq<u8>) -> bool {
    let unsigned = if s.len() > 0 && (s[0] == PLUS || s[0] == MINUS) {
        s.skip(1)
    } else {
        s
    };
    is_float_number(unsigned) || is_special_float(unsigned)
}

/// Finds the end of the run of digits that begins at `from`.
fn scan_digits(s: &[u8], from: usize) -> (end: usize)
    requires
        from <= s@.len(),
    ensures
        end == digits_end(s@, from as int),
        from <= end <= s@.len(),
{
    let n: usize = s.len();
    let mut i: usize = from;
    while i < n && ZERO <= s[i] && s[i] <= NINE
        invariant
            from <= i <= n,
            n == s@.len(),
            digits_end(s@, from as int) == digits_end(s@, i as int),
        decreases n - i,
    {
        i = i + 1;
    }
    i
}

/// Whether `s[from..]` spells `word`, whatever the case of its letters.
fn spells_word(s: &[u8], from: usize, word: &[u8]) -> (r: bool)
    requires
        from <= s@.len(),
    ensures
        r == spells(s@.skip(from as int), word@),
{
    let n: usize = s.len();
    let k: usize = word.len();
    if n - from != k {
        return false;
    }
    let mut i: usize = 0;
    while i < k
        invariant
            i <= k,
            k == word@.len(),
            n == s@.len(),
            n - from == k,
            forall|j: int| 0 <= j < i ==> is_letter(#[trigger] s@.skip(from as int)[j], word@[j]),
        decreases k - i,
    {
        let b: u8 = s[from + i];
        let letter: u8 = word[i];
        if !(b == letter || (b <= 0xdf && b + 0x20 == letter)) {
            assert(!is_letter(s@.skip(from as int)[i as int], word@[i as int]));
            return false;
        }
        i = i + 1;
    }
    true
}

/// Whether `s[from..]` is an unsigned decimal number.
fn check_float_number(s: &[u8], from: usize) -> (r: bool)
    requires
        from <= s@.len(),
    ensures
        r == is_float_number(s@.skip(from as int)),
{
    let n: usize = s.len();
    let ghost t = s@.skip(from as int);
    proof {
        lemma_digits_end_skip(s@, from as int, from as int);
    }
    let whole_end: usize = scan_digits(s, from);
    let has_dot: bool = whole_end < n && s[whole_end] == DOT;
    let mantissa_end: usize = if has_dot {
        proof {
            lemma_digits_end_skip(s@, from as int, whole_end + 1);
        }
        scan_digits(s, whole_end + 1)
    } else {
        whole_end
    };
    let digits: usize = if has_dot {
        mantissa_end - from - 1
    } else {
        mantissa_end - from
    };
    if digits == 0 {
        return false;
    }
    if mantissa_end == n {
        return true;
    }
    let e: u8 = s[mantissa_end];
    if !(e == 0x65 || e == 0x45) {
        return false;
    }
    let mut at: usize = mantissa_end + 1;
    if at < n && (s[at] == PLUS || s[at] == MINUS) {
        at = at + 1;
    }
    if !(at < n && ZERO <= s[at] && s[at] <= NINE) {
        return false;
    }
    proof {
        lemma_digits_end_skip(s@, from as int, at as int);
    }
    scan_digits(s, at) == n
}

/// A run of digits ends at the same byte when a front part of the text is
/// left out.
pub proof fn lemma_digits_end_skip(s: Seq<u8>, skipped: int, from: int)
    requires
        0 <= skipped <= from <= s.len(),
    ensures
        digits_end(s.skip(skipped), from - skipped) == digits_end(s, from) - skipped,
    decreases s.len() - from,
{
    if from < s.len() && is_digit(s[from]) {
        lemma_digits_end_skip(s, skipped, from + 1);
    }
}

/// Whether `s` is a floating-point literal as the standard library reads
/// one.
pub fn check_float_literal(s: &[u8]) -> (r: bool)
    ensures
        r == is_float_literal(s@),
{
    let from: usize = if s.len() > 0 && (s[0] == PLUS || s[0] == MINUS) {
        1
    } else {
        assert(s@.skip(0) =~= s@);
        0
    };
    if check_float_number(s, from) {
        return true;
    }
    let inf: [u8; 3] = [0x69, 0x6e, 0x66];
    let infinity: [u8; 8] = [0x69, 0x6e, 0x66, 0x69, 0x6e, 0x69, 0x74, 0x79];
    let nan: [u8; 3] = [0x6e, 0x61, 0x6e];
    assert(inf@ =~= seq![0x69u8, 0x6e, 0x66]);
    assert(infinity@ =~= seq![0x69u8, 0x6e, 0x66, 0x69, 0x6e, 0x69, 0x74, 0x79]);
    assert(nan@ =~= seq![0x6eu8, 0x61, 0x6e]);
    spells_word(s, from, inf.as_slice()) || spells_word(s, from, infinity.as_slice())
        || spells_word(s, from, nan.as_slice())
}

/// The characters of the ASCII text `s`.
pub open spec fn ascii_chars(s: Seq<u8>) -> Seq<char> {
    s.map_values(|b: u8| b as char)
}

/// The one-character string for a digit or a minus sign.
fn decimal_char(b: u8) -> (r: &'static str)
    requires
        is_digit(b) || b == MINUS,
    ensures
        r@ == seq![b as char],
{
    proof {
        reveal_strlit("0");
        reveal_strlit("1");
        reveal_strlit("2");
        reveal_strlit("3");
        reveal_strlit("4");
        reveal_strlit("5");
        reveal_strlit("6");
        reveal_strlit("7");
        reveal_strlit("8");
        reveal_strlit("9");
        reveal_strlit("-");
    }
    let r: &'static str = if b == 0x30 {
        "0"
    } else if b == 0x31 {
        "1"
    } else if b == 0x32 {
        "2"
    } else if b == 0x33 {
        "3"
    } else if b == 0x34 {
        "4"
    } else if b == 0x35 {
        "5"
    } else if b == 0x36 {
        "6"
    } else if b == 0x37 {
        "7"
    } else if b == 0x38 {
        "8"
    } else if b == 0x39 {
        "9"
    } else {
        "-"
    };
    assert(r@ =~= seq![b as char]);
    r
}

/// Whether every byte of `s` is a digit or a minus sign.
pub open spec fn is_decimal_text(s: Seq<u8>) -> bool {
    forall|i: int| 0 <= i < s.len() ==> is_digit(#[trigger] s[i]) || s[i] == MINUS
}

/// Appends the characters of the decimal text `text` to the string `out`.
fn push_text(out: &mut String, text: &[u8])
    requires
        is_decimal_text(text@),
    ensures
        final(out)@ == old(out)@ + ascii_chars(text@),
{
    let n: usize = text.len();
    let mut i: usize = 0;
    while i < n
        invariant
            i <= n,
            n == text@.len(),
            is_decimal_text(text@),
            out@ == old(out)@ + ascii_chars(text@.take(i as int)),
        decreases n - i,
    {
        out.append(decimal_char(text[i]));
        assert(ascii_chars(text@.take(i + 1)) =~= ascii_chars(text@.take(i as int)) + seq![
            text@[i as int] as char,
        ]);
        i = i + 1;
    }
    assert(text@.take(n as int) =~= text@);
}

/// Appends the decimal text of `v` to the string `out`.
pub fn push_decimal_str(out: &mut String, v: i64)
    ensures
        final(out)@ == old(out)@ + ascii_chars(decimal_text(v as int)),
{
    let mut text: Vec<u8> = Vec::new();
    push_signed_decimal(&mut text, v);
    proof {
        lemma_decimal_text_bytes(v as int);
        assert(text@ =~= decimal_text(v as int));
    }
    push_text(out, text.as_slice());
}

/// Appends the decimal digits of `n` to the string `out`.
pub fn push_unsigned_str(out: &mut String, n: u64)
    ensures
        final(out)@ == old(out)@ + ascii_chars(decimal_digits(n as nat)),
{
    let mut text: Vec<u8> = Vec::new();
    push_decimal(&mut text, n);
    proof {
        lemma_decimal_digits(n as nat);
        assert(text@ =~= decimal_digits(n as nat));
    }
    push_text(out, text.as_slice());
}

} // verus!
