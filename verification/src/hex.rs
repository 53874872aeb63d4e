//! Decoding of hexadecimal attribute text into fixed-width unsigned integers.
//!
//! An attribute's text is a run of hexadecimal digits, optionally introduced by
//! `0x` or `0X`, optionally surrounded by whitespace. The model of a text is
//! its sequence of characters; everything here is stated over `Seq<char>`.

use vstd::prelude::*;

verus! {

/// Why a text does not denote a number of the requested width.
#[derive(Debug, Clone, Copy, PartialEq, Eq, Structural)]
pub enum HexDecodeError {
    /// Nothing is left once whitespace and prefix are removed.
    Empty,
    /// Some character of the payload is not a hexadecimal digit.
    InvalidDigit,
    /// The payload is a number, but one too large for the width.
    Overflow,
}

/// Largest value of an 8-bit attribute.
pub const MAX_U8: u32 = 0xff;

/// Largest value of a 16-bit attribute.
pub const MAX_U16: u32 = 0xffff;

/// Largest value of a 32-bit attribute.
pub const MAX_U32: u32 = 0xffff_ffff;

/// The characters with the Unicode property `White_Space`.
pub open spec fn is_whitespace(c: char) -> bool {
    let u = c as u32;
    ||| 0x09 <= u <= 0x0d
    ||| u == 0x20
    ||| u == 0x85
    ||| u == 0xa0
    ||| u == 0x1680
    ||| 0x2000 <= u <= 0x200a
    ||| u == 0x2028
    ||| u == 0x2029
    ||| u == 0x202f
    ||| u == 0x205f
    ||| u == 0x3000
}

/// `0`-`9`, `a`-`f` and `A`-`F`.
pub open spec fn is_hex_digit(c: char) -> bool {
    ||| '0' <= c <= '9'
    ||| 'a' <= c <= 'f'
    ||| 'A' <= c <= 'F'
}

/// The number a hexadecimal digit stands for; the two cases of a letter
/// stand for the same number.
pub open spec fn hex_digit_value(c: char) -> nat {
    if '0' <= c <= '9' {
        (c as u32 - '0' as u32) as nat
    } else if 'a' <= c <= 'f' {
        (c as u32 - 'a' as u32 + 10) as nat
    } else if 'A' <= c <= 'F' {
        (c as u32 - 'A' as u32 + 10) as nat
    } else {
        0
    }
}

/// Every character of `s` is a hexadecimal digit.
pub open spec fn all_hex_digits(s: Seq<char>) -> bool {
    forall|i: int| 0 <= i < s.len() ==> is_hex_digit(#[trigger] s[i])
}

/// The number that the digits of `s` denote in base 16, most significant
/// digit first. The empty sequence denotes zero.
pub open spec fn hex_value(s: Seq<char>) -> nat
    decreases s.len(),
{
    if s.len() == 0 {
        0
    } else {
        16 * hex_value(s.drop_last()) + hex_digit_value(s.last())
    }
}

/// `s` without its leading whitespace.
pub open spec fn trim_start(s: Seq<char>) -> Seq<char>
    decreases s.len(),
{
    if s.len() > 0 && is_whitespace(s[0]) {
        trim_start(s.drop_first())
    } else {
        s
    }
}

/// `s` without its trailing whitespace.
pub open spec fn trim_end(s: Seq<char>) -> Seq<char>
    decreases s.len(),
{
    if s.len() > 0 && is_whitespace(s.last()) {
        trim_end(s.drop_last())
    } else {
        s
    }
}

/// `s` without the whitespace around it.
pub open spec fn trim(s: Seq<char>) -> Seq<char> {
    trim_end(trim_start(s))
}

/// `s` begins with `0x` or `0X`.
pub open spec fn has_hex_prefix(s: Seq<char>) -> bool {
    s.len() >= 2 && s[0] == '0' && (s[1] == 'x' || s[1] == 'X')
}

/// `s` without a leading `0x` or `0X`, if it has one.
pub open spec fn strip_hex_prefix(s: Seq<char>) -> Seq<char> {
    if has_hex_prefix(s) {
        s.skip(2)
    } else {
        s
    }
}

/// The digits of a text: what is left once the whitespace around the text,
/// then an optional prefix, then the whitespace around the rest are removed.
pub open spec fn hex_payload(text: Seq<char>) -> Seq<char> {
    trim(strip_hex_prefix(trim(text)))
}

/// What a run of characters, taken as digits, denotes among the numbers up
/// to `max`.
pub open spec fn parse_hex_digits(digits: Seq<char>, max: nat) -> Result<nat, HexDecodeError> {
    if digits.len() == 0 {
        Err(HexDecodeError::Empty)
    } else if !all_hex_digits(digits) {
        Err(HexDecodeError::InvalidDigit)
    } else if hex_value(digits) > max {
        Err(HexDecodeError::Overflow)
    } else {
        Ok(hex_value(digits))
    }
}

/// What a text denotes among the numbers up to `max`.
pub open spec fn decode_hex(text: Seq<char>, max: nat) -> Result<nat, HexDecodeError> {
    parse_hex_digits(hex_payload(text), max)
}

/// The number or failure that an executable result stands for.
spec fn decoded_as(result: Result<u32, HexDecodeError>) -> Result<nat, HexDecodeError> {
    match result {
        Ok(value) => Ok(value as nat),
        Err(error) => Err(error),
    }
}

fn chars_of(text: &str) -> (chars: Vec<char>)
    ensures
        chars@ == text@,
{
    let mut chars: Vec<char> = Vec::new();
    for c in it: text.chars()
        invariant
            chars@ == it.seq().take(it.index() as int),
    {
        chars.push(c);
    }
    chars
}

fn whitespace(c: char) -> (yes: bool)
    ensures
        yes == is_whitespace(c),
{
    let u: u32 = c as u32;
    (0x09 <= u && u <= 0x0d) || u == 0x20 || u == 0x85 || u == 0xa0 || u == 0x1680 || (0x2000 <= u
        && u <= 0x200a) || u == 0x2028 || u == 0x2029 || u == 0x202f || u == 0x205f || u == 0x3000
}

fn digit_of(c: char) -> (digit: Option<u8>)
    ensures
        digit is Some <==> is_hex_digit(c),
        digit matches Some(d) ==> d == hex_digit_value(c) && d < 16,
{
    let u: u32 = c as u32;
    if 0x30 <= u && u <= 0x39 {
        Some((u - 0x30) as u8)
    } else if 0x61 <= u && u <= 0x66 {
        Some((u - 0x61 + 10) as u8)
    } else if 0x41 <= u && u <= 0x46 {
        Some((u - 0x41 + 10) as u8)
    } else {
        None
    }
}

/// The end of the leading whitespace of `chars[lo..hi]`.
fn skip_leading_whitespace(chars: &Vec<char>, lo: usize, hi: usize) -> (start: usize)
    requires
        lo <= hi <= chars.len(),
    ensures
        lo <= start <= hi,
        chars@.subrange(start as int, hi as int) == trim_start(
            chars@.subrange(lo as int, hi as int),
        ),
{
    let mut start: usize = lo;
    while start < hi && whitespace(chars[start])
        invariant
            lo <= start <= hi <= chars.len(),
            trim_start(chars@.subrange(start as int, hi as int)) == trim_start(
                chars@.subrange(lo as int, hi as int),
            ),
        decreases hi - start,
    {
        assert(chars@.subrange(start as int, hi as int).drop_first() =~= chars@.subrange(
            start + 1,
            hi as int,
        ));
        start += 1;
    }
    start
}

/// The start of the trailing whitespace of `chars[lo..hi]`.
fn skip_trailing_whitespace(chars: &Vec<char>, lo: usize, hi: usize) -> (end: usize)
    requires
        lo <= hi <= chars.len(),
    ensures
        lo <= end <= hi,
        chars@.subrange(lo as int, end as int) == trim_end(chars@.subrange(lo as int, hi as int)),
{
    let mut end: usize = hi;
    while lo < end && whitespace(chars[end - 1])
        invariant
            lo <= end <= hi <= chars.len(),
            trim_end(chars@.subrange(lo as int, end as int)) == trim_end(
                chars@.subrange(lo as int, hi as int),
            ),
        decreases end - lo,
    {
        assert(chars@.subrange(lo as int, end as int).drop_last() =~= chars@.subrange(
            lo as int,
            end - 1,
        ));
        end -= 1;
    }
    end
}

/// The end of the prefix `0x` or `0X` of `chars[lo..hi]`, or `lo` if it has none.
fn skip_hex_prefix(chars: &Vec<char>, lo: usize, hi: usize) -> (start: usize)
    requires
        lo <= hi <= chars.len(),
    ensures
        lo <= start <= hi,
        chars@.subrange(start as int, hi as int) == strip_hex_prefix(
            chars@.subrange(lo as int, hi as int),
        ),
{
    if hi - lo >= 2 && chars[lo] == '0' && (chars[lo + 1] == 'x' || chars[lo + 1] == 'X') {
        lo + 2
    } else {
        lo
    }
}

/// The number that the digits `chars[lo..hi]` denote, if it is at most `max`.
fn parse_digits(chars: &Vec<char>, lo: usize, hi: usize, max: u32) -> (result: Result<
    u32,
    HexDecodeError,
>)
    requires
        lo <= hi <= chars.len(),
    ensures
        decoded_as(result) == parse_hex_digits(chars@.subrange(lo as int, hi as int), max as nat),
{
    if lo == hi {
        return Err(HexDecodeError::Empty);
    }
    let ghost digits = chars@.subrange(lo as int, hi as int);
    let mut value: u64 = 0;
    let mut overflow = false;
    let mut i: usize = lo;
    while i < hi
        invariant
            lo <= i <= hi <= chars.len(),
            digits == chars@.subrange(lo as int, hi as int),
            all_hex_digits(chars@.subrange(lo as int, i as int)),
            !overflow ==> value == hex_value(chars@.subrange(lo as int, i as int)) && value <= max,
            overflow ==> hex_value(chars@.subrange(lo as int, i as int)) > max,
        decreases hi - i,
    {
        let ghost before = chars@.subrange(lo as int, i as int);
        let ghost after = chars@.subrange(lo as int, i + 1);
        assert(after.drop_last() =~= before);
        match digit_of(chars[i]) {
            None => {
                assert(digits[i - lo] == chars@[i as int]);
                return Err(HexDecodeError::InvalidDigit);
            },
            Some(digit) => {
                if !overflow {
                    value = value * 16 + digit as u64;
                    if value > max as u64 {
                        overflow = true;
                    }
                }
            },
        }
        i += 1;
    }
    if overflow {
        Err(HexDecodeError::Overflow)
    } else {
        Ok(value as u32)
    }
}

/// Decodes `text` as a hexadecimal number of at most `max`.
fn decode_up_to(text: &str, max: u32) -> (result: Result<u32, HexDecodeError>)
    ensures
        decoded_as(result) == decode_hex(text@, max as nat),
{
    let chars = chars_of(text);
    let len = chars.len();
    let outer_lo = skip_leading_whitespace(&chars, 0, len);
    let outer_hi = skip_trailing_whitespace(&chars, outer_lo, len);
    assert(chars@.subrange(0, len as int) =~= chars@);
    let body_lo = skip_hex_prefix(&chars, outer_lo, outer_hi);
    let lo = skip_leading_whitespace(&chars, body_lo, outer_hi);
    let hi = skip_trailing_whitespace(&chars, lo, outer_hi);
    parse_digits(&chars, lo, hi, max)
}

/// Decodes an 8-bit attribute.
///
/// Succeeds exactly on the texts whose payload is a non-empty run of
/// hexadecimal digits denoting at most 255, with that number.
pub fn ox_hex_string_to_u8(input_string: &str) -> (result: Result<u8, HexDecodeError>)
    ensures
        match result {
            Ok(value) => decode_hex(input_string@, MAX_U8 as nat) == Ok::<nat, HexDecodeError>(
                value as nat,
            ),
            Err(error) => decode_hex(input_string@, MAX_U8 as nat) == Err::<nat, HexDecodeError>(
                error,
            ),
        },
{
    match decode_up_to(input_string, MAX_U8) {
        Ok(value) => Ok(value as u8),
        Err(error) => Err(error),
    }
}

/// Decodes a 16-bit attribute.
///
/// Succeeds exactly on the texts whose payload is a non-empty run of
/// hexadecimal digits denoting at most 65535, with that number.
pub fn ox_hex_string_to_u16(input_string: &str) -> (result: Result<u16, HexDecodeError>)
    ensures
        match result {
            Ok(value) => decode_hex(input_string@, MAX_U16 as nat) == Ok::<nat, HexDecodeError>(
                value as nat,
            ),
            Err(error) => decode_hex(input_string@, MAX_U16 as nat) == Err::<nat, HexDecodeError>(
                error,
            ),
        },
{
    match decode_up_to(input_string, MAX_U16) {
        Ok(value) => Ok(value as u16),
        Err(error) => Err(error),
    }
}

/// Decodes a 32-bit attribute.
///
/// Succeeds exactly on the texts whose payload is a non-empty run of
/// hexadecimal digits denoting at most 4294967295, with that number.
pub fn ox_hex_string_to_u32(input_string: &str) -> (result: Result<u32, HexDecodeError>)
    ensures
        match result {
            Ok(value) => decode_hex(input_string@, MAX_U32 as nat) == Ok::<nat, HexDecodeError>(
                value as nat,
            ),
            Err(error) => decode_hex(input_string@, MAX_U32 as nat) == Err::<nat, HexDecodeError>(
                error,
            ),
        },
{
    decode_up_to(input_string, MAX_U32)
}

/// Every character of `s` is whitespace.
pub open spec fn all_whitespace(s: Seq<char>) -> bool {
    forall|i: int| 0 <= i < s.len() ==> is_whitespace(#[trigger] s[i])
}

/// `a` and `b` are the same character, or the two cases of one of the
/// letters `a`-`z`.
pub open spec fn same_ignoring_case(a: char, b: char) -> bool {
    ||| a == b
    ||| 'a' <= a <= 'z' && b as u32 + 0x20 == a as u32
    ||| 'a' <= b <= 'z' && a as u32 + 0x20 == b as u32
}

/// `s` and `t` are the same text but for the case of their letters.
pub open spec fn same_text_ignoring_case(s: Seq<char>, t: Seq<char>) -> bool {
    &&& s.len() == t.len()
    &&& forall|i: int| 0 <= i < s.len() ==> same_ignoring_case(#[trigger] s[i], t[i])
}

/// 16 to the power `n`: the number of values that `n` digits can denote.
spec fn pow16(n: nat) -> nat
    decreases n,
{
    if n == 0 {
        1
    } else {
        16 * pow16((n - 1) as nat)
    }
}

/// Some digit of `digits` before position `end` is not zero.
pub open spec fn has_nonzero_before(digits: Seq<char>, end: int) -> bool {
    exists|i: int| 0 <= i < end && i < digits.len() && hex_digit_value(#[trigger] digits[i]) != 0
}

proof fn lemma_trim_start_skips(lead: Seq<char>, s: Seq<char>)
    requires
        all_whitespace(lead),
    ensures
        trim_start(lead + s) == trim_start(s),
    decreases lead.len(),
{
    if lead.len() > 0 {
        assert((lead + s).drop_first() =~= lead.drop_first() + s);
        lemma_trim_start_skips(lead.drop_first(), s);
    }
}

proof fn lemma_trim_end_skips(s: Seq<char>, trail: Seq<char>)
    requires
        all_whitespace(trail),
    ensures
        trim_end(s + trail) == trim_end(s),
    decreases trail.len(),
{
    if trail.len() > 0 {
        assert((s + trail).drop_last() =~= s + trail.drop_last());
        lemma_trim_end_skips(s, trail.drop_last());
    }
}

proof fn lemma_trim_skips_trailing(s: Seq<char>, trail: Seq<char>)
    requires
        all_whitespace(trail),
    ensures
        trim(s + trail) == trim(s),
    decreases s.len(),
{
    if s.len() == 0 {
        lemma_trim_start_skips(trail, s);
    } else if is_whitespace(s[0]) {
        assert((s + trail).drop_first() =~= s.drop_first() + trail);
        lemma_trim_skips_trailing(s.drop_first(), trail);
    } else {
        lemma_trim_end_skips(s, trail);
    }
}

/// Whitespace around a text does not count: with any whitespace put before
/// it and after it, a text decodes to what it decodes to without.
pub proof fn lemma_decode_ignores_surrounding_whitespace(
    lead: Seq<char>,
    text: Seq<char>,
    trail: Seq<char>,
    max: nat,
)
    requires
        all_whitespace(lead),
        all_whitespace(trail),
    ensures
        decode_hex(lead + text + trail, max) == decode_hex(text, max),
{
    assert(lead + text + trail =~= lead + (text + trail));
    lemma_trim_start_skips(lead, text + trail);
    lemma_trim_skips_trailing(text, trail);
}

/// A run of hexadecimal digits is its own payload: it has no whitespace
/// around it and no prefix.
pub proof fn lemma_digits_are_their_payload(digits: Seq<char>)
    requires
        all_hex_digits(digits),
    ensures
        trim(digits) == digits,
        strip_hex_prefix(digits) == digits,
        hex_payload(digits) == digits,
{
}

/// The prefix does not count: a run of hexadecimal digits decodes to the
/// same with `0x` before it, with `0X` before it, and alone.
pub proof fn lemma_decode_ignores_prefix(digits: Seq<char>, max: nat)
    requires
        all_hex_digits(digits),
    ensures
        decode_hex(seq!['0', 'x'] + digits, max) == decode_hex(digits, max),
        decode_hex(seq!['0', 'X'] + digits, max) == decode_hex(digits, max),
{
    lemma_digits_are_their_payload(digits);
    let lower = seq!['0', 'x'] + digits;
    let upper = seq!['0', 'X'] + digits;
    assert(lower.skip(2) =~= digits);
    assert(upper.skip(2) =~= digits);
}

proof fn lemma_case_of_char(a: char, b: char)
    requires
        same_ignoring_case(a, b),
    ensures
        is_whitespace(a) == is_whitespace(b),
        is_hex_digit(a) == is_hex_digit(b),
        hex_digit_value(a) == hex_digit_value(b),
        (a == '0') == (b == '0'),
        (a == 'x' || a == 'X') == (b == 'x' || b == 'X'),
{
}

proof fn lemma_case_trim_start(s: Seq<char>, t: Seq<char>)
    requires
        same_text_ignoring_case(s, t),
    ensures
        same_text_ignoring_case(trim_start(s), trim_start(t)),
    decreases s.len(),
{
    if s.len() > 0 {
        lemma_case_of_char(s[0], t[0]);
        if is_whitespace(s[0]) {
            lemma_case_trim_start(s.drop_first(), t.drop_first());
        }
    }
}

proof fn lemma_case_trim_end(s: Seq<char>, t: Seq<char>)
    requires
        same_text_ignoring_case(s, t),
    ensures
        same_text_ignoring_case(trim_end(s), trim_end(t)),
    decreases s.len(),
{
    if s.len() > 0 {
        lemma_case_of_char(s[s.len() - 1], t[s.len() - 1]);
        if is_whitespace(s.last()) {
            lemma_case_trim_end(s.drop_last(), t.drop_last());
        }
    }
}

proof fn lemma_case_payload(s: Seq<char>, t: Seq<char>)
    requires
        same_text_ignoring_case(s, t),
    ensures
        same_text_ignoring_case(hex_payload(s), hex_payload(t)),
{
    lemma_case_trim_start(s, t);
    lemma_case_trim_end(trim_start(s), trim_start(t));
    let a = trim(s);
    let b = trim(t);
    if a.len() >= 2 {
        lemma_case_of_char(a[0], b[0]);
        lemma_case_of_char(a[1], b[1]);
    }
    let c = strip_hex_prefix(a);
    let d = strip_hex_prefix(b);
    lemma_case_trim_start(c, d);
    lemma_case_trim_end(trim_start(c), trim_start(d));
}

proof fn lemma_case_value(s: Seq<char>, t: Seq<char>)
    requires
        same_text_ignoring_case(s, t),
    ensures
        all_hex_digits(s) == all_hex_digits(t),
        hex_value(s) == hex_value(t),
    decreases s.len(),
{
    assert forall|i: int| 0 <= i < s.len() implies is_hex_digit(#[trigger] s[i]) == is_hex_digit(
        t[i],
    ) by {
        lemma_case_of_char(s[i], t[i]);
    }
    if all_hex_digits(s) {
        assert forall|i: int| 0 <= i < t.len() implies is_hex_digit(#[trigger] t[i]) by {
            assert(is_hex_digit(s[i]));
        }
    }
    if s.len() > 0 {
        lemma_case_of_char(s[s.len() - 1], t[s.len() - 1]);
        lemma_case_value(s.drop_last(), t.drop_last());
    }
}

/// The case of letters does not count: two texts that differ only in the
/// case of their letters decode to the same.
pub proof fn lemma_decode_ignores_case(s: Seq<char>, t: Seq<char>, max: nat)
    requires
        same_text_ignoring_case(s, t),
    ensures
        decode_hex(s, max) == decode_hex(t, max),
{
    lemma_case_payload(s, t);
    lemma_case_value(hex_payload(s), hex_payload(t));
}

proof fn lemma_pow16_grows(low: nat, high: nat)
    requires
        low <= high,
    ensures
        pow16(low) <= pow16(high),
        pow16(low) >= 1,
    decreases high,
{
    if low < high {
        lemma_pow16_grows(low, (high - 1) as nat);
    } else if low > 0 {
        lemma_pow16_grows((low - 1) as nat, (low - 1) as nat);
    }
}

proof fn lemma_digit_bounds_value(digits: Seq<char>, i: int)
    requires
        0 <= i < digits.len(),
    ensures
        hex_value(digits) >= hex_digit_value(digits[i]) * pow16((digits.len() - 1 - i) as nat),
    decreases digits.len(),
{
    let digit = hex_digit_value(digits[i]);
    if i == digits.len() - 1 {
        assert(digit * pow16(0) == digit) by (nonlinear_arith)
            requires
                pow16(0) == 1,
        ;
    } else {
        let front = digits.drop_last();
        lemma_digit_bounds_value(front, i);
        let below = pow16((front.len() - 1 - i) as nat);
        assert(digit * (16 * below) == 16 * (digit * below)) by (nonlinear_arith);
    }
}

proof fn lemma_surplus_digits_overflow(digits: Seq<char>, width: nat)
    requires
        digits.len() > width,
        has_nonzero_before(digits, digits.len() - width),
    ensures
        hex_value(digits) >= pow16(width),
{
    let i = choose|i: int|
        0 <= i < digits.len() - width && i < digits.len() && hex_digit_value(#[trigger] digits[i])
            != 0;
    let digit = hex_digit_value(digits[i]);
    let high = pow16((digits.len() - 1 - i) as nat);
    lemma_digit_bounds_value(digits, i);
    lemma_pow16_grows(width, (digits.len() - 1 - i) as nat);
    assert(digit * high >= high) by (nonlinear_arith)
        requires
            digit >= 1,
            high >= 0,
    ;
}

/// Too many digits for the width. A text whose payload has more characters
/// than the width has digits (two for 8 bits, four for 16, eight for 32)
/// does not decode at that width, unless the digits in front that the width
/// has no room for are all zero.
pub proof fn lemma_surplus_digits_do_not_decode(text: Seq<char>)
    ensures
        hex_payload(text).len() > 2 && has_nonzero_before(
            hex_payload(text),
            hex_payload(text).len() - 2,
        ) ==> decode_hex(text, MAX_U8 as nat) is Err,
        hex_payload(text).len() > 4 && has_nonzero_before(
            hex_payload(text),
            hex_payload(text).len() - 4,
        ) ==> decode_hex(text, MAX_U16 as nat) is Err,
        hex_payload(text).len() > 8 && has_nonzero_before(
            hex_payload(text),
            hex_payload(text).len() - 8,
        ) ==> decode_hex(text, MAX_U32 as nat) is Err,
{
    let digits = hex_payload(text);
    reveal_with_fuel(pow16, 9);
    if digits.len() > 2 && has_nonzero_before(digits, digits.len() - 2) {
        lemma_surplus_digits_overflow(digits, 2);
    }
    if digits.len() > 4 && has_nonzero_before(digits, digits.len() - 4) {
        lemma_surplus_digits_overflow(digits, 4);
    }
    if digits.len() > 8 && has_nonzero_before(digits, digits.len() - 8) {
        lemma_surplus_digits_overflow(digits, 8);
    }
}

} // verus!
