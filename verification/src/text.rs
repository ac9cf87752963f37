//! Characters and text: the conversions that parsing and reporting share.

use vstd::prelude::*;
use vstd::utf8;

verus! {

/// [`String::push`] appends one character and leaves the rest as it was.
pub assume_specification[ std::string::String::push ](s: &mut std::string::String, c: char)
    ensures
        final(s)@ == old(s)@.push(c),
;

/// The characters of a text, in order.
pub fn chars_of(s: &str) -> (chars: Vec<char>)
    ensures
        chars@ == s@,
{
    let mut chars: Vec<char> = Vec::new();
    for c in it: s.chars()
        invariant
            chars@ == s@.take(it.index()),
            it.seq() == s@,
    {
        chars.push(c);
    }
    proof {
        assert(s@.take(s@.len() as int) == s@);
    }
    chars
}

/// The text made of the given characters.
pub fn text_of(chars: &[char]) -> (text: String)
    ensures
        text@ == chars@,
{
    let mut text = String::new();
    let mut i: usize = 0;
    while i < chars.len()
        invariant
            i <= chars.len(),
            text@ == chars@.take(i as int),
        decreases chars.len() - i,
    {
        text.push(chars[i]);
        i += 1;
        proof {
            assert(chars@.take(i as int) == chars@.take(i - 1).push(chars@[i - 1]));
        }
    }
    proof {
        assert(chars@.take(chars@.len() as int) == chars@);
    }
    text
}

/// Whether two byte slices hold the same bytes.
pub fn same_bytes(a: &[u8], b: &[u8]) -> (same: bool)
    ensures
        same == (a@ == b@),
{
    if a.len() != b.len() {
        return false;
    }
    let mut i: usize = 0;
    while i < a.len()
        invariant
            i <= a.len(),
            a@.len() == b@.len(),
            forall|j: int| 0 <= j < i ==> a@[j] == b@[j],
        decreases a.len() - i,
    {
        if a[i] != b[i] {
            return false;
        }
        i += 1;
    }
    proof {
        assert(a@ =~= b@);
    }
    true
}

/// Whether two texts hold the same characters.
pub fn same_text(a: &str, b: &str) -> (same: bool)
    ensures
        same == (a@ == b@),
{
    proof {
        utf8::encode_utf8_decode_utf8(a@);
        utf8::encode_utf8_decode_utf8(b@);
    }
    same_bytes(a.as_bytes(), b.as_bytes())
}


/// Unicode `White_Space`.
pub open spec fn is_space(c: char) -> bool {
    ||| 0x9 <= c as int <= 0xd
    ||| c as int == 0x20
    ||| c as int == 0x85
    ||| c as int == 0xa0
    ||| c as int == 0x1680
    ||| 0x2000 <= c as int <= 0x200a
    ||| 0x2028 <= c as int <= 0x2029
    ||| c as int == 0x202f
    ||| c as int == 0x205f
    ||| c as int == 0x3000
}

/// Whether a character separates words.
pub fn is_whitespace(c: char) -> (space: bool)
    ensures
        space == is_space(c),
{
    let code: u32 = c as u32;
    (0x9 <= code && code <= 0xd) || code == 0x20 || code == 0x85 || code == 0xa0 || code == 0x1680
        || (0x2000 <= code && code <= 0x200a) || code == 0x2028 || code == 0x2029 || code == 0x202f
        || code == 0x205f || code == 0x3000
}

/// The maximal runs of characters that hold no whitespace, in order.
pub open spec fn words(s: Seq<char>) -> Seq<Seq<char>>
    decreases s.len(),
{
    if s.len() == 0 {
        Seq::empty()
    } else {
        let before = words(s.drop_last());
        if is_space(s.last()) {
            before
        } else if s.len() > 1 && !is_space(s[s.len() - 2]) {
            before.drop_last().push(before.last().push(s.last()))
        } else {
            before.push(seq![s.last()])
        }
    }
}

/// Splits a text at whitespace into its words.
pub fn split_words(s: &str) -> (result: Vec<Vec<char>>)
    ensures
        result.deep_view() == words(s@),
{
    let chars = chars_of(s);
    let mut result: Vec<Vec<char>> = Vec::new();
    let mut current: Vec<char> = Vec::new();
    let mut i: usize = 0;
    while i < chars.len()
        invariant
            i <= chars.len(),
            chars@ == s@,
            (current@.len() > 0) == (i > 0 && !is_space(s@[i - 1])),
            current@.len() == 0 ==> result.deep_view() == words(s@.take(i as int)),
            current@.len() > 0 ==> result.deep_view().push(current@) == words(s@.take(i as int)),
        decreases chars.len() - i,
    {
        let c = chars[i];
        let ghost before = s@.take(i as int);
        let ghost after = s@.take(i + 1);
        proof {
            assert(after.drop_last() == before);
            assert(after.last() == c);
        }
        if is_whitespace(c) {
            if current.len() > 0 {
                proof {
                    assert(current.deep_view() == current@);
                }
                result.push(current);
                current = Vec::new();
            }
        } else {
            let ghost open = current@;
            let ghost closed = result.deep_view();
            current.push(c);
            proof {
                if open.len() > 0 {
                    assert(after[after.len() - 2] == s@[i - 1]);
                    assert(words(before).drop_last() == closed);
                    assert(words(before).last() == open);
                } else {
                    assert(current@ == seq![c]);
                }
            }
        }
        i += 1;
    }
    proof {
        assert(s@.take(s@.len() as int) == s@);
    }
    if current.len() > 0 {
        proof {
            assert(current.deep_view() == current@);
        }
        result.push(current);
    }
    result
}

/// The value of a hexadecimal digit.
pub open spec fn hex_value(c: char) -> Option<int> {
    if '0' <= c <= '9' {
        Some(c as int - '0' as int)
    } else if 'a' <= c <= 'f' {
        Some(c as int - 'a' as int + 10)
    } else if 'A' <= c <= 'F' {
        Some(c as int - 'A' as int + 10)
    } else {
        None
    }
}

/// The value of a digit in the given radix, which is at most sixteen.
pub open spec fn digit_value(c: char, radix: int) -> Option<int> {
    match hex_value(c) {
        Some(value) => if value < radix {
            Some(value)
        } else {
            None
        },
        None => None,
    }
}

/// Why a text writes no number.
#[derive(Debug, Clone, Copy, PartialEq, Eq, Structural)]
pub enum NumberError {
    Empty,
    InvalidDigit,
    TooLarge,
}

impl NumberError {
    /// The error in words.
    pub open spec fn words(self) -> Seq<char> {
        match self {
            NumberError::Empty => "cannot parse integer from empty string"@,
            NumberError::InvalidDigit => "invalid digit found in string"@,
            NumberError::TooLarge => "number too large to fit in target type"@,
        }
    }

    /// The error in words.
    pub fn describe(self) -> (words: &'static str)
        ensures
            words@ == self.words(),
    {
        match self {
            NumberError::Empty => "cannot parse integer from empty string",
            NumberError::InvalidDigit => "invalid digit found in string",
            NumberError::TooLarge => "number too large to fit in target type",
        }
    }
}

/// The number that a run of digits writes, at most `max`; the first character that
/// is no digit or takes the number beyond `max` decides the error.
pub open spec fn digits_number(s: Seq<char>, radix: int, max: int) -> Result<int, NumberError>
    decreases s.len(),
{
    if s.len() == 0 {
        Ok(0)
    } else {
        match digits_number(s.drop_last(), radix, max) {
            Ok(before) => match digit_value(s.last(), radix) {
                Some(digit) => if before * radix + digit <= max {
                    Ok(before * radix + digit)
                } else {
                    Err(NumberError::TooLarge)
                },
                None => Err(NumberError::InvalidDigit),
            },
            Err(error) => Err(error),
        }
    }
}

/// The number that a text writes in the given radix, at most `max`: an optional
/// plus sign and at least one digit.
pub open spec fn number_of(s: Seq<char>, radix: int, max: int) -> Result<int, NumberError> {
    if s.len() == 0 {
        Err(NumberError::Empty)
    } else if s[0] == '+' {
        if s.len() == 1 {
            Err(NumberError::InvalidDigit)
        } else {
            digits_number(s.drop_first(), radix, max)
        }
    } else {
        digits_number(s, radix, max)
    }
}

/// An error among the first characters is the error of the whole.
proof fn lemma_digits_error(s: Seq<char>, n: int, radix: int, max: int)
    requires
        0 <= n <= s.len(),
        digits_number(s.take(n), radix, max) is Err,
    ensures
        digits_number(s, radix, max) == digits_number(s.take(n), radix, max),
    decreases s.len() - n,
{
    if n < s.len() {
        assert(s.take(n + 1).drop_last() =~= s.take(n));
        lemma_digits_error(s, n + 1, radix, max);
    } else {
        assert(s.take(n) =~= s);
    }
}

/// The value of a digit in the given radix.
pub fn digit_of(c: char, radix: u64) -> (value: Option<u64>)
    requires
        radix <= 16,
    ensures
        match value {
            Some(v) => digit_value(c, radix as int) == Some(v as int),
            None => digit_value(c, radix as int) is None,
        },
{
    let code: u64 = c as u64;
    let value: u64 = if '0' <= c && c <= '9' {
        code - 48
    } else if 'a' <= c && c <= 'f' {
        code - 87
    } else if 'A' <= c && c <= 'F' {
        code - 55
    } else {
        return None;
    };
    if value < radix {
        Some(value)
    } else {
        None
    }
}

/// Reads a number in the given radix, at most `max`.
pub fn parse_number(chars: &[char], radix: u64, max: u64) -> (result: Result<u64, NumberError>)
    requires
        1 <= radix <= 16,
    ensures
        match result {
            Ok(value) => number_of(chars@, radix as int, max as int) == Ok::<int, NumberError>(
                value as int,
            ),
            Err(error) => number_of(chars@, radix as int, max as int) == Err::<int, NumberError>(
                error,
            ),
        },
{
    if chars.len() == 0 {
        return Err(NumberError::Empty);
    }
    let start: usize = if chars[0] == '+' {
        1
    } else {
        0
    };
    if start >= chars.len() {
        return Err(NumberError::InvalidDigit);
    }
    let ghost digits = chars@.skip(start as int);
    proof {
        assert(chars@.skip(0) =~= chars@);
        assert(chars@.skip(1) =~= chars@.drop_first());
        assert(digits.take(0) =~= Seq::<char>::empty());
    }
    let mut value: u64 = 0;
    let mut i: usize = start;
    while i < chars.len()
        invariant
            start <= i <= chars.len(),
            1 <= radix <= 16,
            digits == chars@.skip(start as int),
            number_of(chars@, radix as int, max as int) == digits_number(
                digits,
                radix as int,
                max as int,
            ),
            digits_number(digits.take(i - start), radix as int, max as int) == Ok::<
                int,
                NumberError,
            >(value as int),
        decreases chars.len() - i,
    {
        let ghost n = i - start;
        let ghost longer = digits.take(n + 1);
        proof {
            assert(longer.drop_last() =~= digits.take(n));
            assert(longer.last() == chars@[i as int]);
            assert(value * radix <= 0xffff_ffff_ffff_ffff * 16) by (nonlinear_arith)
                requires
                    value <= 0xffff_ffff_ffff_ffffu64,
                    radix <= 16,
            ;
        }
        let Some(digit) = digit_of(chars[i], radix) else {
            proof {
                lemma_digits_error(digits, n + 1, radix as int, max as int);
            }
            return Err(NumberError::InvalidDigit);
        };
        let grown: u128 = value as u128 * radix as u128 + digit as u128;
        if grown > max as u128 {
            proof {
                lemma_digits_error(digits, n + 1, radix as int, max as int);
            }
            return Err(NumberError::TooLarge);
        }
        value = grown as u64;
        i += 1;
    }
    proof {
        assert(digits.take(digits.len() as int) =~= digits);
    }
    Ok(value)
}

/// A hexadecimal digit, in lower case.
pub open spec fn hex_digit(value: int) -> char {
    if value < 10 {
        ('0' as int + value) as char
    } else {
        ('a' as int + value - 10) as char
    }
}

/// A number in hexadecimal, without leading zeros.
pub open spec fn hex_text(n: nat) -> Seq<char>
    decreases n,
{
    if n < 16 {
        seq![hex_digit(n as int)]
    } else {
        hex_text(n / 16).push(hex_digit((n % 16) as int))
    }
}

/// A byte in hexadecimal, as two digits.
pub open spec fn byte_hex(byte: u8) -> Seq<char> {
    seq![hex_digit(byte as int / 16), hex_digit(byte as int % 16)]
}

/// Appends a byte in hexadecimal, as two digits.
pub fn push_byte_hex(out: &mut String, byte: u8)
    ensures
        final(out)@ == old(out)@ + byte_hex(byte),
{
    let ghost start = out@;
    out.push(digit_char(byte / 16));
    out.push(digit_char(byte % 16));
    proof {
        assert(out@ =~= start + byte_hex(byte));
    }
}

/// A number in decimal, without leading zeros.
pub open spec fn decimal_text(n: nat) -> Seq<char>
    decreases n,
{
    if n < 10 {
        seq![hex_digit(n as int)]
    } else {
        decimal_text(n / 10).push(hex_digit((n % 10) as int))
    }
}

/// The hexadecimal digit of a value below sixteen.
pub fn digit_char(value: u8) -> (digit: char)
    requires
        value < 16,
    ensures
        digit == hex_digit(value as int),
{
    if value < 10 {
        (48 + value) as char
    } else {
        (87 + value) as char
    }
}

/// Appends a number in hexadecimal.
pub fn push_hex(out: &mut String, n: u64)
    ensures
        final(out)@ == old(out)@ + hex_text(n as nat),
    decreases n,
{
    let ghost start = out@;
    if n >= 16 {
        push_hex(out, n / 16);
    }
    let ghost middle = out@;
    out.push(digit_char((n % 16) as u8));
    proof {
        if n >= 16 {
            assert(middle == start + hex_text((n / 16) as nat));
        }
        assert(out@ =~= start + hex_text(n as nat));
    }
}

/// Appends a number in decimal.
pub fn push_decimal(out: &mut String, n: u64)
    ensures
        final(out)@ == old(out)@ + decimal_text(n as nat),
    decreases n,
{
    let ghost start = out@;
    if n >= 10 {
        push_decimal(out, n / 10);
    }
    let ghost middle = out@;
    out.push(digit_char((n % 10) as u8));
    proof {
        if n >= 10 {
            assert(middle == start + decimal_text((n / 10) as nat));
        }
        assert(out@ =~= start + decimal_text(n as nat));
    }
}

/// A number in decimal.
pub fn decimal(n: u64) -> (text: String)
    ensures
        text@ == decimal_text(n as nat),
{
    let mut text = String::new();
    push_decimal(&mut text, n);
    proof {
        assert(Seq::<char>::empty() + decimal_text(n as nat) =~= decimal_text(n as nat));
    }
    text
}

/// A number in hexadecimal with its `0x` prefix.
pub open spec fn prefixed_hex(n: nat) -> Seq<char> {
    "0x"@ + hex_text(n)
}

/// A number in hexadecimal with its `0x` prefix.
pub fn hex(n: u64) -> (text: String)
    ensures
        text@ == prefixed_hex(n as nat),
{
    let mut text = "0x".to_string();
    push_hex(&mut text, n);
    text
}

/// The hexadecimal text of a number reads back as the number.
pub proof fn law_hex_round_trip(n: nat, max: int)
    requires
        n <= max,
    ensures
        number_of(hex_text(n), 16, max) == Ok::<int, NumberError>(n as int),
{
    lemma_hex_digits(n, max);
}

proof fn lemma_hex_digits(n: nat, max: int)
    requires
        n <= max,
    ensures
        hex_text(n).len() > 0,
        hex_text(n)[0] != '+',
        digits_number(hex_text(n), 16, max) == Ok::<int, NumberError>(n as int),
    decreases n,
{
    let s = hex_text(n);
    if n < 16 {
        assert(s.drop_last() =~= Seq::<char>::empty());
        assert(s.last() == hex_digit(n as int));
    } else {
        lemma_hex_digits(n / 16, max);
        assert(s.drop_last() =~= hex_text(n / 16));
        assert(s[0] == hex_text(n / 16)[0]);
    }
}

/// The decimal text of a number reads back as the number.
pub proof fn law_decimal_round_trip(n: nat, max: int)
    requires
        n <= max,
    ensures
        number_of(decimal_text(n), 10, max) == Ok::<int, NumberError>(n as int),
{
    lemma_decimal_digits(n, max);
}

proof fn lemma_decimal_digits(n: nat, max: int)
    requires
        n <= max,
    ensures
        decimal_text(n).len() > 0,
        decimal_text(n)[0] != '+',
        digits_number(decimal_text(n), 10, max) == Ok::<int, NumberError>(n as int),
    decreases n,
{
    let s = decimal_text(n);
    if n < 10 {
        assert(s.drop_last() =~= Seq::<char>::empty());
        assert(s.last() == hex_digit(n as int));
        assert(digits_number(s.drop_last(), 10, max) == Ok::<int, NumberError>(0));
        assert(digit_value(s.last(), 10) == Some(n as int));
    } else {
        lemma_decimal_digits(n / 10, max);
        assert(s.drop_last() =~= decimal_text(n / 10));
        assert(s.last() == hex_digit((n % 10) as int));
        assert(digit_value(s.last(), 10) == Some((n % 10) as int));
        assert((n / 10) * 10 + n % 10 == n);
        assert(s[0] == decimal_text(n / 10)[0]);
    }
}

/// A character with ASCII capitals in lower case.
pub open spec fn lower(c: char) -> char {
    if 'A' <= c <= 'Z' {
        (c as int + 32) as char
    } else {
        c
    }
}

/// A text with ASCII capitals in lower case.
pub open spec fn lowered(s: Seq<char>) -> Seq<char> {
    s.map_values(|c: char| lower(c))
}

fn lower_char(c: char) -> (result: char)
    ensures
        result == lower(c),
{
    if 'A' <= c && c <= 'Z' {
        ((c as u8) + 32) as char
    } else {
        c
    }
}

/// The characters of a text with ASCII capitals in lower case.
pub fn lowered_chars(s: &str) -> (chars: Vec<char>)
    ensures
        chars@ == lowered(s@),
{
    let source = chars_of(s);
    let mut chars: Vec<char> = Vec::new();
    let mut i: usize = 0;
    while i < source.len()
        invariant
            i <= source.len(),
            source@ == s@,
            chars@ == lowered(s@.take(i as int)),
        decreases source.len() - i,
    {
        chars.push(lower_char(source[i]));
        i += 1;
        proof {
            assert(lowered(s@.take(i as int)) =~= lowered(s@.take(i - 1)).push(lower(s@[i - 1])));
        }
    }
    proof {
        assert(s@.take(s@.len() as int) =~= s@);
    }
    chars
}

/// Whether two character lists are the same.
pub fn same_chars(a: &[char], b: &[char]) -> (same: bool)
    ensures
        same == (a@ == b@),
{
    if a.len() != b.len() {
        return false;
    }
    let mut i: usize = 0;
    while i < a.len()
        invariant
            i <= a.len(),
            a@.len() == b@.len(),
            forall|j: int| 0 <= j < i ==> a@[j] == b@[j],
        decreases a.len() - i,
    {
        if a[i] != b[i] {
            return false;
        }
        i += 1;
    }
    proof {
        assert(a@ =~= b@);
    }
    true
}

/// Whether two texts differ at most in the case of ASCII letters.
pub fn same_ignoring_case(a: &str, b: &str) -> (same: bool)
    ensures
        same == (lowered(a@) == lowered(b@)),
{
    same_chars(&lowered_chars(a), &lowered_chars(b))
}

/// Whether `needle` stands in `s` at an index.
pub open spec fn stands_at(s: Seq<char>, needle: Seq<char>, i: int) -> bool {
    0 <= i <= s.len() - needle.len() && s.subrange(i, i + needle.len()) == needle
}

/// Whether `needle` occurs in `s`.
pub open spec fn contains_text(s: Seq<char>, needle: Seq<char>) -> bool {
    exists|i: int| #[trigger] stands_at(s, needle, i)
}

/// Whether `needle` occurs in `s`.
pub fn contains(s: &[char], needle: &[char]) -> (found: bool)
    ensures
        found == contains_text(s@, needle@),
{
    if needle.len() > s.len() {
        return false;
    }
    let last: usize = s.len() - needle.len();
    let mut i: usize = 0;
    while i <= last
        invariant
            i <= last + 1,
            last + needle.len() == s.len(),
            forall|j: int| 0 <= j < i ==> !stands_at(s@, needle@, j),
        decreases last + 1 - i,
    {
        if same_chars(&s[i..i + needle.len()], needle) {
            proof {
                assert(stands_at(s@, needle@, i as int));
            }
            return true;
        }
        if i == last {
            return false;
        }
        i += 1;
    }
    false
}

/// Whether `s` begins with `prefix`.
pub open spec fn starts_with(s: Seq<char>, prefix: Seq<char>) -> bool {
    stands_at(s, prefix, 0)
}

/// Whether a text begins with `prefix`.
pub fn has_prefix(s: &str, prefix: &str) -> (found: bool)
    ensures
        found == starts_with(s@, prefix@),
{
    let chars = chars_of(s);
    let wanted = chars_of(prefix);
    wanted.len() <= chars.len() && same_chars(&chars[0..wanted.len()], &wanted)
}


/// A text without the whitespace at its ends.
pub open spec fn trimmed(s: Seq<char>) -> Seq<char>
    decreases s.len(),
{
    if s.len() == 0 {
        s
    } else if is_space(s[0]) {
        trimmed(s.drop_first())
    } else if is_space(s.last()) {
        trimmed(s.drop_last())
    } else {
        s
    }
}

/// The characters of a text without the whitespace at its ends.
pub fn trim(s: &[char]) -> (result: Vec<char>)
    ensures
        result@ == trimmed(s@),
{
    let mut start: usize = 0;
    let mut end: usize = s.len();
    proof {
        assert(s@.subrange(0, s@.len() as int) =~= s@);
    }
    while start < end && is_whitespace(s[start])
        invariant
            start <= end <= s.len(),
            trimmed(s@) == trimmed(s@.subrange(start as int, end as int)),
        decreases end - start,
    {
        proof {
            let rest = s@.subrange(start as int, end as int);
            assert(rest.drop_first() =~= s@.subrange(start + 1, end as int));
        }
        start += 1;
    }
    while start < end && is_whitespace(s[end - 1])
        invariant
            start <= end <= s.len(),
            start < end ==> !is_space(s@[start as int]),
            trimmed(s@) == trimmed(s@.subrange(start as int, end as int)),
        decreases end - start,
    {
        proof {
            let rest = s@.subrange(start as int, end as int);
            assert(rest.drop_last() =~= s@.subrange(start as int, end - 1));
            assert(rest.last() == s@[end - 1]);
            assert(rest[0] == s@[start as int]);
        }
        end -= 1;
    }
    let result = vstd::slice::slice_to_vec(&s[start..end]);
    proof {
        if start < end {
            assert(result@[0] == s@[start as int]);
            assert(result@.last() == s@[end - 1]);
        }
    }
    result
}

/// The parts of a text between the occurrences of a character.
pub open spec fn parts(s: Seq<char>, separator: char) -> Seq<Seq<char>>
    decreases s.len(),
{
    if s.len() == 0 {
        seq![Seq::empty()]
    } else {
        let before = parts(s.drop_last(), separator);
        if s.last() == separator {
            before.push(Seq::empty())
        } else {
            before.drop_last().push(before.last().push(s.last()))
        }
    }
}

/// The parts of a text between the occurrences of a character.
pub fn split(s: &[char], separator: char) -> (result: Vec<Vec<char>>)
    ensures
        result.deep_view() == parts(s@, separator),
{
    let mut result: Vec<Vec<char>> = Vec::new();
    let mut current: Vec<char> = Vec::new();
    let mut i: usize = 0;
    proof {
        assert(result.deep_view().push(current@) =~= parts(s@.take(0), separator));
    }
    while i < s.len()
        invariant
            i <= s.len(),
            result.deep_view().push(current@) == parts(s@.take(i as int), separator),
        decreases s.len() - i,
    {
        let c = s[i];
        let ghost before = result.deep_view();
        let ghost open = current@;
        proof {
            assert(s@.take(i + 1).drop_last() =~= s@.take(i as int));
            assert(s@.take(i + 1).last() == c);
            assert(before.push(open).drop_last() =~= before);
            assert(current.deep_view() =~= current@);
        }
        if c == separator {
            result.push(current);
            current = Vec::new();
            proof {
                assert(result.deep_view() =~= before.push(open));
                assert(current@ =~= Seq::<char>::empty());
            }
        } else {
            current.push(c);
        }
        i += 1;
    }
    proof {
        assert(s@.take(s@.len() as int) =~= s@);
        assert(current.deep_view() =~= current@);
    }
    let ghost before = result.deep_view();
    let ghost last = current@;
    result.push(current);
    proof {
        assert(result.deep_view() =~= before.push(last));
    }
    result
}

/// Lines put together, with a separator between them.
pub open spec fn joined(lines: Seq<Seq<char>>, separator: Seq<char>) -> Seq<char>
    decreases lines.len(),
{
    if lines.len() == 0 {
        Seq::empty()
    } else if lines.len() == 1 {
        lines[0]
    } else {
        joined(lines.drop_last(), separator) + separator + lines.last()
    }
}

/// Lines put together, with a separator between them.
pub fn join(lines: &Vec<String>, separator: &str) -> (text: String)
    ensures
        text@ == joined(lines.deep_view(), separator@),
{
    let ghost all = lines.deep_view();
    let mut text = String::new();
    let mut i: usize = 0;
    while i < lines.len()
        invariant
            i <= lines.len(),
            all == lines.deep_view(),
            text@ == joined(all.take(i as int), separator@),
        decreases lines.len() - i,
    {
        proof {
            assert(all.take(i + 1).drop_last() =~= all.take(i as int));
            assert(all.take(i + 1).last() == lines@[i as int]@);
        }
        if i > 0 {
            text.append(separator);
        }
        text.append(&lines[i]);
        proof {
            if i == 0 {
                assert(all.take(1)[0] == lines@[0]@);
                assert(Seq::<char>::empty() + lines@[0]@ =~= lines@[0]@);
            }
        }
        i += 1;
    }
    proof {
        assert(all.take(all.len() as int) =~= all);
    }
    text
}

/// A text begins with another one just where the other one is a prefix of it.
pub proof fn law_starts_with(s: Seq<char>, prefix: Seq<char>)
    ensures
        starts_with(s, prefix) <==> prefix.is_prefix_of(s),
{
    if starts_with(s, prefix) {
        assert(prefix =~= s.subrange(0, prefix.len() as int));
    }
    if prefix.is_prefix_of(s) {
        assert forall|j: int| 0 <= j < prefix.len() implies s[0 + j] == #[trigger] prefix[j] by {
            assert(prefix[j] == s.subrange(0, prefix.len() as int)[j]);
        }
    }
}

/// A text holds another one just where it is made of something, the other one, and
/// something else.
pub proof fn law_contains_text(s: Seq<char>, needle: Seq<char>)
    ensures
        contains_text(s, needle) <==> exists|before: Seq<char>, after: Seq<char>| #[trigger]
            (before + needle + after) == s,
{
    if contains_text(s, needle) {
        let i = choose|i: int| #[trigger] stands_at(s, needle, i);
        let before = s.take(i);
        let after = s.skip(i + needle.len());
        assert(before + needle + after =~= s);
    }
    if exists|before: Seq<char>, after: Seq<char>| #[trigger] (before + needle + after) == s {
        let (before, after) = choose|before: Seq<char>, after: Seq<char>| #[trigger]
            (before + needle + after) == s;
        let i = before.len() as int;
        assert(s.subrange(i, i + needle.len()) =~= needle);
        assert(stands_at(s, needle, i));
    }
}

/// Lowering a text keeps its length, gives `a` to `z` for `A` to `Z`, and leaves every
/// other character alone.
pub proof fn law_lowered(s: Seq<char>)
    ensures
        lowered(s).len() == s.len(),
        forall|i: int|
            0 <= i < s.len() ==> #[trigger] lowered(s)[i] as int == if 'A' <= s[i] <= 'Z' {
                s[i] as int - 'A' as int + 'a' as int
            } else {
                s[i] as int
            },
{
}

/// Trimming takes whitespace from the ends and nothing else: what is left neither begins nor
/// ends with whitespace.
pub proof fn law_trimmed(s: Seq<char>)
    ensures
        exists|before: Seq<char>, after: Seq<char>| #[trigger]
            (before + trimmed(s) + after) == s && (forall|i: int|
                0 <= i < before.len() ==> is_space(#[trigger] before[i])) && (forall|i: int|
                0 <= i < after.len() ==> is_space(#[trigger] after[i])),
        trimmed(s).len() > 0 ==> !is_space(trimmed(s)[0]) && !is_space(trimmed(s).last()),
    decreases s.len(),
{
    let none = Seq::<char>::empty();
    if s.len() > 0 && is_space(s[0]) {
        let rest = s.drop_first();
        law_trimmed(rest);
        let (before, after) = choose|before: Seq<char>, after: Seq<char>| #[trigger]
            (before + trimmed(rest) + after) == rest && (forall|i: int|
                0 <= i < before.len() ==> is_space(#[trigger] before[i])) && (forall|i: int|
                0 <= i < after.len() ==> is_space(#[trigger] after[i]));
        let longer = seq![s[0]] + before;
        assert(longer + trimmed(s) + after =~= s) by {
            assert(s =~= seq![s[0]] + rest);
        }
    } else if s.len() > 0 && is_space(s.last()) {
        let rest = s.drop_last();
        law_trimmed(rest);
        let (before, after) = choose|before: Seq<char>, after: Seq<char>| #[trigger]
            (before + trimmed(rest) + after) == rest && (forall|i: int|
                0 <= i < before.len() ==> is_space(#[trigger] before[i])) && (forall|i: int|
                0 <= i < after.len() ==> is_space(#[trigger] after[i]));
        let longer = after.push(s.last());
        assert(before + trimmed(s) + longer =~= s) by {
            assert(s =~= rest.push(s.last()));
        }
    } else {
        assert(none + trimmed(s) + none =~= s);
    }
}

/// The parts of a text, put together with the separator between them, are the text, and none
/// of them holds the separator.
pub proof fn law_parts_join(s: Seq<char>, separator: char)
    ensures
        parts(s, separator).len() > 0,
        joined(parts(s, separator), seq![separator]) == s,
        forall|i: int|
            0 <= i < parts(s, separator).len() ==> !(#[trigger] parts(s, separator)[i]).contains(
                separator,
            ),
    decreases s.len(),
{
    let all = parts(s, separator);
    let one = seq![separator];
    if s.len() == 0 {
        assert(joined(all, one) =~= s);
    } else {
        let rest = s.drop_last();
        law_parts_join(rest, separator);
        let before = parts(rest, separator);
        if s.last() == separator {
            assert(all.drop_last() =~= before);
            assert(joined(all, one) =~= joined(before, one) + one + Seq::<char>::empty());
            assert(joined(all, one) =~= rest.push(s.last()));
        } else {
            let last = before.last().push(s.last());
            assert(all =~= before.drop_last().push(last));
            assert(all.drop_last() =~= before.drop_last());
            if before.len() == 1 {
                assert(joined(before, one) == before[0]);
                assert(joined(all, one) =~= rest.push(s.last()));
            } else {
                let front = joined(before.drop_last(), one) + one;
                assert(joined(before, one) == front + before.last());
                assert(joined(all, one) == front + last);
                assert(front + last =~= (front + before.last()).push(s.last()));
            }
            assert forall|i: int| 0 <= i < all.len() implies !(#[trigger] all[i]).contains(
                separator,
            ) by {
                if i < before.len() - 1 {
                    assert(all[i] == before[i]);
                } else {
                    assert(!before[i].contains(separator));
                    if last.contains(separator) {
                        let k = last.index_of(separator);
                        assert(before[i][k] == separator);
                    }
                }
            }
        }
        assert(rest.push(s.last()) =~= s);
    }
}

/// Whitespace separates words: the words of two texts with whitespace between them are the
/// words of the one and then those of the other.
pub proof fn law_words_around_space(front: Seq<char>, space: char, back: Seq<char>)
    requires
        is_space(space),
    ensures
        words(front + seq![space] + back) == words(front) + words(back),
    decreases back.len(),
{
    let all = front + seq![space] + back;
    if back.len() == 0 {
        assert(all.drop_last() =~= front);
        assert(words(all) =~= words(front) + words(back));
    } else {
        let less = back.drop_last();
        law_words_around_space(front, space, less);
        lemma_words_exist(less);
        assert(all.drop_last() =~= front + seq![space] + less);
        assert(all.last() == back.last());
        let before = words(front + seq![space] + less);
        if !is_space(back.last()) {
            if back.len() > 1 {
                assert(all[all.len() - 2] == back[back.len() - 2]);
                if !is_space(back[back.len() - 2]) {
                    assert(words(less).len() > 0);
                    assert(before.last() == words(less).last());
                    assert(before.drop_last() =~= words(front) + words(less).drop_last());
                }
            } else {
                assert(all[all.len() - 2] == space);
            }
        }
        assert(words(all) =~= words(front) + words(back));
    }
}

proof fn lemma_words_exist(s: Seq<char>)
    ensures
        s.len() > 0 && !is_space(s.last()) ==> words(s).len() > 0,
{
}

/// A text without whitespace is one word, and no text is no word.
pub proof fn law_one_word(s: Seq<char>)
    requires
        forall|i: int| 0 <= i < s.len() ==> !is_space(#[trigger] s[i]),
    ensures
        s.len() > 0 ==> words(s) == seq![s],
        s.len() == 0 ==> words(s).len() == 0,
    decreases s.len(),
{
    if s.len() > 1 {
        let less = s.drop_last();
        assert forall|i: int| 0 <= i < less.len() implies !is_space(#[trigger] less[i]) by {
            assert(less[i] == s[i]);
        }
        law_one_word(less);
        assert(words(less).last() == less);
        assert(less.push(s.last()) =~= s);
        assert(words(s) =~= seq![s]);
    } else if s.len() == 1 {
        let none = Seq::<char>::empty();
        assert(s.drop_last() =~= none);
        assert(words(none) =~= Seq::<Seq<char>>::empty());
        assert(!is_space(s[0]));
        assert(seq![s.last()] =~= s);
        assert(words(s) =~= seq![s]);
    }
}

/// The digits are those from zero to nine and the letters from `a` to `f` in either case,
/// as far as the radix goes.
pub proof fn law_digit_value(c: char, radix: int)
    requires
        radix == 10 || radix == 16,
    ensures
        match digit_value(c, radix) {
            Some(value) => 0 <= value < radix && (c as int == '0' as int + value && value < 10 || c
                as int == 'a' as int + value - 10 && value >= 10 || c as int == 'A' as int + value
                - 10 && value >= 10),
            None => !('0' <= c <= '9') && (radix == 16 ==> !('a' <= c <= 'f') && !('A' <= c
                <= 'F')),
        },
{
}

/// A number goes on digit by digit: one more digit makes it the radix times as much and the
/// digit more, as long as it stays within the limit. A plus sign before it changes nothing.
pub proof fn law_number_goes_on(s: Seq<char>, c: char, radix: int, max: int)
    requires
        s.len() > 0,
        s[0] != '+',
        0 <= max,
        1 <= radix,
    ensures
        number_of(seq!['+'] + s, radix, max) == number_of(s, radix, max),
        match (number_of(s, radix, max), digit_value(c, radix)) {
            (Ok(n), Some(digit)) => number_of(s.push(c), radix, max) == (if n * radix + digit
                <= max {
                Ok::<int, NumberError>(n * radix + digit)
            } else {
                Err(NumberError::TooLarge)
            }),
            (Ok(n), None) => number_of(s.push(c), radix, max) == Err::<int, NumberError>(
                NumberError::InvalidDigit,
            ),
            (Err(error), _) => number_of(s.push(c), radix, max) == Err::<int, NumberError>(error),
        },
{
    assert((seq!['+'] + s).drop_first() =~= s);
    assert(s.push(c).drop_last() =~= s);
    assert(s.push(c)[0] == s[0]);
}

} // verus!
