//! The arguments of a tool call.

use vstd::prelude::*;

use crate::evidence::Address;
use crate::json::{Json, JsonView};
use crate::text;
use crate::text::NumberError;

verus! {

/// A text as Rust's debug format writes it, in quotes and with escapes.
pub uninterp spec fn debug_form(s: Seq<char>) -> Seq<char>;

/// The `Debug` format of [`str`].
#[verifier::external_body]
pub(crate) fn debug_text(s: &str) -> (text: String)
    ensures
        text@ == debug_form(s@),
{
    format!("{s:?}")
}

/// A result whose error is told in words.
pub open spec fn told<T>(result: Result<T, String>) -> Result<T, Seq<char>> {
    match result {
        Ok(value) => Ok(value),
        Err(message) => Err(message@),
    }
}

/// A message that ends with a name.
pub fn message(start: &str, name: &str) -> (message: String)
    ensures
        message@ == start@ + name@,
{
    let mut message = start.to_string();
    message.append(name);
    message
}

/// The integer argument of a name.
pub open spec fn u64_argument(arguments: JsonView, key: Seq<char>) -> Result<u64, Seq<char>> {
    match arguments.get_unsigned(key) {
        Some(value) => Ok(value),
        None => Err("missing integer argument: "@ + key),
    }
}

/// The integer argument of a name.
pub fn required_u64(arguments: &Json, key: &str) -> (result: Result<u64, String>)
    ensures
        told(result) == u64_argument(arguments.deep_view(), key@),
{
    match arguments.get_u64(key) {
        Some(value) => Ok(value),
        None => Err(message("missing integer argument: ", key)),
    }
}

/// The integer argument of a name, where it fits into 32 bits.
pub open spec fn u32_argument(arguments: JsonView, key: Seq<char>) -> Result<u32, Seq<char>> {
    match u64_argument(arguments, key) {
        Ok(value) => if value <= u32::MAX {
            Ok(value as u32)
        } else {
            Err("argument out of u32 range: "@ + key)
        },
        Err(error) => Err(error),
    }
}

/// The integer argument of a name, where it fits into 32 bits.
pub fn required_u32(arguments: &Json, key: &str) -> (result: Result<u32, String>)
    ensures
        told(result) == u32_argument(arguments.deep_view(), key@),
{
    match required_u64(arguments, key) {
        Ok(value) => {
            if value <= u32::MAX as u64 {
                Ok(value as u32)
            } else {
                Err(message("argument out of u32 range: ", key))
            }
        },
        Err(error) => Err(error),
    }
}

/// The integer argument of a name, where this machine can count so far.
pub open spec fn usize_argument(arguments: JsonView, key: Seq<char>) -> Result<usize, Seq<char>> {
    match u64_argument(arguments, key) {
        Ok(value) => if value <= usize::MAX {
            Ok(value as usize)
        } else {
            Err("argument out of usize range: "@ + key)
        },
        Err(error) => Err(error),
    }
}

/// The integer argument of a name, where this machine can count so far.
pub fn required_usize(arguments: &Json, key: &str) -> (result: Result<usize, String>)
    ensures
        told(result) == usize_argument(arguments.deep_view(), key@),
{
    match required_u64(arguments, key) {
        Ok(value) => {
            if value <= usize::MAX as u64 {
                Ok(value as usize)
            } else {
                Err(message("argument out of usize range: ", key))
            }
        },
        Err(error) => Err(error),
    }
}

/// The integer argument of a name, or a default.
pub open spec fn usize_or(arguments: JsonView, key: Seq<char>, default: usize) -> usize {
    match usize_argument(arguments, key) {
        Ok(value) => value,
        Err(_) => default,
    }
}

/// The integer argument of a name, or a default.
pub fn optional_usize(arguments: &Json, key: &str, default: usize) -> (value: usize)
    ensures
        value == usize_or(arguments.deep_view(), key@, default),
{
    match required_usize(arguments, key) {
        Ok(value) => value,
        Err(_) => default,
    }
}

/// The truth value of a name, or a default.
pub open spec fn bool_or(arguments: JsonView, key: Seq<char>, default: bool) -> bool {
    match arguments.get_truth(key) {
        Some(value) => value,
        None => default,
    }
}

/// The truth value of a name, or a default.
pub fn optional_bool(arguments: &Json, key: &str, default: bool) -> (value: bool)
    ensures
        value == bool_or(arguments.deep_view(), key@, default),
{
    match arguments.get_bool(key) {
        Some(value) => value,
        None => default,
    }
}

/// The text argument of a name.
pub open spec fn text_argument(
    arguments: JsonView,
    key: Seq<char>,
) -> Result<Seq<char>, Seq<char>> {
    match arguments.get_text(key) {
        Some(value) => Ok(value),
        None => Err("missing string argument: "@ + key),
    }
}

/// The text argument of a name.
pub fn required_str<'a>(arguments: &'a Json, key: &str) -> (result: Result<&'a str, String>)
    ensures
        match result {
            Ok(value) => text_argument(arguments.deep_view(), key@) == Ok::<Seq<char>, Seq<char>>(
                value@,
            ),
            Err(error) => text_argument(arguments.deep_view(), key@) == Err::<
                Seq<char>,
                Seq<char>,
            >(error@),
        },
{
    match arguments.get_str(key) {
        Some(value) => Ok(value),
        None => Err(message("missing string argument: ", key)),
    }
}

/// The text argument of a name; an empty text counts as none.
pub open spec fn optional_text(arguments: JsonView, key: Seq<char>) -> Option<Seq<char>> {
    match arguments.get_text(key) {
        Some(value) => if value.len() > 0 {
            Some(value)
        } else {
            None
        },
        None => None,
    }
}

/// The text argument of a name; an empty text counts as none.
pub fn optional_str<'a>(arguments: &'a Json, key: &str) -> (value: Option<&'a str>)
    ensures
        value.deep_view() == optional_text(arguments.deep_view(), key@),
{
    match arguments.get_str(key) {
        Some(value) => {
            if value.unicode_len() > 0 {
                Some(value)
            } else {
                None
            }
        },
        None => None,
    }
}

/// Whether a text begins with a hexadecimal prefix.
pub open spec fn has_hex_prefix(s: Seq<char>) -> bool {
    s.len() >= 2 && s[0] == '0' && (s[1] == 'x' || s[1] == 'X')
}

/// The number that a trimmed text writes: in hexadecimal after a `0x`, else in
/// decimal.
pub open spec fn prefixed_number(s: Seq<char>) -> Result<int, NumberError> {
    if has_hex_prefix(s) {
        text::number_of(s.skip(2), 16, u64::MAX as int)
    } else {
        text::number_of(s, 10, u64::MAX as int)
    }
}

/// The number that a trimmed text writes.
fn parse_prefixed(chars: &Vec<char>) -> (result: Result<u64, NumberError>)
    ensures
        match result {
            Ok(value) => prefixed_number(chars@) == Ok::<int, NumberError>(value as int),
            Err(error) => prefixed_number(chars@) == Err::<int, NumberError>(error),
        },
{
    if is_hex_prefixed(chars) {
        proof {
            assert(chars@.subrange(2, chars@.len() as int) =~= chars@.skip(2));
        }
        text::parse_number(&chars[2..chars.len()], 16, u64::MAX)
    } else {
        text::parse_number(chars, 10, u64::MAX)
    }
}

fn is_hex_prefixed(chars: &Vec<char>) -> (prefixed: bool)
    ensures
        prefixed == has_hex_prefix(chars@),
{
    chars.len() >= 2 && chars[0] == '0' && (chars[1] == 'x' || chars[1] == 'X')
}

/// The address that a text writes.
pub open spec fn text_address(s: Seq<char>) -> Result<Address, Seq<char>> {
    let number = text::trimmed(s);
    match prefixed_number(number) {
        Ok(value) => Ok(Address(value as u64)),
        Err(error) => if has_hex_prefix(number) {
            Err("invalid hex address: "@ + error.words())
        } else {
            Err("invalid decimal address: "@ + error.words())
        },
    }
}

/// The address that a text writes.
pub fn parse_address_text(s: &[char]) -> (result: Result<Address, String>)
    ensures
        told(result) == text_address(s@),
{
    let number = text::trim(s);
    match parse_prefixed(&number) {
        Ok(value) => Ok(Address(value)),
        Err(error) => {
            if is_hex_prefixed(&number) {
                Err(message("invalid hex address: ", error.describe()))
            } else {
                Err(message("invalid decimal address: ", error.describe()))
            }
        },
    }
}

/// The address that a value gives: an integer, or a text that writes one.
pub open spec fn address_value(value: JsonView) -> Result<Address, Seq<char>> {
    match value {
        JsonView::Unsigned(number) => Ok(Address(number)),
        JsonView::Text(text) => text_address(text),
        _ => Err("expected integer or hex string"@),
    }
}

/// The address that a value gives: an integer, or a text that writes one.
pub fn parse_address_value(value: &Json) -> (result: Result<Address, String>)
    ensures
        told(result) == address_value(value.deep_view()),
{
    match value {
        Json::Unsigned(number) => Ok(Address(*number)),
        Json::Text(text) => parse_address_text(&text::chars_of(text)),
        _ => Err("expected integer or hex string".to_string()),
    }
}

/// The address that an argument gives, with the name before an error.
pub open spec fn named_address(value: JsonView, key: Seq<char>) -> Result<Address, Seq<char>> {
    match address_value(value) {
        Ok(address) => Ok(address),
        Err(error) => Err(key + ": "@ + error),
    }
}

fn parse_named_address(value: &Json, key: &str) -> (result: Result<Address, String>)
    ensures
        told(result) == named_address(value.deep_view(), key@),
{
    match parse_address_value(value) {
        Ok(address) => Ok(address),
        Err(error) => {
            let mut text = key.to_string();
            text.append(": ");
            text.append(&error);
            Err(text)
        },
    }
}

/// The address argument of a name.
pub open spec fn address_argument(arguments: JsonView, key: Seq<char>) -> Result<
    Address,
    Seq<char>,
> {
    match arguments.get(key) {
        Some(value) => named_address(value, key),
        None => Err("missing address argument: "@ + key),
    }
}

/// The address argument of a name.
pub fn required_address(arguments: &Json, key: &str) -> (result: Result<Address, String>)
    ensures
        told(result) == address_argument(arguments.deep_view(), key@),
{
    match arguments.get(key) {
        Some(value) => parse_named_address(value, key),
        None => Err(message("missing address argument: ", key)),
    }
}

/// The address argument of a name, where there is one.
pub open spec fn maybe_address(arguments: JsonView, key: Seq<char>) -> Result<
    Option<Address>,
    Seq<char>,
> {
    match arguments.get(key) {
        Some(value) => match named_address(value, key) {
            Ok(address) => Ok(Some(address)),
            Err(error) => Err(error),
        },
        None => Ok(None),
    }
}

/// The address argument of a name, where there is one.
pub fn optional_address(arguments: &Json, key: &str) -> (result: Result<Option<Address>, String>)
    ensures
        told(result) == maybe_address(arguments.deep_view(), key@),
{
    match arguments.get(key) {
        Some(value) => match parse_named_address(value, key) {
            Ok(address) => Ok(Some(address)),
            Err(error) => Err(error),
        },
        None => Ok(None),
    }
}

/// The address argument of a name, or else of another.
pub open spec fn aliased_address(
    arguments: JsonView,
    primary: Seq<char>,
    fallback: Seq<char>,
) -> Result<Address, Seq<char>> {
    if arguments.get(primary) is Some {
        address_argument(arguments, primary)
    } else {
        address_argument(arguments, fallback)
    }
}

/// The address argument of a name, or else of another.
pub fn required_address_alias(arguments: &Json, primary: &str, fallback: &str) -> (result: Result<
    Address,
    String,
>)
    ensures
        told(result) == aliased_address(arguments.deep_view(), primary@, fallback@),
{
    if arguments.get(primary).is_some() {
        return required_address(arguments, primary);
    }
    required_address(arguments, fallback)
}

/// The number that a value gives, where it gives one: an integer, or a text that
/// writes one.
pub open spec fn loose_number(value: Option<JsonView>) -> Option<u64> {
    match value {
        Some(JsonView::Unsigned(number)) => Some(number),
        Some(JsonView::Text(text)) => match prefixed_number(text::trimmed(text)) {
            Ok(number) => Some(number as u64),
            Err(_) => None,
        },
        _ => None,
    }
}

/// The number that a value gives, where it gives one.
pub fn value_u64(value: Option<&Json>) -> (number: Option<u64>)
    ensures
        number == loose_number(value.deep_view()),
{
    match value {
        Some(Json::Unsigned(number)) => Some(*number),
        Some(Json::Text(text)) => match parse_prefixed(&text::trim(&text::chars_of(text))) {
            Ok(number) => Some(number),
            Err(_) => None,
        },
        _ => None,
    }
}

/// The offsets that the parts of a list write; the first part that writes none is
/// the error.
pub open spec fn part_offsets(parts: Seq<Seq<char>>) -> Result<Seq<u64>, Seq<char>>
    decreases parts.len(),
{
    if parts.len() == 0 {
        Ok(Seq::empty())
    } else {
        match part_offsets(parts.drop_last()) {
            Ok(before) => match text_address(parts.last()) {
                Ok(address) => Ok(before.push(address.0)),
                Err(error) => Err(
                    "invalid offset "@ + debug_form(parts.last()) + ": "@ + error,
                ),
            },
            Err(error) => Err(error),
        }
    }
}

/// The offsets of a list such as `0x10,0x20`; a blank list has none.
pub open spec fn offset_list(s: Seq<char>) -> Result<Seq<u64>, Seq<char>> {
    if text::trimmed(s).len() == 0 {
        Ok(Seq::empty())
    } else {
        part_offsets(text::parts(s, ','))
    }
}

proof fn lemma_part_offsets_error(parts: Seq<Seq<char>>, n: int)
    requires
        0 <= n <= parts.len(),
        part_offsets(parts.take(n)) is Err,
    ensures
        part_offsets(parts) == part_offsets(parts.take(n)),
    decreases parts.len() - n,
{
    if n < parts.len() {
        assert(parts.take(n + 1).drop_last() =~= parts.take(n));
        lemma_part_offsets_error(parts, n + 1);
    } else {
        assert(parts.take(n) =~= parts);
    }
}

/// A result that holds a list, or an error in words.
pub open spec fn listed<T>(result: Result<Vec<T>, String>) -> Result<Seq<T>, Seq<char>> {
    match result {
        Ok(value) => Ok(value@),
        Err(message) => Err(message@),
    }
}

/// The offsets of a list such as `0x10,0x20`.
pub fn parse_offsets(value: &str) -> (result: Result<Vec<u64>, String>)
    ensures
        listed(result) == offset_list(value@),
{
    let chars = text::chars_of(value);
    let mut offsets: Vec<u64> = Vec::new();
    if text::trim(&chars).len() == 0 {
        return Ok(offsets);
    }
    let parts = text::split(&chars, ',');
    let ghost all = parts.deep_view();
    let mut i: usize = 0;
    while i < parts.len()
        invariant
            i <= parts.len(),
            all == parts.deep_view(),
            offset_list(value@) == part_offsets(all),
            part_offsets(all.take(i as int)) == Ok::<Seq<u64>, Seq<char>>(offsets@),
        decreases parts.len() - i,
    {
        let part = parts[i].as_slice();
        proof {
            assert(all.take(i + 1).drop_last() =~= all.take(i as int));
            assert(all[i as int] == parts@[i as int].deep_view());
            assert(parts@[i as int].deep_view() =~= part@);
            assert(all.take(i + 1).last() == part@);
        }
        match parse_address_text(part) {
            Ok(address) => {
                offsets.push(address.0);
            },
            Err(error) => {
                let mut text = "invalid offset ".to_string();
                text.append(&debug_text(&text::text_of(part)));
                text.append(": ");
                text.append(&error);
                proof {
                    lemma_part_offsets_error(all, i + 1);
                }
                return Err(text);
            },
        }
        i += 1;
    }
    proof {
        assert(all.take(all.len() as int) =~= all);
    }
    Ok(offsets)
}

/// A text without its whitespace.
pub open spec fn compact(s: Seq<char>) -> Seq<char>
    decreases s.len(),
{
    if s.len() == 0 {
        s
    } else if text::is_space(s.last()) {
        compact(s.drop_last())
    } else {
        compact(s.drop_last()).push(s.last())
    }
}

/// The bytes that pairs of hexadecimal digits write; the first pair that is no
/// byte is the error.
pub open spec fn hex_pairs(s: Seq<char>) -> Result<Seq<u8>, Seq<char>>
    decreases s.len(),
{
    if s.len() == 0 {
        Ok(Seq::empty())
    } else {
        let pair = if s.len() > 1 && s[0] as int <= 0x7f {
            s.take(2)
        } else {
            s.take(1)
        };
        match text::number_of(pair, 16, 255) {
            Ok(byte) => if pair.len() == 2 {
                match hex_pairs(s.skip(2)) {
                    Ok(rest) => Ok(seq![byte as u8] + rest),
                    Err(error) => Err(error),
                }
            } else {
                Err("invalid hex byte: "@ + pair)
            },
            Err(_) => Err("invalid hex byte: "@ + pair),
        }
    }
}

/// The bytes that a text writes in hexadecimal; whitespace does not count.
pub open spec fn hex_data(s: Seq<char>) -> Result<Seq<u8>, Seq<char>> {
    if vstd::utf8::encode_utf8(compact(s)).len() % 2 != 0 {
        Err("hex_data must contain an even number of hex digits"@)
    } else {
        hex_pairs(compact(s))
    }
}

/// The characters of a text that are no whitespace.
fn compact_chars(s: &str) -> (chars: Vec<char>)
    ensures
        chars@ == compact(s@),
{
    let all = text::chars_of(s);
    let mut chars: Vec<char> = Vec::new();
    let mut i: usize = 0;
    while i < all.len()
        invariant
            i <= all.len(),
            all@ == s@,
            chars@ == compact(s@.take(i as int)),
        decreases all.len() - i,
    {
        proof {
            assert(s@.take(i + 1).drop_last() =~= s@.take(i as int));
        }
        if !text::is_whitespace(all[i]) {
            chars.push(all[i]);
        }
        i += 1;
    }
    proof {
        assert(s@.take(s@.len() as int) =~= s@);
    }
    chars
}

/// The bytes that a text writes in hexadecimal; whitespace does not count.
pub fn parse_hex_bytes(value: &str) -> (result: Result<Vec<u8>, String>)
    ensures
        listed(result) == hex_data(value@),
{
    let chars = compact_chars(value);
    let written = text::text_of(&chars);
    if written.as_str().as_bytes().len() % 2 != 0 {
        return Err("hex_data must contain an even number of hex digits".to_string());
    }
    let ghost whole = hex_pairs(chars@);
    let mut bytes: Vec<u8> = Vec::new();
    let mut i: usize = 0;
    proof {
        assert(chars@.skip(0) =~= chars@);
        assert forall|rest: Seq<u8>| #[trigger] (Seq::<u8>::empty() + rest) == rest by {
            assert(Seq::<u8>::empty() + rest =~= rest);
        }
    }
    while i < chars.len()
        invariant
            i <= chars.len(),
            whole == hex_pairs(chars@),
            hex_data(value@) == whole,
            match hex_pairs(chars@.skip(i as int)) {
                Ok(rest) => whole == Ok::<Seq<u8>, Seq<char>>(bytes@ + rest),
                Err(error) => whole == Err::<Seq<u8>, Seq<char>>(error),
            },
        decreases chars.len() - i,
    {
        let ghost rest = chars@.skip(i as int);
        let wide = chars.len() - i > 1 && chars[i] <= '\x7f';
        let end: usize = if wide {
            i + 2
        } else {
            i + 1
        };
        let pair = &chars[i..end];
        proof {
            assert(pair@ =~= (if wide {
                rest.take(2)
            } else {
                rest.take(1)
            }));
        }
        let parsed = text::parse_number(pair, 16, 255);
        match parsed {
            Ok(byte) => {
                if !wide {
                    return Err(message("invalid hex byte: ", &text::text_of(pair)));
                }
                let ghost before = bytes@;
                bytes.push(byte as u8);
                proof {
                    assert(rest.skip(2) =~= chars@.skip(i + 2));
                    if let Ok(more) = hex_pairs(chars@.skip(i + 2)) {
                        assert(before + (seq![byte as u8] + more) =~= bytes@ + more);
                    }
                }
            },
            Err(_) => {
                return Err(message("invalid hex byte: ", &text::text_of(pair)));
            },
        }
        i = end;
    }
    proof {
        assert(chars@.skip(chars@.len() as int) =~= Seq::<char>::empty());
        assert(bytes@ + Seq::<u8>::empty() =~= bytes@);
    }
    Ok(bytes)
}

/// Bytes in hexadecimal, two digits each.
pub open spec fn hex_run(bytes: Seq<u8>) -> Seq<char>
    decreases bytes.len(),
{
    if bytes.len() == 0 {
        Seq::empty()
    } else {
        hex_run(bytes.drop_last()) + text::byte_hex(bytes.last())
    }
}

/// Bytes in hexadecimal, two digits each.
pub fn hex_bytes(bytes: &[u8]) -> (text: String)
    ensures
        text@ == hex_run(bytes@),
{
    let mut text = String::new();
    let mut i: usize = 0;
    while i < bytes.len()
        invariant
            i <= bytes.len(),
            text@ == hex_run(bytes@.take(i as int)),
        decreases bytes.len() - i,
    {
        proof {
            assert(bytes@.take(i + 1).drop_last() =~= bytes@.take(i as int));
        }
        text::push_byte_hex(&mut text, bytes[i]);
        i += 1;
    }
    proof {
        assert(bytes@.take(bytes@.len() as int) =~= bytes@);
    }
    text
}


proof fn lemma_hex_run_front(bytes: Seq<u8>)
    requires
        bytes.len() > 0,
    ensures
        hex_run(bytes) == text::byte_hex(bytes[0]) + hex_run(bytes.drop_first()),
    decreases bytes.len(),
{
    let rest = bytes.drop_first();
    if bytes.len() == 1 {
        assert(bytes.drop_last() =~= Seq::<u8>::empty());
        assert(rest =~= Seq::<u8>::empty());
        assert(hex_run(bytes.drop_last()) =~= Seq::<char>::empty());
        assert(hex_run(bytes) =~= text::byte_hex(bytes[0]) + hex_run(rest));
    } else {
        lemma_hex_run_front(bytes.drop_last());
        assert(bytes.drop_last().drop_first() =~= rest.drop_last());
        assert(rest.last() == bytes.last());
        assert(hex_run(bytes) =~= text::byte_hex(bytes[0]) + hex_run(rest));
    }
}

proof fn lemma_hex_run_chars(bytes: Seq<u8>)
    ensures
        hex_run(bytes).len() == 2 * bytes.len(),
        compact(hex_run(bytes)) == hex_run(bytes),
        vstd::utf8::is_ascii_chars(hex_run(bytes)),
    decreases bytes.len(),
{
    let s = hex_run(bytes);
    if bytes.len() > 0 {
        let before = hex_run(bytes.drop_last());
        lemma_hex_run_chars(bytes.drop_last());
        let middle = s.drop_last();
        assert(middle =~= before.push(text::hex_digit(bytes.last() as int / 16)));
        assert(middle.drop_last() =~= before);
        assert(compact(middle) =~= middle);
        assert(compact(s) =~= s);
    }
}

proof fn lemma_hex_pairs_run(bytes: Seq<u8>)
    ensures
        hex_pairs(hex_run(bytes)) == Ok::<Seq<u8>, Seq<char>>(bytes),
    decreases bytes.len(),
{
    let s = hex_run(bytes);
    if bytes.len() == 0 {
        assert(bytes =~= Seq::<u8>::empty());
    } else {
        let rest = bytes.drop_first();
        lemma_hex_run_front(bytes);
        lemma_hex_pairs_run(rest);
        let pair = s.take(2);
        assert(pair =~= text::byte_hex(bytes[0]));
        assert(s.skip(2) =~= hex_run(rest));
        let high = bytes[0] as int / 16;
        let low = bytes[0] as int % 16;
        assert(pair.drop_last() =~= seq![text::hex_digit(high)]);
        assert(pair.drop_last().drop_last() =~= Seq::<char>::empty());
        reveal_with_fuel(text::digits_number, 3);
        assert(text::digits_number(pair.drop_last(), 16, 255) == Ok::<int, NumberError>(high));
        assert(text::digits_number(pair, 16, 255) == Ok::<int, NumberError>(high * 16 + low));
        assert(seq![bytes[0]] + rest =~= bytes);
    }
}

/// Bytes written in hexadecimal read back as the same bytes.
pub proof fn law_hex_data_round_trip(bytes: Seq<u8>)
    ensures
        hex_data(hex_run(bytes)) == Ok::<Seq<u8>, Seq<char>>(bytes),
{
    lemma_hex_run_chars(bytes);
    vstd::utf8::is_ascii_chars_encode_utf8(hex_run(bytes));
    lemma_hex_pairs_run(bytes);
}

/// A number is read from its hexadecimal text behind `0x`, and from its decimal text.
pub proof fn law_prefixed_round_trip(n: u64)
    ensures
        prefixed_number(text::prefixed_hex(n as nat)) == Ok::<int, NumberError>(n as int),
        prefixed_number(text::decimal_text(n as nat)) == Ok::<int, NumberError>(n as int),
{
    reveal_strlit("0x");
    let hex = text::prefixed_hex(n as nat);
    assert(hex.skip(2) =~= text::hex_text(n as nat));
    assert(hex[0] == '0' && hex[1] == 'x');
    text::law_hex_round_trip(n as nat, u64::MAX as int);
    text::law_decimal_round_trip(n as nat, u64::MAX as int);
    lemma_decimal_chars(n as nat);
    let decimal = text::decimal_text(n as nat);
    if decimal.len() >= 2 {
        assert('0' <= decimal[1] <= '9');
    }
}

proof fn lemma_decimal_chars(n: nat)
    ensures
        text::decimal_text(n).len() > 0,
        forall|i: int|
            0 <= i < text::decimal_text(n).len() ==> '0' <= (#[trigger] text::decimal_text(n)[i])
                <= '9',
    decreases n,
{
    if n >= 10 {
        lemma_decimal_chars(n / 10);
    }
}

/// An address is given by an integer, or by a text that writes one, with whitespace around
/// it or not; anything else gives none.
pub proof fn law_address_value(value: JsonView)
    ensures
        match value {
            JsonView::Unsigned(n) => address_value(value) == Ok::<Address, Seq<char>>(Address(n)),
            JsonView::Text(s) => match prefixed_number(text::trimmed(s)) {
                Ok(n) => address_value(value) == Ok::<Address, Seq<char>>(Address(n as u64)),
                Err(_) => address_value(value) is Err,
            },
            _ => address_value(value) == Err::<Address, Seq<char>>(
                "expected integer or hex string"@,
            ),
        },
{
}

/// The offsets of a list are what its parts write, in their order; one part that writes none
/// spoils the list.
pub proof fn law_part_offsets(parts: Seq<Seq<char>>)
    ensures
        match part_offsets(parts) {
            Ok(offsets) => offsets.len() == parts.len() && forall|i: int|
                0 <= i < parts.len() ==> text_address(#[trigger] parts[i]) == Ok::<
                    Address,
                    Seq<char>,
                >(Address(offsets[i])),
            Err(_) => exists|i: int|
                0 <= i < parts.len() && text_address(#[trigger] parts[i]) is Err,
        },
    decreases parts.len(),
{
    if parts.len() > 0 {
        let front = parts.drop_last();
        let k = parts.len() - 1;
        law_part_offsets(front);
        match part_offsets(front) {
            Ok(before) => {
                if let Ok(address) = text_address(parts.last()) {
                    let offsets = part_offsets(parts)->Ok_0;
                    assert forall|i: int| 0 <= i < parts.len() implies text_address(
                        #[trigger] parts[i],
                    ) == Ok::<Address, Seq<char>>(Address(offsets[i])) by {
                        if i < k {
                            assert(front[i] == parts[i]);
                        }
                    }
                } else {
                    assert(text_address(parts[k]) is Err);
                }
            },
            Err(_) => {
                let i = choose|i: int|
                    0 <= i < front.len() && text_address(#[trigger] front[i]) is Err;
                assert(parts[i] == front[i]);
            },
        }
    }
}

/// A text without its whitespace is made of the characters that are none, in their order.
pub proof fn law_compact(s: Seq<char>)
    ensures
        compact(s) == s.filter(|c: char| !text::is_space(c)),
    decreases s.len(),
{
    reveal(Seq::filter);
    if s.len() > 0 {
        law_compact(s.drop_last());
    }
}

/// An argument is taken under its name: an integer as it is, within the range that is asked
/// for, a text as it is, and what is no integer or no text counts as missing.
pub proof fn law_arguments(given: JsonView, key: Seq<char>, default: usize)
    ensures
        match given.get(key) {
            Some(JsonView::Unsigned(n)) => {
                &&& u64_argument(given, key) == Ok::<u64, Seq<char>>(n)
                &&& n <= u32::MAX ==> u32_argument(given, key) == Ok::<u32, Seq<char>>(n as u32)
                &&& n > u32::MAX ==> u32_argument(given, key) == Err::<u32, Seq<char>>(
                    "argument out of u32 range: "@ + key,
                )
                &&& n <= usize::MAX ==> usize_or(given, key, default) == n
                &&& n > usize::MAX ==> usize_or(given, key, default) == default
                &&& text_argument(given, key) == Err::<Seq<char>, Seq<char>>(
                    "missing string argument: "@ + key,
                )
                &&& optional_text(given, key) is None
            },
            Some(JsonView::Text(s)) => {
                &&& text_argument(given, key) == Ok::<Seq<char>, Seq<char>>(s)
                &&& s.len() > 0 ==> optional_text(given, key) == Some(s)
                &&& s.len() == 0 ==> optional_text(given, key) is None
                &&& u64_argument(given, key) == Err::<u64, Seq<char>>(
                    "missing integer argument: "@ + key,
                )
                &&& usize_or(given, key, default) == default
            },
            Some(JsonView::Bool(b)) => bool_or(given, key, true) == b && bool_or(given, key, false)
                == b,
            _ => {
                &&& u64_argument(given, key) == Err::<u64, Seq<char>>(
                    "missing integer argument: "@ + key,
                )
                &&& text_argument(given, key) == Err::<Seq<char>, Seq<char>>(
                    "missing string argument: "@ + key,
                )
                &&& optional_text(given, key) is None
                &&& usize_or(given, key, default) == default
                &&& bool_or(given, key, true)
                &&& !bool_or(given, key, false)
            },
        },
{
    crate::json::law_get(given, key);
}

/// An address argument is taken under its name; without it the argument is missing, or
/// absent where it may be. Under two names the first one counts where it is there.
pub proof fn law_address_arguments(given: JsonView, key: Seq<char>, other: Seq<char>)
    ensures
        match given.get(key) {
            Some(value) => match address_value(value) {
                Ok(address) => address_argument(given, key) == Ok::<Address, Seq<char>>(address)
                    && maybe_address(given, key) == Ok::<Option<Address>, Seq<char>>(Some(address))
                    && aliased_address(given, key, other) == Ok::<Address, Seq<char>>(address),
                Err(message) => address_argument(given, key) == Err::<Address, Seq<char>>(
                    key + ": "@ + message,
                ) && maybe_address(given, key) == Err::<Option<Address>, Seq<char>>(
                    key + ": "@ + message,
                ) && aliased_address(given, key, other) == Err::<Address, Seq<char>>(
                    key + ": "@ + message,
                ),
            },
            None => address_argument(given, key) == Err::<Address, Seq<char>>(
                "missing address argument: "@ + key,
            ) && maybe_address(given, key) == Ok::<Option<Address>, Seq<char>>(None)
                && aliased_address(given, key, other) == address_argument(given, other),
        },
{
}

} // verus!
