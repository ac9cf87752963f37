//! The static side of a structure comes over HTTP: the request that is sent, and
//! what a response holds.

use vstd::prelude::*;

use crate::arguments;
use crate::json::Json;
use crate::text;

verus! {

/// Whether a byte stands for itself in a path.
pub open spec fn is_plain(byte: u8) -> bool {
    ||| 0x30 <= byte <= 0x39
    ||| 0x41 <= byte <= 0x5a
    ||| 0x61 <= byte <= 0x7a
    ||| byte == 0x2d
    ||| byte == 0x5f
    ||| byte == 0x2e
    ||| byte == 0x7e
}

/// A hexadecimal digit, in upper case.
pub open spec fn upper_digit(value: int) -> char {
    if value < 10 {
        ('0' as int + value) as char
    } else {
        ('A' as int + value - 10) as char
    }
}

/// A byte in a path: itself, or a percent sign and two digits.
pub open spec fn encoded_byte(byte: u8) -> Seq<char> {
    if is_plain(byte) {
        seq![byte as char]
    } else {
        seq!['%', upper_digit(byte as int / 16), upper_digit(byte as int % 16)]
    }
}

/// Bytes in a path.
pub open spec fn encoded_bytes(bytes: Seq<u8>) -> Seq<char>
    decreases bytes.len(),
{
    if bytes.len() == 0 {
        Seq::empty()
    } else {
        encoded_bytes(bytes.drop_last()) + encoded_byte(bytes.last())
    }
}

fn upper_char(value: u8) -> (digit: char)
    requires
        value < 16,
    ensures
        digit == upper_digit(value as int),
{
    if value < 10 {
        (48 + value) as char
    } else {
        (55 + value) as char
    }
}

/// A text as a part of a path.
pub fn url_encode_component(value: &str) -> (encoded: String)
    ensures
        encoded@ == encoded_bytes(vstd::utf8::encode_utf8(value@)),
{
    let bytes = value.as_bytes();
    let mut encoded = String::new();
    let mut i: usize = 0;
    while i < bytes.len()
        invariant
            i <= bytes.len(),
            encoded@ == encoded_bytes(bytes@.take(i as int)),
        decreases bytes.len() - i,
    {
        let byte: u8 = bytes[i];
        let ghost before = encoded@;
        proof {
            assert(bytes@.take(i + 1).drop_last() =~= bytes@.take(i as int));
        }
        if (0x30 <= byte && byte <= 0x39) || (0x41 <= byte && byte <= 0x5a) || (0x61 <= byte && byte
            <= 0x7a) || byte == 0x2d || byte == 0x5f || byte == 0x2e || byte == 0x7e {
            encoded.push(byte as char);
        } else {
            encoded.push('%');
            encoded.push(upper_char(byte / 16));
            encoded.push(upper_char(byte % 16));
        }
        proof {
            assert(encoded@ =~= before + encoded_byte(byte));
        }
        i += 1;
    }
    proof {
        assert(bytes@.take(bytes@.len() as int) =~= bytes@);
    }
    encoded
}

/// What an encoded path stands for.
pub open spec fn decoded_path(s: Seq<char>) -> Seq<u8>
    decreases s.len(),
{
    if s.len() == 0 {
        Seq::empty()
    } else if s[0] == '%' && s.len() >= 3 {
        seq![(digit_of(s[1]) * 16 + digit_of(s[2])) as u8] + decoded_path(s.skip(3))
    } else {
        seq![s[0] as u8] + decoded_path(s.skip(1))
    }
}

/// The value of a hexadecimal digit in upper case.
pub open spec fn digit_of(c: char) -> int {
    if '0' as int <= c as int <= '9' as int {
        c as int - '0' as int
    } else {
        c as int - 'A' as int + 10
    }
}

proof fn lemma_encoded_front(bytes: Seq<u8>)
    requires
        bytes.len() > 0,
    ensures
        encoded_bytes(bytes) == encoded_byte(bytes[0]) + encoded_bytes(bytes.skip(1)),
    decreases bytes.len(),
{
    if bytes.len() == 1 {
        assert(bytes.drop_last() =~= Seq::<u8>::empty());
        assert(bytes.skip(1) =~= Seq::<u8>::empty());
        assert(encoded_bytes(bytes) =~= encoded_byte(bytes[0]) + encoded_bytes(bytes.skip(1)));
    } else {
        lemma_encoded_front(bytes.drop_last());
        assert(bytes.drop_last().skip(1) =~= bytes.skip(1).drop_last());
        assert(encoded_bytes(bytes) =~= encoded_byte(bytes[0]) + encoded_bytes(bytes.skip(1)));
    }
}

/// A path stands for the bytes that it was encoded from.
pub proof fn law_url_round_trip(bytes: Seq<u8>)
    ensures
        decoded_path(encoded_bytes(bytes)) == bytes,
    decreases bytes.len(),
{
    if bytes.len() > 0 {
        let byte = bytes[0];
        let rest = encoded_bytes(bytes.skip(1));
        let whole = encoded_bytes(bytes);
        lemma_encoded_front(bytes);
        law_url_round_trip(bytes.skip(1));
        assert(bytes =~= seq![byte] + bytes.skip(1));
        if is_plain(byte) {
            assert(whole[0] == byte as char);
            assert(byte as char != '%');
            assert(whole.skip(1) =~= rest);
            assert(whole[0] as u8 == byte);
        } else {
            assert(whole[0] == '%');
            assert(whole[1] == upper_digit(byte as int / 16));
            assert(whole[2] == upper_digit(byte as int % 16));
            assert(whole.skip(3) =~= rest);
            assert(digit_of(whole[1]) == byte as int / 16);
            assert(digit_of(whole[2]) == byte as int % 16);
        }
    } else {
        assert(encoded_bytes(bytes) =~= Seq::<char>::empty());
        assert(decoded_path(encoded_bytes(bytes)) =~= bytes);
    }
}

/// The path of a structure.
pub open spec fn struct_path_of(name: Seq<char>) -> Seq<char> {
    "/structs/"@ + encoded_bytes(vstd::utf8::encode_utf8(name))
}

pub fn struct_path(name: &str) -> (path: String)
    ensures
        path@ == struct_path_of(name@),
{
    let mut path = "/structs/".to_string();
    let encoded = url_encode_component(name);
    path.append(&encoded);
    path
}

/// The port: the one that is asked for, or that of the environment where that is a
/// number, or the usual one.
pub open spec fn chosen_port(asked: usize, environment: Option<Seq<char>>) -> usize {
    if asked != 0 {
        asked
    } else {
        match environment {
            Some(value) => match text::number_of(value, 10, usize::MAX as int) {
                Ok(port) => port as usize,
                Err(_) => 8192,
            },
            None => 8192,
        }
    }
}

pub fn hydra_port(asked: usize, environment: Option<&str>) -> (port: usize)
    ensures
        port == chosen_port(asked, environment.deep_view()),
{
    if asked != 0 {
        return asked;
    }
    match environment {
        Some(value) => match text::parse_number(&text::chars_of(value), 10, usize::MAX as u64) {
            Ok(port) => port as usize,
            Err(_) => 8192,
        },
        None => 8192,
    }
}

/// A request.
pub open spec fn request_text(host: Seq<char>, port: usize, path: Seq<char>) -> Seq<char> {
    "GET "@ + path + " HTTP/1.1\r\nHost: "@ + host + ":"@ + text::decimal_text(port as nat)
        + "\r\nAccept: application/json\r\nConnection: close\r\n\r\n"@
}

pub fn http_request(host: &str, port: usize, path: &str) -> (request: String)
    ensures
        request@ == request_text(host@, port, path@),
{
    let mut request = "GET ".to_string();
    request.append(path);
    request.append(" HTTP/1.1\r\nHost: ");
    request.append(host);
    request.append(":");
    text::push_decimal(&mut request, port as u64);
    request.append("\r\nAccept: application/json\r\nConnection: close\r\n\r\n");
    request
}

/// Whether the blank line behind the headers stands at an index.
pub open spec fn is_break(s: Seq<char>, i: int) -> bool {
    i + 4 <= s.len() && s[i] == '\r' && s[i + 1] == '\n' && s[i + 2] == '\r' && s[i + 3] == '\n'
}

/// The first blank line from an index on.
pub open spec fn break_from(s: Seq<char>, from: int) -> Option<int>
    decreases s.len() - from,
{
    if from + 4 > s.len() {
        None
    } else if is_break(s, from) {
        Some(from)
    } else {
        break_from(s, from + 1)
    }
}

/// The first line of some headers, without its line break.
pub open spec fn first_line(s: Seq<char>, from: int) -> Seq<char>
    decreases s.len() - from,
{
    if from >= s.len() {
        s
    } else if s[from] == '\n' {
        if from > 0 && s[from - 1] == '\r' {
            s.take(from - 1)
        } else {
            s.take(from)
        }
    } else {
        first_line(s, from + 1)
    }
}

/// The status of a response.
pub open spec fn status_line(headers: Seq<char>) -> Seq<char> {
    if headers.len() == 0 {
        "HTTP error"@
    } else {
        first_line(headers, 0)
    }
}

/// The body of a response; a response without a blank line, or with another status
/// than that of success, has none.
pub open spec fn body_of(response: Seq<char>) -> Result<Seq<char>, Seq<char>> {
    match break_from(response, 0) {
        None => Err("invalid HTTP response from Hydra"@),
        Some(i) => {
            let headers = response.take(i);
            if text::starts_with(headers, "HTTP/1.1 200"@) || text::starts_with(
                headers,
                "HTTP/1.0 200"@,
            ) {
                Ok(response.skip(i + 4))
            } else {
                Err("hydra request failed: "@ + status_line(headers))
            }
        },
    }
}

fn find_break(chars: &Vec<char>) -> (found: Option<usize>)
    ensures
        match found {
            Some(i) => break_from(chars@, 0) == Some(i as int) && i + 4 <= chars@.len(),
            None => break_from(chars@, 0) is None,
        },
{
    let len: usize = chars.len();
    if len < 4 {
        return None;
    }
    let mut i: usize = 0;
    while i <= len - 4
        invariant
            len == chars.len(),
            4 <= len,
            i <= len - 3,
            break_from(chars@, 0) == break_from(chars@, i as int),
        decreases len - i,
    {
        if chars[i] == '\r' && chars[i + 1] == '\n' && chars[i + 2] == '\r' && chars[i + 3]
            == '\n' {
            return Some(i);
        }
        i += 1;
    }
    None
}

fn status_of(headers: &[char]) -> (status: String)
    ensures
        status@ == status_line(headers@),
{
    if headers.len() == 0 {
        return "HTTP error".to_string();
    }
    let mut i: usize = 0;
    while i < headers.len()
        invariant
            i <= headers.len(),
            first_line(headers@, 0) == first_line(headers@, i as int),
            headers@.len() > 0,
        decreases headers.len() - i,
    {
        if headers[i] == '\n' {
            let end: usize = if i > 0 && headers[i - 1] == '\r' {
                i - 1
            } else {
                i
            };
            proof {
                assert(headers@.subrange(0, end as int) =~= headers@.take(end as int));
            }
            return text::text_of(&headers[0..end]);
        }
        i += 1;
    }
    text::text_of(headers)
}

/// The body of a response.
pub fn http_body(response: &str) -> (result: Result<String, String>)
    ensures
        crate::requests::asked(result) == body_of(response@),
{
    let chars = text::chars_of(response);
    match find_break(&chars) {
        None => Err("invalid HTTP response from Hydra".to_string()),
        Some(i) => {
            let headers = &chars[0..i];
            let shown = text::text_of(headers);
            proof {
                assert(i + 4 <= chars.len());
                assert(chars@.subrange(0, i as int) =~= response@.take(i as int));
                assert(chars@.subrange(i + 4, chars@.len() as int) =~= response@.skip(i + 4));
            }
            if text::has_prefix(&shown, "HTTP/1.1 200") || text::has_prefix(
                &shown,
                "HTTP/1.0 200",
            ) {
                Ok(text::text_of(&chars[i + 4..chars.len()]))
            } else {
                let status = status_of(headers);
                Err(arguments::message("hydra request failed: ", &status))
            }
        },
    }
}

/// What a parsed body gives: the value itself, unless it has an `error` field, which
/// is then the error.
pub fn payload(value: Json) -> (result: Result<Json, Json>)
    ensures
        match value.deep_view().get("error"@) {
            Some(error) => result matches Err(found) && found.deep_view() == error,
            None => result matches Ok(found) && found.deep_view() == value.deep_view(),
        },
{
    match value.get("error") {
        Some(error) => Err(error.copy()),
        None => Ok(value),
    }
}

/// Letters, digits and the signs `-`, `_`, `.` and `~` stand for themselves in a path; of
/// another byte stands a percent sign and the two digits that write it.
pub proof fn law_encoded_byte(byte: u8)
    ensures
        ({
            let c = byte as char;
            let own = 'a' <= c <= 'z' || 'A' <= c <= 'Z' || '0' <= c <= '9' || c == '-' || c == '_'
                || c == '.' || c == '~';
            let shown = encoded_bytes(seq![byte]);
            &&& own ==> shown == seq![c]
            &&& !own ==> shown.len() == 3 && shown[0] == '%' && text::number_of(
                shown.skip(1),
                16,
                255,
            ) == Ok::<int, text::NumberError>(byte as int) && forall|i: int|
                0 <= i < 3 ==> !('a' <= #[trigger] shown[i] <= 'z')
        }),
{
    reveal_with_fuel(encoded_bytes, 2);
    assert(seq![byte].drop_last() =~= Seq::<u8>::empty());
    let shown = encoded_bytes(seq![byte]);
    assert(shown =~= encoded_byte(byte));
    if !is_plain(byte) {
        let high = byte as int / 16;
        let low = byte as int % 16;
        let digits = shown.skip(1);
        assert(digits =~= seq![upper_digit(high), upper_digit(low)]);
        assert(digits.drop_last() =~= seq![upper_digit(high)]);
        assert(digits.drop_last().drop_last() =~= Seq::<char>::empty());
        reveal_with_fuel(text::digits_number, 3);
        assert(text::digit_value(upper_digit(high), 16) == Some(high));
        assert(text::digit_value(upper_digit(low), 16) == Some(low));
        assert(digits[0] != '+');
        assert(text::digits_number(digits, 16, 255) == Ok::<int, text::NumberError>(
            high * 16 + low,
        ));
    }
}

/// Bytes are encoded one by one.
pub proof fn law_encoded_joined(a: Seq<u8>, b: Seq<u8>)
    ensures
        encoded_bytes(a + b) == encoded_bytes(a) + encoded_bytes(b),
    decreases b.len(),
{
    if b.len() == 0 {
        assert(a + b =~= a);
        assert(encoded_bytes(a) + encoded_bytes(b) =~= encoded_bytes(a));
    } else {
        law_encoded_joined(a, b.drop_last());
        assert((a + b).drop_last() =~= a + b.drop_last());
        assert(encoded_bytes(a + b) =~= encoded_bytes(a) + encoded_bytes(b));
    }
}

/// The path of a structure ends with what stands for its name.
pub proof fn law_struct_path(name: Seq<char>)
    ensures
        ({
            let path = struct_path_of(name);
            &&& "/structs/"@.is_prefix_of(path)
            &&& decoded_path(path.skip("/structs/"@.len() as int)) == vstd::utf8::encode_utf8(name)
        }),
{
    let path = struct_path_of(name);
    let bytes = vstd::utf8::encode_utf8(name);
    law_url_round_trip(bytes);
    assert(path.skip("/structs/"@.len() as int) =~= encoded_bytes(bytes));
}

/// The port that is asked for is taken; where none is, the environment decides, and where
/// that writes no number, the usual one is taken.
pub proof fn law_port(asked: usize, environment: Seq<char>, port: usize)
    ensures
        asked != 0 ==> chosen_port(asked, Some(environment)) == asked && chosen_port(asked, None)
            == asked,
        chosen_port(0, Some(text::decimal_text(port as nat))) == port,
        chosen_port(0, None) == 8192,
        text::number_of(environment, 10, usize::MAX as int) is Err ==> chosen_port(
            0,
            Some(environment),
        ) == 8192,
{
    text::law_decimal_round_trip(port as nat, usize::MAX as int);
}

/// A request begins with the path that is asked for and with the host, and ends with a blank
/// line.
pub proof fn law_request(host: Seq<char>, port: usize, path: Seq<char>)
    ensures
        ({
            let request = request_text(host, port, path);
            let begin = "GET "@ + path + " HTTP/1.1\r\nHost: "@ + host + ":"@ + text::decimal_text(
                port as nat,
            );
            &&& begin.is_prefix_of(request)
            &&& "\r\n\r\n"@.is_suffix_of(request)
        }),
{
    reveal_strlit("\r\nAccept: application/json\r\nConnection: close\r\n\r\n");
    reveal_strlit("\r\n\r\n");
    let request = request_text(host, port, path);
    let at = request.len() - 4;
    assert(request.skip(at) =~= "\r\n\r\n"@);
}

proof fn lemma_break_from(s: Seq<char>, from: int, at: int)
    requires
        0 <= from <= at,
        is_break(s, at),
        forall|i: int| from <= i < at ==> !#[trigger] is_break(s, i),
    ensures
        break_from(s, from) == Some(at),
    decreases at - from,
{
    if from < at {
        assert(!is_break(s, from));
        lemma_break_from(s, from + 1, at);
    }
}

proof fn lemma_no_break_from(s: Seq<char>, from: int)
    requires
        0 <= from,
        forall|i: int| from <= i ==> !#[trigger] is_break(s, i),
    ensures
        break_from(s, from) is None,
    decreases s.len() - from,
{
    if from + 4 <= s.len() {
        assert(!is_break(s, from));
        lemma_no_break_from(s, from + 1);
    }
}

/// The body of a response is what follows the first blank line, where the status is that of
/// success; the error names the status where it is another one.
pub proof fn law_body(response: Seq<char>, at: int)
    requires
        0 <= at <= response.len() - 4,
        response.subrange(at, at + 4) == seq!['\r', '\n', '\r', '\n'],
        forall|i: int|
            0 <= i < at ==> #[trigger] response.subrange(i, i + 4) != seq!['\r', '\n', '\r', '\n'],
    ensures
        ({
            let head = response.take(at);
            if "HTTP/1.1 200"@.is_prefix_of(head) || "HTTP/1.0 200"@.is_prefix_of(head) {
                body_of(response) == Ok::<Seq<char>, Seq<char>>(response.skip(at + 4))
            } else {
                body_of(response) == Err::<Seq<char>, Seq<char>>(
                    "hydra request failed: "@ + status_line(head),
                )
            }
        }),
{
    let end = seq!['\r', '\n', '\r', '\n'];
    let head = response.take(at);
    let there = response.subrange(at, at + 4);
    assert(there[0] == '\r' && there[1] == '\n' && there[2] == '\r' && there[3] == '\n');
    assert(is_break(response, at));
    assert forall|i: int| 0 <= i < at implies !#[trigger] is_break(response, i) by {
        if is_break(response, i) {
            assert(response.subrange(i, i + 4) =~= end);
        }
    }
    lemma_break_from(response, 0, at);
    text::law_starts_with(head, "HTTP/1.1 200"@);
    text::law_starts_with(head, "HTTP/1.0 200"@);
}

/// A response without a blank line has no body.
pub proof fn law_no_body(response: Seq<char>)
    requires
        forall|i: int|
            0 <= i <= response.len() - 4 ==> #[trigger] response.subrange(i, i + 4)
                != seq!['\r', '\n', '\r', '\n'],
    ensures
        body_of(response) == Err::<Seq<char>, Seq<char>>("invalid HTTP response from Hydra"@),
{
    let end = seq!['\r', '\n', '\r', '\n'];
    assert forall|i: int| 0 <= i implies !#[trigger] is_break(response, i) by {
        if is_break(response, i) {
            assert(response.subrange(i, i + 4) =~= end);
        }
    }
    lemma_no_break_from(response, 0);
}

proof fn lemma_first_line(s: Seq<char>, from: int, at: int)
    requires
        0 <= from <= at < s.len(),
        s[at] == '\n',
        forall|i: int| from <= i < at ==> s[i] != '\n',
    ensures
        first_line(s, from) == first_line(s, at),
    decreases at - from,
{
    if from < at {
        lemma_first_line(s, from + 1, at);
    }
}

/// The status is the first line of the headers, without its line break, be it of one
/// character or of two.
pub proof fn law_status_line(line: Seq<char>, rest: Seq<char>)
    requires
        !line.contains('\n'),
        line.len() > 0,
        line.last() != '\r',
    ensures
        status_line(line + seq!['\n'] + rest) == line,
        status_line(line + seq!['\r', '\n'] + rest) == line,
{
    let one = line + seq!['\n'] + rest;
    let two = line + seq!['\r', '\n'] + rest;
    let n = line.len() as int;
    assert forall|i: int| 0 <= i < n implies line[i] != '\n' by {
        assert(line.contains(line[i]));
    }
    assert forall|i: int| 0 <= i < n implies one[i] != '\n' by {
        assert(one[i] == line[i]);
    }
    lemma_first_line(one, 0, n);
    assert(one[n - 1] == line.last());
    assert(first_line(one, n) =~= line);
    assert forall|i: int| 0 <= i < n + 1 implies two[i] != '\n' by {
        assert(i < n ==> two[i] == line[i]);
    }
    lemma_first_line(two, 0, n + 1);
    assert(first_line(two, n + 1) =~= line);
}

} // verus!
