//! The pieces that reports are rendered from.

use vstd::prelude::*;

use crate::evidence::Address;
use crate::json::{Json, JsonView};
use crate::seqs;
use crate::text;

verus! {

/// The most hits that are listed in a text report.
pub const TEXT_HIT_DISPLAY_LIMIT: usize = 12;

/// The most characters of a preview.
pub const PREVIEW_DISPLAY_LIMIT: usize = 96;

/// The most modules that are listed unless more are asked for.
pub const MODULE_DISPLAY_LIMIT: usize = 16;

/// Turns each item, up to a limit, into a line.
pub(crate) fn lines_of<F: Fn(&Json) -> String>(
    items: &Vec<Json>,
    limit: usize,
    f: F,
    Ghost(line): Ghost<spec_fn(JsonView) -> Seq<char>>,
) -> (lines: Vec<String>)
    requires
        forall|item: &Json| call_requires(f, (item,)),
        forall|item: &Json, result: String|
            call_ensures(f, (item,), result) ==> result@ == line(item.deep_view()),
    ensures
        lines.deep_view() == seqs::capped(items.deep_view(), limit as int).map_values(line),
{
    let ghost all = items.deep_view();
    let mut lines: Vec<String> = Vec::new();
    let mut i: usize = 0;
    proof {
        assert(lines.deep_view() =~= all.take(0).map_values(line));
    }
    while i < items.len() && i < limit
        invariant
            i <= items.len(),
            i <= limit,
            all == items.deep_view(),
            forall|item: &Json| call_requires(f, (item,)),
            forall|item: &Json, result: String|
                call_ensures(f, (item,), result) ==> result@ == line(item.deep_view()),
            lines.deep_view() == all.take(i as int).map_values(line),
        decreases items.len() - i,
    {
        let ghost before = lines.deep_view();
        let made = f(&items[i]);
        lines.push(made);
        i += 1;
        proof {
            assert(lines.deep_view() =~= before.push(line(all[i - 1])));
            assert(all.take(i as int).map_values(line) =~= before.push(line(all[i - 1])));
        }
    }
    proof {
        assert(all.len() == items@.len());
        assert(all.take(i as int) =~= seqs::capped(all, limit as int));
    }
    lines
}

/// Turns each item into some lines.
pub(crate) fn blocks_of<F: Fn(&Json) -> Vec<String>>(
    items: &Vec<Json>,
    f: F,
    Ghost(block): Ghost<spec_fn(JsonView) -> Seq<Seq<char>>>,
) -> (lines: Vec<String>)
    requires
        forall|item: &Json| call_requires(f, (item,)),
        forall|item: &Json, result: Vec<String>|
            call_ensures(f, (item,), result) ==> result.deep_view() == block(item.deep_view()),
    ensures
        lines.deep_view() == items.deep_view().flat_map(block),
{
    let ghost all = items.deep_view();
    let mut lines: Vec<String> = Vec::new();
    let mut i: usize = 0;
    proof {
        seqs::lemma_flat_map_ends(all, block);
        assert(lines.deep_view() =~= all.take(0).flat_map(block));
    }
    while i < items.len()
        invariant
            i <= items.len(),
            all == items.deep_view(),
            forall|item: &Json| call_requires(f, (item,)),
            forall|item: &Json, result: Vec<String>|
                call_ensures(f, (item,), result) ==> result.deep_view() == block(item.deep_view()),
            lines.deep_view() == all.take(i as int).flat_map(block),
        decreases items.len() - i,
    {
        let mut made = f(&items[i]);
        push_lines(&mut lines, &mut made);
        proof {
            seqs::lemma_flat_map_step(all, i as int, block);
            assert(all[i as int] == items@[i as int].deep_view());
        }
        i += 1;
    }
    proof {
        seqs::lemma_flat_map_ends(all, block);
        assert(all.len() == items@.len());
    }
    lines
}

/// Moves lines behind others.
pub(crate) fn push_lines(lines: &mut Vec<String>, more: &mut Vec<String>)
    ensures
        final(lines).deep_view() == old(lines).deep_view() + old(more).deep_view(),
        final(more)@.len() == 0,
{
    let ghost a = lines.deep_view();
    let ghost b = more.deep_view();
    lines.append(more);
    proof {
        assert(lines.deep_view() =~= a + b);
    }
}

/// Puts a line behind others.
pub(crate) fn push_line(lines: &mut Vec<String>, line: String)
    ensures
        final(lines).deep_view() == old(lines).deep_view().push(line@),
{
    let ghost before = lines.deep_view();
    lines.push(line);
    proof {
        assert(lines.deep_view() =~= before.push(line@));
    }
}

/// One line.
pub(crate) fn one_line(line: String) -> (lines: Vec<String>)
    ensures
        lines.deep_view() == seq![line@],
{
    let mut lines: Vec<String> = Vec::new();
    lines.push(line);
    proof {
        assert(lines.deep_view() =~= seq![line@]);
    }
    lines
}

/// The text in a field, or a default.
pub open spec fn text_or(value: JsonView, key: Seq<char>, default: Seq<char>) -> Seq<char> {
    match value.get_text(key) {
        Some(found) => found,
        None => default,
    }
}

/// The text in a field, or a default.
pub(crate) fn str_or<'a>(value: &'a Json, key: &str, default: &'a str) -> (found: &'a str)
    ensures
        found@ == text_or(value.deep_view(), key@, default@),
{
    match value.get_str(key) {
        Some(found) => found,
        None => default,
    }
}

/// The unsigned integer in a field, or a default.
pub open spec fn number_or(value: JsonView, key: Seq<char>, default: int) -> int {
    match value.get_unsigned(key) {
        Some(found) => found as int,
        None => default,
    }
}

/// The unsigned integer in a field, or a default.
pub(crate) fn u64_or(value: &Json, key: &str, default: u64) -> (found: u64)
    ensures
        found == number_or(value.deep_view(), key@, default as int),
{
    match value.get_u64(key) {
        Some(found) => found,
        None => default,
    }
}

/// The list in a field, or the empty one.
pub open spec fn list_or_empty(value: JsonView, key: Seq<char>) -> Seq<JsonView> {
    match value.get_items(key) {
        Some(items) => items,
        None => Seq::empty(),
    }
}

/// Whether a field of an object is an unsigned integer.
pub open spec fn unsigned_field() -> spec_fn((Seq<char>, JsonView)) -> bool {
    |field: (Seq<char>, JsonView)| field.1.unsigned() is Some
}

/// An address as it is shown: a number, or the first number of an object, in
/// hexadecimal; a text as it is; anything else as a question mark.
pub open spec fn address_text(value: JsonView) -> Seq<char> {
    match value {
        JsonView::Unsigned(n) => text::prefixed_hex(n as nat),
        JsonView::Text(t) => t,
        JsonView::Object(fields) => match seqs::first_from(fields, 0, unsigned_field()) {
            Some(i) => text::prefixed_hex(fields[i].1.unsigned()->0 as nat),
            None => "?"@,
        },
        _ => "?"@,
    }
}

/// An address as it is shown.
pub fn format_address_value(value: &Json) -> (text: String)
    ensures
        text@ == address_text(value.deep_view()),
{
    match value {
        Json::Unsigned(n) => text::hex(*n),
        Json::Text(t) => t.clone(),
        Json::Object(fields) => {
            proof {
                Json::lemma_object(*fields);
            }
            let ghost all = fields.deep_view();
            let ghost wanted = unsigned_field();
            let mut i: usize = 0;
            while i < fields.len()
                invariant
                    i <= fields.len(),
                    all == fields.deep_view(),
                    wanted == unsigned_field(),
                    value.deep_view() == JsonView::Object(all),
                    seqs::first_from(all, 0, wanted) == seqs::first_from(all, i as int, wanted),
                decreases fields.len() - i,
            {
                proof {
                    assert(all[i as int] == (
                        fields@[i as int].0@,
                        fields@[i as int].1.deep_view(),
                    ));
                }
                if let Some(n) = fields[i].1.as_u64() {
                    return text::hex(n);
                }
                i += 1;
            }
            "?".to_string()
        },
        _ => "?".to_string(),
    }
}

/// The address in a field as it is shown; a question mark where there is none.
pub open spec fn field_address(value: JsonView, key: Seq<char>) -> Seq<char> {
    address_text(value.field(key))
}

/// The address in a field as it is shown.
pub(crate) fn show_address(value: &Json, key: &str) -> (text: String)
    ensures
        text@ == field_address(value.deep_view(), key@),
{
    format_address_value(value.field(key))
}

/// The byte of an item as two digits, where it is a number; of a higher number the
/// lowest byte.
pub open spec fn byte_text() -> spec_fn(JsonView) -> Seq<Seq<char>> {
    |item: JsonView|
        match item.unsigned() {
            Some(n) => seq![text::byte_hex((n % 256) as u8)],
            None => Seq::empty(),
        }
}

/// A list of bytes as it is shown; nothing where there is none.
pub open spec fn bytes_text(value: JsonView) -> Seq<char> {
    match value.items() {
        Some(items) => text::joined(items.flat_map(byte_text()), " "@),
        None => ""@,
    }
}

fn byte_line(item: &Json) -> (lines: Vec<String>)
    ensures
        lines.deep_view() == byte_text()(item.deep_view()),
{
    match item.as_u64() {
        Some(n) => {
            let mut line = String::new();
            text::push_byte_hex(&mut line, (n % 256) as u8);
            proof {
                assert(line@ =~= text::byte_hex((n % 256) as u8));
            }
            one_line(line)
        },
        None => {
            let lines: Vec<String> = Vec::new();
            proof {
                assert(lines.deep_view() =~= Seq::<Seq<char>>::empty());
            }
            lines
        },
    }
}

/// A list of bytes as it is shown.
pub fn bytes_hex(value: &Json) -> (text: String)
    ensures
        text@ == bytes_text(value.deep_view()),
{
    match value.as_array() {
        Some(items) => {
            let bytes = blocks_of(items, byte_line, Ghost(byte_text()));
            text::join(&bytes, " ")
        },
        None => "".to_string(),
    }
}

/// A text filled up with spaces to a width.
pub open spec fn padded(s: Seq<char>, width: int) -> Seq<char> {
    if s.len() >= width {
        s
    } else {
        s + Seq::new((width - s.len()) as nat, |i: int| ' ')
    }
}

/// Appends a text filled up with spaces to a width.
pub(crate) fn push_padded(out: &mut String, value: &str, width: usize)
    ensures
        final(out)@ == old(out)@ + padded(value@, width as int),
{
    let ghost start = out@;
    out.append(value);
    let mut len: usize = text::chars_of(value).len();
    let ghost full = len as int;
    proof {
        assert(out@ =~= start + value@ + Seq::new(0, |i: int| ' '));
    }
    while len < width
        invariant
            value@.len() == full,
            full <= len,
            len <= width || len == full,
            out@ == start + value@ + Seq::new((len - full) as nat, |i: int| ' '),
        decreases width - len,
    {
        out.push(' ');
        len += 1;
        proof {
            assert(out@ =~= start + value@ + Seq::new((len - full) as nat, |i: int| ' '));
        }
    }
    proof {
        assert(out@ =~= start + padded(value@, width as int));
    }
}

/// An instruction as it is shown: where it stands, its bytes, its text, and then
/// what it calls and the text that it speaks of.
pub open spec fn instruction_line(instruction: JsonView) -> Seq<char> {
    field_address(instruction, "address"@) + ": "@ + padded(
        bytes_text(instruction.field("bytes"@)),
        20,
    ) + " "@ + text_or(instruction, "text"@, ""@) + (if instruction.field("call_target"@)
        == JsonView::Null {
        Seq::empty()
    } else {
        " -> "@ + field_address(instruction, "call_target"@)
    }) + (match instruction.get_text("string"@) {
        Some(string) => " ; \""@ + string + "\""@,
        None => Seq::empty(),
    })
}

/// An instruction as it is shown.
pub fn render_instruction(instruction: &Json) -> (line: String)
    ensures
        line@ == instruction_line(instruction.deep_view()),
{
    let ghost view = instruction.deep_view();
    let mut line = show_address(instruction, "address");
    line.append(": ");
    let bytes = bytes_hex(instruction.field("bytes"));
    push_padded(&mut line, &bytes, 20);
    line.append(" ");
    line.append(str_or(instruction, "text", ""));
    let ghost head = line@;
    if !instruction.field("call_target").is_null() {
        let mut tail = " -> ".to_string();
        let target = show_address(instruction, "call_target");
        tail.append(&target);
        line.append(&tail);
    } else {
        proof {
            assert(head + Seq::<char>::empty() =~= head);
        }
    }
    let ghost middle = line@;
    match instruction.get_str("string") {
        Some(string) => {
            let mut tail = " ; \"".to_string();
            tail.append(string);
            tail.append("\"");
            line.append(&tail);
        },
        None => {
            proof {
                assert(middle + Seq::<char>::empty() =~= middle);
            }
        },
    }
    line
}

/// Where a hit lies as it is shown; a question mark where it does not say.
pub fn hit_address(hit: &Json) -> (text: String)
    ensures
        text@ == field_address(hit.deep_view(), "address"@),
{
    show_address(hit, "address")
}

/// The module of a hit.
pub open spec fn hit_module(hit: JsonView) -> JsonView {
    hit.field("address_context"@).field("module"@)
}

/// Where in its module a hit lies, where it says so.
pub open spec fn rva_suffix(hit: JsonView) -> Seq<char> {
    match hit_module(hit).get("rva"@) {
        Some(rva) => " (RVA "@ + address_text(rva) + ")"@,
        None => ""@,
    }
}

/// Where in its module a hit lies, where it says so.
pub fn hit_rva_suffix(hit: &Json) -> (suffix: String)
    ensures
        suffix@ == rva_suffix(hit.deep_view()),
{
    match hit.field("address_context").field("module").get("rva") {
        Some(rva) => {
            let mut suffix = " (RVA ".to_string();
            let shown = format_address_value(rva);
            suffix.append(&shown);
            suffix.append(")");
            suffix
        },
        None => "".to_string(),
    }
}

/// Whether a hit lies in code, in a module or elsewhere.
pub open spec fn tag_of(hit: JsonView) -> Seq<char> {
    if hit.field("address_context"@).field("region"@).field("flags"@).get_truth("executable"@)
        == Some(true) {
        "exec"@
    } else if hit_module(hit) != JsonView::Null {
        "mod"@
    } else {
        "heap"@
    }
}

/// Whether a hit lies in code, in a module or elsewhere.
pub fn region_tag(hit: &Json) -> (tag: &'static str)
    ensures
        tag@ == tag_of(hit.deep_view()),
{
    let context = hit.field("address_context");
    match context.field("region").field("flags").get_bool("executable") {
        Some(true) => "exec",
        _ => if !context.field("module").is_null() {
            "mod"
        } else {
            "heap"
        },
    }
}

/// What a hit lies in, with the name of its module where it has one.
pub open spec fn module_tag(hit: JsonView) -> Seq<char> {
    match hit_module(hit).get_text("name"@) {
        Some(name) => tag_of(hit) + ":"@ + name,
        None => tag_of(hit),
    }
}

/// What a hit lies in, with the name of its module where it has one.
pub fn hit_region_module_tag(hit: &Json) -> (tag: String)
    ensures
        tag@ == module_tag(hit.deep_view()),
{
    let mut tag = region_tag(hit).to_string();
    if let Some(name) = hit.field("address_context").field("module").get_str("name") {
        tag.append(":");
        tag.append(name);
    }
    tag
}

/// A text that is cut where it is too long for a preview.
pub open spec fn preview(s: Seq<char>) -> Seq<char> {
    if s.len() <= PREVIEW_DISPLAY_LIMIT {
        s
    } else {
        s.take(PREVIEW_DISPLAY_LIMIT - 3) + "..."@
    }
}

/// A text that is cut where it is too long for a preview.
pub fn truncate_preview(value: &str) -> (text: String)
    ensures
        text@ == preview(value@),
{
    let chars = text::chars_of(value);
    if chars.len() <= PREVIEW_DISPLAY_LIMIT {
        return value.to_string();
    }
    let mut output = text::text_of(&chars[0..PREVIEW_DISPLAY_LIMIT - 3]);
    proof {
        assert(chars@.subrange(0, PREVIEW_DISPLAY_LIMIT - 3) =~= value@.take(
            PREVIEW_DISPLAY_LIMIT - 3,
        ));
    }
    output.append("...");
    output
}

/// A preview is never longer than the limit, and holds what a short text holds.
pub proof fn law_preview_bounded(s: Seq<char>)
    ensures
        preview(s).len() <= PREVIEW_DISPLAY_LIMIT,
        s.len() <= PREVIEW_DISPLAY_LIMIT ==> preview(s) == s,
{
    reveal_strlit("...");
}

/// What is said of hits that a report does not list.
pub open spec fn omitted_lines(returned: int, total: int) -> Seq<Seq<char>> {
    (if returned > TEXT_HIT_DISPLAY_LIMIT {
        seq![
            "... "@ + text::decimal_text((returned - TEXT_HIT_DISPLAY_LIMIT) as nat)
                + " returned hit(s) omitted from text; raise max_results or use full/out_path for bulk output"@,
        ]
    } else {
        Seq::empty()
    }) + (if total > returned {
        seq![
            "... "@ + text::decimal_text((total - returned) as nat)
                + " additional hit(s) not returned; use full=true with out_path for the complete set"@,
        ]
    } else {
        Seq::empty()
    })
}

/// Says how many hits a report does not list.
pub fn push_omitted_hint(lines: &mut Vec<String>, returned: usize, total: usize)
    ensures
        final(lines).deep_view() == old(lines).deep_view() + omitted_lines(
            returned as int,
            total as int,
        ),
{
    let ghost start = lines.deep_view();
    if returned > TEXT_HIT_DISPLAY_LIMIT {
        let mut line = "... ".to_string();
        text::push_decimal(&mut line, (returned - TEXT_HIT_DISPLAY_LIMIT) as u64);
        line.append(
            " returned hit(s) omitted from text; raise max_results or use full/out_path for bulk output",
        );
        push_line(lines, line);
    }
    if total > returned {
        let mut line = "... ".to_string();
        text::push_decimal(&mut line, (total - returned) as u64);
        line.append(
            " additional hit(s) not returned; use full=true with out_path for the complete set",
        );
        push_line(lines, line);
    }
    proof {
        assert(lines.deep_view() =~= start + omitted_lines(returned as int, total as int));
    }
}

/// An address is shown in hexadecimal behind `0x`, be it a number or the only field of an
/// object; a text is shown as it is.
pub proof fn law_address_shown(n: u64, key: Seq<char>, t: Seq<char>)
    ensures
        address_text(JsonView::Unsigned(n)) == "0x"@ + text::hex_text(n as nat),
        address_text(JsonView::Object(seq![(key, JsonView::Unsigned(n))])) == "0x"@
            + text::hex_text(n as nat),
        address_text(JsonView::Text(t)) == t,
        address_text(JsonView::Null) == "?"@,
        address_text(JsonView::Object(Seq::empty())) == "?"@,
{
    let fields = seq![(key, JsonView::Unsigned(n))];
    assert(unsigned_field()(fields[0]));
    seqs::lemma_first_from(fields, 0, unsigned_field());
    let none = Seq::<(Seq<char>, JsonView)>::empty();
    seqs::lemma_first_from(none, 0, unsigned_field());
}

/// Bytes are shown in their order, each as two digits, with a space between them.
pub proof fn law_bytes_shown(bytes: Seq<u8>)
    ensures
        bytes_text(
            JsonView::Array(bytes.map_values(|byte: u8| JsonView::Unsigned(byte as u64))),
        ) == text::joined(
            bytes.map_values(
                |byte: u8|
                    seq![text::hex_digit(byte as int / 16), text::hex_digit(byte as int % 16)],
            ),
            " "@,
        ),
{
    let items = bytes.map_values(|byte: u8| JsonView::Unsigned(byte as u64));
    lemma_byte_items(bytes);
    assert(JsonView::Array(items).items() == Some(items));
}

proof fn lemma_byte_items(bytes: Seq<u8>)
    ensures
        bytes.map_values(|byte: u8| JsonView::Unsigned(byte as u64)).flat_map(byte_text())
            == bytes.map_values(
            |byte: u8| seq![text::hex_digit(byte as int / 16), text::hex_digit(byte as int % 16)],
        ),
    decreases bytes.len(),
{
    let item = |byte: u8| JsonView::Unsigned(byte as u64);
    let shown = |byte: u8|
        seq![text::hex_digit(byte as int / 16), text::hex_digit(byte as int % 16)];
    let items = bytes.map_values(item);
    seqs::lemma_flat_map_ends(items, byte_text());
    if bytes.len() == 0 {
        assert(items.take(0) =~= items);
        assert(bytes.map_values(shown) =~= Seq::empty());
    } else {
        let front = bytes.drop_last();
        let k = bytes.len() - 1;
        lemma_byte_items(front);
        seqs::lemma_flat_map_step(items, k, byte_text());
        assert(items.take(k) =~= front.map_values(item));
        assert(items.take(k + 1) =~= items);
        let byte = bytes[k];
        assert(items[k] == JsonView::Unsigned(byte as u64));
        assert(byte_text()(items[k]) =~= seq![shown(byte)]);
        assert(bytes.map_values(shown) =~= front.map_values(shown).push(shown(byte)));
    }
}

/// A text that is filled up to a width begins with the text and has only spaces behind it.
pub proof fn law_padded(s: Seq<char>, width: int)
    ensures
        s.is_prefix_of(padded(s, width)),
        padded(s, width).len() == if s.len() >= width {
            s.len() as int
        } else {
            width
        },
        forall|i: int|
            s.len() <= i < padded(s, width).len() ==> #[trigger] padded(s, width)[i] == ' ',
{
    assert(s =~= padded(s, width).subrange(0, s.len() as int));
}

/// A text that is too long for a preview is cut to its first ninety-three characters, and
/// three dots follow.
pub proof fn law_preview_cut(s: Seq<char>)
    ensures
        s.len() <= 96 ==> preview(s) == s,
        s.len() > 96 ==> preview(s).len() == 96 && preview(s).take(93) == s.take(93)
            && preview(s).skip(93) == seq!['.', '.', '.'],
{
    reveal_strlit("...");
    if s.len() > 96 {
        assert(preview(s).take(93) =~= s.take(93));
        assert(preview(s).skip(93) =~= seq!['.', '.', '.']);
    }
}

/// A hit in code is told by `exec`, another one in a module by `mod`, and one outside of
/// modules by `heap`; the name of the module follows a colon.
pub proof fn law_tag(hit: JsonView, name: Seq<char>)
    ensures
        ({
            let context = hit.field("address_context"@);
            let kind = if context.field("region"@).field("flags"@).get_truth("executable"@)
                == Some(true) {
                "exec"@
            } else if context.field("module"@) != JsonView::Null {
                "mod"@
            } else {
                "heap"@
            };
            &&& tag_of(hit) == kind
            &&& context.field("module"@).get_text("name"@) == Some(name) ==> module_tag(hit) == kind
                + seq![':'] + name
            &&& context.field("module"@).get_text("name"@) is None ==> module_tag(hit) == kind
        }),
{
    reveal_strlit(":");
    assert(":"@ =~= seq![':']);
}

/// Where a hit lies in its module is shown in brackets.
pub proof fn law_rva_suffix(hit: JsonView, n: u64)
    ensures
        hit.field("address_context"@).field("module"@).get("rva"@) == Some(JsonView::Unsigned(n))
            ==> rva_suffix(hit) == " (RVA "@ + ("0x"@ + text::hex_text(n as nat)) + ")"@,
        hit.field("address_context"@).field("module"@).get("rva"@) is None ==> rva_suffix(
            hit,
        ).len() == 0,
{
    reveal_strlit("");
}

/// What is said of the hits that are not listed: how many of those that came are more than
/// twelve, and how many more there are than came.
pub proof fn law_omitted(returned: int, total: int)
    ensures
        ({
            let lines = omitted_lines(returned, total);
            let over = returned > 12;
            let more = total > returned;
            &&& lines.len() == (if over {
                1int
            } else {
                0
            }) + (if more {
                1int
            } else {
                0
            })
            &&& over ==> ("... "@ + text::decimal_text((returned - 12) as nat)
                + " returned"@).is_prefix_of(lines[0])
            &&& more ==> ("... "@ + text::decimal_text((total - returned) as nat)
                + " additional"@).is_prefix_of(lines.last())
        }),
{
    reveal_strlit(" returned");
    reveal_strlit(" additional");
    reveal_strlit(
        " returned hit(s) omitted from text; raise max_results or use full/out_path for bulk output",
    );
    reveal_strlit(
        " additional hit(s) not returned; use full=true with out_path for the complete set",
    );
    let lines = omitted_lines(returned, total);
    if returned > 12 {
        let head = "... "@ + text::decimal_text((returned - 12) as nat) + " returned"@;
        assert(head =~= lines[0].subrange(0, head.len() as int));
    }
    if total > returned {
        let head = "... "@ + text::decimal_text((total - returned) as nat) + " additional"@;
        assert(head =~= lines.last().subrange(0, head.len() as int));
    }
}

/// An instruction is shown with its address, its bytes and its text; what it calls follows an
/// arrow, and the text that it speaks of stands in quotation marks.
pub proof fn law_instruction_shown(instruction: JsonView)
    ensures
        ({
            let line = instruction_line(instruction);
            let bytes = bytes_text(instruction.field("bytes"@));
            let begin = address_text(instruction.field("address"@)) + seq![':', ' '] + bytes;
            let target = instruction.field("call_target"@);
            let words = match instruction.get_text("text"@) {
                Some(words) => words,
                None => Seq::empty(),
            };
            let tail = words + (if target == JsonView::Null {
                Seq::empty()
            } else {
                " -> "@ + address_text(target)
            }) + (match instruction.get_text("string"@) {
                Some(string) => " ; \""@ + string + "\""@,
                None => Seq::empty(),
            });
            &&& begin.is_prefix_of(line)
            &&& tail.is_suffix_of(line)
            &&& line.len() == begin.len() + 1 + tail.len() + (if bytes.len() < 20 {
                20 - bytes.len()
            } else {
                0
            })
        }),
{
    reveal_strlit(": ");
    reveal_strlit(" ");
    reveal_strlit("");
    let line = instruction_line(instruction);
    let bytes = bytes_text(instruction.field("bytes"@));
    let begin = address_text(instruction.field("address"@)) + seq![':', ' '] + bytes;
    let target = instruction.field("call_target"@);
    let words = match instruction.get_text("text"@) {
        Some(words) => words,
        None => Seq::empty(),
    };
    let tail = words + (if target == JsonView::Null {
        Seq::empty()
    } else {
        " -> "@ + address_text(target)
    }) + (match instruction.get_text("string"@) {
        Some(string) => " ; \""@ + string + "\""@,
        None => Seq::empty(),
    });
    assert(": "@ =~= seq![':', ' ']);
    assert(words =~= text_or(instruction, "text"@, ""@));
    law_padded(bytes, 20);
    let head = address_text(instruction.field("address"@)) + ": "@ + padded(bytes, 20) + " "@;
    assert(line =~= head + tail);
    assert(begin =~= line.subrange(0, begin.len() as int));
    assert(tail =~= line.subrange(line.len() - tail.len(), line.len() as int));
}

/// How an address is shown that may be absent.
pub open spec fn address_or_mark(address: Option<Address>) -> Seq<char> {
    match address {
        Some(address) => "0x"@ + text::hex_text(address.0 as nat),
        None => "?"@,
    }
}

} // verus!
