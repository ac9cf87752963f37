//! Any value as indented text.

use vstd::prelude::*;

use crate::json::{Json, JsonView};
use crate::render;
use crate::render::{bytes_hex, format_address_value};
use crate::render_tools;
use crate::text;
use crate::text_session;

verus! {

/// Whether a field is known to hold bytes.
pub open spec fn names_bytes(key: Seq<char>) -> bool {
    text::contains_text(key, "bytes"@) || key == "prologue"@
}

pub fn is_bytes_key(key: &str) -> (named: bool)
    ensures
        named == names_bytes(key@),
{
    text::contains(&text::chars_of(key), &text::chars_of("bytes")) || text::same_text(key, "prologue")
}

/// Whether a field is known to hold an address.
pub open spec fn names_address(key: Seq<char>) -> bool {
    key == "address"@
        || key == "base"@
        || key == "target"@
        || key == "live_addr"@
        || key == "static_addr"@
        || key == "final_address"@
        || key == "base_address"@
        || key == "read_address"@
        || key == "next_address"@
        || key == "pointer"@
        || key == "deref"@
        || key == "rva"@
        || key == "ghidra_image_base"@
        || key == "iat_address"@
        || key == "thunk_address"@
        || key == "function_start"@
        || key == "call_target"@
        || key == "string_address"@
        || key == "ref_site"@
        || key == "vtable"@
        || key == "type_descriptor"@
        || key == "col"@
        || key == "rtti_string"@
}

pub fn is_address_key(key: &str) -> (named: bool)
    ensures
        named == names_address(key@),
{
    text::same_text(key, "address")
        || text::same_text(key, "base")
        || text::same_text(key, "target")
        || text::same_text(key, "live_addr")
        || text::same_text(key, "static_addr")
        || text::same_text(key, "final_address")
        || text::same_text(key, "base_address")
        || text::same_text(key, "read_address")
        || text::same_text(key, "next_address")
        || text::same_text(key, "pointer")
        || text::same_text(key, "deref")
        || text::same_text(key, "rva")
        || text::same_text(key, "ghidra_image_base")
        || text::same_text(key, "iat_address")
        || text::same_text(key, "thunk_address")
        || text::same_text(key, "function_start")
        || text::same_text(key, "call_target")
        || text::same_text(key, "string_address")
        || text::same_text(key, "ref_site")
        || text::same_text(key, "vtable")
        || text::same_text(key, "type_descriptor")
        || text::same_text(key, "col")
        || text::same_text(key, "rtti_string")
}

/// Whether every item is a byte.
pub open spec fn all_bytes(items: Seq<JsonView>) -> bool {
    forall|i: int|
        0 <= i < items.len() ==> ((#[trigger] items[i]).unsigned() matches Some(n) && n <= 0xff)
}

pub fn is_byte_array(items: &Vec<Json>) -> (bytes: bool)
    ensures
        bytes == all_bytes(items.deep_view()),
{
    let ghost all = items.deep_view();
    let mut i: usize = 0;
    while i < items.len()
        invariant
            i <= items.len(),
            all == items.deep_view(),
            all.len() == items@.len(),
            forall|j: int|
                0 <= j < i ==> ((#[trigger] all[j]).unsigned() matches Some(n) && n <= 0xff),
        decreases items.len() - i,
    {
        proof {
            assert(all[i as int] == items@[i as int].deep_view());
        }
        match items[i].as_u64() {
            Some(n) => {
                if n > 0xff {
                    return false;
                }
            },
            None => {
                return false;
            },
        }
        i += 1;
    }
    true
}

/// A text on one line: a line break is written as an escape.
pub open spec fn flattened(s: Seq<char>) -> Seq<char>
    decreases s.len(),
{
    if s.len() == 0 {
        Seq::empty()
    } else if s.last() == '\n' {
        flattened(s.drop_last()) + "\\n"@
    } else {
        flattened(s.drop_last()).push(s.last())
    }
}

/// A text on one line.
pub fn flatten(value: &str) -> (line: String)
    ensures
        line@ == flattened(value@),
{
    let chars = text::chars_of(value);
    let mut line = String::new();
    let mut i: usize = 0;
    while i < chars.len()
        invariant
            i <= chars.len(),
            chars@ == value@,
            line@ == flattened(value@.take(i as int)),
        decreases chars.len() - i,
    {
        proof {
            assert(value@.take(i + 1).drop_last() =~= value@.take(i as int));
        }
        if chars[i] == '\n' {
            line.append("\\n");
        } else {
            line.push(chars[i]);
        }
        i += 1;
    }
    proof {
        assert(value@.take(value@.len() as int) =~= value@);
    }
    line
}

/// A negative number in decimal.
pub open spec fn negative_text(n: int) -> Seq<char> {
    if n < 0 {
        "-"@ + text::decimal_text((-n) as nat)
    } else {
        text::decimal_text(n as nat)
    }
}

fn negative(n: i64) -> (shown: String)
    ensures
        shown@ == negative_text(n as int),
{
    if n < 0 {
        let mut shown = "-".to_string();
        let size: i128 = -(n as i128);
        text::push_decimal(&mut shown, size as u64);
        shown
    } else {
        text::decimal(n as u64)
    }
}

/// A value on one line, where it fits there: a scalar, bytes, an address, up to
/// eight values that fit, or an object of one field that fits.
pub open spec fn inline_text(key: Option<Seq<char>>, value: JsonView) -> Option<Seq<char>>
    decreases value,
{
    match value {
        JsonView::Null => Some("-"@),
        JsonView::Bool(b) => Some(text_session::truth(b)),
        JsonView::Unsigned(n) => Some(text::decimal_text(n as nat)),
        JsonView::Negative(n) => Some(negative_text(n as int)),
        JsonView::Float(t) => Some(t),
        JsonView::Text(t) => Some(flattened(t)),
        JsonView::Array(items) => if (key matches Some(k) && names_bytes(k)) && all_bytes(items) {
            Some(render::bytes_text(value))
        } else if items.len() == 0 {
            Some("(none)"@)
        } else if items.len() <= 8 {
            match inline_items(items) {
                Some(shown) => Some(text::joined(shown, ", "@)),
                None => None,
            }
        } else {
            None
        },
        JsonView::Object(fields) => if key matches Some(k) && names_address(k) {
            Some(render::address_text(value))
        } else if fields.len() == 1 {
            match inline_text(None, fields[0].1) {
                Some(shown) => Some(fields[0].0 + "("@ + shown + ")"@),
                None => None,
            }
        } else {
            None
        },
    }
}

/// Each of some values on one line, where all of them fit there.
pub open spec fn inline_items(items: Seq<JsonView>) -> Option<Seq<Seq<char>>>
    decreases items,
{
    if items.len() == 0 {
        Some(Seq::empty())
    } else {
        match inline_items(items.drop_last()) {
            Some(shown) => match inline_text(None, items[items.len() - 1]) {
                Some(last) => Some(shown.push(last)),
                None => None,
            },
            None => None,
        }
    }
}

/// Values that fit on one line each are those of a front that does, and the next
/// one where it does.
proof fn lemma_inline_step(items: Seq<JsonView>, i: int)
    requires
        0 <= i < items.len(),
    ensures
        inline_items(items.take(i + 1)) == (match inline_items(items.take(i)) {
            Some(shown) => match inline_text(None, items[i]) {
                Some(last) => Some(shown.push(last)),
                None => None,
            },
            None => None,
        }),
{
    assert(items.take(i + 1).drop_last() =~= items.take(i));
}

/// Where one of some values does not fit, not all of them do.
proof fn lemma_inline_fails(items: Seq<JsonView>, i: int)
    requires
        0 <= i <= items.len(),
        inline_items(items.take(i)) is None,
    ensures
        inline_items(items) is None,
    decreases items.len() - i,
{
    if i < items.len() {
        lemma_inline_step(items, i);
        lemma_inline_fails(items, i + 1);
    } else {
        assert(items.take(i) =~= items);
    }
}

/// A value on one line, where it fits there.
pub fn plain_inline_value(key: Option<&str>, value: &Json) -> (shown: Option<String>)
    ensures
        shown.deep_view() == inline_text(key.deep_view(), value.deep_view()),
    decreases value,
{
    match value {
        Json::Null => Some("-".to_string()),
        Json::Bool(b) => Some(
            if *b {
                "true".to_string()
            } else {
                "false".to_string()
            },
        ),
        Json::Unsigned(n) => Some(text::decimal(*n)),
        Json::Negative(n) => Some(negative(*n)),
        Json::Float(t) => Some(t.clone()),
        Json::Text(t) => Some(flatten(t)),
        Json::Array(items) => {
            proof {
                Json::lemma_array(*items);
                assert(items.deep_view().len() == items@.len());
            }
            if let Some(key) = key {
                if is_bytes_key(key) && is_byte_array(items) {
                    return Some(bytes_hex(value));
                }
            }
            if items.len() == 0 {
                return Some("(none)".to_string());
            }
            if items.len() > 8 {
                return None;
            }
            let ghost all = items.deep_view();
            let mut lines: Vec<String> = Vec::new();
            let mut i: usize = 0;
            proof {
                assert(lines.deep_view() =~= Seq::<Seq<char>>::empty());
                assert(all.take(0) =~= Seq::<JsonView>::empty());
            }
            while i < items.len()
                invariant
                    i <= items.len(),
                    value == Json::Array(*items),
                    value.deep_view() == JsonView::Array(all),
                    all == items.deep_view(),
                    all.len() == items@.len(),
                    0 < items.len() <= 8,
                    !((key.deep_view() matches Some(k) && names_bytes(k)) && all_bytes(all)),
                    inline_items(all.take(i as int)) == Some(lines.deep_view()),
                decreases items.len() - i,
            {
                proof {
                    assert(decreases_to!(value => value->Array_0));
                    assert(decreases_to!(value->Array_0 => value->Array_0@));
                    assert(decreases_to!(items@ => items@[i as int]));
                    assert(all[i as int] == items@[i as int].deep_view());
                    lemma_inline_step(all, i as int);
                }
                match plain_inline_value(None, &items[i]) {
                    Some(line) => {
                        render::push_line(&mut lines, line);
                    },
                    None => {
                        proof {
                            lemma_inline_fails(all, i + 1);
                        }
                        return None;
                    },
                }
                i += 1;
            }
            proof {
                assert(all.take(all.len() as int) =~= all);
            }
            Some(text::join(&lines, ", "))
        },
        Json::Object(fields) => {
            proof {
                Json::lemma_object(*fields);
                assert(fields.deep_view().len() == fields@.len());
            }
            if let Some(key) = key {
                if is_address_key(key) {
                    return Some(format_address_value(value));
                }
            }
            if fields.len() != 1 {
                return None;
            }
            proof {
                assert(decreases_to!(value => value->Object_0));
                assert(decreases_to!(value->Object_0 => value->Object_0@));
                assert(decreases_to!(fields@ => fields@[0]));
                assert(decreases_to!(fields@[0] => fields@[0].1));
                assert(fields.deep_view()[0] == (fields@[0].0@, fields@[0].1.deep_view()));
            }
            match plain_inline_value(None, &fields[0].1) {
                Some(shown) => {
                    let mut line = fields[0].0.clone();
                    line.append("(");
                    line.append(&shown);
                    line.append(")");
                    Some(line)
                },
                None => None,
            }
        },
    }
}

/// A line behind its key, where it has one.
pub open spec fn keyed(pad: Seq<char>, key: Option<Seq<char>>, line: Seq<char>) -> Seq<char> {
    match key {
        Some(key) => pad + key + ": "@ + line,
        None => pad + line,
    }
}

/// What stands above the parts of a value.
pub open spec fn heading(pad: Seq<char>, key: Option<Seq<char>>, value: JsonView) -> Seq<
    Seq<char>,
> {
    match key {
        Some(key) => seq![pad + key + ":"@],
        None => match value.get_text("tool"@) {
            Some(tool) => seq![tool],
            None => Seq::empty(),
        },
    }
}

/// A value as lines: on one line where it fits there, and otherwise its parts, each
/// deeper than the value itself. The name of a tool is not listed as a field.
pub open spec fn plain_lines(key: Option<Seq<char>>, value: JsonView, pad: Seq<char>) -> Seq<
    Seq<char>,
>
    decreases value,
{
    match inline_text(key, value) {
        Some(line) => seq![keyed(pad, key, line)],
        None => match value {
            JsonView::Object(fields) => heading(pad, key, value) + field_lines(fields, pad + "  "@),
            JsonView::Array(items) => heading(pad, key, value) + item_lines(items, pad + "  "@),
            _ => Seq::empty(),
        },
    }
}

/// The fields of an object as lines.
pub open spec fn field_lines(fields: Seq<(Seq<char>, JsonView)>, pad: Seq<char>) -> Seq<Seq<char>>
    decreases fields,
{
    if fields.len() == 0 {
        Seq::empty()
    } else {
        let last = fields[fields.len() - 1];
        field_lines(fields.drop_last(), pad) + (if last.0 == "tool"@ {
            Seq::empty()
        } else {
            plain_lines(Some(last.0), last.1, pad)
        })
    }
}

/// The items of a list as lines, each behind a dash.
pub open spec fn item_lines(items: Seq<JsonView>, pad: Seq<char>) -> Seq<Seq<char>>
    decreases items,
{
    if items.len() == 0 {
        Seq::empty()
    } else {
        let last = items[items.len() - 1];
        item_lines(items.drop_last(), pad) + (match inline_text(None, last) {
            Some(line) => seq![pad + "- "@ + line],
            None => seq![pad + "-"@] + plain_lines(None, last, pad + "  "@),
        })
    }
}

/// A value as text.
pub open spec fn plain_text(value: JsonView) -> Seq<char> {
    render_tools::page(plain_lines(None, value, ""@))
}

/// Appends a value as lines.
pub fn render_plain_into(key: Option<&str>, value: &Json, pad: &str, lines: &mut Vec<String>)
    ensures
        final(lines).deep_view() == old(lines).deep_view() + plain_lines(
            key.deep_view(),
            value.deep_view(),
            pad@,
        ),
    decreases value,
{
    let ghost start = lines.deep_view();
    if let Some(shown) = plain_inline_value(key, value) {
        let mut line = pad.to_string();
        if let Some(key) = key {
            line.append(key);
            line.append(": ");
        }
        line.append(&shown);
        render::push_line(lines, line);
        proof {
            assert(lines.deep_view() =~= start + plain_lines(
                key.deep_view(),
                value.deep_view(),
                pad@,
            ));
        }
        return;
    }
    match key {
        Some(key) => {
            let mut line = pad.to_string();
            line.append(key);
            line.append(":");
            render::push_line(lines, line);
        },
        None => {
            if let Some(tool) = value.get_str("tool") {
                render::push_line(lines, tool.to_string());
            }
        },
    }
    let ghost head = heading(pad@, key.deep_view(), value.deep_view());
    proof {
        assert(lines.deep_view() =~= start + head);
    }
    let mut deeper = pad.to_string();
    deeper.append("  ");
    match value {
        Json::Object(fields) => {
            let ghost all = fields.deep_view();
            proof {
                Json::lemma_object(*fields);
                assert(all.len() == fields@.len());
                assert(start + head + field_lines(all.take(0), deeper@) =~= start + head);
            }
            let mut i: usize = 0;
            while i < fields.len()
                invariant
                    i <= fields.len(),
                    value == Json::Object(*fields),
                    all == fields.deep_view(),
                    all.len() == fields@.len(),
                    lines.deep_view() == start + head + field_lines(all.take(i as int), deeper@),
                decreases fields.len() - i,
            {
                let ghost before = lines.deep_view();
                proof {
                    assert(decreases_to!(value => value->Object_0));
                    assert(decreases_to!(value->Object_0 => value->Object_0@));
                    assert(decreases_to!(fields@ => fields@[i as int]));
                    assert(decreases_to!(fields@[i as int] => fields@[i as int].1));
                    assert(all[i as int] == (
                        fields@[i as int].0@,
                        fields@[i as int].1.deep_view(),
                    ));
                    assert(all.take(i + 1).drop_last() =~= all.take(i as int));
                }
                if !text::same_text(&fields[i].0, "tool") {
                    render_plain_into(Some(fields[i].0.as_str()), &fields[i].1, &deeper, lines);
                }
                i += 1;
                proof {
                    assert(lines.deep_view() =~= start + head + field_lines(
                        all.take(i as int),
                        deeper@,
                    ));
                }
            }
            proof {
                assert(all.take(all.len() as int) =~= all);
                assert(start + head + field_lines(all, deeper@) =~= start + (head + field_lines(
                    all,
                    deeper@,
                )));
            }
        },
        Json::Array(items) => {
            let ghost all = items.deep_view();
            proof {
                Json::lemma_array(*items);
                assert(all.len() == items@.len());
                assert(start + head + item_lines(all.take(0), deeper@) =~= start + head);
            }
            let mut i: usize = 0;
            while i < items.len()
                invariant
                    i <= items.len(),
                    value == Json::Array(*items),
                    all == items.deep_view(),
                    all.len() == items@.len(),
                    lines.deep_view() == start + head + item_lines(all.take(i as int), deeper@),
                decreases items.len() - i,
            {
                let ghost before = lines.deep_view();
                proof {
                    assert(decreases_to!(value => value->Array_0));
                    assert(decreases_to!(value->Array_0 => value->Array_0@));
                    assert(decreases_to!(items@ => items@[i as int]));
                    assert(all[i as int] == items@[i as int].deep_view());
                    assert(all.take(i + 1).drop_last() =~= all.take(i as int));
                }
                match plain_inline_value(None, &items[i]) {
                    Some(shown) => {
                        let mut line = deeper.clone();
                        line.append("- ");
                        line.append(&shown);
                        render::push_line(lines, line);
                    },
                    None => {
                        let mut line = deeper.clone();
                        line.append("-");
                        render::push_line(lines, line);
                        let mut inner = deeper.clone();
                        inner.append("  ");
                        render_plain_into(None, &items[i], &inner, lines);
                    },
                }
                i += 1;
                proof {
                    assert(lines.deep_view() =~= start + head + item_lines(
                        all.take(i as int),
                        deeper@,
                    ));
                }
            }
            proof {
                assert(all.take(all.len() as int) =~= all);
                assert(start + head + item_lines(all, deeper@) =~= start + (head + item_lines(
                    all,
                    deeper@,
                )));
            }
        },
        _ => {},
    }
}

/// A value as text.
pub fn render_plain_text(value: &Json) -> (text: String)
    ensures
        text@ == plain_text(value.deep_view()),
{
    let mut lines: Vec<String> = Vec::new();
    let ghost start = lines.deep_view();
    render_plain_into(None, value, "", &mut lines);
    proof {
        assert(start =~= Seq::<Seq<char>>::empty());
        assert(lines.deep_view() =~= plain_lines(None, value.deep_view(), ""@));
    }
    text::join(&lines, "\n")
}

/// A text on one line holds no line feed; each stands as a backslash and the letter `n`, and
/// every other character as itself.
pub proof fn law_flattened(s: Seq<char>, c: char)
    ensures
        !flattened(s).contains('\n'),
        flattened(Seq::empty()) == Seq::<char>::empty(),
        c != '\n' ==> flattened(s.push(c)) == flattened(s).push(c),
        flattened(s.push('\n')) == flattened(s).push('\\').push('n'),
    decreases s.len(),
{
    reveal_strlit("\\n");
    assert(s.push(c).drop_last() =~= s);
    assert(s.push('\n').drop_last() =~= s);
    assert(flattened(s) + "\\n"@ =~= flattened(s).push('\\').push('n'));
    if s.len() > 0 {
        law_flattened(s.drop_last(), c);
        let front = flattened(s.drop_last());
        assert forall|i: int| 0 <= i < front.len() implies front[i] != '\n' by {
            assert(front.contains(front[i]));
        }
    }
}

/// How a scalar is shown: as a word, as a number in decimal or as the text itself.
pub proof fn law_scalars_inline(key: Option<Seq<char>>, n: u64, below: i64, t: Seq<char>)
    ensures
        inline_text(key, JsonView::Null) == Some("-"@),
        inline_text(key, JsonView::Bool(true)) == Some("true"@),
        inline_text(key, JsonView::Bool(false)) == Some("false"@),
        inline_text(key, JsonView::Unsigned(n)) == Some(text::decimal_text(n as nat)),
        below < 0 ==> inline_text(key, JsonView::Negative(below)) == Some(
            "-"@ + text::decimal_text((-below) as nat),
        ),
        inline_text(key, JsonView::Float(t)) == Some(t),
        inline_text(key, JsonView::Text(t)) == Some(flattened(t)),
{
}

/// A list of two values that fit on a line is shown with a comma between them, an empty one
/// by a word, and one of more than eight values not on one line; a field of bytes is shown
/// as bytes however many there are.
pub proof fn law_lists_inline(a: JsonView, b: JsonView, items: Seq<JsonView>, bytes: Seq<JsonView>)
    ensures
        inline_text(None, JsonView::Array(Seq::empty())) == Some("(none)"@),
        inline_text(None, a) is Some && inline_text(None, b) is Some ==> inline_text(
            None,
            JsonView::Array(seq![a, b]),
        ) == Some(inline_text(None, a)->0 + ", "@ + inline_text(None, b)->0),
        inline_text(None, a) is None || inline_text(None, b) is None ==> inline_text(
            None,
            JsonView::Array(seq![a, b]),
        ) is None,
        items.len() > 8 ==> inline_text(None, JsonView::Array(items)) is None,
        all_bytes(bytes) ==> inline_text(Some("bytes"@), JsonView::Array(bytes)) == Some(
            render::bytes_text(JsonView::Array(bytes)),
        ),
{
    let two = seq![a, b];
    assert(two.drop_last() =~= seq![a]);
    assert(two.drop_last().drop_last() =~= Seq::<JsonView>::empty());
    assert(inline_items(Seq::<JsonView>::empty()) == Some(Seq::<Seq<char>>::empty()));
    assert(inline_items(seq![a]) == (match inline_text(None, a) {
        Some(shown) => Some(Seq::<Seq<char>>::empty().push(shown)),
        None => None,
    })) by {
        assert(seq![a].drop_last() =~= Seq::<JsonView>::empty());
        assert(seq![a][0] == a);
    }
    assert(two[1] == b);
    if inline_text(None, a) is Some && inline_text(None, b) is Some {
        let lines = Seq::<Seq<char>>::empty().push(inline_text(None, a)->0).push(
            inline_text(None, b)->0,
        );
        assert(inline_items(two) == Some(lines));
        assert(lines.drop_last() =~= Seq::<Seq<char>>::empty().push(inline_text(None, a)->0));
        reveal_with_fuel(text::joined, 2);
        assert(text::joined(lines, ", "@) =~= inline_text(None, a)->0 + ", "@
            + inline_text(None, b)->0);
    }
    assert(names_bytes("bytes"@)) by {
        assert("bytes"@.subrange(0, 0 + "bytes"@.len() as int) =~= "bytes"@);
        assert(text::stands_at("bytes"@, "bytes"@, 0));
    }
}

/// An object of one field is shown as its name and, in brackets, its value; under a name that
/// is known to hold an address it is shown as one.
pub proof fn law_objects_inline(name: Seq<char>, value: JsonView, n: u64)
    ensures
        inline_text(None, value) matches Some(shown) ==> inline_text(
            None,
            JsonView::Object(seq![(name, value)]),
        ) == Some(name + "("@ + shown + ")"@),
        inline_text(Some("address"@), JsonView::Object(seq![(name, JsonView::Unsigned(n))]))
            == Some("0x"@ + text::hex_text(n as nat)),
{
    render::law_address_shown(n, name, ""@);
    assert(seq![(name, value)][0] == (name, value));
}

/// The fields of an object come in their order, each behind its name where it fits on a line;
/// the name of the tool is not among them. The items of a list come in their order, each
/// behind a dash.
pub proof fn law_lines_in_order(
    fields: Seq<(Seq<char>, JsonView)>,
    name: Seq<char>,
    value: JsonView,
    items: Seq<JsonView>,
    pad: Seq<char>,
)
    ensures
        field_lines(Seq::empty(), pad).len() == 0,
        name != "tool"@ && inline_text(Some(name), value) is Some ==> field_lines(
            fields.push((name, value)),
            pad,
        ) == field_lines(fields, pad).push(pad + name + ": "@ + inline_text(Some(name), value)->0),
        name != "tool"@ ==> field_lines(fields.push((name, value)), pad) == field_lines(fields, pad)
            + plain_lines(Some(name), value, pad),
        field_lines(fields.push(("tool"@, value)), pad) == field_lines(fields, pad),
        item_lines(Seq::empty(), pad).len() == 0,
        inline_text(None, value) is Some ==> item_lines(items.push(value), pad) == item_lines(
            items,
            pad,
        ).push(pad + "- "@ + inline_text(None, value)->0),
        inline_text(None, value) is None ==> item_lines(items.push(value), pad) == item_lines(
            items,
            pad,
        ).push(pad + "-"@) + plain_lines(None, value, pad + "  "@),
{
    assert(fields.push((name, value)).drop_last() =~= fields);
    assert(fields.push(("tool"@, value)).drop_last() =~= fields);
    assert(items.push(value).drop_last() =~= items);
    assert(field_lines(fields.push(("tool"@, value)), pad) =~= field_lines(fields, pad));
    if inline_text(Some(name), value) is Some {
        assert(plain_lines(Some(name), value, pad) =~= seq![
            pad + name + ": "@ + inline_text(Some(name), value)->0,
        ]);
    }
}

/// A value that does not fit on a line is shown by its parts, each two spaces deeper, below its
/// name or, where it has none, below the name of the tool that it tells.
pub proof fn law_nested_lines(
    name: Seq<char>,
    fields: Seq<(Seq<char>, JsonView)>,
    items: Seq<JsonView>,
    pad: Seq<char>,
)
    ensures
        ({
            let value = JsonView::Object(fields);
            let parts = field_lines(fields, pad + "  "@);
            &&& inline_text(Some(name), value) is None ==> plain_lines(Some(name), value, pad)
                == seq![pad + name + ":"@] + parts
            &&& inline_text(None, value) is None ==> plain_lines(None, value, pad) == (
            match value.get_text("tool"@) {
                Some(tool) => seq![tool],
                None => Seq::empty(),
            }) + parts
        }),
        inline_text(Some(name), JsonView::Array(items)) is None ==> plain_lines(
            Some(name),
            JsonView::Array(items),
            pad,
        ) == seq![pad + name + ":"@] + item_lines(items, pad + "  "@),
{
}

} // verus!
