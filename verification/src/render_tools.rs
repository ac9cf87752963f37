//! The report of each tool as text.

use vstd::prelude::*;

use crate::bytes;
use crate::evidence::{EvidenceHitView, EvidenceValueView};
use crate::json;
use crate::json::{Json, JsonView};
use crate::memory::ModuleInfoView;
use crate::render;
use crate::render::{bytes_hex, format_address_value, hit_address, MODULE_DISPLAY_LIMIT};
use crate::seqs;
use crate::shapes;
use crate::text;

verus! {

/// Lines, one under the other.
pub open spec fn page(lines: Seq<Seq<char>>) -> Seq<char> {
    text::joined(lines, "\n"@)
}

/// The preview in the context of a hit.
pub open spec fn context_preview(hit: JsonView) -> Seq<char> {
    render::text_or(hit.field("context"@), "ascii_preview"@, ""@)
}

/// Bytes that were read.
pub open spec fn mem_read_text(value: JsonView) -> Seq<char> {
    match value.get("hit"@) {
        Some(hit) => render::field_address(hit, "address"@) + "  "@ + render::bytes_text(
            hit.field("evidence"@).field("Bytes"@).field("bytes"@),
        ) + "\n"@ + context_preview(hit),
        None => "(no memory evidence)"@,
    }
}

pub fn render_mem_read(value: &Json) -> (text: String)
    ensures
        text@ == mem_read_text(value.deep_view()),
{
    match value.get("hit") {
        Some(hit) => {
            let mut text = hit_address(hit);
            text.append("  ");
            let bytes = bytes_hex(hit.field("evidence").field("Bytes").field("bytes"));
            text.append(&bytes);
            text.append("\n");
            text.append(render::str_or(hit.field("context"), "ascii_preview", ""));
            text
        },
        None => "(no memory evidence)".to_string(),
    }
}

/// The address of an item as it is shown.
pub open spec fn shown_address() -> spec_fn(JsonView) -> Seq<char> {
    |item: JsonView| render::address_text(item)
}

/// Addresses as they are shown, with something between them.
pub open spec fn address_list(items: Seq<JsonView>, separator: Seq<char>) -> Seq<char> {
    text::joined(items.map_values(shown_address()), separator)
}

pub(crate) fn join_addresses(items: &Vec<Json>, separator: &str) -> (text: String)
    ensures
        text@ == address_list(items.deep_view(), separator@),
{
    let shown = render::lines_of(
        items,
        items.len(),
        format_address_value,
        Ghost(shown_address()),
    );
    proof {
        assert(items.deep_view().len() == items@.len());
        assert(seqs::capped(items.deep_view(), items@.len() as int) =~= items.deep_view());
    }
    text::join(&shown, separator)
}

/// A chain of pointers that was followed.
pub open spec fn mem_read_chain_text(value: JsonView) -> Seq<char> {
    "chain: "@ + (match value.get_items("chain"@) {
        Some(items) => address_list(items, " -> "@),
        None => "(empty chain)"@,
    }) + "\nfinal: "@ + render::field_address(value, "final_address"@) + "\n"@
        + render::bytes_text(value.field("final_bytes"@)) + "\n"@ + render::text_or(
        value,
        "ascii_preview"@,
        ""@,
    )
}

pub fn render_mem_read_chain(value: &Json) -> (text: String)
    ensures
        text@ == mem_read_chain_text(value.deep_view()),
{
    let mut text = "chain: ".to_string();
    match value.get_array("chain") {
        Some(items) => {
            let chain = join_addresses(items, " -> ");
            text.append(&chain);
        },
        None => {
            text.append("(empty chain)");
        },
    }
    text.append("\nfinal: ");
    let last = render::show_address(value, "final_address");
    text.append(&last);
    text.append("\n");
    let bytes = bytes_hex(value.field("final_bytes"));
    text.append(&bytes);
    text.append("\n");
    text.append(render::str_or(value, "ascii_preview", ""));
    text
}

/// The address in a field of what a word or a field points to, where there is one.
pub open spec fn arrow(value: JsonView) -> Seq<char> {
    match value.field("pointer_target"@).get("address"@) {
        Some(target) => " -> "@ + render::address_text(target),
        None => Seq::empty(),
    }
}

pub(crate) fn push_arrow(line: &mut String, value: &Json)
    ensures
        final(line)@ == old(line)@ + arrow(value.deep_view()),
{
    match value.field("pointer_target").get("address") {
        Some(target) => {
            let mut tail = " -> ".to_string();
            let shown = format_address_value(target);
            tail.append(&shown);
            line.append(&tail);
        },
        None => {
            proof {
                assert(line@ + Seq::<char>::empty() =~= line@);
            }
        },
    }
}

/// A word of memory.
pub open spec fn word_line() -> spec_fn(JsonView) -> Seq<char> {
    |word: JsonView|
        render::field_address(word, "address"@) + "  "@ + render::text_or(word, "value_hex"@, "?"@)
            + arrow(word)
}

fn render_word(word: &Json) -> (line: String)
    ensures
        line@ == word_line()(word.deep_view()),
{
    let mut line = render::show_address(word, "address");
    line.append("  ");
    line.append(render::str_or(word, "value_hex", "?"));
    push_arrow(&mut line, word);
    line
}

/// The words of a structure.
pub open spec fn read_struct_text(value: JsonView) -> Seq<char> {
    let words = render::list_or_empty(value, "words"@);
    if words.len() == 0 {
        "(no struct words)"@
    } else {
        page(words.map_values(word_line()))
    }
}

pub fn render_read_struct(value: &Json) -> (text: String)
    ensures
        text@ == read_struct_text(value.deep_view()),
{
    match value.get_array("words") {
        Some(words) => {
            proof {
                assert(words.deep_view().len() == words@.len());
                assert(seqs::capped(words.deep_view(), words@.len() as int) =~= words.deep_view());
            }
            if words.len() == 0 {
                return "(no struct words)".to_string();
            }
            let lines = render::lines_of(words, words.len(), render_word, Ghost(word_line()));
            text::join(&lines, "\n")
        },
        None => "(no struct words)".to_string(),
    }
}

/// A module.
pub open spec fn module_line() -> spec_fn(JsonView) -> Seq<char> {
    |module: JsonView|
        render::field_address(module, "base"@) + " size="@ + render::field_address(module, "size"@)
            + " "@ + render::text_or(module, "name"@, "?"@)
}

pub fn format_module_line(module: &Json) -> (line: String)
    ensures
        line@ == module_line()(module.deep_view()),
{
    let mut line = render::show_address(module, "base");
    line.append(" size=");
    let size = render::show_address(module, "size");
    line.append(&size);
    line.append(" ");
    line.append(render::str_or(module, "name", "?"));
    line
}

/// How many of the modules are listed: all of them where all are asked for, and
/// otherwise up to a limit.
pub open spec fn modules_shown(value: JsonView) -> int {
    let count = render::list_or_empty(value, "modules"@).len() as int;
    let limit = match value.get_unsigned("max_results"@) {
        Some(n) => bytes::size_value(n) as int,
        None => MODULE_DISPLAY_LIMIT as int,
    };
    if value.get_truth("full"@) == Some(true) || count <= limit {
        count
    } else {
        limit
    }
}

/// What stands above the modules.
pub open spec fn modules_head(value: JsonView) -> Seq<char> {
    "mem_modules: module_count: "@ + text::decimal_text(
        render::number_or(
            value,
            "module_count"@,
            render::list_or_empty(value, "modules"@).len() as int,
        ) as nat,
    ) + ", target_arch: "@ + render::text_or(value.field("argus"@), "target_arch"@, "?"@)
        + ", address_width: "@ + text::decimal_text(
        render::number_or(value.field("argus"@), "address_width"@, 0) as nat,
    )
}

/// The modules of a process.
pub open spec fn modules_lines(value: JsonView) -> Seq<Seq<char>> {
    let modules = render::list_or_empty(value, "modules"@);
    let shown = modules_shown(value);
    seq![modules_head(value)] + (if modules.len() == 0 {
        seq!["(no modules)"@]
    } else {
        modules.take(shown).map_values(module_line()) + (if shown < modules.len() {
            seq![
                "... "@ + text::decimal_text((modules.len() - shown) as nat)
                    + " more omitted; pass full=true or raise max_results for the full module list"@,
            ]
        } else {
            Seq::empty()
        })
    })
}

/// Unless all modules are asked for, a report lists no more of them than its limit.
pub proof fn law_modules_report_bounded(value: JsonView)
    requires
        value.get_truth("full"@) != Some(true),
        value.get_unsigned("max_results"@) is None,
    ensures
        modules_lines(value).len() <= MODULE_DISPLAY_LIMIT + 2,
{
}

pub fn render_mem_modules(value: &Json) -> (text: String)
    ensures
        text@ == page(modules_lines(value.deep_view())),
{
    let nothing: Vec<Json> = Vec::new();
    let modules: &Vec<Json> = match value.get_array("modules") {
        Some(modules) => modules,
        None => &nothing,
    };
    proof {
        assert(nothing.deep_view() =~= Seq::<JsonView>::empty());
        assert(modules.deep_view().len() == modules@.len());
        assert(modules.deep_view() == render::list_or_empty(value.deep_view(), "modules"@));
    }
    let limit: usize = match value.get_u64("max_results") {
        Some(n) => bytes::as_size(n),
        None => MODULE_DISPLAY_LIMIT,
    };
    let full = match value.get_bool("full") {
        Some(full) => full,
        None => false,
    };
    let shown: usize = if full || modules.len() <= limit {
        modules.len()
    } else {
        limit
    };
    let mut head = "mem_modules: module_count: ".to_string();
    text::push_decimal(&mut head, render::u64_or(value, "module_count", modules.len() as u64));
    head.append(", target_arch: ");
    head.append(render::str_or(value.field("argus"), "target_arch", "?"));
    head.append(", address_width: ");
    text::push_decimal(&mut head, render::u64_or(value.field("argus"), "address_width", 0));
    let mut lines = render::one_line(head);
    if modules.len() == 0 {
        render::push_line(&mut lines, "(no modules)".to_string());
        proof {
            assert(lines.deep_view() =~= modules_lines(value.deep_view()));
        }
        return text::join(&lines, "\n");
    }
    let mut rest = render::lines_of(modules, shown, format_module_line, Ghost(module_line()));
    render::push_lines(&mut lines, &mut rest);
    proof {
        assert(seqs::capped(modules.deep_view(), shown as int) =~= modules.deep_view().take(
            shown as int,
        ));
    }
    if shown < modules.len() {
        let mut line = "... ".to_string();
        text::push_decimal(&mut line, (modules.len() - shown) as u64);
        line.append(
            " more omitted; pass full=true or raise max_results for the full module list",
        );
        render::push_line(&mut lines, line);
    }
    proof {
        assert(lines.deep_view() =~= modules_lines(value.deep_view()));
    }
    text::join(&lines, "\n")
}

/// What the report of a read says is what was read: where it lies, its bytes and its
/// preview.
pub proof fn law_mem_read_shown(hit: EvidenceHitView, bytes: Seq<u8>)
    requires
        hit.evidence == (EvidenceValueView::Bytes { bytes }),
    ensures
        mem_read_text(
            JsonView::Object(
                json::record()
                    .push(("hit"@, shapes::hit_json(hit)))
                    .push(("tool"@, JsonView::Text("mem_read"@))),
            ),
        ) == text::prefixed_hex(hit.address.0 as nat) + "  "@ + render::bytes_text(
            json::byte_list(bytes),
        ) + "\n"@ + hit.context.ascii_preview,
{
    reveal_strlit("hit");
    reveal_strlit("tool");
    reveal_strlit("address");
    reveal_strlit("address_context");
    reveal_strlit("context");
    reveal_strlit("evidence");
    reveal_strlit("after");
    reveal_strlit("ascii_preview");
    assert("address"@.len() == 7 && "address_context"@.len() == 15 && "context"@.len() == 7
        && "evidence"@.len() == 8 && "after"@.len() == 5 && "ascii_preview"@.len() == 13);
    assert("address"@[0] == 'a' && "context"@[0] == 'c');
    let report = JsonView::Object(
        json::record()
            .push(("hit"@, shapes::hit_json(hit)))
            .push(("tool"@, JsonView::Text("mem_read"@))),
    );
    reveal_with_fuel(seqs::first_from, 5);
    let shown = shapes::hit_json(hit);
    assert(report.get("hit"@) == Some(shown));
    assert(shown.field("address"@) == JsonView::Unsigned(hit.address.0));
    assert(shown.field("evidence"@) == shapes::evidence_json(hit.evidence));
    assert(shown.field("context"@) == shapes::context_json(hit.context));
    assert(shapes::context_json(hit.context).get_text("ascii_preview"@) == Some(
        hit.context.ascii_preview,
    ));
    let variant = shapes::evidence_json(hit.evidence);
    assert(variant.field("Bytes"@).field("bytes"@) == json::byte_list(bytes));
}

/// The line of a module shows its base, its size and its name.
pub proof fn law_module_shown(module: ModuleInfoView)
    ensures
        module_line()(shapes::module_json(module)) == ("0x"@ + text::hex_text(
            module.base.0 as nat,
        )) + " size="@ + ("0x"@ + text::hex_text((module.size as u64) as nat)) + " "@ + module.name,
{
    reveal_strlit("base");
    reveal_strlit("name");
    reveal_strlit("size");
    let told = shapes::module_json(module);
    let fields = told->Object_0;
    assert(fields[0].0 == "base"@ && "base"@.len() == 4);
    assert(fields[1].0 == "name"@ && "name"@.len() == 4);
    assert(fields[2].0 == "size"@ && "size"@.len() == 4);
    assert("base"@[0] == 'b' && "name"@[0] == 'n');
    assert("base"@[0] == 'b' && "size"@[0] == 's');
    assert("name"@[0] == 'n' && "size"@[0] == 's');
    json::lemma_field_at(told, 0);
    json::lemma_field_at(told, 1);
    json::lemma_field_at(told, 2);
}

/// Of the modules the first sixteen are listed, or as many as are asked for, in their order,
/// and all of them where the whole list is asked for.
pub proof fn law_modules_listed(value: JsonView, modules: Seq<JsonView>)
    requires
        value.get_items("modules"@) == Some(modules),
        modules.len() > 0,
    ensures
        ({
            let lines = modules_lines(value);
            let limit = match value.get_unsigned("max_results"@) {
                Some(n) => n as int,
                None => 16,
            };
            let all = value.get_truth("full"@) == Some(true) || modules.len() <= limit;
            let n = if all {
                modules.len() as int
            } else {
                limit
            };
            limit <= usize::MAX ==> {
                &&& lines.len() == 1 + n + (if all {
                    0int
                } else {
                    1
                })
                &&& forall|i: int|
                    0 <= i < n ==> #[trigger] lines[i + 1] == module_line()(modules[i])
                &&& !all ==> ("... "@ + text::decimal_text((modules.len() - n) as nat)
                    + " more omitted"@).is_prefix_of(lines.last())
            }
        }),
{
    reveal_strlit(" more omitted");
    reveal_strlit(
        " more omitted; pass full=true or raise max_results for the full module list",
    );
    let lines = modules_lines(value);
    let shown = modules_shown(value);
    let rows = modules.take(shown).map_values(module_line());
    if let Some(n) = value.get_unsigned("max_results"@) {
        if n <= usize::MAX {
            bytes::law_size_value(n);
        }
    }
    assert(render::list_or_empty(value, "modules"@) == modules);
    assert(0 <= shown <= modules.len());
    assert forall|i: int| 0 <= i < shown implies #[trigger] lines[i + 1] == module_line()(
        modules[i],
    ) by {
        assert(lines[i + 1] == rows[i]);
    }
    if shown < modules.len() {
        let head = "... "@ + text::decimal_text((modules.len() - shown) as nat) + " more omitted"@;
        assert(head =~= lines.last().subrange(0, head.len() as int));
    }
}

} // verus!
