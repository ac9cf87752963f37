//! What scans found, as text.

use vstd::prelude::*;

use crate::bytes;
use crate::callers::LocateResult;
use crate::json;
use crate::json::{Json, JsonView};
use crate::render;
use crate::render::{
    hit_address, hit_region_module_tag, hit_rva_suffix, push_omitted_hint, region_tag,
    truncate_preview, TEXT_HIT_DISPLAY_LIMIT,
};
use crate::render_tools;
use crate::seqs;
use crate::shapes;
use crate::text;

verus! {

/// The list in a field, or the empty one.
pub(crate) fn items_or_empty<'a>(value: &'a Json, key: &str, nothing: &'a Vec<Json>) -> (items:
    &'a Vec<Json>)
    requires
        nothing@.len() == 0,
    ensures
        items.deep_view() == render::list_or_empty(value.deep_view(), key@),
        items.deep_view().len() == items@.len(),
        seqs::capped(items.deep_view(), items@.len() as int) == items.deep_view(),
{
    match value.get_array(key) {
        Some(items) => {
            proof {
                assert(items.deep_view().len() == items@.len());
                assert(seqs::capped(items.deep_view(), items@.len() as int) =~= items.deep_view());
            }
            items
        },
        None => {
            proof {
                assert(nothing.deep_view() =~= Seq::<JsonView>::empty());
                assert(seqs::capped(nothing.deep_view(), 0) =~= nothing.deep_view());
            }
            nothing
        },
    }
}

/// The text of a hit: what was found, or else what stands around it.
pub open spec fn hit_text(hit: JsonView) -> Seq<char> {
    match hit.get_text("text"@) {
        Some(found) => found,
        None => match hit.field("evidence"@).field("Utf8"@).get_text("text"@) {
            Some(found) => found,
            None => render_tools::context_preview(hit),
        },
    }
}

/// A text that was found: where, in what, which text, and what stands around it
/// where that says more.
pub open spec fn text_hit_line() -> spec_fn(JsonView) -> Seq<char> {
    |hit: JsonView|
        {
            let around = render_tools::context_preview(hit);
            render::field_address(hit, "address"@) + "  ["@ + render::text_or(
                hit,
                "encoding"@,
                "?"@,
            ) + "/"@ + render::module_tag(hit) + "]"@ + render::rva_suffix(hit) + "  "@
                + render::preview(hit_text(hit)) + (if around.len() == 0 || around == hit_text(
                hit,
            ) {
                Seq::empty()
            } else {
                "  | "@ + render::preview(around)
            })
        }
}

fn render_text_hit(hit: &Json) -> (line: String)
    ensures
        line@ == text_hit_line()(hit.deep_view()),
{
    let around = render::str_or(hit.field("context"), "ascii_preview", "");
    let found: &str = match hit.get_str("text") {
        Some(found) => found,
        None => match hit.field("evidence").field("Utf8").get_str("text") {
            Some(found) => found,
            None => around,
        },
    };
    let mut line = hit_address(hit);
    line.append("  [");
    line.append(render::str_or(hit, "encoding", "?"));
    line.append("/");
    let tag = hit_region_module_tag(hit);
    line.append(&tag);
    line.append("]");
    let rva = hit_rva_suffix(hit);
    line.append(&rva);
    line.append("  ");
    let shown = truncate_preview(found);
    line.append(&shown);
    if text::chars_of(around).len() == 0 || text::same_text(around, found) {
        proof {
            assert(line@ + Seq::<char>::empty() =~= line@);
        }
    } else {
        let mut tail = "  | ".to_string();
        let shown = truncate_preview(around);
        tail.append(&shown);
        line.append(&tail);
    }
    line
}

/// What stands above the hits of a text scan.
pub open spec fn text_scan_head(tool: Seq<char>, value: JsonView, count: int) -> Seq<char> {
    tool + " \""@ + render::text_or(value, "pattern"@, ""@) + "\" ["@ + render::text_or(
        value,
        "scan_scope"@,
        "?"@,
    ) + "/"@ + render::text_or(value, "encoding"@, "?"@) + "]: returned="@ + text::decimal_text(
        count as nat,
    ) + " total="@ + text::decimal_text(
        render::number_or(value, "total_hit_count"@, count) as nat,
    )
}

/// Where the hits were written, where they were.
pub open spec fn out_lines(value: JsonView) -> Seq<Seq<char>> {
    match value.get_text("out_path"@) {
        Some(path) => seq![
            "out: "@ + path + " ("@ + render::text_or(value, "out_format"@, "?"@) + ")"@,
        ],
        None => Seq::empty(),
    }
}

/// The hits of a text scan.
pub open spec fn text_scan_lines(tool: Seq<char>, value: JsonView) -> Seq<Seq<char>> {
    match value.get_items("hits"@) {
        None => seq![tool + " \""@ + render::text_or(value, "pattern"@, ""@) + "\": (no hits)"@],
        Some(hits) => seq![text_scan_head(tool, value, hits.len() as int)] + out_lines(value) + (
        if hits.len() == 0 {
            seq!["(no hits)"@]
        } else {
            seqs::capped(hits, TEXT_HIT_DISPLAY_LIMIT as int).map_values(text_hit_line())
                + render::omitted_lines(
                hits.len() as int,
                match value.get_unsigned("total_hit_count"@) {
                    Some(total) => bytes::size_value(total) as int,
                    None => hits.len() as int,
                },
            )
        }),
    }
}

pub fn render_text_scan(tool: &str, value: &Json) -> (text: String)
    ensures
        text@ == render_tools::page(text_scan_lines(tool@, value.deep_view())),
{
    let pattern = render::str_or(value, "pattern", "");
    let mut head = tool.to_string();
    head.append(" \"");
    head.append(pattern);
    let hits = match value.get_array("hits") {
        Some(hits) => hits,
        None => {
            head.append("\": (no hits)");
            return head;
        },
    };
    proof {
        assert(hits.deep_view().len() == hits@.len());
    }
    head.append("\" [");
    head.append(render::str_or(value, "scan_scope", "?"));
    head.append("/");
    head.append(render::str_or(value, "encoding", "?"));
    head.append("]: returned=");
    text::push_decimal(&mut head, hits.len() as u64);
    head.append(" total=");
    text::push_decimal(&mut head, render::u64_or(value, "total_hit_count", hits.len() as u64));
    let mut lines = render::one_line(head);
    if let Some(path) = value.get_str("out_path") {
        let mut line = "out: ".to_string();
        line.append(path);
        line.append(" (");
        line.append(render::str_or(value, "out_format", "?"));
        line.append(")");
        render::push_line(&mut lines, line);
    }
    if hits.len() == 0 {
        render::push_line(&mut lines, "(no hits)".to_string());
    } else {
        let mut shown = render::lines_of(
            hits,
            TEXT_HIT_DISPLAY_LIMIT,
            render_text_hit,
            Ghost(text_hit_line()),
        );
        render::push_lines(&mut lines, &mut shown);
        let total: usize = match value.get_u64("total_hit_count") {
            Some(total) => bytes::as_size(total),
            None => hits.len(),
        };
        push_omitted_hint(&mut lines, hits.len(), total);
    }
    proof {
        assert(lines.deep_view() =~= text_scan_lines(tool@, value.deep_view()));
    }
    text::join(&lines, "\n")
}

pub fn render_scan_string(value: &Json) -> (text: String)
    ensures
        text@ == render_tools::page(text_scan_lines("scan_string"@, value.deep_view())),
{
    render_text_scan("scan_string", value)
}

pub fn render_scan_regex(value: &Json) -> (text: String)
    ensures
        text@ == render_tools::page(text_scan_lines("scan_regex"@, value.deep_view())),
{
    render_text_scan("scan_regex", value)
}

/// A place where bytes were found.
pub open spec fn bytes_hit_line() -> spec_fn(JsonView) -> Seq<char> {
    |hit: JsonView|
        {
            let around = render_tools::context_preview(hit);
            render::field_address(hit, "address"@) + "  ["@ + render::module_tag(hit) + "]"@
                + render::rva_suffix(hit) + (if around.len() == 0 {
                Seq::empty()
            } else {
                "  "@ + render::preview(around)
            })
        }
}

fn render_bytes_hit(hit: &Json) -> (line: String)
    ensures
        line@ == bytes_hit_line()(hit.deep_view()),
{
    let around = render::str_or(hit.field("context"), "ascii_preview", "");
    let mut line = hit_address(hit);
    line.append("  [");
    let tag = hit_region_module_tag(hit);
    line.append(&tag);
    line.append("]");
    let rva = hit_rva_suffix(hit);
    line.append(&rva);
    if text::chars_of(around).len() == 0 {
        proof {
            assert(line@ + Seq::<char>::empty() =~= line@);
        }
    } else {
        let mut tail = "  ".to_string();
        let shown = truncate_preview(around);
        tail.append(&shown);
        line.append(&tail);
    }
    line
}

/// The hits of a scan for bytes.
pub open spec fn scan_bytes_lines(value: JsonView) -> Seq<Seq<char>> {
    let head = "scan_bytes "@ + render::text_or(value, "pattern"@, ""@);
    let scope = render::text_or(value, "scan_scope"@, "?"@);
    match value.get_items("hits"@) {
        None => seq![head + ": (no hits)"@],
        Some(hits) => if hits.len() == 0 {
            seq![head + " ["@ + scope + "]: (no hits)"@]
        } else {
            seq![head + " ["@ + scope + "]: "@ + text::decimal_text(hits.len()) + " hit(s)"@]
                + seqs::capped(hits, TEXT_HIT_DISPLAY_LIMIT as int).map_values(bytes_hit_line())
                + render::omitted_lines(hits.len() as int, hits.len() as int)
        },
    }
}

pub fn render_scan_bytes(value: &Json) -> (text: String)
    ensures
        text@ == render_tools::page(scan_bytes_lines(value.deep_view())),
{
    let mut head = "scan_bytes ".to_string();
    head.append(render::str_or(value, "pattern", ""));
    let hits = match value.get_array("hits") {
        Some(hits) => hits,
        None => {
            head.append(": (no hits)");
            return head;
        },
    };
    proof {
        assert(hits.deep_view().len() == hits@.len());
    }
    head.append(" [");
    head.append(render::str_or(value, "scan_scope", "?"));
    if hits.len() == 0 {
        head.append("]: (no hits)");
        return head;
    }
    head.append("]: ");
    text::push_decimal(&mut head, hits.len() as u64);
    head.append(" hit(s)");
    let mut lines = render::one_line(head);
    let mut shown = render::lines_of(
        hits,
        TEXT_HIT_DISPLAY_LIMIT,
        render_bytes_hit,
        Ghost(bytes_hit_line()),
    );
    render::push_lines(&mut lines, &mut shown);
    push_omitted_hint(&mut lines, hits.len(), hits.len());
    proof {
        assert(lines.deep_view() =~= scan_bytes_lines(value.deep_view()));
    }
    text::join(&lines, "\n")
}

/// A report lists at most so many hits, however many there are: besides them there
/// is a head, where the hits were written, and what is left out.
pub proof fn law_scan_reports_bounded(tool: Seq<char>, value: JsonView)
    ensures
        scan_bytes_lines(value).len() <= TEXT_HIT_DISPLAY_LIMIT + 2,
        text_scan_lines(tool, value).len() <= TEXT_HIT_DISPLAY_LIMIT + 4,
{
}

/// A report with a line for each item, or one line where there is none.
pub open spec fn list_report(
    head: Seq<char>,
    empty: Seq<char>,
    unit: Seq<char>,
    items: Seq<JsonView>,
    line: spec_fn(JsonView) -> Seq<char>,
) -> Seq<Seq<char>> {
    if items.len() == 0 {
        seq![head + empty]
    } else {
        seq![head + ": "@ + text::decimal_text(items.len()) + unit] + items.map_values(line)
    }
}

/// A report with a line for each item, or one line where there is none.
pub(crate) fn render_list<F: Fn(&Json) -> String>(
    head: String,
    empty: &str,
    unit: &str,
    items: &Vec<Json>,
    f: F,
    Ghost(line): Ghost<spec_fn(JsonView) -> Seq<char>>,
) -> (text: String)
    requires
        forall|item: &Json| call_requires(f, (item,)),
        forall|item: &Json, result: String|
            call_ensures(f, (item,), result) ==> result@ == line(item.deep_view()),
    ensures
        text@ == render_tools::page(
            list_report(head@, empty@, unit@, items.deep_view(), line),
        ),
{
    proof {
        assert(items.deep_view().len() == items@.len());
        assert(seqs::capped(items.deep_view(), items@.len() as int) =~= items.deep_view());
    }
    let mut head = head;
    if items.len() == 0 {
        head.append(empty);
        return head;
    }
    head.append(": ");
    text::push_decimal(&mut head, items.len() as u64);
    head.append(unit);
    let mut lines = render::one_line(head);
    let mut shown = render::lines_of(items, items.len(), f, Ghost(line));
    render::push_lines(&mut lines, &mut shown);
    text::join(&lines, "\n")
}

/// A place that holds an address.
pub open spec fn pointer_hit_line() -> spec_fn(JsonView) -> Seq<char> {
    |hit: JsonView|
        render::field_address(hit, "address"@) + "  ["@ + render::tag_of(hit) + "]"@
            + render::rva_suffix(hit)
}

fn render_pointer_hit(hit: &Json) -> (line: String)
    ensures
        line@ == pointer_hit_line()(hit.deep_view()),
{
    let mut line = hit_address(hit);
    line.append("  [");
    line.append(region_tag(hit));
    line.append("]");
    let rva = hit_rva_suffix(hit);
    line.append(&rva);
    line
}

/// The places that hold an address.
pub open spec fn scan_pointers_lines(value: JsonView) -> Seq<Seq<char>> {
    list_report(
        "scan_pointers_to "@ + render::field_address(value, "address"@),
        ": (no hits)"@,
        " hit(s)"@,
        render::list_or_empty(value, "hits"@),
        pointer_hit_line(),
    )
}

pub fn render_scan_pointers_to(value: &Json) -> (text: String)
    ensures
        text@ == render_tools::page(scan_pointers_lines(value.deep_view())),
{
    let nothing: Vec<Json> = Vec::new();
    let hits = items_or_empty(value, "hits", &nothing);
    let mut head = "scan_pointers_to ".to_string();
    let target = render::show_address(value, "address");
    head.append(&target);
    render_list(
        head,
        ": (no hits)",
        " hit(s)",
        hits,
        render_pointer_hit,
        Ghost(pointer_hit_line()),
    )
}

/// A place that calls.
pub open spec fn caller_hit_line() -> spec_fn(JsonView) -> Seq<char> {
    |hit: JsonView|
        render::field_address(hit, "address"@) + "  "@ + (if hit.field("evidence"@).field(
            "Caller"@,
        ).get("opcode"@) is Some || hit.field("evidence"@).field("IndirectCaller"@).get("opcode"@)
            is Some {
            "call/jmp evidence"@
        } else {
            ""@
        })
}

fn render_caller_hit(hit: &Json) -> (line: String)
    ensures
        line@ == caller_hit_line()(hit.deep_view()),
{
    let mut line = hit_address(hit);
    line.append("  ");
    let evidence = hit.field("evidence");
    if evidence.field("Caller").get("opcode").is_some() || evidence.field("IndirectCaller").get(
        "opcode",
    ).is_some() {
        line.append("call/jmp evidence");
    } else {
        line.append("");
    }
    line
}

/// The places that call an address.
pub open spec fn scan_callers_lines(value: JsonView) -> Seq<Seq<char>> {
    list_report(
        "scan_callers "@ + render::field_address(value, "target"@),
        ": (no callers)"@,
        " caller(s)"@,
        render::list_or_empty(value, "hits"@),
        caller_hit_line(),
    )
}

pub fn render_scan_callers(value: &Json) -> (text: String)
    ensures
        text@ == render_tools::page(scan_callers_lines(value.deep_view())),
{
    let nothing: Vec<Json> = Vec::new();
    let hits = items_or_empty(value, "hits", &nothing);
    let mut head = "scan_callers ".to_string();
    let target = render::show_address(value, "target");
    head.append(&target);
    render_list(
        head,
        ": (no callers)",
        " caller(s)",
        hits,
        render_caller_hit,
        Ghost(caller_hit_line()),
    )
}

/// A text, where it is referred to, and the function that does.
pub open spec fn located_line() -> spec_fn(JsonView) -> Seq<char> {
    |result: JsonView|
        render::field_address(result, "string_address"@) + " -> ref "@ + render::field_address(
            result,
            "ref_site"@,
        ) + " -> fn "@ + render::field_address(result, "function_start"@)
}

fn render_located(result: &Json) -> (line: String)
    ensures
        line@ == located_line()(result.deep_view()),
{
    let mut line = render::show_address(result, "string_address");
    line.append(" -> ref ");
    let site = render::show_address(result, "ref_site");
    line.append(&site);
    line.append(" -> fn ");
    let start = render::show_address(result, "function_start");
    line.append(&start);
    line
}

/// The places that a text leads to.
pub open spec fn locate_lines(value: JsonView) -> Seq<Seq<char>> {
    list_report(
        "locate \""@ + render::text_or(value, "query"@, ""@) + "\""@,
        ": (no hits)"@,
        " hit(s)"@,
        render::list_or_empty(value, "results"@),
        located_line(),
    )
}

pub fn render_locate(value: &Json) -> (text: String)
    ensures
        text@ == render_tools::page(locate_lines(value.deep_view())),
{
    let nothing: Vec<Json> = Vec::new();
    let results = items_or_empty(value, "results", &nothing);
    let mut head = "locate \"".to_string();
    head.append(render::str_or(value, "query", ""));
    head.append("\"");
    render_list(head, ": (no hits)", " hit(s)", results, render_located, Ghost(located_line()))
}

/// The line of a text that is referred to shows where the text lies, where it is referred to,
/// and where the function that does begins.
pub proof fn law_located_shown(result: LocateResult)
    ensures
        located_line()(shapes::located_json(result)) == ("0x"@ + text::hex_text(
            result.string_address.0 as nat,
        )) + " -> ref "@ + ("0x"@ + text::hex_text(result.ref_site.0 as nat)) + " -> fn "@
            + render::address_or_mark(result.function_start),
{
    reveal_strlit("function_start");
    reveal_strlit("ref_site");
    reveal_strlit("string_address");
    let told = shapes::located_json(result);
    let fields = told->Object_0;
    assert(fields[0].0 == "function_start"@ && fields[1].0 == "ref_site"@ && fields[2].0
        == "string_address"@);
    assert("function_start"@.len() == 14 && "ref_site"@.len() == 8 && "string_address"@.len()
        == 14);
    assert("function_start"@[0] == 'f' && "string_address"@[0] == 's');
    json::lemma_field_at(told, 0);
    json::lemma_field_at(told, 1);
    json::lemma_field_at(told, 2);
}

/// A report of a list names the number of the items, and each line is that of the item at its
/// place.
pub proof fn law_list_report(
    head: Seq<char>,
    empty: Seq<char>,
    unit: Seq<char>,
    items: Seq<JsonView>,
    line: spec_fn(JsonView) -> Seq<char>,
)
    ensures
        ({
            let lines = list_report(head, empty, unit, items, line);
            &&& lines.len() == 1 + items.len()
            &&& head.is_prefix_of(lines[0])
            &&& items.len() == 0 ==> empty.is_suffix_of(lines[0])
            &&& items.len() > 0 ==> (text::decimal_text(items.len()) + unit).is_suffix_of(lines[0])
            &&& forall|i: int|
                0 <= i < items.len() ==> #[trigger] lines[i + 1] == line(items[i])
        }),
{
    let lines = list_report(head, empty, unit, items, line);
    let first = lines[0];
    assert(head =~= first.subrange(0, head.len() as int));
    if items.len() == 0 {
        assert(empty =~= first.subrange(first.len() - empty.len(), first.len() as int));
    } else {
        let end = text::decimal_text(items.len()) + unit;
        assert(end =~= first.subrange(first.len() - end.len(), first.len() as int));
    }
}

/// The first twelve hits of a scan for bytes are listed in their order, below the number of
/// all hits.
pub proof fn law_byte_hits_listed(value: JsonView, hits: Seq<JsonView>)
    requires
        value.get_items("hits"@) == Some(hits),
        hits.len() > 0,
    ensures
        ({
            let lines = scan_bytes_lines(value);
            let n = if hits.len() < 12 {
                hits.len() as int
            } else {
                12
            };
            &&& lines.len() >= 1 + n
            &&& (text::decimal_text(hits.len()) + " hit(s)"@).is_suffix_of(lines[0])
            &&& forall|i: int| 0 <= i < n ==> #[trigger] lines[i + 1] == bytes_hit_line()(hits[i])
        }),
{
    let lines = scan_bytes_lines(value);
    let end = text::decimal_text(hits.len()) + " hit(s)"@;
    assert(end =~= lines[0].subrange(lines[0].len() - end.len(), lines[0].len() as int));
}

/// A report of a text scan names how many hits came and how many there are.
pub proof fn law_text_scan_head(
    tool: Seq<char>,
    value: JsonView,
    hits: Seq<JsonView>,
    total: u64,
)
    requires
        value.get_items("hits"@) == Some(hits),
        value.get_unsigned("total_hit_count"@) == Some(total),
    ensures
        ({
            let lines = text_scan_lines(tool, value);
            let counts = "]: returned="@ + text::decimal_text(hits.len()) + " total="@
                + text::decimal_text(total as nat);
            &&& lines.len() >= 1
            &&& tool.is_prefix_of(lines[0])
            &&& counts.is_suffix_of(lines[0])
        }),
{
    let first = text_scan_lines(tool, value)[0];
    let counts = "]: returned="@ + text::decimal_text(hits.len()) + " total="@ + text::decimal_text(
        total as nat,
    );
    assert(tool =~= first.subrange(0, tool.len() as int));
    assert(counts =~= first.subrange(first.len() - counts.len(), first.len() as int));
}

} // verus!
