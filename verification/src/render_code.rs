//! What the analysis of code and structures found, as text.

use vstd::prelude::*;

use crate::analysis::X86CallSiteView;
use crate::dispatch::{DispatchTableCandidateView, DispatchTableEntry};
use crate::flow::{CallChainNodeView, PushEvidenceView};
use crate::json;
use crate::json::{Json, JsonView};
use crate::render;
use crate::render::render_instruction;
use crate::render_scans;
use crate::render_tools;
use crate::rtti::VtableMethodView;
use crate::seqs;
use crate::shapes;
use crate::text;

verus! {

/// An instruction as it is shown.
pub open spec fn shown_instruction() -> spec_fn(JsonView) -> Seq<char> {
    |item: JsonView| render::instruction_line(item)
}

/// The instruction in a field as it is shown, where there is one.
pub open spec fn field_instruction(value: JsonView) -> Seq<char> {
    match value.get("instruction"@) {
        Some(instruction) => render::instruction_line(instruction),
        None => ""@,
    }
}

fn show_instruction(value: &Json) -> (line: String)
    ensures
        line@ == field_instruction(value.deep_view()),
{
    match value.get("instruction") {
        Some(instruction) => render_instruction(instruction),
        None => "".to_string(),
    }
}

/// Instructions, one under the other.
pub open spec fn disasm_text(value: JsonView) -> Seq<char> {
    let instructions = render::list_or_empty(value, "instructions"@);
    if instructions.len() == 0 {
        "(no disassembly)"@
    } else {
        render_tools::page(instructions.map_values(shown_instruction()))
    }
}

pub fn render_disasm_at(value: &Json) -> (text: String)
    ensures
        text@ == disasm_text(value.deep_view()),
{
    let nothing: Vec<Json> = Vec::new();
    let instructions = render_scans::items_or_empty(value, "instructions", &nothing);
    if instructions.len() == 0 {
        return "(no disassembly)".to_string();
    }
    let lines = render::lines_of(
        instructions,
        instructions.len(),
        render_instruction,
        Ghost(shown_instruction()),
    );
    text::join(&lines, "\n")
}

/// A function: its bounds, its instructions, and what it calls where it calls
/// anything.
pub open spec fn function_lines(function: JsonView) -> Seq<Seq<char>> {
    let callees = render::list_or_empty(function, "callees"@);
    seq![
        "fn "@ + render::field_address(function, "address"@) + " -> "@ + render::field_address(
            function,
            "end"@,
        ),
    ] + render::list_or_empty(function, "instructions"@).map_values(shown_instruction()) + (
    if callees.len() == 0 {
        Seq::empty()
    } else {
        seq!["callees: "@ + render_tools::address_list(callees, ", "@)]
    })
}

/// A function that was analyzed.
pub open spec fn analyze_function_text(value: JsonView) -> Seq<char> {
    if value.field("function"@) == JsonView::Null {
        "(no function analysis)"@
    } else {
        render_tools::page(function_lines(value.field("function"@)))
    }
}

pub fn render_analyze_function(value: &Json) -> (text: String)
    ensures
        text@ == analyze_function_text(value.deep_view()),
{
    let function = value.field("function");
    if function.is_null() {
        return "(no function analysis)".to_string();
    }
    let mut head = "fn ".to_string();
    let address = render::show_address(function, "address");
    head.append(&address);
    head.append(" -> ");
    let end = render::show_address(function, "end");
    head.append(&end);
    let mut lines = render::one_line(head);
    let nothing: Vec<Json> = Vec::new();
    let instructions = render_scans::items_or_empty(function, "instructions", &nothing);
    let mut shown = render::lines_of(
        instructions,
        instructions.len(),
        render_instruction,
        Ghost(shown_instruction()),
    );
    render::push_lines(&mut lines, &mut shown);
    let callees = render_scans::items_or_empty(function, "callees", &nothing);
    if callees.len() > 0 {
        let mut line = "callees: ".to_string();
        let listed = render_tools::join_addresses(callees, ", ");
        line.append(&listed);
        render::push_line(&mut lines, line);
    }
    proof {
        assert(lines.deep_view() =~= function_lines(function.deep_view()));
    }
    text::join(&lines, "\n")
}

/// A call, the function that it stands in, and the instruction.
pub open spec fn call_site_line() -> spec_fn(JsonView) -> Seq<char> {
    |site: JsonView|
        render::field_address(site, "address"@) + "  fn "@ + render::field_address(
            site,
            "function_start"@,
        ) + "  "@ + field_instruction(site)
}

fn render_call_site(site: &Json) -> (line: String)
    ensures
        line@ == call_site_line()(site.deep_view()),
{
    let mut line = caller_line(site);
    line.append("  ");
    let instruction = show_instruction(site);
    line.append(&instruction);
    line
}

fn caller_line(site: &Json) -> (line: String)
    ensures
        line@ == render::field_address(site.deep_view(), "address"@) + "  fn "@
            + render::field_address(site.deep_view(), "function_start"@),
{
    let mut line = render::show_address(site, "address");
    line.append("  fn ");
    let start = render::show_address(site, "function_start");
    line.append(&start);
    line
}

/// The calls of an address.
pub open spec fn call_sites_lines(value: JsonView) -> Seq<Seq<char>> {
    render_scans::list_report(
        "scan_x86_call_sites "@ + render::field_address(value, "target"@),
        ": (no callers)"@,
        " caller(s)"@,
        render::list_or_empty(value, "call_sites"@),
        call_site_line(),
    )
}

pub fn render_scan_x86_call_sites(value: &Json) -> (text: String)
    ensures
        text@ == render_tools::page(call_sites_lines(value.deep_view())),
{
    let nothing: Vec<Json> = Vec::new();
    let sites = render_scans::items_or_empty(value, "call_sites", &nothing);
    let mut head = "scan_x86_call_sites ".to_string();
    let target = render::show_address(value, "target");
    head.append(&target);
    render_scans::render_list(
        head,
        ": (no callers)",
        " caller(s)",
        sites,
        render_call_site,
        Ghost(call_site_line()),
    )
}

/// A pushed argument: its width and value, where it is pushed, and the text and the
/// packet name that it speaks of.
pub open spec fn push_line() -> spec_fn(JsonView) -> Seq<char> {
    |push: JsonView|
        "  push"@ + text::decimal_text(render::number_or(push, "width_bits"@, 0) as nat) + " "@
            + text::prefixed_hex(render::number_or(push, "value"@, 0) as nat) + " @ "@
            + render::field_address(push.field("instruction"@), "address"@) + (match push.get_text(
            "string"@,
        ) {
            Some(string) => "  \""@ + string + "\""@,
            None => Seq::empty(),
        }) + (match push.get_text("packet_name"@) {
            Some(packet) => "  packet_name="@ + packet,
            None => Seq::empty(),
        })
}

fn render_push(push: &Json) -> (line: String)
    ensures
        line@ == push_line()(push.deep_view()),
{
    let mut line = "  push".to_string();
    text::push_decimal(&mut line, render::u64_or(push, "width_bits", 0));
    line.append(" ");
    let value = text::hex(render::u64_or(push, "value", 0));
    line.append(&value);
    line.append(" @ ");
    let address = render::show_address(push.field("instruction"), "address");
    line.append(&address);
    let ghost head = line@;
    match push.get_str("string") {
        Some(string) => {
            let mut tail = "  \"".to_string();
            tail.append(string);
            tail.append("\"");
            line.append(&tail);
        },
        None => {
            proof {
                assert(head + Seq::<char>::empty() =~= head);
            }
        },
    }
    let ghost middle = line@;
    match push.get_str("packet_name") {
        Some(packet) => {
            let mut tail = "  packet_name=".to_string();
            tail.append(packet);
            line.append(&tail);
        },
        None => {
            proof {
                assert(middle + Seq::<char>::empty() =~= middle);
            }
        },
    }
    line
}

/// A call that sends: where, what is pushed before it, and the instruction before
/// it.
pub open spec fn send_site_lines() -> spec_fn(JsonView) -> Seq<Seq<char>> {
    |site: JsonView|
        {
            let call = site.field("call_site"@);
            let before = render::list_or_empty(site, "preceding_instructions"@);
            seq![
                render::field_address(call, "address"@) + "  fn "@ + render::field_address(
                    call,
                    "function_start"@,
                ),
            ] + render::list_or_empty(site, "pushes"@).map_values(push_line()) + (if before.len()
                == 0 {
                Seq::empty()
            } else {
                seq!["  prev: "@ + render::instruction_line(before.last())]
            })
        }
}

fn render_send_site(site: &Json) -> (lines: Vec<String>)
    ensures
        lines.deep_view() == send_site_lines()(site.deep_view()),
{
    let mut lines = render::one_line(caller_line(site.field("call_site")));
    let nothing: Vec<Json> = Vec::new();
    let pushes = render_scans::items_or_empty(site, "pushes", &nothing);
    let mut shown = render::lines_of(pushes, pushes.len(), render_push, Ghost(push_line()));
    render::push_lines(&mut lines, &mut shown);
    let before = render_scans::items_or_empty(site, "preceding_instructions", &nothing);
    if before.len() > 0 {
        let mut line = "  prev: ".to_string();
        let last = render_instruction(&before[before.len() - 1]);
        proof {
            assert(before.deep_view().last() == before@[before@.len() - 1].deep_view());
        }
        line.append(&last);
        render::push_line(&mut lines, line);
    }
    proof {
        assert(lines.deep_view() =~= send_site_lines()(site.deep_view()));
    }
    lines
}

/// The calls that send.
pub open spec fn send_sites_lines(value: JsonView) -> Seq<Seq<char>> {
    let head = "analyze_send_call_sites "@ + render::field_address(value, "target"@);
    let sites = render::list_or_empty(value, "call_sites"@);
    if sites.len() == 0 {
        seq![head + ": (no callers)"@]
    } else {
        seq![head + ": "@ + text::decimal_text(sites.len()) + " caller(s)"@] + sites.flat_map(
            send_site_lines(),
        )
    }
}

pub fn render_analyze_send_call_sites(value: &Json) -> (text: String)
    ensures
        text@ == render_tools::page(send_sites_lines(value.deep_view())),
{
    let nothing: Vec<Json> = Vec::new();
    let sites = render_scans::items_or_empty(value, "call_sites", &nothing);
    let mut head = "analyze_send_call_sites ".to_string();
    let target = render::show_address(value, "target");
    head.append(&target);
    if sites.len() == 0 {
        head.append(": (no callers)");
        return head;
    }
    head.append(": ");
    text::push_decimal(&mut head, sites.len() as u64);
    head.append(" caller(s)");
    let mut lines = render::one_line(head);
    let mut shown = render::blocks_of(sites, render_send_site, Ghost(send_site_lines()));
    render::push_lines(&mut lines, &mut shown);
    text::join(&lines, "\n")
}

/// A table that an address may be.
pub open spec fn candidate_line() -> spec_fn(JsonView) -> Seq<char> {
    |candidate: JsonView|
        "  "@ + render::text_or(candidate, "kind"@, "?"@) + " "@ + render::field_address(
            candidate,
            "address"@,
        ) + " score="@ + text::decimal_text(render::number_or(candidate, "score"@, 0) as nat)
}

fn render_candidate(candidate: &Json) -> (line: String)
    ensures
        line@ == candidate_line()(candidate.deep_view()),
{
    let mut line = "  ".to_string();
    line.append(render::str_or(candidate, "kind", "?"));
    line.append(" ");
    let address = render::show_address(candidate, "address");
    line.append(&address);
    line.append(" score=");
    text::push_decimal(&mut line, render::u64_or(candidate, "score", 0));
    line
}

/// A number in hexadecimal with at least two digits.
pub open spec fn two_digits(n: int) -> Seq<char> {
    (if n < 16 {
        "0x0"@
    } else {
        "0x"@
    }) + text::hex_text(n as nat)
}

/// An opcode, and where the tables lead it.
pub open spec fn entry_line() -> spec_fn(JsonView) -> Seq<char> {
    |entry: JsonView|
        "  opcode "@ + two_digits(render::number_or(entry, "opcode"@, 0)) + " @ "@
            + render::field_address(entry, "opcode_value_location"@) + " -> index "@
            + text::decimal_text(render::number_or(entry, "dispatch_index"@, 0) as nat)
            + " -> stub "@ + render::field_address(entry, "stub"@) + " -> handler "@
            + render::field_address(entry, "handler"@)
}

fn render_entry(entry: &Json) -> (line: String)
    ensures
        line@ == entry_line()(entry.deep_view()),
{
    let mut line = "  opcode ".to_string();
    let opcode: u64 = render::u64_or(entry, "opcode", 0);
    let mut digits = if opcode < 16 {
        "0x0".to_string()
    } else {
        "0x".to_string()
    };
    text::push_hex(&mut digits, opcode);
    line.append(&digits);
    line.append(" @ ");
    let location = render::show_address(entry, "opcode_value_location");
    line.append(&location);
    line.append(" -> index ");
    text::push_decimal(&mut line, render::u64_or(entry, "dispatch_index", 0));
    line.append(" -> stub ");
    let stub = render::show_address(entry, "stub");
    line.append(&stub);
    line.append(" -> handler ");
    let handler = render::show_address(entry, "handler");
    line.append(&handler);
    line
}

/// The tables of a dispatcher: which they are, which they may be, and where they
/// lead.
pub open spec fn dispatch_lines(value: JsonView) -> Seq<Seq<char>> {
    let candidates = render::list_or_empty(value, "candidates"@);
    let entries = render::list_or_empty(value, "entries"@);
    seq![
        "extract_dispatch_tables "@ + render::field_address(value, "dispatcher"@),
        "index_table: "@ + render::field_address(value, "index_table"@),
        "jump_table: "@ + render::field_address(value, "jump_table"@),
    ] + (if candidates.len() == 0 {
        Seq::empty()
    } else {
        seq!["candidates:"@] + seqs::capped(candidates, 8).map_values(candidate_line())
    }) + (if entries.len() == 0 {
        seq!["(no opcode entries)"@]
    } else {
        seq!["entries: "@ + text::decimal_text(entries.len())] + entries.map_values(entry_line())
    })
}

pub fn render_extract_dispatch_tables(value: &Json) -> (text: String)
    ensures
        text@ == render_tools::page(dispatch_lines(value.deep_view())),
{
    let mut line = "extract_dispatch_tables ".to_string();
    let dispatcher = render::show_address(value, "dispatcher");
    line.append(&dispatcher);
    let mut lines = render::one_line(line);
    let mut line = "index_table: ".to_string();
    let table = render::show_address(value, "index_table");
    line.append(&table);
    render::push_line(&mut lines, line);
    let mut line = "jump_table: ".to_string();
    let table = render::show_address(value, "jump_table");
    line.append(&table);
    render::push_line(&mut lines, line);
    let nothing: Vec<Json> = Vec::new();
    let candidates = render_scans::items_or_empty(value, "candidates", &nothing);
    if candidates.len() > 0 {
        render::push_line(&mut lines, "candidates:".to_string());
        let mut shown = render::lines_of(
            candidates,
            8,
            render_candidate,
            Ghost(candidate_line()),
        );
        render::push_lines(&mut lines, &mut shown);
    }
    let entries = render_scans::items_or_empty(value, "entries", &nothing);
    if entries.len() == 0 {
        render::push_line(&mut lines, "(no opcode entries)".to_string());
    } else {
        let mut line = "entries: ".to_string();
        text::push_decimal(&mut line, entries.len() as u64);
        render::push_line(&mut lines, line);
        let mut shown = render::lines_of(
            entries,
            entries.len(),
            render_entry,
            Ghost(entry_line()),
        );
        render::push_lines(&mut lines, &mut shown);
    }
    proof {
        assert(lines.deep_view() =~= dispatch_lines(value.deep_view()));
    }
    text::join(&lines, "\n")
}

/// A caller and the function that it stands in.
pub open spec fn chain_caller_line() -> spec_fn(JsonView) -> Seq<char> {
    |caller: JsonView|
        "  "@ + render::field_address(caller, "address"@) + "  fn "@ + render::field_address(
            caller,
            "function_start"@,
        )
}

fn render_chain_caller(caller: &Json) -> (line: String)
    ensures
        line@ == chain_caller_line()(caller.deep_view()),
{
    let mut line = "  ".to_string();
    let address = render::show_address(caller, "address");
    line.append(&address);
    line.append("  fn ");
    let start = render::show_address(caller, "function_start");
    line.append(&start);
    line
}

/// A step of a call chain and its callers.
pub open spec fn chain_lines() -> spec_fn(JsonView) -> Seq<Seq<char>> {
    |node: JsonView|
        seq![
            "depth "@ + text::decimal_text(render::number_or(node, "depth"@, 0) as nat)
                + ": target "@ + render::field_address(node, "target"@),
        ] + render::list_or_empty(node, "callers"@).map_values(chain_caller_line())
}

fn render_chain_node(node: &Json) -> (lines: Vec<String>)
    ensures
        lines.deep_view() == chain_lines()(node.deep_view()),
{
    let mut line = "depth ".to_string();
    text::push_decimal(&mut line, render::u64_or(node, "depth", 0));
    line.append(": target ");
    let target = render::show_address(node, "target");
    line.append(&target);
    let mut lines = render::one_line(line);
    let nothing: Vec<Json> = Vec::new();
    let callers = render_scans::items_or_empty(node, "callers", &nothing);
    let mut shown = render::lines_of(
        callers,
        callers.len(),
        render_chain_caller,
        Ghost(chain_caller_line()),
    );
    render::push_lines(&mut lines, &mut shown);
    lines
}

/// The calls that lead to an address.
pub open spec fn trace_lines(value: JsonView) -> Seq<Seq<char>> {
    let head = "trace_call_chain "@ + render::field_address(value, "target"@);
    let nodes = render::list_or_empty(value, "chain"@);
    if nodes.len() == 0 {
        seq![head + ": (no callers)"@]
    } else {
        seq![head] + nodes.flat_map(chain_lines())
    }
}

pub fn render_trace_call_chain(value: &Json) -> (text: String)
    ensures
        text@ == render_tools::page(trace_lines(value.deep_view())),
{
    let nothing: Vec<Json> = Vec::new();
    let nodes = render_scans::items_or_empty(value, "chain", &nothing);
    let mut head = "trace_call_chain ".to_string();
    let target = render::show_address(value, "target");
    head.append(&target);
    if nodes.len() == 0 {
        head.append(": (no callers)");
        return head;
    }
    let mut lines = render::one_line(head);
    let mut shown = render::blocks_of(nodes, render_chain_node, Ghost(chain_lines()));
    render::push_lines(&mut lines, &mut shown);
    text::join(&lines, "\n")
}

/// A method of a class.
pub open spec fn method_line() -> spec_fn(JsonView) -> Seq<char> {
    |method: JsonView|
        "    ["@ + text::decimal_text(render::number_or(method, "index"@, 0) as nat) + "] "@
            + render::field_address(method, "address"@) + "  "@ + field_instruction(method)
}

fn render_method(method: &Json) -> (line: String)
    ensures
        line@ == method_line()(method.deep_view()),
{
    let mut line = "    [".to_string();
    text::push_decimal(&mut line, render::u64_or(method, "index", 0));
    line.append("] ");
    let address = render::show_address(method, "address");
    line.append(&address);
    line.append("  ");
    let instruction = show_instruction(method);
    line.append(&instruction);
    line
}

/// An address of a class, behind its label.
pub open spec fn labelled(evidence: JsonView, label: Seq<char>) -> Seq<char> {
    "  "@ + render::padded(label, 15) + " "@ + render::field_address(evidence, label)
}

fn render_labelled(evidence: &Json, label: &str) -> (line: String)
    ensures
        line@ == labelled(evidence.deep_view(), label@),
{
    let mut line = "  ".to_string();
    render::push_padded(&mut line, label, 15);
    line.append(" ");
    let address = render::show_address(evidence, label);
    line.append(&address);
    line
}

/// A class: its name, its addresses and its methods.
pub open spec fn class_lines(evidence: JsonView) -> Seq<Seq<char>> {
    seq![
        "class "@ + render::text_or(evidence, "class_name"@, "?"@),
        labelled(evidence, "vtable"@),
        labelled(evidence, "type_descriptor"@),
        labelled(evidence, "col"@),
        "  methods:"@,
    ] + render::list_or_empty(evidence, "methods"@).map_values(method_line())
}

/// What was found of a class, or why nothing was.
pub open spec fn find_vtable_text(value: JsonView) -> Seq<char> {
    match value.get("evidence"@) {
        None => "(no vtable evidence)"@,
        Some(evidence) => match evidence.get_text("error"@) {
            Some(error) => error,
            None => render_tools::page(class_lines(evidence)),
        },
    }
}

pub fn render_find_vtable(value: &Json) -> (text: String)
    ensures
        text@ == find_vtable_text(value.deep_view()),
{
    let evidence = match value.get("evidence") {
        Some(evidence) => evidence,
        None => {
            return "(no vtable evidence)".to_string();
        },
    };
    if let Some(error) = evidence.get_str("error") {
        return error.to_string();
    }
    let mut line = "class ".to_string();
    line.append(render::str_or(evidence, "class_name", "?"));
    let mut lines = render::one_line(line);
    render::push_line(&mut lines, render_labelled(evidence, "vtable"));
    render::push_line(&mut lines, render_labelled(evidence, "type_descriptor"));
    render::push_line(&mut lines, render_labelled(evidence, "col"));
    render::push_line(&mut lines, "  methods:".to_string());
    let nothing: Vec<Json> = Vec::new();
    let methods = render_scans::items_or_empty(evidence, "methods", &nothing);
    let mut shown = render::lines_of(methods, methods.len(), render_method, Ghost(method_line()));
    render::push_lines(&mut lines, &mut shown);
    proof {
        assert(lines.deep_view() =~= class_lines(evidence.deep_view()));
    }
    text::join(&lines, "\n")
}

/// A field of a structure.
pub open spec fn field_line() -> spec_fn(JsonView) -> Seq<char> {
    |field: JsonView|
        "+"@ + text::prefixed_hex(render::number_or(field, "offset"@, 0) as nat) + "  "@
            + render::text_or(field, "name"@, "?"@) + "  "@ + render::text_or(field, "type"@, "?"@)
            + "  = "@ + render::text_or(field, "raw_hex"@, ""@) + render_tools::arrow(field)
}

fn render_field(field: &Json) -> (line: String)
    ensures
        line@ == field_line()(field.deep_view()),
{
    let mut line = "+".to_string();
    let offset = text::hex(render::u64_or(field, "offset", 0));
    line.append(&offset);
    line.append("  ");
    line.append(render::str_or(field, "name", "?"));
    line.append("  ");
    line.append(render::str_or(field, "type", "?"));
    line.append("  = ");
    line.append(render::str_or(field, "raw_hex", ""));
    render_tools::push_arrow(&mut line, field);
    line
}

/// A structure in memory, field by field.
pub open spec fn diff_struct_lines(value: JsonView) -> Seq<Seq<char>> {
    seq![
        "struct "@ + render::text_or(value, "struct_name"@, "?"@) + " @ "@ + render::field_address(
            value,
            "live_address"@,
        ) + "  fields="@ + text::decimal_text(render::number_or(value, "field_count"@, 0) as nat)
            + " ptr_fields="@ + text::decimal_text(
            render::number_or(value, "ptr_field_count"@, 0) as nat,
        ),
    ] + render::list_or_empty(value, "fields"@).map_values(field_line())
}

pub fn render_diff_struct(value: &Json) -> (text: String)
    ensures
        text@ == render_tools::page(diff_struct_lines(value.deep_view())),
{
    let mut line = "struct ".to_string();
    line.append(render::str_or(value, "struct_name", "?"));
    line.append(" @ ");
    let address = render::show_address(value, "live_address");
    line.append(&address);
    line.append("  fields=");
    text::push_decimal(&mut line, render::u64_or(value, "field_count", 0));
    line.append(" ptr_fields=");
    text::push_decimal(&mut line, render::u64_or(value, "ptr_field_count", 0));
    let mut lines = render::one_line(line);
    let nothing: Vec<Json> = Vec::new();
    let fields = render_scans::items_or_empty(value, "fields", &nothing);
    let mut shown = render::lines_of(fields, fields.len(), render_field, Ghost(field_line()));
    render::push_lines(&mut lines, &mut shown);
    text::join(&lines, "\n")
}

/// The line of a call shows where it stands, where its function begins, and the instruction.
pub proof fn law_call_site_shown(site: X86CallSiteView)
    ensures
        call_site_line()(shapes::call_site_json(site)) == ("0x"@ + text::hex_text(
            site.address.0 as nat,
        )) + "  fn "@ + render::address_or_mark(site.function_start) + "  "@
            + render::instruction_line(shapes::instruction_json(site.instruction)),
{
    reveal_strlit("address");
    reveal_strlit("function_start");
    reveal_strlit("instruction");
    let told = shapes::call_site_json(site);
    let fields = told->Object_0;
    assert(fields[0].0 == "address"@ && "address"@.len() == 7);
    assert(fields[1].0 == "function_start"@ && "function_start"@.len() == 14);
    assert(fields[2].0 == "instruction"@ && "instruction"@.len() == 11);
    json::lemma_field_at(told, 0);
    json::lemma_field_at(told, 1);
    json::lemma_field_at(told, 2);
}

/// The line of a caller in a chain shows where it stands and where its function begins.
pub proof fn law_caller_shown(site: X86CallSiteView)
    ensures
        chain_caller_line()(shapes::call_site_json(site)) == "  "@ + ("0x"@
            + text::hex_text(site.address.0 as nat)) + "  fn "@ + render::address_or_mark(
            site.function_start,
        ),
{
    reveal_strlit("address");
    reveal_strlit("function_start");
    reveal_strlit("instruction");
    let told = shapes::call_site_json(site);
    let fields = told->Object_0;
    assert(fields[0].0 == "address"@ && "address"@.len() == 7);
    assert(fields[1].0 == "function_start"@ && "function_start"@.len() == 14);
    assert(fields[2].0 == "instruction"@ && "instruction"@.len() == 11);
    json::lemma_field_at(told, 0);
    json::lemma_field_at(told, 1);
    json::lemma_field_at(told, 2);
}

/// The line of a table that an address may be shows its kind, its address and its score.
pub proof fn law_candidate_shown(candidate: DispatchTableCandidateView)
    ensures
        candidate_line()(shapes::candidate_json(candidate)) == "  "@
            + candidate.kind + " "@ + ("0x"@ + text::hex_text(candidate.address.0 as nat))
            + " score="@ + text::decimal_text((candidate.score as u64) as nat),
{
    reveal_strlit("address");
    reveal_strlit("kind");
    reveal_strlit("score");
    let told = shapes::candidate_json(candidate);
    let fields = told->Object_0;
    assert(fields[0].0 == "address"@ && "address"@.len() == 7);
    assert(fields[1].0 == "kind"@ && "kind"@.len() == 4);
    assert(fields[2].0 == "score"@ && "score"@.len() == 5);
    json::lemma_field_at(told, 0);
    json::lemma_field_at(told, 1);
    json::lemma_field_at(told, 2);
}

/// The line of an opcode shows it with two digits at least, where its index stands, the index,
/// and the stub and the handler that it leads to.
pub proof fn law_entry_shown(entry: DispatchTableEntry)
    ensures
        entry_line()(shapes::entry_json(entry)) == "  opcode "@ + ((if (entry.opcode as u64)
            < 16 {
            "0x0"@
        } else {
            "0x"@
        }) + text::hex_text((entry.opcode as u64) as nat)) + " @ "@ + ("0x"@ + text::hex_text(
            entry.opcode_value_location.0 as nat,
        )) + " -> index "@ + text::decimal_text((entry.dispatch_index as u64) as nat)
            + " -> stub "@ + render::address_or_mark(entry.stub) + " -> handler "@
            + render::address_or_mark(entry.handler),
{
    reveal_strlit("dispatch_index");
    reveal_strlit("handler");
    reveal_strlit("jump_slot");
    reveal_strlit("opcode");
    reveal_strlit("opcode_value_location");
    reveal_strlit("stub");
    let told = shapes::entry_json(entry);
    let fields = told->Object_0;
    assert(fields[0].0 == "dispatch_index"@ && "dispatch_index"@.len() == 14);
    assert(fields[1].0 == "handler"@ && "handler"@.len() == 7);
    assert(fields[2].0 == "jump_slot"@ && "jump_slot"@.len() == 9);
    assert(fields[3].0 == "opcode"@ && "opcode"@.len() == 6);
    assert(fields[4].0 == "opcode_value_location"@ && "opcode_value_location"@.len() == 21);
    assert(fields[5].0 == "stub"@ && "stub"@.len() == 4);
    json::lemma_field_at(told, 0);
    json::lemma_field_at(told, 1);
    json::lemma_field_at(told, 2);
    json::lemma_field_at(told, 3);
    json::lemma_field_at(told, 4);
    json::lemma_field_at(told, 5);
}

/// The line of a method shows its place in the table, where it begins, and its first
/// instruction.
pub proof fn law_method_shown(method: VtableMethodView)
    ensures
        method_line()(shapes::method_json(method)) == "    ["@ + text::decimal_text(
            (method.index as u64) as nat,
        ) + "] "@ + ("0x"@ + text::hex_text(method.address.0 as nat)) + "  "@
            + render::instruction_line(shapes::maybe_instruction(method.instruction)),
{
    reveal_strlit("address");
    reveal_strlit("index");
    reveal_strlit("instruction");
    reveal_strlit("prologue");
    let told = shapes::method_json(method);
    let fields = told->Object_0;
    assert(fields[0].0 == "address"@ && "address"@.len() == 7);
    assert(fields[1].0 == "index"@ && "index"@.len() == 5);
    assert(fields[2].0 == "instruction"@ && "instruction"@.len() == 11);
    assert(fields[3].0 == "prologue"@ && "prologue"@.len() == 8);
    json::lemma_field_at(told, 0);
    json::lemma_field_at(told, 1);
    json::lemma_field_at(told, 2);
    json::lemma_field_at(told, 3);
}

/// The step of a call chain is shown by its depth and target, and below it stands a line for
/// each caller.
pub proof fn law_chain_node_shown(node: CallChainNodeView)
    ensures
        ({
            let lines = chain_lines()(shapes::chain_node_json(node));
            &&& lines.len() == 1 + node.callers.len()
            &&& lines[0] == "depth "@ + text::decimal_text((node.depth as u64) as nat)
                + ": target "@ + ("0x"@ + text::hex_text(node.target.0 as nat))
            &&& forall|i: int|
                0 <= i < node.callers.len() ==> #[trigger] lines[i + 1] == chain_caller_line()(
                    shapes::call_site_json(node.callers[i]),
                )
        }),
{
    reveal_strlit("callers");
    reveal_strlit("depth");
    reveal_strlit("target");
    let told = shapes::chain_node_json(node);
    let fields = told->Object_0;
    assert(fields[0].0 == "callers"@ && "callers"@.len() == 7);
    assert(fields[1].0 == "depth"@ && "depth"@.len() == 5);
    assert(fields[2].0 == "target"@ && "target"@.len() == 6);
    json::lemma_field_at(told, 0);
    json::lemma_field_at(told, 1);
    json::lemma_field_at(told, 2);
}

/// The line of a pushed argument shows its width, its value and where it is pushed, and then
/// the text and the packet name that it speaks of.
pub proof fn law_push_shown(push: PushEvidenceView)
    ensures
        push_line()(shapes::push_json(push)) == "  push"@ + text::decimal_text(
            (push.width_bits as u64) as nat,
        ) + " "@ + ("0x"@ + text::hex_text((push.value as u64) as nat)) + " @ "@ + ("0x"@
            + text::hex_text(push.instruction.address.0 as nat)) + (match push.string {
            Some(string) => "  \""@ + string + "\""@,
            None => Seq::empty(),
        }) + (match push.packet_name {
            Some(name) => "  packet_name="@ + name,
            None => Seq::empty(),
        }),
{
    reveal_strlit("instruction");
    reveal_strlit("packet_name");
    reveal_strlit("string");
    reveal_strlit("value");
    reveal_strlit("width_bits");
    let told = shapes::push_json(push);
    let fields = told->Object_0;
    assert(fields[0].0 == "instruction"@ && "instruction"@.len() == 11);
    assert(fields[1].0 == "packet_name"@ && "packet_name"@.len() == 11);
    assert(fields[2].0 == "string"@ && "string"@.len() == 6);
    assert(fields[3].0 == "value"@ && "value"@.len() == 5);
    assert(fields[4].0 == "width_bits"@ && "width_bits"@.len() == 10);
    assert("instruction"@[0] == 'i' && "packet_name"@[0] == 'p');
    json::lemma_field_at(told, 0);
    json::lemma_field_at(told, 1);
    json::lemma_field_at(told, 2);
    json::lemma_field_at(told, 3);
    json::lemma_field_at(told, 4);
    let inner = shapes::instruction_json(push.instruction);
    assert(inner->Object_0[0].0 == "address"@);
    json::lemma_field_at(inner, 0);
}

} // verus!
