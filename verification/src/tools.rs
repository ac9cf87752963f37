//! The tools: what they are called, what they take, and what they are for.

use vstd::prelude::*;

use crate::json;
use crate::json::{Fields, Json, JsonView};
use crate::seqs;
use crate::text;

verus! {

/// A tool.
#[derive(Debug, Clone, Copy, PartialEq, Eq, Structural)]
pub enum Tool {
    ProcessesList,
    ProcessesFind,
    RuntimeImports,
    RuntimeExports,
    ResolveApiTargets,
    ResolveIatThunks,
    DisasmAt,
    AnalyzeFunction,
    ScanX86CallSites,
    AnalyzeSendCallSites,
    ExtractDispatchTables,
    TraceCallChain,
    MemRead,
    MemWrite,
    MemReadChain,
    ReadStruct,
    CorrelateAddr,
    Locate,
    FindVtable,
    DiffStruct,
    RecordHypothesis,
    AddEvidence,
    VerifyHypothesis,
    QueryHypotheses,
    RealRate,
    MemAttach,
    MemModules,
    MemoryRegions,
    ScanString,
    ScanRegex,
    ScanBytes,
    ScanPointersTo,
    ScanCallers,
    ValueScanStart,
    ValueScanRefine,
    ValueExplain,
}

impl Tool {
    /// What the tool is called.
    pub open spec fn called(self) -> Seq<char> {
        match self {
            Tool::ProcessesList => "processes_list"@,
            Tool::ProcessesFind => "processes_find"@,
            Tool::RuntimeImports => "runtime_imports"@,
            Tool::RuntimeExports => "runtime_exports"@,
            Tool::ResolveApiTargets => "resolve_api_targets"@,
            Tool::ResolveIatThunks => "resolve_iat_thunks"@,
            Tool::DisasmAt => "disasm_at"@,
            Tool::AnalyzeFunction => "analyze_function"@,
            Tool::ScanX86CallSites => "scan_x86_call_sites"@,
            Tool::AnalyzeSendCallSites => "analyze_send_call_sites"@,
            Tool::ExtractDispatchTables => "extract_dispatch_tables"@,
            Tool::TraceCallChain => "trace_call_chain"@,
            Tool::MemRead => "mem_read"@,
            Tool::MemWrite => "mem_write"@,
            Tool::MemReadChain => "mem_read_chain"@,
            Tool::ReadStruct => "read_struct"@,
            Tool::CorrelateAddr => "correlate_addr"@,
            Tool::Locate => "locate"@,
            Tool::FindVtable => "find_vtable"@,
            Tool::DiffStruct => "diff_struct"@,
            Tool::RecordHypothesis => "record_hypothesis"@,
            Tool::AddEvidence => "add_evidence"@,
            Tool::VerifyHypothesis => "verify_hypothesis"@,
            Tool::QueryHypotheses => "query_hypotheses"@,
            Tool::RealRate => "real_rate"@,
            Tool::MemAttach => "mem_attach"@,
            Tool::MemModules => "mem_modules"@,
            Tool::MemoryRegions => "memory_regions"@,
            Tool::ScanString => "scan_string"@,
            Tool::ScanRegex => "scan_regex"@,
            Tool::ScanBytes => "scan_bytes"@,
            Tool::ScanPointersTo => "scan_pointers_to"@,
            Tool::ScanCallers => "scan_callers"@,
            Tool::ValueScanStart => "value_scan_start"@,
            Tool::ValueScanRefine => "value_scan_refine"@,
            Tool::ValueExplain => "value_explain"@,
        }
    }

    pub fn name(self) -> (name: &'static str)
        ensures
            name@ == self.called(),
    {
        match self {
            Tool::ProcessesList => "processes_list",
            Tool::ProcessesFind => "processes_find",
            Tool::RuntimeImports => "runtime_imports",
            Tool::RuntimeExports => "runtime_exports",
            Tool::ResolveApiTargets => "resolve_api_targets",
            Tool::ResolveIatThunks => "resolve_iat_thunks",
            Tool::DisasmAt => "disasm_at",
            Tool::AnalyzeFunction => "analyze_function",
            Tool::ScanX86CallSites => "scan_x86_call_sites",
            Tool::AnalyzeSendCallSites => "analyze_send_call_sites",
            Tool::ExtractDispatchTables => "extract_dispatch_tables",
            Tool::TraceCallChain => "trace_call_chain",
            Tool::MemRead => "mem_read",
            Tool::MemWrite => "mem_write",
            Tool::MemReadChain => "mem_read_chain",
            Tool::ReadStruct => "read_struct",
            Tool::CorrelateAddr => "correlate_addr",
            Tool::Locate => "locate",
            Tool::FindVtable => "find_vtable",
            Tool::DiffStruct => "diff_struct",
            Tool::RecordHypothesis => "record_hypothesis",
            Tool::AddEvidence => "add_evidence",
            Tool::VerifyHypothesis => "verify_hypothesis",
            Tool::QueryHypotheses => "query_hypotheses",
            Tool::RealRate => "real_rate",
            Tool::MemAttach => "mem_attach",
            Tool::MemModules => "mem_modules",
            Tool::MemoryRegions => "memory_regions",
            Tool::ScanString => "scan_string",
            Tool::ScanRegex => "scan_regex",
            Tool::ScanBytes => "scan_bytes",
            Tool::ScanPointersTo => "scan_pointers_to",
            Tool::ScanCallers => "scan_callers",
            Tool::ValueScanStart => "value_scan_start",
            Tool::ValueScanRefine => "value_scan_refine",
            Tool::ValueExplain => "value_explain",
        }
    }
}

/// The tools in the order in which they are listed.
pub open spec fn listed() -> Seq<Tool> {
    seq![
        Tool::ProcessesList,
        Tool::ProcessesFind,
        Tool::RuntimeImports,
        Tool::RuntimeExports,
        Tool::ResolveApiTargets,
        Tool::ResolveIatThunks,
        Tool::DisasmAt,
        Tool::AnalyzeFunction,
        Tool::ScanX86CallSites,
        Tool::AnalyzeSendCallSites,
        Tool::ExtractDispatchTables,
        Tool::TraceCallChain,
        Tool::MemRead,
        Tool::MemWrite,
        Tool::MemReadChain,
        Tool::ReadStruct,
        Tool::CorrelateAddr,
        Tool::Locate,
        Tool::FindVtable,
        Tool::DiffStruct,
        Tool::RecordHypothesis,
        Tool::AddEvidence,
        Tool::VerifyHypothesis,
        Tool::QueryHypotheses,
        Tool::RealRate,
        Tool::MemAttach,
        Tool::MemModules,
        Tool::MemoryRegions,
        Tool::ScanString,
        Tool::ScanRegex,
        Tool::ScanBytes,
        Tool::ScanPointersTo,
        Tool::ScanCallers,
        Tool::ValueScanStart,
        Tool::ValueScanRefine,
        Tool::ValueExplain,
    ]
}

pub fn all_tools() -> (tools: Vec<Tool>)
    ensures
        tools@ == listed(),
{
    let tools: Vec<Tool> = vec![
        Tool::ProcessesList,
        Tool::ProcessesFind,
        Tool::RuntimeImports,
        Tool::RuntimeExports,
        Tool::ResolveApiTargets,
        Tool::ResolveIatThunks,
        Tool::DisasmAt,
        Tool::AnalyzeFunction,
        Tool::ScanX86CallSites,
        Tool::AnalyzeSendCallSites,
        Tool::ExtractDispatchTables,
        Tool::TraceCallChain,
        Tool::MemRead,
        Tool::MemWrite,
        Tool::MemReadChain,
        Tool::ReadStruct,
        Tool::CorrelateAddr,
        Tool::Locate,
        Tool::FindVtable,
        Tool::DiffStruct,
        Tool::RecordHypothesis,
        Tool::AddEvidence,
        Tool::VerifyHypothesis,
        Tool::QueryHypotheses,
        Tool::RealRate,
        Tool::MemAttach,
        Tool::MemModules,
        Tool::MemoryRegions,
        Tool::ScanString,
        Tool::ScanRegex,
        Tool::ScanBytes,
        Tool::ScanPointersTo,
        Tool::ScanCallers,
        Tool::ValueScanStart,
        Tool::ValueScanRefine,
        Tool::ValueExplain,
    ];
    proof {
        assert(tools@ =~= listed());
    }
    tools
}

/// Whether a tool has a name.
pub open spec fn is_called(name: Seq<char>) -> spec_fn(Tool) -> bool {
    |tool: Tool| tool.called() == name
}

/// The tool with a name.
pub open spec fn tool_called(name: Seq<char>) -> Option<Tool> {
    match seqs::first_from(listed(), 0, is_called(name)) {
        Some(i) => Some(listed()[i]),
        None => None,
    }
}

/// The tool with a name.
pub fn tool_named(name: &str) -> (found: Option<Tool>)
    ensures
        found == tool_called(name@),
{
    let tools = all_tools();
    let ghost wanted = is_called(name@);
    let mut i: usize = 0;
    while i < tools.len()
        invariant
            i <= tools.len(),
            tools@ == listed(),
            wanted == is_called(name@),
            seqs::first_from(listed(), 0, wanted) == seqs::first_from(listed(), i as int, wanted),
        decreases tools.len() - i,
    {
        if text::same_text(tools[i].name(), name) {
            return Some(tools[i]);
        }
        i += 1;
    }
    None
}

/// The place of a tool in the list.
pub open spec fn place(tool: Tool) -> int {
    match tool {
        Tool::ProcessesList => 0,
        Tool::ProcessesFind => 1,
        Tool::RuntimeImports => 2,
        Tool::RuntimeExports => 3,
        Tool::ResolveApiTargets => 4,
        Tool::ResolveIatThunks => 5,
        Tool::DisasmAt => 6,
        Tool::AnalyzeFunction => 7,
        Tool::ScanX86CallSites => 8,
        Tool::AnalyzeSendCallSites => 9,
        Tool::ExtractDispatchTables => 10,
        Tool::TraceCallChain => 11,
        Tool::MemRead => 12,
        Tool::MemWrite => 13,
        Tool::MemReadChain => 14,
        Tool::ReadStruct => 15,
        Tool::CorrelateAddr => 16,
        Tool::Locate => 17,
        Tool::FindVtable => 18,
        Tool::DiffStruct => 19,
        Tool::RecordHypothesis => 20,
        Tool::AddEvidence => 21,
        Tool::VerifyHypothesis => 22,
        Tool::QueryHypotheses => 23,
        Tool::RealRate => 24,
        Tool::MemAttach => 25,
        Tool::MemModules => 26,
        Tool::MemoryRegions => 27,
        Tool::ScanString => 28,
        Tool::ScanRegex => 29,
        Tool::ScanBytes => 30,
        Tool::ScanPointersTo => 31,
        Tool::ScanCallers => 32,
        Tool::ValueScanStart => 33,
        Tool::ValueScanRefine => 34,
        Tool::ValueExplain => 35,
    }
}

/// Every tool is listed, at its place alone.
proof fn lemma_listed(tool: Tool)
    ensures
        0 <= place(tool) < listed().len(),
        listed()[place(tool)] == tool,
{
}

/// What tells the names of two tools apart.
spec fn mark(name: Seq<char>) -> (int, int, int, int) {
    (name.len() as int, name[0] as int, name[name.len() - 1] as int, name[name.len() - 6] as int)
}

/// The mark of a tool's name.
spec fn mark_of(tool: Tool) -> (int, int, int, int) {
    match tool {
        Tool::ProcessesList => (14, 'p' as int, 't' as int, 's' as int),
        Tool::ProcessesFind => (14, 'p' as int, 'd' as int, 's' as int),
        Tool::RuntimeImports => (15, 'r' as int, 's' as int, 'm' as int),
        Tool::RuntimeExports => (15, 'r' as int, 's' as int, 'x' as int),
        Tool::ResolveApiTargets => (19, 'r' as int, 's' as int, 'a' as int),
        Tool::ResolveIatThunks => (18, 'r' as int, 's' as int, 't' as int),
        Tool::DisasmAt => (9, 'd' as int, 't' as int, 'a' as int),
        Tool::AnalyzeFunction => (16, 'a' as int, 'n' as int, 'n' as int),
        Tool::ScanX86CallSites => (19, 's' as int, 's' as int, '_' as int),
        Tool::AnalyzeSendCallSites => (23, 'a' as int, 's' as int, '_' as int),
        Tool::ExtractDispatchTables => (23, 'e' as int, 's' as int, 't' as int),
        Tool::TraceCallChain => (16, 't' as int, 'n' as int, '_' as int),
        Tool::MemRead => (8, 'm' as int, 'd' as int, 'm' as int),
        Tool::MemWrite => (9, 'm' as int, 'e' as int, '_' as int),
        Tool::MemReadChain => (14, 'm' as int, 'n' as int, '_' as int),
        Tool::ReadStruct => (11, 'r' as int, 't' as int, 's' as int),
        Tool::CorrelateAddr => (14, 'c' as int, 'r' as int, 'e' as int),
        Tool::Locate => (6, 'l' as int, 'e' as int, 'l' as int),
        Tool::FindVtable => (11, 'f' as int, 'e' as int, 'v' as int),
        Tool::DiffStruct => (11, 'd' as int, 't' as int, 's' as int),
        Tool::RecordHypothesis => (17, 'r' as int, 's' as int, 't' as int),
        Tool::AddEvidence => (12, 'a' as int, 'e' as int, 'i' as int),
        Tool::VerifyHypothesis => (17, 'v' as int, 's' as int, 't' as int),
        Tool::QueryHypotheses => (16, 'q' as int, 's' as int, 't' as int),
        Tool::RealRate => (9, 'r' as int, 'e' as int, 'l' as int),
        Tool::MemAttach => (10, 'm' as int, 'h' as int, 'a' as int),
        Tool::MemModules => (11, 'm' as int, 's' as int, 'o' as int),
        Tool::MemoryRegions => (14, 'm' as int, 's' as int, 'e' as int),
        Tool::ScanString => (11, 's' as int, 'g' as int, 's' as int),
        Tool::ScanRegex => (10, 's' as int, 'x' as int, '_' as int),
        Tool::ScanBytes => (10, 's' as int, 's' as int, '_' as int),
        Tool::ScanPointersTo => (16, 's' as int, 'o' as int, 'e' as int),
        Tool::ScanCallers => (12, 's' as int, 's' as int, 'a' as int),
        Tool::ValueScanStart => (16, 'v' as int, 't' as int, '_' as int),
        Tool::ValueScanRefine => (17, 'v' as int, 'e' as int, 'r' as int),
        Tool::ValueExplain => (13, 'v' as int, 'n' as int, 'x' as int),
    }
}

proof fn lemma_mark(tool: Tool)
    ensures
        mark(tool.called()) == mark_of(tool),
{
    match tool {
        Tool::ProcessesList => {
            reveal_strlit("processes_list");
        },
        Tool::ProcessesFind => {
            reveal_strlit("processes_find");
        },
        Tool::RuntimeImports => {
            reveal_strlit("runtime_imports");
        },
        Tool::RuntimeExports => {
            reveal_strlit("runtime_exports");
        },
        Tool::ResolveApiTargets => {
            reveal_strlit("resolve_api_targets");
        },
        Tool::ResolveIatThunks => {
            reveal_strlit("resolve_iat_thunks");
        },
        Tool::DisasmAt => {
            reveal_strlit("disasm_at");
        },
        Tool::AnalyzeFunction => {
            reveal_strlit("analyze_function");
        },
        Tool::ScanX86CallSites => {
            reveal_strlit("scan_x86_call_sites");
        },
        Tool::AnalyzeSendCallSites => {
            reveal_strlit("analyze_send_call_sites");
        },
        Tool::ExtractDispatchTables => {
            reveal_strlit("extract_dispatch_tables");
        },
        Tool::TraceCallChain => {
            reveal_strlit("trace_call_chain");
        },
        Tool::MemRead => {
            reveal_strlit("mem_read");
        },
        Tool::MemWrite => {
            reveal_strlit("mem_write");
        },
        Tool::MemReadChain => {
            reveal_strlit("mem_read_chain");
        },
        Tool::ReadStruct => {
            reveal_strlit("read_struct");
        },
        Tool::CorrelateAddr => {
            reveal_strlit("correlate_addr");
        },
        Tool::Locate => {
            reveal_strlit("locate");
        },
        Tool::FindVtable => {
            reveal_strlit("find_vtable");
        },
        Tool::DiffStruct => {
            reveal_strlit("diff_struct");
        },
        Tool::RecordHypothesis => {
            reveal_strlit("record_hypothesis");
        },
        Tool::AddEvidence => {
            reveal_strlit("add_evidence");
        },
        Tool::VerifyHypothesis => {
            reveal_strlit("verify_hypothesis");
        },
        Tool::QueryHypotheses => {
            reveal_strlit("query_hypotheses");
        },
        Tool::RealRate => {
            reveal_strlit("real_rate");
        },
        Tool::MemAttach => {
            reveal_strlit("mem_attach");
        },
        Tool::MemModules => {
            reveal_strlit("mem_modules");
        },
        Tool::MemoryRegions => {
            reveal_strlit("memory_regions");
        },
        Tool::ScanString => {
            reveal_strlit("scan_string");
        },
        Tool::ScanRegex => {
            reveal_strlit("scan_regex");
        },
        Tool::ScanBytes => {
            reveal_strlit("scan_bytes");
        },
        Tool::ScanPointersTo => {
            reveal_strlit("scan_pointers_to");
        },
        Tool::ScanCallers => {
            reveal_strlit("scan_callers");
        },
        Tool::ValueScanStart => {
            reveal_strlit("value_scan_start");
        },
        Tool::ValueScanRefine => {
            reveal_strlit("value_scan_refine");
        },
        Tool::ValueExplain => {
            reveal_strlit("value_explain");
        },
    }
}

/// No two tools share a name.
pub proof fn law_names_differ(a: Tool, b: Tool)
    requires
        a.called() == b.called(),
    ensures
        a == b,
{
    lemma_mark(a);
    lemma_mark(b);
}

/// Every tool is found under its name, and what is found has the name.
pub proof fn law_tool_found_by_name(tool: Tool, name: Seq<char>)
    ensures
        tool_called(tool.called()) == Some(tool),
        tool_called(name) matches Some(found) ==> found.called() == name,
{
    lemma_listed(tool);
    seqs::lemma_first_from(listed(), 0, is_called(tool.called()));
    seqs::lemma_first_from(listed(), 0, is_called(name));
    assert(is_called(tool.called())(listed()[place(tool)]));
    if let Some(found) = tool_called(tool.called()) {
        law_names_differ(found, tool);
    }
}

/// Texts that are being listed.
struct Texts {
    list: Vec<Json>,
}

impl DeepView for Texts {
    type V = Seq<JsonView>;

    closed spec fn deep_view(&self) -> Seq<JsonView> {
        self.list.deep_view()
    }
}

/// No texts.
pub open spec fn no_texts() -> Seq<JsonView> {
    Seq::empty()
}

impl Texts {
    fn new() -> (texts: Self)
        ensures
            texts.deep_view() == no_texts(),
    {
        let texts = Texts { list: Vec::new() };
        proof {
            assert(texts.list.deep_view() =~= no_texts());
        }
        texts
    }

    fn and(self, text: &str) -> (texts: Self)
        ensures
            texts.deep_view() == self.deep_view().push(JsonView::Text(text@)),
    {
        let mut texts = self;
        let ghost before = texts.list.deep_view();
        texts.list.push(Json::text(text));
        proof {
            assert(texts.list.deep_view() =~= before.push(JsonView::Text(text@)));
        }
        texts
    }
}

/// An argument of a kind.
pub open spec fn of_kind_shape(kind: Seq<char>) -> JsonView {
    JsonView::Object(
        json::record()
            .push(("type"@, JsonView::Text(kind))))
}

fn of_kind(kind: &str) -> (json: Json)
    ensures
        json.deep_view() == of_kind_shape(kind@),
{
    Fields::new()
        .with("type", Json::text(kind))
        .object()
}

/// An argument of any kind.
pub open spec fn described_shape(description: Seq<char>) -> JsonView {
    JsonView::Object(
        json::record()
            .push(("description"@, JsonView::Text(description))))
}

fn described(description: &str) -> (json: Json)
    ensures
        json.deep_view() == described_shape(description@),
{
    Fields::new()
        .with("description", Json::text(description))
        .object()
}

/// An argument of a kind, with what it is for.
pub open spec fn kind_described_shape(kind: Seq<char>, description: Seq<char>) -> JsonView {
    JsonView::Object(
        json::record()
            .push(("description"@, JsonView::Text(description)))
            .push(("type"@, JsonView::Text(kind))))
}

fn kind_described(kind: &str, description: &str) -> (json: Json)
    ensures
        json.deep_view() == kind_described_shape(kind@, description@),
{
    Fields::new()
        .with("description", Json::text(description))
        .with("type", Json::text(kind))
        .object()
}

/// A number with a default.
pub open spec fn number_or_shape(default: u64) -> JsonView {
    JsonView::Object(
        json::record()
            .push(("default"@, JsonView::Unsigned(default)))
            .push(("type"@, JsonView::Text("integer"@))))
}

fn number_or(default: u64) -> (json: Json)
    ensures
        json.deep_view() == number_or_shape(default),
{
    Fields::new()
        .with("default", Json::Unsigned(default))
        .with("type", Json::text("integer"))
        .object()
}

/// A number with a default, with what it is for.
pub open spec fn number_or_described_shape(default: u64, description: Seq<char>) -> JsonView {
    JsonView::Object(
        json::record()
            .push(("default"@, JsonView::Unsigned(default)))
            .push(("description"@, JsonView::Text(description)))
            .push(("type"@, JsonView::Text("integer"@))))
}

fn number_or_described(default: u64, description: &str) -> (json: Json)
    ensures
        json.deep_view() == number_or_described_shape(default, description@),
{
    Fields::new()
        .with("default", Json::Unsigned(default))
        .with("description", Json::text(description))
        .with("type", Json::text("integer"))
        .object()
}

/// A truth value with a default.
pub open spec fn flag_or_shape(default: bool) -> JsonView {
    JsonView::Object(
        json::record()
            .push(("default"@, JsonView::Bool(default)))
            .push(("type"@, JsonView::Text("boolean"@))))
}

fn flag_or(default: bool) -> (json: Json)
    ensures
        json.deep_view() == flag_or_shape(default),
{
    Fields::new()
        .with("default", Json::Bool(default))
        .with("type", Json::text("boolean"))
        .object()
}

/// A truth value with a default, with what it is for.
pub open spec fn flag_or_described_shape(default: bool, description: Seq<char>) -> JsonView {
    JsonView::Object(
        json::record()
            .push(("default"@, JsonView::Bool(default)))
            .push(("description"@, JsonView::Text(description)))
            .push(("type"@, JsonView::Text("boolean"@))))
}

fn flag_or_described(default: bool, description: &str) -> (json: Json)
    ensures
        json.deep_view() == flag_or_described_shape(default, description@),
{
    Fields::new()
        .with("default", Json::Bool(default))
        .with("description", Json::text(description))
        .with("type", Json::text("boolean"))
        .object()
}

/// A text with a default.
pub open spec fn text_or_shape(default: Seq<char>) -> JsonView {
    JsonView::Object(
        json::record()
            .push(("default"@, JsonView::Text(default)))
            .push(("type"@, JsonView::Text("string"@))))
}

fn text_or(default: &str) -> (json: Json)
    ensures
        json.deep_view() == text_or_shape(default@),
{
    Fields::new()
        .with("default", Json::text(default))
        .with("type", Json::text("string"))
        .object()
}

/// One of some texts.
pub open spec fn choice_shape(choices: Seq<JsonView>) -> JsonView {
    JsonView::Object(
        json::record()
            .push(("enum"@, JsonView::Array(choices)))
            .push(("type"@, JsonView::Text("string"@))))
}

fn choice(choices: Texts) -> (json: Json)
    ensures
        json.deep_view() == choice_shape(choices.deep_view()),
{
    Fields::new()
        .with("enum", Json::array(choices.list))
        .with("type", Json::text("string"))
        .object()
}

/// One of some texts, with a default.
pub open spec fn choice_or_shape(default: Seq<char>, choices: Seq<JsonView>) -> JsonView {
    JsonView::Object(
        json::record()
            .push(("default"@, JsonView::Text(default)))
            .push(("enum"@, JsonView::Array(choices)))
            .push(("type"@, JsonView::Text("string"@))))
}

fn choice_or(default: &str, choices: Texts) -> (json: Json)
    ensures
        json.deep_view() == choice_or_shape(default@, choices.deep_view()),
{
    Fields::new()
        .with("default", Json::text(default))
        .with("enum", Json::array(choices.list))
        .with("type", Json::text("string"))
        .object()
}

/// What a tool takes: its arguments, and which of them must be there.
pub open spec fn schema_shape(
    properties: Seq<(Seq<char>, JsonView)>,
    required: Option<Seq<JsonView>>,
) -> JsonView {
    let head = json::record().push(("properties"@, JsonView::Object(properties)));
    let middle = match required {
        Some(names) => head.push(("required"@, JsonView::Array(names))),
        None => head,
    };
    JsonView::Object(middle.push(("type"@, JsonView::Text("object"@))))
}

fn schema(properties: Fields, required: Option<Texts>) -> (json: Json)
    ensures
        json.deep_view() == schema_shape(properties.deep_view(), required.deep_view()),
{
    let head = Fields::new().with("properties", properties.object());
    let middle = match required {
        Some(names) => head.with("required", Json::array(names.list)),
        None => head,
    };
    middle.with("type", Json::text("object")).object()
}

/// A tool as it is listed.
pub open spec fn entry_shape(
    name: Seq<char>,
    title: Seq<char>,
    description: Seq<char>,
    schema: JsonView,
) -> JsonView {
    JsonView::Object(
        json::record()
            .push(("description"@, JsonView::Text(description)))
            .push(("inputSchema"@, schema))
            .push(("name"@, JsonView::Text(name)))
            .push(("title"@, JsonView::Text(title))))
}

fn entry(tool: Tool, title: &str, description: &str, schema: Json) -> (json: Json)
    ensures
        json.deep_view() == entry_shape(tool.called(), title@, description@, schema.deep_view()),
{
    Fields::new()
        .with("description", Json::text(description))
        .with("inputSchema", schema)
        .with("name", Json::text(tool.name()))
        .with("title", Json::text(title))
        .object()
}

pub open spec fn processes_list_entry() -> JsonView {
    entry_shape(
        Tool::ProcessesList.called(),
        "List Processes"@,
        "List running Windows processes so the AI can find a target PID before reading runtime memory."@,
        schema_shape(
            json::record()
                .push(("limit"@, number_or_shape(200))),
            None,
        ),
    )
}

fn processes_list_tool() -> (json: Json)
    ensures
        json.deep_view() == processes_list_entry(),
{
    let properties = Fields::new()
        .with("limit", number_or(200));
    entry(
        Tool::ProcessesList,
        "List Processes",
        "List running Windows processes so the AI can find a target PID before reading runtime memory.",
        schema(properties, None),
    )
}

pub open spec fn processes_find_entry() -> JsonView {
    entry_shape(
        Tool::ProcessesFind.called(),
        "Find Process"@,
        "Find running process candidates by name substring, exact image name, or PID. Use this before memory tools when the PID is unknown."@,
        schema_shape(
            json::record()
                .push(
                    (
                        "exact_name"@,
                        kind_described_shape(
                            "string"@,
                            "Case-insensitive exact process image name, such as game.exe."@,
                        ),
                    ),
                )
                .push(("limit"@, number_or_shape(50)))
                .push(
                    (
                        "name_contains"@,
                        kind_described_shape(
                            "string"@,
                            "Case-insensitive process image substring."@,
                        ),
                    ),
                )
                .push(("pid"@, kind_described_shape("integer"@, "Optional exact PID lookup."@))),
            None,
        ),
    )
}

fn processes_find_tool() -> (json: Json)
    ensures
        json.deep_view() == processes_find_entry(),
{
    let properties = Fields::new()
        .with(
            "exact_name",
            kind_described(
                "string",
                "Case-insensitive exact process image name, such as game.exe.",
            ),
        )
        .with("limit", number_or(50))
        .with(
            "name_contains",
            kind_described("string", "Case-insensitive process image substring."),
        )
        .with("pid", kind_described("integer", "Optional exact PID lookup."));
    entry(
        Tool::ProcessesFind,
        "Find Process",
        "Find running process candidates by name substring, exact image name, or PID. Use this before memory tools when the PID is unknown.",
        schema(properties, None),
    )
}

pub open spec fn runtime_imports_entry() -> JsonView {
    entry_shape(
        Tool::RuntimeImports.called(),
        "Runtime Imports"@,
        "Parse PE32 import/IAT data from the live mapped process image. Useful when disk EXE imports are packed or misleading."@,
        schema_shape(
            json::record()
                .push(("dll_contains"@, of_kind_shape("string"@)))
                .push(("max_results"@, number_or_shape(200)))
                .push(("module_name"@, of_kind_shape("string"@)))
                .push(("name_contains"@, of_kind_shape("string"@)))
                .push(("pid"@, of_kind_shape("integer"@))),
            Some(no_texts().push(JsonView::Text("pid"@))),
        ),
    )
}

fn runtime_imports_tool() -> (json: Json)
    ensures
        json.deep_view() == runtime_imports_entry(),
{
    let properties = Fields::new()
        .with("dll_contains", of_kind("string"))
        .with("max_results", number_or(200))
        .with("module_name", of_kind("string"))
        .with("name_contains", of_kind("string"))
        .with("pid", of_kind("integer"));
    entry(
        Tool::RuntimeImports,
        "Runtime Imports",
        "Parse PE32 import/IAT data from the live mapped process image. Useful when disk EXE imports are packed or misleading.",
        schema(properties, Some(Texts::new().and("pid"))),
    )
}

pub open spec fn runtime_exports_entry() -> JsonView {
    entry_shape(
        Tool::RuntimeExports.called(),
        "Runtime Exports"@,
        "Parse PE export tables from live mapped modules and return exported API names with runtime VA/RVA evidence."@,
        schema_shape(
            json::record()
                .push(("max_results"@, number_or_shape(200)))
                .push(("module_name"@, of_kind_shape("string"@)))
                .push(("name_contains"@, of_kind_shape("string"@)))
                .push(("pid"@, of_kind_shape("integer"@))),
            Some(no_texts().push(JsonView::Text("pid"@))),
        ),
    )
}

fn runtime_exports_tool() -> (json: Json)
    ensures
        json.deep_view() == runtime_exports_entry(),
{
    let properties = Fields::new()
        .with("max_results", number_or(200))
        .with("module_name", of_kind("string"))
        .with("name_contains", of_kind("string"))
        .with("pid", of_kind("integer"));
    entry(
        Tool::RuntimeExports,
        "Runtime Exports",
        "Parse PE export tables from live mapped modules and return exported API names with runtime VA/RVA evidence.",
        schema(properties, Some(Texts::new().and("pid"))),
    )
}

pub open spec fn resolve_api_targets_entry() -> JsonView {
    entry_shape(
        Tool::ResolveApiTargets.called(),
        "Resolve API Targets"@,
        "Resolve runtime API targets from loaded module exports. Accepts api like ws2_32!send or module_name plus name_contains."@,
        schema_shape(
            json::record()
                .push(("api"@, of_kind_shape("string"@)))
                .push(("max_results"@, number_or_shape(50)))
                .push(("module_name"@, of_kind_shape("string"@)))
                .push(("name"@, of_kind_shape("string"@)))
                .push(("name_contains"@, of_kind_shape("string"@)))
                .push(("pid"@, of_kind_shape("integer"@))),
            Some(no_texts().push(JsonView::Text("pid"@))),
        ),
    )
}

fn resolve_api_targets_tool() -> (json: Json)
    ensures
        json.deep_view() == resolve_api_targets_entry(),
{
    let properties = Fields::new()
        .with("api", of_kind("string"))
        .with("max_results", number_or(50))
        .with("module_name", of_kind("string"))
        .with("name", of_kind("string"))
        .with("name_contains", of_kind("string"))
        .with("pid", of_kind("integer"));
    entry(
        Tool::ResolveApiTargets,
        "Resolve API Targets",
        "Resolve runtime API targets from loaded module exports. Accepts api like ws2_32!send or module_name plus name_contains.",
        schema(properties, Some(Texts::new().and("pid"))),
    )
}

pub open spec fn resolve_iat_thunks_entry() -> JsonView {
    entry_shape(
        Tool::ResolveIatThunks.called(),
        "Resolve IAT Thunks"@,
        "Find x86 import thunks such as jmp/call dword ptr [IAT] and return the runtime target plus thunk address."@,
        schema_shape(
            json::record()
                .push(("max_results"@, number_or_shape(100)))
                .push(("module_name"@, of_kind_shape("string"@)))
                .push(("name_contains"@, of_kind_shape("string"@)))
                .push(("pid"@, of_kind_shape("integer"@))),
            Some(no_texts().push(JsonView::Text("pid"@))),
        ),
    )
}

fn resolve_iat_thunks_tool() -> (json: Json)
    ensures
        json.deep_view() == resolve_iat_thunks_entry(),
{
    let properties = Fields::new()
        .with("max_results", number_or(100))
        .with("module_name", of_kind("string"))
        .with("name_contains", of_kind("string"))
        .with("pid", of_kind("integer"));
    entry(
        Tool::ResolveIatThunks,
        "Resolve IAT Thunks",
        "Find x86 import thunks such as jmp/call dword ptr [IAT] and return the runtime target plus thunk address.",
        schema(properties, Some(Texts::new().and("pid"))),
    )
}

pub open spec fn disasm_at_entry() -> JsonView {
    entry_shape(
        Tool::DisasmAt.called(),
        "Disassemble At"@,
        "Decode 32-bit runtime instructions at an address using a targeted memory window. Keeps full instruction text and adds call/jmp targets and push-string evidence."@,
        schema_shape(
            json::record()
                .push(("address"@, described_shape("Runtime address."@)))
                .push(("count"@, number_or_shape(40)))
                .push(("pid"@, of_kind_shape("integer"@)))
                .push(
                    (
                        "window_size"@,
                        kind_described_shape(
                            "integer"@,
                            "Bytes to snapshot from address before decoding."@,
                        ),
                    ),
                ),
            Some(no_texts().push(JsonView::Text("pid"@)).push(JsonView::Text("address"@))),
        ),
    )
}

fn disasm_at_tool() -> (json: Json)
    ensures
        json.deep_view() == disasm_at_entry(),
{
    let properties = Fields::new()
        .with("address", described("Runtime address."))
        .with("count", number_or(40))
        .with("pid", of_kind("integer"))
        .with(
            "window_size",
            kind_described("integer", "Bytes to snapshot from address before decoding."),
        );
    entry(
        Tool::DisasmAt,
        "Disassemble At",
        "Decode 32-bit runtime instructions at an address using a targeted memory window. Keeps full instruction text and adds call/jmp targets and push-string evidence.",
        schema(properties, Some(Texts::new().and("pid").and("address"))),
    )
}

pub open spec fn analyze_function_entry() -> JsonView {
    entry_shape(
        Tool::AnalyzeFunction.called(),
        "Analyze Function"@,
        "Disassemble one runtime function body from a targeted memory window until ret/count and collect direct callees. Evidence only, no summarization."@,
        schema_shape(
            json::record()
                .push(("address"@, described_shape("Function entry/runtime address."@)))
                .push(("max_insn"@, number_or_shape(200)))
                .push(("pid"@, of_kind_shape("integer"@)))
                .push(
                    (
                        "window_size"@,
                        kind_described_shape(
                            "integer"@,
                            "Bytes to snapshot from address before decoding."@,
                        ),
                    ),
                ),
            Some(no_texts().push(JsonView::Text("pid"@)).push(JsonView::Text("address"@))),
        ),
    )
}

fn analyze_function_tool() -> (json: Json)
    ensures
        json.deep_view() == analyze_function_entry(),
{
    let properties = Fields::new()
        .with("address", described("Function entry/runtime address."))
        .with("max_insn", number_or(200))
        .with("pid", of_kind("integer"))
        .with(
            "window_size",
            kind_described("integer", "Bytes to snapshot from address before decoding."),
        );
    entry(
        Tool::AnalyzeFunction,
        "Analyze Function",
        "Disassemble one runtime function body from a targeted memory window until ret/count and collect direct callees. Evidence only, no summarization.",
        schema(properties, Some(Texts::new().and("pid").and("address"))),
    )
}

pub open spec fn scan_x86_call_sites_entry() -> JsonView {
    entry_shape(
        Tool::ScanX86CallSites.called(),
        "Scan X86 Call Sites"@,
        "Find direct x86 E8/E9 call/jump sites to a target, annotate each with instruction text and best-effort function start."@,
        schema_shape(
            json::record()
                .push(("address"@, described_shape("Alias for target."@)))
                .push(("max_results"@, number_or_shape(50)))
                .push(("pid"@, of_kind_shape("integer"@)))
                .push(("target"@, described_shape("Target function/thunk address."@))),
            Some(no_texts().push(JsonView::Text("pid"@))),
        ),
    )
}

fn scan_x86_call_sites_tool() -> (json: Json)
    ensures
        json.deep_view() == scan_x86_call_sites_entry(),
{
    let properties = Fields::new()
        .with("address", described("Alias for target."))
        .with("max_results", number_or(50))
        .with("pid", of_kind("integer"))
        .with("target", described("Target function/thunk address."));
    entry(
        Tool::ScanX86CallSites,
        "Scan X86 Call Sites",
        "Find direct x86 E8/E9 call/jump sites to a target, annotate each with instruction text and best-effort function start.",
        schema(properties, Some(Texts::new().and("pid"))),
    )
}

pub open spec fn analyze_send_call_sites_entry() -> JsonView {
    entry_shape(
        Tool::AnalyzeSendCallSites.called(),
        "Analyze Send Call Sites"@,
        "For a send/thunk target, scan executable call sites and return compact evidence from preceding instructions: push immediate opcode candidates, push string addresses, and packet-shaped C_/S_ names. Evidence only."@,
        schema_shape(
            json::record()
                .push(("address"@, described_shape("Alias for target."@)))
                .push(("backward_bytes"@, number_or_shape(128)))
                .push(("max_preceding_instructions"@, number_or_shape(12)))
                .push(("max_results"@, number_or_shape(50)))
                .push(("pid"@, of_kind_shape("integer"@)))
                .push(("target"@, described_shape("Send target/thunk address."@))),
            Some(no_texts().push(JsonView::Text("pid"@))),
        ),
    )
}

fn analyze_send_call_sites_tool() -> (json: Json)
    ensures
        json.deep_view() == analyze_send_call_sites_entry(),
{
    let properties = Fields::new()
        .with("address", described("Alias for target."))
        .with("backward_bytes", number_or(128))
        .with("max_preceding_instructions", number_or(12))
        .with("max_results", number_or(50))
        .with("pid", of_kind("integer"))
        .with("target", described("Send target/thunk address."));
    entry(
        Tool::AnalyzeSendCallSites,
        "Analyze Send Call Sites",
        "For a send/thunk target, scan executable call sites and return compact evidence from preceding instructions: push immediate opcode candidates, push string addresses, and packet-shaped C_/S_ names. Evidence only.",
        schema(properties, Some(Texts::new().and("pid"))),
    )
}

pub open spec fn extract_dispatch_tables_entry() -> JsonView {
    entry_shape(
        Tool::ExtractDispatchTables.called(),
        "Extract Dispatch Tables"@,
        "For a recv dispatcher, identify index/jump table candidates from runtime instructions and, when tables are found or provided, output opcode -> dispatch index -> stub -> handler evidence with opcode_value_location."@,
        schema_shape(
            json::record()
                .push(("address"@, described_shape("Alias for dispatcher."@)))
                .push(("dispatcher"@, described_shape("Dispatcher function address."@)))
                .push(
                    (
                        "index_table"@,
                        described_shape("Optional known opcode index table address."@),
                    ),
                )
                .push(("jump_table"@, described_shape("Optional known jump table address."@)))
                .push(("max_entries"@, number_or_shape(256)))
                .push(("max_insn"@, number_or_shape(80)))
                .push(("pid"@, of_kind_shape("integer"@))),
            Some(no_texts().push(JsonView::Text("pid"@))),
        ),
    )
}

fn extract_dispatch_tables_tool() -> (json: Json)
    ensures
        json.deep_view() == extract_dispatch_tables_entry(),
{
    let properties = Fields::new()
        .with("address", described("Alias for dispatcher."))
        .with("dispatcher", described("Dispatcher function address."))
        .with("index_table", described("Optional known opcode index table address."))
        .with("jump_table", described("Optional known jump table address."))
        .with("max_entries", number_or(256))
        .with("max_insn", number_or(80))
        .with("pid", of_kind("integer"));
    entry(
        Tool::ExtractDispatchTables,
        "Extract Dispatch Tables",
        "For a recv dispatcher, identify index/jump table candidates from runtime instructions and, when tables are found or provided, output opcode -> dispatch index -> stub -> handler evidence with opcode_value_location.",
        schema(properties, Some(Texts::new().and("pid"))),
    )
}

pub open spec fn trace_call_chain_entry() -> JsonView {
    entry_shape(
        Tool::TraceCallChain.called(),
        "Trace Call Chain"@,
        "Walk callers upward from a runtime target for a bounded number of depths. Designed for send/recv/decrypt chain evidence."@,
        schema_shape(
            json::record()
                .push(("address"@, described_shape("Alias for target."@)))
                .push(("max_callers_per_depth"@, number_or_shape(20)))
                .push(("max_depth"@, number_or_shape(3)))
                .push(("pid"@, of_kind_shape("integer"@)))
                .push(("target"@, described_shape("Target function/thunk address."@))),
            Some(no_texts().push(JsonView::Text("pid"@))),
        ),
    )
}

fn trace_call_chain_tool() -> (json: Json)
    ensures
        json.deep_view() == trace_call_chain_entry(),
{
    let properties = Fields::new()
        .with("address", described("Alias for target."))
        .with("max_callers_per_depth", number_or(20))
        .with("max_depth", number_or(3))
        .with("pid", of_kind("integer"))
        .with("target", described("Target function/thunk address."));
    entry(
        Tool::TraceCallChain,
        "Trace Call Chain",
        "Walk callers upward from a runtime target for a bounded number of depths. Designed for send/recv/decrypt chain evidence.",
        schema(properties, Some(Texts::new().and("pid"))),
    )
}

pub open spec fn mem_read_entry() -> JsonView {
    entry_shape(
        Tool::MemRead.called(),
        "Read Memory"@,
        "Read runtime memory at an address and return AI-first evidence with module/RVA, region flags, byte context, ASCII preview, and next-tool hints."@,
        schema_shape(
            json::record()
                .push(
                    (
                        "address"@,
                        described_shape("Virtual address as integer or 0x-prefixed string."@),
                    ),
                )
                .push(("pid"@, kind_described_shape("integer"@, "Target process id."@)))
                .push(("size"@, kind_described_shape("integer"@, "Number of bytes to read."@))),
            Some(
                no_texts()
                    .push(JsonView::Text("pid"@))
                    .push(JsonView::Text("address"@))
                    .push(JsonView::Text("size"@)),
            ),
        ),
    )
}

fn mem_read_tool() -> (json: Json)
    ensures
        json.deep_view() == mem_read_entry(),
{
    let properties = Fields::new()
        .with("address", described("Virtual address as integer or 0x-prefixed string."))
        .with("pid", kind_described("integer", "Target process id."))
        .with("size", kind_described("integer", "Number of bytes to read."));
    entry(
        Tool::MemRead,
        "Read Memory",
        "Read runtime memory at an address and return AI-first evidence with module/RVA, region flags, byte context, ASCII preview, and next-tool hints.",
        schema(properties, Some(Texts::new().and("pid").and("address").and("size"))),
    )
}

pub open spec fn mem_write_entry() -> JsonView {
    entry_shape(
        Tool::MemWrite.called(),
        "Write Memory"@,
        "Write exact bytes to runtime memory and return the write evidence. This does not infer patch correctness."@,
        schema_shape(
            json::record()
                .push(
                    (
                        "address"@,
                        described_shape("Virtual address as integer or 0x-prefixed string."@),
                    ),
                )
                .push(
                    (
                        "hex_data"@,
                        kind_described_shape("string"@, "Hex bytes to write, such as 90 90 C3."@),
                    ),
                )
                .push(("pid"@, kind_described_shape("integer"@, "Target process id."@))),
            Some(
                no_texts()
                    .push(JsonView::Text("pid"@))
                    .push(JsonView::Text("address"@))
                    .push(JsonView::Text("hex_data"@)),
            ),
        ),
    )
}

fn mem_write_tool() -> (json: Json)
    ensures
        json.deep_view() == mem_write_entry(),
{
    let properties = Fields::new()
        .with("address", described("Virtual address as integer or 0x-prefixed string."))
        .with("hex_data", kind_described("string", "Hex bytes to write, such as 90 90 C3."))
        .with("pid", kind_described("integer", "Target process id."));
    entry(
        Tool::MemWrite,
        "Write Memory",
        "Write exact bytes to runtime memory and return the write evidence. This does not infer patch correctness.",
        schema(properties, Some(Texts::new().and("pid").and("address").and("hex_data"))),
    )
}

pub open spec fn mem_read_chain_entry() -> JsonView {
    entry_shape(
        Tool::MemReadChain.called(),
        "Read Pointer Chain"@,
        "Read a pointer chain using original Argus semantics: dereference base, add offsets, dereference intermediate nodes, then return final bytes."@,
        schema_shape(
            json::record()
                .push(("address"@, described_shape("Alias for base_address."@)))
                .push(
                    ("base_address"@, described_shape("Address containing the first pointer."@)),
                )
                .push(("final_size"@, number_or_shape(64)))
                .push(
                    (
                        "offsets"@,
                        kind_described_shape(
                            "string"@,
                            "Comma-separated offsets such as 0x10,0x20."@,
                        ),
                    ),
                )
                .push(("pid"@, kind_described_shape("integer"@, "Target process id."@))),
            Some(no_texts().push(JsonView::Text("pid"@))),
        ),
    )
}

fn mem_read_chain_tool() -> (json: Json)
    ensures
        json.deep_view() == mem_read_chain_entry(),
{
    let properties = Fields::new()
        .with("address", described("Alias for base_address."))
        .with("base_address", described("Address containing the first pointer."))
        .with("final_size", number_or(64))
        .with("offsets", kind_described("string", "Comma-separated offsets such as 0x10,0x20."))
        .with("pid", kind_described("integer", "Target process id."));
    entry(
        Tool::MemReadChain,
        "Read Pointer Chain",
        "Read a pointer chain using original Argus semantics: dereference base, add offsets, dereference intermediate nodes, then return final bytes.",
        schema(properties, Some(Texts::new().and("pid"))),
    )
}

pub open spec fn read_struct_entry() -> JsonView {
    entry_shape(
        Tool::ReadStruct.called(),
        "Read Struct Words"@,
        "Read consecutive 4-byte words and report raw u32 values plus possible pointer target region evidence. It does not infer field names."@,
        schema_shape(
            json::record()
                .push(("address"@, described_shape("Struct/object start address."@)))
                .push(("count"@, number_or_shape(16)))
                .push(("pid"@, kind_described_shape("integer"@, "Target process id."@))),
            Some(no_texts().push(JsonView::Text("pid"@)).push(JsonView::Text("address"@))),
        ),
    )
}

fn read_struct_tool() -> (json: Json)
    ensures
        json.deep_view() == read_struct_entry(),
{
    let properties = Fields::new()
        .with("address", described("Struct/object start address."))
        .with("count", number_or(16))
        .with("pid", kind_described("integer", "Target process id."));
    entry(
        Tool::ReadStruct,
        "Read Struct Words",
        "Read consecutive 4-byte words and report raw u32 values plus possible pointer target region evidence. It does not infer field names.",
        schema(properties, Some(Texts::new().and("pid").and("address"))),
    )
}

pub open spec fn correlate_addr_entry() -> JsonView {
    entry_shape(
        Tool::CorrelateAddr.called(),
        "Correlate Address"@,
        "Convert between live process address, RVA, and Ghidra/static address using the main module base. Evidence only."@,
        schema_shape(
            json::record()
                .push(
                    (
                        "ghidra_image_base"@,
                        described_shape("Static image base, default 0x400000."@),
                    ),
                )
                .push(("live_addr"@, described_shape("Live process address."@)))
                .push(("pid"@, kind_described_shape("integer"@, "Target process id."@)))
                .push(("static_addr"@, described_shape("Static/Ghidra address."@))),
            Some(no_texts().push(JsonView::Text("pid"@))),
        ),
    )
}

fn correlate_addr_tool() -> (json: Json)
    ensures
        json.deep_view() == correlate_addr_entry(),
{
    let properties = Fields::new()
        .with("ghidra_image_base", described("Static image base, default 0x400000."))
        .with("live_addr", described("Live process address."))
        .with("pid", kind_described("integer", "Target process id."))
        .with("static_addr", described("Static/Ghidra address."));
    entry(
        Tool::CorrelateAddr,
        "Correlate Address",
        "Convert between live process address, RVA, and Ghidra/static address using the main module base. Evidence only.",
        schema(properties, Some(Texts::new().and("pid"))),
    )
}

pub open spec fn locate_entry() -> JsonView {
    entry_shape(
        Tool::Locate.called(),
        "Locate String References"@,
        "Evidence chain matching original Argus: scan string, find pointers to it, keep executable refs, and return best-effort containing function starts."@,
        schema_shape(
            json::record()
                .push(("max_hits"@, number_or_shape(8)))
                .push(("pid"@, kind_described_shape("integer"@, "Target process id."@)))
                .push(
                    (
                        "query"@,
                        kind_described_shape("string"@, "String to locate in runtime memory."@),
                    ),
                ),
            Some(no_texts().push(JsonView::Text("pid"@)).push(JsonView::Text("query"@))),
        ),
    )
}

fn locate_tool() -> (json: Json)
    ensures
        json.deep_view() == locate_entry(),
{
    let properties = Fields::new()
        .with("max_hits", number_or(8))
        .with("pid", kind_described("integer", "Target process id."))
        .with("query", kind_described("string", "String to locate in runtime memory."));
    entry(
        Tool::Locate,
        "Locate String References",
        "Evidence chain matching original Argus: scan string, find pointers to it, keep executable refs, and return best-effort containing function starts.",
        schema(properties, Some(Texts::new().and("pid").and("query"))),
    )
}

pub open spec fn find_vtable_entry() -> JsonView {
    entry_shape(
        Tool::FindVtable.called(),
        "Find VTable"@,
        "Find x86 MSVC RTTI/vtable evidence: TypeDescriptor string, COL, vtable address, and method slots. Evidence only."@,
        schema_shape(
            json::record()
                .push(
                    (
                        "class_name"@,
                        kind_described_shape(
                            "string"@,
                            "Class name such as CPlayer, or a decorated RTTI name."@,
                        ),
                    ),
                )
                .push(("max_methods"@, number_or_shape(20)))
                .push(("pid"@, kind_described_shape("integer"@, "Target process id."@))),
            Some(no_texts().push(JsonView::Text("pid"@)).push(JsonView::Text("class_name"@))),
        ),
    )
}

fn find_vtable_tool() -> (json: Json)
    ensures
        json.deep_view() == find_vtable_entry(),
{
    let properties = Fields::new()
        .with(
            "class_name",
            kind_described("string", "Class name such as CPlayer, or a decorated RTTI name."),
        )
        .with("max_methods", number_or(20))
        .with("pid", kind_described("integer", "Target process id."));
    entry(
        Tool::FindVtable,
        "Find VTable",
        "Find x86 MSVC RTTI/vtable evidence: TypeDescriptor string, COL, vtable address, and method slots. Evidence only.",
        schema(properties, Some(Texts::new().and("pid").and("class_name"))),
    )
}

pub open spec fn diff_struct_entry() -> JsonView {
    entry_shape(
        Tool::DiffStruct.called(),
        "Diff Struct"@,
        "Overlay static struct fields from Hydra /structs/{name} or provided fields onto live memory and return raw field bytes plus pointer-region evidence."@,
        schema_shape(
            json::record()
                .push(("address"@, described_shape("Alias for live_address."@)))
                .push(
                    (
                        "fields"@,
                        kind_described_shape(
                            "array"@,
                            "Optional direct static fields with offset/name/type/length."@,
                        ),
                    ),
                )
                .push(
                    (
                        "hydra_port"@,
                        kind_described_shape(
                            "integer"@,
                            "Optional Hydra HTTP port; defaults to HYDRA_PORT or 8192."@,
                        ),
                    ),
                )
                .push(("live_address"@, described_shape("Live instance address."@)))
                .push(("max_fields"@, number_or_shape(64)))
                .push(("pid"@, kind_described_shape("integer"@, "Target process id."@)))
                .push(
                    (
                        "struct_name"@,
                        kind_described_shape("string"@, "Static struct/class name."@),
                    ),
                ),
            Some(no_texts().push(JsonView::Text("pid"@)).push(JsonView::Text("struct_name"@))),
        ),
    )
}

fn diff_struct_tool() -> (json: Json)
    ensures
        json.deep_view() == diff_struct_entry(),
{
    let properties = Fields::new()
        .with("address", described("Alias for live_address."))
        .with(
            "fields",
            kind_described("array", "Optional direct static fields with offset/name/type/length."),
        )
        .with(
            "hydra_port",
            kind_described("integer", "Optional Hydra HTTP port; defaults to HYDRA_PORT or 8192."),
        )
        .with("live_address", described("Live instance address."))
        .with("max_fields", number_or(64))
        .with("pid", kind_described("integer", "Target process id."))
        .with("struct_name", kind_described("string", "Static struct/class name."));
    entry(
        Tool::DiffStruct,
        "Diff Struct",
        "Overlay static struct fields from Hydra /structs/{name} or provided fields onto live memory and return raw field bytes plus pointer-region evidence.",
        schema(properties, Some(Texts::new().and("pid").and("struct_name"))),
    )
}

pub open spec fn record_hypothesis_entry() -> JsonView {
    entry_shape(
        Tool::RecordHypothesis.called(),
        "Record Hypothesis"@,
        "Append an unverified AI hypothesis to the evidence ledger. This only records the claim; it does not verify it."@,
        schema_shape(
            json::record()
                .push(("claim_type"@, of_kind_shape("string"@)))
                .push(("claim_value"@, of_kind_shape("string"@)))
                .push(("confidence"@, of_kind_shape("number"@)))
                .push(("entity"@, of_kind_shape("string"@)))
                .push(("ledger_path"@, of_kind_shape("string"@)))
                .push(("source"@, text_or_shape("llm"@))),
            Some(
                no_texts()
                    .push(JsonView::Text("entity"@))
                    .push(JsonView::Text("claim_type"@))
                    .push(JsonView::Text("claim_value"@)),
            ),
        ),
    )
}

fn record_hypothesis_tool() -> (json: Json)
    ensures
        json.deep_view() == record_hypothesis_entry(),
{
    let properties = Fields::new()
        .with("claim_type", of_kind("string"))
        .with("claim_value", of_kind("string"))
        .with("confidence", of_kind("number"))
        .with("entity", of_kind("string"))
        .with("ledger_path", of_kind("string"))
        .with("source", text_or("llm"));
    entry(
        Tool::RecordHypothesis,
        "Record Hypothesis",
        "Append an unverified AI hypothesis to the evidence ledger. This only records the claim; it does not verify it.",
        schema(properties, Some(Texts::new().and("entity").and("claim_type").and("claim_value"))),
    )
}

pub open spec fn add_evidence_entry() -> JsonView {
    entry_shape(
        Tool::AddEvidence.called(),
        "Add Evidence"@,
        "Attach external/static/dynamic evidence to an existing hypothesis record."@,
        schema_shape(
            json::record()
                .push(("addr"@, of_kind_shape("string"@)))
                .push(("detail"@, of_kind_shape("string"@)))
                .push(("hypothesis_id"@, of_kind_shape("integer"@)))
                .push(("kind"@, of_kind_shape("string"@)))
                .push(("ledger_path"@, of_kind_shape("string"@)))
                .push(("source"@, of_kind_shape("string"@))),
            Some(
                no_texts()
                    .push(JsonView::Text("hypothesis_id"@))
                    .push(JsonView::Text("kind"@))
                    .push(JsonView::Text("detail"@))
                    .push(JsonView::Text("source"@)),
            ),
        ),
    )
}

fn add_evidence_tool() -> (json: Json)
    ensures
        json.deep_view() == add_evidence_entry(),
{
    let properties = Fields::new()
        .with("addr", of_kind("string"))
        .with("detail", of_kind("string"))
        .with("hypothesis_id", of_kind("integer"))
        .with("kind", of_kind("string"))
        .with("ledger_path", of_kind("string"))
        .with("source", of_kind("string"));
    entry(
        Tool::AddEvidence,
        "Add Evidence",
        "Attach external/static/dynamic evidence to an existing hypothesis record.",
        schema(
            properties,
            Some(Texts::new().and("hypothesis_id").and("kind").and("detail").and("source")),
        ),
    )
}

pub open spec fn verify_hypothesis_entry() -> JsonView {
    entry_shape(
        Tool::VerifyHypothesis.called(),
        "Verify Hypothesis"@,
        "Mark a hypothesis as verified or contradicted. Contradictions add negative knowledge for later queries."@,
        schema_shape(
            json::record()
                .push(("hypothesis_id"@, of_kind_shape("integer"@)))
                .push(("ledger_path"@, of_kind_shape("string"@)))
                .push(("note"@, of_kind_shape("string"@)))
                .push(
                    (
                        "verdict"@,
                        choice_shape(
                            no_texts(
                            )
                                .push(JsonView::Text("verified"@))
                                .push(JsonView::Text("contradicted"@)),
                        ),
                    ),
                ),
            Some(
                no_texts().push(JsonView::Text("hypothesis_id"@)).push(JsonView::Text("verdict"@)),
            ),
        ),
    )
}

fn verify_hypothesis_tool() -> (json: Json)
    ensures
        json.deep_view() == verify_hypothesis_entry(),
{
    let properties = Fields::new()
        .with("hypothesis_id", of_kind("integer"))
        .with("ledger_path", of_kind("string"))
        .with("note", of_kind("string"))
        .with("verdict", choice(Texts::new().and("verified").and("contradicted")));
    entry(
        Tool::VerifyHypothesis,
        "Verify Hypothesis",
        "Mark a hypothesis as verified or contradicted. Contradictions add negative knowledge for later queries.",
        schema(properties, Some(Texts::new().and("hypothesis_id").and("verdict"))),
    )
}

pub open spec fn query_hypotheses_entry() -> JsonView {
    entry_shape(
        Tool::QueryHypotheses.called(),
        "Query Hypotheses"@,
        "Read the evidence ledger by entity/status/claim_type and include negative knowledge for an entity."@,
        schema_shape(
            json::record()
                .push(("claim_type"@, of_kind_shape("string"@)))
                .push(("entity"@, of_kind_shape("string"@)))
                .push(("ledger_path"@, of_kind_shape("string"@)))
                .push(("limit"@, number_or_shape(50)))
                .push(("status"@, of_kind_shape("string"@))),
            None,
        ),
    )
}

fn query_hypotheses_tool() -> (json: Json)
    ensures
        json.deep_view() == query_hypotheses_entry(),
{
    let properties = Fields::new()
        .with("claim_type", of_kind("string"))
        .with("entity", of_kind("string"))
        .with("ledger_path", of_kind("string"))
        .with("limit", number_or(50))
        .with("status", of_kind("string"));
    entry(
        Tool::QueryHypotheses,
        "Query Hypotheses",
        "Read the evidence ledger by entity/status/claim_type and include negative knowledge for an entity.",
        schema(properties, None),
    )
}

pub open spec fn real_rate_entry() -> JsonView {
    entry_shape(
        Tool::RealRate.called(),
        "Real Rate"@,
        "Return verified/total and counts by status/source/claim type from the evidence ledger."@,
        schema_shape(
            json::record()
                .push(("ledger_path"@, of_kind_shape("string"@))),
            None,
        ),
    )
}

fn real_rate_tool() -> (json: Json)
    ensures
        json.deep_view() == real_rate_entry(),
{
    let properties = Fields::new()
        .with("ledger_path", of_kind("string"));
    entry(
        Tool::RealRate,
        "Real Rate",
        "Return verified/total and counts by status/source/claim type from the evidence ledger.",
        schema(properties, None),
    )
}

pub open spec fn mem_attach_entry() -> JsonView {
    entry_shape(
        Tool::MemAttach.called(),
        "Attach Process"@,
        "Compatibility alias for original Argus mem_attach. Resolves a PID and returns base/module evidence, but keeps Rust Argus stateless."@,
        schema_shape(
            json::record()
                .push(("name"@, kind_described_shape("string"@, "Alias for process."@)))
                .push(("pid"@, kind_described_shape("integer"@, "Optional exact target PID."@)))
                .push(
                    (
                        "process"@,
                        kind_described_shape(
                            "string"@,
                            "Process image name or substring. Required unless pid is given."@,
                        ),
                    ),
                ),
            None,
        ),
    )
}

fn mem_attach_tool() -> (json: Json)
    ensures
        json.deep_view() == mem_attach_entry(),
{
    let properties = Fields::new()
        .with("name", kind_described("string", "Alias for process."))
        .with("pid", kind_described("integer", "Optional exact target PID."))
        .with(
            "process",
            kind_described(
                "string",
                "Process image name or substring. Required unless pid is given.",
            ),
        );
    entry(
        Tool::MemAttach,
        "Attach Process",
        "Compatibility alias for original Argus mem_attach. Resolves a PID and returns base/module evidence, but keeps Rust Argus stateless.",
        schema(properties, None),
    )
}

pub open spec fn mem_modules_entry() -> JsonView {
    entry_shape(
        Tool::MemModules.called(),
        "List Modules"@,
        "List target process modules with base addresses and image sizes for RVA correlation."@,
        schema_shape(
            json::record()
                .push(
                    (
                        "full"@,
                        flag_or_described_shape(false, "When true, prints the full module list."@),
                    ),
                )
                .push(
                    (
                        "max_results"@,
                        number_or_described_shape(16, "Text display cap when full=false."@),
                    ),
                )
                .push(("pid"@, kind_described_shape("integer"@, "Target process id."@))),
            Some(no_texts().push(JsonView::Text("pid"@))),
        ),
    )
}

fn mem_modules_tool() -> (json: Json)
    ensures
        json.deep_view() == mem_modules_entry(),
{
    let properties = Fields::new()
        .with("full", flag_or_described(false, "When true, prints the full module list."))
        .with("max_results", number_or_described(16, "Text display cap when full=false."))
        .with("pid", kind_described("integer", "Target process id."));
    entry(
        Tool::MemModules,
        "List Modules",
        "List target process modules with base addresses and image sizes for RVA correlation.",
        schema(properties, Some(Texts::new().and("pid"))),
    )
}

pub open spec fn memory_regions_entry() -> JsonView {
    entry_shape(
        Tool::MemoryRegions.called(),
        "List Memory Regions"@,
        "List committed runtime memory regions with base, size, kind, and protection flags so AI can distinguish image/private/executable/readable areas before scanning."@,
        schema_shape(
            json::record()
                .push(("limit"@, number_or_shape(512)))
                .push(("pid"@, kind_described_shape("integer"@, "Target process id."@))),
            Some(no_texts().push(JsonView::Text("pid"@))),
        ),
    )
}

fn memory_regions_tool() -> (json: Json)
    ensures
        json.deep_view() == memory_regions_entry(),
{
    let properties = Fields::new()
        .with("limit", number_or(512))
        .with("pid", kind_described("integer", "Target process id."));
    entry(
        Tool::MemoryRegions,
        "List Memory Regions",
        "List committed runtime memory regions with base, size, kind, and protection flags so AI can distinguish image/private/executable/readable areas before scanning.",
        schema(properties, Some(Texts::new().and("pid"))),
    )
}

pub open spec fn scan_string_entry() -> JsonView {
    entry_shape(
        Tool::ScanString.called(),
        "Scan String"@,
        "Scan readable runtime memory for an exact string. Supports UTF-8/UTF-16LE, case-insensitive matching, full uncapped scan, and CSV/JSON output files for large evidence sets."@,
        schema_shape(
            json::record()
                .push(
                    (
                        "address"@,
                        described_shape("Optional runtime address for targeted window scan."@),
                    ),
                )
                .push(("case_sensitive"@, flag_or_shape(true)))
                .push(
                    (
                        "encoding"@,
                        choice_or_shape(
                            "utf8"@,
                            no_texts(
                            )
                                .push(JsonView::Text("utf8"@))
                                .push(JsonView::Text("utf16le"@))
                                .push(JsonView::Text("both"@)),
                        ),
                    ),
                )
                .push(
                    (
                        "full"@,
                        flag_or_described_shape(
                            false,
                            "When true, scans all matching regions and writes all hits to out_path/default temp file."@,
                        ),
                    ),
                )
                .push(("max_results"@, number_or_shape(20)))
                .push(
                    (
                        "out_format"@,
                        choice_or_shape(
                            "csv"@,
                            no_texts().push(JsonView::Text("csv"@)).push(JsonView::Text("json"@)),
                        ),
                    ),
                )
                .push(
                    (
                        "out_path"@,
                        kind_described_shape(
                            "string"@,
                            "Optional CSV/JSON output path. When provided, all hits are written even if max_results is small."@,
                        ),
                    ),
                )
                .push(("pattern"@, kind_described_shape("string"@, "Exact text to search for."@)))
                .push(("pid"@, kind_described_shape("integer"@, "Target process id."@)))
                .push(
                    (
                        "region"@,
                        choice_or_shape(
                            "all"@,
                            no_texts(
                            )
                                .push(JsonView::Text("all"@))
                                .push(JsonView::Text("module"@))
                                .push(JsonView::Text("heap"@))
                                .push(JsonView::Text("executable"@)),
                        ),
                    ),
                )
                .push(
                    (
                        "size"@,
                        kind_described_shape(
                            "integer"@,
                            "Optional window byte size when address is provided."@,
                        ),
                    ),
                ),
            Some(no_texts().push(JsonView::Text("pid"@)).push(JsonView::Text("pattern"@))),
        ),
    )
}

fn scan_string_tool() -> (json: Json)
    ensures
        json.deep_view() == scan_string_entry(),
{
    let properties = Fields::new()
        .with("address", described("Optional runtime address for targeted window scan."))
        .with("case_sensitive", flag_or(true))
        .with("encoding", choice_or("utf8", Texts::new().and("utf8").and("utf16le").and("both")))
        .with(
            "full",
            flag_or_described(
                false,
                "When true, scans all matching regions and writes all hits to out_path/default temp file.",
            ),
        )
        .with("max_results", number_or(20))
        .with("out_format", choice_or("csv", Texts::new().and("csv").and("json")))
        .with(
            "out_path",
            kind_described(
                "string",
                "Optional CSV/JSON output path. When provided, all hits are written even if max_results is small.",
            ),
        )
        .with("pattern", kind_described("string", "Exact text to search for."))
        .with("pid", kind_described("integer", "Target process id."))
        .with(
            "region",
            choice_or("all", Texts::new().and("all").and("module").and("heap").and("executable")),
        )
        .with(
            "size",
            kind_described("integer", "Optional window byte size when address is provided."),
        );
    entry(
        Tool::ScanString,
        "Scan String",
        "Scan readable runtime memory for an exact string. Supports UTF-8/UTF-16LE, case-insensitive matching, full uncapped scan, and CSV/JSON output files for large evidence sets.",
        schema(properties, Some(Texts::new().and("pid").and("pattern"))),
    )
}

pub open spec fn scan_regex_entry() -> JsonView {
    entry_shape(
        Tool::ScanRegex.called(),
        "Scan Regex"@,
        "Scan readable runtime memory with a regex, for packet names such as C_[A-Za-z0-9_]+ or S_[A-Za-z0-9_]+. Supports UTF-8/UTF-16LE, mixed-case, full scan, and CSV/JSON output files."@,
        schema_shape(
            json::record()
                .push(
                    (
                        "address"@,
                        described_shape("Optional runtime address for targeted window scan."@),
                    ),
                )
                .push(("case_sensitive"@, flag_or_shape(true)))
                .push(
                    (
                        "encoding"@,
                        choice_or_shape(
                            "both"@,
                            no_texts(
                            )
                                .push(JsonView::Text("utf8"@))
                                .push(JsonView::Text("utf16le"@))
                                .push(JsonView::Text("both"@)),
                        ),
                    ),
                )
                .push(
                    (
                        "full"@,
                        flag_or_described_shape(
                            false,
                            "When true, scans all matching regions and writes all hits to out_path/default temp file."@,
                        ),
                    ),
                )
                .push(("max_results"@, number_or_shape(50)))
                .push(
                    (
                        "out_format"@,
                        choice_or_shape(
                            "csv"@,
                            no_texts().push(JsonView::Text("csv"@)).push(JsonView::Text("json"@)),
                        ),
                    ),
                )
                .push(
                    (
                        "out_path"@,
                        kind_described_shape(
                            "string"@,
                            "Optional CSV/JSON output path. When provided, all hits are written even if max_results is small."@,
                        ),
                    ),
                )
                .push(
                    (
                        "pattern"@,
                        kind_described_shape(
                            "string"@,
                            "Regex pattern, for example C_[A-Za-z0-9_]+|S_[A-Za-z0-9_]+."@,
                        ),
                    ),
                )
                .push(("pid"@, kind_described_shape("integer"@, "Target process id."@)))
                .push(
                    (
                        "region"@,
                        choice_or_shape(
                            "all"@,
                            no_texts(
                            )
                                .push(JsonView::Text("all"@))
                                .push(JsonView::Text("module"@))
                                .push(JsonView::Text("heap"@))
                                .push(JsonView::Text("executable"@)),
                        ),
                    ),
                )
                .push(
                    (
                        "size"@,
                        kind_described_shape(
                            "integer"@,
                            "Optional window byte size when address is provided."@,
                        ),
                    ),
                ),
            Some(no_texts().push(JsonView::Text("pid"@)).push(JsonView::Text("pattern"@))),
        ),
    )
}

fn scan_regex_tool() -> (json: Json)
    ensures
        json.deep_view() == scan_regex_entry(),
{
    let properties = Fields::new()
        .with("address", described("Optional runtime address for targeted window scan."))
        .with("case_sensitive", flag_or(true))
        .with("encoding", choice_or("both", Texts::new().and("utf8").and("utf16le").and("both")))
        .with(
            "full",
            flag_or_described(
                false,
                "When true, scans all matching regions and writes all hits to out_path/default temp file.",
            ),
        )
        .with("max_results", number_or(50))
        .with("out_format", choice_or("csv", Texts::new().and("csv").and("json")))
        .with(
            "out_path",
            kind_described(
                "string",
                "Optional CSV/JSON output path. When provided, all hits are written even if max_results is small.",
            ),
        )
        .with(
            "pattern",
            kind_described(
                "string",
                "Regex pattern, for example C_[A-Za-z0-9_]+|S_[A-Za-z0-9_]+.",
            ),
        )
        .with("pid", kind_described("integer", "Target process id."))
        .with(
            "region",
            choice_or("all", Texts::new().and("all").and("module").and("heap").and("executable")),
        )
        .with(
            "size",
            kind_described("integer", "Optional window byte size when address is provided."),
        );
    entry(
        Tool::ScanRegex,
        "Scan Regex",
        "Scan readable runtime memory with a regex, for packet names such as C_[A-Za-z0-9_]+ or S_[A-Za-z0-9_]+. Supports UTF-8/UTF-16LE, mixed-case, full scan, and CSV/JSON output files.",
        schema(properties, Some(Texts::new().and("pid").and("pattern"))),
    )
}

pub open spec fn scan_bytes_entry() -> JsonView {
    entry_shape(
        Tool::ScanBytes.called(),
        "Scan Bytes"@,
        "Scan runtime memory for an AOB pattern. Supports ?? wildcards. With address/size, scans a targeted window around an anchor to avoid capped global snapshot misses."@,
        schema_shape(
            json::record()
                .push(
                    (
                        "address"@,
                        described_shape("Optional runtime address for targeted window scan."@),
                    ),
                )
                .push(("max_results"@, number_or_shape(20)))
                .push(
                    (
                        "pattern"@,
                        kind_described_shape("string"@, "AOB pattern such as E8 ?? 34."@),
                    ),
                )
                .push(("pid"@, kind_described_shape("integer"@, "Target process id."@)))
                .push(
                    (
                        "region"@,
                        choice_or_shape(
                            "executable"@,
                            no_texts(
                            )
                                .push(JsonView::Text("executable"@))
                                .push(JsonView::Text("module"@))
                                .push(JsonView::Text("all"@)),
                        ),
                    ),
                )
                .push(
                    (
                        "size"@,
                        kind_described_shape(
                            "integer"@,
                            "Optional window byte size when address is provided."@,
                        ),
                    ),
                ),
            Some(no_texts().push(JsonView::Text("pid"@)).push(JsonView::Text("pattern"@))),
        ),
    )
}

fn scan_bytes_tool() -> (json: Json)
    ensures
        json.deep_view() == scan_bytes_entry(),
{
    let properties = Fields::new()
        .with("address", described("Optional runtime address for targeted window scan."))
        .with("max_results", number_or(20))
        .with("pattern", kind_described("string", "AOB pattern such as E8 ?? 34."))
        .with("pid", kind_described("integer", "Target process id."))
        .with(
            "region",
            choice_or("executable", Texts::new().and("executable").and("module").and("all")),
        )
        .with(
            "size",
            kind_described("integer", "Optional window byte size when address is provided."),
        );
    entry(
        Tool::ScanBytes,
        "Scan Bytes",
        "Scan runtime memory for an AOB pattern. Supports ?? wildcards. With address/size, scans a targeted window around an anchor to avoid capped global snapshot misses.",
        schema(properties, Some(Texts::new().and("pid").and("pattern"))),
    )
}

pub open spec fn scan_pointers_to_entry() -> JsonView {
    entry_shape(
        Tool::ScanPointersTo.called(),
        "Scan Pointers To"@,
        "Scan readable runtime memory for pointers to an address and return AI-first pointer evidence."@,
        schema_shape(
            json::record()
                .push(
                    (
                        "address"@,
                        described_shape("Target address as integer or 0x-prefixed string."@),
                    ),
                )
                .push(("max_results"@, number_or_shape(50)))
                .push(("pid"@, kind_described_shape("integer"@, "Target process id."@)))
                .push(
                    (
                        "region"@,
                        choice_or_shape(
                            "all"@,
                            no_texts(
                            )
                                .push(JsonView::Text("all"@))
                                .push(JsonView::Text("module"@))
                                .push(JsonView::Text("heap"@)),
                        ),
                    ),
                ),
            Some(no_texts().push(JsonView::Text("pid"@)).push(JsonView::Text("address"@))),
        ),
    )
}

fn scan_pointers_to_tool() -> (json: Json)
    ensures
        json.deep_view() == scan_pointers_to_entry(),
{
    let properties = Fields::new()
        .with("address", described("Target address as integer or 0x-prefixed string."))
        .with("max_results", number_or(50))
        .with("pid", kind_described("integer", "Target process id."))
        .with("region", choice_or("all", Texts::new().and("all").and("module").and("heap")));
    entry(
        Tool::ScanPointersTo,
        "Scan Pointers To",
        "Scan readable runtime memory for pointers to an address and return AI-first pointer evidence.",
        schema(properties, Some(Texts::new().and("pid").and("address"))),
    )
}

pub open spec fn scan_callers_entry() -> JsonView {
    entry_shape(
        Tool::ScanCallers.called(),
        "Scan Callers"@,
        "Scan executable readable regions for x86 E8/E9 rel32 callers or jumpers to a target address."@,
        schema_shape(
            json::record()
                .push(("address"@, described_shape("Alias for target."@)))
                .push(("max_results"@, number_or_shape(50)))
                .push(("pid"@, kind_described_shape("integer"@, "Target process id."@)))
                .push(
                    (
                        "target"@,
                        described_shape("Target address as integer or 0x-prefixed string."@),
                    ),
                ),
            Some(no_texts().push(JsonView::Text("pid"@))),
        ),
    )
}

fn scan_callers_tool() -> (json: Json)
    ensures
        json.deep_view() == scan_callers_entry(),
{
    let properties = Fields::new()
        .with("address", described("Alias for target."))
        .with("max_results", number_or(50))
        .with("pid", kind_described("integer", "Target process id."))
        .with("target", described("Target address as integer or 0x-prefixed string."));
    entry(
        Tool::ScanCallers,
        "Scan Callers",
        "Scan executable readable regions for x86 E8/E9 rel32 callers or jumpers to a target address.",
        schema(properties, Some(Texts::new().and("pid"))),
    )
}

pub open spec fn value_scan_start_entry() -> JsonView {
    entry_shape(
        Tool::ValueScanStart.called(),
        "Start Value Scan"@,
        "Start a typed value investigation scan. Returns candidates with evidence context for later refine/explain steps."@,
        schema_shape(
            json::record()
                .push(
                    (
                        "exact"@,
                        kind_described_shape("integer"@, "Exact numeric value to search for."@),
                    ),
                )
                .push(("max_results"@, number_or_shape(100)))
                .push(("pid"@, kind_described_shape("integer"@, "Target process id."@)))
                .push(("type"@, choice_shape(no_texts().push(JsonView::Text("u32"@))))),
            Some(
                no_texts()
                    .push(JsonView::Text("pid"@))
                    .push(JsonView::Text("type"@))
                    .push(JsonView::Text("exact"@)),
            ),
        ),
    )
}

fn value_scan_start_tool() -> (json: Json)
    ensures
        json.deep_view() == value_scan_start_entry(),
{
    let properties = Fields::new()
        .with("exact", kind_described("integer", "Exact numeric value to search for."))
        .with("max_results", number_or(100))
        .with("pid", kind_described("integer", "Target process id."))
        .with("type", choice(Texts::new().and("u32")));
    entry(
        Tool::ValueScanStart,
        "Start Value Scan",
        "Start a typed value investigation scan. Returns candidates with evidence context for later refine/explain steps.",
        schema(properties, Some(Texts::new().and("pid").and("type").and("exact"))),
    )
}

pub open spec fn value_scan_refine_entry() -> JsonView {
    entry_shape(
        Tool::ValueScanRefine.called(),
        "Refine Value Scan"@,
        "Refine value candidates using a fresh memory read. Refinements: changed, unchanged, increased, decreased, exact."@,
        schema_shape(
            json::record()
                .push(
                    (
                        "candidates"@,
                        kind_described_shape(
                            "array"@,
                            "Candidates returned by value_scan_start or value_scan_refine."@,
                        ),
                    ),
                )
                .push(
                    (
                        "exact"@,
                        kind_described_shape("integer"@, "Required when refinement is exact."@),
                    ),
                )
                .push(("pid"@, kind_described_shape("integer"@, "Target process id."@)))
                .push(
                    (
                        "refinement"@,
                        choice_shape(
                            no_texts(
                            )
                                .push(JsonView::Text("changed"@))
                                .push(JsonView::Text("unchanged"@))
                                .push(JsonView::Text("increased"@))
                                .push(JsonView::Text("decreased"@))
                                .push(JsonView::Text("exact"@)),
                        ),
                    ),
                )
                .push(("type"@, choice_shape(no_texts().push(JsonView::Text("u32"@))))),
            Some(
                no_texts()
                    .push(JsonView::Text("pid"@))
                    .push(JsonView::Text("type"@))
                    .push(JsonView::Text("refinement"@))
                    .push(JsonView::Text("candidates"@)),
            ),
        ),
    )
}

fn value_scan_refine_tool() -> (json: Json)
    ensures
        json.deep_view() == value_scan_refine_entry(),
{
    let properties = Fields::new()
        .with(
            "candidates",
            kind_described(
                "array",
                "Candidates returned by value_scan_start or value_scan_refine.",
            ),
        )
        .with("exact", kind_described("integer", "Required when refinement is exact."))
        .with("pid", kind_described("integer", "Target process id."))
        .with(
            "refinement",
            choice(
                Texts::new(
                ).and("changed").and("unchanged").and("increased").and("decreased").and("exact"),
            ),
        )
        .with("type", choice(Texts::new().and("u32")));
    entry(
        Tool::ValueScanRefine,
        "Refine Value Scan",
        "Refine value candidates using a fresh memory read. Refinements: changed, unchanged, increased, decreased, exact.",
        schema(
            properties,
            Some(Texts::new().and("pid").and("type").and("refinement").and("candidates")),
        ),
    )
}

pub open spec fn value_explain_entry() -> JsonView {
    entry_shape(
        Tool::ValueExplain.called(),
        "Explain Value Candidate"@,
        "Explain one value candidate as AI-first evidence with local bytes, region/module context, typed numeric value, and next-tool hints."@,
        schema_shape(
            json::record()
                .push(
                    (
                        "candidate"@,
                        kind_described_shape(
                            "object"@,
                            "One candidate from value_scan_start or value_scan_refine."@,
                        ),
                    ),
                )
                .push(("pid"@, kind_described_shape("integer"@, "Target process id."@))),
            Some(no_texts().push(JsonView::Text("pid"@)).push(JsonView::Text("candidate"@))),
        ),
    )
}

fn value_explain_tool() -> (json: Json)
    ensures
        json.deep_view() == value_explain_entry(),
{
    let properties = Fields::new()
        .with(
            "candidate",
            kind_described("object", "One candidate from value_scan_start or value_scan_refine."),
        )
        .with("pid", kind_described("integer", "Target process id."));
    entry(
        Tool::ValueExplain,
        "Explain Value Candidate",
        "Explain one value candidate as AI-first evidence with local bytes, region/module context, typed numeric value, and next-tool hints.",
        schema(properties, Some(Texts::new().and("pid").and("candidate"))),
    )
}

impl Tool {
    /// The tool as it is listed.
    pub open spec fn entry(self) -> JsonView {
        match self {
            Tool::ProcessesList => processes_list_entry(),
            Tool::ProcessesFind => processes_find_entry(),
            Tool::RuntimeImports => runtime_imports_entry(),
            Tool::RuntimeExports => runtime_exports_entry(),
            Tool::ResolveApiTargets => resolve_api_targets_entry(),
            Tool::ResolveIatThunks => resolve_iat_thunks_entry(),
            Tool::DisasmAt => disasm_at_entry(),
            Tool::AnalyzeFunction => analyze_function_entry(),
            Tool::ScanX86CallSites => scan_x86_call_sites_entry(),
            Tool::AnalyzeSendCallSites => analyze_send_call_sites_entry(),
            Tool::ExtractDispatchTables => extract_dispatch_tables_entry(),
            Tool::TraceCallChain => trace_call_chain_entry(),
            Tool::MemRead => mem_read_entry(),
            Tool::MemWrite => mem_write_entry(),
            Tool::MemReadChain => mem_read_chain_entry(),
            Tool::ReadStruct => read_struct_entry(),
            Tool::CorrelateAddr => correlate_addr_entry(),
            Tool::Locate => locate_entry(),
            Tool::FindVtable => find_vtable_entry(),
            Tool::DiffStruct => diff_struct_entry(),
            Tool::RecordHypothesis => record_hypothesis_entry(),
            Tool::AddEvidence => add_evidence_entry(),
            Tool::VerifyHypothesis => verify_hypothesis_entry(),
            Tool::QueryHypotheses => query_hypotheses_entry(),
            Tool::RealRate => real_rate_entry(),
            Tool::MemAttach => mem_attach_entry(),
            Tool::MemModules => mem_modules_entry(),
            Tool::MemoryRegions => memory_regions_entry(),
            Tool::ScanString => scan_string_entry(),
            Tool::ScanRegex => scan_regex_entry(),
            Tool::ScanBytes => scan_bytes_entry(),
            Tool::ScanPointersTo => scan_pointers_to_entry(),
            Tool::ScanCallers => scan_callers_entry(),
            Tool::ValueScanStart => value_scan_start_entry(),
            Tool::ValueScanRefine => value_scan_refine_entry(),
            Tool::ValueExplain => value_explain_entry(),
        }
    }

    /// The tool as it is listed.
    pub fn describe(self) -> (json: Json)
        ensures
            json.deep_view() == self.entry(),
    {
        match self {
            Tool::ProcessesList => processes_list_tool(),
            Tool::ProcessesFind => processes_find_tool(),
            Tool::RuntimeImports => runtime_imports_tool(),
            Tool::RuntimeExports => runtime_exports_tool(),
            Tool::ResolveApiTargets => resolve_api_targets_tool(),
            Tool::ResolveIatThunks => resolve_iat_thunks_tool(),
            Tool::DisasmAt => disasm_at_tool(),
            Tool::AnalyzeFunction => analyze_function_tool(),
            Tool::ScanX86CallSites => scan_x86_call_sites_tool(),
            Tool::AnalyzeSendCallSites => analyze_send_call_sites_tool(),
            Tool::ExtractDispatchTables => extract_dispatch_tables_tool(),
            Tool::TraceCallChain => trace_call_chain_tool(),
            Tool::MemRead => mem_read_tool(),
            Tool::MemWrite => mem_write_tool(),
            Tool::MemReadChain => mem_read_chain_tool(),
            Tool::ReadStruct => read_struct_tool(),
            Tool::CorrelateAddr => correlate_addr_tool(),
            Tool::Locate => locate_tool(),
            Tool::FindVtable => find_vtable_tool(),
            Tool::DiffStruct => diff_struct_tool(),
            Tool::RecordHypothesis => record_hypothesis_tool(),
            Tool::AddEvidence => add_evidence_tool(),
            Tool::VerifyHypothesis => verify_hypothesis_tool(),
            Tool::QueryHypotheses => query_hypotheses_tool(),
            Tool::RealRate => real_rate_tool(),
            Tool::MemAttach => mem_attach_tool(),
            Tool::MemModules => mem_modules_tool(),
            Tool::MemoryRegions => memory_regions_tool(),
            Tool::ScanString => scan_string_tool(),
            Tool::ScanRegex => scan_regex_tool(),
            Tool::ScanBytes => scan_bytes_tool(),
            Tool::ScanPointersTo => scan_pointers_to_tool(),
            Tool::ScanCallers => scan_callers_tool(),
            Tool::ValueScanStart => value_scan_start_tool(),
            Tool::ValueScanRefine => value_scan_refine_tool(),
            Tool::ValueExplain => value_explain_tool(),
        }
    }
}

fn describe_tool(tool: Tool) -> (json: Json)
    ensures
        json.deep_view() == tool.entry(),
{
    tool.describe()
}

/// The tools as they are listed.
pub open spec fn tool_list() -> JsonView {
    JsonView::Array(listed().map_values(|tool: Tool| tool.entry()))
}

/// The tools as they are listed.
pub fn tools() -> (json: Json)
    ensures
        json.deep_view() == tool_list(),
{
    Json::plain_list(&all_tools(), describe_tool, Ghost(|tool: Tool| tool.entry()))
}

/// What is listed under a tool has the tool's name, which calls it.
pub proof fn law_listed_tools_are_callable(i: int)
    requires
        0 <= i < listed().len(),
    ensures
        tool_list()->Array_0[i].get_text("name"@) == Some(listed()[i].called()),
        tool_called(listed()[i].called()) == Some(listed()[i]),
{
    let tool = listed()[i];
    law_tool_found_by_name(tool, tool.called());
    lemma_entry_name(tool);
}

proof fn lemma_shape_name(
    name: Seq<char>,
    title: Seq<char>,
    description: Seq<char>,
    schema: JsonView,
)
    ensures
        entry_shape(name, title, description, schema).get_text("name"@) == Some(name),
{
    reveal_strlit("name");
    reveal_strlit("description");
    reveal_strlit("inputSchema");
    let entry = entry_shape(name, title, description, schema);
    let fields = entry->Object_0;
    let wanted = json::field_named("name"@);
    seqs::lemma_first_from(fields, 0, wanted);
    assert(wanted(fields[2]));
    assert("description"@.len() == 11 && "name"@.len() == 4 && "inputSchema"@.len() == 11);
    assert(!wanted(fields[0]) && !wanted(fields[1]));
}

proof fn lemma_entry_name(tool: Tool)
    ensures
        tool.entry().get_text("name"@) == Some(tool.called()),
{
    let (title, description, schema) = choose|title: Seq<char>, description: Seq<char>, schema:
        JsonView| tool.entry() == #[trigger] entry_shape(tool.called(), title, description, schema);
    lemma_shape_name(tool.called(), title, description, schema);
}

} // verus!
