//! The report of each tool on a captured image.

use vstd::prelude::*;

use crate::analysis;
use crate::analysis::{AnalyzedFunction, AnalyzedFunctionView, X86CallSiteView};
use crate::aob;
use crate::aob::{ParseAobError, ParseAobErrorView};
use crate::arguments;
use crate::callers;
use crate::callers::LocateResult;
use crate::decode;
use crate::decode::RuntimeInstructionView;
use crate::dispatch;
use crate::dispatch::{DispatchTableCandidateView, DispatchTableEntry};
use crate::evidence::{Address, EvidenceHitView, TargetArch};
use crate::flow;
use crate::flow::{CallChainNodeView, SendCallSiteEvidenceView};
use crate::hits;
use crate::json;
use crate::json::{Fields, Json, JsonView};
use crate::memory::{ArgusEngine, MemoryView, ModuleInfo, ModuleInfoView};
use crate::pe;
use crate::pe::{IatThunkView, RuntimeExportView, RuntimeImportView};
use crate::processes;
use crate::processes::{
    MemAttachRequest, MemAttachRequestView, ResolveApiTargetsRequest, ResolveApiTargetsRequestView,
};
use crate::requests;
use crate::requests::{
    AnalyzeSendCallSitesRequest, CodeRequest, ExtractDispatchTablesRequest, FindVtableRequest,
    FindVtableRequestView, LocateRequest, LocateRequestView, MemModulesRequest, MemReadRequest,
    MemWriteRequest, MemWriteRequestView, MemoryRegionsRequest, ResolveIatThunksRequest,
    ResolveIatThunksRequestView, RuntimeExportsRequest, RuntimeExportsRequestView,
    RuntimeImportsRequest, RuntimeImportsRequestView, ScanBytesRequest, ScanBytesRequestView,
    ScanCallersRequest, ScanPointersToRequest, ScanTextRequest, ScanTextRequestView,
    ScanX86CallSitesRequest, TraceCallChainRequest, ValueScanRefineRequest,
    ValueScanRefineRequestView, ValueScanStartRequest,
};
use crate::rtti;
use crate::search;
use crate::seqs;
use crate::shapes;
use crate::snapshot::{MemoryRegionInfo, ProcessInfo, ProcessInfoView, SnapshotScope};
use crate::text;
use crate::text_scan::TextHitView;
use crate::text_session::TextScan;
use crate::values;
use crate::values::{ValueCandidate, ValuePredicate, ValueScanSession};

verus! {

/// Pieces of evidence as values.
pub open spec fn hits_json(hits: Seq<EvidenceHitView>) -> JsonView {
    JsonView::Array(hits.map_values(|hit: EvidenceHitView| shapes::hit_json(hit)))
}

/// The report of a read of memory; memory that is not in the image cannot be read.
pub open spec fn mem_read_report_of(memory: MemoryView, request: MemReadRequest) -> Result<
    JsonView,
    Seq<char>,
> {
    match hits::mem_read_hit(memory, request.address, request.size as int) {
        Some(hit) => Ok(
            JsonView::Object(
                json::record()
                    .push(("hit"@, shapes::hit_json(hit)))
                    .push(("tool"@, JsonView::Text("mem_read"@))),
            ),
        ),
        None => Err("address not readable: "@ + text::prefixed_hex(request.address.0 as nat)),
    }
}

pub fn mem_read_report(engine: &ArgusEngine, request: MemReadRequest) -> (result: Result<
    Json,
    String,
>)
    ensures
        requests::asked(result) == mem_read_report_of(engine.memory(), request),
{
    match engine.mem_read(request.address, request.size) {
        Some(hit) => Ok(
            Fields::new()
                .with("hit", shapes::hit_to_json(&hit))
                .with("tool", Json::text("mem_read"))
                .object(),
        ),
        None => {
            let shown = text::hex(request.address.0);
            Err(arguments::message("address not readable: ", &shown))
        },
    }
}

/// The report of a write of memory.
pub open spec fn mem_write_report_of(request: MemWriteRequestView, written: int) -> JsonView {
    JsonView::Object(
        json::record()
            .push(("address"@, shapes::address_json(request.address)))
            .push(("bytes"@, json::byte_list(request.bytes)))
            .push(("bytes_written"@, JsonView::Unsigned(written as u64)))
            .push(("tool"@, JsonView::Text("mem_write"@))),
    )
}

pub fn mem_write_report(request: &MemWriteRequest, written: usize) -> (report: Json)
    ensures
        report.deep_view() == mem_write_report_of(request.deep_view(), written as int),
{
    Fields::new()
        .with("address", shapes::address_to_json(request.address))
        .with("bytes", Json::bytes(&request.bytes))
        .with("bytes_written", Json::Unsigned(written as u64))
        .with("tool", Json::text("mem_write"))
        .object()
}

/// The report of what refers to a text.
pub open spec fn locate_report_of(
    memory: MemoryView,
    arch: TargetArch,
    request: LocateRequestView,
) -> JsonView {
    let results = seqs::capped(
        callers::located(memory, arch, request.query),
        request.max_hits as int,
    );
    JsonView::Object(
        json::record()
            .push(("count"@, JsonView::Unsigned(results.len() as u64)))
            .push(("query"@, JsonView::Text(request.query)))
            .push(
                (
                    "results"@,
                    JsonView::Array(
                        results.map_values(|item: LocateResult| shapes::located_json(item)),
                    ),
                ),
            )
            .push(("tool"@, JsonView::Text("locate"@))),
    )
}

pub fn locate_report(engine: &ArgusEngine, request: &LocateRequest) -> (report: Json)
    ensures
        report.deep_view() == locate_report_of(engine.memory(), engine.arch(), request.deep_view()),
{
    let results = engine.locate(&request.query, request.max_hits);
    Fields::new()
        .with("count", Json::Unsigned(results.len() as u64))
        .with("query", Json::text(&request.query))
        .with(
            "results",
            Json::plain_list(
                &results,
                shapes::located_to_json,
                Ghost(|item: LocateResult| shapes::located_json(item)),
            ),
        )
        .with("tool", Json::text("locate"))
        .object()
}

/// The report of a class.
pub open spec fn find_vtable_report_of(
    memory: MemoryView,
    arch: TargetArch,
    request: FindVtableRequestView,
) -> JsonView {
    let evidence = rtti::class_evidence(
        memory,
        arch,
        request.class_name,
        request.max_methods as int,
    );
    JsonView::Object(
        json::record()
            .push(("evidence"@, shapes::vtable_json(evidence)))
            .push(("tool"@, JsonView::Text("find_vtable"@))),
    )
}

pub fn find_vtable_report(engine: &ArgusEngine, request: &FindVtableRequest) -> (report: Json)
    ensures
        report.deep_view() == find_vtable_report_of(
            engine.memory(),
            engine.arch(),
            request.deep_view(),
        ),
{
    let evidence = engine.find_vtable(&request.class_name, request.max_methods);
    Fields::new()
        .with("evidence", shapes::vtable_to_json(&evidence))
        .with("tool", Json::text("find_vtable"))
        .object()
}

/// The report of imports.
pub open spec fn runtime_imports_report_of(
    memory: MemoryView,
    arch: TargetArch,
    request: RuntimeImportsRequestView,
) -> JsonView {
    let imports = processes::filtered_imports(
        pe::selected_imports(
            memory,
            request.module_name,
            processes::import_reach(request.max_results) as int,
        ),
        request.name_contains,
        request.dll_contains,
        request.max_results,
    );
    JsonView::Object(
        json::record()
            .push(("import_count"@, JsonView::Unsigned(imports.len() as u64)))
            .push(
                (
                    "imports"@,
                    JsonView::Array(
                        imports.map_values(|item: RuntimeImportView| shapes::import_json(item)),
                    ),
                ),
            )
            .push(("tool"@, JsonView::Text("runtime_imports"@))),
    )
}

pub fn runtime_imports_report(
    engine: &ArgusEngine,
    request: &RuntimeImportsRequest,
) -> (report: Json)
    ensures
        report.deep_view() == runtime_imports_report_of(
            engine.memory(),
            engine.arch(),
            request.deep_view(),
        ),
{
    let read = engine.runtime_imports(
        name_of(&request.module_name),
        processes::imports_to_read(request.max_results),
    );
    let imports = processes::filter_imports(
        &read,
        &request.name_contains,
        &request.dll_contains,
        request.max_results,
    );
    proof {
        assert(imports.deep_view().len() == imports@.len());
    }
    Fields::new()
        .with("import_count", Json::Unsigned(imports.len() as u64))
        .with(
            "imports",
            Json::list_of(
                &imports,
                shapes::import_to_json,
                Ghost(|item: RuntimeImportView| shapes::import_json(item)),
            ),
        )
        .with("tool", Json::text("runtime_imports"))
        .object()
}

/// The report of exports.
pub open spec fn runtime_exports_report_of(
    memory: MemoryView,
    arch: TargetArch,
    request: RuntimeExportsRequestView,
) -> JsonView {
    let exports = seqs::capped(
        pe::selected_exports(memory, request.module_name, request.name_contains),
        request.max_results as int,
    );
    JsonView::Object(
        json::record()
            .push(("export_count"@, JsonView::Unsigned(exports.len() as u64)))
            .push(
                (
                    "exports"@,
                    JsonView::Array(
                        exports.map_values(|item: RuntimeExportView| shapes::export_json(item)),
                    ),
                ),
            )
            .push(("tool"@, JsonView::Text("runtime_exports"@))),
    )
}

pub fn runtime_exports_report(
    engine: &ArgusEngine,
    request: &RuntimeExportsRequest,
) -> (report: Json)
    ensures
        report.deep_view() == runtime_exports_report_of(
            engine.memory(),
            engine.arch(),
            request.deep_view(),
        ),
{
    let exports = engine.runtime_exports(
        name_of(&request.module_name),
        name_of(&request.name_contains),
        request.max_results,
    );
    proof {
        assert(exports.deep_view().len() == exports@.len());
    }
    Fields::new()
        .with("export_count", Json::Unsigned(exports.len() as u64))
        .with(
            "exports",
            Json::list_of(
                &exports,
                shapes::export_to_json,
                Ghost(|item: RuntimeExportView| shapes::export_json(item)),
            ),
        )
        .with("tool", Json::text("runtime_exports"))
        .object()
}

/// The report of what an API name leads to.
pub open spec fn resolve_api_targets_report_of(
    memory: MemoryView,
    arch: TargetArch,
    request: ResolveApiTargetsRequestView,
) -> JsonView {
    let targets = seqs::capped(
        pe::selected_exports(memory, request.module_name, Some(request.name_contains)),
        request.max_results as int,
    );
    let query = JsonView::Object(
        json::record()
            .push(("module_name"@, json::optional_text(request.module_name)))
            .push(("name_contains"@, JsonView::Text(request.name_contains))),
    );
    JsonView::Object(
        json::record()
            .push(("query"@, query))
            .push(("target_count"@, JsonView::Unsigned(targets.len() as u64)))
            .push(
                (
                    "targets"@,
                    JsonView::Array(
                        targets.map_values(|item: RuntimeExportView| shapes::export_json(item)),
                    ),
                ),
            )
            .push(("tool"@, JsonView::Text("resolve_api_targets"@))),
    )
}

pub fn resolve_api_targets_report(
    engine: &ArgusEngine,
    request: &ResolveApiTargetsRequest,
) -> (report: Json)
    ensures
        report.deep_view() == resolve_api_targets_report_of(
            engine.memory(),
            engine.arch(),
            request.deep_view(),
        ),
{
    let targets = engine.runtime_exports(
        name_of(&request.module_name),
        Some(request.name_contains.as_str()),
        request.max_results,
    );
    let query = Fields::new()
        .with("module_name", Json::optional_text(&request.module_name))
        .with("name_contains", Json::text(&request.name_contains))
        .object();
    proof {
        assert(targets.deep_view().len() == targets@.len());
    }
    Fields::new()
        .with("query", query)
        .with("target_count", Json::Unsigned(targets.len() as u64))
        .with(
            "targets",
            Json::list_of(
                &targets,
                shapes::export_to_json,
                Ghost(|item: RuntimeExportView| shapes::export_json(item)),
            ),
        )
        .with("tool", Json::text("resolve_api_targets"))
        .object()
}

/// The report of thunks.
pub open spec fn resolve_iat_thunks_report_of(
    memory: MemoryView,
    arch: TargetArch,
    request: ResolveIatThunksRequestView,
) -> JsonView {
    let thunks = seqs::capped(
        pe::selected_imports(memory, request.module_name, request.max_results as int).flat_map(
            pe::thunks_of(memory, arch, request.name_contains),
        ),
        request.max_results as int,
    );
    JsonView::Object(
        json::record()
            .push(("thunk_count"@, JsonView::Unsigned(thunks.len() as u64)))
            .push(
                (
                    "thunks"@,
                    JsonView::Array(
                        thunks.map_values(|item: IatThunkView| shapes::thunk_json(item)),
                    ),
                ),
            )
            .push(("tool"@, JsonView::Text("resolve_iat_thunks"@))),
    )
}

pub fn resolve_iat_thunks_report(
    engine: &ArgusEngine,
    request: &ResolveIatThunksRequest,
) -> (report: Json)
    ensures
        report.deep_view() == resolve_iat_thunks_report_of(
            engine.memory(),
            engine.arch(),
            request.deep_view(),
        ),
{
    let thunks = engine.resolve_iat_thunks(
        name_of(&request.module_name),
        name_of(&request.name_contains),
        request.max_results,
    );
    proof {
        assert(thunks.deep_view().len() == thunks@.len());
    }
    Fields::new()
        .with("thunk_count", Json::Unsigned(thunks.len() as u64))
        .with(
            "thunks",
            Json::list_of(
                &thunks,
                shapes::thunk_to_json,
                Ghost(|item: IatThunkView| shapes::thunk_json(item)),
            ),
        )
        .with("tool", Json::text("resolve_iat_thunks"))
        .object()
}

/// The report of instructions.
pub open spec fn disasm_at_report_of(
    memory: MemoryView,
    arch: TargetArch,
    request: CodeRequest,
) -> JsonView {
    let instructions = decode::disassembly(memory, arch, request.address, request.count as int);
    JsonView::Object(
        json::record()
            .push(("address"@, shapes::address_json(request.address)))
            .push(("instruction_count"@, JsonView::Unsigned(instructions.len() as u64)))
            .push(
                (
                    "instructions"@,
                    JsonView::Array(
                        instructions.map_values(
                            |item: RuntimeInstructionView| shapes::instruction_json(item),
                        ),
                    ),
                ),
            )
            .push(("snapshot_source"@, JsonView::Text("window"@)))
            .push(("tool"@, JsonView::Text("disasm_at"@)))
            .push(("window_size"@, JsonView::Unsigned(request.window_size as u64))),
    )
}

pub fn disasm_at_report(engine: &ArgusEngine, request: CodeRequest) -> (report: Json)
    ensures
        report.deep_view() == disasm_at_report_of(engine.memory(), engine.arch(), request),
{
    let instructions = engine.disasm_at(request.address, request.count);
    proof {
        assert(instructions.deep_view().len() == instructions@.len());
    }
    Fields::new()
        .with("address", shapes::address_to_json(request.address))
        .with("instruction_count", Json::Unsigned(instructions.len() as u64))
        .with(
            "instructions",
            Json::list_of(
                &instructions,
                shapes::instruction_to_json,
                Ghost(|item: RuntimeInstructionView| shapes::instruction_json(item)),
            ),
        )
        .with("snapshot_source", Json::text("window"))
        .with("tool", Json::text("disasm_at"))
        .with("window_size", Json::Unsigned(request.window_size as u64))
        .object()
}

/// The report of a function.
pub open spec fn analyze_function_report_of(
    memory: MemoryView,
    arch: TargetArch,
    request: CodeRequest,
) -> JsonView {
    let function = analysis::function_of(
        request.address,
        decode::function_body(memory, arch, request.address, request.count as int),
    );
    JsonView::Object(
        json::record()
            .push(("address"@, shapes::address_json(request.address)))
            .push(("function"@, maybe_function(function)))
            .push(("snapshot_source"@, JsonView::Text("window"@)))
            .push(("tool"@, JsonView::Text("analyze_function"@)))
            .push(("window_size"@, JsonView::Unsigned(request.window_size as u64))),
    )
}

pub fn analyze_function_report(engine: &ArgusEngine, request: CodeRequest) -> (report: Json)
    ensures
        report.deep_view() == analyze_function_report_of(engine.memory(), engine.arch(), request),
{
    let function = engine.analyze_function(request.address, request.count);
    Fields::new()
        .with("address", shapes::address_to_json(request.address))
        .with("function", maybe_function_to_json(&function))
        .with("snapshot_source", Json::text("window"))
        .with("tool", Json::text("analyze_function"))
        .with("window_size", Json::Unsigned(request.window_size as u64))
        .object()
}

/// The report of calls.
pub open spec fn scan_x86_call_sites_report_of(
    memory: MemoryView,
    arch: TargetArch,
    request: ScanX86CallSitesRequest,
) -> JsonView {
    let call_sites = analysis::call_sites(
        memory,
        arch,
        request.target,
        request.max_results as int,
    );
    JsonView::Object(
        json::record()
            .push(("call_site_count"@, JsonView::Unsigned(call_sites.len() as u64)))
            .push(
                (
                    "call_sites"@,
                    JsonView::Array(
                        call_sites.map_values(|item: X86CallSiteView| shapes::call_site_json(item)),
                    ),
                ),
            )
            .push(("snapshot_scope"@, JsonView::Text(SnapshotScope::Executable.name())))
            .push(("target"@, shapes::address_json(request.target)))
            .push(("tool"@, JsonView::Text("scan_x86_call_sites"@))),
    )
}

pub fn scan_x86_call_sites_report(
    engine: &ArgusEngine,
    request: ScanX86CallSitesRequest,
) -> (report: Json)
    ensures
        report.deep_view() == scan_x86_call_sites_report_of(
            engine.memory(),
            engine.arch(),
            request,
        ),
{
    let call_sites = engine.scan_x86_call_sites(request.target, request.max_results);
    proof {
        assert(call_sites.deep_view().len() == call_sites@.len());
    }
    Fields::new()
        .with("call_site_count", Json::Unsigned(call_sites.len() as u64))
        .with(
            "call_sites",
            Json::list_of(
                &call_sites,
                shapes::call_site_to_json,
                Ghost(|item: X86CallSiteView| shapes::call_site_json(item)),
            ),
        )
        .with("snapshot_scope", Json::text(SnapshotScope::Executable.label()))
        .with("target", shapes::address_to_json(request.target))
        .with("tool", Json::text("scan_x86_call_sites"))
        .object()
}

/// The report of calls that send.
pub open spec fn analyze_send_call_sites_report_of(
    memory: MemoryView,
    arch: TargetArch,
    request: AnalyzeSendCallSitesRequest,
) -> JsonView {
    let call_sites = analysis::call_sites(
        memory,
        arch,
        request.target,
        request.max_results as int,
    ).map_values(
        flow::send_evidence_at(
            memory,
            arch,
            request.max_preceding_instructions as int,
            request.backward_bytes as int,
        ),
    );
    JsonView::Object(
        json::record()
            .push(("backward_bytes"@, JsonView::Unsigned(request.backward_bytes as u64)))
            .push(("call_site_count"@, JsonView::Unsigned(call_sites.len() as u64)))
            .push(
                (
                    "call_sites"@,
                    JsonView::Array(
                        call_sites.map_values(
                            |item: SendCallSiteEvidenceView| shapes::send_site_json(item),
                        ),
                    ),
                ),
            )
            .push(
                (
                    "max_preceding_instructions"@,
                    JsonView::Unsigned(request.max_preceding_instructions as u64),
                ),
            )
            .push(("snapshot_scope"@, JsonView::Text(SnapshotScope::Executable.name())))
            .push(("target"@, shapes::address_json(request.target)))
            .push(("tool"@, JsonView::Text("analyze_send_call_sites"@))),
    )
}

pub fn analyze_send_call_sites_report(
    engine: &ArgusEngine,
    request: AnalyzeSendCallSitesRequest,
) -> (report: Json)
    ensures
        report.deep_view() == analyze_send_call_sites_report_of(
            engine.memory(),
            engine.arch(),
            request,
        ),
{
    let call_sites = engine.analyze_send_call_sites(
        request.target,
        request.max_results,
        request.max_preceding_instructions,
        request.backward_bytes,
    );
    proof {
        assert(call_sites.deep_view().len() == call_sites@.len());
    }
    Fields::new()
        .with("backward_bytes", Json::Unsigned(request.backward_bytes as u64))
        .with("call_site_count", Json::Unsigned(call_sites.len() as u64))
        .with(
            "call_sites",
            Json::list_of(
                &call_sites,
                shapes::send_site_to_json,
                Ghost(|item: SendCallSiteEvidenceView| shapes::send_site_json(item)),
            ),
        )
        .with(
            "max_preceding_instructions",
            Json::Unsigned(request.max_preceding_instructions as u64),
        )
        .with("snapshot_scope", Json::text(SnapshotScope::Executable.label()))
        .with("target", shapes::address_to_json(request.target))
        .with("tool", Json::text("analyze_send_call_sites"))
        .object()
}

/// The report of the tables of a dispatcher.
pub open spec fn extract_dispatch_tables_report_of(
    memory: MemoryView,
    arch: TargetArch,
    request: ExtractDispatchTablesRequest,
) -> JsonView {
    let evidence = dispatch::tables_of(
        memory,
        arch,
        request.dispatcher,
        decode::disassembly(memory, arch, request.dispatcher, request.max_insn as int),
        request.max_entries as int,
        request.index_table,
        request.jump_table,
    );
    JsonView::Object(
        json::record()
            .push(
                (
                    "candidates"@,
                    JsonView::Array(
                        evidence.candidates.map_values(
                            |item: DispatchTableCandidateView| shapes::candidate_json(item),
                        ),
                    ),
                ),
            )
            .push(("dispatcher"@, shapes::address_json(evidence.dispatcher)))
            .push(
                (
                    "entries"@,
                    JsonView::Array(
                        evidence.entries.map_values(
                            |item: DispatchTableEntry| shapes::entry_json(item),
                        ),
                    ),
                ),
            )
            .push(("entry_count"@, JsonView::Unsigned(evidence.entries.len() as u64)))
            .push(("index_table"@, shapes::maybe_address(evidence.index_table)))
            .push(("jump_table"@, shapes::maybe_address(evidence.jump_table)))
            .push(("max_entries"@, JsonView::Unsigned(request.max_entries as u64)))
            .push(("max_insn"@, JsonView::Unsigned(request.max_insn as u64)))
            .push(("tool"@, JsonView::Text("extract_dispatch_tables"@))),
    )
}

pub fn extract_dispatch_tables_report(
    engine: &ArgusEngine,
    request: ExtractDispatchTablesRequest,
) -> (report: Json)
    ensures
        report.deep_view() == extract_dispatch_tables_report_of(
            engine.memory(),
            engine.arch(),
            request,
        ),
{
    let evidence = engine.extract_dispatch_tables(
        request.dispatcher,
        request.max_insn,
        request.max_entries,
        request.index_table,
        request.jump_table,
    );
    Fields::new()
        .with(
            "candidates",
            Json::list_of(
                &evidence.candidates,
                shapes::candidate_to_json,
                Ghost(|item: DispatchTableCandidateView| shapes::candidate_json(item)),
            ),
        )
        .with("dispatcher", shapes::address_to_json(evidence.dispatcher))
        .with(
            "entries",
            Json::plain_list(
                &evidence.entries,
                shapes::entry_to_json,
                Ghost(|item: DispatchTableEntry| shapes::entry_json(item)),
            ),
        )
        .with("entry_count", Json::Unsigned(evidence.entries.len() as u64))
        .with("index_table", shapes::maybe_address_to_json(evidence.index_table))
        .with("jump_table", shapes::maybe_address_to_json(evidence.jump_table))
        .with("max_entries", Json::Unsigned(request.max_entries as u64))
        .with("max_insn", Json::Unsigned(request.max_insn as u64))
        .with("tool", Json::text("extract_dispatch_tables"))
        .object()
}

/// The report of the calls that lead to an address.
pub open spec fn trace_call_chain_report_of(
    memory: MemoryView,
    arch: TargetArch,
    request: TraceCallChainRequest,
) -> JsonView {
    let chain = flow::call_chain(
        memory,
        arch,
        request.target,
        request.max_depth as int,
        request.max_callers_per_depth as int,
    );
    JsonView::Object(
        json::record()
            .push(
                (
                    "chain"@,
                    JsonView::Array(
                        chain.map_values(|item: CallChainNodeView| shapes::chain_node_json(item)),
                    ),
                ),
            )
            .push(("depth_count"@, JsonView::Unsigned(chain.len() as u64)))
            .push(("snapshot_scope"@, JsonView::Text(SnapshotScope::Executable.name())))
            .push(("target"@, shapes::address_json(request.target)))
            .push(("tool"@, JsonView::Text("trace_call_chain"@))),
    )
}

pub fn trace_call_chain_report(
    engine: &ArgusEngine,
    request: TraceCallChainRequest,
) -> (report: Json)
    ensures
        report.deep_view() == trace_call_chain_report_of(engine.memory(), engine.arch(), request),
{
    let chain = engine.trace_call_chain(
        request.target,
        request.max_depth,
        request.max_callers_per_depth,
    );
    proof {
        assert(chain.deep_view().len() == chain@.len());
    }
    Fields::new()
        .with(
            "chain",
            Json::list_of(
                &chain,
                shapes::chain_node_to_json,
                Ghost(|item: CallChainNodeView| shapes::chain_node_json(item)),
            ),
        )
        .with("depth_count", Json::Unsigned(chain.len() as u64))
        .with("snapshot_scope", Json::text(SnapshotScope::Executable.label()))
        .with("target", shapes::address_to_json(request.target))
        .with("tool", Json::text("trace_call_chain"))
        .object()
}

/// The report of pointers.
pub open spec fn scan_pointers_to_report_of(
    memory: MemoryView,
    arch: TargetArch,
    request: ScanPointersToRequest,
) -> JsonView {
    let found = seqs::capped(
        search::pointer_hits(memory, arch, request.address),
        request.max_results as int,
    );
    JsonView::Object(
        json::record()
            .push(("address"@, shapes::address_json(request.address)))
            .push(("hit_count"@, JsonView::Unsigned(found.len() as u64)))
            .push(("hits"@, hits_json(found)))
            .push(("scan_scope"@, JsonView::Text(request.region.name())))
            .push(("tool"@, JsonView::Text("scan_pointers_to"@))),
    )
}

pub fn scan_pointers_to_report(
    engine: &ArgusEngine,
    request: ScanPointersToRequest,
) -> (report: Json)
    ensures
        report.deep_view() == scan_pointers_to_report_of(engine.memory(), engine.arch(), request),
{
    let found = engine.scan_pointers_to(request.address, request.max_results);
    proof {
        assert(found.deep_view().len() == found@.len());
    }
    Fields::new()
        .with("address", shapes::address_to_json(request.address))
        .with("hit_count", Json::Unsigned(found.len() as u64))
        .with("hits", hits_to_json(&found))
        .with("scan_scope", Json::text(request.region.label()))
        .with("tool", Json::text("scan_pointers_to"))
        .object()
}

/// The report of callers.
pub open spec fn scan_callers_report_of(
    memory: MemoryView,
    arch: TargetArch,
    request: ScanCallersRequest,
) -> JsonView {
    let found = seqs::capped(
        callers::caller_hits(memory, arch, request.target),
        request.max_results as int,
    );
    JsonView::Object(
        json::record()
            .push(("hit_count"@, JsonView::Unsigned(found.len() as u64)))
            .push(("hits"@, hits_json(found)))
            .push(("snapshot_scope"@, JsonView::Text(SnapshotScope::Executable.name())))
            .push(("target"@, shapes::address_json(request.target)))
            .push(("tool"@, JsonView::Text("scan_callers"@))),
    )
}

pub fn scan_callers_report(engine: &ArgusEngine, request: ScanCallersRequest) -> (report: Json)
    ensures
        report.deep_view() == scan_callers_report_of(engine.memory(), engine.arch(), request),
{
    let found = engine.scan_callers(request.target, request.max_results);
    proof {
        assert(found.deep_view().len() == found@.len());
    }
    Fields::new()
        .with("hit_count", Json::Unsigned(found.len() as u64))
        .with("hits", hits_to_json(&found))
        .with("snapshot_scope", Json::text(SnapshotScope::Executable.label()))
        .with("target", shapes::address_to_json(request.target))
        .with("tool", Json::text("scan_callers"))
        .object()
}

/// The report of the places that hold a value.
pub open spec fn value_scan_start_report_of(
    memory: MemoryView,
    arch: TargetArch,
    request: ValueScanStartRequest,
) -> JsonView {
    let candidates = seqs::capped(
        values::start_candidates(
            memory,
            request.value_type,
            ValuePredicate::ExactU64(request.exact),
        ),
        request.max_results as int,
    );
    JsonView::Object(
        json::record()
            .push(("candidate_count"@, JsonView::Unsigned(candidates.len() as u64)))
            .push(
                (
                    "candidates"@,
                    JsonView::Array(
                        candidates.map_values(
                            |item: ValueCandidate| shapes::value_candidate_json(item),
                        ),
                    ),
                ),
            )
            .push(("exact"@, JsonView::Unsigned(request.exact as u64)))
            .push(("tool"@, JsonView::Text("value_scan_start"@)))
            .push(("type"@, JsonView::Text(request.value_type.type_label()))),
    )
}

pub fn value_scan_start_report(
    engine: &ArgusEngine,
    request: ValueScanStartRequest,
) -> (report: Json)
    ensures
        report.deep_view() == value_scan_start_report_of(engine.memory(), engine.arch(), request),
{
    let session = engine.value_scan_start(
        request.value_type,
        ValuePredicate::ExactU64(request.exact),
        request.max_results,
    );
    let candidates = session.candidates;
    Fields::new()
        .with("candidate_count", Json::Unsigned(candidates.len() as u64))
        .with(
            "candidates",
            Json::plain_list(
                &candidates,
                shapes::value_candidate_to_json,
                Ghost(|item: ValueCandidate| shapes::value_candidate_json(item)),
            ),
        )
        .with("exact", Json::Unsigned(request.exact as u64))
        .with("tool", Json::text("value_scan_start"))
        .with("type", Json::text(request.value_type.name()))
        .object()
}

fn hits_to_json(hits: &Vec<crate::evidence::EvidenceHit>) -> (json: Json)
    ensures
        json.deep_view() == hits_json(hits.deep_view()),
{
    Json::list_of(
        hits,
        shapes::hit_to_json,
        Ghost(|hit: EvidenceHitView| shapes::hit_json(hit)),
    )
}

fn name_of(name: &Option<String>) -> (result: Option<&str>)
    ensures
        result.deep_view() == name.deep_view(),
{
    match name {
        Some(name) => Some(name.as_str()),
        None => None,
    }
}

/// A function, or null where there is none.
pub open spec fn maybe_function(function: Option<AnalyzedFunctionView>) -> JsonView {
    match function {
        Some(function) => shapes::function_json(function),
        None => JsonView::Null,
    }
}

fn maybe_function_to_json(function: &Option<AnalyzedFunction>) -> (json: Json)
    ensures
        json.deep_view() == maybe_function(function.deep_view()),
{
    match function {
        Some(function) => shapes::function_to_json(function),
        None => Json::Null,
    }
}

/// Where a scan looked: at a window of memory, or in a scope.
pub open spec fn scan_scope_name(address: Option<Address>, region: SnapshotScope) -> Seq<char> {
    if address is Some {
        "window"@
    } else {
        region.name()
    }
}

fn scan_scope_label(address: Option<Address>, region: SnapshotScope) -> (label: &'static str)
    ensures
        label@ == scan_scope_name(address, region),
{
    if address.is_some() {
        "window"
    } else {
        region.label()
    }
}

/// What is wrong with a pattern of bytes.
pub open spec fn pattern_fault(error: ParseAobErrorView) -> Seq<char> {
    match error {
        ParseAobErrorView::InvalidHexToken { token } => "InvalidHexToken { token: "@
            + arguments::debug_form(token) + " }"@,
    }
}

fn describe_fault(error: &ParseAobError) -> (message: String)
    ensures
        message@ == pattern_fault(error.deep_view()),
{
    match error {
        ParseAobError::InvalidHexToken { token } => {
            let mut message = "InvalidHexToken { token: ".to_string();
            let shown = arguments::debug_text(token);
            message.append(&shown);
            message.append(" }");
            message
        },
    }
}

/// The report of a scan for bytes, or what is wrong with the pattern.
pub open spec fn scan_bytes_report_of(memory: MemoryView, request: ScanBytesRequestView) -> Result<
    JsonView,
    Seq<char>,
> {
    match aob::words_pattern(text::words(request.pattern)) {
        Err(error) => Err(pattern_fault(error)),
        Ok(parsed) => {
            let found = seqs::capped(
                search::byte_hits(memory, parsed),
                request.max_results as int,
            );
            Ok(
                JsonView::Object(
                    json::record()
                        .push(("address"@, shapes::maybe_address(request.address)))
                        .push(("hit_count"@, JsonView::Unsigned(found.len() as u64)))
                        .push(("hits"@, hits_json(found)))
                        .push(("pattern"@, JsonView::Text(request.pattern)))
                        .push(
                            (
                                "scan_scope"@,
                                JsonView::Text(scan_scope_name(request.address, request.region)),
                            ),
                        )
                        .push(("size"@, JsonView::Unsigned(request.size as u64)))
                        .push(("tool"@, JsonView::Text("scan_bytes"@))),
                ),
            )
        },
    }
}

pub fn scan_bytes_report(engine: &ArgusEngine, request: &ScanBytesRequest) -> (result: Result<
    Json,
    String,
>)
    ensures
        requests::asked(result) == scan_bytes_report_of(engine.memory(), request.deep_view()),
{
    match engine.scan_bytes(&request.pattern, request.max_results) {
        Err(error) => Err(describe_fault(&error)),
        Ok(found) => {
            proof {
                assert(found.deep_view().len() == found@.len());
            }
            Ok(
                Fields::new()
                    .with("address", shapes::maybe_address_to_json(request.address))
                    .with("hit_count", Json::Unsigned(found.len() as u64))
                    .with("hits", hits_to_json(&found))
                    .with("pattern", Json::text(&request.pattern))
                    .with(
                        "scan_scope",
                        Json::text(scan_scope_label(request.address, request.region)),
                    )
                    .with("size", Json::Unsigned(request.size as u64))
                    .with("tool", Json::text("scan_bytes"))
                    .object(),
            )
        },
    }
}

/// The report of the places that are left of those that may hold a value.
pub open spec fn value_scan_refine_report_of(
    memory: MemoryView,
    request: ValueScanRefineRequestView,
    candidates: Seq<ValueCandidate>,
) -> JsonView {
    let left = values::refined_candidates(
        memory,
        request.value_type,
        request.refinement,
        candidates,
    );
    JsonView::Object(
        json::record()
            .push(("candidate_count"@, JsonView::Unsigned(left.len() as u64)))
            .push(
                (
                    "candidates"@,
                    JsonView::Array(
                        left.map_values(
                            |item: ValueCandidate| shapes::value_candidate_json(item),
                        ),
                    ),
                ),
            )
            .push(("refinement"@, JsonView::Text(request.refinement_name)))
            .push(("tool"@, JsonView::Text("value_scan_refine"@)))
            .push(("type"@, JsonView::Text(request.value_type.type_label()))),
    )
}

pub fn value_scan_refine_report(
    engine: &ArgusEngine,
    request: &ValueScanRefineRequest,
    candidates: Vec<ValueCandidate>,
) -> (report: Json)
    ensures
        report.deep_view() == value_scan_refine_report_of(
            engine.memory(),
            request.deep_view(),
            candidates@,
        ),
{
    let session = ValueScanSession { value_type: request.value_type, candidates };
    let refined = engine.value_scan_refine(&session, request.refinement);
    let left = refined.candidates;
    Fields::new()
        .with("candidate_count", Json::Unsigned(left.len() as u64))
        .with(
            "candidates",
            Json::plain_list(
                &left,
                shapes::value_candidate_to_json,
                Ghost(|item: ValueCandidate| shapes::value_candidate_json(item)),
            ),
        )
        .with("refinement", Json::text(&request.refinement_name))
        .with("tool", Json::text("value_scan_refine"))
        .with("type", Json::text(request.value_type.name()))
        .object()
}

/// The report of a candidate; one that is not in the image cannot be explained.
pub open spec fn value_explain_report_of(memory: MemoryView, candidate: ValueCandidate) -> Result<
    JsonView,
    Seq<char>,
> {
    match values::candidate_hit(memory, candidate) {
        Some(hit) => Ok(
            JsonView::Object(
                json::record()
                    .push(("hit"@, shapes::hit_json(hit)))
                    .push(("tool"@, JsonView::Text("value_explain"@))),
            ),
        ),
        None => Err("candidate not readable: "@ + text::prefixed_hex(candidate.address.0 as nat)),
    }
}

pub fn value_explain_report(engine: &ArgusEngine, candidate: &ValueCandidate) -> (result: Result<
    Json,
    String,
>)
    ensures
        requests::asked(result) == value_explain_report_of(engine.memory(), *candidate),
{
    match engine.value_explain(candidate) {
        Some(hit) => Ok(
            Fields::new()
                .with("hit", shapes::hit_to_json(&hit))
                .with("tool", Json::text("value_explain"))
                .object(),
        ),
        None => {
            let shown = text::hex(candidate.address.0);
            Err(arguments::message("candidate not readable: ", &shown))
        },
    }
}

/// What a target is: how wide its addresses are, and of which kind it is.
pub open spec fn target_context(arch: TargetArch) -> JsonView {
    JsonView::Object(
        json::record()
            .push(("address_width"@, JsonView::Unsigned(arch.bitness() as u64)))
            .push(("target_arch"@, JsonView::Text(arch.arch_name()))),
    )
}

pub fn target_argus_context(arch: TargetArch) -> (json: Json)
    ensures
        json.deep_view() == target_context(arch),
{
    Fields::new()
        .with("address_width", Json::Unsigned(arch.decoder_bitness() as u64))
        .with("target_arch", Json::text(arch.label()))
        .object()
}

/// Modules as values.
pub open spec fn modules_json(modules: Seq<ModuleInfoView>) -> JsonView {
    JsonView::Array(modules.map_values(|module: ModuleInfoView| shapes::module_json(module)))
}

fn modules_to_json(modules: &Vec<ModuleInfo>) -> (json: Json)
    ensures
        json.deep_view() == modules_json(modules.deep_view()),
{
    Json::list_of(
        modules,
        shapes::module_to_json,
        Ghost(|module: ModuleInfoView| shapes::module_json(module)),
    )
}

/// The report of an attachment.
pub open spec fn mem_attach_report_of(
    request: MemAttachRequestView,
    pid: u32,
    arch: TargetArch,
    modules: Seq<ModuleInfoView>,
) -> JsonView {
    let main = if modules.len() > 0 {
        (JsonView::Unsigned(modules[0].base.0), JsonView::Unsigned(modules[0].size))
    } else {
        (JsonView::Null, JsonView::Null)
    };
    JsonView::Object(
        json::record()
            .push(("argus"@, target_context(arch)))
            .push(("base"@, main.0))
            .push(("module_size"@, main.1))
            .push(("modules"@, modules_json(modules)))
            .push(
                (
                    "note"@,
                    JsonView::Text(
                        "Rust Argus MCP is stateless; pass this pid to memory tools."@,
                    ),
                ),
            )
            .push(("pid"@, JsonView::Unsigned(pid as u64)))
            .push(("process"@, json::optional_text(request.process)))
            .push(("stateless"@, JsonView::Bool(true)))
            .push(("tool"@, JsonView::Text("mem_attach"@))),
    )
}

pub fn mem_attach_report(
    request: &MemAttachRequest,
    pid: u32,
    arch: TargetArch,
    modules: &Vec<ModuleInfo>,
) -> (report: Json)
    ensures
        report.deep_view() == mem_attach_report_of(
            request.deep_view(),
            pid,
            arch,
            modules.deep_view(),
        ),
{
    proof {
        assert(modules.deep_view().len() == modules@.len());
    }
    let (base, size) = if modules.len() > 0 {
        proof {
            assert(modules.deep_view()[0] == modules@[0].deep_view());
        }
        (Json::Unsigned(modules[0].base.0), Json::Unsigned(modules[0].size))
    } else {
        (Json::Null, Json::Null)
    };
    Fields::new()
        .with("argus", target_argus_context(arch))
        .with("base", base)
        .with("module_size", size)
        .with("modules", modules_to_json(modules))
        .with("note", Json::text("Rust Argus MCP is stateless; pass this pid to memory tools."))
        .with("pid", Json::Unsigned(pid as u64))
        .with("process", Json::optional_text(&request.process))
        .with("stateless", Json::Bool(true))
        .with("tool", Json::text("mem_attach"))
        .object()
}

/// The report of modules.
pub open spec fn mem_modules_report_of(
    request: MemModulesRequest,
    arch: TargetArch,
    modules: Seq<ModuleInfoView>,
) -> JsonView {
    JsonView::Object(
        json::record()
            .push(("argus"@, target_context(arch)))
            .push(("full"@, JsonView::Bool(request.full)))
            .push(("max_results"@, JsonView::Unsigned(request.max_results as u64)))
            .push(("module_count"@, JsonView::Unsigned(modules.len() as u64)))
            .push(("modules"@, modules_json(modules)))
            .push(("tool"@, JsonView::Text("mem_modules"@))),
    )
}

pub fn mem_modules_report(
    request: MemModulesRequest,
    arch: TargetArch,
    modules: &Vec<ModuleInfo>,
) -> (report: Json)
    ensures
        report.deep_view() == mem_modules_report_of(request, arch, modules.deep_view()),
{
    proof {
        assert(modules.deep_view().len() == modules@.len());
    }
    Fields::new()
        .with("argus", target_argus_context(arch))
        .with("full", Json::Bool(request.full))
        .with("max_results", Json::Unsigned(request.max_results as u64))
        .with("module_count", Json::Unsigned(modules.len() as u64))
        .with("modules", modules_to_json(modules))
        .with("tool", Json::text("mem_modules"))
        .object()
}

/// The report of regions.
pub open spec fn memory_regions_report_of(
    request: MemoryRegionsRequest,
    arch: TargetArch,
    regions: Seq<MemoryRegionInfo>,
) -> JsonView {
    let returned = seqs::capped(regions, request.limit as int);
    JsonView::Object(
        json::record()
            .push(("argus"@, target_context(arch)))
            .push(("limit"@, JsonView::Unsigned(request.limit as u64)))
            .push(("region_count"@, JsonView::Unsigned(returned.len() as u64)))
            .push(
                (
                    "regions"@,
                    JsonView::Array(
                        returned.map_values(
                            |region: MemoryRegionInfo| shapes::region_json(region),
                        ),
                    ),
                ),
            )
            .push(("tool"@, JsonView::Text("memory_regions"@)))
            .push(("total_committed_region_count"@, JsonView::Unsigned(regions.len() as u64))),
    )
}

pub fn memory_regions_report(
    request: MemoryRegionsRequest,
    arch: TargetArch,
    regions: Vec<MemoryRegionInfo>,
) -> (report: Json)
    ensures
        report.deep_view() == memory_regions_report_of(request, arch, regions@),
{
    let ghost all = regions@;
    let total: usize = regions.len();
    let mut returned = regions;
    if total > request.limit {
        returned.truncate(request.limit);
    }
    proof {
        assert(returned@ =~= seqs::capped(all, request.limit as int));
    }
    Fields::new()
        .with("argus", target_argus_context(arch))
        .with("limit", Json::Unsigned(request.limit as u64))
        .with("region_count", Json::Unsigned(returned.len() as u64))
        .with(
            "regions",
            Json::plain_list(
                &returned,
                shapes::region_to_json,
                Ghost(|region: MemoryRegionInfo| shapes::region_json(region)),
            ),
        )
        .with("tool", Json::text("memory_regions"))
        .with("total_committed_region_count", Json::Unsigned(total as u64))
        .object()
}

/// Processes as values.
pub open spec fn processes_json(list: Seq<ProcessInfoView>) -> JsonView {
    JsonView::Array(list.map_values(|process: ProcessInfoView| shapes::process_json(process)))
}

fn processes_to_json(list: &Vec<ProcessInfo>) -> (json: Json)
    ensures
        json.deep_view() == processes_json(list.deep_view()),
{
    Json::list_of(
        list,
        shapes::process_to_json,
        Ghost(|process: ProcessInfoView| shapes::process_json(process)),
    )
}

/// The report of processes, up to the limit that is asked for.
pub open spec fn processes_list_report_of(given: JsonView, list: Seq<ProcessInfoView>) -> JsonView {
    let limit = arguments::usize_or(given, "limit"@, 200);
    let returned = seqs::capped(list, limit as int);
    JsonView::Object(
        json::record()
            .push(("limit"@, JsonView::Unsigned(limit as u64)))
            .push(("process_count"@, JsonView::Unsigned(returned.len() as u64)))
            .push(("processes"@, processes_json(returned)))
            .push(("tool"@, JsonView::Text("processes_list"@))),
    )
}

pub fn processes_list_report(given: &Json, list: Vec<ProcessInfo>) -> (report: Json)
    ensures
        report.deep_view() == processes_list_report_of(given.deep_view(), list.deep_view()),
{
    let limit: usize = arguments::optional_usize(given, "limit", 200);
    let ghost all = list.deep_view();
    let mut returned = list;
    proof {
        assert(all.len() == returned@.len());
    }
    if returned.len() > limit {
        returned.truncate(limit);
    }
    proof {
        assert(returned.deep_view().len() == returned@.len());
        assert(returned.deep_view() =~= seqs::capped(all, limit as int));
    }
    Fields::new()
        .with("limit", Json::Unsigned(limit as u64))
        .with("process_count", Json::Unsigned(returned.len() as u64))
        .with("processes", processes_to_json(&returned))
        .with("tool", Json::text("processes_list"))
        .object()
}

/// The report of the processes that are looked for.
pub open spec fn processes_find_report_of(
    request: processes::ProcessesFindRequestView,
    list: Seq<ProcessInfoView>,
) -> JsonView {
    let found = processes::found_processes(list, request);
    JsonView::Object(
        json::record()
            .push(("limit"@, JsonView::Unsigned(request.limit as u64)))
            .push(("match_count"@, JsonView::Unsigned(found.len() as u64)))
            .push(("matches"@, processes_json(found)))
            .push(("tool"@, JsonView::Text("processes_find"@))),
    )
}

pub fn processes_find_report(
    request: &processes::ProcessesFindRequest,
    list: &Vec<ProcessInfo>,
) -> (report: Json)
    ensures
        report.deep_view() == processes_find_report_of(request.deep_view(), list.deep_view()),
{
    let found = processes::find_processes(list, request);
    proof {
        assert(found.deep_view().len() == found@.len());
    }
    Fields::new()
        .with("limit", Json::Unsigned(request.limit as u64))
        .with("match_count", Json::Unsigned(found.len() as u64))
        .with("matches", processes_to_json(&found))
        .with("tool", Json::text("processes_find"))
        .object()
}

/// The name of a tool that scans for text.
pub open spec fn text_tool(regex: bool) -> Seq<char> {
    if regex {
        "scan_regex"@
    } else {
        "scan_string"@
    }
}

/// The report of a scan for text, with the file that the hits were written to.
pub open spec fn scan_text_report_of(
    request: ScanTextRequestView,
    scan: crate::text_session::TextScanView,
    out_path: Option<Seq<char>>,
) -> JsonView {
    JsonView::Object(
        json::record()
            .push(("address"@, shapes::maybe_address(request.address)))
            .push(("case_sensitive"@, JsonView::Bool(request.query.case_sensitive)))
            .push(("encoding"@, JsonView::Text(request.query.encoding.name())))
            .push(("full"@, JsonView::Bool(request.full)))
            .push(("hit_count"@, JsonView::Unsigned(scan.kept.len() as u64)))
            .push(
                (
                    "hits"@,
                    JsonView::Array(
                        scan.kept.map_values(|hit: TextHitView| shapes::text_hit_json(hit)),
                    ),
                ),
            )
            .push(
                (
                    "out_format"@,
                    if out_path is Some {
                        JsonView::Text(request.out_format.name())
                    } else {
                        JsonView::Null
                    },
                ),
            )
            .push(("out_path"@, json::optional_text(out_path)))
            .push(("pattern"@, JsonView::Text(request.query.pattern)))
            .push(
                (
                    "scan_scope"@,
                    JsonView::Text(scan_scope_name(request.address, request.region)),
                ),
            )
            .push(("scanned_bytes"@, JsonView::Unsigned(scan.byte_count as u64)))
            .push(("scanned_region_count"@, JsonView::Unsigned(scan.region_count as u64)))
            .push(("size"@, JsonView::Unsigned(request.size as u64)))
            .push(("tool"@, JsonView::Text(text_tool(request.query.regex))))
            .push(("total_hit_count"@, JsonView::Unsigned(scan.total as u64))),
    )
}

pub fn scan_text_report(request: &ScanTextRequest, scan: &TextScan, out_path: &Option<String>) -> (
    report: Json)
    ensures
        report.deep_view() == scan_text_report_of(
            request.deep_view(),
            scan.deep_view(),
            out_path.deep_view(),
        ),
{
    let kept = scan.hits();
    proof {
        assert(kept.deep_view().len() == kept@.len());
    }
    let out_format = match out_path {
        Some(_) => Json::text(request.out_format.label()),
        None => Json::Null,
    };
    let tool = if request.query.regex {
        "scan_regex"
    } else {
        "scan_string"
    };
    Fields::new()
        .with("address", shapes::maybe_address_to_json(request.address))
        .with("case_sensitive", Json::Bool(request.query.case_sensitive))
        .with("encoding", Json::text(request.query.encoding.label()))
        .with("full", Json::Bool(request.full))
        .with("hit_count", Json::Unsigned(kept.len() as u64))
        .with(
            "hits",
            Json::list_of(
                kept,
                shapes::text_hit_to_json,
                Ghost(|hit: TextHitView| shapes::text_hit_json(hit)),
            ),
        )
        .with("out_format", out_format)
        .with("out_path", Json::optional_text(out_path))
        .with("pattern", Json::text(&request.query.pattern))
        .with("scan_scope", Json::text(scan_scope_label(request.address, request.region)))
        .with("scanned_bytes", Json::Unsigned(scan.scanned_bytes() as u64))
        .with("scanned_region_count", Json::Unsigned(scan.scanned_region_count() as u64))
        .with("size", Json::Unsigned(request.size as u64))
        .with("tool", Json::text(tool))
        .with("total_hit_count", Json::Unsigned(scan.total_hit_count() as u64))
        .object()
}

/// Under which name each part of the report of a write of memory is told.
pub proof fn law_mem_write_report_parts(request: MemWriteRequestView, written: int)
    ensures
        ({
            let told = mem_write_report_of(request, written);
            &&& json::holds(told, "address"@, JsonView::Unsigned(request.address.0))
            &&& json::holds(told, "bytes"@, json::byte_list(request.bytes))
            &&& json::holds(told, "bytes_written"@, JsonView::Unsigned(written as u64))
            &&& json::holds(told, "tool"@, JsonView::Text("mem_write"@))
        }),
{
    let told = mem_write_report_of(request, written)->Object_0;
    assert(told[0].0 == "address"@);
    assert(told[1].0 == "bytes"@);
    assert(told[2].0 == "bytes_written"@);
    assert(told[3].0 == "tool"@);
}

/// Under which name each part of the report of what refers to a text is told.
pub proof fn law_locate_report_parts(
    memory: MemoryView,
    arch: TargetArch,
    request: LocateRequestView,
)
    ensures
        ({
            let results = seqs::capped(
                callers::located(memory, arch, request.query),
                request.max_hits as int,
            );
            let told = locate_report_of(memory, arch, request);
            &&& json::holds(told, "count"@, JsonView::Unsigned(results.len() as u64))
            &&& json::holds(told, "query"@, JsonView::Text(request.query))
            &&& json::holds(
                told,
                "results"@,
                JsonView::Array(
                    results.map_values(|item: LocateResult| shapes::located_json(item)),
                ),
            )
            &&& json::holds(told, "tool"@, JsonView::Text("locate"@))
        }),
{
    let told = locate_report_of(memory, arch, request)->Object_0;
    assert(told[0].0 == "count"@);
    assert(told[1].0 == "query"@);
    assert(told[2].0 == "results"@);
    assert(told[3].0 == "tool"@);
}

/// Under which name each part of the report of a class is told.
pub proof fn law_find_vtable_report_parts(
    memory: MemoryView,
    arch: TargetArch,
    request: FindVtableRequestView,
)
    ensures
        ({
            let evidence = rtti::class_evidence(
                memory,
                arch,
                request.class_name,
                request.max_methods as int,
            );
            let told = find_vtable_report_of(memory, arch, request);
            &&& json::holds(told, "evidence"@, shapes::vtable_json(evidence))
            &&& json::holds(told, "tool"@, JsonView::Text("find_vtable"@))
        }),
{
    let told = find_vtable_report_of(memory, arch, request)->Object_0;
    assert(told[0].0 == "evidence"@);
    assert(told[1].0 == "tool"@);
}

/// Under which name each part of the report of imports is told.
pub proof fn law_runtime_imports_report_parts(
    memory: MemoryView,
    arch: TargetArch,
    request: RuntimeImportsRequestView,
)
    ensures
        ({
            let imports = processes::filtered_imports(
                pe::selected_imports(
                    memory,
                    request.module_name,
                    processes::import_reach(request.max_results) as int,
                ),
                request.name_contains,
                request.dll_contains,
                request.max_results,
            );
            let told = runtime_imports_report_of(memory, arch, request);
            &&& json::holds(told, "import_count"@, JsonView::Unsigned(imports.len() as u64))
            &&& json::holds(
                told,
                "imports"@,
                JsonView::Array(
                    imports.map_values(|item: RuntimeImportView| shapes::import_json(item)),
                ),
            )
            &&& json::holds(told, "tool"@, JsonView::Text("runtime_imports"@))
        }),
{
    let told = runtime_imports_report_of(memory, arch, request)->Object_0;
    assert(told[0].0 == "import_count"@);
    assert(told[1].0 == "imports"@);
    assert(told[2].0 == "tool"@);
}

/// Under which name each part of the report of exports is told.
pub proof fn law_runtime_exports_report_parts(
    memory: MemoryView,
    arch: TargetArch,
    request: RuntimeExportsRequestView,
)
    ensures
        ({
            let exports = seqs::capped(
                pe::selected_exports(memory, request.module_name, request.name_contains),
                request.max_results as int,
            );
            let told = runtime_exports_report_of(memory, arch, request);
            &&& json::holds(told, "export_count"@, JsonView::Unsigned(exports.len() as u64))
            &&& json::holds(
                told,
                "exports"@,
                JsonView::Array(
                    exports.map_values(|item: RuntimeExportView| shapes::export_json(item)),
                ),
            )
            &&& json::holds(told, "tool"@, JsonView::Text("runtime_exports"@))
        }),
{
    let told = runtime_exports_report_of(memory, arch, request)->Object_0;
    assert(told[0].0 == "export_count"@);
    assert(told[1].0 == "exports"@);
    assert(told[2].0 == "tool"@);
}

/// Under which name each part of the report of what an API name leads to is told.
pub proof fn law_resolve_api_targets_report_parts(
    memory: MemoryView,
    arch: TargetArch,
    request: ResolveApiTargetsRequestView,
)
    ensures
        ({
            let targets = seqs::capped(
                pe::selected_exports(memory, request.module_name, Some(request.name_contains)),
                request.max_results as int,
            );
            let query = JsonView::Object(
                json::record()
                    .push(("module_name"@, json::optional_text(request.module_name)))
                    .push(("name_contains"@, JsonView::Text(request.name_contains))),
            );
            let told = resolve_api_targets_report_of(memory, arch, request);
            &&& json::holds(told, "query"@, query)
            &&& json::holds(told, "target_count"@, JsonView::Unsigned(targets.len() as u64))
            &&& json::holds(
                told,
                "targets"@,
                JsonView::Array(
                    targets.map_values(|item: RuntimeExportView| shapes::export_json(item)),
                ),
            )
            &&& json::holds(told, "tool"@, JsonView::Text("resolve_api_targets"@))
        }),
{
    let told = resolve_api_targets_report_of(memory, arch, request)->Object_0;
    assert(told[0].0 == "query"@);
    assert(told[1].0 == "target_count"@);
    assert(told[2].0 == "targets"@);
    assert(told[3].0 == "tool"@);
}

/// Under which name each part of the report of thunks is told.
pub proof fn law_resolve_iat_thunks_report_parts(
    memory: MemoryView,
    arch: TargetArch,
    request: ResolveIatThunksRequestView,
)
    ensures
        ({
            let thunks = seqs::capped(
                pe::selected_imports(
                    memory,
                    request.module_name,
                    request.max_results as int,
                ).flat_map(pe::thunks_of(memory, arch, request.name_contains)),
                request.max_results as int,
            );
            let told = resolve_iat_thunks_report_of(memory, arch, request);
            &&& json::holds(told, "thunk_count"@, JsonView::Unsigned(thunks.len() as u64))
            &&& json::holds(
                told,
                "thunks"@,
                JsonView::Array(thunks.map_values(|item: IatThunkView| shapes::thunk_json(item))),
            )
            &&& json::holds(told, "tool"@, JsonView::Text("resolve_iat_thunks"@))
        }),
{
    let told = resolve_iat_thunks_report_of(memory, arch, request)->Object_0;
    assert(told[0].0 == "thunk_count"@);
    assert(told[1].0 == "thunks"@);
    assert(told[2].0 == "tool"@);
}

/// Under which name each part of the report of instructions is told.
pub proof fn law_disasm_at_report_parts(memory: MemoryView, arch: TargetArch, request: CodeRequest)
    ensures
        ({
            let instructions = decode::disassembly(
                memory,
                arch,
                request.address,
                request.count as int,
            );
            let told = disasm_at_report_of(memory, arch, request);
            &&& json::holds(told, "address"@, JsonView::Unsigned(request.address.0))
            &&& json::holds(
                told,
                "instruction_count"@,
                JsonView::Unsigned(instructions.len() as u64),
            )
            &&& json::holds(
                told,
                "instructions"@,
                JsonView::Array(
                    instructions.map_values(
                        |item: RuntimeInstructionView| shapes::instruction_json(item),
                    ),
                ),
            )
            &&& json::holds(told, "snapshot_source"@, JsonView::Text("window"@))
            &&& json::holds(told, "tool"@, JsonView::Text("disasm_at"@))
            &&& json::holds(told, "window_size"@, JsonView::Unsigned(request.window_size as u64))
        }),
{
    let told = disasm_at_report_of(memory, arch, request)->Object_0;
    assert(told[0].0 == "address"@);
    assert(told[1].0 == "instruction_count"@);
    assert(told[2].0 == "instructions"@);
    assert(told[3].0 == "snapshot_source"@);
    assert(told[4].0 == "tool"@);
    assert(told[5].0 == "window_size"@);
}

/// Under which name each part of the report of a function is told.
pub proof fn law_analyze_function_report_parts(
    memory: MemoryView,
    arch: TargetArch,
    request: CodeRequest,
)
    ensures
        ({
            let function = analysis::function_of(
                request.address,
                decode::function_body(memory, arch, request.address, request.count as int),
            );
            let told = analyze_function_report_of(memory, arch, request);
            &&& json::holds(told, "address"@, JsonView::Unsigned(request.address.0))
            &&& json::holds(told, "function"@, maybe_function(function))
            &&& json::holds(told, "snapshot_source"@, JsonView::Text("window"@))
            &&& json::holds(told, "tool"@, JsonView::Text("analyze_function"@))
            &&& json::holds(told, "window_size"@, JsonView::Unsigned(request.window_size as u64))
        }),
{
    let told = analyze_function_report_of(memory, arch, request)->Object_0;
    assert(told[0].0 == "address"@);
    assert(told[1].0 == "function"@);
    assert(told[2].0 == "snapshot_source"@);
    assert(told[3].0 == "tool"@);
    assert(told[4].0 == "window_size"@);
}

/// Under which name each part of the report of calls is told.
pub proof fn law_scan_x86_call_sites_report_parts(
    memory: MemoryView,
    arch: TargetArch,
    request: ScanX86CallSitesRequest,
)
    ensures
        ({
            let call_sites = analysis::call_sites(
                memory,
                arch,
                request.target,
                request.max_results as int,
            );
            let told = scan_x86_call_sites_report_of(memory, arch, request);
            &&& json::holds(told, "call_site_count"@, JsonView::Unsigned(call_sites.len() as u64))
            &&& json::holds(
                told,
                "call_sites"@,
                JsonView::Array(
                    call_sites.map_values(|item: X86CallSiteView| shapes::call_site_json(item)),
                ),
            )
            &&& json::holds(
                told,
                "snapshot_scope"@,
                JsonView::Text(SnapshotScope::Executable.name()),
            )
            &&& json::holds(told, "target"@, JsonView::Unsigned(request.target.0))
            &&& json::holds(told, "tool"@, JsonView::Text("scan_x86_call_sites"@))
        }),
{
    let told = scan_x86_call_sites_report_of(memory, arch, request)->Object_0;
    assert(told[0].0 == "call_site_count"@);
    assert(told[1].0 == "call_sites"@);
    assert(told[2].0 == "snapshot_scope"@);
    assert(told[3].0 == "target"@);
    assert(told[4].0 == "tool"@);
}

/// Under which name each part of the report of calls that send is told.
pub proof fn law_analyze_send_call_sites_report_parts(
    memory: MemoryView,
    arch: TargetArch,
    request: AnalyzeSendCallSitesRequest,
)
    ensures
        ({
            let call_sites = analysis::call_sites(
                memory,
                arch,
                request.target,
                request.max_results as int,
            ).map_values(
                flow::send_evidence_at(
                    memory,
                    arch,
                    request.max_preceding_instructions as int,
                    request.backward_bytes as int,
                ),
            );
            let told = analyze_send_call_sites_report_of(memory, arch, request);
            &&& json::holds(
                told,
                "backward_bytes"@,
                JsonView::Unsigned(request.backward_bytes as u64),
            )
            &&& json::holds(told, "call_site_count"@, JsonView::Unsigned(call_sites.len() as u64))
            &&& json::holds(
                told,
                "call_sites"@,
                JsonView::Array(
                    call_sites.map_values(
                        |item: SendCallSiteEvidenceView| shapes::send_site_json(item),
                    ),
                ),
            )
            &&& json::holds(
                told,
                "max_preceding_instructions"@,
                JsonView::Unsigned(request.max_preceding_instructions as u64),
            )
            &&& json::holds(
                told,
                "snapshot_scope"@,
                JsonView::Text(SnapshotScope::Executable.name()),
            )
            &&& json::holds(told, "target"@, JsonView::Unsigned(request.target.0))
            &&& json::holds(told, "tool"@, JsonView::Text("analyze_send_call_sites"@))
        }),
{
    let told = analyze_send_call_sites_report_of(memory, arch, request)->Object_0;
    assert(told[0].0 == "backward_bytes"@);
    assert(told[1].0 == "call_site_count"@);
    assert(told[2].0 == "call_sites"@);
    assert(told[3].0 == "max_preceding_instructions"@);
    assert(told[4].0 == "snapshot_scope"@);
    assert(told[5].0 == "target"@);
    assert(told[6].0 == "tool"@);
}

/// Under which name each part of the report of the tables of a dispatcher is told.
pub proof fn law_extract_dispatch_tables_report_parts(
    memory: MemoryView,
    arch: TargetArch,
    request: ExtractDispatchTablesRequest,
)
    ensures
        ({
            let evidence = dispatch::tables_of(
                memory,
                arch,
                request.dispatcher,
                decode::disassembly(memory, arch, request.dispatcher, request.max_insn as int),
                request.max_entries as int,
                request.index_table,
                request.jump_table,
            );
            let told = extract_dispatch_tables_report_of(memory, arch, request);
            &&& json::holds(
                told,
                "candidates"@,
                JsonView::Array(
                    evidence.candidates.map_values(
                        |item: DispatchTableCandidateView| shapes::candidate_json(item),
                    ),
                ),
            )
            &&& json::holds(told, "dispatcher"@, JsonView::Unsigned(evidence.dispatcher.0))
            &&& json::holds(
                told,
                "entries"@,
                JsonView::Array(
                    evidence.entries.map_values(
                        |item: DispatchTableEntry| shapes::entry_json(item),
                    ),
                ),
            )
            &&& json::holds(told, "entry_count"@, JsonView::Unsigned(evidence.entries.len() as u64))
            &&& json::holds(told, "index_table"@, shapes::maybe_address(evidence.index_table))
            &&& json::holds(told, "jump_table"@, shapes::maybe_address(evidence.jump_table))
            &&& json::holds(told, "max_entries"@, JsonView::Unsigned(request.max_entries as u64))
            &&& json::holds(told, "max_insn"@, JsonView::Unsigned(request.max_insn as u64))
            &&& json::holds(told, "tool"@, JsonView::Text("extract_dispatch_tables"@))
        }),
{
    let told = extract_dispatch_tables_report_of(memory, arch, request)->Object_0;
    assert(told[0].0 == "candidates"@);
    assert(told[1].0 == "dispatcher"@);
    assert(told[2].0 == "entries"@);
    assert(told[3].0 == "entry_count"@);
    assert(told[4].0 == "index_table"@);
    assert(told[5].0 == "jump_table"@);
    assert(told[6].0 == "max_entries"@);
    assert(told[7].0 == "max_insn"@);
    assert(told[8].0 == "tool"@);
}

/// Under which name each part of the report of the calls that lead to an address is told.
pub proof fn law_trace_call_chain_report_parts(
    memory: MemoryView,
    arch: TargetArch,
    request: TraceCallChainRequest,
)
    ensures
        ({
            let chain = flow::call_chain(
                memory,
                arch,
                request.target,
                request.max_depth as int,
                request.max_callers_per_depth as int,
            );
            let told = trace_call_chain_report_of(memory, arch, request);
            &&& json::holds(
                told,
                "chain"@,
                JsonView::Array(
                    chain.map_values(|item: CallChainNodeView| shapes::chain_node_json(item)),
                ),
            )
            &&& json::holds(told, "depth_count"@, JsonView::Unsigned(chain.len() as u64))
            &&& json::holds(
                told,
                "snapshot_scope"@,
                JsonView::Text(SnapshotScope::Executable.name()),
            )
            &&& json::holds(told, "target"@, JsonView::Unsigned(request.target.0))
            &&& json::holds(told, "tool"@, JsonView::Text("trace_call_chain"@))
        }),
{
    let told = trace_call_chain_report_of(memory, arch, request)->Object_0;
    assert(told[0].0 == "chain"@);
    assert(told[1].0 == "depth_count"@);
    assert(told[2].0 == "snapshot_scope"@);
    assert(told[3].0 == "target"@);
    assert(told[4].0 == "tool"@);
}

/// Under which name each part of the report of pointers is told.
pub proof fn law_scan_pointers_to_report_parts(
    memory: MemoryView,
    arch: TargetArch,
    request: ScanPointersToRequest,
)
    ensures
        ({
            let found = seqs::capped(
                search::pointer_hits(memory, arch, request.address),
                request.max_results as int,
            );
            let told = scan_pointers_to_report_of(memory, arch, request);
            &&& json::holds(told, "address"@, JsonView::Unsigned(request.address.0))
            &&& json::holds(told, "hit_count"@, JsonView::Unsigned(found.len() as u64))
            &&& json::holds(told, "hits"@, hits_json(found))
            &&& json::holds(told, "scan_scope"@, JsonView::Text(request.region.name()))
            &&& json::holds(told, "tool"@, JsonView::Text("scan_pointers_to"@))
        }),
{
    let told = scan_pointers_to_report_of(memory, arch, request)->Object_0;
    assert(told[0].0 == "address"@);
    assert(told[1].0 == "hit_count"@);
    assert(told[2].0 == "hits"@);
    assert(told[3].0 == "scan_scope"@);
    assert(told[4].0 == "tool"@);
}

/// Under which name each part of the report of callers is told.
pub proof fn law_scan_callers_report_parts(
    memory: MemoryView,
    arch: TargetArch,
    request: ScanCallersRequest,
)
    ensures
        ({
            let found = seqs::capped(
                callers::caller_hits(memory, arch, request.target),
                request.max_results as int,
            );
            let told = scan_callers_report_of(memory, arch, request);
            &&& json::holds(told, "hit_count"@, JsonView::Unsigned(found.len() as u64))
            &&& json::holds(told, "hits"@, hits_json(found))
            &&& json::holds(
                told,
                "snapshot_scope"@,
                JsonView::Text(SnapshotScope::Executable.name()),
            )
            &&& json::holds(told, "target"@, JsonView::Unsigned(request.target.0))
            &&& json::holds(told, "tool"@, JsonView::Text("scan_callers"@))
        }),
{
    let told = scan_callers_report_of(memory, arch, request)->Object_0;
    assert(told[0].0 == "hit_count"@);
    assert(told[1].0 == "hits"@);
    assert(told[2].0 == "snapshot_scope"@);
    assert(told[3].0 == "target"@);
    assert(told[4].0 == "tool"@);
}

/// Under which name each part of the report of the places that hold a value is told.
pub proof fn law_value_scan_start_report_parts(
    memory: MemoryView,
    arch: TargetArch,
    request: ValueScanStartRequest,
)
    ensures
        ({
            let candidates = seqs::capped(
                values::start_candidates(
                    memory,
                    request.value_type,
                    ValuePredicate::ExactU64(request.exact),
                ),
                request.max_results as int,
            );
            let told = value_scan_start_report_of(memory, arch, request);
            &&& json::holds(told, "candidate_count"@, JsonView::Unsigned(candidates.len() as u64))
            &&& json::holds(
                told,
                "candidates"@,
                JsonView::Array(
                    candidates.map_values(
                        |item: ValueCandidate| shapes::value_candidate_json(item),
                    ),
                ),
            )
            &&& json::holds(told, "exact"@, JsonView::Unsigned(request.exact as u64))
            &&& json::holds(told, "tool"@, JsonView::Text("value_scan_start"@))
            &&& json::holds(told, "type"@, JsonView::Text(request.value_type.type_label()))
        }),
{
    let told = value_scan_start_report_of(memory, arch, request)->Object_0;
    assert(told[0].0 == "candidate_count"@);
    assert(told[1].0 == "candidates"@);
    assert(told[2].0 == "exact"@);
    assert(told[3].0 == "tool"@);
    assert(told[4].0 == "type"@);
}

/// Under which name each part of the report of the places that are left of those that may hold
/// a value is told.
pub proof fn law_value_scan_refine_report_parts(
    memory: MemoryView,
    request: ValueScanRefineRequestView,
    candidates: Seq<ValueCandidate>,
)
    ensures
        ({
            let left = values::refined_candidates(
                memory,
                request.value_type,
                request.refinement,
                candidates,
            );
            let told = value_scan_refine_report_of(memory, request, candidates);
            &&& json::holds(told, "candidate_count"@, JsonView::Unsigned(left.len() as u64))
            &&& json::holds(
                told,
                "candidates"@,
                JsonView::Array(
                    left.map_values(|item: ValueCandidate| shapes::value_candidate_json(item)),
                ),
            )
            &&& json::holds(told, "refinement"@, JsonView::Text(request.refinement_name))
            &&& json::holds(told, "tool"@, JsonView::Text("value_scan_refine"@))
            &&& json::holds(told, "type"@, JsonView::Text(request.value_type.type_label()))
        }),
{
    let told = value_scan_refine_report_of(memory, request, candidates)->Object_0;
    assert(told[0].0 == "candidate_count"@);
    assert(told[1].0 == "candidates"@);
    assert(told[2].0 == "refinement"@);
    assert(told[3].0 == "tool"@);
    assert(told[4].0 == "type"@);
}

/// Under which name each part of what a target is, is told.
pub proof fn law_target_context_parts(arch: TargetArch)
    ensures
        ({
            let told = target_context(arch);
            &&& json::holds(told, "address_width"@, JsonView::Unsigned(arch.bitness() as u64))
            &&& json::holds(told, "target_arch"@, JsonView::Text(arch.arch_name()))
        }),
{
    let told = target_context(arch)->Object_0;
    assert(told[0].0 == "address_width"@);
    assert(told[1].0 == "target_arch"@);
}

/// Under which name each part of the report of an attachment is told.
pub proof fn law_mem_attach_report_parts(
    request: MemAttachRequestView,
    pid: u32,
    arch: TargetArch,
    modules: Seq<ModuleInfoView>,
)
    ensures
        ({
            let main = if modules.len() > 0 {
                (JsonView::Unsigned(modules[0].base.0), JsonView::Unsigned(modules[0].size))
            } else {
                (JsonView::Null, JsonView::Null)
            };
            let told = mem_attach_report_of(request, pid, arch, modules);
            &&& json::holds(told, "argus"@, target_context(arch))
            &&& json::holds(told, "base"@, main.0)
            &&& json::holds(told, "module_size"@, main.1)
            &&& json::holds(told, "modules"@, modules_json(modules))
            &&& json::holds(
                told,
                "note"@,
                JsonView::Text("Rust Argus MCP is stateless; pass this pid to memory tools."@),
            )
            &&& json::holds(told, "pid"@, JsonView::Unsigned(pid as u64))
            &&& json::holds(told, "process"@, json::optional_text(request.process))
            &&& json::holds(told, "stateless"@, JsonView::Bool(true))
            &&& json::holds(told, "tool"@, JsonView::Text("mem_attach"@))
        }),
{
    let told = mem_attach_report_of(request, pid, arch, modules)->Object_0;
    assert(told[0].0 == "argus"@);
    assert(told[1].0 == "base"@);
    assert(told[2].0 == "module_size"@);
    assert(told[3].0 == "modules"@);
    assert(told[4].0 == "note"@);
    assert(told[5].0 == "pid"@);
    assert(told[6].0 == "process"@);
    assert(told[7].0 == "stateless"@);
    assert(told[8].0 == "tool"@);
}

/// Under which name each part of the report of modules is told.
pub proof fn law_mem_modules_report_parts(
    request: MemModulesRequest,
    arch: TargetArch,
    modules: Seq<ModuleInfoView>,
)
    ensures
        ({
            let told = mem_modules_report_of(request, arch, modules);
            &&& json::holds(told, "argus"@, target_context(arch))
            &&& json::holds(told, "full"@, JsonView::Bool(request.full))
            &&& json::holds(told, "max_results"@, JsonView::Unsigned(request.max_results as u64))
            &&& json::holds(told, "module_count"@, JsonView::Unsigned(modules.len() as u64))
            &&& json::holds(told, "modules"@, modules_json(modules))
            &&& json::holds(told, "tool"@, JsonView::Text("mem_modules"@))
        }),
{
    let told = mem_modules_report_of(request, arch, modules)->Object_0;
    assert(told[0].0 == "argus"@);
    assert(told[1].0 == "full"@);
    assert(told[2].0 == "max_results"@);
    assert(told[3].0 == "module_count"@);
    assert(told[4].0 == "modules"@);
    assert(told[5].0 == "tool"@);
}

/// Under which name each part of the report of regions is told.
pub proof fn law_memory_regions_report_parts(
    request: MemoryRegionsRequest,
    arch: TargetArch,
    regions: Seq<MemoryRegionInfo>,
)
    ensures
        ({
            let returned = seqs::capped(regions, request.limit as int);
            let told = memory_regions_report_of(request, arch, regions);
            &&& json::holds(told, "argus"@, target_context(arch))
            &&& json::holds(told, "limit"@, JsonView::Unsigned(request.limit as u64))
            &&& json::holds(told, "region_count"@, JsonView::Unsigned(returned.len() as u64))
            &&& json::holds(
                told,
                "regions"@,
                JsonView::Array(
                    returned.map_values(|region: MemoryRegionInfo| shapes::region_json(region)),
                ),
            )
            &&& json::holds(told, "tool"@, JsonView::Text("memory_regions"@))
            &&& json::holds(
                told,
                "total_committed_region_count"@,
                JsonView::Unsigned(regions.len() as u64),
            )
        }),
{
    let told = memory_regions_report_of(request, arch, regions)->Object_0;
    assert(told[0].0 == "argus"@);
    assert(told[1].0 == "limit"@);
    assert(told[2].0 == "region_count"@);
    assert(told[3].0 == "regions"@);
    assert(told[4].0 == "tool"@);
    assert(told[5].0 == "total_committed_region_count"@);
}

/// Under which name each part of the report of processes, up to the limit that is asked for, is
/// told.
pub proof fn law_processes_list_report_parts(given: JsonView, list: Seq<ProcessInfoView>)
    ensures
        ({
            let limit = arguments::usize_or(given, "limit"@, 200);
            let returned = seqs::capped(list, limit as int);
            let told = processes_list_report_of(given, list);
            &&& json::holds(told, "limit"@, JsonView::Unsigned(limit as u64))
            &&& json::holds(told, "process_count"@, JsonView::Unsigned(returned.len() as u64))
            &&& json::holds(told, "processes"@, processes_json(returned))
            &&& json::holds(told, "tool"@, JsonView::Text("processes_list"@))
        }),
{
    let told = processes_list_report_of(given, list)->Object_0;
    assert(told[0].0 == "limit"@);
    assert(told[1].0 == "process_count"@);
    assert(told[2].0 == "processes"@);
    assert(told[3].0 == "tool"@);
}

/// Under which name each part of the report of the processes that are looked for is told.
pub proof fn law_processes_find_report_parts(
    request: processes::ProcessesFindRequestView,
    list: Seq<ProcessInfoView>,
)
    ensures
        ({
            let found = processes::found_processes(list, request);
            let told = processes_find_report_of(request, list);
            &&& json::holds(told, "limit"@, JsonView::Unsigned(request.limit as u64))
            &&& json::holds(told, "match_count"@, JsonView::Unsigned(found.len() as u64))
            &&& json::holds(told, "matches"@, processes_json(found))
            &&& json::holds(told, "tool"@, JsonView::Text("processes_find"@))
        }),
{
    let told = processes_find_report_of(request, list)->Object_0;
    assert(told[0].0 == "limit"@);
    assert(told[1].0 == "match_count"@);
    assert(told[2].0 == "matches"@);
    assert(told[3].0 == "tool"@);
}

/// Under which name each part of the report of a scan for text, with the file that the hits
/// were written to, is told.
pub proof fn law_scan_text_report_parts(
    request: ScanTextRequestView,
    scan: crate::text_session::TextScanView,
    out_path: Option<Seq<char>>,
)
    ensures
        ({
            let told = scan_text_report_of(request, scan, out_path);
            &&& json::holds(told, "address"@, shapes::maybe_address(request.address))
            &&& json::holds(told, "case_sensitive"@, JsonView::Bool(request.query.case_sensitive))
            &&& json::holds(told, "encoding"@, JsonView::Text(request.query.encoding.name()))
            &&& json::holds(told, "full"@, JsonView::Bool(request.full))
            &&& json::holds(told, "hit_count"@, JsonView::Unsigned(scan.kept.len() as u64))
            &&& json::holds(
                told,
                "hits"@,
                JsonView::Array(
                    scan.kept.map_values(|hit: TextHitView| shapes::text_hit_json(hit)),
                ),
            )
            &&& json::holds(
                told,
                "out_format"@,
                if out_path is Some {
                    JsonView::Text(request.out_format.name())
                } else {
                    JsonView::Null
                },
            )
            &&& json::holds(told, "out_path"@, json::optional_text(out_path))
            &&& json::holds(told, "pattern"@, JsonView::Text(request.query.pattern))
            &&& json::holds(
                told,
                "scan_scope"@,
                JsonView::Text(scan_scope_name(request.address, request.region)),
            )
            &&& json::holds(told, "scanned_bytes"@, JsonView::Unsigned(scan.byte_count as u64))
            &&& json::holds(
                told,
                "scanned_region_count"@,
                JsonView::Unsigned(scan.region_count as u64),
            )
            &&& json::holds(told, "size"@, JsonView::Unsigned(request.size as u64))
            &&& json::holds(told, "tool"@, JsonView::Text(text_tool(request.query.regex)))
            &&& json::holds(told, "total_hit_count"@, JsonView::Unsigned(scan.total as u64))
        }),
{
    let told = scan_text_report_of(request, scan, out_path)->Object_0;
    assert(told[0].0 == "address"@);
    assert(told[1].0 == "case_sensitive"@);
    assert(told[2].0 == "encoding"@);
    assert(told[3].0 == "full"@);
    assert(told[4].0 == "hit_count"@);
    assert(told[5].0 == "hits"@);
    assert(told[6].0 == "out_format"@);
    assert(told[7].0 == "out_path"@);
    assert(told[8].0 == "pattern"@);
    assert(told[9].0 == "scan_scope"@);
    assert(told[10].0 == "scanned_bytes"@);
    assert(told[11].0 == "scanned_region_count"@);
    assert(told[12].0 == "size"@);
    assert(told[13].0 == "tool"@);
    assert(told[14].0 == "total_hit_count"@);
}

/// What a read of memory reports: the piece of evidence of the bytes that stand there, or,
/// where they cannot be read, the address that was asked for.
pub proof fn law_mem_read_report(memory: MemoryView, request: MemReadRequest)
    ensures
        match hits::mem_read_hit(memory, request.address, request.size as int) {
            Some(hit) => mem_read_report_of(memory, request) matches Ok(told) && json::holds(
                told,
                "hit"@,
                shapes::hit_json(hit),
            ) && json::holds(told, "tool"@, JsonView::Text("mem_read"@)),
            None => mem_read_report_of(memory, request) == Err::<JsonView, Seq<char>>(
                "address not readable: "@ + "0x"@ + text::hex_text(request.address.0 as nat),
            ),
        },
{
    if hits::mem_read_hit(memory, request.address, request.size as int) is Some {
        let told = mem_read_report_of(memory, request)->Ok_0->Object_0;
        assert(told[0].0 == "hit"@);
        assert(told[1].0 == "tool"@);
    } else {
        assert("address not readable: "@ + ("0x"@ + text::hex_text(request.address.0 as nat))
            =~= "address not readable: "@ + "0x"@ + text::hex_text(request.address.0 as nat));
    }
}

/// What is reported of a place that may hold a value: the piece of evidence of the value, or,
/// where the place cannot be read, its address.
pub proof fn law_value_explain_report(memory: MemoryView, candidate: ValueCandidate)
    ensures
        match values::candidate_hit(memory, candidate) {
            Some(hit) => value_explain_report_of(memory, candidate) matches Ok(told)
                && json::holds(told, "hit"@, shapes::hit_json(hit)) && json::holds(
                told,
                "tool"@,
                JsonView::Text("value_explain"@),
            ),
            None => value_explain_report_of(memory, candidate) == Err::<JsonView, Seq<char>>(
                "candidate not readable: "@ + "0x"@ + text::hex_text(candidate.address.0 as nat),
            ),
        },
{
    if values::candidate_hit(memory, candidate) is Some {
        let told = value_explain_report_of(memory, candidate)->Ok_0->Object_0;
        assert(told[0].0 == "hit"@);
        assert(told[1].0 == "tool"@);
    } else {
        assert("candidate not readable: "@ + ("0x"@ + text::hex_text(candidate.address.0 as nat))
            =~= "candidate not readable: "@ + "0x"@ + text::hex_text(candidate.address.0 as nat));
    }
}

/// What a scan for bytes reports of a pattern that can be read: the hits and their number,
/// at most as many as are asked for, and what was asked.
pub proof fn law_scan_bytes_report(
    memory: MemoryView,
    request: ScanBytesRequestView,
    parsed: aob::AobPatternView,
)
    requires
        aob::words_pattern(text::words(request.pattern)) == Ok::<
            aob::AobPatternView,
            aob::ParseAobErrorView,
        >(parsed),
    ensures
        ({
            let found = seqs::capped(
                search::byte_hits(memory, parsed),
                request.max_results as int,
            );
            scan_bytes_report_of(memory, request) matches Ok(told) && {
                &&& json::holds(told, "address"@, shapes::maybe_address(request.address))
                &&& json::holds(told, "hit_count"@, JsonView::Unsigned(found.len() as u64))
                &&& json::holds(told, "hits"@, hits_json(found))
                &&& json::holds(told, "pattern"@, JsonView::Text(request.pattern))
                &&& json::holds(
                    told,
                    "scan_scope"@,
                    JsonView::Text(
                        if request.address is Some {
                            "window"@
                        } else {
                            request.region.name()
                        },
                    ),
                )
                &&& json::holds(told, "size"@, JsonView::Unsigned(request.size as u64))
                &&& json::holds(told, "tool"@, JsonView::Text("scan_bytes"@))
            }
        }),
{
    let told = scan_bytes_report_of(memory, request)->Ok_0->Object_0;
    assert(told[0].0 == "address"@);
    assert(told[1].0 == "hit_count"@);
    assert(told[2].0 == "hits"@);
    assert(told[3].0 == "pattern"@);
    assert(told[4].0 == "scan_scope"@);
    assert(told[5].0 == "size"@);
    assert(told[6].0 == "tool"@);
}

/// The hits are listed in their order, each as a piece of evidence.
pub proof fn law_hits_listed(found: Seq<EvidenceHitView>)
    ensures
        hits_json(found) matches JsonView::Array(rows) && rows.len() == found.len()
            && forall|i: int|
            0 <= i < found.len() ==> #[trigger] rows[i] == shapes::hit_json(found[i]),
{
}

} // verus!
