//! What a caller asks of each tool: the arguments, in the order in which they are
//! looked at, so that the first one at fault is the one that is told.

use vstd::prelude::*;

use crate::arguments;
use crate::evidence::Address;
use crate::json::{Json, JsonView};
use crate::options;
use crate::options::{ScanOutputFormat, TextEncoding};
use crate::patterns::{TextQuery, TextQueryView};
use crate::render::MODULE_DISPLAY_LIMIT;
use crate::snapshot::SnapshotScope;
use crate::values::{ValueRefinement, ValueType};

verus! {

/// A result with its value as a model and its error in words.
pub open spec fn asked<T: DeepView>(result: Result<T, String>) -> Result<T::V, Seq<char>> {
    match result {
        Ok(value) => Ok(value.deep_view()),
        Err(message) => Err(message@),
    }
}

/// A text of an argument that need not be there.
pub fn owned(value: Option<&str>) -> (text: Option<String>)
    ensures
        text.deep_view() == value.deep_view(),
{
    match value {
        Some(value) => Some(value.to_string()),
        None => None,
    }
}

/// A read of memory.
#[derive(Debug, Clone, Copy, PartialEq, Eq, Structural)]
pub struct MemReadRequest {
    pub pid: u32,
    pub address: Address,
    pub size: usize,
}

/// What is asked, or which argument is at fault.
pub open spec fn mem_read_asked(given: JsonView) -> Result<MemReadRequest, Seq<char>> {
    match arguments::u32_argument(given, "pid"@) {
        Err(message) => Err(message),
        Ok(pid) => {
            match arguments::address_argument(given, "address"@) {
                Err(message) => Err(message),
                Ok(address) => {
                    match arguments::usize_argument(given, "size"@) {
                        Err(message) => Err(message),
                        Ok(size) => {
                            Ok(MemReadRequest { pid, address, size })
                        },
                    }
                },
            }
        },
    }
}

pub fn mem_read_request(given: &Json) -> (result: Result<MemReadRequest, String>)
    ensures
        arguments::told(result) == mem_read_asked(given.deep_view()),
{
    let pid: u32 = arguments::required_u32(given, "pid")?;
    let address = arguments::required_address(given, "address")?;
    let size: usize = arguments::required_usize(given, "size")?;
    Ok(MemReadRequest { pid, address, size })
}

/// A read of words.
#[derive(Debug, Clone, Copy, PartialEq, Eq, Structural)]
pub struct ReadStructRequest {
    pub pid: u32,
    pub address: Address,
    pub count: usize,
}

/// What is asked, or which argument is at fault.
pub open spec fn read_struct_asked(given: JsonView) -> Result<ReadStructRequest, Seq<char>> {
    match arguments::u32_argument(given, "pid"@) {
        Err(message) => Err(message),
        Ok(pid) => {
            match arguments::address_argument(given, "address"@) {
                Err(message) => Err(message),
                Ok(address) => {
                    let count = arguments::usize_or(given, "count"@, 16);
                    Ok(ReadStructRequest { pid, address, count })
                },
            }
        },
    }
}

pub fn read_struct_request(given: &Json) -> (result: Result<ReadStructRequest, String>)
    ensures
        arguments::told(result) == read_struct_asked(given.deep_view()),
{
    let pid: u32 = arguments::required_u32(given, "pid")?;
    let address = arguments::required_address(given, "address")?;
    let count: usize = arguments::optional_usize(given, "count", 16);
    Ok(ReadStructRequest { pid, address, count })
}

/// A search for what refers to a text.
#[derive(Debug, PartialEq, Eq)]
pub struct LocateRequest {
    pub pid: u32,
    pub query: String,
    pub max_hits: usize,
}

#[verifier::ext_equal]
pub struct LocateRequestView {
    pub pid: u32,
    pub query: Seq<char>,
    pub max_hits: usize,
}

impl DeepView for LocateRequest {
    type V = LocateRequestView;

    open spec fn deep_view(&self) -> LocateRequestView {
        LocateRequestView {
            pid: self.pid,
            query: self.query@,
            max_hits: self.max_hits,
        }
    }
}

/// What is asked, or which argument is at fault.
pub open spec fn locate_asked(given: JsonView) -> Result<LocateRequestView, Seq<char>> {
    match arguments::u32_argument(given, "pid"@) {
        Err(message) => Err(message),
        Ok(pid) => {
            match arguments::text_argument(given, "query"@) {
                Err(message) => Err(message),
                Ok(query) => {
                    let max_hits = arguments::usize_or(given, "max_hits"@, 8);
                    Ok(LocateRequestView { pid, query, max_hits })
                },
            }
        },
    }
}

pub fn locate_request(given: &Json) -> (result: Result<LocateRequest, String>)
    ensures
        asked(result) == locate_asked(given.deep_view()),
{
    let pid: u32 = arguments::required_u32(given, "pid")?;
    let query = arguments::required_str(given, "query")?.to_string();
    let max_hits: usize = arguments::optional_usize(given, "max_hits", 8);
    Ok(LocateRequest { pid, query, max_hits })
}

/// A search for a class.
#[derive(Debug, PartialEq, Eq)]
pub struct FindVtableRequest {
    pub pid: u32,
    pub class_name: String,
    pub max_methods: usize,
}

#[verifier::ext_equal]
pub struct FindVtableRequestView {
    pub pid: u32,
    pub class_name: Seq<char>,
    pub max_methods: usize,
}

impl DeepView for FindVtableRequest {
    type V = FindVtableRequestView;

    open spec fn deep_view(&self) -> FindVtableRequestView {
        FindVtableRequestView {
            pid: self.pid,
            class_name: self.class_name@,
            max_methods: self.max_methods,
        }
    }
}

/// What is asked, or which argument is at fault.
pub open spec fn find_vtable_asked(given: JsonView) -> Result<FindVtableRequestView, Seq<char>> {
    match arguments::u32_argument(given, "pid"@) {
        Err(message) => Err(message),
        Ok(pid) => {
            match arguments::text_argument(given, "class_name"@) {
                Err(message) => Err(message),
                Ok(class_name) => {
                    let max_methods = arguments::usize_or(given, "max_methods"@, 20);
                    Ok(FindVtableRequestView { pid, class_name, max_methods })
                },
            }
        },
    }
}

pub fn find_vtable_request(given: &Json) -> (result: Result<FindVtableRequest, String>)
    ensures
        asked(result) == find_vtable_asked(given.deep_view()),
{
    let pid: u32 = arguments::required_u32(given, "pid")?;
    let class_name = arguments::required_str(given, "class_name")?.to_string();
    let max_methods: usize = arguments::optional_usize(given, "max_methods", 20);
    Ok(FindVtableRequest { pid, class_name, max_methods })
}

/// A look at a structure in memory.
#[derive(Debug, PartialEq, Eq)]
pub struct DiffStructRequest {
    pub pid: u32,
    pub struct_name: String,
    pub live_address: Address,
    pub max_fields: usize,
}

#[verifier::ext_equal]
pub struct DiffStructRequestView {
    pub pid: u32,
    pub struct_name: Seq<char>,
    pub live_address: Address,
    pub max_fields: usize,
}

impl DeepView for DiffStructRequest {
    type V = DiffStructRequestView;

    open spec fn deep_view(&self) -> DiffStructRequestView {
        DiffStructRequestView {
            pid: self.pid,
            struct_name: self.struct_name@,
            live_address: self.live_address,
            max_fields: self.max_fields,
        }
    }
}

/// What is asked, or which argument is at fault.
pub open spec fn diff_struct_asked(given: JsonView) -> Result<DiffStructRequestView, Seq<char>> {
    match arguments::u32_argument(given, "pid"@) {
        Err(message) => Err(message),
        Ok(pid) => {
            match arguments::text_argument(given, "struct_name"@) {
                Err(message) => Err(message),
                Ok(struct_name) => {
                    match arguments::aliased_address(given, "live_address"@, "address"@) {
                        Err(message) => Err(message),
                        Ok(live_address) => {
                            let max_fields = arguments::usize_or(given, "max_fields"@, 64);
                            Ok(DiffStructRequestView { pid, struct_name, live_address, max_fields })
                        },
                    }
                },
            }
        },
    }
}

pub fn diff_struct_request(given: &Json) -> (result: Result<DiffStructRequest, String>)
    ensures
        asked(result) == diff_struct_asked(given.deep_view()),
{
    let pid: u32 = arguments::required_u32(given, "pid")?;
    let struct_name = arguments::required_str(given, "struct_name")?.to_string();
    let live_address = arguments::required_address_alias(given, "live_address", "address")?;
    let max_fields: usize = arguments::optional_usize(given, "max_fields", 64);
    Ok(DiffStructRequest { pid, struct_name, live_address, max_fields })
}

/// A list of modules.
#[derive(Debug, Clone, Copy, PartialEq, Eq, Structural)]
pub struct MemModulesRequest {
    pub pid: u32,
    pub max_results: usize,
    pub full: bool,
}

/// What is asked, or which argument is at fault.
pub open spec fn mem_modules_asked(given: JsonView) -> Result<MemModulesRequest, Seq<char>> {
    match arguments::u32_argument(given, "pid"@) {
        Err(message) => Err(message),
        Ok(pid) => {
            let max_results = arguments::usize_or(given, "max_results"@, MODULE_DISPLAY_LIMIT);
            let full = arguments::bool_or(given, "full"@, false);
            Ok(MemModulesRequest { pid, max_results, full })
        },
    }
}

pub fn mem_modules_request(given: &Json) -> (result: Result<MemModulesRequest, String>)
    ensures
        arguments::told(result) == mem_modules_asked(given.deep_view()),
{
    let pid: u32 = arguments::required_u32(given, "pid")?;
    let max_results: usize = arguments::optional_usize(given, "max_results", MODULE_DISPLAY_LIMIT);
    let full = arguments::optional_bool(given, "full", false);
    Ok(MemModulesRequest { pid, max_results, full })
}

/// A list of regions.
#[derive(Debug, Clone, Copy, PartialEq, Eq, Structural)]
pub struct MemoryRegionsRequest {
    pub pid: u32,
    pub limit: usize,
}

/// What is asked, or which argument is at fault.
pub open spec fn memory_regions_asked(given: JsonView) -> Result<MemoryRegionsRequest, Seq<char>> {
    match arguments::u32_argument(given, "pid"@) {
        Err(message) => Err(message),
        Ok(pid) => {
            let limit = arguments::usize_or(given, "limit"@, 512);
            Ok(MemoryRegionsRequest { pid, limit })
        },
    }
}

pub fn memory_regions_request(given: &Json) -> (result: Result<MemoryRegionsRequest, String>)
    ensures
        arguments::told(result) == memory_regions_asked(given.deep_view()),
{
    let pid: u32 = arguments::required_u32(given, "pid")?;
    let limit: usize = arguments::optional_usize(given, "limit", 512);
    Ok(MemoryRegionsRequest { pid, limit })
}

/// A list of imports.
#[derive(Debug, PartialEq, Eq)]
pub struct RuntimeImportsRequest {
    pub pid: u32,
    pub module_name: Option<String>,
    pub name_contains: Option<String>,
    pub dll_contains: Option<String>,
    pub max_results: usize,
}

#[verifier::ext_equal]
pub struct RuntimeImportsRequestView {
    pub pid: u32,
    pub module_name: Option<Seq<char>>,
    pub name_contains: Option<Seq<char>>,
    pub dll_contains: Option<Seq<char>>,
    pub max_results: usize,
}

impl DeepView for RuntimeImportsRequest {
    type V = RuntimeImportsRequestView;

    open spec fn deep_view(&self) -> RuntimeImportsRequestView {
        RuntimeImportsRequestView {
            pid: self.pid,
            module_name: self.module_name.deep_view(),
            name_contains: self.name_contains.deep_view(),
            dll_contains: self.dll_contains.deep_view(),
            max_results: self.max_results,
        }
    }
}

/// What is asked, or which argument is at fault.
pub open spec fn runtime_imports_asked(
    given: JsonView,
) -> Result<RuntimeImportsRequestView, Seq<char>> {
    match arguments::u32_argument(given, "pid"@) {
        Err(message) => Err(message),
        Ok(pid) => {
            let module_name = arguments::optional_text(given, "module_name"@);
            let name_contains = arguments::optional_text(given, "name_contains"@);
            let dll_contains = arguments::optional_text(given, "dll_contains"@);
            let max_results = arguments::usize_or(given, "max_results"@, 200);
            Ok(
                RuntimeImportsRequestView {
                    pid,
                    module_name,
                    name_contains,
                    dll_contains,
                    max_results,
                },
            )
        },
    }
}

pub fn runtime_imports_request(given: &Json) -> (result: Result<RuntimeImportsRequest, String>)
    ensures
        asked(result) == runtime_imports_asked(given.deep_view()),
{
    let pid: u32 = arguments::required_u32(given, "pid")?;
    let module_name = owned(arguments::optional_str(given, "module_name"));
    let name_contains = owned(arguments::optional_str(given, "name_contains"));
    let dll_contains = owned(arguments::optional_str(given, "dll_contains"));
    let max_results: usize = arguments::optional_usize(given, "max_results", 200);
    Ok(RuntimeImportsRequest { pid, module_name, name_contains, dll_contains, max_results })
}

/// A list of exports.
#[derive(Debug, PartialEq, Eq)]
pub struct RuntimeExportsRequest {
    pub pid: u32,
    pub module_name: Option<String>,
    pub name_contains: Option<String>,
    pub max_results: usize,
}

#[verifier::ext_equal]
pub struct RuntimeExportsRequestView {
    pub pid: u32,
    pub module_name: Option<Seq<char>>,
    pub name_contains: Option<Seq<char>>,
    pub max_results: usize,
}

impl DeepView for RuntimeExportsRequest {
    type V = RuntimeExportsRequestView;

    open spec fn deep_view(&self) -> RuntimeExportsRequestView {
        RuntimeExportsRequestView {
            pid: self.pid,
            module_name: self.module_name.deep_view(),
            name_contains: self.name_contains.deep_view(),
            max_results: self.max_results,
        }
    }
}

/// What is asked, or which argument is at fault.
pub open spec fn runtime_exports_asked(
    given: JsonView,
) -> Result<RuntimeExportsRequestView, Seq<char>> {
    match arguments::u32_argument(given, "pid"@) {
        Err(message) => Err(message),
        Ok(pid) => {
            let module_name = arguments::optional_text(given, "module_name"@);
            let name_contains = arguments::optional_text(given, "name_contains"@);
            let max_results = arguments::usize_or(given, "max_results"@, 200);
            Ok(RuntimeExportsRequestView { pid, module_name, name_contains, max_results })
        },
    }
}

pub fn runtime_exports_request(given: &Json) -> (result: Result<RuntimeExportsRequest, String>)
    ensures
        asked(result) == runtime_exports_asked(given.deep_view()),
{
    let pid: u32 = arguments::required_u32(given, "pid")?;
    let module_name = owned(arguments::optional_str(given, "module_name"));
    let name_contains = owned(arguments::optional_str(given, "name_contains"));
    let max_results: usize = arguments::optional_usize(given, "max_results", 200);
    Ok(RuntimeExportsRequest { pid, module_name, name_contains, max_results })
}

/// A list of thunks.
#[derive(Debug, PartialEq, Eq)]
pub struct ResolveIatThunksRequest {
    pub pid: u32,
    pub module_name: Option<String>,
    pub name_contains: Option<String>,
    pub max_results: usize,
}

#[verifier::ext_equal]
pub struct ResolveIatThunksRequestView {
    pub pid: u32,
    pub module_name: Option<Seq<char>>,
    pub name_contains: Option<Seq<char>>,
    pub max_results: usize,
}

impl DeepView for ResolveIatThunksRequest {
    type V = ResolveIatThunksRequestView;

    open spec fn deep_view(&self) -> ResolveIatThunksRequestView {
        ResolveIatThunksRequestView {
            pid: self.pid,
            module_name: self.module_name.deep_view(),
            name_contains: self.name_contains.deep_view(),
            max_results: self.max_results,
        }
    }
}

/// What is asked, or which argument is at fault.
pub open spec fn resolve_iat_thunks_asked(
    given: JsonView,
) -> Result<ResolveIatThunksRequestView, Seq<char>> {
    match arguments::u32_argument(given, "pid"@) {
        Err(message) => Err(message),
        Ok(pid) => {
            let module_name = arguments::optional_text(given, "module_name"@);
            let name_contains = arguments::optional_text(given, "name_contains"@);
            let max_results = arguments::usize_or(given, "max_results"@, 100);
            Ok(ResolveIatThunksRequestView { pid, module_name, name_contains, max_results })
        },
    }
}

pub fn resolve_iat_thunks_request(given: &Json) -> (result: Result<ResolveIatThunksRequest, String>)
    ensures
        asked(result) == resolve_iat_thunks_asked(given.deep_view()),
{
    let pid: u32 = arguments::required_u32(given, "pid")?;
    let module_name = owned(arguments::optional_str(given, "module_name"));
    let name_contains = owned(arguments::optional_str(given, "name_contains"));
    let max_results: usize = arguments::optional_usize(given, "max_results", 100);
    Ok(ResolveIatThunksRequest { pid, module_name, name_contains, max_results })
}

/// A search for calls.
#[derive(Debug, Clone, Copy, PartialEq, Eq, Structural)]
pub struct ScanX86CallSitesRequest {
    pub pid: u32,
    pub target: Address,
    pub max_results: usize,
}

/// What is asked, or which argument is at fault.
pub open spec fn scan_x86_call_sites_asked(
    given: JsonView,
) -> Result<ScanX86CallSitesRequest, Seq<char>> {
    match arguments::u32_argument(given, "pid"@) {
        Err(message) => Err(message),
        Ok(pid) => {
            match arguments::aliased_address(given, "target"@, "address"@) {
                Err(message) => Err(message),
                Ok(target) => {
                    let max_results = arguments::usize_or(given, "max_results"@, 50);
                    Ok(ScanX86CallSitesRequest { pid, target, max_results })
                },
            }
        },
    }
}

pub fn scan_x86_call_sites_request(
    given: &Json,
) -> (result: Result<ScanX86CallSitesRequest, String>)
    ensures
        arguments::told(result) == scan_x86_call_sites_asked(given.deep_view()),
{
    let pid: u32 = arguments::required_u32(given, "pid")?;
    let target = arguments::required_address_alias(given, "target", "address")?;
    let max_results: usize = arguments::optional_usize(given, "max_results", 50);
    Ok(ScanX86CallSitesRequest { pid, target, max_results })
}

/// A search for calls that send.
#[derive(Debug, Clone, Copy, PartialEq, Eq, Structural)]
pub struct AnalyzeSendCallSitesRequest {
    pub pid: u32,
    pub target: Address,
    pub max_results: usize,
    pub max_preceding_instructions: usize,
    pub backward_bytes: usize,
}

/// What is asked, or which argument is at fault.
pub open spec fn analyze_send_call_sites_asked(
    given: JsonView,
) -> Result<AnalyzeSendCallSitesRequest, Seq<char>> {
    match arguments::u32_argument(given, "pid"@) {
        Err(message) => Err(message),
        Ok(pid) => {
            match arguments::aliased_address(given, "target"@, "address"@) {
                Err(message) => Err(message),
                Ok(target) => {
                    let max_results = arguments::usize_or(given, "max_results"@, 50);
                    let max_preceding_instructions = arguments::usize_or(
                        given,
                        "max_preceding_instructions"@,
                        12,
                    );
                    let backward_bytes = arguments::usize_or(given, "backward_bytes"@, 0x80);
                    Ok(
                        AnalyzeSendCallSitesRequest {
                            pid,
                            target,
                            max_results,
                            max_preceding_instructions,
                            backward_bytes,
                        },
                    )
                },
            }
        },
    }
}

pub fn analyze_send_call_sites_request(
    given: &Json,
) -> (result: Result<AnalyzeSendCallSitesRequest, String>)
    ensures
        arguments::told(result) == analyze_send_call_sites_asked(given.deep_view()),
{
    let pid: u32 = arguments::required_u32(given, "pid")?;
    let target = arguments::required_address_alias(given, "target", "address")?;
    let max_results: usize = arguments::optional_usize(given, "max_results", 50);
    let max_preceding_instructions: usize = arguments::optional_usize(
        given,
        "max_preceding_instructions",
        12,
    );
    let backward_bytes: usize = arguments::optional_usize(given, "backward_bytes", 0x80);
    Ok(
        AnalyzeSendCallSitesRequest {
            pid,
            target,
            max_results,
            max_preceding_instructions,
            backward_bytes,
        },
    )
}

/// A look at the tables of a dispatcher.
#[derive(Debug, Clone, Copy, PartialEq, Eq, Structural)]
pub struct ExtractDispatchTablesRequest {
    pub pid: u32,
    pub dispatcher: Address,
    pub max_insn: usize,
    pub max_entries: usize,
    pub index_table: Option<Address>,
    pub jump_table: Option<Address>,
}

/// What is asked, or which argument is at fault.
pub open spec fn extract_dispatch_tables_asked(
    given: JsonView,
) -> Result<ExtractDispatchTablesRequest, Seq<char>> {
    match arguments::u32_argument(given, "pid"@) {
        Err(message) => Err(message),
        Ok(pid) => {
            match arguments::aliased_address(given, "dispatcher"@, "address"@) {
                Err(message) => Err(message),
                Ok(dispatcher) => {
                    let max_insn = arguments::usize_or(given, "max_insn"@, 80);
                    let max_entries = arguments::usize_or(given, "max_entries"@, 256);
                    match arguments::maybe_address(given, "index_table"@) {
                        Err(message) => Err(message),
                        Ok(index_table) => {
                            match arguments::maybe_address(given, "jump_table"@) {
                                Err(message) => Err(message),
                                Ok(jump_table) => {
                                    Ok(
                                        ExtractDispatchTablesRequest {
                                            pid,
                                            dispatcher,
                                            max_insn,
                                            max_entries,
                                            index_table,
                                            jump_table,
                                        },
                                    )
                                },
                            }
                        },
                    }
                },
            }
        },
    }
}

pub fn extract_dispatch_tables_request(
    given: &Json,
) -> (result: Result<ExtractDispatchTablesRequest, String>)
    ensures
        arguments::told(result) == extract_dispatch_tables_asked(given.deep_view()),
{
    let pid: u32 = arguments::required_u32(given, "pid")?;
    let dispatcher = arguments::required_address_alias(given, "dispatcher", "address")?;
    let max_insn: usize = arguments::optional_usize(given, "max_insn", 80);
    let max_entries: usize = arguments::optional_usize(given, "max_entries", 256);
    let index_table = arguments::optional_address(given, "index_table")?;
    let jump_table = arguments::optional_address(given, "jump_table")?;
    Ok(
        ExtractDispatchTablesRequest {
            pid,
            dispatcher,
            max_insn,
            max_entries,
            index_table,
            jump_table,
        },
    )
}

/// A walk from callee to caller.
#[derive(Debug, Clone, Copy, PartialEq, Eq, Structural)]
pub struct TraceCallChainRequest {
    pub pid: u32,
    pub target: Address,
    pub max_depth: usize,
    pub max_callers_per_depth: usize,
}

/// What is asked, or which argument is at fault.
pub open spec fn trace_call_chain_asked(
    given: JsonView,
) -> Result<TraceCallChainRequest, Seq<char>> {
    match arguments::u32_argument(given, "pid"@) {
        Err(message) => Err(message),
        Ok(pid) => {
            match arguments::aliased_address(given, "target"@, "address"@) {
                Err(message) => Err(message),
                Ok(target) => {
                    let max_depth = arguments::usize_or(given, "max_depth"@, 3);
                    let max_callers_per_depth = arguments::usize_or(
                        given,
                        "max_callers_per_depth"@,
                        20,
                    );
                    Ok(TraceCallChainRequest { pid, target, max_depth, max_callers_per_depth })
                },
            }
        },
    }
}

pub fn trace_call_chain_request(given: &Json) -> (result: Result<TraceCallChainRequest, String>)
    ensures
        arguments::told(result) == trace_call_chain_asked(given.deep_view()),
{
    let pid: u32 = arguments::required_u32(given, "pid")?;
    let target = arguments::required_address_alias(given, "target", "address")?;
    let max_depth: usize = arguments::optional_usize(given, "max_depth", 3);
    let max_callers_per_depth: usize = arguments::optional_usize(
        given,
        "max_callers_per_depth",
        20,
    );
    Ok(TraceCallChainRequest { pid, target, max_depth, max_callers_per_depth })
}

/// A scan for bytes.
#[derive(Debug, PartialEq, Eq)]
pub struct ScanBytesRequest {
    pub pid: u32,
    pub pattern: String,
    pub max_results: usize,
    pub address: Option<Address>,
    pub region: SnapshotScope,
    pub size: usize,
}

#[verifier::ext_equal]
pub struct ScanBytesRequestView {
    pub pid: u32,
    pub pattern: Seq<char>,
    pub max_results: usize,
    pub address: Option<Address>,
    pub region: SnapshotScope,
    pub size: usize,
}

impl DeepView for ScanBytesRequest {
    type V = ScanBytesRequestView;

    open spec fn deep_view(&self) -> ScanBytesRequestView {
        ScanBytesRequestView {
            pid: self.pid,
            pattern: self.pattern@,
            max_results: self.max_results,
            address: self.address,
            region: self.region,
            size: self.size,
        }
    }
}

/// What is asked, or which argument is at fault.
pub open spec fn scan_bytes_asked(given: JsonView) -> Result<ScanBytesRequestView, Seq<char>> {
    match arguments::u32_argument(given, "pid"@) {
        Err(message) => Err(message),
        Ok(pid) => {
            match arguments::text_argument(given, "pattern"@) {
                Err(message) => Err(message),
                Ok(pattern) => {
                    let max_results = arguments::usize_or(given, "max_results"@, 20);
                    match arguments::maybe_address(given, "address"@) {
                        Err(message) => Err(message),
                        Ok(address) => {
                            match options::scope_or(given, "region"@, SnapshotScope::Executable) {
                                Err(message) => Err(message),
                                Ok(region) => {
                                    let size = arguments::usize_or(given, "size"@, 4096);
                                    Ok(
                                        ScanBytesRequestView {
                                            pid,
                                            pattern,
                                            max_results,
                                            address,
                                            region,
                                            size,
                                        },
                                    )
                                },
                            }
                        },
                    }
                },
            }
        },
    }
}

pub fn scan_bytes_request(given: &Json) -> (result: Result<ScanBytesRequest, String>)
    ensures
        asked(result) == scan_bytes_asked(given.deep_view()),
{
    let pid: u32 = arguments::required_u32(given, "pid")?;
    let pattern = arguments::required_str(given, "pattern")?.to_string();
    let max_results: usize = arguments::optional_usize(given, "max_results", 20);
    let address = arguments::optional_address(given, "address")?;
    let region = options::optional_snapshot_scope(given, "region", SnapshotScope::Executable)?;
    let size: usize = arguments::optional_usize(given, "size", 4096);
    Ok(ScanBytesRequest { pid, pattern, max_results, address, region, size })
}

/// A scan for pointers.
#[derive(Debug, Clone, Copy, PartialEq, Eq, Structural)]
pub struct ScanPointersToRequest {
    pub pid: u32,
    pub address: Address,
    pub max_results: usize,
    pub region: SnapshotScope,
}

/// What is asked, or which argument is at fault.
pub open spec fn scan_pointers_to_asked(
    given: JsonView,
) -> Result<ScanPointersToRequest, Seq<char>> {
    match arguments::u32_argument(given, "pid"@) {
        Err(message) => Err(message),
        Ok(pid) => {
            match arguments::address_argument(given, "address"@) {
                Err(message) => Err(message),
                Ok(address) => {
                    let max_results = arguments::usize_or(given, "max_results"@, 50);
                    match options::scope_or(given, "region"@, SnapshotScope::All) {
                        Err(message) => Err(message),
                        Ok(region) => {
                            Ok(ScanPointersToRequest { pid, address, max_results, region })
                        },
                    }
                },
            }
        },
    }
}

pub fn scan_pointers_to_request(given: &Json) -> (result: Result<ScanPointersToRequest, String>)
    ensures
        arguments::told(result) == scan_pointers_to_asked(given.deep_view()),
{
    let pid: u32 = arguments::required_u32(given, "pid")?;
    let address = arguments::required_address(given, "address")?;
    let max_results: usize = arguments::optional_usize(given, "max_results", 50);
    let region = options::optional_snapshot_scope(given, "region", SnapshotScope::All)?;
    Ok(ScanPointersToRequest { pid, address, max_results, region })
}

/// A scan for callers.
#[derive(Debug, Clone, Copy, PartialEq, Eq, Structural)]
pub struct ScanCallersRequest {
    pub pid: u32,
    pub target: Address,
    pub max_results: usize,
}

/// What is asked, or which argument is at fault.
pub open spec fn scan_callers_asked(given: JsonView) -> Result<ScanCallersRequest, Seq<char>> {
    match arguments::u32_argument(given, "pid"@) {
        Err(message) => Err(message),
        Ok(pid) => {
            match arguments::aliased_address(given, "target"@, "address"@) {
                Err(message) => Err(message),
                Ok(target) => {
                    let max_results = arguments::usize_or(given, "max_results"@, 50);
                    Ok(ScanCallersRequest { pid, target, max_results })
                },
            }
        },
    }
}

pub fn scan_callers_request(given: &Json) -> (result: Result<ScanCallersRequest, String>)
    ensures
        arguments::told(result) == scan_callers_asked(given.deep_view()),
{
    let pid: u32 = arguments::required_u32(given, "pid")?;
    let target = arguments::required_address_alias(given, "target", "address")?;
    let max_results: usize = arguments::optional_usize(given, "max_results", 50);
    Ok(ScanCallersRequest { pid, target, max_results })
}

/// A write of memory.
#[derive(Debug, PartialEq, Eq)]
pub struct MemWriteRequest {
    pub pid: u32,
    pub address: Address,
    pub bytes: Vec<u8>,
}

#[verifier::ext_equal]
pub struct MemWriteRequestView {
    pub pid: u32,
    pub address: Address,
    pub bytes: Seq<u8>,
}

impl DeepView for MemWriteRequest {
    type V = MemWriteRequestView;

    open spec fn deep_view(&self) -> MemWriteRequestView {
        MemWriteRequestView { pid: self.pid, address: self.address, bytes: self.bytes@ }
    }
}

/// What is asked, or which argument is at fault.
pub open spec fn mem_write_asked(given: JsonView) -> Result<MemWriteRequestView, Seq<char>> {
    match arguments::u32_argument(given, "pid"@) {
        Err(message) => Err(message),
        Ok(pid) => match arguments::address_argument(given, "address"@) {
            Err(message) => Err(message),
            Ok(address) => match arguments::text_argument(given, "hex_data"@) {
                Err(message) => Err(message),
                Ok(hex_data) => match arguments::hex_data(hex_data) {
                    Err(message) => Err(message),
                    Ok(bytes) => Ok(MemWriteRequestView { pid, address, bytes }),
                },
            },
        },
    }
}

pub fn mem_write_request(given: &Json) -> (result: Result<MemWriteRequest, String>)
    ensures
        asked(result) == mem_write_asked(given.deep_view()),
{
    let pid: u32 = arguments::required_u32(given, "pid")?;
    let address = arguments::required_address(given, "address")?;
    let hex_data = arguments::required_str(given, "hex_data")?;
    let bytes = arguments::parse_hex_bytes(hex_data)?;
    Ok(MemWriteRequest { pid, address, bytes })
}

/// A walk along a chain of pointers.
#[derive(Debug, PartialEq, Eq)]
pub struct MemReadChainRequest {
    pub pid: u32,
    pub base_address: Address,
    pub offsets: Vec<u64>,
    pub final_size: usize,
}

#[verifier::ext_equal]
pub struct MemReadChainRequestView {
    pub pid: u32,
    pub base_address: Address,
    pub offsets: Seq<u64>,
    pub final_size: usize,
}

impl DeepView for MemReadChainRequest {
    type V = MemReadChainRequestView;

    open spec fn deep_view(&self) -> MemReadChainRequestView {
        MemReadChainRequestView {
            pid: self.pid,
            base_address: self.base_address,
            offsets: self.offsets@,
            final_size: self.final_size,
        }
    }
}

/// The text of an argument, or the empty one.
pub open spec fn text_or_empty(given: JsonView, key: Seq<char>) -> Seq<char> {
    match arguments::optional_text(given, key) {
        Some(value) => value,
        None => ""@,
    }
}

/// What is asked, or which argument is at fault.
pub open spec fn mem_read_chain_asked(given: JsonView) -> Result<
    MemReadChainRequestView,
    Seq<char>,
> {
    match arguments::u32_argument(given, "pid"@) {
        Err(message) => Err(message),
        Ok(pid) => match arguments::aliased_address(given, "base_address"@, "address"@) {
            Err(message) => Err(message),
            Ok(base_address) => match arguments::offset_list(text_or_empty(given, "offsets"@)) {
                Err(message) => Err(message),
                Ok(offsets) => Ok(
                    MemReadChainRequestView {
                        pid,
                        base_address,
                        offsets,
                        final_size: arguments::usize_or(given, "final_size"@, 64),
                    },
                ),
            },
        },
    }
}

pub fn mem_read_chain_request(given: &Json) -> (result: Result<MemReadChainRequest, String>)
    ensures
        asked(result) == mem_read_chain_asked(given.deep_view()),
{
    let pid: u32 = arguments::required_u32(given, "pid")?;
    let base_address = arguments::required_address_alias(given, "base_address", "address")?;
    let listed = match arguments::optional_str(given, "offsets") {
        Some(value) => value,
        None => "",
    };
    let offsets = arguments::parse_offsets(listed)?;
    let final_size: usize = arguments::optional_usize(given, "final_size", 64);
    Ok(MemReadChainRequest { pid, base_address, offsets, final_size })
}

/// A translation between a live and a static address.
#[derive(Debug, Clone, Copy, PartialEq, Eq, Structural)]
pub struct CorrelateAddrRequest {
    pub pid: u32,
    pub live_addr: Option<Address>,
    pub static_addr: Option<Address>,
    pub ghidra_image_base: Address,
}

/// What is asked, or which argument is at fault.
pub open spec fn correlate_addr_asked(given: JsonView) -> Result<CorrelateAddrRequest, Seq<char>> {
    match arguments::u32_argument(given, "pid"@) {
        Err(message) => Err(message),
        Ok(pid) => match arguments::maybe_address(given, "live_addr"@) {
            Err(message) => Err(message),
            Ok(live_addr) => match arguments::maybe_address(given, "static_addr"@) {
                Err(message) => Err(message),
                Ok(static_addr) => match arguments::maybe_address(given, "ghidra_image_base"@) {
                    Err(message) => Err(message),
                    Ok(base) => Ok(
                        CorrelateAddrRequest {
                            pid,
                            live_addr,
                            static_addr,
                            ghidra_image_base: match base {
                                Some(base) => base,
                                None => Address(0x0040_0000),
                            },
                        },
                    ),
                },
            },
        },
    }
}

pub fn correlate_addr_request(given: &Json) -> (result: Result<CorrelateAddrRequest, String>)
    ensures
        arguments::told(result) == correlate_addr_asked(given.deep_view()),
{
    let pid: u32 = arguments::required_u32(given, "pid")?;
    let live_addr = arguments::optional_address(given, "live_addr")?;
    let static_addr = arguments::optional_address(given, "static_addr")?;
    let ghidra_image_base = match arguments::optional_address(given, "ghidra_image_base")? {
        Some(base) => base,
        None => Address(0x0040_0000),
    };
    Ok(CorrelateAddrRequest { pid, live_addr, static_addr, ghidra_image_base })
}

/// A look at instructions within a window of memory.
#[derive(Debug, Clone, Copy, PartialEq, Eq, Structural)]
pub struct CodeRequest {
    pub pid: u32,
    pub address: Address,
    pub count: usize,
    pub window_size: usize,
}

/// The window for a number of instructions: fifteen bytes for each, as far as a size
/// reaches, and never less than a minimum.
pub open spec fn code_window(count: usize, least: usize) -> usize {
    let wanted = if count * 15 > usize::MAX {
        usize::MAX
    } else {
        (count * 15) as usize
    };
    if wanted < least {
        least
    } else {
        wanted
    }
}

fn window_for(count: usize, least: usize) -> (window: usize)
    ensures
        window == code_window(count, least),
{
    let wanted: usize = match count.checked_mul(15) {
        Some(wanted) => wanted,
        None => usize::MAX,
    };
    if wanted < least {
        least
    } else {
        wanted
    }
}

/// What is asked, or which argument is at fault.
pub open spec fn code_asked(
    given: JsonView,
    key: Seq<char>,
    default: usize,
    least: usize,
) -> Result<CodeRequest, Seq<char>> {
    match arguments::u32_argument(given, "pid"@) {
        Err(message) => Err(message),
        Ok(pid) => match arguments::address_argument(given, "address"@) {
            Err(message) => Err(message),
            Ok(address) => {
                let count = arguments::usize_or(given, key, default);
                Ok(
                    CodeRequest {
                        pid,
                        address,
                        count,
                        window_size: arguments::usize_or(
                            given,
                            "window_size"@,
                            code_window(count, least),
                        ),
                    },
                )
            },
        },
    }
}

fn code_request(given: &Json, key: &str, default: usize, least: usize) -> (result: Result<
    CodeRequest,
    String,
>)
    ensures
        arguments::told(result) == code_asked(given.deep_view(), key@, default, least),
{
    let pid: u32 = arguments::required_u32(given, "pid")?;
    let address = arguments::required_address(given, "address")?;
    let count: usize = arguments::optional_usize(given, key, default);
    let window_size: usize = arguments::optional_usize(
        given,
        "window_size",
        window_for(count, least),
    );
    Ok(CodeRequest { pid, address, count, window_size })
}

pub fn disasm_at_request(given: &Json) -> (result: Result<CodeRequest, String>)
    ensures
        arguments::told(result) == code_asked(given.deep_view(), "count"@, 40, 64),
{
    code_request(given, "count", 40, 64)
}

pub fn analyze_function_request(given: &Json) -> (result: Result<CodeRequest, String>)
    ensures
        arguments::told(result) == code_asked(given.deep_view(), "max_insn"@, 200, 256),
{
    code_request(given, "max_insn", 200, 256)
}

/// A scan for text.
pub struct ScanTextRequest {
    pub pid: u32,
    pub query: TextQuery,
    pub region: SnapshotScope,
    pub address: Option<Address>,
    pub size: usize,
    pub max_results: usize,
    pub full: bool,
    pub out_path: Option<String>,
    pub out_format: ScanOutputFormat,
}

#[verifier::ext_equal]
pub struct ScanTextRequestView {
    pub pid: u32,
    pub query: TextQueryView,
    pub region: SnapshotScope,
    pub address: Option<Address>,
    pub size: usize,
    pub max_results: usize,
    pub full: bool,
    pub out_path: Option<Seq<char>>,
    pub out_format: ScanOutputFormat,
}

impl DeepView for ScanTextRequest {
    type V = ScanTextRequestView;

    open spec fn deep_view(&self) -> ScanTextRequestView {
        ScanTextRequestView {
            pid: self.pid,
            query: self.query.deep_view(),
            region: self.region,
            address: self.address,
            size: self.size,
            max_results: self.max_results,
            full: self.full,
            out_path: self.out_path.deep_view(),
            out_format: self.out_format,
        }
    }
}

impl ScanTextRequest {
    /// Whether the scan goes on when enough has been found: where everything is asked
    /// for, or a file takes it.
    pub fn scan_all(&self) -> (all: bool)
        ensures
            all == (self.full || self.out_path is Some),
    {
        self.full || self.out_path.is_some()
    }
}

/// How many bytes a scan from an address on reads, unless it is told: a page, and
/// more where an exact pattern is longer than that.
pub open spec fn scan_size(pattern: Seq<char>, regex: bool) -> usize {
    let len = vstd::utf8::encode_utf8(pattern).len();
    if regex || len < 4096 {
        4096
    } else {
        len as usize
    }
}

/// What is asked, or which argument is at fault. Where nothing else is said, a text
/// is looked for in UTF-8 and up to twenty times, and a regular expression in UTF-8
/// and UTF-16 and up to fifty times.
pub open spec fn scan_text_asked(
    given: JsonView,
    regex: bool,
    extension: Option<Seq<char>>,
) -> Result<ScanTextRequestView, Seq<char>> {
    match arguments::u32_argument(given, "pid"@) {
        Err(message) => Err(message),
        Ok(pid) => match arguments::text_argument(given, "pattern"@) {
            Err(message) => Err(message),
            Ok(pattern) => match arguments::maybe_address(given, "address"@) {
                Err(message) => Err(message),
                Ok(address) => match options::scope_or(given, "region"@, SnapshotScope::All) {
                    Err(message) => Err(message),
                    Ok(region) => match options::encoding_or(
                        given,
                        if regex {
                            TextEncoding::Both
                        } else {
                            TextEncoding::Utf8
                        },
                    ) {
                        Err(message) => Err(message),
                        Ok(encoding) => match options::format_or(given, extension) {
                            Err(message) => Err(message),
                            Ok(out_format) => Ok(
                                ScanTextRequestView {
                                    pid,
                                    query: TextQueryView {
                                        pattern,
                                        regex,
                                        encoding,
                                        case_sensitive: arguments::bool_or(
                                            given,
                                            "case_sensitive"@,
                                            true,
                                        ),
                                    },
                                    region,
                                    address,
                                    size: arguments::usize_or(
                                        given,
                                        "size"@,
                                        scan_size(pattern, regex),
                                    ),
                                    max_results: arguments::usize_or(
                                        given,
                                        "max_results"@,
                                        if regex {
                                            50
                                        } else {
                                            20
                                        },
                                    ),
                                    full: arguments::bool_or(given, "full"@, false),
                                    out_path: arguments::optional_text(given, "out_path"@),
                                    out_format,
                                },
                            ),
                        },
                    },
                },
            },
        },
    }
}

pub fn scan_text_request(given: &Json, regex: bool, extension: Option<&str>) -> (result: Result<
    ScanTextRequest,
    String,
>)
    ensures
        asked(result) == scan_text_asked(given.deep_view(), regex, extension.deep_view()),
{
    let pid: u32 = arguments::required_u32(given, "pid")?;
    let pattern = arguments::required_str(given, "pattern")?;
    let max_results: usize = arguments::optional_usize(
        given,
        "max_results",
        if regex {
            50
        } else {
            20
        },
    );
    let address = arguments::optional_address(given, "address")?;
    let region = options::optional_snapshot_scope(given, "region", SnapshotScope::All)?;
    let len: usize = pattern.as_bytes().len();
    let size: usize = arguments::optional_usize(
        given,
        "size",
        if regex || len < 4096 {
            4096
        } else {
            len
        },
    );
    let encoding = options::optional_text_encoding(
        given,
        if regex {
            TextEncoding::Both
        } else {
            TextEncoding::Utf8
        },
    )?;
    let case_sensitive = arguments::optional_bool(given, "case_sensitive", true);
    let full = arguments::optional_bool(given, "full", false);
    let out_path = owned(arguments::optional_str(given, "out_path"));
    let out_format = options::optional_scan_output_format(given, extension)?;
    let query = TextQuery { pattern: pattern.to_string(), regex, encoding, case_sensitive };
    Ok(
        ScanTextRequest {
            pid,
            query,
            region,
            address,
            size,
            max_results,
            full,
            out_path,
            out_format,
        },
    )
}

/// A scan for a value.
#[derive(Debug, Clone, Copy, PartialEq, Eq, Structural)]
pub struct ValueScanStartRequest {
    pub pid: u32,
    pub value_type: ValueType,
    pub exact: u64,
    pub max_results: usize,
}

/// What is asked, or which argument is at fault.
pub open spec fn value_scan_start_asked(given: JsonView) -> Result<
    ValueScanStartRequest,
    Seq<char>,
> {
    match arguments::u32_argument(given, "pid"@) {
        Err(message) => Err(message),
        Ok(pid) => match arguments::text_argument(given, "type"@) {
            Err(message) => Err(message),
            Ok(name) => match options::named_value_type(name) {
                Err(message) => Err(message),
                Ok(value_type) => match arguments::u64_argument(given, "exact"@) {
                    Err(message) => Err(message),
                    Ok(exact) => Ok(
                        ValueScanStartRequest {
                            pid,
                            value_type,
                            exact,
                            max_results: arguments::usize_or(given, "max_results"@, 100),
                        },
                    ),
                },
            },
        },
    }
}

pub fn value_scan_start_request(given: &Json) -> (result: Result<ValueScanStartRequest, String>)
    ensures
        arguments::told(result) == value_scan_start_asked(given.deep_view()),
{
    let pid: u32 = arguments::required_u32(given, "pid")?;
    let value_type = options::parse_value_type(arguments::required_str(given, "type")?)?;
    let exact: u64 = arguments::required_u64(given, "exact")?;
    let max_results: usize = arguments::optional_usize(given, "max_results", 100);
    Ok(ValueScanStartRequest { pid, value_type, exact, max_results })
}

/// A narrowing of the candidates for a value.
#[derive(Debug, PartialEq, Eq)]
pub struct ValueScanRefineRequest {
    pub pid: u32,
    pub value_type: ValueType,
    pub refinement: ValueRefinement,
    pub refinement_name: String,
}

#[verifier::ext_equal]
pub struct ValueScanRefineRequestView {
    pub pid: u32,
    pub value_type: ValueType,
    pub refinement: ValueRefinement,
    pub refinement_name: Seq<char>,
}

impl DeepView for ValueScanRefineRequest {
    type V = ValueScanRefineRequestView;

    open spec fn deep_view(&self) -> ValueScanRefineRequestView {
        ValueScanRefineRequestView {
            pid: self.pid,
            value_type: self.value_type,
            refinement: self.refinement,
            refinement_name: self.refinement_name@,
        }
    }
}

/// What is asked, or which argument is at fault.
pub open spec fn value_scan_refine_asked(given: JsonView) -> Result<
    ValueScanRefineRequestView,
    Seq<char>,
> {
    match arguments::u32_argument(given, "pid"@) {
        Err(message) => Err(message),
        Ok(pid) => match arguments::text_argument(given, "type"@) {
            Err(message) => Err(message),
            Ok(name) => match options::named_value_type(name) {
                Err(message) => Err(message),
                Ok(value_type) => match arguments::text_argument(given, "refinement"@) {
                    Err(message) => Err(message),
                    Ok(refinement_name) => match options::named_refinement(
                        refinement_name,
                        given,
                    ) {
                        Err(message) => Err(message),
                        Ok(refinement) => if given.get("candidates"@) is Some {
                            Ok(
                                ValueScanRefineRequestView {
                                    pid,
                                    value_type,
                                    refinement,
                                    refinement_name,
                                },
                            )
                        } else {
                            Err("missing array argument: candidates"@)
                        },
                    },
                },
            },
        },
    }
}

pub fn value_scan_refine_request(given: &Json) -> (result: Result<ValueScanRefineRequest, String>)
    ensures
        asked(result) == value_scan_refine_asked(given.deep_view()),
{
    let pid: u32 = arguments::required_u32(given, "pid")?;
    let value_type = options::parse_value_type(arguments::required_str(given, "type")?)?;
    let refinement_name = arguments::required_str(given, "refinement")?;
    let refinement = options::parse_value_refinement(refinement_name, given)?;
    if given.get("candidates").is_none() {
        return Err("missing array argument: candidates".to_string());
    }
    Ok(
        ValueScanRefineRequest {
            pid,
            value_type,
            refinement,
            refinement_name: refinement_name.to_string(),
        },
    )
}

/// The process of a candidate that is to be explained, or which argument is at
/// fault.
pub open spec fn value_explain_asked(given: JsonView) -> Result<u32, Seq<char>> {
    match arguments::u32_argument(given, "pid"@) {
        Err(message) => Err(message),
        Ok(pid) => if given.get("candidate"@) is Some {
            Ok(pid)
        } else {
            Err("missing object argument: candidate"@)
        },
    }
}

pub fn value_explain_request(given: &Json) -> (result: Result<u32, String>)
    ensures
        arguments::told(result) == value_explain_asked(given.deep_view()),
{
    let pid: u32 = arguments::required_u32(given, "pid")?;
    if given.get("candidate").is_none() {
        return Err("missing object argument: candidate".to_string());
    }
    Ok(pid)
}

/// A read of memory is asked for by a process, an address and a size.
pub proof fn law_mem_read_asked(given: JsonView)
    ensures
        match mem_read_asked(given) {
            Ok(asked) => {
                &&& arguments::u32_argument(given, "pid"@) matches Ok(pid)
                    && asked.pid == pid
                &&& arguments::address_argument(given, "address"@) matches Ok(address)
                    && asked.address == address
                &&& arguments::usize_argument(given, "size"@) matches Ok(size)
                    && asked.size == size
            },
            Err(message) => {
                ||| (arguments::u32_argument(given, "pid"@) matches Err(reason)
                    && reason == message)
                ||| (arguments::address_argument(given, "address"@) matches Err(reason)
                    && reason == message)
                ||| (arguments::usize_argument(given, "size"@) matches Err(reason)
                    && reason == message)
            },
        },
{
}

/// A read of words is asked for by a process and an address; sixteen words are read
/// unless another number is asked for.
pub proof fn law_read_struct_asked(given: JsonView)
    ensures
        match read_struct_asked(given) {
            Ok(asked) => {
                &&& arguments::u32_argument(given, "pid"@) matches Ok(pid)
                    && asked.pid == pid
                &&& arguments::address_argument(given, "address"@) matches Ok(address)
                    && asked.address == address
                &&& asked.count == arguments::usize_or(given, "count"@, 16)
            },
            Err(message) => {
                ||| (arguments::u32_argument(given, "pid"@) matches Err(reason)
                    && reason == message)
                ||| (arguments::address_argument(given, "address"@) matches Err(reason)
                    && reason == message)
            },
        },
{
}

/// A search for what refers to a text is asked for by a process and the text; eight
/// places are told unless another number is asked for.
pub proof fn law_locate_asked(given: JsonView)
    ensures
        match locate_asked(given) {
            Ok(asked) => {
                &&& arguments::u32_argument(given, "pid"@) matches Ok(pid)
                    && asked.pid == pid
                &&& arguments::text_argument(given, "query"@) matches Ok(query)
                    && asked.query == query
                &&& asked.max_hits == arguments::usize_or(given, "max_hits"@, 8)
            },
            Err(message) => {
                ||| (arguments::u32_argument(given, "pid"@) matches Err(reason)
                    && reason == message)
                ||| (arguments::text_argument(given, "query"@) matches Err(reason)
                    && reason == message)
            },
        },
{
}

/// A search for a virtual table is asked for by a process and a class; twenty methods
/// are told unless another number is asked for.
pub proof fn law_find_vtable_asked(given: JsonView)
    ensures
        match find_vtable_asked(given) {
            Ok(asked) => {
                &&& arguments::u32_argument(given, "pid"@) matches Ok(pid)
                    && asked.pid == pid
                &&& arguments::text_argument(given, "class_name"@) matches Ok(class_name)
                    && asked.class_name == class_name
                &&& asked.max_methods == arguments::usize_or(given, "max_methods"@, 20)
            },
            Err(message) => {
                ||| (arguments::u32_argument(given, "pid"@) matches Err(reason)
                    && reason == message)
                ||| (arguments::text_argument(given, "class_name"@) matches Err(reason)
                    && reason == message)
            },
        },
{
}

/// A comparison with a structure is asked for by a process, the structure and an
/// address under either of two names; 64 fields are compared unless another number is
/// asked for.
pub proof fn law_diff_struct_asked(given: JsonView)
    ensures
        match diff_struct_asked(given) {
            Ok(asked) => {
                &&& arguments::u32_argument(given, "pid"@) matches Ok(pid)
                    && asked.pid == pid
                &&& arguments::text_argument(given, "struct_name"@) matches Ok(struct_name)
                    && asked.struct_name == struct_name
                &&& arguments::aliased_address(
                    given,
                    "live_address"@,
                    "address"@) matches Ok(live_address,
                )
                    && asked.live_address == live_address
                &&& asked.max_fields == arguments::usize_or(given, "max_fields"@, 64)
            },
            Err(message) => {
                ||| (arguments::u32_argument(given, "pid"@) matches Err(reason)
                    && reason == message)
                ||| (arguments::text_argument(given, "struct_name"@) matches Err(reason)
                    && reason == message)
                ||| (arguments::aliased_address(
                    given,
                    "live_address"@,
                    "address"@) matches Err(reason,
                )
                    && reason == message)
            },
        },
{
}

/// A list of modules is asked for by a process; as many are listed as are shown unless
/// another number is asked for, and in full only where that is asked for.
pub proof fn law_mem_modules_asked(given: JsonView)
    ensures
        match mem_modules_asked(given) {
            Ok(asked) => {
                &&& arguments::u32_argument(given, "pid"@) matches Ok(pid)
                    && asked.pid == pid
                &&& asked.max_results == arguments::usize_or(
                    given,
                    "max_results"@,
                    MODULE_DISPLAY_LIMIT,
                )
                &&& asked.full == arguments::bool_or(given, "full"@, false)
            },
            Err(message) => {
                ||| (arguments::u32_argument(given, "pid"@) matches Err(reason)
                    && reason == message)
            },
        },
{
}

/// A list of regions is asked for by a process; 512 are listed unless another number is
/// asked for.
pub proof fn law_memory_regions_asked(given: JsonView)
    ensures
        match memory_regions_asked(given) {
            Ok(asked) => {
                &&& arguments::u32_argument(given, "pid"@) matches Ok(pid)
                    && asked.pid == pid
                &&& asked.limit == arguments::usize_or(given, "limit"@, 512)
            },
            Err(message) => {
                ||| (arguments::u32_argument(given, "pid"@) matches Err(reason)
                    && reason == message)
            },
        },
{
}

/// A list of imports is asked for by a process, and may name a module and what the
/// names of imports and libraries hold; 200 are listed unless another number is asked
/// for.
pub proof fn law_runtime_imports_asked(given: JsonView)
    ensures
        match runtime_imports_asked(given) {
            Ok(asked) => {
                &&& arguments::u32_argument(given, "pid"@) matches Ok(pid)
                    && asked.pid == pid
                &&& asked.module_name == arguments::optional_text(given, "module_name"@)
                &&& asked.name_contains == arguments::optional_text(given, "name_contains"@)
                &&& asked.dll_contains == arguments::optional_text(given, "dll_contains"@)
                &&& asked.max_results == arguments::usize_or(given, "max_results"@, 200)
            },
            Err(message) => {
                ||| (arguments::u32_argument(given, "pid"@) matches Err(reason)
                    && reason == message)
            },
        },
{
}

/// A list of exports is asked for by a process, and may name a module and what the
/// names of exports hold; 200 are listed unless another number is asked for.
pub proof fn law_runtime_exports_asked(given: JsonView)
    ensures
        match runtime_exports_asked(given) {
            Ok(asked) => {
                &&& arguments::u32_argument(given, "pid"@) matches Ok(pid)
                    && asked.pid == pid
                &&& asked.module_name == arguments::optional_text(given, "module_name"@)
                &&& asked.name_contains == arguments::optional_text(given, "name_contains"@)
                &&& asked.max_results == arguments::usize_or(given, "max_results"@, 200)
            },
            Err(message) => {
                ||| (arguments::u32_argument(given, "pid"@) matches Err(reason)
                    && reason == message)
            },
        },
{
}

/// A list of thunks is asked for by a process, and may name a module and what the names
/// of imports hold; 100 are listed unless another number is asked for.
pub proof fn law_resolve_iat_thunks_asked(given: JsonView)
    ensures
        match resolve_iat_thunks_asked(given) {
            Ok(asked) => {
                &&& arguments::u32_argument(given, "pid"@) matches Ok(pid)
                    && asked.pid == pid
                &&& asked.module_name == arguments::optional_text(given, "module_name"@)
                &&& asked.name_contains == arguments::optional_text(given, "name_contains"@)
                &&& asked.max_results == arguments::usize_or(given, "max_results"@, 100)
            },
            Err(message) => {
                ||| (arguments::u32_argument(given, "pid"@) matches Err(reason)
                    && reason == message)
            },
        },
{
}

/// The call sites of a target are asked for by a process and the target under either of
/// two names; fifty are told unless another number is asked for.
pub proof fn law_scan_x86_call_sites_asked(given: JsonView)
    ensures
        match scan_x86_call_sites_asked(given) {
            Ok(asked) => {
                &&& arguments::u32_argument(given, "pid"@) matches Ok(pid)
                    && asked.pid == pid
                &&& arguments::aliased_address(given, "target"@, "address"@) matches Ok(target)
                    && asked.target == target
                &&& asked.max_results == arguments::usize_or(given, "max_results"@, 50)
            },
            Err(message) => {
                ||| (arguments::u32_argument(given, "pid"@) matches Err(reason)
                    && reason == message)
                ||| (arguments::aliased_address(given, "target"@, "address"@) matches Err(reason)
                    && reason == message)
            },
        },
{
}

/// What leads up to the calls of a target is asked for by a process and the target
/// under either of two names; fifty calls, twelve instructions before each and 128
/// bytes back are told unless other numbers are asked for.
pub proof fn law_analyze_send_call_sites_asked(given: JsonView)
    ensures
        match analyze_send_call_sites_asked(given) {
            Ok(asked) => {
                &&& arguments::u32_argument(given, "pid"@) matches Ok(pid)
                    && asked.pid == pid
                &&& arguments::aliased_address(given, "target"@, "address"@) matches Ok(target)
                    && asked.target == target
                &&& asked.max_results == arguments::usize_or(given, "max_results"@, 50)
                &&& asked.max_preceding_instructions == arguments::usize_or(
                    given,
                    "max_preceding_instructions"@,
                    12,
                )
                &&& asked.backward_bytes == arguments::usize_or(given, "backward_bytes"@, 0x80)
            },
            Err(message) => {
                ||| (arguments::u32_argument(given, "pid"@) matches Err(reason)
                    && reason == message)
                ||| (arguments::aliased_address(given, "target"@, "address"@) matches Err(reason)
                    && reason == message)
            },
        },
{
}

/// The tables of a dispatcher are asked for by a process and the dispatcher under
/// either of two names, and may be given; eighty instructions and 256 entries are read
/// unless other numbers are asked for.
pub proof fn law_extract_dispatch_tables_asked(given: JsonView)
    ensures
        match extract_dispatch_tables_asked(given) {
            Ok(asked) => {
                &&& arguments::u32_argument(given, "pid"@) matches Ok(pid)
                    && asked.pid == pid
                &&& arguments::aliased_address(
                    given,
                    "dispatcher"@,
                    "address"@) matches Ok(dispatcher,
                )
                    && asked.dispatcher == dispatcher
                &&& arguments::maybe_address(given, "index_table"@) matches Ok(index_table)
                    && asked.index_table == index_table
                &&& arguments::maybe_address(given, "jump_table"@) matches Ok(jump_table)
                    && asked.jump_table == jump_table
                &&& asked.max_insn == arguments::usize_or(given, "max_insn"@, 80)
                &&& asked.max_entries == arguments::usize_or(given, "max_entries"@, 256)
            },
            Err(message) => {
                ||| (arguments::u32_argument(given, "pid"@) matches Err(reason)
                    && reason == message)
                ||| (arguments::aliased_address(
                    given,
                    "dispatcher"@,
                    "address"@) matches Err(reason,
                )
                    && reason == message)
                ||| (arguments::maybe_address(given, "index_table"@) matches Err(reason)
                    && reason == message)
                ||| (arguments::maybe_address(given, "jump_table"@) matches Err(reason)
                    && reason == message)
            },
        },
{
}

/// A chain of callers is asked for by a process and the target under either of two
/// names; three levels of twenty callers each are told unless other numbers are asked
/// for.
pub proof fn law_trace_call_chain_asked(given: JsonView)
    ensures
        match trace_call_chain_asked(given) {
            Ok(asked) => {
                &&& arguments::u32_argument(given, "pid"@) matches Ok(pid)
                    && asked.pid == pid
                &&& arguments::aliased_address(given, "target"@, "address"@) matches Ok(target)
                    && asked.target == target
                &&& asked.max_depth == arguments::usize_or(given, "max_depth"@, 3)
                &&& asked.max_callers_per_depth == arguments::usize_or(
                    given,
                    "max_callers_per_depth"@,
                    20,
                )
            },
            Err(message) => {
                ||| (arguments::u32_argument(given, "pid"@) matches Err(reason)
                    && reason == message)
                ||| (arguments::aliased_address(given, "target"@, "address"@) matches Err(reason)
                    && reason == message)
            },
        },
{
}

/// A search for a byte pattern is asked for by a process and the pattern, in a window
/// of 4096 bytes around an address where one is given, and else in the executable
/// regions unless others are asked for; twenty places are told unless another number is
/// asked for.
pub proof fn law_scan_bytes_asked(given: JsonView)
    ensures
        match scan_bytes_asked(given) {
            Ok(asked) => {
                &&& arguments::u32_argument(given, "pid"@) matches Ok(pid)
                    && asked.pid == pid
                &&& arguments::text_argument(given, "pattern"@) matches Ok(pattern)
                    && asked.pattern == pattern
                &&& arguments::maybe_address(given, "address"@) matches Ok(address)
                    && asked.address == address
                &&& options::scope_or(
                    given,
                    "region"@,
                    SnapshotScope::Executable) matches Ok(region,
                )
                    && asked.region == region
                &&& asked.max_results == arguments::usize_or(given, "max_results"@, 20)
                &&& asked.size == arguments::usize_or(given, "size"@, 4096)
            },
            Err(message) => {
                ||| (arguments::u32_argument(given, "pid"@) matches Err(reason)
                    && reason == message)
                ||| (arguments::text_argument(given, "pattern"@) matches Err(reason)
                    && reason == message)
                ||| (arguments::maybe_address(given, "address"@) matches Err(reason)
                    && reason == message)
                ||| (options::scope_or(
                    given,
                    "region"@,
                    SnapshotScope::Executable) matches Err(reason,
                )
                    && reason == message)
            },
        },
{
}

/// A search for pointers is asked for by a process and an address, in all regions
/// unless others are asked for; fifty places are told unless another number is asked
/// for.
pub proof fn law_scan_pointers_to_asked(given: JsonView)
    ensures
        match scan_pointers_to_asked(given) {
            Ok(asked) => {
                &&& arguments::u32_argument(given, "pid"@) matches Ok(pid)
                    && asked.pid == pid
                &&& arguments::address_argument(given, "address"@) matches Ok(address)
                    && asked.address == address
                &&& options::scope_or(given, "region"@, SnapshotScope::All) matches Ok(region)
                    && asked.region == region
                &&& asked.max_results == arguments::usize_or(given, "max_results"@, 50)
            },
            Err(message) => {
                ||| (arguments::u32_argument(given, "pid"@) matches Err(reason)
                    && reason == message)
                ||| (arguments::address_argument(given, "address"@) matches Err(reason)
                    && reason == message)
                ||| (options::scope_or(given, "region"@, SnapshotScope::All) matches Err(reason)
                    && reason == message)
            },
        },
{
}

/// The callers of a target are asked for by a process and the target under either of
/// two names; fifty are told unless another number is asked for.
pub proof fn law_scan_callers_asked(given: JsonView)
    ensures
        match scan_callers_asked(given) {
            Ok(asked) => {
                &&& arguments::u32_argument(given, "pid"@) matches Ok(pid)
                    && asked.pid == pid
                &&& arguments::aliased_address(given, "target"@, "address"@) matches Ok(target)
                    && asked.target == target
                &&& asked.max_results == arguments::usize_or(given, "max_results"@, 50)
            },
            Err(message) => {
                ||| (arguments::u32_argument(given, "pid"@) matches Err(reason)
                    && reason == message)
                ||| (arguments::aliased_address(given, "target"@, "address"@) matches Err(reason)
                    && reason == message)
            },
        },
{
}

/// A write is asked for by a process, an address and the bytes in hexadecimal.
pub proof fn law_mem_write_asked(given: JsonView)
    ensures
        mem_write_asked(given) matches Ok(asked) ==> {
            &&& arguments::u32_argument(given, "pid"@) == Ok::<u32, Seq<char>>(asked.pid)
            &&& arguments::address_argument(given, "address"@) == Ok::<Address, Seq<char>>(
                asked.address,
            )
            &&& arguments::text_argument(given, "hex_data"@) matches Ok(written)
                && arguments::hex_data(written) == Ok::<Seq<u8>, Seq<char>>(asked.bytes)
        },
        mem_write_asked(given) is Err ==> arguments::u32_argument(given, "pid"@) is Err
            || arguments::address_argument(given, "address"@) is Err || (arguments::text_argument(
            given,
            "hex_data"@,
        ) matches Ok(written) ==> arguments::hex_data(written) is Err),
{
}

/// A walk along pointers is asked for by a process, a base under either of two names, and
/// the offsets; 64 bytes are read at its end unless another number is asked for.
pub proof fn law_mem_read_chain_asked(given: JsonView)
    ensures
        mem_read_chain_asked(given) matches Ok(asked) ==> {
            &&& arguments::u32_argument(given, "pid"@) == Ok::<u32, Seq<char>>(asked.pid)
            &&& arguments::aliased_address(given, "base_address"@, "address"@) == Ok::<
                Address,
                Seq<char>,
            >(asked.base_address)
            &&& arguments::offset_list(
                match given.get("offsets"@) {
                    Some(JsonView::Text(listed)) => listed,
                    _ => ""@,
                },
            ) == Ok::<Seq<u64>, Seq<char>>(asked.offsets)
            &&& asked.final_size == arguments::usize_or(given, "final_size"@, 64)
        },
{
    reveal_strlit("");
    arguments::law_arguments(given, "offsets"@, 0);
    if let Some(JsonView::Text(listed)) = given.get("offsets"@) {
        if listed.len() == 0 {
            assert(listed =~= ""@);
        }
    }
}

/// A translation is asked for by a process and an address of either image; the static image
/// lies at `0x400000` unless another base is asked for.
pub proof fn law_correlate_addr_asked(given: JsonView)
    ensures
        correlate_addr_asked(given) matches Ok(asked) ==> {
            &&& arguments::u32_argument(given, "pid"@) == Ok::<u32, Seq<char>>(asked.pid)
            &&& arguments::maybe_address(given, "live_addr"@) == Ok::<Option<Address>, Seq<char>>(
                asked.live_addr,
            )
            &&& arguments::maybe_address(given, "static_addr"@) == Ok::<Option<Address>, Seq<char>>(
                asked.static_addr,
            )
            &&& match arguments::maybe_address(given, "ghidra_image_base"@) {
                Ok(Some(base)) => asked.ghidra_image_base == base,
                Ok(None) => asked.ghidra_image_base.0 == 0x40_0000,
                Err(_) => false,
            }
        },
{
}

/// A look at code is asked for by a process, an address and how many instructions; the
/// window is wide enough for them unless another size is asked for.
pub proof fn law_code_asked(given: JsonView, key: Seq<char>, default: usize, least: usize)
    ensures
        code_asked(given, key, default, least) matches Ok(asked) ==> {
            &&& arguments::u32_argument(given, "pid"@) == Ok::<u32, Seq<char>>(asked.pid)
            &&& arguments::address_argument(given, "address"@) == Ok::<Address, Seq<char>>(
                asked.address,
            )
            &&& asked.count == arguments::usize_or(given, key, default)
            &&& arguments::usize_argument(given, "window_size"@) matches Ok(size)
                ==> asked.window_size == size
            &&& arguments::usize_argument(given, "window_size"@) is Err ==> asked.window_size
                >= least && (asked.count * 15 <= usize::MAX ==> asked.window_size >= asked.count
                * 15 && (asked.window_size == least || asked.window_size == asked.count * 15))
        },
{
}

/// A text scan is asked for by a process and a pattern. What the caller leaves open is
/// filled in: all regions, both encodings for an expression and UTF-8 for a plain text, in
/// which case counts, fifty hits for an expression and twenty for a plain text.
pub proof fn law_scan_text_asked(given: JsonView, regex: bool, extension: Option<Seq<char>>)
    ensures
        scan_text_asked(given, regex, extension) matches Ok(asked) ==> {
            &&& arguments::u32_argument(given, "pid"@) == Ok::<u32, Seq<char>>(asked.pid)
            &&& arguments::text_argument(given, "pattern"@) == Ok::<Seq<char>, Seq<char>>(
                asked.query.pattern,
            )
            &&& asked.query.regex == regex
            &&& asked.query.case_sensitive == arguments::bool_or(given, "case_sensitive"@, true)
            &&& arguments::maybe_address(given, "address"@) == Ok::<Option<Address>, Seq<char>>(
                asked.address,
            )
            &&& options::scope_or(given, "region"@, SnapshotScope::All) == Ok::<
                SnapshotScope,
                Seq<char>,
            >(asked.region)
            &&& regex ==> options::encoding_or(given, TextEncoding::Both) == Ok::<
                TextEncoding,
                Seq<char>,
            >(asked.query.encoding)
            &&& !regex ==> options::encoding_or(given, TextEncoding::Utf8) == Ok::<
                TextEncoding,
                Seq<char>,
            >(asked.query.encoding)
            &&& regex ==> asked.max_results == arguments::usize_or(given, "max_results"@, 50)
            &&& !regex ==> asked.max_results == arguments::usize_or(given, "max_results"@, 20)
            &&& asked.full == arguments::bool_or(given, "full"@, false)
            &&& asked.out_path == arguments::optional_text(given, "out_path"@)
        },
{
}

/// A scan for a number is asked for by a process, a type and the number; a hundred places
/// are kept unless another number is asked for. A scan is narrowed down by the name of a
/// refinement, and only where candidates are given.
pub proof fn law_value_scan_asked(given: JsonView)
    ensures
        value_scan_start_asked(given) matches Ok(asked) ==> {
            &&& arguments::u32_argument(given, "pid"@) == Ok::<u32, Seq<char>>(asked.pid)
            &&& arguments::text_argument(given, "type"@) matches Ok(name)
                && options::named_value_type(name) == Ok::<ValueType, Seq<char>>(asked.value_type)
            &&& arguments::u64_argument(given, "exact"@) == Ok::<u64, Seq<char>>(asked.exact)
            &&& asked.max_results == arguments::usize_or(given, "max_results"@, 100)
        },
        value_scan_refine_asked(given) matches Ok(asked) ==> {
            &&& arguments::u32_argument(given, "pid"@) == Ok::<u32, Seq<char>>(asked.pid)
            &&& arguments::text_argument(given, "type"@) matches Ok(name)
                && options::named_value_type(name) == Ok::<ValueType, Seq<char>>(asked.value_type)
            &&& arguments::text_argument(given, "refinement"@) == Ok::<Seq<char>, Seq<char>>(
                asked.refinement_name,
            )
            &&& options::named_refinement(asked.refinement_name, given) == Ok::<
                ValueRefinement,
                Seq<char>,
            >(asked.refinement)
            &&& given.get("candidates"@) is Some
        },
        value_explain_asked(given) matches Ok(pid) ==> arguments::u32_argument(given, "pid"@)
            == Ok::<u32, Seq<char>>(pid) && given.get("candidate"@) is Some,
{
}

} // verus!
