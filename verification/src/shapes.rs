//! Evidence as JSON values: each structure as an object of its fields, a choice as
//! an object of the variant's name, and an absent value as null.

use vstd::prelude::*;

use crate::analysis::{AnalyzedFunction, AnalyzedFunctionView, X86CallSite, X86CallSiteView};
use crate::callers::LocateResult;
use crate::decode::{RuntimeInstruction, RuntimeInstructionView};
use crate::dispatch::{
    DispatchTableCandidate, DispatchTableCandidateView, DispatchTableEntry,
};
use crate::evidence::{
    Address, AddressContext, AddressContextView, EvidenceContext, EvidenceContextView, EvidenceHit,
    EvidenceHitView, EvidenceValue, EvidenceValueView, ModuleContext, ModuleContextView,
    NextToolHint, NextToolHintView, RegionFlags, RegionKind, Rva, ToolArgument, ToolArgumentView,
};
use crate::flow::{
    CallChainNode, CallChainNodeView, PushEvidence, PushEvidenceView, SendCallSiteEvidence,
    SendCallSiteEvidenceView,
};
use crate::json;
use crate::json::{Fields, Json, JsonView};
use crate::memory::{ModuleInfo, ModuleInfoView};
use crate::pe::{
    IatThunk, IatThunkView, RuntimeExport, RuntimeExportView, RuntimeImport, RuntimeImportView,
};
use crate::rtti::{VtableEvidence, VtableEvidenceView, VtableMethod, VtableMethodView};
use crate::snapshot::{MemoryRegionInfo, ProcessInfo, ProcessInfoView};
use crate::text_scan::{TextHit, TextHitView};
use crate::values::{NumericValue, ValueCandidate, ValueType};

verus! {

/// An address as a number.
pub open spec fn address_json(address: Address) -> JsonView {
    JsonView::Unsigned(address.0)
}

/// An address as a number, or null where there is none.
pub open spec fn maybe_address(address: Option<Address>) -> JsonView {
    match address {
        Some(address) => address_json(address),
        None => JsonView::Null,
    }
}

/// Addresses as numbers.
pub open spec fn addresses_json(addresses: Seq<Address>) -> JsonView {
    JsonView::Array(addresses.map_values(|address: Address| address_json(address)))
}

pub fn address_to_json(address: Address) -> (json: Json)
    ensures
        json.deep_view() == address_json(address),
{
    Json::Unsigned(address.0)
}

pub fn maybe_address_to_json(address: Option<Address>) -> (json: Json)
    ensures
        json.deep_view() == maybe_address(address),
{
    match address {
        Some(address) => Json::Unsigned(address.0),
        None => Json::Null,
    }
}

pub fn addresses_to_json(addresses: &Vec<Address>) -> (json: Json)
    ensures
        json.deep_view() == addresses_json(addresses@),
{
    Json::plain_list(
        addresses,
        address_to_json,
        Ghost(|address: Address| address_json(address)),
    )
}

/// The name of a kind of region.
pub open spec fn kind_name(kind: RegionKind) -> Seq<char> {
    match kind {
        RegionKind::Image => "Image"@,
        RegionKind::Heap => "Heap"@,
        RegionKind::Stack => "Stack"@,
        RegionKind::Unknown => "Unknown"@,
    }
}

pub fn kind_label(kind: RegionKind) -> (label: &'static str)
    ensures
        label@ == kind_name(kind),
{
    match kind {
        RegionKind::Image => "Image",
        RegionKind::Heap => "Heap",
        RegionKind::Stack => "Stack",
        RegionKind::Unknown => "Unknown",
    }
}

/// What may be done with a region.
pub open spec fn flags_json(value: RegionFlags) -> JsonView {
    JsonView::Object(
        json::record()
            .push(("executable"@, JsonView::Bool(value.executable)))
            .push(("guarded"@, JsonView::Bool(value.guarded)))
            .push(("readable"@, JsonView::Bool(value.readable)))
            .push(("writable"@, JsonView::Bool(value.writable))),
    )
}

pub fn flags_to_json(value: RegionFlags) -> (json: Json)
    ensures
        json.deep_view() == flags_json(value),
{
    Fields::new()
        .with("executable", Json::Bool(value.executable))
        .with("guarded", Json::Bool(value.guarded))
        .with("readable", Json::Bool(value.readable))
        .with("writable", Json::Bool(value.writable))
        .object()
}

/// A region as the system reports it.
pub open spec fn region_json(value: MemoryRegionInfo) -> JsonView {
    JsonView::Object(
        json::record()
            .push(("base"@, address_json(value.base)))
            .push(("flags"@, flags_json(value.flags)))
            .push(("kind"@, JsonView::Text(kind_name(value.kind))))
            .push(("size"@, JsonView::Unsigned(value.size as u64))),
    )
}

pub fn region_to_json(value: MemoryRegionInfo) -> (json: Json)
    ensures
        json.deep_view() == region_json(value),
{
    Fields::new()
        .with("base", address_to_json(value.base))
        .with("flags", flags_to_json(value.flags))
        .with("kind", Json::text(kind_label(value.kind)))
        .with("size", Json::Unsigned(value.size as u64))
        .object()
}

/// A module.
pub open spec fn module_json(value: ModuleInfoView) -> JsonView {
    JsonView::Object(
        json::record()
            .push(("base"@, JsonView::Unsigned(value.base.0)))
            .push(("name"@, JsonView::Text(value.name)))
            .push(("size"@, JsonView::Unsigned(value.size as u64))),
    )
}

pub fn module_to_json(value: &ModuleInfo) -> (json: Json)
    ensures
        json.deep_view() == module_json(value.deep_view()),
{
    Fields::new()
        .with("base", Json::Unsigned(value.base.0))
        .with("name", Json::text(&value.name))
        .with("size", Json::Unsigned(value.size as u64))
        .object()
}

/// A process.
pub open spec fn process_json(value: ProcessInfoView) -> JsonView {
    JsonView::Object(
        json::record()
            .push(("name"@, JsonView::Text(value.name)))
            .push(("parent_pid"@, JsonView::Unsigned(value.parent_pid as u64)))
            .push(("pid"@, JsonView::Unsigned(value.pid as u64)))
            .push(("thread_count"@, JsonView::Unsigned(value.thread_count as u64))),
    )
}

pub fn process_to_json(value: &ProcessInfo) -> (json: Json)
    ensures
        json.deep_view() == process_json(value.deep_view()),
{
    Fields::new()
        .with("name", Json::text(&value.name))
        .with("parent_pid", Json::Unsigned(value.parent_pid as u64))
        .with("pid", Json::Unsigned(value.pid as u64))
        .with("thread_count", Json::Unsigned(value.thread_count as u64))
        .object()
}

/// A module, and where in it an address lies.
pub open spec fn module_context_json(value: ModuleContextView) -> JsonView {
    JsonView::Object(
        json::record()
            .push(("base"@, JsonView::Unsigned(value.base.0)))
            .push(("name"@, JsonView::Text(value.name)))
            .push(("rva"@, JsonView::Unsigned(value.rva.0))),
    )
}

pub fn module_context_to_json(value: &ModuleContext) -> (json: Json)
    ensures
        json.deep_view() == module_context_json(value.deep_view()),
{
    Fields::new()
        .with("base", Json::Unsigned(value.base.0))
        .with("name", Json::text(&value.name))
        .with("rva", Json::Unsigned(value.rva.0))
        .object()
}

/// A module, and where in it an address lies, or null where it lies in none.
pub open spec fn maybe_module(module: Option<ModuleContextView>) -> JsonView {
    match module {
        Some(module) => module_context_json(module),
        None => JsonView::Null,
    }
}

fn maybe_module_to_json(module: &Option<ModuleContext>) -> (json: Json)
    ensures
        json.deep_view() == maybe_module(module.deep_view()),
{
    match module {
        Some(module) => module_context_to_json(module),
        None => Json::Null,
    }
}

/// What an address lies in.
pub open spec fn address_context_json(value: AddressContextView) -> JsonView {
    JsonView::Object(
        json::record()
            .push(("module"@, maybe_module(value.module)))
            .push(
                (
                    "region"@,
                    JsonView::Object(
                        json::record()
                            .push(("flags"@, flags_json(value.region.flags)))
                            .push(("kind"@, JsonView::Text(kind_name(value.region.kind)))),
                    ),
                ),
            ),
    )
}

pub fn address_context_to_json(value: &AddressContext) -> (json: Json)
    ensures
        json.deep_view() == address_context_json(value.deep_view()),
{
    Fields::new()
        .with("module", maybe_module_to_json(&value.module))
        .with(
            "region",
            Fields::new()
                .with("flags", flags_to_json(value.region.flags))
                .with("kind", Json::text(kind_label(value.region.kind)))
                .object(),
        )
        .object()
}

/// What a hit shows: an object of one field, which has the name of the variant.
pub open spec fn evidence_json(value: EvidenceValueView) -> JsonView {
    match value {
        EvidenceValueView::Bytes { bytes } => variant(
            "Bytes"@,
            json::record().push(("bytes"@, json::byte_list(bytes)))),
        EvidenceValueView::Utf8 { text } => variant(
            "Utf8"@,
            json::record().push(("text"@, JsonView::Text(text)))),
        EvidenceValueView::Pointer { target } => variant(
            "Pointer"@,
            json::record().push(("target"@, address_json(target)))),
        EvidenceValueView::Caller { target, opcode } => variant(
            "Caller"@,
            json::record()
                .push(("opcode"@, JsonView::Unsigned(opcode as u64)))
                .push(("target"@, address_json(target)))),
        EvidenceValueView::IndirectCaller { target, opcode, pointer } => variant(
            "IndirectCaller"@,
            json::record()
                .push(("opcode"@, JsonView::Unsigned(opcode as u64)))
                .push(("pointer"@, address_json(pointer)))
                .push(("target"@, address_json(target)))),
        EvidenceValueView::Numeric { value_type, value } => variant(
            "Numeric"@,
            json::record()
                .push(("type_name"@, JsonView::Text(value_type)))
                .push(("value"@, JsonView::Text(value)))),
    }
}

/// An object of one field, which has the name of a variant.
pub open spec fn variant(name: Seq<char>, fields: Seq<(Seq<char>, JsonView)>) -> JsonView {
    JsonView::Object(json::record().push((name, JsonView::Object(fields))))
}

fn make_variant(name: &str, fields: Fields) -> (json: Json)
    ensures
        json.deep_view() == variant(name@, fields.deep_view()),
{
    Fields::new().with(name, fields.object()).object()
}

pub fn evidence_to_json(value: &EvidenceValue) -> (json: Json)
    ensures
        json.deep_view() == evidence_json(value.deep_view()),
{
    match value {
        EvidenceValue::Bytes { bytes } => make_variant(
            "Bytes",
            Fields::new().with("bytes", Json::bytes(bytes)),
        ),
        EvidenceValue::Utf8 { text } => make_variant(
            "Utf8",
            Fields::new().with("text", Json::text(text)),
        ),
        EvidenceValue::Pointer { target } => make_variant(
            "Pointer",
            Fields::new().with("target", address_to_json(*target)),
        ),
        EvidenceValue::Caller { target, opcode } => make_variant(
            "Caller",
            Fields::new().with("opcode", Json::Unsigned(*opcode as u64)).with(
                "target",
                address_to_json(*target),
            ),
        ),
        EvidenceValue::IndirectCaller { target, opcode, pointer } => make_variant(
            "IndirectCaller",
            Fields::new().with("opcode", Json::Unsigned(*opcode as u64)).with(
                "pointer",
                address_to_json(*pointer),
            ).with("target", address_to_json(*target)),
        ),
        EvidenceValue::Numeric { value_type, value } => make_variant(
            "Numeric",
            Fields::new().with("type_name", Json::text(value_type)).with(
                "value",
                Json::text(value),
            ),
        ),
    }
}

/// What stands around a hit.
pub open spec fn context_json(value: EvidenceContextView) -> JsonView {
    JsonView::Object(
        json::record()
            .push(("after"@, json::byte_list(value.after)))
            .push(("ascii_preview"@, JsonView::Text(value.ascii_preview)))
            .push(("before"@, json::byte_list(value.before))),
    )
}

pub fn context_to_json(value: &EvidenceContext) -> (json: Json)
    ensures
        json.deep_view() == context_json(value.deep_view()),
{
    Fields::new()
        .with("after", Json::bytes(&value.after))
        .with("ascii_preview", Json::text(&value.ascii_preview))
        .with("before", Json::bytes(&value.before))
        .object()
}

/// An argument of a hint.
pub open spec fn argument_json(value: ToolArgumentView) -> JsonView {
    JsonView::Object(
        json::record()
            .push(("name"@, JsonView::Text(value.name)))
            .push(("value"@, JsonView::Text(value.value))),
    )
}

pub fn argument_to_json(value: &ToolArgument) -> (json: Json)
    ensures
        json.deep_view() == argument_json(value.deep_view()),
{
    Fields::new()
        .with("name", Json::text(&value.name))
        .with("value", Json::text(&value.value))
        .object()
}

/// What to try next.
pub open spec fn hint_json(value: NextToolHintView) -> JsonView {
    JsonView::Object(
        json::record()
            .push(
                (
                    "arguments"@,
                    JsonView::Array(
                        value.arguments.map_values(|item: ToolArgumentView| argument_json(item)),
                    ),
                ),
            )
            .push(("reason"@, JsonView::Text(value.reason)))
            .push(("tool"@, JsonView::Text(value.tool))),
    )
}

pub fn hint_to_json(value: &NextToolHint) -> (json: Json)
    ensures
        json.deep_view() == hint_json(value.deep_view()),
{
    Fields::new()
        .with(
            "arguments",
            Json::list_of(
                &value.arguments,
                argument_to_json,
                Ghost(|item: ToolArgumentView| argument_json(item)),
            ),
        )
        .with("reason", Json::text(&value.reason))
        .with("tool", Json::text(&value.tool))
        .object()
}

/// A piece of evidence.
pub open spec fn hit_json(value: EvidenceHitView) -> JsonView {
    JsonView::Object(
        json::record()
            .push(("address"@, address_json(value.address)))
            .push(("address_context"@, address_context_json(value.address_context)))
            .push(("context"@, context_json(value.context)))
            .push(("evidence"@, evidence_json(value.evidence)))
            .push(("label"@, JsonView::Text(value.label)))
            .push(
                (
                    "next_tools"@,
                    JsonView::Array(
                        value.next_tools.map_values(|item: NextToolHintView| hint_json(item)),
                    ),
                ),
            ),
    )
}

pub fn hit_to_json(value: &EvidenceHit) -> (json: Json)
    ensures
        json.deep_view() == hit_json(value.deep_view()),
{
    Fields::new()
        .with("address", address_to_json(value.address))
        .with("address_context", address_context_to_json(&value.address_context))
        .with("context", context_to_json(&value.context))
        .with("evidence", evidence_to_json(&value.evidence))
        .with("label", Json::text(&value.label))
        .with(
            "next_tools",
            Json::list_of(
                &value.next_tools,
                hint_to_json,
                Ghost(|item: NextToolHintView| hint_json(item)),
            ),
        )
        .object()
}

/// An offset in a module, or null where there is none.
pub open spec fn maybe_rva(rva: Option<Rva>) -> JsonView {
    match rva {
        Some(rva) => JsonView::Unsigned(rva.0),
        None => JsonView::Null,
    }
}

fn maybe_rva_to_json(rva: Option<Rva>) -> (json: Json)
    ensures
        json.deep_view() == maybe_rva(rva),
{
    match rva {
        Some(rva) => Json::Unsigned(rva.0),
        None => Json::Null,
    }
}

/// An instruction.
pub open spec fn instruction_json(value: RuntimeInstructionView) -> JsonView {
    JsonView::Object(
        json::record()
            .push(("address"@, address_json(value.address)))
            .push(("bytes"@, json::byte_list(value.bytes)))
            .push(("call_target"@, maybe_address(value.call_target)))
            .push(("call_target_rva"@, maybe_rva(value.call_target_rva)))
            .push(("rva"@, maybe_rva(value.rva)))
            .push(("string"@, json::optional_text(value.string)))
            .push(("text"@, JsonView::Text(value.text))),
    )
}

pub fn instruction_to_json(value: &RuntimeInstruction) -> (json: Json)
    ensures
        json.deep_view() == instruction_json(value.deep_view()),
{
    Fields::new()
        .with("address", address_to_json(value.address))
        .with("bytes", Json::bytes(&value.bytes))
        .with("call_target", maybe_address_to_json(value.call_target))
        .with("call_target_rva", maybe_rva_to_json(value.call_target_rva))
        .with("rva", maybe_rva_to_json(value.rva))
        .with("string", Json::optional_text(&value.string))
        .with("text", Json::text(&value.text))
        .object()
}

/// A function.
pub open spec fn function_json(value: AnalyzedFunctionView) -> JsonView {
    JsonView::Object(
        json::record()
            .push(("address"@, address_json(value.address)))
            .push(("callees"@, addresses_json(value.callees)))
            .push(("end"@, address_json(value.end)))
            .push(
                (
                    "instructions"@,
                    JsonView::Array(
                        value.instructions.map_values(
                            |item: RuntimeInstructionView| instruction_json(item),
                        ),
                    ),
                ),
            ),
    )
}

pub fn function_to_json(value: &AnalyzedFunction) -> (json: Json)
    ensures
        json.deep_view() == function_json(value.deep_view()),
{
    Fields::new()
        .with("address", address_to_json(value.address))
        .with("callees", addresses_to_json(&value.callees))
        .with("end", address_to_json(value.end))
        .with(
            "instructions",
            Json::list_of(
                &value.instructions,
                instruction_to_json,
                Ghost(|item: RuntimeInstructionView| instruction_json(item)),
            ),
        )
        .object()
}

/// A call and the function that it stands in.
pub open spec fn call_site_json(value: X86CallSiteView) -> JsonView {
    JsonView::Object(
        json::record()
            .push(("address"@, address_json(value.address)))
            .push(("function_start"@, maybe_address(value.function_start)))
            .push(("instruction"@, instruction_json(value.instruction))),
    )
}

pub fn call_site_to_json(value: &X86CallSite) -> (json: Json)
    ensures
        json.deep_view() == call_site_json(value.deep_view()),
{
    Fields::new()
        .with("address", address_to_json(value.address))
        .with("function_start", maybe_address_to_json(value.function_start))
        .with("instruction", instruction_to_json(&value.instruction))
        .object()
}

/// A pushed argument.
pub open spec fn push_json(value: PushEvidenceView) -> JsonView {
    JsonView::Object(
        json::record()
            .push(("instruction"@, instruction_json(value.instruction)))
            .push(("packet_name"@, json::optional_text(value.packet_name)))
            .push(("string"@, json::optional_text(value.string)))
            .push(("value"@, JsonView::Unsigned(value.value as u64)))
            .push(("width_bits"@, JsonView::Unsigned(value.width_bits as u64))),
    )
}

pub fn push_to_json(value: &PushEvidence) -> (json: Json)
    ensures
        json.deep_view() == push_json(value.deep_view()),
{
    Fields::new()
        .with("instruction", instruction_to_json(&value.instruction))
        .with("packet_name", Json::optional_text(&value.packet_name))
        .with("string", Json::optional_text(&value.string))
        .with("value", Json::Unsigned(value.value as u64))
        .with("width_bits", Json::Unsigned(value.width_bits as u64))
        .object()
}

/// A call that sends, and what is pushed before it.
pub open spec fn send_site_json(value: SendCallSiteEvidenceView) -> JsonView {
    JsonView::Object(
        json::record()
            .push(("call_site"@, call_site_json(value.call_site)))
            .push(
                (
                    "preceding_instructions"@,
                    JsonView::Array(
                        value.preceding_instructions.map_values(
                            |item: RuntimeInstructionView| instruction_json(item),
                        ),
                    ),
                ),
            )
            .push(
                (
                    "pushes"@,
                    JsonView::Array(
                        value.pushes.map_values(|item: PushEvidenceView| push_json(item)),
                    ),
                ),
            ),
    )
}

pub fn send_site_to_json(value: &SendCallSiteEvidence) -> (json: Json)
    ensures
        json.deep_view() == send_site_json(value.deep_view()),
{
    Fields::new()
        .with("call_site", call_site_to_json(&value.call_site))
        .with(
            "preceding_instructions",
            Json::list_of(
                &value.preceding_instructions,
                instruction_to_json,
                Ghost(|item: RuntimeInstructionView| instruction_json(item)),
            ),
        )
        .with(
            "pushes",
            Json::list_of(
                &value.pushes,
                push_to_json,
                Ghost(|item: PushEvidenceView| push_json(item)),
            ),
        )
        .object()
}

/// A text, where it is referred to, and the function that does.
pub open spec fn located_json(value: LocateResult) -> JsonView {
    JsonView::Object(
        json::record()
            .push(("function_start"@, maybe_address(value.function_start)))
            .push(("ref_site"@, address_json(value.ref_site)))
            .push(("string_address"@, address_json(value.string_address))),
    )
}

pub fn located_to_json(value: LocateResult) -> (json: Json)
    ensures
        json.deep_view() == located_json(value),
{
    Fields::new()
        .with("function_start", maybe_address_to_json(value.function_start))
        .with("ref_site", address_to_json(value.ref_site))
        .with("string_address", address_to_json(value.string_address))
        .object()
}

/// An instruction, or null where there is none.
pub open spec fn maybe_instruction(value: Option<RuntimeInstructionView>) -> JsonView {
    match value {
        Some(instruction) => instruction_json(instruction),
        None => JsonView::Null,
    }
}

fn maybe_instruction_to_json(value: &Option<RuntimeInstruction>) -> (json: Json)
    ensures
        json.deep_view() == maybe_instruction(value.deep_view()),
{
    match value {
        Some(instruction) => instruction_to_json(instruction),
        None => Json::Null,
    }
}

/// A method of a class.
pub open spec fn method_json(value: VtableMethodView) -> JsonView {
    JsonView::Object(
        json::record()
            .push(("address"@, address_json(value.address)))
            .push(("index"@, JsonView::Unsigned(value.index as u64)))
            .push(("instruction"@, maybe_instruction(value.instruction)))
            .push(("prologue"@, json::byte_list(value.prologue))),
    )
}

pub fn method_to_json(value: &VtableMethod) -> (json: Json)
    ensures
        json.deep_view() == method_json(value.deep_view()),
{
    Fields::new()
        .with("address", address_to_json(value.address))
        .with("index", Json::Unsigned(value.index as u64))
        .with("instruction", maybe_instruction_to_json(&value.instruction))
        .with("prologue", Json::bytes(&value.prologue))
        .object()
}

/// A class.
pub open spec fn vtable_json(value: VtableEvidenceView) -> JsonView {
    JsonView::Object(
        json::record()
            .push(("class_name"@, JsonView::Text(value.class_name)))
            .push(("col"@, maybe_address(value.col)))
            .push(("decorated_name"@, JsonView::Text(value.decorated_name)))
            .push(("error"@, json::optional_text(value.error)))
            .push(
                (
                    "methods"@,
                    JsonView::Array(
                        value.methods.map_values(|item: VtableMethodView| method_json(item)),
                    ),
                ),
            )
            .push(("rtti_string"@, maybe_address(value.rtti_string)))
            .push(("type_descriptor"@, maybe_address(value.type_descriptor)))
            .push(("vtable"@, maybe_address(value.vtable))),
    )
}

pub fn vtable_to_json(value: &VtableEvidence) -> (json: Json)
    ensures
        json.deep_view() == vtable_json(value.deep_view()),
{
    Fields::new()
        .with("class_name", Json::text(&value.class_name))
        .with("col", maybe_address_to_json(value.col))
        .with("decorated_name", Json::text(&value.decorated_name))
        .with("error", Json::optional_text(&value.error))
        .with(
            "methods",
            Json::list_of(
                &value.methods,
                method_to_json,
                Ghost(|item: VtableMethodView| method_json(item)),
            ),
        )
        .with("rtti_string", maybe_address_to_json(value.rtti_string))
        .with("type_descriptor", maybe_address_to_json(value.type_descriptor))
        .with("vtable", maybe_address_to_json(value.vtable))
        .object()
}

/// A table that an address may be.
pub open spec fn candidate_json(value: DispatchTableCandidateView) -> JsonView {
    JsonView::Object(
        json::record()
            .push(("address"@, address_json(value.address)))
            .push(("kind"@, JsonView::Text(value.kind)))
            .push(("score"@, JsonView::Unsigned(value.score as u64))),
    )
}

pub fn candidate_to_json(value: &DispatchTableCandidate) -> (json: Json)
    ensures
        json.deep_view() == candidate_json(value.deep_view()),
{
    Fields::new()
        .with("address", address_to_json(value.address))
        .with("kind", Json::text(&value.kind))
        .with("score", Json::Unsigned(value.score as u64))
        .object()
}

/// An opcode, and where the tables lead it.
pub open spec fn entry_json(value: DispatchTableEntry) -> JsonView {
    JsonView::Object(
        json::record()
            .push(("dispatch_index"@, JsonView::Unsigned(value.dispatch_index as u64)))
            .push(("handler"@, maybe_address(value.handler)))
            .push(("jump_slot"@, maybe_address(value.jump_slot)))
            .push(("opcode"@, JsonView::Unsigned(value.opcode as u64)))
            .push(("opcode_value_location"@, address_json(value.opcode_value_location)))
            .push(("stub"@, maybe_address(value.stub))),
    )
}

pub fn entry_to_json(value: DispatchTableEntry) -> (json: Json)
    ensures
        json.deep_view() == entry_json(value),
{
    Fields::new()
        .with("dispatch_index", Json::Unsigned(value.dispatch_index as u64))
        .with("handler", maybe_address_to_json(value.handler))
        .with("jump_slot", maybe_address_to_json(value.jump_slot))
        .with("opcode", Json::Unsigned(value.opcode as u64))
        .with("opcode_value_location", address_to_json(value.opcode_value_location))
        .with("stub", maybe_address_to_json(value.stub))
        .object()
}

/// A step of a call chain.
pub open spec fn chain_node_json(value: CallChainNodeView) -> JsonView {
    JsonView::Object(
        json::record()
            .push(
                (
                    "callers"@,
                    JsonView::Array(
                        value.callers.map_values(|item: X86CallSiteView| call_site_json(item)),
                    ),
                ),
            )
            .push(("depth"@, JsonView::Unsigned(value.depth as u64)))
            .push(("target"@, address_json(value.target))),
    )
}

pub fn chain_node_to_json(value: &CallChainNode) -> (json: Json)
    ensures
        json.deep_view() == chain_node_json(value.deep_view()),
{
    Fields::new()
        .with(
            "callers",
            Json::list_of(
                &value.callers,
                call_site_to_json,
                Ghost(|item: X86CallSiteView| call_site_json(item)),
            ),
        )
        .with("depth", Json::Unsigned(value.depth as u64))
        .with("target", address_to_json(value.target))
        .object()
}

/// An ordinal, or null where there is none.
pub open spec fn maybe_ordinal(ordinal: Option<u16>) -> JsonView {
    match ordinal {
        Some(ordinal) => JsonView::Unsigned(ordinal as u64),
        None => JsonView::Null,
    }
}

fn maybe_ordinal_to_json(ordinal: Option<u16>) -> (json: Json)
    ensures
        json.deep_view() == maybe_ordinal(ordinal),
{
    match ordinal {
        Some(ordinal) => Json::Unsigned(ordinal as u64),
        None => Json::Null,
    }
}

/// An import.
pub open spec fn import_json(value: RuntimeImportView) -> JsonView {
    JsonView::Object(
        json::record()
            .push(("dll"@, JsonView::Text(value.dll)))
            .push(("iat_address"@, address_json(value.iat_address)))
            .push(("module"@, JsonView::Text(value.module)))
            .push(("name"@, JsonView::Text(value.name)))
            .push(("ordinal"@, maybe_ordinal(value.ordinal)))
            .push(("target"@, maybe_address(value.target))),
    )
}

pub fn import_to_json(value: &RuntimeImport) -> (json: Json)
    ensures
        json.deep_view() == import_json(value.deep_view()),
{
    Fields::new()
        .with("dll", Json::text(&value.dll))
        .with("iat_address", address_to_json(value.iat_address))
        .with("module", Json::text(&value.module))
        .with("name", Json::text(&value.name))
        .with("ordinal", maybe_ordinal_to_json(value.ordinal))
        .with("target", maybe_address_to_json(value.target))
        .object()
}

/// An export.
pub open spec fn export_json(value: RuntimeExportView) -> JsonView {
    JsonView::Object(
        json::record()
            .push(("address"@, address_json(value.address)))
            .push(("forwarder"@, json::optional_text(value.forwarder)))
            .push(("module"@, JsonView::Text(value.module)))
            .push(("name"@, JsonView::Text(value.name)))
            .push(("ordinal"@, JsonView::Unsigned(value.ordinal as u64)))
            .push(("rva"@, JsonView::Unsigned(value.rva.0))),
    )
}

pub fn export_to_json(value: &RuntimeExport) -> (json: Json)
    ensures
        json.deep_view() == export_json(value.deep_view()),
{
    Fields::new()
        .with("address", address_to_json(value.address))
        .with("forwarder", Json::optional_text(&value.forwarder))
        .with("module", Json::text(&value.module))
        .with("name", Json::text(&value.name))
        .with("ordinal", Json::Unsigned(value.ordinal as u64))
        .with("rva", Json::Unsigned(value.rva.0))
        .object()
}

/// A thunk of an import.
pub open spec fn thunk_json(value: IatThunkView) -> JsonView {
    JsonView::Object(
        json::record()
            .push(("import"@, import_json(value.import)))
            .push(("instruction"@, instruction_json(value.instruction)))
            .push(("thunk_address"@, address_json(value.thunk_address))),
    )
}

pub fn thunk_to_json(value: &IatThunk) -> (json: Json)
    ensures
        json.deep_view() == thunk_json(value.deep_view()),
{
    Fields::new()
        .with("import", import_to_json(&value.import))
        .with("instruction", instruction_to_json(&value.instruction))
        .with("thunk_address", address_to_json(value.thunk_address))
        .object()
}

/// A number that was read.
pub open spec fn value_json(value: NumericValue) -> JsonView {
    match value {
        NumericValue::U32(
            n,
        ) => JsonView::Object(json::record().push(("U32"@, JsonView::Unsigned(n as u64)))),
    }
}

/// A number that was read, or null where there is none.
pub open spec fn maybe_value(value: Option<NumericValue>) -> JsonView {
    match value {
        Some(value) => value_json(value),
        None => JsonView::Null,
    }
}

fn value_to_json(value: NumericValue) -> (json: Json)
    ensures
        json.deep_view() == value_json(value),
{
    match value {
        NumericValue::U32(n) => Fields::new().with("U32", Json::Unsigned(n as u64)).object(),
    }
}

fn maybe_value_to_json(value: Option<NumericValue>) -> (json: Json)
    ensures
        json.deep_view() == maybe_value(value),
{
    match value {
        Some(value) => value_to_json(value),
        None => Json::Null,
    }
}

/// The name of a type's variant.
pub open spec fn type_json(value: ValueType) -> JsonView {
    match value {
        ValueType::U32 => JsonView::Text("U32"@),
    }
}

fn type_to_json(value: ValueType) -> (json: Json)
    ensures
        json.deep_view() == type_json(value),
{
    match value {
        ValueType::U32 => Json::text("U32"),
    }
}

/// A place that may hold a value.
pub open spec fn value_candidate_json(value: ValueCandidate) -> JsonView {
    JsonView::Object(
        json::record()
            .push(("address"@, address_json(value.address)))
            .push(("previous_value"@, maybe_value(value.previous_value)))
            .push(("value"@, value_json(value.value)))
            .push(("value_type"@, type_json(value.value_type))),
    )
}

pub fn value_candidate_to_json(value: ValueCandidate) -> (json: Json)
    ensures
        json.deep_view() == value_candidate_json(value),
{
    Fields::new()
        .with("address", address_to_json(value.address))
        .with("previous_value", maybe_value_to_json(value.previous_value))
        .with("value", value_to_json(value.value))
        .with("value_type", type_to_json(value.value_type))
        .object()
}

/// A text that was found.
pub open spec fn text_hit_json(value: TextHitView) -> JsonView {
    JsonView::Object(
        json::record()
            .push(("address"@, address_json(value.address)))
            .push(
                (
                    "address_context"@,
                    JsonView::Object(
                        json::record()
                            .push(("module"@, maybe_module(value.module)))
                            .push(("region"@, region_json(value.region))),
                    ),
                ),
            )
            .push(
                (
                    "context"@,
                    JsonView::Object(
                        json::record()
                            .push(("ascii_preview"@, JsonView::Text(value.ascii_preview)))
                            .push(("offset"@, JsonView::Unsigned(value.offset as u64)))
                            .push(("region_scan_base"@, address_json(value.scan_base))),
                    ),
                ),
            )
            .push(("encoding"@, JsonView::Text(value.encoding.name())))
            .push(("text"@, JsonView::Text(value.text))),
    )
}

pub fn text_hit_to_json(value: &TextHit) -> (json: Json)
    ensures
        json.deep_view() == text_hit_json(value.deep_view()),
{
    Fields::new()
        .with("address", address_to_json(value.address))
        .with(
            "address_context",
            Fields::new()
                .with("module", maybe_module_to_json(&value.module))
                .with("region", region_to_json(value.region))
                .object(),
        )
        .with(
            "context",
            Fields::new()
                .with("ascii_preview", Json::text(&value.ascii_preview))
                .with("offset", Json::Unsigned(value.offset as u64))
                .with("region_scan_base", address_to_json(value.scan_base))
                .object(),
        )
        .with("encoding", Json::text(value.encoding.label()))
        .with("text", Json::text(&value.text))
        .object()
}

/// Under which name each part of what may be done with a region is told.
pub proof fn law_flags_parts(value: RegionFlags)
    ensures
        ({
            let told = flags_json(value);
            &&& json::holds(told, "executable"@, JsonView::Bool(value.executable))
            &&& json::holds(told, "guarded"@, JsonView::Bool(value.guarded))
            &&& json::holds(told, "readable"@, JsonView::Bool(value.readable))
            &&& json::holds(told, "writable"@, JsonView::Bool(value.writable))
        }),
{
    let told = flags_json(value)->Object_0;
    assert(told[0].0 == "executable"@);
    assert(told[1].0 == "guarded"@);
    assert(told[2].0 == "readable"@);
    assert(told[3].0 == "writable"@);
}

/// Under which name each part of a region as the system reports it is told.
pub proof fn law_region_parts(value: MemoryRegionInfo)
    ensures
        ({
            let told = region_json(value);
            &&& json::holds(told, "base"@, JsonView::Unsigned(value.base.0))
            &&& json::holds(told, "flags"@, flags_json(value.flags))
            &&& json::holds(told, "kind"@, JsonView::Text(kind_name(value.kind)))
            &&& json::holds(told, "size"@, JsonView::Unsigned(value.size as u64))
        }),
{
    let told = region_json(value)->Object_0;
    assert(told[0].0 == "base"@);
    assert(told[1].0 == "flags"@);
    assert(told[2].0 == "kind"@);
    assert(told[3].0 == "size"@);
}

/// Under which name each part of a module is told.
pub proof fn law_module_parts(value: ModuleInfoView)
    ensures
        ({
            let told = module_json(value);
            &&& json::holds(told, "base"@, JsonView::Unsigned(value.base.0))
            &&& json::holds(told, "name"@, JsonView::Text(value.name))
            &&& json::holds(told, "size"@, JsonView::Unsigned(value.size as u64))
        }),
{
    let told = module_json(value)->Object_0;
    assert(told[0].0 == "base"@);
    assert(told[1].0 == "name"@);
    assert(told[2].0 == "size"@);
}

/// Under which name each part of a process is told.
pub proof fn law_process_parts(value: ProcessInfoView)
    ensures
        ({
            let told = process_json(value);
            &&& json::holds(told, "name"@, JsonView::Text(value.name))
            &&& json::holds(told, "parent_pid"@, JsonView::Unsigned(value.parent_pid as u64))
            &&& json::holds(told, "pid"@, JsonView::Unsigned(value.pid as u64))
            &&& json::holds(told, "thread_count"@, JsonView::Unsigned(value.thread_count as u64))
        }),
{
    let told = process_json(value)->Object_0;
    assert(told[0].0 == "name"@);
    assert(told[1].0 == "parent_pid"@);
    assert(told[2].0 == "pid"@);
    assert(told[3].0 == "thread_count"@);
}

/// Under which name each part of a module, and of where in it an address lies, is told.
pub proof fn law_module_context_parts(value: ModuleContextView)
    ensures
        ({
            let told = module_context_json(value);
            &&& json::holds(told, "base"@, JsonView::Unsigned(value.base.0))
            &&& json::holds(told, "name"@, JsonView::Text(value.name))
            &&& json::holds(told, "rva"@, JsonView::Unsigned(value.rva.0))
        }),
{
    let told = module_context_json(value)->Object_0;
    assert(told[0].0 == "base"@);
    assert(told[1].0 == "name"@);
    assert(told[2].0 == "rva"@);
}

/// Under which name each part of what an address lies in is told.
pub proof fn law_address_context_parts(value: AddressContextView)
    ensures
        ({
            let told = address_context_json(value);
            &&& json::holds(told, "module"@, maybe_module(value.module))
            &&& json::holds(
                told,
                "region"@,
                JsonView::Object(
                    json::record()
                        .push(("flags"@, flags_json(value.region.flags)))
                        .push(("kind"@, JsonView::Text(kind_name(value.region.kind)))),
                ),
            )
        }),
{
    let told = address_context_json(value)->Object_0;
    assert(told[0].0 == "module"@);
    assert(told[1].0 == "region"@);
}

/// Under which name each part of what stands around a hit is told.
pub proof fn law_context_parts(value: EvidenceContextView)
    ensures
        ({
            let told = context_json(value);
            &&& json::holds(told, "after"@, json::byte_list(value.after))
            &&& json::holds(told, "ascii_preview"@, JsonView::Text(value.ascii_preview))
            &&& json::holds(told, "before"@, json::byte_list(value.before))
        }),
{
    let told = context_json(value)->Object_0;
    assert(told[0].0 == "after"@);
    assert(told[1].0 == "ascii_preview"@);
    assert(told[2].0 == "before"@);
}

/// Under which name each part of an argument of a hint is told.
pub proof fn law_argument_parts(value: ToolArgumentView)
    ensures
        ({
            let told = argument_json(value);
            &&& json::holds(told, "name"@, JsonView::Text(value.name))
            &&& json::holds(told, "value"@, JsonView::Text(value.value))
        }),
{
    let told = argument_json(value)->Object_0;
    assert(told[0].0 == "name"@);
    assert(told[1].0 == "value"@);
}

/// Under which name each part of what to try next is told.
pub proof fn law_hint_parts(value: NextToolHintView)
    ensures
        ({
            let told = hint_json(value);
            &&& json::holds(
                told,
                "arguments"@,
                JsonView::Array(
                    value.arguments.map_values(
                        |item: ToolArgumentView| argument_json(item),
                    ),
                ),
            )
            &&& json::holds(told, "reason"@, JsonView::Text(value.reason))
            &&& json::holds(told, "tool"@, JsonView::Text(value.tool))
        }),
{
    let told = hint_json(value)->Object_0;
    assert(told[0].0 == "arguments"@);
    assert(told[1].0 == "reason"@);
    assert(told[2].0 == "tool"@);
}

/// Under which name each part of a piece of evidence is told.
pub proof fn law_hit_parts(value: EvidenceHitView)
    ensures
        ({
            let told = hit_json(value);
            &&& json::holds(told, "address"@, JsonView::Unsigned(value.address.0))
            &&& json::holds(told, "address_context"@, address_context_json(value.address_context))
            &&& json::holds(told, "context"@, context_json(value.context))
            &&& json::holds(told, "evidence"@, evidence_json(value.evidence))
            &&& json::holds(told, "label"@, JsonView::Text(value.label))
            &&& json::holds(
                told,
                "next_tools"@,
                JsonView::Array(
                    value.next_tools.map_values(
                        |item: NextToolHintView| hint_json(item),
                    ),
                ),
            )
        }),
{
    let told = hit_json(value)->Object_0;
    assert(told[0].0 == "address"@);
    assert(told[1].0 == "address_context"@);
    assert(told[2].0 == "context"@);
    assert(told[3].0 == "evidence"@);
    assert(told[4].0 == "label"@);
    assert(told[5].0 == "next_tools"@);
}

/// Under which name each part of an instruction is told.
pub proof fn law_instruction_parts(value: RuntimeInstructionView)
    ensures
        ({
            let told = instruction_json(value);
            &&& json::holds(told, "address"@, JsonView::Unsigned(value.address.0))
            &&& json::holds(told, "bytes"@, json::byte_list(value.bytes))
            &&& json::holds(told, "call_target"@, maybe_address(value.call_target))
            &&& json::holds(told, "call_target_rva"@, maybe_rva(value.call_target_rva))
            &&& json::holds(told, "rva"@, maybe_rva(value.rva))
            &&& json::holds(told, "string"@, json::optional_text(value.string))
            &&& json::holds(told, "text"@, JsonView::Text(value.text))
        }),
{
    let told = instruction_json(value)->Object_0;
    assert(told[0].0 == "address"@);
    assert(told[1].0 == "bytes"@);
    assert(told[2].0 == "call_target"@);
    assert(told[3].0 == "call_target_rva"@);
    assert(told[4].0 == "rva"@);
    assert(told[5].0 == "string"@);
    assert(told[6].0 == "text"@);
}

/// Under which name each part of a function is told.
pub proof fn law_function_parts(value: AnalyzedFunctionView)
    ensures
        ({
            let told = function_json(value);
            &&& json::holds(told, "address"@, JsonView::Unsigned(value.address.0))
            &&& json::holds(told, "callees"@, addresses_json(value.callees))
            &&& json::holds(told, "end"@, JsonView::Unsigned(value.end.0))
            &&& json::holds(
                told,
                "instructions"@,
                JsonView::Array(
                    value.instructions.map_values(
                        |item: RuntimeInstructionView| instruction_json(item),
                    ),
                ),
            )
        }),
{
    let told = function_json(value)->Object_0;
    assert(told[0].0 == "address"@);
    assert(told[1].0 == "callees"@);
    assert(told[2].0 == "end"@);
    assert(told[3].0 == "instructions"@);
}

/// Under which name each part of a call, and the function that it stands in, is told.
pub proof fn law_call_site_parts(value: X86CallSiteView)
    ensures
        ({
            let told = call_site_json(value);
            &&& json::holds(told, "address"@, JsonView::Unsigned(value.address.0))
            &&& json::holds(told, "function_start"@, maybe_address(value.function_start))
            &&& json::holds(told, "instruction"@, instruction_json(value.instruction))
        }),
{
    let told = call_site_json(value)->Object_0;
    assert(told[0].0 == "address"@);
    assert(told[1].0 == "function_start"@);
    assert(told[2].0 == "instruction"@);
}

/// Under which name each part of a pushed argument is told.
pub proof fn law_push_parts(value: PushEvidenceView)
    ensures
        ({
            let told = push_json(value);
            &&& json::holds(told, "instruction"@, instruction_json(value.instruction))
            &&& json::holds(told, "packet_name"@, json::optional_text(value.packet_name))
            &&& json::holds(told, "string"@, json::optional_text(value.string))
            &&& json::holds(told, "value"@, JsonView::Unsigned(value.value as u64))
            &&& json::holds(told, "width_bits"@, JsonView::Unsigned(value.width_bits as u64))
        }),
{
    let told = push_json(value)->Object_0;
    assert(told[0].0 == "instruction"@);
    assert(told[1].0 == "packet_name"@);
    assert(told[2].0 == "string"@);
    assert(told[3].0 == "value"@);
    assert(told[4].0 == "width_bits"@);
}

/// Under which name each part of a call that sends, and of what is pushed before it, is told.
pub proof fn law_send_site_parts(value: SendCallSiteEvidenceView)
    ensures
        ({
            let told = send_site_json(value);
            &&& json::holds(told, "call_site"@, call_site_json(value.call_site))
            &&& json::holds(
                told,
                "preceding_instructions"@,
                JsonView::Array(
                    value.preceding_instructions.map_values(
                        |item: RuntimeInstructionView| instruction_json(item),
                    ),
                ),
            )
            &&& json::holds(
                told,
                "pushes"@,
                JsonView::Array(value.pushes.map_values(|item: PushEvidenceView| push_json(item))),
            )
        }),
{
    let told = send_site_json(value)->Object_0;
    assert(told[0].0 == "call_site"@);
    assert(told[1].0 == "preceding_instructions"@);
    assert(told[2].0 == "pushes"@);
}

/// Under which name each part of a text, of where it is referred to, and of the function
/// that does, is told.
pub proof fn law_located_parts(value: LocateResult)
    ensures
        ({
            let told = located_json(value);
            &&& json::holds(told, "function_start"@, maybe_address(value.function_start))
            &&& json::holds(told, "ref_site"@, JsonView::Unsigned(value.ref_site.0))
            &&& json::holds(told, "string_address"@, JsonView::Unsigned(value.string_address.0))
        }),
{
    let told = located_json(value)->Object_0;
    assert(told[0].0 == "function_start"@);
    assert(told[1].0 == "ref_site"@);
    assert(told[2].0 == "string_address"@);
}

/// Under which name each part of a method of a class is told.
pub proof fn law_method_parts(value: VtableMethodView)
    ensures
        ({
            let told = method_json(value);
            &&& json::holds(told, "address"@, JsonView::Unsigned(value.address.0))
            &&& json::holds(told, "index"@, JsonView::Unsigned(value.index as u64))
            &&& json::holds(told, "instruction"@, maybe_instruction(value.instruction))
            &&& json::holds(told, "prologue"@, json::byte_list(value.prologue))
        }),
{
    let told = method_json(value)->Object_0;
    assert(told[0].0 == "address"@);
    assert(told[1].0 == "index"@);
    assert(told[2].0 == "instruction"@);
    assert(told[3].0 == "prologue"@);
}

/// Under which name each part of a class is told.
pub proof fn law_vtable_parts(value: VtableEvidenceView)
    ensures
        ({
            let told = vtable_json(value);
            &&& json::holds(told, "class_name"@, JsonView::Text(value.class_name))
            &&& json::holds(told, "col"@, maybe_address(value.col))
            &&& json::holds(told, "decorated_name"@, JsonView::Text(value.decorated_name))
            &&& json::holds(told, "error"@, json::optional_text(value.error))
            &&& json::holds(
                told,
                "methods"@,
                JsonView::Array(
                    value.methods.map_values(
                        |item: VtableMethodView| method_json(item),
                    ),
                ),
            )
            &&& json::holds(told, "rtti_string"@, maybe_address(value.rtti_string))
            &&& json::holds(told, "type_descriptor"@, maybe_address(value.type_descriptor))
            &&& json::holds(told, "vtable"@, maybe_address(value.vtable))
        }),
{
    let told = vtable_json(value)->Object_0;
    assert(told[0].0 == "class_name"@);
    assert(told[1].0 == "col"@);
    assert(told[2].0 == "decorated_name"@);
    assert(told[3].0 == "error"@);
    assert(told[4].0 == "methods"@);
    assert(told[5].0 == "rtti_string"@);
    assert(told[6].0 == "type_descriptor"@);
    assert(told[7].0 == "vtable"@);
}

/// Under which name each part of a table that an address may be is told.
pub proof fn law_candidate_parts(value: DispatchTableCandidateView)
    ensures
        ({
            let told = candidate_json(value);
            &&& json::holds(told, "address"@, JsonView::Unsigned(value.address.0))
            &&& json::holds(told, "kind"@, JsonView::Text(value.kind))
            &&& json::holds(told, "score"@, JsonView::Unsigned(value.score as u64))
        }),
{
    let told = candidate_json(value)->Object_0;
    assert(told[0].0 == "address"@);
    assert(told[1].0 == "kind"@);
    assert(told[2].0 == "score"@);
}

/// Under which name an opcode is told, and where the tables lead it.
pub proof fn law_entry_parts(value: DispatchTableEntry)
    ensures
        ({
            let told = entry_json(value);
            &&& json::holds(
                told,
                "dispatch_index"@,
                JsonView::Unsigned(value.dispatch_index as u64),
            )
            &&& json::holds(told, "handler"@, maybe_address(value.handler))
            &&& json::holds(told, "jump_slot"@, maybe_address(value.jump_slot))
            &&& json::holds(told, "opcode"@, JsonView::Unsigned(value.opcode as u64))
            &&& json::holds(
                told,
                "opcode_value_location"@,
                JsonView::Unsigned(value.opcode_value_location.0),
            )
            &&& json::holds(told, "stub"@, maybe_address(value.stub))
        }),
{
    let told = entry_json(value)->Object_0;
    assert(told[0].0 == "dispatch_index"@);
    assert(told[1].0 == "handler"@);
    assert(told[2].0 == "jump_slot"@);
    assert(told[3].0 == "opcode"@);
    assert(told[4].0 == "opcode_value_location"@);
    assert(told[5].0 == "stub"@);
}

/// Under which name each part of a step of a call chain is told.
pub proof fn law_chain_node_parts(value: CallChainNodeView)
    ensures
        ({
            let told = chain_node_json(value);
            &&& json::holds(
                told,
                "callers"@,
                JsonView::Array(
                    value.callers.map_values(
                        |item: X86CallSiteView| call_site_json(item),
                    ),
                ),
            )
            &&& json::holds(told, "depth"@, JsonView::Unsigned(value.depth as u64))
            &&& json::holds(told, "target"@, JsonView::Unsigned(value.target.0))
        }),
{
    let told = chain_node_json(value)->Object_0;
    assert(told[0].0 == "callers"@);
    assert(told[1].0 == "depth"@);
    assert(told[2].0 == "target"@);
}

/// Under which name each part of an import is told.
pub proof fn law_import_parts(value: RuntimeImportView)
    ensures
        ({
            let told = import_json(value);
            &&& json::holds(told, "dll"@, JsonView::Text(value.dll))
            &&& json::holds(told, "iat_address"@, JsonView::Unsigned(value.iat_address.0))
            &&& json::holds(told, "module"@, JsonView::Text(value.module))
            &&& json::holds(told, "name"@, JsonView::Text(value.name))
            &&& json::holds(told, "ordinal"@, maybe_ordinal(value.ordinal))
            &&& json::holds(told, "target"@, maybe_address(value.target))
        }),
{
    let told = import_json(value)->Object_0;
    assert(told[0].0 == "dll"@);
    assert(told[1].0 == "iat_address"@);
    assert(told[2].0 == "module"@);
    assert(told[3].0 == "name"@);
    assert(told[4].0 == "ordinal"@);
    assert(told[5].0 == "target"@);
}

/// Under which name each part of an export is told.
pub proof fn law_export_parts(value: RuntimeExportView)
    ensures
        ({
            let told = export_json(value);
            &&& json::holds(told, "address"@, JsonView::Unsigned(value.address.0))
            &&& json::holds(told, "forwarder"@, json::optional_text(value.forwarder))
            &&& json::holds(told, "module"@, JsonView::Text(value.module))
            &&& json::holds(told, "name"@, JsonView::Text(value.name))
            &&& json::holds(told, "ordinal"@, JsonView::Unsigned(value.ordinal as u64))
            &&& json::holds(told, "rva"@, JsonView::Unsigned(value.rva.0))
        }),
{
    let told = export_json(value)->Object_0;
    assert(told[0].0 == "address"@);
    assert(told[1].0 == "forwarder"@);
    assert(told[2].0 == "module"@);
    assert(told[3].0 == "name"@);
    assert(told[4].0 == "ordinal"@);
    assert(told[5].0 == "rva"@);
}

/// Under which name each part of a thunk of an import is told.
pub proof fn law_thunk_parts(value: IatThunkView)
    ensures
        ({
            let told = thunk_json(value);
            &&& json::holds(told, "import"@, import_json(value.import))
            &&& json::holds(told, "instruction"@, instruction_json(value.instruction))
            &&& json::holds(told, "thunk_address"@, JsonView::Unsigned(value.thunk_address.0))
        }),
{
    let told = thunk_json(value)->Object_0;
    assert(told[0].0 == "import"@);
    assert(told[1].0 == "instruction"@);
    assert(told[2].0 == "thunk_address"@);
}

/// Under which name each part of a place that may hold a value is told.
pub proof fn law_value_candidate_parts(value: ValueCandidate)
    ensures
        ({
            let told = value_candidate_json(value);
            &&& json::holds(told, "address"@, JsonView::Unsigned(value.address.0))
            &&& json::holds(told, "previous_value"@, maybe_value(value.previous_value))
            &&& json::holds(told, "value"@, value_json(value.value))
            &&& json::holds(told, "value_type"@, type_json(value.value_type))
        }),
{
    let told = value_candidate_json(value)->Object_0;
    assert(told[0].0 == "address"@);
    assert(told[1].0 == "previous_value"@);
    assert(told[2].0 == "value"@);
    assert(told[3].0 == "value_type"@);
}

/// Under which name each part of a text that was found is told.
pub proof fn law_text_hit_parts(value: TextHitView)
    ensures
        ({
            let told = text_hit_json(value);
            &&& json::holds(told, "address"@, JsonView::Unsigned(value.address.0))
            &&& json::holds(
                told,
                "address_context"@,
                JsonView::Object(
                    json::record()
                        .push(("module"@, maybe_module(value.module)))
                        .push(("region"@, region_json(value.region))),
                ),
            )
            &&& json::holds(
                told,
                "context"@,
                JsonView::Object(
                    json::record()
                        .push(("ascii_preview"@, JsonView::Text(value.ascii_preview)))
                        .push(("offset"@, JsonView::Unsigned(value.offset as u64)))
                        .push(("region_scan_base"@, address_json(value.scan_base))),
                ),
            )
            &&& json::holds(told, "encoding"@, JsonView::Text(value.encoding.name()))
            &&& json::holds(told, "text"@, JsonView::Text(value.text))
        }),
{
    let told = text_hit_json(value)->Object_0;
    assert(told[0].0 == "address"@);
    assert(told[1].0 == "address_context"@);
    assert(told[2].0 == "context"@);
    assert(told[3].0 == "encoding"@);
    assert(told[4].0 == "text"@);
}

/// What is told of a piece of evidence: an object of one field, which has the name of the
/// kind of evidence and holds its parts.
pub proof fn law_evidence_parts(value: EvidenceValueView)
    ensures
        ({
            let told = evidence_json(value)->Object_0;
            &&& evidence_json(value) is Object && told.len() == 1
            &&& match value {
                EvidenceValueView::Bytes { bytes } => told[0].0 == "Bytes"@ && json::holds(
                    told[0].1,
                    "bytes"@,
                    json::byte_list(bytes),
                ),
                EvidenceValueView::Utf8 { text } => told[0].0 == "Utf8"@ && json::holds(
                    told[0].1,
                    "text"@,
                    JsonView::Text(text),
                ),
                EvidenceValueView::Pointer { target } => told[0].0 == "Pointer"@ && json::holds(
                    told[0].1,
                    "target"@,
                    JsonView::Unsigned(target.0),
                ),
                EvidenceValueView::Caller { target, opcode } => told[0].0 == "Caller"@
                    && json::holds(told[0].1, "opcode"@, JsonView::Unsigned(opcode as u64))
                    && json::holds(told[0].1, "target"@, JsonView::Unsigned(target.0)),
                EvidenceValueView::IndirectCaller { target, opcode, pointer } => told[0].0
                    == "IndirectCaller"@ && json::holds(
                    told[0].1,
                    "opcode"@,
                    JsonView::Unsigned(opcode as u64),
                ) && json::holds(told[0].1, "pointer"@, JsonView::Unsigned(pointer.0))
                    && json::holds(told[0].1, "target"@, JsonView::Unsigned(target.0)),
                EvidenceValueView::Numeric { value_type, value } => told[0].0 == "Numeric"@
                    && json::holds(told[0].1, "type_name"@, JsonView::Text(value_type))
                    && json::holds(told[0].1, "value"@, JsonView::Text(value)),
            }
        }),
{
    let parts = evidence_json(value)->Object_0[0].1->Object_0;
    match value {
        EvidenceValueView::Bytes { bytes } => {
            assert(parts[0].0 == "bytes"@);
        },
        EvidenceValueView::Utf8 { text } => {
            assert(parts[0].0 == "text"@);
        },
        EvidenceValueView::Pointer { target } => {
            assert(parts[0].0 == "target"@);
        },
        EvidenceValueView::Caller { target, opcode } => {
            assert(parts[0].0 == "opcode"@);
            assert(parts[1].0 == "target"@);
        },
        EvidenceValueView::IndirectCaller { target, opcode, pointer } => {
            assert(parts[0].0 == "opcode"@);
            assert(parts[1].0 == "pointer"@);
            assert(parts[2].0 == "target"@);
        },
        EvidenceValueView::Numeric { value_type, value } => {
            assert(parts[0].0 == "type_name"@);
            assert(parts[1].0 == "value"@);
        },
    }
}

/// What is told of what may be absent: the value itself, or null, and a kind of region by
/// its own name.
pub proof fn law_absent_is_null(
    address: Address,
    rva: Rva,
    ordinal: u16,
    module: ModuleContextView,
    instruction: RuntimeInstructionView,
    number: u32,
)
    ensures
        maybe_address(Some(address)) == JsonView::Unsigned(address.0),
        maybe_address(None) == JsonView::Null,
        maybe_rva(Some(rva)) == JsonView::Unsigned(rva.0),
        maybe_rva(None) == JsonView::Null,
        maybe_ordinal(Some(ordinal)) == JsonView::Unsigned(ordinal as u64),
        maybe_ordinal(None) == JsonView::Null,
        maybe_module(Some(module)) == module_context_json(module),
        maybe_module(None) == JsonView::Null,
        maybe_instruction(Some(instruction)) == instruction_json(instruction),
        maybe_instruction(None) == JsonView::Null,
        json::holds(
            value_json(NumericValue::U32(number)),
            "U32"@,
            JsonView::Unsigned(number as u64),
        ),
        maybe_value(None) == JsonView::Null,
        type_json(ValueType::U32) == JsonView::Text("U32"@),
        kind_name(RegionKind::Image) == "Image"@,
        kind_name(RegionKind::Heap) == "Heap"@,
        kind_name(RegionKind::Stack) == "Stack"@,
        kind_name(RegionKind::Unknown) == "Unknown"@,
{
    assert(value_json(NumericValue::U32(number))->Object_0[0].0 == "U32"@);
}

} // verus!
