//! The protocol: what is answered to a message, and how the result of a tool is
//! answered.

use vstd::prelude::*;

use crate::arguments;
use crate::json;
use crate::json::{Fields, Json, JsonView};
use crate::plain;
use crate::render_code;
use crate::render_scans;
use crate::render_tools;
use crate::tally;
use crate::text;
use crate::tools;
use crate::tools::Tool;

verus! {

pub const PROTOCOL_VERSION: &'static str = "2025-11-25";

pub const INSTRUCTIONS: &'static str = "Argus-rs is an AI-first runtime memory evidence and reverse-tracing tool. It models how experienced reversers work: anchor on runtime send/recv/decrypt/dispatch evidence, resolve imports/IAT/thunks, disassemble exact runtime bytes, walk caller/callee chains, inspect strings/globals/buffers, and only then form hypotheses. It does not make conclusions for the model; it returns addresses, module/RVA context, instructions, callers, callees, local evidence, and next-tool hints so GPT/Opus-class reasoning can verify or reject hypotheses.";

/// An answer.
pub open spec fn answer(id: JsonView, result: JsonView) -> JsonView {
    JsonView::Object(
        json::record()
            .push(("id"@, id))
            .push(("jsonrpc"@, JsonView::Text("2.0"@)))
            .push(("result"@, result)),
    )
}

pub fn response(id: Json, result: Json) -> (response: Json)
    ensures
        response.deep_view() == answer(id.deep_view(), result.deep_view()),
{
    Fields::new()
        .with("id", id)
        .with("jsonrpc", Json::text("2.0"))
        .with("result", result)
        .object()
}

/// An integer as a value.
pub open spec fn integer(n: i64) -> JsonView {
    if n < 0 {
        JsonView::Negative(n)
    } else {
        JsonView::Unsigned(n as u64)
    }
}

fn integer_to_json(n: i64) -> (json: Json)
    ensures
        json.deep_view() == integer(n),
{
    if n < 0 {
        Json::Negative(n)
    } else {
        Json::Unsigned(n as u64)
    }
}

/// An error.
pub open spec fn failure(id: JsonView, code: i64, message: Seq<char>) -> JsonView {
    JsonView::Object(
        json::record()
            .push(
                (
                    "error"@,
                    JsonView::Object(
                        json::record()
                            .push(("code"@, integer(code)))
                            .push(("message"@, JsonView::Text(message))),
                    ),
                ),
            )
            .push(("id"@, id))
            .push(("jsonrpc"@, JsonView::Text("2.0"@))),
    )
}

pub fn error(id: Json, code: i64, message: &str) -> (response: Json)
    ensures
        response.deep_view() == failure(id.deep_view(), code, message@),
{
    let told = Fields::new()
        .with("code", integer_to_json(code))
        .with("message", Json::text(message))
        .object();
    Fields::new().with("error", told).with("id", id).with("jsonrpc", Json::text("2.0")).object()
}

/// What is answered to a message that is no JSON.
pub open spec fn parse_failure(reason: Seq<char>) -> JsonView {
    failure(JsonView::Null, (-32700) as i64, "Parse error: "@ + reason)
}

pub fn parse_error(reason: &str) -> (response: Json)
    ensures
        response.deep_view() == parse_failure(reason@),
{
    let message = arguments::message("Parse error: ", reason);
    error(Json::Null, -32700, &message)
}

/// What the server says of itself.
pub open spec fn introduction(version: Seq<char>) -> JsonView {
    JsonView::Object(
        json::record()
            .push(
                (
                    "capabilities"@,
                    JsonView::Object(
                        json::record().push(
                            (
                                "tools"@,
                                JsonView::Object(
                                    json::record().push(("listChanged"@, JsonView::Bool(false))),
                                ),
                            ),
                        ),
                    ),
                ),
            )
            .push(("instructions"@, JsonView::Text(INSTRUCTIONS@)))
            .push(("protocolVersion"@, JsonView::Text(PROTOCOL_VERSION@)))
            .push(
                (
                    "serverInfo"@,
                    JsonView::Object(
                        json::record()
                            .push(("name"@, JsonView::Text("argus-rs"@)))
                            .push(("title"@, JsonView::Text("Argus Rust Memory Evidence MCP"@)))
                            .push(("version"@, JsonView::Text(version))),
                    ),
                ),
            ),
    )
}

fn introduce(version: &str) -> (json: Json)
    ensures
        json.deep_view() == introduction(version@),
{
    let tools = Fields::new().with("listChanged", Json::Bool(false)).object();
    let capabilities = Fields::new().with("tools", tools).object();
    let info = Fields::new()
        .with("name", Json::text("argus-rs"))
        .with("title", Json::text("Argus Rust Memory Evidence MCP"))
        .with("version", Json::text(version))
        .object();
    Fields::new()
        .with("capabilities", capabilities)
        .with("instructions", Json::text(INSTRUCTIONS))
        .with("protocolVersion", Json::text(PROTOCOL_VERSION))
        .with("serverInfo", info)
        .object()
}

/// What the server does with a message.
#[derive(Debug, PartialEq, Eq)]
pub enum Incoming {
    /// Nothing is answered.
    Ignored,
    /// This is answered.
    Answered(Json),
    /// A tool is called, and its result is answered under the identifier.
    Call { id: Json, name: String, arguments: Json },
}

#[verifier::ext_equal]
pub enum IncomingView {
    Ignored,
    Answered(JsonView),
    Call { id: JsonView, name: Seq<char>, arguments: JsonView },
}

impl DeepView for Incoming {
    type V = IncomingView;

    open spec fn deep_view(&self) -> IncomingView {
        match *self {
            Incoming::Ignored => IncomingView::Ignored,
            Incoming::Answered(response) => IncomingView::Answered(response.deep_view()),
            Incoming::Call { id, name, arguments } => IncomingView::Call {
                id: id.deep_view(),
                name: name@,
                arguments: arguments.deep_view(),
            },
        }
    }
}

/// A text in a field, or the empty one.
pub open spec fn text_of_field(value: JsonView, key: Seq<char>) -> Seq<char> {
    match value.get_text(key) {
        Some(found) => found,
        None => ""@,
    }
}

fn field_text<'a>(value: &'a Json, key: &str) -> (found: &'a str)
    ensures
        found@ == text_of_field(value.deep_view(), key@),
{
    match value.get_str(key) {
        Some(found) => found,
        None => "",
    }
}

/// What the server does with a message.
pub open spec fn incoming_of(request: JsonView, version: Seq<char>) -> IncomingView {
    let id = request.field("id"@);
    let method = text_of_field(request, "method"@);
    if method == "notifications/initialized"@ {
        IncomingView::Ignored
    } else if method == "initialize"@ {
        IncomingView::Answered(answer(id, introduction(version)))
    } else if method == "tools/list"@ {
        IncomingView::Answered(
            answer(id, JsonView::Object(json::record().push(("tools"@, tools::tool_list())))),
        )
    } else if method == "tools/call"@ {
        let params = request.field("params"@);
        IncomingView::Call {
            id,
            name: text_of_field(params, "name"@),
            arguments: params.field("arguments"@),
        }
    } else {
        IncomingView::Answered(failure(id, (-32601) as i64, "Method not found"@))
    }
}

/// What the server does with a message.
pub fn handle_jsonrpc_message(request: &Json, version: &str) -> (incoming: Incoming)
    ensures
        incoming.deep_view() == incoming_of(request.deep_view(), version@),
{
    let id = request.field("id").copy();
    let method = field_text(request, "method");
    if text::same_text(method, "notifications/initialized") {
        Incoming::Ignored
    } else if text::same_text(method, "initialize") {
        Incoming::Answered(response(id, introduce(version)))
    } else if text::same_text(method, "tools/list") {
        let listed = Fields::new().with("tools", tools::tools()).object();
        Incoming::Answered(response(id, listed))
    } else if text::same_text(method, "tools/call") {
        let params = request.field("params");
        Incoming::Call {
            id,
            name: field_text(params, "name").to_string(),
            arguments: params.field("arguments").copy(),
        }
    } else {
        Incoming::Answered(error(id, -32601, "Method not found"))
    }
}

/// What to say of a tool that is not there.
pub open spec fn unknown_tool(name: Seq<char>) -> Seq<char> {
    "unknown tool: "@ + name
}

/// The tool that is called, or what to say where there is none.
pub fn called_tool(name: &str) -> (result: Result<Tool, String>)
    ensures
        match tools::tool_called(name@) {
            Some(tool) => result == Ok::<Tool, String>(tool),
            None => result matches Err(message) && message@ == unknown_tool(name@),
        },
{
    match tools::tool_named(name) {
        Some(tool) => Ok(tool),
        None => Err(arguments::message("unknown tool: ", name)),
    }
}

/// Fields with one more, before the first whose name comes behind it.
pub open spec fn with_field(
    fields: Seq<(Seq<char>, JsonView)>,
    name: Seq<char>,
    value: JsonView,
) -> Seq<(Seq<char>, JsonView)>
    decreases fields.len(),
{
    if fields.len() == 0 || !tally::before(name, fields.last().0) {
        fields.push((name, value))
    } else {
        with_field(fields.drop_last(), name, value).push(fields.last())
    }
}

/// What this server is: how wide its addresses are, and what it runs on.
pub open spec fn own_context(native: Seq<char>) -> JsonView {
    JsonView::Object(
        json::record()
            .push(("address_width"@, JsonView::Unsigned(usize::BITS as u64)))
            .push(("target_arch"@, JsonView::Text(native))),
    )
}

/// A result that says what it is about: where it does not say so itself, the server
/// says what it runs on.
pub open spec fn in_context(value: JsonView, native: Seq<char>) -> JsonView {
    match value {
        JsonView::Object(fields) => if value.get("argus"@) is Some {
            value
        } else {
            JsonView::Object(with_field(fields, "argus"@, own_context(native)))
        },
        _ => value,
    }
}

fn insert_field(fields: &mut Vec<(String, Json)>, name: &str, value: Json)
    ensures
        final(fields).deep_view() == with_field(
            old(fields).deep_view(),
            name@,
            value.deep_view(),
        ),
{
    let ghost start = fields.deep_view();
    let ghost shown = value.deep_view();
    let mut i: usize = fields.len();
    proof {
        assert(start.len() == fields@.len());
        assert(start.take(i as int) =~= start);
        assert(with_field(start, name@, shown) =~= with_field(start.take(i as int), name@, shown)
            + start.skip(i as int));
    }
    while i > 0 && tally::is_before(name, &fields[i - 1].0)
        invariant
            i <= fields.len(),
            start == fields.deep_view(),
            start.len() == fields@.len(),
            with_field(start, name@, shown) == with_field(start.take(i as int), name@, shown)
                + start.skip(i as int),
        decreases i,
    {
        proof {
            let front = start.take(i as int);
            assert(front.last() == (fields@[i - 1].0@, fields@[i - 1].1.deep_view()));
            assert(front.drop_last() =~= start.take(i - 1));
            assert(start.skip(i - 1) =~= seq![front.last()] + start.skip(i as int));
            assert(with_field(front, name@, shown) == with_field(
                start.take(i - 1),
                name@,
                shown,
            ).push(front.last()));
            assert(with_field(front, name@, shown) + start.skip(i as int) =~= with_field(
                start.take(i - 1),
                name@,
                shown,
            ) + start.skip(i - 1));
        }
        i -= 1;
    }
    proof {
        let front = start.take(i as int);
        if i > 0 {
            assert(front.last() == (fields@[i - 1].0@, fields@[i - 1].1.deep_view()));
        }
        assert(with_field(front, name@, shown) == front.push((name@, shown)));
    }
    fields.insert(i, (name.to_string(), value));
    proof {
        assert(fields.deep_view() =~= start.take(i as int).push((name@, shown)) + start.skip(
            i as int,
        ));
    }
}

/// A result that says what it is about.
pub fn with_argus_context(value: Json, native: &str) -> (result: Json)
    ensures
        result.deep_view() == in_context(value.deep_view(), native@),
{
    if value.get("argus").is_some() {
        return value;
    }
    match value {
        Json::Object(mut fields) => {
            proof {
                Json::lemma_object(fields);
            }
            let context = Fields::new()
                .with("address_width", Json::Unsigned(usize::BITS as u64))
                .with("target_arch", Json::text(native))
                .object();
            insert_field(&mut fields, "argus", context);
            Json::object(fields)
        },
        other => other,
    }
}

/// The report of a tool as text.
pub open spec fn tool_text(name: Seq<char>, value: JsonView) -> Seq<char> {
    match tools::tool_called(name) {
        Some(Tool::MemRead) => render_tools::mem_read_text(value),
        Some(Tool::MemReadChain) => render_tools::mem_read_chain_text(value),
        Some(Tool::MemModules) => render_tools::page(render_tools::modules_lines(value)),
        Some(Tool::ReadStruct) => render_tools::read_struct_text(value),
        Some(Tool::ScanString) => render_tools::page(
            render_scans::text_scan_lines("scan_string"@, value),
        ),
        Some(Tool::ScanRegex) => render_tools::page(
            render_scans::text_scan_lines("scan_regex"@, value),
        ),
        Some(Tool::ScanBytes) => render_tools::page(render_scans::scan_bytes_lines(value)),
        Some(Tool::ScanPointersTo) => render_tools::page(render_scans::scan_pointers_lines(value)),
        Some(Tool::ScanCallers) => render_tools::page(render_scans::scan_callers_lines(value)),
        Some(Tool::DisasmAt) => render_code::disasm_text(value),
        Some(Tool::AnalyzeFunction) => render_code::analyze_function_text(value),
        Some(Tool::ScanX86CallSites) => render_tools::page(render_code::call_sites_lines(value)),
        Some(Tool::AnalyzeSendCallSites) => render_tools::page(
            render_code::send_sites_lines(value),
        ),
        Some(Tool::ExtractDispatchTables) => render_tools::page(render_code::dispatch_lines(value)),
        Some(Tool::TraceCallChain) => render_tools::page(render_code::trace_lines(value)),
        Some(Tool::Locate) => render_tools::page(render_scans::locate_lines(value)),
        Some(Tool::FindVtable) => render_code::find_vtable_text(value),
        Some(Tool::DiffStruct) => render_tools::page(render_code::diff_struct_lines(value)),
        _ => plain::plain_text(value),
    }
}

/// The report of a tool as text.
pub fn render_tool_text(name: &str, value: &Json) -> (text: String)
    ensures
        text@ == tool_text(name@, value.deep_view()),
{
    match tools::tool_named(name) {
        Some(Tool::MemRead) => render_tools::render_mem_read(value),
        Some(Tool::MemReadChain) => render_tools::render_mem_read_chain(value),
        Some(Tool::MemModules) => render_tools::render_mem_modules(value),
        Some(Tool::ReadStruct) => render_tools::render_read_struct(value),
        Some(Tool::ScanString) => render_scans::render_scan_string(value),
        Some(Tool::ScanRegex) => render_scans::render_scan_regex(value),
        Some(Tool::ScanBytes) => render_scans::render_scan_bytes(value),
        Some(Tool::ScanPointersTo) => render_scans::render_scan_pointers_to(value),
        Some(Tool::ScanCallers) => render_scans::render_scan_callers(value),
        Some(Tool::DisasmAt) => render_code::render_disasm_at(value),
        Some(Tool::AnalyzeFunction) => render_code::render_analyze_function(value),
        Some(Tool::ScanX86CallSites) => render_code::render_scan_x86_call_sites(value),
        Some(Tool::AnalyzeSendCallSites) => render_code::render_analyze_send_call_sites(value),
        Some(Tool::ExtractDispatchTables) => render_code::render_extract_dispatch_tables(value),
        Some(Tool::TraceCallChain) => render_code::render_trace_call_chain(value),
        Some(Tool::Locate) => render_scans::render_locate(value),
        Some(Tool::FindVtable) => render_code::render_find_vtable(value),
        Some(Tool::DiffStruct) => render_code::render_diff_struct(value),
        _ => plain::render_plain_text(value),
    }
}

/// A text as the result of a call.
pub open spec fn content(text: Seq<char>, is_error: bool) -> JsonView {
    JsonView::Object(
        json::record()
            .push(
                (
                    "content"@,
                    JsonView::Array(
                        seq![
                            JsonView::Object(
                                json::record()
                                    .push(("text"@, JsonView::Text(text)))
                                    .push(("type"@, JsonView::Text("text"@))),
                            ),
                        ],
                    ),
                ),
            )
            .push(("isError"@, JsonView::Bool(is_error))),
    )
}

fn text_content(text: &str, is_error: bool) -> (json: Json)
    ensures
        json.deep_view() == content(text@, is_error),
{
    let item = Fields::new()
        .with("text", Json::text(text))
        .with("type", Json::text("text"))
        .object();
    let ghost shown = item.deep_view();
    let mut items: Vec<Json> = Vec::new();
    items.push(item);
    proof {
        assert(items.deep_view() =~= seq![shown]);
    }
    Fields::new()
        .with("content", Json::array(items))
        .with("isError", Json::Bool(is_error))
        .object()
}

/// What is answered to a call: the report of the tool as text, or what went wrong.
pub open spec fn call_answer(
    id: JsonView,
    name: Seq<char>,
    result: Result<JsonView, Seq<char>>,
    native: Seq<char>,
) -> JsonView {
    match result {
        Ok(value) => answer(id, content(tool_text(name, in_context(value, native)), false)),
        Err(message) => answer(id, content(message, true)),
    }
}

/// What is answered to a call.
pub fn tool_response(id: Json, name: &str, result: Result<Json, String>, native: &str) -> (reply:
    Json)
    ensures
        reply.deep_view() == call_answer(
            id.deep_view(),
            name@,
            crate::requests::asked(result),
            native@,
        ),
{
    match result {
        Ok(value) => {
            let value = with_argus_context(value, native);
            let text = render_tool_text(name, &value);
            response(id, text_content(&text, false))
        },
        Err(message) => response(id, text_content(&message, true)),
    }
}

/// What an answer tells, and what an error: the identifier, and the result or the code and
/// the message.
pub proof fn law_answer_parts(id: JsonView, result: JsonView, code: i64, message: Seq<char>)
    ensures
        ({
            let told = answer(id, result);
            &&& json::holds(told, "id"@, id)
            &&& json::holds(told, "jsonrpc"@, JsonView::Text("2.0"@))
            &&& json::holds(told, "result"@, result)
        }),
        ({
            let told = failure(id, code, message);
            &&& json::holds(told, "id"@, id)
            &&& json::holds(told, "jsonrpc"@, JsonView::Text("2.0"@))
            &&& told.get("error"@) matches Some(fault) && json::holds(
                fault,
                "code"@,
                if code < 0 {
                    JsonView::Negative(code)
                } else {
                    JsonView::Unsigned(code as u64)
                },
            ) && json::holds(fault, "message"@, JsonView::Text(message))
        }),
        parse_failure(message) == failure(
            JsonView::Null,
            (-32700) as i64,
            "Parse error: "@ + message,
        ),
{
    let good = answer(id, result)->Object_0;
    assert(good[0].0 == "id"@);
    assert(good[1].0 == "jsonrpc"@);
    assert(good[2].0 == "result"@);
    let told = failure(id, code, message);
    let fields = told->Object_0;
    assert(fields[0].0 == "error"@);
    assert(fields[1].0 == "id"@);
    assert(fields[2].0 == "jsonrpc"@);
    json::law_get(told, "error"@);
    assert(fields[0].1->Object_0[0].0 == "code"@);
    assert(fields[0].1->Object_0[1].0 == "message"@);
}

/// What is done with a message: a tool call hands on the name and the arguments under its
/// identifier; a note that the client is ready is not answered; a client that begins is told
/// the version of the protocol, and one that asks for the tools is told their list.
pub proof fn law_incoming(request: JsonView, version: Seq<char>, method: Seq<char>)
    requires
        request.get_text("method"@) == Some(method),
    ensures
        ({
            let id = request.field("id"@);
            let done = incoming_of(request, version);
            &&& method == "notifications/initialized"@ ==> done == IncomingView::Ignored
            &&& method == "initialize"@ ==> exists|told: JsonView|
                #![trigger answer(id, told)]
                done == IncomingView::Answered(answer(id, told)) && json::holds(
                    told,
                    "protocolVersion"@,
                    JsonView::Text("2025-11-25"@),
                ) && json::holds(told, "instructions"@, JsonView::Text(INSTRUCTIONS@))
            &&& method == "tools/list"@ ==> exists|told: JsonView|
                #![trigger answer(id, told)]
                done == IncomingView::Answered(answer(id, told)) && json::holds(
                    told,
                    "tools"@,
                    tools::tool_list(),
                )
            &&& method == "tools/call"@ ==> (done matches IncomingView::Call {
                id: own,
                name,
                arguments,
            } && own == id && arguments == request.field("params"@).field("arguments"@)
                && name == (match request.field("params"@).get_text("name"@) {
                Some(given) => given,
                None => Seq::empty(),
            }))
            &&& method != "notifications/initialized"@ && method != "initialize"@ && method
                != "tools/list"@ && method != "tools/call"@ ==> done == IncomingView::Answered(
                failure(id, (-32601) as i64, "Method not found"@),
            )
        }),
{
    reveal_strlit("notifications/initialized");
    reveal_strlit("initialize");
    reveal_strlit("tools/list");
    reveal_strlit("tools/call");
    reveal_strlit("");
    let id = request.field("id"@);
    let told = introduction(version);
    let list = JsonView::Object(json::record().push(("tools"@, tools::tool_list())));
    assert("initialize"@.len() == 10 && "notifications/initialized"@.len() == 25
        && "tools/list"@.len() == 10 && "tools/call"@.len() == 10);
    assert("initialize"@[0] == 'i' && "tools/list"@[0] == 't' && "tools/list"@[6] == 'l'
        && "tools/call"@[6] == 'c' && "tools/call"@[0] == 't');
    assert(told->Object_0[1].0 == "instructions"@);
    assert(told->Object_0[2].0 == "protocolVersion"@);
    assert(list->Object_0[0].0 == "tools"@);
    if method == "initialize"@ {
        assert(incoming_of(request, version) == IncomingView::Answered(answer(id, told)));
    }
    if method == "tools/list"@ {
        assert(incoming_of(request, version) == IncomingView::Answered(answer(id, list)));
    }
}

proof fn lemma_with_field(
    fields: Seq<(Seq<char>, JsonView)>,
    name: Seq<char>,
    value: JsonView,
) -> (at: int)
    ensures
        0 <= at <= fields.len(),
        with_field(fields, name, value) == fields.insert(at, (name, value)),
        forall|i: int| at <= i < fields.len() ==> tally::before(name, (#[trigger] fields[i]).0),
        at > 0 ==> !tally::before(name, fields[at - 1].0),
    decreases fields.len(),
{
    if fields.len() == 0 || !tally::before(name, fields.last().0) {
        assert(fields.insert(fields.len() as int, (name, value)) =~= fields.push((name, value)));
        fields.len() as int
    } else {
        let front = fields.drop_last();
        let at = lemma_with_field(front, name, value);
        assert(front.insert(at, (name, value)).push(fields.last()) =~= fields.insert(
            at,
            (name, value),
        ));
        assert forall|i: int| at <= i < fields.len() implies tally::before(
            name,
            (#[trigger] fields[i]).0,
        ) by {
            if i < front.len() {
                assert(front[i] == fields[i]);
            }
        }
        at
    }
}

/// A result that does not say what it is about says so afterwards, and all else is as it was;
/// one that does, and one that is no object, stays as it is.
pub proof fn law_in_context(value: JsonView, native: Seq<char>)
    ensures
        value !is Object || value.get("argus"@) is Some ==> in_context(value, native) == value,
        value is Object && value.get("argus"@) is None ==> (exists|at: int|
            0 <= at <= value->Object_0.len() && in_context(value, native) == JsonView::Object(
                #[trigger] value->Object_0.insert(at, ("argus"@, own_context(native))),
            )),
        json::holds(own_context(native), "target_arch"@, JsonView::Text(native)),
        json::holds(own_context(native), "address_width"@, JsonView::Unsigned(usize::BITS as u64)),
{
    assert(own_context(native)->Object_0[0].0 == "address_width"@);
    assert(own_context(native)->Object_0[1].0 == "target_arch"@);
    if let JsonView::Object(fields) = value {
        let at = lemma_with_field(fields, "argus"@, own_context(native));
        assert(fields.insert(at, ("argus"@, own_context(native))) == with_field(
            fields,
            "argus"@,
            own_context(native),
        ));
    }
}

/// What is answered to a call: one text, which is the report of the tool or what went wrong,
/// and whether it went wrong.
pub proof fn law_call_answer(
    id: JsonView,
    name: Seq<char>,
    result: Result<JsonView, Seq<char>>,
    native: Seq<char>,
)
    ensures
        ({
            let told = call_answer(id, name, result, native);
            let text = match result {
                Ok(value) => tool_text(name, in_context(value, native)),
                Err(message) => message,
            };
            &&& json::holds(told, "id"@, id)
            &&& told.get("result"@) matches Some(shown) && json::holds(
                shown,
                "isError"@,
                JsonView::Bool(result is Err),
            ) && (shown.get("content"@) matches Some(JsonView::Array(rows)) && rows.len() == 1
                && json::holds(rows[0], "text"@, JsonView::Text(text)) && json::holds(
                rows[0],
                "type"@,
                JsonView::Text("text"@),
            ))
        }),
{
    let text = match result {
        Ok(value) => tool_text(name, in_context(value, native)),
        Err(message) => message,
    };
    let shown = content(text, result is Err);
    let told = call_answer(id, name, result, native);
    assert(told == answer(id, shown));
    law_answer_parts(id, shown, 0, ""@);
    reveal_strlit("id");
    reveal_strlit("jsonrpc");
    reveal_strlit("result");
    assert("id"@.len() == 2 && "jsonrpc"@.len() == 7 && "result"@.len() == 6);
    json::law_get(told, "result"@);
    json::law_get(shown, "content"@);
    assert(shown->Object_0[0].0 == "content"@);
    assert(shown->Object_0[1].0 == "isError"@);
    let row = shown->Object_0[0].1->Array_0[0];
    assert(row->Object_0[0].0 == "text"@);
    assert(row->Object_0[1].0 == "type"@);
}

} // verus!
