use argus::evidence::{
    Address, AddressContext, EvidenceContext, EvidenceHit, EvidenceValue, ModuleBase,
    ModuleContext, NextToolHint, RegionContext, RegionFlags, RegionKind, Rva, ToolArgument,
};
use argus::json::Json;
use argus::plain::render_plain_text;
use argus::processes::{find_processes, processes_find_request};
use argus::render_code::{
    render_analyze_function, render_analyze_send_call_sites, render_diff_struct, render_disasm_at,
    render_extract_dispatch_tables, render_find_vtable, render_scan_x86_call_sites,
    render_trace_call_chain,
};
use argus::render_scans::{
    render_locate, render_scan_bytes, render_scan_callers, render_scan_pointers_to,
    render_scan_string,
};
use argus::render_tools::{
    render_mem_modules, render_mem_read, render_mem_read_chain, render_read_struct,
};
use argus::reports::{processes_find_report, processes_list_report};
use argus::server::{
    called_tool, handle_jsonrpc_message, parse_error, tool_response, with_argus_context, Incoming,
};
use argus::shapes::hit_to_json;
use argus::snapshot::{region_read_limit, ProcessInfo, SnapshotScope};
use argus::tools::{all_tools, tool_named, Tool};
use serde_json::Value;

fn from_value(value: &Value) -> Json {
    match value {
        Value::Null => Json::Null,
        Value::Bool(truth) => Json::Bool(*truth),
        Value::Number(number) => match (number.as_u64(), number.as_i64()) {
            (Some(n), _) => Json::Unsigned(n),
            (None, Some(n)) => Json::Negative(n),
            (None, None) => Json::Float(number.to_string()),
        },
        Value::String(text) => Json::text(text),
        Value::Array(items) => Json::array(items.iter().map(from_value).collect()),
        Value::Object(fields) => Json::object(
            fields
                .iter()
                .map(|(name, inner)| (name.clone(), from_value(inner)))
                .collect(),
        ),
    }
}

fn parse(text: &str) -> Json {
    from_value(&serde_json::from_str(text).unwrap())
}

fn to_value(json: &Json) -> Value {
    match json {
        Json::Null => Value::Null,
        Json::Bool(truth) => Value::Bool(*truth),
        Json::Unsigned(n) => Value::from(*n),
        Json::Negative(n) => Value::from(*n),
        Json::Float(text) => serde_json::from_str(text).unwrap(),
        Json::Text(text) => Value::from(text.clone()),
        Json::Array(items) => Value::Array(items.iter().map(to_value).collect()),
        Json::Object(fields) => Value::Object(
            fields
                .iter()
                .map(|(name, inner)| (name.clone(), to_value(inner)))
                .collect(),
        ),
    }
}

fn answered(request: &str) -> Value {
    match handle_jsonrpc_message(&parse(request), "0.1.0") {
        Incoming::Answered(response) => to_value(&response),
        _ => panic!("not answered at once"),
    }
}

fn tool_text(response: &Json) -> String {
    let value = to_value(response);
    value["result"]["content"][0]["text"]
        .as_str()
        .unwrap()
        .to_string()
}

fn process(pid: u32, name: &str) -> ProcessInfo {
    ProcessInfo {
        pid,
        parent_pid: 4,
        thread_count: 8,
        name: name.to_string(),
    }
}

#[test]
fn all_scope_uses_module_limit_for_main_module_region() {
    assert_eq!(
        region_read_limit(SnapshotScope::All, true),
        SnapshotScope::Module.limits().0
    );
    assert_eq!(
        region_read_limit(SnapshotScope::All, false),
        SnapshotScope::All.limits().0
    );
}

#[test]
fn render_mem_modules_defaults_to_compact_list() {
    let modules = (0..20u64)
        .map(|idx| {
            parse(&format!(
                r#"{{"name": "mod{idx}.dll", "base": {}, "size": 4096}}"#,
                0x400000u64 + (idx * 0x10000)
            ))
        })
        .collect::<Vec<_>>();
    let text = render_mem_modules(&Json::object(vec![
        (
            "argus".to_string(),
            parse(r#"{"target_arch": "x86", "address_width": 32}"#),
        ),
        ("full".to_string(), Json::Bool(false)),
        ("max_results".to_string(), Json::Unsigned(3)),
        ("module_count".to_string(), Json::Unsigned(20)),
        ("modules".to_string(), Json::array(modules)),
        ("tool".to_string(), Json::text("mem_modules")),
    ]));

    assert!(text.contains("mem_modules: module_count: 20, target_arch: x86, address_width: 32"));
    assert!(text.contains("mod0.dll"));
    assert!(text.contains("mod2.dll"));
    assert!(!text.contains("mod3.dll"));
    assert!(text.contains("17 more omitted"));
}

#[test]
fn render_scan_bytes_caps_text_hits_and_keeps_module_context() {
    let hits = (0..14u64)
        .map(|idx| {
            parse(&format!(
                r#"{{"address": {},
                    "address_context": {{
                        "module": {{"name": "game.exe", "base": 4194304, "rva": {idx}}},
                        "region": {{"flags": {{"executable": true}}}}
                    }},
                    "context": {{"ascii_preview": "hit-{idx}"}}}}"#,
                0x401000u64 + idx
            ))
        })
        .collect::<Vec<_>>();
    let text = render_scan_bytes(&Json::object(vec![
        ("hit_count".to_string(), Json::Unsigned(14)),
        ("hits".to_string(), Json::array(hits)),
        ("pattern".to_string(), Json::text("FF 24 8D")),
        ("scan_scope".to_string(), Json::text("executable")),
        ("tool".to_string(), Json::text("scan_bytes")),
    ]));

    assert!(text.contains("scan_bytes FF 24 8D [executable]: 14 hit(s)"));
    assert!(text.contains("[exec:game.exe]"));
    assert!(text.contains("hit-11"));
    assert!(!text.contains("hit-12"));
    assert!(text.contains("2 returned hit(s) omitted"));
    assert_eq!(
        text.lines().nth(2).unwrap(),
        "0x401001  [exec:game.exe] (RVA 0x1)  hit-1"
    );
}

#[test]
fn initialize_returns_tools_capability_and_ai_instructions() {
    let response = answered(
        r#"{
            "jsonrpc": "2.0",
            "id": 1,
            "method": "initialize",
            "params": {
                "protocolVersion": "2025-11-25",
                "capabilities": {},
                "clientInfo": {"name": "test", "version": "0"}
            }
        }"#,
    );

    assert_eq!(response["jsonrpc"], "2.0");
    assert_eq!(response["id"], 1);
    assert_eq!(response["result"]["protocolVersion"], "2025-11-25");
    assert_eq!(
        response["result"]["capabilities"]["tools"]["listChanged"],
        false
    );
    assert!(response["result"]["instructions"]
        .as_str()
        .unwrap()
        .contains("does not make conclusions"));
    assert_eq!(response["result"]["serverInfo"]["version"], "0.1.0");
}

#[test]
fn tools_list_exposes_ai_first_memory_tools() {
    let response = answered(
        r#"{
            "jsonrpc": "2.0",
            "id": 2,
            "method": "tools/list",
            "params": {}
        }"#,
    );

    let tools = response["result"]["tools"].as_array().unwrap();
    let names: Vec<_> = tools
        .iter()
        .map(|tool| tool["name"].as_str().unwrap())
        .collect();

    assert!(names.contains(&"scan_string"));
    assert!(names.contains(&"scan_regex"));
    assert!(names.contains(&"scan_bytes"));
    assert!(names.contains(&"value_scan_start"));
    assert!(names.contains(&"mem_read"));
    assert!(names.contains(&"mem_write"));
    assert!(names.contains(&"mem_modules"));
    assert!(names.contains(&"memory_regions"));
    assert!(names.contains(&"mem_read_chain"));
    assert!(names.contains(&"read_struct"));
    assert!(names.contains(&"correlate_addr"));
    assert!(names.contains(&"locate"));
    assert!(names.contains(&"find_vtable"));
    assert!(names.contains(&"diff_struct"));
    assert!(names.contains(&"record_hypothesis"));
    assert!(names.contains(&"add_evidence"));
    assert!(names.contains(&"verify_hypothesis"));
    assert!(names.contains(&"query_hypotheses"));
    assert!(names.contains(&"real_rate"));
    assert!(names.contains(&"mem_attach"));
    assert!(names.contains(&"scan_pointers_to"));
    assert!(names.contains(&"scan_callers"));
    assert!(names.contains(&"value_scan_refine"));
    assert!(names.contains(&"value_explain"));
    assert!(names.contains(&"processes_list"));
    assert!(names.contains(&"processes_find"));
    assert!(names.contains(&"runtime_exports"));
    assert!(names.contains(&"resolve_api_targets"));
    assert!(names.contains(&"runtime_imports"));
    assert!(names.contains(&"resolve_iat_thunks"));
    assert!(names.contains(&"disasm_at"));
    assert!(names.contains(&"analyze_function"));
    assert!(names.contains(&"scan_x86_call_sites"));
    assert!(names.contains(&"analyze_send_call_sites"));
    assert!(names.contains(&"extract_dispatch_tables"));
    assert!(names.contains(&"trace_call_chain"));
    assert!(!names.contains(&"analysis_playbook"));
    assert!(!names.contains(&"find_dispatch_targets"));
    assert!(!names.contains(&"trace_packet_flow"));
    assert!(!names.contains(&"explain_send_recv_path"));
}

#[test]
fn unknown_method_returns_jsonrpc_error() {
    let response = answered(
        r#"{
            "jsonrpc": "2.0",
            "id": 3,
            "method": "nope",
            "params": {}
        }"#,
    );

    assert_eq!(response["error"]["code"], -32601);
}

#[test]
fn initialized_notification_produces_no_response() {
    let incoming = handle_jsonrpc_message(
        &parse(
            r#"{
                "jsonrpc": "2.0",
                "method": "notifications/initialized"
            }"#,
        ),
        "0.1.0",
    );

    assert_eq!(incoming, Incoming::Ignored);
}

#[test]
fn tools_call_processes_list_returns_process_table() {
    let list = vec![process(4, "System"), process(1200, "game.exe")];
    let report = processes_list_report(&parse("{}"), list);
    let response = tool_response(
        Json::Unsigned(12),
        "processes_list",
        Ok(report),
        "x86_64",
    );

    assert_eq!(to_value(&response)["result"]["isError"], false);
    let text = tool_text(&response);
    assert!(text.contains("processes_list"));
    assert!(text.contains("process_count:"));
    assert!(text.contains("processes:"));
    assert!(text.contains("process_count: 2"));
}

#[test]
fn tool_results_include_argus_address_width_context() {
    let list = vec![process(4, "System"), process(1200, "game.exe")];
    let report = processes_list_report(&parse(r#"{"limit": 1}"#), list);
    let response = tool_response(
        Json::Unsigned(20),
        "processes_list",
        Ok(report),
        "x86_64",
    );

    assert_eq!(to_value(&response)["result"]["isError"], false);
    let text = tool_text(&response);
    assert!(text.contains(&format!("address_width: {}", usize::BITS)));
    assert!(text.contains("target_arch:"));
    assert!(text.contains("process_count: 1"));
}

#[test]
fn evidence_hit_carries_ai_context_and_next_tools() {
    let hit = EvidenceHit {
        address: Address(0x401234),
        label: "Login".to_string(),
        address_context: AddressContext {
            module: Some(ModuleContext {
                name: "login.exe".to_string(),
                base: ModuleBase(0x400000),
                rva: Rva(0x1234),
            }),
            region: RegionContext {
                kind: RegionKind::Image,
                flags: RegionFlags {
                    readable: true,
                    writable: false,
                    executable: false,
                    guarded: false,
                },
            },
        },
        evidence: EvidenceValue::Utf8 {
            text: "Login failed".to_string(),
        },
        context: EvidenceContext {
            before: vec![0x00, 0x01],
            after: vec![0x02, 0x03],
            ascii_preview: "..Login failed..".to_string(),
        },
        next_tools: vec![NextToolHint {
            tool: "scan_pointers_to".to_string(),
            reason: "find code or data references to this string".to_string(),
            arguments: vec![ToolArgument {
                name: "address".to_string(),
                value: "0x401234".to_string(),
            }],
        }],
    };

    let json = serde_json::to_string(&to_value(&hit_to_json(&hit))).unwrap();

    assert!(json.contains("\"rva\":4660"));
    assert!(json.contains("\"tool\":\"scan_pointers_to\""));
    assert!(json.contains("\"ascii_preview\":\"..Login failed..\""));
    assert!(json.contains("\"evidence\":{\"Utf8\":{\"text\":\"Login failed\"}}"));
}

#[test]
fn every_tool_is_found_under_its_name() {
    let tools = all_tools();
    assert_eq!(tools.len(), 36);
    for tool in tools {
        assert_eq!(tool_named(tool.name()), Some(tool));
        assert_eq!(called_tool(tool.name()), Ok(tool));
    }
    assert_eq!(tool_named("mem_reads"), None);
    assert_eq!(
        called_tool("mem_reads"),
        Err("unknown tool: mem_reads".to_string())
    );
    assert_eq!(Tool::ScanX86CallSites.name(), "scan_x86_call_sites");
}

#[test]
fn a_listed_tool_says_what_it_takes() {
    let entry = to_value(&Tool::MemRead.describe());
    assert_eq!(entry["name"], "mem_read");
    assert_eq!(entry["title"], "Read Memory");
    assert_eq!(entry["inputSchema"]["type"], "object");
    let list = to_value(&Tool::ProcessesList.describe());
    assert_eq!(
        serde_json::to_string(&list["inputSchema"]).unwrap(),
        r#"{"properties":{"limit":{"default":200,"type":"integer"}},"type":"object"}"#
    );
}

#[test]
fn a_tool_call_is_taken_apart() {
    let incoming = handle_jsonrpc_message(
        &parse(
            r#"{"id": "a", "method": "tools/call",
                "params": {"name": "mem_read", "arguments": {"pid": 1}}}"#,
        ),
        "0.1.0",
    );
    assert_eq!(
        incoming,
        Incoming::Call {
            id: Json::text("a"),
            name: "mem_read".to_string(),
            arguments: parse(r#"{"pid": 1}"#),
        }
    );
    let bare = handle_jsonrpc_message(&parse(r#"{"method": "tools/call"}"#), "0.1.0");
    assert_eq!(
        bare,
        Incoming::Call {
            id: Json::Null,
            name: String::new(),
            arguments: Json::Null,
        }
    );
}

#[test]
fn a_failed_call_is_answered_with_its_message() {
    let response = tool_response(
        Json::Unsigned(5),
        "mem_read",
        Err("missing integer argument: pid".to_string()),
        "x86_64",
    );
    assert_eq!(
        response,
        parse(
            r#"{"id": 5, "jsonrpc": "2.0", "result": {"content":
                [{"text": "missing integer argument: pid", "type": "text"}], "isError": true}}"#
        )
    );
    assert_eq!(
        parse_error("EOF"),
        parse(
            r#"{"jsonrpc": "2.0", "id": null,
                "error": {"code": -32700, "message": "Parse error: EOF"}}"#
        )
    );
}

#[test]
fn the_context_is_put_in_its_place_once() {
    let shown = with_argus_context(parse(r#"{"address": 1, "tool": "x"}"#), "x86");
    assert_eq!(
        shown,
        parse(&format!(
            r#"{{"address": 1, "argus": {{"address_width": {}, "target_arch": "x86"}}, "tool": "x"}}"#,
            usize::BITS
        ))
    );
    let own = parse(r#"{"argus": 1, "tool": "x"}"#);
    assert_eq!(with_argus_context(own.clone(), "x86"), own);
    assert_eq!(with_argus_context(Json::Unsigned(3), "x86"), Json::Unsigned(3));
}

#[test]
fn any_value_is_shown_as_indented_lines() {
    let value = parse(
        r#"{
            "tool": "probe",
            "bytes": [1, 255],
            "count": 2,
            "empty": [],
            "items": [{"a": 1, "b": 2}, "x"],
            "kind": {"U32": 7},
            "none": null,
            "ratio": 0.5,
            "under": -3,
            "words": "a\nb"
        }"#,
    );
    assert_eq!(
        render_plain_text(&value),
        "probe\n  bytes: 01 ff\n  count: 2\n  empty: (none)\n  items:\n    -\n        a: 1\n        b: 2\n    - x\n  kind: U32(7)\n  none: -\n  ratio: 0.5\n  under: -3\n  words: a\\nb"
    );
}

#[test]
fn reads_are_shown_with_their_bytes() {
    let read = parse(
        r#"{"hit": {"address": 4198400, "evidence": {"Bytes": {"bytes": [72, 105]}},
            "context": {"ascii_preview": ".Hi."}}}"#,
    );
    assert_eq!(render_mem_read(&read), "0x401000  48 69\n.Hi.");
    assert_eq!(render_mem_read(&parse("{}")), "(no memory evidence)");
    let chain = parse(
        r#"{"chain": [16, 32], "final_address": 32, "final_bytes": [1], "ascii_preview": "."}"#,
    );
    assert_eq!(
        render_mem_read_chain(&chain),
        "chain: 0x10 -> 0x20\nfinal: 0x20\n01\n."
    );
    let words = parse(
        r#"{"words": [{"address": 16, "value_hex": "0x00000020",
            "pointer_target": {"address": 32}}]}"#,
    );
    assert_eq!(render_read_struct(&words), "0x10  0x00000020 -> 0x20");
    assert_eq!(render_read_struct(&parse("{}")), "(no struct words)");
}

#[test]
fn scans_are_shown_hit_by_hit() {
    let scan = parse(
        r#"{"pattern": "ab", "scan_scope": "all", "encoding": "utf8", "total_hit_count": 3,
            "out_path": "x.csv", "out_format": "csv",
            "hits": [{"address": 16, "encoding": "utf8", "text": "ab",
                "context": {"ascii_preview": "..ab.."}}]}"#,
    );
    assert_eq!(
        render_scan_string(&scan),
        "scan_string \"ab\" [all/utf8]: returned=1 total=3\nout: x.csv (csv)\n0x10  [utf8/heap]  ab  | ..ab..\n... 2 additional hit(s) not returned; use full=true with out_path for the complete set"
    );
    let pointers = parse(r#"{"address": 32, "hits": [{"address": 16}]}"#);
    assert_eq!(
        render_scan_pointers_to(&pointers),
        "scan_pointers_to 0x20: 1 hit(s)\n0x10  [heap]"
    );
    let callers = parse(
        r#"{"target": 32, "hits": [{"address": 16, "evidence": {"Caller": {"opcode": 232}}}]}"#,
    );
    assert_eq!(
        render_scan_callers(&callers),
        "scan_callers 0x20: 1 caller(s)\n0x10  call/jmp evidence"
    );
    assert_eq!(
        render_scan_callers(&parse(r#"{"target": 32}"#)),
        "scan_callers 0x20: (no callers)"
    );
    let located = parse(
        r#"{"query": "q", "results": [{"string_address": 1, "ref_site": 2,
            "function_start": null}]}"#,
    );
    assert_eq!(
        render_locate(&located),
        "locate \"q\": 1 hit(s)\n0x1 -> ref 0x2 -> fn ?"
    );
}

#[test]
fn code_is_shown_line_by_line() {
    let instruction = r#"{"address": 16, "bytes": [232, 0], "text": "call 20h",
        "call_target": 32, "string": "hi"}"#;
    let line = "0x10: e8 00                call 20h -> 0x20 ; \"hi\"";
    assert_eq!(
        render_disasm_at(&parse(&format!(r#"{{"instructions": [{instruction}]}}"#))),
        line
    );
    assert_eq!(render_disasm_at(&parse("{}")), "(no disassembly)");
    let function = parse(&format!(
        r#"{{"function": {{"address": 16, "end": 18, "instructions": [{instruction}],
            "callees": [32]}}}}"#
    ));
    assert_eq!(
        render_analyze_function(&function),
        format!("fn 0x10 -> 0x12\n{line}\ncallees: 0x20")
    );
    let sites = parse(&format!(
        r#"{{"target": 32, "call_sites": [{{"address": 16, "function_start": null,
            "instruction": {instruction}}}]}}"#
    ));
    assert_eq!(
        render_scan_x86_call_sites(&sites),
        format!("scan_x86_call_sites 0x20: 1 caller(s)\n0x10  fn ?  {line}")
    );
    let sends = parse(&format!(
        r#"{{"target": 32, "call_sites": [{{"call_site": {{"address": 16, "function_start": 8}},
            "pushes": [{{"width_bits": 8, "value": 5, "instruction": {instruction},
                "string": "s", "packet_name": "C_X"}}],
            "preceding_instructions": [{instruction}]}}]}}"#
    ));
    assert_eq!(
        render_analyze_send_call_sites(&sends),
        format!(
            "analyze_send_call_sites 0x20: 1 caller(s)\n0x10  fn 0x8\n  push8 0x5 @ 0x10  \"s\"  packet_name=C_X\n  prev: {line}"
        )
    );
    let chain = parse(
        r#"{"target": 32, "chain": [{"depth": 0, "target": 32,
            "callers": [{"address": 16, "function_start": 8}]}]}"#,
    );
    assert_eq!(
        render_trace_call_chain(&chain),
        "trace_call_chain 0x20\ndepth 0: target 0x20\n  0x10  fn 0x8"
    );
}

#[test]
fn tables_and_classes_are_shown() {
    let tables = parse(
        r#"{"dispatcher": 16, "index_table": 32, "jump_table": null,
            "candidates": [{"kind": "index", "address": 32, "score": 4}],
            "entries": [{"opcode": 5, "opcode_value_location": 37, "dispatch_index": 1,
                "stub": 64, "handler": null}]}"#,
    );
    assert_eq!(
        render_extract_dispatch_tables(&tables),
        "extract_dispatch_tables 0x10\nindex_table: 0x20\njump_table: ?\ncandidates:\n  index 0x20 score=4\nentries: 1\n  opcode 0x05 @ 0x25 -> index 1 -> stub 0x40 -> handler ?"
    );
    let class = parse(
        r#"{"evidence": {"class_name": "A", "vtable": 16, "type_descriptor": 32, "col": null,
            "methods": [{"index": 0, "address": 48}]}}"#,
    );
    assert_eq!(
        render_find_vtable(&class),
        "class A\n  vtable          0x10\n  type_descriptor 0x20\n  col             ?\n  methods:\n    [0] 0x30  "
    );
    assert_eq!(
        render_find_vtable(&parse(r#"{"evidence": {"error": "none"}}"#)),
        "none"
    );
    let structure = parse(
        r#"{"struct_name": "P", "live_address": 16, "field_count": 1, "ptr_field_count": 1,
            "fields": [{"offset": 4, "name": "next", "type": "P*", "raw_hex": "20000000",
                "pointer_target": {"address": 32}}]}"#,
    );
    assert_eq!(
        render_diff_struct(&structure),
        "struct P @ 0x10  fields=1 ptr_fields=1\n+0x4  next  P*  = 20000000 -> 0x20"
    );
}

#[test]
fn processes_are_found_by_any_mark() {
    let list = vec![
        process(4, "System"),
        process(10, "Game.exe"),
        process(11, "game-helper.exe"),
    ];
    let found = |given: &str| {
        find_processes(&list, &processes_find_request(&parse(given)).unwrap())
            .iter()
            .map(|process| process.pid)
            .collect::<Vec<_>>()
    };
    assert_eq!(found(r#"{"name_contains": "GAME"}"#), vec![10, 11]);
    assert_eq!(found(r#"{"exact_name": "game.exe"}"#), vec![10]);
    assert_eq!(found(r#"{"pid": 4}"#), vec![4]);
    assert_eq!(found(r#"{"name_contains": "game", "limit": 0}"#), vec![10]);
    assert_eq!(
        processes_find_request(&parse(r#"{"limit": 3}"#)),
        Err("processes_find requires name_contains, exact_name, or pid".to_string())
    );
    let report = processes_find_report(
        &processes_find_request(&parse(r#"{"pid": 4, "limit": 1}"#)).unwrap(),
        &list,
    );
    let text = tool_text(&tool_response(
        Json::Unsigned(13),
        "processes_find",
        Ok(report),
        "x86",
    ));
    assert!(text.contains("processes_find"));
    assert!(text.contains("pid: 4"));
}
