use argus::bytes::{read_u16, read_u32, read_u64, write_le};
use argus::evidence::{Address, EvidenceValue, ModuleBase, RegionFlags, RegionKind, TargetArch};
use argus::find::find_bytes;
use argus::json::Json;
use argus::memory::{ArgusEngine, InMemoryBackend, MemoryRegion, ModuleInfo};
use argus::processes::{mem_attach_request, resolve_api_targets_request};
use argus::reports::{
    analyze_function_report, analyze_send_call_sites_report, disasm_at_report,
    extract_dispatch_tables_report, find_vtable_report, locate_report, mem_attach_report,
    mem_modules_report, mem_read_report, mem_write_report, memory_regions_report,
    resolve_api_targets_report, resolve_iat_thunks_report, runtime_exports_report,
    runtime_imports_report, scan_bytes_report, scan_callers_report, scan_pointers_to_report,
    scan_x86_call_sites_report, trace_call_chain_report, value_explain_report,
    value_scan_refine_report, value_scan_start_report,
};
use argus::requests::{
    analyze_function_request, analyze_send_call_sites_request, disasm_at_request,
    extract_dispatch_tables_request, find_vtable_request, locate_request, mem_modules_request,
    mem_read_request, mem_write_request, memory_regions_request, resolve_iat_thunks_request,
    runtime_exports_request, runtime_imports_request, scan_bytes_request, scan_callers_request,
    scan_pointers_to_request, scan_x86_call_sites_request, trace_call_chain_request,
    value_scan_refine_request, value_scan_start_request,
};
use argus::server::tool_response;
use argus::snapshot::MemoryRegionInfo;
use argus::values::{NumericValue, ValueCandidate, ValueRefinement, ValueType};
use serde_json::Value;

fn from_value(value: &Value) -> Json {
    match value {
        Value::Null => Json::Null,
        Value::Bool(truth) => Json::Bool(*truth),
        Value::Number(number) => match (number.as_u64(), number.as_i64()) {
            (Some(n), _) => Json::Unsigned(n),
            (None, Some(n)) => Json::Negative(n),
            (None, None) => Json::Float(number.to_string()),
        },
        Value::String(text) => Json::text(text),
        Value::Array(items) => Json::array(items.iter().map(from_value).collect()),
        Value::Object(fields) => Json::object(
            fields
                .iter()
                .map(|(name, inner)| (name.clone(), from_value(inner)))
                .collect(),
        ),
    }
}

fn parse(text: &str) -> Json {
    from_value(&serde_json::from_str(text).unwrap())
}

fn to_value(json: &Json) -> Value {
    match json {
        Json::Null => Value::Null,
        Json::Bool(truth) => Value::Bool(*truth),
        Json::Unsigned(n) => Value::from(*n),
        Json::Negative(n) => Value::from(*n),
        Json::Float(text) => serde_json::from_str(text).unwrap(),
        Json::Text(text) => Value::from(text.clone()),
        Json::Array(items) => Value::Array(items.iter().map(to_value).collect()),
        Json::Object(fields) => Value::Object(
            fields
                .iter()
                .map(|(name, inner)| (name.clone(), to_value(inner)))
                .collect(),
        ),
    }
}

fn shown(name: &str, report: Json) -> String {
    let reply = to_value(&tool_response(Json::Unsigned(1), name, Ok(report), "x86"));
    assert_eq!(reply["result"]["isError"], false);
    let text = reply["result"]["content"][0]["text"].as_str().unwrap();
    assert!(!text.contains("\"tool\""));
    text.to_string()
}

fn region(base: u64, bytes: Vec<u8>, executable: bool) -> MemoryRegion {
    MemoryRegion {
        base: Address(base),
        bytes,
        kind: RegionKind::Image,
        flags: RegionFlags {
            readable: true,
            writable: !executable,
            executable,
            guarded: false,
        },
    }
}

/// Code that calls 0x401010 from 0x401000 and returns, and data behind it: a text, a
/// pointer to the text, and a number.
fn engine() -> ArgusEngine {
    let mut code = vec![0xe8, 0x0b, 0x00, 0x00, 0x00, 0x90, 0x90, 0x90, 0xc3];
    code.resize(0x10, 0xcc);
    code.extend_from_slice(&[0x55, 0x89, 0xe5, 0x5d, 0xc3]);
    code.resize(0x20, 0xcc);
    let mut data = b"Login failed\0\0\0\0".to_vec();
    data.extend_from_slice(&0x402000u32.to_le_bytes());
    data.extend_from_slice(&0xaabb_ccddu32.to_le_bytes());
    ArgusEngine::new_for_target(
        InMemoryBackend {
            modules: vec![ModuleInfo {
                name: "login.exe".to_string(),
                base: ModuleBase(0x400000),
                size: 0x10000,
            }],
            regions: vec![region(0x401000, code, true), region(0x402000, data, false)],
        },
        TargetArch::X86,
    )
}

#[test]
fn a_read_is_shown_with_its_address() {
    let request =
        mem_read_request(&parse(r#"{"pid": 1, "address": "0x402000", "size": 5}"#)).unwrap();
    let text = shown("mem_read", mem_read_report(&engine(), request).unwrap());
    assert!(text.contains("0x402000"));
    assert!(text.contains("4c 6f 67 69 6e"));
    let nowhere = mem_read_request(&parse(r#"{"pid": 1, "address": 1, "size": 5}"#)).unwrap();
    assert!(mem_read_report(&engine(), nowhere).is_err());
}

#[test]
fn a_write_is_reported_with_its_bytes() {
    let request =
        mem_write_request(&parse(r#"{"pid": 1, "address": 16, "hex_data": "9090"}"#)).unwrap();
    let report = to_value(&mem_write_report(&request, 2));
    assert_eq!(report["bytes_written"], 2);
    assert_eq!(report["bytes"][1], 0x90);
}

#[test]
fn bytes_are_reported_wherever_they_match() {
    let request =
        scan_bytes_request(&parse(r#"{"pid": 1, "pattern": "90 ??", "max_results": 9}"#)).unwrap();
    let report = scan_bytes_report(&engine(), &request).unwrap();
    assert_eq!(to_value(&report)["hit_count"], 3);
    let text = shown("scan_bytes", report);
    assert!(text.contains("0x401005"));
    assert!(text.contains("0x401007"));
    let broken = scan_bytes_request(&parse(r#"{"pid": 1, "pattern": "GG"}"#)).unwrap();
    assert!(scan_bytes_report(&engine(), &broken).is_err());
}

#[test]
fn pointers_are_reported_where_they_point() {
    let request =
        scan_pointers_to_request(&parse(r#"{"pid": 1, "address": "0x402000"}"#)).unwrap();
    let report = scan_pointers_to_report(&engine(), request);
    assert_eq!(to_value(&report)["hit_count"], 1);
    assert!(shown("scan_pointers_to", report).contains("0x402010"));
    let hits = engine().scan_pointers_to(Address(0x402000), 9);
    assert_eq!(
        hits[0].evidence,
        EvidenceValue::Pointer {
            target: Address(0x402000)
        }
    );
    assert_eq!(
        engine().read_pointer_at(hits[0].address),
        Some(Address(0x402000))
    );
    assert!(engine().scan_pointers_to(Address(1 << 40), 9).is_empty());
}

#[test]
fn callers_are_reported_where_they_call() {
    let request = scan_callers_request(&parse(r#"{"pid": 1, "target": "0x401010"}"#)).unwrap();
    let report = scan_callers_report(&engine(), request);
    assert_eq!(to_value(&report)["hit_count"], 1);
    assert!(shown("scan_callers", report).contains("0x401000"));
    let request =
        scan_x86_call_sites_request(&parse(r#"{"pid": 1, "target": "0x401010"}"#)).unwrap();
    let text = shown(
        "scan_x86_call_sites",
        scan_x86_call_sites_report(&engine(), request),
    );
    assert!(text.contains("0x401000"));
}

#[test]
fn instructions_follow_on_each_other() {
    let request =
        disasm_at_request(&parse(r#"{"pid": 1, "address": "0x401000", "count": 8}"#)).unwrap();
    let text = shown("disasm_at", disasm_at_report(&engine(), request));
    assert!(text.contains("call"));
    assert!(text.contains("nop"));
    let instructions = engine().disasm_at(Address(0x401000), 8);
    assert_eq!(instructions[0].address, Address(0x401000));
    assert_eq!(instructions[0].call_target, Some(Address(0x401010)));
    for pair in instructions.windows(2) {
        assert_eq!(
            pair[1].address.0,
            pair[0].address.0 + pair[0].bytes.len() as u64
        );
    }
    assert_eq!(instructions.last().unwrap().text, "ret");
}

#[test]
fn a_function_lists_its_callees_once() {
    let request =
        analyze_function_request(&parse(r#"{"pid": 1, "address": "0x401000"}"#)).unwrap();
    let text = shown(
        "analyze_function",
        analyze_function_report(&engine(), request),
    );
    assert!(text.contains("0x401010"));
    let function = engine().analyze_function(Address(0x401000), 8).unwrap();
    assert_eq!(function.callees, vec![Address(0x401010)]);
}

#[test]
fn a_chain_of_callers_names_no_function_twice() {
    let request = trace_call_chain_request(&parse(
        r#"{"pid": 1, "target": "0x401010", "max_depth": 4}"#,
    ))
    .unwrap();
    let report = to_value(&trace_call_chain_report(&engine(), request));
    assert_eq!(report["tool"], "trace_call_chain");
    let chain = engine().trace_call_chain(Address(0x401010), 4, 8);
    let mut targets: Vec<u64> = chain.iter().map(|level| level.target.0).collect();
    let count = targets.len();
    targets.sort();
    targets.dedup();
    assert_eq!(targets.len(), count);
    assert_eq!(chain[0].target, Address(0x401010));
}

#[test]
fn an_unchanged_number_stays_a_candidate() {
    let request = value_scan_start_request(&parse(
        r#"{"pid": 1, "type": "u32", "exact": 2864434397}"#,
    ))
    .unwrap();
    let report = to_value(&value_scan_start_report(&engine(), request));
    assert_eq!(report["candidate_count"], 1);
    let candidate = ValueCandidate {
        address: Address(0x402014),
        value_type: ValueType::U32,
        value: NumericValue::U32(0xaabb_ccdd),
        previous_value: None,
    };
    let request = value_scan_refine_request(&parse(
        r#"{"pid": 1, "type": "u32", "refinement": "unchanged", "candidates": []}"#,
    ))
    .unwrap();
    let kept = to_value(&value_scan_refine_report(&engine(), &request, vec![candidate]));
    assert_eq!(kept["candidate_count"], 1);
    let text = shown(
        "value_scan_refine",
        value_scan_refine_report(&engine(), &request, vec![candidate]),
    );
    assert!(text.contains("candidate_count:"));
    let text = shown(
        "value_explain",
        value_explain_report(&engine(), &candidate).unwrap(),
    );
    assert!(text.contains("0x"));
    assert!(text.contains("Numeric"));
    let gone = ValueCandidate {
        address: Address(1),
        ..candidate
    };
    assert!(value_explain_report(&engine(), &gone).is_err());
}

#[test]
fn a_refinement_keeps_only_what_it_accepts() {
    let candidate = |value| ValueCandidate {
        address: Address(0x402014),
        value_type: ValueType::U32,
        value: NumericValue::U32(value),
        previous_value: None,
    };
    let kept = |refinement, before| {
        let session = engine().value_scan_refine(
            &argus::values::ValueScanSession {
                value_type: ValueType::U32,
                candidates: vec![candidate(before)],
            },
            refinement,
        );
        session.candidates.len()
    };
    let now = 0xaabb_ccdd;
    assert_eq!(kept(ValueRefinement::Unchanged, now), 1);
    assert_eq!(kept(ValueRefinement::Changed, now), 0);
    assert_eq!(kept(ValueRefinement::Increased, now - 1), 1);
    assert_eq!(kept(ValueRefinement::Increased, now + 1), 0);
    assert_eq!(kept(ValueRefinement::Decreased, now + 1), 1);
    assert_eq!(kept(ValueRefinement::ExactU64(now as u64), 0), 1);
    assert_eq!(kept(ValueRefinement::ExactU64(7), 7), 0);
}

#[test]
fn modules_and_regions_are_listed() {
    let modules = vec![ModuleInfo {
        name: "login.exe".to_string(),
        base: ModuleBase(0x400000),
        size: 0x10000,
    }];
    let request = mem_modules_request(&parse(r#"{"pid": 1}"#)).unwrap();
    let text = shown(
        "mem_modules",
        mem_modules_report(request, TargetArch::X86, &modules),
    );
    assert!(text.contains("login.exe"));
    let request = memory_regions_request(&parse(r#"{"pid": 1, "limit": 1}"#)).unwrap();
    let info = MemoryRegionInfo {
        base: Address(0x1000),
        size: 0x1000,
        kind: RegionKind::Heap,
        flags: RegionFlags {
            readable: true,
            writable: false,
            executable: false,
            guarded: false,
        },
    };
    let report = memory_regions_report(request, TargetArch::X86, vec![info, info]);
    let text = shown("memory_regions", report);
    assert!(text.contains("region_count: 2"));
    assert!(text.contains("regions:"));
    let request = mem_attach_request(&parse(r#"{"pid": 7}"#)).unwrap();
    let text = shown(
        "mem_attach",
        mem_attach_report(&request, 7, TargetArch::X86_64, &modules),
    );
    assert!(text.contains("login.exe"));
}

#[test]
fn what_is_not_there_is_reported_as_nothing() {
    let engine = engine();
    let pid = r#"{"pid": 1}"#;
    let request = runtime_imports_request(&parse(pid)).unwrap();
    shown("runtime_imports", runtime_imports_report(&engine, &request));
    let request = runtime_exports_request(&parse(pid)).unwrap();
    shown("runtime_exports", runtime_exports_report(&engine, &request));
    let request = resolve_iat_thunks_request(&parse(pid)).unwrap();
    shown("resolve_iat_thunks", resolve_iat_thunks_report(&engine, &request));
    let request = resolve_api_targets_request(&parse(
        r#"{"pid": 1, "api": "kernel32!GetTickCount", "max_results": 4}"#,
    ))
    .unwrap();
    assert_eq!(request.module_name, Some("kernel32".to_string()));
    assert_eq!(request.name_contains, "GetTickCount");
    let text = shown(
        "resolve_api_targets",
        resolve_api_targets_report(&engine, &request),
    );
    assert!(text.contains("resolve_api_targets"));
    assert!(text.contains("target_count:"));
    assert!(text.contains("targets:"));
    let request = find_vtable_request(&parse(r#"{"pid": 1, "class_name": "Player"}"#)).unwrap();
    shown("find_vtable", find_vtable_report(&engine, &request));
    let request = locate_request(&parse(r#"{"pid": 1, "query": "Login failed"}"#)).unwrap();
    shown("locate", locate_report(&engine, &request));
    let request =
        analyze_send_call_sites_request(&parse(r#"{"pid": 1, "target": "0x401010"}"#)).unwrap();
    shown(
        "analyze_send_call_sites",
        analyze_send_call_sites_report(&engine, request),
    );
    let request = extract_dispatch_tables_request(&parse(
        r#"{"pid": 1, "dispatcher": "0x401000"}"#,
    ))
    .unwrap();
    shown(
        "extract_dispatch_tables",
        extract_dispatch_tables_report(&engine, request),
    );
}

#[test]
fn numbers_are_written_to_bytes_and_read_back() {
    assert_eq!(write_le(0x1122_3344, 4), vec![0x44, 0x33, 0x22, 0x11]);
    assert_eq!(read_u32(&write_le(0x1122_3344, 4), 0), 0x1122_3344);
    assert_eq!(read_u64(&write_le(u64::MAX - 1, 8), 0), u64::MAX - 1);
    assert_eq!(read_u16(&[9, 0x34, 0x12], 1), 0x1234);
}

#[test]
fn the_first_place_from_an_index_on_is_found() {
    assert_eq!(find_bytes(b"abcabc", b"bc", 0), Some(1));
    assert_eq!(find_bytes(b"abcabc", b"bc", 2), Some(4));
    assert_eq!(find_bytes(b"abcabc", b"bc", 5), None);
    assert_eq!(find_bytes(b"a", b"bc", 0), None);
}

#[test]
fn a_flow_report_has_function_and_callers_of_each_anchor() {
    let report = engine().packet_flow_report(
        vec![
            ("handler".to_string(), Address(0x401010)),
            ("nowhere".to_string(), Address(0x10)),
        ],
        8,
        16,
    );
    assert_eq!(report.anchors.len(), 2);
    assert_eq!(report.anchors[0].name, "handler");
    assert_eq!(report.anchors[0].callers.len(), 1);
    assert_eq!(
        report.anchors[0].function.as_ref().unwrap().address,
        Address(0x401010)
    );
    assert!(report.anchors[1].function.is_none());
    assert!(report.anchors[1].callers.is_empty());
}

fn engine_of(regions: Vec<MemoryRegion>) -> ArgusEngine {
    ArgusEngine::new_for_target(
        InMemoryBackend {
            modules: vec![],
            regions,
        },
        TargetArch::X86,
    )
}

#[test]
fn a_short_code_region_does_not_end_the_search_for_callers() {
    let engine = engine_of(vec![
        region(0x400000, vec![0x90], true),
        region(0x401000, vec![0xe8, 0xfb, 0x00, 0x00, 0x00], true),
    ]);
    let hits = engine.scan_callers(Address(0x401100), 10);
    assert_eq!(hits.len(), 1);
    assert_eq!(hits[0].address, Address(0x401000));
    assert_eq!(engine.scan_x86_call_sites(Address(0x401100), 10).len(), 1);
}

#[test]
fn a_function_ends_at_its_first_return() {
    let engine = engine_of(vec![region(0x401000, vec![0xc3, 0x90], true)]);
    let function = engine.analyze_function(Address(0x401000), 8).unwrap();
    assert_eq!(function.instructions.len(), 1);
    assert_eq!(function.end, Address(0x401000));
    assert_eq!(engine.disasm_at(Address(0x401000), 8).len(), 2);
    let engine = engine_of(vec![region(0x401000, vec![0x90, 0xc3, 0x90, 0xc3], true)]);
    let body = engine.body_at(Address(0x401000), 8);
    let all = engine.disasm_at(Address(0x401000), 8);
    assert_eq!(body[..], all[..2]);
    assert_eq!(all.len(), 4);
    assert_eq!(engine.body_at(Address(0x401000), 1).len(), 1);
}

#[test]
fn a_chain_goes_up_through_the_functions_that_call() {
    // 0x401000 calls 0x401020, which calls 0x401040, which calls 0x401000.
    let mut code = vec![0xcc; 0x60];
    for (at, to) in [(0x00usize, 0x20usize), (0x20, 0x40), (0x40, 0x00)] {
        code[at..at + 3].copy_from_slice(&[0x55, 0x89, 0xe5]);
        code[at + 3] = 0xe8;
        let rel = to as i32 - (at as i32 + 8);
        code[at + 4..at + 8].copy_from_slice(&rel.to_le_bytes());
        code[at + 8] = 0xc3;
    }
    let engine = engine_of(vec![region(0x401000, code, true)]);
    let shape = |depth| -> Vec<(usize, u64)> {
        engine
            .trace_call_chain(Address(0x401040), depth, 8)
            .iter()
            .map(|node| (node.depth, node.target.0))
            .collect()
    };
    assert_eq!(shape(0), vec![]);
    assert_eq!(shape(1), vec![(0, 0x401040)]);
    assert_eq!(shape(9), vec![(0, 0x401040), (1, 0x401020), (2, 0x401000)]);
    let chain = engine.trace_call_chain(Address(0x401040), 9, 8);
    assert_eq!(chain[0].callers[0].function_start, Some(Address(0x401020)));
    assert_eq!(chain[2].callers[0].function_start, Some(Address(0x401040)));
}

#[test]
fn the_addresses_of_a_virtual_table_hang_together() {
    let mut data = vec![0u8; 0x60];
    data[0x08..0x14].copy_from_slice(b".?AVPlayer@@");
    data[0x2c..0x30].copy_from_slice(&0x402000u32.to_le_bytes());
    data[0x40..0x44].copy_from_slice(&0x402020u32.to_le_bytes());
    data[0x44..0x48].copy_from_slice(&0x401000u32.to_le_bytes());
    let engine = engine_of(vec![
        region(0x401000, vec![0x90; 0x20], true),
        region(0x402000, data, false),
    ]);
    let found = engine.find_vtable("Player", 4);
    assert_eq!(found.decorated_name, ".?AVPlayer@@");
    assert_eq!(found.error, None);
    assert_eq!(found.rtti_string, Some(Address(0x402008)));
    assert_eq!(found.type_descriptor, Some(Address(0x402000)));
    assert_eq!(found.col, Some(Address(0x402020)));
    assert_eq!(found.vtable, Some(Address(0x402044)));
    assert_eq!(found.methods, engine.vtable_dump(Address(0x402044), 4));
    assert_eq!(found.methods.len(), 1);
    let none = engine.find_vtable("Monster", 4);
    assert_eq!(
        none.error,
        Some("RTTI/vtable evidence not found for .?AVMonster@@".to_string())
    );
    assert_eq!((none.rtti_string, none.type_descriptor), (None, None));
    assert_eq!((none.col, none.vtable), (None, None));
    assert!(none.methods.is_empty());
}

#[test]
fn a_short_code_region_ends_the_search_for_thunks() {
    let mut image = vec![0u8; 0x1000];
    let put = |image: &mut Vec<u8>, at: usize, bytes: &[u8]| {
        image[at..at + bytes.len()].copy_from_slice(bytes);
    };
    put(&mut image, 0, b"MZ");
    put(&mut image, 0x3c, &0x80u32.to_le_bytes());
    put(&mut image, 0x80, b"PE\0\0");
    put(&mut image, 0x94, &0xe0u16.to_le_bytes());
    put(&mut image, 0x98, &0x10bu16.to_le_bytes());
    put(&mut image, 0x98 + 104, &0x200u32.to_le_bytes());
    put(&mut image, 0x98 + 108, &0x28u32.to_le_bytes());
    put(&mut image, 0x200, &0x300u32.to_le_bytes());
    put(&mut image, 0x20c, &0x250u32.to_le_bytes());
    put(&mut image, 0x210, &0x350u32.to_le_bytes());
    put(&mut image, 0x250, b"WS2_32.dll\0");
    put(&mut image, 0x300, &0x400u32.to_le_bytes());
    put(&mut image, 0x350, &0x7600_1234u32.to_le_bytes());
    put(&mut image, 0x402, b"send\0");
    put(&mut image, 0x500, &[0xff, 0x25, 0x50, 0x03, 0x40, 0x00]);
    let thunks_among = |regions: Vec<MemoryRegion>| {
        let engine = ArgusEngine::new_for_target(
            InMemoryBackend {
                modules: vec![ModuleInfo {
                    name: "game.exe".to_string(),
                    base: ModuleBase(0x400000),
                    size: 0x1000,
                }],
                regions,
            },
            TargetArch::X86,
        );
        engine.resolve_iat_thunks(Some("game.exe"), None, 10)
    };

    let short_first = vec![
        region(0x300000, vec![0x90; 5], true),
        region(0x400000, image.clone(), true),
    ];
    assert_eq!(thunks_among(short_first).len(), 0);
    let short_last = vec![
        region(0x300000, vec![0x90; 3], false),
        region(0x310000, vec![0x90; 6], true),
        region(0x400000, image, true),
        region(0x500000, vec![0x90; 5], true),
    ];
    let thunks = thunks_among(short_last);
    assert_eq!(thunks.len(), 1);
    assert_eq!(thunks[0].thunk_address, Address(0x400500));
}
