use argus::arguments::{
    hex_bytes, optional_address, optional_bool, optional_str, optional_usize, parse_address_value,
    parse_hex_bytes, parse_offsets, required_address, required_address_alias, required_str,
    required_u32, required_u64, required_usize, value_u64,
};
use argus::evidence::Address;
use argus::json::Json;
use argus::options::{
    optional_scan_output_format, optional_snapshot_scope, optional_text_encoding,
    parse_scan_output_format, parse_snapshot_scope, parse_text_encoding, parse_value_refinement,
    parse_value_type, ScanOutputFormat, TextEncoding,
};
use argus::processes::{
    imports_to_read, mem_attach_request, process_like, process_named, process_not_found,
    resolve_api_targets_request,
};
use argus::requests::{
    analyze_send_call_sites_request, correlate_addr_request, diff_struct_request,
    disasm_at_request, extract_dispatch_tables_request, find_vtable_request, locate_request,
    mem_modules_request, mem_read_chain_request, mem_read_request, mem_write_request,
    memory_regions_request, read_struct_request, resolve_iat_thunks_request,
    runtime_exports_request, runtime_imports_request, scan_bytes_request, scan_callers_request,
    scan_pointers_to_request, scan_x86_call_sites_request, trace_call_chain_request,
    value_explain_request, value_scan_refine_request, value_scan_start_request,
};
use argus::snapshot::{ProcessInfo, SnapshotScope};
use argus::text::{decimal, hex, parse_number, NumberError};
use argus::values::{ValueRefinement, ValueType};
use serde_json::Value;

fn from_value(value: &Value) -> Json {
    match value {
        Value::Null => Json::Null,
        Value::Bool(truth) => Json::Bool(*truth),
        Value::Number(number) => match (number.as_u64(), number.as_i64()) {
            (Some(n), _) => Json::Unsigned(n),
            (None, Some(n)) => Json::Negative(n),
            (None, None) => Json::Float(number.to_string()),
        },
        Value::String(text) => Json::text(text),
        Value::Array(items) => Json::array(items.iter().map(from_value).collect()),
        Value::Object(fields) => Json::object(
            fields
                .iter()
                .map(|(name, inner)| (name.clone(), from_value(inner)))
                .collect(),
        ),
    }
}

fn parse(text: &str) -> Json {
    from_value(&serde_json::from_str(text).unwrap())
}

fn process(pid: u32, name: &str) -> ProcessInfo {
    ProcessInfo {
        pid,
        parent_pid: 4,
        thread_count: 8,
        name: name.to_string(),
    }
}

fn refused<T>(result: Result<T, String>) -> String {
    match result {
        Ok(_) => panic!("not refused"),
        Err(message) => message,
    }
}

#[test]
fn integers_are_taken_within_their_range() {
    let given = parse(r#"{"pid": 7, "big": 4294967296, "low": -1, "text": "7"}"#);
    assert_eq!(required_u64(&given, "big"), Ok(1 << 32));
    assert_eq!(required_u32(&given, "pid"), Ok(7));
    assert_eq!(
        required_u32(&given, "big"),
        Err("argument out of u32 range: big".to_string())
    );
    assert_eq!(
        required_u64(&given, "low"),
        Err("missing integer argument: low".to_string())
    );
    assert_eq!(
        required_u32(&given, "text"),
        Err("missing integer argument: text".to_string())
    );
    assert_eq!(required_usize(&given, "pid"), Ok(7));
    assert_eq!(optional_usize(&given, "pid", 3), 7);
    assert_eq!(optional_usize(&given, "none", 3), 3);
    assert_eq!(optional_usize(&given, "text", 3), 3);
}

#[test]
fn texts_and_truths_are_taken() {
    let given = parse(r#"{"name": "a", "empty": "", "on": true}"#);
    assert_eq!(required_str(&given, "name"), Ok("a"));
    assert_eq!(required_str(&given, "empty"), Ok(""));
    assert_eq!(
        required_str(&given, "on"),
        Err("missing string argument: on".to_string())
    );
    assert_eq!(optional_str(&given, "name"), Some("a"));
    assert_eq!(optional_str(&given, "empty"), None);
    assert!(optional_bool(&given, "on", false));
    assert!(optional_bool(&given, "off", true));
}

#[test]
fn addresses_are_numbers_or_written_numbers() {
    assert_eq!(parse_address_value(&Json::Unsigned(16)), Ok(Address(16)));
    assert_eq!(parse_address_value(&Json::text(" 0x10 ")), Ok(Address(16)));
    assert_eq!(parse_address_value(&Json::text("10")), Ok(Address(10)));
    assert!(parse_address_value(&Json::text("0xzz")).is_err());
    assert_eq!(
        parse_address_value(&Json::Bool(true)),
        Err("expected integer or hex string".to_string())
    );
    let given = parse(r#"{"address": "0x401000", "bad": "no"}"#);
    assert_eq!(required_address(&given, "address"), Ok(Address(0x401000)));
    assert_eq!(
        required_address(&given, "target"),
        Err("missing address argument: target".to_string())
    );
    assert!(refused(required_address(&given, "bad")).starts_with("bad: "));
    assert_eq!(optional_address(&given, "target"), Ok(None));
    assert_eq!(
        optional_address(&given, "address"),
        Ok(Some(Address(0x401000)))
    );
    assert_eq!(
        required_address_alias(&given, "target", "address"),
        Ok(Address(0x401000))
    );
    assert_eq!(value_u64(Some(&Json::text("0x20"))), Some(32));
    assert_eq!(value_u64(Some(&Json::Null)), None);
    assert_eq!(value_u64(None), None);
}

#[test]
fn an_offset_that_is_no_number_is_quoted() {
    let message = refused(parse_offsets("a\"\tb"));
    assert!(message.starts_with(r#"invalid offset "a\"\tb": "#));
}

#[test]
fn offsets_are_separated_by_commas() {
    assert_eq!(parse_offsets(""), Ok(vec![]));
    assert_eq!(parse_offsets("  "), Ok(vec![]));
    assert_eq!(parse_offsets("0x10, 32"), Ok(vec![16, 32]));
    assert!(refused(parse_offsets("0x10,x")).starts_with("invalid offset \"x\": "));
}

#[test]
fn hex_data_is_read_back() {
    assert_eq!(parse_hex_bytes("DE ad\nbe EF"), Ok(vec![0xde, 0xad, 0xbe, 0xef]));
    assert_eq!(
        parse_hex_bytes("abc"),
        Err("hex_data must contain an even number of hex digits".to_string())
    );
    assert_eq!(
        parse_hex_bytes("zz"),
        Err("invalid hex byte: zz".to_string())
    );
    let bytes: Vec<u8> = (0..=255).collect();
    assert_eq!(parse_hex_bytes(&hex_bytes(&bytes)), Ok(bytes));
}

#[test]
fn numbers_are_written_and_read_back() {
    assert_eq!(hex(0), "0x0");
    assert_eq!(hex(0xdead_beef), "0xdeadbeef");
    assert_eq!(decimal(0), "0");
    assert_eq!(decimal(u64::MAX), "18446744073709551615");
    for n in [0, 9, 10, 255, 256, u64::MAX] {
        let digits: Vec<char> = decimal(n).chars().collect();
        assert_eq!(parse_number(&digits, 10, u64::MAX), Ok(n));
        let digits: Vec<char> = hex(n).chars().skip(2).collect();
        assert_eq!(parse_number(&digits, 16, u64::MAX), Ok(n));
    }
    assert_eq!(parse_number(&[], 10, 9), Err(NumberError::Empty));
    assert_eq!(parse_number(&['g'], 16, 99), Err(NumberError::InvalidDigit));
    assert_eq!(
        parse_number(&['2', '5', '6'], 10, 255),
        Err(NumberError::TooLarge)
    );
}

#[test]
fn options_have_names() {
    assert_eq!(parse_value_type("u32"), Ok(ValueType::U32));
    assert_eq!(
        refused(parse_value_type("f32")),
        "unsupported value type: f32"
    );
    for scope in [
        SnapshotScope::All,
        SnapshotScope::Module,
        SnapshotScope::Heap,
        SnapshotScope::Executable,
    ] {
        assert_eq!(parse_snapshot_scope(scope.label()), Ok(scope));
    }
    assert!(parse_snapshot_scope("stack").is_err());
    for encoding in [
        TextEncoding::Utf8,
        TextEncoding::Utf16Le,
        TextEncoding::Both,
    ] {
        assert_eq!(parse_text_encoding(encoding.label()), Ok(encoding));
    }
    assert_eq!(parse_text_encoding("utf-16"), Ok(TextEncoding::Utf16Le));
    assert!(parse_text_encoding("latin1").is_err());
    for format in [ScanOutputFormat::Csv, ScanOutputFormat::Json] {
        assert_eq!(parse_scan_output_format(format.label()), Ok(format));
    }
    assert!(parse_scan_output_format("xml").is_err());
}

#[test]
fn options_have_defaults() {
    let none = parse("{}");
    assert_eq!(
        optional_snapshot_scope(&none, "region", SnapshotScope::Heap),
        Ok(SnapshotScope::Heap)
    );
    assert_eq!(
        optional_text_encoding(&none, TextEncoding::Both),
        Ok(TextEncoding::Both)
    );
    assert_eq!(
        optional_scan_output_format(&none, Some("JSON")),
        Ok(ScanOutputFormat::Json)
    );
    assert_eq!(
        optional_scan_output_format(&none, Some("txt")),
        Ok(ScanOutputFormat::Csv)
    );
    assert_eq!(
        optional_scan_output_format(&parse(r#"{"out_format": "csv"}"#), Some("json")),
        Ok(ScanOutputFormat::Csv)
    );
}

#[test]
fn refinements_have_names() {
    let given = parse(r#"{"exact": 5}"#);
    assert_eq!(
        parse_value_refinement("exact", &given),
        Ok(ValueRefinement::ExactU64(5))
    );
    assert_eq!(
        parse_value_refinement("exact", &parse("{}")),
        Err("missing integer argument for exact refinement: exact".to_string())
    );
    assert_eq!(
        parse_value_refinement("changed", &given),
        Ok(ValueRefinement::Changed)
    );
    assert_eq!(
        parse_value_refinement("increased", &given),
        Ok(ValueRefinement::Increased)
    );
    assert_eq!(
        parse_value_refinement("grown", &given),
        Err("unsupported value refinement: grown".to_string())
    );
}

#[test]
fn every_request_needs_a_process() {
    let none = parse("{}");
    let missing = "missing integer argument: pid";
    assert_eq!(refused(mem_read_request(&none)), missing);
    assert_eq!(refused(mem_write_request(&none)), missing);
    assert_eq!(refused(mem_read_chain_request(&none)), missing);
    assert_eq!(refused(read_struct_request(&none)), missing);
    assert_eq!(refused(correlate_addr_request(&none)), missing);
    assert_eq!(refused(locate_request(&none)), missing);
    assert_eq!(refused(find_vtable_request(&none)), missing);
    assert_eq!(refused(diff_struct_request(&none)), missing);
    assert_eq!(refused(mem_modules_request(&none)), missing);
    assert_eq!(refused(memory_regions_request(&none)), missing);
    assert_eq!(refused(runtime_imports_request(&none)), missing);
    assert_eq!(refused(runtime_exports_request(&none)), missing);
    assert_eq!(refused(resolve_iat_thunks_request(&none)), missing);
    assert_eq!(refused(resolve_api_targets_request(&none)), missing);
    assert_eq!(refused(disasm_at_request(&none)), missing);
    assert_eq!(refused(scan_x86_call_sites_request(&none)), missing);
    assert_eq!(refused(analyze_send_call_sites_request(&none)), missing);
    assert_eq!(refused(extract_dispatch_tables_request(&none)), missing);
    assert_eq!(refused(trace_call_chain_request(&none)), missing);
    assert_eq!(refused(scan_bytes_request(&none)), missing);
    assert_eq!(refused(scan_pointers_to_request(&none)), missing);
    assert_eq!(refused(scan_callers_request(&none)), missing);
    assert_eq!(refused(value_scan_start_request(&none)), missing);
    assert_eq!(refused(value_scan_refine_request(&none)), missing);
    assert_eq!(refused(value_explain_request(&none)), missing);
}

#[test]
fn requests_are_taken_apart() {
    let request = mem_read_request(&parse(
        r#"{"pid": 5, "address": "0x1000", "size": 16}"#,
    ))
    .unwrap();
    assert_eq!(
        (request.pid, request.address, request.size),
        (5, Address(0x1000), 16)
    );
    let request = mem_write_request(&parse(
        r#"{"pid": 5, "address": 4096, "hex_data": "90 90"}"#,
    ))
    .unwrap();
    assert_eq!(request.bytes, vec![0x90, 0x90]);
    let request = mem_read_chain_request(&parse(
        r#"{"pid": 5, "base_address": 4096, "offsets": "0x8,0x10"}"#,
    ))
    .unwrap();
    assert_eq!(request.offsets, vec![8, 16]);
    let request = scan_bytes_request(&parse(
        r#"{"pid": 5, "pattern": "48 ??", "region": "module"}"#,
    ))
    .unwrap();
    assert_eq!(request.pattern, "48 ??");
    assert_eq!(request.region, SnapshotScope::Module);
    assert_eq!(request.address, None);
    let request = scan_bytes_request(&parse(r#"{"pid": 5, "pattern": "48"}"#)).unwrap();
    assert_eq!(request.region, SnapshotScope::Executable);
}

#[test]
fn a_process_is_attached_by_number_or_name() {
    assert!(mem_attach_request(&parse("{}")).is_err());
    assert!(mem_attach_request(&parse(r#"{"pid": 9}"#)).is_ok());
    assert!(mem_attach_request(&parse(r#"{"process": "game"}"#)).is_ok());
    let list = vec![process(1, "mygame.exe"), process(2, "Game.exe")];
    assert_eq!(process_named(&list, "game.exe"), Some(2));
    assert_eq!(process_named(&list, "game"), None);
    assert_eq!(process_like(&list, "game"), Some(1));
    assert_eq!(process_like(&list, "other"), None);
    assert_eq!(process_not_found("other"), "process not found: other");
}

#[test]
fn more_imports_are_read_than_are_shown() {
    assert_eq!(imports_to_read(10), 40);
    assert_eq!(imports_to_read(usize::MAX), usize::MAX);
}
