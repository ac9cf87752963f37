use argus::evidence::{Address, ModuleBase, RegionFlags, RegionKind, Rva};
use argus::json::Json;
use argus::memory::ModuleInfo;
use argus::options::{ScanOutputFormat, TextEncoding};
use argus::patterns::{
    compile_text_regexes, count_chars, decode_units, report_utf16, report_utf8, scan_text_region,
    RegexProblem, TextQuery,
};
use argus::reports::scan_text_report;
use argus::requests::scan_text_request;
use argus::server::tool_response;
use argus::snapshot::{MemoryRegionInfo, SnapshotScope};
use argus::text_scan::{
    byte_equal_with_case, bytes_equal_with_case, encode_utf16, find_bytes_with_case, module_context, scan_exact_utf16, scan_exact_utf8,
    utf16_unit_equal_with_case, utf16_units_match, ScanTarget, TextHit,
};
use argus::text_session::{
    check_query, csv_escape, csv_row, scan_file_name, ScanFile, TextScan,
};
use serde_json::Value;

fn from_value(value: &Value) -> Json {
    match value {
        Value::Null => Json::Null,
        Value::Bool(truth) => Json::Bool(*truth),
        Value::Number(number) => match (number.as_u64(), number.as_i64()) {
            (Some(n), _) => Json::Unsigned(n),
            (None, Some(n)) => Json::Negative(n),
            (None, None) => Json::Float(number.to_string()),
        },
        Value::String(text) => Json::text(text),
        Value::Array(items) => Json::array(items.iter().map(from_value).collect()),
        Value::Object(fields) => Json::object(
            fields
                .iter()
                .map(|(name, inner)| (name.clone(), from_value(inner)))
                .collect(),
        ),
    }
}

fn parse(text: &str) -> Json {
    from_value(&serde_json::from_str(text).unwrap())
}

fn to_value(json: &Json) -> Value {
    match json {
        Json::Null => Value::Null,
        Json::Bool(truth) => Value::Bool(*truth),
        Json::Unsigned(n) => Value::from(*n),
        Json::Negative(n) => Value::from(*n),
        Json::Float(text) => serde_json::from_str(text).unwrap(),
        Json::Text(text) => Value::from(text.clone()),
        Json::Array(items) => Value::Array(items.iter().map(to_value).collect()),
        Json::Object(fields) => Value::Object(
            fields
                .iter()
                .map(|(name, inner)| (name.clone(), to_value(inner)))
                .collect(),
        ),
    }
}

fn tool_text(response: &Json) -> String {
    let value = to_value(response);
    value["result"]["content"][0]["text"]
        .as_str()
        .unwrap()
        .to_string()
}

fn region(base: u64, size: usize) -> MemoryRegionInfo {
    MemoryRegionInfo {
        base: Address(base),
        size,
        kind: RegionKind::Heap,
        flags: RegionFlags {
            readable: true,
            writable: true,
            executable: false,
            guarded: false,
        },
    }
}

fn module(name: &str, base: u64, size: u64) -> ModuleInfo {
    ModuleInfo {
        name: name.to_string(),
        base: ModuleBase(base),
        size,
    }
}

fn query(pattern: &str, regex: bool, encoding: TextEncoding, case_sensitive: bool) -> TextQuery {
    TextQuery {
        pattern: pattern.to_string(),
        regex,
        encoding,
        case_sensitive,
    }
}

fn utf16(text: &str) -> Vec<u8> {
    text.encode_utf16().flat_map(|unit| unit.to_le_bytes()).collect()
}

fn places(hits: &[TextHit]) -> Vec<(usize, &str)> {
    hits.iter().map(|hit| (hit.offset, hit.text.as_str())).collect()
}

/// Answers a text scan of one window of memory, and gives the file it fills.
fn window_scan(name: &str, given: &str, extension: Option<&str>, bytes: &[u8]) -> (String, String) {
    let request = scan_text_request(&parse(given), name == "scan_regex", extension).unwrap();
    let region = region(0x10000, bytes.len());
    let mut scan = TextScan::start(
        query(
            &request.query.pattern,
            request.query.regex,
            request.query.encoding,
            request.query.case_sensitive,
        ),
        request.region,
        request.max_results,
        request.scan_all(),
        vec![],
    )
    .unwrap();
    let (mut file, start) = ScanFile::start(request.out_format);
    let mut written = start.to_string();
    for hit in scan.scan_window(region, Address(0x10000), bytes).unwrap() {
        written.push_str(file.before_record());
        written.push_str(&csv_row(&hit));
    }
    written.push_str(file.end());
    let report = scan_text_report(&request, &scan, &request.out_path);
    let reply = tool_response(Json::Unsigned(40), name, Ok(report), "x86");
    (tool_text(&reply), written)
}

#[test]
fn a_full_scan_writes_more_than_it_returns() {
    let (text, csv) = window_scan(
        "scan_string",
        r#"{
            "pid": 7,
            "pattern": "C_DESTROY_ITEM",
            "address": 65536,
            "size": 49,
            "max_results": 1,
            "full": true,
            "out_path": "hits.csv",
            "out_format": "csv"
        }"#,
        Some("csv"),
        b"C_DESTROY_ITEM\0xxC_DESTROY_ITEM\0yyC_DESTROY_ITEM\0",
    );
    assert!(text.contains("returned=1 total=3"));
    assert!(text.contains("out:"));
    assert_eq!(csv.lines().skip(1).count(), 3);
}

#[test]
fn a_regex_scan_finds_packet_names_in_utf8_and_utf16() {
    let mut blob = b"xxC_DESTROY_ITEM\0".to_vec();
    blob.extend(utf16("S_SHOP_OPEN"));
    blob.extend_from_slice(&0u16.to_le_bytes());
    let (text, _) = window_scan(
        "scan_regex",
        r#"{
            "pid": 7,
            "pattern": "[CS]_[A-Za-z0-9_]+",
            "encoding": "both",
            "case_sensitive": false,
            "address": 65536,
            "size": 41,
            "max_results": 8
        }"#,
        None,
        &blob,
    );
    assert!(text.contains("scan_regex \"[CS]_[A-Za-z0-9_]+\""));
    assert!(text.contains("C_DESTROY_ITEM"));
    assert!(text.contains("S_SHOP_OPEN"));
    assert!(text.contains("[utf16le/"));
}

#[test]
fn exact_utf8_text_is_found_without_overlap() {
    let modules = vec![module("game.exe", 0x1000, 0x100)];
    let target = ScanTarget {
        region: region(0x1000, 16),
        base: Address(0x1004),
        bytes: b"aaaaAAbb",
        modules: &modules,
    };
    let exact = scan_exact_utf8(&target, "aa", true, 10);
    assert_eq!(places(&exact), vec![(0, "aa"), (2, "aa")]);
    assert_eq!(exact[1].address, Address(0x1006));
    assert_eq!(exact[1].encoding, TextEncoding::Utf8);
    assert_eq!(exact[1].scan_base, Address(0x1004));
    let context = exact[1].module.as_ref().unwrap();
    assert_eq!((context.name.as_str(), context.rva), ("game.exe", Rva(6)));
    let folded = scan_exact_utf8(&target, "aa", false, 10);
    assert_eq!(folded.len(), 3);
    assert_eq!(scan_exact_utf8(&target, "aa", true, 1).len(), 1);
    assert!(scan_exact_utf8(&target, "zz", true, 10).is_empty());
    assert!(scan_exact_utf8(&target, "", true, 10).is_empty());
}

#[test]
fn exact_utf16_text_is_found_at_any_offset() {
    let mut bytes = vec![7u8];
    bytes.extend(utf16("Shop"));
    let modules = vec![];
    let target = ScanTarget {
        region: region(0x2000, 64),
        base: Address(0x2000),
        bytes: &bytes,
        modules: &modules,
    };
    let exact = scan_exact_utf16(&target, "Shop", true, 10);
    assert_eq!(exact.len(), 1);
    assert_eq!(exact[0].offset, 1);
    assert_eq!(exact[0].encoding, TextEncoding::Utf16Le);
    assert_eq!(exact[0].module, None);
    assert!(scan_exact_utf16(&target, "shop", true, 10).is_empty());
    assert_eq!(scan_exact_utf16(&target, "shop", false, 10).len(), 1);
}

#[test]
fn utf16_units_are_those_of_the_text() {
    assert_eq!(encode_utf16("aß\u{1f600}"), vec![0x61, 0xdf, 0xd83d, 0xde00]);
    assert!(utf16_units_match(&[0x41, 0, 0x62, 0], 0, &[0x61, 0x62], false));
    assert!(!utf16_units_match(&[0x41, 0, 0x62, 0], 0, &[0x61, 0x62], true));
    assert!(!utf16_units_match(&[0x41, 0, 0x62], 0, &[0x41, 0x62], true));
    assert_eq!(decode_units(&[0x61, 0, 0, 0xd8, 9], 0), vec!['a', '\u{fffd}']);
    assert_eq!(decode_units(&[9, 0x61, 0], 1), vec!['a']);
    assert_eq!(count_chars(&vec!['a', '\u{e9}', 'b'], 3), 2);
}

#[test]
fn bytes_are_found_with_and_without_case() {
    assert!(byte_equal_with_case(b'a', b'A', false));
    assert!(!byte_equal_with_case(b'a', b'A', true));
    assert!(bytes_equal_with_case(b"ab", b"AB", false));
    assert!(!bytes_equal_with_case(b"ab", b"AB", true));
    assert!(!bytes_equal_with_case(b"ab", b"abc", false));
    assert!(utf16_unit_equal_with_case(0x61, 0x41, false));
    assert!(!utf16_unit_equal_with_case(0x161, 0x141, false));
    assert_eq!(find_bytes_with_case(b"xxAb", b"ab", false), Some(2));
    assert_eq!(find_bytes_with_case(b"xxAb", b"ab", true), None);
    assert_eq!(find_bytes_with_case(b"xxAb", b"", true), None);
}

#[test]
fn a_regex_scan_keeps_utf8_hits_before_utf16_hits() {
    let mut bytes = b"id=12 ".to_vec();
    bytes.extend(utf16("id=345"));
    let modules = vec![];
    let target = ScanTarget {
        region: region(0x3000, 64),
        base: Address(0x3000),
        bytes: &bytes,
        modules: &modules,
    };
    let both = query("ID=[0-9]+", true, TextEncoding::Both, false);
    let found = scan_text_region(&both, &target, 10).unwrap();
    assert_eq!(places(&found), vec![(0, "id=12"), (6, "id=345")]);
    assert_eq!(found[0].encoding, TextEncoding::Utf8);
    assert_eq!(found[1].encoding, TextEncoding::Utf16Le);
    let sensitive = query("ID=[0-9]+", true, TextEncoding::Both, true);
    assert!(scan_text_region(&sensitive, &target, 10).unwrap().is_empty());
    assert_eq!(scan_text_region(&both, &target, 1).unwrap().len(), 1);
}

#[test]
fn matches_are_reported_where_they_stand() {
    let modules = vec![];
    let bytes = [0x61, 0xff, 0x62, 0x63];
    let target = ScanTarget {
        region: region(0x3000, 64),
        base: Address(0x3000),
        bytes: &bytes,
        modules: &modules,
    };
    let hits = report_utf8(&target, &vec![(0, 3), (3, 4)], 10);
    assert_eq!(places(&hits), vec![(0, "a\u{fffd}b"), (3, "c")]);
    let wide = utf16("a\u{e9}bc");
    let target = ScanTarget {
        region: region(0x3000, 64),
        base: Address(0x3000),
        bytes: &wide,
        modules: &modules,
    };
    let chars = decode_units(&wide, 0);
    let hits = report_utf16(&target, 0, &chars, &vec![(1, 4)], 10);
    assert_eq!(places(&hits), vec![(2, "\u{e9}b")]);
}

#[test]
fn a_pattern_that_is_no_regex_is_refused() {
    let broken = query("[a", true, TextEncoding::Both, true);
    let message = compile_text_regexes(&broken).unwrap_err();
    assert!(message.contains("unclosed character class"));
    assert!(check_query(&broken).is_err());
    assert!(TextScan::start(
        query("[a", true, TextEncoding::Utf16Le, true),
        SnapshotScope::All,
        5,
        false,
        vec![],
    )
    .is_err());
    assert_eq!(compile_text_regexes(&query("[a", false, TextEncoding::Both, true)), Ok(()));
    assert_eq!(
        check_query(&query("", false, TextEncoding::Both, true)),
        Err("pattern must not be empty".to_string())
    );
    assert_eq!(check_query(&query("a+", true, TextEncoding::Both, true)), Ok(()));
}

#[test]
fn a_regex_that_is_too_big_is_told_so() {
    let huge = query("[a-z]{1000000}", true, TextEncoding::Utf8, true);
    assert!(compile_text_regexes(&huge).is_err());
    assert_eq!(
        RegexProblem::TooBig(9).describe(),
        "Compiled regex exceeds size limit of 9 bytes."
    );
    assert_eq!(RegexProblem::Syntax("why".to_string()).describe(), "why");
    assert_eq!(RegexProblem::Other.describe(), "regex was refused");
}

#[test]
fn a_scan_stops_once_it_has_enough() {
    let mut scan = TextScan::start(
        query("ab", false, TextEncoding::Utf8, true),
        SnapshotScope::All,
        2,
        false,
        vec![],
    )
    .unwrap();
    assert!(!scan.should_stop());
    assert_eq!(scan.plan(region(0x1000, 32)), Some(32));
    scan.scan_region(region(0x1000, 32), b"ab..ab..ab").unwrap();
    assert!(scan.should_stop());
    assert_eq!(scan.hits().len(), 2);
    assert_eq!(scan.scanned_region_count(), 1);
    assert_eq!(scan.scanned_bytes(), 10);
}

#[test]
fn a_full_scan_counts_what_it_does_not_keep() {
    let mut scan = TextScan::start(
        query("ab", false, TextEncoding::Utf8, true),
        SnapshotScope::All,
        1,
        true,
        vec![],
    )
    .unwrap();
    let found = scan.scan_region(region(0x1000, 32), b"ab..ab..ab").unwrap();
    assert_eq!(found.len(), 3);
    scan.scan_region(region(0x2000, 32), b"ab").unwrap();
    assert_eq!(scan.total_hit_count(), 4);
    assert_eq!(scan.hits().len(), 1);
    assert_eq!(scan.hits()[0].address, Address(0x1000));
    assert!(!scan.should_stop());
}

#[test]
fn regions_outside_the_scope_are_not_planned() {
    let modules = || vec![module("game.exe", 0x1000, 0x1000)];
    let scan = TextScan::start(
        query("ab", false, TextEncoding::Utf8, true),
        SnapshotScope::Heap,
        1,
        false,
        modules(),
    )
    .unwrap();
    assert_eq!(scan.plan(region(0x1000, 32)), None);
    assert_eq!(scan.plan(region(0x8000, 32)), Some(32));
    let mut guarded = region(0x8000, 32);
    guarded.flags.guarded = true;
    assert_eq!(scan.plan(guarded), None);
}

#[test]
fn the_module_of_an_address_is_the_first_that_reaches_over_it() {
    let modules = vec![module("a.dll", 0x1000, 0x100), module("b.dll", 0x1080, 0x100)];
    let context = module_context(Address(0x1090), &modules).unwrap();
    assert_eq!((context.name.as_str(), context.rva), ("a.dll", Rva(0x90)));
    let context = module_context(Address(0x1100), &modules).unwrap();
    assert_eq!(context.name, "b.dll");
    assert_eq!(module_context(Address(0xfff), &modules), None);
}

#[test]
fn csv_fields_are_quoted_where_they_must_be() {
    assert_eq!(csv_escape("plain"), "plain");
    assert_eq!(csv_escape("a,b"), "\"a,b\"");
    assert_eq!(csv_escape("say \"hi\""), "\"say \"\"hi\"\"\"");
    assert_eq!(csv_escape("two\nlines"), "\"two\nlines\"");
}

#[test]
fn a_csv_row_has_a_field_per_column() {
    let modules = vec![module("game.exe", 0x1000, 0x100)];
    let target = ScanTarget {
        region: region(0x1000, 16),
        base: Address(0x1000),
        bytes: b"..ab..",
        modules: &modules,
    };
    let hits = scan_exact_utf8(&target, "ab", true, 10);
    let row = csv_row(&hits[0]);
    let (_, header) = ScanFile::start(ScanOutputFormat::Csv);
    assert_eq!(row.split(',').count(), header.split(',').count());
    assert!(row.starts_with("0x1002,utf8,ab,game.exe,0x2,0x1000,"));
    assert!(row.ends_with('\n'));
}

#[test]
fn json_records_stand_in_a_list() {
    let (mut file, start) = ScanFile::start(ScanOutputFormat::Json);
    let mut written = start.to_string();
    for record in ["{}", "[1]"] {
        written.push_str(file.before_record());
        written.push_str(record);
    }
    written.push_str(file.end());
    assert_eq!(written, "[\n{},\n[1]\n]\n");
    let list: Value = serde_json::from_str(&written).unwrap();
    assert_eq!(list.as_array().unwrap().len(), 2);
}

#[test]
fn a_file_of_hits_is_named_after_process_and_moment() {
    assert_eq!(
        scan_file_name(42, true, "17-5", ScanOutputFormat::Csv),
        "argus-scan-regex-42-17-5.csv"
    );
    assert_eq!(
        scan_file_name(42, false, "17-5", ScanOutputFormat::Json),
        "argus-scan-string-42-17-5.json"
    );
}

#[test]
fn a_text_scan_is_asked_with_its_defaults() {
    let request = scan_text_request(
        &parse(r#"{"pid": 5, "pattern": "x"}"#),
        false,
        None,
    )
    .unwrap();
    assert_eq!(request.pid, 5);
    assert!(!request.scan_all());
    assert_eq!(request.out_path, None);
    let request = scan_text_request(
        &parse(r#"{"pid": 5, "pattern": "x", "out_path": "a.json"}"#),
        false,
        Some("json"),
    )
    .unwrap();
    assert!(request.scan_all());
    assert_eq!(request.out_format, ScanOutputFormat::Json);
    assert!(scan_text_request(&parse(r#"{"pid": 5}"#), false, None).is_err());
    assert!(scan_text_request(
        &parse(r#"{"pid": 5, "pattern": "x", "encoding": "latin1"}"#),
        false,
        None,
    )
    .is_err());
}
