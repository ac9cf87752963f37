use argus::evidence::{Address, ModuleBase, RegionFlags, RegionKind};
use argus::hydra::{
    http_body, http_request, hydra_port, payload, struct_path, url_encode_component,
};
use argus::json::Json;
use argus::memory::ModuleInfo;
use argus::pointers::{
    correlate_addr_report, move_on, pointer_width_bytes, read_pointer, PointerWalk,
};
use argus::requests::correlate_addr_request;
use argus::snapshot::MemoryRegionInfo;
use argus::structs::{
    diff_struct_report, field_read, load_static_struct_fields, parse_static_struct_field,
    pointer_of_field, read_struct_report, struct_size, struct_words, word_hex, FieldOutcome,
    StaticStructField,
};
use serde_json::Value;

fn from_value(value: &Value) -> Json {
    match value {
        Value::Null => Json::Null,
        Value::Bool(truth) => Json::Bool(*truth),
        Value::Number(number) => match (number.as_u64(), number.as_i64()) {
            (Some(n), _) => Json::Unsigned(n),
            (None, Some(n)) => Json::Negative(n),
            (None, None) => Json::Float(number.to_string()),
        },
        Value::String(text) => Json::text(text),
        Value::Array(items) => Json::array(items.iter().map(from_value).collect()),
        Value::Object(fields) => Json::object(
            fields
                .iter()
                .map(|(name, inner)| (name.clone(), from_value(inner)))
                .collect(),
        ),
    }
}

fn parse(text: &str) -> Json {
    from_value(&serde_json::from_str(text).unwrap())
}

fn to_value(json: &Json) -> Value {
    match json {
        Json::Null => Value::Null,
        Json::Bool(truth) => Value::Bool(*truth),
        Json::Unsigned(n) => Value::from(*n),
        Json::Negative(n) => Value::from(*n),
        Json::Float(text) => serde_json::from_str(text).unwrap(),
        Json::Text(text) => Value::from(text.clone()),
        Json::Array(items) => Value::Array(items.iter().map(to_value).collect()),
        Json::Object(fields) => Value::Object(
            fields
                .iter()
                .map(|(name, inner)| (name.clone(), to_value(inner)))
                .collect(),
        ),
    }
}

fn region(base: u64, size: usize) -> MemoryRegionInfo {
    MemoryRegionInfo {
        base: Address(base),
        size,
        kind: RegionKind::Heap,
        flags: RegionFlags {
            readable: true,
            writable: true,
            executable: false,
            guarded: false,
        },
    }
}

fn field(offset: u64, name: &str, kind: &str, length: usize) -> StaticStructField {
    StaticStructField {
        offset,
        name: name.to_string(),
        kind: kind.to_string(),
        length,
    }
}

#[test]
fn a_pointer_is_as_wide_as_the_machine_counts() {
    assert_eq!(pointer_width_bytes(), std::mem::size_of::<usize>());
    let bytes = 0x1234usize.to_le_bytes();
    assert_eq!(read_pointer(Address(0x10), &bytes), Ok(Address(0x1234)));
    assert_eq!(
        read_pointer(Address(0x10), &bytes[1..]),
        Err("short pointer read at 0x10".to_string())
    );
    assert_eq!(move_on(Address(8), 8), Address(16));
    assert_eq!(move_on(Address(u64::MAX), 8), Address(u64::MAX));
}

#[test]
fn a_chain_is_walked_to_its_end() {
    let mut walk = PointerWalk::start(Address(0x1000), vec![8, 0x10]);
    assert_eq!(walk.next_read(), Some(Address(0x1000)));
    walk.take(Address(0x2000));
    assert_eq!(walk.last(), None);
    assert!(walk.report(&[]).is_none());
    assert_eq!(walk.next_read(), Some(Address(0x2008)));
    walk.take(Address(0x3000));
    assert_eq!(walk.next_read(), None);
    assert_eq!(walk.last(), Some(Address(0x3010)));
    let report = to_value(&walk.report(&[0x78, 0x56, 0x34, 0x12]).unwrap());
    assert_eq!(report["tool"], "mem_read_chain");
    assert_eq!(report["steps"].as_array().unwrap().len(), 3);
    assert_eq!(report["steps"][1]["offset"], 8);
}

#[test]
fn a_chain_without_offsets_ends_at_the_first_pointer() {
    let mut walk = PointerWalk::start(Address(0x1000), vec![]);
    assert_eq!(walk.next_read(), Some(Address(0x1000)));
    walk.take(Address(0x2000));
    assert_eq!(walk.next_read(), None);
    assert_eq!(walk.last(), Some(Address(0x2000)));
}

#[test]
fn a_live_address_is_translated_and_back() {
    let modules = vec![ModuleInfo {
        name: "game.exe".to_string(),
        base: ModuleBase(0x7000_0000),
        size: 0x10000,
    }];
    let live = correlate_addr_request(&parse(
        r#"{"pid": 1, "live_addr": "0x70001234", "ghidra_image_base": "0x400000"}"#,
    ))
    .unwrap();
    let report = to_value(&correlate_addr_report(live, &modules).unwrap());
    assert_eq!(report["rva"], 0x1234);
    let back = correlate_addr_request(&parse(
        r#"{"pid": 1, "static_addr": "0x401234", "ghidra_image_base": "0x400000"}"#,
    ))
    .unwrap();
    let again = to_value(&correlate_addr_report(back, &modules).unwrap());
    assert_eq!(again["live_addr"], report["live_addr"]);
    assert_eq!(again["static_addr"], report["static_addr"]);
    assert_eq!(
        correlate_addr_report(back, &vec![]),
        Err("target has no visible modules".to_string())
    );
    let neither = correlate_addr_request(&parse(r#"{"pid": 1}"#)).unwrap();
    assert_eq!(
        correlate_addr_report(neither, &modules),
        Err("correlate_addr requires live_addr or static_addr".to_string())
    );
}

#[test]
fn a_structure_is_read_word_by_word() {
    let bytes = [1, 0, 0, 0, 0xff, 0xff, 0xff, 0xff, 9];
    let words = struct_words(Address(0x100), &bytes, 10);
    assert_eq!(words.len(), 2);
    assert_eq!(struct_words(Address(0x100), &bytes, 1).len(), 1);
    assert_eq!(struct_size(8), 32);
    assert_eq!(struct_size(usize::MAX), usize::MAX);
    assert_eq!(word_hex(0xff), "0x000000ff");
    let report = to_value(&read_struct_report(
        Address(0x100),
        &words,
        &vec![None, Some(region(0x1000, 16))],
    ));
    assert_eq!(report["tool"], "read_struct");
    assert_eq!(report["word_count"], 2);
    assert_eq!(report["words"].as_array().unwrap().len(), 2);
}

#[test]
fn a_described_field_has_defaults() {
    assert_eq!(
        parse_static_struct_field(&parse("{}")),
        field(0, "?", "?", 4)
    );
    assert_eq!(
        parse_static_struct_field(&parse(
            r#"{"offset": "0x8", "name": "hp", "dataType": "int", "size": 0}"#
        )),
        field(8, "hp", "int", 1)
    );
    assert_eq!(
        parse_static_struct_field(&parse(
            r#"{"offset": 4, "name": "mp", "type": "uint", "type_name": "x", "length": 2}"#
        )),
        field(4, "mp", "uint", 2)
    );
}

#[test]
fn described_fields_are_sorted_and_limited() {
    let source = parse(
        r#"{"result": {"fields": [
            {"offset": 8, "name": "b"},
            {"offset": 0, "name": "a"},
            {"offset": 8, "name": "c"}
        ]}}"#,
    );
    let fields = load_static_struct_fields("player", &source, 10).unwrap();
    let names: Vec<&str> = fields.iter().map(|field| field.name.as_str()).collect();
    assert_eq!(names, vec!["a", "b", "c"]);
    assert_eq!(load_static_struct_fields("player", &source, 2).unwrap().len(), 2);
    assert_eq!(
        load_static_struct_fields("player", &parse("{}"), 2),
        Err("struct 'player' has no fields".to_string())
    );
}

#[test]
fn static_fields_are_laid_over_live_memory() {
    let fields = vec![field(0, "next", "node *", 4), field(8, "blob", "char[99]", 99)];
    assert_eq!(field_read(Address(0x100), &fields[0]), (Address(0x100), 4));
    assert_eq!(field_read(Address(0x100), &fields[1]), (Address(0x108), 16));
    assert_eq!(pointer_of_field(&fields[0], &[0x10, 0, 0, 0]), Some(0x10));
    assert_eq!(pointer_of_field(&fields[1], &[0x10, 0, 0, 0]), None);
    let report = to_value(&diff_struct_report(
        "node",
        Address(0x100),
        &fields,
        &vec![
            FieldOutcome::Read {
                raw: vec![0x10, 0, 0, 0],
                region: None,
            },
            FieldOutcome::Failed {
                error: "gone".to_string(),
            },
        ],
    ));
    assert_eq!(report["tool"], "diff_struct");
    assert_eq!(report["fields"].as_array().unwrap().len(), 2);
    assert_eq!(report["fields"][1]["error"], "gone");
}

#[test]
fn names_are_encoded_for_a_path() {
    assert_eq!(url_encode_component("aZ09-_.~"), "aZ09-_.~");
    assert_eq!(url_encode_component("a b/c"), "a%20b%2Fc");
    assert_eq!(url_encode_component("\u{e9}"), "%C3%A9");
    assert_eq!(struct_path("my struct"), "/structs/my%20struct");
}

#[test]
fn the_port_is_the_one_asked_for() {
    assert_eq!(hydra_port(9000, Some("9001")), 9000);
    assert_eq!(hydra_port(0, Some("9001")), 9001);
    assert_eq!(hydra_port(0, Some("nine")), 8192);
    assert_eq!(hydra_port(0, None), 8192);
}

#[test]
fn a_response_is_taken_apart() {
    assert_eq!(
        http_request("127.0.0.1", 8192, "/structs/a"),
        "GET /structs/a HTTP/1.1\r\nHost: 127.0.0.1:8192\r\nAccept: application/json\r\nConnection: close\r\n\r\n"
    );
    assert_eq!(
        http_body("HTTP/1.1 200 OK\r\nA: b\r\n\r\n{}"),
        Ok("{}".to_string())
    );
    assert_eq!(
        http_body("HTTP/1.1 404 Not Found\r\nA: b\r\n\r\n{}"),
        Err("hydra request failed: HTTP/1.1 404 Not Found".to_string())
    );
    assert_eq!(
        http_body("\r\n\r\n"),
        Err("hydra request failed: HTTP error".to_string())
    );
    assert_eq!(
        http_body("HTTP/1.1 200 OK"),
        Err("invalid HTTP response from Hydra".to_string())
    );
}

#[test]
fn an_error_field_stands_in_for_the_payload() {
    assert_eq!(
        payload(parse(r#"{"name":"A","error":{"code":7}}"#)),
        Err(parse(r#"{"code":7}"#))
    );
    assert_eq!(payload(parse(r#"{"error":null}"#)), Err(Json::Null));
    for whole in [r#"{"name":"A","fields":[1]}"#, r#"["error"]"#, r#""error""#] {
        assert_eq!(payload(parse(whole)), Ok(parse(whole)));
    }
}
