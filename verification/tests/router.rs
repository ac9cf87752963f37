use argus::evidence::TargetArch;
use argus::json::Json;
use argus::router::{
    backend_names, error_response, failure_action, forward_action, process_for_query,
    request_has_id, request_id, resolve_backend, route_for_arch, route_for_request, route_question,
    BackendPlaces, ForwardAction, Route, RouteQuestion, RouterPaths, TargetResolver,
};
use argus::snapshot::ProcessInfo;
use serde_json::Value;

fn from_value(value: &Value) -> Json {
    match value {
        Value::Null => Json::Null,
        Value::Bool(truth) => Json::Bool(*truth),
        Value::Number(number) => match (number.as_u64(), number.as_i64()) {
            (Some(n), _) => Json::Unsigned(n),
            (None, Some(n)) => Json::Negative(n),
            (None, None) => Json::Float(number.to_string()),
        },
        Value::String(text) => Json::text(text),
        Value::Array(items) => Json::array(items.iter().map(from_value).collect()),
        Value::Object(fields) => Json::object(
            fields
                .iter()
                .map(|(name, inner)| (name.clone(), from_value(inner)))
                .collect(),
        ),
    }
}

fn parse(text: &str) -> Json {
    from_value(&serde_json::from_str(text).unwrap())
}

struct FakeResolver;

impl TargetResolver for FakeResolver {
    fn arch_for_pid(&self, pid: u32) -> Option<TargetArch> {
        match pid {
            32 => Some(TargetArch::X86),
            64 => Some(TargetArch::X86_64),
            _ => None,
        }
    }

    fn arch_for_process_query(&self, query: &str) -> Option<TargetArch> {
        match query {
            "legacy.exe" => Some(TargetArch::X86),
            "modern.exe" => Some(TargetArch::X86_64),
            _ => None,
        }
    }
}

#[test]
fn routes_tool_call_with_32_bit_pid_to_x86_backend() {
    let request = parse(
        r#"{
            "method": "tools/call",
            "params": {
                "name": "mem_read",
                "arguments": {"pid": 32, "address": "0x401000", "size": 16}
            }
        }"#,
    );

    assert_eq!(route_for_request(&request, &FakeResolver), Route::X86);
}

#[test]
fn routes_tool_call_with_64_bit_pid_to_x64_backend() {
    let request = parse(
        r#"{
            "method": "tools/call",
            "params": {
                "name": "mem_modules",
                "arguments": {"pid": 64}
            }
        }"#,
    );

    assert_eq!(route_for_request(&request, &FakeResolver), Route::X64);
}

#[test]
fn routes_process_name_requests_when_pid_is_absent() {
    let request = parse(
        r#"{
            "method": "tools/call",
            "params": {
                "name": "mem_attach",
                "arguments": {"process": "legacy.exe"}
            }
        }"#,
    );

    assert_eq!(route_for_request(&request, &FakeResolver), Route::X86);
}

#[test]
fn defaults_non_targeted_requests_to_x64_backend() {
    let request = parse(
        r#"{
            "method": "tools/call",
            "params": {
                "name": "processes_list",
                "arguments": {"limit": 1}
            }
        }"#,
    );

    assert_eq!(route_for_request(&request, &FakeResolver), Route::X64);
}

#[test]
fn only_tool_calls_name_a_process() {
    let listing = parse(r#"{"method": "tools/list", "params": {"arguments": {"pid": 32}}}"#);
    assert_eq!(route_question(&listing), RouteQuestion::Settled);
    assert_eq!(route_for_request(&listing, &FakeResolver), Route::X64);
    assert_eq!(route_question(&parse("{}")), RouteQuestion::Settled);
    assert_eq!(Route::default(), Route::X64);
}

#[test]
fn the_first_name_that_is_more_than_space_is_asked_about() {
    let named = parse(
        r#"{"method": "tools/call", "params": {"arguments":
            {"process": "  ", "name": "modern.exe", "query": "legacy.exe"}}}"#,
    );
    assert_eq!(
        route_question(&named),
        RouteQuestion::Query("modern.exe".to_string())
    );
    let wrapped = parse(
        r#"{"method": "tools/call", "params": {"_meta": {"arguments": {"query": "legacy.exe"}}}}"#,
    );
    assert_eq!(route_for_request(&wrapped, &FakeResolver), Route::X86);
    let wide = parse(
        r#"{"method": "tools/call", "params": {"arguments":
            {"pid": 4294967296, "process_name": "legacy.exe"}}}"#,
    );
    assert_eq!(route_for_request(&wide, &FakeResolver), Route::X86);
}

#[test]
fn an_unknown_process_goes_to_the_wide_engine() {
    assert_eq!(route_for_arch(None), Route::X64);
    assert_eq!(route_for_arch(Some(TargetArch::X86)), Route::X86);
    assert_eq!(route_for_arch(Some(TargetArch::X86_64)), Route::X64);
}

fn places(
    override_path: Option<&'static str>,
    sibling_is_file: bool,
    development: Option<&'static str>,
    development_is_file: bool,
) -> BackendPlaces<&'static str> {
    BackendPlaces {
        override_path,
        sibling: "sibling",
        sibling_is_file,
        development,
        development_is_file,
    }
}

#[test]
fn an_engine_is_looked_for_in_order() {
    assert_eq!(
        resolve_backend(places(Some("override"), true, Some("tree"), true)),
        "override"
    );
    assert_eq!(
        resolve_backend(places(None, true, Some("tree"), true)),
        "sibling"
    );
    assert_eq!(
        resolve_backend(places(None, false, Some("tree"), true)),
        "tree"
    );
    assert_eq!(
        resolve_backend(places(None, false, Some("tree"), false)),
        "sibling"
    );
    assert_eq!(resolve_backend(places(None, false, None, true)), "sibling");

    let paths = RouterPaths::from_router_exe(
        places(Some("narrow"), false, None, false),
        places(Some("wide"), false, None, false),
    );
    assert_eq!(*paths.exe_for_route(Route::X86), "narrow");
    assert_eq!(*paths.exe_for_route(Route::X64), "wide");
    assert_eq!(backend_names(Route::X86).sibling, "argus-rs-x86.exe");
    assert_eq!(backend_names(Route::X86).env_key, "ARGUS_ROUTER_X86");
    assert_eq!(backend_names(Route::X64).triple, "x86_64-pc-windows-msvc");
}

#[test]
fn a_failed_engine_is_answered_where_an_answer_is_wanted() {
    let request = parse(r#"{"id": 7, "method": "tools/list"}"#);
    let note = parse(r#"{"method": "notifications/initialized"}"#);
    assert!(request_has_id(Some(&request)));
    assert!(!request_has_id(Some(&note)));
    assert!(!request_has_id(None));
    assert_eq!(request_id(Some(&request)), Json::Unsigned(7));
    assert_eq!(request_id(None), Json::Null);

    assert_eq!(
        forward_action(Some(&request), b"{}", false, "engine"),
        ForwardAction::Relay { add_newline: true }
    );
    assert_eq!(
        forward_action(Some(&request), b"{}\n", true, "engine"),
        ForwardAction::Relay { add_newline: false }
    );
    assert_eq!(
        forward_action(Some(&request), b"", true, "engine"),
        ForwardAction::Silent
    );
    assert_eq!(
        forward_action(Some(&note), b"", false, "engine"),
        ForwardAction::Silent
    );
    assert_eq!(
        forward_action(Some(&request), b"", false, "engine"),
        ForwardAction::Answer(parse(
            r#"{"jsonrpc": "2.0", "id": 7, "error": {"code": -32000,
                "message": "argus backend exited without response: engine"}}"#
        ))
    );
    assert_eq!(
        failure_action(Some(&request), "engine", "not found"),
        Ok(error_response(
            Json::Unsigned(7),
            "failed to run argus backend engine: not found"
        ))
    );
    assert_eq!(
        failure_action(None, "engine", "not found"),
        Err("failed to run argus backend engine: not found".to_string())
    );
}

#[test]
fn a_query_means_the_first_process_that_holds_it() {
    let process = |pid: u32, name: &str| ProcessInfo {
        pid,
        parent_pid: 1,
        thread_count: 2,
        name: name.to_string(),
    };
    let list = vec![process(10, "shell.exe"), process(11, "Game.EXE")];
    assert_eq!(process_for_query(&list, "  game "), Some(11));
    assert_eq!(process_for_query(&list, "exe"), Some(10));
    assert_eq!(process_for_query(&list, "   "), None);
    assert_eq!(process_for_query(&list, "other"), None);
}
