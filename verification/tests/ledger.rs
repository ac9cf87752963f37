use argus::json::Json;
use argus::ledger::{
    add_evidence_request, record_request, verify_request, HypothesisLedger, HypothesisRecord,
    VerdictClaim,
};
use argus::ledger_reports::{
    add_evidence, ledger_path, query_report, query_request, real_rate_report, record_hypothesis,
    verified_and_total, verify_hypothesis, LedgerPlace,
};
use argus::server::tool_response;
use argus::tally::{count_for, count_texts, counts_to_json, is_before};
use serde_json::Value;

fn from_value(value: &Value) -> Json {
    match value {
        Value::Null => Json::Null,
        Value::Bool(truth) => Json::Bool(*truth),
        Value::Number(number) => match (number.as_u64(), number.as_i64()) {
            (Some(n), _) => Json::Unsigned(n),
            (None, Some(n)) => Json::Negative(n),
            (None, None) => Json::Float(number.to_string()),
        },
        Value::String(text) => Json::text(text),
        Value::Array(items) => Json::array(items.iter().map(from_value).collect()),
        Value::Object(fields) => Json::object(
            fields
                .iter()
                .map(|(name, inner)| (name.clone(), from_value(inner)))
                .collect(),
        ),
    }
}

fn parse(text: &str) -> Json {
    from_value(&serde_json::from_str(text).unwrap())
}

fn to_value(json: &Json) -> Value {
    match json {
        Json::Null => Value::Null,
        Json::Bool(truth) => Value::Bool(*truth),
        Json::Unsigned(n) => Value::from(*n),
        Json::Negative(n) => Value::from(*n),
        Json::Float(text) => serde_json::from_str(text).unwrap(),
        Json::Text(text) => Value::from(text.clone()),
        Json::Array(items) => Value::Array(items.iter().map(to_value).collect()),
        Json::Object(fields) => Value::Object(
            fields
                .iter()
                .map(|(name, inner)| (name.clone(), to_value(inner)))
                .collect(),
        ),
    }
}

fn tool_text(response: &Json) -> String {
    let value = to_value(response);
    value["result"]["content"][0]["text"]
        .as_str()
        .unwrap()
        .to_string()
}

fn is_error(response: &Json) -> bool {
    to_value(response)["result"]["isError"].as_bool().unwrap()
}

fn text_u64(text: &str, key: &str) -> u64 {
    let prefix = format!("{key}: ");
    text.lines()
        .find_map(|line| line.trim().strip_prefix(&prefix))
        .unwrap()
        .parse()
        .unwrap()
}

fn call_record(ledger: &mut HypothesisLedger, id: u64, given: &str, now: u64) -> Json {
    let result = match record_request(&parse(given)) {
        Ok(claim) => Ok(record_hypothesis(ledger, claim, None, now, "ledger.json")),
        Err(message) => Err(message),
    };
    tool_response(Json::Unsigned(id), "record_hypothesis", result, "x86")
}

fn call_add(ledger: &mut HypothesisLedger, id: u64, given: &str, now: u64) -> Json {
    let result = match add_evidence_request(&parse(given)) {
        Ok(claim) => add_evidence(ledger, claim, now, "ledger.json"),
        Err(message) => Err(message),
    };
    tool_response(Json::Unsigned(id), "add_evidence", result, "x86")
}

fn call_verify(ledger: &mut HypothesisLedger, id: u64, given: &str, now: u64) -> Json {
    let result = match verify_request(&parse(given)) {
        Ok(claim) => verify_hypothesis(ledger, claim, now, "ledger.json"),
        Err(message) => Err(message),
    };
    tool_response(Json::Unsigned(id), "verify_hypothesis", result, "x86")
}

fn call_query(ledger: &HypothesisLedger, id: u64, given: &str) -> Json {
    let report = query_report(ledger, &query_request(&parse(given)), "ledger.json");
    tool_response(Json::Unsigned(id), "query_hypotheses", Ok(report), "x86")
}

fn record(id: u64, status: &str) -> HypothesisRecord {
    HypothesisRecord {
        id,
        entity: "func@0x401000".to_string(),
        claim_type: "name".to_string(),
        claim_value: "C_Login".to_string(),
        source: "llm".to_string(),
        confidence: None,
        status: status.to_string(),
        created_at: 10,
        updated_at: 10,
        evidence: vec![],
    }
}

#[test]
fn tools_call_hypothesis_ledger_records_evidence_and_real_rate() {
    let mut ledger = HypothesisLedger::default();
    let first = call_record(
        &mut ledger,
        31,
        r#"{
            "entity": "func@0x401000",
            "claim_type": "name",
            "claim_value": "C_Login",
            "source": "llm"
        }"#,
        100,
    );
    assert!(!is_error(&first));
    let first_text = tool_text(&first);
    assert!(first_text.contains("record_hypothesis"));
    let first_id = text_u64(&first_text, "id");

    let add = call_add(
        &mut ledger,
        32,
        &format!(
            r#"{{
                "hypothesis_id": {first_id},
                "kind": "xref",
                "detail": "string ref at 0x401020",
                "source": "dynamic",
                "addr": "0x401020"
            }}"#
        ),
        101,
    );
    assert!(!is_error(&add));

    let verify = call_verify(
        &mut ledger,
        33,
        &format!(r#"{{"hypothesis_id": {first_id}, "verdict": "verified"}}"#),
        102,
    );
    assert!(!is_error(&verify));

    let second = call_record(
        &mut ledger,
        34,
        r#"{
            "entity": "func@0x402000",
            "claim_type": "name",
            "claim_value": "WrongName",
            "source": "static"
        }"#,
        103,
    );
    let second_id = text_u64(&tool_text(&second), "id");
    let contradicted = call_verify(
        &mut ledger,
        35,
        &format!(
            r#"{{
                "hypothesis_id": {second_id},
                "verdict": "contradicted",
                "note": "dynamic caller evidence disagreed"
            }}"#
        ),
        104,
    );
    assert!(!is_error(&contradicted));

    let query_text = tool_text(&call_query(&ledger, 36, r#"{"entity": "func@0x402000"}"#));
    assert!(query_text.contains("query_hypotheses"));
    assert!(query_text.contains("count: 1"));
    assert!(query_text.contains("negative_knowledge:"));
    assert!(query_text.contains("WrongName"));

    let (verified, total) = verified_and_total(&ledger);
    assert_eq!((verified, total), (1, 2));
    let rate = Json::Float(format!("{}", verified as f64 / total as f64));
    let report = real_rate_report(&ledger, rate, "ledger.json");
    let rate_text = tool_text(&tool_response(Json::Unsigned(37), "real_rate", Ok(report), "x86"));
    assert!(rate_text.contains("real_rate"));
    assert!(rate_text.contains("verified: 1"));
    assert!(rate_text.contains("total: 2"));
    assert!(rate_text.contains("rate: 0.5"));
}

#[test]
fn a_recorded_hypothesis_is_unverified_and_stamped() {
    let mut ledger = HypothesisLedger::default();
    let claim = record_request(&parse(
        r#"{"entity": "data@0x10", "claim_type": "type", "claim_value": "u32"}"#,
    ))
    .unwrap();
    assert_eq!(claim.source, "llm");
    let id = ledger.record(claim, Some("0.75".to_string()), 77);
    assert_eq!(id, 1);
    assert_eq!(ledger.next_id, 2);
    let recorded = &ledger.hypotheses[0];
    assert_eq!(recorded.status, "unverified");
    assert_eq!(recorded.confidence, Some("0.75".to_string()));
    assert_eq!((recorded.created_at, recorded.updated_at), (77, 77));
    assert!(recorded.evidence.is_empty());
}

#[test]
fn a_hypothesis_without_evidence_is_not_verified() {
    let mut ledger = HypothesisLedger::default();
    ledger.hypotheses.push(record(4, "unverified"));
    let reply = call_verify(
        &mut ledger,
        1,
        r#"{"hypothesis_id": 4, "verdict": "verified"}"#,
        20,
    );
    assert!(is_error(&reply));
    assert_eq!(tool_text(&reply), "hypothesis 4 has no evidence");
    assert_eq!(ledger.hypotheses[0], record(4, "unverified"));
}

#[test]
fn evidence_keeps_the_status_and_verification_sets_it() {
    let mut ledger = HypothesisLedger::default();
    ledger.hypotheses.push(record(4, "unverified"));
    let claim = add_evidence_request(&parse(
        r#"{"hypothesis_id": 4, "kind": "xref", "detail": "d", "source": "dynamic"}"#,
    ))
    .unwrap();
    assert_eq!(ledger.add_evidence(claim, 21), Ok("unverified".to_string()));
    assert_eq!(ledger.hypotheses[0].status, "unverified");
    assert_eq!(ledger.hypotheses[0].updated_at, 21);
    assert_eq!(ledger.hypotheses[0].evidence[0].id, 1);
    assert_eq!(ledger.hypotheses[0].evidence[0].addr, None);
    let claim = VerdictClaim {
        hypothesis_id: 4,
        contradicted: false,
        note: None,
    };
    assert!(ledger.verify(claim, 22).is_ok());
    assert_eq!(ledger.hypotheses[0].status, "verified");
    assert_eq!(ledger.hypotheses[0].updated_at, 22);
    assert!(ledger.negative_knowledge.is_empty());
}

#[test]
fn a_contradiction_is_kept_as_negative_knowledge() {
    let mut ledger = HypothesisLedger::default();
    ledger.hypotheses.push(record(4, "unverified"));
    let claim = VerdictClaim {
        hypothesis_id: 4,
        contradicted: true,
        note: Some("no such call".to_string()),
    };
    assert!(ledger.verify(claim, 30).is_ok());
    assert_eq!(ledger.hypotheses[0].status, "contradicted");
    let known = &ledger.negative_knowledge[0];
    assert_eq!(known.id, 1);
    assert_eq!(known.entity, "func@0x401000");
    assert!(known.refuted_claim.contains("C_Login"));
    assert_eq!(known.reason, Some("no such call".to_string()));
    assert_eq!(known.created_at, 30);
}

#[test]
fn what_is_missing_is_named() {
    let mut ledger = HypothesisLedger::default();
    let reply = call_add(
        &mut ledger,
        1,
        r#"{"hypothesis_id": 9, "kind": "k", "detail": "d", "source": "s"}"#,
        1,
    );
    assert!(is_error(&reply));
    assert_eq!(tool_text(&reply), "no hypothesis 9");
    let reply = call_verify(
        &mut ledger,
        2,
        r#"{"hypothesis_id": 9, "verdict": "contradicted"}"#,
        1,
    );
    assert_eq!(tool_text(&reply), "no hypothesis 9");
    let reply = call_verify(&mut ledger, 3, r#"{"hypothesis_id": 9, "verdict": "maybe"}"#, 1);
    assert_eq!(
        tool_text(&reply),
        "verdict must be 'verified' or 'contradicted'"
    );
    assert!(record_request(&parse(r#"{"entity": "e", "claim_type": "t"}"#)).is_err());
    assert!(add_evidence_request(&parse(r#"{"hypothesis_id": 1, "kind": "k"}"#)).is_err());
}

#[test]
fn ids_stay_ahead_of_those_in_use() {
    let mut ledger = HypothesisLedger::default();
    ledger.hypotheses.push(record(4, "unverified"));
    assert!(ledger.has_room_for_claim());
    assert!(ledger.has_room_for_evidence());
    assert!(ledger.has_room_for_refuted());
    ledger.normalize();
    assert_eq!(ledger.next_id, 5);
    assert_eq!(ledger.next_hypothesis_id(), 5);
    assert_eq!(ledger.next_hypothesis_id(), 6);
    assert_eq!(ledger.next_evidence_id(), 1);
    assert_eq!(ledger.next_negative_id(), 1);
}

#[test]
fn a_ledger_with_the_last_id_in_use_has_no_room() {
    let mut ledger = HypothesisLedger::default();
    ledger.hypotheses.push(record(u64::MAX, "unverified"));
    assert!(!ledger.has_free_ids());
    assert!(!ledger.has_room_for_claim());
}

#[test]
fn a_ledger_is_brought_in_order_up_to_the_last_id() {
    let mut ledger = HypothesisLedger::default();
    ledger.hypotheses.push(record(u64::MAX - 1, "unverified"));
    assert!(ledger.has_free_ids());
    assert!(!ledger.has_room_for_claim());
    assert!(ledger.has_room_for_evidence());
    ledger.normalize();
    assert_eq!(ledger.next_id, u64::MAX);
}

#[test]
fn a_query_filters_and_limits() {
    let mut ledger = HypothesisLedger::default();
    ledger.hypotheses.push(record(1, "unverified"));
    ledger.hypotheses.push(record(2, "verified"));
    ledger.hypotheses.push(record(3, "verified"));
    let all = call_query(&ledger, 1, "{}");
    assert!(tool_text(&all).contains("count: 3"));
    let verified = call_query(&ledger, 1, r#"{"status": "verified"}"#);
    assert!(tool_text(&verified).contains("count: 2"));
    let one = to_value(&query_report(
        &ledger,
        &query_request(&parse(r#"{"status": "verified", "limit": 1}"#)),
        "p",
    ));
    assert_eq!(one["count"], 1);
    let none = call_query(&ledger, 1, r#"{"claim_type": "type"}"#);
    assert!(tool_text(&none).contains("count: 0"));
    assert_eq!(query_request(&parse("{}")).limit, 50);
}

#[test]
fn the_rate_report_counts_by_kind() {
    let mut ledger = HypothesisLedger::default();
    ledger.hypotheses.push(record(1, "unverified"));
    ledger.hypotheses.push(record(2, "verified"));
    let report = to_value(&real_rate_report(&ledger, Json::Float("0.5".to_string()), "p"));
    assert_eq!(report["verified"], 1);
    assert_eq!(report["total"], 2);
    assert_eq!(report["rate"], 0.5);
    assert_eq!(report["by_status"]["unverified"], 1);
    assert_eq!(report["by_status"]["verified"], 1);
    assert_eq!(report["by_source"]["llm"], 2);
    assert_eq!(report["by_claim_type"]["name"], 2);
    assert_eq!(verified_and_total(&HypothesisLedger::default()), (0, 0));
}

#[test]
fn the_ledger_lies_where_it_is_said() {
    let here = parse(r#"{"ledger_path": "here.json"}"#);
    assert_eq!(
        ledger_path(&here, Some("env.json"), Some("profile")),
        LedgerPlace::At("here.json".to_string())
    );
    assert_eq!(
        ledger_path(&parse("{}"), Some("env.json"), Some("profile")),
        LedgerPlace::At("env.json".to_string())
    );
    assert_eq!(
        ledger_path(&parse("{}"), None, Some("profile")),
        LedgerPlace::InProfile("profile".to_string())
    );
    assert_eq!(ledger_path(&parse("{}"), None, None), LedgerPlace::Temporary);
}

#[test]
fn a_tally_counts_each_text_in_ascending_order() {
    let keys = ["b", "a", "b", "c", "b"].map(String::from).to_vec();
    let counts = count_texts(&keys);
    assert_eq!(
        counts,
        vec![
            ("a".to_string(), 1),
            ("b".to_string(), 3),
            ("c".to_string(), 1)
        ]
    );
    assert_eq!(count_for(&counts, "b"), 3);
    assert_eq!(count_for(&counts, "d"), 0);
    assert_eq!(to_value(&counts_to_json(&counts))["b"], 3);
    assert!(is_before("a", "ab"));
    assert!(!is_before("ab", "a"));
    assert!(!is_before("a", "a"));
}
