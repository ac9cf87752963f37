//! What is told of the ledger of hypotheses.

use vstd::prelude::*;

use crate::arguments;
use crate::json;
use crate::json::{Fields, Json, JsonView};
use crate::ledger::{
    EvidenceClaim, HypothesisClaim, HypothesisEvidence, HypothesisEvidenceView, HypothesisLedger,
    HypothesisRecord, HypothesisRecordView, LedgerView, NegativeKnowledge, NegativeKnowledgeView,
    VerdictClaim,
};
use crate::requests;
use crate::seqs;
use crate::tally;
use crate::text;

verus! {

/// A piece of evidence.
pub open spec fn evidence_json(value: HypothesisEvidenceView) -> JsonView {
    JsonView::Object(
        json::record()
            .push(("addr"@, json::optional_text(value.addr)))
            .push(("created_at"@, JsonView::Unsigned(value.created_at)))
            .push(("detail"@, JsonView::Text(value.detail)))
            .push(("id"@, JsonView::Unsigned(value.id)))
            .push(("kind"@, JsonView::Text(value.kind)))
            .push(("source"@, JsonView::Text(value.source))),
    )
}

fn evidence_to_json(value: &HypothesisEvidence) -> (json: Json)
    ensures
        json.deep_view() == evidence_json(value.deep_view()),
{
    Fields::new()
        .with("addr", Json::optional_text(&value.addr))
        .with("created_at", Json::Unsigned(value.created_at))
        .with("detail", Json::text(&value.detail))
        .with("id", Json::Unsigned(value.id))
        .with("kind", Json::text(&value.kind))
        .with("source", Json::text(&value.source))
        .object()
}

/// A number as it is written, or null where there is none.
pub open spec fn maybe_float(value: Option<Seq<char>>) -> JsonView {
    match value {
        Some(value) => JsonView::Float(value),
        None => JsonView::Null,
    }
}

fn maybe_float_to_json(value: &Option<String>) -> (json: Json)
    ensures
        json.deep_view() == maybe_float(value.deep_view()),
{
    match value {
        Some(value) => Json::Float(value.clone()),
        None => Json::Null,
    }
}

/// A hypothesis.
pub open spec fn record_json(value: HypothesisRecordView) -> JsonView {
    JsonView::Object(
        json::record()
            .push(("claim_type"@, JsonView::Text(value.claim_type)))
            .push(("claim_value"@, JsonView::Text(value.claim_value)))
            .push(("confidence"@, maybe_float(value.confidence)))
            .push(("created_at"@, JsonView::Unsigned(value.created_at)))
            .push(("entity"@, JsonView::Text(value.entity)))
            .push(
                (
                    "evidence"@,
                    JsonView::Array(
                        value.evidence.map_values(
                            |item: HypothesisEvidenceView| evidence_json(item),
                        ),
                    ),
                ),
            )
            .push(("id"@, JsonView::Unsigned(value.id)))
            .push(("source"@, JsonView::Text(value.source)))
            .push(("status"@, JsonView::Text(value.status)))
            .push(("updated_at"@, JsonView::Unsigned(value.updated_at))),
    )
}

fn record_to_json(value: &HypothesisRecord) -> (json: Json)
    ensures
        json.deep_view() == record_json(value.deep_view()),
{
    Fields::new()
        .with("claim_type", Json::text(&value.claim_type))
        .with("claim_value", Json::text(&value.claim_value))
        .with("confidence", maybe_float_to_json(&value.confidence))
        .with("created_at", Json::Unsigned(value.created_at))
        .with("entity", Json::text(&value.entity))
        .with(
            "evidence",
            Json::list_of(
                &value.evidence,
                evidence_to_json,
                Ghost(|item: HypothesisEvidenceView| evidence_json(item)),
            ),
        )
        .with("id", Json::Unsigned(value.id))
        .with("source", Json::text(&value.source))
        .with("status", Json::text(&value.status))
        .with("updated_at", Json::Unsigned(value.updated_at))
        .object()
}

/// A refuted claim.
pub open spec fn negative_json(value: NegativeKnowledgeView) -> JsonView {
    JsonView::Object(
        json::record()
            .push(("created_at"@, JsonView::Unsigned(value.created_at)))
            .push(("entity"@, JsonView::Text(value.entity)))
            .push(("id"@, JsonView::Unsigned(value.id)))
            .push(("reason"@, json::optional_text(value.reason)))
            .push(("refuted_claim"@, JsonView::Text(value.refuted_claim))),
    )
}

fn negative_to_json(value: &NegativeKnowledge) -> (json: Json)
    ensures
        json.deep_view() == negative_json(value.deep_view()),
{
    Fields::new()
        .with("created_at", Json::Unsigned(value.created_at))
        .with("entity", Json::text(&value.entity))
        .with("id", Json::Unsigned(value.id))
        .with("reason", Json::optional_text(&value.reason))
        .with("refuted_claim", Json::text(&value.refuted_claim))
        .object()
}

/// Where the ledger lies.
#[derive(Debug, PartialEq, Eq)]
pub enum LedgerPlace {
    /// At a path.
    At(String),
    /// In the profile of a user.
    InProfile(String),
    /// Among temporary files.
    Temporary,
}

#[verifier::ext_equal]
pub enum LedgerPlaceView {
    At(Seq<char>),
    InProfile(Seq<char>),
    Temporary,
}

impl DeepView for LedgerPlace {
    type V = LedgerPlaceView;

    open spec fn deep_view(&self) -> LedgerPlaceView {
        match *self {
            LedgerPlace::At(path) => LedgerPlaceView::At(path@),
            LedgerPlace::InProfile(profile) => LedgerPlaceView::InProfile(profile@),
            LedgerPlace::Temporary => LedgerPlaceView::Temporary,
        }
    }
}

/// Where the ledger lies: where the caller says, or the environment, or in the
/// profile of the user where there is one.
pub open spec fn place_of(
    given: JsonView,
    environment: Option<Seq<char>>,
    profile: Option<Seq<char>>,
) -> LedgerPlaceView {
    match arguments::optional_text(given, "ledger_path"@) {
        Some(path) => LedgerPlaceView::At(path),
        None => match environment {
            Some(path) => LedgerPlaceView::At(path),
            None => match profile {
                Some(profile) => LedgerPlaceView::InProfile(profile),
                None => LedgerPlaceView::Temporary,
            },
        },
    }
}

pub fn ledger_path(given: &Json, environment: Option<&str>, profile: Option<&str>) -> (place:
    LedgerPlace)
    ensures
        place.deep_view() == place_of(
            given.deep_view(),
            environment.deep_view(),
            profile.deep_view(),
        ),
{
    if let Some(path) = arguments::optional_str(given, "ledger_path") {
        return LedgerPlace::At(path.to_string());
    }
    match environment {
        Some(path) => LedgerPlace::At(path.to_string()),
        None => match profile {
            Some(profile) => LedgerPlace::InProfile(profile.to_string()),
            None => LedgerPlace::Temporary,
        },
    }
}

/// The report of a hypothesis that was recorded.
pub open spec fn recorded_report(entity: Seq<char>, id: u64, path: Seq<char>) -> JsonView {
    JsonView::Object(
        json::record()
            .push(("entity"@, JsonView::Text(entity)))
            .push(("id"@, JsonView::Unsigned(id)))
            .push(("ledger_path"@, JsonView::Text(path)))
            .push(("status"@, JsonView::Text("unverified"@)))
            .push(("tool"@, JsonView::Text("record_hypothesis"@))),
    )
}

/// Records a hypothesis and reports it.
pub fn record_hypothesis(
    ledger: &mut HypothesisLedger,
    claim: HypothesisClaim,
    confidence: Option<String>,
    now: u64,
    path: &str,
) -> (report: Json)
    requires
        old(ledger).deep_view().has_room_for_claim(),
    ensures
        final(ledger).deep_view() == old(ledger).deep_view().with_claim(
            claim.deep_view(),
            confidence.deep_view(),
            now,
        ),
        report.deep_view() == recorded_report(
            claim.entity@,
            old(ledger).deep_view().free_id() as u64,
            path@,
        ),
{
    let entity = Json::text(&claim.entity);
    let id: u64 = ledger.record(claim, confidence, now);
    Fields::new()
        .with("entity", entity)
        .with("id", Json::Unsigned(id))
        .with("ledger_path", Json::text(path))
        .with("status", Json::text("unverified"))
        .with("tool", Json::text("record_hypothesis"))
        .object()
}

/// The report of evidence that was added.
pub open spec fn evidence_report(id: u64, status: Seq<char>, path: Seq<char>) -> JsonView {
    JsonView::Object(
        json::record()
            .push(("hypothesis_id"@, JsonView::Unsigned(id)))
            .push(("ledger_path"@, JsonView::Text(path)))
            .push(("ok"@, JsonView::Bool(true)))
            .push(("status"@, JsonView::Text(status)))
            .push(("tool"@, JsonView::Text("add_evidence"@))),
    )
}

/// Adds a piece of evidence and reports it.
pub fn add_evidence(ledger: &mut HypothesisLedger, claim: EvidenceClaim, now: u64, path: &str) -> (
    result: Result<Json, String>)
    requires
        old(ledger).deep_view().has_room_for_evidence(),
    ensures
        match old(ledger).deep_view().find(claim.hypothesis_id) {
            Some(i) => result matches Ok(report) && report.deep_view() == evidence_report(
                claim.hypothesis_id,
                old(ledger).deep_view().hypotheses[i].status,
                path@,
            ) && final(ledger).deep_view() == old(ledger).deep_view().with_evidence(
                i,
                claim.deep_view(),
                now,
            ),
            None => result matches Err(message) && message@ == crate::ledger::missing(
                claim.hypothesis_id,
            ) && final(ledger).deep_view() == old(ledger).deep_view(),
        },
{
    let id: u64 = claim.hypothesis_id;
    match ledger.add_evidence(claim, now) {
        Ok(status) => Ok(
            Fields::new()
                .with("hypothesis_id", Json::Unsigned(id))
                .with("ledger_path", Json::text(path))
                .with("ok", Json::Bool(true))
                .with("status", Json::text(&status))
                .with("tool", Json::text("add_evidence"))
                .object(),
        ),
        Err(message) => Err(message),
    }
}

/// The report of a verdict.
pub open spec fn verdict_report(id: u64, status: Seq<char>, path: Seq<char>) -> JsonView {
    JsonView::Object(
        json::record()
            .push(("id"@, JsonView::Unsigned(id)))
            .push(("ledger_path"@, JsonView::Text(path)))
            .push(("status"@, JsonView::Text(status)))
            .push(("tool"@, JsonView::Text("verify_hypothesis"@))),
    )
}

/// Gives a verdict and reports it.
pub fn verify_hypothesis(ledger: &mut HypothesisLedger, claim: VerdictClaim, now: u64, path: &str)
    -> (result: Result<Json, String>)
    requires
        claim.contradicted && old(ledger).deep_view().find(claim.hypothesis_id) is Some
            ==> old(ledger).deep_view().has_room_for_refuted(),
    ensures
        match old(ledger).deep_view().decided(claim.deep_view(), now) {
            Ok(decided) => result matches Ok(report) && report.deep_view() == verdict_report(
                claim.hypothesis_id,
                claim.deep_view().status(),
                path@,
            ) && final(ledger).deep_view() == decided,
            Err(reason) => result matches Err(message) && message@ == reason
                && final(ledger).deep_view() == old(ledger).deep_view(),
        },
{
    let id: u64 = claim.hypothesis_id;
    let status = claim.status();
    match ledger.verify(claim, now) {
        Ok(()) => Ok(
            Fields::new()
                .with("id", Json::Unsigned(id))
                .with("ledger_path", Json::text(path))
                .with("status", Json::text(status))
                .with("tool", Json::text("verify_hypothesis"))
                .object(),
        ),
        Err(message) => Err(message),
    }
}

/// Which hypotheses are asked for.
#[derive(Debug, PartialEq, Eq)]
pub struct HypothesisQuery {
    pub entity: Option<String>,
    pub status: Option<String>,
    pub claim_type: Option<String>,
    pub limit: usize,
}

#[verifier::ext_equal]
pub struct HypothesisQueryView {
    pub entity: Option<Seq<char>>,
    pub status: Option<Seq<char>>,
    pub claim_type: Option<Seq<char>>,
    pub limit: usize,
}

impl DeepView for HypothesisQuery {
    type V = HypothesisQueryView;

    open spec fn deep_view(&self) -> HypothesisQueryView {
        HypothesisQueryView {
            entity: self.entity.deep_view(),
            status: self.status.deep_view(),
            claim_type: self.claim_type.deep_view(),
            limit: self.limit,
        }
    }
}

/// What is asked.
pub open spec fn query_asked(given: JsonView) -> HypothesisQueryView {
    HypothesisQueryView {
        entity: arguments::optional_text(given, "entity"@),
        status: arguments::optional_text(given, "status"@),
        claim_type: arguments::optional_text(given, "claim_type"@),
        limit: arguments::usize_or(given, "limit"@, 50),
    }
}

pub fn query_request(given: &Json) -> (query: HypothesisQuery)
    ensures
        query.deep_view() == query_asked(given.deep_view()),
{
    HypothesisQuery {
        entity: requests::owned(arguments::optional_str(given, "entity")),
        status: requests::owned(arguments::optional_str(given, "status")),
        claim_type: requests::owned(arguments::optional_str(given, "claim_type")),
        limit: arguments::optional_usize(given, "limit", 50),
    }
}

impl HypothesisQueryView {
    /// Whether a hypothesis is asked for.
    pub open spec fn wants(self, record: HypothesisRecordView) -> bool {
        &&& self.entity matches Some(entity) ==> record.entity == entity
        &&& self.status matches Some(status) ==> record.status == status
        &&& self.claim_type matches Some(claim_type) ==> record.claim_type == claim_type
    }

    /// The hypotheses that are asked for, each as a value.
    pub open spec fn rows(self) -> spec_fn(HypothesisRecordView) -> Seq<JsonView> {
        |record: HypothesisRecordView|
            if self.wants(record) {
                seq![record_json(record)]
            } else {
                Seq::empty()
            }
    }

    /// The refuted claims of the entity that is asked for, each as a value.
    pub open spec fn negative_rows(self) -> spec_fn(NegativeKnowledgeView) -> Seq<JsonView> {
        |negative: NegativeKnowledgeView|
            if self.entity == Some(negative.entity) {
                seq![negative_json(negative)]
            } else {
                Seq::empty()
            }
    }
}

fn is_or_any(value: &str, wanted: &Option<String>) -> (is: bool)
    ensures
        is == (wanted.deep_view() matches Some(text) ==> value@ == text),
{
    match wanted {
        Some(wanted) => text::same_text(value, wanted),
        None => true,
    }
}

/// The newest hypotheses that are asked for, up to the limit.
pub open spec fn selected(ledger: LedgerView, query: HypothesisQueryView) -> Seq<JsonView> {
    seqs::capped(ledger.hypotheses.reverse().flat_map(query.rows()), query.limit as int)
}

fn select(ledger: &HypothesisLedger, query: &HypothesisQuery) -> (rows: Vec<Json>)
    ensures
        rows.deep_view() == selected(ledger.deep_view(), query.deep_view()),
{
    let records = &ledger.hypotheses;
    let ghost newest = records.deep_view().reverse();
    let ghost f = query.deep_view().rows();
    let ghost cap = query.limit as int;
    let mut rows: Vec<Json> = Vec::new();
    let mut i: usize = 0;
    proof {
        seqs::lemma_flat_map_ends(newest, f);
        assert(newest.len() == records@.len());
        assert(rows.deep_view() =~= newest.take(0).flat_map(f));
    }
    while i < records.len() && rows.len() < query.limit
        invariant
            i <= records.len(),
            newest == records.deep_view().reverse(),
            newest.len() == records@.len(),
            f == query.deep_view().rows(),
            rows.deep_view() == newest.take(i as int).flat_map(f),
            rows.deep_view().len() == rows@.len(),
            rows@.len() <= query.limit,
        decreases records.len() - i,
    {
        let record = &records[records.len() - 1 - i];
        let ghost before = rows.deep_view();
        proof {
            seqs::lemma_flat_map_step(newest, i as int, f);
            assert(newest[i as int] == record.deep_view());
        }
        if is_or_any(&record.entity, &query.entity) && is_or_any(&record.status, &query.status)
            && is_or_any(&record.claim_type, &query.claim_type) {
            rows.push(record_to_json(record));
            proof {
                assert(rows.deep_view() =~= before + f(newest[i as int]));
            }
        } else {
            proof {
                assert(before =~= before + f(newest[i as int]));
            }
        }
        i += 1;
    }
    proof {
        seqs::lemma_flat_map_ends(newest, f);
        assert(seqs::capped(rows.deep_view(), cap) =~= rows.deep_view());
        if i < records.len() {
            seqs::lemma_flat_map_full(newest, i as int, f, cap);
        } else {
            assert(newest.take(i as int) =~= newest);
        }
    }
    rows
}

fn select_negative(ledger: &HypothesisLedger, query: &HypothesisQuery) -> (rows: Vec<Json>)
    ensures
        rows.deep_view() == ledger.deep_view().negative_knowledge.flat_map(
            query.deep_view().negative_rows(),
        ),
{
    let negatives = &ledger.negative_knowledge;
    let ghost all = negatives.deep_view();
    let ghost f = query.deep_view().negative_rows();
    let mut rows: Vec<Json> = Vec::new();
    let mut i: usize = 0;
    proof {
        seqs::lemma_flat_map_ends(all, f);
        assert(rows.deep_view() =~= all.take(0).flat_map(f));
    }
    while i < negatives.len()
        invariant
            i <= negatives.len(),
            all == negatives.deep_view(),
            all.len() == negatives@.len(),
            f == query.deep_view().negative_rows(),
            rows.deep_view() == all.take(i as int).flat_map(f),
        decreases negatives.len() - i,
    {
        let negative = &negatives[i];
        let ghost before = rows.deep_view();
        proof {
            seqs::lemma_flat_map_step(all, i as int, f);
            assert(all[i as int] == negative.deep_view());
        }
        let wanted = match &query.entity {
            Some(entity) => text::same_text(&negative.entity, entity),
            None => false,
        };
        if wanted {
            rows.push(negative_to_json(negative));
            proof {
                assert(rows.deep_view() =~= before + f(all[i as int]));
            }
        } else {
            proof {
                assert(before =~= before + f(all[i as int]));
            }
        }
        i += 1;
    }
    proof {
        seqs::lemma_flat_map_ends(all, f);
    }
    rows
}

/// The report of the hypotheses that are asked for.
pub open spec fn query_report_of(
    ledger: LedgerView,
    query: HypothesisQueryView,
    path: Seq<char>,
) -> JsonView {
    JsonView::Object(
        json::record()
            .push(("count"@, JsonView::Unsigned(selected(ledger, query).len() as u64)))
            .push(("hypotheses"@, JsonView::Array(selected(ledger, query))))
            .push(("ledger_path"@, JsonView::Text(path)))
            .push(
                (
                    "negative_knowledge"@,
                    JsonView::Array(ledger.negative_knowledge.flat_map(query.negative_rows())),
                ),
            )
            .push(("tool"@, JsonView::Text("query_hypotheses"@))),
    )
}

/// The report of the hypotheses that are asked for: the newest first, and what is
/// refuted of the entity that is asked for.
pub fn query_report(ledger: &HypothesisLedger, query: &HypothesisQuery, path: &str) -> (report:
    Json)
    ensures
        report.deep_view() == query_report_of(ledger.deep_view(), query.deep_view(), path@),
{
    let rows = select(ledger, query);
    let negative = select_negative(ledger, query);
    proof {
        assert(rows.deep_view().len() == rows@.len());
    }
    Fields::new()
        .with("count", Json::Unsigned(rows.len() as u64))
        .with("hypotheses", Json::array(rows))
        .with("ledger_path", Json::text(path))
        .with("negative_knowledge", Json::array(negative))
        .with("tool", Json::text("query_hypotheses"))
        .object()
}

impl LedgerView {
    pub open spec fn statuses(self) -> Seq<Seq<char>> {
        self.hypotheses.map_values(|record: HypothesisRecordView| record.status)
    }

    pub open spec fn sources(self) -> Seq<Seq<char>> {
        self.hypotheses.map_values(|record: HypothesisRecordView| record.source)
    }

    pub open spec fn claim_types(self) -> Seq<Seq<char>> {
        self.hypotheses.map_values(|record: HypothesisRecordView| record.claim_type)
    }
}

fn status_list(ledger: &HypothesisLedger) -> (list: Vec<String>)
    ensures
        list.deep_view() == ledger.deep_view().statuses(),
{
    let ghost all = ledger.deep_view().statuses();
    let mut list: Vec<String> = Vec::new();
    let mut i: usize = 0;
    proof {
        assert(list.deep_view() =~= all.take(0));
    }
    while i < ledger.hypotheses.len()
        invariant
            i <= ledger.hypotheses.len(),
            all == ledger.deep_view().statuses(),
            all.len() == ledger.hypotheses@.len(),
            list.deep_view() == all.take(i as int),
        decreases ledger.hypotheses.len() - i,
    {
        let ghost before = list.deep_view();
        list.push(ledger.hypotheses[i].status.clone());
        i += 1;
        proof {
            assert(list.deep_view() =~= before.push(all[i - 1]));
            assert(all.take(i as int) =~= before.push(all[i - 1]));
        }
    }
    proof {
        assert(all.take(all.len() as int) =~= all);
    }
    list
}

fn source_list(ledger: &HypothesisLedger) -> (list: Vec<String>)
    ensures
        list.deep_view() == ledger.deep_view().sources(),
{
    let ghost all = ledger.deep_view().sources();
    let mut list: Vec<String> = Vec::new();
    let mut i: usize = 0;
    proof {
        assert(list.deep_view() =~= all.take(0));
    }
    while i < ledger.hypotheses.len()
        invariant
            i <= ledger.hypotheses.len(),
            all == ledger.deep_view().sources(),
            all.len() == ledger.hypotheses@.len(),
            list.deep_view() == all.take(i as int),
        decreases ledger.hypotheses.len() - i,
    {
        let ghost before = list.deep_view();
        list.push(ledger.hypotheses[i].source.clone());
        i += 1;
        proof {
            assert(list.deep_view() =~= before.push(all[i - 1]));
            assert(all.take(i as int) =~= before.push(all[i - 1]));
        }
    }
    proof {
        assert(all.take(all.len() as int) =~= all);
    }
    list
}

fn claim_type_list(ledger: &HypothesisLedger) -> (list: Vec<String>)
    ensures
        list.deep_view() == ledger.deep_view().claim_types(),
{
    let ghost all = ledger.deep_view().claim_types();
    let mut list: Vec<String> = Vec::new();
    let mut i: usize = 0;
    proof {
        assert(list.deep_view() =~= all.take(0));
    }
    while i < ledger.hypotheses.len()
        invariant
            i <= ledger.hypotheses.len(),
            all == ledger.deep_view().claim_types(),
            all.len() == ledger.hypotheses@.len(),
            list.deep_view() == all.take(i as int),
        decreases ledger.hypotheses.len() - i,
    {
        let ghost before = list.deep_view();
        list.push(ledger.hypotheses[i].claim_type.clone());
        i += 1;
        proof {
            assert(list.deep_view() =~= before.push(all[i - 1]));
            assert(all.take(i as int) =~= before.push(all[i - 1]));
        }
    }
    proof {
        assert(all.take(all.len() as int) =~= all);
    }
    list
}

/// How many hypotheses have been verified.
pub open spec fn verified_of(ledger: LedgerView) -> nat {
    tally::count_of(tally::tally(ledger.statuses()), "verified"@)
}

/// How many hypotheses have been verified, and how many there are.
pub fn verified_and_total(ledger: &HypothesisLedger) -> (counts: (u64, u64))
    ensures
        counts.0 == verified_of(ledger.deep_view()),
        counts.1 == ledger.hypotheses@.len(),
{
    let by_status = tally::count_texts(&status_list(ledger));
    (tally::count_for(&by_status, "verified"), ledger.hypotheses.len() as u64)
}

/// The number of hypotheses that are verified is the number of those whose status
/// says so, and no more than there are.
pub proof fn law_verified_counts(ledger: LedgerView)
    requires
        ledger.hypotheses.len() < u64::MAX,
    ensures
        verified_of(ledger) == tally::occurrences(ledger.statuses(), "verified"@),
        verified_of(ledger) <= ledger.hypotheses.len(),
{
    tally::law_tally_counts(ledger.statuses(), "verified"@);
    lemma_occurrences_bound(ledger.statuses(), "verified"@);
}

proof fn lemma_occurrences_bound(keys: Seq<Seq<char>>, key: Seq<char>)
    ensures
        tally::occurrences(keys, key) <= keys.len(),
    decreases keys.len(),
{
    if keys.len() > 0 {
        lemma_occurrences_bound(keys.drop_last(), key);
    }
}

/// The report of how many hypotheses have been verified.
pub open spec fn real_rate_report_of(
    ledger: LedgerView,
    rate: JsonView,
    path: Seq<char>,
) -> JsonView {
    JsonView::Object(
        json::record()
            .push(("by_claim_type"@, tally::counts_json(tally::tally(ledger.claim_types()))))
            .push(("by_source"@, tally::counts_json(tally::tally(ledger.sources()))))
            .push(("by_status"@, tally::counts_json(tally::tally(ledger.statuses()))))
            .push(("ledger_path"@, JsonView::Text(path)))
            .push(("rate"@, rate))
            .push(("tool"@, JsonView::Text("real_rate"@)))
            .push(("total"@, JsonView::Unsigned(ledger.hypotheses.len() as u64)))
            .push(("verified"@, JsonView::Unsigned(verified_of(ledger) as u64))),
    )
}

/// The report of how many hypotheses have been verified, with the rate as it was
/// worked out.
pub fn real_rate_report(ledger: &HypothesisLedger, rate: Json, path: &str) -> (report: Json)
    ensures
        report.deep_view() == real_rate_report_of(ledger.deep_view(), rate.deep_view(), path@),
{
    let by_status = tally::count_texts(&status_list(ledger));
    let by_source = tally::count_texts(&source_list(ledger));
    let by_claim_type = tally::count_texts(&claim_type_list(ledger));
    let verified: u64 = tally::count_for(&by_status, "verified");
    Fields::new()
        .with("by_claim_type", tally::counts_to_json(&by_claim_type))
        .with("by_source", tally::counts_to_json(&by_source))
        .with("by_status", tally::counts_to_json(&by_status))
        .with("ledger_path", Json::text(path))
        .with("rate", rate)
        .with("tool", Json::text("real_rate"))
        .with("total", Json::Unsigned(ledger.hypotheses.len() as u64))
        .with("verified", Json::Unsigned(verified))
        .object()
}

/// The hypotheses that are asked for are those with the entity, the status and the type of
/// claim that the query names, the newest first and no more than the limit. Of an entity
/// that is named, and only then, what is refuted is told too, the oldest first.
pub proof fn law_query_selects(ledger: LedgerView, query: HypothesisQueryView, path: Seq<char>)
    ensures
        ({
            let wanted = ledger.hypotheses.reverse().filter(
                |record: HypothesisRecordView|
                    (query.entity is None || query.entity == Some(record.entity)) && (query.status
                        is None || query.status == Some(record.status)) && (query.claim_type is None
                        || query.claim_type == Some(record.claim_type)),
            );
            let refuted = ledger.negative_knowledge.filter(
                |negative: NegativeKnowledgeView| query.entity == Some(negative.entity),
            );
            let report = query_report_of(ledger, query, path);
            let found = selected(ledger, query);
            let negative = ledger.negative_knowledge.flat_map(query.negative_rows());
            &&& found.len() == if wanted.len() < query.limit {
                wanted.len() as int
            } else {
                query.limit as int
            }
            &&& forall|i: int|
                0 <= i < found.len() ==> #[trigger] found[i] == record_json(wanted[i])
            &&& negative.len() == refuted.len()
            &&& forall|i: int|
                0 <= i < negative.len() ==> #[trigger] negative[i] == negative_json(refuted[i])
            &&& json::holds(report, "count"@, JsonView::Unsigned(found.len() as u64))
            &&& json::holds(report, "hypotheses"@, JsonView::Array(found))
            &&& json::holds(report, "negative_knowledge"@, JsonView::Array(negative))
            &&& json::holds(report, "ledger_path"@, JsonView::Text(path))
        }),
{
    let wants = |record: HypothesisRecordView|
        (query.entity is None || query.entity == Some(record.entity)) && (query.status is None
            || query.status == Some(record.status)) && (query.claim_type is None
            || query.claim_type == Some(record.claim_type));
    let refutes = |negative: NegativeKnowledgeView| query.entity == Some(negative.entity);
    let shown = |record: HypothesisRecordView| record_json(record);
    let told = |negative: NegativeKnowledgeView| negative_json(negative);
    assert forall|record: HypothesisRecordView| #[trigger]
        (query.rows())(record) == if wants(record) {
            seq![shown(record)]
        } else {
            Seq::empty()
        } by {}
    seqs::lemma_flat_map_filters(ledger.hypotheses.reverse(), query.rows(), wants, shown);
    assert forall|negative: NegativeKnowledgeView| #[trigger]
        (query.negative_rows())(negative) == if refutes(negative) {
            seq![told(negative)]
        } else {
            Seq::empty()
        } by {}
    seqs::lemma_flat_map_filters(
        ledger.negative_knowledge,
        query.negative_rows(),
        refutes,
        told,
    );
    let found = selected(ledger, query);
    let negative = ledger.negative_knowledge.flat_map(query.negative_rows());
    let report = query_report_of(ledger, query, path)->Object_0;
    assert(report[0] == ("count"@, JsonView::Unsigned(found.len() as u64)));
    assert(report[1] == ("hypotheses"@, JsonView::Array(found)));
    assert(report[2] == ("ledger_path"@, JsonView::Text(path)));
    assert(report[3] == ("negative_knowledge"@, JsonView::Array(negative)));
}

/// A hypothesis is told with all that is known of it, and its evidence in order.
pub proof fn law_record_told(record: HypothesisRecordView, i: int)
    requires
        0 <= i < record.evidence.len(),
    ensures
        ({
            let told = record_json(record);
            let pieces = record.evidence.map_values(
                |item: HypothesisEvidenceView| evidence_json(item),
            );
            let evidence = record.evidence[i];
            &&& json::holds(told, "id"@, JsonView::Unsigned(record.id))
            &&& json::holds(told, "entity"@, JsonView::Text(record.entity))
            &&& json::holds(told, "claim_type"@, JsonView::Text(record.claim_type))
            &&& json::holds(told, "claim_value"@, JsonView::Text(record.claim_value))
            &&& json::holds(told, "source"@, JsonView::Text(record.source))
            &&& json::holds(told, "status"@, JsonView::Text(record.status))
            &&& json::holds(told, "created_at"@, JsonView::Unsigned(record.created_at))
            &&& json::holds(told, "updated_at"@, JsonView::Unsigned(record.updated_at))
            &&& json::holds(told, "evidence"@, JsonView::Array(pieces))
            &&& json::holds(pieces[i], "id"@, JsonView::Unsigned(evidence.id))
            &&& json::holds(pieces[i], "kind"@, JsonView::Text(evidence.kind))
            &&& json::holds(pieces[i], "detail"@, JsonView::Text(evidence.detail))
            &&& json::holds(pieces[i], "source"@, JsonView::Text(evidence.source))
            &&& json::holds(pieces[i], "created_at"@, JsonView::Unsigned(evidence.created_at))
        }),
{
    let told = record_json(record)->Object_0;
    let pieces = record.evidence.map_values(|item: HypothesisEvidenceView| evidence_json(item));
    let evidence = record.evidence[i];
    let piece = pieces[i]->Object_0;
    assert(told[0] == ("claim_type"@, JsonView::Text(record.claim_type)));
    assert(told[1] == ("claim_value"@, JsonView::Text(record.claim_value)));
    assert(told[3] == ("created_at"@, JsonView::Unsigned(record.created_at)));
    assert(told[4] == ("entity"@, JsonView::Text(record.entity)));
    assert(told[5] == ("evidence"@, JsonView::Array(pieces)));
    assert(told[6] == ("id"@, JsonView::Unsigned(record.id)));
    assert(told[7] == ("source"@, JsonView::Text(record.source)));
    assert(told[8] == ("status"@, JsonView::Text(record.status)));
    assert(told[9] == ("updated_at"@, JsonView::Unsigned(record.updated_at)));
    assert(piece[1] == ("created_at"@, JsonView::Unsigned(evidence.created_at)));
    assert(piece[2] == ("detail"@, JsonView::Text(evidence.detail)));
    assert(piece[3] == ("id"@, JsonView::Unsigned(evidence.id)));
    assert(piece[4] == ("kind"@, JsonView::Text(evidence.kind)));
    assert(piece[5] == ("source"@, JsonView::Text(evidence.source)));
}

/// The report of how many hypotheses have been verified tells how many there are, how many
/// of them have this status, and the rate that was worked out.
pub proof fn law_real_rate_told(ledger: LedgerView, rate: JsonView, path: Seq<char>)
    requires
        ledger.hypotheses.len() < u64::MAX,
    ensures
        ({
            let report = real_rate_report_of(ledger, rate, path);
            let verified = ledger.hypotheses.filter(
                |record: HypothesisRecordView| record.status == "verified"@,
            );
            &&& json::holds(report, "total"@, JsonView::Unsigned(ledger.hypotheses.len() as u64))
            &&& json::holds(report, "verified"@, JsonView::Unsigned(verified.len() as u64))
            &&& json::holds(report, "rate"@, rate)
            &&& json::holds(report, "ledger_path"@, JsonView::Text(path))
            &&& json::holds(
                report,
                "by_status"@,
                tally::counts_json(
                    tally::tally(
                        ledger.hypotheses.map_values(
                            |record: HypothesisRecordView| record.status,
                        ),
                    ),
                ),
            )
            &&& json::holds(
                report,
                "by_source"@,
                tally::counts_json(
                    tally::tally(
                        ledger.hypotheses.map_values(
                            |record: HypothesisRecordView| record.source,
                        ),
                    ),
                ),
            )
            &&& json::holds(
                report,
                "by_claim_type"@,
                tally::counts_json(
                    tally::tally(
                        ledger.hypotheses.map_values(
                            |record: HypothesisRecordView| record.claim_type,
                        ),
                    ),
                ),
            )
        }),
{
    law_verified_counts(ledger);
    lemma_verified_filter(ledger.hypotheses);
    let statuses = ledger.hypotheses.map_values(|record: HypothesisRecordView| record.status);
    let sources = ledger.hypotheses.map_values(|record: HypothesisRecordView| record.source);
    let kinds = ledger.hypotheses.map_values(|record: HypothesisRecordView| record.claim_type);
    assert(statuses =~= ledger.statuses());
    assert(sources =~= ledger.sources());
    assert(kinds =~= ledger.claim_types());
    let verified = ledger.hypotheses.filter(
        |record: HypothesisRecordView| record.status == "verified"@,
    );
    let report = real_rate_report_of(ledger, rate, path)->Object_0;
    assert(report[0] == ("by_claim_type"@, tally::counts_json(tally::tally(kinds))));
    assert(report[1] == ("by_source"@, tally::counts_json(tally::tally(sources))));
    assert(report[2] == ("by_status"@, tally::counts_json(tally::tally(statuses))));
    assert(report[3] == ("ledger_path"@, JsonView::Text(path)));
    assert(report[4] == ("rate"@, rate));
    assert(report[6] == ("total"@, JsonView::Unsigned(ledger.hypotheses.len() as u64)));
    assert(report[7] == ("verified"@, JsonView::Unsigned(verified.len() as u64)));
}

proof fn lemma_verified_filter(records: Seq<HypothesisRecordView>)
    ensures
        tally::occurrences(
            records.map_values(|record: HypothesisRecordView| record.status),
            "verified"@,
        ) == records.filter(|record: HypothesisRecordView| record.status == "verified"@).len(),
    decreases records.len(),
{
    reveal(Seq::filter);
    let f = |record: HypothesisRecordView| record.status;
    if records.len() > 0 {
        lemma_verified_filter(records.drop_last());
        assert(records.map_values(f).drop_last() =~= records.drop_last().map_values(f));
    }
}

/// The ledger lies where the caller says, else where the environment says, else in the
/// profile of the user, else among temporary files.
pub proof fn law_place_of(
    given: JsonView,
    environment: Option<Seq<char>>,
    profile: Option<Seq<char>>,
)
    ensures
        ({
            let place = place_of(given, environment, profile);
            match arguments::optional_text(given, "ledger_path"@) {
                Some(path) => place == LedgerPlaceView::At(path),
                None => match (environment, profile) {
                    (Some(path), _) => place == LedgerPlaceView::At(path),
                    (None, Some(home)) => place == LedgerPlaceView::InProfile(home),
                    (None, None) => place == LedgerPlaceView::Temporary,
                },
            }
        }),
{
}

} // verus!
