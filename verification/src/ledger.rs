//! The ledger of hypotheses: what is claimed, what speaks for it, and what has been
//! refuted.

use vstd::prelude::*;

use crate::arguments;
use crate::json;
use crate::json::{Json, JsonView};
use crate::requests;
use crate::seqs;
use crate::text;

verus! {

/// A piece of evidence for a hypothesis.
#[derive(Debug, PartialEq, Eq)]
pub struct HypothesisEvidence {
    pub id: u64,
    pub kind: String,
    pub detail: String,
    pub source: String,
    pub addr: Option<String>,
    pub created_at: u64,
}

#[verifier::ext_equal]
pub struct HypothesisEvidenceView {
    pub id: u64,
    pub kind: Seq<char>,
    pub detail: Seq<char>,
    pub source: Seq<char>,
    pub addr: Option<Seq<char>>,
    pub created_at: u64,
}

impl DeepView for HypothesisEvidence {
    type V = HypothesisEvidenceView;

    open spec fn deep_view(&self) -> HypothesisEvidenceView {
        HypothesisEvidenceView {
            id: self.id,
            kind: self.kind@,
            detail: self.detail@,
            source: self.source@,
            addr: self.addr.deep_view(),
            created_at: self.created_at,
        }
    }
}

/// A hypothesis.
#[derive(Debug, PartialEq, Eq)]
pub struct HypothesisRecord {
    pub id: u64,
    pub entity: String,
    pub claim_type: String,
    pub claim_value: String,
    pub source: String,
    /// The number as it is written.
    pub confidence: Option<String>,
    pub status: String,
    pub created_at: u64,
    pub updated_at: u64,
    pub evidence: Vec<HypothesisEvidence>,
}

#[verifier::ext_equal]
pub struct HypothesisRecordView {
    pub id: u64,
    pub entity: Seq<char>,
    pub claim_type: Seq<char>,
    pub claim_value: Seq<char>,
    pub source: Seq<char>,
    pub confidence: Option<Seq<char>>,
    pub status: Seq<char>,
    pub created_at: u64,
    pub updated_at: u64,
    pub evidence: Seq<HypothesisEvidenceView>,
}

impl DeepView for HypothesisRecord {
    type V = HypothesisRecordView;

    open spec fn deep_view(&self) -> HypothesisRecordView {
        HypothesisRecordView {
            id: self.id,
            entity: self.entity@,
            claim_type: self.claim_type@,
            claim_value: self.claim_value@,
            source: self.source@,
            confidence: self.confidence.deep_view(),
            status: self.status@,
            created_at: self.created_at,
            updated_at: self.updated_at,
            evidence: self.evidence.deep_view(),
        }
    }
}

/// A claim that has been refuted.
#[derive(Debug, PartialEq, Eq)]
pub struct NegativeKnowledge {
    pub id: u64,
    pub entity: String,
    pub refuted_claim: String,
    pub reason: Option<String>,
    pub created_at: u64,
}

#[verifier::ext_equal]
pub struct NegativeKnowledgeView {
    pub id: u64,
    pub entity: Seq<char>,
    pub refuted_claim: Seq<char>,
    pub reason: Option<Seq<char>>,
    pub created_at: u64,
}

impl DeepView for NegativeKnowledge {
    type V = NegativeKnowledgeView;

    open spec fn deep_view(&self) -> NegativeKnowledgeView {
        NegativeKnowledgeView {
            id: self.id,
            entity: self.entity@,
            refuted_claim: self.refuted_claim@,
            reason: self.reason.deep_view(),
            created_at: self.created_at,
        }
    }
}

/// The hypotheses, and the next free identifier of each kind.
#[derive(Debug, PartialEq, Eq)]
pub struct HypothesisLedger {
    pub next_id: u64,
    pub next_evidence_id: u64,
    pub next_negative_id: u64,
    pub hypotheses: Vec<HypothesisRecord>,
    pub negative_knowledge: Vec<NegativeKnowledge>,
}

#[verifier::ext_equal]
pub struct LedgerView {
    pub next_id: u64,
    pub next_evidence_id: u64,
    pub next_negative_id: u64,
    pub hypotheses: Seq<HypothesisRecordView>,
    pub negative_knowledge: Seq<NegativeKnowledgeView>,
}

impl DeepView for HypothesisLedger {
    type V = LedgerView;

    open spec fn deep_view(&self) -> LedgerView {
        LedgerView {
            next_id: self.next_id,
            next_evidence_id: self.next_evidence_id,
            next_negative_id: self.next_negative_id,
            hypotheses: self.hypotheses.deep_view(),
            negative_knowledge: self.negative_knowledge.deep_view(),
        }
    }
}

pub fn default_next_id() -> (id: u64)
    ensures
        id == 1,
{
    1
}

impl Default for HypothesisLedger {
    fn default() -> (ledger: Self)
        ensures
            ledger.deep_view() == empty_ledger(),
    {
        let ledger = HypothesisLedger {
            next_id: default_next_id(),
            next_evidence_id: default_next_id(),
            next_negative_id: default_next_id(),
            hypotheses: Vec::new(),
            negative_knowledge: Vec::new(),
        };
        proof {
            assert(ledger.deep_view() =~= empty_ledger());
        }
        ledger
    }
}

/// A ledger without entries.
pub open spec fn empty_ledger() -> LedgerView {
    LedgerView {
        next_id: 1,
        next_evidence_id: 1,
        next_negative_id: 1,
        hypotheses: Seq::empty(),
        negative_knowledge: Seq::empty(),
    }
}

/// The number behind the highest of some identifiers; one where there are none.
pub open spec fn behind(ids: Seq<u64>) -> int
    decreases ids.len(),
{
    if ids.len() == 0 {
        1
    } else {
        let front = behind(ids.drop_last());
        if ids.last() + 1 > front {
            ids.last() + 1
        } else {
            front
        }
    }
}

/// The higher of two numbers.
pub open spec fn higher(a: int, b: int) -> int {
    if a > b {
        a
    } else {
        b
    }
}

/// The identifiers of the evidence of a hypothesis.
pub open spec fn evidence_id_run() -> spec_fn(HypothesisRecordView) -> Seq<u64> {
    |record: HypothesisRecordView|
        record.evidence.map_values(|evidence: HypothesisEvidenceView| evidence.id)
}

impl LedgerView {
    pub open spec fn ids(self) -> Seq<u64> {
        self.hypotheses.map_values(|record: HypothesisRecordView| record.id)
    }

    pub open spec fn evidence_ids(self) -> Seq<u64> {
        self.hypotheses.flat_map(evidence_id_run())
    }

    pub open spec fn negative_ids(self) -> Seq<u64> {
        self.negative_knowledge.map_values(|negative: NegativeKnowledgeView| negative.id)
    }

    /// The next free identifiers.
    pub open spec fn free_id(self) -> int {
        higher(self.next_id as int, behind(self.ids()))
    }

    pub open spec fn free_evidence_id(self) -> int {
        higher(self.next_evidence_id as int, behind(self.evidence_ids()))
    }

    pub open spec fn free_negative_id(self) -> int {
        higher(self.next_negative_id as int, behind(self.negative_ids()))
    }

    /// Whether there is a free identifier of each kind.
    pub open spec fn has_free_ids(self) -> bool {
        &&& self.free_id() <= u64::MAX
        &&& self.free_evidence_id() <= u64::MAX
        &&& self.free_negative_id() <= u64::MAX
    }

    /// Whether an identifier for one more hypothesis can be taken.
    pub open spec fn has_room_for_claim(self) -> bool {
        self.has_free_ids() && self.free_id() < u64::MAX
    }

    /// Whether an identifier for one more piece of evidence can be taken.
    pub open spec fn has_room_for_evidence(self) -> bool {
        self.has_free_ids() && self.free_evidence_id() < u64::MAX
    }

    /// Whether an identifier for one more refuted claim can be taken.
    pub open spec fn has_room_for_refuted(self) -> bool {
        self.has_free_ids() && self.free_negative_id() < u64::MAX
    }

    /// The ledger with its next identifiers behind all that are taken.
    pub open spec fn normalized(self) -> LedgerView {
        LedgerView {
            next_id: self.free_id() as u64,
            next_evidence_id: self.free_evidence_id() as u64,
            next_negative_id: self.free_negative_id() as u64,
            ..self
        }
    }

    /// The hypothesis with an identifier.
    pub open spec fn find(self, id: u64) -> Option<int> {
        seqs::first_from(self.hypotheses, 0, |record: HypothesisRecordView| record.id == id)
    }
}

/// Every identifier is below the number behind them.
pub proof fn lemma_behind(ids: Seq<u64>)
    ensures
        behind(ids) >= 1,
        forall|i: int| 0 <= i < ids.len() ==> (#[trigger] ids[i]) < behind(ids),
    decreases ids.len(),
{
    if ids.len() > 0 {
        lemma_behind(ids.drop_last());
        assert forall|i: int| 0 <= i < ids.len() implies (#[trigger] ids[i]) < behind(ids) by {
            if i < ids.len() - 1 {
                assert(ids.drop_last()[i] == ids[i]);
            }
        }
    }
}

/// The identifier that a ledger gives next is taken by none of its hypotheses.
pub proof fn law_fresh_id(ledger: LedgerView)
    ensures
        ledger.free_id() <= u64::MAX ==> ledger.find(ledger.free_id() as u64) is None,
        ledger.free_id() <= u64::MAX ==> !ledger.ids().contains(ledger.free_id() as u64),
{
    let ids = ledger.ids();
    let id = ledger.free_id() as u64;
    lemma_behind(ids);
    let wanted = |record: HypothesisRecordView| record.id == id;
    seqs::lemma_first_from(ledger.hypotheses, 0, wanted);
    if let Some(i) = ledger.find(id) {
        assert(ids[i] == ledger.hypotheses[i].id);
    }
}

/// The number behind the highest of some identifiers and no lower than another; none
/// where it does not fit.
fn free_behind(next: u64, ids: &Vec<u64>) -> (result: Option<u64>)
    ensures
        match result {
            Some(n) => n == higher(next as int, behind(ids@)),
            None => higher(next as int, behind(ids@)) > u64::MAX,
        },
{
    let mut front: u64 = 1;
    let mut i: usize = 0;
    proof {
        assert(ids@.take(0) =~= Seq::<u64>::empty());
        lemma_behind(ids@);
    }
    while i < ids.len()
        invariant
            i <= ids.len(),
            forall|k: int| 0 <= k < ids@.len() ==> (#[trigger] ids@[k]) < behind(ids@),
            front == behind(ids@.take(i as int)),
        decreases ids.len() - i,
    {
        let id: u64 = ids[i];
        proof {
            assert(ids@.take(i + 1).drop_last() =~= ids@.take(i as int));
        }
        if id == u64::MAX {
            return None;
        }
        if id + 1 > front {
            front = id + 1;
        }
        i += 1;
    }
    proof {
        assert(ids@.take(ids@.len() as int) =~= ids@);
    }
    if next > front {
        Some(next)
    } else {
        Some(front)
    }
}

impl HypothesisLedger {
    fn id_list(&self) -> (ids: Vec<u64>)
        ensures
            ids@ == self.deep_view().ids(),
    {
        let ghost all = self.deep_view().ids();
        let mut ids: Vec<u64> = Vec::new();
        let mut i: usize = 0;
        while i < self.hypotheses.len()
            invariant
                i <= self.hypotheses.len(),
                all == self.deep_view().ids(),
                all.len() == self.hypotheses@.len(),
                ids@ =~= all.take(i as int),
            decreases self.hypotheses.len() - i,
        {
            ids.push(self.hypotheses[i].id);
            i += 1;
        }
        proof {
            assert(all.take(all.len() as int) =~= all);
        }
        ids
    }

    fn evidence_id_list(&self) -> (ids: Vec<u64>)
        ensures
            ids@ == self.deep_view().evidence_ids(),
    {
        let ghost all = self.hypotheses.deep_view();
        let ghost f = evidence_id_run();
        let mut ids: Vec<u64> = Vec::new();
        let mut i: usize = 0;
        proof {
            seqs::lemma_flat_map_ends(all, f);
            assert(ids@ =~= all.take(0).flat_map(f));
        }
        while i < self.hypotheses.len()
            invariant
                i <= self.hypotheses.len(),
                all == self.hypotheses.deep_view(),
                all.len() == self.hypotheses@.len(),
                f == evidence_id_run(),
                ids@ == all.take(i as int).flat_map(f),
            decreases self.hypotheses.len() - i,
        {
            let evidence = &self.hypotheses[i].evidence;
            let ghost run = f(all[i as int]);
            let ghost before = ids@;
            let mut k: usize = 0;
            proof {
                assert(all[i as int] == self.hypotheses@[i as int].deep_view());
                assert(run.len() == evidence@.len());
                assert(before + run.take(0) =~= before);
            }
            while k < evidence.len()
                invariant
                    k <= evidence.len(),
                    run == evidence.deep_view().map_values(|item: HypothesisEvidenceView| item.id),
                    run.len() == evidence@.len(),
                    ids@ == before + run.take(k as int),
                decreases evidence.len() - k,
            {
                ids.push(evidence[k].id);
                k += 1;
                proof {
                    assert(run[k - 1] == evidence@[k - 1].id);
                    assert(ids@ =~= before + run.take(k as int));
                }
            }
            proof {
                assert(run.take(run.len() as int) =~= run);
                seqs::lemma_flat_map_step(all, i as int, f);
            }
            i += 1;
        }
        proof {
            seqs::lemma_flat_map_ends(all, f);
        }
        ids
    }

    fn negative_id_list(&self) -> (ids: Vec<u64>)
        ensures
            ids@ == self.deep_view().negative_ids(),
    {
        let ghost all = self.deep_view().negative_ids();
        let mut ids: Vec<u64> = Vec::new();
        let mut i: usize = 0;
        while i < self.negative_knowledge.len()
            invariant
                i <= self.negative_knowledge.len(),
                all == self.deep_view().negative_ids(),
                all.len() == self.negative_knowledge@.len(),
                ids@ =~= all.take(i as int),
            decreases self.negative_knowledge.len() - i,
        {
            ids.push(self.negative_knowledge[i].id);
            i += 1;
        }
        proof {
            assert(all.take(all.len() as int) =~= all);
        }
        ids
    }

    /// The next free identifiers: of a hypothesis, of evidence and of a refuted claim.
    fn free_ids(&self) -> (ids: Option<(u64, u64, u64)>)
        ensures
            match ids {
                Some((id, evidence, negative)) => id == self.deep_view().free_id() && evidence
                    == self.deep_view().free_evidence_id() && negative
                    == self.deep_view().free_negative_id(),
                None => !self.deep_view().has_free_ids(),
            },
    {
        let id: u64 = free_behind(self.next_id, &self.id_list())?;
        let evidence: u64 = free_behind(self.next_evidence_id, &self.evidence_id_list())?;
        let negative: u64 = free_behind(self.next_negative_id, &self.negative_id_list())?;
        Some((id, evidence, negative))
    }

    /// Whether there is a free identifier of each kind.
    pub fn has_free_ids(&self) -> (free: bool)
        ensures
            free == self.deep_view().has_free_ids(),
    {
        self.free_ids().is_some()
    }

    /// Whether an identifier for one more hypothesis can be taken.
    pub fn has_room_for_claim(&self) -> (room: bool)
        ensures
            room == self.deep_view().has_room_for_claim(),
    {
        match self.free_ids() {
            Some((id, _, _)) => id < u64::MAX,
            None => false,
        }
    }

    /// Whether an identifier for one more piece of evidence can be taken.
    pub fn has_room_for_evidence(&self) -> (room: bool)
        ensures
            room == self.deep_view().has_room_for_evidence(),
    {
        match self.free_ids() {
            Some((_, id, _)) => id < u64::MAX,
            None => false,
        }
    }

    /// Whether an identifier for one more refuted claim can be taken.
    pub fn has_room_for_refuted(&self) -> (room: bool)
        ensures
            room == self.deep_view().has_room_for_refuted(),
    {
        match self.free_ids() {
            Some((_, _, id)) => id < u64::MAX,
            None => false,
        }
    }

    /// Puts the next identifiers behind all that are taken.
    pub fn normalize(&mut self)
        requires
            old(self).deep_view().has_free_ids(),
        ensures
            final(self).deep_view() == old(self).deep_view().normalized(),
    {
        if let Some((id, evidence, negative)) = self.free_ids() {
            self.next_id = id;
            self.next_evidence_id = evidence;
            self.next_negative_id = negative;
        }
    }

    /// Takes an identifier for a hypothesis.
    pub fn next_hypothesis_id(&mut self) -> (id: u64)
        requires
            old(self).deep_view().has_room_for_claim(),
        ensures
            id == old(self).deep_view().free_id(),
            final(self).deep_view() == (LedgerView {
                next_id: (id + 1) as u64,
                ..old(self).deep_view().normalized()
            }),
    {
        self.normalize();
        let id: u64 = self.next_id;
        self.next_id = id + 1;
        id
    }

    /// Takes an identifier for a piece of evidence.
    pub fn next_evidence_id(&mut self) -> (id: u64)
        requires
            old(self).deep_view().has_room_for_evidence(),
        ensures
            id == old(self).deep_view().free_evidence_id(),
            final(self).deep_view() == (LedgerView {
                next_evidence_id: (id + 1) as u64,
                ..old(self).deep_view().normalized()
            }),
    {
        self.normalize();
        let id: u64 = self.next_evidence_id;
        self.next_evidence_id = id + 1;
        id
    }

    /// Takes an identifier for a refuted claim.
    pub fn next_negative_id(&mut self) -> (id: u64)
        requires
            old(self).deep_view().has_room_for_refuted(),
        ensures
            id == old(self).deep_view().free_negative_id(),
            final(self).deep_view() == (LedgerView {
                next_negative_id: (id + 1) as u64,
                ..old(self).deep_view().normalized()
            }),
    {
        self.normalize();
        let id: u64 = self.next_negative_id;
        self.next_negative_id = id + 1;
        id
    }

    /// The place of the hypothesis with an identifier.
    fn position(&self, id: u64) -> (place: Option<usize>)
        ensures
            match place {
                Some(i) => i < self.hypotheses@.len() && self.deep_view().find(id) == Some(
                    i as int,
                ),
                None => self.deep_view().find(id) is None,
            },
    {
        let ghost all = self.hypotheses.deep_view();
        let ghost wanted = |record: HypothesisRecordView| record.id == id;
        let mut i: usize = 0;
        while i < self.hypotheses.len()
            invariant
                i <= self.hypotheses.len(),
                all == self.hypotheses.deep_view(),
                all.len() == self.hypotheses@.len(),
                wanted == (|record: HypothesisRecordView| record.id == id),
                seqs::first_from(all, 0, wanted) == seqs::first_from(all, i as int, wanted),
            decreases self.hypotheses.len() - i,
        {
            proof {
                assert(all[i as int] == self.hypotheses@[i as int].deep_view());
            }
            if self.hypotheses[i].id == id {
                return Some(i);
            }
            i += 1;
        }
        None
    }
}

/// A hypothesis that is to be recorded.
#[derive(Debug, PartialEq, Eq)]
pub struct HypothesisClaim {
    pub entity: String,
    pub claim_type: String,
    pub claim_value: String,
    pub source: String,
}

#[verifier::ext_equal]
pub struct HypothesisClaimView {
    pub entity: Seq<char>,
    pub claim_type: Seq<char>,
    pub claim_value: Seq<char>,
    pub source: Seq<char>,
}

impl DeepView for HypothesisClaim {
    type V = HypothesisClaimView;

    open spec fn deep_view(&self) -> HypothesisClaimView {
        HypothesisClaimView {
            entity: self.entity@,
            claim_type: self.claim_type@,
            claim_value: self.claim_value@,
            source: self.source@,
        }
    }
}

/// What is asked, or which argument is at fault.
pub open spec fn record_asked(given: JsonView) -> Result<HypothesisClaimView, Seq<char>> {
    match arguments::text_argument(given, "entity"@) {
        Err(message) => Err(message),
        Ok(entity) => match arguments::text_argument(given, "claim_type"@) {
            Err(message) => Err(message),
            Ok(claim_type) => match arguments::text_argument(given, "claim_value"@) {
                Err(message) => Err(message),
                Ok(claim_value) => Ok(
                    HypothesisClaimView {
                        entity,
                        claim_type,
                        claim_value,
                        source: match arguments::optional_text(given, "source"@) {
                            Some(source) => source,
                            None => "llm"@,
                        },
                    },
                ),
            },
        },
    }
}

pub fn record_request(given: &Json) -> (result: Result<HypothesisClaim, String>)
    ensures
        requests::asked(result) == record_asked(given.deep_view()),
{
    let entity = arguments::required_str(given, "entity")?;
    let claim_type = arguments::required_str(given, "claim_type")?;
    let claim_value = arguments::required_str(given, "claim_value")?;
    let source = match arguments::optional_str(given, "source") {
        Some(source) => source,
        None => "llm",
    };
    Ok(
        HypothesisClaim {
            entity: entity.to_string(),
            claim_type: claim_type.to_string(),
            claim_value: claim_value.to_string(),
            source: source.to_string(),
        },
    )
}

impl LedgerView {
    /// The ledger with one more hypothesis, which is not verified yet.
    pub open spec fn with_claim(
        self,
        claim: HypothesisClaimView,
        confidence: Option<Seq<char>>,
        now: u64,
    ) -> LedgerView {
        let ledger = self.normalized();
        LedgerView {
            next_id: (ledger.next_id + 1) as u64,
            hypotheses: ledger.hypotheses.push(
                HypothesisRecordView {
                    id: ledger.next_id,
                    entity: claim.entity,
                    claim_type: claim.claim_type,
                    claim_value: claim.claim_value,
                    source: claim.source,
                    confidence,
                    status: "unverified"@,
                    created_at: now,
                    updated_at: now,
                    evidence: Seq::empty(),
                },
            ),
            ..ledger
        }
    }
}

impl HypothesisLedger {
    /// Records a hypothesis and gives its identifier.
    pub fn record(&mut self, claim: HypothesisClaim, confidence: Option<String>, now: u64) -> (id:
        u64)
        requires
            old(self).deep_view().has_room_for_claim(),
        ensures
            id == old(self).deep_view().free_id(),
            final(self).deep_view() == old(self).deep_view().with_claim(
                claim.deep_view(),
                confidence.deep_view(),
                now,
            ),
    {
        let id: u64 = self.next_hypothesis_id();
        let ghost before = self.hypotheses.deep_view();
        let record = HypothesisRecord {
            id,
            entity: claim.entity,
            claim_type: claim.claim_type,
            claim_value: claim.claim_value,
            source: claim.source,
            confidence,
            status: "unverified".to_string(),
            created_at: now,
            updated_at: now,
            evidence: Vec::new(),
        };
        let ghost view = record.deep_view();
        proof {
            assert(record.evidence.deep_view() =~= Seq::<HypothesisEvidenceView>::empty());
        }
        self.hypotheses.push(record);
        proof {
            assert(self.hypotheses.deep_view() =~= before.push(view));
        }
        id
    }
}

/// Evidence that is to be added.
#[derive(Debug, PartialEq, Eq)]
pub struct EvidenceClaim {
    pub hypothesis_id: u64,
    pub kind: String,
    pub detail: String,
    pub source: String,
    pub addr: Option<String>,
}

#[verifier::ext_equal]
pub struct EvidenceClaimView {
    pub hypothesis_id: u64,
    pub kind: Seq<char>,
    pub detail: Seq<char>,
    pub source: Seq<char>,
    pub addr: Option<Seq<char>>,
}

impl DeepView for EvidenceClaim {
    type V = EvidenceClaimView;

    open spec fn deep_view(&self) -> EvidenceClaimView {
        EvidenceClaimView {
            hypothesis_id: self.hypothesis_id,
            kind: self.kind@,
            detail: self.detail@,
            source: self.source@,
            addr: self.addr.deep_view(),
        }
    }
}

/// What is asked, or which argument is at fault.
pub open spec fn add_evidence_asked(given: JsonView) -> Result<EvidenceClaimView, Seq<char>> {
    match arguments::u64_argument(given, "hypothesis_id"@) {
        Err(message) => Err(message),
        Ok(hypothesis_id) => match arguments::text_argument(given, "kind"@) {
            Err(message) => Err(message),
            Ok(kind) => match arguments::text_argument(given, "detail"@) {
                Err(message) => Err(message),
                Ok(detail) => match arguments::text_argument(given, "source"@) {
                    Err(message) => Err(message),
                    Ok(source) => Ok(
                        EvidenceClaimView {
                            hypothesis_id,
                            kind,
                            detail,
                            source,
                            addr: arguments::optional_text(given, "addr"@),
                        },
                    ),
                },
            },
        },
    }
}

pub fn add_evidence_request(given: &Json) -> (result: Result<EvidenceClaim, String>)
    ensures
        requests::asked(result) == add_evidence_asked(given.deep_view()),
{
    let hypothesis_id: u64 = arguments::required_u64(given, "hypothesis_id")?;
    let kind = arguments::required_str(given, "kind")?;
    let detail = arguments::required_str(given, "detail")?;
    let source = arguments::required_str(given, "source")?;
    let addr = match arguments::optional_str(given, "addr") {
        Some(addr) => Some(addr.to_string()),
        None => None,
    };
    Ok(
        EvidenceClaim {
            hypothesis_id,
            kind: kind.to_string(),
            detail: detail.to_string(),
            source: source.to_string(),
            addr,
        },
    )
}

/// What to say of a hypothesis that is not there.
pub open spec fn missing(id: u64) -> Seq<char> {
    "no hypothesis "@ + text::decimal_text(id as nat)
}

fn missing_message(id: u64) -> (message: String)
    ensures
        message@ == missing(id),
{
    let mut message = "no hypothesis ".to_string();
    text::push_decimal(&mut message, id);
    message
}

impl LedgerView {
    /// The ledger with one more piece of evidence for the hypothesis at a place.
    pub open spec fn with_evidence(self, i: int, claim: EvidenceClaimView, now: u64) -> LedgerView {
        let ledger = self.normalized();
        let record = ledger.hypotheses[i];
        LedgerView {
            next_evidence_id: (ledger.next_evidence_id + 1) as u64,
            hypotheses: ledger.hypotheses.update(
                i,
                HypothesisRecordView {
                    updated_at: now,
                    evidence: record.evidence.push(
                        HypothesisEvidenceView {
                            id: ledger.next_evidence_id,
                            kind: claim.kind,
                            detail: claim.detail,
                            source: claim.source,
                            addr: claim.addr,
                            created_at: now,
                        },
                    ),
                    ..record
                },
            ),
            ..ledger
        }
    }
}

impl HypothesisLedger {
    /// Adds a piece of evidence to a hypothesis and gives the status of the
    /// hypothesis, which stays what it is.
    pub fn add_evidence(&mut self, claim: EvidenceClaim, now: u64) -> (result: Result<
        String,
        String,
    >)
        requires
            old(self).deep_view().has_room_for_evidence(),
        ensures
            match old(self).deep_view().find(claim.hypothesis_id) {
                Some(i) => result matches Ok(status) && status@
                    == old(self).deep_view().hypotheses[i].status && final(self).deep_view()
                    == old(self).deep_view().with_evidence(i, claim.deep_view(), now),
                None => result matches Err(message) && message@ == missing(claim.hypothesis_id)
                    && final(self).deep_view() == old(self).deep_view(),
            },
    {
        let place: usize = match self.position(claim.hypothesis_id) {
            Some(place) => place,
            None => {
                return Err(missing_message(claim.hypothesis_id));
            },
        };
        let id: u64 = self.next_evidence_id();
        let ghost records = self.hypotheses.deep_view();
        let evidence = HypothesisEvidence {
            id,
            kind: claim.kind,
            detail: claim.detail,
            source: claim.source,
            addr: claim.addr,
            created_at: now,
        };
        let ghost added = evidence.deep_view();
        proof {
            assert(records.len() == self.hypotheses@.len());
            assert(records[place as int] == self.hypotheses@[place as int].deep_view());
        }
        let mut record = self.hypotheses.remove(place);
        let ghost old_evidence = record.evidence.deep_view();
        record.updated_at = now;
        record.evidence.push(evidence);
        proof {
            assert(record.evidence.deep_view() =~= old_evidence.push(added));
        }
        let status = record.status.clone();
        let ghost changed = record.deep_view();
        self.hypotheses.insert(place, record);
        proof {
            assert(self.hypotheses.deep_view() =~= records.update(place as int, changed));
        }
        Ok(status)
    }
}

/// What has been found of a hypothesis.
#[derive(Debug, PartialEq, Eq)]
pub struct VerdictClaim {
    pub hypothesis_id: u64,
    pub contradicted: bool,
    pub note: Option<String>,
}

#[verifier::ext_equal]
pub struct VerdictClaimView {
    pub hypothesis_id: u64,
    pub contradicted: bool,
    pub note: Option<Seq<char>>,
}

impl DeepView for VerdictClaim {
    type V = VerdictClaimView;

    open spec fn deep_view(&self) -> VerdictClaimView {
        VerdictClaimView {
            hypothesis_id: self.hypothesis_id,
            contradicted: self.contradicted,
            note: self.note.deep_view(),
        }
    }
}

impl VerdictClaimView {
    /// The status that the verdict gives.
    pub open spec fn status(self) -> Seq<char> {
        if self.contradicted {
            "contradicted"@
        } else {
            "verified"@
        }
    }
}

impl VerdictClaim {
    /// The status that the verdict gives.
    pub fn status(&self) -> (status: &'static str)
        ensures
            status@ == self.deep_view().status(),
    {
        if self.contradicted {
            "contradicted"
        } else {
            "verified"
        }
    }
}

/// What is asked, or which argument is at fault; there are two verdicts.
pub open spec fn verify_asked(given: JsonView) -> Result<VerdictClaimView, Seq<char>> {
    match arguments::u64_argument(given, "hypothesis_id"@) {
        Err(message) => Err(message),
        Ok(hypothesis_id) => match arguments::text_argument(given, "verdict"@) {
            Err(message) => Err(message),
            Ok(verdict) => if verdict == "verified"@ || verdict == "contradicted"@ {
                Ok(
                    VerdictClaimView {
                        hypothesis_id,
                        contradicted: verdict == "contradicted"@,
                        note: arguments::optional_text(given, "note"@),
                    },
                )
            } else {
                Err("verdict must be 'verified' or 'contradicted'"@)
            },
        },
    }
}

pub fn verify_request(given: &Json) -> (result: Result<VerdictClaim, String>)
    ensures
        requests::asked(result) == verify_asked(given.deep_view()),
{
    let hypothesis_id: u64 = arguments::required_u64(given, "hypothesis_id")?;
    let verdict = arguments::required_str(given, "verdict")?;
    let contradicted = text::same_text(verdict, "contradicted");
    if !contradicted && !text::same_text(verdict, "verified") {
        return Err("verdict must be 'verified' or 'contradicted'".to_string());
    }
    let note = match arguments::optional_str(given, "note") {
        Some(note) => Some(note.to_string()),
        None => None,
    };
    Ok(VerdictClaim { hypothesis_id, contradicted, note })
}

impl LedgerView {
    /// The ledger with a status and a time for the hypothesis at a place.
    pub open spec fn with_status(self, i: int, status: Seq<char>, now: u64) -> LedgerView {
        LedgerView {
            hypotheses: self.hypotheses.update(
                i,
                HypothesisRecordView { status, updated_at: now, ..self.hypotheses[i] },
            ),
            ..self
        }
    }

    /// The ledger with one more refuted claim: that of the hypothesis at a place.
    pub open spec fn with_refuted(self, i: int, reason: Option<Seq<char>>, now: u64) -> LedgerView {
        let ledger = self.normalized();
        let record = ledger.hypotheses[i];
        LedgerView {
            next_negative_id: (ledger.next_negative_id + 1) as u64,
            negative_knowledge: ledger.negative_knowledge.push(
                NegativeKnowledgeView {
                    id: ledger.next_negative_id,
                    entity: record.entity,
                    refuted_claim: record.claim_type + "="@ + record.claim_value,
                    reason,
                    created_at: now,
                },
            ),
            ..ledger
        }
    }

    /// The ledger after a verdict on the hypothesis at a place.
    pub open spec fn with_verdict(self, i: int, claim: VerdictClaimView, now: u64) -> LedgerView {
        let ledger = self.with_status(i, claim.status(), now);
        if claim.contradicted {
            ledger.with_refuted(i, claim.note, now)
        } else {
            ledger
        }
    }
}

/// What to say of a hypothesis that nothing speaks for.
pub open spec fn unsupported(id: u64) -> Seq<char> {
    "hypothesis "@ + text::decimal_text(id as nat) + " has no evidence"@
}

fn unsupported_message(id: u64) -> (message: String)
    ensures
        message@ == unsupported(id),
{
    let mut message = "hypothesis ".to_string();
    text::push_decimal(&mut message, id);
    message.append(" has no evidence");
    message
}

impl LedgerView {
    /// Whether a verdict may be given on the hypothesis at a place: nothing is
    /// verified without evidence.
    pub open spec fn admits(self, i: int, claim: VerdictClaimView) -> bool {
        claim.contradicted || self.hypotheses[i].evidence.len() > 0
    }

    /// The ledger after a claim has been settled, or what stands against that.
    pub open spec fn decided(self, claim: VerdictClaimView, now: u64) -> Result<
        LedgerView,
        Seq<char>,
    > {
        match self.find(claim.hypothesis_id) {
            Some(i) => if self.admits(i, claim) {
                Ok(self.with_verdict(i, claim, now))
            } else {
                Err(unsupported(claim.hypothesis_id))
            },
            None => Err(missing(claim.hypothesis_id)),
        }
    }
}

/// A status and a time change no identifier.
proof fn lemma_status_keeps_ids(ledger: LedgerView, i: int, status: Seq<char>, now: u64)
    requires
        0 <= i < ledger.hypotheses.len(),
    ensures
        ledger.with_status(i, status, now).ids() == ledger.ids(),
        ledger.with_status(i, status, now).evidence_ids() == ledger.evidence_ids(),
        ledger.with_status(i, status, now).negative_ids() == ledger.negative_ids(),
{
    let next = ledger.with_status(i, status, now);
    assert(next.ids() =~= ledger.ids());
    let f = evidence_id_run();
    assert(next.hypotheses.map_values(f) =~= ledger.hypotheses.map_values(f));
    assert(next.evidence_ids() == ledger.evidence_ids());
}

impl HypothesisLedger {
    /// Gives a hypothesis a verdict. Nothing is verified without evidence, and a
    /// contradicted claim is kept as refuted.
    pub fn verify(&mut self, claim: VerdictClaim, now: u64) -> (result: Result<(), String>)
        requires
            claim.contradicted && old(self).deep_view().find(claim.hypothesis_id) is Some
                ==> old(self).deep_view().has_room_for_refuted(),
        ensures
            match old(self).deep_view().decided(claim.deep_view(), now) {
                Ok(ledger) => result is Ok && final(self).deep_view() == ledger,
                Err(reason) => result matches Err(message) && message@ == reason
                    && final(self).deep_view() == old(self).deep_view(),
            },
    {
        let place: usize = match self.position(claim.hypothesis_id) {
            Some(place) => place,
            None => {
                return Err(missing_message(claim.hypothesis_id));
            },
        };
        let ghost start = self.deep_view();
        let ghost records = self.hypotheses.deep_view();
        proof {
            assert(records.len() == self.hypotheses@.len());
            assert(records[place as int] == self.hypotheses@[place as int].deep_view());
            assert(records[place as int].evidence.len()
                == self.hypotheses@[place as int].evidence@.len());
        }
        if !claim.contradicted && self.hypotheses[place].evidence.len() == 0 {
            return Err(unsupported_message(claim.hypothesis_id));
        }
        let mut record = self.hypotheses.remove(place);
        record.status = claim.status().to_string();
        record.updated_at = now;
        let entity = record.entity.clone();
        let mut refuted_claim = record.claim_type.clone();
        refuted_claim.append("=");
        refuted_claim.append(&record.claim_value);
        let ghost changed = record.deep_view();
        self.hypotheses.insert(place, record);
        proof {
            assert(self.hypotheses.deep_view() =~= records.update(place as int, changed));
            assert(self.deep_view() == start.with_status(
                place as int,
                claim.deep_view().status(),
                now,
            ));
            lemma_status_keeps_ids(start, place as int, claim.deep_view().status(), now);
        }
        if claim.contradicted {
            let id: u64 = self.next_negative_id();
            let ghost before = self.negative_knowledge.deep_view();
            let negative = NegativeKnowledge {
                id,
                entity,
                refuted_claim,
                reason: claim.note,
                created_at: now,
            };
            let ghost added = negative.deep_view();
            self.negative_knowledge.push(negative);
            proof {
                assert(self.negative_knowledge.deep_view() =~= before.push(added));
            }
        }
        Ok(())
    }
}

impl LedgerView {
    /// Whether something speaks for every hypothesis that is verified.
    pub open spec fn supported(self) -> bool {
        forall|i: int|
            0 <= i < self.hypotheses.len() && (#[trigger] self.hypotheses[i]).status
                == "verified"@ ==> self.hypotheses[i].evidence.len() > 0
    }
}

/// A claim becomes an established fact only when evidence is attached: whatever is
/// recorded, added or decided, every hypothesis that is verified has evidence.
pub proof fn law_verified_has_evidence(
    ledger: LedgerView,
    recorded: HypothesisClaimView,
    confidence: Option<Seq<char>>,
    added: EvidenceClaimView,
    decided: VerdictClaimView,
    now: u64,
)
    requires
        ledger.supported(),
    ensures
        empty_ledger().supported(),
        ledger.normalized().supported(),
        ledger.with_claim(recorded, confidence, now).supported(),
        ledger.find(added.hypothesis_id) matches Some(i) ==> ledger.with_evidence(
            i,
            added,
            now,
        ).supported(),
        ledger.decided(decided, now) matches Ok(next) ==> next.supported(),
{
    reveal_strlit("verified");
    reveal_strlit("unverified");
    reveal_strlit("contradicted");
    assert("unverified"@.len() == 10 && "verified"@.len() == 8 && "contradicted"@.len() == 12);
    let found = |id: u64| (|record: HypothesisRecordView| record.id == id);
    seqs::lemma_first_from(ledger.hypotheses, 0, found(added.hypothesis_id));
    seqs::lemma_first_from(ledger.hypotheses, 0, found(decided.hypothesis_id));
    assert(ledger.with_claim(recorded, confidence, now).supported()) by {
        let next = ledger.with_claim(recorded, confidence, now);
        assert forall|i: int|
            0 <= i < next.hypotheses.len() && (#[trigger] next.hypotheses[i]).status
                == "verified"@ implies next.hypotheses[i].evidence.len() > 0 by {
            if i < ledger.hypotheses.len() {
                assert(next.hypotheses[i] == ledger.hypotheses[i]);
            }
        }
    }
    if let Some(place) = ledger.find(added.hypothesis_id) {
        let next = ledger.with_evidence(place, added, now);
        assert forall|i: int|
            0 <= i < next.hypotheses.len() && (#[trigger] next.hypotheses[i]).status
                == "verified"@ implies next.hypotheses[i].evidence.len() > 0 by {
            if i != place {
                assert(next.hypotheses[i] == ledger.hypotheses[i]);
            }
        }
    }
    if let Some(place) = ledger.find(decided.hypothesis_id) {
        if ledger.admits(place, decided) {
            let next = ledger.with_verdict(place, decided, now);
            assert forall|i: int|
                0 <= i < next.hypotheses.len() && (#[trigger] next.hypotheses[i]).status
                    == "verified"@ implies next.hypotheses[i].evidence.len() > 0 by {
                if i != place {
                    assert(next.hypotheses[i] == ledger.hypotheses[i]);
                }
            }
        }
    }
}

/// Where no two hypotheses share an identifier, none do after one more is recorded,
/// and the new one is found under its identifier.
pub proof fn law_recorded_is_found(
    ledger: LedgerView,
    claim: HypothesisClaimView,
    confidence: Option<Seq<char>>,
    now: u64,
)
    requires
        ledger.has_room_for_claim(),
        ledger.ids().no_duplicates(),
    ensures
        ledger.with_claim(claim, confidence, now).ids().no_duplicates(),
        ledger.with_claim(claim, confidence, now).find(ledger.free_id() as u64) == Some(
            ledger.hypotheses.len() as int,
        ),
{
    let next = ledger.with_claim(claim, confidence, now);
    let id = ledger.free_id() as u64;
    law_fresh_id(ledger);
    assert(next.ids() =~= ledger.ids().push(id));
    let wanted = |record: HypothesisRecordView| record.id == id;
    seqs::lemma_first_from(next.hypotheses, 0, wanted);
    assert(wanted(next.hypotheses[ledger.hypotheses.len() as int]));
    if let Some(i) = next.find(id) {
        if i < ledger.hypotheses.len() {
            assert(ledger.ids()[i] == id);
        }
    }
}

/// Evidence changes no status, and no hypothesis but the one that it is for.
pub proof fn law_evidence_keeps_status(
    ledger: LedgerView,
    i: int,
    claim: EvidenceClaimView,
    now: u64,
)
    requires
        0 <= i < ledger.hypotheses.len(),
    ensures
        ledger.with_evidence(i, claim, now).hypotheses.len() == ledger.hypotheses.len(),
        ledger.with_evidence(i, claim, now).hypotheses[i].status == ledger.hypotheses[i].status,
        ledger.with_evidence(i, claim, now).negative_knowledge == ledger.negative_knowledge,
        forall|k: int|
            0 <= k < ledger.hypotheses.len() && k != i ==> (#[trigger] ledger.with_evidence(
                i,
                claim,
                now,
            ).hypotheses[k]) == ledger.hypotheses[k],
{
}

/// A contradiction leaves a refuted claim of the same entity; a confirmation leaves
/// what is refuted as it is.
pub proof fn law_contradiction_is_kept(
    ledger: LedgerView,
    i: int,
    claim: VerdictClaimView,
    now: u64,
)
    requires
        0 <= i < ledger.hypotheses.len(),
    ensures
        ledger.with_verdict(i, claim, now).hypotheses[i].status == claim.status(),
        claim.contradicted ==> ledger.with_verdict(i, claim, now).negative_knowledge.len()
            == ledger.negative_knowledge.len() + 1 && ledger.with_verdict(
            i,
            claim,
            now,
        ).negative_knowledge.last().entity == ledger.hypotheses[i].entity,
        !claim.contradicted ==> ledger.with_verdict(i, claim, now).negative_knowledge
            == ledger.negative_knowledge,
{
}

proof fn lemma_behind_least(ids: Seq<u64>)
    ensures
        behind(ids) >= 1,
        forall|i: int| 0 <= i < ids.len() ==> #[trigger] ids[i] < behind(ids),
        behind(ids) == 1 || ids.contains((behind(ids) - 1) as u64),
        behind(ids) <= u64::MAX + 1,
    decreases ids.len(),
{
    if ids.len() > 0 {
        let front = ids.drop_last();
        lemma_behind_least(front);
        assert forall|i: int| 0 <= i < ids.len() implies #[trigger] ids[i] < behind(ids) by {
            if i < front.len() {
                assert(ids[i] == front[i]);
            }
        }
        if ids.last() + 1 > behind(front) {
            assert(ids[ids.len() - 1] == (behind(ids) - 1) as u64);
        } else if behind(ids) != 1 {
            let k = front.index_of((behind(ids) - 1) as u64);
            assert(ids[k] == (behind(ids) - 1) as u64);
        }
    }
}

/// The free identifier of a ledger lies behind every one that is taken, and it is the one
/// that comes next, unless the one before it is taken.
pub proof fn law_free_id_is_next(ledger: LedgerView)
    ensures
        ledger.free_id() >= ledger.next_id,
        ledger.free_id() >= 1,
        forall|i: int|
            0 <= i < ledger.hypotheses.len() ==> (#[trigger] ledger.hypotheses[i]).id
                < ledger.free_id(),
        ledger.free_id() == ledger.next_id || ledger.free_id() == 1 || exists|i: int|
            0 <= i < ledger.hypotheses.len() && (#[trigger] ledger.hypotheses[i]).id + 1
                == ledger.free_id(),
        forall|i: int|
            0 <= i < ledger.negative_knowledge.len() ==> (
            #[trigger] ledger.negative_knowledge[i]).id < ledger.free_negative_id(),
        ledger.free_negative_id() >= ledger.next_negative_id,
{
    let ids = ledger.ids();
    let refuted = ledger.negative_ids();
    lemma_behind_least(ids);
    lemma_behind_least(refuted);
    assert forall|i: int| 0 <= i < ledger.hypotheses.len() implies (
    #[trigger] ledger.hypotheses[i]).id < ledger.free_id() by {
        assert(ids[i] == ledger.hypotheses[i].id);
    }
    assert forall|i: int| 0 <= i < ledger.negative_knowledge.len() implies (
    #[trigger] ledger.negative_knowledge[i]).id < ledger.free_negative_id() by {
        assert(refuted[i] == ledger.negative_knowledge[i].id);
    }
    if ledger.free_id() != ledger.next_id && ledger.free_id() != 1 {
        let i = ids.index_of((behind(ids) - 1) as u64);
        assert(ledger.hypotheses[i].id + 1 == ledger.free_id());
    }
}

/// The free identifier of evidence lies behind that of every piece of evidence.
pub proof fn law_free_evidence_id(ledger: LedgerView, i: int, k: int)
    requires
        0 <= i < ledger.hypotheses.len(),
        0 <= k < ledger.hypotheses[i].evidence.len(),
    ensures
        ledger.hypotheses[i].evidence[k].id < ledger.free_evidence_id(),
        ledger.free_evidence_id() >= ledger.next_evidence_id,
{
    let f = evidence_id_run();
    let ids = ledger.evidence_ids();
    let id = ledger.hypotheses[i].evidence[k].id;
    lemma_behind_least(ids);
    assert(f(ledger.hypotheses[i])[k] == id);
    assert(seqs::gives(ledger.hypotheses, f, i, id));
    seqs::lemma_flat_map_contains(ledger.hypotheses, f, id);
    let at = ids.index_of(id);
    assert(ids[at] == id);
}

/// The hypothesis with an identifier is the first one that has it.
pub proof fn law_find(ledger: LedgerView, id: u64)
    ensures
        match ledger.find(id) {
            Some(i) => 0 <= i < ledger.hypotheses.len() && ledger.hypotheses[i].id == id && forall|
                j: int,
            |
                0 <= j < i ==> (#[trigger] ledger.hypotheses[j]).id != id,
            None => forall|j: int|
                0 <= j < ledger.hypotheses.len() ==> (#[trigger] ledger.hypotheses[j]).id != id,
        },
{
    let wanted = |record: HypothesisRecordView| record.id == id;
    seqs::lemma_first_from(ledger.hypotheses, 0, wanted);
    assert forall|j: int| 0 <= j < ledger.hypotheses.len() implies wanted(
        #[trigger] ledger.hypotheses[j],
    ) == (ledger.hypotheses[j].id == id) by {}
}

/// A recorded hypothesis stands behind all others, which stay as they are. It says what was
/// claimed, is unverified, has no evidence, and takes the free identifier.
pub proof fn law_claim_is_recorded(
    ledger: LedgerView,
    claim: HypothesisClaimView,
    confidence: Option<Seq<char>>,
    now: u64,
)
    requires
        ledger.has_room_for_claim(),
    ensures
        ({
            let next = ledger.with_claim(claim, confidence, now);
            let record = next.hypotheses.last();
            &&& next.hypotheses.drop_last() == ledger.hypotheses
            &&& next.hypotheses.len() == ledger.hypotheses.len() + 1
            &&& next.negative_knowledge == ledger.negative_knowledge
            &&& record.id == ledger.free_id()
            &&& next.next_id == record.id + 1
            &&& record.entity == claim.entity
            &&& record.claim_type == claim.claim_type
            &&& record.claim_value == claim.claim_value
            &&& record.source == claim.source
            &&& record.confidence == confidence
            &&& record.status == "unverified"@
            &&& record.created_at == now
            &&& record.updated_at == now
            &&& record.evidence.len() == 0
        }),
{
    let next = ledger.with_claim(claim, confidence, now);
    assert(next.hypotheses.drop_last() =~= ledger.hypotheses);
}

/// Added evidence stands behind what spoke for the hypothesis before, says what was told,
/// and takes the free identifier; of the hypothesis only the time of its change is new.
pub proof fn law_evidence_is_added(ledger: LedgerView, i: int, claim: EvidenceClaimView, now: u64)
    requires
        ledger.has_room_for_evidence(),
        0 <= i < ledger.hypotheses.len(),
    ensures
        ({
            let next = ledger.with_evidence(i, claim, now);
            let before = ledger.hypotheses[i];
            let record = next.hypotheses[i];
            let evidence = record.evidence.last();
            &&& record.evidence.drop_last() == before.evidence
            &&& record.evidence.len() == before.evidence.len() + 1
            &&& evidence.id == ledger.free_evidence_id()
            &&& next.next_evidence_id == evidence.id + 1
            &&& evidence.kind == claim.kind
            &&& evidence.detail == claim.detail
            &&& evidence.source == claim.source
            &&& evidence.addr == claim.addr
            &&& evidence.created_at == now
            &&& record.updated_at == now
            &&& record.id == before.id
            &&& record.entity == before.entity
            &&& record.claim_type == before.claim_type
            &&& record.claim_value == before.claim_value
            &&& record.source == before.source
            &&& record.confidence == before.confidence
            &&& record.status == before.status
            &&& record.created_at == before.created_at
        }),
{
    let next = ledger.with_evidence(i, claim, now);
    assert(next.hypotheses[i].evidence.drop_last() =~= ledger.hypotheses[i].evidence);
}

/// A verdict changes the status and the time of one hypothesis and nothing else of any. A
/// contradicted claim is kept as refuted, behind those before it: what was claimed of what,
/// with the reason that was given.
pub proof fn law_verdict(ledger: LedgerView, i: int, claim: VerdictClaimView, now: u64)
    requires
        0 <= i < ledger.hypotheses.len(),
        claim.contradicted ==> ledger.has_room_for_refuted(),
    ensures
        ({
            let next = ledger.with_verdict(i, claim, now);
            let before = ledger.hypotheses[i];
            let record = next.hypotheses[i];
            let refuted = next.negative_knowledge.last();
            &&& next.hypotheses.len() == ledger.hypotheses.len()
            &&& forall|k: int|
                0 <= k < ledger.hypotheses.len() && k != i ==> (#[trigger] next.hypotheses[k])
                    == ledger.hypotheses[k]
            &&& record.status == if claim.contradicted {
                "contradicted"@
            } else {
                "verified"@
            }
            &&& record.updated_at == now
            &&& record.evidence == before.evidence
            &&& record.id == before.id
            &&& record.entity == before.entity
            &&& record.claim_type == before.claim_type
            &&& record.claim_value == before.claim_value
            &&& record.source == before.source
            &&& record.confidence == before.confidence
            &&& record.created_at == before.created_at
            &&& claim.contradicted ==> {
                &&& next.negative_knowledge.drop_last() == ledger.negative_knowledge
                &&& next.negative_knowledge.len() == ledger.negative_knowledge.len() + 1
                &&& refuted.id == ledger.free_negative_id()
                &&& refuted.entity == before.entity
                &&& refuted.refuted_claim == before.claim_type + "="@ + before.claim_value
                &&& refuted.reason == claim.note
                &&& refuted.created_at == now
            }
            &&& !claim.contradicted ==> next.negative_knowledge == ledger.negative_knowledge
        }),
{
    lemma_status_keeps_ids(ledger, i, claim.status(), now);
    let next = ledger.with_verdict(i, claim, now);
    if claim.contradicted {
        assert(next.negative_knowledge.drop_last() =~= ledger.negative_knowledge);
    }
}

/// A verdict is refused where no hypothesis has the identifier, and where a hypothesis
/// without evidence is to be verified; the reason names the identifier.
pub proof fn law_verdict_refused(ledger: LedgerView, claim: VerdictClaimView, now: u64)
    ensures
        match ledger.find(claim.hypothesis_id) {
            Some(i) => if !claim.contradicted && ledger.hypotheses[i].evidence.len() == 0 {
                ledger.decided(claim, now) == Err::<LedgerView, Seq<char>>(
                    "hypothesis "@ + text::decimal_text(claim.hypothesis_id as nat)
                        + " has no evidence"@,
                )
            } else {
                ledger.decided(claim, now) == Ok::<LedgerView, Seq<char>>(
                    ledger.with_verdict(i, claim, now),
                )
            },
            None => ledger.decided(claim, now) == Err::<LedgerView, Seq<char>>(
                "no hypothesis "@ + text::decimal_text(claim.hypothesis_id as nat),
            ),
        },
{
    law_find(ledger, claim.hypothesis_id);
}

} // verus!
