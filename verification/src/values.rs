//! Scans for numbers, narrowed down from one look at memory to the next.

use vstd::prelude::*;

use crate::bytes;
use crate::evidence::{
    Address, EvidenceHit, EvidenceHitView, EvidenceValue, EvidenceValueView, NextToolHintView,
};
use crate::hits;
use crate::hits::HitSpec;
use crate::memory::{self, ArgusEngine, MemoryRegion, MemoryRegionView, MemoryView};
use crate::seqs;
use crate::text;

verus! {

/// The type of a number in memory.
#[derive(Debug, Clone, Copy, PartialEq, Eq, Structural)]
pub enum ValueType {
    U32,
}

impl ValueType {
    /// How many bytes a number takes.
    pub open spec fn width(self) -> int {
        match self {
            ValueType::U32 => 4,
        }
    }

    /// What the type is called.
    pub open spec fn type_label(self) -> Seq<char> {
        match self {
            ValueType::U32 => "u32"@,
        }
    }

    fn size(self) -> (size: usize)
        ensures
            size == self.width(),
    {
        match self {
            Self::U32 => 4,
        }
    }

    pub fn byte_len(self) -> (len: usize)
        ensures
            len == self.width(),
    {
        self.size()
    }

    pub fn name(self) -> (name: &'static str)
        ensures
            name@ == self.type_label(),
    {
        match self {
            Self::U32 => "u32",
        }
    }
}

/// A number that was read from memory.
#[derive(Debug, Clone, Copy, PartialEq, Eq, Structural)]
pub enum NumericValue {
    U32(u32),
}

impl NumericValue {
    /// The number itself.
    pub open spec fn number(self) -> u64 {
        match self {
            NumericValue::U32(value) => value as u64,
        }
    }

    fn as_u64(self) -> (number: u64)
        ensures
            number == self.number(),
    {
        match self {
            Self::U32(value) => value as u64,
        }
    }

    /// The number in decimal.
    pub fn to_text(self) -> (text: String)
        ensures
            text@ == text::decimal_text(self.number() as nat),
    {
        text::decimal(self.as_u64())
    }
}

/// Which numbers a scan starts with.
#[derive(Debug, Clone, Copy, PartialEq, Eq, Structural)]
pub enum ValuePredicate {
    ExactU64(u64),
}

impl ValuePredicate {
    pub open spec fn accepts(self, value: NumericValue) -> bool {
        match self {
            ValuePredicate::ExactU64(expected) => value.number() == expected,
        }
    }

    fn matches(self, value: NumericValue) -> (accepted: bool)
        ensures
            accepted == self.accepts(value),
    {
        match self {
            Self::ExactU64(expected) => value.as_u64() == expected,
        }
    }
}

/// Which numbers a scan keeps, given what they were before.
#[derive(Debug, Clone, Copy, PartialEq, Eq, Structural)]
pub enum ValueRefinement {
    ExactU64(u64),
    Changed,
    Unchanged,
    Increased,
    Decreased,
}

impl ValueRefinement {
    pub open spec fn accepts(self, previous: NumericValue, current: NumericValue) -> bool {
        match self {
            ValueRefinement::ExactU64(expected) => current.number() == expected,
            ValueRefinement::Changed => current.number() != previous.number(),
            ValueRefinement::Unchanged => current.number() == previous.number(),
            ValueRefinement::Increased => current.number() > previous.number(),
            ValueRefinement::Decreased => current.number() < previous.number(),
        }
    }

    fn matches(self, previous: NumericValue, current: NumericValue) -> (accepted: bool)
        ensures
            accepted == self.accepts(previous, current),
    {
        match self {
            Self::ExactU64(expected) => current.as_u64() == expected,
            Self::Changed => current.as_u64() != previous.as_u64(),
            Self::Unchanged => current.as_u64() == previous.as_u64(),
            Self::Increased => current.as_u64() > previous.as_u64(),
            Self::Decreased => current.as_u64() < previous.as_u64(),
        }
    }
}

/// A number has increased, decreased or not changed, and one of the three alone.
pub proof fn law_refinements_partition(previous: NumericValue, current: NumericValue)
    ensures
        ValueRefinement::Changed.accepts(previous, current)
            <==> !ValueRefinement::Unchanged.accepts(previous, current),
        ValueRefinement::Changed.accepts(previous, current) <==> (
        ValueRefinement::Increased.accepts(previous, current)
            || ValueRefinement::Decreased.accepts(previous, current)),
        !(ValueRefinement::Increased.accepts(previous, current)
            && ValueRefinement::Decreased.accepts(previous, current)),
        ValueRefinement::Unchanged.accepts(previous, current) <==> ValueRefinement::ExactU64(
            previous.number(),
        ).accepts(previous, current),
{
}

/// A place that holds a number that the scan is after.
#[derive(Debug, Clone, Copy, PartialEq, Eq, Structural)]
pub struct ValueCandidate {
    pub address: Address,
    pub value_type: ValueType,
    pub value: NumericValue,
    pub previous_value: Option<NumericValue>,
}

/// The candidates that are left.
#[derive(Debug, Clone, PartialEq, Eq)]
pub struct ValueScanSession {
    pub value_type: ValueType,
    pub candidates: Vec<ValueCandidate>,
}

/// The number at an offset of some bytes, where they hold it whole.
pub open spec fn numeric_at(data: Seq<u8>, offset: int, value_type: ValueType) -> Option<
    NumericValue,
> {
    match value_type {
        ValueType::U32 => if offset + 4 <= data.len() {
            Some(
                NumericValue::U32(bytes::le_value(data.subrange(offset, offset + 4)) as u32),
            )
        } else {
            None
        },
    }
}

/// The number at an offset of some bytes, where they hold it whole.
fn read_numeric(data: &[u8], offset: usize, value_type: ValueType) -> (value: Option<NumericValue>)
    ensures
        value == numeric_at(data@, offset as int, value_type),
{
    match value_type {
        ValueType::U32 => {
            if data.len() >= 4 && offset <= data.len() - 4 {
                Some(NumericValue::U32(bytes::read_u32(data, offset)))
            } else {
                None
            }
        },
    }
}

/// The candidate at a multiple of the number's width, where there is one.
pub open spec fn candidate_at(
    region: MemoryRegionView,
    value_type: ValueType,
    predicate: ValuePredicate,
) -> spec_fn(int) -> Seq<ValueCandidate> {
    |index: int|
        {
            let offset = index * 4;
            match numeric_at(region.bytes, offset, value_type) {
                Some(value) => if predicate.accepts(value) {
                    seq![
                        ValueCandidate {
                            address: region.base.plus(offset),
                            value_type,
                            value,
                            previous_value: None,
                        },
                    ]
                } else {
                    Seq::empty()
                },
                None => Seq::empty(),
            }
        }
}

/// The candidates in one region; numbers are aligned to their width within it.
pub open spec fn candidates_in(value_type: ValueType, predicate: ValuePredicate) -> spec_fn(
    MemoryRegionView,
) -> Seq<ValueCandidate> {
    |region: MemoryRegionView|
        if region.is_readable() {
            seqs::flat_below(
                region.bytes.len() as int / 4,
                candidate_at(region, value_type, predicate),
            )
        } else {
            Seq::empty()
        }
}

/// The candidates in the readable regions, in order of regions and offsets.
pub open spec fn start_candidates(
    memory: MemoryView,
    value_type: ValueType,
    predicate: ValuePredicate,
) -> Seq<ValueCandidate> {
    memory.regions.flat_map(candidates_in(value_type, predicate))
}

/// What becomes of a candidate: it stays with its new number, where the number
/// can still be read and is accepted.
pub open spec fn refined(
    memory: MemoryView,
    value_type: ValueType,
    refinement: ValueRefinement,
) -> spec_fn(ValueCandidate) -> Seq<ValueCandidate> {
    |candidate: ValueCandidate|
        match memory.region_at(candidate.address) {
            Some((region, offset)) => match numeric_at(region.bytes, offset, value_type) {
                Some(value) => if refinement.accepts(candidate.value, value) {
                    seq![
                        ValueCandidate {
                            address: candidate.address,
                            value_type: candidate.value_type,
                            value,
                            previous_value: Some(candidate.value),
                        },
                    ]
                } else {
                    Seq::empty()
                },
                None => Seq::empty(),
            },
            None => Seq::empty(),
        }
}

/// The candidates that a refinement keeps, in order.
pub open spec fn refined_candidates(
    memory: MemoryView,
    value_type: ValueType,
    refinement: ValueRefinement,
    candidates: Seq<ValueCandidate>,
) -> Seq<ValueCandidate> {
    candidates.flat_map(refined(memory, value_type, refinement))
}

/// Every candidate that a refinement keeps was one before: the address is the
/// same, the number before is remembered, and the refinement accepts the change.
pub proof fn law_refinement_only_narrows(
    memory: MemoryView,
    value_type: ValueType,
    refinement: ValueRefinement,
    candidates: Seq<ValueCandidate>,
)
    ensures
        refined_candidates(memory, value_type, refinement, candidates).len() <= candidates.len(),
        forall|kept: ValueCandidate| #[trigger]
            refined_candidates(memory, value_type, refinement, candidates).contains(kept)
                ==> exists|i: int|
                0 <= i < candidates.len() && (#[trigger] candidates[i]).address == kept.address
                    && kept.previous_value == Some(candidates[i].value) && refinement.accepts(
                    candidates[i].value,
                    kept.value,
                ),
    decreases candidates.len(),
{
    let f = refined(memory, value_type, refinement);
    let all = refined_candidates(memory, value_type, refinement, candidates);
    seqs::lemma_flat_map_ends(candidates, f);
    if candidates.len() > 0 {
        let n = candidates.len() - 1;
        let shorter = candidates.take(n);
        law_refinement_only_narrows(memory, value_type, refinement, shorter);
        seqs::lemma_flat_map_step(candidates, n, f);
        let before = refined_candidates(memory, value_type, refinement, shorter);
        assert forall|kept: ValueCandidate| #[trigger] all.contains(kept) implies exists|i: int|
            0 <= i < candidates.len() && (#[trigger] candidates[i]).address == kept.address
                && kept.previous_value == Some(candidates[i].value) && refinement.accepts(
                candidates[i].value,
                kept.value,
            ) by {
            let k = all.index_of(kept);
            if k < before.len() {
                assert(before.contains(before[k]));
                let i = choose|i: int|
                    0 <= i < shorter.len() && (#[trigger] shorter[i]).address == kept.address
                        && kept.previous_value == Some(shorter[i].value) && refinement.accepts(
                        shorter[i].value,
                        kept.value,
                    );
                assert(candidates[i] == shorter[i]);
            } else {
                assert(candidates[n].address == kept.address);
            }
        }
    } else {
        assert(candidates.take(0) =~= candidates);
    }
}

/// Whether a candidate is that at a multiple of the number's width in region `i`,
/// where the region is readable and the number is accepted.
pub open spec fn is_candidate(
    memory: MemoryView,
    value_type: ValueType,
    predicate: ValuePredicate,
    i: int,
    index: int,
    candidate: ValueCandidate,
) -> bool {
    let region = memory.regions[i];
    &&& 0 <= i < memory.regions.len()
    &&& region.is_readable()
    &&& 0 <= index < region.bytes.len() as int / 4
    &&& candidate_at(region, value_type, predicate)(index) == seq![candidate]
}

/// A scan starts with every aligned place of the readable regions that holds an
/// accepted number, and no other.
pub proof fn law_start_candidates_exact(
    memory: MemoryView,
    value_type: ValueType,
    predicate: ValuePredicate,
    candidate: ValueCandidate,
)
    ensures
        start_candidates(memory, value_type, predicate).contains(candidate) <==> exists|
            i: int,
            index: int,
        | is_candidate(memory, value_type, predicate, i, index, candidate),
{
    let f = candidates_in(value_type, predicate);
    seqs::lemma_flat_map_contains(memory.regions, f, candidate);
    if start_candidates(memory, value_type, predicate).contains(candidate) {
        let i = choose|i: int| seqs::gives(memory.regions, f, i, candidate);
        let region = memory.regions[i];
        let g = candidate_at(region, value_type, predicate);
        let count = region.bytes.len() as int / 4;
        seqs::lemma_flat_below_contains(count, g, candidate);
        let index = choose|index: int|
            0 <= index < count && (#[trigger] g(index)).contains(candidate);
        assert(g(index) =~= seq![candidate]);
        assert(is_candidate(memory, value_type, predicate, i, index, candidate));
    }
    if exists|i: int, index: int|
        is_candidate(memory, value_type, predicate, i, index, candidate) {
        let (i, index) = choose|i: int, index: int|
            is_candidate(memory, value_type, predicate, i, index, candidate);
        let region = memory.regions[i];
        let g = candidate_at(region, value_type, predicate);
        seqs::lemma_flat_below_contains(region.bytes.len() as int / 4, g, candidate);
        assert(g(index)[0] == candidate);
        assert(g(index).contains(candidate));
        assert(seqs::gives(memory.regions, f, i, candidate));
    }
}

/// A candidate whose number was looked at again and is what it was.
pub open spec fn seen_again() -> spec_fn(ValueCandidate) -> ValueCandidate {
    |candidate: ValueCandidate|
        ValueCandidate { previous_value: Some(candidate.value), ..candidate }
}

/// A scan that is refined by what has not changed, over memory that has not changed,
/// keeps every candidate it started with, in order. No two regions may overlap, nor
/// reach over the end of all addresses.
pub proof fn law_unchanged_memory_keeps_candidates(
    memory: MemoryView,
    value_type: ValueType,
    predicate: ValuePredicate,
)
    requires
        memory::apart(memory.regions),
        forall|i: int|
            0 <= i < memory.regions.len() ==> (#[trigger] memory.regions[i]).base.0
                + memory.regions[i].bytes.len() <= u64::MAX,
    ensures
        refined_candidates(
            memory,
            value_type,
            ValueRefinement::Unchanged,
            start_candidates(memory, value_type, predicate),
        ) == start_candidates(memory, value_type, predicate).map_values(seen_again()),
{
    let all = start_candidates(memory, value_type, predicate);
    let f = refined(memory, value_type, ValueRefinement::Unchanged);
    assert forall|k: int| 0 <= k < all.len() implies #[trigger] f(all[k]) == seq![
        seen_again()(all[k]),
    ] by {
        let candidate = all[k];
        assert(all.contains(candidate));
        law_start_candidates_exact(memory, value_type, predicate, candidate);
        let (i, index) = choose|i: int, index: int|
            is_candidate(memory, value_type, predicate, i, index, candidate);
        let region = memory.regions[i];
        let g = candidate_at(region, value_type, predicate);
        assert(g(index)[0] == seq![candidate][0]);
        assert(candidate.address == region.base.plus(index * 4));
        assert(region.holds(candidate.address));
        memory::law_read_from_region(memory, i, candidate.address, 4);
        assert(f(candidate) =~= seq![seen_again()(candidate)]);
    }
    lemma_each_once(all, f);
}

/// Where each candidate gives itself, seen again, all of them do.
proof fn lemma_each_once(
    all: Seq<ValueCandidate>,
    f: spec_fn(ValueCandidate) -> Seq<ValueCandidate>,
)
    requires
        forall|k: int|
            0 <= k < all.len() ==> #[trigger] f(all[k]) == seq![seen_again()(all[k])],
    ensures
        all.flat_map(f) == all.map_values(seen_again()),
    decreases all.len(),
{
    seqs::lemma_flat_map_ends(all, f);
    if all.len() > 0 {
        let n = all.len() - 1;
        let shorter = all.take(n);
        assert forall|k: int| 0 <= k < shorter.len() implies #[trigger] f(shorter[k]) == seq![
            seen_again()(shorter[k]),
        ] by {
            assert(f(all[k]) == seq![seen_again()(all[k])]);
        }
        lemma_each_once(shorter, f);
        seqs::lemma_flat_map_step(all, n, f);
        assert(all.map_values(seen_again()) =~= shorter.map_values(seen_again()) + seq![
            seen_again()(all[n]),
        ]);
    } else {
        assert(all.take(0) =~= all);
        assert(all.map_values(seen_again()) =~= Seq::empty());
    }
}

/// What to do with a candidate.
pub open spec fn candidate_hints(address: Address) -> Seq<NextToolHintView> {
    seq![
        hits::hint(
            "scan_pointers_to"@,
            "find owners or references for this candidate address"@,
            address,
        ),
        hits::hint(
            "mem_read"@,
            "read nearby fields to infer the surrounding structure"@,
            if address.0 < 16 {
                Address(0)
            } else {
                Address((address.0 - 16) as u64)
            },
        ),
        hits::hint(
            "value_track"@,
            "sample this candidate over time to verify correlation"@,
            address,
        ),
    ]
}

/// The report of a candidate.
pub open spec fn candidate_hit(memory: MemoryView, candidate: ValueCandidate) -> Option<
    EvidenceHitView,
> {
    match memory.region_at(candidate.address) {
        Some((region, offset)) => Some(
            hits::hit_of(
                memory,
                "value_explain"@,
                candidate.address,
                region,
                offset,
                candidate.value_type.width(),
                EvidenceValueView::Numeric {
                    value_type: candidate.value_type.type_label(),
                    value: text::decimal_text(candidate.value.number() as nat),
                },
                candidate_hints(candidate.address),
            ),
        ),
        None => None,
    }
}

impl ArgusEngine {
    /// The first `limit` candidates in one readable region.
    fn candidates_in_region(
        &self,
        region: &MemoryRegion,
        value_type: ValueType,
        predicate: ValuePredicate,
        limit: usize,
    ) -> (found: Vec<ValueCandidate>)
        requires
            region.deep_view().is_readable(),
        ensures
            found@ == seqs::capped(
                candidates_in(value_type, predicate)(region.deep_view()),
                limit as int,
            ),
    {
        let ghost f = candidate_at(region.deep_view(), value_type, predicate);
        let ghost cap = limit as int;
        let count: usize = region.bytes.len() / 4;
        let mut found: Vec<ValueCandidate> = Vec::new();
        let mut index: usize = 0;
        while index < count && found.len() < limit
            invariant
                index <= count,
                count == region.bytes.len() / 4,
                f == candidate_at(region.deep_view(), value_type, predicate),
                cap == limit,
                found@ == seqs::capped(seqs::flat_below(index as int, f), cap),
            decreases count - index,
        {
            let ghost front = seqs::flat_below(index as int, f);
            let offset: usize = index * 4;
            let mut accepted = false;
            if let Some(value) = read_numeric(&region.bytes, offset, value_type) {
                if predicate.matches(value) {
                    accepted = true;
                    let candidate = ValueCandidate {
                        address: region.base.offset(offset as u64),
                        value_type,
                        value,
                        previous_value: None,
                    };
                    proof {
                        assert(f(index as int) =~= seq![candidate]);
                        seqs::lemma_capped_push(front, candidate, cap);
                    }
                    found.push(candidate);
                }
            }
            proof {
                if !accepted {
                    assert(front + f(index as int) =~= front);
                }
            }
            index += 1;
        }
        proof {
            if index < count {
                let none = Seq::<ValueCandidate>::empty();
                assert(none + seqs::flat_below(index as int, f) =~= seqs::flat_below(
                    index as int,
                    f,
                ));
                assert(none + seqs::flat_below(count as int, f) =~= seqs::flat_below(
                    count as int,
                    f,
                ));
                seqs::lemma_flat_below_full(none, index as int, count as int, f, cap);
            }
        }
        found
    }

    /// Starts a scan with the numbers that a predicate accepts.
    pub fn value_scan_start(
        &self,
        value_type: ValueType,
        predicate: ValuePredicate,
        max_results: usize,
    ) -> (session: ValueScanSession)
        ensures
            session.value_type == value_type,
            session.candidates@ == seqs::capped(
                start_candidates(self.memory(), value_type, predicate),
                max_results as int,
            ),
    {
        let ghost f = candidates_in(value_type, predicate);
        let ghost all = self.memory().regions;
        let ghost cap = max_results as int;
        let regions = self.regions();
        let mut candidates: Vec<ValueCandidate> = Vec::new();
        let mut k: usize = 0;
        proof {
            seqs::lemma_flat_map_ends(all, f);
        }
        while k < regions.len() && candidates.len() < max_results
            invariant
                k <= regions.len(),
                regions.deep_view() == all,
                f == candidates_in(value_type, predicate),
                cap == max_results,
                candidates@ == seqs::capped(all.take(k as int).flat_map(f), cap),
            decreases regions.len() - k,
        {
            let region = &regions[k];
            let ghost front = all.take(k as int).flat_map(f);
            proof {
                assert(region.deep_view() == all[k as int]);
                seqs::lemma_flat_map_step(all, k as int, f);
                assert(front == candidates@);
                seqs::lemma_capped_append(front, f(all[k as int]), cap);
            }
            if region.is_readable() {
                let mut found = self.candidates_in_region(
                    region,
                    value_type,
                    predicate,
                    max_results - candidates.len(),
                );
                candidates.append(&mut found);
            } else {
                proof {
                    assert(front + f(all[k as int]) =~= front);
                }
            }
            k += 1;
        }
        proof {
            seqs::lemma_flat_map_ends(all, f);
            if k < regions.len() {
                seqs::lemma_flat_map_full(all, k as int, f, cap);
            }
        }
        ValueScanSession { value_type, candidates }
    }

    /// Keeps the candidates whose numbers a refinement accepts now.
    pub fn value_scan_refine(
        &self,
        session: &ValueScanSession,
        refinement: ValueRefinement,
    ) -> (next: ValueScanSession)
        ensures
            next.value_type == session.value_type,
            next.candidates@ == refined_candidates(
                self.memory(),
                session.value_type,
                refinement,
                session.candidates@,
            ),
    {
        let value_type = session.value_type;
        let ghost f = refined(self.memory(), value_type, refinement);
        let ghost all = session.candidates@;
        let mut candidates: Vec<ValueCandidate> = Vec::new();
        let mut i: usize = 0;
        proof {
            seqs::lemma_flat_map_ends(all, f);
        }
        while i < session.candidates.len()
            invariant
                i <= session.candidates.len(),
                all == session.candidates@,
                f == refined(self.memory(), value_type, refinement),
                candidates@ == all.take(i as int).flat_map(f),
            decreases session.candidates.len() - i,
        {
            let candidate = session.candidates[i];
            let ghost before = candidates@;
            proof {
                seqs::lemma_flat_map_step(all, i as int, f);
            }
            if let Some((region, offset)) = self.region_at(candidate.address) {
                if let Some(value) = read_numeric(&region.bytes, offset, value_type) {
                    if refinement.matches(candidate.value, value) {
                        candidates.push(
                            ValueCandidate {
                                address: candidate.address,
                                value_type: candidate.value_type,
                                value,
                                previous_value: Some(candidate.value),
                            },
                        );
                    }
                }
            }
            proof {
                assert(candidates@ =~= before + f(candidate));
            }
            i += 1;
        }
        proof {
            seqs::lemma_flat_map_ends(all, f);
        }
        ValueScanSession { value_type, candidates }
    }

    /// Reports a candidate with the bytes around it.
    pub fn value_explain(&self, candidate: &ValueCandidate) -> (hit: Option<EvidenceHit>)
        ensures
            hit.deep_view() == candidate_hit(self.memory(), *candidate),
    {
        let (region, offset) = match self.region_at(candidate.address) {
            Some(found) => found,
            None => {
                return None;
            },
        };
        let nearby = if candidate.address.0 < 16 {
            Address(0)
        } else {
            Address(candidate.address.0 - 16)
        };
        let next_tools = vec![
            self.next_tool(
                "scan_pointers_to",
                "find owners or references for this candidate address",
                candidate.address,
            ),
            self.next_tool(
                "mem_read",
                "read nearby fields to infer the surrounding structure",
                nearby,
            ),
            self.next_tool(
                "value_track",
                "sample this candidate over time to verify correlation",
                candidate.address,
            ),
        ];
        proof {
            assert(next_tools.deep_view() =~= candidate_hints(candidate.address));
        }
        Some(
            self.hit(
                HitSpec {
                    label: "value_explain",
                    address: candidate.address,
                    region,
                    offset,
                    evidence_len: candidate.value_type.size(),
                    evidence: EvidenceValue::Numeric {
                        value_type: candidate.value_type.name().to_string(),
                        value: candidate.value.to_text(),
                    },
                    next_tools,
                },
            ),
        )
    }
}

/// A number is kept by a refinement where it is the expected one, or where it stands to the
/// number before as the refinement says.
pub proof fn law_refinement_accepts(previous: u32, current: u32, expected: u64)
    ensures
        ({
            let before = NumericValue::U32(previous);
            let now = NumericValue::U32(current);
            &&& ValueRefinement::ExactU64(expected).accepts(before, now) <==> current == expected
            &&& ValueRefinement::Changed.accepts(before, now) <==> current != previous
            &&& ValueRefinement::Unchanged.accepts(before, now) <==> current == previous
            &&& ValueRefinement::Increased.accepts(before, now) <==> current > previous
            &&& ValueRefinement::Decreased.accepts(before, now) <==> current < previous
            &&& ValuePredicate::ExactU64(expected).accepts(now) <==> current == expected
        }),
{
}

/// Whether a candidate is the number at a place of region `i`, which scans may read: four
/// bytes, the least significant one first, at a multiple of four.
pub open spec fn stands_at(
    memory: MemoryView,
    i: int,
    offset: int,
    candidate: ValueCandidate,
) -> bool {
    let region = memory.regions[i];
    let data = region.bytes;
    &&& 0 <= i < memory.regions.len()
    &&& region.flags.readable
    &&& !region.flags.guarded
    &&& 0 <= offset <= data.len() - 4
    &&& offset % 4 == 0
    &&& candidate.address.0 == (region.base.0 + offset) % 0x1_0000_0000_0000_0000
    &&& candidate.value matches NumericValue::U32(value) && value == data[offset] + 0x100
        * data[offset + 1] + 0x1_0000 * data[offset + 2] + 0x100_0000 * data[offset + 3]
    &&& candidate.previous_value is None
}

/// A scan for a number starts with the aligned places of the readable regions that hold it,
/// all of them and no others.
pub proof fn law_start_candidates_hold_number(
    memory: MemoryView,
    expected: u64,
    candidate: ValueCandidate,
)
    ensures
        start_candidates(
            memory,
            ValueType::U32,
            ValuePredicate::ExactU64(expected),
        ).contains(candidate) <==> candidate.value_type == ValueType::U32
            && candidate.value.number() == expected && exists|i: int, offset: int|
            stands_at(memory, i, offset, candidate),
{
    let predicate = ValuePredicate::ExactU64(expected);
    let value_type = ValueType::U32;
    law_start_candidates_exact(memory, value_type, predicate, candidate);
    if start_candidates(memory, value_type, predicate).contains(candidate) {
        let (i, index) = choose|i: int, index: int|
            is_candidate(memory, value_type, predicate, i, index, candidate);
        let region = memory.regions[i];
        let offset = index * 4;
        bytes::lemma_le_value_4(region.bytes.subrange(offset, offset + 4));
        assert(candidate_at(region, value_type, predicate)(index)[0] == candidate);
        assert(stands_at(memory, i, offset, candidate));
    }
    if candidate.value_type == ValueType::U32 && candidate.value.number() == expected && exists|
        i: int,
        offset: int,
    | stands_at(memory, i, offset, candidate) {
        let (i, offset) = choose|i: int, offset: int| stands_at(memory, i, offset, candidate);
        let region = memory.regions[i];
        let index = offset / 4;
        assert(offset == index * 4);
        bytes::lemma_le_value_4(region.bytes.subrange(offset, offset + 4));
        assert(candidate_at(region, value_type, predicate)(index) =~= seq![candidate]);
        assert(is_candidate(memory, value_type, predicate, i, index, candidate));
    }
}

/// A refinement keeps a candidate just where its number can be read again and is accepted.
/// What is kept has the same address, the number that is there now, and the number before.
pub proof fn law_refined(
    memory: MemoryView,
    refinement: ValueRefinement,
    candidate: ValueCandidate,
)
    ensures
        ({
            let kept = refined_candidates(memory, ValueType::U32, refinement, seq![candidate]);
            match memory.read_u32(candidate.address) {
                Some(value) => if refinement.accepts(
                    candidate.value,
                    NumericValue::U32(value),
                ) {
                    &&& kept.len() == 1
                    &&& kept[0].address == candidate.address
                    &&& kept[0].value == NumericValue::U32(value)
                    &&& kept[0].previous_value == Some(candidate.value)
                    &&& kept[0].value_type == candidate.value_type
                } else {
                    kept.len() == 0
                },
                None => kept.len() == 0,
            }
        }),
{
    let f = refined(memory, ValueType::U32, refinement);
    let one = seq![candidate];
    seqs::lemma_flat_map_ends(one, f);
    seqs::lemma_flat_map_step(one, 0, f);
    assert(one.take(1) =~= one);
    assert(Seq::<ValueCandidate>::empty() + f(candidate) =~= f(candidate));
    memory::law_region_at(memory, candidate.address);
}

/// The candidates are refined one by one, in their order.
pub proof fn law_refined_one_by_one(
    memory: MemoryView,
    value_type: ValueType,
    refinement: ValueRefinement,
    front: Seq<ValueCandidate>,
    back: Seq<ValueCandidate>,
)
    ensures
        refined_candidates(memory, value_type, refinement, front + back) == refined_candidates(
            memory,
            value_type,
            refinement,
            front,
        ) + refined_candidates(memory, value_type, refinement, back),
    decreases back.len(),
{
    let f = refined(memory, value_type, refinement);
    seqs::lemma_flat_map_ends(back, f);
    if back.len() > 0 {
        let k = back.len() - 1;
        let shorter = back.drop_last();
        let all = front + back;
        law_refined_one_by_one(memory, value_type, refinement, front, shorter);
        seqs::lemma_flat_map_ends(all, f);
        seqs::lemma_flat_map_step(all, all.len() - 1, f);
        seqs::lemma_flat_map_step(back, k, f);
        assert(all.take(all.len() - 1) =~= front + shorter);
        assert(back.take(k) =~= shorter);
        assert(front.flat_map(f) + (shorter.flat_map(f) + f(back[k])) =~= (front.flat_map(f)
            + shorter.flat_map(f)) + f(back[k]));
    } else {
        assert(back.take(0) =~= back);
        assert(front + back =~= front);
        assert(front.flat_map(f) + back.flat_map(f) =~= front.flat_map(f));
    }
}

/// A candidate is explained by its number in decimal and by what lies around its place;
/// where no region holds the place there is nothing to explain.
pub proof fn law_candidate_explained(memory: MemoryView, candidate: ValueCandidate)
    ensures
        match memory.region_at(candidate.address) {
            Some((region, offset)) => candidate_hit(memory, candidate) matches Some(hit)
                && hit.address == candidate.address && hit.evidence == (
            EvidenceValueView::Numeric {
                value_type: "u32"@,
                value: text::decimal_text(candidate.value.number() as nat),
            }) && (offset + 4 <= region.bytes.len() ==> hits::shows(
                memory,
                region,
                offset,
                4,
                hit,
            )),
            None => candidate_hit(memory, candidate) is None,
        },
{
    memory::law_region_at(memory, candidate.address);
    if let Some((region, offset)) = memory.region_at(candidate.address) {
        assert(region.base.plus(offset) == candidate.address);
        if offset + 4 <= region.bytes.len() {
            hits::law_hit_shows(
                memory,
                "value_explain"@,
                region,
                offset,
                4,
                EvidenceValueView::Numeric {
                    value_type: candidate.value_type.type_label(),
                    value: text::decimal_text(candidate.value.number() as nat),
                },
                candidate_hints(candidate.address),
            );
        }
    }
}

/// The report of a place that may hold a value advises to look for what refers to it, to read
/// from sixteen bytes before it on, and to follow its value.
pub proof fn law_candidate_advises(memory: MemoryView, candidate: ValueCandidate)
    ensures
        candidate_hit(memory, candidate) matches Some(hit) ==> hit.label == "value_explain"@
            && hit.next_tools.len() == 3 && hits::advises(
            hit,
            0,
            "scan_pointers_to"@,
            hit.address.0 as int,
        ) && hits::advises(
            hit,
            1,
            "mem_read"@,
            if hit.address.0 < 16 {
                0
            } else {
                hit.address.0 - 16
            },
        ) && hits::advises(hit, 2, "value_track"@, hit.address.0 as int),
{
}

} // verus!
