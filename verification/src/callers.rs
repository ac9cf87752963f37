//! Code that calls or jumps to an address, and the functions that hold it.

use vstd::prelude::*;

use crate::bytes;
use crate::evidence::{
    Address, EvidenceHit, EvidenceHitView, EvidenceValue, EvidenceValueView, NextToolHintView,
    TargetArch,
};
use crate::find;
use crate::hits;
use crate::hits::HitSpec;
use crate::memory::{ArgusEngine, MemoryRegion, MemoryRegionView, MemoryView};
use crate::search;
use crate::seqs;
use crate::transfer;

verus! {

/// What at an offset of a region calls or jumps to the target, and in how many
/// bytes: a relative call or jump, or an indirect one through a pointer to it.
pub open spec fn caller_evidence(
    memory: MemoryView,
    arch: TargetArch,
    region: MemoryRegionView,
    offset: int,
    target: Address,
) -> Option<(int, EvidenceValueView)> {
    let code = region.bytes;
    let opcode = code[offset];
    let ip = region.base.plus(offset).0;
    if (opcode == 0xe8 || opcode == 0xe9) && offset + 5 <= code.len() {
        if transfer::relative_target(
            ip,
            5 + bytes::signed32(transfer::le32_at(code, offset + 1)),
        ) == Some(target) {
            Some((5int, EvidenceValueView::Caller { target, opcode }))
        } else {
            None
        }
    } else if offset + 6 <= code.len() && transfer::is_indirect(
        code.subrange(offset, offset + 6),
    ) {
        match transfer::indirect_operand(arch, ip, code.subrange(offset, offset + 6)) {
            Some(pointer) => if memory.read_pointer(arch, pointer) == Some(target) {
                Some((6int, EvidenceValueView::IndirectCaller { target, opcode, pointer }))
            } else {
                None
            },
            None => None,
        }
    } else {
        None
    }
}

/// What to do after a caller was found.
pub open spec fn caller_hints(source: Address) -> Seq<NextToolHintView> {
    seq![
        hits::hint(
            "ghydra.functions_decompile"@,
            "decompile the static function containing this caller"@,
            source,
        ),
        hits::hint("mem_read"@, "read runtime bytes around this call or jump"@, source),
    ]
}

/// The report of a caller at an offset of a region, where there is one.
pub open spec fn caller_at(
    memory: MemoryView,
    arch: TargetArch,
    region: MemoryRegionView,
    target: Address,
) -> spec_fn(int) -> Seq<EvidenceHitView> {
    |offset: int|
        match caller_evidence(memory, arch, region, offset, target) {
            Some((len, evidence)) => seq![
                hits::hit_of(
                    memory,
                    "scan_callers"@,
                    region.base.plus(offset),
                    region,
                    offset,
                    len,
                    evidence,
                    caller_hints(region.base.plus(offset)),
                ),
            ],
            None => Seq::empty(),
        }
}

/// The reports of callers in one region.
pub open spec fn callers_in(memory: MemoryView, arch: TargetArch, target: Address) -> spec_fn(
    MemoryRegionView,
) -> Seq<EvidenceHitView> {
    |region: MemoryRegionView|
        if region.is_code() {
            seqs::flat_below(region.bytes.len() as int, caller_at(memory, arch, region, target))
        } else {
            Seq::empty()
        }
}

/// The reports of callers of a target, in order of regions and offsets.
pub open spec fn caller_hits(memory: MemoryView, arch: TargetArch, target: Address) -> Seq<
    EvidenceHitView,
> {
    memory.regions.flat_map(callers_in(memory, arch, target))
}

/// Whether a report is that of a caller at an offset of region `i`, which holds code.
pub open spec fn is_caller_hit(
    memory: MemoryView,
    arch: TargetArch,
    target: Address,
    i: int,
    offset: int,
    hit: EvidenceHitView,
) -> bool {
    let regions = memory.regions;
    &&& 0 <= i < regions.len()
    &&& regions[i].is_code()
    &&& 0 <= offset < regions[i].bytes.len()
    &&& caller_evidence(memory, arch, regions[i], offset, target) is Some
    &&& caller_at(memory, arch, regions[i], target)(offset) == seq![hit]
}

/// A search for the callers of a target reports every place of the code regions at
/// which a call or jump to the target stands, and no other.
pub proof fn law_caller_hits_exact(
    memory: MemoryView,
    arch: TargetArch,
    target: Address,
    hit: EvidenceHitView,
)
    ensures
        caller_hits(memory, arch, target).contains(hit) <==> exists|i: int, offset: int|
            is_caller_hit(memory, arch, target, i, offset, hit),
{
    let f = callers_in(memory, arch, target);
    let regions = memory.regions;
    seqs::lemma_flat_map_contains(regions, f, hit);
    if caller_hits(memory, arch, target).contains(hit) {
        let i = choose|i: int| seqs::gives(regions, f, i, hit);
        let g = caller_at(memory, arch, regions[i], target);
        seqs::lemma_flat_below_contains(regions[i].bytes.len() as int, g, hit);
        let offset = choose|offset: int|
            0 <= offset < regions[i].bytes.len() && (#[trigger] g(offset)).contains(hit);
        assert(g(offset) =~= seq![hit]);
        assert(is_caller_hit(memory, arch, target, i, offset, hit));
    }
    if exists|i: int, offset: int| is_caller_hit(memory, arch, target, i, offset, hit) {
        let (i, offset) = choose|i: int, offset: int|
            is_caller_hit(memory, arch, target, i, offset, hit);
        let g = caller_at(memory, arch, regions[i], target);
        seqs::lemma_flat_below_contains(regions[i].bytes.len() as int, g, hit);
        assert(g(offset)[0] == hit);
        assert(g(offset).contains(hit));
        assert(seqs::gives(regions, f, i, hit));
    }
}

impl ArgusEngine {
    /// What at an offset of a region calls or jumps to the target.
    fn caller_evidence_at(&self, region: &MemoryRegion, offset: usize, target: Address) -> (found:
        Option<(usize, EvidenceValue)>)
        requires
            offset < region.bytes@.len(),
        ensures
            match found {
                Some((len, evidence)) => caller_evidence(
                    self.memory(),
                    self.arch(),
                    region.deep_view(),
                    offset as int,
                    target,
                ) == Some((len as int, evidence.deep_view())),
                None => caller_evidence(
                    self.memory(),
                    self.arch(),
                    region.deep_view(),
                    offset as int,
                    target,
                ) is None,
            },
    {
        let code = region.bytes.as_slice();
        let opcode: u8 = code[offset];
        let source = region.base.offset(offset as u64);
        let left: usize = code.len() - offset;
        if (opcode == 0xe8 || opcode == 0xe9) && left >= 5 {
            match transfer::displaced(source.0, 5, bytes::read_u32(code, offset + 1)) {
                Some(destination) => {
                    if destination.0 == target.0 {
                        Some((5, EvidenceValue::Caller { target, opcode }))
                    } else {
                        None
                    }
                },
                None => None,
            }
        } else if opcode == 0xff && left >= 6 && (code[offset + 1] == 0x15 || code[offset + 1]
            == 0x25) {
            match self.indirect_pointer_operand(source.0, &code[offset..offset + 6]) {
                Some(pointer) => match self.read_pointer_at(pointer) {
                    Some(destination) => {
                        if destination.0 == target.0 {
                            Some((6, EvidenceValue::IndirectCaller { target, opcode, pointer }))
                        } else {
                            None
                        }
                    },
                    None => None,
                },
                None => None,
            }
        } else {
            None
        }
    }

    /// The first `limit` callers in one code region.
    fn callers_in_region(&self, region: &MemoryRegion, target: Address, limit: usize) -> (found:
        Vec<EvidenceHit>)
        requires
            region.deep_view().is_code(),
        ensures
            found.deep_view() == seqs::capped(
                callers_in(self.memory(), self.arch(), target)(region.deep_view()),
                limit as int,
            ),
    {
        let ghost memory = self.memory();
        let ghost f = caller_at(memory, self.arch(), region.deep_view(), target);
        let ghost cap = limit as int;
        let mut found: Vec<EvidenceHit> = Vec::new();
        let mut offset: usize = 0;
        proof {
            assert(found.deep_view() =~= Seq::<EvidenceHitView>::empty());
        }
        while offset < region.bytes.len() && found.len() < limit
            invariant
                offset <= region.bytes.len(),
                memory == self.memory(),
                f == caller_at(memory, self.arch(), region.deep_view(), target),
                cap == limit,
                found.deep_view() == seqs::capped(seqs::flat_below(offset as int, f), cap),
            decreases region.bytes.len() - offset,
        {
            let ghost front = seqs::flat_below(offset as int, f);
            proof {
                assert(found.deep_view().len() == found@.len());
            }
            match self.caller_evidence_at(region, offset, target) {
                Some((evidence_len, evidence)) => {
                    let source = region.base.offset(offset as u64);
                    let next_tools = vec![
                        self.next_tool(
                            "ghydra.functions_decompile",
                            "decompile the static function containing this caller",
                            source,
                        ),
                        self.next_tool(
                            "mem_read",
                            "read runtime bytes around this call or jump",
                            source,
                        ),
                    ];
                    proof {
                        assert(next_tools.deep_view() =~= caller_hints(source));
                    }
                    let hit = self.hit(
                        HitSpec {
                            label: "scan_callers",
                            address: source,
                            region,
                            offset,
                            evidence_len,
                            evidence,
                            next_tools,
                        },
                    );
                    proof {
                        seqs::lemma_capped_push(front, hit.deep_view(), cap);
                        assert(f(offset as int) =~= seq![hit.deep_view()]);
                    }
                    let ghost before = found.deep_view();
                    found.push(hit);
                    proof {
                        assert(found.deep_view() =~= before.push(hit.deep_view()));
                    }
                },
                None => {
                    proof {
                        assert(front + f(offset as int) =~= front);
                    }
                },
            }
            offset += 1;
        }
        proof {
            if offset < region.bytes.len() {
                assert(found.deep_view().len() == found@.len());
                let none = Seq::<EvidenceHitView>::empty();
                assert(none + seqs::flat_below(offset as int, f) =~= seqs::flat_below(
                    offset as int,
                    f,
                ));
                assert(none + seqs::flat_below(region.bytes@.len() as int, f) =~= seqs::flat_below(
                    region.bytes@.len() as int,
                    f,
                ));
                seqs::lemma_flat_below_full(
                    none,
                    offset as int,
                    region.bytes@.len() as int,
                    f,
                    cap,
                );
            }
        }
        found
    }

    /// Finds the calls of and jumps to an address in the code regions.
    pub fn scan_callers(&self, target: Address, max_results: usize) -> (result: Vec<EvidenceHit>)
        ensures
            result.deep_view() == seqs::capped(
                caller_hits(self.memory(), self.arch(), target),
                max_results as int,
            ),
    {
        let ghost memory = self.memory();
        let ghost f = callers_in(memory, self.arch(), target);
        let ghost all = memory.regions;
        let ghost cap = max_results as int;
        let regions = self.regions();
        let mut result: Vec<EvidenceHit> = Vec::new();
        let mut k: usize = 0;
        proof {
            seqs::lemma_flat_map_ends(all, f);
            assert(result.deep_view() =~= Seq::<EvidenceHitView>::empty());
        }
        while k < regions.len() && result.len() < max_results
            invariant
                k <= regions.len(),
                regions.deep_view() == all,
                memory == self.memory(),
                all == memory.regions,
                f == callers_in(memory, self.arch(), target),
                cap == max_results,
                result.deep_view() == seqs::capped(all.take(k as int).flat_map(f), cap),
            decreases regions.len() - k,
        {
            let region = &regions[k];
            let ghost front = all.take(k as int).flat_map(f);
            proof {
                assert(region.deep_view() == all[k as int]);
                seqs::lemma_flat_map_step(all, k as int, f);
                assert(result.deep_view().len() == result@.len());
                assert(front == result.deep_view());
                seqs::lemma_capped_append(front, f(all[k as int]), cap);
            }
            if region.is_code() {
                let mut found = self.callers_in_region(region, target, max_results - result.len());
                let ghost more = found.deep_view();
                result.append(&mut found);
                proof {
                    assert(result.deep_view() =~= front + more);
                }
            } else {
                proof {
                    assert(front + f(all[k as int]) =~= front);
                }
            }
            k += 1;
        }
        proof {
            assert(result.deep_view().len() == result@.len());
            if k < regions.len() {
                seqs::lemma_flat_map_full(all, k as int, f, cap);
            }
        }
        result
    }
}

/// Where in some bytes a function prologue stands: the last of those that save
/// registers; without any, the last `push ebp; mov ebp, esp` as `55 89 e5`; without
/// any of these, the last as `55 8b ec`.
pub open spec fn last_prologue(before: Seq<u8>) -> Option<int> {
    match find::find_last(before, seq![0x53u8, 0x56, 0x57]) {
        Some(i) => Some(i),
        None => match find::find_last(before, seq![0x55u8, 0x89, 0xe5]) {
            Some(i) => Some(i),
            None => find::find_last(before, seq![0x55u8, 0x8b, 0xec]),
        },
    }
}

/// The start of the function around an address, within the `window` bytes before it:
/// the last prologue there that saves registers, wherever others stand; without any,
/// the last `55 89 e5`; without any of these, the last `55 8b ec`.
pub open spec fn function_start(memory: MemoryView, address: Address, window: int) -> Option<
    Address,
> {
    match memory.region_at(address) {
        Some((region, offset)) => {
            let start = if offset < window {
                0
            } else {
                offset - window
            };
            match last_prologue(region.bytes.subrange(start, offset)) {
                Some(i) => Some(region.base.plus(start + i)),
                None => None,
            }
        },
        None => None,
    }
}

fn last_prologue_in(before: &[u8]) -> (found: Option<usize>)
    ensures
        match found {
            Some(i) => last_prologue(before@) == Some(i as int) && i <= before@.len(),
            None => last_prologue(before@) is None,
        },
{
    let saves: [u8; 3] = [0x53, 0x56, 0x57];
    let frame: [u8; 3] = [0x55, 0x89, 0xe5];
    let other_frame: [u8; 3] = [0x55, 0x8b, 0xec];
    proof {
        assert(saves@ =~= seq![0x53u8, 0x56, 0x57]);
        assert(frame@ =~= seq![0x55u8, 0x89, 0xe5]);
        assert(other_frame@ =~= seq![0x55u8, 0x8b, 0xec]);
    }
    match find::find_last_bytes(before, &saves) {
        Some(i) => Some(i),
        None => match find::find_last_bytes(before, &frame) {
            Some(i) => Some(i),
            None => find::find_last_bytes(before, &other_frame),
        },
    }
}

/// Code that refers to a text.
#[derive(Debug, Clone, Copy, PartialEq, Eq, Structural)]
pub struct LocateResult {
    pub string_address: Address,
    pub ref_site: Address,
    pub function_start: Option<Address>,
}

/// What one pointer to a text locates: something only where it lies in code.
pub open spec fn located_by(memory: MemoryView, string_address: Address) -> spec_fn(
    EvidenceHitView,
) -> Seq<LocateResult> {
    |reference: EvidenceHitView|
        match memory.region_at(reference.address) {
            Some((region, _)) => if region.flags.executable {
                seq![
                    LocateResult {
                        string_address,
                        ref_site: reference.address,
                        function_start: function_start(memory, reference.address, 0x600),
                    },
                ]
            } else {
                Seq::empty()
            },
            None => Seq::empty(),
        }
}

/// What one place of a text locates, by the first thirty pointers to it.
pub open spec fn located_from(memory: MemoryView, arch: TargetArch) -> spec_fn(
    EvidenceHitView,
) -> Seq<LocateResult> {
    |string: EvidenceHitView|
        seqs::capped(search::pointer_hits(memory, arch, string.address), 30).flat_map(
            located_by(memory, string.address),
        )
}

/// The code that refers to the first twenty places of a text.
pub open spec fn located(memory: MemoryView, arch: TargetArch, query: Seq<char>) -> Seq<
    LocateResult,
> {
    seqs::capped(search::string_hits(memory, query), 20).flat_map(located_from(memory, arch))
}

impl ArgusEngine {
    /// The start of the function around an address.
    pub fn find_function_start(&self, address: Address, window: usize) -> (start: Option<Address>)
        ensures
            start == function_start(self.memory(), address, window as int),
    {
        let (region, offset) = match self.region_at(address) {
            Some(found) => found,
            None => {
                return None;
            },
        };
        let start: usize = if offset < window {
            0
        } else {
            offset - window
        };
        match last_prologue_in(&region.bytes[start..offset]) {
            Some(i) => Some(region.base.offset((start + i) as u64)),
            None => None,
        }
    }

    /// Appends what the pointers to one place of a text locate, up to the limit.
    fn locate_references(
        &self,
        string_address: Address,
        max_hits: usize,
        results: &mut Vec<LocateResult>,
    )
        requires
            old(results)@.len() < max_hits,
        ensures
            final(results)@ == seqs::capped(
                old(results)@ + seqs::capped(
                    search::pointer_hits(self.memory(), self.arch(), string_address),
                    30,
                ).flat_map(located_by(self.memory(), string_address)),
                max_hits as int,
            ),
    {
        let ghost memory = self.memory();
        let ghost f = located_by(memory, string_address);
        let ghost start = results@;
        let ghost cap = max_hits as int;
        let references = self.scan_pointers_to(string_address, 30);
        let ghost all = references.deep_view();
        let mut i: usize = 0;
        proof {
            seqs::lemma_flat_map_ends(all, f);
            assert(start + Seq::<LocateResult>::empty() =~= start);
        }
        while i < references.len() && results.len() < max_hits
            invariant
                i <= references.len(),
                all == references.deep_view(),
                memory == self.memory(),
                f == located_by(memory, string_address),
                cap == max_hits,
                results@ == seqs::capped(start + all.take(i as int).flat_map(f), cap),
            decreases references.len() - i,
        {
            let site = references[i].address;
            let ghost front = start + all.take(i as int).flat_map(f);
            proof {
                assert(all[i as int].address == site);
                seqs::lemma_flat_map_step(all, i as int, f);
                assert(start + all.take(i + 1).flat_map(f) =~= front + f(all[i as int]));
            }
            let mut in_code = false;
            if let Some((region, _)) = self.region_at(site) {
                in_code = region.flags.executable;
            }
            if in_code {
                let result = LocateResult {
                    string_address,
                    ref_site: site,
                    function_start: self.find_function_start(site, 0x600),
                };
                proof {
                    assert(f(all[i as int]) =~= seq![result]);
                    seqs::lemma_capped_push(front, result, cap);
                }
                results.push(result);
            } else {
                proof {
                    assert(front + f(all[i as int]) =~= front);
                }
            }
            i += 1;
        }
        proof {
            seqs::lemma_flat_map_ends(all, f);
            if i < references.len() {
                seqs::lemma_flat_map_prefix(all, i as int, f);
                seqs::lemma_capped_full(
                    start + all.take(i as int).flat_map(f),
                    start + all.flat_map(f),
                    cap,
                );
            }
        }
    }

    /// Finds the code that refers to a text.
    pub fn locate(&self, query: &str, max_hits: usize) -> (results: Vec<LocateResult>)
        ensures
            results@ == seqs::capped(
                located(self.memory(), self.arch(), query@),
                max_hits as int,
            ),
    {
        let ghost memory = self.memory();
        let ghost f = located_from(memory, self.arch());
        let ghost cap = max_hits as int;
        let mut results: Vec<LocateResult> = Vec::new();
        let strings = self.scan_string(query, 20);
        let ghost all = strings.deep_view();
        let mut i: usize = 0;
        proof {
            seqs::lemma_flat_map_ends(all, f);
        }
        while i < strings.len() && results.len() < max_hits
            invariant
                i <= strings.len(),
                all == strings.deep_view(),
                memory == self.memory(),
                f == located_from(memory, self.arch()),
                cap == max_hits,
                results@ == seqs::capped(all.take(i as int).flat_map(f), cap),
            decreases strings.len() - i,
        {
            let address = strings[i].address;
            proof {
                assert(all[i as int].address == address);
                seqs::lemma_flat_map_step(all, i as int, f);
            }
            self.locate_references(address, max_hits, &mut results);
            i += 1;
        }
        proof {
            seqs::lemma_flat_map_ends(all, f);
            if i < strings.len() {
                seqs::lemma_flat_map_full(all, i as int, f, cap);
            }
        }
        results
    }
}

/// Whether the `len` bytes at an offset of a region are a call or jump to the target: one
/// with a displacement, or one through a pointer.
pub open spec fn goes_to(
    memory: MemoryView,
    arch: TargetArch,
    region: MemoryRegionView,
    offset: int,
    len: int,
    target: Address,
) -> bool {
    let code = region.bytes;
    &&& 0 <= offset
    &&& offset + len <= code.len()
    &&& (len == 5 && (code[offset] == 0xe8 || code[offset] == 0xe9)) || (len == 6 && code[offset]
        == 0xff && (code[offset + 1] == 0x15 || code[offset + 1] == 0x25))
    &&& transfer::transfer_target(
        memory,
        arch,
        ((region.base.0 + offset) % 0x1_0000_0000_0000_0000) as u64,
        code.subrange(offset, offset + len),
    ) == Some(target)
}

/// Whether evidence tells how the code at an offset of a region goes to the target: by the
/// byte that stands there, and through the pointer where there is one.
pub open spec fn tells_call(
    arch: TargetArch,
    region: MemoryRegionView,
    offset: int,
    target: Address,
    evidence: EvidenceValueView,
) -> bool {
    let opcode = region.bytes[offset];
    if opcode == 0xff {
        match transfer::indirect_operand(
            arch,
            ((region.base.0 + offset) % 0x1_0000_0000_0000_0000) as u64,
            region.bytes.subrange(offset, offset + 6),
        ) {
            Some(pointer) => evidence == (EvidenceValueView::IndirectCaller {
                target,
                opcode,
                pointer,
            }),
            None => false,
        }
    } else {
        evidence == (EvidenceValueView::Caller { target, opcode })
    }
}

proof fn lemma_caller_evidence(
    memory: MemoryView,
    arch: TargetArch,
    region: MemoryRegionView,
    offset: int,
    target: Address,
)
    requires
        0 <= offset < region.bytes.len(),
    ensures
        match caller_evidence(memory, arch, region, offset, target) {
            Some((len, evidence)) => goes_to(memory, arch, region, offset, len, target)
                && tells_call(arch, region, offset, target, evidence),
            None => forall|len: int| !goes_to(memory, arch, region, offset, len, target),
        },
{
    let code = region.bytes;
    if offset + 5 <= code.len() {
        assert(code.subrange(offset, offset + 5).subrange(1, 5) =~= code.subrange(
            offset + 1,
            offset + 5,
        ));
    }
}

/// A search for the callers of a target shows the places of the code regions at which a
/// call or jump to it stands, tells how it goes there, and misses none of them.
pub proof fn law_callers_go_to_target(memory: MemoryView, arch: TargetArch, target: Address)
    ensures
        forall|hit: EvidenceHitView| #[trigger]
            caller_hits(memory, arch, target).contains(hit) ==> exists|
                i: int,
                offset: int,
                len: int,
            |
                0 <= i < memory.regions.len() && memory.regions[i].flags.executable
                    && !memory.regions[i].flags.guarded && #[trigger] goes_to(
                    memory,
                    arch,
                    memory.regions[i],
                    offset,
                    len,
                    target,
                ) && hits::shows(memory, memory.regions[i], offset, len, hit) && tells_call(
                    arch,
                    memory.regions[i],
                    offset,
                    target,
                    hit.evidence,
                ),
        forall|i: int, offset: int, len: int|
            0 <= i < memory.regions.len() && memory.regions[i].flags.executable
                && !memory.regions[i].flags.guarded && #[trigger] goes_to(
                memory,
                arch,
                memory.regions[i],
                offset,
                len,
                target,
            ) ==> exists|hit: EvidenceHitView| #[trigger]
                caller_hits(memory, arch, target).contains(hit) && hit.address.0 == (
                memory.regions[i].base.0 + offset) % 0x1_0000_0000_0000_0000,
{
    assert forall|hit: EvidenceHitView| #[trigger]
        caller_hits(memory, arch, target).contains(hit) implies exists|
        i: int,
        offset: int,
        len: int,
    |
        0 <= i < memory.regions.len() && memory.regions[i].flags.executable
            && !memory.regions[i].flags.guarded && #[trigger] goes_to(
            memory,
            arch,
            memory.regions[i],
            offset,
            len,
            target,
        ) && hits::shows(memory, memory.regions[i], offset, len, hit) && tells_call(
            arch,
            memory.regions[i],
            offset,
            target,
            hit.evidence,
        ) by {
        law_caller_hits_exact(memory, arch, target, hit);
        let (i, offset) = choose|i: int, offset: int|
            is_caller_hit(memory, arch, target, i, offset, hit);
        let region = memory.regions[i];
        lemma_caller_evidence(memory, arch, region, offset, target);
        let (len, evidence) = caller_evidence(memory, arch, region, offset, target).unwrap();
        hits::law_hit_shows(
            memory,
            "scan_callers"@,
            region,
            offset,
            len,
            evidence,
            caller_hints(region.base.plus(offset)),
        );
        assert(hit == caller_at(memory, arch, region, target)(offset)[0]);
        assert(goes_to(memory, arch, memory.regions[i], offset, len, target));
    }
    assert forall|i: int, offset: int, len: int|
        0 <= i < memory.regions.len() && memory.regions[i].flags.executable
            && !memory.regions[i].flags.guarded && #[trigger] goes_to(
            memory,
            arch,
            memory.regions[i],
            offset,
            len,
            target,
        ) implies exists|hit: EvidenceHitView| #[trigger]
        caller_hits(memory, arch, target).contains(hit) && hit.address.0 == (
        memory.regions[i].base.0 + offset) % 0x1_0000_0000_0000_0000 by {
        let region = memory.regions[i];
        lemma_caller_evidence(memory, arch, region, offset, target);
        let hit = caller_at(memory, arch, region, target)(offset)[0];
        assert(caller_at(memory, arch, region, target)(offset) =~= seq![hit]);
        assert(is_caller_hit(memory, arch, target, i, offset, hit));
        law_caller_hits_exact(memory, arch, target, hit);
    }
}

/// The bytes that a function may begin with, in the order in which they are preferred:
/// `push ebx; push esi; push edi`, and the two encodings of `push ebp; mov ebp, esp`.
pub open spec fn prologue(kind: int) -> Seq<u8> {
    if kind == 0 {
        seq![0x53u8, 0x56, 0x57]
    } else if kind == 1 {
        seq![0x55u8, 0x89, 0xe5]
    } else {
        seq![0x55u8, 0x8b, 0xec]
    }
}

/// Whether a prologue of a kind stands at a place of a region, ends at `offset` or before,
/// and begins no more than `window` bytes before it.
pub open spec fn begins_at(
    region: MemoryRegionView,
    offset: int,
    window: int,
    kind: int,
    place: int,
) -> bool {
    &&& 0 <= place
    &&& offset - window <= place
    &&& place + 3 <= offset
    &&& region.bytes.subrange(place, place + 3) == prologue(kind)
}

proof fn lemma_last_prologue(
    region: MemoryRegionView,
    offset: int,
    window: int,
    kind: int,
)
    requires
        0 <= window,
        0 <= offset <= region.bytes.len(),
    ensures
        ({
            let start = if offset < window {
                0
            } else {
                offset - window
            };
            match find::find_last(region.bytes.subrange(start, offset), prologue(kind)) {
                Some(i) => begins_at(region, offset, window, kind, start + i) && forall|place: int|
                    start + i < place ==> !begins_at(region, offset, window, kind, place),
                None => forall|place: int| !begins_at(region, offset, window, kind, place),
            }
        }),
{
    let start = if offset < window {
        0
    } else {
        offset - window
    };
    let before = region.bytes.subrange(start, offset);
    find::law_find_last(before, prologue(kind));
    assert forall|place: int|
        begins_at(region, offset, window, kind, place) implies before.subrange(
        place - start,
        place - start + 3,
    ) == prologue(kind) by {
        assert(before.subrange(place - start, place - start + 3) =~= region.bytes.subrange(
            place,
            place + 3,
        ));
    }
    if let Some(i) = find::find_last(before, prologue(kind)) {
        assert(before.subrange(i, i + 3) =~= region.bytes.subrange(start + i, start + i + 3));
    }
}

/// The start of the function around an address is the place of a prologue in the window
/// before it: of the most preferred kind that stands there, the nearest one. There is no
/// start only where no prologue stands there.
pub proof fn law_function_start(memory: MemoryView, address: Address, window: int)
    requires
        0 <= window,
    ensures
        match memory.region_at(address) {
            Some((region, offset)) => match function_start(memory, address, window) {
                Some(start) => exists|kind: int, place: int|
                    0 <= kind < 3 && #[trigger] begins_at(region, offset, window, kind, place)
                        && start.0 == (region.base.0 + place) % 0x1_0000_0000_0000_0000 && (forall|
                        later: int,
                    |
                        place < later ==> !begins_at(region, offset, window, kind, later)) && (
                    forall|better: int, other: int|
                        0 <= better < kind ==> !#[trigger] begins_at(
                            region,
                            offset,
                            window,
                            better,
                            other,
                        )),
                None => forall|kind: int, place: int|
                    0 <= kind < 3 ==> !#[trigger] begins_at(region, offset, window, kind, place),
            },
            None => function_start(memory, address, window) is None,
        },
{
    crate::memory::law_region_at(memory, address);
    if let Some((region, offset)) = memory.region_at(address) {
        let start = if offset < window {
            0
        } else {
            offset - window
        };
        let before = region.bytes.subrange(start, offset);
        lemma_last_prologue(region, offset, window, 0);
        lemma_last_prologue(region, offset, window, 1);
        lemma_last_prologue(region, offset, window, 2);
        if let Some(i) = find::find_last(before, prologue(0)) {
            assert(begins_at(region, offset, window, 0, start + i));
        } else if let Some(i) = find::find_last(before, prologue(1)) {
            assert(begins_at(region, offset, window, 1, start + i));
        } else if let Some(i) = find::find_last(before, prologue(2)) {
            assert(begins_at(region, offset, window, 2, start + i));
        }
    }
}

/// What is located for a text is every executable place that holds one of the first thirty
/// pointers to one of the first twenty places of the text, with the function around it.
pub proof fn law_located(
    memory: MemoryView,
    arch: TargetArch,
    query: Seq<char>,
    result: LocateResult,
)
    ensures
        located(memory, arch, query).contains(result) <==> exists|s: int, p: int|
            #![trigger
                search::string_hits(memory, query)[s],
                search::pointer_hits(memory, arch, result.string_address)[p]
            ]
            0 <= s < search::string_hits(memory, query).len() && s < 20 && 0 <= p
                < search::pointer_hits(memory, arch, result.string_address).len() && p < 30
                && search::string_hits(memory, query)[s].address == result.string_address
                && search::pointer_hits(memory, arch, result.string_address)[p].address
                == result.ref_site && (memory.region_at(result.ref_site) matches Some((region, _))
                && region.flags.executable) && result.function_start == function_start(
                memory,
                result.ref_site,
                0x600,
            ),
{
    let texts = search::string_hits(memory, query);
    let pointers = search::pointer_hits(memory, arch, result.string_address);
    let first = seqs::capped(texts, 20);
    let near = seqs::capped(pointers, 30);
    let f = located_from(memory, arch);
    let g = located_by(memory, result.string_address);
    seqs::lemma_flat_map_contains(first, f, result);
    if located(memory, arch, query).contains(result) {
        let s = choose|s: int| seqs::gives(first, f, s, result);
        let string = first[s];
        let h = located_by(memory, string.address);
        let found = seqs::capped(search::pointer_hits(memory, arch, string.address), 30);
        seqs::lemma_flat_map_contains(found, h, result);
        let p = choose|p: int| seqs::gives(found, h, p, result);
        assert(h(found[p]).len() == 1);
        assert(h(found[p])[0] == result);
        assert(texts[s] == string);
        assert(pointers[p] == found[p]);
    }
    if exists|s: int, p: int|
        #![trigger texts[s], pointers[p]]
        0 <= s < texts.len() && s < 20 && 0 <= p < pointers.len() && p < 30 && texts[s].address
            == result.string_address && pointers[p].address == result.ref_site && (memory.region_at(
            result.ref_site,
        ) matches Some((region, _)) && region.flags.executable) && result.function_start
            == function_start(memory, result.ref_site, 0x600) {
        let (s, p) = choose|s: int, p: int|
            #![trigger texts[s], pointers[p]]
            0 <= s < texts.len() && s < 20 && 0 <= p < pointers.len() && p < 30 && texts[s].address
                == result.string_address && pointers[p].address == result.ref_site && (
            memory.region_at(result.ref_site) matches Some((region, _))
                && region.flags.executable) && result.function_start == function_start(
                memory,
                result.ref_site,
                0x600,
            );
        assert(first[s] == texts[s]);
        assert(near[p] == pointers[p]);
        assert(g(near[p])[0] == result);
        assert(seqs::gives(near, g, p, result));
        seqs::lemma_flat_map_contains(near, g, result);
        assert(seqs::gives(first, f, s, result));
    }
}

/// The report of a caller advises to look at the function around it and to read the bytes
/// there.
pub proof fn law_callers_advise(
    memory: MemoryView,
    arch: TargetArch,
    target: Address,
    hit: EvidenceHitView,
)
    requires
        caller_hits(memory, arch, target).contains(hit),
    ensures
        hit.label == "scan_callers"@,
        hit.next_tools.len() == 2,
        hits::advises(hit, 0, "ghydra.functions_decompile"@, hit.address.0 as int),
        hits::advises(hit, 1, "mem_read"@, hit.address.0 as int),
{
    let f = callers_in(memory, arch, target);
    seqs::lemma_flat_map_contains(memory.regions, f, hit);
    let i = choose|i: int| seqs::gives(memory.regions, f, i, hit);
    let region = memory.regions[i];
    let g = caller_at(memory, arch, region, target);
    seqs::lemma_flat_below_contains(region.bytes.len() as int, g, hit);
}

} // verus!
