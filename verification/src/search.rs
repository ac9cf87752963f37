//! Scans over the memory image.

use vstd::prelude::*;

use crate::aob;
use crate::aob::{AobPatternView, ParseAobError};
use crate::bytes;
use crate::evidence::{
    Address, EvidenceHit, EvidenceHitView, EvidenceValue, EvidenceValueView, NextToolHintView,
    TargetArch,
};
use crate::find;
use crate::hits;
use crate::hits::HitSpec;
use crate::memory::{self, ArgusEngine, MemoryRegion, MemoryRegionView, MemoryView};
use crate::seqs;
use crate::text;

verus! {

/// What to do after a byte pattern was found.
pub open spec fn byte_hints(address: Address) -> Seq<NextToolHintView> {
    seq![
        hits::hint("mem_read"@, "read a wider byte window around this hit"@, address),
        hits::hint(
            "ghydra.memory_disassemble"@,
            "compare this runtime byte hit with static disassembly"@,
            address,
        ),
    ]
}

/// The report of a byte pattern that matches at an offset of a region.
pub open spec fn byte_hit(
    memory: MemoryView,
    region: MemoryRegionView,
    len: int,
) -> spec_fn(usize) -> EvidenceHitView {
    |offset: usize|
        hits::hit_of(
            memory,
            "scan_bytes"@,
            region.base.plus(offset as int),
            region,
            offset as int,
            len,
            EvidenceValueView::Bytes { bytes: region.bytes.subrange(offset as int, offset + len) },
            byte_hints(region.base.plus(offset as int)),
        )
}

/// The reports of a byte pattern in one region.
pub open spec fn byte_hits_in(memory: MemoryView, pattern: AobPatternView) -> spec_fn(
    MemoryRegionView,
) -> Seq<EvidenceHitView> {
    |region: MemoryRegionView|
        if region.is_readable() {
            aob::aob_matches(region.bytes, pattern).map_values(
                byte_hit(memory, region, pattern.bytes.len() as int),
            )
        } else {
            Seq::empty()
        }
}

/// The reports of a byte pattern in the readable regions, in order of regions
/// and offsets.
pub open spec fn byte_hits(memory: MemoryView, pattern: AobPatternView) -> Seq<EvidenceHitView> {
    memory.regions.flat_map(byte_hits_in(memory, pattern))
}

/// Whether a report is that of a byte pattern at an offset of region `i`, where
/// the region is readable and the pattern matches.
pub open spec fn is_byte_hit(
    memory: MemoryView,
    pattern: AobPatternView,
    i: int,
    offset: usize,
    hit: EvidenceHitView,
) -> bool {
    let region = memory.regions[i];
    &&& 0 <= i < memory.regions.len()
    &&& region.is_readable()
    &&& 0 < pattern.bytes.len()
    &&& offset + pattern.bytes.len() <= region.bytes.len()
    &&& aob::matches_at(region.bytes, pattern, offset as int)
    &&& hit == byte_hit(memory, region, pattern.bytes.len() as int)(offset)
}

/// A scan for a byte pattern reports every place of the readable regions at which
/// the pattern matches, and no other.
pub proof fn law_byte_hits_exact(memory: MemoryView, pattern: AobPatternView, hit: EvidenceHitView)
    requires
        forall|i: int|
            0 <= i < memory.regions.len() ==> (#[trigger] memory.regions[i]).bytes.len()
                <= usize::MAX,
    ensures
        byte_hits(memory, pattern).contains(hit) <==> exists|i: int, offset: usize|
            is_byte_hit(memory, pattern, i, offset, hit),
{
    let f = byte_hits_in(memory, pattern);
    let len = pattern.bytes.len() as int;
    seqs::lemma_flat_map_contains(memory.regions, f, hit);
    if byte_hits(memory, pattern).contains(hit) {
        let i = choose|i: int| seqs::gives(memory.regions, f, i, hit);
        let region = memory.regions[i];
        let places = aob::aob_matches(region.bytes, pattern);
        aob::law_aob_matches_exact(region.bytes, pattern);
        let at = f(region).index_of(hit);
        assert(places.contains(places[at]));
        assert(is_byte_hit(memory, pattern, i, places[at], hit));
    }
    if exists|i: int, offset: usize| is_byte_hit(memory, pattern, i, offset, hit) {
        let (i, offset) = choose|i: int, offset: usize|
            is_byte_hit(memory, pattern, i, offset, hit);
        let region = memory.regions[i];
        let places = aob::aob_matches(region.bytes, pattern);
        aob::law_aob_matches_exact(region.bytes, pattern);
        assert(places.contains(offset));
        let at = places.index_of(offset);
        assert(f(region)[at] == hit);
        assert(seqs::gives(memory.regions, f, i, hit));
    }
}

impl ArgusEngine {
    /// Finds a byte pattern such as `48 8B ?? 44` in the readable regions.
    pub fn scan_bytes(&self, pattern: &str, max_results: usize) -> (result: Result<
        Vec<EvidenceHit>,
        ParseAobError,
    >)
        ensures
            match aob::words_pattern(text::words(pattern@)) {
                Ok(parsed) => result matches Ok(found) && found.deep_view() == seqs::capped(
                    byte_hits(self.memory(), parsed),
                    max_results as int,
                ),
                Err(error) => result matches Err(found) && found.deep_view() == error,
            },
    {
        let pattern = match aob::parse_aob(pattern) {
            Ok(pattern) => pattern,
            Err(error) => {
                return Err(error);
            },
        };
        let ghost view = pattern.deep_view();
        let ghost memory = self.memory();
        let ghost f = byte_hits_in(memory, view);
        let ghost all = memory.regions;
        let ghost cap = max_results as int;
        let regions = self.regions();
        let mut result: Vec<EvidenceHit> = Vec::new();
        let mut k: usize = 0;
        proof {
            seqs::lemma_flat_map_ends(all, f);
        }
        while k < regions.len() && result.len() < max_results
            invariant
                k <= regions.len(),
                regions.deep_view() == all,
                memory == self.memory(),
                all == memory.regions,
                view == pattern.deep_view(),
                f == byte_hits_in(memory, view),
                cap == max_results,
                result.deep_view() == seqs::capped(all.take(k as int).flat_map(f), cap),
            decreases regions.len() - k,
        {
            let region = &regions[k];
            let ghost front = all.take(k as int).flat_map(f);
            proof {
                assert(region.deep_view() == all[k as int]);
                seqs::lemma_flat_map_step(all, k as int, f);
                assert(result.deep_view().len() == result@.len());
                assert(front == result.deep_view());
                seqs::lemma_capped_append(front, f(all[k as int]), cap);
            }
            if region.is_readable() {
                let offsets = aob::match_aob_limited(
                    &region.bytes,
                    &pattern,
                    max_results - result.len(),
                );
                let ghost h = byte_hit(memory, region.deep_view(), view.bytes.len() as int);
                let ghost limit = cap - front.len();
                proof {
                    let matches = aob::aob_matches(region.bytes@, view);
                    seqs::lemma_capped_map(matches, h, limit);
                    assert(region.bytes.len() == region.bytes@.len());
                    aob::law_aob_matches_exact(region.bytes@, view);
                    assert forall|j: int| 0 <= j < offsets@.len() implies #[trigger] offsets@[j]
                        + view.bytes.len() <= region.bytes@.len() by {
                        assert(matches.contains(matches[j]));
                    }
                }
                let mut j: usize = 0;
                while j < offsets.len()
                    invariant
                        j <= offsets.len(),
                        memory == self.memory(),
                        view == pattern.deep_view(),
                        h == byte_hit(memory, region.deep_view(), view.bytes.len() as int),
                        forall|i: int|
                            0 <= i < offsets@.len() ==> #[trigger] offsets@[i] + view.bytes.len()
                                <= region.bytes@.len(),
                        result.deep_view() == front + offsets@.take(j as int).map_values(h),
                    decreases offsets.len() - j,
                {
                    let offset: usize = offsets[j];
                    let ghost before = result.deep_view();
                    let len: usize = pattern.bytes.len();
                    proof {
                        assert(offset + len <= region.bytes.len());
                    }
                    let address = region.base.offset(offset as u64);
                    let next_tools = vec![
                        self.next_tool(
                            "mem_read",
                            "read a wider byte window around this hit",
                            address,
                        ),
                        self.next_tool(
                            "ghydra.memory_disassemble",
                            "compare this runtime byte hit with static disassembly",
                            address,
                        ),
                    ];
                    proof {
                        assert(next_tools.deep_view() =~= byte_hints(address));
                    }
                    result.push(
                        self.hit(
                            HitSpec {
                                label: "scan_bytes",
                                address,
                                region,
                                offset,
                                evidence_len: len,
                                evidence: EvidenceValue::Bytes {
                                    bytes: vstd::slice::slice_to_vec(
                                        &region.bytes[offset..offset + len],
                                    ),
                                },
                                next_tools,
                            },
                        ),
                    );
                    j += 1;
                    proof {
                        assert(result.deep_view() =~= before.push(h(offset)));
                        assert(front + offsets@.take(j as int).map_values(h) =~= (front
                            + offsets@.take(j - 1).map_values(h)).push(h(offset)));
                    }
                }
                proof {
                    assert(offsets@.take(offsets@.len() as int) =~= offsets@);
                }
            } else {
                proof {
                    assert(front + f(all[k as int]) =~= front);
                }
            }
            k += 1;
        }
        proof {
            seqs::lemma_flat_map_ends(all, f);
            if k < regions.len() {
                assert(result.deep_view().len() == result@.len());
                seqs::lemma_flat_map_full(all, k as int, f, cap);
            }
        }
        Ok(result)
    }
}


/// What to do after a text was found.
pub open spec fn string_hints(address: Address) -> Seq<NextToolHintView> {
    seq![
        hits::hint("scan_pointers_to"@, "find code or data references to this string"@, address),
        hits::hint("mem_read"@, "read a wider context window around this string"@, address),
        hits::hint(
            "ghydra.functions_decompile"@,
            "decompile nearby static code after a runtime reference is found"@,
            address,
        ),
    ]
}

/// The report of a text that stands at an offset of a region.
pub open spec fn string_hit(
    memory: MemoryView,
    region: MemoryRegionView,
    needle: Seq<char>,
) -> spec_fn(usize) -> EvidenceHitView {
    |offset: usize|
        hits::hit_of(
            memory,
            "scan_string"@,
            region.base.plus(offset as int),
            region,
            offset as int,
            vstd::utf8::encode_utf8(needle).len() as int,
            EvidenceValueView::Utf8 { text: needle },
            string_hints(region.base.plus(offset as int)),
        )
}

/// The reports of a text in one region.
pub open spec fn string_hits_in(memory: MemoryView, needle: Seq<char>) -> spec_fn(
    MemoryRegionView,
) -> Seq<EvidenceHitView> {
    |region: MemoryRegionView|
        if region.is_readable() {
            find::occurrences(region.bytes, vstd::utf8::encode_utf8(needle), 0).map_values(
                string_hit(memory, region, needle),
            )
        } else {
            Seq::empty()
        }
}

/// The reports of a text in the readable regions, in order of regions and
/// offsets; the empty text is found nowhere.
pub open spec fn string_hits(memory: MemoryView, needle: Seq<char>) -> Seq<EvidenceHitView> {
    memory.regions.flat_map(string_hits_in(memory, needle))
}

/// What to do after a pointer was found.
pub open spec fn pointer_hints(target: Address, address: Address) -> Seq<NextToolHintView> {
    seq![
        hits::hint("mem_read"@, "read the pointed-to memory target"@, target),
        hits::hint(
            "ghydra.data_list"@,
            "compare this pointer location with static data references"@,
            address,
        ),
    ]
}

/// The report of a pointer that stands at an offset of a region.
pub open spec fn pointer_hit(
    memory: MemoryView,
    arch: TargetArch,
    region: MemoryRegionView,
    target: Address,
) -> spec_fn(usize) -> EvidenceHitView {
    |offset: usize|
        hits::hit_of(
            memory,
            "scan_pointers_to"@,
            region.base.plus(offset as int),
            region,
            offset as int,
            arch.pointer_width(),
            EvidenceValueView::Pointer { target },
            pointer_hints(target, region.base.plus(offset as int)),
        )
}

/// The reports of pointers to a target in one region.
pub open spec fn pointer_hits_in(memory: MemoryView, arch: TargetArch, target: Address) -> spec_fn(
    MemoryRegionView,
) -> Seq<EvidenceHitView> {
    |region: MemoryRegionView|
        if region.is_readable() {
            find::occurrences(
                region.bytes,
                bytes::le_bytes(target.0 as int, arch.pointer_width() as nat),
                0,
            ).map_values(pointer_hit(memory, arch, region, target))
        } else {
            Seq::empty()
        }
}

/// The reports of pointers to a target in the readable regions; there is none to
/// a target that no pointer can hold.
pub open spec fn pointer_hits(memory: MemoryView, arch: TargetArch, target: Address) -> Seq<
    EvidenceHitView,
> {
    if arch == TargetArch::X86_64 || target.0 <= 0xffff_ffff {
        memory.regions.flat_map(pointer_hits_in(memory, arch, target))
    } else {
        Seq::empty()
    }
}

/// Every place that a search for pointers reports holds a pointer to the target. No
/// two regions may overlap, nor reach over the end of all addresses.
pub proof fn law_pointer_hits_point(
    memory: MemoryView,
    arch: TargetArch,
    target: Address,
    hit: EvidenceHitView,
)
    requires
        memory::apart(memory.regions),
        forall|i: int|
            0 <= i < memory.regions.len() ==> (#[trigger] memory.regions[i]).base.0
                + memory.regions[i].bytes.len() <= u64::MAX && memory.regions[i].bytes.len()
                <= usize::MAX,
        pointer_hits(memory, arch, target).contains(hit),
    ensures
        hit.evidence == (EvidenceValueView::Pointer { target }),
        memory.read_pointer(arch, hit.address) == Some(target),
{
    let f = pointer_hits_in(memory, arch, target);
    let width = arch.pointer_width();
    let wanted = bytes::le_bytes(target.0 as int, width as nat);
    seqs::lemma_flat_map_contains(memory.regions, f, hit);
    let i = choose|i: int| seqs::gives(memory.regions, f, i, hit);
    let region = memory.regions[i];
    let places = find::occurrences(region.bytes, wanted, 0);
    let at = f(region).index_of(hit);
    let offset = places[at] as int;
    assert(hit == pointer_hit(memory, arch, region, target)(places[at]));
    find::lemma_occurrences_stand(region.bytes, wanted, 0);
    assert(find::occurs_at(region.bytes, wanted, offset));
    assert(bytes::le_limit(4) == 0x1_0000_0000 && bytes::le_limit(8)
        == 0x1_0000_0000_0000_0000) by {
        reveal_with_fuel(bytes::le_limit, 9);
    }
    bytes::law_le_read_write(target.0 as int, width as nat);
    assert(region.holds(hit.address));
    memory::law_read_from_region(memory, i, hit.address, width);
}

impl ArgusEngine {
    /// The first `limit` places of a text in one region.
    fn string_hits_in_region(&self, region: &MemoryRegion, needle: &str, limit: usize) -> (found:
        Vec<EvidenceHit>)
        ensures
            found.deep_view() == seqs::capped(
                string_hits_in(self.memory(), needle@)(region.deep_view()),
                limit as int,
            ),
    {
        let mut found: Vec<EvidenceHit> = Vec::new();
        if !region.is_readable() {
            proof {
                assert(found.deep_view() =~= Seq::<EvidenceHitView>::empty());
            }
            return found;
        }
        let ghost memory = self.memory();
        let ghost h = string_hit(memory, region.deep_view(), needle@);
        let needle_bytes = needle.as_bytes();
        let offsets = find::find_all(&region.bytes, needle_bytes, limit);
        proof {
            seqs::lemma_capped_map(
                find::occurrences(region.bytes@, needle_bytes@, 0),
                h,
                limit as int,
            );
        }
        let mut j: usize = 0;
        while j < offsets.len()
            invariant
                j <= offsets.len(),
                memory == self.memory(),
                needle_bytes@ == vstd::utf8::encode_utf8(needle@),
                h == string_hit(memory, region.deep_view(), needle@),
                forall|i: int|
                    0 <= i < offsets@.len() ==> find::occurs_at(
                        region.bytes@,
                        needle_bytes@,
                        #[trigger] offsets@[i] as int,
                    ),
                found.deep_view() == offsets@.take(j as int).map_values(h),
            decreases offsets.len() - j,
        {
            let offset: usize = offsets[j];
            let ghost before = found.deep_view();
            let address = region.base.offset(offset as u64);
            let next_tools = vec![
                self.next_tool(
                    "scan_pointers_to",
                    "find code or data references to this string",
                    address,
                ),
                self.next_tool(
                    "mem_read",
                    "read a wider context window around this string",
                    address,
                ),
                self.next_tool(
                    "ghydra.functions_decompile",
                    "decompile nearby static code after a runtime reference is found",
                    address,
                ),
            ];
            proof {
                assert(next_tools.deep_view() =~= string_hints(address));
            }
            found.push(
                self.hit(
                    HitSpec {
                        label: "scan_string",
                        address,
                        region,
                        offset,
                        evidence_len: needle_bytes.len(),
                        evidence: EvidenceValue::Utf8 { text: needle.to_string() },
                        next_tools,
                    },
                ),
            );
            j += 1;
            proof {
                assert(found.deep_view() =~= before.push(h(offset)));
                assert(offsets@.take(j as int).map_values(h) =~= offsets@.take(j - 1).map_values(
                    h,
                ).push(h(offset)));
            }
        }
        proof {
            assert(offsets@.take(offsets@.len() as int) =~= offsets@);
        }
        found
    }

    /// Finds a text in the readable regions.
    pub fn scan_string(&self, needle: &str, max_results: usize) -> (result: Vec<EvidenceHit>)
        ensures
            result.deep_view() == seqs::capped(
                string_hits(self.memory(), needle@),
                max_results as int,
            ),
    {
        let ghost memory = self.memory();
        let ghost f = string_hits_in(memory, needle@);
        let ghost all = memory.regions;
        let ghost cap = max_results as int;
        let regions = self.regions();
        let mut result: Vec<EvidenceHit> = Vec::new();
        let mut k: usize = 0;
        proof {
            seqs::lemma_flat_map_ends(all, f);
        }
        while k < regions.len() && result.len() < max_results
            invariant
                k <= regions.len(),
                regions.deep_view() == all,
                memory == self.memory(),
                all == memory.regions,
                f == string_hits_in(memory, needle@),
                cap == max_results,
                result.deep_view() == seqs::capped(all.take(k as int).flat_map(f), cap),
            decreases regions.len() - k,
        {
            let region = &regions[k];
            let ghost front = all.take(k as int).flat_map(f);
            proof {
                assert(region.deep_view() == all[k as int]);
                seqs::lemma_flat_map_step(all, k as int, f);
                assert(result.deep_view().len() == result@.len());
                assert(front == result.deep_view());
                seqs::lemma_capped_append(front, f(all[k as int]), cap);
            }
            let mut found = self.string_hits_in_region(region, needle, max_results - result.len());
            let ghost more = found.deep_view();
            result.append(&mut found);
            proof {
                assert(result.deep_view() =~= front + more);
            }
            k += 1;
        }
        proof {
            seqs::lemma_flat_map_ends(all, f);
            if k < regions.len() {
                assert(result.deep_view().len() == result@.len());
                seqs::lemma_flat_map_full(all, k as int, f, cap);
            }
        }
        result
    }

    /// The first `limit` pointers to a target in one region.
    fn pointer_hits_in_region(
        &self,
        region: &MemoryRegion,
        target: Address,
        needle: &[u8],
        limit: usize,
    ) -> (found: Vec<EvidenceHit>)
        requires
            needle@ == bytes::le_bytes(target.0 as int, self.arch().pointer_width() as nat),
            needle@.len() == self.arch().pointer_width(),
        ensures
            found.deep_view() == seqs::capped(
                pointer_hits_in(self.memory(), self.arch(), target)(region.deep_view()),
                limit as int,
            ),
    {
        let mut found: Vec<EvidenceHit> = Vec::new();
        if !region.is_readable() {
            proof {
                assert(found.deep_view() =~= Seq::<EvidenceHitView>::empty());
            }
            return found;
        }
        let ghost memory = self.memory();
        let ghost h = pointer_hit(memory, self.arch(), region.deep_view(), target);
        let offsets = find::find_all(&region.bytes, needle, limit);
        proof {
            seqs::lemma_capped_map(
                find::occurrences(region.bytes@, needle@, 0),
                h,
                limit as int,
            );
        }
        let mut j: usize = 0;
        while j < offsets.len()
            invariant
                j <= offsets.len(),
                memory == self.memory(),
                needle@.len() == self.arch().pointer_width(),
                h == pointer_hit(memory, self.arch(), region.deep_view(), target),
                forall|i: int|
                    0 <= i < offsets@.len() ==> find::occurs_at(
                        region.bytes@,
                        needle@,
                        #[trigger] offsets@[i] as int,
                    ),
                found.deep_view() == offsets@.take(j as int).map_values(h),
            decreases offsets.len() - j,
        {
            let offset: usize = offsets[j];
            let ghost before = found.deep_view();
            let address = region.base.offset(offset as u64);
            let next_tools = vec![
                self.next_tool("mem_read", "read the pointed-to memory target", target),
                self.next_tool(
                    "ghydra.data_list",
                    "compare this pointer location with static data references",
                    address,
                ),
            ];
            proof {
                assert(next_tools.deep_view() =~= pointer_hints(target, address));
            }
            found.push(
                self.hit(
                    HitSpec {
                        label: "scan_pointers_to",
                        address,
                        region,
                        offset,
                        evidence_len: needle.len(),
                        evidence: EvidenceValue::Pointer { target },
                        next_tools,
                    },
                ),
            );
            j += 1;
            proof {
                assert(found.deep_view() =~= before.push(h(offset)));
                assert(offsets@.take(j as int).map_values(h) =~= offsets@.take(j - 1).map_values(
                    h,
                ).push(h(offset)));
            }
        }
        proof {
            assert(offsets@.take(offsets@.len() as int) =~= offsets@);
        }
        found
    }

    /// Finds the pointers to an address in the readable regions.
    pub fn scan_pointers_to(&self, target: Address, max_results: usize) -> (result: Vec<
        EvidenceHit,
    >)
        ensures
            result.deep_view() == seqs::capped(
                pointer_hits(self.memory(), self.arch(), target),
                max_results as int,
            ),
    {
        let mut result: Vec<EvidenceHit> = Vec::new();
        if max_results == 0 || !self.pointer_can_represent(target) {
            proof {
                assert(result.deep_view() =~= Seq::<EvidenceHitView>::empty());
            }
            return result;
        }
        let needle = self.pointer_bytes(target);
        let ghost memory = self.memory();
        let ghost f = pointer_hits_in(memory, self.arch(), target);
        let ghost all = memory.regions;
        let ghost cap = max_results as int;
        let regions = self.regions();
        let mut k: usize = 0;
        proof {
            seqs::lemma_flat_map_ends(all, f);
            reveal_with_fuel(bytes::le_limit, 9);
            bytes::law_le_read_write(target.0 as int, self.arch().pointer_width() as nat);
        }
        while k < regions.len() && result.len() < max_results
            invariant
                k <= regions.len(),
                regions.deep_view() == all,
                memory == self.memory(),
                all == memory.regions,
                needle@ == bytes::le_bytes(target.0 as int, self.arch().pointer_width() as nat),
                needle@.len() == self.arch().pointer_width(),
                f == pointer_hits_in(memory, self.arch(), target),
                cap == max_results,
                result.deep_view() == seqs::capped(all.take(k as int).flat_map(f), cap),
            decreases regions.len() - k,
        {
            let region = &regions[k];
            let ghost front = all.take(k as int).flat_map(f);
            proof {
                assert(region.deep_view() == all[k as int]);
                seqs::lemma_flat_map_step(all, k as int, f);
                assert(result.deep_view().len() == result@.len());
                assert(front == result.deep_view());
                seqs::lemma_capped_append(front, f(all[k as int]), cap);
            }
            let mut found = self.pointer_hits_in_region(
                region,
                target,
                &needle,
                max_results - result.len(),
            );
            let ghost more = found.deep_view();
            result.append(&mut found);
            proof {
                assert(result.deep_view() =~= front + more);
            }
            k += 1;
        }
        proof {
            seqs::lemma_flat_map_ends(all, f);
            if k < regions.len() {
                assert(result.deep_view().len() == result@.len());
                seqs::lemma_flat_map_full(all, k as int, f, cap);
            }
        }
        result
    }
}

/// Whether a pattern matches the bytes from an offset on: each byte whose mask is set.
pub open spec fn fits(data: Seq<u8>, pattern: AobPatternView, offset: int) -> bool {
    &&& 0 < pattern.bytes.len()
    &&& 0 <= offset <= data.len() - pattern.bytes.len()
    &&& forall|k: int|
        0 <= k < pattern.bytes.len() && #[trigger] pattern.mask[k] ==> data[offset + k]
            == pattern.bytes[k]
}

/// A scan for a byte pattern shows the places of the readable regions at which the
/// pattern fits, with the bytes that stand there, and misses none of them.
pub proof fn law_byte_hits_show_matches(memory: MemoryView, pattern: AobPatternView)
    requires
        pattern.mask.len() == pattern.bytes.len(),
        forall|i: int|
            0 <= i < memory.regions.len() ==> (#[trigger] memory.regions[i]).bytes.len()
                <= usize::MAX,
    ensures
        forall|hit: EvidenceHitView| #[trigger]
            byte_hits(memory, pattern).contains(hit) ==> exists|i: int, offset: int|
                0 <= i < memory.regions.len() && (#[trigger] memory.regions[i]).flags.readable
                    && !memory.regions[i].flags.guarded && fits(
                    memory.regions[i].bytes,
                    pattern,
                    offset,
                ) && #[trigger] hits::shows(
                    memory,
                    memory.regions[i],
                    offset,
                    pattern.bytes.len() as int,
                    hit,
                ) && hit.evidence == (EvidenceValueView::Bytes {
                    bytes: memory.regions[i].bytes.subrange(
                        offset,
                        offset + pattern.bytes.len(),
                    ),
                }),
        forall|i: int, offset: int|
            0 <= i < memory.regions.len() && memory.regions[i].flags.readable
                && !memory.regions[i].flags.guarded && #[trigger] fits(
                memory.regions[i].bytes,
                pattern,
                offset,
            ) ==> exists|hit: EvidenceHitView| #[trigger]
                byte_hits(memory, pattern).contains(hit) && hit.address.0 == (
                memory.regions[i].base.0 + offset) % 0x1_0000_0000_0000_0000,
{
    let len = pattern.bytes.len() as int;
    assert forall|hit: EvidenceHitView| #[trigger]
        byte_hits(memory, pattern).contains(hit) implies exists|i: int, offset: int|
        0 <= i < memory.regions.len() && (#[trigger] memory.regions[i]).flags.readable
            && !memory.regions[i].flags.guarded && fits(memory.regions[i].bytes, pattern, offset)
            && #[trigger] hits::shows(memory, memory.regions[i], offset, len, hit) && hit.evidence
            == (EvidenceValueView::Bytes {
            bytes: memory.regions[i].bytes.subrange(offset, offset + len),
        }) by {
        law_byte_hits_exact(memory, pattern, hit);
        let (i, offset) = choose|i: int, offset: usize|
            is_byte_hit(memory, pattern, i, offset, hit);
        let region = memory.regions[i];
        hits::law_hit_shows(
            memory,
            "scan_bytes"@,
            region,
            offset as int,
            len,
            EvidenceValueView::Bytes { bytes: region.bytes.subrange(offset as int, offset + len) },
            byte_hints(region.base.plus(offset as int)),
        );
        assert(fits(region.bytes, pattern, offset as int));
        assert(hits::shows(memory, memory.regions[i], offset as int, len, hit));
    }
    assert forall|i: int, offset: int|
        0 <= i < memory.regions.len() && memory.regions[i].flags.readable
            && !memory.regions[i].flags.guarded && #[trigger] fits(
            memory.regions[i].bytes,
            pattern,
            offset,
        ) implies exists|hit: EvidenceHitView| #[trigger]
        byte_hits(memory, pattern).contains(hit) && hit.address.0 == (memory.regions[i].base.0
            + offset) % 0x1_0000_0000_0000_0000 by {
        let region = memory.regions[i];
        let at = offset as usize;
        let hit = byte_hit(memory, region, len)(at);
        assert(aob::matches_at(region.bytes, pattern, offset));
        assert(is_byte_hit(memory, pattern, i, at, hit));
        law_byte_hits_exact(memory, pattern, hit);
    }
}

/// Whether a needle stands at an offset of region `i`, which scans may read.
pub open spec fn readable_at(memory: MemoryView, needle: Seq<u8>, i: int, offset: int) -> bool {
    &&& 0 <= i < memory.regions.len()
    &&& memory.regions[i].flags.readable
    &&& !memory.regions[i].flags.guarded
    &&& 0 <= offset <= memory.regions[i].bytes.len() - needle.len()
    &&& memory.regions[i].bytes.subrange(offset, offset + needle.len()) == needle
}

/// Whether reports show the places of the readable regions at which a needle stands and
/// nothing else, and miss none but those that overlap one that they show.
pub open spec fn show_places(
    memory: MemoryView,
    needle: Seq<u8>,
    evidence: EvidenceValueView,
    found: Seq<EvidenceHitView>,
) -> bool {
    &&& forall|hit: EvidenceHitView| #[trigger]
        found.contains(hit) ==> hit.evidence == evidence && exists|i: int, offset: int| #[trigger]
            readable_at(memory, needle, i, offset) && hits::shows(
                memory,
                memory.regions[i],
                offset,
                needle.len() as int,
                hit,
            )
    &&& forall|i: int, place: int| #[trigger]
        readable_at(memory, needle, i, place) ==> exists|hit: EvidenceHitView, offset: int|
            #![trigger found.contains(hit), readable_at(memory, needle, i, offset)]
            found.contains(hit) && readable_at(memory, needle, i, offset) && hits::shows(
                memory,
                memory.regions[i],
                offset,
                needle.len() as int,
                hit,
            ) && offset <= place < offset + needle.len()
}

proof fn lemma_show_places(
    memory: MemoryView,
    needle: Seq<u8>,
    evidence: EvidenceValueView,
    label: Seq<char>,
    hints: spec_fn(Address) -> Seq<NextToolHintView>,
    in_region: spec_fn(MemoryRegionView) -> Seq<EvidenceHitView>,
    report: spec_fn(MemoryRegionView, usize) -> EvidenceHitView,
)
    requires
        0 < needle.len(),
        forall|i: int|
            0 <= i < memory.regions.len() ==> (#[trigger] memory.regions[i]).bytes.len()
                <= usize::MAX,
        forall|region: MemoryRegionView| #[trigger]
            in_region(region) == if region.is_readable() {
                find::occurrences(region.bytes, needle, 0).map_values(
                    |offset: usize| report(region, offset),
                )
            } else {
                Seq::empty()
            },
        forall|region: MemoryRegionView, offset: usize| #[trigger]
            report(region, offset) == hits::hit_of(
                memory,
                label,
                region.base.plus(offset as int),
                region,
                offset as int,
                needle.len() as int,
                evidence,
                hints(region.base.plus(offset as int)),
            ),
    ensures
        show_places(memory, needle, evidence, memory.regions.flat_map(in_region)),
{
    let len = needle.len() as int;
    let all = memory.regions.flat_map(in_region);
    assert forall|hit: EvidenceHitView| #[trigger] all.contains(hit) implies hit.evidence
        == evidence && exists|i: int, offset: int| #[trigger]
        readable_at(memory, needle, i, offset) && hits::shows(
            memory,
            memory.regions[i],
            offset,
            len,
            hit,
        ) by {
        seqs::lemma_flat_map_contains(memory.regions, in_region, hit);
        let i = choose|i: int| seqs::gives(memory.regions, in_region, i, hit);
        let region = memory.regions[i];
        let places = find::occurrences(region.bytes, needle, 0);
        let k = in_region(region).index_of(hit);
        find::law_occurrences(region.bytes, needle, 0);
        assert(hit == report(region, places[k]));
        let offset = places[k] as int;
        hits::law_hit_shows(
            memory,
            label,
            region,
            offset,
            len,
            evidence,
            hints(region.base.plus(offset)),
        );
        assert(readable_at(memory, needle, i, offset));
    }
    assert forall|i: int, place: int| #[trigger]
        readable_at(memory, needle, i, place) implies exists|hit: EvidenceHitView, offset: int|
        #![trigger all.contains(hit), readable_at(memory, needle, i, offset)]
        all.contains(hit) && readable_at(memory, needle, i, offset) && hits::shows(
            memory,
            memory.regions[i],
            offset,
            len,
            hit,
        ) && offset <= place < offset + len by {
        let region = memory.regions[i];
        let places = find::occurrences(region.bytes, needle, 0);
        find::law_occurrences(region.bytes, needle, 0);
        assert(region.bytes.subrange(place, place + len) == needle);
        let k = choose|k: int|
            0 <= k < places.len() && (#[trigger] places[k]) <= place < places[k] + len;
        let offset = places[k] as int;
        let hit = report(region, places[k]);
        hits::law_hit_shows(
            memory,
            label,
            region,
            offset,
            len,
            evidence,
            hints(region.base.plus(offset)),
        );
        assert(in_region(region)[k] == hit);
        assert(seqs::gives(memory.regions, in_region, i, hit));
        seqs::lemma_flat_map_contains(memory.regions, in_region, hit);
        assert(readable_at(memory, needle, i, offset));
        assert(all.contains(hit));
    }
}

/// A scan for a text shows where its UTF-8 bytes stand.
pub proof fn law_string_hits_show_places(memory: MemoryView, needle: Seq<char>)
    requires
        0 < vstd::utf8::encode_utf8(needle).len(),
        forall|i: int|
            0 <= i < memory.regions.len() ==> (#[trigger] memory.regions[i]).bytes.len()
                <= usize::MAX,
    ensures
        show_places(
            memory,
            vstd::utf8::encode_utf8(needle),
            EvidenceValueView::Utf8 { text: needle },
            string_hits(memory, needle),
        ),
{
    let report = |region: MemoryRegionView, offset: usize|
        string_hit(memory, region, needle)(offset);
    assert forall|region: MemoryRegionView| #[trigger]
        string_hits_in(memory, needle)(region) == if region.is_readable() {
            find::occurrences(region.bytes, vstd::utf8::encode_utf8(needle), 0).map_values(
                |offset: usize| report(region, offset),
            )
        } else {
            Seq::empty()
        } by {
        assert(string_hit(memory, region, needle) =~= (|offset: usize| report(region, offset)));
    }
    lemma_show_places(
        memory,
        vstd::utf8::encode_utf8(needle),
        EvidenceValueView::Utf8 { text: needle },
        "scan_string"@,
        |address: Address| string_hints(address),
        string_hits_in(memory, needle),
        report,
    );
}

/// A search for the pointers to a target shows where its bytes stand, the least
/// significant one first: four of them in 32-bit code, eight in 64-bit code.
pub proof fn law_pointer_hits_show_places(memory: MemoryView, arch: TargetArch, target: Address)
    requires
        forall|i: int|
            0 <= i < memory.regions.len() ==> (#[trigger] memory.regions[i]).bytes.len()
                <= usize::MAX,
    ensures
        arch == TargetArch::X86_64 ==> show_places(
            memory,
            bytes::le_bytes(target.0 as int, 8),
            EvidenceValueView::Pointer { target },
            pointer_hits(memory, arch, target),
        ),
        arch == TargetArch::X86 && target.0 < 0x1_0000_0000 ==> show_places(
            memory,
            bytes::le_bytes(target.0 as int, 4),
            EvidenceValueView::Pointer { target },
            pointer_hits(memory, arch, target),
        ),
        arch == TargetArch::X86 && target.0 >= 0x1_0000_0000 ==> pointer_hits(memory, arch, target)
            == Seq::<EvidenceHitView>::empty(),
{
    let needle = bytes::le_bytes(target.0 as int, arch.pointer_width() as nat);
    assert(needle.len() == arch.pointer_width()) by {
        reveal_with_fuel(bytes::le_bytes, 9);
    }
    let report = |region: MemoryRegionView, offset: usize|
        pointer_hit(memory, arch, region, target)(offset);
    assert forall|region: MemoryRegionView| #[trigger]
        pointer_hits_in(memory, arch, target)(region) == if region.is_readable() {
            find::occurrences(region.bytes, needle, 0).map_values(
                |offset: usize| report(region, offset),
            )
        } else {
            Seq::empty()
        } by {
        assert(pointer_hit(memory, arch, region, target) =~= (|offset: usize|
            report(region, offset)));
    }
    lemma_show_places(
        memory,
        needle,
        EvidenceValueView::Pointer { target },
        "scan_pointers_to"@,
        |address: Address| pointer_hints(target, address),
        pointer_hits_in(memory, arch, target),
        report,
    );
}

/// What the reports of scans advise: to read the bytes there or what they point to, to look
/// for what refers to a text, and to compare with the code and data of the file.
pub proof fn law_scans_advise(
    memory: MemoryView,
    arch: TargetArch,
    pattern: AobPatternView,
    needle: Seq<char>,
    target: Address,
    hit: EvidenceHitView,
)
    ensures
        byte_hits(memory, pattern).contains(hit) ==> hit.label == "scan_bytes"@
            && hit.next_tools.len() == 2 && hits::advises(
            hit,
            0,
            "mem_read"@,
            hit.address.0 as int,
        ) && hits::advises(hit, 1, "ghydra.memory_disassemble"@, hit.address.0 as int),
        string_hits(memory, needle).contains(hit) ==> hit.label == "scan_string"@
            && hit.next_tools.len() == 3 && hits::advises(
            hit,
            0,
            "scan_pointers_to"@,
            hit.address.0 as int,
        ) && hits::advises(hit, 1, "mem_read"@, hit.address.0 as int) && hits::advises(
            hit,
            2,
            "ghydra.functions_decompile"@,
            hit.address.0 as int,
        ),
        pointer_hits(memory, arch, target).contains(hit) ==> hit.label == "scan_pointers_to"@
            && hit.next_tools.len() == 2 && hits::advises(hit, 0, "mem_read"@, target.0 as int)
            && hits::advises(hit, 1, "ghydra.data_list"@, hit.address.0 as int),
{
    let regions = memory.regions;
    if byte_hits(memory, pattern).contains(hit) {
        let f = byte_hits_in(memory, pattern);
        seqs::lemma_flat_map_contains(regions, f, hit);
        let i = choose|i: int| seqs::gives(regions, f, i, hit);
        let k = f(regions[i]).index_of(hit);
        let places = aob::aob_matches(regions[i].bytes, pattern);
        assert(hit == byte_hit(memory, regions[i], pattern.bytes.len() as int)(places[k]));
    }
    if string_hits(memory, needle).contains(hit) {
        let f = string_hits_in(memory, needle);
        seqs::lemma_flat_map_contains(regions, f, hit);
        let i = choose|i: int| seqs::gives(regions, f, i, hit);
        let k = f(regions[i]).index_of(hit);
        let places = find::occurrences(regions[i].bytes, vstd::utf8::encode_utf8(needle), 0);
        assert(hit == string_hit(memory, regions[i], needle)(places[k]));
    }
    if pointer_hits(memory, arch, target).contains(hit) {
        let f = pointer_hits_in(memory, arch, target);
        seqs::lemma_flat_map_contains(regions, f, hit);
        let i = choose|i: int| seqs::gives(regions, f, i, hit);
        let k = f(regions[i]).index_of(hit);
        let places = find::occurrences(
            regions[i].bytes,
            bytes::le_bytes(target.0 as int, arch.pointer_width() as nat),
            0,
        );
        assert(hit == pointer_hit(memory, arch, regions[i], target)(places[k]));
    }
}

} // verus!
