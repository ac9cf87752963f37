//! Opcode dispatch tables: an index table of bytes into a jump table of pointers.

use vstd::prelude::*;

use crate::analysis;
use crate::bytes;
use crate::decode;
use crate::decode::{RuntimeInstruction, RuntimeInstructionView};
use crate::evidence::{Address, TargetArch};
use crate::memory::{ArgusEngine, MemoryView};
use crate::seqs;
use crate::text;

verus! {

/// What a table that a dispatcher refers to may be.
#[derive(Debug, Clone, PartialEq, Eq)]
pub struct DispatchTableCandidate {
    pub address: Address,
    pub kind: String,
    pub score: usize,
}

#[verifier::ext_equal]
pub struct DispatchTableCandidateView {
    pub address: Address,
    pub kind: Seq<char>,
    pub score: usize,
}

impl DeepView for DispatchTableCandidate {
    type V = DispatchTableCandidateView;

    open spec fn deep_view(&self) -> DispatchTableCandidateView {
        DispatchTableCandidateView { address: self.address, kind: self.kind@, score: self.score }
    }
}

/// Where one opcode leads.
#[derive(Debug, Clone, Copy, PartialEq, Eq, Structural)]
pub struct DispatchTableEntry {
    pub opcode: u16,
    pub opcode_value_location: Address,
    pub dispatch_index: u8,
    pub jump_slot: Option<Address>,
    pub stub: Option<Address>,
    pub handler: Option<Address>,
}

#[derive(Debug, Clone, PartialEq, Eq)]
pub struct DispatchTableEvidence {
    pub dispatcher: Address,
    pub index_table: Option<Address>,
    pub jump_table: Option<Address>,
    pub candidates: Vec<DispatchTableCandidate>,
    pub entries: Vec<DispatchTableEntry>,
}

#[verifier::ext_equal]
pub struct DispatchTableEvidenceView {
    pub dispatcher: Address,
    pub index_table: Option<Address>,
    pub jump_table: Option<Address>,
    pub candidates: Seq<DispatchTableCandidateView>,
    pub entries: Seq<DispatchTableEntry>,
}

impl DeepView for DispatchTableEvidence {
    type V = DispatchTableEvidenceView;

    open spec fn deep_view(&self) -> DispatchTableEvidenceView {
        DispatchTableEvidenceView {
            dispatcher: self.dispatcher,
            index_table: self.index_table,
            jump_table: self.jump_table,
            candidates: self.candidates.deep_view(),
            entries: self.entries@,
        }
    }
}

/// The address that the bytes from an offset on write, unless it lies in the
/// first 64 KiB.
pub open spec fn address_in(code: Seq<u8>, width: int) -> spec_fn(int) -> Seq<Address> {
    |at: int|
        {
            let value = bytes::le_value(code.subrange(at, at + width));
            if value >= 0x10000 {
                seq![Address(value as u64)]
            } else {
                Seq::empty()
            }
        }
}

/// The addresses that any `width` consecutive bytes write, in order of offsets.
pub open spec fn addresses_in(code: Seq<u8>, width: int) -> Seq<Address> {
    seqs::flat_below(code.len() - width + 1, address_in(code, width))
}

/// The addresses that an instruction may refer to: those of 32 bits, and in
/// 64-bit code those of 64 bits after them.
pub open spec fn immediate_addresses(code: Seq<u8>, pointer_width: int) -> Seq<Address> {
    seqs::distinct(
        addresses_in(code, 4) + (if pointer_width == 8 {
            addresses_in(code, 8)
        } else {
            Seq::empty()
        }),
    )
}

/// An address, where a region holds it.
pub open spec fn if_mapped(memory: MemoryView) -> spec_fn(Address) -> Seq<Address> {
    |address: Address|
        if memory.region_at(address) is Some {
            seq![address]
        } else {
            Seq::empty()
        }
}

/// The mapped addresses that an instruction may refer to.
pub open spec fn mapped_addresses(memory: MemoryView, pointer_width: int) -> spec_fn(
    RuntimeInstructionView,
) -> Seq<Address> {
    |instruction: RuntimeInstructionView|
        immediate_addresses(instruction.bytes, pointer_width).flat_map(if_mapped(memory))
}

/// The mapped addresses that some instructions may refer to.
pub open spec fn table_addresses(
    memory: MemoryView,
    arch: TargetArch,
    instructions: Seq<RuntimeInstructionView>,
) -> Seq<Address> {
    seqs::distinct(instructions.flat_map(mapped_addresses(memory, arch.pointer_width())))
}

/// How many entries of a table are looked at.
pub open spec fn sample_len(max_entries: int) -> int {
    if max_entries < 256 {
        max_entries
    } else {
        256
    }
}

/// Whether a sampled byte can be an index.
pub open spec fn is_index(sample: Seq<u8>, limit: int) -> spec_fn(int) -> bool {
    |i: int| sample[i] < limit
}

/// How many bytes at an address can be indices into a table.
pub open spec fn index_score(memory: MemoryView, address: Address, max_entries: int) -> nat {
    match memory.read_available(address, sample_len(max_entries)) {
        Some(sample) => seqs::count_below(
            sample.len() as int,
            is_index(sample, sample_len(max_entries)),
        ),
        None => 0,
    }
}

/// Whether a sampled pointer leads into an executable region.
pub open spec fn is_code_pointer(memory: MemoryView, sample: Seq<u8>, width: int) -> spec_fn(
    int,
) -> bool {
    |i: int|
        match memory.region_at(
            Address(bytes::le_value(sample.subrange(i * width, i * width + width)) as u64),
        ) {
            Some((region, _)) => region.flags.executable,
            None => false,
        }
}

/// How many pointers at an address lead into executable regions.
pub open spec fn jump_score(
    memory: MemoryView,
    arch: TargetArch,
    address: Address,
    max_entries: int,
) -> nat {
    let width = arch.pointer_width();
    match memory.read_available(address, sample_len(max_entries) * width) {
        Some(sample) => seqs::count_below(
            sample.len() as int / width,
            is_code_pointer(memory, sample, width),
        ),
        None => 0,
    }
}

/// What the table at an address may be.
pub open spec fn candidates_at(memory: MemoryView, arch: TargetArch, max_entries: int) -> spec_fn(
    Address,
) -> Seq<DispatchTableCandidateView> {
    |address: Address|
        {
            let index = index_score(memory, address, max_entries);
            let jump = jump_score(memory, arch, address, max_entries);
            (if index > 0 {
                seq![
                    DispatchTableCandidateView {
                        address,
                        kind: "index_table"@,
                        score: index as usize,
                    },
                ]
            } else {
                Seq::empty()
            }) + (if jump > 0 {
                seq![
                    DispatchTableCandidateView {
                        address,
                        kind: "jump_table"@,
                        score: jump as usize,
                    },
                ]
            } else {
                Seq::empty()
            })
        }
}

/// The last of the candidates of a kind with the highest score.
pub open spec fn best_candidate(
    candidates: Seq<DispatchTableCandidateView>,
    kind: Seq<char>,
) -> Option<DispatchTableCandidateView>
    decreases candidates.len(),
{
    if candidates.len() == 0 {
        None
    } else {
        let before = best_candidate(candidates.drop_last(), kind);
        let last = candidates.last();
        if last.kind == kind && match before {
            Some(best) => best.score <= last.score,
            None => true,
        } {
            Some(last)
        } else {
            before
        }
    }
}

/// The best candidate is one of its kind, none of which scores higher, and there
/// is one wherever there is a candidate of the kind.
pub proof fn law_best_candidate(candidates: Seq<DispatchTableCandidateView>, kind: Seq<char>)
    ensures
        match best_candidate(candidates, kind) {
            Some(best) => best.kind == kind && candidates.contains(best) && forall|i: int|
                0 <= i < candidates.len() && (#[trigger] candidates[i]).kind == kind
                    ==> candidates[i].score <= best.score,
            None => forall|i: int|
                0 <= i < candidates.len() ==> (#[trigger] candidates[i]).kind != kind,
        },
    decreases candidates.len(),
{
    if candidates.len() > 0 {
        let shorter = candidates.drop_last();
        law_best_candidate(shorter, kind);
        assert(candidates =~= shorter.push(candidates.last()));
        match best_candidate(shorter, kind) {
            Some(best) => {
                let k = shorter.index_of(best);
                assert(candidates[k] == best);
            },
            None => {},
        }
        assert(candidates[candidates.len() - 1] == candidates.last());
    }
}

/// Whether an instruction jumps or calls to a known target.
pub open spec fn is_transfer() -> spec_fn(RuntimeInstructionView) -> bool {
    |instruction: RuntimeInstructionView|
        (text::starts_with(instruction.text, "jmp"@) || text::starts_with(
            instruction.text,
            "call"@,
        )) && instruction.call_target is Some
}

/// Where the first jump or call to a known target goes.
pub open spec fn handler_of(instructions: Seq<RuntimeInstructionView>) -> Option<Address> {
    match seqs::first_from(instructions, 0, is_transfer()) {
        Some(i) => instructions[i].call_target,
        None => None,
    }
}

/// Where the first jump or call to a known target goes.
pub fn transfer_handler(instructions: &Vec<RuntimeInstruction>) -> (handler: Option<Address>)
    ensures
        handler == handler_of(instructions.deep_view()),
{
    let ghost all = instructions.deep_view();
    let ghost wanted = is_transfer();
    let mut i: usize = 0;
    while i < instructions.len()
        invariant
            i <= instructions.len(),
            all == instructions.deep_view(),
            wanted == is_transfer(),
            seqs::first_from(all, 0, wanted) == seqs::first_from(all, i as int, wanted),
        decreases instructions.len() - i,
    {
        let instruction = &instructions[i];
        proof {
            assert(instruction.deep_view() == all[i as int]);
        }
        if instruction.call_target.is_some() && (text::has_prefix(&instruction.text, "jmp")
            || text::has_prefix(&instruction.text, "call")) {
            return instruction.call_target;
        }
        i += 1;
    }
    None
}

/// Where one opcode leads, where the index table has an entry for it.
pub open spec fn entry_at(
    memory: MemoryView,
    arch: TargetArch,
    index_table: Address,
    jump_table: Address,
) -> spec_fn(int) -> Seq<DispatchTableEntry> {
    |opcode: int|
        {
            let location = index_table.plus(opcode);
            match memory.read(location, 1) {
                Some(found) => {
                    let jump_slot = jump_table.plus(found[0] * arch.pointer_width());
                    let stub = memory.read_pointer(arch, jump_slot);
                    seq![
                        DispatchTableEntry {
                            opcode: opcode as u16,
                            opcode_value_location: location,
                            dispatch_index: found[0],
                            jump_slot: Some(jump_slot),
                            stub,
                            handler: match stub {
                                Some(stub) => handler_of(
                                    decode::disassembly(memory, arch, stub, 8),
                                ),
                                None => None,
                            },
                        },
                    ]
                },
                None => Seq::empty(),
            }
        }
}

/// How many opcodes a table can have.
pub open spec fn opcode_count(max_entries: int) -> int {
    if max_entries < 0x10000 {
        max_entries
    } else {
        0x10000
    }
}

/// A table that was given, else the best candidate of its kind.
pub open spec fn chosen_table(
    given: Option<Address>,
    candidates: Seq<DispatchTableCandidateView>,
    kind: Seq<char>,
) -> Option<Address> {
    match given {
        Some(address) => Some(address),
        None => match best_candidate(candidates, kind) {
            Some(best) => Some(best.address),
            None => None,
        },
    }
}

/// The tables of a dispatcher, given its disassembly.
pub open spec fn tables_of(
    memory: MemoryView,
    arch: TargetArch,
    dispatcher: Address,
    instructions: Seq<RuntimeInstructionView>,
    max_entries: int,
    index_table: Option<Address>,
    jump_table: Option<Address>,
) -> DispatchTableEvidenceView {
    let candidates = table_addresses(memory, arch, instructions).flat_map(
        candidates_at(memory, arch, max_entries),
    );
    let index_table = chosen_table(index_table, candidates, "index_table"@);
    let jump_table = chosen_table(jump_table, candidates, "jump_table"@);
    DispatchTableEvidenceView {
        dispatcher,
        index_table,
        jump_table,
        candidates,
        entries: match (index_table, jump_table) {
            (Some(index), Some(jump)) => seqs::flat_below(
                opcode_count(max_entries),
                entry_at(memory, arch, index, jump),
            ),
            _ => Seq::empty(),
        },
    }
}

/// Adds an address, unless the list holds it already.
fn push_new(addresses: &mut Vec<Address>, address: Address)
    ensures
        final(addresses)@ == seqs::with_new(old(addresses)@, address),
{
    if !analysis::holds_address(addresses, address) {
        addresses.push(address);
    }
}

/// The addresses that an instruction may refer to.
pub fn immediate_address_candidates(code: &[u8], pointer_width: usize) -> (addresses: Vec<Address>)
    ensures
        addresses@ == immediate_addresses(code@, pointer_width as int),
{
    let mut addresses: Vec<Address> = Vec::new();
    let ghost f = address_in(code@, 4);
    let ghost g = address_in(code@, 8);
    let len: usize = code.len();
    let mut at: usize = 0;
    while at < len && len - at >= 4
        invariant
            len == code@.len(),
            at <= len,
            f == address_in(code@, 4),
            at <= len - 4 + 1 || at == 0,
            addresses@ == seqs::distinct(seqs::flat_below(at as int, f)),
        decreases len - at,
    {
        let value: u64 = bytes::read_u32(code, at) as u64;
        let ghost front = seqs::flat_below(at as int, f);
        if value >= 0x10000 {
            push_new(&mut addresses, Address(value));
            proof {
                seqs::lemma_distinct_push(front, Address(value));
                assert(f(at as int) =~= seq![Address(value)]);
            }
        } else {
            proof {
                assert(front + f(at as int) =~= front);
            }
        }
        at += 1;
    }
    let ghost four = addresses_in(code@, 4);
    proof {
        assert(seqs::flat_below(at as int, f) == four);
        assert(four + Seq::<Address>::empty() =~= four);
    }
    if pointer_width == 8 {
        at = 0;
        while at < len && len - at >= 8
            invariant
                len == code@.len(),
                at <= len,
                g == address_in(code@, 8),
                at <= len - 8 + 1 || at == 0,
                addresses@ == seqs::distinct(four + seqs::flat_below(at as int, g)),
            decreases len - at,
        {
            let value: u64 = bytes::read_u64(code, at);
            let ghost front = four + seqs::flat_below(at as int, g);
            proof {
                assert(four + seqs::flat_below(at + 1, g) =~= front + g(at as int));
            }
            if value >= 0x10000 {
                push_new(&mut addresses, Address(value));
                proof {
                    seqs::lemma_distinct_push(front, Address(value));
                    assert(g(at as int) =~= seq![Address(value)]);
                }
            } else {
                proof {
                    assert(front + g(at as int) =~= front);
                }
            }
            at += 1;
        }
        proof {
            assert(seqs::flat_below(at as int, g) == addresses_in(code@, 8));
        }
    }
    addresses
}

/// The last of the candidates of a kind with the highest score.
fn pick_table(candidates: &Vec<DispatchTableCandidate>, kind: &str) -> (best: Option<Address>)
    ensures
        best == chosen_table(None, candidates.deep_view(), kind@),
{
    let ghost all = candidates.deep_view();
    let mut best: Option<usize> = None;
    let mut i: usize = 0;
    while i < candidates.len()
        invariant
            i <= candidates.len(),
            all == candidates.deep_view(),
            match best {
                Some(k) => k < i && best_candidate(all.take(i as int), kind@) == Some(
                    all[k as int],
                ),
                None => best_candidate(all.take(i as int), kind@) is None,
            },
        decreases candidates.len() - i,
    {
        proof {
            assert(all.take(i + 1).drop_last() =~= all.take(i as int));
            assert(all.take(i + 1).last() == candidates@[i as int].deep_view());
        }
        if text::same_text(&candidates[i].kind, kind) {
            let better = match best {
                Some(k) => candidates[k].score <= candidates[i].score,
                None => true,
            };
            if better {
                best = Some(i);
            }
        }
        i += 1;
    }
    proof {
        assert(all.take(all.len() as int) =~= all);
    }
    match best {
        Some(k) => Some(candidates[k].address),
        None => None,
    }
}

impl ArgusEngine {
    /// How many bytes at an address can be indices into a table.
    pub fn score_index_table(&self, address: Address, max_entries: usize) -> (score: usize)
        ensures
            score == index_score(self.memory(), address, max_entries as int),
    {
        let limit: usize = if max_entries < 256 {
            max_entries
        } else {
            256
        };
        let sample = match self.read_available_bytes_at(address, limit) {
            Some(sample) => sample,
            None => {
                return 0;
            },
        };
        let ghost wanted = is_index(sample@, limit as int);
        let mut score: usize = 0;
        let mut i: usize = 0;
        while i < sample.len()
            invariant
                i <= sample.len(),
                wanted == is_index(sample@, limit as int),
                score <= i,
                score == seqs::count_below(i as int, wanted),
            decreases sample.len() - i,
        {
            if (sample[i] as usize) < limit {
                score += 1;
            }
            i += 1;
        }
        score
    }

    /// Whether a pointer leads into an executable region.
    fn leads_to_code(&self, value: u64) -> (code: bool)
        ensures
            code == (match self.memory().region_at(Address(value)) {
                Some((region, _)) => region.flags.executable,
                None => false,
            }),
    {
        match self.region_at(Address(value)) {
            Some((region, _)) => region.flags.executable,
            None => false,
        }
    }

    /// How many pointers at an address lead into executable regions.
    pub fn score_jump_table(&self, address: Address, max_entries: usize) -> (score: usize)
        ensures
            score == jump_score(self.memory(), self.arch(), address, max_entries as int),
    {
        let limit: usize = if max_entries < 256 {
            max_entries
        } else {
            256
        };
        let width: usize = self.pointer_width_bytes();
        proof {
            assert(width == 4 || width == 8);
            assert(limit * width <= 2048) by (nonlinear_arith)
                requires
                    limit <= 256,
                    width <= 8,
            ;
        }
        let sample = match self.read_available_bytes_at(address, limit * width) {
            Some(sample) => sample,
            None => {
                return 0;
            },
        };
        let ghost memory = self.memory();
        let ghost wanted = is_code_pointer(memory, sample@, width as int);
        let mut score: usize = 0;
        let mut at: usize = 0;
        let ghost mut i: int = 0;
        while sample.len() - at >= width
            invariant
                at <= sample.len(),
                width == 4 || width == 8,
                width == self.arch().pointer_width(),
                memory == self.memory(),
                wanted == is_code_pointer(memory, sample@, width as int),
                0 <= i,
                at == i * width,
                score <= at,
                score == seqs::count_below(i, wanted),
            decreases sample.len() - at,
        {
            let value: u64 = if width == 4 {
                bytes::read_u32(sample, at) as u64
            } else {
                bytes::read_u64(sample, at)
            };
            if self.leads_to_code(value) {
                score += 1;
            }
            proof {
                assert((i + 1) * width == i * width + width) by (nonlinear_arith);
                i = i + 1;
            }
            at += width;
        }
        proof {
            assert(i == sample@.len() as int / (width as int)) by (nonlinear_arith)
                requires
                    at == i * width,
                    at <= sample@.len(),
                    sample@.len() - at < width,
                    width > 0,
            ;
        }
        score
    }

    /// Where a dispatch stub goes.
    pub fn dispatch_stub_handler(&self, stub: Address) -> (handler: Option<Address>)
        ensures
            handler == handler_of(decode::disassembly(self.memory(), self.arch(), stub, 8)),
    {
        transfer_handler(&self.disasm_at(stub, 8))
    }

    /// The mapped addresses that some instructions may refer to.
    fn referred_addresses(&self, instructions: &Vec<RuntimeInstruction>) -> (addresses: Vec<
        Address,
    >)
        ensures
            addresses@ == table_addresses(self.memory(), self.arch(), instructions.deep_view()),
    {
        let ghost memory = self.memory();
        let ghost all = instructions.deep_view();
        let ghost f = mapped_addresses(memory, self.arch().pointer_width());
        let ghost h = if_mapped(memory);
        let mut addresses: Vec<Address> = Vec::new();
        let mut i: usize = 0;
        proof {
            seqs::lemma_flat_map_ends(all, f);
        }
        while i < instructions.len()
            invariant
                i <= instructions.len(),
                memory == self.memory(),
                all == instructions.deep_view(),
                f == mapped_addresses(memory, self.arch().pointer_width()),
                h == if_mapped(memory),
                addresses@ == seqs::distinct(all.take(i as int).flat_map(f)),
            decreases instructions.len() - i,
        {
            let ghost front = all.take(i as int).flat_map(f);
            let found = immediate_address_candidates(
                &instructions[i].bytes,
                self.pointer_width_bytes(),
            );
            proof {
                assert(instructions@[i as int].deep_view() == all[i as int]);
                seqs::lemma_flat_map_step(all, i as int, f);
                seqs::lemma_flat_map_ends(found@, h);
                assert(front + Seq::<Address>::empty() =~= front);
            }
            let mut j: usize = 0;
            while j < found.len()
                invariant
                    j <= found.len(),
                    memory == self.memory(),
                    h == if_mapped(memory),
                    addresses@ == seqs::distinct(front + found@.take(j as int).flat_map(h)),
                decreases found.len() - j,
            {
                let address = found[j];
                let ghost part = front + found@.take(j as int).flat_map(h);
                proof {
                    seqs::lemma_flat_map_step(found@, j as int, h);
                    assert(front + found@.take(j + 1).flat_map(h) =~= part + h(found@[j as int]));
                }
                if self.region_at(address).is_some() {
                    push_new(&mut addresses, address);
                    proof {
                        seqs::lemma_distinct_push(part, address);
                        assert(h(address) =~= seq![address]);
                    }
                } else {
                    proof {
                        assert(part + h(address) =~= part);
                    }
                }
                j += 1;
            }
            proof {
                seqs::lemma_flat_map_ends(found@, h);
            }
            i += 1;
        }
        proof {
            seqs::lemma_flat_map_ends(all, f);
        }
        addresses
    }

    /// What the tables at some addresses may be.
    fn table_candidates(&self, addresses: &Vec<Address>, max_entries: usize) -> (candidates: Vec<
        DispatchTableCandidate,
    >)
        ensures
            candidates.deep_view() == addresses@.flat_map(
                candidates_at(self.memory(), self.arch(), max_entries as int),
            ),
    {
        let ghost f = candidates_at(self.memory(), self.arch(), max_entries as int);
        let mut candidates: Vec<DispatchTableCandidate> = Vec::new();
        let mut i: usize = 0;
        proof {
            seqs::lemma_flat_map_ends(addresses@, f);
        }
        while i < addresses.len()
            invariant
                i <= addresses.len(),
                f == candidates_at(self.memory(), self.arch(), max_entries as int),
                candidates.deep_view() == addresses@.take(i as int).flat_map(f),
            decreases addresses.len() - i,
        {
            let address = addresses[i];
            let ghost before = candidates.deep_view();
            proof {
                seqs::lemma_flat_map_step(addresses@, i as int, f);
            }
            let index_score: usize = self.score_index_table(address, max_entries);
            if index_score > 0 {
                candidates.push(
                    DispatchTableCandidate {
                        address,
                        kind: "index_table".to_string(),
                        score: index_score,
                    },
                );
            }
            let jump_score: usize = self.score_jump_table(address, max_entries);
            if jump_score > 0 {
                candidates.push(
                    DispatchTableCandidate {
                        address,
                        kind: "jump_table".to_string(),
                        score: jump_score,
                    },
                );
            }
            proof {
                assert(candidates.deep_view() =~= before + f(address));
            }
            i += 1;
        }
        proof {
            seqs::lemma_flat_map_ends(addresses@, f);
        }
        candidates
    }

    /// Where the opcodes of a pair of tables lead.
    fn table_entries(&self, index_table: Address, jump_table: Address, max_entries: usize) -> (
        entries: Vec<DispatchTableEntry>)
        ensures
            entries@ == seqs::flat_below(
                opcode_count(max_entries as int),
                entry_at(self.memory(), self.arch(), index_table, jump_table),
            ),
    {
        let ghost f = entry_at(self.memory(), self.arch(), index_table, jump_table);
        let count: usize = if max_entries < 0x10000 {
            max_entries
        } else {
            0x10000
        };
        let width: u64 = self.pointer_width_bytes() as u64;
        let mut entries: Vec<DispatchTableEntry> = Vec::new();
        let mut opcode: usize = 0;
        while opcode < count
            invariant
                opcode <= count <= 0x10000,
                width == 4 || width == 8,
                width == self.arch().pointer_width(),
                f == entry_at(self.memory(), self.arch(), index_table, jump_table),
                entries@ == seqs::flat_below(opcode as int, f),
            decreases count - opcode,
        {
            let ghost before = entries@;
            let location = index_table.offset(opcode as u64);
            if let Some(found) = self.read_bytes_at(location, 1) {
                let dispatch_index: u8 = found[0];
                let step: u64 = if width == 4 {
                    dispatch_index as u64 * 4
                } else {
                    dispatch_index as u64 * 8
                };
                let jump_slot = jump_table.offset(step);
                let stub = self.read_pointer_at(jump_slot);
                let handler = match stub {
                    Some(stub) => self.dispatch_stub_handler(stub),
                    None => None,
                };
                entries.push(
                    DispatchTableEntry {
                        opcode: opcode as u16,
                        opcode_value_location: location,
                        dispatch_index,
                        jump_slot: Some(jump_slot),
                        stub,
                        handler,
                    },
                );
            }
            proof {
                assert(entries@ =~= before + f(opcode as int));
            }
            opcode += 1;
        }
        entries
    }

    /// The tables of a dispatcher, given its disassembly.
    pub fn dispatch_tables_of(
        &self,
        dispatcher: Address,
        instructions: &Vec<RuntimeInstruction>,
        max_entries: usize,
        index_table: Option<Address>,
        jump_table: Option<Address>,
    ) -> (evidence: DispatchTableEvidence)
        ensures
            evidence.deep_view() == tables_of(
                self.memory(),
                self.arch(),
                dispatcher,
                instructions.deep_view(),
                max_entries as int,
                index_table,
                jump_table,
            ),
    {
        let addresses = self.referred_addresses(instructions);
        let candidates = self.table_candidates(&addresses, max_entries);
        let index_table = match index_table {
            Some(address) => Some(address),
            None => pick_table(&candidates, "index_table"),
        };
        let jump_table = match jump_table {
            Some(address) => Some(address),
            None => pick_table(&candidates, "jump_table"),
        };
        let entries = match (index_table, jump_table) {
            (Some(index), Some(jump)) => self.table_entries(index, jump, max_entries),
            _ => Vec::new(),
        };
        DispatchTableEvidence { dispatcher, index_table, jump_table, candidates, entries }
    }

    /// Finds the tables of a dispatcher and where its opcodes lead.
    pub fn extract_dispatch_tables(
        &self,
        dispatcher: Address,
        max_insn: usize,
        max_entries: usize,
        index_table: Option<Address>,
        jump_table: Option<Address>,
    ) -> (evidence: DispatchTableEvidence)
        ensures
            evidence.deep_view() == tables_of(
                self.memory(),
                self.arch(),
                dispatcher,
                decode::disassembly(self.memory(), self.arch(), dispatcher, max_insn as int),
                max_entries as int,
                index_table,
                jump_table,
            ),
    {
        let instructions = self.disasm_at(dispatcher, max_insn);
        self.dispatch_tables_of(dispatcher, &instructions, max_entries, index_table, jump_table)
    }
}

/// The handler of a stub is where the first of its instructions goes whose text begins
/// with `jmp` or with `call` and whose target is known; without any there is none.
pub proof fn law_handler_is_first_transfer(instructions: Seq<RuntimeInstructionView>)
    ensures
        forall|k: int|
            0 <= k < instructions.len() && ("jmp"@.is_prefix_of(
                (#[trigger] instructions[k]).text,
            ) || "call"@.is_prefix_of(instructions[k].text)) && instructions[k].call_target is Some
                && (forall|j: int|
                0 <= j < k ==> !("jmp"@.is_prefix_of((#[trigger] instructions[j]).text)
                    || "call"@.is_prefix_of(instructions[j].text))
                    || instructions[j].call_target is None) ==> handler_of(instructions)
                == instructions[k].call_target,
        handler_of(instructions) is None <==> forall|k: int|
            0 <= k < instructions.len() ==> !("jmp"@.is_prefix_of(
                (#[trigger] instructions[k]).text,
            ) || "call"@.is_prefix_of(instructions[k].text)) || instructions[k].call_target is None,
{
    let wanted = is_transfer();
    seqs::lemma_first_from(instructions, 0, wanted);
    assert forall|k: int| 0 <= k < instructions.len() implies wanted(#[trigger] instructions[k])
        == (("jmp"@.is_prefix_of(instructions[k].text) || "call"@.is_prefix_of(
        instructions[k].text,
    )) && instructions[k].call_target is Some) by {
        text::law_starts_with(instructions[k].text, "jmp"@);
        text::law_starts_with(instructions[k].text, "call"@);
    }
}

/// Whether an entry tells where its opcode leads: the byte of the index table at the
/// opcode numbers a slot of the jump table, the pointer in the slot leads to the stub, and
/// the first eight instructions of the stub lead to the handler.
pub open spec fn leads(
    memory: MemoryView,
    arch: TargetArch,
    index_table: Address,
    jump_table: Address,
    entry: DispatchTableEntry,
) -> bool {
    let width: int = if arch == TargetArch::X86_64 {
        8
    } else {
        4
    };
    &&& entry.opcode_value_location.0 == (index_table.0 + entry.opcode) % 0x1_0000_0000_0000_0000
    &&& memory.read(entry.opcode_value_location, 1) == Some(seq![entry.dispatch_index])
    &&& entry.jump_slot matches Some(slot) && slot.0 == (jump_table.0 + width
        * entry.dispatch_index) % 0x1_0000_0000_0000_0000 && entry.stub == memory.read_pointer(
        arch,
        slot,
    )
    &&& match entry.stub {
        Some(stub) => entry.handler == handler_of(decode::disassembly(memory, arch, stub, 8)),
        None => entry.handler is None,
    }
}

/// The entries of a pair of tables tell where their opcodes lead. Each opcode below the
/// limit has one just where its byte of the index table can be read, and the opcodes
/// ascend.
pub proof fn law_entries_lead(
    memory: MemoryView,
    arch: TargetArch,
    dispatcher: Address,
    instructions: Seq<RuntimeInstructionView>,
    max_entries: int,
    index_table: Address,
    jump_table: Address,
)
    requires
        0 <= max_entries,
    ensures
        ({
            let found = tables_of(
                memory,
                arch,
                dispatcher,
                instructions,
                max_entries,
                Some(index_table),
                Some(jump_table),
            );
            let entries = found.entries;
            &&& found.dispatcher == dispatcher
            &&& found.index_table == Some(index_table)
            &&& found.jump_table == Some(jump_table)
            &&& forall|i: int|
                0 <= i < entries.len() ==> (#[trigger] entries[i]).opcode < max_entries && leads(
                    memory,
                    arch,
                    index_table,
                    jump_table,
                    entries[i],
                )
            &&& forall|i: int, j: int|
                0 <= i < j < entries.len() ==> (#[trigger] entries[i]).opcode < (
                #[trigger] entries[j]).opcode
            &&& forall|opcode: u16|
                opcode < max_entries && memory.read(
                    #[trigger] index_table.plus(opcode as int),
                    1,
                ) is Some ==> exists|i: int|
                    0 <= i < entries.len() && (#[trigger] entries[i]).opcode == opcode
        }),
{
    lemma_entries_lead(memory, arch, index_table, jump_table, opcode_count(max_entries));
}

proof fn lemma_entries_lead(
    memory: MemoryView,
    arch: TargetArch,
    index_table: Address,
    jump_table: Address,
    n: int,
)
    requires
        0 <= n <= 0x10000,
    ensures
        ({
            let entries = seqs::flat_below(n, entry_at(memory, arch, index_table, jump_table));
            &&& forall|i: int|
                0 <= i < entries.len() ==> (#[trigger] entries[i]).opcode < n && leads(
                    memory,
                    arch,
                    index_table,
                    jump_table,
                    entries[i],
                )
            &&& forall|i: int, j: int|
                0 <= i < j < entries.len() ==> (#[trigger] entries[i]).opcode < (
                #[trigger] entries[j]).opcode
            &&& forall|opcode: u16|
                opcode < n && memory.read(#[trigger] index_table.plus(opcode as int), 1) is Some
                    ==> exists|i: int|
                    0 <= i < entries.len() && (#[trigger] entries[i]).opcode == opcode
        }),
    decreases n,
{
    let f = entry_at(memory, arch, index_table, jump_table);
    if n > 0 {
        lemma_entries_lead(memory, arch, index_table, jump_table, n - 1);
        let head = seqs::flat_below(n - 1, f);
        let all = seqs::flat_below(n, f);
        let location = index_table.plus(n - 1);
        assert(all == head + f(n - 1));
        crate::memory::law_read_bytes(memory, location, 1);
        if let Some(found) = memory.read(location, 1) {
            assert(found =~= seq![found[0]]);
            assert(found[0] * arch.pointer_width() == arch.pointer_width() * found[0])
                by (nonlinear_arith);
            assert(all[head.len() as int].opcode == n - 1);
        }
        assert forall|i: int| 0 <= i < all.len() implies (#[trigger] all[i]).opcode < n && leads(
            memory,
            arch,
            index_table,
            jump_table,
            all[i],
        ) by {
            if i < head.len() {
                assert(all[i] == head[i]);
            }
        }
        assert forall|i: int, j: int| 0 <= i < j < all.len() implies (#[trigger] all[i]).opcode < (
        #[trigger] all[j]).opcode by {
            assert(all[i] == head[i]);
            if j < head.len() {
                assert(all[j] == head[j]);
            }
        }
        assert forall|opcode: u16|
            opcode < n && memory.read(
                #[trigger] index_table.plus(opcode as int),
                1,
            ) is Some implies exists|i: int|
            0 <= i < all.len() && (#[trigger] all[i]).opcode == opcode by {
            if opcode < n - 1 {
                let i = choose|i: int|
                    0 <= i < head.len() && (#[trigger] head[i]).opcode == opcode;
                assert(all[i] == head[i]);
            } else {
                assert(all[head.len() as int].opcode == opcode);
            }
        }
    }
}

/// Without a table that is given, the best candidate of its kind is taken; where one of the
/// two tables is missing there are no entries.
pub proof fn law_tables_chosen(
    memory: MemoryView,
    arch: TargetArch,
    dispatcher: Address,
    instructions: Seq<RuntimeInstructionView>,
    max_entries: int,
)
    ensures
        ({
            let found = tables_of(
                memory,
                arch,
                dispatcher,
                instructions,
                max_entries,
                None,
                None,
            );
            &&& match best_candidate(found.candidates, "index_table"@) {
                Some(best) => found.index_table == Some(best.address),
                None => found.index_table is None,
            }
            &&& match best_candidate(found.candidates, "jump_table"@) {
                Some(best) => found.jump_table == Some(best.address),
                None => found.jump_table is None,
            }
            &&& match (found.index_table, found.jump_table) {
                (Some(index), Some(jump)) => found == tables_of(
                    memory,
                    arch,
                    dispatcher,
                    instructions,
                    max_entries,
                    Some(index),
                    Some(jump),
                ),
                _ => found.entries.len() == 0,
            }
        }),
{
}

/// The addresses that an instruction may refer to are those that four consecutive bytes of
/// it write, in 64-bit code also those that eight write, from 64 KiB on, each once.
pub proof fn law_immediate_addresses(code: Seq<u8>, width: int, address: Address)
    requires
        width == 4 || width == 8,
    ensures
        immediate_addresses(code, width).no_duplicates(),
        immediate_addresses(code, width).contains(address) <==> address.0 >= 0x10000 && exists|
            at: int,
            n: int,
        |
            (n == 8 || (n == 4 && address.0 < 0x1_0000_0000)) && n <= width && 0 <= at
                <= code.len() - n && #[trigger] code.subrange(at, at + n) == bytes::le_bytes(
                address.0 as int,
                n as nat,
            ),
{
    let four = addresses_in(code, 4);
    let more = if width == 8 {
        addresses_in(code, 8)
    } else {
        Seq::empty()
    };
    seqs::law_distinct(four + more);
    lemma_addresses_in(code, 4, address);
    lemma_addresses_in(code, 8, address);
    assert(immediate_addresses(code, width).contains(address) <==> (four + more).contains(address));
    assert((four + more).contains(address) <==> four.contains(address) || more.contains(address))
        by {
        if four.contains(address) {
            let i = four.index_of(address);
            assert((four + more)[i] == address);
        }
        if more.contains(address) {
            let i = more.index_of(address);
            assert((four + more)[four.len() + i] == address);
        }
    }
    if four.contains(address) {
        let at = choose|at: int|
            0 <= at <= code.len() - 4 && #[trigger] code.subrange(at, at + 4) == bytes::le_bytes(
                address.0 as int,
                4,
            );
        assert(code.subrange(at, at + 4) == bytes::le_bytes(address.0 as int, 4));
    }
    if more.contains(address) {
        let at = choose|at: int|
            0 <= at <= code.len() - 8 && #[trigger] code.subrange(at, at + 8) == bytes::le_bytes(
                address.0 as int,
                8,
            );
        assert(code.subrange(at, at + 8) == bytes::le_bytes(address.0 as int, 8));
    }
}

proof fn lemma_addresses_in(code: Seq<u8>, n: int, address: Address)
    requires
        n == 4 || n == 8,
    ensures
        addresses_in(code, n).contains(address) <==> address.0 >= 0x10000 && (n == 8 || address.0
            < 0x1_0000_0000) && exists|at: int|
            0 <= at <= code.len() - n && #[trigger] code.subrange(at, at + n) == bytes::le_bytes(
                address.0 as int,
                n as nat,
            ),
{
    let f = address_in(code, n);
    seqs::lemma_flat_below_contains(code.len() - n + 1, f, address);
    assert(bytes::le_limit(4) == 0x1_0000_0000 && bytes::le_limit(8) == 0x1_0000_0000_0000_0000)
        by {
        reveal_with_fuel(bytes::le_limit, 9);
    }
    if addresses_in(code, n).contains(address) {
        let at = choose|at: int|
            0 <= at < code.len() - n + 1 && (#[trigger] f(at)).contains(address);
        let written = code.subrange(at, at + n);
        bytes::law_le_write_read(written);
        assert(f(at)[0] == address);
        assert(code.subrange(at, at + n) == bytes::le_bytes(address.0 as int, n as nat));
    }
    if address.0 >= 0x10000 && (n == 8 || address.0 < 0x1_0000_0000) && exists|at: int|
        0 <= at <= code.len() - n && #[trigger] code.subrange(at, at + n) == bytes::le_bytes(
            address.0 as int,
            n as nat,
        ) {
        let at = choose|at: int|
            0 <= at <= code.len() - n && #[trigger] code.subrange(at, at + n) == bytes::le_bytes(
                address.0 as int,
                n as nat,
            );
        let written = code.subrange(at, at + n);
        bytes::law_le_write_read(written);
        lemma_le_bytes_differ(bytes::le_value(written), address.0 as int, n as nat);
        assert(f(at) =~= seq![address]);
        assert(f(at)[0] == address);
    }
}

proof fn lemma_le_bytes_differ(a: int, b: int, n: nat)
    requires
        0 <= a < bytes::le_limit(n),
        0 <= b,
        bytes::le_bytes(a, n) == bytes::le_bytes(b, n),
        n == 4 || n == 8,
        b <= u64::MAX,
    ensures
        n == 8 || b < 0x1_0000_0000 ==> a == b,
{
    assert(bytes::le_limit(4) == 0x1_0000_0000 && bytes::le_limit(8) == 0x1_0000_0000_0000_0000)
        by {
        reveal_with_fuel(bytes::le_limit, 9);
    }
    bytes::law_le_read_write(a, n);
    if b < bytes::le_limit(n) {
        bytes::law_le_read_write(b, n);
    }
}

/// The index score of an address counts the bytes there, at most 256 and no more than there
/// are entries, that are below this number.
pub proof fn law_index_score(memory: MemoryView, address: Address, max_entries: int)
    requires
        0 <= max_entries,
    ensures
        ({
            let limit = if max_entries < 256 {
                max_entries
            } else {
                256
            };
            match memory.read_available(address, limit) {
                Some(sample) => index_score(memory, address, max_entries) == Set::new(
                    |i: int| 0 <= i < sample.len() && sample[i] < limit,
                ).len(),
                None => index_score(memory, address, max_entries) == 0,
            }
        }),
{
    let limit = sample_len(max_entries);
    if let Some(sample) = memory.read_available(address, limit) {
        let wanted = is_index(sample, limit);
        seqs::law_count_below(sample.len() as int, wanted);
        assert(Set::new(|i: int| 0 <= i < sample.len() && wanted(i)) =~= Set::new(
            |i: int| 0 <= i < sample.len() && sample[i] < limit,
        ));
    }
}

/// The jump score of an address counts the pointers there, at most 256 and no more than
/// there are entries, that lead into an executable region.
pub proof fn law_jump_score(
    memory: MemoryView,
    arch: TargetArch,
    address: Address,
    max_entries: int,
)
    requires
        0 <= max_entries,
    ensures
        ({
            let limit = if max_entries < 256 {
                max_entries
            } else {
                256
            };
            let width: int = if arch == TargetArch::X86_64 {
                8
            } else {
                4
            };
            match memory.read_available(address, limit * width) {
                Some(sample) => jump_score(memory, arch, address, max_entries) == Set::new(
                    |i: int|
                        0 <= i && (i + 1) * width <= sample.len() && (memory.region_at(
                            Address(
                                bytes::le_value(sample.subrange(i * width, (i + 1) * width)) as u64,
                            ),
                        ) matches Some((region, _)) && region.flags.executable),
                ).len(),
                None => jump_score(memory, arch, address, max_entries) == 0,
            }
        }),
{
    let limit = sample_len(max_entries);
    let width = arch.pointer_width();
    if let Some(sample) = memory.read_available(address, limit * width) {
        let wanted = is_code_pointer(memory, sample, width);
        let n = sample.len() as int / width;
        seqs::law_count_below(n, wanted);
        let all = Set::new(
            |i: int|
                0 <= i && (i + 1) * width <= sample.len() && (memory.region_at(
                    Address(bytes::le_value(sample.subrange(i * width, (i + 1) * width)) as u64),
                ) matches Some((region, _)) && region.flags.executable),
        );
        let counted = Set::new(|i: int| 0 <= i < n && wanted(i));
        assert forall|i: int| #[trigger] counted.contains(i) == all.contains(i) by {
            let len = sample.len() as int;
            assert((i + 1) * width == i * width + width) by (nonlinear_arith);
            assert(0 <= i ==> (i < len / width <==> (i + 1) * width <= len)) by (nonlinear_arith)
                requires
                    0 <= len,
                    width == 4 || width == 8,
            ;
        }
        assert(counted =~= all);
    }
}

/// The tables that a dispatcher may use stand at the addresses that lie in a region and
/// that one of its instructions may refer to. Such an address is a candidate for a kind of
/// table just where it scores as one, with this score.
pub proof fn law_candidates(
    memory: MemoryView,
    arch: TargetArch,
    dispatcher: Address,
    instructions: Seq<RuntimeInstructionView>,
    max_entries: int,
    index_table: Option<Address>,
    jump_table: Option<Address>,
    candidate: DispatchTableCandidateView,
)
    requires
        0 <= max_entries,
    ensures
        tables_of(
            memory,
            arch,
            dispatcher,
            instructions,
            max_entries,
            index_table,
            jump_table,
        ).candidates.contains(candidate) <==> {
            let index = index_score(memory, candidate.address, max_entries);
            let jump = jump_score(memory, arch, candidate.address, max_entries);
            &&& memory.region_at(candidate.address) is Some
            &&& exists|i: int|
                0 <= i < instructions.len() && immediate_addresses(
                    (#[trigger] instructions[i]).bytes,
                    if arch == TargetArch::X86_64 {
                        8
                    } else {
                        4
                    },
                ).contains(candidate.address)
            &&& (candidate.kind == "index_table"@ && index > 0 && candidate.score == index as usize)
                || (candidate.kind == "jump_table"@ && jump > 0 && candidate.score == jump as usize)
        },
{
    let address = candidate.address;
    let width = arch.pointer_width();
    let addresses = table_addresses(memory, arch, instructions);
    let f = candidates_at(memory, arch, max_entries);
    let g = mapped_addresses(memory, width);
    let h = if_mapped(memory);
    seqs::lemma_flat_map_contains(addresses, f, candidate);
    seqs::law_distinct(instructions.flat_map(g));
    seqs::lemma_flat_map_contains(instructions, g, address);
    assert(addresses.contains(address) <==> instructions.flat_map(g).contains(address));
    let found = addresses.flat_map(f);
    let at = f(address);
    let index = index_score(memory, address, max_entries);
    let jump = jump_score(memory, arch, address, max_entries);
    let fits = (candidate.kind == "index_table"@ && index > 0 && candidate.score == index as usize)
        || (candidate.kind == "jump_table"@ && jump > 0 && candidate.score == jump as usize);
    assert(at.contains(candidate) <==> fits) by {
        if fits {
            let first = at[0];
            let last = at[at.len() - 1];
            if candidate.kind == "index_table"@ && index > 0 && candidate.score == index as usize {
                assert(first == candidate);
            } else {
                assert(last == candidate);
            }
        }
    }
    if found.contains(candidate) {
        let i = choose|i: int| seqs::gives(addresses, f, i, candidate);
        assert(addresses[i] == address);
        assert(addresses.contains(address));
        let k = choose|k: int| seqs::gives(instructions, g, k, address);
        let written = immediate_addresses(instructions[k].bytes, width);
        seqs::lemma_flat_map_contains(written, h, address);
        let j = choose|j: int| seqs::gives(written, h, j, address);
        assert(h(written[j])[0] == address);
        assert(written.contains(written[j]));
        assert(immediate_addresses(instructions[k].bytes, width).contains(address));
    }
    if memory.region_at(address) is Some && (exists|i: int|
        0 <= i < instructions.len() && immediate_addresses(
            (#[trigger] instructions[i]).bytes,
            width,
        ).contains(address)) && fits {
        let k = choose|i: int|
            0 <= i < instructions.len() && immediate_addresses(
                (#[trigger] instructions[i]).bytes,
                width,
            ).contains(address);
        let written = immediate_addresses(instructions[k].bytes, width);
        let j = written.index_of(address);
        assert(h(written[j])[0] == address);
        assert(seqs::gives(written, h, j, address));
        seqs::lemma_flat_map_contains(written, h, address);
        assert(seqs::gives(instructions, g, k, address));
        let i = addresses.index_of(address);
        assert(seqs::gives(addresses, f, i, candidate));
    }
}

} // verus!
