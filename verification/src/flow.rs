//! What leads up to a call, who calls whom, and reports over several anchors.

use vstd::prelude::*;

use crate::analysis;
use crate::analysis::{AnalyzedFunction, AnalyzedFunctionView, X86CallSite, X86CallSiteView};
use crate::bytes;
use crate::decode;
use crate::decode::{RuntimeInstruction, RuntimeInstructionView};
use crate::evidence::{Address, TargetArch};
use crate::memory::{ArgusEngine, MemoryView};
use crate::seqs;
use crate::text;
use crate::transfer;

verus! {

/// A value that is pushed before a call.
#[derive(Debug, Clone, PartialEq, Eq)]
pub struct PushEvidence {
    pub instruction: RuntimeInstruction,
    pub value: u64,
    pub width_bits: u8,
    pub string: Option<String>,
    pub packet_name: Option<String>,
}

#[verifier::ext_equal]
pub struct PushEvidenceView {
    pub instruction: RuntimeInstructionView,
    pub value: u64,
    pub width_bits: u8,
    pub string: Option<Seq<char>>,
    pub packet_name: Option<Seq<char>>,
}

impl DeepView for PushEvidence {
    type V = PushEvidenceView;

    open spec fn deep_view(&self) -> PushEvidenceView {
        PushEvidenceView {
            instruction: self.instruction.deep_view(),
            value: self.value,
            width_bits: self.width_bits,
            string: self.string.deep_view(),
            packet_name: self.packet_name.deep_view(),
        }
    }
}

/// An ASCII letter, a digit or an underscore.
pub open spec fn is_name_char(c: char) -> bool {
    ||| '0' <= c <= '9'
    ||| 'a' <= c <= 'z'
    ||| 'A' <= c <= 'Z'
    ||| c == '_'
}

/// Whether a text names a packet: `C_` or `S_` and then letters, digits and
/// underscores, one at least.
pub open spec fn is_packet(name: Seq<char>) -> bool {
    &&& name.len() > 2
    &&& name[0] == 'C' || name[0] == 'S'
    &&& name[1] == '_'
    &&& forall|i: int| 2 <= i < name.len() ==> is_name_char(#[trigger] name[i])
}

/// Whether a text names a packet.
pub fn is_packet_name(name: &str) -> (packet: bool)
    ensures
        packet == is_packet(name@),
{
    let chars = text::chars_of(name);
    if chars.len() <= 2 || (chars[0] != 'C' && chars[0] != 'S') || chars[1] != '_' {
        return false;
    }
    let mut i: usize = 2;
    while i < chars.len()
        invariant
            2 <= i <= chars.len(),
            chars@ == name@,
            forall|j: int| 2 <= j < i ==> is_name_char(#[trigger] name@[j]),
        decreases chars.len() - i,
    {
        let c = chars[i];
        if !(('0' <= c && c <= '9') || ('a' <= c && c <= 'z') || ('A' <= c && c <= 'Z') || c
            == '_') {
            proof {
                assert(!is_name_char(name@[i as int]));
            }
            return false;
        }
        i += 1;
    }
    true
}

/// The value that an instruction pushes, and its width in bits.
pub open spec fn pushed_value(code: Seq<u8>) -> Option<(u64, u8)> {
    if code.len() >= 5 && code[0] == 0x68 {
        Some((transfer::le32_at(code, 1) as u64, 32u8))
    } else if code.len() >= 2 && code[0] == 0x6a {
        Some((code[1] as u64, 8u8))
    } else if code.len() >= 4 && code[0] == 0x66 && code[1] == 0x68 {
        Some((bytes::le_value(code.subrange(2, 4)) as u64, 16u8))
    } else {
        None
    }
}

/// What an instruction pushes; a 32-bit value may refer to a text.
pub open spec fn push_of(memory: MemoryView, instruction: RuntimeInstructionView) -> Option<
    PushEvidenceView,
> {
    match pushed_value(instruction.bytes) {
        Some((value, width_bits)) => {
            let string = if width_bits == 32 {
                decode::referred_string(memory, value)
            } else {
                None
            };
            Some(
                PushEvidenceView {
                    instruction,
                    value,
                    width_bits,
                    string,
                    packet_name: match string {
                        Some(name) => if is_packet(name) {
                            Some(name)
                        } else {
                            None
                        },
                        None => None,
                    },
                },
            )
        },
        None => None,
    }
}

/// What an instruction pushes, as a list of at most one.
pub open spec fn pushes_by(memory: MemoryView) -> spec_fn(RuntimeInstructionView) -> Seq<
    PushEvidenceView,
> {
    |instruction: RuntimeInstructionView| seqs::optional(push_of(memory, instruction))
}

/// An instruction, where it stands before an address.
pub open spec fn if_before(address: Address) -> spec_fn(RuntimeInstructionView) -> Seq<
    RuntimeInstructionView,
> {
    |instruction: RuntimeInstructionView|
        if instruction.address.0 < address.0 {
            seq![instruction]
        } else {
            Seq::empty()
        }
}

/// The last `n` items of a sequence.
pub open spec fn last_items<T>(s: Seq<T>, n: int) -> Seq<T> {
    if s.len() > n {
        s.skip(s.len() - n)
    } else {
        s
    }
}

/// The last `max` instructions that stand before an address.
pub open spec fn preceding(
    instructions: Seq<RuntimeInstructionView>,
    address: Address,
    max: int,
) -> Seq<RuntimeInstructionView> {
    last_items(instructions.flat_map(if_before(address)), max)
}

/// The last `max` instructions that stand before an address.
pub fn select_preceding(
    instructions: &Vec<RuntimeInstruction>,
    address: Address,
    max: usize,
) -> (selected: Vec<RuntimeInstruction>)
    ensures
        selected.deep_view() == preceding(instructions.deep_view(), address, max as int),
{
    let ghost all = instructions.deep_view();
    let ghost f = if_before(address);
    let mut before: Vec<RuntimeInstruction> = Vec::new();
    let mut i: usize = 0;
    proof {
        seqs::lemma_flat_map_ends(all, f);
    }
    while i < instructions.len()
        invariant
            i <= instructions.len(),
            all == instructions.deep_view(),
            f == if_before(address),
            before.deep_view() == all.take(i as int).flat_map(f),
        decreases instructions.len() - i,
    {
        let ghost start = before.deep_view();
        proof {
            assert(instructions@[i as int].deep_view() == all[i as int]);
            seqs::lemma_flat_map_step(all, i as int, f);
        }
        if instructions[i].address.0 < address.0 {
            before.push(instructions[i].clone());
        }
        i += 1;
        proof {
            assert(before.deep_view() =~= start + f(all[i - 1]));
        }
    }
    proof {
        seqs::lemma_flat_map_ends(all, f);
        assert(before.deep_view().len() == before@.len());
    }
    if before.len() > max {
        let keep_from: usize = before.len() - max;
        let ghost whole = before.deep_view();
        let selected = before.split_off(keep_from);
        proof {
            assert(selected.deep_view() =~= whole.skip(keep_from as int));
        }
        selected
    } else {
        before
    }
}

/// A call of a send function, and what leads up to it.
#[derive(Debug, Clone, PartialEq, Eq)]
pub struct SendCallSiteEvidence {
    pub call_site: X86CallSite,
    pub preceding_instructions: Vec<RuntimeInstruction>,
    pub pushes: Vec<PushEvidence>,
}

#[verifier::ext_equal]
pub struct SendCallSiteEvidenceView {
    pub call_site: X86CallSiteView,
    pub preceding_instructions: Seq<RuntimeInstructionView>,
    pub pushes: Seq<PushEvidenceView>,
}

impl DeepView for SendCallSiteEvidence {
    type V = SendCallSiteEvidenceView;

    open spec fn deep_view(&self) -> SendCallSiteEvidenceView {
        SendCallSiteEvidenceView {
            call_site: self.call_site.deep_view(),
            preceding_instructions: self.preceding_instructions.deep_view(),
            pushes: self.pushes.deep_view(),
        }
    }
}

/// Where the way to a call site begins: at its function's start, else
/// `backward` bytes before it or at its region's start.
pub open spec fn approach_start(
    memory: MemoryView,
    site: X86CallSiteView,
    backward: int,
) -> Address {
    match site.function_start {
        Some(start) => start,
        None => match memory.region_at(site.address) {
            Some((region, offset)) => region.base.plus(
                if offset < backward {
                    0
                } else {
                    offset - backward
                },
            ),
            None => site.address,
        },
    }
}

/// How many instructions are decoded on the way to a call site.
pub open spec fn approach_count(max: int) -> int {
    if max + 64 <= usize::MAX {
        max + 64
    } else {
        usize::MAX as int
    }
}

/// What leads up to a call site, given the disassembly of the way to it.
pub open spec fn send_evidence(
    memory: MemoryView,
    site: X86CallSiteView,
    approach: Seq<RuntimeInstructionView>,
    max: int,
) -> SendCallSiteEvidenceView {
    let before = preceding(approach, site.address, max);
    SendCallSiteEvidenceView {
        call_site: site,
        preceding_instructions: before,
        pushes: before.flat_map(pushes_by(memory)),
    }
}

/// What leads up to a call site.
pub open spec fn send_evidence_at(
    memory: MemoryView,
    arch: TargetArch,
    max: int,
    backward: int,
) -> spec_fn(X86CallSiteView) -> SendCallSiteEvidenceView {
    |site: X86CallSiteView|
        send_evidence(
            memory,
            site,
            decode::disassembly(
                memory,
                arch,
                approach_start(memory, site, backward),
                approach_count(max),
            ),
            max,
        )
}

impl ArgusEngine {
    /// What an instruction pushes.
    pub fn push_evidence(&self, instruction: &RuntimeInstruction) -> (push: Option<PushEvidence>)
        ensures
            push.deep_view() == push_of(self.memory(), instruction.deep_view()),
    {
        let code = instruction.bytes.as_slice();
        let value: u64;
        let width_bits: u8;
        if code.len() >= 5 && code[0] == 0x68 {
            value = bytes::read_u32(code, 1) as u64;
            width_bits = 32;
        } else if code.len() >= 2 && code[0] == 0x6a {
            value = code[1] as u64;
            width_bits = 8;
        } else if code.len() >= 4 && code[0] == 0x66 && code[1] == 0x68 {
            value = bytes::read_u16(code, 2) as u64;
            width_bits = 16;
        } else {
            return None;
        }
        let string = if width_bits == 32 {
            self.string_at(value)
        } else {
            None
        };
        let packet_name = match &string {
            Some(name) => {
                if is_packet_name(name) {
                    Some(name.clone())
                } else {
                    None
                }
            },
            None => None,
        };
        Some(
            PushEvidence {
                instruction: instruction.clone(),
                value,
                width_bits,
                string,
                packet_name,
            },
        )
    }

    /// What leads up to a call site, given the disassembly of the way to it.
    pub fn approach_evidence(
        &self,
        call_site: X86CallSite,
        approach: &Vec<RuntimeInstruction>,
        max: usize,
    ) -> (evidence: SendCallSiteEvidence)
        ensures
            evidence.deep_view() == send_evidence(
                self.memory(),
                call_site.deep_view(),
                approach.deep_view(),
                max as int,
            ),
    {
        let before = select_preceding(approach, call_site.address, max);
        let ghost all = before.deep_view();
        let ghost f = pushes_by(self.memory());
        let mut pushes: Vec<PushEvidence> = Vec::new();
        let mut i: usize = 0;
        proof {
            seqs::lemma_flat_map_ends(all, f);
        }
        while i < before.len()
            invariant
                i <= before.len(),
                all == before.deep_view(),
                f == pushes_by(self.memory()),
                pushes.deep_view() == all.take(i as int).flat_map(f),
            decreases before.len() - i,
        {
            let ghost start = pushes.deep_view();
            proof {
                assert(before@[i as int].deep_view() == all[i as int]);
                seqs::lemma_flat_map_step(all, i as int, f);
            }
            if let Some(push) = self.push_evidence(&before[i]) {
                pushes.push(push);
            }
            i += 1;
            proof {
                assert(pushes.deep_view() =~= start + f(all[i - 1]));
            }
        }
        proof {
            seqs::lemma_flat_map_ends(all, f);
        }
        SendCallSiteEvidence { call_site, preceding_instructions: before, pushes }
    }

    /// Where the way to a call site begins.
    fn approach_from(&self, site: &X86CallSite, backward: usize) -> (start: Address)
        ensures
            start == approach_start(self.memory(), site.deep_view(), backward as int),
    {
        match site.function_start {
            Some(start) => start,
            None => match self.region_at(site.address) {
                Some((region, offset)) => {
                    let from: usize = if offset < backward {
                        0
                    } else {
                        offset - backward
                    };
                    region.base.offset(from as u64)
                },
                None => site.address,
            },
        }
    }

    /// The call sites of a send function, and what leads up to each.
    pub fn analyze_send_call_sites(
        &self,
        target: Address,
        max_results: usize,
        max_preceding_instructions: usize,
        backward_bytes: usize,
    ) -> (evidence: Vec<SendCallSiteEvidence>)
        ensures
            evidence.deep_view() == analysis::call_sites(
                self.memory(),
                self.arch(),
                target,
                max_results as int,
            ).map_values(
                send_evidence_at(
                    self.memory(),
                    self.arch(),
                    max_preceding_instructions as int,
                    backward_bytes as int,
                ),
            ),
    {
        let ghost f = send_evidence_at(
            self.memory(),
            self.arch(),
            max_preceding_instructions as int,
            backward_bytes as int,
        );
        let sites = self.scan_x86_call_sites(target, max_results);
        let ghost all = sites.deep_view();
        let count: usize = max_preceding_instructions.saturating_add(64);
        let mut evidence: Vec<SendCallSiteEvidence> = Vec::new();
        let mut i: usize = 0;
        proof {
            assert(evidence.deep_view() =~= all.take(0).map_values(f));
        }
        while i < sites.len()
            invariant
                i <= sites.len(),
                all == sites.deep_view(),
                count == approach_count(max_preceding_instructions as int),
                f == send_evidence_at(
                    self.memory(),
                    self.arch(),
                    max_preceding_instructions as int,
                    backward_bytes as int,
                ),
                evidence.deep_view() == all.take(i as int).map_values(f),
            decreases sites.len() - i,
        {
            let ghost before = evidence.deep_view();
            let site = sites[i].clone();
            proof {
                assert(site.deep_view() == all[i as int]);
            }
            let start = self.approach_from(&site, backward_bytes);
            let approach = self.disasm_at(start, count);
            let found = self.approach_evidence(site, &approach, max_preceding_instructions);
            proof {
                assert(found.deep_view() == f(all[i as int]));
            }
            evidence.push(found);
            i += 1;
            proof {
                assert(evidence.deep_view() =~= before.push(f(all[i - 1])));
                assert(all.take(i as int).map_values(f) =~= before.push(f(all[i - 1])));
            }
        }
        proof {
            assert(all.take(all.len() as int) =~= all);
        }
        evidence
    }
}

/// One function in a chain of callers.
#[derive(Debug, Clone, PartialEq, Eq)]
pub struct CallChainNode {
    pub depth: usize,
    pub target: Address,
    pub callers: Vec<X86CallSite>,
}

#[verifier::ext_equal]
pub struct CallChainNodeView {
    pub depth: usize,
    pub target: Address,
    pub callers: Seq<X86CallSiteView>,
}

impl DeepView for CallChainNode {
    type V = CallChainNodeView;

    open spec fn deep_view(&self) -> CallChainNodeView {
        CallChainNodeView {
            depth: self.depth,
            target: self.target,
            callers: self.callers.deep_view(),
        }
    }
}

/// The functions that call sites stand in, each where it first occurs, without
/// those seen before.
pub open spec fn fresh_starts(sites: Seq<X86CallSiteView>, seen: Seq<Address>) -> Seq<Address>
    decreases sites.len(),
{
    if sites.len() == 0 {
        Seq::empty()
    } else {
        let before = fresh_starts(sites.drop_last(), seen);
        match sites.last().function_start {
            Some(start) => if seen.contains(start) || before.contains(start) {
                before
            } else {
                before.push(start)
            },
            None => before,
        }
    }
}

/// What one level of a call chain gives.
#[verifier::ext_equal]
pub struct ChainLevel {
    pub nodes: Seq<CallChainNodeView>,
    /// The functions that have been reached so far.
    pub seen: Seq<Address>,
    /// Those among them that this level has reached.
    pub next: Seq<Address>,
}

/// One level of a call chain: a node for each function of the frontier, in order.
pub open spec fn chain_level(
    memory: MemoryView,
    arch: TargetArch,
    max_callers: int,
    depth: int,
    frontier: Seq<Address>,
    seen: Seq<Address>,
) -> ChainLevel
    decreases frontier.len(),
{
    if frontier.len() == 0 {
        ChainLevel { nodes: Seq::empty(), seen, next: Seq::empty() }
    } else {
        let before = chain_level(memory, arch, max_callers, depth, frontier.drop_last(), seen);
        let target = frontier.last();
        let callers = analysis::call_sites(memory, arch, target, max_callers);
        let fresh = fresh_starts(callers, before.seen);
        ChainLevel {
            nodes: before.nodes.push(CallChainNodeView { depth: depth as usize, target, callers }),
            seen: before.seen + fresh,
            next: before.next + fresh,
        }
    }
}

/// The levels of a call chain from `depth` on, until the limit or until a level
/// reaches nothing new.
pub open spec fn chain_from(
    memory: MemoryView,
    arch: TargetArch,
    max_callers: int,
    depth: int,
    max_depth: int,
    frontier: Seq<Address>,
    seen: Seq<Address>,
) -> Seq<CallChainNodeView>
    decreases max_depth - depth,
{
    if depth >= max_depth {
        Seq::empty()
    } else {
        let level = chain_level(memory, arch, max_callers, depth, frontier, seen);
        if level.next.len() == 0 {
            level.nodes
        } else {
            level.nodes + chain_from(
                memory,
                arch,
                max_callers,
                depth + 1,
                max_depth,
                level.next,
                level.seen,
            )
        }
    }
}

/// The chain of callers of a target.
pub open spec fn call_chain(
    memory: MemoryView,
    arch: TargetArch,
    target: Address,
    max_depth: int,
    max_callers: int,
) -> Seq<CallChainNodeView> {
    chain_from(memory, arch, max_callers, 0, max_depth, seq![target], seq![target])
}

proof fn lemma_fresh_starts(sites: Seq<X86CallSiteView>, seen: Seq<Address>)
    ensures
        fresh_starts(sites, seen).no_duplicates(),
        forall|a: Address| #[trigger]
            fresh_starts(sites, seen).contains(a) ==> !seen.contains(a),
    decreases sites.len(),
{
    if sites.len() > 0 {
        lemma_fresh_starts(sites.drop_last(), seen);
        let before = fresh_starts(sites.drop_last(), seen);
        let all = fresh_starts(sites, seen);
        assert forall|a: Address| #[trigger] all.contains(a) implies !seen.contains(a) by {
            let i = all.index_of(a);
            if i < before.len() {
                assert(before.contains(before[i]));
            }
        }
    }
}

/// The targets of some nodes.
pub open spec fn targets_of(nodes: Seq<CallChainNodeView>) -> Seq<Address> {
    nodes.map_values(|node: CallChainNodeView| node.target)
}

proof fn lemma_chain_level(
    memory: MemoryView,
    arch: TargetArch,
    max_callers: int,
    depth: int,
    frontier: Seq<Address>,
    seen: Seq<Address>,
)
    requires
        seen.no_duplicates(),
    ensures
        ({
            let level = chain_level(memory, arch, max_callers, depth, frontier, seen);
            &&& targets_of(level.nodes) == frontier
            &&& level.seen == seen + level.next
            &&& level.seen.no_duplicates()
        }),
    decreases frontier.len(),
{
    let level = chain_level(memory, arch, max_callers, depth, frontier, seen);
    if frontier.len() == 0 {
        assert(targets_of(level.nodes) =~= frontier);
        assert(level.seen =~= seen + level.next);
    } else {
        lemma_chain_level(memory, arch, max_callers, depth, frontier.drop_last(), seen);
        let before = chain_level(memory, arch, max_callers, depth, frontier.drop_last(), seen);
        let callers = analysis::call_sites(memory, arch, frontier.last(), max_callers);
        let fresh = fresh_starts(callers, before.seen);
        lemma_fresh_starts(callers, before.seen);
        assert(targets_of(level.nodes) =~= targets_of(before.nodes).push(frontier.last()));
        assert(frontier =~= frontier.drop_last().push(frontier.last()));
        assert(level.seen =~= seen + level.next);
        assert forall|i: int, j: int|
            0 <= i < level.seen.len() && 0 <= j < level.seen.len() && i
                != j implies level.seen[i] != level.seen[j] by {
            let n = before.seen.len();
            if i < n && j >= n {
                assert(fresh.contains(fresh[j - n]));
                assert(before.seen.contains(before.seen[i]));
            } else if i >= n && j < n {
                assert(fresh.contains(fresh[i - n]));
                assert(before.seen.contains(before.seen[j]));
            }
        }
    }
}

/// The targets of the levels from a frontier on are in the frontier or were not
/// seen before, each once.
proof fn lemma_chain_from(
    memory: MemoryView,
    arch: TargetArch,
    max_callers: int,
    depth: int,
    max_depth: int,
    older: Seq<Address>,
    frontier: Seq<Address>,
)
    requires
        (older + frontier).no_duplicates(),
    ensures
        (older + targets_of(
            chain_from(
                memory,
                arch,
                max_callers,
                depth,
                max_depth,
                frontier,
                older + frontier,
            ),
        )).no_duplicates(),
    decreases max_depth - depth,
{
    let seen = older + frontier;
    let nodes = chain_from(memory, arch, max_callers, depth, max_depth, frontier, seen);
    if depth >= max_depth {
        assert(older + targets_of(nodes) =~= older);
        assert forall|i: int, j: int|
            0 <= i < older.len() && 0 <= j < older.len() && i != j implies older[i] != older[j] by {
            assert(seen[i] == older[i]);
            assert(seen[j] == older[j]);
        }
    } else {
        lemma_chain_level(memory, arch, max_callers, depth, frontier, seen);
        let level = chain_level(memory, arch, max_callers, depth, frontier, seen);
        if level.next.len() > 0 {
            lemma_chain_from(
                memory,
                arch,
                max_callers,
                depth + 1,
                max_depth,
                seen,
                level.next,
            );
            let rest = chain_from(
                memory,
                arch,
                max_callers,
                depth + 1,
                max_depth,
                level.next,
                level.seen,
            );
            assert(targets_of(nodes) =~= targets_of(level.nodes) + targets_of(rest));
            assert(older + targets_of(nodes) =~= seen + targets_of(rest));
        }
    }
}

/// No function occurs twice in a chain of callers, so the chain ends even where
/// functions call each other in turn.
pub proof fn law_call_chain_targets_unique(
    memory: MemoryView,
    arch: TargetArch,
    target: Address,
    max_depth: int,
    max_callers: int,
)
    ensures
        targets_of(call_chain(memory, arch, target, max_depth, max_callers)).no_duplicates(),
{
    let none = Seq::<Address>::empty();
    assert(none + seq![target] =~= seq![target]);
    lemma_chain_from(memory, arch, max_callers, 0, max_depth, none, seq![target]);
    let chain = call_chain(memory, arch, target, max_depth, max_callers);
    assert(none + targets_of(chain) =~= targets_of(chain));
}

/// Whether some call sites stand in a function that starts at an address.
pub open spec fn stand_in(sites: Seq<X86CallSiteView>, start: Address) -> bool {
    exists|k: int|
        0 <= k < sites.len() && (#[trigger] sites[k]).function_start == Some(start)
}

/// Whether a function is among the callers of some node one level below a depth.
pub open spec fn called_up(nodes: Seq<CallChainNodeView>, start: Address, depth: int) -> bool {
    exists|j: int|
        0 <= j < nodes.len() && (#[trigger] nodes[j]).depth + 1 == depth && stand_in(
            nodes[j].callers,
            start,
        )
}

proof fn lemma_fresh_exact(sites: Seq<X86CallSiteView>, seen: Seq<Address>)
    ensures
        forall|a: Address| #[trigger]
            fresh_starts(sites, seen).contains(a) ==> stand_in(sites, a),
        forall|a: Address| #[trigger]
            stand_in(sites, a) ==> seen.contains(a) || fresh_starts(sites, seen).contains(a),
    decreases sites.len(),
{
    if sites.len() > 0 {
        let front = sites.drop_last();
        let before = fresh_starts(front, seen);
        let all = fresh_starts(sites, seen);
        lemma_fresh_exact(front, seen);
        assert forall|a: Address| #[trigger] all.contains(a) implies stand_in(sites, a) by {
            let i = all.index_of(a);
            if i < before.len() {
                assert(before.contains(before[i]));
                let k = choose|k: int|
                    0 <= k < front.len() && (#[trigger] front[k]).function_start == Some(a);
                assert(sites[k] == front[k]);
            } else {
                assert(sites[sites.len() - 1].function_start == Some(a));
            }
        }
        assert forall|a: Address| #[trigger] stand_in(sites, a) implies seen.contains(a)
            || all.contains(a) by {
            let k = choose|k: int|
                0 <= k < sites.len() && (#[trigger] sites[k]).function_start == Some(a);
            if k < front.len() {
                assert(front[k] == sites[k]);
                assert(stand_in(front, a));
                if before.contains(a) {
                    assert(all[before.index_of(a)] == a);
                }
            } else if before.contains(a) {
                assert(all[before.index_of(a)] == a);
            } else if !seen.contains(a) {
                assert(all[before.len() as int] == a);
            }
        }
    }
}

/// A level has a node for each function of the frontier; what it reaches next is
/// called from one of them, and what they are called from has been seen.
proof fn lemma_level_exact(
    memory: MemoryView,
    arch: TargetArch,
    max_callers: int,
    depth: int,
    frontier: Seq<Address>,
    seen: Seq<Address>,
)
    requires
        0 <= depth <= usize::MAX,
    ensures
        ({
            let level = chain_level(memory, arch, max_callers, depth, frontier, seen);
            &&& level.nodes.len() == frontier.len()
            &&& level.seen == seen + level.next
            &&& forall|i: int|
                0 <= i < level.nodes.len() ==> (#[trigger] level.nodes[i]).depth == depth
                    && level.nodes[i].target == frontier[i] && level.nodes[i].callers
                    == analysis::call_sites(memory, arch, frontier[i], max_callers)
            &&& forall|a: Address| #[trigger]
                level.next.contains(a) ==> called_up(level.nodes, a, depth + 1)
            &&& forall|i: int, a: Address|
                0 <= i < level.nodes.len() && #[trigger] stand_in(level.nodes[i].callers, a)
                    ==> level.seen.contains(a)
        }),
    decreases frontier.len(),
{
    let level = chain_level(memory, arch, max_callers, depth, frontier, seen);
    if frontier.len() == 0 {
        assert(level.seen =~= seen + level.next);
    } else {
        let front = frontier.drop_last();
        lemma_level_exact(memory, arch, max_callers, depth, front, seen);
        let before = chain_level(memory, arch, max_callers, depth, front, seen);
        let callers = analysis::call_sites(memory, arch, frontier.last(), max_callers);
        let fresh = fresh_starts(callers, before.seen);
        let n = front.len() as int;
        lemma_fresh_exact(callers, before.seen);
        assert(level.seen =~= seen + level.next);
        assert(forall|i: int| 0 <= i < n ==> level.nodes[i] == before.nodes[i]);
        assert forall|a: Address| #[trigger] level.next.contains(a) implies called_up(
            level.nodes,
            a,
            depth + 1,
        ) by {
            let k = level.next.index_of(a);
            if k < before.next.len() {
                assert(before.next.contains(before.next[k]));
                let j = choose|j: int|
                    0 <= j < before.nodes.len() && (#[trigger] before.nodes[j]).depth + 1 == depth
                        + 1 && stand_in(before.nodes[j].callers, a);
                assert(level.nodes[j] == before.nodes[j]);
            } else {
                assert(fresh.contains(fresh[k - before.next.len()]));
                assert(level.nodes[n].callers == callers);
            }
        }
        assert forall|i: int, a: Address|
            0 <= i < level.nodes.len() && #[trigger] stand_in(
                level.nodes[i].callers,
                a,
            ) implies level.seen.contains(a) by {
            if i < n {
                assert(stand_in(before.nodes[i].callers, a));
                assert(level.seen[before.seen.index_of(a)] == a);
            } else if before.seen.contains(a) {
                assert(level.seen[before.seen.index_of(a)] == a);
            } else {
                assert(level.seen[before.seen.len() + fresh.index_of(a)] == a);
            }
        }
    }
}

/// What holds of the levels of a chain from a depth on, where `older` was reached
/// before the frontier.
spec fn is_chain(
    memory: MemoryView,
    arch: TargetArch,
    max_callers: int,
    depth: int,
    max_depth: int,
    older: Seq<Address>,
    frontier: Seq<Address>,
    nodes: Seq<CallChainNodeView>,
) -> bool {
    // Each function of the frontier has a node, and the first one is the first.
    &&& depth < max_depth ==> nodes.len() >= frontier.len()
    &&& forall|i: int|
        0 <= i < frontier.len() && i < nodes.len() ==> (#[trigger] nodes[i]).target == frontier[i]
            && nodes[i].depth == depth
    // Depths do not decrease and stay below the limit, and callers are complete.
    &&& forall|i: int|
        0 <= i < nodes.len() ==> depth <= (#[trigger] nodes[i]).depth < max_depth
            && nodes[i].callers == analysis::call_sites(memory, arch, nodes[i].target, max_callers)
    &&& forall|i: int, j: int|
        0 <= i < j < nodes.len() ==> (#[trigger] nodes[i]).depth <= (#[trigger] nodes[j]).depth
    // Behind the frontier, each function is called from one level below.
    &&& forall|i: int|
        frontier.len() <= i < nodes.len() ==> called_up(
            nodes,
            (#[trigger] nodes[i]).target,
            nodes[i].depth as int,
        )
    // What is called from has a node, unless the limit is reached.
    &&& forall|i: int, a: Address|
        0 <= i < nodes.len() && nodes[i].depth + 1 < max_depth && #[trigger] stand_in(
            nodes[i].callers,
            a,
        ) ==> older.contains(a) || targets_of(nodes).contains(a)
}

#[verifier::rlimit(40)]
#[verifier::spinoff_prover]
proof fn lemma_is_chain(
    memory: MemoryView,
    arch: TargetArch,
    max_callers: int,
    depth: int,
    max_depth: int,
    older: Seq<Address>,
    frontier: Seq<Address>,
)
    requires
        0 <= depth,
        max_depth <= usize::MAX,
    ensures
        is_chain(
            memory,
            arch,
            max_callers,
            depth,
            max_depth,
            older,
            frontier,
            chain_from(
                memory,
                arch,
                max_callers,
                depth,
                max_depth,
                frontier,
                older + frontier,
            ),
        ),
    decreases max_depth - depth,
{
    let seen = older + frontier;
    let nodes = chain_from(memory, arch, max_callers, depth, max_depth, frontier, seen);
    if depth < max_depth {
        let level = chain_level(memory, arch, max_callers, depth, frontier, seen);
        lemma_level_exact(memory, arch, max_callers, depth, frontier, seen);
        let next = level.next;
        let rest = if next.len() == 0 {
            Seq::empty()
        } else {
            chain_from(memory, arch, max_callers, depth + 1, max_depth, next, level.seen)
        };
        if next.len() > 0 {
            lemma_is_chain(memory, arch, max_callers, depth + 1, max_depth, seen, next);
        }
        assert(nodes =~= level.nodes + rest);
        let n = frontier.len() as int;
        assert(forall|i: int| 0 <= i < n ==> nodes[i] == level.nodes[i]);
        assert(forall|i: int| n <= i < nodes.len() ==> nodes[i] == rest[i - n]);
        assert forall|i: int| n <= i < nodes.len() implies called_up(
            nodes,
            (#[trigger] nodes[i]).target,
            nodes[i].depth as int,
        ) by {
            let a = rest[i - n].target;
            if i - n < next.len() {
                assert(next.contains(next[i - n]));
                let j = choose|j: int|
                    0 <= j < level.nodes.len() && (#[trigger] level.nodes[j]).depth + 1 == depth
                        + 1 && stand_in(level.nodes[j].callers, a);
                assert(nodes[j] == level.nodes[j]);
            } else {
                let j = choose|j: int|
                    0 <= j < rest.len() && (#[trigger] rest[j]).depth + 1 == rest[i - n].depth
                        && stand_in(rest[j].callers, a);
                assert(nodes[n + j] == rest[j]);
            }
        }
        assert forall|i: int, a: Address|
            0 <= i < nodes.len() && nodes[i].depth + 1 < max_depth && #[trigger] stand_in(
                nodes[i].callers,
                a,
            ) implies older.contains(a) || targets_of(nodes).contains(a) by {
            if i < n {
                assert(stand_in(level.nodes[i].callers, a));
                let k = level.seen.index_of(a);
                if k < older.len() {
                    assert(older[k] == a);
                } else if k < seen.len() {
                    assert(targets_of(nodes)[k - older.len()] == a);
                } else {
                    let m = k - seen.len();
                    assert(next[m] == a);
                    assert(rest[m].target == a);
                    assert(targets_of(nodes)[n + m] == a);
                }
            } else {
                assert(stand_in(rest[i - n].callers, a));
                if targets_of(rest).contains(a) {
                    let m = targets_of(rest).index_of(a);
                    assert(targets_of(nodes)[n + m] == a);
                } else {
                    let k = seen.index_of(a);
                    if k < older.len() {
                        assert(older[k] == a);
                    } else {
                        assert(targets_of(nodes)[k - older.len()] == a);
                    }
                }
            }
        }
    }
}

/// A chain of callers is empty only where no depth is allowed. It starts with the
/// target at depth zero; depths do not decrease and stay below the limit; each node
/// lists the call sites of its target. Each target behind the first is the start of a
/// function among the callers one level up the chain, and each such start below the
/// limit is the target of a node.
pub proof fn law_call_chain_exact(
    memory: MemoryView,
    arch: TargetArch,
    target: Address,
    max_depth: usize,
    max_callers: int,
)
    ensures
        ({
            let chain = call_chain(memory, arch, target, max_depth as int, max_callers);
            &&& chain.len() == 0 <==> max_depth == 0
            &&& max_depth > 0 ==> chain[0].depth == 0 && chain[0].target == target
            &&& forall|i: int|
                0 <= i < chain.len() ==> (#[trigger] chain[i]).depth < max_depth
                    && chain[i].callers == analysis::call_sites(
                    memory,
                    arch,
                    chain[i].target,
                    max_callers,
                )
            &&& forall|i: int, j: int|
                0 <= i < j < chain.len() ==> (#[trigger] chain[i]).depth <= (
                #[trigger] chain[j]).depth
            &&& forall|i: int|
                0 < i < chain.len() ==> called_up(
                    chain,
                    (#[trigger] chain[i]).target,
                    chain[i].depth as int,
                )
            &&& forall|i: int, start: Address|
                0 <= i < chain.len() && chain[i].depth + 1 < max_depth && #[trigger] stand_in(
                    chain[i].callers,
                    start,
                ) ==> targets_of(chain).contains(start)
        }),
{
    let none = Seq::<Address>::empty();
    assert(none + seq![target] =~= seq![target]);
    lemma_is_chain(memory, arch, max_callers, 0, max_depth as int, none, seq![target]);
}

/// Appends the functions that call sites stand in and that have not been seen.
fn push_fresh_starts(
    sites: &Vec<X86CallSite>,
    seen: &mut Vec<Address>,
    next: &mut Vec<Address>,
)
    ensures
        final(seen)@ == old(seen)@ + fresh_starts(sites.deep_view(), old(seen)@),
        final(next)@ == old(next)@ + fresh_starts(sites.deep_view(), old(seen)@),
{
    let ghost all = sites.deep_view();
    let ghost seen_before = seen@;
    let ghost next_before = next@;
    let mut i: usize = 0;
    proof {
        assert(seen@ =~= seen_before + fresh_starts(all.take(0), seen_before));
        assert(next@ =~= next_before + fresh_starts(all.take(0), seen_before));
    }
    while i < sites.len()
        invariant
            i <= sites.len(),
            all == sites.deep_view(),
            seen@ == seen_before + fresh_starts(all.take(i as int), seen_before),
            next@ == next_before + fresh_starts(all.take(i as int), seen_before),
        decreases sites.len() - i,
    {
        let ghost fresh = fresh_starts(all.take(i as int), seen_before);
        proof {
            assert(all.take(i + 1).drop_last() =~= all.take(i as int));
            assert(all.take(i + 1).last() == sites@[i as int].deep_view());
        }
        if let Some(start) = sites[i].function_start {
            proof {
                assert(seen@.contains(start) <==> seen_before.contains(start) || fresh.contains(
                    start,
                )) by {
                    if seen_before.contains(start) {
                        let k = seen_before.index_of(start);
                        assert(seen@[k] == start);
                    }
                    if fresh.contains(start) {
                        let k = fresh.index_of(start);
                        assert(seen@[seen_before.len() + k] == start);
                    }
                    if seen@.contains(start) {
                        let k = seen@.index_of(start);
                        if k < seen_before.len() {
                            assert(seen_before[k] == start);
                        } else {
                            assert(fresh[k - seen_before.len()] == start);
                        }
                    }
                }
            }
            if !analysis::holds_address(seen, start) {
                seen.push(start);
                next.push(start);
                proof {
                    assert(seen@ =~= seen_before + fresh.push(start));
                    assert(next@ =~= next_before + fresh.push(start));
                }
            }
        }
        i += 1;
    }
    proof {
        assert(all.take(all.len() as int) =~= all);
    }
}

impl ArgusEngine {
    /// The functions that call a target, those that call them, and so on.
    pub fn trace_call_chain(
        &self,
        target: Address,
        max_depth: usize,
        max_callers_per_depth: usize,
    ) -> (nodes: Vec<CallChainNode>)
        ensures
            nodes.deep_view() == call_chain(
                self.memory(),
                self.arch(),
                target,
                max_depth as int,
                max_callers_per_depth as int,
            ),
    {
        let ghost memory = self.memory();
        let ghost arch = self.arch();
        let ghost max = max_callers_per_depth as int;
        let ghost whole = call_chain(memory, arch, target, max_depth as int, max);
        let mut nodes: Vec<CallChainNode> = Vec::new();
        let mut frontier: Vec<Address> = vec![target];
        let mut seen: Vec<Address> = vec![target];
        let mut depth: usize = 0;
        let mut exhausted = false;
        proof {
            assert(frontier@ =~= seq![target]);
            assert(seen@ =~= seq![target]);
            assert(nodes.deep_view() + whole =~= whole);
        }
        while depth < max_depth && !exhausted
            invariant
                memory == self.memory(),
                arch == self.arch(),
                max == max_callers_per_depth,
                depth <= max_depth,
                exhausted ==> nodes.deep_view() == whole,
                !exhausted ==> nodes.deep_view() + chain_from(
                    memory,
                    arch,
                    max,
                    depth as int,
                    max_depth as int,
                    frontier@,
                    seen@,
                ) == whole,
            decreases max_depth - depth,
        {
            let ghost level = chain_level(memory, arch, max, depth as int, frontier@, seen@);
            let ghost nodes_before = nodes.deep_view();
            let ghost seen_before = seen@;
            let mut next_frontier: Vec<Address> = Vec::new();
            let mut i: usize = 0;
            proof {
                assert(nodes_before + Seq::<CallChainNodeView>::empty() =~= nodes_before);
            }
            while i < frontier.len()
                invariant
                    i <= frontier.len(),
                    memory == self.memory(),
                    arch == self.arch(),
                    max == max_callers_per_depth,
                    ({
                        let part = chain_level(
                            memory,
                            arch,
                            max,
                            depth as int,
                            frontier@.take(i as int),
                            seen_before,
                        );
                        &&& nodes.deep_view() == nodes_before + part.nodes
                        &&& seen@ == part.seen
                        &&& next_frontier@ == part.next
                    }),
                decreases frontier.len() - i,
            {
                let ghost part = chain_level(
                    memory,
                    arch,
                    max,
                    depth as int,
                    frontier@.take(i as int),
                    seen_before,
                );
                let caller_of = frontier[i];
                proof {
                    assert(frontier@.take(i + 1).drop_last() =~= frontier@.take(i as int));
                    assert(frontier@.take(i + 1).last() == caller_of);
                }
                let callers = self.scan_x86_call_sites(caller_of, max_callers_per_depth);
                push_fresh_starts(&callers, &mut seen, &mut next_frontier);
                let node = CallChainNode { depth, target: caller_of, callers };
                let ghost before = nodes.deep_view();
                let ghost added = node.deep_view();
                nodes.push(node);
                proof {
                    assert(nodes.deep_view() =~= before.push(added));
                    assert(nodes_before + part.nodes.push(added) =~= (nodes_before
                        + part.nodes).push(added));
                }
                i += 1;
            }
            proof {
                assert(frontier@.take(frontier@.len() as int) =~= frontier@);
                let rest = chain_from(
                    memory,
                    arch,
                    max,
                    depth + 1,
                    max_depth as int,
                    level.next,
                    level.seen,
                );
                assert(nodes_before + (level.nodes + rest) =~= (nodes_before + level.nodes) + rest);
            }
            if next_frontier.len() == 0 {
                exhausted = true;
            }
            frontier = next_frontier;
            depth += 1;
        }
        proof {
            if !exhausted {
                assert(nodes.deep_view() + Seq::<CallChainNodeView>::empty() =~= nodes.deep_view());
            }
        }
        nodes
    }
}

/// What is known of one anchor.
#[derive(Debug, Clone, PartialEq, Eq)]
pub struct PacketFlowAnchor {
    pub name: String,
    pub address: Address,
    pub function: Option<AnalyzedFunction>,
    pub callers: Vec<X86CallSite>,
}

#[verifier::ext_equal]
pub struct PacketFlowAnchorView {
    pub name: Seq<char>,
    pub address: Address,
    pub function: Option<AnalyzedFunctionView>,
    pub callers: Seq<X86CallSiteView>,
}

impl DeepView for PacketFlowAnchor {
    type V = PacketFlowAnchorView;

    open spec fn deep_view(&self) -> PacketFlowAnchorView {
        PacketFlowAnchorView {
            name: self.name@,
            address: self.address,
            function: self.function.deep_view(),
            callers: self.callers.deep_view(),
        }
    }
}

#[derive(Debug, Clone, PartialEq, Eq)]
pub struct PacketFlowReport {
    pub anchors: Vec<PacketFlowAnchor>,
}

/// What is known of one anchor.
pub open spec fn anchor_of(
    memory: MemoryView,
    arch: TargetArch,
    max_callers: int,
    max_insn: int,
) -> spec_fn((Seq<char>, Address)) -> PacketFlowAnchorView {
    |anchor: (Seq<char>, Address)|
        PacketFlowAnchorView {
            name: anchor.0,
            address: anchor.1,
            function: analysis::function_of(
                anchor.1,
                decode::function_body(memory, arch, anchor.1, max_insn),
            ),
            callers: analysis::call_sites(memory, arch, anchor.1, max_callers),
        }
}

impl ArgusEngine {
    /// The function and the callers of each of several named addresses.
    pub fn packet_flow_report(
        &self,
        anchors: Vec<(String, Address)>,
        max_callers_per_anchor: usize,
        max_insn: usize,
    ) -> (report: PacketFlowReport)
        ensures
            report.anchors.deep_view() == anchors.deep_view().map_values(
                anchor_of(
                    self.memory(),
                    self.arch(),
                    max_callers_per_anchor as int,
                    max_insn as int,
                ),
            ),
    {
        let ghost f = anchor_of(
            self.memory(),
            self.arch(),
            max_callers_per_anchor as int,
            max_insn as int,
        );
        let ghost all = anchors.deep_view();
        let mut known: Vec<PacketFlowAnchor> = Vec::new();
        let mut i: usize = 0;
        proof {
            assert(known.deep_view() =~= all.take(0).map_values(f));
        }
        while i < anchors.len()
            invariant
                i <= anchors.len(),
                all == anchors.deep_view(),
                f == anchor_of(
                    self.memory(),
                    self.arch(),
                    max_callers_per_anchor as int,
                    max_insn as int,
                ),
                known.deep_view() == all.take(i as int).map_values(f),
            decreases anchors.len() - i,
        {
            let ghost before = known.deep_view();
            let address = anchors[i].1;
            let anchor = PacketFlowAnchor {
                name: anchors[i].0.clone(),
                address,
                function: self.analyze_function(address, max_insn),
                callers: self.scan_x86_call_sites(address, max_callers_per_anchor),
            };
            proof {
                assert(all[i as int] == anchors@[i as int].deep_view());
                assert(anchor.deep_view() == f(all[i as int]));
            }
            known.push(anchor);
            i += 1;
            proof {
                assert(known.deep_view() =~= before.push(f(all[i - 1])));
                assert(all.take(i as int).map_values(f) =~= before.push(f(all[i - 1])));
            }
        }
        proof {
            assert(all.take(all.len() as int) =~= all);
        }
        PacketFlowReport { anchors: known }
    }
}

proof fn lemma_if_before_filters(instructions: Seq<RuntimeInstructionView>, address: Address)
    ensures
        instructions.flat_map(if_before(address)) == instructions.filter(
            |instruction: RuntimeInstructionView| instruction.address.0 < address.0,
        ),
    decreases instructions.len(),
{
    reveal(Seq::filter);
    let f = if_before(address);
    seqs::lemma_flat_map_ends(instructions, f);
    if instructions.len() > 0 {
        let front = instructions.drop_last();
        let k = instructions.len() - 1;
        lemma_if_before_filters(front, address);
        seqs::lemma_flat_map_step(instructions, k, f);
        assert(instructions.take(k) =~= front);
        let head = front.flat_map(f);
        assert(head + seq![instructions[k]] =~= head.push(instructions[k]));
        assert(head + Seq::<RuntimeInstructionView>::empty() =~= head);
    } else {
        assert(instructions.take(0) =~= instructions);
        assert(instructions =~= Seq::<RuntimeInstructionView>::empty());
    }
}

/// The instructions that are selected before an address are the nearest ones: those at
/// the end of what stands before it, as many as there are up to the limit.
pub proof fn law_preceding_are_nearest(
    instructions: Seq<RuntimeInstructionView>,
    address: Address,
    max: int,
)
    requires
        0 <= max,
    ensures
        ({
            let before = instructions.filter(
                |instruction: RuntimeInstructionView| instruction.address.0 < address.0,
            );
            let selected = preceding(instructions, address, max);
            &&& selected.is_suffix_of(before)
            &&& selected.len() == if before.len() < max {
                before.len() as int
            } else {
                max
            }
            &&& max > 0 && before.len() > 0 ==> selected.last() == before.last()
        }),
{
    lemma_if_before_filters(instructions, address);
}

/// A `push` of an immediate value gives this value and its width: of 32 bits behind `68`,
/// of 8 bits behind `6a`, of 16 bits behind `66 68`. Nothing else is a push. The text that
/// a 32-bit value refers to is given, as the name of a packet too where it is one.
pub proof fn law_push_of(memory: MemoryView, instruction: RuntimeInstructionView)
    ensures
        ({
            let code = instruction.bytes;
            let wide = code.len() >= 5 && code[0] == 0x68;
            let narrow = code.len() >= 2 && code[0] == 0x6a;
            let short = code.len() >= 4 && code[0] == 0x66 && code[1] == 0x68;
            match push_of(memory, instruction) {
                Some(push) => {
                    &&& push.instruction == instruction
                    &&& wide || narrow || short
                    &&& wide ==> push.width_bits == 32 && push.value == code[1] + 0x100 * code[2]
                        + 0x1_0000 * code[3] + 0x100_0000 * code[4]
                    &&& narrow ==> push.width_bits == 8 && push.value == code[1]
                    &&& short ==> push.width_bits == 16 && push.value == code[2] + 0x100 * code[3]
                    &&& push.string == if wide {
                        decode::pushed_string(memory, code)
                    } else {
                        None
                    }
                    &&& match push.string {
                        Some(name) => push.packet_name == if is_packet(name) {
                            Some(name)
                        } else {
                            None
                        },
                        None => push.packet_name is None,
                    }
                },
                None => !wide && !narrow && !short,
            }
        }),
{
    let code = instruction.bytes;
    if code.len() >= 5 {
        bytes::lemma_le_value_4(code.subrange(1, 5));
    }
    if code.len() >= 4 {
        bytes::lemma_le_value_2(code.subrange(2, 4));
    }
}

/// The name of a packet is `C_` or `S_` with something behind it, all of it letters,
/// digits and underscores.
pub proof fn law_is_packet(name: Seq<char>)
    ensures
        is_packet(name) <==> name.len() > 2 && ("C_"@.is_prefix_of(name) || "S_"@.is_prefix_of(
            name,
        )) && forall|i: int|
            2 <= i < name.len() ==> {
                let c = #[trigger] name[i];
                c == '_' || '0' <= c <= '9' || 'A' <= c <= 'Z' || 'a' <= c <= 'z'
            },
{
    reveal_strlit("C_");
    reveal_strlit("S_");
    if name.len() >= 2 {
        let front = name.subrange(0, 2);
        assert(front[0] == name[0] && front[1] == name[1]);
        assert("C_"@.is_prefix_of(name) == (name[0] == 'C' && name[1] == '_')) by {
            if name[0] == 'C' && name[1] == '_' {
                assert("C_"@ =~= front);
            }
        }
        assert("S_"@.is_prefix_of(name) == (name[0] == 'S' && name[1] == '_')) by {
            if name[0] == 'S' && name[1] == '_' {
                assert("S_"@ =~= front);
            }
        }
    }
}

/// The pushes before a call site are those of the selected instructions that push a value,
/// in their order.
pub proof fn law_send_pushes(
    memory: MemoryView,
    site: X86CallSiteView,
    approach: Seq<RuntimeInstructionView>,
    max: int,
)
    ensures
        ({
            let evidence = send_evidence(memory, site, approach, max);
            &&& evidence.call_site == site
            &&& evidence.preceding_instructions == preceding(approach, site.address, max)
            &&& evidence.pushes.map_values(|push: PushEvidenceView| push.instruction)
                == evidence.preceding_instructions.filter(
                |instruction: RuntimeInstructionView| push_of(memory, instruction) is Some,
            )
            &&& forall|i: int|
                0 <= i < evidence.pushes.len() ==> push_of(
                    memory,
                    (#[trigger] evidence.pushes[i]).instruction,
                ) == Some(evidence.pushes[i])
        }),
{
    lemma_pushes(memory, preceding(approach, site.address, max));
}

proof fn lemma_pushes(memory: MemoryView, instructions: Seq<RuntimeInstructionView>)
    ensures
        ({
            let pushes = instructions.flat_map(pushes_by(memory));
            &&& pushes.map_values(|push: PushEvidenceView| push.instruction) == instructions.filter(
                |instruction: RuntimeInstructionView| push_of(memory, instruction) is Some,
            )
            &&& forall|i: int|
                0 <= i < pushes.len() ==> push_of(memory, (#[trigger] pushes[i]).instruction)
                    == Some(pushes[i])
        }),
    decreases instructions.len(),
{
    reveal(Seq::filter);
    let f = pushes_by(memory);
    let plain = |push: PushEvidenceView| push.instruction;
    seqs::lemma_flat_map_ends(instructions, f);
    if instructions.len() > 0 {
        let front = instructions.drop_last();
        let k = instructions.len() - 1;
        lemma_pushes(memory, front);
        seqs::lemma_flat_map_step(instructions, k, f);
        assert(instructions.take(k) =~= front);
        let head = front.flat_map(f);
        let all = instructions.flat_map(f);
        assert(all == head + f(instructions[k]));
        match push_of(memory, instructions[k]) {
            Some(push) => {
                assert(push.instruction == instructions[k]);
                assert(all.map_values(plain) =~= head.map_values(plain).push(instructions[k]));
            },
            None => {
                assert(all =~= head);
            },
        }
        assert forall|i: int| 0 <= i < all.len() implies push_of(
            memory,
            (#[trigger] all[i]).instruction,
        ) == Some(all[i]) by {
            if i < head.len() {
                assert(all[i] == head[i]);
            }
        }
    } else {
        assert(instructions.take(0) =~= instructions);
        assert(instructions.flat_map(f).map_values(plain) =~= instructions);
    }
}

/// The way to a call site begins where its function does; where that is not known, the
/// asked number of bytes before it, or at the base of its region if that is nearer.
pub proof fn law_approach_start(memory: MemoryView, site: X86CallSiteView, backward: int)
    requires
        0 <= backward,
    ensures
        ({
            let start = approach_start(memory, site, backward);
            match site.function_start {
                Some(function) => start == function,
                None => match memory.region_at(site.address) {
                    Some((region, offset)) => start.0 == if offset < backward {
                        region.base.0 as int
                    } else {
                        site.address.0 - backward
                    },
                    None => start == site.address,
                },
            }
        }),
{
    crate::memory::law_region_at(memory, site.address);
}

/// What leads up to a call site is taken from the disassembly of the way to it, which shows
/// 64 instructions more than are selected.
pub proof fn law_send_evidence_at(
    memory: MemoryView,
    arch: TargetArch,
    max: int,
    backward: int,
    site: X86CallSiteView,
)
    requires
        0 <= max <= usize::MAX - 64,
    ensures
        send_evidence_at(memory, arch, max, backward)(site) == send_evidence(
            memory,
            site,
            decode::disassembly(
                memory,
                arch,
                approach_start(memory, site, backward),
                max + 64,
            ),
            max,
        ),
{
}

/// An anchor is reported under its name and address, with the body of its function and
/// with its call sites.
pub proof fn law_anchor(
    memory: MemoryView,
    arch: TargetArch,
    max_callers: int,
    max_insn: int,
    name: Seq<char>,
    address: Address,
)
    ensures
        ({
            let anchor = anchor_of(memory, arch, max_callers, max_insn)((name, address));
            let body = decode::function_body(memory, arch, address, max_insn);
            &&& anchor.name == name
            &&& anchor.address == address
            &&& anchor.callers == analysis::call_sites(memory, arch, address, max_callers)
            &&& match anchor.function {
                Some(function) => function.address == address && function.instructions == body
                    && function.end == body[body.len() - 1].address,
                None => body.len() == 0,
            }
        }),
{
}

} // verus!
