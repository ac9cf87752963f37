//! Functions, branches and call sites.

use vstd::prelude::*;

use crate::bytes;
use crate::callers;
use crate::decode;
use crate::decode::{RuntimeInstruction, RuntimeInstructionView};
use crate::evidence::{Address, EvidenceHitView, TargetArch};
use crate::memory::{ArgusEngine, MemoryView};
use crate::seqs;
use crate::text;

verus! {

/// A function: its instructions and what it calls.
#[derive(Debug, Clone, PartialEq, Eq)]
pub struct AnalyzedFunction {
    pub address: Address,
    pub end: Address,
    pub instructions: Vec<RuntimeInstruction>,
    pub callees: Vec<Address>,
}

#[verifier::ext_equal]
pub struct AnalyzedFunctionView {
    pub address: Address,
    pub end: Address,
    pub instructions: Seq<RuntimeInstructionView>,
    pub callees: Seq<Address>,
}

impl DeepView for AnalyzedFunction {
    type V = AnalyzedFunctionView;

    open spec fn deep_view(&self) -> AnalyzedFunctionView {
        AnalyzedFunctionView {
            address: self.address,
            end: self.end,
            instructions: self.instructions.deep_view(),
            callees: self.callees@,
        }
    }
}

/// The resolved targets of the calls, each where it first occurs.
pub open spec fn callees_of(instructions: Seq<RuntimeInstructionView>) -> Seq<Address>
    decreases instructions.len(),
{
    if instructions.len() == 0 {
        Seq::empty()
    } else {
        let before = callees_of(instructions.drop_last());
        let last = instructions.last();
        match last.call_target {
            Some(target) => if text::starts_with(last.text, "call"@) && !before.contains(target) {
                before.push(target)
            } else {
                before
            },
            None => before,
        }
    }
}

/// The callees are the resolved targets of the calls, each once.
pub proof fn law_callees_exact(instructions: Seq<RuntimeInstructionView>)
    ensures
        callees_of(instructions).no_duplicates(),
        forall|target: Address| #[trigger]
            callees_of(instructions).contains(target) <==> exists|i: int|
                0 <= i < instructions.len() && text::starts_with(
                    (#[trigger] instructions[i]).text,
                    "call"@,
                ) && instructions[i].call_target == Some(target),
    decreases instructions.len(),
{
    let all = callees_of(instructions);
    if instructions.len() > 0 {
        let shorter = instructions.drop_last();
        let before = callees_of(shorter);
        let last = instructions.last();
        law_callees_exact(shorter);
        assert forall|target: Address| #[trigger] all.contains(target) <==> exists|i: int|
            0 <= i < instructions.len() && text::starts_with(
                (#[trigger] instructions[i]).text,
                "call"@,
            ) && instructions[i].call_target == Some(target) by {
            if all.contains(target) {
                if before.contains(target) {
                    let i = choose|i: int|
                        0 <= i < shorter.len() && text::starts_with(
                            (#[trigger] shorter[i]).text,
                            "call"@,
                        ) && shorter[i].call_target == Some(target);
                    assert(instructions[i] == shorter[i]);
                } else {
                    let k = all.index_of(target);
                    assert(k < before.len() ==> before[k] == target);
                    assert(instructions[instructions.len() - 1] == last);
                }
            }
            if exists|i: int|
                0 <= i < instructions.len() && text::starts_with(
                    (#[trigger] instructions[i]).text,
                    "call"@,
                ) && instructions[i].call_target == Some(target) {
                let i = choose|i: int|
                    0 <= i < instructions.len() && text::starts_with(
                        (#[trigger] instructions[i]).text,
                        "call"@,
                    ) && instructions[i].call_target == Some(target);
                if i < shorter.len() {
                    assert(shorter[i] == instructions[i]);
                    assert(before.contains(target));
                }
                if before.contains(target) {
                    let k = before.index_of(target);
                    assert(all[k] == target);
                } else {
                    assert(all.last() == target);
                }
            }
        }
    }
}

/// What a disassembly tells of the function that it starts with; nothing, where
/// there is no instruction.
pub open spec fn function_of(address: Address, instructions: Seq<RuntimeInstructionView>) -> Option<
    AnalyzedFunctionView,
> {
    if instructions.len() == 0 {
        None
    } else {
        Some(
            AnalyzedFunctionView {
                address,
                end: instructions.last().address,
                instructions,
                callees: callees_of(instructions),
            },
        )
    }
}

/// Whether a list holds an address.
pub fn holds_address(addresses: &Vec<Address>, wanted: Address) -> (held: bool)
    ensures
        held == addresses@.contains(wanted),
{
    let mut i: usize = 0;
    while i < addresses.len()
        invariant
            i <= addresses.len(),
            forall|j: int| 0 <= j < i ==> addresses@[j] != wanted,
        decreases addresses.len() - i,
    {
        if addresses[i].0 == wanted.0 {
            proof {
                assert(addresses@[i as int] == wanted);
            }
            return true;
        }
        i += 1;
    }
    false
}

/// What a disassembly tells of the function that it starts with.
pub fn summarize_function(address: Address, instructions: Vec<RuntimeInstruction>) -> (function:
    Option<AnalyzedFunction>)
    ensures
        function.deep_view() == function_of(address, instructions.deep_view()),
{
    if instructions.len() == 0 {
        return None;
    }
    let ghost all = instructions.deep_view();
    let mut callees: Vec<Address> = Vec::new();
    let mut i: usize = 0;
    while i < instructions.len()
        invariant
            i <= instructions.len(),
            all == instructions.deep_view(),
            callees@ == callees_of(all.take(i as int)),
        decreases instructions.len() - i,
    {
        let instruction = &instructions[i];
        proof {
            assert(instruction.deep_view() == all[i as int]);
            assert(all.take(i + 1).drop_last() =~= all.take(i as int));
            assert(all.take(i + 1).last() == all[i as int]);
        }
        if text::has_prefix(&instruction.text, "call") {
            if let Some(target) = instruction.call_target {
                if !holds_address(&callees, target) {
                    callees.push(target);
                }
            }
        }
        i += 1;
    }
    let end = instructions[instructions.len() - 1].address;
    proof {
        assert(all.take(all.len() as int) =~= all);
        assert(all.last().address == end);
    }
    Some(AnalyzedFunction { address, end, instructions, callees })
}

/// How an instruction leaves the straight line.
#[derive(Debug, Clone, Copy, PartialEq, Eq, Structural)]
pub enum BranchKind {
    Call,
    Jump,
    ConditionalJump,
    UnresolvedIndirect,
}

/// How an instruction leaves the straight line, where it does.
pub open spec fn branch_kind_of(instruction: RuntimeInstructionView) -> Option<BranchKind> {
    let resolved = instruction.call_target is Some;
    if text::starts_with(instruction.text, "call"@) {
        if resolved {
            Some(BranchKind::Call)
        } else {
            Some(BranchKind::UnresolvedIndirect)
        }
    } else if text::starts_with(instruction.text, "jmp"@) {
        if resolved {
            Some(BranchKind::Jump)
        } else {
            Some(BranchKind::UnresolvedIndirect)
        }
    } else if text::starts_with(instruction.text, "j"@) && resolved {
        Some(BranchKind::ConditionalJump)
    } else {
        None
    }
}

/// How an instruction leaves the straight line, where it does.
pub fn branch_kind(instruction: &RuntimeInstruction) -> (kind: Option<BranchKind>)
    ensures
        kind == branch_kind_of(instruction.deep_view()),
{
    let resolved = instruction.call_target.is_some();
    if text::has_prefix(&instruction.text, "call") {
        return Some(
            if resolved {
                BranchKind::Call
            } else {
                BranchKind::UnresolvedIndirect
            },
        );
    }
    if text::has_prefix(&instruction.text, "jmp") {
        return Some(
            if resolved {
                BranchKind::Jump
            } else {
                BranchKind::UnresolvedIndirect
            },
        );
    }
    if text::has_prefix(&instruction.text, "j") && resolved {
        return Some(BranchKind::ConditionalJump);
    }
    None
}

/// A branch of a function.
#[derive(Debug, Clone, PartialEq, Eq)]
pub struct DispatchBranch {
    pub kind: BranchKind,
    pub instruction: RuntimeInstruction,
}

#[verifier::ext_equal]
pub struct DispatchBranchView {
    pub kind: BranchKind,
    pub instruction: RuntimeInstructionView,
}

impl DeepView for DispatchBranch {
    type V = DispatchBranchView;

    open spec fn deep_view(&self) -> DispatchBranchView {
        DispatchBranchView { kind: self.kind, instruction: self.instruction.deep_view() }
    }
}

/// The branch that an instruction is, where it is one.
pub open spec fn branch_of() -> spec_fn(RuntimeInstructionView) -> Seq<DispatchBranchView> {
    |instruction: RuntimeInstructionView|
        match branch_kind_of(instruction) {
            Some(kind) => seq![DispatchBranchView { kind, instruction }],
            None => Seq::empty(),
        }
}

/// The branches among some instructions, in order.
pub open spec fn branches_of(instructions: Seq<RuntimeInstructionView>) -> Seq<
    DispatchBranchView,
> {
    instructions.flat_map(branch_of())
}

/// The branches among some instructions, in order.
pub fn select_branches(instructions: &Vec<RuntimeInstruction>) -> (branches: Vec<DispatchBranch>)
    ensures
        branches.deep_view() == branches_of(instructions.deep_view()),
{
    let ghost all = instructions.deep_view();
    let ghost f = branch_of();
    let mut branches: Vec<DispatchBranch> = Vec::new();
    let mut i: usize = 0;
    proof {
        seqs::lemma_flat_map_ends(all, f);
    }
    while i < instructions.len()
        invariant
            i <= instructions.len(),
            all == instructions.deep_view(),
            f == branch_of(),
            branches.deep_view() == all.take(i as int).flat_map(f),
        decreases instructions.len() - i,
    {
        let ghost before = branches.deep_view();
        proof {
            assert(instructions@[i as int].deep_view() == all[i as int]);
            seqs::lemma_flat_map_step(all, i as int, f);
        }
        if let Some(kind) = branch_kind(&instructions[i]) {
            branches.push(DispatchBranch { kind, instruction: instructions[i].clone() });
        }
        i += 1;
        proof {
            assert(branches.deep_view() =~= before + f(all[i - 1]));
        }
    }
    proof {
        seqs::lemma_flat_map_ends(all, f);
    }
    branches
}

/// A call of a target, and the function that it stands in.
#[derive(Debug, PartialEq, Eq)]
pub struct X86CallSite {
    pub address: Address,
    pub function_start: Option<Address>,
    pub instruction: RuntimeInstruction,
}

#[verifier::ext_equal]
pub struct X86CallSiteView {
    pub address: Address,
    pub function_start: Option<Address>,
    pub instruction: RuntimeInstructionView,
}

impl DeepView for X86CallSite {
    type V = X86CallSiteView;

    open spec fn deep_view(&self) -> X86CallSiteView {
        X86CallSiteView {
            address: self.address,
            function_start: self.function_start,
            instruction: self.instruction.deep_view(),
        }
    }
}

impl Clone for X86CallSite {
    fn clone(&self) -> (copy: Self)
        ensures
            copy.deep_view() == self.deep_view(),
    {
        X86CallSite {
            address: self.address,
            function_start: self.function_start,
            instruction: self.instruction.clone(),
        }
    }
}

/// The first instruction of a disassembly, or a bare one that goes to the target.
pub open spec fn call_instruction(
    address: Address,
    target: Address,
    instructions: Seq<RuntimeInstructionView>,
) -> RuntimeInstructionView {
    if instructions.len() > 0 {
        instructions[0]
    } else {
        RuntimeInstructionView {
            address,
            rva: None,
            bytes: Seq::empty(),
            text: Seq::empty(),
            call_target: Some(target),
            call_target_rva: None,
            string: None,
        }
    }
}

/// The call site at a place that calls the target.
pub open spec fn call_site_of(memory: MemoryView, arch: TargetArch, target: Address) -> spec_fn(
    EvidenceHitView,
) -> X86CallSiteView {
    |hit: EvidenceHitView|
        X86CallSiteView {
            address: hit.address,
            function_start: callers::function_start(memory, hit.address, 0x600),
            instruction: call_instruction(
                hit.address,
                target,
                decode::disassembly(memory, arch, hit.address, 1),
            ),
        }
}

/// The first `max` call sites of a target.
pub open spec fn call_sites(memory: MemoryView, arch: TargetArch, target: Address, max: int) -> Seq<
    X86CallSiteView,
> {
    seqs::capped(callers::caller_hits(memory, arch, target), max).map_values(
        call_site_of(memory, arch, target),
    )
}

/// The call site at an address, given the disassembly there.
pub fn site_of(
    address: Address,
    target: Address,
    function_start: Option<Address>,
    instructions: Vec<RuntimeInstruction>,
) -> (site: X86CallSite)
    ensures
        site.deep_view() == (X86CallSiteView {
            address,
            function_start,
            instruction: call_instruction(address, target, instructions.deep_view()),
        }),
{
    let ghost all = instructions.deep_view();
    let instruction = if instructions.len() > 0 {
        let first = instructions[0].clone();
        proof {
            assert(first.deep_view() == all[0]);
        }
        first
    } else {
        RuntimeInstruction {
            address,
            rva: None,
            bytes: Vec::new(),
            text: String::new(),
            call_target: Some(target),
            call_target_rva: None,
            string: None,
        }
    };
    X86CallSite { address, function_start, instruction }
}

impl ArgusEngine {
    /// Disassembles the function at an address, up to its return, and lists what it
    /// calls.
    pub fn analyze_function(&self, address: Address, max_insn: usize) -> (function: Option<
        AnalyzedFunction,
    >)
        ensures
            function.deep_view() == function_of(
                address,
                decode::function_body(self.memory(), self.arch(), address, max_insn as int),
            ),
    {
        summarize_function(address, self.body_at(address, max_insn))
    }

    /// The branches of the function at an address.
    pub fn dispatch_branches(&self, address: Address, max_insn: usize) -> (branches: Option<
        Vec<DispatchBranch>,
    >)
        ensures
            branches.deep_view() == (match function_of(
                address,
                decode::function_body(self.memory(), self.arch(), address, max_insn as int),
            ) {
                Some(function) => Some(branches_of(function.instructions)),
                None => None,
            }),
    {
        match self.analyze_function(address, max_insn) {
            Some(function) => Some(select_branches(&function.instructions)),
            None => None,
        }
    }

    /// The call sites of a target, with the functions that they stand in.
    pub fn scan_x86_call_sites(&self, target: Address, max_results: usize) -> (sites: Vec<
        X86CallSite,
    >)
        ensures
            sites.deep_view() == call_sites(
                self.memory(),
                self.arch(),
                target,
                max_results as int,
            ),
    {
        let ghost f = call_site_of(self.memory(), self.arch(), target);
        let hits = self.scan_callers(target, max_results);
        let ghost all = hits.deep_view();
        let mut sites: Vec<X86CallSite> = Vec::new();
        let mut i: usize = 0;
        proof {
            assert(sites.deep_view() =~= all.take(0).map_values(f));
        }
        while i < hits.len()
            invariant
                i <= hits.len(),
                all == hits.deep_view(),
                f == call_site_of(self.memory(), self.arch(), target),
                sites.deep_view() == all.take(i as int).map_values(f),
            decreases hits.len() - i,
        {
            let address = hits[i].address;
            let ghost before = sites.deep_view();
            proof {
                assert(all[i as int].address == address);
            }
            let function_start = self.find_function_start(address, 0x600);
            let site = site_of(address, target, function_start, self.disasm_at(address, 1));
            proof {
                assert(site.deep_view() == f(all[i as int]));
            }
            sites.push(site);
            i += 1;
            proof {
                assert(sites.deep_view() =~= before.push(f(all[i - 1])));
                assert(all.take(i as int).map_values(f) =~= before.push(f(all[i - 1])));
            }
        }
        proof {
            assert(all.take(all.len() as int) =~= all);
        }
        sites
    }
}

/// An instruction is a call or a jump by how its text begins; without a known target it is
/// an unresolved one, and a conditional jump without a known target is no branch at all.
pub proof fn law_branch_kind(instruction: RuntimeInstructionView)
    ensures
        ({
            let kind = branch_kind_of(instruction);
            let known = instruction.call_target is Some;
            let calls = "call"@.is_prefix_of(instruction.text);
            let jumps = "jmp"@.is_prefix_of(instruction.text);
            let may_jump = instruction.text.len() > 0 && instruction.text[0] == 'j' && !jumps;
            &&& calls && known ==> kind == Some(BranchKind::Call)
            &&& jumps && known ==> kind == Some(BranchKind::Jump)
            &&& (calls || jumps) && !known ==> kind == Some(BranchKind::UnresolvedIndirect)
            &&& may_jump && known ==> kind == Some(BranchKind::ConditionalJump)
            &&& !calls && !jumps && !(may_jump && known) ==> kind is None
        }),
{
    let s = instruction.text;
    text::law_starts_with(s, "call"@);
    text::law_starts_with(s, "jmp"@);
    text::law_starts_with(s, "j"@);
    reveal_strlit("call");
    reveal_strlit("jmp");
    reveal_strlit("j");
    if "call"@.is_prefix_of(s) {
        assert(s.subrange(0, 4)[0] == 'c');
    }
    if "jmp"@.is_prefix_of(s) {
        assert(s.subrange(0, 3)[0] == 'j');
    }
    if s.len() > 0 {
        assert(s.subrange(0, 1)[0] == s[0]);
        if s[0] == 'j' {
            assert(s.subrange(0, 1) =~= "j"@);
        }
    }
}

/// The branches of some instructions are those of them that are branches, in their order,
/// each with its kind.
pub proof fn law_branches(instructions: Seq<RuntimeInstructionView>)
    ensures
        branches_of(instructions).map_values(|branch: DispatchBranchView| branch.instruction)
            == instructions.filter(
            |instruction: RuntimeInstructionView| branch_kind_of(instruction) is Some,
        ),
        forall|i: int|
            0 <= i < branches_of(instructions).len() ==> branch_kind_of(
                (#[trigger] branches_of(instructions)[i]).instruction,
            ) == Some(branches_of(instructions)[i].kind),
    decreases instructions.len(),
{
    reveal(Seq::filter);
    let f = branch_of();
    let plain = |branch: DispatchBranchView| branch.instruction;
    seqs::lemma_flat_map_ends(instructions, f);
    if instructions.len() > 0 {
        let front = instructions.drop_last();
        let k = instructions.len() - 1;
        law_branches(front);
        seqs::lemma_flat_map_step(instructions, k, f);
        assert(instructions.take(k) =~= front);
        let head = branches_of(front);
        let all = branches_of(instructions);
        assert(all == head + f(instructions[k]));
        match branch_kind_of(instructions[k]) {
            Some(kind) => {
                assert(all.map_values(plain) =~= head.map_values(plain).push(instructions[k]));
            },
            None => {
                assert(all =~= head);
            },
        }
        assert forall|i: int| 0 <= i < all.len() implies branch_kind_of(
            (#[trigger] all[i]).instruction,
        ) == Some(all[i].kind) by {
            if i < head.len() {
                assert(all[i] == head[i]);
            }
        }
    } else {
        assert(instructions.take(0) =~= instructions);
        assert(branches_of(instructions).map_values(plain) =~= instructions);
    }
}

/// A function is described where it has an instruction: it begins at the address that was
/// asked for, ends with the last instruction and calls what its calls go to.
pub proof fn law_function_of(address: Address, instructions: Seq<RuntimeInstructionView>)
    ensures
        match function_of(address, instructions) {
            Some(function) => {
                &&& function.address == address
                &&& function.instructions == instructions
                &&& instructions.len() > 0
                &&& function.end == instructions[instructions.len() - 1].address
                &&& function.callees.no_duplicates()
                &&& forall|target: Address| #[trigger]
                    function.callees.contains(target) <==> exists|i: int|
                        0 <= i < instructions.len() && "call"@.is_prefix_of(
                            (#[trigger] instructions[i]).text,
                        ) && instructions[i].call_target == Some(target)
            },
            None => instructions.len() == 0,
        },
{
    law_callees_exact(instructions);
    assert forall|i: int| 0 <= i < instructions.len() implies "call"@.is_prefix_of(
        (#[trigger] instructions[i]).text,
    ) == text::starts_with(instructions[i].text, "call"@) by {
        text::law_starts_with(instructions[i].text, "call"@);
    }
    let callees = callees_of(instructions);
    assert forall|target: Address| #[trigger] callees.contains(target) <==> exists|i: int|
        0 <= i < instructions.len() && "call"@.is_prefix_of((#[trigger] instructions[i]).text)
            && instructions[i].call_target == Some(target) by {
        if callees.contains(target) {
            let i = choose|i: int|
                0 <= i < instructions.len() && text::starts_with(
                    (#[trigger] instructions[i]).text,
                    "call"@,
                ) && instructions[i].call_target == Some(target);
            assert("call"@.is_prefix_of(instructions[i].text));
        }
    }
}

/// The call sites of a target are the first places that the search for its callers
/// reports, in its order, each with the function that begins within the 1536 bytes before
/// it and with the instruction that stands there.
pub proof fn law_call_sites(memory: MemoryView, arch: TargetArch, target: Address, max: int)
    requires
        0 <= max,
    ensures
        ({
            let sites = call_sites(memory, arch, target, max);
            let found = callers::caller_hits(memory, arch, target);
            &&& sites.len() == if found.len() < max {
                found.len() as int
            } else {
                max
            }
            &&& forall|i: int|
                0 <= i < sites.len() ==> {
                    let shown = decode::disassembly(memory, arch, found[i].address, 1);
                    &&& (#[trigger] sites[i]).address == found[i].address
                    &&& sites[i].function_start == callers::function_start(
                        memory,
                        found[i].address,
                        1536,
                    )
                    &&& shown.len() > 0 ==> sites[i].instruction == shown[0]
                    &&& shown.len() == 0 ==> sites[i].instruction.address == found[i].address
                        && sites[i].instruction.call_target == Some(target)
                        && sites[i].instruction.bytes.len() == 0
                        && sites[i].instruction.text.len() == 0
                }
        }),
{
}

} // verus!
