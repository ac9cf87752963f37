//! Virtual tables, found by the type names that the compiler left in memory.

use vstd::prelude::*;

use crate::decode;
use crate::decode::{RuntimeInstruction, RuntimeInstructionView};
use crate::evidence::{Address, EvidenceHitView, TargetArch};
use crate::memory::{self, ArgusEngine, MemoryView};
use crate::search;
use crate::seqs;
use crate::text;

verus! {

/// One slot of a virtual table.
#[derive(Debug, Clone, PartialEq, Eq)]
pub struct VtableMethod {
    pub index: usize,
    pub address: Address,
    pub prologue: Vec<u8>,
    pub instruction: Option<RuntimeInstruction>,
}

#[verifier::ext_equal]
pub struct VtableMethodView {
    pub index: usize,
    pub address: Address,
    pub prologue: Seq<u8>,
    pub instruction: Option<RuntimeInstructionView>,
}

impl DeepView for VtableMethod {
    type V = VtableMethodView;

    open spec fn deep_view(&self) -> VtableMethodView {
        VtableMethodView {
            index: self.index,
            address: self.address,
            prologue: self.prologue@,
            instruction: self.instruction.deep_view(),
        }
    }
}

/// The virtual table of a class and the way to it, or why there is none.
#[derive(Debug, Clone, PartialEq, Eq)]
pub struct VtableEvidence {
    pub class_name: String,
    pub decorated_name: String,
    pub rtti_string: Option<Address>,
    pub type_descriptor: Option<Address>,
    pub col: Option<Address>,
    pub vtable: Option<Address>,
    pub methods: Vec<VtableMethod>,
    pub error: Option<String>,
}

#[verifier::ext_equal]
pub struct VtableEvidenceView {
    pub class_name: Seq<char>,
    pub decorated_name: Seq<char>,
    pub rtti_string: Option<Address>,
    pub type_descriptor: Option<Address>,
    pub col: Option<Address>,
    pub vtable: Option<Address>,
    pub methods: Seq<VtableMethodView>,
    pub error: Option<Seq<char>>,
}

impl DeepView for VtableEvidence {
    type V = VtableEvidenceView;

    open spec fn deep_view(&self) -> VtableEvidenceView {
        VtableEvidenceView {
            class_name: self.class_name@,
            decorated_name: self.decorated_name@,
            rtti_string: self.rtti_string,
            type_descriptor: self.type_descriptor,
            col: self.col,
            vtable: self.vtable,
            methods: self.methods.deep_view(),
            error: self.error.deep_view(),
        }
    }
}

/// The name of a class as the compiler writes it; one that is written so already
/// stays as it is.
pub open spec fn decorated(class_name: Seq<char>) -> Seq<char> {
    if text::starts_with(class_name, ".?A"@) {
        class_name
    } else {
        ".?AV"@ + class_name + "@@"@
    }
}

/// The name of a class as the compiler writes it.
pub fn decorate_class_name(class_name: &str) -> (name: String)
    ensures
        name@ == decorated(class_name@),
{
    if text::has_prefix(class_name, ".?A") {
        class_name.to_string()
    } else {
        let mut name = ".?AV".to_string();
        name.append(class_name);
        name.append("@@");
        name
    }
}

/// The first instruction of a disassembly.
pub open spec fn first_instruction(instructions: Seq<RuntimeInstructionView>) -> Option<
    RuntimeInstructionView,
> {
    if instructions.len() > 0 {
        Some(instructions[0])
    } else {
        None
    }
}

/// The method in a slot of a virtual table: a pointer that is not null, to
/// sixteen readable bytes.
pub open spec fn method_at(
    memory: MemoryView,
    arch: TargetArch,
    table: Address,
    index: int,
) -> Option<VtableMethodView> {
    match memory.read_u32(table.plus(index * 4)) {
        Some(pointer) => {
            let address = Address(pointer as u64);
            match memory.read(address, 16) {
                Some(prologue) => if pointer == 0 {
                    None
                } else {
                    Some(
                        VtableMethodView {
                            index: index as usize,
                            address,
                            prologue,
                            instruction: first_instruction(
                                decode::disassembly(memory, arch, address, 1),
                            ),
                        },
                    )
                },
                None => None,
            }
        },
        None => None,
    }
}

/// The methods of a virtual table from a slot on, up to the first slot without.
pub open spec fn methods_from(
    memory: MemoryView,
    arch: TargetArch,
    table: Address,
    index: int,
    count: int,
) -> Seq<VtableMethodView>
    decreases count - index,
{
    if index >= count {
        Seq::empty()
    } else {
        match method_at(memory, arch, table, index) {
            Some(method) => seq![method] + methods_from(memory, arch, table, index + 1, count),
            None => Seq::empty(),
        }
    }
}

/// The virtual table that a pointer to an object locator stands before, where it
/// has a method.
pub open spec fn table_after(
    memory: MemoryView,
    arch: TargetArch,
    max_methods: int,
    class_name: Seq<char>,
    string: Address,
    locator: Address,
) -> spec_fn(EvidenceHitView) -> Seq<VtableEvidenceView> {
    |reference: EvidenceHitView|
        {
            let vtable = reference.address.plus(4);
            let methods = methods_from(memory, arch, vtable, 0, max_methods);
            if methods.len() > 0 {
                seq![
                    VtableEvidenceView {
                        class_name,
                        decorated_name: decorated(class_name),
                        rtti_string: Some(string),
                        type_descriptor: Some(descriptor_of(string)),
                        col: Some(locator),
                        vtable: Some(vtable),
                        methods,
                        error: None,
                    },
                ]
            } else {
                Seq::empty()
            }
        }
}

/// The type descriptor that holds a type name.
pub open spec fn descriptor_of(string: Address) -> Address {
    if string.0 < 8 {
        Address(0)
    } else {
        Address((string.0 - 8) as u64)
    }
}

/// The virtual tables that a pointer to a type descriptor leads to: it stands
/// in an object locator whose signature is zero.
pub open spec fn tables_by_descriptor(
    memory: MemoryView,
    arch: TargetArch,
    max_methods: int,
    class_name: Seq<char>,
    string: Address,
) -> spec_fn(EvidenceHitView) -> Seq<VtableEvidenceView> {
    |reference: EvidenceHitView|
        if reference.address.0 < 0x0c {
            Seq::empty()
        } else {
            let locator = Address((reference.address.0 - 0x0c) as u64);
            if memory.read_u32(locator) == Some(0u32) {
                seqs::capped(search::pointer_hits(memory, arch, locator), 50).flat_map(
                    table_after(memory, arch, max_methods, class_name, string, locator),
                )
            } else {
                Seq::empty()
            }
        }
}

/// The virtual tables that a place of the type name leads to.
pub open spec fn tables_by_name(
    memory: MemoryView,
    arch: TargetArch,
    max_methods: int,
    class_name: Seq<char>,
) -> spec_fn(EvidenceHitView) -> Seq<VtableEvidenceView> {
    |string: EvidenceHitView|
        seqs::capped(
            search::pointer_hits(memory, arch, descriptor_of(string.address)),
            50,
        ).flat_map(tables_by_descriptor(memory, arch, max_methods, class_name, string.address))
}

/// The virtual tables of a class, in the order in which they are found.
pub open spec fn class_tables(
    memory: MemoryView,
    arch: TargetArch,
    class_name: Seq<char>,
    max_methods: int,
) -> Seq<VtableEvidenceView> {
    seqs::capped(search::string_hits(memory, decorated(class_name)), 10).flat_map(
        tables_by_name(memory, arch, max_methods, class_name),
    )
}

/// What is reported of a class without a virtual table.
pub open spec fn no_table(class_name: Seq<char>) -> VtableEvidenceView {
    VtableEvidenceView {
        class_name,
        decorated_name: decorated(class_name),
        rtti_string: None,
        type_descriptor: None,
        col: None,
        vtable: None,
        methods: Seq::empty(),
        error: Some("RTTI/vtable evidence not found for "@ + decorated(class_name)),
    }
}

/// The first item of a sequence, where there is one.
pub open spec fn first_of<T>(s: Seq<T>) -> Option<T> {
    if s.len() > 0 {
        Some(s[0])
    } else {
        None
    }
}

/// What is found of a class: its first virtual table, or that there is none.
pub open spec fn class_evidence(
    memory: MemoryView,
    arch: TargetArch,
    class_name: Seq<char>,
    max_methods: int,
) -> VtableEvidenceView {
    match first_of(class_tables(memory, arch, class_name, max_methods)) {
        Some(found) => found,
        None => no_table(class_name),
    }
}

/// Whether the addresses of a virtual table hang together: a zero word at the object
/// locator, the type descriptor twelve bytes behind it, the locator in the word before
/// the table, and the methods that stand in the table.
pub open spec fn hangs_together(
    memory: MemoryView,
    arch: TargetArch,
    max_methods: int,
    found: VtableEvidenceView,
) -> bool {
    match (found.rtti_string, found.type_descriptor, found.col, found.vtable) {
        (Some(string), Some(descriptor), Some(locator), Some(vtable)) => {
            &&& descriptor == descriptor_of(string)
            &&& memory.read_u32(locator) == Some(0u32)
            &&& descriptor.0 <= u32::MAX && memory.read_u32(locator.plus(12)) == Some(
                descriptor.0 as u32,
            )
            &&& locator.0 <= u32::MAX && memory.read_u32(vtable.plus(-4)) == Some(locator.0 as u32)
            &&& found.methods == methods_from(memory, arch, vtable, 0, max_methods)
            &&& found.methods.len() > 0
        },
        _ => false,
    }
}

/// The virtual table that is found of a class in 32-bit memory is one: its addresses
/// hang together, and it has a method. Where none is found, all addresses are absent
/// and the error says so. No two regions may overlap, nor reach over the end of all
/// addresses.
pub proof fn law_vtable_hangs_together(
    memory: MemoryView,
    class_name: Seq<char>,
    max_methods: int,
)
    requires
        memory::apart(memory.regions),
        forall|i: int|
            0 <= i < memory.regions.len() ==> (#[trigger] memory.regions[i]).base.0
                + memory.regions[i].bytes.len() <= u64::MAX && memory.regions[i].bytes.len()
                <= usize::MAX,
    ensures
        ({
            let found = class_evidence(memory, TargetArch::X86, class_name, max_methods);
            &&& found.class_name == class_name
            &&& found.decorated_name == decorated(class_name)
            &&& found.error is None <==> found.vtable is Some
            &&& found.vtable is Some <==> found.methods.len() > 0
            &&& found.vtable is Some ==> hangs_together(
                memory,
                TargetArch::X86,
                max_methods,
                found,
            )
            &&& found.vtable is None ==> found == no_table(class_name)
        }),
{
    let arch = TargetArch::X86;
    let tables = class_tables(memory, arch, class_name, max_methods);
    if tables.len() > 0 {
        let found = tables[0];
        let strings = seqs::capped(search::string_hits(memory, decorated(class_name)), 10);
        let f = tables_by_name(memory, arch, max_methods, class_name);
        assert(tables.contains(found));
        seqs::lemma_flat_map_contains(strings, f, found);
        let s = choose|s: int| seqs::gives(strings, f, s, found);
        lemma_table_of_name(memory, class_name, strings[s].address, max_methods, found);
    }
}

/// Whether a table is of a class and its addresses hang together.
spec fn is_table_of(
    memory: MemoryView,
    class_name: Seq<char>,
    max_methods: int,
    found: VtableEvidenceView,
) -> bool {
    &&& found.class_name == class_name
    &&& found.decorated_name == decorated(class_name)
    &&& found.error is None
    &&& found.vtable is Some
    &&& hangs_together(memory, TargetArch::X86, max_methods, found)
}

/// A place that a search for pointers reports holds the pointer.
proof fn lemma_pointed(memory: MemoryView, target: Address, hits: Seq<EvidenceHitView>, k: int)
    requires
        memory::apart(memory.regions),
        forall|i: int|
            0 <= i < memory.regions.len() ==> (#[trigger] memory.regions[i]).base.0
                + memory.regions[i].bytes.len() <= u64::MAX && memory.regions[i].bytes.len()
                <= usize::MAX,
        hits == seqs::capped(search::pointer_hits(memory, TargetArch::X86, target), 50),
        0 <= k < hits.len(),
    ensures
        target.0 <= u32::MAX,
        memory.read_u32(hits[k].address) == Some(target.0 as u32),
{
    let all = search::pointer_hits(memory, TargetArch::X86, target);
    assert(all[k] == hits[k]);
    assert(all.contains(all[k]));
    search::law_pointer_hits_point(memory, TargetArch::X86, target, all[k]);
}

proof fn lemma_table_of_name(
    memory: MemoryView,
    class_name: Seq<char>,
    string: Address,
    max_methods: int,
    found: VtableEvidenceView,
)
    requires
        memory::apart(memory.regions),
        forall|i: int|
            0 <= i < memory.regions.len() ==> (#[trigger] memory.regions[i]).base.0
                + memory.regions[i].bytes.len() <= u64::MAX && memory.regions[i].bytes.len()
                <= usize::MAX,
        seqs::capped(
            search::pointer_hits(memory, TargetArch::X86, descriptor_of(string)),
            50,
        ).flat_map(
            tables_by_descriptor(memory, TargetArch::X86, max_methods, class_name, string),
        ).contains(found),
    ensures
        is_table_of(memory, class_name, max_methods, found),
{
    let arch = TargetArch::X86;
    let descriptor = descriptor_of(string);
    let references = seqs::capped(search::pointer_hits(memory, arch, descriptor), 50);
    let f = tables_by_descriptor(memory, arch, max_methods, class_name, string);
    seqs::lemma_flat_map_contains(references, f, found);
    let d = choose|d: int| seqs::gives(references, f, d, found);
    lemma_pointed(memory, descriptor, references, d);
    let locator = Address((references[d].address.0 - 0x0c) as u64);
    assert(locator.plus(12) == references[d].address);
    lemma_table_of_locator(memory, class_name, string, locator, max_methods, found);
}

#[verifier::rlimit(40)]
#[verifier::spinoff_prover]
proof fn lemma_table_of_locator(
    memory: MemoryView,
    class_name: Seq<char>,
    string: Address,
    locator: Address,
    max_methods: int,
    found: VtableEvidenceView,
)
    requires
        memory::apart(memory.regions),
        forall|i: int|
            0 <= i < memory.regions.len() ==> (#[trigger] memory.regions[i]).base.0
                + memory.regions[i].bytes.len() <= u64::MAX && memory.regions[i].bytes.len()
                <= usize::MAX,
        memory.read_u32(locator) == Some(0u32),
        descriptor_of(string).0 <= u32::MAX,
        memory.read_u32(locator.plus(12)) == Some(descriptor_of(string).0 as u32),
        seqs::capped(search::pointer_hits(memory, TargetArch::X86, locator), 50).flat_map(
            table_after(memory, TargetArch::X86, max_methods, class_name, string, locator),
        ).contains(found),
    ensures
        is_table_of(memory, class_name, max_methods, found),
{
    let arch = TargetArch::X86;
    let uses = seqs::capped(search::pointer_hits(memory, arch, locator), 50);
    let f = table_after(memory, arch, max_methods, class_name, string, locator);
    seqs::lemma_flat_map_contains(uses, f, found);
    let u = choose|u: int| seqs::gives(uses, f, u, found);
    let slot = uses[u].address;
    lemma_pointed(memory, locator, uses, u);
    slot.lemma_plus_plus(4, -4);
    assert(slot.plus(0) == slot);
    assert(f(uses[u])[0] == found);
}

/// Where the items before give nothing, the first that gives something gives the
/// first of all.
proof fn lemma_first_found<A, B>(s: Seq<A>, k: int, f: spec_fn(A) -> Seq<B>)
    requires
        0 <= k < s.len(),
        s.take(k).flat_map(f).len() == 0,
    ensures
        s.take(k + 1).flat_map(f).len() == f(s[k]).len(),
        f(s[k]).len() > 0 ==> first_of(s.flat_map(f)) == Some(f(s[k])[0]),
{
    seqs::lemma_flat_map_step(s, k, f);
    seqs::lemma_flat_map_prefix(s, k + 1, f);
    let part = s.take(k + 1).flat_map(f);
    if f(s[k]).len() > 0 {
        assert(part[0] == f(s[k])[0]);
        assert(s.flat_map(f)[0] == part[0]);
    }
}

impl ArgusEngine {
    /// The methods of a virtual table.
    pub fn vtable_dump(&self, address: Address, count: usize) -> (methods: Vec<VtableMethod>)
        ensures
            methods.deep_view() == methods_from(
                self.memory(),
                self.arch(),
                address,
                0,
                count as int,
            ),
    {
        let ghost memory = self.memory();
        let ghost arch = self.arch();
        let ghost whole = methods_from(memory, arch, address, 0, count as int);
        let mut methods: Vec<VtableMethod> = Vec::new();
        let mut index: usize = 0;
        let mut slot = address;
        proof {
            assert(methods.deep_view() + whole =~= whole);
            assert(address.plus(0) == address);
        }
        while index < count
            invariant
                memory == self.memory(),
                arch == self.arch(),
                whole == methods_from(memory, arch, address, 0, count as int),
                index <= count,
                slot == address.plus(index * 4),
                methods.deep_view() + methods_from(
                    memory,
                    arch,
                    address,
                    index as int,
                    count as int,
                ) == whole,
            decreases count - index,
        {
            let ghost before = methods.deep_view();
            proof {
                assert(before + Seq::<VtableMethodView>::empty() =~= before);
                address.lemma_plus_plus(index * 4, 4);
            }
            let pointer: u32 = match self.read_u32_at(slot) {
                Some(pointer) => pointer,
                None => {
                    return methods;
                },
            };
            if pointer == 0 {
                return methods;
            }
            let method_address = Address(pointer as u64);
            let prologue = match self.read_bytes_at(method_address, 16) {
                Some(prologue) => vstd::slice::slice_to_vec(prologue),
                None => {
                    return methods;
                },
            };
            let instructions = self.disasm_at(method_address, 1);
            let instruction = if instructions.len() > 0 {
                proof {
                    assert(instructions.deep_view()[0] == instructions@[0].deep_view());
                }
                Some(instructions[0].clone())
            } else {
                None
            };
            let method = VtableMethod { index, address: method_address, prologue, instruction };
            let ghost added = method.deep_view();
            methods.push(method);
            proof {
                let rest = methods_from(memory, arch, address, index + 1, count as int);
                assert(methods.deep_view() =~= before.push(added));
                assert(before + (seq![added] + rest) =~= before.push(added) + rest);
            }
            slot = slot.offset(4);
            index += 1;
        }
        proof {
            assert(methods.deep_view() + Seq::<VtableMethodView>::empty() =~= methods.deep_view());
        }
        methods
    }

    /// The first virtual table that an object locator leads to.
    fn table_of_locator(
        &self,
        class_name: &str,
        string: Address,
        locator: Address,
        max_methods: usize,
    ) -> (found: Option<VtableEvidence>)
        ensures
            found.deep_view() == first_of(
                seqs::capped(
                    search::pointer_hits(self.memory(), self.arch(), locator),
                    50,
                ).flat_map(
                    table_after(
                        self.memory(),
                        self.arch(),
                        max_methods as int,
                        class_name@,
                        string,
                        locator,
                    ),
                ),
            ),
    {
        let ghost f = table_after(
            self.memory(),
            self.arch(),
            max_methods as int,
            class_name@,
            string,
            locator,
        );
        let references = self.scan_pointers_to(locator, 50);
        let ghost all = references.deep_view();
        let mut i: usize = 0;
        proof {
            seqs::lemma_flat_map_ends(all, f);
        }
        while i < references.len()
            invariant
                i <= references.len(),
                all == references.deep_view(),
                all == seqs::capped(
                    search::pointer_hits(self.memory(), self.arch(), locator),
                    50,
                ),
                f == table_after(
                    self.memory(),
                    self.arch(),
                    max_methods as int,
                    class_name@,
                    string,
                    locator,
                ),
                all.take(i as int).flat_map(f).len() == 0,
            decreases references.len() - i,
        {
            let reference = references[i].address;
            let vtable = reference.offset(4);
            let methods = self.vtable_dump(vtable, max_methods);
            proof {
                assert(all[i as int].address == reference);
                assert(methods.deep_view().len() == methods@.len());
                lemma_first_found(all, i as int, f);
            }
            if methods.len() > 0 {
                let type_descriptor = if string.0 < 8 {
                    Address(0)
                } else {
                    Address(string.0 - 8)
                };
                return Some(
                    VtableEvidence {
                        class_name: class_name.to_string(),
                        decorated_name: decorate_class_name(class_name),
                        rtti_string: Some(string),
                        type_descriptor: Some(type_descriptor),
                        col: Some(locator),
                        vtable: Some(vtable),
                        methods,
                        error: None,
                    },
                );
            }
            i += 1;
        }
        proof {
            seqs::lemma_flat_map_ends(all, f);
        }
        None
    }

    /// The first virtual table that a place of the type name leads to.
    fn table_of_name(&self, class_name: &str, string: Address, max_methods: usize) -> (found:
        Option<VtableEvidence>)
        ensures
            found.deep_view() == first_of(
                seqs::capped(
                    search::pointer_hits(self.memory(), self.arch(), descriptor_of(string)),
                    50,
                ).flat_map(
                    tables_by_descriptor(
                        self.memory(),
                        self.arch(),
                        max_methods as int,
                        class_name@,
                        string,
                    ),
                ),
            ),
    {
        let ghost f = tables_by_descriptor(
            self.memory(),
            self.arch(),
            max_methods as int,
            class_name@,
            string,
        );
        let type_descriptor = if string.0 < 8 {
            Address(0)
        } else {
            Address(string.0 - 8)
        };
        let references = self.scan_pointers_to(type_descriptor, 50);
        let ghost all = references.deep_view();
        let mut i: usize = 0;
        proof {
            seqs::lemma_flat_map_ends(all, f);
        }
        while i < references.len()
            invariant
                i <= references.len(),
                all == references.deep_view(),
                all == seqs::capped(
                    search::pointer_hits(self.memory(), self.arch(), descriptor_of(string)),
                    50,
                ),
                f == tables_by_descriptor(
                    self.memory(),
                    self.arch(),
                    max_methods as int,
                    class_name@,
                    string,
                ),
                all.take(i as int).flat_map(f).len() == 0,
            decreases references.len() - i,
        {
            let reference = references[i].address;
            proof {
                assert(all[i as int].address == reference);
                lemma_first_found(all, i as int, f);
            }
            if reference.0 >= 0x0c {
                let locator = Address(reference.0 - 0x0c);
                let is_locator = match self.read_u32_at(locator) {
                    Some(signature) => signature == 0,
                    None => false,
                };
                if is_locator {
                    if let Some(found) = self.table_of_locator(
                        class_name,
                        string,
                        locator,
                        max_methods,
                    ) {
                        return Some(found);
                    }
                }
            }
            i += 1;
        }
        proof {
            seqs::lemma_flat_map_ends(all, f);
        }
        None
    }

    /// Finds the virtual table of a class by its type name.
    pub fn find_vtable(&self, class_name: &str, max_methods: usize) -> (evidence: VtableEvidence)
        ensures
            evidence.deep_view() == class_evidence(
                self.memory(),
                self.arch(),
                class_name@,
                max_methods as int,
            ),
    {
        let ghost f = tables_by_name(
            self.memory(),
            self.arch(),
            max_methods as int,
            class_name@,
        );
        let decorated_name = decorate_class_name(class_name);
        let strings = self.scan_string(&decorated_name, 10);
        let ghost all = strings.deep_view();
        let mut i: usize = 0;
        proof {
            seqs::lemma_flat_map_ends(all, f);
        }
        while i < strings.len()
            invariant
                i <= strings.len(),
                all == strings.deep_view(),
                decorated_name@ == decorated(class_name@),
                all == seqs::capped(
                    search::string_hits(self.memory(), decorated(class_name@)),
                    10,
                ),
                f == tables_by_name(
                    self.memory(),
                    self.arch(),
                    max_methods as int,
                    class_name@,
                ),
                all.take(i as int).flat_map(f).len() == 0,
            decreases strings.len() - i,
        {
            let string = strings[i].address;
            proof {
                assert(all[i as int].address == string);
                lemma_first_found(all, i as int, f);
            }
            if let Some(found) = self.table_of_name(class_name, string, max_methods) {
                return found;
            }
            i += 1;
        }
        proof {
            seqs::lemma_flat_map_ends(all, f);
        }
        let mut error = "RTTI/vtable evidence not found for ".to_string();
        error.append(&decorated_name);
        let evidence = VtableEvidence {
            class_name: class_name.to_string(),
            decorated_name,
            rtti_string: None,
            type_descriptor: None,
            col: None,
            vtable: None,
            methods: Vec::new(),
            error: Some(error),
        };
        proof {
            assert(evidence.methods.deep_view() =~= Seq::<VtableMethodView>::empty());
        }
        evidence
    }
}

/// The compiler writes `.?AV` before the name of a class and `@@` behind it; a name that
/// begins with `.?A` is written so already.
pub proof fn law_decorated(class_name: Seq<char>)
    ensures
        ".?A"@.is_prefix_of(class_name) ==> decorated(class_name) == class_name,
        !".?A"@.is_prefix_of(class_name) ==> decorated(class_name) == ".?AV"@ + class_name + "@@"@,
{
    text::law_starts_with(class_name, ".?A"@);
}

/// Whether a method is what a slot of a virtual table leads to: the slot holds its address,
/// which is not null, and sixteen bytes can be read there.
pub open spec fn fills_slot(
    memory: MemoryView,
    arch: TargetArch,
    table: Address,
    index: int,
    method: VtableMethodView,
) -> bool {
    let shown = decode::disassembly(memory, arch, method.address, 1);
    &&& method.index == index
    &&& method.address.0 != 0
    &&& memory.read_u32(table.plus(4 * index)) matches Some(pointer) && pointer == method.address.0
    &&& memory.read(method.address, 16) == Some(method.prologue)
    &&& match method.instruction {
        Some(instruction) => shown.len() > 0 && instruction == shown[0],
        None => shown.len() == 0,
    }
}

/// The methods of a virtual table fill its slots in their order, from the first one up to
/// the limit or to the first slot that no method fills.
pub proof fn law_methods_fill_slots(
    memory: MemoryView,
    arch: TargetArch,
    table: Address,
    count: usize,
)
    ensures
        ({
            let methods = methods_from(memory, arch, table, 0, count as int);
            &&& methods.len() <= count
            &&& forall|i: int|
                0 <= i < methods.len() ==> fills_slot(
                    memory,
                    arch,
                    table,
                    i,
                    #[trigger] methods[i],
                )
            &&& methods.len() < count ==> forall|method: VtableMethodView|
                !fills_slot(memory, arch, table, methods.len() as int, method)
        }),
{
    lemma_methods_fill_slots(memory, arch, table, 0, count);
    let n = methods_from(memory, arch, table, 0, count as int).len() as int;
    assert(table.plus(n * 4) == table.plus(4 * n));
}

proof fn lemma_methods_fill_slots(
    memory: MemoryView,
    arch: TargetArch,
    table: Address,
    from: int,
    count: usize,
)
    requires
        0 <= from <= count,
    ensures
        ({
            let methods = methods_from(memory, arch, table, from, count as int);
            &&& from + methods.len() <= count
            &&& forall|i: int|
                0 <= i < methods.len() ==> fills_slot(
                    memory,
                    arch,
                    table,
                    from + i,
                    #[trigger] methods[i],
                )
            &&& from + methods.len() < count ==> method_at(
                memory,
                arch,
                table,
                from + methods.len(),
            ) is None
        }),
    decreases count - from,
{
    if from < count {
        let methods = methods_from(memory, arch, table, from, count as int);
        assert(table.plus(from * 4) == table.plus(4 * from));
        if let Some(method) = method_at(memory, arch, table, from) {
            lemma_methods_fill_slots(memory, arch, table, from + 1, count);
            let rest = methods_from(memory, arch, table, from + 1, count as int);
            assert(methods == seq![method] + rest);
            assert forall|i: int| 0 <= i < methods.len() implies fills_slot(
                memory,
                arch,
                table,
                from + i,
                #[trigger] methods[i],
            ) by {
                if i > 0 {
                    assert(methods[i] == rest[i - 1]);
                }
            }
        }
    }
}

/// Whether a place of the type name, a pointer to the type descriptor eight bytes before it
/// and a pointer to the object locator twelve bytes before that one lead to a virtual table
/// with a method, which begins four bytes behind the second pointer.
pub open spec fn leads_to_table(
    memory: MemoryView,
    arch: TargetArch,
    class_name: Seq<char>,
    max_methods: int,
    s: int,
    r: int,
    p: int,
    found: VtableEvidenceView,
) -> bool {
    let strings = search::string_hits(memory, decorated(class_name));
    match (found.rtti_string, found.type_descriptor, found.col, found.vtable) {
        (Some(string), Some(descriptor), Some(locator), Some(vtable)) => {
            let users = search::pointer_hits(memory, arch, descriptor);
            let owners = search::pointer_hits(memory, arch, locator);
            &&& 0 <= s < strings.len() && s < 10
            &&& strings[s].address == string
            &&& descriptor.0 == if string.0 < 8 {
                0
            } else {
                string.0 - 8
            }
            &&& 0 <= r < users.len() && r < 50
            &&& users[r].address.0 == locator.0 + 12
            &&& memory.read_u32(locator) == Some(0u32)
            &&& 0 <= p < owners.len() && p < 50
            &&& vtable.0 == (owners[p].address.0 + 4) % 0x1_0000_0000_0000_0000
            &&& found.methods == methods_from(memory, arch, vtable, 0, max_methods)
            &&& found.methods.len() > 0
            &&& found.class_name == class_name
            &&& found.decorated_name == decorated(class_name)
            &&& found.error is None
        },
        _ => false,
    }
}

/// A virtual table is among those of a class just where a place of the type name leads to
/// it.
pub proof fn law_class_tables(
    memory: MemoryView,
    arch: TargetArch,
    class_name: Seq<char>,
    max_methods: int,
    found: VtableEvidenceView,
)
    ensures
        class_tables(memory, arch, class_name, max_methods).contains(found) <==> exists|
            s: int,
            r: int,
            p: int,
        | #[trigger]
            leads_to_table(memory, arch, class_name, max_methods, s, r, p, found),
{
    let all = search::string_hits(memory, decorated(class_name));
    let strings = seqs::capped(all, 10);
    let f = tables_by_name(memory, arch, max_methods, class_name);
    seqs::lemma_flat_map_contains(strings, f, found);
    if class_tables(memory, arch, class_name, max_methods).contains(found) {
        let s = choose|s: int| seqs::gives(strings, f, s, found);
        let string = strings[s].address;
        assert(all[s] == strings[s]);
        let g = tables_by_descriptor(memory, arch, max_methods, class_name, string);
        let users = seqs::capped(search::pointer_hits(memory, arch, descriptor_of(string)), 50);
        seqs::lemma_flat_map_contains(users, g, found);
        let r = choose|r: int| seqs::gives(users, g, r, found);
        let locator = Address((users[r].address.0 - 0x0c) as u64);
        let h = table_after(memory, arch, max_methods, class_name, string, locator);
        let owners = seqs::capped(search::pointer_hits(memory, arch, locator), 50);
        seqs::lemma_flat_map_contains(owners, h, found);
        let p = choose|p: int| seqs::gives(owners, h, p, found);
        assert(h(owners[p])[0] == found);
        assert(leads_to_table(memory, arch, class_name, max_methods, s, r, p, found));
    }
    if exists|s: int, r: int, p: int| #[trigger]
        leads_to_table(memory, arch, class_name, max_methods, s, r, p, found) {
        let (s, r, p) = choose|s: int, r: int, p: int| #[trigger]
            leads_to_table(memory, arch, class_name, max_methods, s, r, p, found);
        let string = found.rtti_string.unwrap();
        let locator = found.col.unwrap();
        assert(strings[s] == all[s]);
        assert(found.type_descriptor == Some(descriptor_of(string)));
        let g = tables_by_descriptor(memory, arch, max_methods, class_name, string);
        let users = seqs::capped(search::pointer_hits(memory, arch, descriptor_of(string)), 50);
        let h = table_after(memory, arch, max_methods, class_name, string, locator);
        let owners = seqs::capped(search::pointer_hits(memory, arch, locator), 50);
        assert(owners[p] == search::pointer_hits(memory, arch, locator)[p]);
        assert(h(owners[p])[0] =~= found);
        assert(seqs::gives(owners, h, p, found));
        seqs::lemma_flat_map_contains(owners, h, found);
        assert(users[r] == search::pointer_hits(memory, arch, descriptor_of(string))[r]);
        assert(seqs::gives(users, g, r, found));
        seqs::lemma_flat_map_contains(users, g, found);
        assert(seqs::gives(strings, f, s, found));
    }
}

/// What is found of a class is a table of it wherever it has one; where no place of the
/// type name leads to a table, every address is absent and the error names the class.
pub proof fn law_class_evidence(
    memory: MemoryView,
    arch: TargetArch,
    class_name: Seq<char>,
    max_methods: int,
)
    ensures
        ({
            let found = class_evidence(memory, arch, class_name, max_methods);
            if exists|s: int, r: int, p: int, table: VtableEvidenceView| #[trigger]
                leads_to_table(memory, arch, class_name, max_methods, s, r, p, table) {
                exists|s: int, r: int, p: int| #[trigger]
                    leads_to_table(memory, arch, class_name, max_methods, s, r, p, found)
            } else {
                &&& found.rtti_string is None
                &&& found.type_descriptor is None
                &&& found.col is None
                &&& found.vtable is None
                &&& found.methods.len() == 0
                &&& found.class_name == class_name
                &&& found.decorated_name == decorated(class_name)
                &&& found.error == Some(
                    "RTTI/vtable evidence not found for "@ + decorated(class_name),
                )
            }
        }),
{
    let tables = class_tables(memory, arch, class_name, max_methods);
    let found = class_evidence(memory, arch, class_name, max_methods);
    if tables.len() > 0 {
        assert(tables.contains(tables[0]));
        law_class_tables(memory, arch, class_name, max_methods, found);
    } else {
        assert forall|s: int, r: int, p: int, table: VtableEvidenceView| #[trigger]
            leads_to_table(memory, arch, class_name, max_methods, s, r, p, table) implies false by {
            law_class_tables(memory, arch, class_name, max_methods, table);
        }
    }
}

} // verus!
