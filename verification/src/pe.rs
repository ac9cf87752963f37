//! Imports and exports of loaded modules, read from their headers in memory.

use vstd::prelude::*;

use crate::decode;
use crate::decode::{RuntimeInstruction, RuntimeInstructionView};
use crate::evidence;
use crate::evidence::{Address, Rva, TargetArch};
use crate::memory::{
    ArgusEngine, MemoryRegion, MemoryRegionView, MemoryView, ModuleInfo, ModuleInfoView,
};
use crate::rtti;
use crate::seqs;
use crate::text;
use crate::transfer;

verus! {

/// A function that a module imports.
#[derive(Debug, PartialEq, Eq)]
pub struct RuntimeImport {
    pub module: String,
    pub dll: String,
    pub name: String,
    pub ordinal: Option<u16>,
    pub iat_address: Address,
    pub target: Option<Address>,
}

#[verifier::ext_equal]
pub struct RuntimeImportView {
    pub module: Seq<char>,
    pub dll: Seq<char>,
    pub name: Seq<char>,
    pub ordinal: Option<u16>,
    pub iat_address: Address,
    pub target: Option<Address>,
}

impl DeepView for RuntimeImport {
    type V = RuntimeImportView;

    open spec fn deep_view(&self) -> RuntimeImportView {
        RuntimeImportView {
            module: self.module@,
            dll: self.dll@,
            name: self.name@,
            ordinal: self.ordinal,
            iat_address: self.iat_address,
            target: self.target,
        }
    }
}

impl Clone for RuntimeImport {
    fn clone(&self) -> (copy: Self)
        ensures
            copy.deep_view() == self.deep_view(),
    {
        RuntimeImport {
            module: self.module.clone(),
            dll: self.dll.clone(),
            name: self.name.clone(),
            ordinal: self.ordinal,
            iat_address: self.iat_address,
            target: self.target,
        }
    }
}

/// A function that a module exports.
#[derive(Debug, Clone, PartialEq, Eq)]
pub struct RuntimeExport {
    pub module: String,
    pub name: String,
    pub ordinal: u32,
    pub address: Address,
    pub rva: Rva,
    pub forwarder: Option<String>,
}

#[verifier::ext_equal]
pub struct RuntimeExportView {
    pub module: Seq<char>,
    pub name: Seq<char>,
    pub ordinal: u32,
    pub address: Address,
    pub rva: Rva,
    pub forwarder: Option<Seq<char>>,
}

impl DeepView for RuntimeExport {
    type V = RuntimeExportView;

    open spec fn deep_view(&self) -> RuntimeExportView {
        RuntimeExportView {
            module: self.module@,
            name: self.name@,
            ordinal: self.ordinal,
            address: self.address,
            rva: self.rva,
            forwarder: self.forwarder.deep_view(),
        }
    }
}

/// Code that jumps to or calls an import through its table entry.
#[derive(Debug, Clone, PartialEq, Eq)]
pub struct IatThunk {
    pub import: RuntimeImport,
    pub thunk_address: Address,
    pub instruction: RuntimeInstruction,
}

#[verifier::ext_equal]
pub struct IatThunkView {
    pub import: RuntimeImportView,
    pub thunk_address: Address,
    pub instruction: RuntimeInstructionView,
}

impl DeepView for IatThunk {
    type V = IatThunkView;

    open spec fn deep_view(&self) -> IatThunkView {
        IatThunkView {
            import: self.import.deep_view(),
            thunk_address: self.thunk_address,
            instruction: self.instruction.deep_view(),
        }
    }
}

/// The optional header of a module and its magic number, where the module begins
/// with a DOS header, a PE signature and one of the two known magic numbers.
pub open spec fn optional_header(memory: MemoryView, base: Address) -> Option<(Address, u16)> {
    if memory.read_u16(base) != Some(0x5a4du16) {
        None
    } else {
        match memory.read_u32(base.plus(0x3c)) {
            Some(offset) => {
                let pe = base.plus(offset as int);
                if memory.read_u32(pe) != Some(0x4550u32) {
                    None
                } else {
                    match memory.read_u16(pe.plus(24)) {
                        Some(magic) => if magic == 0x10b || magic == 0x20b {
                            Some((pe.plus(24), magic))
                        } else {
                            None
                        },
                        None => None,
                    }
                }
            },
            None => None,
        }
    }
}

/// A 32-bit number, or zero where there is none.
pub open spec fn read_or_zero(memory: MemoryView, address: Address) -> u32 {
    match memory.read_u32(address) {
        Some(value) => value,
        None => 0u32,
    }
}

/// A text, or a stand-in where there is none.
pub open spec fn text_or_unknown(memory: MemoryView, address: Address) -> Seq<char> {
    match memory.read_c_string(address, 256) {
        Some(found) => found,
        None => "<unknown>"@,
    }
}

/// Whether an entry of a lookup table imports by ordinal.
pub open spec fn by_ordinal(lookup: u64, width: int) -> bool {
    lookup >= (if width == 4 {
        0x8000_0000
    } else {
        0x8000_0000_0000_0000u64
    })
}

/// The import that an entry of a lookup table describes.
pub open spec fn import_of(
    memory: MemoryView,
    module: ModuleInfoView,
    dll: Seq<char>,
    width: int,
    lookup: u64,
    iat_address: Address,
) -> RuntimeImportView {
    RuntimeImportView {
        module: module.name,
        dll,
        name: if by_ordinal(lookup, width) {
            "#"@ + text::decimal_text((lookup % 0x10000) as nat)
        } else {
            text_or_unknown(memory, Address(module.base.0).plus(lookup + 2))
        },
        ordinal: if by_ordinal(lookup, width) {
            Some((lookup % 0x10000) as u16)
        } else {
            None
        },
        iat_address,
        target: match memory.read_sized(iat_address, width) {
            Some(target) => Some(Address(target)),
            None => None,
        },
    }
}

/// The imports from one library, from a place in its lookup table on; at most
/// `room`, and none after an entry that is zero or cannot be read.
pub open spec fn library_imports(
    memory: MemoryView,
    module: ModuleInfoView,
    dll: Seq<char>,
    width: int,
    lookup_at: Address,
    iat_at: Address,
    room: int,
) -> Seq<RuntimeImportView>
    decreases room,
{
    if room <= 0 {
        Seq::empty()
    } else {
        match memory.read_sized(lookup_at, width) {
            Some(lookup) => if lookup == 0 {
                Seq::empty()
            } else {
                seq![import_of(memory, module, dll, width, lookup, iat_at)] + library_imports(
                    memory,
                    module,
                    dll,
                    width,
                    lookup_at.plus(width),
                    iat_at.plus(width),
                    room - 1,
                )
            },
            None => Seq::empty(),
        }
    }
}

/// The imports from the library that a descriptor names.
pub open spec fn descriptor_imports(
    memory: MemoryView,
    module: ModuleInfoView,
    width: int,
    descriptor: Address,
    room: int,
) -> Seq<RuntimeImportView> {
    let base = Address(module.base.0);
    let original = read_or_zero(memory, descriptor);
    let name = read_or_zero(memory, descriptor.plus(12));
    let first = read_or_zero(memory, descriptor.plus(16));
    library_imports(
        memory,
        module,
        text_or_unknown(memory, base.plus(name as int)),
        width,
        base.plus(
            (if original != 0 {
                original
            } else {
                first
            }) as int,
        ),
        base.plus(first as int),
        room,
    )
}

/// Whether a descriptor ends the list: its three table fields are zero or cannot
/// be read.
pub open spec fn ends_descriptors(memory: MemoryView, descriptor: Address) -> bool {
    read_or_zero(memory, descriptor) == 0 && read_or_zero(memory, descriptor.plus(12)) == 0
        && read_or_zero(memory, descriptor.plus(16)) == 0
}

/// The imports that a list of descriptors gives; at most `room`.
pub open spec fn imports_from(
    memory: MemoryView,
    module: ModuleInfoView,
    width: int,
    descriptor: Address,
    room: int,
) -> Seq<RuntimeImportView>
    decreases evidence::address_space() - descriptor.0,
{
    if room <= 0 || ends_descriptors(memory, descriptor) {
        Seq::empty()
    } else {
        let here = descriptor_imports(memory, module, width, descriptor, room);
        if descriptor.0 + 20 < evidence::address_space() {
            here + imports_from(
                memory,
                module,
                width,
                Address((descriptor.0 + 20) as u64),
                room - here.len(),
            )
        } else {
            here
        }
    }
}

/// The first `max` imports of a module.
pub open spec fn module_imports(memory: MemoryView, module: ModuleInfoView, max: int) -> Seq<
    RuntimeImportView,
> {
    let base = Address(module.base.0);
    match optional_header(memory, base) {
        Some((header, magic)) => {
            let directory = header.plus(
                if magic == 0x10b {
                    104
                } else {
                    120
                },
            );
            match memory.read_u32(directory) {
                Some(rva) => if rva == 0 {
                    Seq::empty()
                } else {
                    imports_from(
                        memory,
                        module,
                        if magic == 0x10b {
                            4
                        } else {
                            8
                        },
                        base.plus(rva as int),
                        max,
                    )
                },
                None => Seq::empty(),
            }
        },
        None => Seq::empty(),
    }
}

proof fn lemma_library_imports_bound(
    memory: MemoryView,
    module: ModuleInfoView,
    dll: Seq<char>,
    width: int,
    lookup_at: Address,
    iat_at: Address,
    room: int,
)
    requires
        room >= 0,
    ensures
        library_imports(memory, module, dll, width, lookup_at, iat_at, room).len() <= room,
    decreases room,
{
    if room > 0 {
        lemma_library_imports_bound(
            memory,
            module,
            dll,
            width,
            lookup_at.plus(width),
            iat_at.plus(width),
            room - 1,
        );
    }
}

proof fn lemma_imports_from_bound(
    memory: MemoryView,
    module: ModuleInfoView,
    width: int,
    descriptor: Address,
    room: int,
)
    requires
        room >= 0,
    ensures
        imports_from(memory, module, width, descriptor, room).len() <= room,
    decreases evidence::address_space() - descriptor.0,
{
    if room > 0 && !ends_descriptors(memory, descriptor) {
        let base = Address(module.base.0);
        let original = read_or_zero(memory, descriptor);
        let first = read_or_zero(memory, descriptor.plus(16));
        lemma_library_imports_bound(
            memory,
            module,
            text_or_unknown(
                memory,
                base.plus(read_or_zero(memory, descriptor.plus(12)) as int),
            ),
            width,
            base.plus(
                (if original != 0 {
                    original
                } else {
                    first
                }) as int,
            ),
            base.plus(first as int),
            room,
        );
        let here = descriptor_imports(memory, module, width, descriptor, room);
        if descriptor.0 + 20 < evidence::address_space() {
            lemma_imports_from_bound(
                memory,
                module,
                width,
                Address((descriptor.0 + 20) as u64),
                room - here.len(),
            );
        }
    }
}

/// No more imports are listed than were asked for.
pub proof fn law_imports_bounded(memory: MemoryView, module: ModuleInfoView, max: int)
    requires
        max >= 0,
    ensures
        module_imports(memory, module, max).len() <= max,
{
    let base = Address(module.base.0);
    if let Some((header, magic)) = optional_header(memory, base) {
        let directory = header.plus(
            if magic == 0x10b {
                104
            } else {
                120
            },
        );
        if let Some(rva) = memory.read_u32(directory) {
            lemma_imports_from_bound(
                memory,
                module,
                if magic == 0x10b {
                    4
                } else {
                    8
                },
                base.plus(rva as int),
                max,
            );
        }
    }
}

/// An export directory.
pub struct ExportDirectory {
    pub rva: u32,
    pub size: u32,
    pub ordinal_base: u32,
    pub function_count: u32,
    pub name_count: u32,
    pub functions: u32,
    pub names: u32,
    pub ordinals: u32,
}

/// The export directory of a module; a field that cannot be read is zero.
pub open spec fn export_directory(memory: MemoryView, base: Address) -> Option<ExportDirectory> {
    match optional_header(memory, base) {
        Some((header, magic)) => {
            let entry = header.plus(
                if magic == 0x10b {
                    96
                } else {
                    112
                },
            );
            match memory.read_u32(entry) {
                Some(rva) => if rva == 0 {
                    None
                } else {
                    let at = base.plus(rva as int);
                    Some(
                        ExportDirectory {
                            rva,
                            size: read_or_zero(memory, entry.plus(4)),
                            ordinal_base: read_or_zero(memory, at.plus(16)),
                            function_count: read_or_zero(memory, at.plus(20)),
                            name_count: read_or_zero(memory, at.plus(24)),
                            functions: read_or_zero(memory, at.plus(28)),
                            names: read_or_zero(memory, at.plus(32)),
                            ordinals: read_or_zero(memory, at.plus(36)),
                        },
                    )
                },
                None => None,
            }
        },
        None => None,
    }
}

/// Whether a name holds a text, whatever the case of its letters; without a text,
/// every name does.
pub open spec fn name_selected(name: Seq<char>, needle: Option<Seq<char>>) -> bool {
    match needle {
        Some(needle) => text::contains_text(text::lowered(name), text::lowered(needle)),
        None => true,
    }
}

/// The export that an entry of the name table describes, where its name is wanted
/// and it leads to a function.
pub open spec fn export_at(
    memory: MemoryView,
    module: ModuleInfoView,
    directory: ExportDirectory,
    needle: Option<Seq<char>>,
) -> spec_fn(int) -> Seq<RuntimeExportView> {
    |index: int|
        {
            let base = Address(module.base.0);
            let name_rva = read_or_zero(memory, base.plus(directory.names + index * 4));
            let ordinal_index = match memory.read_u16(base.plus(directory.ordinals + index * 2)) {
                Some(value) => value,
                None => 0xffffu16,
            };
            let rva = read_or_zero(memory, base.plus(directory.functions + ordinal_index * 4));
            match memory.read_c_string(base.plus(name_rva as int), 512) {
                Some(name) => if name_rva != 0 && name_selected(name, needle) && ordinal_index
                    < directory.function_count && rva != 0 {
                    seq![
                        RuntimeExportView {
                            module: module.name,
                            name,
                            ordinal: ((directory.ordinal_base + ordinal_index) % 0x1_0000_0000)
                                as u32,
                            address: base.plus(rva as int),
                            rva: Rva(rva as u64),
                            forwarder: if directory.rva <= rva < directory.rva + directory.size {
                                memory.read_c_string(base.plus(rva as int), 512)
                            } else {
                                None
                            },
                        },
                    ]
                } else {
                    Seq::empty()
                },
                None => Seq::empty(),
            }
        }
}

/// The exports of a module whose names are wanted, in order of the name table.
pub open spec fn module_exports(
    memory: MemoryView,
    module: ModuleInfoView,
    needle: Option<Seq<char>>,
) -> Seq<RuntimeExportView> {
    match export_directory(memory, Address(module.base.0)) {
        Some(directory) => seqs::flat_below(
            directory.name_count as int,
            export_at(memory, module, directory, needle),
        ),
        None => Seq::empty(),
    }
}

/// Whether a name holds a text, whatever the case of its letters.
fn is_name_selected(name: &str, needle: Option<&str>) -> (selected: bool)
    ensures
        selected == name_selected(name@, needle.deep_view()),
{
    match needle {
        Some(needle) => text::contains(&text::lowered_chars(name), &text::lowered_chars(needle)),
        None => true,
    }
}

impl ArgusEngine {
    /// The optional header of a module and its magic number.
    fn optional_header_at(&self, base: Address) -> (found: Option<(Address, u16)>)
        ensures
            found == optional_header(self.memory(), base),
    {
        match self.read_u16_at(base) {
            Some(magic) => {
                if magic != 0x5a4d {
                    return None;
                }
            },
            None => {
                return None;
            },
        }
        let pe = match self.read_u32_at(base.offset(0x3c)) {
            Some(offset) => base.offset(offset as u64),
            None => {
                return None;
            },
        };
        match self.read_u32_at(pe) {
            Some(signature) => {
                if signature != 0x4550 {
                    return None;
                }
            },
            None => {
                return None;
            },
        }
        let header = pe.offset(24);
        match self.read_u16_at(header) {
            Some(magic) => {
                if magic == 0x10b || magic == 0x20b {
                    Some((header, magic))
                } else {
                    None
                }
            },
            None => None,
        }
    }

    /// A 32-bit number, or zero where there is none.
    fn read_u32_or_zero(&self, address: Address) -> (value: u32)
        ensures
            value == read_or_zero(self.memory(), address),
    {
        match self.read_u32_at(address) {
            Some(value) => value,
            None => 0,
        }
    }

    /// A text, or a stand-in where there is none.
    fn read_text_or_unknown(&self, address: Address) -> (text: String)
        ensures
            text@ == text_or_unknown(self.memory(), address),
    {
        match self.read_c_string_at(address, 256) {
            Some(found) => found,
            None => "<unknown>".to_string(),
        }
    }

    /// The import that an entry of a lookup table describes.
    fn import_at(
        &self,
        module: &ModuleInfo,
        dll: &str,
        width: usize,
        lookup: u64,
        iat_address: Address,
    ) -> (import: RuntimeImport)
        requires
            width == 4 || width == 8,
        ensures
            import.deep_view() == import_of(
                self.memory(),
                module.deep_view(),
                dll@,
                width as int,
                lookup,
                iat_address,
            ),
    {
        let flag: u64 = if width == 4 {
            0x8000_0000
        } else {
            0x8000_0000_0000_0000
        };
        let base = Address(module.base.0);
        let target = match self.read_sized_u64_at(iat_address, width) {
            Some(target) => Some(Address(target)),
            None => None,
        };
        let name: String;
        let ordinal: Option<u16>;
        if lookup >= flag {
            let number: u64 = lookup % 0x10000;
            let mut written = "#".to_string();
            text::push_decimal(&mut written, number);
            name = written;
            ordinal = Some(number as u16);
        } else {
            proof {
                base.lemma_plus_plus(lookup as int, 2);
            }
            name = self.read_text_or_unknown(base.offset(lookup).offset(2));
            ordinal = None;
        }
        RuntimeImport {
            module: module.name.clone(),
            dll: dll.to_string(),
            name,
            ordinal,
            iat_address,
            target,
        }
    }

    /// Appends the imports from one library, up to the limit.
    fn push_library_imports(
        &self,
        module: &ModuleInfo,
        dll: &str,
        width: usize,
        lookup_table: Address,
        import_table: Address,
        max_results: usize,
        imports: &mut Vec<RuntimeImport>,
    )
        requires
            width == 4 || width == 8,
            old(imports)@.len() <= max_results,
        ensures
            final(imports).deep_view() == old(imports).deep_view() + library_imports(
                self.memory(),
                module.deep_view(),
                dll@,
                width as int,
                lookup_table,
                import_table,
                max_results - old(imports)@.len(),
            ),
            final(imports)@.len() <= max_results,
    {
        let ghost memory = self.memory();
        let ghost view = module.deep_view();
        let ghost start = imports.deep_view();
        let ghost whole = start + library_imports(
            memory,
            view,
            dll@,
            width as int,
            lookup_table,
            import_table,
            max_results - imports@.len(),
        );
        let mut lookup_at = lookup_table;
        let mut iat_at = import_table;
        let mut finished = false;
        while imports.len() < max_results && !finished
            invariant
                width == 4 || width == 8,
                memory == self.memory(),
                view == module.deep_view(),
                imports@.len() <= max_results,
                finished ==> imports.deep_view() == whole,
                !finished ==> imports.deep_view() + library_imports(
                    memory,
                    view,
                    dll@,
                    width as int,
                    lookup_at,
                    iat_at,
                    max_results - imports@.len(),
                ) == whole,
            decreases max_results - imports@.len(),
                if finished {
                    0int
                } else {
                    1int
                },
        {
            let lookup: u64 = match self.read_sized_u64_at(lookup_at, width) {
                Some(lookup) => lookup,
                None => 0,
            };
            let ghost before = imports.deep_view();
            if lookup == 0 {
                finished = true;
                proof {
                    assert(before + Seq::<RuntimeImportView>::empty() =~= before);
                }
            } else {
                let import = self.import_at(module, dll, width, lookup, iat_at);
                let ghost added = import.deep_view();
                imports.push(import);
                lookup_at = lookup_at.offset(width as u64);
                iat_at = iat_at.offset(width as u64);
                proof {
                    let rest = library_imports(
                        memory,
                        view,
                        dll@,
                        width as int,
                        lookup_at,
                        iat_at,
                        max_results - imports@.len(),
                    );
                    assert(imports.deep_view() =~= before.push(added));
                    assert(before + (seq![added] + rest) =~= before.push(added) + rest);
                }
            }
        }
        proof {
            if !finished {
                assert(imports.deep_view() + Seq::<RuntimeImportView>::empty()
                    =~= imports.deep_view());
            }
        }
    }

    /// The imports that a list of descriptors gives.
    fn imports_from_descriptors(
        &self,
        module: &ModuleInfo,
        width: usize,
        first_descriptor: Address,
        max_results: usize,
    ) -> (imports: Vec<RuntimeImport>)
        requires
            width == 4 || width == 8,
        ensures
            imports.deep_view() == imports_from(
                self.memory(),
                module.deep_view(),
                width as int,
                first_descriptor,
                max_results as int,
            ),
    {
        let ghost memory = self.memory();
        let ghost view = module.deep_view();
        let base = Address(module.base.0);
        let ghost whole = imports_from(
            memory,
            view,
            width as int,
            first_descriptor,
            max_results as int,
        );
        let mut imports: Vec<RuntimeImport> = Vec::new();
        let mut descriptor = first_descriptor;
        let mut finished = false;
        proof {
            assert(imports.deep_view() + whole =~= whole);
        }
        while imports.len() < max_results && !finished
            invariant
                width == 4 || width == 8,
                memory == self.memory(),
                view == module.deep_view(),
                base == Address(view.base.0),
                imports@.len() <= max_results,
                finished ==> imports.deep_view() == whole,
                !finished ==> imports.deep_view() + imports_from(
                    memory,
                    view,
                    width as int,
                    descriptor,
                    max_results - imports@.len(),
                ) == whole,
            decreases evidence::address_space() - descriptor.0,
                if finished {
                    0int
                } else {
                    1int
                },
        {
            let ghost before = imports.deep_view();
            let ghost room = max_results - imports@.len();
            let original: u32 = self.read_u32_or_zero(descriptor);
            let name: u32 = self.read_u32_or_zero(descriptor.offset(12));
            let first: u32 = self.read_u32_or_zero(descriptor.offset(16));
            if original == 0 && name == 0 && first == 0 {
                finished = true;
                proof {
                    assert(before + Seq::<RuntimeImportView>::empty() =~= before);
                }
            } else {
                let dll = self.read_text_or_unknown(base.offset(name as u64));
                let lookup: u32 = if original != 0 {
                    original
                } else {
                    first
                };
                self.push_library_imports(
                    module,
                    &dll,
                    width,
                    base.offset(lookup as u64),
                    base.offset(first as u64),
                    max_results,
                    &mut imports,
                );
                let ghost here = descriptor_imports(
                    memory,
                    view,
                    width as int,
                    descriptor,
                    room,
                );
                proof {
                    assert(imports.deep_view() == before + here);
                    assert(imports.deep_view().len() == imports@.len());
                    assert(before.len() == max_results - room);
                }
                match descriptor.0.checked_add(20) {
                    Some(next) => {
                        proof {
                            let rest = imports_from(
                                memory,
                                view,
                                width as int,
                                Address(next),
                                room - here.len(),
                            );
                            assert(before + (here + rest) =~= (before + here) + rest);
                        }
                        descriptor = Address(next);
                    },
                    None => {
                        finished = true;
                    },
                }
            }
        }
        proof {
            if !finished {
                assert(imports.deep_view() + Seq::<RuntimeImportView>::empty()
                    =~= imports.deep_view());
            }
        }
        imports
    }

    /// The first `max_results` imports of a module.
    pub fn parse_imports_for_module(&self, module: &ModuleInfo, max_results: usize) -> (imports:
        Vec<RuntimeImport>)
        ensures
            imports.deep_view() == module_imports(
                self.memory(),
                module.deep_view(),
                max_results as int,
            ),
    {
        let base = Address(module.base.0);
        let none: Vec<RuntimeImport> = Vec::new();
        proof {
            assert(none.deep_view() =~= Seq::<RuntimeImportView>::empty());
        }
        let (header, magic) = match self.optional_header_at(base) {
            Some(found) => found,
            None => {
                return none;
            },
        };
        let directory_offset: u64 = if magic == 0x10b {
            104
        } else {
            120
        };
        let width: usize = if magic == 0x10b {
            4
        } else {
            8
        };
        match self.read_u32_at(header.offset(directory_offset)) {
            Some(rva) => {
                if rva == 0 {
                    return none;
                }
                self.imports_from_descriptors(
                    module,
                    width,
                    base.offset(rva as u64),
                    max_results,
                )
            },
            None => none,
        }
    }

    /// The first `max_results` imports of the module that a name selects.
    pub fn runtime_imports(&self, module_name: Option<&str>, max_results: usize) -> (imports: Vec<
        RuntimeImport,
    >)
        ensures
            imports.deep_view() == selected_imports(
                self.memory(),
                module_name.deep_view(),
                max_results as int,
            ),
    {
        match self.select_module(module_name) {
            Some(module) => self.parse_imports_for_module(module, max_results),
            None => {
                let none: Vec<RuntimeImport> = Vec::new();
                proof {
                    assert(none.deep_view() =~= Seq::<RuntimeImportView>::empty());
                }
                none
            },
        }
    }
}

/// The first `max` imports of the module that a name selects.
pub open spec fn selected_imports(
    memory: MemoryView,
    module_name: Option<Seq<char>>,
    max: int,
) -> Seq<RuntimeImportView> {
    match memory.select_module(module_name) {
        Some(module) => module_imports(memory, module, max),
        None => Seq::empty(),
    }
}

impl ArgusEngine {
    /// The export directory of a module.
    fn export_directory_at(&self, base: Address) -> (found: Option<ExportDirectory>)
        ensures
            found == export_directory(self.memory(), base),
    {
        let (header, magic) = match self.optional_header_at(base) {
            Some(found) => found,
            None => {
                return None;
            },
        };
        let entry = header.offset(
            if magic == 0x10b {
                96
            } else {
                112
            },
        );
        let rva: u32 = match self.read_u32_at(entry) {
            Some(rva) => rva,
            None => {
                return None;
            },
        };
        if rva == 0 {
            return None;
        }
        let at = base.offset(rva as u64);
        Some(
            ExportDirectory {
                rva,
                size: self.read_u32_or_zero(entry.offset(4)),
                ordinal_base: self.read_u32_or_zero(at.offset(16)),
                function_count: self.read_u32_or_zero(at.offset(20)),
                name_count: self.read_u32_or_zero(at.offset(24)),
                functions: self.read_u32_or_zero(at.offset(28)),
                names: self.read_u32_or_zero(at.offset(32)),
                ordinals: self.read_u32_or_zero(at.offset(36)),
            },
        )
    }

    /// The export that an entry of the name table describes.
    #[verifier::rlimit(60)]
    #[verifier::spinoff_prover]
    fn export_at_index(
        &self,
        module: &ModuleInfo,
        directory: &ExportDirectory,
        needle: Option<&str>,
        index: u32,
    ) -> (found: Option<RuntimeExport>)
        ensures
            export_at(self.memory(), module.deep_view(), *directory, needle.deep_view())(
                index as int,
            ) == seqs::optional(found.deep_view()),
    {
        let base = Address(module.base.0);
        let name_rva: u32 = self.read_u32_or_zero(
            base.offset(directory.names as u64 + index as u64 * 4),
        );
        let ordinal_index: u16 = match self.read_u16_at(
            base.offset(directory.ordinals as u64 + index as u64 * 2),
        ) {
            Some(value) => value,
            None => 0xffff,
        };
        let rva: u32 = self.read_u32_or_zero(
            base.offset(directory.functions as u64 + ordinal_index as u64 * 4),
        );
        if name_rva == 0 || ordinal_index as u32 >= directory.function_count || rva == 0 {
            return None;
        }
        let name = match self.read_c_string_at(base.offset(name_rva as u64), 512) {
            Some(name) => name,
            None => {
                return None;
            },
        };
        if !is_name_selected(&name, needle) {
            return None;
        }
        let forwarder = if directory.rva <= rva && (rva as u64) < directory.rva as u64
            + directory.size as u64 {
            self.read_c_string_at(base.offset(rva as u64), 512)
        } else {
            None
        };
        Some(
            RuntimeExport {
                module: module.name.clone(),
                name,
                ordinal: directory.ordinal_base.wrapping_add(ordinal_index as u32),
                address: base.offset(rva as u64),
                rva: Rva(rva as u64),
                forwarder,
            },
        )
    }

    /// The first `max_results` exports of a module whose names are wanted.
    pub fn parse_exports_for_module(
        &self,
        module: &ModuleInfo,
        name_contains: Option<&str>,
        max_results: usize,
    ) -> (exports: Vec<RuntimeExport>)
        ensures
            exports.deep_view() == seqs::capped(
                module_exports(self.memory(), module.deep_view(), name_contains.deep_view()),
                max_results as int,
            ),
    {
        let mut exports: Vec<RuntimeExport> = Vec::new();
        let ghost cap = max_results as int;
        proof {
            assert(exports.deep_view() =~= Seq::<RuntimeExportView>::empty());
        }
        let directory = match self.export_directory_at(Address(module.base.0)) {
            Some(directory) => directory,
            None => {
                return exports;
            },
        };
        let ghost f = export_at(
            self.memory(),
            module.deep_view(),
            directory,
            name_contains.deep_view(),
        );
        let mut index: u32 = 0;
        while index < directory.name_count && exports.len() < max_results
            invariant
                cap == max_results,
                f == export_at(
                    self.memory(),
                    module.deep_view(),
                    directory,
                    name_contains.deep_view(),
                ),
                index <= directory.name_count,
                exports.deep_view() == seqs::capped(seqs::flat_below(index as int, f), cap),
            decreases directory.name_count - index,
        {
            let ghost front = seqs::flat_below(index as int, f);
            let ghost before = exports.deep_view();
            proof {
                assert(before.len() == exports@.len());
            }
            match self.export_at_index(module, &directory, name_contains, index) {
                Some(export) => {
                    proof {
                        seqs::lemma_capped_push(front, export.deep_view(), cap);
                    }
                    let ghost added = export.deep_view();
                    exports.push(export);
                    proof {
                        assert(exports.deep_view() =~= before.push(added));
                    }
                },
                None => {
                    proof {
                        assert(front + f(index as int) =~= front);
                    }
                },
            }
            index += 1;
        }
        proof {
            if index < directory.name_count {
                assert(exports.deep_view().len() == exports@.len());
                let none = Seq::<RuntimeExportView>::empty();
                let count = directory.name_count as int;
                assert(none + seqs::flat_below(index as int, f) =~= seqs::flat_below(
                    index as int,
                    f,
                ));
                assert(none + seqs::flat_below(count, f) =~= seqs::flat_below(count, f));
                seqs::lemma_flat_below_full(none, index as int, count, f, cap);
            }
        }
        exports
    }

    /// The first `max_results` wanted exports of the modules whose names hold a
    /// text.
    pub fn runtime_exports(
        &self,
        module_name: Option<&str>,
        name_contains: Option<&str>,
        max_results: usize,
    ) -> (exports: Vec<RuntimeExport>)
        ensures
            exports.deep_view() == seqs::capped(
                selected_exports(
                    self.memory(),
                    module_name.deep_view(),
                    name_contains.deep_view(),
                ),
                max_results as int,
            ),
    {
        let ghost memory = self.memory();
        let ghost f = exports_in(memory, module_name.deep_view(), name_contains.deep_view());
        let ghost all = memory.modules;
        let ghost cap = max_results as int;
        let modules = self.modules();
        let mut exports: Vec<RuntimeExport> = Vec::new();
        let mut k: usize = 0;
        proof {
            seqs::lemma_flat_map_ends(all, f);
            assert(exports.deep_view() =~= Seq::<RuntimeExportView>::empty());
        }
        while k < modules.len() && exports.len() < max_results
            invariant
                k <= modules.len(),
                modules.deep_view() == all,
                memory == self.memory(),
                all == memory.modules,
                f == exports_in(memory, module_name.deep_view(), name_contains.deep_view()),
                cap == max_results,
                exports.deep_view() == seqs::capped(all.take(k as int).flat_map(f), cap),
            decreases modules.len() - k,
        {
            let module = &modules[k];
            let ghost front = all.take(k as int).flat_map(f);
            proof {
                assert(module.deep_view() == all[k as int]);
                seqs::lemma_flat_map_step(all, k as int, f);
                assert(exports.deep_view().len() == exports@.len());
                assert(front == exports.deep_view());
                seqs::lemma_capped_append(front, f(all[k as int]), cap);
            }
            if is_name_selected(&module.name, module_name) {
                let mut found = self.parse_exports_for_module(
                    module,
                    name_contains,
                    max_results - exports.len(),
                );
                let ghost more = found.deep_view();
                exports.append(&mut found);
                proof {
                    assert(exports.deep_view() =~= front + more);
                }
            } else {
                proof {
                    assert(front + f(all[k as int]) =~= front);
                }
            }
            k += 1;
        }
        proof {
            seqs::lemma_flat_map_ends(all, f);
            if k < modules.len() {
                assert(exports.deep_view().len() == exports@.len());
                seqs::lemma_flat_map_full(all, k as int, f, cap);
            }
        }
        exports
    }
}

/// The wanted exports of a module, where its name holds a text.
pub open spec fn exports_in(
    memory: MemoryView,
    module_name: Option<Seq<char>>,
    name_contains: Option<Seq<char>>,
) -> spec_fn(ModuleInfoView) -> Seq<RuntimeExportView> {
    |module: ModuleInfoView|
        if name_selected(module.name, module_name) {
            module_exports(memory, module, name_contains)
        } else {
            Seq::empty()
        }
}

/// The wanted exports of the modules whose names hold a text.
pub open spec fn selected_exports(
    memory: MemoryView,
    module_name: Option<Seq<char>>,
    name_contains: Option<Seq<char>>,
) -> Seq<RuntimeExportView> {
    memory.modules.flat_map(exports_in(memory, module_name, name_contains))
}

/// The thunk of an import at an offset of a region, where there is one.
pub open spec fn thunk_at(
    memory: MemoryView,
    arch: TargetArch,
    import: RuntimeImportView,
    region: MemoryRegionView,
) -> spec_fn(int) -> Seq<IatThunkView> {
    |offset: int|
        {
            let address = region.base.plus(offset);
            if transfer::indirect_operand(
                arch,
                address.0,
                region.bytes.subrange(offset, offset + 6),
            ) == Some(import.iat_address) {
                match rtti::first_instruction(decode::disassembly(memory, arch, address, 1)) {
                    Some(instruction) => seq![
                        IatThunkView { import, thunk_address: address, instruction },
                    ],
                    None => Seq::empty(),
                }
            } else {
                Seq::empty()
            }
        }
}

/// The thunks of an import in one region.
pub open spec fn thunks_in(
    memory: MemoryView,
    arch: TargetArch,
    import: RuntimeImportView,
) -> spec_fn(MemoryRegionView) -> Seq<IatThunkView> {
    |region: MemoryRegionView|
        if region.is_code() {
            seqs::flat_below(
                region.bytes.len() - 5,
                thunk_at(memory, arch, import, region),
            )
        } else {
            Seq::empty()
        }
}

/// Whether a region holds code, but fewer bytes than a jump through an import table
/// entry takes.
pub open spec fn too_short() -> spec_fn(MemoryRegionView) -> bool {
    |region: MemoryRegionView| region.is_code() && region.bytes.len() < 6
}

/// The regions in which the thunks of an import are sought: those before the first
/// that is too short to hold one.
pub open spec fn searched_regions(regions: Seq<MemoryRegionView>) -> Seq<MemoryRegionView> {
    match seqs::first_from(regions, 0, too_short()) {
        Some(i) => regions.take(i),
        None => regions,
    }
}

/// The thunks of an import, where its library and name hold a text.
pub open spec fn thunks_of(
    memory: MemoryView,
    arch: TargetArch,
    name_contains: Option<Seq<char>>,
) -> spec_fn(RuntimeImportView) -> Seq<IatThunkView> {
    |import: RuntimeImportView|
        if name_selected(import.dll + "!"@ + import.name, name_contains) {
            searched_regions(memory.regions).flat_map(thunks_in(memory, arch, import))
        } else {
            Seq::empty()
        }
}

impl ArgusEngine {
    /// Appends the thunks of an import in one code region, up to the limit.
    fn push_region_thunks(
        &self,
        import: &RuntimeImport,
        region: &MemoryRegion,
        max_results: usize,
        thunks: &mut Vec<IatThunk>,
    )
        requires
            region.deep_view().is_code(),
            region.bytes@.len() >= 6,
            old(thunks)@.len() <= max_results,
        ensures
            final(thunks).deep_view() == seqs::capped(
                old(thunks).deep_view() + thunks_in(
                    self.memory(),
                    self.arch(),
                    import.deep_view(),
                )(region.deep_view()),
                max_results as int,
            ),
            final(thunks)@.len() <= max_results,
    {
        let ghost f = thunk_at(
            self.memory(),
            self.arch(),
            import.deep_view(),
            region.deep_view(),
        );
        let ghost start = thunks.deep_view();
        let ghost cap = max_results as int;
        let count: usize = region.bytes.len() - 5;
        let mut offset: usize = 0;
        proof {
            assert(start + seqs::flat_below(0, f) =~= start);
            assert(start.len() == thunks@.len());
        }
        while offset < count && thunks.len() < max_results
            invariant
                offset <= count,
                count + 5 == region.bytes.len(),
                f == thunk_at(
                    self.memory(),
                    self.arch(),
                    import.deep_view(),
                    region.deep_view(),
                ),
                cap == max_results,
                thunks@.len() <= max_results,
                thunks.deep_view() == seqs::capped(
                    start + seqs::flat_below(offset as int, f),
                    cap,
                ),
            decreases count - offset,
        {
            let ghost front = start + seqs::flat_below(offset as int, f);
            let ghost before = thunks.deep_view();
            proof {
                assert(before.len() == thunks@.len());
                assert(start + seqs::flat_below(offset + 1, f) =~= front + f(offset as int));
            }
            let address = region.base.offset(offset as u64);
            let is_thunk = match self.indirect_pointer_operand(
                address.0,
                &region.bytes[offset..offset + 6],
            ) {
                Some(operand) => operand.0 == import.iat_address.0,
                None => false,
            };
            let mut found = false;
            if is_thunk {
                let instructions = self.disasm_at(address, 1);
                if instructions.len() > 0 {
                    proof {
                        assert(instructions.deep_view()[0] == instructions@[0].deep_view());
                    }
                    let thunk = IatThunk {
                        import: import.clone(),
                        thunk_address: address,
                        instruction: instructions[0].clone(),
                    };
                    let ghost added = thunk.deep_view();
                    proof {
                        assert(f(offset as int) =~= seq![added]);
                        seqs::lemma_capped_push(front, added, cap);
                    }
                    thunks.push(thunk);
                    found = true;
                    proof {
                        assert(thunks.deep_view() =~= before.push(added));
                    }
                }
            }
            proof {
                if !found {
                    assert(front + f(offset as int) =~= front);
                }
            }
            offset += 1;
        }
        proof {
            if offset < count {
                assert(thunks.deep_view().len() == thunks@.len());
                seqs::lemma_flat_below_full(start, offset as int, count as int, f, cap);
            }
        }
    }

    /// Appends the thunks of an import, up to the limit.
    fn push_import_thunks(
        &self,
        import: &RuntimeImport,
        max_results: usize,
        thunks: &mut Vec<IatThunk>,
    )
        requires
            old(thunks)@.len() <= max_results,
        ensures
            final(thunks).deep_view() == seqs::capped(
                old(thunks).deep_view() + searched_regions(self.memory().regions).flat_map(
                    thunks_in(self.memory(), self.arch(), import.deep_view()),
                ),
                max_results as int,
            ),
            final(thunks)@.len() <= max_results,
    {
        let ghost memory = self.memory();
        let ghost f = thunks_in(memory, self.arch(), import.deep_view());
        let ghost all = memory.regions;
        let ghost start = thunks.deep_view();
        let ghost cap = max_results as int;
        let ghost short = too_short();
        let ghost searched = searched_regions(all);
        let regions = self.regions();
        let mut k: usize = 0;
        proof {
            seqs::lemma_flat_map_ends(all, f);
            assert(start + Seq::<IatThunkView>::empty() =~= start);
            assert(start.len() == thunks@.len());
        }
        while k < regions.len() && thunks.len() < max_results
            invariant_except_break
                seqs::first_from(all, 0, short) == seqs::first_from(all, k as int, short),
            invariant
                k <= regions.len(),
                regions.deep_view() == all,
                memory == self.memory(),
                all == memory.regions,
                f == thunks_in(memory, self.arch(), import.deep_view()),
                cap == max_results,
                short == too_short(),
                searched == searched_regions(all),
                thunks@.len() <= max_results,
                thunks.deep_view() == seqs::capped(
                    start + all.take(k as int).flat_map(f),
                    cap,
                ),
            ensures
                searched == all.take(k as int) || seqs::first_from(all, 0, short)
                    == seqs::first_from(all, k as int, short),
                k < regions.len() && thunks@.len() < max_results ==> searched == all.take(k as int),
            decreases regions.len() - k,
        {
            let region = &regions[k];
            let ghost front = start + all.take(k as int).flat_map(f);
            proof {
                assert(region.deep_view() == all[k as int]);
                seqs::lemma_flat_map_step(all, k as int, f);
                assert(thunks.deep_view().len() == thunks@.len());
                assert(front == thunks.deep_view());
                assert(start + all.take(k + 1).flat_map(f) =~= front + f(all[k as int]));
            }
            if region.is_code() {
                if region.bytes.len() < 6 {
                    break;
                }
                self.push_region_thunks(import, region, max_results, thunks);
            } else {
                proof {
                    assert(front + f(all[k as int]) =~= front);
                }
            }
            k += 1;
        }
        proof {
            assert(thunks.deep_view().len() == thunks@.len());
            seqs::lemma_first_from(all, k as int, short);
            if searched != all.take(k as int) {
                assert(searched.take(k as int) =~= all.take(k as int));
                if k == regions.len() {
                    assert(searched =~= all.take(k as int));
                } else {
                    seqs::lemma_flat_map_prefix(searched, k as int, f);
                    seqs::lemma_capped_full(
                        start + all.take(k as int).flat_map(f),
                        start + searched.flat_map(f),
                        cap,
                    );
                }
            }
        }
    }

    /// Finds the code that goes through the import table entries of a module. The search
    /// for one import ends at the first code region that is too short for such code.
    pub fn resolve_iat_thunks(
        &self,
        module_name: Option<&str>,
        name_contains: Option<&str>,
        max_results: usize,
    ) -> (thunks: Vec<IatThunk>)
        ensures
            thunks.deep_view() == seqs::capped(
                selected_imports(
                    self.memory(),
                    module_name.deep_view(),
                    max_results as int,
                ).flat_map(thunks_of(self.memory(), self.arch(), name_contains.deep_view())),
                max_results as int,
            ),
    {
        let ghost f = thunks_of(self.memory(), self.arch(), name_contains.deep_view());
        let ghost cap = max_results as int;
        let imports = self.runtime_imports(module_name, max_results);
        let ghost all = imports.deep_view();
        let mut thunks: Vec<IatThunk> = Vec::new();
        let mut i: usize = 0;
        proof {
            seqs::lemma_flat_map_ends(all, f);
            assert(thunks.deep_view() =~= Seq::<IatThunkView>::empty());
        }
        while i < imports.len()
            invariant
                i <= imports.len(),
                all == imports.deep_view(),
                f == thunks_of(self.memory(), self.arch(), name_contains.deep_view()),
                cap == max_results,
                thunks@.len() <= max_results,
                thunks.deep_view() == seqs::capped(all.take(i as int).flat_map(f), cap),
            decreases imports.len() - i,
        {
            let import = &imports[i];
            let ghost front = all.take(i as int).flat_map(f);
            let ghost part = f(all[i as int]);
            proof {
                assert(import.deep_view() == all[i as int]);
                seqs::lemma_flat_map_step(all, i as int, f);
                seqs::lemma_capped_front(front, part, cap);
            }
            let mut full_name = import.dll.clone();
            full_name.append("!");
            full_name.append(&import.name);
            if is_name_selected(&full_name, name_contains) {
                self.push_import_thunks(import, max_results, &mut thunks);
            } else {
                proof {
                    assert(front + part =~= front);
                }
            }
            i += 1;
        }
        proof {
            seqs::lemma_flat_map_ends(all, f);
        }
        thunks
    }
}

/// The optional header of a module is found behind `MZ`, the offset at 60 and `PE\0\0`,
/// where its magic number is that of a 32-bit or of a 64-bit image.
pub proof fn law_optional_header(memory: MemoryView, base: Address, header: Address, magic: u16)
    ensures
        optional_header(memory, base) == Some((header, magic)) <==> memory.read_u16(base) == Some(
            0x5a4du16,
        ) && (magic == 0x10b || magic == 0x20b) && memory.read_u16(header) == Some(magic) && (
        memory.read_u32(base.plus(60)) matches Some(offset) && header.0 == (base.0 + offset + 24)
            % 0x1_0000_0000_0000_0000 && memory.read_u32(
            Address(((base.0 + offset) % 0x1_0000_0000_0000_0000) as u64),
        ) == Some(0x4550u32)),
{
    if let Some(offset) = memory.read_u32(base.plus(60)) {
        base.lemma_plus_plus(offset as int, 24);
    }
}

/// Where place `k` of a table lies whose places take `width` bytes each.
#[verifier::opaque]
pub open spec fn slot(table: Address, width: int, k: int) -> Address {
    Address(((table.0 + k * width) % 0x1_0000_0000_0000_0000) as u64)
}

/// Whether an import is what place `k` of two tables tells: the lookup table tells what is
/// imported, and the other table holds where it leads, in the slot at the same place.
pub open spec fn stands_in_slot(
    memory: MemoryView,
    module: ModuleInfoView,
    width: int,
    lookup_table: Address,
    import_table: Address,
    k: int,
    import: RuntimeImportView,
) -> bool {
    let flag: int = if width == 4 {
        0x8000_0000
    } else {
        0x8000_0000_0000_0000
    };
    &&& import.module == module.name
    &&& import.iat_address == slot(import_table, width, k)
    &&& match memory.read_sized(import.iat_address, width) {
        Some(pointer) => import.target == Some(Address(pointer)),
        None => import.target is None,
    }
    &&& memory.read_sized(slot(lookup_table, width, k), width) matches Some(lookup) && lookup != 0
        && (if lookup >= flag {
        import.ordinal == Some((lookup % 0x10000) as u16) && import.name == "#"@
            + text::decimal_text((lookup % 0x10000) as nat)
    } else {
        import.ordinal is None && import.name == (match memory.read_c_string(
            Address(((module.base.0 + lookup + 2) % 0x1_0000_0000_0000_0000) as u64),
            256,
        ) {
            Some(name) => name,
            None => "<unknown>"@,
        })
    })
}

/// Whether the lookup table lists something at a place.
pub open spec fn lists_at(memory: MemoryView, width: int, lookup_table: Address, k: int) -> bool {
    match memory.read_sized(slot(lookup_table, width, k), width) {
        Some(lookup) => lookup != 0,
        None => false,
    }
}

/// The imports from one library stand in the slots of its tables, one behind the other,
/// up to the first place at which nothing is listed; each slot has an address of its own.
pub proof fn law_library_imports(
    memory: MemoryView,
    module: ModuleInfoView,
    dll: Seq<char>,
    width: int,
    lookup_table: Address,
    import_table: Address,
    room: int,
)
    requires
        0 <= room,
        width == 4 || width == 8,
    ensures
        ({
            let imports = library_imports(
                memory,
                module,
                dll,
                width,
                lookup_table,
                import_table,
                room,
            );
            &&& imports.len() <= room
            &&& forall|k: int|
                0 <= k < imports.len() ==> (#[trigger] imports[k]).dll == dll && stands_in_slot(
                    memory,
                    module,
                    width,
                    lookup_table,
                    import_table,
                    k,
                    imports[k],
                )
            &&& imports.len() == room || !lists_at(
                memory,
                width,
                lookup_table,
                imports.len() as int,
            )
            &&& forall|k: int, l: int|
                0 <= k < l < imports.len() && l - k < 0x1000_0000_0000_0000 ==> (
                #[trigger] imports[k]).iat_address != (#[trigger] imports[l]).iat_address
        }),
{
    lemma_library_imports(memory, module, dll, width, lookup_table, import_table, room);
    let imports = library_imports(memory, module, dll, width, lookup_table, import_table, room);
    assert forall|k: int, l: int|
        0 <= k < l < imports.len() && l - k < 0x1000_0000_0000_0000 implies (
    #[trigger] imports[k]).iat_address != (#[trigger] imports[l]).iat_address by {
        lemma_slots_differ(import_table, width, k, l);
    }
}

proof fn lemma_slots_differ(table: Address, width: int, k: int, l: int)
    requires
        0 <= k < l,
        l - k < 0x1000_0000_0000_0000,
        width == 4 || width == 8,
    ensures
        slot(table, width, k) != slot(table, width, l),
{
    reveal(slot);
    assert(l * width == k * width + (l - k) * width) by (nonlinear_arith);
    assert(0 < (l - k) * width < 0x1_0000_0000_0000_0000) by (nonlinear_arith)
        requires
            0 < l - k < 0x1000_0000_0000_0000,
            width == 4 || width == 8,
    ;
    let a = table.0 + k * width;
    let d = (l - k) * width;
    let space = 0x1_0000_0000_0000_0000int;
    assert(a % space != (a + d) % space) by {
        if a % space == (a + d) % space {
            vstd::arithmetic::div_mod::lemma_fundamental_div_mod(a, space);
            vstd::arithmetic::div_mod::lemma_fundamental_div_mod(a + d, space);
        }
    }
}

proof fn lemma_library_imports(
    memory: MemoryView,
    module: ModuleInfoView,
    dll: Seq<char>,
    width: int,
    lookup_table: Address,
    import_table: Address,
    room: int,
)
    requires
        0 <= room,
        width == 4 || width == 8,
    ensures
        ({
            let imports = library_imports(
                memory,
                module,
                dll,
                width,
                lookup_table,
                import_table,
                room,
            );
            &&& imports.len() <= room
            &&& forall|k: int|
                0 <= k < imports.len() ==> (#[trigger] imports[k]).dll == dll && stands_in_slot(
                    memory,
                    module,
                    width,
                    lookup_table,
                    import_table,
                    k,
                    imports[k],
                )
            &&& imports.len() == room || !lists_at(
                memory,
                width,
                lookup_table,
                imports.len() as int,
            )
        }),
    decreases room,
{
    let imports = library_imports(memory, module, dll, width, lookup_table, import_table, room);
    lemma_slot_shift(lookup_table, width, 0);
    lemma_slot_shift(import_table, width, 0);
    if room > 0 && lists_at(memory, width, lookup_table, 0) {
        let next_lookup = lookup_table.plus(width);
        let next_import = import_table.plus(width);
        lemma_library_imports(memory, module, dll, width, next_lookup, next_import, room - 1);
        let rest = library_imports(
            memory,
            module,
            dll,
            width,
            next_lookup,
            next_import,
            room - 1,
        );
        assert(imports == seq![imports[0]] + rest);
        assert forall|k: int| 0 <= k < imports.len() implies (#[trigger] imports[k]).dll == dll
            && stands_in_slot(
            memory,
            module,
            width,
            lookup_table,
            import_table,
            k,
            imports[k],
        ) by {
            if k > 0 {
                assert(imports[k] == rest[k - 1]);
                lemma_slot_shift(lookup_table, width, k);
                lemma_slot_shift(import_table, width, k);
            }
        }
        lemma_slot_shift(lookup_table, width, imports.len() as int);
    }
}

proof fn lemma_slot_shift(table: Address, width: int, k: int)
    ensures
        slot(table.plus(width), width, k - 1) == slot(table, width, k),
        slot(table, width, 0) == table,
{
    reveal(slot);
    assert((k - 1) * width == k * width - width) by (nonlinear_arith);
    assert(0 * width == 0);
    table.lemma_plus_plus(width, (k - 1) * width);
}

/// The 32-bit number at an address; one that cannot be read counts as zero.
pub proof fn law_read_or_zero(memory: MemoryView, address: Address)
    ensures
        match memory.read_u32(address) {
            Some(value) => read_or_zero(memory, address) == value,
            None => read_or_zero(memory, address) == 0,
        },
{
}

/// The lookup table of a descriptor: its first field leads there, or its last one where the
/// first is zero.
pub open spec fn lookup_table_of(
    memory: MemoryView,
    module: ModuleInfoView,
    descriptor: Address,
) -> Address {
    let original = read_or_zero(memory, descriptor);
    let lookup = if original != 0 {
        original
    } else {
        read_or_zero(memory, descriptor.plus(16))
    };
    Address(((module.base.0 + lookup) % 0x1_0000_0000_0000_0000) as u64)
}

/// Whether a descriptor tells of an import: its name field leads to the name of the
/// library, its last field to the import table.
#[verifier::opaque]
pub open spec fn described(
    memory: MemoryView,
    module: ModuleInfoView,
    width: int,
    descriptor: Address,
    k: int,
    import: RuntimeImportView,
) -> bool {
    let space = 0x1_0000_0000_0000_0000int;
    let name = read_or_zero(memory, descriptor.plus(12));
    let first = read_or_zero(memory, descriptor.plus(16));
    &&& import.dll == (match memory.read_c_string(
        Address(((module.base.0 + name) % space) as u64),
        256,
    ) {
        Some(found) => found,
        None => "<unknown>"@,
    })
    &&& stands_in_slot(
        memory,
        module,
        width,
        lookup_table_of(memory, module, descriptor),
        Address(((module.base.0 + first) % space) as u64),
        k,
        import,
    )
}

/// Whether the lookup table of a descriptor lists something at every place up to `k`.
#[verifier::opaque]
pub open spec fn listed_to(
    memory: MemoryView,
    module: ModuleInfoView,
    width: int,
    descriptor: Address,
    k: int,
) -> bool {
    0 <= k && forall|j: int|
        0 <= j <= k ==> #[trigger] lists_at(
            memory,
            width,
            lookup_table_of(memory, module, descriptor),
            j,
        )
}

/// Where descriptor `d` of a list lies.
#[verifier::opaque]
pub open spec fn descriptor_at(descriptors: Address, d: int) -> Address {
    Address(((descriptors.0 + 20 * d) % 0x1_0000_0000_0000_0000) as u64)
}

/// Whether descriptor `d` of a list is in use: it and those before it exist, and none of
/// them is all zeros.
#[verifier::opaque]
pub open spec fn in_use(memory: MemoryView, descriptors: Address, d: int) -> bool {
    &&& 0 <= d
    &&& descriptors.0 + 20 * d < 0x1_0000_0000_0000_0000
    &&& forall|e: int|
        0 <= e <= d ==> {
            let at = #[trigger] descriptor_at(descriptors, e);
            read_or_zero(memory, at) != 0 || read_or_zero(memory, at.plus(12)) != 0 || read_or_zero(
                memory,
                at.plus(16),
            ) != 0
        }
}

proof fn lemma_in_use_next(memory: MemoryView, descriptors: Address, d: int)
    requires
        descriptors.0 + 20 < 0x1_0000_0000_0000_0000,
        in_use(memory, descriptors, 0),
        0 <= d,
    ensures
        in_use(memory, Address((descriptors.0 + 20) as u64), d) <==> in_use(
            memory,
            descriptors,
            d + 1,
        ),
        descriptor_at(Address((descriptors.0 + 20) as u64), d) == descriptor_at(descriptors, d + 1),
{
    reveal(in_use);
    let next = Address((descriptors.0 + 20) as u64);
    assert(next == descriptors.plus(20));
    assert forall|e: int| #[trigger]
        descriptor_at(next, e) == descriptor_at(descriptors, e + 1) by {
        reveal(descriptor_at);
        descriptors.lemma_plus_plus(20, 20 * e);
    }
    if in_use(memory, next, d) {
        assert forall|e: int| 0 <= e <= d + 1 implies {
            let at = #[trigger] descriptor_at(descriptors, e);
            read_or_zero(memory, at) != 0 || read_or_zero(memory, at.plus(12)) != 0 || read_or_zero(
                memory,
                at.plus(16),
            ) != 0
        } by {
            if e > 0 {
                assert(descriptor_at(next, e - 1) == descriptor_at(descriptors, e));
            } else {
                assert(descriptor_at(descriptors, 0) == descriptor_at(descriptors, e));
            }
        }
    }
    if in_use(memory, descriptors, d + 1) {
        assert forall|e: int| 0 <= e <= d implies {
            let at = #[trigger] descriptor_at(next, e);
            read_or_zero(memory, at) != 0 || read_or_zero(memory, at.plus(12)) != 0 || read_or_zero(
                memory,
                at.plus(16),
            ) != 0
        } by {
            assert(descriptor_at(next, e) == descriptor_at(descriptors, e + 1));
        }
    }
}

/// Whether a descriptor in use tells of an import.
#[verifier::opaque]
pub open spec fn told(
    memory: MemoryView,
    module: ModuleInfoView,
    width: int,
    descriptors: Address,
    import: RuntimeImportView,
) -> bool {
    exists|d: int, k: int|
        in_use(memory, descriptors, d) && listed_to(
            memory,
            module,
            width,
            descriptor_at(descriptors, d),
            k,
        ) && #[trigger] described(
            memory,
            module,
            width,
            descriptor_at(descriptors, d),
            k,
            import,
        )
}

/// Whether there is an import for every place of every descriptor in use.
#[verifier::opaque]
pub open spec fn misses_none(
    memory: MemoryView,
    module: ModuleInfoView,
    width: int,
    descriptors: Address,
    imports: Seq<RuntimeImportView>,
) -> bool {
    forall|d: int, k: int|
        in_use(memory, descriptors, d) && #[trigger] listed_to(
            memory,
            module,
            width,
            descriptor_at(descriptors, d),
            k,
        ) ==> exists|i: int|
            0 <= i < imports.len() && described(
                memory,
                module,
                width,
                descriptor_at(descriptors, d),
                k,
                #[trigger] imports[i],
            )
}

/// Whether imports are those that a list of descriptors tells of: a descriptor in use
/// tells of each, and unless the limit cut the list off none is missing.
pub open spec fn tell_imports(
    memory: MemoryView,
    module: ModuleInfoView,
    width: int,
    descriptors: Address,
    room: int,
    imports: Seq<RuntimeImportView>,
) -> bool {
    &&& imports.len() <= room
    &&& forall|i: int|
        0 <= i < imports.len() ==> told(
            memory,
            module,
            width,
            descriptors,
            #[trigger] imports[i],
        )
    &&& imports.len() < room ==> misses_none(memory, module, width, descriptors, imports)
}

proof fn lemma_descriptor_imports(
    memory: MemoryView,
    module: ModuleInfoView,
    width: int,
    descriptor: Address,
    room: int,
)
    requires
        0 <= room,
        width == 4 || width == 8,
    ensures
        ({
            let here = descriptor_imports(memory, module, width, descriptor, room);
            &&& here.len() <= room
            &&& forall|k: int|
                0 <= k < here.len() ==> #[trigger] listed_to(memory, module, width, descriptor, k)
            &&& forall|k: int|
                0 <= k < here.len() ==> described(
                    memory,
                    module,
                    width,
                    descriptor,
                    k,
                    #[trigger] here[k],
                )
            &&& here.len() < room ==> forall|k: int| #[trigger]
                listed_to(memory, module, width, descriptor, k) ==> 0 <= k < here.len()
        }),
{
    reveal(described);
    reveal(listed_to);
    let base = Address(module.base.0);
    let name = read_or_zero(memory, descriptor.plus(12));
    let first = read_or_zero(memory, descriptor.plus(16));
    let table = lookup_table_of(memory, module, descriptor);
    let dll = text_or_unknown(memory, base.plus(name as int));
    law_library_imports(memory, module, dll, width, table, base.plus(first as int), room);
    let here = descriptor_imports(memory, module, width, descriptor, room);
    assert(here == library_imports(
        memory,
        module,
        dll,
        width,
        table,
        base.plus(first as int),
        room,
    ));
    assert forall|k: int| 0 <= k < here.len() implies #[trigger] listed_to(
        memory,
        module,
        width,
        descriptor,
        k,
    ) by {
        assert forall|j: int| 0 <= j <= k implies #[trigger] lists_at(memory, width, table, j) by {
            assert(stands_in_slot(
                memory,
                module,
                width,
                table,
                base.plus(first as int),
                j,
                here[j],
            ));
        }
    }
    if here.len() < room {
        assert forall|k: int| #[trigger] listed_to(memory, module, width, descriptor, k) implies 0
            <= k < here.len() by {
            if k >= here.len() {
                assert(lists_at(memory, width, table, here.len() as int));
            }
        }
    }
}

proof fn lemma_first_in_use(memory: MemoryView, descriptors: Address, d: int)
    ensures
        descriptor_at(descriptors, 0) == descriptors,
        in_use(memory, descriptors, 0) <==> !ends_descriptors(memory, descriptors),
        in_use(memory, descriptors, d) ==> 0 <= d && descriptors.0 + 20 * d
            < 0x1_0000_0000_0000_0000 && !ends_descriptors(memory, descriptors),
{
    reveal(in_use);
    assert(descriptor_at(descriptors, 0) == descriptors) by {
        reveal(descriptor_at);
    }
    if !ends_descriptors(memory, descriptors) {
        assert forall|e: int| 0 <= e <= 0 implies {
            let at = #[trigger] descriptor_at(descriptors, e);
            read_or_zero(memory, at) != 0 || read_or_zero(memory, at.plus(12)) != 0 || read_or_zero(
                memory,
                at.plus(16),
            ) != 0
        } by {
            assert(descriptor_at(descriptors, e) == descriptors);
        }
    }
}

proof fn lemma_told_next(
    memory: MemoryView,
    module: ModuleInfoView,
    width: int,
    descriptors: Address,
    import: RuntimeImportView,
)
    requires
        descriptors.0 + 20 < 0x1_0000_0000_0000_0000,
        in_use(memory, descriptors, 0),
        told(memory, module, width, Address((descriptors.0 + 20) as u64), import),
    ensures
        told(memory, module, width, descriptors, import),
{
    reveal(told);
    let next = Address((descriptors.0 + 20) as u64);
    let (d, k) = choose|d: int, k: int|
        in_use(memory, next, d) && listed_to(memory, module, width, descriptor_at(next, d), k)
            && #[trigger] described(
            memory,
            module,
            width,
            descriptor_at(next, d),
            k,
            import,
        );
    lemma_first_in_use(memory, next, d);
    lemma_in_use_next(memory, descriptors, d);
    assert(described(memory, module, width, descriptor_at(descriptors, d + 1), k, import));
}

proof fn lemma_misses_none(
    memory: MemoryView,
    module: ModuleInfoView,
    width: int,
    descriptors: Address,
    here: Seq<RuntimeImportView>,
    rest: Seq<RuntimeImportView>,
)
    requires
        in_use(memory, descriptors, 0),
        forall|k: int|
            0 <= k < here.len() ==> described(
                memory,
                module,
                width,
                descriptors,
                k,
                #[trigger] here[k],
            ),
        forall|k: int| #[trigger]
            listed_to(memory, module, width, descriptors, k) ==> 0 <= k < here.len(),
        descriptors.0 + 20 < 0x1_0000_0000_0000_0000 ==> misses_none(
            memory,
            module,
            width,
            Address((descriptors.0 + 20) as u64),
            rest,
        ),
    ensures
        misses_none(memory, module, width, descriptors, here + rest),
{
    reveal(misses_none);
    let all = here + rest;
    let next = Address((descriptors.0 + 20) as u64);
    assert forall|d: int, k: int|
        in_use(memory, descriptors, d) && #[trigger] listed_to(
            memory,
            module,
            width,
            descriptor_at(descriptors, d),
            k,
        ) implies exists|i: int|
        0 <= i < all.len() && described(
            memory,
            module,
            width,
            descriptor_at(descriptors, d),
            k,
            #[trigger] all[i],
        ) by {
        lemma_first_in_use(memory, descriptors, d);
        if d == 0 {
            assert(all[k] == here[k]);
        } else {
            lemma_in_use_next(memory, descriptors, d - 1);
            assert(listed_to(memory, module, width, descriptor_at(next, d - 1), k));
            let j = choose|j: int|
                0 <= j < rest.len() && described(
                    memory,
                    module,
                    width,
                    descriptor_at(next, d - 1),
                    k,
                    #[trigger] rest[j],
                );
            assert(all[here.len() + j] == rest[j]);
        }
    }
}

proof fn lemma_imports_from(
    memory: MemoryView,
    module: ModuleInfoView,
    width: int,
    descriptors: Address,
    room: int,
)
    requires
        0 <= room,
        width == 4 || width == 8,
    ensures
        tell_imports(
            memory,
            module,
            width,
            descriptors,
            room,
            imports_from(memory, module, width, descriptors, room),
        ),
    decreases 0x1_0000_0000_0000_0000 - descriptors.0,
{
    let all = imports_from(memory, module, width, descriptors, room);
    lemma_first_in_use(memory, descriptors, 0);
    if room > 0 && !ends_descriptors(memory, descriptors) {
        let here = descriptor_imports(memory, module, width, descriptors, room);
        lemma_descriptor_imports(memory, module, width, descriptors, room);
        let more = descriptors.0 + 20 < 0x1_0000_0000_0000_0000;
        let next = Address((descriptors.0 + 20) as u64);
        let rest = if more {
            imports_from(memory, module, width, next, room - here.len())
        } else {
            Seq::empty()
        };
        if more {
            lemma_imports_from(memory, module, width, next, room - here.len());
        }
        assert(all =~= here + rest);
        assert forall|i: int| 0 <= i < all.len() implies told(
            memory,
            module,
            width,
            descriptors,
            #[trigger] all[i],
        ) by {
            if i < here.len() {
                assert(all[i] == here[i]);
                assert(listed_to(memory, module, width, descriptors, i));
                assert(told(memory, module, width, descriptors, all[i])) by {
                    reveal(told);
                    assert(described(
                        memory,
                        module,
                        width,
                        descriptor_at(descriptors, 0),
                        i,
                        all[i],
                    ));
                }
            } else {
                assert(all[i] == rest[i - here.len()]);
                lemma_told_next(memory, module, width, descriptors, all[i]);
            }
        }
        if all.len() < room {
            lemma_misses_none(memory, module, width, descriptors, here, rest);
        }
    } else if room > 0 {
        reveal(misses_none);
        assert forall|d: int, k: int|
            in_use(memory, descriptors, d) && #[trigger] listed_to(
                memory,
                module,
                width,
                descriptor_at(descriptors, d),
                k,
            ) implies false by {
            lemma_first_in_use(memory, descriptors, d);
        }
    }
}

/// The imports of a module are those that its import descriptors tell of, 104 bytes into
/// the optional header of a 32-bit image and 120 bytes into that of a 64-bit one, whose
/// slots take four and eight bytes. A module without a header or without descriptors
/// imports nothing.
pub proof fn law_module_imports(memory: MemoryView, module: ModuleInfoView, max: int)
    requires
        0 <= max,
    ensures
        ({
            let imports = module_imports(memory, module, max);
            match optional_header(memory, Address(module.base.0)) {
                Some((header, magic)) => {
                    let wide = magic == 0x20b;
                    let at = Address(
                        ((header.0 + if wide {
                            120int
                        } else {
                            104
                        }) % 0x1_0000_0000_0000_0000) as u64,
                    );
                    match memory.read_u32(at) {
                        Some(rva) => if rva == 0 {
                            imports.len() == 0
                        } else {
                            tell_imports(
                                memory,
                                module,
                                if wide {
                                    8
                                } else {
                                    4
                                },
                                Address(
                                    ((module.base.0 + rva) % 0x1_0000_0000_0000_0000) as u64,
                                ),
                                max,
                                imports,
                            )
                        },
                        None => imports.len() == 0,
                    }
                },
                None => imports.len() == 0,
            }
        }),
{
    let base = Address(module.base.0);
    if let Some((header, magic)) = optional_header(memory, base) {
        let at = header.plus(
            if magic == 0x10b {
                104
            } else {
                120
            },
        );
        assert(magic == 0x10b || magic == 0x20b);
        if let Some(rva) = memory.read_u32(at) {
            lemma_imports_from(
                memory,
                module,
                if magic == 0x10b {
                    4
                } else {
                    8
                },
                base.plus(rva as int),
                max,
            );
        }
    }
}

/// The export directory of a module is found 96 bytes into the optional header of a 32-bit
/// image and 112 bytes into that of a 64-bit one; its fields lie where the format puts
/// them, and one that cannot be read is zero.
pub proof fn law_export_directory(memory: MemoryView, base: Address)
    ensures
        match optional_header(memory, base) {
            Some((header, magic)) => {
                let entry = header.plus(
                    if magic == 0x20b {
                        112
                    } else {
                        96
                    },
                );
                match export_directory(memory, base) {
                    Some(directory) => {
                        let at = base.plus(directory.rva as int);
                        &&& directory.rva != 0
                        &&& memory.read_u32(entry) == Some(directory.rva)
                        &&& directory.size == read_or_zero(memory, entry.plus(4))
                        &&& directory.ordinal_base == read_or_zero(memory, at.plus(16))
                        &&& directory.function_count == read_or_zero(memory, at.plus(20))
                        &&& directory.name_count == read_or_zero(memory, at.plus(24))
                        &&& directory.functions == read_or_zero(memory, at.plus(28))
                        &&& directory.names == read_or_zero(memory, at.plus(32))
                        &&& directory.ordinals == read_or_zero(memory, at.plus(36))
                    },
                    None => read_or_zero(memory, entry) == 0,
                }
            },
            None => export_directory(memory, base) is None,
        },
{
    if let Some((header, magic)) = optional_header(memory, base) {
        assert(magic == 0x10b || magic == 0x20b);
    }
}

/// Whether an export is what place `index` of the name table tells: its name stands there,
/// its ordinal stands at the same place of the ordinal table, and where it leads stands in
/// the function table at the place of the ordinal. It is a forward where it leads into the
/// directory.
pub open spec fn exported(
    memory: MemoryView,
    module: ModuleInfoView,
    directory: ExportDirectory,
    index: int,
    export: RuntimeExportView,
) -> bool {
    let base = Address(module.base.0);
    let name_rva = read_or_zero(memory, base.plus(directory.names + 4 * index));
    let place = place_of(directory.ordinal_base, export.ordinal);
    &&& export.module == module.name
    &&& name_rva != 0
    &&& memory.read_c_string(base.plus(name_rva as int), 512) == Some(export.name)
    &&& place < directory.function_count
    &&& match memory.read_u16(base.plus(directory.ordinals + 2 * index)) {
        Some(number) => place == number,
        None => place == 0xffff,
    }
    &&& export.rva.0 != 0
    &&& memory.read_u32(base.plus(directory.functions + 4 * place)) matches Some(rva) && rva
        == export.rva.0
    &&& export.address == base.plus(export.rva.0 as int)
    &&& export.forwarder == if directory.rva <= export.rva.0 < directory.rva + directory.size {
        memory.read_c_string(export.address, 512)
    } else {
        None
    }
}

/// The place of an ordinal in the function table: how far it lies behind the first one.
pub open spec fn place_of(ordinal_base: u32, ordinal: u32) -> int {
    (ordinal - ordinal_base) % 0x1_0000_0000
}

proof fn lemma_place_of(ordinal_base: u32, place: u16, ordinal: u32)
    ensures
        place_of(ordinal_base, ordinal) == place <==> ordinal == ((ordinal_base + place)
            % 0x1_0000_0000) as u32,
{
}

proof fn lemma_export_at(
    memory: MemoryView,
    module: ModuleInfoView,
    directory: ExportDirectory,
    needle: Option<Seq<char>>,
    index: int,
    export: RuntimeExportView,
)
    requires
        0 <= index,
    ensures
        export_at(memory, module, directory, needle)(index).contains(export) <==> exported(
            memory,
            module,
            directory,
            index,
            export,
        ) && name_selected(export.name, needle),
{
    let base = Address(module.base.0);
    let found = export_at(memory, module, directory, needle)(index);
    let ordinal_index = match memory.read_u16(base.plus(directory.ordinals + index * 2)) {
        Some(value) => value,
        None => 0xffffu16,
    };
    lemma_place_of(directory.ordinal_base, ordinal_index, export.ordinal);
    assert(directory.names + index * 4 == directory.names + 4 * index);
    assert(directory.ordinals + index * 2 == directory.ordinals + 2 * index);
    assert(directory.functions + ordinal_index * 4 == directory.functions + 4 * ordinal_index);
    if found.contains(export) {
        assert(found[0] == export);
        assert(place_of(directory.ordinal_base, export.ordinal) == ordinal_index);
    }
    if exported(memory, module, directory, index, export) && name_selected(export.name, needle) {
        assert(place_of(directory.ordinal_base, export.ordinal) == ordinal_index);
        assert(found[0] =~= export);
    }
}

/// The exports of a module are those that the places of its name table tell of and whose
/// names are wanted, all of them and no others.
pub proof fn law_module_exports(
    memory: MemoryView,
    module: ModuleInfoView,
    needle: Option<Seq<char>>,
    export: RuntimeExportView,
)
    ensures
        module_exports(memory, module, needle).contains(export) <==> match export_directory(
            memory,
            Address(module.base.0),
        ) {
            Some(directory) => name_selected(export.name, needle) && exists|index: int|
                0 <= index < directory.name_count && #[trigger] exported(
                    memory,
                    module,
                    directory,
                    index,
                    export,
                ),
            None => false,
        },
{
    if let Some(directory) = export_directory(memory, Address(module.base.0)) {
        let f = export_at(memory, module, directory, needle);
        let n = directory.name_count as int;
        seqs::lemma_flat_below_contains(n, f, export);
        if module_exports(memory, module, needle).contains(export) {
            let index = choose|index: int| 0 <= index < n && (#[trigger] f(index)).contains(export);
            lemma_export_at(memory, module, directory, needle, index, export);
            assert(exported(memory, module, directory, index, export));
        }
        if name_selected(export.name, needle) && exists|index: int|
            0 <= index < n && #[trigger] exported(memory, module, directory, index, export) {
            let index = choose|index: int|
                0 <= index < n && #[trigger] exported(memory, module, directory, index, export);
            lemma_export_at(memory, module, directory, needle, index, export);
            assert(f(index).contains(export));
        }
    }
}

/// Two exports of a module with one ordinal lead to one place: where a name leads follows
/// from its ordinal alone.
pub proof fn law_ordinal_decides_address(
    memory: MemoryView,
    module: ModuleInfoView,
    needle: Option<Seq<char>>,
    a: RuntimeExportView,
    b: RuntimeExportView,
)
    requires
        module_exports(memory, module, needle).contains(a),
        module_exports(memory, module, needle).contains(b),
        a.ordinal == b.ordinal,
    ensures
        a.rva == b.rva,
        a.address == b.address,
        a.forwarder == b.forwarder,
{
    law_module_exports(memory, module, needle, a);
    law_module_exports(memory, module, needle, b);
}

/// The exports come in the order of the name table.
pub proof fn law_exports_in_name_order(
    memory: MemoryView,
    module: ModuleInfoView,
    needle: Option<Seq<char>>,
    i: int,
    j: int,
)
    requires
        0 <= i <= j < module_exports(memory, module, needle).len(),
    ensures
        export_directory(memory, Address(module.base.0)) matches Some(directory) && exists|
            a: int,
            b: int,
        |
            0 <= a <= b < directory.name_count && #[trigger] exported(
                memory,
                module,
                directory,
                a,
                module_exports(memory, module, needle)[i],
            ) && #[trigger] exported(
                memory,
                module,
                directory,
                b,
                module_exports(memory, module, needle)[j],
            ),
{
    let all = module_exports(memory, module, needle);
    if let Some(directory) = export_directory(memory, Address(module.base.0)) {
        let f = export_at(memory, module, directory, needle);
        let n = directory.name_count as int;
        seqs::lemma_flat_below_order(n, f, i, j);
        let (a, b) = choose|a: int, b: int|
            0 <= a <= b < n && (#[trigger] f(a)).contains(all[i]) && (#[trigger] f(b)).contains(
                all[j],
            );
        lemma_export_at(memory, module, directory, needle, a, all[i]);
        lemma_export_at(memory, module, directory, needle, b, all[j]);
        assert(exported(memory, module, directory, a, all[i]));
        assert(exported(memory, module, directory, b, all[j]));
    }
}

/// Exports are taken from the modules whose names hold the wanted text, whatever the case
/// of the letters, and from all modules where none is wanted.
pub proof fn law_selected_exports(
    memory: MemoryView,
    module_name: Option<Seq<char>>,
    name_contains: Option<Seq<char>>,
    export: RuntimeExportView,
)
    ensures
        selected_exports(memory, module_name, name_contains).contains(export) <==> exists|m: int|
            0 <= m < memory.modules.len() && name_selected(
                (#[trigger] memory.modules[m]).name,
                module_name,
            ) && module_exports(memory, memory.modules[m], name_contains).contains(export),
{
    let f = exports_in(memory, module_name, name_contains);
    seqs::lemma_flat_map_contains(memory.modules, f, export);
    if selected_exports(memory, module_name, name_contains).contains(export) {
        let m = choose|m: int| seqs::gives(memory.modules, f, m, export);
        assert(f(memory.modules[m]).contains(export));
    }
    if exists|m: int|
        0 <= m < memory.modules.len() && name_selected(
            (#[trigger] memory.modules[m]).name,
            module_name,
        ) && module_exports(memory, memory.modules[m], name_contains).contains(export) {
        let m = choose|m: int|
            0 <= m < memory.modules.len() && name_selected(
                (#[trigger] memory.modules[m]).name,
                module_name,
            ) && module_exports(memory, memory.modules[m], name_contains).contains(export);
        assert(seqs::gives(memory.modules, f, m, export));
    }
}

/// A name is wanted where it holds the text that is looked for, both in lower case, and
/// where nothing is looked for.
pub proof fn law_name_selected(name: Seq<char>, needle: Option<Seq<char>>)
    ensures
        name_selected(name, needle) <==> match needle {
            Some(needle) => exists|before: Seq<char>, after: Seq<char>| #[trigger]
                (before + text::lowered(needle) + after) == text::lowered(name),
            None => true,
        },
{
    if let Some(needle) = needle {
        text::law_contains_text(text::lowered(name), text::lowered(needle));
    }
}

/// The thunks of an import are the places of the code regions at which `ff 25` or `ff 15`
/// goes through its slot, each with the instruction that is decoded there. A code region
/// of fewer than six bytes ends the search.
pub proof fn law_thunks_go_through_slot(
    memory: MemoryView,
    arch: TargetArch,
    import: RuntimeImportView,
    name_contains: Option<Seq<char>>,
    thunk: IatThunkView,
)
    ensures
        thunks_of(memory, arch, name_contains)(import).contains(thunk) <==> name_selected(
            import.dll + "!"@ + import.name,
            name_contains,
        ) && thunk.import == import && exists|i: int, offset: int|
            is_thunk(memory, arch, import.iat_address, i, offset, thunk),
{
    let f = thunks_in(memory, arch, import);
    let regions = searched_regions(memory.regions);
    let short = too_short();
    seqs::lemma_first_from(memory.regions, 0, short);
    seqs::lemma_flat_map_contains(regions, f, thunk);
    if regions.flat_map(f).contains(thunk) {
        let i = choose|i: int| seqs::gives(regions, f, i, thunk);
        let region = regions[i];
        assert(region == memory.regions[i]);
        let g = thunk_at(memory, arch, import, region);
        seqs::lemma_flat_below_contains(region.bytes.len() - 5, g, thunk);
        let offset = choose|offset: int|
            0 <= offset < region.bytes.len() - 5 && (#[trigger] g(offset)).contains(thunk);
        assert(g(offset)[0] == thunk);
        assert forall|j: int| 0 <= j <= i implies !((
        #[trigger] memory.regions[j]).flags.executable && !memory.regions[j].flags.guarded
            && memory.regions[j].bytes.len() < 6) by {
            assert(!short(memory.regions[j]));
        }
        assert(is_thunk(memory, arch, import.iat_address, i, offset, thunk));
    }
    if thunk.import == import && exists|i: int, offset: int|
        is_thunk(memory, arch, import.iat_address, i, offset, thunk) {
        let (i, offset) = choose|i: int, offset: int|
            is_thunk(memory, arch, import.iat_address, i, offset, thunk);
        let region = memory.regions[i];
        assert(i < regions.len()) by {
            if let Some(k) = seqs::first_from(memory.regions, 0, short) {
                if k <= i {
                    assert(short(memory.regions[k]));
                }
            }
        }
        assert(regions[i] == region);
        let g = thunk_at(memory, arch, import, region);
        assert(g(offset)[0] =~= thunk);
        assert(g(offset).contains(thunk));
        seqs::lemma_flat_below_contains(region.bytes.len() - 5, g, thunk);
        assert(seqs::gives(regions, f, i, thunk));
    }
}

/// Whether code at an offset of region `i` goes through a slot, where the thunk says so.
pub open spec fn is_thunk(
    memory: MemoryView,
    arch: TargetArch,
    iat_address: Address,
    i: int,
    offset: int,
    thunk: IatThunkView,
) -> bool {
    let region = memory.regions[i];
    let shown = decode::disassembly(memory, arch, thunk.thunk_address, 1);
    &&& 0 <= i < memory.regions.len()
    &&& region.flags.executable
    &&& !region.flags.guarded
    &&& forall|j: int|
        0 <= j <= i ==> !((#[trigger] memory.regions[j]).flags.executable
            && !memory.regions[j].flags.guarded && memory.regions[j].bytes.len() < 6)
    &&& 0 <= offset <= region.bytes.len() - 6
    &&& region.bytes[offset] == 0xff
    &&& region.bytes[offset + 1] == 0x25 || region.bytes[offset + 1] == 0x15
    &&& thunk.thunk_address.0 == (region.base.0 + offset) % 0x1_0000_0000_0000_0000
    &&& transfer::indirect_operand(
        arch,
        thunk.thunk_address.0,
        region.bytes.subrange(offset, offset + 6),
    ) == Some(iat_address)
    &&& shown.len() > 0
    &&& thunk.instruction == shown[0]
}

} // verus!
