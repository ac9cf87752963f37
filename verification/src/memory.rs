//! The memory image that the engine reads: modules, regions and typed reads.

use vstd::prelude::*;

use crate::bytes;
use crate::evidence::{
    Address, ModuleBase, ModuleContext, ModuleContextView, RegionFlags, RegionKind, Rva, TargetArch,
};
use crate::seqs;
use crate::text;

verus! {

/// A module that the target process has loaded.
#[derive(Debug, PartialEq, Eq)]
pub struct ModuleInfo {
    pub name: String,
    pub base: ModuleBase,
    pub size: u64,
}

#[verifier::ext_equal]
pub struct ModuleInfoView {
    pub name: Seq<char>,
    pub base: ModuleBase,
    pub size: u64,
}

impl DeepView for ModuleInfo {
    type V = ModuleInfoView;

    open spec fn deep_view(&self) -> ModuleInfoView {
        ModuleInfoView { name: self.name@, base: self.base, size: self.size }
    }
}

impl Clone for ModuleInfo {
    fn clone(&self) -> (copy: Self)
        ensures
            copy.deep_view() == self.deep_view(),
    {
        ModuleInfo { name: self.name.clone(), base: self.base, size: self.size }
    }
}

impl ModuleInfoView {
    /// Whether an address lies in the module.
    pub open spec fn holds(self, address: Address) -> bool {
        self.base.0 <= address.0 < self.base.0 + self.size
    }

    /// The module, and where in it an address lies.
    pub open spec fn context(self, address: Address) -> ModuleContextView {
        ModuleContextView {
            name: self.name,
            base: self.base,
            rva: Rva((address.0 - self.base.0) as u64),
        }
    }
}

/// A run of committed memory and its bytes.
#[derive(Debug, PartialEq, Eq)]
pub struct MemoryRegion {
    pub base: Address,
    pub bytes: Vec<u8>,
    pub kind: RegionKind,
    pub flags: RegionFlags,
}

#[verifier::ext_equal]
pub struct MemoryRegionView {
    pub base: Address,
    pub bytes: Seq<u8>,
    pub kind: RegionKind,
    pub flags: RegionFlags,
}

impl DeepView for MemoryRegion {
    type V = MemoryRegionView;

    open spec fn deep_view(&self) -> MemoryRegionView {
        MemoryRegionView {
            base: self.base,
            bytes: self.bytes@,
            kind: self.kind,
            flags: self.flags,
        }
    }
}

impl Clone for MemoryRegion {
    fn clone(&self) -> (copy: Self)
        ensures
            copy.deep_view() == self.deep_view(),
    {
        MemoryRegion {
            base: self.base,
            bytes: self.bytes.clone(),
            kind: self.kind,
            flags: self.flags,
        }
    }
}

impl MemoryRegionView {
    /// Whether an address lies in the region.
    pub open spec fn holds(self, address: Address) -> bool {
        self.base.0 <= address.0 < self.base.0 + self.bytes.len()
    }

    /// Whether scans may read the region.
    pub open spec fn is_readable(self) -> bool {
        self.flags.readable && !self.flags.guarded
    }

    /// Whether scans may look for code in the region.
    pub open spec fn is_code(self) -> bool {
        self.flags.executable && !self.flags.guarded
    }
}

impl MemoryRegion {
    /// Whether an address lies in the region.
    pub fn holds(&self, address: Address) -> (held: bool)
        ensures
            held == self.deep_view().holds(address),
    {
        self.base.0 <= address.0 && address.0 - self.base.0 < self.bytes.len() as u64
    }

    /// Whether scans may read the region.
    pub fn is_readable(&self) -> (readable: bool)
        ensures
            readable == self.deep_view().is_readable(),
    {
        self.flags.readable && !self.flags.guarded
    }

    /// Whether scans may look for code in the region.
    pub fn is_code(&self) -> (code: bool)
        ensures
            code == self.deep_view().is_code(),
    {
        self.flags.executable && !self.flags.guarded
    }
}

/// A memory image: the loaded modules and the regions that were captured.
#[derive(Debug, Clone, PartialEq, Eq)]
pub struct InMemoryBackend {
    pub modules: Vec<ModuleInfo>,
    pub regions: Vec<MemoryRegion>,
}

#[verifier::ext_equal]
pub struct MemoryView {
    pub modules: Seq<ModuleInfoView>,
    pub regions: Seq<MemoryRegionView>,
}

impl DeepView for InMemoryBackend {
    type V = MemoryView;

    open spec fn deep_view(&self) -> MemoryView {
        MemoryView { modules: self.modules.deep_view(), regions: self.regions.deep_view() }
    }
}

/// The characters that a C string may hold.
pub open spec fn is_text_byte(byte: u8) -> bool {
    byte == 0x09 || byte == 0x0d || byte == 0x0a || 0x20 <= byte <= 0x7e
}

/// Where a C string ends: the first zero byte from `at` on, at most at `stop`,
/// with nothing but text bytes before it.
pub open spec fn c_string_end(bytes: Seq<u8>, at: int, stop: int) -> Option<int>
    decreases bytes.len() - at,
{
    if at >= bytes.len() {
        None
    } else if bytes[at] == 0 {
        Some(at)
    } else if at >= stop || !is_text_byte(bytes[at]) {
        None
    } else {
        c_string_end(bytes, at + 1, stop)
    }
}

/// Whether a region holds an address.
pub open spec fn regions_with(address: Address) -> spec_fn(MemoryRegionView) -> bool {
    |region: MemoryRegionView| region.holds(address)
}

/// Whether a module holds an address.
pub open spec fn modules_with(address: Address) -> spec_fn(ModuleInfoView) -> bool {
    |module: ModuleInfoView| module.holds(address)
}

/// Whether a module has a name, whatever the case of its letters.
pub open spec fn modules_named(name: Seq<char>) -> spec_fn(ModuleInfoView) -> bool {
    |module: ModuleInfoView| text::lowered(module.name) == text::lowered(name)
}

/// Whether no address lies in two of the regions.
pub open spec fn apart(regions: Seq<MemoryRegionView>) -> bool {
    forall|i: int, j: int, address: Address|
        0 <= i < regions.len() && 0 <= j < regions.len() && #[trigger] regions[i].holds(address)
            && #[trigger] regions[j].holds(address) ==> i == j
}

impl MemoryView {
    /// The first region that holds an address, and the offset into it.
    pub open spec fn region_at(self, address: Address) -> Option<(MemoryRegionView, int)> {
        match seqs::first_from(self.regions, 0, regions_with(address)) {
            Some(i) => Some((self.regions[i], address.0 - self.regions[i].base.0)),
            None => None,
        }
    }

    /// The first module that holds an address, and where in it the address lies.
    pub open spec fn module_at(self, address: Address) -> Option<ModuleContextView> {
        match seqs::first_from(self.modules, 0, modules_with(address)) {
            Some(i) => Some(self.modules[i].context(address)),
            None => None,
        }
    }

    /// The offset of an address in the first module that holds it.
    pub open spec fn rva_at(self, address: Address) -> Option<Rva> {
        match self.module_at(address) {
            Some(module) => Some(module.rva),
            None => None,
        }
    }

    /// The `size` bytes at an address, where one region holds them all.
    pub open spec fn read(self, address: Address, size: int) -> Option<Seq<u8>> {
        match self.region_at(address) {
            Some((region, offset)) => if offset + size <= region.bytes.len() {
                Some(region.bytes.subrange(offset, offset + size))
            } else {
                None
            },
            None => None,
        }
    }

    /// The bytes at an address, up to `max_size` and to the end of the region;
    /// there is at least one.
    pub open spec fn read_available(self, address: Address, max_size: int) -> Option<Seq<u8>> {
        match self.region_at(address) {
            Some((region, offset)) => if max_size <= 0 {
                None
            } else if offset + max_size <= region.bytes.len() {
                Some(region.bytes.subrange(offset, offset + max_size))
            } else {
                Some(region.bytes.skip(offset))
            },
            None => None,
        }
    }

    pub open spec fn read_u16(self, address: Address) -> Option<u16> {
        match self.read(address, 2) {
            Some(found) => Some(bytes::le_value(found) as u16),
            None => None,
        }
    }

    pub open spec fn read_u32(self, address: Address) -> Option<u32> {
        match self.read(address, 4) {
            Some(found) => Some(bytes::le_value(found) as u32),
            None => None,
        }
    }

    pub open spec fn read_u64(self, address: Address) -> Option<u64> {
        match self.read(address, 8) {
            Some(found) => Some(bytes::le_value(found) as u64),
            None => None,
        }
    }

    /// The number of four or eight bytes at an address; no other width is read.
    pub open spec fn read_sized(self, address: Address, width: int) -> Option<u64> {
        if width == 4 {
            match self.read_u32(address) {
                Some(value) => Some(value as u64),
                None => None,
            }
        } else if width == 8 {
            self.read_u64(address)
        } else {
            None
        }
    }

    /// The pointer at an address.
    pub open spec fn read_pointer(self, arch: TargetArch, address: Address) -> Option<Address> {
        match self.read_sized(address, arch.pointer_width()) {
            Some(value) => Some(Address(value)),
            None => None,
        }
    }

    /// The printable text of at most `max_len` bytes at an address, up to the zero
    /// byte that ends it; an empty text does not count.
    pub open spec fn read_c_string(self, address: Address, max_len: int) -> Option<Seq<char>> {
        match self.region_at(address) {
            Some((region, offset)) => match c_string_end(region.bytes, offset, offset + max_len) {
                Some(end) => if end > offset {
                    Some(bytes::byte_chars(region.bytes.subrange(offset, end)))
                } else {
                    None
                },
                None => None,
            },
            None => None,
        }
    }

    /// The module that a name selects, whatever the case of its letters; without a
    /// name, the first module.
    pub open spec fn select_module(self, name: Option<Seq<char>>) -> Option<ModuleInfoView> {
        match name {
            Some(name) => match seqs::first_from(self.modules, 0, modules_named(name)) {
                Some(i) => Some(self.modules[i]),
                None => None,
            },
            None => if self.modules.len() > 0 {
                Some(self.modules[0])
            } else {
                None
            },
        }
    }
}

/// The engine: a memory image and the instruction set of its code.
#[derive(Debug, Clone, PartialEq, Eq)]
pub struct ArgusEngine {
    backend: InMemoryBackend,
    target_arch: TargetArch,
}

impl ArgusEngine {
    /// The memory image that the engine reads.
    pub closed spec fn memory(&self) -> MemoryView {
        self.backend.deep_view()
    }

    /// The instruction set of the target process.
    pub closed spec fn arch(&self) -> TargetArch {
        self.target_arch
    }

    /// An engine for 32-bit code.
    pub fn new(backend: InMemoryBackend) -> (engine: Self)
        ensures
            engine.memory() == backend.deep_view(),
            engine.arch() == TargetArch::X86,
    {
        Self::new_for_target(backend, TargetArch::X86)
    }

    pub fn new_for_target(backend: InMemoryBackend, target_arch: TargetArch) -> (engine: Self)
        ensures
            engine.memory() == backend.deep_view(),
            engine.arch() == target_arch,
    {
        Self { backend, target_arch }
    }

    pub fn target_arch(&self) -> (arch: TargetArch)
        ensures
            arch == self.arch(),
    {
        self.target_arch
    }

    pub fn pointer_width_bytes(&self) -> (width: usize)
        ensures
            width == self.arch().pointer_width(),
    {
        self.target_arch.pointer_width_bytes()
    }

    /// The captured regions.
    pub fn regions(&self) -> (regions: &Vec<MemoryRegion>)
        ensures
            regions.deep_view() == self.memory().regions,
    {
        &self.backend.regions
    }

    /// The loaded modules.
    pub fn modules(&self) -> (modules: &Vec<ModuleInfo>)
        ensures
            modules.deep_view() == self.memory().modules,
    {
        &self.backend.modules
    }

    /// The first region that holds an address, and the offset into it.
    pub fn region_at(&self, address: Address) -> (found: Option<(&MemoryRegion, usize)>)
        ensures
            match found {
                Some((region, offset)) => self.memory().region_at(address) == Some(
                    (region.deep_view(), offset as int),
                ) && offset < region.bytes@.len(),
                None => self.memory().region_at(address) is None,
            },
    {
        let ghost wanted = regions_with(address);
        let ghost all = self.memory().regions;
        let regions = &self.backend.regions;
        let mut i: usize = 0;
        while i < regions.len()
            invariant
                i <= regions.len(),
                regions.deep_view() == all,
                all == self.memory().regions,
                wanted == regions_with(address),
                seqs::first_from(all, 0, wanted) == seqs::first_from(all, i as int, wanted),
            decreases regions.len() - i,
        {
            let region = &regions[i];
            proof {
                assert(region.deep_view() == all[i as int]);
            }
            if region.holds(address) {
                proof {
                    assert(address.0 - region.base.0 < region.bytes.len());
                }
                let offset: usize = (address.0 - region.base.0) as usize;
                return Some((region, offset));
            }
            i += 1;
        }
        None
    }

    /// The module that a name selects, whatever the case of its letters; without a
    /// name, the first module.
    pub fn select_module(&self, module_name: Option<&str>) -> (found: Option<&ModuleInfo>)
        ensures
            match found {
                Some(module) => self.memory().select_module(module_name.deep_view()) == Some(
                    module.deep_view(),
                ),
                None => self.memory().select_module(module_name.deep_view()) is None,
            },
    {
        let ghost all = self.memory().modules;
        let modules = &self.backend.modules;
        match module_name {
            Some(name) => {
                let ghost wanted = modules_named(name@);
                let mut i: usize = 0;
                while i < modules.len()
                    invariant
                        i <= modules.len(),
                        modules.deep_view() == all,
                        module_name == Some(name),
                        all == self.memory().modules,
                        wanted == modules_named(name@),
                        seqs::first_from(all, 0, wanted) == seqs::first_from(all, i as int, wanted),
                    decreases modules.len() - i,
                {
                    let module = &modules[i];
                    proof {
                        assert(module.deep_view() == all[i as int]);
                    }
                    if text::same_ignoring_case(&module.name, name) {
                        return Some(module);
                    }
                    i += 1;
                }
                None
            },
            None => {
                if modules.len() > 0 {
                    proof {
                        assert(all[0] == modules@[0].deep_view());
                    }
                    Some(&modules[0])
                } else {
                    None
                }
            },
        }
    }

    /// The first module that holds an address, and where in it the address lies.
    pub fn module_at(&self, address: Address) -> (found: Option<ModuleContext>)
        ensures
            found.deep_view() == self.memory().module_at(address),
    {
        let ghost wanted = modules_with(address);
        let ghost all = self.memory().modules;
        let modules = &self.backend.modules;
        let mut i: usize = 0;
        while i < modules.len()
            invariant
                i <= modules.len(),
                modules.deep_view() == all,
                all == self.memory().modules,
                wanted == modules_with(address),
                seqs::first_from(all, 0, wanted) == seqs::first_from(all, i as int, wanted),
            decreases modules.len() - i,
        {
            let module = &modules[i];
            proof {
                assert(module.deep_view() == all[i as int]);
            }
            if module.base.0 <= address.0 && address.0 - module.base.0 < module.size {
                return Some(
                    ModuleContext {
                        name: module.name.clone(),
                        base: module.base,
                        rva: Rva(address.0 - module.base.0),
                    },
                );
            }
            i += 1;
        }
        None
    }

    /// The offset of an address in the first module that holds it.
    pub fn rva_at(&self, address: Address) -> (rva: Option<Rva>)
        ensures
            rva == self.memory().rva_at(address),
    {
        match self.module_at(address) {
            Some(module) => Some(module.rva),
            None => None,
        }
    }

    /// The `size` bytes at an address, where one region holds them all.
    pub fn read_bytes_at(&self, address: Address, size: usize) -> (found: Option<&[u8]>)
        ensures
            match found {
                Some(bytes) => self.memory().read(address, size as int) == Some(bytes@)
                    && bytes@.len() == size,
                None => self.memory().read(address, size as int) is None,
            },
    {
        let (region, offset) = match self.region_at(address) {
            Some(found) => found,
            None => {
                return None;
            },
        };
        if size <= region.bytes.len() - offset {
            Some(&region.bytes[offset..offset + size])
        } else {
            None
        }
    }

    /// The bytes at an address, up to `max_size` and to the end of the region.
    pub fn read_available_bytes_at(&self, address: Address, max_size: usize) -> (found: Option<
        &[u8],
    >)
        ensures
            match found {
                Some(bytes) => self.memory().read_available(address, max_size as int) == Some(
                    bytes@,
                ),
                None => self.memory().read_available(address, max_size as int) is None,
            },
    {
        let (region, offset) = match self.region_at(address) {
            Some(found) => found,
            None => {
                return None;
            },
        };
        let left: usize = region.bytes.len() - offset;
        let end: usize = if max_size < left {
            offset + max_size
        } else {
            region.bytes.len()
        };
        if end > offset {
            proof {
                if max_size >= left {
                    assert(region.bytes@.subrange(offset as int, end as int) =~= region.bytes@.skip(
                        offset as int,
                    ));
                }
            }
            Some(&region.bytes[offset..end])
        } else {
            None
        }
    }

    pub fn read_u16_at(&self, address: Address) -> (value: Option<u16>)
        ensures
            value == self.memory().read_u16(address),
    {
        match self.read_bytes_at(address, 2) {
            Some(found) => {
                proof {
                    assert(found@.subrange(0, 2) =~= found@);
                }
                Some(bytes::read_u16(found, 0))
            },
            None => None,
        }
    }

    pub fn read_u32_at(&self, address: Address) -> (value: Option<u32>)
        ensures
            value == self.memory().read_u32(address),
    {
        match self.read_bytes_at(address, 4) {
            Some(found) => {
                proof {
                    assert(found@.subrange(0, 4) =~= found@);
                }
                Some(bytes::read_u32(found, 0))
            },
            None => None,
        }
    }

    pub fn read_u64_at(&self, address: Address) -> (value: Option<u64>)
        ensures
            value == self.memory().read_u64(address),
    {
        match self.read_bytes_at(address, 8) {
            Some(found) => {
                proof {
                    assert(found@.subrange(0, 8) =~= found@);
                }
                Some(bytes::read_u64(found, 0))
            },
            None => None,
        }
    }

    /// The number of four or eight bytes at an address; no other width is read.
    pub fn read_sized_u64_at(&self, address: Address, width: usize) -> (value: Option<u64>)
        ensures
            value == self.memory().read_sized(address, width as int),
    {
        if width == 4 {
            match self.read_u32_at(address) {
                Some(value) => Some(value as u64),
                None => None,
            }
        } else if width == 8 {
            self.read_u64_at(address)
        } else {
            None
        }
    }

    /// The pointer at an address.
    pub fn read_pointer_at(&self, address: Address) -> (pointer: Option<Address>)
        ensures
            pointer == self.memory().read_pointer(self.arch(), address),
    {
        match self.read_sized_u64_at(address, self.pointer_width_bytes()) {
            Some(value) => Some(Address(value)),
            None => None,
        }
    }

    /// Whether a pointer of the target process can hold an address.
    pub fn pointer_can_represent(&self, address: Address) -> (fits: bool)
        ensures
            fits == (self.arch() == TargetArch::X86_64 || address.0 <= 0xffff_ffff),
    {
        self.pointer_width_bytes() == 8 || address.0 <= 0xffff_ffff
    }

    /// The bytes with which a pointer of the target process writes an address.
    pub fn pointer_bytes(&self, address: Address) -> (written: Vec<u8>)
        ensures
            written@ == bytes::le_bytes(address.0 as int, self.arch().pointer_width() as nat),
    {
        bytes::write_le(address.0, self.pointer_width_bytes())
    }

    /// The printable text of at most `max_len` bytes at an address, up to the zero
    /// byte that ends it; an empty text does not count.
    pub fn read_c_string_at(&self, address: Address, max_len: usize) -> (text: Option<String>)
        ensures
            text.deep_view() == self.memory().read_c_string(address, max_len as int),
    {
        let (region, offset) = match self.region_at(address) {
            Some(found) => found,
            None => {
                return None;
            },
        };
        let data = region.bytes.as_slice();
        let ghost stop = offset + max_len;
        let mut text = String::new();
        let mut end: usize = offset;
        while end < data.len() && end - offset < max_len && data[end] != 0
            invariant
                offset <= end <= data.len(),
                offset < data.len(),
                end - offset <= max_len,
                stop == offset + max_len,
                data@ == region.bytes@,
                self.memory().region_at(address) == Some((region.deep_view(), offset as int)),
                text@ == bytes::byte_chars(data@.subrange(offset as int, end as int)),
                c_string_end(data@, offset as int, stop) == c_string_end(data@, end as int, stop),
            decreases data.len() - end,
        {
            let byte: u8 = data[end];
            if !(byte == 0x09 || byte == 0x0d || byte == 0x0a || (0x20 <= byte && byte <= 0x7e)) {
                return None;
            }
            text.push(byte as char);
            end += 1;
            proof {
                assert(bytes::byte_chars(data@.subrange(offset as int, end as int))
                    =~= bytes::byte_chars(data@.subrange(offset as int, end - 1)).push(
                    byte as char,
                ));
            }
        }
        if end == offset || end >= data.len() || data[end] != 0 {
            return None;
        }
        Some(text)
    }
}

/// Where no two regions overlap, what is read at an address is what the region
/// around it holds there.
pub proof fn law_read_from_region(memory: MemoryView, i: int, address: Address, size: int)
    requires
        apart(memory.regions),
        0 <= i < memory.regions.len(),
        memory.regions[i].holds(address),
        0 <= size,
    ensures
        memory.region_at(address) == Some(
            (memory.regions[i], address.0 - memory.regions[i].base.0),
        ),
        memory.read(address, size) == ({
            let region = memory.regions[i];
            let offset = address.0 - region.base.0;
            if offset + size <= region.bytes.len() {
                Some(region.bytes.subrange(offset, offset + size))
            } else {
                None
            }
        }),
{
    seqs::lemma_first_from(memory.regions, 0, regions_with(address));
    assert(regions_with(address)(memory.regions[i]));
}

/// The region at an address is the first one between whose ends the address lies, and
/// the offset leads from its base to the address; without such a region there is none.
pub proof fn law_region_at(memory: MemoryView, address: Address)
    ensures
        match memory.region_at(address) {
            Some((region, offset)) => {
                &&& 0 <= offset < region.bytes.len()
                &&& region.base.0 + offset == address.0
                &&& exists|i: int|
                    0 <= i < memory.regions.len() && (#[trigger] memory.regions[i]) == region
                        && forall|j: int|
                        0 <= j < i ==> !((#[trigger] memory.regions[j]).base.0 <= address.0
                            < memory.regions[j].base.0 + memory.regions[j].bytes.len())
            },
            None => forall|j: int|
                0 <= j < memory.regions.len() ==> !((#[trigger] memory.regions[j]).base.0
                    <= address.0 < memory.regions[j].base.0 + memory.regions[j].bytes.len()),
        },
{
    let wanted = regions_with(address);
    seqs::lemma_first_from(memory.regions, 0, wanted);
    assert forall|j: int| 0 <= j < memory.regions.len() implies wanted(
        #[trigger] memory.regions[j],
    ) == (memory.regions[j].base.0 <= address.0 < memory.regions[j].base.0
        + memory.regions[j].bytes.len()) by {}
}

/// The module at an address is the first one between whose ends the address lies, and
/// the relative address leads from its base to the address.
pub proof fn law_module_at(memory: MemoryView, address: Address)
    ensures
        match memory.module_at(address) {
            Some(context) => {
                &&& context.base.0 + context.rva.0 == address.0
                &&& memory.rva_at(address) == Some(context.rva)
                &&& exists|i: int|
                    0 <= i < memory.modules.len() && (#[trigger] memory.modules[i]).name
                        == context.name && memory.modules[i].base == context.base && context.rva.0
                        < memory.modules[i].size && forall|j: int|
                        0 <= j < i ==> !((#[trigger] memory.modules[j]).base.0 <= address.0
                            < memory.modules[j].base.0 + memory.modules[j].size)
            },
            None => memory.rva_at(address) is None && forall|j: int|
                0 <= j < memory.modules.len() ==> !((#[trigger] memory.modules[j]).base.0
                    <= address.0 < memory.modules[j].base.0 + memory.modules[j].size),
        },
{
    let wanted = modules_with(address);
    seqs::lemma_first_from(memory.modules, 0, wanted);
    assert forall|j: int| 0 <= j < memory.modules.len() implies wanted(
        #[trigger] memory.modules[j],
    ) == (memory.modules[j].base.0 <= address.0 < memory.modules[j].base.0
        + memory.modules[j].size) by {}
}

/// A read gives the bytes that the region at the address holds from there on, all that
/// were asked for or nothing; the other read gives as many of them as there are.
pub proof fn law_read_bytes(memory: MemoryView, address: Address, size: int)
    requires
        0 <= size,
    ensures
        match memory.region_at(address) {
            Some((region, offset)) => {
                &&& match memory.read(address, size) {
                    Some(found) => found.len() == size && forall|k: int|
                        0 <= k < size ==> #[trigger] found[k] == region.bytes[offset + k],
                    None => region.bytes.len() < offset + size,
                }
                &&& match memory.read_available(address, size) {
                    Some(found) => 0 < found.len() <= size && (found.len() < size ==> offset
                        + found.len() == region.bytes.len()) && forall|k: int|
                        0 <= k < found.len() ==> #[trigger] found[k] == region.bytes[offset + k],
                    None => size == 0,
                }
            },
            None => memory.read(address, size) is None && memory.read_available(address, size)
                is None,
        },
{
    law_region_at(memory, address);
}

/// A number is read from its bytes, the least significant one first, wherever they can be
/// read; a pointer takes four of them in 32-bit code and eight in 64-bit code.
pub proof fn law_read_numbers(memory: MemoryView, address: Address)
    ensures
        match memory.read(address, 2) {
            Some(b) => memory.read_u16(address) matches Some(value) && value == b[0] + 0x100 * b[1],
            None => memory.read_u16(address) is None,
        },
        match memory.read(address, 4) {
            Some(b) => memory.read_u32(address) matches Some(value) && value == b[0] + 0x100 * b[1]
                + 0x1_0000 * b[2] + 0x100_0000 * b[3] && memory.read_pointer(
                TargetArch::X86,
                address,
            ) == Some(Address(value as u64)) && memory.read_sized(address, 4) == Some(value as u64),
            None => memory.read_u32(address) is None && memory.read_pointer(
                TargetArch::X86,
                address,
            ) is None && memory.read_sized(address, 4) is None,
        },
        match memory.read(address, 8) {
            Some(b) => memory.read_u64(address) matches Some(value) && value == b[0] + 0x100 * b[1]
                + 0x1_0000 * b[2] + 0x100_0000 * b[3] + 0x1_0000_0000 * (b[4] + 0x100 * b[5]
                + 0x1_0000 * b[6] + 0x100_0000 * b[7]) && memory.read_pointer(
                TargetArch::X86_64,
                address,
            ) == Some(Address(value)) && memory.read_sized(address, 8) == Some(value),
            None => memory.read_u64(address) is None && memory.read_pointer(
                TargetArch::X86_64,
                address,
            ) is None && memory.read_sized(address, 8) is None,
        },
{
    law_read_bytes(memory, address, 2);
    law_read_bytes(memory, address, 4);
    law_read_bytes(memory, address, 8);
    if let Some(b) = memory.read(address, 2) {
        bytes::lemma_le_value_2(b);
    }
    if let Some(b) = memory.read(address, 4) {
        bytes::lemma_le_value_4(b);
    }
    if let Some(b) = memory.read(address, 8) {
        bytes::lemma_le_value_8(b);
        bytes::lemma_le_value_4(b.take(4));
        bytes::lemma_le_value_4(b.skip(4));
    }
}

/// Whether a text is what a C string at an offset of some bytes says: tabs, line breaks
/// and printable ASCII, at least one character and at most `max_len`, and then a zero.
pub open spec fn says(bytes: Seq<u8>, offset: int, max_len: int, said: Seq<char>) -> bool {
    &&& 0 < said.len() <= max_len
    &&& offset + said.len() < bytes.len()
    &&& bytes[offset + said.len()] == 0
    &&& forall|k: int|
        0 <= k < said.len() ==> {
            let byte = bytes[offset + k];
            &&& byte == 9 || byte == 10 || byte == 13 || 32 <= byte <= 126
            &&& #[trigger] said[k] as int == byte as int
        }
}

proof fn lemma_c_string_end(bytes: Seq<u8>, at: int, stop: int)
    requires
        0 <= at,
    ensures
        match c_string_end(bytes, at, stop) {
            Some(end) => at <= end < bytes.len() && bytes[end] == 0 && (end <= stop || end == at)
                && forall|k: int| at <= k < end ==> bytes[k] != 0 && is_text_byte(bytes[k]),
            None => forall|end: int|
                at <= end < bytes.len() && end <= stop && #[trigger] bytes[end] == 0
                    ==> exists|k: int| at <= k < end && !is_text_byte(#[trigger] bytes[k]),
        },
    decreases bytes.len() - at,
{
    if at < bytes.len() && bytes[at] != 0 && at < stop && is_text_byte(bytes[at]) {
        lemma_c_string_end(bytes, at + 1, stop);
        if c_string_end(bytes, at + 1, stop) is None {
            assert forall|end: int|
                at <= end < bytes.len() && end <= stop && #[trigger] bytes[end] == 0 implies exists|
                k: int,
            | at <= k < end && !is_text_byte(#[trigger] bytes[k]) by {
                let k = choose|k: int| at + 1 <= k < end && !is_text_byte(#[trigger] bytes[k]);
                assert(!is_text_byte(bytes[k]));
            }
        }
    }
}

/// A C string is read at an address just where the region there says it.
pub proof fn law_read_c_string(memory: MemoryView, address: Address, max_len: int, said: Seq<char>)
    requires
        0 <= max_len,
    ensures
        memory.read_c_string(address, max_len) == Some(said) <==> match memory.region_at(address) {
            Some((region, offset)) => says(region.bytes, offset, max_len, said),
            None => false,
        },
{
    law_region_at(memory, address);
    if let Some((region, offset)) = memory.region_at(address) {
        let data = region.bytes;
        lemma_c_string_end(data, offset, offset + max_len);
        if memory.read_c_string(address, max_len) == Some(said) {
            let end = c_string_end(data, offset, offset + max_len).unwrap();
            assert(said.len() == end - offset);
            assert forall|k: int| 0 <= k < said.len() implies {
                let byte = data[offset + k];
                &&& byte == 9 || byte == 10 || byte == 13 || 32 <= byte <= 126
                &&& #[trigger] said[k] as int == byte as int
            } by {
                assert(is_text_byte(data[offset + k]));
            }
        }
        if says(data, offset, max_len, said) {
            let end = offset + said.len();
            assert forall|k: int| offset <= k < end implies data[k] != 0 && is_text_byte(
                data[k],
            ) by {
                assert(said[k - offset] as int == data[k] as int);
            }
            match c_string_end(data, offset, offset + max_len) {
                Some(other) => {
                    assert(other == end);
                    let read = bytes::byte_chars(data.subrange(offset, end));
                    assert forall|k: int| 0 <= k < said.len() implies said[k] == read[k] by {
                        assert(said[k] as int == data[offset + k] as int);
                    }
                    assert(read =~= said);
                },
                None => {
                    assert(data[end] == 0);
                },
            }
        }
    }
}

/// A name selects the first module that is called so, whatever the case of its letters;
/// no name selects the first module of all.
pub proof fn law_select_module(memory: MemoryView, name: Option<Seq<char>>)
    ensures
        match memory.select_module(name) {
            Some(module) => exists|i: int|
                0 <= i < memory.modules.len() && (#[trigger] memory.modules[i]) == module && (
                match name {
                    Some(name) => text::lowered(module.name) == text::lowered(name) && forall|
                        j: int,
                    |
                        0 <= j < i ==> text::lowered((#[trigger] memory.modules[j]).name)
                            != text::lowered(name),
                    None => i == 0,
                }),
            None => match name {
                Some(name) => forall|j: int|
                    0 <= j < memory.modules.len() ==> text::lowered(
                        (#[trigger] memory.modules[j]).name,
                    ) != text::lowered(name),
                None => memory.modules.len() == 0,
            },
        },
{
    if let Some(name) = name {
        let wanted = modules_named(name);
        seqs::lemma_first_from(memory.modules, 0, wanted);
        assert forall|j: int| 0 <= j < memory.modules.len() implies wanted(
            #[trigger] memory.modules[j],
        ) == (text::lowered(memory.modules[j].name) == text::lowered(name)) by {}
    } else if memory.modules.len() > 0 {
        assert(memory.modules[0] == memory.select_module(name).unwrap());
    }
}

} // verus!
