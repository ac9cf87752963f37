//! Addresses, their context, and the evidence that a scan reports.

use vstd::prelude::*;

verus! {

/// The number of distinct 64-bit addresses.
pub open spec fn address_space() -> int {
    0x1_0000_0000_0000_0000
}

/// An absolute address in the target process.
#[derive(Debug, Clone, Copy, PartialEq, Eq, PartialOrd, Ord, Hash, Structural)]
pub struct Address(pub u64);

/// The address at which a module is loaded.
#[derive(Debug, Clone, Copy, PartialEq, Eq, PartialOrd, Ord, Hash, Structural)]
pub struct ModuleBase(pub u64);

/// An address relative to a module base.
#[derive(Debug, Clone, Copy, PartialEq, Eq, PartialOrd, Ord, Hash, Structural)]
pub struct Rva(pub u64);

impl DeepView for Address {
    type V = Address;

    open spec fn deep_view(&self) -> Address {
        *self
    }
}

/// The instruction set of the target process.
#[derive(Debug, Clone, Copy, PartialEq, Eq, Structural)]
pub enum TargetArch {
    X86,
    X86_64,
}

impl TargetArch {
    /// The size of a pointer, in bytes.
    pub open spec fn pointer_width(self) -> int {
        match self {
            TargetArch::X86 => 4,
            TargetArch::X86_64 => 8,
        }
    }

    /// The mode in which instructions are decoded.
    pub open spec fn bitness(self) -> int {
        match self {
            TargetArch::X86 => 32,
            TargetArch::X86_64 => 64,
        }
    }

    /// What the instruction set is called.
    pub open spec fn arch_name(self) -> Seq<char> {
        match self {
            TargetArch::X86 => "x86"@,
            TargetArch::X86_64 => "x86_64"@,
        }
    }

    /// The flavour of x86 that a program is compiled for: `x86_64` tells whether its
    /// instruction set is x86-64, and any other counts as 32-bit x86.
    pub fn native(x86_64: bool) -> (arch: Self)
        ensures
            arch == (if x86_64 {
                TargetArch::X86_64
            } else {
                TargetArch::X86
            }),
    {
        if x86_64 {
            Self::X86_64
        } else {
            Self::X86
        }
    }

    pub fn pointer_width_bytes(self) -> (width: usize)
        ensures
            width == self.pointer_width(),
    {
        match self {
            Self::X86 => 4,
            Self::X86_64 => 8,
        }
    }

    pub fn decoder_bitness(self) -> (bitness: u32)
        ensures
            bitness == self.bitness(),
    {
        match self {
            Self::X86 => 32,
            Self::X86_64 => 64,
        }
    }

    pub fn label(self) -> (label: &'static str)
        ensures
            label@ == self.arch_name(),
    {
        match self {
            Self::X86 => "x86",
            Self::X86_64 => "x86_64",
        }
    }
}

#[derive(Debug, Clone, Copy, PartialEq, Eq, Structural)]
pub enum AddressError {
    AddressBeforeModule { address: Address, module_base: ModuleBase },
}

impl Address {
    /// The address `delta` bytes further on; the address space wraps around.
    pub open spec fn plus(self, delta: int) -> Address {
        Address(((self.0 + delta) % address_space()) as u64)
    }

    /// The address relative to a module base; an address below the base has none.
    pub open spec fn rva_from(self, module_base: ModuleBase) -> Result<Rva, AddressError> {
        if self.0 < module_base.0 {
            Err(AddressError::AddressBeforeModule { address: self, module_base })
        } else {
            Ok(Rva((self.0 - module_base.0) as u64))
        }
    }

    /// The address relative to a module base; an address below the base has none.
    pub fn to_rva(self, module_base: ModuleBase) -> (result: Result<Rva, AddressError>)
        ensures
            result == self.rva_from(module_base),
    {
        if self.0 < module_base.0 {
            return Err(AddressError::AddressBeforeModule { address: self, module_base });
        }
        Ok(Rva(self.0 - module_base.0))
    }

    /// The address `delta` bytes further on; the address space wraps around.
    pub fn offset(self, delta: u64) -> (address: Address)
        ensures
            address == self.plus(delta as int),
            self.0 + delta < address_space() ==> address.0 == self.0 + delta,
    {
        Address(self.0.wrapping_add(delta))
    }
}

impl Address {
    /// Two steps on make one.
    pub proof fn lemma_plus_plus(self, a: int, b: int)
        ensures
            self.plus(a).plus(b) == self.plus(a + b),
    {
        let space = address_space();
        assert(((self.0 + a) % space + b) % space == (self.0 + a + b) % space);
    }
}

impl Rva {
    /// Whether the address at this offset from a module base exists.
    pub open spec fn fits(self, module_base: ModuleBase) -> bool {
        module_base.0 + self.0 <= u64::MAX
    }

    /// The absolute address at this offset from a module base.
    pub open spec fn address_from(self, module_base: ModuleBase) -> Address {
        Address((module_base.0 + self.0) as u64)
    }

    /// The absolute address at this offset from a module base.
    pub fn to_address(self, module_base: ModuleBase) -> (address: Address)
        requires
            self.fits(module_base),
        ensures
            address == self.address_from(module_base),
    {
        Address(module_base.0 + self.0)
    }
}

/// Going on from an address adds to it, and starts over at zero behind the last address.
pub proof fn law_plus(address: Address, delta: int)
    ensures
        0 <= address.0 + delta <= u64::MAX ==> address.plus(delta).0 == address.0 + delta,
        u64::MAX < address.0 + delta <= 2 * u64::MAX + 1 ==> address.plus(delta).0 == address.0
            + delta - u64::MAX - 1,
        -u64::MAX - 1 <= address.0 + delta < 0 ==> address.plus(delta).0 == address.0 + delta
            + u64::MAX + 1,
{
}

/// Converting an address to an offset and converting the offset back are inverse
/// to each other.
pub proof fn law_rva_round_trip(address: Address, module_base: ModuleBase, rva: Rva)
    ensures
        address.rva_from(module_base) == Ok::<Rva, AddressError>(rva) <==> rva.fits(module_base)
            && rva.address_from(module_base) == address,
{
}

/// A module, and where in it an address lies.
#[derive(Debug, PartialEq, Eq)]
pub struct ModuleContext {
    pub name: String,
    pub base: ModuleBase,
    pub rva: Rva,
}

#[verifier::ext_equal]
pub struct ModuleContextView {
    pub name: Seq<char>,
    pub base: ModuleBase,
    pub rva: Rva,
}

impl DeepView for ModuleContext {
    type V = ModuleContextView;

    open spec fn deep_view(&self) -> ModuleContextView {
        ModuleContextView { name: self.name@, base: self.base, rva: self.rva }
    }
}

impl Clone for ModuleContext {
    fn clone(&self) -> (copy: Self)
        ensures
            copy.deep_view() == self.deep_view(),
    {
        ModuleContext { name: self.name.clone(), base: self.base, rva: self.rva }
    }
}

#[derive(Debug, Clone, Copy, PartialEq, Eq, Structural)]
pub enum RegionKind {
    Image,
    Heap,
    Stack,
    Unknown,
}

#[derive(Debug, Clone, Copy, PartialEq, Eq, Structural)]
pub struct RegionFlags {
    pub readable: bool,
    pub writable: bool,
    pub executable: bool,
    pub guarded: bool,
}

#[derive(Debug, Clone, Copy, PartialEq, Eq, Structural)]
pub struct RegionContext {
    pub kind: RegionKind,
    pub flags: RegionFlags,
}

/// The module, where there is one, and the region around an address.
#[derive(Debug, Clone, PartialEq, Eq)]
pub struct AddressContext {
    pub module: Option<ModuleContext>,
    pub region: RegionContext,
}

#[verifier::ext_equal]
pub struct AddressContextView {
    pub module: Option<ModuleContextView>,
    pub region: RegionContext,
}

impl DeepView for AddressContext {
    type V = AddressContextView;

    open spec fn deep_view(&self) -> AddressContextView {
        AddressContextView { module: self.module.deep_view(), region: self.region }
    }
}

/// What was found at an address.
#[derive(Debug, Clone, PartialEq, Eq)]
pub enum EvidenceValue {
    Bytes { bytes: Vec<u8> },
    Utf8 { text: String },
    Pointer { target: Address },
    Caller { target: Address, opcode: u8 },
    IndirectCaller { target: Address, opcode: u8, pointer: Address },
    Numeric { value_type: String, value: String },
}

#[verifier::ext_equal]
pub enum EvidenceValueView {
    Bytes { bytes: Seq<u8> },
    Utf8 { text: Seq<char> },
    Pointer { target: Address },
    Caller { target: Address, opcode: u8 },
    IndirectCaller { target: Address, opcode: u8, pointer: Address },
    Numeric { value_type: Seq<char>, value: Seq<char> },
}

impl DeepView for EvidenceValue {
    type V = EvidenceValueView;

    open spec fn deep_view(&self) -> EvidenceValueView {
        match *self {
            EvidenceValue::Bytes { bytes } => EvidenceValueView::Bytes { bytes: bytes@ },
            EvidenceValue::Utf8 { text } => EvidenceValueView::Utf8 { text: text@ },
            EvidenceValue::Pointer { target } => EvidenceValueView::Pointer { target },
            EvidenceValue::Caller { target, opcode } => EvidenceValueView::Caller {
                target,
                opcode,
            },
            EvidenceValue::IndirectCaller { target, opcode, pointer } =>
                EvidenceValueView::IndirectCaller { target, opcode, pointer },
            EvidenceValue::Numeric { value_type, value } => EvidenceValueView::Numeric {
                value_type: value_type@,
                value: value@,
            },
        }
    }
}

/// The bytes around a piece of evidence.
#[derive(Debug, Clone, PartialEq, Eq)]
pub struct EvidenceContext {
    pub before: Vec<u8>,
    pub after: Vec<u8>,
    pub ascii_preview: String,
}

#[verifier::ext_equal]
pub struct EvidenceContextView {
    pub before: Seq<u8>,
    pub after: Seq<u8>,
    pub ascii_preview: Seq<char>,
}

impl DeepView for EvidenceContext {
    type V = EvidenceContextView;

    open spec fn deep_view(&self) -> EvidenceContextView {
        EvidenceContextView {
            before: self.before@,
            after: self.after@,
            ascii_preview: self.ascii_preview@,
        }
    }
}

#[derive(Debug, Clone, PartialEq, Eq)]
pub struct ToolArgument {
    pub name: String,
    pub value: String,
}

#[verifier::ext_equal]
pub struct ToolArgumentView {
    pub name: Seq<char>,
    pub value: Seq<char>,
}

impl DeepView for ToolArgument {
    type V = ToolArgumentView;

    open spec fn deep_view(&self) -> ToolArgumentView {
        ToolArgumentView { name: self.name@, value: self.value@ }
    }
}

/// A tool worth calling next, and why.
#[derive(Debug, Clone, PartialEq, Eq)]
pub struct NextToolHint {
    pub tool: String,
    pub reason: String,
    pub arguments: Vec<ToolArgument>,
}

#[verifier::ext_equal]
pub struct NextToolHintView {
    pub tool: Seq<char>,
    pub reason: Seq<char>,
    pub arguments: Seq<ToolArgumentView>,
}

impl DeepView for NextToolHint {
    type V = NextToolHintView;

    open spec fn deep_view(&self) -> NextToolHintView {
        NextToolHintView {
            tool: self.tool@,
            reason: self.reason@,
            arguments: self.arguments.deep_view(),
        }
    }
}

/// One finding: where it is, what it is, and what lies around it.
#[derive(Debug, Clone, PartialEq, Eq)]
pub struct EvidenceHit {
    pub address: Address,
    pub label: String,
    pub address_context: AddressContext,
    pub evidence: EvidenceValue,
    pub context: EvidenceContext,
    pub next_tools: Vec<NextToolHint>,
}

#[verifier::ext_equal]
pub struct EvidenceHitView {
    pub address: Address,
    pub label: Seq<char>,
    pub address_context: AddressContextView,
    pub evidence: EvidenceValueView,
    pub context: EvidenceContextView,
    pub next_tools: Seq<NextToolHintView>,
}

impl DeepView for EvidenceHit {
    type V = EvidenceHitView;

    open spec fn deep_view(&self) -> EvidenceHitView {
        EvidenceHitView {
            address: self.address,
            label: self.label@,
            address_context: self.address_context.deep_view(),
            evidence: self.evidence.deep_view(),
            context: self.context.deep_view(),
            next_tools: self.next_tools.deep_view(),
        }
    }
}

} // verus!
