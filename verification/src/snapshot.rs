//! What of a live process is captured: the regions that the system reports, and
//! how much of each is read.

use vstd::prelude::*;

use crate::bytes;
use crate::evidence::{Address, ModuleBase, RegionFlags, RegionKind, TargetArch};
use crate::memory::{
    ArgusEngine, InMemoryBackend, MemoryRegion, MemoryRegionView, MemoryView, ModuleInfo,
    ModuleInfoView,
};
use crate::text;

verus! {

/// Why a live process could not be read.
#[derive(Debug, Clone, Copy, PartialEq, Eq, Structural)]
pub enum WinMemoryError {
    OpenProcess { pid: u32, code: u32 },
    ReadProcessMemory { address: Address, code: u32 },
    WriteProcessMemory { address: Address, code: u32 },
    VirtualProtectEx { address: Address, code: u32 },
    VirtualQueryEx { address: Address, code: u32 },
    EnumProcessModules { code: u32 },
    ProcessSnapshot { code: u32 },
}

/// A region as the system reports it.
#[derive(Debug, Clone, Copy, PartialEq, Eq, Structural)]
pub struct MemoryRegionInfo {
    pub base: Address,
    pub size: usize,
    pub kind: RegionKind,
    pub flags: RegionFlags,
}

impl MemoryRegionInfo {
    /// The address behind the region, as far as there are addresses.
    pub open spec fn end(self) -> int {
        if self.base.0 + self.size <= u64::MAX {
            self.base.0 + self.size
        } else {
            u64::MAX as int
        }
    }

    /// The address behind the region, as far as there are addresses.
    pub fn end_address(self) -> (end: u64)
        ensures
            end == self.end(),
    {
        self.base.0.saturating_add(self.size as u64)
    }

    /// Whether an address lies in the region.
    pub fn contains(self, address: Address) -> (held: bool)
        ensures
            held == (self.base.0 <= address.0 < self.end()),
    {
        self.base.0 <= address.0 && address.0 < self.end_address()
    }

    /// Whether the region may be read without setting off a guard page.
    pub open spec fn is_readable(self) -> bool {
        self.flags.readable && !self.flags.guarded
    }
}

/// A running process.
#[derive(Debug, PartialEq, Eq)]
pub struct ProcessInfo {
    pub pid: u32,
    pub parent_pid: u32,
    pub thread_count: u32,
    pub name: String,
}

#[verifier::ext_equal]
pub struct ProcessInfoView {
    pub pid: u32,
    pub parent_pid: u32,
    pub thread_count: u32,
    pub name: Seq<char>,
}

impl DeepView for ProcessInfo {
    type V = ProcessInfoView;

    open spec fn deep_view(&self) -> ProcessInfoView {
        ProcessInfoView {
            pid: self.pid,
            parent_pid: self.parent_pid,
            thread_count: self.thread_count,
            name: self.name@,
        }
    }
}

impl Clone for ProcessInfo {
    fn clone(&self) -> (copy: Self)
        ensures
            copy.deep_view() == self.deep_view(),
    {
        ProcessInfo {
            pid: self.pid,
            parent_pid: self.parent_pid,
            thread_count: self.thread_count,
            name: self.name.clone(),
        }
    }
}

/// The type of a region that belongs to a loaded image.
pub const MEM_IMAGE: u32 = 0x100_0000;

/// The type of a region that belongs to one process alone.
pub const MEM_PRIVATE: u32 = 0x2_0000;

/// The state of a region that is backed by memory.
pub const MEM_COMMIT: u32 = 0x1000;

pub const PAGE_NOACCESS: u32 = 0x01;

pub const PAGE_READONLY: u32 = 0x02;

pub const PAGE_READWRITE: u32 = 0x04;

pub const PAGE_WRITECOPY: u32 = 0x08;

pub const PAGE_EXECUTE: u32 = 0x10;

pub const PAGE_EXECUTE_READ: u32 = 0x20;

pub const PAGE_EXECUTE_READWRITE: u32 = 0x40;

pub const PAGE_EXECUTE_WRITECOPY: u32 = 0x80;

pub const PAGE_GUARD: u32 = 0x100;

/// The kind of a region by its system type.
pub open spec fn kind_of(kind: u32) -> RegionKind {
    if kind == MEM_IMAGE {
        RegionKind::Image
    } else if kind == MEM_PRIVATE {
        RegionKind::Heap
    } else {
        RegionKind::Unknown
    }
}

/// The kind of a region by its system type.
pub fn region_kind(kind: u32) -> (result: RegionKind)
    ensures
        result == kind_of(kind),
{
    if kind == MEM_IMAGE {
        RegionKind::Image
    } else if kind == MEM_PRIVATE {
        RegionKind::Heap
    } else {
        RegionKind::Unknown
    }
}

/// What a region allows by its page protection. The low byte is the access, of
/// which one bit is set; the guard bit stands above it.
pub open spec fn flags_of(protect: u32) -> RegionFlags {
    let access = protect % 0x100;
    RegionFlags {
        readable: access == PAGE_READONLY || access == PAGE_READWRITE || access == PAGE_WRITECOPY
            || access == PAGE_EXECUTE_READ || access == PAGE_EXECUTE_READWRITE || access
            == PAGE_EXECUTE_WRITECOPY,
        writable: access == PAGE_READWRITE || access == PAGE_WRITECOPY || access
            == PAGE_EXECUTE_READWRITE || access == PAGE_EXECUTE_WRITECOPY,
        executable: access == PAGE_EXECUTE || access == PAGE_EXECUTE_READ || access
            == PAGE_EXECUTE_READWRITE || access == PAGE_EXECUTE_WRITECOPY,
        guarded: (protect / PAGE_GUARD) % 2 == 1,
    }
}

/// Whether an access allows reading.
pub fn is_readable(access: u32) -> (readable: bool)
    ensures
        readable == (access == PAGE_READONLY || access == PAGE_READWRITE || access
            == PAGE_WRITECOPY || access == PAGE_EXECUTE_READ || access == PAGE_EXECUTE_READWRITE
            || access == PAGE_EXECUTE_WRITECOPY),
{
    access == PAGE_READONLY || access == PAGE_READWRITE || access == PAGE_WRITECOPY || access
        == PAGE_EXECUTE_READ || access == PAGE_EXECUTE_READWRITE || access == PAGE_EXECUTE_WRITECOPY
}

/// What a region allows by its page protection.
pub fn region_flags(protect: u32) -> (flags: RegionFlags)
    ensures
        flags == flags_of(protect),
{
    let access: u32 = protect % 0x100;
    RegionFlags {
        readable: is_readable(access),
        writable: access == PAGE_READWRITE || access == PAGE_WRITECOPY || access
            == PAGE_EXECUTE_READWRITE || access == PAGE_EXECUTE_WRITECOPY,
        executable: access == PAGE_EXECUTE || access == PAGE_EXECUTE_READ || access
            == PAGE_EXECUTE_READWRITE || access == PAGE_EXECUTE_WRITECOPY,
        guarded: (protect / PAGE_GUARD) % 2 == 1,
    }
}

/// Everything that may be written to may be read, and the guard bit changes
/// nothing of the rest.
pub proof fn law_protection_flags(protect: u32)
    requires
        protect < PAGE_GUARD,
    ensures
        flags_of(protect).writable ==> flags_of(protect).readable,
        !flags_of(protect).guarded,
        flags_of((protect + PAGE_GUARD) as u32) == (RegionFlags {
            guarded: true,
            ..flags_of(protect)
        }),
{
}

/// What the system tells of the memory around an address.
#[derive(Debug, Clone, Copy, PartialEq, Eq, Structural)]
pub struct RegionQuery {
    pub base: usize,
    pub size: usize,
    pub state: u32,
    pub kind: u32,
    pub protect: u32,
}

impl RegionQuery {
    /// The region that was queried.
    pub open spec fn info(self) -> MemoryRegionInfo {
        MemoryRegionInfo {
            base: Address(self.base as u64),
            size: self.size,
            kind: kind_of(self.kind),
            flags: flags_of(self.protect),
        }
    }

    /// The region that was queried.
    pub fn region(self) -> (region: MemoryRegionInfo)
        ensures
            region == self.info(),
    {
        MemoryRegionInfo {
            base: Address(self.base as u64),
            size: self.size,
            kind: region_kind(self.kind),
            flags: region_flags(self.protect),
        }
    }
}

/// One step of a walk over the regions of a process: the region, where it counts,
/// and where to go on.
#[derive(Debug, Clone, Copy, PartialEq, Eq, Structural)]
pub struct WalkStep {
    pub found: Option<MemoryRegionInfo>,
    pub next: Option<usize>,
}

/// The address behind a queried region, as far as this machine counts.
pub open spec fn behind(query: RegionQuery) -> int {
    if query.base + query.size <= usize::MAX {
        query.base + query.size
    } else {
        usize::MAX as int
    }
}

/// One step of a walk over the committed regions, from an address and what the
/// system told of it. The walk goes on behind the region, and ends where that is
/// no progress or the end of all addresses.
pub fn walk_step(cursor: usize, query: RegionQuery) -> (step: WalkStep)
    ensures
        step.found == (if query.state == MEM_COMMIT && query.size > 0 {
            Some(query.info())
        } else {
            None
        }),
        step.next == (if behind(query) <= cursor || behind(query) == usize::MAX {
            None
        } else {
            Some(behind(query) as usize)
        }),
        step.next matches Some(next) ==> cursor < next,
{
    let found = if query.state == MEM_COMMIT && query.size > 0 {
        Some(query.region())
    } else {
        None
    };
    let next: usize = query.base.saturating_add(query.size);
    WalkStep {
        found,
        next: if next <= cursor || next == usize::MAX {
            None
        } else {
            Some(next)
        },
    }
}

/// A module as the system reports it; one without an address or a size is left
/// out.
pub fn module_entry(name: String, base: u64, size: u32) -> (module: Option<ModuleInfo>)
    ensures
        module.deep_view() == (if base == 0 || size == 0 {
            None
        } else {
            Some(
                ModuleInfoView { name: name@, base: ModuleBase(base), size: size as u64 },
            )
        }),
{
    if base == 0 || size == 0 {
        None
    } else {
        Some(ModuleInfo { name, base: ModuleBase(base), size: size as u64 })
    }
}

/// A part of memory that is to be read.
#[derive(Debug, Clone, Copy, PartialEq, Eq, Structural)]
pub struct ReadWindow {
    pub start: Address,
    pub len: usize,
}

/// Where a window around an address starts: `before` bytes ahead of it, but within
/// its region.
pub open spec fn window_start(region: MemoryRegionInfo, address: Address, before: int) -> int {
    let wanted = if address.0 < before {
        0
    } else {
        address.0 - before
    };
    if wanted < region.base.0 {
        region.base.0 as int
    } else {
        wanted
    }
}

/// Where a window around an address ends: `after` bytes behind it, but within its
/// region.
pub open spec fn window_end(region: MemoryRegionInfo, address: Address, after: int) -> int {
    let wanted = if address.0 + after > u64::MAX {
        u64::MAX as int
    } else {
        address.0 + after
    };
    if wanted > region.end() {
        region.end()
    } else {
        wanted
    }
}

/// The length of a window; one that ends before it starts is empty. A machine that
/// cannot count so far reads the length modulo what it can count.
pub open spec fn window_len(start: int, end: int) -> usize {
    if end <= start {
        0
    } else {
        ((end - start) % (usize::MAX + 1)) as usize
    }
}

/// The window around an address that a snapshot reads.
pub fn snapshot_window(
    region: MemoryRegionInfo,
    address: Address,
    before: usize,
    after: usize,
) -> (window: ReadWindow)
    ensures
        window.start.0 == window_start(region, address, before as int),
        window.len == window_len(
            window_start(region, address, before as int),
            window_end(region, address, after as int),
        ),
{
    let ahead: u64 = address.0.saturating_sub(before as u64);
    let start: u64 = if ahead < region.base.0 {
        region.base.0
    } else {
        ahead
    };
    let behind: u64 = address.0.saturating_add(after as u64);
    let region_end: u64 = region.end_address();
    let end: u64 = if behind > region_end {
        region_end
    } else {
        behind
    };
    ReadWindow { start: Address(start), len: distance(start, end) }
}

/// The number of bytes from `start` to `end`.
fn distance(start: u64, end: u64) -> (len: usize)
    ensures
        len == window_len(start as int, end as int),
{
    bytes::as_size(end.saturating_sub(start))
}

/// The part of a region that a text scan of a window reads: from the address on.
pub fn scan_window(region: MemoryRegionInfo, address: Address, size: usize) -> (window: ReadWindow)
    ensures
        window.start == address,
        window.len == window_len(address.0 as int, window_end(region, address, size as int)),
{
    let behind: u64 = address.0.saturating_add(size as u64);
    let region_end: u64 = region.end_address();
    let end: u64 = if behind > region_end {
        region_end
    } else {
        behind
    };
    ReadWindow { start: address, len: distance(address.0, end) }
}

/// A window never leaves its region: it lies between the region's base and end.
pub proof fn law_window_within_region(
    region: MemoryRegionInfo,
    address: Address,
    before: int,
    after: int,
)
    requires
        region.base.0 <= address.0 < region.end(),
        0 <= before,
        0 <= after,
    ensures
        region.base.0 <= window_start(region, address, before) <= address.0,
        window_start(region, address, before) <= window_end(region, address, after)
            <= region.end(),
        window_end(region, address, after) <= window_start(region, address, before) + before
            + after,
{
}

/// The one-region image of a window.
pub fn window_backend(
    modules: Vec<ModuleInfo>,
    region: MemoryRegionInfo,
    start: Address,
    bytes: Vec<u8>,
) -> (backend: InMemoryBackend)
    ensures
        backend.deep_view() == (MemoryView {
            modules: modules.deep_view(),
            regions: seq![
                MemoryRegionView {
                    base: start,
                    bytes: bytes@,
                    kind: region.kind,
                    flags: region.flags,
                },
            ],
        }),
{
    let backend = InMemoryBackend {
        modules,
        regions: vec![
            MemoryRegion { base: start, bytes, kind: region.kind, flags: region.flags },
        ],
    };
    proof {
        assert(backend.deep_view().regions =~= seq![
            MemoryRegionView {
                base: start,
                bytes: bytes@,
                kind: region.kind,
                flags: region.flags,
            },
        ]);
    }
    backend
}

/// Which regions a scan looks at.
#[derive(Debug, Clone, Copy, PartialEq, Eq, Structural)]
pub enum SnapshotScope {
    All,
    Module,
    Heap,
    Executable,
}

impl SnapshotScope {
    /// What the scope is called.
    pub open spec fn name(self) -> Seq<char> {
        match self {
            SnapshotScope::All => "all"@,
            SnapshotScope::Module => "module"@,
            SnapshotScope::Heap => "heap"@,
            SnapshotScope::Executable => "executable"@,
        }
    }

    /// The most bytes that are read of one region.
    pub open spec fn region_limit(self) -> int {
        match self {
            SnapshotScope::Executable | SnapshotScope::Module => 0x100_0000,
            SnapshotScope::All | SnapshotScope::Heap => 0x10_0000,
        }
    }

    /// Whether the scope takes in a region.
    pub open spec fn takes(self, in_main_module: bool, executable: bool) -> bool {
        match self {
            SnapshotScope::All => true,
            SnapshotScope::Module => in_main_module,
            SnapshotScope::Heap => !in_main_module,
            SnapshotScope::Executable => executable,
        }
    }

    pub fn label(self) -> (label: &'static str)
        ensures
            label@ == self.name(),
    {
        match self {
            Self::All => "all",
            Self::Module => "module",
            Self::Heap => "heap",
            Self::Executable => "executable",
        }
    }

    /// The most bytes that are read of one region, and of all.
    pub fn limits(self) -> (limits: (usize, usize))
        ensures
            limits.0 == self.region_limit(),
            limits.1 == total_limit(),
    {
        match self {
            Self::Executable | Self::Module => (16 * 1024 * 1024, 64 * 1024 * 1024),
            Self::All | Self::Heap => (1024 * 1024, 64 * 1024 * 1024),
        }
    }

    /// Whether the scope takes in a region.
    pub fn includes(self, in_main_module: bool, executable: bool) -> (included: bool)
        ensures
            included == self.takes(in_main_module, executable),
    {
        match self {
            Self::All => true,
            Self::Module => in_main_module,
            Self::Heap => !in_main_module,
            Self::Executable => executable,
        }
    }
}

/// The most bytes that a snapshot reads.
pub open spec fn total_limit() -> int {
    0x400_0000
}

/// The most bytes that are read of a region: in a scan of everything, those of the
/// main module count as a module's.
pub open spec fn read_limit(scope: SnapshotScope, in_main_module: bool) -> int {
    if scope == SnapshotScope::All && in_main_module {
        SnapshotScope::Module.region_limit()
    } else {
        scope.region_limit()
    }
}

/// The most bytes that are read of a region.
pub fn region_read_limit(scope: SnapshotScope, in_main_module: bool) -> (limit: usize)
    ensures
        limit == read_limit(scope, in_main_module),
{
    match scope {
        SnapshotScope::All => {
            if in_main_module {
                SnapshotScope::Module.limits().0
            } else {
                scope.limits().0
            }
        },
        _ => scope.limits().0,
    }
}

/// Whether an address lies in the first of some modules.
pub open spec fn in_first_module(modules: Seq<ModuleInfoView>, address: Address) -> bool {
    modules.len() > 0 && modules[0].base.0 <= address.0 < (if modules[0].base.0 + modules[0].size
        <= u64::MAX {
        modules[0].base.0 + modules[0].size
    } else {
        u64::MAX as int
    })
}

/// Whether an address lies in the first of some modules.
pub fn in_main_module(modules: &Vec<ModuleInfo>, address: Address) -> (inside: bool)
    ensures
        inside == in_first_module(modules.deep_view(), address),
{
    if modules.len() == 0 {
        return false;
    }
    let main = &modules[0];
    proof {
        assert(modules.deep_view()[0] == main.deep_view());
    }
    main.base.0 <= address.0 && address.0 < main.base.0.saturating_add(main.size)
}

/// The least of three numbers.
pub open spec fn least(a: int, b: int, c: int) -> int {
    if a <= b && a <= c {
        a
    } else if b <= c {
        b
    } else {
        c
    }
}

/// How many bytes of a region are read, where any: not those of a region that
/// cannot be read, and not more than are left.
pub open spec fn planned_read(
    region: MemoryRegionInfo,
    max_region: int,
    total: int,
    max_total: int,
) -> Option<int> {
    if total >= max_total || !region.is_readable() {
        None
    } else {
        Some(least(region.size as int, max_region, max_total - total))
    }
}

/// Which regions a snapshot wants, and how much of each.
#[derive(Debug, Clone, Copy, PartialEq, Eq, Structural)]
pub enum SnapshotRule {
    /// The regions of a scope, within its limits.
    Scope(SnapshotScope),
    /// Every region, up to a number of bytes.
    UpTo(usize),
}

impl SnapshotRule {
    /// The most bytes that are read of a region.
    pub open spec fn region_limit(self, in_main_module: bool) -> int {
        match self {
            SnapshotRule::Scope(scope) => read_limit(scope, in_main_module),
            SnapshotRule::UpTo(limit) => limit as int,
        }
    }

    /// Whether a region is wanted.
    pub open spec fn takes(self, in_main_module: bool, executable: bool) -> bool {
        match self {
            SnapshotRule::Scope(scope) => scope.takes(in_main_module, executable),
            SnapshotRule::UpTo(_) => true,
        }
    }
}

/// The number of bytes that some regions hold.
pub open spec fn total_bytes(regions: Seq<MemoryRegionView>) -> int
    decreases regions.len(),
{
    if regions.len() == 0 {
        0
    } else {
        total_bytes(regions.drop_last()) + regions.last().bytes.len()
    }
}

/// Whether a region that was read is readable, wanted and within its limit.
pub open spec fn fits(
    rule: SnapshotRule,
    modules: Seq<ModuleInfoView>,
    region: MemoryRegionView,
) -> bool {
    let inside = in_first_module(modules, region.base);
    &&& region.is_readable()
    &&& rule.takes(inside, region.flags.executable)
    &&& region.bytes.len() <= rule.region_limit(inside)
}

/// A snapshot that is being taken: what it wants, what it has read, and how much
/// it may still read.
pub struct Snapshot {
    rule: SnapshotRule,
    max_total: usize,
    modules: Vec<ModuleInfo>,
    total: usize,
    regions: Vec<MemoryRegion>,
}

impl Snapshot {
    /// What is wanted.
    pub closed spec fn rule(&self) -> SnapshotRule {
        self.rule
    }

    /// What has been read.
    pub closed spec fn image(&self) -> MemoryView {
        MemoryView { modules: self.modules.deep_view(), regions: self.regions.deep_view() }
    }

    /// How many bytes may be read in all.
    pub closed spec fn limit(&self) -> int {
        self.max_total as int
    }

    /// How many bytes of a region are to be read, where any.
    pub open spec fn wants(&self, region: MemoryRegionInfo) -> Option<int> {
        let inside = in_first_module(self.image().modules, region.base);
        if self.rule().takes(inside, region.flags.executable) {
            planned_read(
                region,
                self.rule().region_limit(inside),
                total_bytes(self.image().regions),
                self.limit(),
            )
        } else {
            None
        }
    }

    /// The count of bytes is right.
    closed spec fn counted(&self) -> bool {
        self.total == total_bytes(self.image().regions)
    }

    /// What has been read is within the limits, and nothing but what is wanted and
    /// can be read.
    pub closed spec fn valid(&self) -> bool {
        &&& self.counted()
        &&& total_bytes(self.image().regions) <= self.limit()
        &&& forall|i: int|
            0 <= i < self.image().regions.len() ==> fits(
                self.rule(),
                self.image().modules,
                #[trigger] self.image().regions[i],
            )
    }

    /// A snapshot holds at most as many bytes as it may in all, at most as many of
    /// each region, and only regions that can be read without a guard.
    pub proof fn law_snapshot_within_limits(&self)
        requires
            self.valid(),
        ensures
            total_bytes(self.image().regions) <= self.limit(),
            forall|i: int|
                0 <= i < self.image().regions.len() ==> fits(
                    self.rule(),
                    self.image().modules,
                    #[trigger] self.image().regions[i],
                ),
    {
    }

    fn empty(rule: SnapshotRule, max_total: usize, modules: Vec<ModuleInfo>) -> (snapshot: Self)
        ensures
            snapshot.valid(),
            snapshot.rule() == rule,
            snapshot.limit() == max_total,
            snapshot.image() == (MemoryView {
                modules: modules.deep_view(),
                regions: Seq::empty(),
            }),
    {
        let snapshot = Snapshot { rule, max_total, modules, total: 0, regions: Vec::new() };
        proof {
            assert(snapshot.regions.deep_view() =~= Seq::<MemoryRegionView>::empty());
        }
        snapshot
    }

    /// A snapshot of the regions of a scope, within the limits of the scope.
    pub fn for_scope(scope: SnapshotScope, modules: Vec<ModuleInfo>) -> (snapshot: Self)
        ensures
            snapshot.valid(),
            snapshot.rule() == SnapshotRule::Scope(scope),
            snapshot.limit() == total_limit(),
            snapshot.image() == (MemoryView {
                modules: modules.deep_view(),
                regions: Seq::empty(),
            }),
    {
        Self::empty(SnapshotRule::Scope(scope), scope.limits().1, modules)
    }

    /// A snapshot of every readable region, within the given limits.
    pub fn of_readable(
        max_region_bytes: usize,
        max_total_bytes: usize,
        modules: Vec<ModuleInfo>,
    ) -> (snapshot: Self)
        ensures
            snapshot.valid(),
            snapshot.rule() == SnapshotRule::UpTo(max_region_bytes),
            snapshot.limit() == max_total_bytes,
            snapshot.image() == (MemoryView {
                modules: modules.deep_view(),
                regions: Seq::empty(),
            }),
    {
        Self::empty(SnapshotRule::UpTo(max_region_bytes), max_total_bytes, modules)
    }

    /// How many bytes of a region are to be read, where any.
    pub fn plan(&self, region: MemoryRegionInfo) -> (len: Option<usize>)
        requires
            self.valid(),
        ensures
            match len {
                Some(len) => self.wants(region) == Some(len as int),
                None => self.wants(region) is None,
            },
    {
        let inside = in_main_module(&self.modules, region.base);
        let max_region: usize = match self.rule {
            SnapshotRule::Scope(scope) => {
                if !scope.includes(inside, region.flags.executable) {
                    return None;
                }
                region_read_limit(scope, inside)
            },
            SnapshotRule::UpTo(limit) => limit,
        };
        if self.total >= self.max_total || !region.flags.readable || region.flags.guarded {
            return None;
        }
        let remaining: usize = self.max_total - self.total;
        Some(smallest(region.size, max_region, remaining))
    }

    /// Keeps what was read of a region; nothing of a region that gave no byte.
    pub fn keep(&mut self, region: MemoryRegionInfo, bytes: Vec<u8>)
        requires
            old(self).valid(),
            old(self).wants(region) matches Some(len) && bytes@.len() <= len,
        ensures
            final(self).valid(),
            final(self).rule() == old(self).rule(),
            final(self).limit() == old(self).limit(),
            final(self).image().modules == old(self).image().modules,
            final(self).image().regions == (if bytes@.len() == 0 {
                old(self).image().regions
            } else {
                old(self).image().regions.push(
                    MemoryRegionView {
                        base: region.base,
                        bytes: bytes@,
                        kind: region.kind,
                        flags: region.flags,
                    },
                )
            }),
    {
        if bytes.len() == 0 {
            return;
        }
        let ghost before = self.image();
        let ghost rule = self.rule();
        self.total = self.total + bytes.len();
        let kept = MemoryRegion {
            base: region.base,
            bytes,
            kind: region.kind,
            flags: region.flags,
        };
        let ghost added = kept.deep_view();
        self.regions.push(kept);
        proof {
            assert(self.image().regions =~= before.regions.push(added));
            assert(self.image().regions.drop_last() =~= before.regions);
            assert forall|i: int| 0 <= i < self.image().regions.len() implies fits(
                rule,
                before.modules,
                #[trigger] self.image().regions[i],
            ) by {
                if i < before.regions.len() {
                    assert(fits(rule, before.modules, before.regions[i]));
                } else {
                    assert(fits(rule, before.modules, added));
                }
            }
        }
    }

    /// The image that was read.
    pub fn into_backend(self) -> (backend: InMemoryBackend)
        ensures
            backend.deep_view() == self.image(),
    {
        InMemoryBackend { modules: self.modules, regions: self.regions }
    }

    /// An engine on what was read.
    pub fn into_engine(self, arch: TargetArch) -> (engine: ArgusEngine)
        ensures
            engine.memory() == self.image(),
            engine.arch() == arch,
    {
        ArgusEngine::new_for_target(self.into_backend(), arch)
    }
}

/// The smallest of three numbers.
pub fn smallest(a: usize, b: usize, c: usize) -> (min: usize)
    ensures
        min == least(a as int, b as int, c as int),
{
    if a <= b && a <= c {
        a
    } else if b <= c {
        b
    } else {
        c
    }
}

/// The characters that UTF-16 units stand for; a surrogate without its partner
/// becomes the replacement character.
pub open spec fn utf16_chars(units: Seq<u16>) -> Seq<char>
    decreases units.len(),
{
    if units.len() == 0 {
        Seq::empty()
    } else if units[0] < 0xd800 || units[0] > 0xdfff {
        seq![units[0] as char] + utf16_chars(units.skip(1))
    } else if units[0] < 0xdc00 && units.len() > 1 && 0xdc00 <= units[1] <= 0xdfff {
        seq![
            (0x10000 + (units[0] - 0xd800) * 0x400 + (units[1] - 0xdc00)) as char,
        ] + utf16_chars(units.skip(2))
    } else {
        seq!['\u{fffd}'] + utf16_chars(units.skip(1))
    }
}

/// The units up to the first zero.
pub open spec fn until_zero(units: Seq<u16>) -> Seq<u16>
    decreases units.len(),
{
    if units.len() == 0 || units[0] == 0 {
        Seq::empty()
    } else {
        seq![units[0]] + until_zero(units.skip(1))
    }
}


/// `char::from_u32` gives the character of a code, where the code is one: at most
/// `0x10ffff` and no surrogate.
pub assume_specification[ std::primitive::char::from_u32 ](code: u32) -> (result: Option<char>)
    ensures
        result == (if code < 0xd800 || 0xe000 <= code <= 0x10ffff {
            Some(code as char)
        } else {
            None
        }),
;

/// The character of a code, or the replacement character.
pub fn char_or_replacement(code: u32) -> (c: char)
    ensures
        c == (if code < 0xd800 || 0xe000 <= code <= 0x10ffff {
            code as char
        } else {
            '\u{fffd}'
        }),
{
    match char::from_u32(code) {
        Some(c) => c,
        None => '\u{fffd}',
    }
}

/// The text that UTF-16 units stand for, up to the first zero.
pub fn utf16_z_to_string(value: &[u16]) -> (text: String)
    ensures
        text@ == utf16_chars(until_zero(value@)),
{
    let mut len: usize = 0;
    let ghost whole = until_zero(value@);
    proof {
        assert(value@.skip(0) =~= value@);
        assert(value@.take(0) + whole =~= whole);
    }
    while len < value.len() && value[len] != 0
        invariant
            len <= value.len(),
            whole == until_zero(value@),
            value@.take(len as int) + until_zero(value@.skip(len as int)) == whole,
        decreases value.len() - len,
    {
        proof {
            let rest = value@.skip(len as int);
            assert(rest.skip(1) =~= value@.skip(len + 1));
            assert(value@.take(len as int) + (seq![rest[0]] + until_zero(rest.skip(1)))
                =~= value@.take(len + 1) + until_zero(value@.skip(len + 1)));
        }
        len += 1;
    }
    let units = &value[0..len];
    proof {
        assert(units@ =~= value@.take(len as int));
        assert(units@ + Seq::<u16>::empty() =~= units@);
        assert(units@ =~= whole);
    }
    utf16_text(units)
}

/// The text that UTF-16 units stand for.
pub fn utf16_text(units: &[u16]) -> (text: String)
    ensures
        text@ == utf16_chars(units@),
{
    let ghost whole = utf16_chars(units@);
    let mut text = String::new();
    let mut i: usize = 0;
    proof {
        assert(units@.skip(0) =~= units@);
        assert(Seq::<char>::empty() + whole =~= whole);
    }
    while i < units.len()
        invariant
            i <= units.len(),
            whole == utf16_chars(units@),
            text@ + utf16_chars(units@.skip(i as int)) == whole,
        decreases units.len() - i,
    {
        let unit: u16 = units[i];
        let ghost before = text@;
        let ghost rest = units@.skip(i as int);
        proof {
            assert(rest.skip(1) =~= units@.skip(i + 1));
            if rest.len() > 1 {
                assert(rest[1] == units@[i + 1]);
                assert(rest.skip(2) =~= units@.skip(i + 2));
            }
        }
        if unit < 0xd800 || unit > 0xdfff {
            text.push(char_or_replacement(unit as u32));
            i += 1;
            proof {
                assert(before + (seq![unit as char] + utf16_chars(rest.skip(1))) =~= text@
                    + utf16_chars(units@.skip(i as int)));
            }
        } else if unit < 0xdc00 && units.len() - i > 1 && 0xdc00 <= units[i + 1] && units[i + 1]
            <= 0xdfff {
            let low: u32 = units[i + 1] as u32 - 0xdc00;
            let code: u32 = 0x10000 + (unit as u32 - 0xd800) * 0x400 + low;
            text.push(char_or_replacement(code));
            i += 2;
            proof {
                assert(before + (seq![code as char] + utf16_chars(rest.skip(2))) =~= text@
                    + utf16_chars(units@.skip(i as int)));
            }
        } else {
            text.push('\u{fffd}');
            i += 1;
            proof {
                assert(before + (seq!['\u{fffd}'] + utf16_chars(rest.skip(1))) =~= text@
                    + utf16_chars(units@.skip(i as int)));
            }
        }
    }
    proof {
        assert(units@.skip(units@.len() as int) =~= Seq::<u16>::empty());
        assert(text@ + Seq::<char>::empty() =~= text@);
    }
    text
}

/// The name of a module, given the units that the system wrote; without any, it is
/// unknown.
pub fn module_name(units: &[u16]) -> (name: String)
    ensures
        name@ == (if units@.len() == 0 {
            "<unknown>"@
        } else {
            utf16_chars(units@)
        }),
{
    if units.len() == 0 {
        return "<unknown>".to_string();
    }
    utf16_text(units)
}

/// A byte lies in the window around an address just where it lies in the region, no more
/// than `before` bytes ahead of the address, and fewer than `after` bytes behind it.
pub proof fn law_window_holds(
    region: MemoryRegionInfo,
    address: Address,
    before: int,
    after: int,
    byte: int,
)
    requires
        region.base.0 <= address.0 < region.base.0 + region.size <= u64::MAX,
        0 <= before,
        0 <= after,
    ensures
        window_start(region, address, before) <= byte < window_end(region, address, after)
            <==> region.base.0 <= byte < region.base.0 + region.size && address.0 - before <= byte
            < address.0 + after,
        window_end(region, address, after) - window_start(region, address, before) <= usize::MAX
            ==> window_len(
            window_start(region, address, before),
            window_end(region, address, after),
        ) == window_end(region, address, after) - window_start(region, address, before),
{
    law_window_within_region(region, address, before, after);
    let len = window_end(region, address, after) - window_start(region, address, before);
    if len <= usize::MAX {
        vstd::arithmetic::div_mod::lemma_small_mod(len as nat, (usize::MAX + 1) as nat);
    }
}

/// What a page protection allows, by its low byte: reading is allowed by six of the eight
/// accesses, writing by four, running by four; the bit above guards the region.
pub proof fn law_flags_of(protect: u32)
    ensures
        ({
            let access = protect % 256;
            let flags = flags_of(protect);
            &&& flags.readable <==> access == 2 || access == 4 || access == 8 || access == 32
                || access == 64 || access == 128
            &&& flags.writable <==> access == 4 || access == 8 || access == 64 || access == 128
            &&& flags.executable <==> access == 16 || access == 32 || access == 64 || access == 128
            &&& flags.guarded <==> protect / 256 % 2 == 1
        }),
{
}

/// A region belongs to an image, or to one process alone, or is of neither kind.
pub proof fn law_kind_of(kind: u32)
    ensures
        kind_of(kind) == RegionKind::Image <==> kind == 0x100_0000,
        kind_of(kind) == RegionKind::Heap <==> kind == 0x2_0000,
        kind != 0x100_0000 && kind != 0x2_0000 ==> kind_of(kind) == RegionKind::Unknown,
{
}

/// A read takes in as much of a region as there is, as may be read of one region, and as is
/// left of the whole: it is within all three and reaches one of them. Nothing is read of a
/// region that is guarded or not readable, nor where nothing is left.
pub proof fn law_planned_read(
    region: MemoryRegionInfo,
    max_region: int,
    total: int,
    max_total: int,
)
    requires
        0 <= max_region,
    ensures
        match planned_read(region, max_region, total, max_total) {
            Some(len) => {
                &&& region.flags.readable && !region.flags.guarded
                &&& len <= region.size && len <= max_region && total + len <= max_total
                &&& len == region.size || len == max_region || total + len == max_total
            },
            None => total >= max_total || !region.flags.readable || region.flags.guarded,
        },
{
}

/// A scope takes in everything, or what lies in the main module, or what lies outside of
/// it, or what may be run. Sixteen megabytes are read of a region of the main module in a
/// scan of everything and of any region in a scan of the module or of what may be run, one
/// megabyte of any other, and sixty-four of all.
pub proof fn law_scopes(inside: bool, executable: bool)
    ensures
        SnapshotScope::All.takes(inside, executable),
        SnapshotScope::Module.takes(inside, executable) == inside,
        SnapshotScope::Heap.takes(inside, executable) == !inside,
        SnapshotScope::Executable.takes(inside, executable) == executable,
        read_limit(SnapshotScope::All, true) == 16 * 1024 * 1024,
        read_limit(SnapshotScope::All, false) == 1024 * 1024,
        read_limit(SnapshotScope::Module, inside) == 16 * 1024 * 1024,
        read_limit(SnapshotScope::Executable, inside) == 16 * 1024 * 1024,
        read_limit(SnapshotScope::Heap, inside) == 1024 * 1024,
        total_limit() == 64 * 1024 * 1024,
{
}

/// The main module is the first one; an address lies in it where it lies between its ends.
pub proof fn law_in_first_module(modules: Seq<ModuleInfoView>, address: Address)
    requires
        modules.len() > 0 ==> modules[0].base.0 + modules[0].size <= u64::MAX,
    ensures
        in_first_module(modules, address) <==> modules.len() > 0 && modules[0].base.0 <= address.0
            && address.0 - modules[0].base.0 < modules[0].size,
{
}

proof fn lemma_first_char(units: Seq<u16>, c: char)
    requires
        units.len() > 0,
        c as int <= 0xffff ==> units[0] as int == c as int,
        c as int > 0xffff ==> units.len() > 1 && 0xd800 <= units[0] < 0xdc00 && 0xdc00 <= units[1]
            < 0xe000 && c as int == 0x10000 + (units[0] - 0xd800) * 0x400 + (units[1] - 0xdc00),
    ensures
        c as int <= 0xffff ==> utf16_chars(units) == seq![c] + utf16_chars(units.skip(1)),
        c as int > 0xffff ==> utf16_chars(units) == seq![c] + utf16_chars(units.skip(2)),
{
    if c as int <= 0xffff {
        assert(units[0] as char == c);
    } else {
        assert((0x10000 + (units[0] - 0xd800) * 0x400 + (units[1] - 0xdc00)) as char == c);
    }
}

/// The UTF-16 units of a text stand for the text.
pub proof fn law_utf16_round_trip(s: Seq<char>)
    ensures
        utf16_chars(crate::text_scan::utf16_units(s)) == s,
    decreases s.len(),
{
    if s.len() > 0 {
        let c = s[0];
        let rest = s.skip(1);
        law_utf16_round_trip(rest);
        crate::text_scan::law_utf16_units(seq![c], c, rest);
        assert(seq![c] + rest =~= s);
        let units = crate::text_scan::utf16_units(s);
        let first = crate::text_scan::utf16_units(seq![c]);
        let others = crate::text_scan::utf16_units(rest);
        assert(units == first + others);
        if c as int <= 0xffff {
            assert(units.skip(1) =~= others);
            assert(units[0] == first[0]);
        } else {
            assert(units.skip(2) =~= others);
            assert(units[0] == first[0] && units[1] == first[1]);
        }
        lemma_first_char(units, c);
        assert(seq![c] + rest =~= s);
    } else {
        assert(utf16_chars(crate::text_scan::utf16_units(s)) =~= s);
    }
}

/// A half of a pair without the other half stands for the replacement character, and the
/// units behind it stand for what they stand for.
pub proof fn law_lone_half(unit: u16, rest: Seq<u16>)
    requires
        0xd800 <= unit <= 0xdfff,
        unit >= 0xdc00 || rest.len() == 0 || !(0xdc00 <= rest[0] <= 0xdfff),
    ensures
        utf16_chars(seq![unit] + rest) == seq!['\u{fffd}'] + utf16_chars(rest),
{
    let units = seq![unit] + rest;
    assert(units.skip(1) =~= rest);
}

/// What stands before the first zero unit is kept whole, and nothing of what is behind it.
pub proof fn law_until_zero(before: Seq<u16>, behind: Seq<u16>)
    requires
        forall|i: int| 0 <= i < before.len() ==> before[i] != 0,
    ensures
        until_zero(before + seq![0u16] + behind) == before,
        until_zero(before) == before,
    decreases before.len(),
{
    let all = before + seq![0u16] + behind;
    if before.len() > 0 {
        law_until_zero(before.skip(1), behind);
        assert(all.skip(1) =~= before.skip(1) + seq![0u16] + behind);
        assert(seq![before[0]] + before.skip(1) =~= before);
        assert(all[0] == before[0]);
    } else {
        assert(all[0] == 0);
        assert(until_zero(all) =~= before);
        assert(until_zero(before) =~= before);
    }
}

} // verus!
