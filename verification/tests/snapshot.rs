use argus::evidence::{Address, ModuleBase, RegionFlags, RegionKind, TargetArch};
use argus::memory::ModuleInfo;
use argus::snapshot::{
    module_entry, module_name, region_flags, region_kind, scan_window, snapshot_window,
    utf16_z_to_string, walk_step, window_backend, MemoryRegionInfo, ReadWindow, RegionQuery, Snapshot, SnapshotScope, MEM_COMMIT,
    MEM_IMAGE, MEM_PRIVATE, PAGE_EXECUTE, PAGE_EXECUTE_READ, PAGE_EXECUTE_READWRITE,
    PAGE_EXECUTE_WRITECOPY, PAGE_GUARD, PAGE_NOACCESS, PAGE_READONLY, PAGE_READWRITE,
    PAGE_WRITECOPY,
};

use windows_sys::Win32::System::Memory;

fn flags(readable: bool, writable: bool, executable: bool, guarded: bool) -> RegionFlags {
    RegionFlags {
        readable,
        writable,
        executable,
        guarded,
    }
}

fn region(base: u64, size: usize) -> MemoryRegionInfo {
    MemoryRegionInfo {
        base: Address(base),
        size,
        kind: RegionKind::Heap,
        flags: flags(true, true, false, false),
    }
}

fn module(name: &str, base: u64, size: u64) -> ModuleInfo {
    ModuleInfo {
        name: name.to_string(),
        base: ModuleBase(base),
        size,
    }
}

#[test]
fn protections_are_read_as_flags() {
    assert_eq!(region_flags(PAGE_NOACCESS), flags(false, false, false, false));
    assert_eq!(region_flags(PAGE_READONLY), flags(true, false, false, false));
    assert_eq!(region_flags(PAGE_READWRITE), flags(true, true, false, false));
    assert_eq!(region_flags(PAGE_WRITECOPY), flags(true, true, false, false));
    assert_eq!(region_flags(PAGE_EXECUTE), flags(false, false, true, false));
    assert_eq!(
        region_flags(PAGE_EXECUTE_READ),
        flags(true, false, true, false)
    );
    assert_eq!(
        region_flags(PAGE_EXECUTE_READWRITE),
        flags(true, true, true, false)
    );
    assert_eq!(
        region_flags(PAGE_EXECUTE_WRITECOPY),
        flags(true, true, true, false)
    );
    assert_eq!(
        region_flags(PAGE_READWRITE + PAGE_GUARD),
        flags(true, true, false, true)
    );
}

#[test]
fn types_are_read_as_kinds() {
    assert_eq!(region_kind(MEM_IMAGE), RegionKind::Image);
    assert_eq!(region_kind(MEM_PRIVATE), RegionKind::Heap);
    assert_eq!(region_kind(0x4_0000), RegionKind::Unknown);
}

#[test]
fn a_walk_goes_on_behind_each_region() {
    let query = RegionQuery {
        base: 0x1000,
        size: 0x2000,
        state: MEM_COMMIT,
        kind: MEM_PRIVATE,
        protect: PAGE_READONLY,
    };
    let step = walk_step(0x1000, query);
    assert_eq!(step.next, Some(0x3000));
    assert_eq!(step.found.unwrap().size, 0x2000);
    let free = RegionQuery {
        state: 0x1_0000,
        ..query
    };
    assert_eq!(walk_step(0x1000, free).found, None);
    assert_eq!(walk_step(0x3000, query).next, None);
    let last = RegionQuery {
        size: usize::MAX,
        ..query
    };
    assert_eq!(walk_step(0x1000, last).next, None);
}

#[test]
fn a_module_needs_a_base_and_a_size() {
    assert_eq!(
        module_entry("a.dll".to_string(), 0x1000, 0x200),
        Some(module("a.dll", 0x1000, 0x200))
    );
    assert_eq!(module_entry("a.dll".to_string(), 0, 0x200), None);
    assert_eq!(module_entry("a.dll".to_string(), 0x1000, 0), None);
}

#[test]
fn a_window_stays_within_its_region() {
    let around = snapshot_window(region(0x1000, 0x1000), Address(0x1010), 0x100, 0x40);
    assert_eq!(
        around,
        ReadWindow {
            start: Address(0x1000),
            len: 0x50,
        }
    );
    let at_end = snapshot_window(region(0x1000, 0x1000), Address(0x1ff0), 0x10, 0x100);
    assert_eq!(
        at_end,
        ReadWindow {
            start: Address(0x1fe0),
            len: 0x20,
        }
    );
    let scan = scan_window(region(0x1000, 0x1000), Address(0x1f00), 0x200);
    assert_eq!(
        scan,
        ReadWindow {
            start: Address(0x1f00),
            len: 0x100,
        }
    );
}

#[test]
fn a_window_is_an_image_of_one_region() {
    let backend = window_backend(
        vec![module("a.exe", 0x1000, 0x1000)],
        region(0x1000, 0x1000),
        Address(0x1010),
        vec![1, 2, 3],
    );
    assert_eq!(backend.modules.len(), 1);
    assert_eq!(backend.regions.len(), 1);
    assert_eq!(backend.regions[0].base, Address(0x1010));
    assert_eq!(backend.regions[0].bytes, vec![1, 2, 3]);
}

#[test]
fn a_region_ends_where_addresses_do() {
    let last = region(u64::MAX - 1, 16);
    assert_eq!(last.end_address(), u64::MAX);
    assert!(last.contains(Address(u64::MAX - 1)));
    assert!(!last.contains(Address(u64::MAX)));
    assert!(!region(0x1000, 16).contains(Address(0x1010)));
}

#[test]
fn scopes_have_limits() {
    let mega = 1024 * 1024;
    assert_eq!(SnapshotScope::All.limits(), (mega, 64 * mega));
    assert_eq!(SnapshotScope::Heap.limits(), (mega, 64 * mega));
    assert_eq!(SnapshotScope::Executable.limits(), (16 * mega, 64 * mega));
    assert_eq!(SnapshotScope::Module.limits(), (16 * mega, 64 * mega));
    assert!(SnapshotScope::Module.includes(true, false));
    assert!(!SnapshotScope::Heap.includes(true, false));
    assert!(SnapshotScope::Executable.includes(false, true));
    assert!(!SnapshotScope::Executable.includes(false, false));
}

#[test]
fn a_snapshot_keeps_to_its_limits() {
    let mut snapshot = Snapshot::of_readable(8, 12, vec![module("a.exe", 0x1000, 0x1000)]);
    assert_eq!(snapshot.plan(region(0x1000, 100)), Some(8));
    snapshot.keep(region(0x1000, 100), vec![1; 8]);
    assert_eq!(snapshot.plan(region(0x2000, 100)), Some(4));
    snapshot.keep(region(0x2000, 100), vec![2; 4]);
    assert_eq!(snapshot.plan(region(0x3000, 100)), None);
    let engine = snapshot.into_engine(TargetArch::X86);
    assert_eq!(engine.mem_read(Address(0x2000), 4).unwrap().address, Address(0x2000));
    assert!(engine.mem_read(Address(0x2004), 1).is_none());
}

#[test]
fn a_snapshot_leaves_out_what_cannot_be_read() {
    let snapshot = Snapshot::for_scope(SnapshotScope::Heap, vec![module("a.exe", 0x1000, 0x1000)]);
    assert_eq!(snapshot.plan(region(0x1000, 16)), None);
    assert_eq!(snapshot.plan(region(0x8000, 16)), Some(16));
    let mut guarded = region(0x8000, 16);
    guarded.flags.guarded = true;
    assert_eq!(snapshot.plan(guarded), None);
    let mut hidden = region(0x8000, 16);
    hidden.flags.readable = false;
    assert_eq!(snapshot.plan(hidden), None);
    assert_eq!(snapshot.into_backend().regions.len(), 0);
}

#[test]
fn constants_are_those_of_the_system() {
    assert_eq!(MEM_IMAGE, Memory::MEM_IMAGE);
    assert_eq!(MEM_PRIVATE, Memory::MEM_PRIVATE);
    assert_eq!(MEM_COMMIT, Memory::MEM_COMMIT);
    assert_eq!(PAGE_NOACCESS, Memory::PAGE_NOACCESS);
    assert_eq!(PAGE_READONLY, Memory::PAGE_READONLY);
    assert_eq!(PAGE_READWRITE, Memory::PAGE_READWRITE);
    assert_eq!(PAGE_WRITECOPY, Memory::PAGE_WRITECOPY);
    assert_eq!(PAGE_EXECUTE, Memory::PAGE_EXECUTE);
    assert_eq!(PAGE_EXECUTE_READ, Memory::PAGE_EXECUTE_READ);
    assert_eq!(PAGE_EXECUTE_READWRITE, Memory::PAGE_EXECUTE_READWRITE);
    assert_eq!(PAGE_EXECUTE_WRITECOPY, Memory::PAGE_EXECUTE_WRITECOPY);
    assert_eq!(PAGE_GUARD, Memory::PAGE_GUARD);
}

#[test]
fn names_are_read_up_to_their_end() {
    let units: Vec<u16> = "a\u{1f600}.exe\0rest".encode_utf16().collect();
    assert_eq!(utf16_z_to_string(&units), "a\u{1f600}.exe");
    assert_eq!(utf16_z_to_string(&[0x61, 0xd800, 0x62]), "a\u{fffd}b");
    assert_eq!(utf16_z_to_string(&[]), "");
    assert_eq!(module_name(&[0x61]), "a");
    assert_eq!(module_name(&[]), "<unknown>");
}
