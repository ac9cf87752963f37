use argus::analysis::BranchKind;
use argus::evidence::{
    Address, EvidenceValue, ModuleBase, RegionFlags, RegionKind, Rva, TargetArch,
};
use argus::memory::{ArgusEngine, InMemoryBackend, MemoryRegion, ModuleInfo};
use argus::values::{NumericValue, ValueCandidate, ValuePredicate, ValueRefinement, ValueType};

fn engine_with_login_region() -> ArgusEngine {
    ArgusEngine::new(InMemoryBackend {
        modules: vec![ModuleInfo {
            name: "login.exe".to_string(),
            base: ModuleBase(0x400000),
            size: 0x20000,
        }],
        regions: vec![MemoryRegion {
            base: Address(0x401000),
            bytes: b"\0Login failed\0\xE8\x99\x34".to_vec(),
            kind: RegionKind::Image,
            flags: RegionFlags {
                readable: true,
                writable: false,
                executable: false,
                guarded: false,
            },
        }],
    })
}

#[test]
fn mem_read_decorates_module_rva_and_region_flags() {
    let engine = engine_with_login_region();

    let hit = engine.mem_read(Address(0x401001), 5).unwrap();

    assert_eq!(hit.address, Address(0x401001));
    assert_eq!(hit.label, "mem_read");
    assert_eq!(hit.address_context.module.unwrap().rva, Rva(0x1001));
    assert!(hit.address_context.region.flags.readable);
    assert_eq!(
        hit.evidence,
        EvidenceValue::Bytes {
            bytes: b"Login".to_vec()
        }
    );
    assert!(hit.context.ascii_preview.contains("Login"));
}

#[test]
fn scan_string_emits_ai_context_and_next_tools() {
    let engine = engine_with_login_region();

    let hits = engine.scan_string("Login", 10);

    assert_eq!(hits.len(), 1);
    assert_eq!(hits[0].address, Address(0x401001));
    assert_eq!(
        hits[0].evidence,
        EvidenceValue::Utf8 {
            text: "Login".to_string()
        }
    );
    assert!(hits[0].context.ascii_preview.contains("Login failed"));
    assert!(hits[0]
        .next_tools
        .iter()
        .any(|hint| hint.tool == "scan_pointers_to"));
    assert!(hits[0]
        .next_tools
        .iter()
        .any(|hint| hint.tool == "ghydra.functions_decompile"));
}

#[test]
fn scan_bytes_uses_aob_wildcards_and_limits_results() {
    let engine = engine_with_login_region();

    let hits = engine.scan_bytes("E8 ?? 34", 1).unwrap();

    assert_eq!(hits.len(), 1);
    assert_eq!(hits[0].address, Address(0x40100e));
    assert_eq!(hits[0].label, "scan_bytes");
    assert!(hits[0].context.after.is_empty());
}

#[test]
fn scan_pointers_to_returns_pointer_evidence_and_next_tools() {
    let engine = ArgusEngine::new(InMemoryBackend {
        modules: vec![ModuleInfo {
            name: "login.exe".to_string(),
            base: ModuleBase(0x400000),
            size: 0x20000,
        }],
        regions: vec![MemoryRegion {
            base: Address(0x402000),
            bytes: [0x34, 0x12, 0x40, 0x00, 0xff].to_vec(),
            kind: RegionKind::Image,
            flags: RegionFlags {
                readable: true,
                writable: false,
                executable: false,
                guarded: false,
            },
        }],
    });

    let hits = engine.scan_pointers_to(Address(0x401234), 10);

    assert_eq!(hits.len(), 1);
    assert_eq!(hits[0].address, Address(0x402000));
    assert_eq!(
        hits[0].evidence,
        EvidenceValue::Pointer {
            target: Address(0x401234)
        }
    );
    assert!(hits[0]
        .next_tools
        .iter()
        .any(|hint| hint.tool == "mem_read"));
}

#[test]
fn scan_pointers_to_finds_64_bit_targets_when_engine_is_x64() {
    let target = Address(0x0000_0001_4000_1000);
    let mut bytes = vec![0xCC; 0x20];
    bytes[0x10..0x18].copy_from_slice(&target.0.to_le_bytes());
    let engine = ArgusEngine::new_for_target(
        InMemoryBackend {
            modules: vec![ModuleInfo {
                name: "game64.exe".to_string(),
                base: ModuleBase(0x0000_0001_4000_0000),
                size: 0x10000,
            }],
            regions: vec![MemoryRegion {
                base: Address(0x0000_0001_4000_2000),
                bytes,
                kind: RegionKind::Image,
                flags: RegionFlags {
                    readable: true,
                    writable: false,
                    executable: false,
                    guarded: false,
                },
            }],
        },
        TargetArch::X86_64,
    );

    let hits = engine.scan_pointers_to(target, 4);

    assert_eq!(hits.len(), 1);
    assert_eq!(hits[0].address, Address(0x0000_0001_4000_2010));
    assert_eq!(hits[0].evidence, EvidenceValue::Pointer { target });
}

#[test]
fn locate_links_string_refs_to_containing_function_evidence() {
    let mut code = vec![0x90; 0x40];
    code[0..3].copy_from_slice(&[0x55, 0x8b, 0xec]);
    code[0x20..0x24].copy_from_slice(&(0x402010_u32).to_le_bytes());
    let mut data = vec![0; 0x10];
    data.extend_from_slice(b"C_LoginRequest\0");

    let engine = ArgusEngine::new(InMemoryBackend {
        modules: vec![ModuleInfo {
            name: "login.exe".to_string(),
            base: ModuleBase(0x400000),
            size: 0x20000,
        }],
        regions: vec![
            MemoryRegion {
                base: Address(0x401000),
                bytes: code,
                kind: RegionKind::Image,
                flags: RegionFlags {
                    readable: true,
                    writable: false,
                    executable: true,
                    guarded: false,
                },
            },
            MemoryRegion {
                base: Address(0x402000),
                bytes: data,
                kind: RegionKind::Image,
                flags: RegionFlags {
                    readable: true,
                    writable: false,
                    executable: false,
                    guarded: false,
                },
            },
        ],
    });

    let hits = engine.locate("C_LoginRequest", 8);

    assert_eq!(hits.len(), 1);
    assert_eq!(hits[0].string_address, Address(0x402010));
    assert_eq!(hits[0].ref_site, Address(0x401020));
    assert_eq!(hits[0].function_start, Some(Address(0x401000)));
}

#[test]
fn find_vtable_walks_x86_msvc_rtti_evidence() {
    let mut rtti = vec![0; 0x2010];
    rtti[8..8 + b".?AVCPlayer@@\0".len()].copy_from_slice(b".?AVCPlayer@@\0");
    rtti[0x100c..0x1010].copy_from_slice(&(0x402000_u32).to_le_bytes());
    rtti[0x2000..0x2004].copy_from_slice(&(0x403000_u32).to_le_bytes());
    rtti[0x2004..0x2008].copy_from_slice(&(0x401000_u32).to_le_bytes());

    let engine = ArgusEngine::new(InMemoryBackend {
        modules: vec![ModuleInfo {
            name: "game.exe".to_string(),
            base: ModuleBase(0x400000),
            size: 0x50000,
        }],
        regions: vec![
            MemoryRegion {
                base: Address(0x401000),
                bytes: [
                    0x55, 0x8b, 0xec, 0x83, 0xec, 0x04, 0x90, 0x90, 0xc3, 0x90, 0x90, 0x90,
                    0x90, 0x90, 0x90, 0x90,
                ]
                .to_vec(),
                kind: RegionKind::Image,
                flags: RegionFlags {
                    readable: true,
                    writable: false,
                    executable: true,
                    guarded: false,
                },
            },
            MemoryRegion {
                base: Address(0x402000),
                bytes: rtti,
                kind: RegionKind::Image,
                flags: RegionFlags {
                    readable: true,
                    writable: false,
                    executable: false,
                    guarded: false,
                },
            },
        ],
    });

    let evidence = engine.find_vtable("CPlayer", 8);

    assert_eq!(evidence.error, None);
    assert_eq!(evidence.rtti_string, Some(Address(0x402008)));
    assert_eq!(evidence.type_descriptor, Some(Address(0x402000)));
    assert_eq!(evidence.col, Some(Address(0x403000)));
    assert_eq!(evidence.vtable, Some(Address(0x404004)));
    assert_eq!(evidence.methods.len(), 1);
    assert_eq!(evidence.methods[0].address, Address(0x401000));
    assert!(evidence.methods[0]
        .instruction
        .as_ref()
        .map(|instruction| instruction.text.contains("push"))
        .unwrap_or(false));
}

#[test]
fn scan_callers_returns_call_evidence_for_e8_and_e9() {
    let target = Address(0x401100);
    let call_site = Address(0x401000);
    let jump_site = Address(0x401010);
    let call_rel = (target.0 as i64 - (call_site.0 + 5) as i64) as i32;
    let jump_rel = (target.0 as i64 - (jump_site.0 + 5) as i64) as i32;
    let mut code = vec![0xE8];
    code.extend_from_slice(&call_rel.to_le_bytes());
    code.extend_from_slice(&[0; 0x10 - 5]);
    code.push(0xE9);
    code.extend_from_slice(&jump_rel.to_le_bytes());

    let engine = ArgusEngine::new(InMemoryBackend {
        modules: vec![ModuleInfo {
            name: "login.exe".to_string(),
            base: ModuleBase(0x400000),
            size: 0x20000,
        }],
        regions: vec![MemoryRegion {
            base: call_site,
            bytes: code,
            kind: RegionKind::Image,
            flags: RegionFlags {
                readable: true,
                writable: false,
                executable: true,
                guarded: false,
            },
        }],
    });

    let hits = engine.scan_callers(target, 10);

    assert_eq!(hits.len(), 2);
    assert_eq!(hits[0].address, call_site);
    assert_eq!(
        hits[0].evidence,
        EvidenceValue::Caller {
            target,
            opcode: 0xE8
        }
    );
    assert_eq!(hits[1].address, jump_site);
    assert_eq!(
        hits[1].evidence,
        EvidenceValue::Caller {
            target,
            opcode: 0xE9
        }
    );
    assert!(hits[0]
        .next_tools
        .iter()
        .any(|hint| hint.tool == "ghydra.functions_decompile"));
}

#[test]
fn scan_callers_returns_indirect_iat_call_evidence() {
    let target = Address(0x402000);
    let call_site = Address(0x401000);
    let iat_slot = Address(0x403000);
    let mut code = vec![0xFF, 0x15];
    code.extend_from_slice(&(iat_slot.0 as u32).to_le_bytes());

    let engine = ArgusEngine::new(InMemoryBackend {
        modules: vec![ModuleInfo {
            name: "login.exe".to_string(),
            base: ModuleBase(0x400000),
            size: 0x5000,
        }],
        regions: vec![
            MemoryRegion {
                base: call_site,
                bytes: code,
                kind: RegionKind::Image,
                flags: RegionFlags {
                    readable: true,
                    writable: false,
                    executable: true,
                    guarded: false,
                },
            },
            MemoryRegion {
                base: iat_slot,
                bytes: (target.0 as u32).to_le_bytes().to_vec(),
                kind: RegionKind::Image,
                flags: RegionFlags {
                    readable: true,
                    writable: true,
                    executable: false,
                    guarded: false,
                },
            },
        ],
    });

    let hits = engine.scan_callers(target, 10);

    assert_eq!(hits.len(), 1);
    assert_eq!(hits[0].address, call_site);
    assert_eq!(
        hits[0].evidence,
        EvidenceValue::IndirectCaller {
            target,
            opcode: 0xFF,
            pointer: iat_slot
        }
    );
}

#[test]
fn disasm_at_adds_call_target_and_push_string_evidence() {
    let mut code = vec![0x55, 0x8B, 0xEC];
    code.extend_from_slice(&[0x68, 0x00, 0x20, 0x40, 0x00]);
    code.push(0xE8);
    code.extend_from_slice(&((0x0040_3000i64 - 0x0040_100D_i64) as i32).to_le_bytes());
    code.push(0xC3);

    let engine = ArgusEngine::new(InMemoryBackend {
        modules: vec![ModuleInfo {
            name: "game.exe".to_string(),
            base: ModuleBase(0x0040_0000),
            size: 0x10000,
        }],
        regions: vec![
            MemoryRegion {
                base: Address(0x0040_1000),
                bytes: code,
                kind: RegionKind::Image,
                flags: RegionFlags {
                    readable: true,
                    writable: false,
                    executable: true,
                    guarded: false,
                },
            },
            MemoryRegion {
                base: Address(0x0040_2000),
                bytes: b"HelloPacket\0".to_vec(),
                kind: RegionKind::Image,
                flags: RegionFlags {
                    readable: true,
                    writable: false,
                    executable: false,
                    guarded: false,
                },
            },
            MemoryRegion {
                base: Address(0x0040_3000),
                bytes: vec![0xC3],
                kind: RegionKind::Image,
                flags: RegionFlags {
                    readable: true,
                    writable: false,
                    executable: true,
                    guarded: false,
                },
            },
        ],
    });

    let disasm = engine.disasm_at(Address(0x0040_1000), 8);

    assert!(disasm
        .iter()
        .any(|insn| insn.string.as_deref() == Some("HelloPacket")));
    assert!(disasm
        .iter()
        .any(|insn| insn.call_target == Some(Address(0x0040_3000))));
}

#[test]
fn disasm_at_adds_conditional_branch_targets_for_dispatch_ladders() {
    let engine = ArgusEngine::new(InMemoryBackend {
        modules: vec![ModuleInfo {
            name: "game.exe".to_string(),
            base: ModuleBase(0x0040_0000),
            size: 0x10000,
        }],
        regions: vec![MemoryRegion {
            base: Address(0x0040_1000),
            bytes: vec![0x74, 0x05, 0x75, 0xFA, 0xC3],
            kind: RegionKind::Image,
            flags: RegionFlags {
                readable: true,
                writable: false,
                executable: true,
                guarded: false,
            },
        }],
    });

    let disasm = engine.disasm_at(Address(0x0040_1000), 3);

    assert_eq!(disasm[0].call_target, Some(Address(0x0040_1007)));
    assert_eq!(disasm[1].call_target, Some(Address(0x0040_0FFE)));
}

#[test]
fn disasm_at_resolves_x64_rip_relative_indirect_call_target() {
    let base = 0x0000_0001_4000_0000u64;
    let call = Address(base + 0x1000);
    let target = Address(base + 0x3000);
    let mut code = vec![0xFF, 0x15, 0x02, 0x00, 0x00, 0x00, 0xC3, 0x90];
    code.extend_from_slice(&target.0.to_le_bytes());
    let engine = ArgusEngine::new_for_target(
        InMemoryBackend {
            modules: vec![ModuleInfo {
                name: "game64.exe".to_string(),
                base: ModuleBase(base),
                size: 0x10000,
            }],
            regions: vec![MemoryRegion {
                base: call,
                bytes: code,
                kind: RegionKind::Image,
                flags: RegionFlags {
                    readable: true,
                    writable: false,
                    executable: true,
                    guarded: false,
                },
            }],
        },
        TargetArch::X86_64,
    );

    let disasm = engine.disasm_at(call, 1);

    assert_eq!(disasm.len(), 1);
    assert_eq!(disasm[0].call_target, Some(target));
}

#[test]
fn analyze_function_collects_callees_and_trace_call_chain_walks_up() {
    let target = Address(0x0040_3000);
    let call_site = Address(0x0040_1003);
    let rel = (target.0 as i64 - (call_site.0 + 5) as i64) as i32;
    let mut caller = vec![0x55, 0x8B, 0xEC, 0xE8];
    caller.extend_from_slice(&rel.to_le_bytes());
    caller.push(0xC3);

    let engine = ArgusEngine::new(InMemoryBackend {
        modules: vec![ModuleInfo {
            name: "game.exe".to_string(),
            base: ModuleBase(0x0040_0000),
            size: 0x10000,
        }],
        regions: vec![
            MemoryRegion {
                base: Address(0x0040_1000),
                bytes: caller,
                kind: RegionKind::Image,
                flags: RegionFlags {
                    readable: true,
                    writable: false,
                    executable: true,
                    guarded: false,
                },
            },
            MemoryRegion {
                base: target,
                bytes: vec![0x55, 0x8B, 0xEC, 0xC3],
                kind: RegionKind::Image,
                flags: RegionFlags {
                    readable: true,
                    writable: false,
                    executable: true,
                    guarded: false,
                },
            },
        ],
    });

    let analyzed = engine.analyze_function(Address(0x0040_1000), 20).unwrap();
    assert_eq!(analyzed.callees, vec![target]);

    let chain = engine.trace_call_chain(target, 2, 4);
    assert_eq!(chain[0].target, target);
    assert_eq!(
        chain[0].callers[0].function_start,
        Some(Address(0x0040_1000))
    );
}

#[test]
fn analyze_send_call_sites_collects_preceding_push_evidence() {
    let target = Address(0x0040_1100);
    let call_site = Address(0x0040_100a);
    let rel = (target.0 as i64 - (call_site.0 + 5) as i64) as i32;
    let mut code = vec![0x55, 0x8B, 0xEC, 0x6A, 0x8A];
    code.extend_from_slice(&[0x68, 0x00, 0x20, 0x40, 0x00]);
    code.push(0xE8);
    code.extend_from_slice(&rel.to_le_bytes());
    code.push(0xC3);

    let engine = ArgusEngine::new(InMemoryBackend {
        modules: vec![ModuleInfo {
            name: "game.exe".to_string(),
            base: ModuleBase(0x0040_0000),
            size: 0x10000,
        }],
        regions: vec![
            MemoryRegion {
                base: Address(0x0040_1000),
                bytes: code,
                kind: RegionKind::Image,
                flags: RegionFlags {
                    readable: true,
                    writable: false,
                    executable: true,
                    guarded: false,
                },
            },
            MemoryRegion {
                base: Address(0x0040_1100),
                bytes: vec![0xC3],
                kind: RegionKind::Image,
                flags: RegionFlags {
                    readable: true,
                    writable: false,
                    executable: true,
                    guarded: false,
                },
            },
            MemoryRegion {
                base: Address(0x0040_2000),
                bytes: b"C_DESTROY_ITEM\0".to_vec(),
                kind: RegionKind::Image,
                flags: RegionFlags {
                    readable: true,
                    writable: false,
                    executable: false,
                    guarded: false,
                },
            },
        ],
    });

    let evidence = engine.analyze_send_call_sites(target, 8, 8, 0x40);

    assert_eq!(evidence.len(), 1);
    assert_eq!(evidence[0].call_site.address, call_site);
    assert!(evidence[0]
        .pushes
        .iter()
        .any(|push| push.width_bits == 8 && push.value == 0x8A));
    assert!(evidence[0]
        .pushes
        .iter()
        .any(|push| push.packet_name.as_deref() == Some("C_DESTROY_ITEM")));
}

#[test]
fn dispatch_branches_classify_conditional_and_unresolved_indirect() {
    let engine = ArgusEngine::new(InMemoryBackend {
        modules: vec![ModuleInfo {
            name: "game.exe".to_string(),
            base: ModuleBase(0x0040_0000),
            size: 0x10000,
        }],
        regions: vec![MemoryRegion {
            base: Address(0x0040_1000),
            bytes: vec![0x83, 0xF8, 0x01, 0x74, 0x05, 0xFF, 0xE0, 0xC3],
            kind: RegionKind::Image,
            flags: RegionFlags {
                readable: true,
                writable: false,
                executable: true,
                guarded: false,
            },
        }],
    });

    let branches = engine
        .dispatch_branches(Address(0x0040_1000), 8)
        .expect("function should disassemble");

    assert_eq!(branches.len(), 2);
    assert_eq!(branches[0].kind, BranchKind::ConditionalJump);
    assert_eq!(
        branches[0].instruction.call_target,
        Some(Address(0x0040_100A))
    );
    assert_eq!(branches[1].kind, BranchKind::UnresolvedIndirect);
    assert_eq!(branches[1].instruction.address, Address(0x0040_1005));
}

#[test]
fn extract_dispatch_tables_maps_opcode_to_stub_and_handler() {
    let dispatcher = Address(0x0040_1000);
    let index_table = Address(0x0040_2000);
    let jump_table = Address(0x0040_3000);
    let stub = Address(0x0040_4000);
    let handler = Address(0x0040_5000);
    let mut dispatcher_code = vec![0xB8];
    dispatcher_code.extend_from_slice(&(index_table.0 as u32).to_le_bytes());
    dispatcher_code.push(0xBB);
    dispatcher_code.extend_from_slice(&(jump_table.0 as u32).to_le_bytes());
    dispatcher_code.push(0xC3);
    let mut index_bytes = vec![0u8; 256];
    index_bytes[0x8A] = 1;
    let mut jump_bytes = vec![0u8; 8];
    jump_bytes[4..8].copy_from_slice(&(stub.0 as u32).to_le_bytes());
    let rel = (handler.0 as i64 - (stub.0 + 5) as i64) as i32;
    let mut stub_bytes = vec![0xE9];
    stub_bytes.extend_from_slice(&rel.to_le_bytes());

    let engine = ArgusEngine::new(InMemoryBackend {
        modules: vec![ModuleInfo {
            name: "game.exe".to_string(),
            base: ModuleBase(0x0040_0000),
            size: 0x20000,
        }],
        regions: vec![
            MemoryRegion {
                base: dispatcher,
                bytes: dispatcher_code,
                kind: RegionKind::Image,
                flags: RegionFlags {
                    readable: true,
                    writable: false,
                    executable: true,
                    guarded: false,
                },
            },
            MemoryRegion {
                base: index_table,
                bytes: index_bytes,
                kind: RegionKind::Image,
                flags: RegionFlags {
                    readable: true,
                    writable: false,
                    executable: false,
                    guarded: false,
                },
            },
            MemoryRegion {
                base: jump_table,
                bytes: jump_bytes,
                kind: RegionKind::Image,
                flags: RegionFlags {
                    readable: true,
                    writable: false,
                    executable: false,
                    guarded: false,
                },
            },
            MemoryRegion {
                base: stub,
                bytes: stub_bytes,
                kind: RegionKind::Image,
                flags: RegionFlags {
                    readable: true,
                    writable: false,
                    executable: true,
                    guarded: false,
                },
            },
            MemoryRegion {
                base: handler,
                bytes: vec![0xC3],
                kind: RegionKind::Image,
                flags: RegionFlags {
                    readable: true,
                    writable: false,
                    executable: true,
                    guarded: false,
                },
            },
        ],
    });

    let evidence = engine.extract_dispatch_tables(dispatcher, 8, 256, None, None);
    let entry = evidence
        .entries
        .iter()
        .find(|entry| entry.opcode == 0x8A)
        .unwrap();

    assert_eq!(evidence.index_table, Some(index_table));
    assert_eq!(evidence.jump_table, Some(jump_table));
    assert_eq!(entry.opcode_value_location, Address(index_table.0 + 0x8A));
    assert_eq!(entry.dispatch_index, 1);
    assert_eq!(entry.stub, Some(stub));
    assert_eq!(entry.handler, Some(handler));
}

#[test]
fn extract_dispatch_tables_reads_64_bit_jump_table_slots_when_engine_is_x64() {
    let dispatcher = Address(0x0000_0001_4000_1000);
    let index_table = Address(0x0000_0001_4000_2000);
    let jump_table = Address(0x0000_0001_4000_3000);
    let stub = Address(0x0000_0001_4000_4000);
    let handler = Address(0x0000_0001_4000_5000);
    let mut index_bytes = vec![0u8; 256];
    index_bytes[0x8A] = 1;
    let mut jump_bytes = vec![0u8; 16];
    jump_bytes[8..16].copy_from_slice(&stub.0.to_le_bytes());
    let rel = (handler.0 as i64 - (stub.0 + 5) as i64) as i32;
    let mut stub_bytes = vec![0xE9];
    stub_bytes.extend_from_slice(&rel.to_le_bytes());
    let engine = ArgusEngine::new_for_target(
        InMemoryBackend {
            modules: vec![ModuleInfo {
                name: "game64.exe".to_string(),
                base: ModuleBase(0x0000_0001_4000_0000),
                size: 0x10000,
            }],
            regions: vec![
                MemoryRegion {
                    base: dispatcher,
                    bytes: vec![0xC3],
                    kind: RegionKind::Image,
                    flags: RegionFlags {
                        readable: true,
                        writable: false,
                        executable: true,
                        guarded: false,
                    },
                },
                MemoryRegion {
                    base: index_table,
                    bytes: index_bytes,
                    kind: RegionKind::Image,
                    flags: RegionFlags {
                        readable: true,
                        writable: false,
                        executable: false,
                        guarded: false,
                    },
                },
                MemoryRegion {
                    base: jump_table,
                    bytes: jump_bytes,
                    kind: RegionKind::Image,
                    flags: RegionFlags {
                        readable: true,
                        writable: false,
                        executable: false,
                        guarded: false,
                    },
                },
                MemoryRegion {
                    base: stub,
                    bytes: stub_bytes,
                    kind: RegionKind::Image,
                    flags: RegionFlags {
                        readable: true,
                        writable: false,
                        executable: true,
                        guarded: false,
                    },
                },
                MemoryRegion {
                    base: handler,
                    bytes: vec![0xC3],
                    kind: RegionKind::Image,
                    flags: RegionFlags {
                        readable: true,
                        writable: false,
                        executable: true,
                        guarded: false,
                    },
                },
            ],
        },
        TargetArch::X86_64,
    );

    let evidence =
        engine.extract_dispatch_tables(dispatcher, 8, 256, Some(index_table), Some(jump_table));
    let entry = evidence
        .entries
        .iter()
        .find(|entry| entry.opcode == 0x8A)
        .unwrap();

    assert_eq!(entry.jump_slot, Some(Address(jump_table.0 + 8)));
    assert_eq!(entry.stub, Some(stub));
    assert_eq!(entry.handler, Some(handler));
}

#[test]
fn runtime_imports_and_iat_thunks_parse_mapped_pe32() {
    let base = 0x0040_0000u64;
    let mut image = vec![0u8; 0x1200];
    image[0..2].copy_from_slice(b"MZ");
    image[0x3c..0x40].copy_from_slice(&(0x80u32).to_le_bytes());
    image[0x80..0x84].copy_from_slice(b"PE\0\0");
    image[0x94..0x96].copy_from_slice(&(0xE0u16).to_le_bytes());
    image[0x98..0x9A].copy_from_slice(&(0x10Bu16).to_le_bytes());
    image[0x98 + 104..0x98 + 108].copy_from_slice(&(0x200u32).to_le_bytes());
    image[0x98 + 108..0x98 + 112].copy_from_slice(&(0x28u32).to_le_bytes());
    image[0x200..0x204].copy_from_slice(&(0x300u32).to_le_bytes());
    image[0x20c..0x210].copy_from_slice(&(0x250u32).to_le_bytes());
    image[0x210..0x214].copy_from_slice(&(0x350u32).to_le_bytes());
    image[0x250..0x25b].copy_from_slice(b"WS2_32.dll\0");
    image[0x300..0x304].copy_from_slice(&(0x400u32).to_le_bytes());
    image[0x350..0x354].copy_from_slice(&(0x7600_1234u32).to_le_bytes());
    image[0x402..0x407].copy_from_slice(b"send\0");
    image[0x500..0x506].copy_from_slice(&[0xFF, 0x25, 0x50, 0x03, 0x40, 0x00]);

    let engine = ArgusEngine::new(InMemoryBackend {
        modules: vec![ModuleInfo {
            name: "game.exe".to_string(),
            base: ModuleBase(base),
            size: image.len() as u64,
        }],
        regions: vec![MemoryRegion {
            base: Address(base),
            bytes: image,
            kind: RegionKind::Image,
            flags: RegionFlags {
                readable: true,
                writable: false,
                executable: true,
                guarded: false,
            },
        }],
    });

    let imports = engine.runtime_imports(Some("game.exe"), 10);
    assert_eq!(imports.len(), 1);
    assert_eq!(imports[0].dll, "WS2_32.dll");
    assert_eq!(imports[0].name, "send");
    assert_eq!(imports[0].iat_address, Address(0x0040_0350));
    assert_eq!(imports[0].target, Some(Address(0x7600_1234)));

    let thunks = engine.resolve_iat_thunks(Some("game.exe"), Some("send"), 10);
    assert_eq!(thunks.len(), 1);
    assert_eq!(thunks[0].thunk_address, Address(0x0040_0500));
    assert_eq!(
        thunks[0].instruction.call_target,
        Some(Address(0x7600_1234))
    );
}

#[test]
fn runtime_imports_parse_mapped_pe32_plus_with_64_bit_thunks() {
    let base = 0x0000_0001_4000_0000u64;
    let mut image = vec![0u8; 0x1200];
    image[0..2].copy_from_slice(b"MZ");
    image[0x3c..0x40].copy_from_slice(&(0x80u32).to_le_bytes());
    image[0x80..0x84].copy_from_slice(b"PE\0\0");
    image[0x94..0x96].copy_from_slice(&(0xF0u16).to_le_bytes());
    image[0x98..0x9A].copy_from_slice(&(0x20Bu16).to_le_bytes());
    image[0x98 + 120..0x98 + 124].copy_from_slice(&(0x200u32).to_le_bytes());
    image[0x98 + 124..0x98 + 128].copy_from_slice(&(0x28u32).to_le_bytes());
    image[0x200..0x204].copy_from_slice(&(0x300u32).to_le_bytes());
    image[0x20c..0x210].copy_from_slice(&(0x250u32).to_le_bytes());
    image[0x210..0x214].copy_from_slice(&(0x350u32).to_le_bytes());
    image[0x250..0x25b].copy_from_slice(b"WS2_32.dll\0");
    image[0x300..0x308].copy_from_slice(&(0x400u64).to_le_bytes());
    image[0x350..0x358].copy_from_slice(&(0x0000_7FFA_1234_5678u64).to_le_bytes());
    image[0x402..0x407].copy_from_slice(b"send\0");
    let iat_instruction = 0x500usize;
    let iat_address = base + 0x350;
    let rip_after = base + iat_instruction as u64 + 6;
    let displacement = (iat_address as i64 - rip_after as i64) as i32;
    image[iat_instruction..iat_instruction + 2].copy_from_slice(&[0xFF, 0x25]);
    image[iat_instruction + 2..iat_instruction + 6]
        .copy_from_slice(&displacement.to_le_bytes());

    let engine = ArgusEngine::new_for_target(
        InMemoryBackend {
            modules: vec![ModuleInfo {
                name: "game64.exe".to_string(),
                base: ModuleBase(base),
                size: image.len() as u64,
            }],
            regions: vec![MemoryRegion {
                base: Address(base),
                bytes: image,
                kind: RegionKind::Image,
                flags: RegionFlags {
                    readable: true,
                    writable: false,
                    executable: true,
                    guarded: false,
                },
            }],
        },
        TargetArch::X86_64,
    );

    let imports = engine.runtime_imports(Some("game64.exe"), 10);
    assert_eq!(imports.len(), 1);
    assert_eq!(imports[0].dll, "WS2_32.dll");
    assert_eq!(imports[0].name, "send");
    assert_eq!(imports[0].iat_address, Address(base + 0x350));
    assert_eq!(imports[0].target, Some(Address(0x0000_7FFA_1234_5678)));

    let thunks = engine.resolve_iat_thunks(Some("game64.exe"), Some("send"), 10);
    assert_eq!(thunks.len(), 1);
    assert_eq!(thunks[0].thunk_address, Address(base + 0x500));
    assert_eq!(
        thunks[0].instruction.call_target,
        Some(Address(0x0000_7FFA_1234_5678))
    );
}

#[test]
fn runtime_exports_parse_mapped_pe32_export_table() {
    let base = 0x7600_0000u64;
    let mut image = vec![0u8; 0x1000];
    image[0..2].copy_from_slice(b"MZ");
    image[0x3c..0x40].copy_from_slice(&(0x80u32).to_le_bytes());
    image[0x80..0x84].copy_from_slice(b"PE\0\0");
    image[0x94..0x96].copy_from_slice(&(0xE0u16).to_le_bytes());
    image[0x98..0x9A].copy_from_slice(&(0x10Bu16).to_le_bytes());
    image[0x98 + 96..0x98 + 100].copy_from_slice(&(0x200u32).to_le_bytes());
    image[0x98 + 100..0x98 + 104].copy_from_slice(&(0x40u32).to_le_bytes());
    image[0x200 + 12..0x200 + 16].copy_from_slice(&(0x280u32).to_le_bytes());
    image[0x200 + 16..0x200 + 20].copy_from_slice(&(1u32).to_le_bytes());
    image[0x200 + 20..0x200 + 24].copy_from_slice(&(1u32).to_le_bytes());
    image[0x200 + 24..0x200 + 28].copy_from_slice(&(1u32).to_le_bytes());
    image[0x200 + 28..0x200 + 32].copy_from_slice(&(0x300u32).to_le_bytes());
    image[0x200 + 32..0x200 + 36].copy_from_slice(&(0x320u32).to_le_bytes());
    image[0x200 + 36..0x200 + 40].copy_from_slice(&(0x340u32).to_le_bytes());
    image[0x280..0x28b].copy_from_slice(b"WS2_32.dll\0");
    image[0x300..0x304].copy_from_slice(&(0x500u32).to_le_bytes());
    image[0x320..0x324].copy_from_slice(&(0x360u32).to_le_bytes());
    image[0x340..0x342].copy_from_slice(&(0u16).to_le_bytes());
    image[0x360..0x365].copy_from_slice(b"send\0");
    image[0x500] = 0xC3;

    let engine = ArgusEngine::new(InMemoryBackend {
        modules: vec![ModuleInfo {
            name: "WS2_32.dll".to_string(),
            base: ModuleBase(base),
            size: image.len() as u64,
        }],
        regions: vec![MemoryRegion {
            base: Address(base),
            bytes: image,
            kind: RegionKind::Image,
            flags: RegionFlags {
                readable: true,
                writable: false,
                executable: true,
                guarded: false,
            },
        }],
    });

    let exports = engine.runtime_exports(Some("ws2_32"), Some("send"), 10);

    assert_eq!(exports.len(), 1);
    assert_eq!(exports[0].module, "WS2_32.dll");
    assert_eq!(exports[0].name, "send");
    assert_eq!(exports[0].ordinal, 1);
    assert_eq!(exports[0].rva, Rva(0x500));
    assert_eq!(exports[0].address, Address(0x7600_0500));
}

#[test]
fn value_scan_start_finds_typed_u32_candidates() {
    let engine = ArgusEngine::new(InMemoryBackend {
        modules: Vec::new(),
        regions: vec![MemoryRegion {
            base: Address(0x500000),
            bytes: [
                1u32.to_le_bytes(),
                100u32.to_le_bytes(),
                100u32.to_le_bytes(),
            ]
            .concat(),
            kind: RegionKind::Heap,
            flags: RegionFlags {
                readable: true,
                writable: true,
                executable: false,
                guarded: false,
            },
        }],
    });

    let session = engine.value_scan_start(ValueType::U32, ValuePredicate::ExactU64(100), 10);

    assert_eq!(session.candidates.len(), 2);
    assert_eq!(session.candidates[0].address, Address(0x500004));
    assert_eq!(session.candidates[0].value, NumericValue::U32(100));
}

#[test]
fn value_scan_refine_decreased_keeps_only_decreased_candidates() {
    let first = ArgusEngine::new(InMemoryBackend {
        modules: Vec::new(),
        regions: vec![MemoryRegion {
            base: Address(0x500000),
            bytes: [100u32.to_le_bytes(), 100u32.to_le_bytes()].concat(),
            kind: RegionKind::Heap,
            flags: RegionFlags {
                readable: true,
                writable: true,
                executable: false,
                guarded: false,
            },
        }],
    });
    let second = ArgusEngine::new(InMemoryBackend {
        modules: Vec::new(),
        regions: vec![MemoryRegion {
            base: Address(0x500000),
            bytes: [90u32.to_le_bytes(), 100u32.to_le_bytes()].concat(),
            kind: RegionKind::Heap,
            flags: RegionFlags {
                readable: true,
                writable: true,
                executable: false,
                guarded: false,
            },
        }],
    });
    let session = first.value_scan_start(ValueType::U32, ValuePredicate::ExactU64(100), 10);

    let refined = second.value_scan_refine(&session, ValueRefinement::Decreased);

    assert_eq!(refined.candidates.len(), 1);
    assert_eq!(refined.candidates[0].address, Address(0x500000));
    assert_eq!(
        refined.candidates[0].previous_value,
        Some(NumericValue::U32(100))
    );
    assert_eq!(refined.candidates[0].value, NumericValue::U32(90));
}

#[test]
fn value_scan_refine_unchanged_keeps_stable_candidates() {
    let first = ArgusEngine::new(InMemoryBackend {
        modules: Vec::new(),
        regions: vec![MemoryRegion {
            base: Address(0x500000),
            bytes: [100u32.to_le_bytes(), 100u32.to_le_bytes()].concat(),
            kind: RegionKind::Heap,
            flags: RegionFlags {
                readable: true,
                writable: true,
                executable: false,
                guarded: false,
            },
        }],
    });
    let second = ArgusEngine::new(InMemoryBackend {
        modules: Vec::new(),
        regions: vec![MemoryRegion {
            base: Address(0x500000),
            bytes: [90u32.to_le_bytes(), 100u32.to_le_bytes()].concat(),
            kind: RegionKind::Heap,
            flags: RegionFlags {
                readable: true,
                writable: true,
                executable: false,
                guarded: false,
            },
        }],
    });
    let session = first.value_scan_start(ValueType::U32, ValuePredicate::ExactU64(100), 10);

    let refined = second.value_scan_refine(&session, ValueRefinement::Unchanged);

    assert_eq!(refined.candidates.len(), 1);
    assert_eq!(refined.candidates[0].address, Address(0x500004));
    assert_eq!(refined.candidates[0].value, NumericValue::U32(100));
}

#[test]
fn value_explain_returns_ai_first_numeric_evidence() {
    let engine = ArgusEngine::new(InMemoryBackend {
        modules: vec![ModuleInfo {
            name: "stats.bin".to_string(),
            base: ModuleBase(0x500000),
            size: 0x1000,
        }],
        regions: vec![MemoryRegion {
            base: Address(0x500000),
            bytes: [
                50u32.to_le_bytes(),
                90u32.to_le_bytes(),
                30u32.to_le_bytes(),
            ]
            .concat(),
            kind: RegionKind::Heap,
            flags: RegionFlags {
                readable: true,
                writable: true,
                executable: false,
                guarded: false,
            },
        }],
    });

    let hit = engine
        .value_explain(&ValueCandidate {
            address: Address(0x500004),
            value_type: ValueType::U32,
            value: NumericValue::U32(90),
            previous_value: Some(NumericValue::U32(100)),
        })
        .unwrap();

    assert_eq!(hit.address, Address(0x500004));
    assert_eq!(hit.address_context.module.unwrap().rva, Rva(4));
    assert_eq!(
        hit.evidence,
        EvidenceValue::Numeric {
            value_type: "u32".to_string(),
            value: "90".to_string()
        }
    );
    assert!(hit
        .next_tools
        .iter()
        .any(|hint| hint.tool == "scan_pointers_to"));
    assert!(hit.next_tools.iter().any(|hint| hint.tool == "mem_read"));
}
