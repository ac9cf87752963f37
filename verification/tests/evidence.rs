use argus::evidence::{Address, AddressError, ModuleBase, Rva, TargetArch};

#[test]
fn target_arch_reports_pointer_width_and_decoder_bitness() {
    assert_eq!(TargetArch::X86.pointer_width_bytes(), 4);
    assert_eq!(TargetArch::X86.decoder_bitness(), 32);
    assert_eq!(TargetArch::X86_64.pointer_width_bytes(), 8);
    assert_eq!(TargetArch::X86_64.decoder_bitness(), 64);
}

#[test]
fn only_x86_64_programs_are_natively_64_bit() {
    assert_eq!(TargetArch::native(true), TargetArch::X86_64);
    assert_eq!(TargetArch::native(false), TargetArch::X86);
}

#[test]
fn converts_address_inside_module_to_rva() {
    let rva = Address(0x401234).to_rva(ModuleBase(0x400000)).unwrap();

    assert_eq!(rva, Rva(0x1234));
}

#[test]
fn rejects_address_before_module_base() {
    let error = Address(0x3fffff).to_rva(ModuleBase(0x400000)).unwrap_err();

    assert_eq!(
        error,
        AddressError::AddressBeforeModule {
            address: Address(0x3fffff),
            module_base: ModuleBase(0x400000),
        }
    );
}

#[test]
fn converts_rva_back_to_address() {
    let address = Rva(0x1234).to_address(ModuleBase(0x400000));

    assert_eq!(address, Address(0x401234));
}
