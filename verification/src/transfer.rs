//! Where the instructions that transfer control go.

use vstd::prelude::*;

use crate::bytes;
use crate::evidence::{Address, TargetArch};
use crate::evidence;
use crate::memory::{ArgusEngine, MemoryView};

verus! {

/// The target `delta` bytes from an instruction. The address space wraps around,
/// and no code lies in its upper half.
pub open spec fn relative_target(ip: u64, delta: int) -> Option<Address> {
    let target = (ip + delta) % evidence::address_space();
    if target < 0x8000_0000_0000_0000 {
        Some(Address(target as u64))
    } else {
        None
    }
}

/// The number that the four bytes at an offset write.
pub open spec fn le32_at(code: Seq<u8>, at: int) -> int {
    bytes::le_value(code.subrange(at, at + 4))
}

/// Whether bytes begin an indirect call or jump through memory.
pub open spec fn is_indirect(code: Seq<u8>) -> bool {
    code.len() >= 6 && code[0] == 0xff && (code[1] == 0x25 || code[1] == 0x15)
}

/// The place that holds the target of an indirect call or jump: relative to the
/// next instruction in 64-bit code, absolute in 32-bit code.
pub open spec fn indirect_operand(arch: TargetArch, ip: u64, code: Seq<u8>) -> Option<Address> {
    if !is_indirect(code) {
        None
    } else if arch == TargetArch::X86_64 {
        relative_target(ip, 6 + bytes::signed32(le32_at(code, 2)))
    } else {
        Some(Address(le32_at(code, 2) as u64))
    }
}

/// Where an instruction transfers control, as far as its bytes and the memory
/// that it reads tell: calls, jumps and conditional jumps with a relative
/// target, and indirect calls and jumps through memory.
pub open spec fn transfer_target(
    memory: MemoryView,
    arch: TargetArch,
    ip: u64,
    code: Seq<u8>,
) -> Option<Address> {
    if code.len() >= 5 && (code[0] == 0xe8 || code[0] == 0xe9) {
        relative_target(ip, 5 + bytes::signed32(le32_at(code, 1)))
    } else if code.len() >= 2 && (code[0] == 0xeb || 0x70 <= code[0] <= 0x7f) {
        relative_target(ip, 2 + bytes::signed8(code[1] as int))
    } else if code.len() >= 6 && code[0] == 0x0f && 0x80 <= code[1] <= 0x8f {
        relative_target(ip, 6 + bytes::signed32(le32_at(code, 2)))
    } else if is_indirect(code) {
        match indirect_operand(arch, ip, code) {
            Some(pointer) => memory.read_pointer(arch, pointer),
            None => None,
        }
    } else {
        None
    }
}

/// The target of an instruction of `len` bytes with a 32-bit displacement.
pub fn displaced(ip: u64, len: u8, displacement: u32) -> (target: Option<Address>)
    ensures
        target == relative_target(ip, len + bytes::signed32(displacement as int)),
{
    let next: u64 = ip.wrapping_add(len as u64);
    let step: u64 = if displacement < 0x8000_0000 {
        displacement as u64
    } else {
        0xffff_ffff_0000_0000 + displacement as u64
    };
    let target: u64 = next.wrapping_add(step);
    proof {
        let exact = ip + len + bytes::signed32(displacement as int);
        assert(target == exact % evidence::address_space());
    }
    if target < 0x8000_0000_0000_0000 {
        Some(Address(target))
    } else {
        None
    }
}

/// The target of an instruction of two bytes with an 8-bit displacement.
fn short_displaced(ip: u64, displacement: u8) -> (target: Option<Address>)
    ensures
        target == relative_target(ip, 2 + bytes::signed8(displacement as int)),
{
    let extended: u32 = if displacement < 0x80 {
        displacement as u32
    } else {
        0xffff_ff00 + displacement as u32
    };
    displaced(ip, 2, extended)
}

impl ArgusEngine {
    /// The place that holds the target of an indirect call or jump.
    pub fn indirect_pointer_operand(&self, ip: u64, code: &[u8]) -> (pointer: Option<Address>)
        ensures
            pointer == indirect_operand(self.arch(), ip, code@),
    {
        if code.len() < 6 || code[0] != 0xff || (code[1] != 0x25 && code[1] != 0x15) {
            return None;
        }
        let operand: u32 = bytes::read_u32(code, 2);
        match self.target_arch() {
            TargetArch::X86_64 => displaced(ip, 6, operand),
            TargetArch::X86 => Some(Address(operand as u64)),
        }
    }

    /// Where an instruction transfers control.
    pub fn direct_or_indirect_target(&self, ip: u64, code: &[u8]) -> (target: Option<Address>)
        ensures
            target == transfer_target(self.memory(), self.arch(), ip, code@),
    {
        if code.len() >= 5 && (code[0] == 0xe8 || code[0] == 0xe9) {
            return displaced(ip, 5, bytes::read_u32(code, 1));
        }
        if code.len() >= 2 && code[0] == 0xeb {
            return short_displaced(ip, code[1]);
        }
        if code.len() >= 2 && 0x70 <= code[0] && code[0] <= 0x7f {
            return short_displaced(ip, code[1]);
        }
        if code.len() >= 6 && code[0] == 0x0f && 0x80 <= code[1] && code[1] <= 0x8f {
            return displaced(ip, 6, bytes::read_u32(code, 2));
        }
        if code.len() >= 6 && code[0] == 0xff && (code[1] == 0x25 || code[1] == 0x15) {
            return match self.indirect_pointer_operand(ip, code) {
                Some(pointer) => self.read_pointer_at(pointer),
                None => None,
            };
        }
        None
    }
}

/// A call, jump or conditional jump that was encoded to go to a target goes there: the
/// displacement leads from the end of the instruction to the target.
pub proof fn law_relative_transfer(
    memory: MemoryView,
    arch: TargetArch,
    ip: u64,
    code: Seq<u8>,
    target: u64,
)
    requires
        target < 0x8000_0000_0000_0000,
    ensures
        code.len() >= 5 && (code[0] == 0xe8 || code[0] == 0xe9) && -0x8000_0000 <= target - ip - 5
            < 0x8000_0000 && code.subrange(1, 5) == bytes::le_bytes(
            (target - ip - 5) % 0x1_0000_0000,
            4,
        ) ==> transfer_target(memory, arch, ip, code) == Some(Address(target)),
        code.len() >= 6 && code[0] == 0x0f && 0x80 <= code[1] <= 0x8f && -0x8000_0000 <= target - ip
            - 6 < 0x8000_0000 && code.subrange(2, 6) == bytes::le_bytes(
            (target - ip - 6) % 0x1_0000_0000,
            4,
        ) ==> transfer_target(memory, arch, ip, code) == Some(Address(target)),
        code.len() >= 2 && (code[0] == 0xeb || 0x70 <= code[0] <= 0x7f) && -0x80 <= target - ip - 2
            < 0x80 && code[1] == (target - ip - 2) % 0x100 ==> transfer_target(
            memory,
            arch,
            ip,
            code,
        ) == Some(Address(target)),
{
    reveal_with_fuel(bytes::le_limit, 5);
    let near = (target - ip - 5) % 0x1_0000_0000;
    let wide = (target - ip - 6) % 0x1_0000_0000;
    bytes::law_le_read_write(near, 4);
    bytes::law_le_read_write(wide, 4);
    assert(target as int % evidence::address_space() == target);
}

/// An indirect call or jump that was encoded to go through a pointer goes where the
/// pointer leads: the operand is its address in 32-bit code, and leads to it from the
/// end of the instruction in 64-bit code.
pub proof fn law_indirect_transfer(
    memory: MemoryView,
    arch: TargetArch,
    ip: u64,
    code: Seq<u8>,
    pointer: u64,
)
    requires
        code.len() >= 6,
        code[0] == 0xff,
        code[1] == 0x25 || code[1] == 0x15,
    ensures
        arch == TargetArch::X86 && pointer < 0x1_0000_0000 && code.subrange(2, 6)
            == bytes::le_bytes(pointer as int, 4) ==> indirect_operand(arch, ip, code) == Some(
            Address(pointer),
        ) && transfer_target(memory, arch, ip, code) == memory.read_pointer(arch, Address(pointer)),
        arch == TargetArch::X86_64 && pointer < 0x8000_0000_0000_0000 && -0x8000_0000 <= pointer
            - ip - 6 < 0x8000_0000 && code.subrange(2, 6) == bytes::le_bytes(
            (pointer - ip - 6) % 0x1_0000_0000,
            4,
        ) ==> indirect_operand(arch, ip, code) == Some(Address(pointer)) && transfer_target(
            memory,
            arch,
            ip,
            code,
        ) == memory.read_pointer(arch, Address(pointer)),
{
    reveal_with_fuel(bytes::le_limit, 5);
    let wide = (pointer - ip - 6) % 0x1_0000_0000;
    bytes::law_le_read_write(wide, 4);
    if pointer < 0x1_0000_0000 {
        bytes::law_le_read_write(pointer as int, 4);
    }
    assert(pointer as int % evidence::address_space() == pointer);
}

/// Nothing transfers control to a known target but the calls, jumps and conditional jumps
/// that carry a displacement, and the calls and jumps through a pointer.
pub proof fn law_other_code_goes_on(memory: MemoryView, arch: TargetArch, ip: u64, code: Seq<u8>)
    requires
        code.len() == 0 || (code[0] != 0xe8 && code[0] != 0xe9 && code[0] != 0xeb && !(0x70
            <= code[0] <= 0x7f)),
        code.len() < 2 || code[0] != 0x0f || !(0x80 <= code[1] <= 0x8f),
        code.len() < 2 || code[0] != 0xff || (code[1] != 0x15 && code[1] != 0x25),
    ensures
        transfer_target(memory, arch, ip, code) is None,
        indirect_operand(arch, ip, code) is None,
{
}

/// No target lies in the upper half of the address space, unless a pointer leads there.
pub proof fn law_relative_targets_are_low(
    memory: MemoryView,
    arch: TargetArch,
    ip: u64,
    code: Seq<u8>,
)
    requires
        code.len() > 0,
        code[0] != 0xff,
    ensures
        transfer_target(memory, arch, ip, code) matches Some(target) ==> target.0
            < 0x8000_0000_0000_0000,
{
}

} // verus!
