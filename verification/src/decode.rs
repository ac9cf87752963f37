//! Disassembly of the memory image.

use iced_x86::{Decoder, DecoderOptions, Formatter, Mnemonic, NasmFormatter};
use vstd::prelude::*;

use crate::bytes;
use crate::evidence::{Address, Rva, TargetArch};
use crate::memory::{ArgusEngine, MemoryView};
use crate::text;
use crate::transfer;

verus! {

/// How many bytes the instruction at the front of `code` takes.
pub uninterp spec fn instruction_len(bitness: u32, code: Seq<u8>, ip: u64) -> usize;

/// Whether the instruction at the front of `code` is a near return.
pub uninterp spec fn instruction_is_ret(bitness: u32, code: Seq<u8>, ip: u64) -> bool;

/// The instruction at the front of `code` as NASM writes it.
pub uninterp spec fn instruction_text(bitness: u32, code: Seq<u8>, ip: u64) -> Seq<char>;

/// `iced_x86::Decoder::decode`, of which [`iced_x86::Instruction::len`] is taken.
/// The decoder reads at least one byte, never past the end of the slice, and at
/// most fifteen; a slice that ends within an instruction is consumed whole.
#[verifier::external_body]
fn decode_len(bitness: u32, code: &[u8], ip: u64) -> (len: usize)
    requires
        bitness == 32 || bitness == 64,
        code@.len() > 0,
    ensures
        len == instruction_len(bitness, code@, ip),
        1 <= len <= code@.len(),
        len <= 15,
{
    Decoder::with_ip(bitness, code, ip, DecoderOptions::NONE).decode().len()
}

/// `iced_x86::Decoder::decode`, of which [`iced_x86::Instruction::mnemonic`] tells
/// whether it is `Ret`.
#[verifier::external_body]
fn decode_is_ret(bitness: u32, code: &[u8], ip: u64) -> (is_ret: bool)
    requires
        bitness == 32 || bitness == 64,
        code@.len() > 0,
    ensures
        is_ret == instruction_is_ret(bitness, code@, ip),
{
    matches!(
        Decoder::with_ip(bitness, code, ip, DecoderOptions::NONE).decode().mnemonic(),
        Mnemonic::Ret
    )
}

/// `iced_x86::Decoder::decode`, whose instruction `iced_x86::NasmFormatter` formats
/// with its default options.
#[verifier::external_body]
fn decode_text(bitness: u32, code: &[u8], ip: u64) -> (text: String)
    requires
        bitness == 32 || bitness == 64,
        code@.len() > 0,
    ensures
        text@ == instruction_text(bitness, code@, ip),
{
    let mut output = String::new();
    let instruction = Decoder::with_ip(bitness, code, ip, DecoderOptions::NONE).decode();
    NasmFormatter::new().format(&instruction, &mut output);
    output
}

/// An instruction as it stands in memory.
#[derive(Debug, PartialEq, Eq)]
pub struct RuntimeInstruction {
    pub address: Address,
    pub rva: Option<Rva>,
    pub bytes: Vec<u8>,
    pub text: String,
    pub call_target: Option<Address>,
    pub call_target_rva: Option<Rva>,
    pub string: Option<String>,
}

#[verifier::ext_equal]
pub struct RuntimeInstructionView {
    pub address: Address,
    pub rva: Option<Rva>,
    pub bytes: Seq<u8>,
    pub text: Seq<char>,
    pub call_target: Option<Address>,
    pub call_target_rva: Option<Rva>,
    pub string: Option<Seq<char>>,
}

impl RuntimeInstructionView {
    /// The address behind the instruction.
    pub open spec fn ends_at(self) -> Address {
        self.address.plus(self.bytes.len() as int)
    }
}

impl DeepView for RuntimeInstruction {
    type V = RuntimeInstructionView;

    open spec fn deep_view(&self) -> RuntimeInstructionView {
        RuntimeInstructionView {
            address: self.address,
            rva: self.rva,
            bytes: self.bytes@,
            text: self.text@,
            call_target: self.call_target,
            call_target_rva: self.call_target_rva,
            string: self.string.deep_view(),
        }
    }
}

/// A copy of an optional text.
pub fn copy_text(text: &Option<String>) -> (copy: Option<String>)
    ensures
        copy.deep_view() == text.deep_view(),
{
    match text {
        Some(text) => Some(text.clone()),
        None => None,
    }
}

impl Clone for RuntimeInstruction {
    fn clone(&self) -> (copy: Self)
        ensures
            copy.deep_view() == self.deep_view(),
    {
        RuntimeInstruction {
            address: self.address,
            rva: self.rva,
            bytes: self.bytes.clone(),
            text: self.text.clone(),
            call_target: self.call_target,
            call_target_rva: self.call_target_rva,
            string: copy_text(&self.string),
        }
    }
}

/// The text that a `push` of a 32-bit address refers to; three characters at
/// least.
pub open spec fn pushed_string(memory: MemoryView, code: Seq<u8>) -> Option<Seq<char>> {
    if code.len() >= 5 && code[0] == 0x68 {
        referred_string(memory, transfer::le32_at(code, 1) as u64)
    } else {
        None
    }
}

/// The text of three characters at least that stands at an address.
pub open spec fn referred_string(memory: MemoryView, address: u64) -> Option<Seq<char>> {
    match memory.read_c_string(Address(address), 256) {
        Some(found) => if found.len() >= 3 {
            Some(found)
        } else {
            None
        },
        None => None,
    }
}

/// An instruction with what its bytes and the memory tell of it.
pub open spec fn annotated(
    memory: MemoryView,
    arch: TargetArch,
    address: Address,
    code: Seq<u8>,
    text: Seq<char>,
) -> RuntimeInstructionView {
    let call_target = transfer::transfer_target(memory, arch, address.0, code);
    RuntimeInstructionView {
        address,
        rva: memory.rva_at(address),
        bytes: code,
        text,
        call_target,
        call_target_rva: match call_target {
            Some(target) => memory.rva_at(target),
            None => None,
        },
        string: pushed_string(memory, code),
    }
}

/// The bytes that a disassembly of `count` instructions looks at.
pub open spec fn code_window(memory: MemoryView, address: Address, count: int) -> Seq<u8> {
    match memory.region_at(address) {
        Some((region, offset)) => {
            let wanted = if count * 15 < 4096 {
                count * 15
            } else {
                4096
            };
            if offset + wanted <= region.bytes.len() {
                region.bytes.subrange(offset, offset + wanted)
            } else {
                region.bytes.skip(offset)
            }
        },
        None => Seq::empty(),
    }
}

/// The instructions from an offset of some code on, before which `done` have been
/// decoded already: until the code or the count is used up, or up to the first
/// return that is at least the `least`th instruction.
pub open spec fn instructions_from(
    memory: MemoryView,
    arch: TargetArch,
    address: Address,
    code: Seq<u8>,
    at: int,
    done: int,
    count: int,
    least: int,
) -> Seq<RuntimeInstructionView>
    decreases count - done,
{
    if at >= code.len() || done >= count {
        Seq::empty()
    } else {
        let rest = code.skip(at);
        let ip = address.plus(at);
        let bitness = arch.bitness() as u32;
        let len = instruction_len(bitness, rest, ip.0) as int;
        let first = annotated(
            memory,
            arch,
            ip,
            rest.take(len),
            instruction_text(bitness, rest, ip.0),
        );
        if instruction_is_ret(bitness, rest, ip.0) && done + 1 >= least {
            seq![first]
        } else {
            seq![first] + instructions_from(
                memory,
                arch,
                address,
                code,
                at + len,
                done + 1,
                count,
                least,
            )
        }
    }
}

/// The disassembly of up to `count` instructions at an address; a return ends it that
/// is the fourth instruction or a later one.
pub open spec fn disassembly(
    memory: MemoryView,
    arch: TargetArch,
    address: Address,
    count: int,
) -> Seq<RuntimeInstructionView> {
    instructions_from(
        memory,
        arch,
        address,
        code_window(memory, address, count),
        0,
        0,
        count,
        4,
    )
}

/// The body of the function at an address, up to `count` instructions: its first
/// return ends it.
pub open spec fn function_body(
    memory: MemoryView,
    arch: TargetArch,
    address: Address,
    count: int,
) -> Seq<RuntimeInstructionView> {
    instructions_from(
        memory,
        arch,
        address,
        code_window(memory, address, count),
        0,
        0,
        count,
        1,
    )
}

/// Whether the bytes from an offset of some code on start with a return.
pub open spec fn returns_at(arch: TargetArch, address: Address, code: Seq<u8>, at: int) -> bool {
    instruction_is_ret(arch.bitness() as u32, code.skip(at), address.plus(at).0)
}

/// Where the instruction behind the first `n` stands in some code.
pub open spec fn offset_behind(arch: TargetArch, address: Address, code: Seq<u8>, n: int) -> int
    decreases n,
{
    if n <= 0 {
        0
    } else {
        let at = offset_behind(arch, address, code, n - 1);
        at + instruction_len(arch.bitness() as u32, code.skip(at), address.plus(at).0)
    }
}

/// The body of a function is its disassembly up to the first return: the two begin
/// alike, no instruction of the body but the last is a return, and where the body is
/// shorter than the disassembly its last instruction is one.
pub proof fn law_body_ends_at_return(
    memory: MemoryView,
    arch: TargetArch,
    address: Address,
    count: int,
)
    ensures
        ({
            let code = code_window(memory, address, count);
            let body = function_body(memory, arch, address, count);
            let all = disassembly(memory, arch, address, count);
            &&& body.is_prefix_of(all)
            &&& forall|i: int|
                0 <= i < body.len() - 1 ==> !returns_at(
                    arch,
                    address,
                    code,
                    #[trigger] offset_behind(arch, address, code, i),
                )
            &&& body.len() < all.len() ==> body.len() > 0 && returns_at(
                arch,
                address,
                code,
                offset_behind(arch, address, code, body.len() - 1),
            )
        }),
{
    lemma_body(memory, arch, address, code_window(memory, address, count), 0, count);
}

/// The same from the instruction behind the first `done` on.
proof fn lemma_body(
    memory: MemoryView,
    arch: TargetArch,
    address: Address,
    code: Seq<u8>,
    done: int,
    count: int,
)
    requires
        0 <= done,
    ensures
        ({
            let at = offset_behind(arch, address, code, done);
            let body = instructions_from(memory, arch, address, code, at, done, count, 1);
            let all = instructions_from(memory, arch, address, code, at, done, count, 4);
            &&& body.is_prefix_of(all)
            &&& forall|i: int|
                done <= i < done + body.len() - 1 ==> !returns_at(
                    arch,
                    address,
                    code,
                    #[trigger] offset_behind(arch, address, code, i),
                )
            &&& body.len() < all.len() ==> body.len() > 0 && returns_at(
                arch,
                address,
                code,
                offset_behind(arch, address, code, done + body.len() - 1),
            )
        }),
    decreases count - done,
{
    let at = offset_behind(arch, address, code, done);
    if at < code.len() && done < count {
        lemma_body(memory, arch, address, code, done + 1, count);
        let next = offset_behind(arch, address, code, done + 1);
        let body = instructions_from(memory, arch, address, code, at, done, count, 1);
        let all = instructions_from(memory, arch, address, code, at, done, count, 4);
        let rest = instructions_from(memory, arch, address, code, next, done + 1, count, 1);
        let rest_all = instructions_from(memory, arch, address, code, next, done + 1, count, 4);
        if !returns_at(arch, address, code, at) {
            assert(body == seq![body[0]] + rest);
            assert(all == seq![body[0]] + rest_all);
            assert(body.is_prefix_of(all));
        }
    }
}

/// Whether an instruction is what stands at an offset of some code: it has the bytes, the
/// text and the target that are found there, and the relative addresses of the two places.
pub open spec fn stands_in_code(
    memory: MemoryView,
    arch: TargetArch,
    address: Address,
    code: Seq<u8>,
    at: int,
    instruction: RuntimeInstructionView,
) -> bool {
    let bitness: u32 = if arch == TargetArch::X86_64 {
        64
    } else {
        32
    };
    let len = instruction_len(bitness, code.skip(at), instruction.address.0) as int;
    &&& instruction.address.0 == (address.0 + at) % 0x1_0000_0000_0000_0000
    &&& instruction.bytes == code.skip(at).take(len)
    &&& instruction.text == instruction_text(bitness, code.skip(at), instruction.address.0)
    &&& instruction.call_target == transfer::transfer_target(
        memory,
        arch,
        instruction.address.0,
        instruction.bytes,
    )
    &&& instruction.rva == memory.rva_at(instruction.address)
    &&& match instruction.call_target {
        Some(target) => instruction.call_target_rva == memory.rva_at(target),
        None => instruction.call_target_rva is None,
    }
}

proof fn lemma_instructions_stand(
    memory: MemoryView,
    arch: TargetArch,
    address: Address,
    code: Seq<u8>,
    done: int,
    count: int,
    least: int,
)
    requires
        0 <= done <= count,
    ensures
        ({
            let at = offset_behind(arch, address, code, done);
            let all = instructions_from(memory, arch, address, code, at, done, count, least);
            let n = done + all.len();
            &&& n <= count
            &&& forall|i: int|
                done <= i < n ==> offset_behind(arch, address, code, i) < code.len()
                    && stands_in_code(
                    memory,
                    arch,
                    address,
                    code,
                    #[trigger] offset_behind(arch, address, code, i),
                    all[i - done],
                )
            &&& forall|i: int|
                done <= i < n - 1 && i + 1 >= least ==> !returns_at(
                    arch,
                    address,
                    code,
                    #[trigger] offset_behind(arch, address, code, i),
                )
            &&& n == count || offset_behind(arch, address, code, n) >= code.len() || (n > done && n
                >= least && returns_at(
                arch,
                address,
                code,
                offset_behind(arch, address, code, n - 1),
            ))
        }),
    decreases count - done,
{
    let at = offset_behind(arch, address, code, done);
    if at < code.len() && done < count {
        let all = instructions_from(memory, arch, address, code, at, done, count, least);
        if !(returns_at(arch, address, code, at) && done + 1 >= least) {
            lemma_instructions_stand(memory, arch, address, code, done + 1, count, least);
            let next = offset_behind(arch, address, code, done + 1);
            let rest = instructions_from(
                memory,
                arch,
                address,
                code,
                next,
                done + 1,
                count,
                least,
            );
            assert(all == seq![all[0]] + rest);
            assert forall|i: int| done <= i < done + all.len() implies offset_behind(
                arch,
                address,
                code,
                i,
            ) < code.len() && stands_in_code(
                memory,
                arch,
                address,
                code,
                #[trigger] offset_behind(arch, address, code, i),
                all[i - done],
            ) by {
                if i > done {
                    assert(all[i - done] == rest[i - done - 1]);
                }
            }
        }
    }
}

/// A disassembly shows what stands in the code, one instruction behind the other from the
/// address on. It goes on until the count or the code is used up; a return ends it from
/// the fourth instruction on, and does not before.
pub proof fn law_disassembly_shows_code(
    memory: MemoryView,
    arch: TargetArch,
    address: Address,
    count: int,
)
    requires
        0 <= count,
    ensures
        ({
            let code = code_window(memory, address, count);
            let all = disassembly(memory, arch, address, count);
            let n = all.len() as int;
            &&& n <= count
            &&& forall|i: int|
                0 <= i < n ==> stands_in_code(
                    memory,
                    arch,
                    address,
                    code,
                    #[trigger] offset_behind(arch, address, code, i),
                    all[i],
                )
            &&& forall|i: int|
                3 <= i < n - 1 ==> !returns_at(
                    arch,
                    address,
                    code,
                    #[trigger] offset_behind(arch, address, code, i),
                )
            &&& n == count || offset_behind(arch, address, code, n) >= code.len() || (n >= 4
                && returns_at(arch, address, code, offset_behind(arch, address, code, n - 1)))
        }),
{
    lemma_instructions_stand(
        memory,
        arch,
        address,
        code_window(memory, address, count),
        0,
        count,
        4,
    );
}

/// The code that a disassembly looks at is what the region holds from the address on:
/// fifteen bytes for each instruction, at most four kilobytes, and none behind its end.
pub proof fn law_code_window(memory: MemoryView, address: Address, count: int)
    requires
        0 <= count,
    ensures
        match memory.region_at(address) {
            Some((region, offset)) => {
                let code = code_window(memory, address, count);
                &&& code.len() <= 15 * count
                &&& code.len() <= 4096
                &&& offset + code.len() <= region.bytes.len()
                &&& code.len() == 15 * count || code.len() == 4096 || offset + code.len()
                    == region.bytes.len()
                &&& forall|k: int|
                    0 <= k < code.len() ==> #[trigger] code[k] == region.bytes[offset + k]
            },
            None => code_window(memory, address, count).len() == 0,
        },
{
    crate::memory::law_region_at(memory, address);
}

/// A `push` of a 32-bit number refers to the text of three to 256 characters that stands
/// at this address; nothing else refers to a text.
pub proof fn law_pushed_string(memory: MemoryView, code: Seq<u8>, said: Seq<char>)
    ensures
        pushed_string(memory, code) == Some(said) <==> code.len() >= 5 && code[0] == 0x68
            && said.len() >= 3 && memory.read_c_string(
            Address(
                (code[1] + 0x100 * code[2] + 0x1_0000 * code[3] + 0x100_0000 * code[4]) as u64,
            ),
            256,
        ) == Some(said),
{
    if code.len() >= 5 {
        bytes::lemma_le_value_4(code.subrange(1, 5));
    }
}

/// Whether each instruction but the first starts where the one before it ends.
pub open spec fn follow_on(instructions: Seq<RuntimeInstructionView>) -> bool {
    forall|i: int, j: int|
        0 <= i && j == i + 1 && j < instructions.len() ==> (#[trigger] instructions[j]).address == (
        #[trigger] instructions[i]).ends_at()
}

impl ArgusEngine {
    /// The text of three characters at least that stands at an address.
    pub fn string_at(&self, address: u64) -> (string: Option<String>)
        ensures
            string.deep_view() == referred_string(self.memory(), address),
    {
        match self.read_c_string_at(Address(address), 256) {
            Some(found) => {
                if found.as_str().unicode_len() >= 3 {
                    Some(found)
                } else {
                    None
                }
            },
            None => None,
        }
    }

    /// The text that a `push` of a 32-bit address refers to.
    pub fn push_string(&self, code: &[u8]) -> (string: Option<String>)
        ensures
            string.deep_view() == pushed_string(self.memory(), code@),
    {
        if code.len() < 5 || code[0] != 0x68 {
            return None;
        }
        self.string_at(bytes::read_u32(code, 1) as u64)
    }

    /// An instruction with what its bytes and the memory tell of it.
    pub fn annotate(&self, address: Address, code: Vec<u8>, text: String) -> (instruction:
        RuntimeInstruction)
        ensures
            instruction.deep_view() == annotated(
                self.memory(),
                self.arch(),
                address,
                code@,
                text@,
            ),
    {
        let call_target = self.direct_or_indirect_target(address.0, &code);
        let string = self.push_string(&code);
        let call_target_rva = match call_target {
            Some(target) => self.rva_at(target),
            None => None,
        };
        let rva = self.rva_at(address);
        RuntimeInstruction { address, rva, bytes: code, text, call_target, call_target_rva, string }
    }

    /// Disassembles up to `count` instructions at an address. The first one stands
    /// at the address, each other one starts where the one before it ends, and each
    /// has from one to fifteen bytes.
    pub fn disasm_at(&self, address: Address, count: usize) -> (instructions: Vec<
        RuntimeInstruction,
    >)
        ensures
            instructions.deep_view() == disassembly(
                self.memory(),
                self.arch(),
                address,
                count as int,
            ),
            instructions@.len() <= count,
            instructions@.len() > 0 ==> instructions@[0].address == address,
            follow_on(instructions.deep_view()),
            forall|i: int|
                0 <= i < instructions@.len() ==> 1 <= (#[trigger] instructions@[i]).bytes@.len()
                    <= 15,
    {
        self.decode_until(address, count, 4)
    }

    /// Disassembles the body of the function at an address, up to `count` instructions.
    pub fn body_at(&self, address: Address, count: usize) -> (instructions: Vec<RuntimeInstruction>)
        ensures
            instructions.deep_view() == function_body(
                self.memory(),
                self.arch(),
                address,
                count as int,
            ),
    {
        self.decode_until(address, count, 1)
    }

    /// Disassembles up to `count` instructions at an address, and no further than the
    /// first return that is at least the `least`th.
    fn decode_until(&self, address: Address, count: usize, least: usize) -> (instructions: Vec<
        RuntimeInstruction,
    >)
        ensures
            instructions.deep_view() == instructions_from(
                self.memory(),
                self.arch(),
                address,
                code_window(self.memory(), address, count as int),
                0,
                0,
                count as int,
                least as int,
            ),
            instructions@.len() <= count,
            instructions@.len() > 0 ==> instructions@[0].address == address,
            follow_on(instructions.deep_view()),
            forall|i: int|
                0 <= i < instructions@.len() ==> 1 <= (#[trigger] instructions@[i]).bytes@.len()
                    <= 15,
    {
        let mut instructions: Vec<RuntimeInstruction> = Vec::new();
        let ghost memory = self.memory();
        let ghost arch = self.arch();
        proof {
            assert(instructions.deep_view() =~= Seq::<RuntimeInstructionView>::empty());
        }
        let (region, offset) = match self.region_at(address) {
            Some(found) => found,
            None => {
                return instructions;
            },
        };
        let max_len: usize = if count < 274 {
            count * 15
        } else {
            4096
        };
        let left: usize = region.bytes.len() - offset;
        let end: usize = if max_len < left {
            offset + max_len
        } else {
            region.bytes.len()
        };
        let code = &region.bytes[offset..end];
        let ghost whole = instructions_from(
            memory,
            arch,
            address,
            code@,
            0,
            0,
            count as int,
            least as int,
        );
        proof {
            assert(code@ =~= code_window(memory, address, count as int));
            assert(instructions.deep_view() + whole =~= whole);
        }
        let bitness: u32 = self.target_arch().decoder_bitness();
        let mut at: usize = 0;
        let mut returned = false;
        while at < code.len() && instructions.len() < count && !returned
            invariant
                memory == self.memory(),
                arch == self.arch(),
                bitness == arch.bitness(),
                at <= code.len(),
                instructions@.len() <= count,
                instructions@.len() == 0 ==> at == 0,
                instructions@.len() > 0 ==> instructions@[0].address == address
                    && instructions.deep_view().last().ends_at() == address.plus(at as int),
                follow_on(instructions.deep_view()),
                forall|i: int|
                    0 <= i < instructions@.len() ==> 1 <= (
                    #[trigger] instructions@[i]).bytes@.len() <= 15,
                returned ==> instructions.deep_view() == whole,
                !returned ==> instructions.deep_view() + instructions_from(
                    memory,
                    arch,
                    address,
                    code@,
                    at as int,
                    instructions@.len() as int,
                    count as int,
                    least as int,
                ) == whole,
            decreases count - instructions@.len(),
        {
            let rest = &code[at..code.len()];
            let ip = address.offset(at as u64);
            proof {
                assert(rest@ =~= code@.skip(at as int));
            }
            let len: usize = decode_len(bitness, rest, ip.0);
            let is_ret = decode_is_ret(bitness, rest, ip.0);
            let text = decode_text(bitness, rest, ip.0);
            let taken = vstd::slice::slice_to_vec(&rest[0..len]);
            proof {
                assert(taken@ =~= rest@.take(len as int));
            }
            let ghost before = instructions.deep_view();
            let ghost done = instructions@.len() as int;
            let instruction = self.annotate(ip, taken, text);
            let ghost first = instruction.deep_view();
            let ghost following = instructions_from(
                memory,
                arch,
                address,
                code@,
                at + len,
                done + 1,
                count as int,
                least as int,
            );
            instructions.push(instruction);
            proof {
                assert(instructions.deep_view() =~= before.push(first));
                assert(before + seq![first] =~= before.push(first));
                assert(before + (seq![first] + following) =~= before.push(first) + following);
                address.lemma_plus_plus(at as int, len as int);
                assert(first.ends_at() == address.plus(at + len));
                assert(before.push(first).last() == first);
            }
            if is_ret && instructions.len() >= least {
                returned = true;
            }
            at += len;
        }
        proof {
            if !returned {
                assert(instructions.deep_view() + Seq::<RuntimeInstructionView>::empty()
                    =~= instructions.deep_view());
            }
        }
        instructions
    }
}

} // verus!
