//! Little-endian numbers and printable bytes.

use vstd::prelude::*;

verus! {

/// The number that a run of bytes writes, least significant byte first.
pub open spec fn le_value(bytes: Seq<u8>) -> int
    decreases bytes.len(),
{
    if bytes.len() == 0 {
        0
    } else {
        bytes[0] + 256 * le_value(bytes.drop_first())
    }
}

/// The `n` low bytes of a number, least significant byte first.
pub open spec fn le_bytes(value: int, n: nat) -> Seq<u8>
    decreases n,
{
    if n == 0 {
        Seq::empty()
    } else {
        seq![(value % 256) as u8] + le_bytes(value / 256, (n - 1) as nat)
    }
}

/// How many numbers `n` bytes can write.
pub open spec fn le_limit(n: nat) -> int
    decreases n,
{
    if n == 0 {
        1
    } else {
        256 * le_limit((n - 1) as nat)
    }
}

/// Writing the number that some bytes hold gives the bytes back.
pub proof fn law_le_write_read(bytes: Seq<u8>)
    ensures
        le_bytes(le_value(bytes), bytes.len()) == bytes,
        0 <= le_value(bytes) < le_limit(bytes.len()),
    decreases bytes.len(),
{
    if bytes.len() > 0 {
        let rest = bytes.drop_first();
        law_le_write_read(rest);
        assert(le_bytes(le_value(bytes), bytes.len()) =~= bytes);
    } else {
        assert(le_bytes(0, 0) =~= bytes);
    }
}

/// Reading the bytes of a number that fits gives the number back.
pub proof fn law_le_read_write(value: int, n: nat)
    requires
        0 <= value < le_limit(n),
    ensures
        le_bytes(value, n).len() == n,
        le_value(le_bytes(value, n)) == value,
    decreases n,
{
    if n > 0 {
        law_le_read_write(value / 256, (n - 1) as nat);
        assert(le_bytes(value, n).drop_first() =~= le_bytes(value / 256, (n - 1) as nat));
    }
}

/// The two's complement reading of a 32-bit number.
pub open spec fn signed32(value: int) -> int {
    if value < 0x8000_0000 {
        value
    } else {
        value - 0x1_0000_0000
    }
}

/// The two's complement reading of a byte.
pub open spec fn signed8(value: int) -> int {
    if value < 0x80 {
        value
    } else {
        value - 0x100
    }
}

pub proof fn lemma_le_value_2(bytes: Seq<u8>)
    requires
        bytes.len() == 2,
    ensures
        le_value(bytes) == bytes[0] + 256 * bytes[1],
{
    reveal_with_fuel(le_value, 3);
}

pub proof fn lemma_le_value_4(bytes: Seq<u8>)
    requires
        bytes.len() == 4,
    ensures
        le_value(bytes) == bytes[0] + 0x100 * bytes[1] + 0x1_0000 * bytes[2] + 0x100_0000
            * bytes[3],
{
    reveal_with_fuel(le_value, 5);
}

pub proof fn lemma_le_value_8(bytes: Seq<u8>)
    requires
        bytes.len() == 8,
    ensures
        le_value(bytes) == le_value(bytes.take(4)) + 0x1_0000_0000 * le_value(bytes.skip(4)),
{
    reveal_with_fuel(le_value, 5);
    let d4 = bytes.drop_first().drop_first().drop_first().drop_first();
    assert(d4 =~= bytes.skip(4));
    let low = bytes.take(4);
    assert(low.drop_first() =~= bytes.drop_first().take(3));
    lemma_le_value_4(low);
    assert(le_value(bytes) == bytes[0] + 256 * (bytes[1] + 256 * (bytes[2] + 256 * (bytes[3] + 256
        * le_value(d4)))));
}

/// The 16-bit number at an offset.
pub fn read_u16(data: &[u8], at: usize) -> (value: u16)
    requires
        at + 2 <= data@.len(),
    ensures
        value == le_value(data@.subrange(at as int, at + 2)),
{
    proof {
        lemma_le_value_2(data@.subrange(at as int, at + 2));
        assert(data.len() == data@.len());
    }
    data[at] as u16 + 0x100 * (data[at + 1] as u16)
}

/// The 32-bit number at an offset.
pub fn read_u32(data: &[u8], at: usize) -> (value: u32)
    requires
        at + 4 <= data@.len(),
    ensures
        value == le_value(data@.subrange(at as int, at + 4)),
{
    proof {
        lemma_le_value_4(data@.subrange(at as int, at + 4));
        assert(data.len() == data@.len());
    }
    data[at] as u32 + 0x100 * (data[at + 1] as u32) + 0x1_0000 * (data[at + 2] as u32) + 0x100_0000
        * (data[at + 3] as u32)
}

/// The 64-bit number at an offset.
pub fn read_u64(data: &[u8], at: usize) -> (value: u64)
    requires
        at + 8 <= data@.len(),
    ensures
        value == le_value(data@.subrange(at as int, at + 8)),
{
    proof {
        assert(data.len() == data@.len());
        let bytes = data@.subrange(at as int, at + 8);
        lemma_le_value_8(bytes);
        assert(bytes.take(4) =~= data@.subrange(at as int, at + 4));
        assert(bytes.skip(4) =~= data@.subrange(at + 4, at + 8));
    }
    let low: u64 = read_u32(data, at) as u64;
    let high: u64 = read_u32(data, at + 4) as u64;
    low + 0x1_0000_0000 * high
}

/// The `n` low bytes of a number, least significant byte first.
pub fn write_le(value: u64, n: usize) -> (bytes: Vec<u8>)
    ensures
        bytes@ == le_bytes(value as int, n as nat),
{
    let mut bytes: Vec<u8> = Vec::new();
    let mut rest: u64 = value;
    let mut i: usize = 0;
    proof {
        assert(bytes@ + le_bytes(value as int, n as nat) =~= le_bytes(value as int, n as nat));
    }
    while i < n
        invariant
            i <= n,
            bytes@ + le_bytes(rest as int, (n - i) as nat) == le_bytes(value as int, n as nat),
        decreases n - i,
    {
        let ghost before = bytes@;
        bytes.push((rest % 256) as u8);
        proof {
            let tail = le_bytes((rest / 256) as int, (n - i - 1) as nat);
            assert(le_bytes(rest as int, (n - i) as nat) == seq![(rest % 256) as u8] + tail);
            assert(bytes@ + tail =~= before + (seq![(rest % 256) as u8] + tail));
        }
        rest = rest / 256;
        i += 1;
    }
    proof {
        assert(bytes@ + Seq::<u8>::empty() =~= bytes@);
    }
    bytes
}

/// A visible ASCII character.
pub open spec fn is_graphic(byte: u8) -> bool {
    0x21 <= byte <= 0x7e
}

/// The bytes as characters; each stands for the character of the same code.
pub open spec fn byte_chars(bytes: Seq<u8>) -> Seq<char> {
    bytes.map_values(|byte: u8| byte as char)
}

/// What of a number fits a size: on a machine with short sizes, its lowest bits.
pub open spec fn size_value(n: u64) -> usize {
    (n as int % (usize::MAX + 1)) as usize
}

/// What of a number fits a size.
pub fn as_size(n: u64) -> (size: usize)
    ensures
        size == size_value(n),
        n <= usize::MAX ==> size == n,
{
    let wide: u128 = n as u128;
    let limit: u128 = usize::MAX as u128 + 1;
    proof {
        vstd::arithmetic::div_mod::lemma_mod_bound(wide as int, limit as int);
        if wide < limit {
            vstd::arithmetic::div_mod::lemma_small_mod(wide as nat, limit as nat);
        }
    }
    (wide % limit) as usize
}

/// A number that fits a size stays as it is.
pub proof fn law_size_value(n: u64)
    requires
        n <= usize::MAX,
    ensures
        size_value(n) == n,
{
    vstd::arithmetic::div_mod::lemma_small_mod(n as nat, (usize::MAX + 1) as nat);
}

} // verus!
