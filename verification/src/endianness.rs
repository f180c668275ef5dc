use vstd::arithmetic::div_mod::{lemma_fundamental_div_mod, lemma_fundamental_div_mod_converse};
use vstd::prelude::*;

verus! {

/// Byte order of every multi-byte field in an ELF file. It is fixed once by
/// the identification block and applies uniformly to all later fields.
#[derive(Debug, Clone, Copy, PartialEq, Eq, Structural)]
pub enum Endianness {
    LittleEndian,
    BigEndian,
}

/// 256 to the power `n`: the number of distinct values `n` bytes can encode.
pub open spec fn pow256(n: nat) -> nat
    decreases n,
{
    if n == 0 {
        1
    } else {
        256 * pow256((n - 1) as nat)
    }
}

/// The unsigned integer encoded by `b` read little-endian: the first byte is
/// the least significant.
pub open spec fn le_value(b: Seq<u8>) -> nat
    decreases b.len(),
{
    if b.len() == 0 {
        0
    } else {
        (b[0] + 256 * le_value(b.skip(1))) as nat
    }
}

/// The unsigned integer encoded by `b` under byte order `e`. Big-endian reads
/// the same bytes with the first byte most significant, which is the
/// little-endian reading of the reversed sequence.
pub open spec fn endian_value(b: Seq<u8>, e: Endianness) -> nat {
    match e {
        Endianness::LittleEndian => le_value(b),
        Endianness::BigEndian => le_value(b.reverse()),
    }
}

/// The `n`-byte little-endian encoding of `v` (truncated to `n` bytes).
pub open spec fn le_bytes(v: nat, n: nat) -> Seq<u8>
    decreases n,
{
    if n == 0 {
        Seq::empty()
    } else {
        seq![(v % 256) as u8] + le_bytes(v / 256, (n - 1) as nat)
    }
}

/// The `n`-byte encoding of `v` under byte order `e`.
pub open spec fn endian_bytes(v: nat, n: nat, e: Endianness) -> Seq<u8> {
    match e {
        Endianness::LittleEndian => le_bytes(v, n),
        Endianness::BigEndian => le_bytes(v, n).reverse(),
    }
}

/// A sequence of `n` bytes always encodes a value below 256^n.
pub proof fn lemma_le_value_bound(b: Seq<u8>)
    ensures
        le_value(b) < pow256(b.len()),
    decreases b.len(),
{
    if b.len() > 0 {
        lemma_le_value_bound(b.skip(1));
    }
}

/// A sequence of `n` bytes always encodes a value below 256^n, under either
/// byte order.
pub proof fn lemma_endian_value_bound(b: Seq<u8>, e: Endianness)
    ensures
        endian_value(b, e) < pow256(b.len()),
{
    match e {
        Endianness::LittleEndian => lemma_le_value_bound(b),
        Endianness::BigEndian => lemma_le_value_bound(b.reverse()),
    }
}

proof fn lemma_le_bytes_of_le_value(b: Seq<u8>)
    ensures
        le_bytes(le_value(b), b.len()) == b,
    decreases b.len(),
{
    if b.len() == 0 {
        assert(le_bytes(le_value(b), b.len()) =~= b);
    } else {
        let v = le_value(b);
        let t = le_value(b.skip(1));
        lemma_fundamental_div_mod_converse(v as int, 256, t as int, b[0] as int);
        lemma_le_bytes_of_le_value(b.skip(1));
        assert(le_bytes(v, b.len()) =~= b);
    }
}

proof fn lemma_le_value_of_le_bytes(v: nat, n: nat)
    requires
        v < pow256(n),
    ensures
        le_bytes(v, n).len() == n,
        le_value(le_bytes(v, n)) == v,
    decreases n,
{
    if n > 0 {
        lemma_fundamental_div_mod(v as int, 256);
        lemma_le_value_of_le_bytes(v / 256, (n - 1) as nat);
        let s = le_bytes(v, n);
        assert(s.skip(1) =~= le_bytes(v / 256, (n - 1) as nat));
    }
}

/// Decoding a byte sequence under a byte order and re-encoding the resulting
/// integer at the same length recovers the original bytes exactly. Together
/// with `lemma_endian_value_of_endian_bytes` this makes the codec a bijection
/// between byte sequences of a given length and the integers below 256^length,
/// for each fixed byte order.
pub proof fn lemma_endian_bytes_of_endian_value(b: Seq<u8>, e: Endianness)
    ensures
        endian_bytes(endian_value(b, e), b.len(), e) == b,
{
    match e {
        Endianness::LittleEndian => lemma_le_bytes_of_le_value(b),
        Endianness::BigEndian => {
            lemma_le_bytes_of_le_value(b.reverse());
            assert(b.reverse().reverse() =~= b);
        }
    }
}

/// Encoding an integer below 256^n as n bytes and decoding them under the same
/// byte order recovers the integer exactly: the other direction of the
/// bijection stated at `lemma_endian_bytes_of_endian_value`.
pub proof fn lemma_endian_value_of_endian_bytes(v: nat, n: nat, e: Endianness)
    requires
        v < pow256(n),
    ensures
        endian_bytes(v, n, e).len() == n,
        endian_value(endian_bytes(v, n, e), e) == v,
{
    lemma_le_value_of_le_bytes(v, n);
    if e is BigEndian {
        assert(le_bytes(v, n).reverse().reverse() =~= le_bytes(v, n));
    }
}

/// Closed form of `le_value` on a two-byte sequence.
proof fn lemma_le_value2(b: Seq<u8>)
    requires
        b.len() == 2,
    ensures
        le_value(b) == b[0] + 0x100 * b[1],
{
    reveal_with_fuel(le_value, 3);
    assert(b.skip(1)[0] == b[1]);
    assert(b.skip(1).skip(1).len() == 0);
}

/// Closed form of `le_value` on a four-byte sequence.
proof fn lemma_le_value4(b: Seq<u8>)
    requires
        b.len() == 4,
    ensures
        le_value(b) == b[0] + 0x100 * b[1] + 0x1_0000 * b[2] + 0x100_0000 * b[3],
{
    reveal_with_fuel(le_value, 5);
    assert(b.skip(1).skip(1) =~= b.skip(2));
    assert(b.skip(2).skip(1) =~= b.skip(3));
    assert(b.skip(1)[0] == b[1]);
    assert(b.skip(2)[0] == b[2]);
    assert(b.skip(3)[0] == b[3]);
    assert(b.skip(3).skip(1).len() == 0);
}

/// Closed form of `le_value` on an eight-byte sequence.
proof fn lemma_le_value8(b: Seq<u8>)
    requires
        b.len() == 8,
    ensures
        le_value(b) == b[0] + 0x100 * b[1] + 0x1_0000 * b[2] + 0x100_0000 * b[3]
            + 0x1_0000_0000 * b[4] + 0x100_0000_0000 * b[5] + 0x1_0000_0000_0000 * b[6]
            + 0x100_0000_0000_0000 * b[7],
{
    reveal_with_fuel(le_value, 9);
    assert(b.skip(1).skip(1) =~= b.skip(2));
    assert(b.skip(2).skip(1) =~= b.skip(3));
    assert(b.skip(3).skip(1) =~= b.skip(4));
    assert(b.skip(4).skip(1) =~= b.skip(5));
    assert(b.skip(5).skip(1) =~= b.skip(6));
    assert(b.skip(6).skip(1) =~= b.skip(7));
    assert(b.skip(1)[0] == b[1]);
    assert(b.skip(2)[0] == b[2]);
    assert(b.skip(3)[0] == b[3]);
    assert(b.skip(4)[0] == b[4]);
    assert(b.skip(5)[0] == b[5]);
    assert(b.skip(6)[0] == b[6]);
    assert(b.skip(7)[0] == b[7]);
    assert(b.skip(7).skip(1).len() == 0);
}

/// Reads two bytes as an unsigned integer under the given byte order.
pub fn read16(b: &[u8; 2], endian: Endianness) -> (r: u16)
    ensures
        r == endian_value(b@, endian),
{
    match endian {
        Endianness::LittleEndian => {
            proof {
                lemma_le_value2(b@);
            }
            b[0] as u16 + 0x100 * b[1] as u16
        }
        Endianness::BigEndian => {
            proof {
                lemma_le_value2(b@.reverse());
                assert(b@.reverse()[0] == b@[1]);
                assert(b@.reverse()[1] == b@[0]);
            }
            b[1] as u16 + 0x100 * b[0] as u16
        }
    }
}

/// Reads four bytes as an unsigned integer under the given byte order.
pub fn read32(b: &[u8; 4], endian: Endianness) -> (r: u32)
    ensures
        r == endian_value(b@, endian),
{
    match endian {
        Endianness::LittleEndian => {
            proof {
                lemma_le_value4(b@);
            }
            b[0] as u32 + 0x100 * b[1] as u32 + 0x1_0000 * b[2] as u32 + 0x100_0000 * b[3] as u32
        }
        Endianness::BigEndian => {
            proof {
                lemma_le_value4(b@.reverse());
                assert(b@.reverse()[0] == b@[3]);
                assert(b@.reverse()[1] == b@[2]);
                assert(b@.reverse()[2] == b@[1]);
                assert(b@.reverse()[3] == b@[0]);
            }
            b[3] as u32 + 0x100 * b[2] as u32 + 0x1_0000 * b[1] as u32 + 0x100_0000 * b[0] as u32
        }
    }
}

/// Reads eight bytes as an unsigned integer under the given byte order.
pub fn read64(b: &[u8; 8], endian: Endianness) -> (r: u64)
    ensures
        r == endian_value(b@, endian),
{
    match endian {
        Endianness::LittleEndian => {
            proof {
                lemma_le_value8(b@);
            }
            b[0] as u64 + 0x100 * b[1] as u64 + 0x1_0000 * b[2] as u64 + 0x100_0000 * b[3] as u64
                + 0x1_0000_0000 * b[4] as u64 + 0x100_0000_0000 * b[5] as u64
                + 0x1_0000_0000_0000 * b[6] as u64 + 0x100_0000_0000_0000 * b[7] as u64
        }
        Endianness::BigEndian => {
            proof {
                lemma_le_value8(b@.reverse());
                assert(b@.reverse()[0] == b@[7]);
                assert(b@.reverse()[1] == b@[6]);
                assert(b@.reverse()[2] == b@[5]);
                assert(b@.reverse()[3] == b@[4]);
                assert(b@.reverse()[4] == b@[3]);
                assert(b@.reverse()[5] == b@[2]);
                assert(b@.reverse()[6] == b@[1]);
                assert(b@.reverse()[7] == b@[0]);
            }
            b[7] as u64 + 0x100 * b[6] as u64 + 0x1_0000 * b[5] as u64 + 0x100_0000 * b[4] as u64
                + 0x1_0000_0000 * b[3] as u64 + 0x100_0000_0000 * b[2] as u64
                + 0x1_0000_0000_0000 * b[1] as u64 + 0x100_0000_0000_0000 * b[0] as u64
        }
    }
}

} // verus!
