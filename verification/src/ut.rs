//! Machine-format (big-endian) integer access on byte buffers.
use vstd::prelude::*;
use vstd::arithmetic::power::pow;

verus! {

/// Size of an InnoDB page, in bytes.
pub const PAGE_SIZE: u16 = 16384;

/// The unsigned integer that `s` spells in big-endian order: the first byte
/// is the most significant one.
pub open spec fn be_value(s: Seq<u8>) -> nat
    decreases s.len(),
{
    if s.len() == 0 {
        0
    } else {
        be_value(s.drop_last()) * 256 + s.last() as nat
    }
}

/// The big-endian value of the `n` bytes of `s` that start at `off`.
pub open spec fn be_field(s: Seq<u8>, off: int, n: int) -> nat {
    be_value(s.subrange(off, off + n))
}

/// The value of two bytes.
pub proof fn lemma_be_value_2(s: Seq<u8>)
    requires
        s.len() == 2,
    ensures
        be_value(s) == s[0] * 256 + s[1],
{
    assert(s.drop_last().drop_last() =~= Seq::<u8>::empty());
    reveal_with_fuel(be_value, 3);
}

/// The value of four bytes.
pub proof fn lemma_be_value_4(s: Seq<u8>)
    requires
        s.len() == 4,
    ensures
        be_value(s) == s[0] * 0x1000000 + s[1] * 0x10000 + s[2] * 0x100 + s[3],
{
    let s3 = s.drop_last();
    let s2 = s3.drop_last();
    let s1 = s2.drop_last();
    assert(s1.drop_last() =~= Seq::<u8>::empty());
    assert(be_value(s1) == s[0]) by {
        reveal_with_fuel(be_value, 2);
    }
    assert(be_value(s2) == s[0] * 256 + s[1]);
    assert(be_value(s3) == (s[0] * 256 + s[1]) * 256 + s[2]);
}

/// Reads a 2-byte big-endian integer from the start of `buf`.
pub fn mach_read_from_2(buf: &[u8]) -> (r: u16)
    requires
        buf@.len() >= 2,
    ensures
        r == be_field(buf@, 0, 2),
{
    let b0 = buf[0];
    let b1 = buf[1];
    proof {
        lemma_be_value_2(buf@.subrange(0, 2));
        assert((((b0 as u64) << 8u64) | (b1 as u64)) as u16 == b0 * 256 + b1) by (bit_vector);
    }
    (((b0 as u64) << 8) | (b1 as u64)) as u16
}


/// Big-endian values compose: the value of `a + b` is the value of `a`
/// shifted left by the bytes of `b`, plus the value of `b`.
pub proof fn lemma_be_value_concat(a: Seq<u8>, b: Seq<u8>)
    ensures
        be_value(a + b) == be_value(a) * pow(256, b.len() as nat) + be_value(b),
    decreases b.len(),
{
    if b.len() == 0 {
        assert(a + b =~= a);
        assert(pow(256, 0) == 1) by {
            reveal(pow);
        }
    } else {
        let b1 = b.drop_last();
        assert((a + b).drop_last() =~= a + b1);
        assert((a + b).last() == b.last());
        lemma_be_value_concat(a, b1);
        let p1 = pow(256, b1.len() as nat);
        assert(pow(256, b.len() as nat) == 256 * p1) by {
            reveal(pow);
        }
        let x = be_value(a) as int;
        assert(x * p1 * 256 == x * (256 * p1)) by (nonlinear_arith);
    }
}

/// A big-endian value of `n` bytes is below `256^n`.
pub proof fn lemma_be_value_bound(s: Seq<u8>)
    ensures
        be_value(s) < pow(256, s.len() as nat),
    decreases s.len(),
{
    if s.len() == 0 {
        reveal(pow);
    } else {
        lemma_be_value_bound(s.drop_last());
        let p1 = pow(256, (s.len() - 1) as nat);
        assert(pow(256, s.len() as nat) == 256 * p1) by {
            reveal(pow);
        }
        let x = be_value(s.drop_last()) as int;
        let l = s.last() as int;
        assert(x * 256 + l < 256 * p1) by (nonlinear_arith)
            requires
                x < p1,
                0 <= l < 256,
        ;
    }
}

/// A 4-byte field fits a `u32` and an 8-byte field a `u64`.
pub proof fn lemma_be_field_bounds(s: Seq<u8>, off: int)
    requires
        0 <= off,
    ensures
        off + 4 <= s.len() ==> be_field(s, off, 4) <= u32::MAX,
        off + 8 <= s.len() ==> be_field(s, off, 8) <= u64::MAX,
{
    assert(pow(256, 4) == 0x1_0000_0000) by {
        reveal_with_fuel(pow, 5);
    }
    assert(pow(256, 8) == 0x1_0000_0000_0000_0000) by {
        reveal_with_fuel(pow, 9);
    }
    if off + 4 <= s.len() {
        lemma_be_value_bound(s.subrange(off, off + 4));
    }
    if off + 8 <= s.len() {
        lemma_be_value_bound(s.subrange(off, off + 8));
    }
}

/// Reads a 4-byte big-endian integer from the start of `buf`.
pub fn mach_read_from_4(buf: &[u8]) -> (r: u32)
    requires
        buf@.len() >= 4,
    ensures
        r == be_field(buf@, 0, 4),
{
    let b0 = buf[0];
    let b1 = buf[1];
    let b2 = buf[2];
    let b3 = buf[3];
    proof {
        lemma_be_value_4(buf@.subrange(0, 4));
        assert(((b0 as u32) << 24u32) | ((b1 as u32) << 16u32) | ((b2 as u32) << 8u32) | (b3 as u32)
            == b0 * 0x1000000 + b1 * 0x10000 + b2 * 0x100 + b3) by (bit_vector);
    }
    ((b0 as u32) << 24) | ((b1 as u32) << 16) | ((b2 as u32) << 8) | (b3 as u32)
}

/// Reads an 8-byte big-endian integer from the start of `buf`, as the high
/// and the low 4-byte halves.
pub fn mach_read_from_8(buf: &[u8]) -> (r: u64)
    requires
        buf@.len() >= 8,
    ensures
        r == be_field(buf@, 0, 8),
        r == be_field(buf@, 0, 4) * 0x1_0000_0000 + be_field(buf@, 4, 4),
{
    let hi = mach_read_from_4(buf);
    let rest = vstd::slice::slice_subrange(buf, 4, buf.len());
    let lo = mach_read_from_4(rest);
    let mut u64_1: u64 = hi as u64;
    u64_1 = u64_1 << 32;
    u64_1 = u64_1 | (lo as u64);
    proof {
        assert(rest@.subrange(0, 4) =~= buf@.subrange(4, 8));
        assert(buf@.subrange(0, 8) =~= buf@.subrange(0, 4) + buf@.subrange(4, 8));
        lemma_be_value_concat(buf@.subrange(0, 4), buf@.subrange(4, 8));
        assert(pow(256, 4) == 0x1_0000_0000) by {
            reveal_with_fuel(pow, 5);
        }
        assert(((hi as u64) << 32u64) | (lo as u64) == hi * 0x1_0000_0000 + lo) by (bit_vector);
    }
    u64_1
}

/// The page type field: a 2-byte big-endian integer at the start of `buf`.
pub fn fil_page_get_type(buf: &[u8]) -> (r: u16)
    requires
        buf@.len() >= 2,
    ensures
        r == be_field(buf@, 0, 2),
{
    mach_read_from_2(buf)
}

/// Writes `n` as a 4-byte big-endian integer at the start of `buf`; the
/// other bytes stay as they were.
pub fn _mach_write_to_4(buf: &mut [u8], n: u32)
    requires
        old(buf)@.len() >= 4,
    ensures
        final(buf)@.len() == old(buf)@.len(),
        be_field(final(buf)@, 0, 4) == n,
        final(buf)@.subrange(4, final(buf)@.len() as int) == old(buf)@.subrange(4, old(buf)@.len() as int),
{
    let b0 = (n >> 24) as u8;
    let b1 = (n >> 16) as u8;
    let b2 = (n >> 8) as u8;
    let b3 = n as u8;
    buf[0] = b0;
    buf[1] = b1;
    buf[2] = b2;
    buf[3] = b3;
    proof {
        lemma_be_value_4(buf@.subrange(0, 4));
        assert(b0 * 0x1000000 + b1 * 0x10000 + b2 * 0x100 + b3 == n) by (bit_vector)
            requires
                b0 == (n >> 24u32) as u8,
                b1 == (n >> 16u32) as u8,
                b2 == (n >> 8u32) as u8,
                b3 == n as u8,
        ;
        assert(buf@.subrange(4, buf@.len() as int) =~= old(buf)@.subrange(4, old(buf)@.len() as int));
    }
}

/// Reads one byte from the start of `buf`.
pub fn _mach_read_from_1(buf: &[u8]) -> (r: u8)
    requires
        buf@.len() >= 1,
    ensures
        r == buf@[0],
        r == be_field(buf@, 0, 1),
{
    proof {
        let s = buf@.subrange(0, 1);
        assert(s.drop_last() =~= Seq::<u8>::empty());
        reveal_with_fuel(be_value, 2);
    }
    buf[0]
}

/// The offset of `off` within a block of size `align` (a power of two):
/// `off` with all bits from `align` upward cleared.
pub fn ut_align_offset(off: u32, align: u32) -> (r: u32)
    requires
        align >= 1,
    ensures
        r == off & ((align - 1) as u32),
        r <= off,
        r < align,
{
    let m: u32 = align - 1;
    proof {
        assert(off & m <= off) by (bit_vector);
        assert(off & m <= m) by (bit_vector);
    }
    off & m
}

/// For a block size of 16384 bytes, the offset within the block is the
/// remainder of the division by 16384.
pub proof fn lemma_align_offset_page(off: u32)
    ensures
        off & 16383u32 == off % 16384,
{
    assert(off & 16383u32 == off % 16384) by (bit_vector);
}

/// What `_mach_write_to_4` writes, `mach_read_from_4` reads back: the
/// 4-byte big-endian encoding of `n` decodes to `n`, and is the only
/// 4-byte sequence that does.
pub proof fn law_write_then_read_4(bytes: Seq<u8>, n: u32)
    requires
        bytes.len() == 4,
    ensures
        be_value(bytes) == n <==> (
            bytes[0] == (n >> 24u32) as u8
            && bytes[1] == (n >> 16u32) as u8
            && bytes[2] == (n >> 8u32) as u8
            && bytes[3] == n as u8
        ),
{
    lemma_be_value_4(bytes);
    let b0 = bytes[0];
    let b1 = bytes[1];
    let b2 = bytes[2];
    let b3 = bytes[3];
    assert(b0 * 0x1000000 + b1 * 0x10000 + b2 * 0x100 + b3 == n <==> (
        b0 == (n >> 24u32) as u8 && b1 == (n >> 16u32) as u8 && b2 == (n >> 8u32) as u8 && b3 == n as u8
    )) by (bit_vector);
}

} // verus!
