//! Facts about masks and shifts, proved once by bit-blasting and used
//! wherever a register or an address is split into fields.
use vstd::prelude::*;

verus! {

/// A bitwise AND is at most either operand, at every width, and the low
/// bit of a counter is its parity.
pub proof fn lemma_and_bounds()
    by (bit_vector)
    ensures
        forall|x: u8, m: u8| #[trigger] (x & m) <= x && (x & m) <= m,
        forall|x: u16, m: u16| #[trigger] (x & m) <= x && (x & m) <= m,
        forall|x: u32, m: u32| #[trigger] (x & m) <= x && (x & m) <= m,
        forall|x: u64, m: u64| #[trigger] (x & m) <= x && (x & m) <= m,
        forall|x: usize, m: usize| #[trigger] (x & m) <= x && (x & m) <= m,
{
}

/// The parity of a 64-bit counter is its low bit.
pub proof fn lemma_parity(x: u64)
    by (bit_vector)
    ensures
        x & 1 == x % 2,
{
}

/// The fields that the boards and the picture unit cut out of a 16-bit
/// address: bank selectors, offsets, and the scroll register's parts.
pub proof fn lemma_addr_fields(a: u16)
    by (bit_vector)
    ensures
        a & 1 == 0 || a & 1 == 1,
        (a & 0x0FFF) >> 10 < 4,
        (a & 0x6000) >> 13 < 4,
        (a & 0x3FF) | ((a & 0x800) >> 1) < 0x800,
        0x400 | (a & 0x3FF) < 0x800,
        a <= 0x7FFF ==> a >> 13 < 4,
        a <= 0x1FFF ==> a >> 10 < 8 && (a & 0xFC00) >> 10 < 8,
        a <= 0x1FFF ==> ((a & 0x1C00) >> 10) * 0x400 + (a & 0x3FF) == a,
        a <= 0x0FFF || a > 0x1FFF ==> a & 0xFFF8 != 0x1FD8 && a & 0xFFF8 != 0x1FE8,
        a & 0x7000 != 0x7000 ==> a < 0xF000,
        a & 0x1F != 31 ==> a < 0xFFFF,
        (a & 0x03E0) >> 5 <= 31,
        ((a >> 4) & 4) | (a & 2) < 16,
        (a & 3) << 2u16 <= 12,
        a < 0x100 ==> a < 0x2000 && a & 0x7FF == a,
        a & 0x7FF < 0x800,
        a & 0xFF == a % 256,
        a & 1 == a % 2,
        a & 7 == a % 8,
        (a >> 8) & 0xFF == a / 256,
        (a >> 8) & 0xFF == a >> 8,
{
}

/// The fields of a register byte: the bit groups that a write selects and
/// the single bits that it sets.
pub proof fn lemma_byte_fields(x: u8)
    by (bit_vector)
    ensures
        x >> 7 <= 1,
        (x & 0x80) >> 7 == x >> 7,
        x >> 6 < 4,
        (x & 0xC0) >> 6 == x >> 6,
        (x & 0x70) >> 4 == (x >> 4) & 0x7,
        x >> 3 < 32,
        (x & 0xF8) as u16 >> 3u16 == (x >> 3) as u16,
        x >> 1 == x / 2,
        x & 3 == x % 4,
        (x & 0x80 > 0) == (x >= 0x80),
        (x & 1 > 0) == (x & 1 != 0),
        ((x >> 1) & 1 > 0) == (x & 2 != 0),
        ((x >> 2) & 1 > 0) == (x & 4 != 0),
        ((x >> 3) & 1 > 0) == (x & 8 != 0),
        ((x >> 4) & 1 > 0) == (x & 0x10 != 0),
        ((x >> 5) & 1 > 0) == (x & 0x20 != 0),
        ((x >> 6) & 1 > 0) == (x & 0x40 != 0),
        ((x >> 7) & 1 > 0) == (x & 0x80 != 0),
        ((x >> 7) & 1 > 0) == (x >> 7 == 1),
{
}

/// A 16-bit word put together from a low and a high byte gives them
/// back.
pub proof fn lemma_word_bytes(lo: u16, hi: u16)
    by (bit_vector)
    requires
        lo < 256,
        hi < 256,
    ensures
        (lo | (hi << 8)) % 256 == lo,
        (lo | (hi << 8)) / 256 == hi,
        (hi << 8) | lo == lo | (hi << 8),
{
}

/// A status register changed only in C and then outside Z and N has
/// changed only in those three flags, and C is as the first change left it.
pub proof fn lemma_status_merge_carry(before: u8, mid: u8, after: u8)
    by (bit_vector)
    requires
        mid & !0x01u8 == before & !0x01u8,
        after & !0x82u8 == mid & !0x82u8,
    ensures
        after & !0x83u8 == before & !0x83u8,
        (after & 0x01u8 != 0) == (mid & 0x01u8 != 0),
{
}

/// A status register changed outside C and V and then outside Z and N
/// has changed only in those four flags, and C and V are as the first
/// change left them.
pub proof fn lemma_status_merge(before: u8, mid: u8, after: u8)
    by (bit_vector)
    requires
        mid & !0x41u8 == before & !0x41u8,
        after & !0x82u8 == mid & !0x82u8,
    ensures
        after & !0xC3u8 == before & !0xC3u8,
        (after & 0x01u8 != 0) == (mid & 0x01u8 != 0),
        (after & 0x40u8 != 0) == (mid & 0x40u8 != 0),
{
}

} // verus!
