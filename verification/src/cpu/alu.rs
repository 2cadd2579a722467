//! The arithmetic and flag logic of the 6502.
//!
//! Every operation here reads and writes only the CPU registers; memory
//! traffic is the business of the addressing code.
use vstd::prelude::*;
use crate::cpu::{CpuState, STATUS_C, STATUS_Z, STATUS_N, STATUS_V, STATUS_UNUSED};

verus! {

/// Whether the bits of `mask` are set in `status`.
pub open spec fn flag(status: u8, mask: u8) -> bool {
    status & mask != 0
}

/// Bit 7 of a byte: the sign of the value read as a two's-complement number.
pub open spec fn negative(x: u8) -> bool {
    x >= 0x80
}

/// `new` agrees with `old` on every bit outside `mask`.
pub open spec fn same_outside(new: u8, old: u8, mask: u8) -> bool {
    new & !mask == old & !mask
}

/// The registers other than the status register are unchanged.
pub open spec fn regs_unchanged_but_status(new: CpuState, old: CpuState) -> bool {
    &&& new.a == old.a
    &&& new.x == old.x
    &&& new.y == old.y
    &&& new.pc == old.pc
    &&& new.sp == old.sp
    &&& new.pending_interrupt == old.pending_interrupt
    &&& new.cycles == old.cycles
}

/// Z and N after loading `val`: Z is set iff `val` is zero, N copies bit 7.
pub open spec fn load_flags_ok(new_status: u8, old_status: u8, val: u8) -> bool {
    &&& same_outside(new_status, old_status, 0x82)
    &&& flag(new_status, STATUS_Z) == (val == 0)
    &&& flag(new_status, STATUS_N) == negative(val)
}

/// Sets Z and N for a loaded value.
pub fn set_status_load(cpu: &mut CpuState, val: u8)
    ensures
        load_flags_ok(final(cpu).status, old(cpu).status, val),
        regs_unchanged_but_status(*final(cpu), *old(cpu)),
{
    let st = cpu.status;
    let z: u8 = if val == 0 { 1 } else { 0 };
    let new = (st & !(STATUS_Z | STATUS_N)) | (z << 1) | (val & STATUS_N);
    assert(same_outside(new, st, 0x82) && (flag(new, 0x02) == (z == 1))
        && (flag(new, 0x80) == (val >= 0x80))) by (bit_vector)
        requires
            new == (st & !(0x02u8 | 0x80u8)) | (z << 1) | (val & 0x80u8),
            z == 0 || z == 1,
    ;
    cpu.status = new;
}

/// Packs the status register for a push: the unused bit is set and the
/// break bit reports `status_b`.
pub open spec fn packed_status(status: u8, status_b: bool) -> u8 {
    (status | STATUS_UNUSED) | (if status_b { 0x10u8 } else { 0u8 })
}

pub fn status_pack(cpu: &CpuState, status_b: bool) -> (r: u8)
    ensures
        r == packed_status(cpu.status, status_b),
        r & 0x20 != 0,
        flag(r, 0x10) == (status_b || flag(cpu.status, 0x10)),
        same_outside(r, cpu.status, 0x30),
{
    let b: u8 = if status_b { 1 } else { 0 };
    let st = cpu.status;
    let r = st | STATUS_UNUSED | (b << 4);
    assert(r == (st | 0x20u8) | (if b == 1 { 0x10u8 } else { 0u8 }) && r & 0x20 != 0
        && (r & 0x10 != 0) == (b == 1 || st & 0x10 != 0) && r & !0x30u8 == st & !0x30u8)
        by (bit_vector)
        requires
            r == st | 0x20u8 | (b << 4),
            b == 0 || b == 1,
    ;
    r
}

/// The status register restored from a pulled byte: the break bit exists
/// only in pushed copies and reads as clear, the unused bit reads as set.
pub open spec fn unpacked_status(packed: u8) -> u8 {
    (packed & !0x10u8) | STATUS_UNUSED
}

/// Restores the status register from a pulled byte; the break bit is
/// dropped and the unused bit reads as set.
pub fn status_unpack(cpu: &mut CpuState, packed: u8)
    ensures
        final(cpu).status == unpacked_status(packed),
        final(cpu).status & 0x10 == 0,
        final(cpu).status & 0x20 != 0,
        same_outside(final(cpu).status, packed, 0x30),
        regs_unchanged_but_status(*final(cpu), *old(cpu)),
{
    let st = (packed & !0x10) | STATUS_UNUSED;
    assert(st & 0x10 == 0 && st & 0x20 != 0 && st & !0x30u8 == packed & !0x30u8) by (bit_vector)
        requires st == (packed & !0x10u8) | 0x20u8;
    cpu.status = st;
}

/// Add with carry: the sum modulo 256, carry out, and signed overflow.
pub fn compute_adc(cpu: &mut CpuState, data: u8) -> (r: u8)
    ensures
        r as int == (old(cpu).a + data + (if flag(old(cpu).status, STATUS_C) { 1int } else { 0 })) % 256,
        flag(final(cpu).status, STATUS_C) == (old(cpu).a + data
            + (if flag(old(cpu).status, STATUS_C) { 1int } else { 0 }) > 0xFF),
        flag(final(cpu).status, STATUS_V) == (negative(old(cpu).a) == negative(data)
            && negative(r) != negative(old(cpu).a)),
        same_outside(final(cpu).status, old(cpu).status, 0x41),
        regs_unchanged_but_status(*final(cpu), *old(cpu)),
{
    let a = cpu.a as u16;
    let b = data as u16;
    let st = cpu.status;
    let c = (st & STATUS_C) as u16;
    assert(c == (if st & 1 != 0 { 1u16 } else { 0u16 })) by (bit_vector)
        requires c == (st & 1u8) as u16;
    let result = a + b + c;
    let carry: u8 = if result > 0xFF { 1 } else { 0 };
    let ovf: u8 = if (a ^ b) & 0x80 == 0 && (a ^ result) & 0x80 != 0 { 1 } else { 0 };
    let new = (st & !(STATUS_C | STATUS_V)) | carry | (ovf << 6);
    let r = (result & 0xFF) as u8;
    assert(r as u16 == result % 256) by (bit_vector)
        requires r == (result & 0xFFu16) as u8;
    assert((ovf == 1) == ((a >= 0x80) == (b >= 0x80) && (r >= 0x80) != (a >= 0x80))) by (bit_vector)
        requires
            a < 256, b < 256, c < 2,
            result == a + b + c,
            r == (result & 0xFFu16) as u8,
            ovf == (if (a ^ b) & 0x80u16 == 0 && (a ^ result) & 0x80u16 != 0 { 1u8 } else { 0u8 }),
    ;
    assert(flag(new, 0x01) == (carry == 1) && flag(new, 0x40) == (ovf == 1)
        && same_outside(new, st, 0x41)) by (bit_vector)
        requires
            new == (st & !(0x01u8 | 0x40u8)) | carry | (ovf << 6),
            carry == 0 || carry == 1,
            ovf == 0 || ovf == 1,
    ;
    cpu.status = new;
    r
}

/// Subtract with borrow: the difference modulo 256, carry set when no borrow
/// occurred, and signed overflow.
pub fn compute_sbc(cpu: &mut CpuState, data: u8) -> (r: u8)
    ensures
        r as int == (old(cpu).a - data - (if flag(old(cpu).status, STATUS_C) { 0int } else { 1 })) % 256,
        flag(final(cpu).status, STATUS_C) == (old(cpu).a - data
            - (if flag(old(cpu).status, STATUS_C) { 0int } else { 1 }) >= 0),
        flag(final(cpu).status, STATUS_V) == (negative(old(cpu).a) != negative(data)
            && negative(r) != negative(old(cpu).a)),
        same_outside(final(cpu).status, old(cpu).status, 0x41),
        regs_unchanged_but_status(*final(cpu), *old(cpu)),
{
    let a = cpu.a as i16;
    let b = data as i16;
    let st = cpu.status;
    let cu = st & STATUS_C;
    assert(cu == (if st & 1 != 0 { 1u8 } else { 0u8 })) by (bit_vector)
        requires cu == st & 1u8;
    let c = cu as i16;
    let result = a - b - (1 - c);
    let carry: u8 = if result >= 0 { 1 } else { 0 };
    let ovf: u8 = if (a ^ b) & 0x80 != 0 && (a ^ result) & 0x80 != 0 { 1 } else { 0 };
    let new = (st & !(STATUS_C | STATUS_V)) | carry | (ovf << 6);
    let r = (result & 0xFF) as u8;
    let ua = cpu.a;
    assert(r as int == (ua - data - (1 - c)) % 256
        && ((ovf == 1) == ((ua >= 0x80) != (data >= 0x80) && (r >= 0x80) != (ua >= 0x80))))
        by (bit_vector)
        requires
            a == ua as i16, b == data as i16, c == 0 || c == 1,
            result == a - b - (1 - c),
            r == (result & 0xFFi16) as u8,
            ovf == (if (a ^ b) & 0x80i16 != 0 && (a ^ result) & 0x80i16 != 0 { 1u8 } else { 0u8 }),
    ;
    assert(flag(new, 0x01) == (carry == 1) && flag(new, 0x40) == (ovf == 1)
        && same_outside(new, st, 0x41)) by (bit_vector)
        requires
            new == (st & !(0x01u8 | 0x40u8)) | carry | (ovf << 6),
            carry == 0 || carry == 1,
            ovf == 0 || ovf == 1,
    ;
    cpu.status = new;
    r
}

/// BIT: Z from `a & data`, V and N copied from bits 6 and 7 of `data`.
pub fn compute_bit(cpu: &mut CpuState, data: u8)
    ensures
        flag(final(cpu).status, STATUS_Z) == (old(cpu).a & data == 0),
        flag(final(cpu).status, STATUS_V) == (data & 0x40 != 0),
        flag(final(cpu).status, STATUS_N) == negative(data),
        same_outside(final(cpu).status, old(cpu).status, 0xC2),
        regs_unchanged_but_status(*final(cpu), *old(cpu)),
{
    let st = cpu.status;
    let a = cpu.a;
    let z: u8 = if (a & data) == 0 { 1 } else { 0 };
    let v: u8 = if (data & 0x40) > 0 { 1 } else { 0 };
    let n: u8 = if (data & 0x80) > 0 { 1 } else { 0 };
    let new = (st & !(STATUS_Z | STATUS_V | STATUS_N)) | (z << 1) | (v << 6) | (n << 7);
    assert(flag(new, 0x02) == (z == 1) && flag(new, 0x40) == (v == 1) && flag(new, 0x80) == (n == 1)
        && same_outside(new, st, 0xC2) && ((data & 0x80 > 0) == (data >= 0x80))) by (bit_vector)
        requires
            new == (st & !(0x02u8 | 0x40u8 | 0x80u8)) | (z << 1) | (v << 6) | (n << 7),
            z == 0 || z == 1,
            v == 0 || v == 1,
            n == 0 || n == 1,
    ;
    cpu.status = new;
}

/// `x - y` modulo 256.
pub open spec fn byte_sub(x: u8, y: u8) -> u8 {
    ((x - y) % 256) as u8
}

/// Compare a register `z` with memory `m`: C iff `z >= m`, Z iff equal,
/// N from bit 7 of `z - m`.
pub fn compute_cmp(cpu: &mut CpuState, z: u8, m: u8)
    ensures
        flag(final(cpu).status, STATUS_C) == (z >= m),
        flag(final(cpu).status, STATUS_Z) == (z == m),
        flag(final(cpu).status, STATUS_N) == negative(byte_sub(z, m)),
        same_outside(final(cpu).status, old(cpu).status, 0x83),
        regs_unchanged_but_status(*final(cpu), *old(cpu)),
{
    let st = cpu.status;
    let c: u8 = if z >= m { 1 } else { 0 };
    let e: u8 = if z == m { 1 } else { 0 };
    let d = z.wrapping_sub(m);
    let n: u8 = if (d & 0x80) > 0 { 1 } else { 0 };
    let new = (st & !(STATUS_C | STATUS_Z | STATUS_N)) | c | (e << 1) | (n << 7);
    assert(d == byte_sub(z, m));
    assert(flag(new, 0x01) == (c == 1) && flag(new, 0x02) == (e == 1) && flag(new, 0x80) == (n == 1)
        && same_outside(new, st, 0x83) && ((d & 0x80 > 0) == (d >= 0x80))) by (bit_vector)
        requires
            new == (st & !(0x01u8 | 0x02u8 | 0x80u8)) | c | (e << 1) | (n << 7),
            c == 0 || c == 1,
            e == 0 || e == 1,
            n == 0 || n == 1,
    ;
    cpu.status = new;
}

/// Logical shift right: bit 0 goes to C.
pub fn compute_lsr(cpu: &mut CpuState, data: u8) -> (r: u8)
    ensures
        r == data / 2,
        flag(final(cpu).status, STATUS_C) == (data % 2 == 1),
        same_outside(final(cpu).status, old(cpu).status, 0x01),
        regs_unchanged_but_status(*final(cpu), *old(cpu)),
{
    let st = cpu.status;
    let new = (st & !STATUS_C) | (data & 1);
    assert(flag(new, 0x01) == (data % 2 == 1) && same_outside(new, st, 0x01)
        && data >> 1 == data / 2) by (bit_vector)
        requires new == (st & !0x01u8) | (data & 1u8);
    cpu.status = new;
    data >> 1
}

/// Arithmetic shift left: bit 7 goes to C.
pub fn compute_asl(cpu: &mut CpuState, data: u8) -> (r: u8)
    ensures
        r as int == (data * 2) % 256,
        flag(final(cpu).status, STATUS_C) == negative(data),
        same_outside(final(cpu).status, old(cpu).status, 0x01),
        regs_unchanged_but_status(*final(cpu), *old(cpu)),
{
    let st = cpu.status;
    let new = (st & !STATUS_C) | (data >> 7);
    let r = data << 1;
    assert(flag(new, 0x01) == (data >= 0x80) && same_outside(new, st, 0x01)
        && r as int == (data * 2) % 256) by (bit_vector)
        requires new == (st & !0x01u8) | (data >> 7u8), r == data << 1u8;
    cpu.status = new;
    r
}

/// Rotate left through carry.
pub fn compute_rol(cpu: &mut CpuState, data: u8) -> (r: u8)
    ensures
        r as int == (data * 2 + (if flag(old(cpu).status, STATUS_C) { 1int } else { 0 })) % 256,
        flag(final(cpu).status, STATUS_C) == negative(data),
        same_outside(final(cpu).status, old(cpu).status, 0x01),
        regs_unchanged_but_status(*final(cpu), *old(cpu)),
{
    let st = cpu.status;
    let r = (data << 1) | (st & STATUS_C);
    let new = (st & !STATUS_C) | (data >> 7);
    assert(flag(new, 0x01) == (data >= 0x80) && same_outside(new, st, 0x01)
        && r as int == (data * 2 + (if st & 1 != 0 { 1int } else { 0 })) % 256) by (bit_vector)
        requires new == (st & !0x01u8) | (data >> 7u8), r == (data << 1u8) | (st & 1u8);
    cpu.status = new;
    r
}

/// Rotate right through carry.
pub fn compute_ror(cpu: &mut CpuState, data: u8) -> (r: u8)
    ensures
        r as int == data / 2 + (if flag(old(cpu).status, STATUS_C) { 128int } else { 0 }),
        flag(final(cpu).status, STATUS_C) == (data % 2 == 1),
        same_outside(final(cpu).status, old(cpu).status, 0x01),
        regs_unchanged_but_status(*final(cpu), *old(cpu)),
{
    let st = cpu.status;
    let r = (data >> 1) | ((st & STATUS_C) << 7);
    let new = (st & !STATUS_C) | (data & 1);
    assert(flag(new, 0x01) == (data % 2 == 1) && same_outside(new, st, 0x01)
        && r as int == data / 2 + (if st & 1 != 0 { 128int } else { 0 })) by (bit_vector)
        requires new == (st & !0x01u8) | (data & 1u8), r == (data >> 1u8) | ((st & 1u8) << 7u8);
    cpu.status = new;
    r
}

} // verus!
