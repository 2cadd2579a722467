//! The instruction patterns of the interpreter: how each kind of
//! instruction reads, writes or modifies its operand, cycle by cycle.
use vstd::prelude::*;
use crate::bits::{lemma_addr_fields, lemma_status_merge, lemma_status_merge_carry};
use crate::nes::State;
use crate::cpu::alu::{
    flag, negative, same_outside, byte_sub, set_status_load, compute_adc, compute_sbc, compute_cmp, compute_bit, compute_asl, compute_lsr,
    compute_rol, compute_ror, load_flags_ok, regs_unchanged_but_status,
};
use crate::cpu::bus::{
    bus_step, same_but_pc, pc_plus, address_immediate, address_zero_page, address_zero_page_indexed,
    address_absolute, address_absolute_indexed, address_indexed_indirect, address_indirect_indexed,
    operand_word, indexed_address, ram_word,
};
use crate::cpu::CpuState;

verus! {

/// Where an instruction's operand is.
#[derive(Clone, Copy, Debug, PartialEq, Eq, Structural)]
pub enum Mode {
    Imm,
    Zero,
    ZeroX,
    ZeroY,
    Abs,
    AbsX,
    AbsY,
    IndX,
    IndY,
}

/// The number of operand bytes after the opcode.
pub open spec fn mode_len(m: Mode) -> int {
    match m {
        Mode::Abs | Mode::AbsX | Mode::AbsY => 2,
        _ => 1,
    }
}

/// The accumulator operations of the load group.
#[derive(Clone, Copy, Debug, PartialEq, Eq, Structural)]
pub enum AccOp {
    Lda,
    Adc,
    Sbc,
    And,
    Ora,
    Eor,
}

/// The read-modify-write operations.
#[derive(Clone, Copy, Debug, PartialEq, Eq, Structural)]
pub enum RmwOp {
    Asl,
    Lsr,
    Rol,
    Ror,
    Inc,
    Dec,
}

/// Every register but the program counter and the status is unchanged.
pub open spec fn same_but_pc_status(new: CpuState, old: CpuState) -> bool {
    &&& new.a == old.a
    &&& new.x == old.x
    &&& new.y == old.y
    &&& new.sp == old.sp
}

/// What an immediate or zero-page operand read from work RAM gives: the
/// byte after the opcode, or the zero-page byte it names.
pub open spec fn operand_read(mode: Mode, o: State, d: u8) -> bool {
    &&& mode == Mode::Imm && o.cpu.pc < 0x2000 ==> d == o.ram_at(o.cpu.pc)
    &&& mode == Mode::Zero && o.cpu.pc < 0x2000 ==> d == o.ram@[o.ram_at(o.cpu.pc) as int]
}

/// The address that an (zp,X) operand at the program counter names, its
/// pointer read from work RAM.
pub open spec fn indexed_indirect_address(s: State) -> u16 {
    ram_word(s, ((s.ram_at(s.cpu.pc) as u16 + s.cpu.x as u16) % 0x100) as u16)
}

/// The address that a (zp),Y operand at the program counter names, its
/// pointer read from work RAM.
pub open spec fn indirect_indexed_address(s: State) -> u16 {
    indexed_address(ram_word(s, s.ram_at(s.cpu.pc) as u16), s.cpu.y)
}

/// The address of the memory operand that `mode` names for the instruction
/// at the program counter, where the operand bytes and any pointer are in
/// work RAM.
pub open spec fn operand_address_at(mode: Mode, o: State) -> Option<u16> {
    let pc = o.cpu.pc;
    match mode {
        Mode::Imm => None,
        Mode::Zero => if pc < 0x2000 { Some(o.ram_at(pc) as u16) } else { None },
        Mode::ZeroX => if pc < 0x2000 { Some(((o.ram_at(pc) + o.cpu.x) % 0x100) as u16) } else { None },
        Mode::ZeroY => if pc < 0x2000 { Some(((o.ram_at(pc) + o.cpu.y) % 0x100) as u16) } else { None },
        Mode::Abs => if pc < 0x1FFF { Some(operand_word(o)) } else { None },
        Mode::AbsX => if pc < 0x1FFF { Some(indexed_address(operand_word(o), o.cpu.x)) } else { None },
        Mode::AbsY => if pc < 0x1FFF { Some(indexed_address(operand_word(o), o.cpu.y)) } else { None },
        Mode::IndX => if pc < 0x2000 { Some(indexed_indirect_address(o)) } else { None },
        Mode::IndY => if pc < 0x2000 { Some(indirect_indexed_address(o)) } else { None },
    }
}

/// The operand byte that `mode` reads for the instruction at the program
/// counter, where it comes from work RAM: the byte after the opcode for an
/// immediate operand, otherwise the byte at the operand's address.
pub open spec fn ram_operand(mode: Mode, o: State) -> Option<u8> {
    if mode == Mode::Imm {
        if o.cpu.pc < 0x2000 { Some(o.ram_at(o.cpu.pc)) } else { None }
    } else {
        match operand_address_at(mode, o) {
            Some(a) => if a < 0x2000 { Some(o.ram_at(a)) } else { None },
            None => None,
        }
    }
}

/// Reads an instruction's operand (read instructions).  Indexed reads that
/// cross a page read the unfixed address first.
pub fn fetch(s: &mut State, mode: Mode) -> (r: u8)
    requires
        old(s).wf(),
    ensures
        bus_step(*final(s), *old(s)),
        same_but_pc(final(s).cpu, old(s).cpu),
        final(s).cpu.pc == pc_plus(old(s).cpu.pc, mode_len(mode)),
        final(s).ram == old(s).ram,
        mode == Mode::Imm && old(s).cpu.pc < 0x2000 ==> r == old(s).ram_at(old(s).cpu.pc),
        mode == Mode::Zero && old(s).cpu.pc < 0x2000 ==> r == old(s).ram@[old(s).ram_at(old(s).cpu.pc) as int],
        mode == Mode::ZeroX && old(s).cpu.pc < 0x2000 ==> r == old(s).ram@[(old(s).ram_at(old(s).cpu.pc) + old(s).cpu.x) % 0x100],
        mode == Mode::ZeroY && old(s).cpu.pc < 0x2000 ==> r == old(s).ram@[(old(s).ram_at(old(s).cpu.pc) + old(s).cpu.y) % 0x100],
        mode == Mode::Abs && old(s).cpu.pc < 0x1FFF && operand_word(*old(s)) < 0x2000
            ==> r == old(s).ram_at(operand_word(*old(s))),
        mode == Mode::AbsX && old(s).cpu.pc < 0x1FFF && indexed_address(operand_word(*old(s)), old(s).cpu.x) < 0x2000
            ==> r == old(s).ram_at(indexed_address(operand_word(*old(s)), old(s).cpu.x)),
        mode == Mode::AbsY && old(s).cpu.pc < 0x1FFF && indexed_address(operand_word(*old(s)), old(s).cpu.y) < 0x2000
            ==> r == old(s).ram_at(indexed_address(operand_word(*old(s)), old(s).cpu.y)),
        mode == Mode::IndX && old(s).cpu.pc < 0x2000 && indexed_indirect_address(*old(s)) < 0x2000
            ==> r == old(s).ram_at(indexed_indirect_address(*old(s))),
        mode == Mode::IndY && old(s).cpu.pc < 0x2000 && indirect_indexed_address(*old(s)) < 0x2000
            ==> r == old(s).ram_at(indirect_indexed_address(*old(s))),
        ram_operand(mode, *old(s)) matches Some(v) ==> r == v,
{
    proof {
        if old(s).cpu.pc < 0x2000 {
            lemma_addr_fields(old(s).ram_at(old(s).cpu.pc) as u16);
            lemma_addr_fields(((old(s).ram_at(old(s).cpu.pc) + old(s).cpu.x) % 0x100) as u16);
            lemma_addr_fields(((old(s).ram_at(old(s).cpu.pc) + old(s).cpu.y) % 0x100) as u16);
        }
    }
    match mode {
        Mode::Imm => address_immediate(s),
        Mode::Zero => {
            let a = address_zero_page(s);
            proof { lemma_addr_fields(a); }
            s.cpu_peek(a)
        },
        Mode::ZeroX => {
            let x = s.cpu.x;
            let a = address_zero_page_indexed(s, x);
            proof { lemma_addr_fields(a); }
            s.cpu_peek(a)
        },
        Mode::ZeroY => {
            let y = s.cpu.y;
            let a = address_zero_page_indexed(s, y);
            proof { lemma_addr_fields(a); }
            s.cpu_peek(a)
        },
        Mode::Abs => {
            let a = address_absolute(s);
            s.cpu_peek(a)
        },
        Mode::AbsX | Mode::AbsY => {
            let idx = if mode == Mode::AbsX { s.cpu.x } else { s.cpu.y };
            let (initial, fixed) = address_absolute_indexed(s, idx);
            if initial == fixed {
                s.cpu_peek(initial)
            } else {
                s.cpu_peek(initial);
                s.cpu_peek(fixed)
            }
        },
        Mode::IndX => {
            let a = address_indexed_indirect(s);
            s.cpu_peek(a)
        },
        Mode::IndY => {
            let (initial, fixed) = address_indirect_indexed(s);
            if initial == fixed {
                s.cpu_peek(initial)
            } else {
                s.cpu_peek(initial);
                s.cpu_peek(fixed)
            }
        },
    }
}

/// Writes `data` to an instruction's operand (store instructions).
/// Indexed writes always read the unfixed address first.
pub fn store(s: &mut State, mode: Mode, data: u8)
    requires
        old(s).wf(),
        mode != Mode::Imm,
    ensures
        bus_step(*final(s), *old(s)),
        same_but_pc(final(s).cpu, old(s).cpu),
        final(s).cpu.pc == pc_plus(old(s).cpu.pc, mode_len(mode)),
        mode == Mode::Zero && old(s).cpu.pc < 0x2000 ==> final(s).ram@ == old(s).ram@.update(
            old(s).ram_at(old(s).cpu.pc) as int, data),
        mode == Mode::ZeroX && old(s).cpu.pc < 0x2000 ==> final(s).ram@ == old(s).ram@.update(
            (old(s).ram_at(old(s).cpu.pc) + old(s).cpu.x) % 0x100, data),
        mode == Mode::ZeroY && old(s).cpu.pc < 0x2000 ==> final(s).ram@ == old(s).ram@.update(
            (old(s).ram_at(old(s).cpu.pc) + old(s).cpu.y) % 0x100, data),
        mode == Mode::Abs && old(s).cpu.pc < 0x1FFF && operand_word(*old(s)) < 0x2000
            ==> final(s).ram@ == old(s).ram@.update((operand_word(*old(s)) & 0x7FF) as int, data),
        mode == Mode::AbsX && old(s).cpu.pc < 0x1FFF && indexed_address(operand_word(*old(s)), old(s).cpu.x) < 0x2000
            ==> final(s).ram@ == old(s).ram@.update(
                (indexed_address(operand_word(*old(s)), old(s).cpu.x) & 0x7FF) as int, data),
        mode == Mode::AbsY && old(s).cpu.pc < 0x1FFF && indexed_address(operand_word(*old(s)), old(s).cpu.y) < 0x2000
            ==> final(s).ram@ == old(s).ram@.update(
                (indexed_address(operand_word(*old(s)), old(s).cpu.y) & 0x7FF) as int, data),
        mode == Mode::IndX && old(s).cpu.pc < 0x2000 && indexed_indirect_address(*old(s)) < 0x2000
            ==> final(s).ram@ == old(s).ram@.update((indexed_indirect_address(*old(s)) & 0x7FF) as int, data),
        mode == Mode::IndY && old(s).cpu.pc < 0x2000 && indirect_indexed_address(*old(s)) < 0x2000
            ==> final(s).ram@ == old(s).ram@.update((indirect_indexed_address(*old(s)) & 0x7FF) as int, data),
{
    match mode {
        Mode::Zero => {
            let a = address_zero_page(s);
            proof { lemma_addr_fields(a); }
            s.cpu_poke(a, data);
        },
        Mode::ZeroX | Mode::ZeroY => {
            let idx = if mode == Mode::ZeroX { s.cpu.x } else { s.cpu.y };
            let a = address_zero_page_indexed(s, idx);
            proof { lemma_addr_fields(a); }
            s.cpu_poke(a, data);
        },
        Mode::Abs => {
            let a = address_absolute(s);
            s.cpu_poke(a, data);
        },
        Mode::AbsX | Mode::AbsY => {
            let idx = if mode == Mode::AbsX { s.cpu.x } else { s.cpu.y };
            let (initial, fixed) = address_absolute_indexed(s, idx);
            s.cpu_peek(initial);
            s.cpu_poke(fixed, data);
        },
        Mode::IndX => {
            let a = address_indexed_indirect(s);
            s.cpu_poke(a, data);
        },
        _ => {
            let (initial, fixed) = address_indirect_indexed(s);
            s.cpu_peek(initial);
            s.cpu_poke(fixed, data);
        },
    }
}

/// The byte a read-modify-write operation makes of `data`, with carry `c`
/// coming in for the rotations.
pub open spec fn rmw_value(op: RmwOp, data: u8, c: bool) -> u8 {
    match op {
        RmwOp::Asl => ((data * 2) % 256) as u8,
        RmwOp::Lsr => data / 2,
        RmwOp::Rol => ((data * 2 + (if c { 1int } else { 0 })) % 256) as u8,
        RmwOp::Ror => (data / 2 + (if c { 128int } else { 0 })) as u8,
        RmwOp::Inc => ((data + 1) % 256) as u8,
        RmwOp::Dec => ((data - 1) % 256) as u8,
    }
}

/// The status after a read-modify-write operation on `data`: the shifts
/// and rotations put the bit shifted out into the carry, increment and
/// decrement leave the status alone.
pub open spec fn rmw_status_ok(op: RmwOp, data: u8, new: u8, old: u8) -> bool {
    match op {
        RmwOp::Inc | RmwOp::Dec => new == old,
        RmwOp::Asl | RmwOp::Rol => flag(new, 0x01) == negative(data) && same_outside(new, old, 0x01),
        RmwOp::Lsr | RmwOp::Ror => flag(new, 0x01) == (data % 2 == 1) && same_outside(new, old, 0x01),
    }
}

/// The status after a read-modify-write instruction made `r` of `d`: Z and
/// N follow `r`, the shifts and rotations set C from the bit shifted out,
/// and nothing else changes.
pub open spec fn rmw_flags_ok(op: RmwOp, d: u8, r: u8, new: u8, old: u8) -> bool {
    &&& flag(new, 0x02) == (r == 0)
    &&& flag(new, 0x80) == negative(r)
    &&& (op == RmwOp::Inc || op == RmwOp::Dec) ==> same_outside(new, old, 0x82)
    &&& (op == RmwOp::Asl || op == RmwOp::Rol) ==> same_outside(new, old, 0x83) && flag(new, 0x01) == negative(d)
    &&& (op == RmwOp::Lsr || op == RmwOp::Ror) ==> same_outside(new, old, 0x83) && flag(new, 0x01) == (d % 2 == 1)
}

/// The value a read-modify-write operation computes; the shifts set the
/// carry, increment and decrement leave the flags alone.
pub fn apply_rmw(cpu: &mut CpuState, op: RmwOp, data: u8) -> (r: u8)
    ensures
        regs_unchanged_but_status(*final(cpu), *old(cpu)),
        r == rmw_value(op, data, flag(old(cpu).status, 0x01)),
        rmw_status_ok(op, data, final(cpu).status, old(cpu).status),
        op == RmwOp::Inc ==> r == data.wrapping_add(1) && final(cpu).status == old(cpu).status,
        op == RmwOp::Dec ==> r == data.wrapping_sub(1) && final(cpu).status == old(cpu).status,
        op == RmwOp::Asl ==> r as int == (data * 2) % 256,
        op == RmwOp::Lsr ==> r == data / 2,
{
    match op {
        RmwOp::Asl => compute_asl(cpu, data),
        RmwOp::Lsr => compute_lsr(cpu, data),
        RmwOp::Rol => compute_rol(cpu, data),
        RmwOp::Ror => compute_ror(cpu, data),
        RmwOp::Inc => data.wrapping_add(1),
        RmwOp::Dec => data.wrapping_sub(1),
    }
}

/// Reads an operand, computes `op` on it and writes the result back,
/// with the dummy cycles of each addressing mode: zero page spends one
/// internal cycle, absolute writes the old value back first, the indexed
/// and (zp),Y forms read the unfixed address and write the result twice.
/// Returns the result.
#[verifier::rlimit(60)]
pub fn rmw(s: &mut State, mode: Mode, op: RmwOp) -> (r: u8)
    requires
        old(s).wf(),
        mode != Mode::Imm,
    ensures
        bus_step(*final(s), *old(s)),
        same_but_pc_status(final(s).cpu, old(s).cpu),
        final(s).cpu.pc == pc_plus(old(s).cpu.pc, mode_len(mode)),
        op == RmwOp::Inc || op == RmwOp::Dec ==> final(s).cpu.status == old(s).cpu.status,
        same_outside(final(s).cpu.status, old(s).cpu.status, 0x01),
        mode == Mode::Zero && old(s).cpu.pc < 0x2000 ==> ({
            let zp = old(s).ram_at(old(s).cpu.pc) as int;
            &&& r == rmw_value(op, old(s).ram@[zp], flag(old(s).cpu.status, 0x01))
            &&& rmw_status_ok(op, old(s).ram@[zp], final(s).cpu.status, old(s).cpu.status)
            &&& final(s).ram@ == old(s).ram@.update(zp, r)
        }),
        operand_address_at(mode, *old(s)) matches Some(a) ==> (a < 0x2000 ==> ({
            &&& r == rmw_value(op, old(s).ram_at(a), flag(old(s).cpu.status, 0x01))
            &&& rmw_status_ok(op, old(s).ram_at(a), final(s).cpu.status, old(s).cpu.status)
            &&& final(s).ram@ == old(s).ram@.update((a & 0x7FF) as int, r)
        })),
{
    proof {
        if old(s).cpu.pc < 0x2000 {
            lemma_addr_fields(old(s).ram_at(old(s).cpu.pc) as u16);
        }
    }
    match mode {
        Mode::Zero | Mode::ZeroX | Mode::ZeroY => {
            let a = if mode == Mode::Zero {
                address_zero_page(s)
            } else {
                let idx = if mode == Mode::ZeroX { s.cpu.x } else { s.cpu.y };
                address_zero_page_indexed(s, idx)
            };
            proof { lemma_addr_fields(a); }
            let data = s.cpu_peek(a);
            s.cpu.cycles = s.cpu.cycles.wrapping_add(1);
            let result = apply_rmw(&mut s.cpu, op, data);
            s.cpu_poke(a, result);
            result
        },
        Mode::Abs => {
            let a = address_absolute(s);
            let data = s.cpu_peek(a);
            let ghost r0 = s.ram@;
            s.cpu_poke(a, data);
            let result = apply_rmw(&mut s.cpu, op, data);
            s.cpu_poke(a, result);
            proof {
                if a < 0x2000 {
                    lemma_addr_fields(a);
                    let i = (a & 0x7FF) as int;
                    assert(s.ram@ =~= r0.update(i, result));
                }
            }
            result
        },
        Mode::IndX => {
            let a = address_indexed_indirect(s);
            let data = s.cpu_peek(a);
            let result = apply_rmw(&mut s.cpu, op, data);
            s.cpu_poke(a, result);
            result
        },
        _ => {
            let (initial, fixed) = if mode == Mode::IndY {
                address_indirect_indexed(s)
            } else {
                let idx = if mode == Mode::AbsX { s.cpu.x } else { s.cpu.y };
                address_absolute_indexed(s, idx)
            };
            s.cpu_peek(initial);
            let data = s.cpu_peek(fixed);
            let ghost r0 = s.ram@;
            let result = apply_rmw(&mut s.cpu, op, data);
            s.cpu_poke(fixed, result);
            s.cpu_poke(fixed, result);
            proof {
                if fixed < 0x2000 {
                    lemma_addr_fields(fixed);
                    let i = (fixed & 0x7FF) as int;
                    assert(s.ram@ =~= r0.update(i, result));
                }
            }
            result
        },
    }
}

/// ASL, LSR, ROL, ROR, INC and DEC on memory: Z and N follow the result.
pub fn modify(s: &mut State, mode: Mode, op: RmwOp)
    requires
        old(s).wf(),
        mode != Mode::Imm,
    ensures
        bus_step(*final(s), *old(s)),
        same_but_pc_status(final(s).cpu, old(s).cpu),
        final(s).cpu.pc == pc_plus(old(s).cpu.pc, mode_len(mode)),
        same_outside(final(s).cpu.status, old(s).cpu.status, 0x83),
        mode == Mode::Zero && old(s).cpu.pc < 0x2000 ==> ({
            let zp = old(s).ram_at(old(s).cpu.pc) as int;
            let d = old(s).ram@[zp];
            let r = rmw_value(op, d, flag(old(s).cpu.status, 0x01));
            &&& final(s).ram@ == old(s).ram@.update(zp, r)
            &&& rmw_flags_ok(op, d, r, final(s).cpu.status, old(s).cpu.status)
        }),
        operand_address_at(mode, *old(s)) matches Some(a) ==> (a < 0x2000 ==> ({
            let d = old(s).ram_at(a);
            let r = rmw_value(op, d, flag(old(s).cpu.status, 0x01));
            &&& final(s).ram@ == old(s).ram@.update((a & 0x7FF) as int, r)
            &&& rmw_flags_ok(op, d, r, final(s).cpu.status, old(s).cpu.status)
        })),
{
    let ghost st0 = s.cpu.status;
    let result = rmw(s, mode, op);
    let ghost st1 = s.cpu.status;
    set_status_load(&mut s.cpu, result);
    proof { lemma_status_merge_carry(st0, st1, s.cpu.status); }
}

/// ASL, LSR, ROL and ROR on the accumulator, after a dummy read of the next
/// byte.
pub fn modify_acc(s: &mut State, op: RmwOp)
    requires
        old(s).wf(),
    ensures
        bus_step(*final(s), *old(s)),
        final(s).cpu.pc == old(s).cpu.pc,
        final(s).cpu.x == old(s).cpu.x && final(s).cpu.y == old(s).cpu.y && final(s).cpu.sp == old(s).cpu.sp,
        load_flags_ok(final(s).cpu.status, final(s).cpu.status, final(s).cpu.a),
        op == RmwOp::Asl ==> final(s).cpu.a as int == (old(s).cpu.a * 2) % 256,
        op == RmwOp::Lsr ==> final(s).cpu.a == old(s).cpu.a / 2,
        final(s).cpu.a == rmw_value(op, old(s).cpu.a, flag(old(s).cpu.status, 0x01)),
        rmw_flags_ok(op, old(s).cpu.a, final(s).cpu.a, final(s).cpu.status, old(s).cpu.status),
        old(s).cpu.pc < 0x2000 ==> final(s).ram == old(s).ram,
{
    let pc = s.cpu.pc;
    s.cpu_peek(pc);
    let data = s.cpu.a;
    let ghost st0 = s.cpu.status;
    let result = apply_rmw(&mut s.cpu, op, data);
    let ghost st1 = s.cpu.status;
    s.cpu.a = result;
    set_status_load(&mut s.cpu, result);
    proof { lemma_status_merge_carry(st0, st1, s.cpu.status); }
}

/// What an accumulator operation leaves in A, given A, the operand and
/// the status register before it.
pub open spec fn acc_value(op: AccOp, a: u8, d: u8, status: u8) -> u8 {
    match op {
        AccOp::Lda => d,
        AccOp::Adc => ((a + d + (if flag(status, 1) { 1int } else { 0 })) % 256) as u8,
        AccOp::Sbc => ((a - d - (if flag(status, 1) { 0int } else { 1 })) % 256) as u8,
        AccOp::And => a & d,
        AccOp::Ora => a | d,
        AccOp::Eor => a ^ d,
    }
}

/// The registers A, X, Y, SP and PC.
pub open spec fn regs(c: CpuState) -> (u8, u8, u8, u8, u16) {
    (c.a, c.x, c.y, c.sp, c.pc)
}

/// Whether `n` is `o` after accumulator operation `op` read operand `d`
/// in addressing mode `mode`: A takes the result and Z and N follow it,
/// ADC and SBC set C and V, the other registers and work RAM are kept,
/// and an immediate or zero-page `d` is the byte in work RAM.
#[verifier::opaque]
pub open spec fn acc_loaded(op: AccOp, mode: Mode, o: State, n: State, d: u8) -> bool {
    let c = o.cpu;
    let m = n.cpu;
    &&& regs(m) == (acc_value(op, c.a, d, c.status), c.x, c.y, c.sp, pc_plus(c.pc, mode_len(mode)))
    &&& flag(m.status, 0x02) == (m.a == 0)
    &&& flag(m.status, 0x80) == negative(m.a)
    &&& op != AccOp::Adc && op != AccOp::Sbc ==> same_outside(m.status, c.status, 0x82)
    &&& op == AccOp::Adc ==> same_outside(m.status, c.status, 0xC3)
        && flag(m.status, 0x01) == (c.a + d + (if flag(c.status, 0x01) { 1int } else { 0 }) > 0xFF)
        && flag(m.status, 0x40) == (negative(c.a) == negative(d) && negative(m.a) != negative(c.a))
    &&& op == AccOp::Sbc ==> same_outside(m.status, c.status, 0xC3)
        && flag(m.status, 0x01) == (c.a - d - (if flag(c.status, 0x01) { 0int } else { 1 }) >= 0)
        && flag(m.status, 0x40) == (negative(c.a) != negative(d) && negative(m.a) != negative(c.a))
    &&& n.ram == o.ram
    &&& operand_read(mode, o, d)
}

/// Whether `n` is `o` after comparing `reg` with operand `d` read in
/// addressing mode `mode`: C, Z and N as the subtraction sets them, the
/// registers and work RAM kept.
#[verifier::opaque]
pub open spec fn compared(mode: Mode, o: State, n: State, reg: u8, d: u8) -> bool {
    let c = o.cpu;
    let m = n.cpu;
    &&& regs(m) == (c.a, c.x, c.y, c.sp, pc_plus(c.pc, mode_len(mode)))
    &&& flag(m.status, 0x01) == (reg >= d)
    &&& flag(m.status, 0x02) == (reg == d)
    &&& flag(m.status, 0x80) == negative(byte_sub(reg, d))
    &&& same_outside(m.status, c.status, 0x83)
    &&& n.ram == o.ram
    &&& operand_read(mode, o, d)
}

/// LDA, ADC, SBC, AND, ORA and EOR: the accumulator gets the result and Z
/// and N follow it; ADC and SBC also set C and V.  Returns the operand.
pub fn load_a(s: &mut State, mode: Mode, op: AccOp) -> (d: u8)
    requires
        old(s).wf(),
    ensures
        bus_step(*final(s), *old(s)),
        final(s).cpu.pc == pc_plus(old(s).cpu.pc, mode_len(mode)),
        final(s).cpu.x == old(s).cpu.x && final(s).cpu.y == old(s).cpu.y && final(s).cpu.sp == old(s).cpu.sp,
        final(s).cpu.a == acc_value(op, old(s).cpu.a, d, old(s).cpu.status),
        flag(final(s).cpu.status, 0x02) == (final(s).cpu.a == 0),
        flag(final(s).cpu.status, 0x80) == negative(final(s).cpu.a),
        op != AccOp::Adc && op != AccOp::Sbc ==> same_outside(final(s).cpu.status, old(s).cpu.status, 0x82),
        op == AccOp::Adc ==> same_outside(final(s).cpu.status, old(s).cpu.status, 0xC3)
            && flag(final(s).cpu.status, 0x01) == (old(s).cpu.a + d
                + (if flag(old(s).cpu.status, 0x01) { 1int } else { 0 }) > 0xFF)
            && flag(final(s).cpu.status, 0x40) == (negative(old(s).cpu.a) == negative(d)
                && negative(final(s).cpu.a) != negative(old(s).cpu.a)),
        op == AccOp::Sbc ==> same_outside(final(s).cpu.status, old(s).cpu.status, 0xC3)
            && flag(final(s).cpu.status, 0x01) == (old(s).cpu.a - d
                - (if flag(old(s).cpu.status, 0x01) { 0int } else { 1 }) >= 0)
            && flag(final(s).cpu.status, 0x40) == (negative(old(s).cpu.a) != negative(d)
                && negative(final(s).cpu.a) != negative(old(s).cpu.a)),
        mode == Mode::Imm && old(s).cpu.pc < 0x2000 ==> d == old(s).ram_at(old(s).cpu.pc),
        mode == Mode::Zero && old(s).cpu.pc < 0x2000 ==> d == old(s).ram@[old(s).ram_at(old(s).cpu.pc) as int],
        final(s).ram == old(s).ram,
        acc_loaded(op, mode, *old(s), *final(s), d),
        ram_operand(mode, *old(s)) matches Some(v) ==> d == v,
{
    proof { reveal(acc_loaded); }
    let ghost st0 = s.cpu.status;
    let data = fetch(s, mode);
    let a = s.cpu.a;
    let result = match op {
        AccOp::Lda => data,
        AccOp::Adc => compute_adc(&mut s.cpu, data),
        AccOp::Sbc => compute_sbc(&mut s.cpu, data),
        AccOp::And => a & data,
        AccOp::Ora => a | data,
        AccOp::Eor => a ^ data,
    };
    let ghost st1 = s.cpu.status;
    s.cpu.a = result;
    set_status_load(&mut s.cpu, result);
    proof {
        lemma_status_merge(st0, st1, s.cpu.status);
    }
    data
}

/// LDX: X gets the operand, Z and N follow it.  Returns the operand.
pub fn load_x(s: &mut State, mode: Mode) -> (d: u8)
    requires
        old(s).wf(),
    ensures
        bus_step(*final(s), *old(s)),
        final(s).cpu.pc == pc_plus(old(s).cpu.pc, mode_len(mode)),
        final(s).cpu.a == old(s).cpu.a && final(s).cpu.y == old(s).cpu.y && final(s).cpu.sp == old(s).cpu.sp,
        final(s).cpu.x == d,
        load_flags_ok(final(s).cpu.status, old(s).cpu.status, d),
        operand_read(mode, *old(s), d),
        final(s).ram == old(s).ram,
        ram_operand(mode, *old(s)) matches Some(v) ==> d == v,
{
    let data = fetch(s, mode);
    s.cpu.x = data;
    set_status_load(&mut s.cpu, data);
    data
}

/// LDY: Y gets the operand, Z and N follow it.  Returns the operand.
pub fn load_y(s: &mut State, mode: Mode) -> (d: u8)
    requires
        old(s).wf(),
    ensures
        bus_step(*final(s), *old(s)),
        final(s).cpu.pc == pc_plus(old(s).cpu.pc, mode_len(mode)),
        final(s).cpu.a == old(s).cpu.a && final(s).cpu.x == old(s).cpu.x && final(s).cpu.sp == old(s).cpu.sp,
        final(s).cpu.y == d,
        load_flags_ok(final(s).cpu.status, old(s).cpu.status, d),
        operand_read(mode, *old(s), d),
        final(s).ram == old(s).ram,
        ram_operand(mode, *old(s)) matches Some(v) ==> d == v,
{
    let data = fetch(s, mode);
    s.cpu.y = data;
    set_status_load(&mut s.cpu, data);
    data
}

/// CMP, CPX and CPY: compares `reg` with the operand.  Returns the
/// operand.
pub fn compare(s: &mut State, mode: Mode, reg: u8) -> (d: u8)
    requires
        old(s).wf(),
    ensures
        bus_step(*final(s), *old(s)),
        same_but_pc_status(final(s).cpu, old(s).cpu),
        final(s).cpu.pc == pc_plus(old(s).cpu.pc, mode_len(mode)),
        flag(final(s).cpu.status, 0x01) == (reg >= d),
        flag(final(s).cpu.status, 0x02) == (reg == d),
        flag(final(s).cpu.status, 0x80) == negative(byte_sub(reg, d)),
        same_outside(final(s).cpu.status, old(s).cpu.status, 0x83),
        operand_read(mode, *old(s), d),
        final(s).ram == old(s).ram,
        compared(mode, *old(s), *final(s), reg, d),
        ram_operand(mode, *old(s)) matches Some(v) ==> d == v,
{
    proof { reveal(compared); }
    let data = fetch(s, mode);
    compute_cmp(&mut s.cpu, reg, data);
    data
}

/// BIT: Z from A AND operand, V and N from the operand's top bits.
/// Returns the operand.
pub fn bit_test(s: &mut State, mode: Mode) -> (d: u8)
    requires
        old(s).wf(),
    ensures
        bus_step(*final(s), *old(s)),
        same_but_pc_status(final(s).cpu, old(s).cpu),
        final(s).cpu.pc == pc_plus(old(s).cpu.pc, mode_len(mode)),
        flag(final(s).cpu.status, 0x02) == (old(s).cpu.a & d == 0),
        flag(final(s).cpu.status, 0x40) == (d & 0x40 != 0),
        flag(final(s).cpu.status, 0x80) == negative(d),
        same_outside(final(s).cpu.status, old(s).cpu.status, 0xC2),
        operand_read(mode, *old(s), d),
        final(s).ram == old(s).ram,
        ram_operand(mode, *old(s)) matches Some(v) ==> d == v,
{
    let data = fetch(s, mode);
    compute_bit(&mut s.cpu, data);
    data
}

/// LAX: A and X both get the operand.  Returns the operand.
pub fn lax(s: &mut State, mode: Mode) -> (d: u8)
    requires
        old(s).wf(),
    ensures
        bus_step(*final(s), *old(s)),
        final(s).cpu.pc == pc_plus(old(s).cpu.pc, mode_len(mode)),
        final(s).cpu.a == d && final(s).cpu.x == d,
        final(s).cpu.y == old(s).cpu.y && final(s).cpu.sp == old(s).cpu.sp,
        load_flags_ok(final(s).cpu.status, old(s).cpu.status, d),
        operand_read(mode, *old(s), d),
        final(s).ram == old(s).ram,
        ram_operand(mode, *old(s)) matches Some(v) ==> d == v,
{
    let data = fetch(s, mode);
    s.cpu.a = data;
    s.cpu.x = data;
    set_status_load(&mut s.cpu, data);
    data
}

/// DCP: decrements memory, then compares A with the result.
pub fn dcp(s: &mut State, mode: Mode)
    requires
        old(s).wf(),
        mode != Mode::Imm,
    ensures
        bus_step(*final(s), *old(s)),
        same_but_pc_status(final(s).cpu, old(s).cpu),
        final(s).cpu.pc == pc_plus(old(s).cpu.pc, mode_len(mode)),
{
    let result = rmw(s, mode, RmwOp::Dec);
    let a = s.cpu.a;
    compute_cmp(&mut s.cpu, a, result);
}

/// Whether `n` is `o` after ISC in mode `mode` incremented the operand to
/// `r`: A takes A minus `r` with borrow, Z, N and C follow, X, Y and SP are
/// kept, and a zero-page operand is incremented in work RAM.
#[verifier::opaque]
pub open spec fn isc_done(mode: Mode, o: State, n: State, r: u8) -> bool {
    let c = o.cpu;
    let m = n.cpu;
    &&& m.x == c.x && m.y == c.y && m.sp == c.sp
    &&& m.a == acc_value(AccOp::Sbc, c.a, r, c.status)
    &&& flag(m.status, 0x02) == (m.a == 0)
    &&& flag(m.status, 0x80) == negative(m.a)
    &&& flag(m.status, 0x01) == (c.a - r - (if flag(c.status, 0x01) { 0int } else { 1 }) >= 0)
    &&& same_outside(m.status, c.status, 0xC3)
    &&& mode == Mode::Zero && c.pc < 0x2000 ==> ({
        let zp = o.ram_at(c.pc) as int;
        &&& r == rmw_value(RmwOp::Inc, o.ram@[zp], false)
        &&& n.ram@ == o.ram@.update(zp, r)
    })
}

/// Whether `n` is `o` after RRA in mode `mode` rotated the operand to
/// `r.0` with carry `r.1` shifted out: A takes A plus `r.0` plus that
/// carry, Z, N and C follow, X, Y and SP are kept, and a zero-page operand
/// is rotated in work RAM.
#[verifier::opaque]
pub open spec fn rra_done(mode: Mode, o: State, n: State, r: (u8, bool)) -> bool {
    let c = o.cpu;
    let m = n.cpu;
    &&& m.x == c.x && m.y == c.y && m.sp == c.sp
    &&& m.a as int == (c.a + r.0 + (if r.1 { 1int } else { 0 })) % 256
    &&& flag(m.status, 0x02) == (m.a == 0)
    &&& flag(m.status, 0x80) == negative(m.a)
    &&& flag(m.status, 0x01) == (c.a + r.0 + (if r.1 { 1int } else { 0 }) > 0xFF)
    &&& same_outside(m.status, c.status, 0xC3)
    &&& mode == Mode::Zero && c.pc < 0x2000 ==> ({
        let zp = o.ram_at(c.pc) as int;
        &&& r.0 == rmw_value(RmwOp::Ror, o.ram@[zp], flag(c.status, 0x01))
        &&& r.1 == (o.ram@[zp] % 2 == 1)
        &&& n.ram@ == o.ram@.update(zp, r.0)
    })
}

/// ISC: increments memory, then subtracts the result from A with borrow;
/// A takes the difference and Z and N follow it.  Returns the incremented
/// byte.
pub fn isc(s: &mut State, mode: Mode) -> (r: u8)
    requires
        old(s).wf(),
        mode != Mode::Imm,
    ensures
        bus_step(*final(s), *old(s)),
        final(s).cpu.pc == pc_plus(old(s).cpu.pc, mode_len(mode)),
        isc_done(mode, *old(s), *final(s), r),
{
    proof { reveal(isc_done); }
    let result = rmw(s, mode, RmwOp::Inc);
    let ghost st0 = s.cpu.status;
    let diff = compute_sbc(&mut s.cpu, result);
    let ghost st1 = s.cpu.status;
    s.cpu.a = diff;
    set_status_load(&mut s.cpu, diff);
    proof { lemma_status_merge(st0, st1, s.cpu.status); }
    result
}

/// SLO, SRE and RLA: shifts or rotates memory, then ORs, XORs or ANDs the
/// result into A.
pub fn shift_combine(s: &mut State, mode: Mode, op: RmwOp)
    requires
        old(s).wf(),
        mode != Mode::Imm,
        op == RmwOp::Asl || op == RmwOp::Lsr || op == RmwOp::Rol,
    ensures
        bus_step(*final(s), *old(s)),
        final(s).cpu.pc == pc_plus(old(s).cpu.pc, mode_len(mode)),
        final(s).cpu.x == old(s).cpu.x && final(s).cpu.y == old(s).cpu.y && final(s).cpu.sp == old(s).cpu.sp,
        load_flags_ok(final(s).cpu.status, final(s).cpu.status, final(s).cpu.a),
{
    let result = rmw(s, mode, op);
    let a = s.cpu.a;
    let combined = match op {
        RmwOp::Asl => a | result,
        RmwOp::Lsr => a ^ result,
        _ => a & result,
    };
    s.cpu.a = combined;
    set_status_load(&mut s.cpu, combined);
}

/// RRA: rotates memory right, then adds the result to A with the carry
/// that the rotation shifted out; A takes the sum and Z and N follow it.
/// Returns the rotated byte and that carry.
pub fn rra(s: &mut State, mode: Mode) -> (r: (u8, bool))
    requires
        old(s).wf(),
        mode != Mode::Imm,
    ensures
        bus_step(*final(s), *old(s)),
        final(s).cpu.pc == pc_plus(old(s).cpu.pc, mode_len(mode)),
        rra_done(mode, *old(s), *final(s), r),
{
    proof { reveal(rra_done); }
    let result = rmw(s, mode, RmwOp::Ror);
    let carry = s.cpu.status & 0x01 != 0;
    let ghost st0 = s.cpu.status;
    let sum = compute_adc(&mut s.cpu, result);
    let ghost st1 = s.cpu.status;
    s.cpu.a = sum;
    set_status_load(&mut s.cpu, sum);
    proof {
        lemma_status_merge(st0, st1, s.cpu.status);
        let st2 = s.cpu.status;
        let st = old(s).cpu.status;
        assert(st0 & !0x01u8 == st & !0x01u8 && st2 & !0xC3u8 == st0 & !0xC3u8
            ==> st2 & !0xC3u8 == st & !0xC3u8) by (bit_vector);
    }
    (result, carry)
}

/// TAS, SHA, SHX and SHY: stores `value AND (high byte of the address +
/// 1)`, reading the unfixed address first when the index crosses a page.
pub fn store_high(s: &mut State, mode: Mode, value: u8)
    requires
        old(s).wf(),
        mode == Mode::AbsX || mode == Mode::AbsY || mode == Mode::IndY,
    ensures
        bus_step(*final(s), *old(s)),
        same_but_pc(final(s).cpu, old(s).cpu),
        final(s).cpu.pc == pc_plus(old(s).cpu.pc, mode_len(mode)),
{
    let (initial, fixed) = if mode == Mode::IndY {
        address_indirect_indexed(s)
    } else {
        let idx = if mode == Mode::AbsX { s.cpu.x } else { s.cpu.y };
        address_absolute_indexed(s, idx)
    };
    let high = ((fixed >> 8) as u8).wrapping_add(1);
    let val = value & high;
    if initial != fixed {
        s.cpu_peek(initial);
    }
    s.cpu_poke(fixed, val);
}

/// A dummy read of the byte after the opcode, as single-byte instructions do.
pub fn dummy_read(s: &mut State)
    requires
        old(s).wf(),
    ensures
        bus_step(*final(s), *old(s)),
        crate::nes::same_registers(final(s).cpu, old(s).cpu),
        final(s).ram == old(s).ram,
        final(s).cpu.cycles == crate::nes::next_cycle(old(s).cpu.cycles),
        old(s).cpu.pc < 0x2000 ==> *final(s) == (State {
            cpu: CpuState { cycles: crate::nes::next_cycle(old(s).cpu.cycles), ..old(s).cpu },
            ..*old(s)
        }),
{
    let pc = s.cpu.pc;
    s.cpu_peek(pc);
}

} // verus!
