//! The opcode table of the interpreter: every opcode of the 6502, the
//! undocumented ones included, grouped by the two low bits of the opcode.
use vstd::prelude::*;
use crate::bits::{lemma_and_bounds, lemma_byte_fields};
use crate::nes::State;
use crate::mapper::Mapper;
use crate::cpu::{CpuState, STATUS_C, STATUS_Z, STATUS_I, STATUS_D, STATUS_V, STATUS_N};
use crate::cpu::alu::{
    set_status_load, status_pack, status_unpack, compute_cmp, compute_sbc, compute_lsr, compute_ror, flag, negative,
    same_outside, byte_sub, load_flags_ok, packed_status, unpacked_status,
};
use crate::cpu::bus::{
    bus_step, address_absolute, address_indirect, address_immediate, stack_push, stack_pull, vector_brk,
    do_branch, do_wrapping_add, pc_plus, stack_slot, ram_word, operand_word, word_of,
};
use crate::cpu::exec::{
    regs, acc_loaded, compared, mode_len, rmw_value, rmw_flags_ok, rra_done, isc_done, Mode, AccOp, RmwOp, fetch, store, modify, modify_acc, load_a, load_x, load_y, compare, bit_test, lax, dcp,
    isc, shift_combine, rra, store_high, dummy_read,
};

verus! {

/// The byte after the opcode, read from work RAM.
pub open spec fn operand_byte(s: State) -> u8 {
    s.ram_at(s.cpu.pc)
}

/// The work-RAM byte that a zero-page operand names.
pub open spec fn zero_page_byte(s: State) -> u8 {
    s.ram@[operand_byte(s) as int]
}

/// The byte on the stack `k` slots above the stack pointer.
pub open spec fn stack_byte(s: State, k: int) -> u8 {
    s.ram@[stack_slot(((s.cpu.sp + k) % 256) as u8)]
}

/// Whether control opcode `op` is a conditional branch that `status` makes
/// taken.
pub open spec fn branch_taken(op: u8, status: u8) -> bool {
    match op {
        0x10 => !flag(status, STATUS_N),
        0x30 => flag(status, STATUS_N),
        0x50 => !flag(status, STATUS_V),
        0x70 => flag(status, STATUS_V),
        0x90 => !flag(status, STATUS_C),
        0xB0 => flag(status, STATUS_C),
        0xD0 => !flag(status, STATUS_Z),
        _ => flag(status, STATUS_Z),
    }
}

/// The conditional branches.
pub open spec fn is_branch(op: u8) -> bool {
    op == 0x10 || op == 0x30 || op == 0x50 || op == 0x70 || op == 0x90 || op == 0xB0 || op == 0xD0 || op == 0xF0
}

/// The operand length of a control-group opcode that only reads and
/// discards an operand (the undocumented NOPs).
pub open spec fn nop_len(op: u8) -> int {
    if op == 0x0C || op == 0x1C || op == 0x3C || op == 0x5C || op == 0x7C || op == 0xDC || op == 0xFC { 2 } else { 1 }
}

/// Whether control opcode `op` is one of the undocumented NOPs.
pub open spec fn is_control_nop(op: u8) -> bool {
    op == 0x04 || op == 0x0C || op == 0x14 || op == 0x1C || op == 0x34 || op == 0x3C || op == 0x44
        || op == 0x54 || op == 0x5C || op == 0x64 || op == 0x74 || op == 0x7C || op == 0x80
        || op == 0xD4 || op == 0xDC || op == 0xF4 || op == 0xFC
}

/// The status after a flag instruction of the control group.
pub open spec fn flag_op_status(op: u8, st: u8) -> u8 {
    match op {
        0x18 => st & !STATUS_C,
        0x38 => st | STATUS_C,
        0x58 => st & !STATUS_I,
        0x78 => st | STATUS_I,
        0xB8 => st & !STATUS_V,
        0xD8 => st & !STATUS_D,
        _ => st | STATUS_D,
    }
}

/// What a control-group opcode (low bits 00) does to the registers and
/// work RAM, given state `o` with the program counter just past the opcode
/// and the operand bytes in work RAM; `n` is the state after it.  Operand
/// values are stated where they come from work RAM (immediate and zero
/// page); the BRK vector's high byte, absolute-mode operand values and the
/// SHY store are not.
#[verifier::opaque]
pub open spec fn control_effect(op: u8, o: State, n: State) -> bool {
    let c = o.cpu;
    let st = c.status;
    let m = n.cpu;
    if op == 0x00 {
        let ret = pc_plus(c.pc, 1);
        &&& m.a == c.a && m.x == c.x && m.y == c.y
        &&& m.sp == ((c.sp - 3) % 256) as u8
        &&& m.status == st | STATUS_I
        &&& n.ram@ == o.ram@.update(stack_slot(c.sp), (ret >> 8) as u8)
            .update(stack_slot(((c.sp - 1) % 256) as u8), (ret & 0xFF) as u8)
            .update(stack_slot(((c.sp - 2) % 256) as u8), packed_status(st, true))
        &&& m.pc as int % 256 == o.mapper.peek_value(0xFFFE)
    } else if op == 0x08 || op == 0x48 {
        &&& regs(m) == (c.a, c.x, c.y, ((c.sp - 1) % 256) as u8, c.pc)
        &&& m.status == st
        &&& n.ram@ == o.ram@.update(stack_slot(c.sp), if op == 0x08 { packed_status(st, true) } else { c.a })
    } else if op == 0x28 {
        &&& regs(m) == (c.a, c.x, c.y, ((c.sp + 1) % 256) as u8, c.pc)
        &&& m.status == unpacked_status(stack_byte(o, 1))
        &&& n.ram == o.ram
    } else if op == 0x68 {
        &&& regs(m) == (stack_byte(o, 1), c.x, c.y, ((c.sp + 1) % 256) as u8, c.pc)
        &&& load_flags_ok(m.status, st, stack_byte(o, 1))
        &&& n.ram == o.ram
    } else if op == 0x40 {
        &&& regs(m) == (c.a, c.x, c.y, ((c.sp + 3) % 256) as u8, word_of(stack_byte(o, 2), stack_byte(o, 3)))
        &&& m.status == unpacked_status(stack_byte(o, 1))
        &&& n.ram == o.ram
    } else if op == 0x60 {
        &&& regs(m) == (c.a, c.x, c.y, ((c.sp + 2) % 256) as u8,
            pc_plus(word_of(stack_byte(o, 1), stack_byte(o, 2)), 1))
        &&& m.status == st
        &&& n.ram == o.ram
    } else if op == 0x20 {
        let ret = pc_plus(c.pc, 1);
        &&& regs(m) == (c.a, c.x, c.y, ((c.sp - 2) % 256) as u8, operand_word(o))
        &&& m.status == st
        &&& n.ram@ == o.ram@.update(stack_slot(c.sp), (ret >> 8) as u8)
            .update(stack_slot(((c.sp - 1) % 256) as u8), (ret & 0xFF) as u8)
    } else if op == 0x4C {
        &&& regs(m) == (c.a, c.x, c.y, c.sp, operand_word(o))
        &&& m.status == st
        &&& n.ram == o.ram
    } else if op == 0x6C {
        &&& m.a == c.a && m.x == c.x && m.y == c.y && m.sp == c.sp
        &&& m.status == st
        &&& n.ram == o.ram
        &&& operand_word(o) < 0x2000 ==> m.pc == ram_word(o, operand_word(o))
    } else if is_branch(op) {
        &&& regs(m) == (c.a, c.x, c.y, c.sp, if branch_taken(op, st) {
            pc_plus(pc_plus(c.pc, 1), operand_byte(o) as i8 as int)
        } else {
            pc_plus(c.pc, 1)
        })
        &&& m.status == st
        &&& n.ram == o.ram
    } else if op == 0x18 || op == 0x38 || op == 0x58 || op == 0x78 || op == 0xB8 || op == 0xD8 || op == 0xF8 {
        &&& regs(m) == regs(c)
        &&& m.status == flag_op_status(op, st)
        &&& n.ram == o.ram
    } else if op == 0x88 || op == 0xC8 || op == 0xE8 {
        let v: u8 = if op == 0x88 { ((c.y - 1) % 256) as u8 } else if op == 0xC8 { ((c.y + 1) % 256) as u8 } else { ((c.x + 1) % 256) as u8 };
        &&& regs(m) == (c.a, if op == 0xE8 { v } else { c.x }, if op == 0xE8 { c.y } else { v }, c.sp, c.pc)
        &&& load_flags_ok(m.status, st, v)
        &&& n.ram == o.ram
    } else if op == 0x98 {
        &&& regs(m) == (c.y, c.x, c.y, c.sp, c.pc)
        &&& load_flags_ok(m.status, st, c.y)
        &&& n.ram == o.ram
    } else if op == 0xA8 {
        &&& regs(m) == (c.a, c.x, c.a, c.sp, c.pc)
        &&& load_flags_ok(m.status, st, c.a)
        &&& n.ram == o.ram
    } else if op == 0xA0 || op == 0xA4 || op == 0xAC || op == 0xB4 || op == 0xBC {
        &&& m.a == c.a && m.x == c.x && m.sp == c.sp
        &&& m.pc == pc_plus(c.pc, if op == 0xAC || op == 0xBC { 2 } else { 1 })
        &&& load_flags_ok(m.status, st, m.y)
        &&& n.ram == o.ram
        &&& op == 0xA0 ==> m.y == operand_byte(o)
        &&& op == 0xA4 ==> m.y == zero_page_byte(o)
    } else if op == 0xC0 || op == 0xC4 || op == 0xCC || op == 0xE0 || op == 0xE4 || op == 0xEC {
        let reg = if op >= 0xE0 { c.x } else { c.y };
        &&& regs(m) == (c.a, c.x, c.y, c.sp, pc_plus(c.pc, if op == 0xCC || op == 0xEC { 2 } else { 1 }))
        &&& same_outside(m.status, st, 0x83)
        &&& n.ram == o.ram
        &&& (op == 0xC0 || op == 0xE0 || op == 0xC4 || op == 0xE4) ==> {
            let d = if op == 0xC0 || op == 0xE0 { operand_byte(o) } else { zero_page_byte(o) };
            &&& flag(m.status, 0x01) == (reg >= d)
            &&& flag(m.status, 0x02) == (reg == d)
            &&& flag(m.status, 0x80) == negative(byte_sub(reg, d))
        }
    } else if op == 0x24 || op == 0x2C {
        &&& regs(m) == (c.a, c.x, c.y, c.sp, pc_plus(c.pc, if op == 0x2C { 2 } else { 1 }))
        &&& same_outside(m.status, st, 0xC2)
        &&& n.ram == o.ram
        &&& op == 0x24 ==> {
            let d = zero_page_byte(o);
            &&& flag(m.status, 0x02) == (c.a & d == 0)
            &&& flag(m.status, 0x40) == (d & 0x40 != 0)
            &&& flag(m.status, 0x80) == negative(d)
        }
    } else if op == 0x84 || op == 0x8C || op == 0x94 || op == 0x9C {
        &&& regs(m) == (c.a, c.x, c.y, c.sp, pc_plus(c.pc, if op == 0x8C || op == 0x9C { 2 } else { 1 }))
        &&& m.status == st
        &&& op == 0x84 ==> n.ram@ == o.ram@.update(operand_byte(o) as int, c.y)
    } else {
        &&& regs(m) == (c.a, c.x, c.y, c.sp, pc_plus(c.pc, nop_len(op)))
        &&& m.status == st
        &&& n.ram == o.ram
    }
}

/// Each opcode group, by its two low bits, as the list of its opcodes.
proof fn lemma_opcode_groups(op: u8)
    by (bit_vector)
    ensures
        op & 3 == 0 ==> op == 0x00 || op == 0x04 || op == 0x08 || op == 0x0C || op == 0x10 || op == 0x14 || op == 0x18 || op == 0x1C || op == 0x20 || op == 0x24 || op == 0x28 || op == 0x2C || op == 0x30 || op == 0x34 || op == 0x38 || op == 0x3C || op == 0x40 || op == 0x44 || op == 0x48 || op == 0x4C || op == 0x50 || op == 0x54 || op == 0x58 || op == 0x5C || op == 0x60 || op == 0x64 || op == 0x68 || op == 0x6C || op == 0x70 || op == 0x74 || op == 0x78 || op == 0x7C || op == 0x80 || op == 0x84 || op == 0x88 || op == 0x8C || op == 0x90 || op == 0x94 || op == 0x98 || op == 0x9C || op == 0xA0 || op == 0xA4 || op == 0xA8 || op == 0xAC || op == 0xB0 || op == 0xB4 || op == 0xB8 || op == 0xBC || op == 0xC0 || op == 0xC4 || op == 0xC8 || op == 0xCC || op == 0xD0 || op == 0xD4 || op == 0xD8 || op == 0xDC || op == 0xE0 || op == 0xE4 || op == 0xE8 || op == 0xEC || op == 0xF0 || op == 0xF4 || op == 0xF8 || op == 0xFC,
        op & 3 == 1 ==> op == 0x01 || op == 0x05 || op == 0x09 || op == 0x0D || op == 0x11 || op == 0x15 || op == 0x19 || op == 0x1D || op == 0x21 || op == 0x25 || op == 0x29 || op == 0x2D || op == 0x31 || op == 0x35 || op == 0x39 || op == 0x3D || op == 0x41 || op == 0x45 || op == 0x49 || op == 0x4D || op == 0x51 || op == 0x55 || op == 0x59 || op == 0x5D || op == 0x61 || op == 0x65 || op == 0x69 || op == 0x6D || op == 0x71 || op == 0x75 || op == 0x79 || op == 0x7D || op == 0x81 || op == 0x85 || op == 0x89 || op == 0x8D || op == 0x91 || op == 0x95 || op == 0x99 || op == 0x9D || op == 0xA1 || op == 0xA5 || op == 0xA9 || op == 0xAD || op == 0xB1 || op == 0xB5 || op == 0xB9 || op == 0xBD || op == 0xC1 || op == 0xC5 || op == 0xC9 || op == 0xCD || op == 0xD1 || op == 0xD5 || op == 0xD9 || op == 0xDD || op == 0xE1 || op == 0xE5 || op == 0xE9 || op == 0xED || op == 0xF1 || op == 0xF5 || op == 0xF9 || op == 0xFD,
        op & 3 == 2 ==> op == 0x02 || op == 0x06 || op == 0x0A || op == 0x0E || op == 0x12 || op == 0x16 || op == 0x1A || op == 0x1E || op == 0x22 || op == 0x26 || op == 0x2A || op == 0x2E || op == 0x32 || op == 0x36 || op == 0x3A || op == 0x3E || op == 0x42 || op == 0x46 || op == 0x4A || op == 0x4E || op == 0x52 || op == 0x56 || op == 0x5A || op == 0x5E || op == 0x62 || op == 0x66 || op == 0x6A || op == 0x6E || op == 0x72 || op == 0x76 || op == 0x7A || op == 0x7E || op == 0x82 || op == 0x86 || op == 0x8A || op == 0x8E || op == 0x92 || op == 0x96 || op == 0x9A || op == 0x9E || op == 0xA2 || op == 0xA6 || op == 0xAA || op == 0xAE || op == 0xB2 || op == 0xB6 || op == 0xBA || op == 0xBE || op == 0xC2 || op == 0xC6 || op == 0xCA || op == 0xCE || op == 0xD2 || op == 0xD6 || op == 0xDA || op == 0xDE || op == 0xE2 || op == 0xE6 || op == 0xEA || op == 0xEE || op == 0xF2 || op == 0xF6 || op == 0xFA || op == 0xFE,
        op & 3 == 3 ==> op == 0x03 || op == 0x07 || op == 0x0B || op == 0x0F || op == 0x13 || op == 0x17 || op == 0x1B || op == 0x1F || op == 0x23 || op == 0x27 || op == 0x2B || op == 0x2F || op == 0x33 || op == 0x37 || op == 0x3B || op == 0x3F || op == 0x43 || op == 0x47 || op == 0x4B || op == 0x4F || op == 0x53 || op == 0x57 || op == 0x5B || op == 0x5F || op == 0x63 || op == 0x67 || op == 0x6B || op == 0x6F || op == 0x73 || op == 0x77 || op == 0x7B || op == 0x7F || op == 0x83 || op == 0x87 || op == 0x8B || op == 0x8F || op == 0x93 || op == 0x97 || op == 0x9B || op == 0x9F || op == 0xA3 || op == 0xA7 || op == 0xAB || op == 0xAF || op == 0xB3 || op == 0xB7 || op == 0xBB || op == 0xBF || op == 0xC3 || op == 0xC7 || op == 0xCB || op == 0xCF || op == 0xD3 || op == 0xD7 || op == 0xDB || op == 0xDF || op == 0xE3 || op == 0xE7 || op == 0xEB || op == 0xEF || op == 0xF3 || op == 0xF7 || op == 0xFB || op == 0xFF,
{
}

/// Opcodes ending in binary 00: branches, jumps, the stack, flags, and the
/// Y and X compares; split by the top bit of the opcode.
fn execute_control(s: &mut State, opcode: u8)
    requires
        old(s).wf(),
        opcode & 3 == 0,
    ensures
        bus_step(*final(s), *old(s)),
        old(s).cpu.pc < 0x1FFF ==> control_effect(opcode, *old(s), *final(s)),
{
    if opcode < 0x80 {
        execute_control_low(s, opcode);
    } else {
        execute_control_high(s, opcode);
    }
}

/// Control-group opcodes below 0x80: BRK, the stack, jumps, subroutine
/// calls and returns, and the first half of the branches and flag
/// instructions.
#[verifier::rlimit(100)]
#[verifier::spinoff_prover]
fn execute_control_low(s: &mut State, opcode: u8)
    requires
        old(s).wf(),
        opcode & 3 == 0,
        opcode < 0x80,
    ensures
        bus_step(*final(s), *old(s)),
        old(s).cpu.pc < 0x1FFF ==> control_effect(opcode, *old(s), *final(s)),
{
    match opcode {
        0x00 => {
            dummy_read(s);
            let pc = s.cpu.pc.wrapping_add(1);
            s.cpu.pc = pc;
            stack_push(s, (pc >> 8) as u8);
            stack_push(s, (pc & 0xFF) as u8);
            let st = status_pack(&s.cpu, true);
            stack_push(s, st);
            let target = vector_brk(s);
            s.cpu.pc = target;
            s.cpu.status = s.cpu.status | STATUS_I;
            proof { if old(s).cpu.pc < 0x1FFF { assert(control_effect(opcode, *old(s), *s)) by { reveal(control_effect); } } }
        },
        0x04 => {
            fetch(s, Mode::Zero);
            proof { if old(s).cpu.pc < 0x1FFF { assert(control_effect(opcode, *old(s), *s)) by { reveal(control_effect); } } }
        },
        0x08 => {
            dummy_read(s);
            let st = status_pack(&s.cpu, true);
            stack_push(s, st);
            proof { if old(s).cpu.pc < 0x1FFF { assert(control_effect(opcode, *old(s), *s)) by { reveal(control_effect); } } }
        },
        0x0C => {
            fetch(s, Mode::Abs);
            proof { if old(s).cpu.pc < 0x1FFF { assert(control_effect(opcode, *old(s), *s)) by { reveal(control_effect); } } }
        },
        0x10 => {
            let taken = s.cpu.status & STATUS_N == 0;
            do_branch(s, taken);
            proof { if old(s).cpu.pc < 0x1FFF { assert(control_effect(opcode, *old(s), *s)) by { reveal(control_effect); } } }
        },
        0x14 => {
            fetch(s, Mode::ZeroX);
            proof { if old(s).cpu.pc < 0x1FFF { assert(control_effect(opcode, *old(s), *s)) by { reveal(control_effect); } } }
        },
        0x18 => {
            s.cpu.status = s.cpu.status & !STATUS_C;
            s.cpu.cycles = s.cpu.cycles.wrapping_add(1);
            proof { if old(s).cpu.pc < 0x1FFF { assert(control_effect(opcode, *old(s), *s)) by { reveal(control_effect); } } }
        },
        0x1C => {
            fetch(s, Mode::AbsX);
            proof { if old(s).cpu.pc < 0x1FFF { assert(control_effect(opcode, *old(s), *s)) by { reveal(control_effect); } } }
        },
        0x20 => {
            let addr = address_absolute(s);
            let pc_store = s.cpu.pc.wrapping_sub(1);
            stack_push(s, (pc_store >> 8) as u8);
            stack_push(s, (pc_store & 0xFF) as u8);
            s.cpu.cycles = s.cpu.cycles.wrapping_add(1);
            s.cpu.pc = addr;
            proof { if old(s).cpu.pc < 0x1FFF { assert(control_effect(opcode, *old(s), *s)) by { reveal(control_effect); } } }
        },
        0x24 => {
            bit_test(s, Mode::Zero);
            proof { if old(s).cpu.pc < 0x1FFF { assert(control_effect(opcode, *old(s), *s)) by { reveal(control_effect); } } }
        },
        0x28 => {
            dummy_read(s);
            s.cpu.cycles = s.cpu.cycles.wrapping_add(1);
            let st = stack_pull(s);
            status_unpack(&mut s.cpu, st);
            proof { if old(s).cpu.pc < 0x1FFF { assert(control_effect(opcode, *old(s), *s)) by { reveal(control_effect); } } }
        },
        0x2C => {
            bit_test(s, Mode::Abs);
            proof { if old(s).cpu.pc < 0x1FFF { assert(control_effect(opcode, *old(s), *s)) by { reveal(control_effect); } } }
        },
        0x30 => {
            let taken = s.cpu.status & STATUS_N != 0;
            do_branch(s, taken);
            proof { if old(s).cpu.pc < 0x1FFF { assert(control_effect(opcode, *old(s), *s)) by { reveal(control_effect); } } }
        },
        0x34 => {
            fetch(s, Mode::ZeroX);
            proof { if old(s).cpu.pc < 0x1FFF { assert(control_effect(opcode, *old(s), *s)) by { reveal(control_effect); } } }
        },
        0x38 => {
            s.cpu.status = s.cpu.status | STATUS_C;
            s.cpu.cycles = s.cpu.cycles.wrapping_add(1);
            proof { if old(s).cpu.pc < 0x1FFF { assert(control_effect(opcode, *old(s), *s)) by { reveal(control_effect); } } }
        },
        0x3C => {
            fetch(s, Mode::AbsX);
            proof { if old(s).cpu.pc < 0x1FFF { assert(control_effect(opcode, *old(s), *s)) by { reveal(control_effect); } } }
        },
        0x40 => {
            dummy_read(s);
            s.cpu.cycles = s.cpu.cycles.wrapping_add(1);
            let st = stack_pull(s);
            status_unpack(&mut s.cpu, st);
            let lo = stack_pull(s) as u16;
            let hi = stack_pull(s) as u16;
            s.cpu.pc = (hi << 8) | lo;
            proof { if old(s).cpu.pc < 0x1FFF { assert(control_effect(opcode, *old(s), *s)) by { reveal(control_effect); } } }
        },
        0x44 => {
            fetch(s, Mode::Zero);
            proof { if old(s).cpu.pc < 0x1FFF { assert(control_effect(opcode, *old(s), *s)) by { reveal(control_effect); } } }
        },
        0x48 => {
            dummy_read(s);
            let a = s.cpu.a;
            stack_push(s, a);
            proof { if old(s).cpu.pc < 0x1FFF { assert(control_effect(opcode, *old(s), *s)) by { reveal(control_effect); } } }
        },
        0x4C => {
            let addr = address_absolute(s);
            s.cpu.pc = addr;
            proof { if old(s).cpu.pc < 0x1FFF { assert(control_effect(opcode, *old(s), *s)) by { reveal(control_effect); } } }
        },
        0x50 => {
            let taken = s.cpu.status & STATUS_V == 0;
            do_branch(s, taken);
            proof { if old(s).cpu.pc < 0x1FFF { assert(control_effect(opcode, *old(s), *s)) by { reveal(control_effect); } } }
        },
        0x54 => {
            fetch(s, Mode::ZeroX);
            proof { if old(s).cpu.pc < 0x1FFF { assert(control_effect(opcode, *old(s), *s)) by { reveal(control_effect); } } }
        },
        0x58 => {
            s.cpu.status = s.cpu.status & !STATUS_I;
            s.cpu.cycles = s.cpu.cycles.wrapping_add(1);
            proof { if old(s).cpu.pc < 0x1FFF { assert(control_effect(opcode, *old(s), *s)) by { reveal(control_effect); } } }
        },
        0x5C => {
            fetch(s, Mode::AbsX);
            proof { if old(s).cpu.pc < 0x1FFF { assert(control_effect(opcode, *old(s), *s)) by { reveal(control_effect); } } }
        },
        0x60 => {
            dummy_read(s);
            s.cpu.cycles = s.cpu.cycles.wrapping_add(1);
            let lo = stack_pull(s) as u16;
            let hi = stack_pull(s) as u16;
            s.cpu.pc = (hi << 8) | lo;
            dummy_read(s);
            s.cpu.pc = s.cpu.pc.wrapping_add(1);
            proof { if old(s).cpu.pc < 0x1FFF { assert(control_effect(opcode, *old(s), *s)) by { reveal(control_effect); } } }
        },
        0x64 => {
            fetch(s, Mode::Zero);
            proof { if old(s).cpu.pc < 0x1FFF { assert(control_effect(opcode, *old(s), *s)) by { reveal(control_effect); } } }
        },
        0x68 => {
            dummy_read(s);
            s.cpu.cycles = s.cpu.cycles.wrapping_add(1);
            let v = stack_pull(s);
            s.cpu.a = v;
            set_status_load(&mut s.cpu, v);
            proof { if old(s).cpu.pc < 0x1FFF { assert(control_effect(opcode, *old(s), *s)) by { reveal(control_effect); } } }
        },
        0x6C => {
            let addr = address_indirect(s);
            s.cpu.pc = addr;
            proof { if old(s).cpu.pc < 0x1FFF { assert(control_effect(opcode, *old(s), *s)) by { reveal(control_effect); } } }
        },
        0x70 => {
            let taken = s.cpu.status & STATUS_V != 0;
            do_branch(s, taken);
            proof { if old(s).cpu.pc < 0x1FFF { assert(control_effect(opcode, *old(s), *s)) by { reveal(control_effect); } } }
        },
        0x74 => {
            fetch(s, Mode::ZeroX);
            proof { if old(s).cpu.pc < 0x1FFF { assert(control_effect(opcode, *old(s), *s)) by { reveal(control_effect); } } }
        },
        0x78 => {
            s.cpu.status = s.cpu.status | STATUS_I;
            s.cpu.cycles = s.cpu.cycles.wrapping_add(1);
            proof { if old(s).cpu.pc < 0x1FFF { assert(control_effect(opcode, *old(s), *s)) by { reveal(control_effect); } } }
        },
        0x7C => {
            fetch(s, Mode::AbsX);
            proof { if old(s).cpu.pc < 0x1FFF { assert(control_effect(opcode, *old(s), *s)) by { reveal(control_effect); } } }
        },
        _ => {
            proof { lemma_opcode_groups(opcode); }
        },
    }
}

/// Control-group opcodes from 0x80 up: the Y loads, stores and compares,
/// X compares, transfers, and the rest of the branches and flags.
#[verifier::rlimit(100)]
#[verifier::spinoff_prover]
fn execute_control_high(s: &mut State, opcode: u8)
    requires
        old(s).wf(),
        opcode & 3 == 0,
        opcode >= 0x80,
    ensures
        bus_step(*final(s), *old(s)),
        old(s).cpu.pc < 0x1FFF ==> control_effect(opcode, *old(s), *final(s)),
{
    match opcode {
        0x80 => {
            fetch(s, Mode::Imm);
            proof { if old(s).cpu.pc < 0x1FFF { assert(control_effect(opcode, *old(s), *s)) by { reveal(control_effect); } } }
        },
        0x84 => {
            let v = s.cpu.y;
            store(s, Mode::Zero, v);
            proof { if old(s).cpu.pc < 0x1FFF { assert(control_effect(opcode, *old(s), *s)) by { reveal(control_effect); } } }
        },
        0x88 => {
            dummy_read(s);
            let y = s.cpu.y;
            let r = do_wrapping_add(s, y, -1);
            assert((-1i8) as u8 == 255u8) by (bit_vector);
            s.cpu.y = r;
            proof { if old(s).cpu.pc < 0x1FFF { assert(control_effect(opcode, *old(s), *s)) by { reveal(control_effect); } } }
        },
        0x8C => {
            let v = s.cpu.y;
            store(s, Mode::Abs, v);
            proof { if old(s).cpu.pc < 0x1FFF { assert(control_effect(opcode, *old(s), *s)) by { reveal(control_effect); } } }
        },
        0x90 => {
            let taken = s.cpu.status & STATUS_C == 0;
            do_branch(s, taken);
            proof { if old(s).cpu.pc < 0x1FFF { assert(control_effect(opcode, *old(s), *s)) by { reveal(control_effect); } } }
        },
        0x94 => {
            let v = s.cpu.y;
            store(s, Mode::ZeroX, v);
            proof { if old(s).cpu.pc < 0x1FFF { assert(control_effect(opcode, *old(s), *s)) by { reveal(control_effect); } } }
        },
        0x98 => {
            s.cpu.a = s.cpu.y;
            s.cpu.cycles = s.cpu.cycles.wrapping_add(1);
            let v = s.cpu.a;
            set_status_load(&mut s.cpu, v);
            proof { if old(s).cpu.pc < 0x1FFF { assert(control_effect(opcode, *old(s), *s)) by { reveal(control_effect); } } }
        },
        0x9C => {
            let v = s.cpu.y;
            store_high(s, Mode::AbsX, v);
            proof { if old(s).cpu.pc < 0x1FFF { assert(control_effect(opcode, *old(s), *s)) by { reveal(control_effect); } } }
        },
        0xA0 => {
            load_y(s, Mode::Imm);
            proof { if old(s).cpu.pc < 0x1FFF { assert(control_effect(opcode, *old(s), *s)) by { reveal(control_effect); } } }
        },
        0xA4 => {
            load_y(s, Mode::Zero);
            proof { if old(s).cpu.pc < 0x1FFF { assert(control_effect(opcode, *old(s), *s)) by { reveal(control_effect); } } }
        },
        0xA8 => {
            s.cpu.y = s.cpu.a;
            s.cpu.cycles = s.cpu.cycles.wrapping_add(1);
            let v = s.cpu.y;
            set_status_load(&mut s.cpu, v);
            proof { if old(s).cpu.pc < 0x1FFF { assert(control_effect(opcode, *old(s), *s)) by { reveal(control_effect); } } }
        },
        0xAC => {
            load_y(s, Mode::Abs);
            proof { if old(s).cpu.pc < 0x1FFF { assert(control_effect(opcode, *old(s), *s)) by { reveal(control_effect); } } }
        },
        0xB0 => {
            let taken = s.cpu.status & STATUS_C != 0;
            do_branch(s, taken);
            proof { if old(s).cpu.pc < 0x1FFF { assert(control_effect(opcode, *old(s), *s)) by { reveal(control_effect); } } }
        },
        0xB4 => {
            load_y(s, Mode::ZeroX);
            proof { if old(s).cpu.pc < 0x1FFF { assert(control_effect(opcode, *old(s), *s)) by { reveal(control_effect); } } }
        },
        0xB8 => {
            s.cpu.status = s.cpu.status & !STATUS_V;
            s.cpu.cycles = s.cpu.cycles.wrapping_add(1);
            proof { if old(s).cpu.pc < 0x1FFF { assert(control_effect(opcode, *old(s), *s)) by { reveal(control_effect); } } }
        },
        0xBC => {
            load_y(s, Mode::AbsX);
            proof { if old(s).cpu.pc < 0x1FFF { assert(control_effect(opcode, *old(s), *s)) by { reveal(control_effect); } } }
        },
        0xC0 => {
            let y = s.cpu.y;
            compare(s, Mode::Imm, y);
            proof { if old(s).cpu.pc < 0x1FFF { assert(control_effect(opcode, *old(s), *s)) by { reveal(control_effect); } } }
        },
        0xC4 => {
            let y = s.cpu.y;
            compare(s, Mode::Zero, y);
            proof { if old(s).cpu.pc < 0x1FFF { assert(control_effect(opcode, *old(s), *s)) by { reveal(control_effect); } } }
        },
        0xC8 => {
            dummy_read(s);
            let y = s.cpu.y;
            let r = do_wrapping_add(s, y, 1);
            s.cpu.y = r;
            proof { if old(s).cpu.pc < 0x1FFF { assert(control_effect(opcode, *old(s), *s)) by { reveal(control_effect); } } }
        },
        0xCC => {
            let y = s.cpu.y;
            compare(s, Mode::Abs, y);
            proof { if old(s).cpu.pc < 0x1FFF { assert(control_effect(opcode, *old(s), *s)) by { reveal(control_effect); } } }
        },
        0xD0 => {
            let taken = s.cpu.status & STATUS_Z == 0;
            do_branch(s, taken);
            proof { if old(s).cpu.pc < 0x1FFF { assert(control_effect(opcode, *old(s), *s)) by { reveal(control_effect); } } }
        },
        0xD4 => {
            fetch(s, Mode::ZeroX);
            proof { if old(s).cpu.pc < 0x1FFF { assert(control_effect(opcode, *old(s), *s)) by { reveal(control_effect); } } }
        },
        0xD8 => {
            s.cpu.status = s.cpu.status & !STATUS_D;
            s.cpu.cycles = s.cpu.cycles.wrapping_add(1);
            proof { if old(s).cpu.pc < 0x1FFF { assert(control_effect(opcode, *old(s), *s)) by { reveal(control_effect); } } }
        },
        0xDC => {
            fetch(s, Mode::AbsX);
            proof { if old(s).cpu.pc < 0x1FFF { assert(control_effect(opcode, *old(s), *s)) by { reveal(control_effect); } } }
        },
        0xE0 => {
            let x = s.cpu.x;
            compare(s, Mode::Imm, x);
            proof { if old(s).cpu.pc < 0x1FFF { assert(control_effect(opcode, *old(s), *s)) by { reveal(control_effect); } } }
        },
        0xE4 => {
            let x = s.cpu.x;
            compare(s, Mode::Zero, x);
            proof { if old(s).cpu.pc < 0x1FFF { assert(control_effect(opcode, *old(s), *s)) by { reveal(control_effect); } } }
        },
        0xE8 => {
            dummy_read(s);
            let x = s.cpu.x;
            let r = do_wrapping_add(s, x, 1);
            s.cpu.x = r;
            proof { if old(s).cpu.pc < 0x1FFF { assert(control_effect(opcode, *old(s), *s)) by { reveal(control_effect); } } }
        },
        0xEC => {
            let x = s.cpu.x;
            compare(s, Mode::Abs, x);
            proof { if old(s).cpu.pc < 0x1FFF { assert(control_effect(opcode, *old(s), *s)) by { reveal(control_effect); } } }
        },
        0xF0 => {
            let taken = s.cpu.status & STATUS_Z != 0;
            do_branch(s, taken);
            proof { if old(s).cpu.pc < 0x1FFF { assert(control_effect(opcode, *old(s), *s)) by { reveal(control_effect); } } }
        },
        0xF4 => {
            fetch(s, Mode::ZeroX);
            proof { if old(s).cpu.pc < 0x1FFF { assert(control_effect(opcode, *old(s), *s)) by { reveal(control_effect); } } }
        },
        0xF8 => {
            s.cpu.status = s.cpu.status | STATUS_D;
            s.cpu.cycles = s.cpu.cycles.wrapping_add(1);
            proof { if old(s).cpu.pc < 0x1FFF { assert(control_effect(opcode, *old(s), *s)) by { reveal(control_effect); } } }
        },
        0xFC => {
            fetch(s, Mode::AbsX);
            proof { if old(s).cpu.pc < 0x1FFF { assert(control_effect(opcode, *old(s), *s)) by { reveal(control_effect); } } }
        },
        _ => {
            proof { lemma_opcode_groups(opcode); }
        },
    }
}

/// The addressing mode of an accumulator-group opcode (low bits 01),
/// from bits 2 to 4.
pub open spec fn alu_mode(op: u8) -> Mode {
    let k = (op / 4) % 8;
    if k == 0 {
        Mode::IndX
    } else if k == 1 {
        Mode::Zero
    } else if k == 2 {
        Mode::Imm
    } else if k == 3 {
        Mode::Abs
    } else if k == 4 {
        Mode::IndY
    } else if k == 5 {
        Mode::ZeroX
    } else if k == 6 {
        Mode::AbsY
    } else {
        Mode::AbsX
    }
}

/// The accumulator operation of an accumulator-group opcode, from its top
/// three bits (STA and CMP aside).
pub open spec fn alu_acc_op(op: u8) -> AccOp {
    let g = op / 32;
    if g == 0 {
        AccOp::Ora
    } else if g == 1 {
        AccOp::And
    } else if g == 2 {
        AccOp::Eor
    } else if g == 3 {
        AccOp::Adc
    } else if g == 5 {
        AccOp::Lda
    } else {
        AccOp::Sbc
    }
}

/// What an accumulator-group opcode does, given state `o` with the program
/// counter just past the opcode: ORA, AND, EOR, ADC, LDA and SBC put their
/// result in A from the operand they read, CMP compares A with it, STA
/// stores A (a zero-page store lands in work RAM) and 0x89 only reads its
/// immediate byte.
#[verifier::opaque]
pub open spec fn alu_effect(op: u8, o: State, n: State) -> bool {
    let c = o.cpu;
    let mode = alu_mode(op);
    if op / 32 == 4 {
        &&& regs(n.cpu) == (c.a, c.x, c.y, c.sp, pc_plus(c.pc, mode_len(mode)))
        &&& n.cpu.status == c.status
        &&& op == 0x89 ==> n.ram == o.ram
        &&& op == 0x85 && c.pc < 0x2000 ==> n.ram@ == o.ram@.update(operand_byte(o) as int, c.a)
    } else if op / 32 == 6 {
        exists|d: u8| #[trigger] compared(mode, o, n, c.a, d)
    } else {
        exists|d: u8| #[trigger] acc_loaded(alu_acc_op(op), mode, o, n, d)
    }
}

/// Opcodes ending in binary 01: the accumulator group, eight operations in eight addressing modes.
#[verifier::rlimit(100)]
#[verifier::spinoff_prover]
fn execute_alu(s: &mut State, opcode: u8)
    requires
        old(s).wf(),
        opcode & 3 == 1,
    ensures
        bus_step(*final(s), *old(s)),
        alu_effect(opcode, *old(s), *final(s)),
{
    match opcode {
        0x01 => {
            load_a(s, Mode::IndX, AccOp::Ora);
            assert(alu_effect(opcode, *old(s), *s)) by { reveal(alu_effect); }
        },
        0x05 => {
            load_a(s, Mode::Zero, AccOp::Ora);
            assert(alu_effect(opcode, *old(s), *s)) by { reveal(alu_effect); }
        },
        0x09 => {
            load_a(s, Mode::Imm, AccOp::Ora);
            assert(alu_effect(opcode, *old(s), *s)) by { reveal(alu_effect); }
        },
        0x0D => {
            load_a(s, Mode::Abs, AccOp::Ora);
            assert(alu_effect(opcode, *old(s), *s)) by { reveal(alu_effect); }
        },
        0x11 => {
            load_a(s, Mode::IndY, AccOp::Ora);
            assert(alu_effect(opcode, *old(s), *s)) by { reveal(alu_effect); }
        },
        0x15 => {
            load_a(s, Mode::ZeroX, AccOp::Ora);
            assert(alu_effect(opcode, *old(s), *s)) by { reveal(alu_effect); }
        },
        0x19 => {
            load_a(s, Mode::AbsY, AccOp::Ora);
            assert(alu_effect(opcode, *old(s), *s)) by { reveal(alu_effect); }
        },
        0x1D => {
            load_a(s, Mode::AbsX, AccOp::Ora);
            assert(alu_effect(opcode, *old(s), *s)) by { reveal(alu_effect); }
        },
        0x21 => {
            load_a(s, Mode::IndX, AccOp::And);
            assert(alu_effect(opcode, *old(s), *s)) by { reveal(alu_effect); }
        },
        0x25 => {
            load_a(s, Mode::Zero, AccOp::And);
            assert(alu_effect(opcode, *old(s), *s)) by { reveal(alu_effect); }
        },
        0x29 => {
            load_a(s, Mode::Imm, AccOp::And);
            assert(alu_effect(opcode, *old(s), *s)) by { reveal(alu_effect); }
        },
        0x2D => {
            load_a(s, Mode::Abs, AccOp::And);
            assert(alu_effect(opcode, *old(s), *s)) by { reveal(alu_effect); }
        },
        0x31 => {
            load_a(s, Mode::IndY, AccOp::And);
            assert(alu_effect(opcode, *old(s), *s)) by { reveal(alu_effect); }
        },
        0x35 => {
            load_a(s, Mode::ZeroX, AccOp::And);
            assert(alu_effect(opcode, *old(s), *s)) by { reveal(alu_effect); }
        },
        0x39 => {
            load_a(s, Mode::AbsY, AccOp::And);
            assert(alu_effect(opcode, *old(s), *s)) by { reveal(alu_effect); }
        },
        0x3D => {
            load_a(s, Mode::AbsX, AccOp::And);
            assert(alu_effect(opcode, *old(s), *s)) by { reveal(alu_effect); }
        },
        0x41 => {
            load_a(s, Mode::IndX, AccOp::Eor);
            assert(alu_effect(opcode, *old(s), *s)) by { reveal(alu_effect); }
        },
        0x45 => {
            load_a(s, Mode::Zero, AccOp::Eor);
            assert(alu_effect(opcode, *old(s), *s)) by { reveal(alu_effect); }
        },
        0x49 => {
            load_a(s, Mode::Imm, AccOp::Eor);
            assert(alu_effect(opcode, *old(s), *s)) by { reveal(alu_effect); }
        },
        0x4D => {
            load_a(s, Mode::Abs, AccOp::Eor);
            assert(alu_effect(opcode, *old(s), *s)) by { reveal(alu_effect); }
        },
        0x51 => {
            load_a(s, Mode::IndY, AccOp::Eor);
            assert(alu_effect(opcode, *old(s), *s)) by { reveal(alu_effect); }
        },
        0x55 => {
            load_a(s, Mode::ZeroX, AccOp::Eor);
            assert(alu_effect(opcode, *old(s), *s)) by { reveal(alu_effect); }
        },
        0x59 => {
            load_a(s, Mode::AbsY, AccOp::Eor);
            assert(alu_effect(opcode, *old(s), *s)) by { reveal(alu_effect); }
        },
        0x5D => {
            load_a(s, Mode::AbsX, AccOp::Eor);
            assert(alu_effect(opcode, *old(s), *s)) by { reveal(alu_effect); }
        },
        0x61 => {
            load_a(s, Mode::IndX, AccOp::Adc);
            assert(alu_effect(opcode, *old(s), *s)) by { reveal(alu_effect); }
        },
        0x65 => {
            load_a(s, Mode::Zero, AccOp::Adc);
            assert(alu_effect(opcode, *old(s), *s)) by { reveal(alu_effect); }
        },
        0x69 => {
            load_a(s, Mode::Imm, AccOp::Adc);
            assert(alu_effect(opcode, *old(s), *s)) by { reveal(alu_effect); }
        },
        0x6D => {
            load_a(s, Mode::Abs, AccOp::Adc);
            assert(alu_effect(opcode, *old(s), *s)) by { reveal(alu_effect); }
        },
        0x71 => {
            load_a(s, Mode::IndY, AccOp::Adc);
            assert(alu_effect(opcode, *old(s), *s)) by { reveal(alu_effect); }
        },
        0x75 => {
            load_a(s, Mode::ZeroX, AccOp::Adc);
            assert(alu_effect(opcode, *old(s), *s)) by { reveal(alu_effect); }
        },
        0x79 => {
            load_a(s, Mode::AbsY, AccOp::Adc);
            assert(alu_effect(opcode, *old(s), *s)) by { reveal(alu_effect); }
        },
        0x7D => {
            load_a(s, Mode::AbsX, AccOp::Adc);
            assert(alu_effect(opcode, *old(s), *s)) by { reveal(alu_effect); }
        },
        0x81 => {
            let v = s.cpu.a;
            store(s, Mode::IndX, v);
            assert(alu_effect(opcode, *old(s), *s)) by { reveal(alu_effect); }
        },
        0x85 => {
            let v = s.cpu.a;
            store(s, Mode::Zero, v);
            assert(alu_effect(opcode, *old(s), *s)) by { reveal(alu_effect); }
        },
        0x89 => {
            fetch(s, Mode::Imm);
            assert(alu_effect(opcode, *old(s), *s)) by { reveal(alu_effect); }
        },
        0x8D => {
            let v = s.cpu.a;
            store(s, Mode::Abs, v);
            assert(alu_effect(opcode, *old(s), *s)) by { reveal(alu_effect); }
        },
        0x91 => {
            let v = s.cpu.a;
            store(s, Mode::IndY, v);
            assert(alu_effect(opcode, *old(s), *s)) by { reveal(alu_effect); }
        },
        0x95 => {
            let v = s.cpu.a;
            store(s, Mode::ZeroX, v);
            assert(alu_effect(opcode, *old(s), *s)) by { reveal(alu_effect); }
        },
        0x99 => {
            let v = s.cpu.a;
            store(s, Mode::AbsY, v);
            assert(alu_effect(opcode, *old(s), *s)) by { reveal(alu_effect); }
        },
        0x9D => {
            let v = s.cpu.a;
            store(s, Mode::AbsX, v);
            assert(alu_effect(opcode, *old(s), *s)) by { reveal(alu_effect); }
        },
        0xA1 => {
            load_a(s, Mode::IndX, AccOp::Lda);
            assert(alu_effect(opcode, *old(s), *s)) by { reveal(alu_effect); }
        },
        0xA5 => {
            load_a(s, Mode::Zero, AccOp::Lda);
            assert(alu_effect(opcode, *old(s), *s)) by { reveal(alu_effect); }
        },
        0xA9 => {
            load_a(s, Mode::Imm, AccOp::Lda);
            assert(alu_effect(opcode, *old(s), *s)) by { reveal(alu_effect); }
        },
        0xAD => {
            load_a(s, Mode::Abs, AccOp::Lda);
            assert(alu_effect(opcode, *old(s), *s)) by { reveal(alu_effect); }
        },
        0xB1 => {
            load_a(s, Mode::IndY, AccOp::Lda);
            assert(alu_effect(opcode, *old(s), *s)) by { reveal(alu_effect); }
        },
        0xB5 => {
            load_a(s, Mode::ZeroX, AccOp::Lda);
            assert(alu_effect(opcode, *old(s), *s)) by { reveal(alu_effect); }
        },
        0xB9 => {
            load_a(s, Mode::AbsY, AccOp::Lda);
            assert(alu_effect(opcode, *old(s), *s)) by { reveal(alu_effect); }
        },
        0xBD => {
            load_a(s, Mode::AbsX, AccOp::Lda);
            assert(alu_effect(opcode, *old(s), *s)) by { reveal(alu_effect); }
        },
        0xC1 => {
            let a = s.cpu.a;
            compare(s, Mode::IndX, a);
            assert(alu_effect(opcode, *old(s), *s)) by { reveal(alu_effect); }
        },
        0xC5 => {
            let a = s.cpu.a;
            compare(s, Mode::Zero, a);
            assert(alu_effect(opcode, *old(s), *s)) by { reveal(alu_effect); }
        },
        0xC9 => {
            let a = s.cpu.a;
            compare(s, Mode::Imm, a);
            assert(alu_effect(opcode, *old(s), *s)) by { reveal(alu_effect); }
        },
        0xCD => {
            let a = s.cpu.a;
            compare(s, Mode::Abs, a);
            assert(alu_effect(opcode, *old(s), *s)) by { reveal(alu_effect); }
        },
        0xD1 => {
            let a = s.cpu.a;
            compare(s, Mode::IndY, a);
            assert(alu_effect(opcode, *old(s), *s)) by { reveal(alu_effect); }
        },
        0xD5 => {
            let a = s.cpu.a;
            compare(s, Mode::ZeroX, a);
            assert(alu_effect(opcode, *old(s), *s)) by { reveal(alu_effect); }
        },
        0xD9 => {
            let a = s.cpu.a;
            compare(s, Mode::AbsY, a);
            assert(alu_effect(opcode, *old(s), *s)) by { reveal(alu_effect); }
        },
        0xDD => {
            let a = s.cpu.a;
            compare(s, Mode::AbsX, a);
            assert(alu_effect(opcode, *old(s), *s)) by { reveal(alu_effect); }
        },
        0xE1 => {
            load_a(s, Mode::IndX, AccOp::Sbc);
            assert(alu_effect(opcode, *old(s), *s)) by { reveal(alu_effect); }
        },
        0xE5 => {
            load_a(s, Mode::Zero, AccOp::Sbc);
            assert(alu_effect(opcode, *old(s), *s)) by { reveal(alu_effect); }
        },
        0xE9 => {
            load_a(s, Mode::Imm, AccOp::Sbc);
            assert(alu_effect(opcode, *old(s), *s)) by { reveal(alu_effect); }
        },
        0xED => {
            load_a(s, Mode::Abs, AccOp::Sbc);
            assert(alu_effect(opcode, *old(s), *s)) by { reveal(alu_effect); }
        },
        0xF1 => {
            load_a(s, Mode::IndY, AccOp::Sbc);
            assert(alu_effect(opcode, *old(s), *s)) by { reveal(alu_effect); }
        },
        0xF5 => {
            load_a(s, Mode::ZeroX, AccOp::Sbc);
            assert(alu_effect(opcode, *old(s), *s)) by { reveal(alu_effect); }
        },
        0xF9 => {
            load_a(s, Mode::AbsY, AccOp::Sbc);
            assert(alu_effect(opcode, *old(s), *s)) by { reveal(alu_effect); }
        },
        0xFD => {
            load_a(s, Mode::AbsX, AccOp::Sbc);
            assert(alu_effect(opcode, *old(s), *s)) by { reveal(alu_effect); }
        },
        _ => {
            proof { lemma_opcode_groups(opcode); }
        },
    }
}

/// The read-modify-write operation of a shift-group opcode, from its top
/// three bits.
pub open spec fn shift_rmw_op(op: u8) -> RmwOp {
    let g = op / 32;
    if g == 0 {
        RmwOp::Asl
    } else if g == 1 {
        RmwOp::Rol
    } else if g == 2 {
        RmwOp::Lsr
    } else if g == 3 {
        RmwOp::Ror
    } else if g == 6 {
        RmwOp::Dec
    } else {
        RmwOp::Inc
    }
}

/// The addressing mode of a shift-group memory operation, from bits 2-4.
pub open spec fn shift_mode(op: u8) -> Mode {
    let k = (op / 4) % 8;
    if k == 1 {
        Mode::Zero
    } else if k == 3 {
        Mode::Abs
    } else if k == 5 {
        Mode::ZeroX
    } else {
        Mode::AbsX
    }
}

/// Whether shift-group opcode `op` is ASL, ROL, LSR, ROR, DEC or INC on
/// memory.
pub open spec fn is_memory_rmw(op: u8) -> bool {
    let g = op / 32;
    let k = (op / 4) % 8;
    (g <= 3 || g >= 6) && (k == 1 || k == 3 || k == 5 || k == 7)
}

/// What a shift-group opcode (low bits 10) does, given state `o` with the
/// program counter just past the opcode: shifts, rotations, increments and
/// decrements of memory or A, the X loads, stores and transfers, and the
/// opcodes that only read a byte.
#[verifier::opaque]
pub open spec fn shift_effect(op: u8, o: State, n: State) -> bool {
    let c = o.cpu;
    let m = n.cpu;
    let st = c.status;
    if is_memory_rmw(op) {
        let mode = shift_mode(op);
        &&& regs(m) == (c.a, c.x, c.y, c.sp, pc_plus(c.pc, mode_len(mode)))
        &&& same_outside(m.status, st, 0x83)
        &&& mode == Mode::Zero && c.pc < 0x2000 ==> ({
            let zp = operand_byte(o) as int;
            let d = o.ram@[zp];
            let r = rmw_value(shift_rmw_op(op), d, flag(st, 0x01));
            &&& n.ram@ == o.ram@.update(zp, r)
            &&& rmw_flags_ok(shift_rmw_op(op), d, r, m.status, st)
        })
    } else if op == 0x0A || op == 0x2A || op == 0x4A || op == 0x6A {
        let r = rmw_value(shift_rmw_op(op), c.a, flag(st, 0x01));
        &&& regs(m) == (r, c.x, c.y, c.sp, c.pc)
        &&& rmw_flags_ok(shift_rmw_op(op), c.a, r, m.status, st)
        &&& c.pc < 0x2000 ==> n.ram == o.ram
    } else if op == 0x86 || op == 0x8E || op == 0x96 || op == 0x9E {
        &&& regs(m) == (c.a, c.x, c.y, c.sp, pc_plus(c.pc, if op == 0x86 || op == 0x96 { 1 } else { 2 }))
        &&& m.status == st
        &&& op == 0x86 && c.pc < 0x2000 ==> n.ram@ == o.ram@.update(operand_byte(o) as int, c.x)
    } else if op == 0x8A || op == 0xAA || op == 0xBA || op == 0xCA {
        let v: u8 = if op == 0x8A { c.x } else if op == 0xAA { c.a } else if op == 0xBA { c.sp } else { ((c.x - 1) % 256) as u8 };
        &&& regs(m) == (if op == 0x8A { v } else { c.a }, if op == 0x8A { c.x } else { v }, c.y, c.sp, c.pc)
        &&& load_flags_ok(m.status, st, v)
        &&& n.ram == o.ram
    } else if op == 0x9A {
        &&& regs(m) == (c.a, c.x, c.y, c.x, c.pc)
        &&& m.status == st
        &&& n.ram == o.ram
    } else if op == 0xA2 || op == 0xA6 || op == 0xAE || op == 0xB6 || op == 0xBE {
        &&& m.a == c.a && m.y == c.y && m.sp == c.sp
        &&& m.pc == pc_plus(c.pc, if op == 0xAE || op == 0xBE { 2 } else { 1 })
        &&& load_flags_ok(m.status, st, m.x)
        &&& n.ram == o.ram
        &&& op == 0xA2 && c.pc < 0x2000 ==> m.x == operand_byte(o)
        &&& op == 0xA6 && c.pc < 0x2000 ==> m.x == zero_page_byte(o)
    } else if op == 0x82 || op == 0xC2 || op == 0xE2 {
        &&& regs(m) == (c.a, c.x, c.y, c.sp, pc_plus(c.pc, 1))
        &&& m.status == st
        &&& n.ram == o.ram
    } else {
        &&& regs(m) == regs(c)
        &&& m.status == st
        &&& n.ram == o.ram
    }
}

/// Opcodes ending in binary 10: shifts, rotates, increments, X loads and stores, transfers.
#[verifier::rlimit(60)]
fn execute_shift(s: &mut State, opcode: u8)
    requires
        old(s).wf(),
        opcode & 3 == 2,
    ensures
        bus_step(*final(s), *old(s)),
        shift_effect(opcode, *old(s), *final(s)),
{
    match opcode {
        0x02 => {
            dummy_read(s);
            assert(shift_effect(opcode, *old(s), *s)) by { reveal(shift_effect); }
        },
        0x06 => {
            modify(s, Mode::Zero, RmwOp::Asl);
            assert(shift_effect(opcode, *old(s), *s)) by { reveal(shift_effect); }
        },
        0x0A => {
            modify_acc(s, RmwOp::Asl);
            assert(shift_effect(opcode, *old(s), *s)) by { reveal(shift_effect); }
        },
        0x0E => {
            modify(s, Mode::Abs, RmwOp::Asl);
            assert(shift_effect(opcode, *old(s), *s)) by { reveal(shift_effect); }
        },
        0x12 => {
            dummy_read(s);
            assert(shift_effect(opcode, *old(s), *s)) by { reveal(shift_effect); }
        },
        0x16 => {
            modify(s, Mode::ZeroX, RmwOp::Asl);
            assert(shift_effect(opcode, *old(s), *s)) by { reveal(shift_effect); }
        },
        0x1A => {
            dummy_read(s);
            assert(shift_effect(opcode, *old(s), *s)) by { reveal(shift_effect); }
        },
        0x1E => {
            modify(s, Mode::AbsX, RmwOp::Asl);
            assert(shift_effect(opcode, *old(s), *s)) by { reveal(shift_effect); }
        },
        0x22 => {
            dummy_read(s);
            assert(shift_effect(opcode, *old(s), *s)) by { reveal(shift_effect); }
        },
        0x26 => {
            modify(s, Mode::Zero, RmwOp::Rol);
            assert(shift_effect(opcode, *old(s), *s)) by { reveal(shift_effect); }
        },
        0x2A => {
            modify_acc(s, RmwOp::Rol);
            assert(shift_effect(opcode, *old(s), *s)) by { reveal(shift_effect); }
        },
        0x2E => {
            modify(s, Mode::Abs, RmwOp::Rol);
            assert(shift_effect(opcode, *old(s), *s)) by { reveal(shift_effect); }
        },
        0x32 => {
            dummy_read(s);
            assert(shift_effect(opcode, *old(s), *s)) by { reveal(shift_effect); }
        },
        0x36 => {
            modify(s, Mode::ZeroX, RmwOp::Rol);
            assert(shift_effect(opcode, *old(s), *s)) by { reveal(shift_effect); }
        },
        0x3A => {
            dummy_read(s);
            assert(shift_effect(opcode, *old(s), *s)) by { reveal(shift_effect); }
        },
        0x3E => {
            modify(s, Mode::AbsX, RmwOp::Rol);
            assert(shift_effect(opcode, *old(s), *s)) by { reveal(shift_effect); }
        },
        0x42 => {
            dummy_read(s);
            assert(shift_effect(opcode, *old(s), *s)) by { reveal(shift_effect); }
        },
        0x46 => {
            modify(s, Mode::Zero, RmwOp::Lsr);
            assert(shift_effect(opcode, *old(s), *s)) by { reveal(shift_effect); }
        },
        0x4A => {
            modify_acc(s, RmwOp::Lsr);
            assert(shift_effect(opcode, *old(s), *s)) by { reveal(shift_effect); }
        },
        0x4E => {
            modify(s, Mode::Abs, RmwOp::Lsr);
            assert(shift_effect(opcode, *old(s), *s)) by { reveal(shift_effect); }
        },
        0x52 => {
            dummy_read(s);
            assert(shift_effect(opcode, *old(s), *s)) by { reveal(shift_effect); }
        },
        0x56 => {
            modify(s, Mode::ZeroX, RmwOp::Lsr);
            assert(shift_effect(opcode, *old(s), *s)) by { reveal(shift_effect); }
        },
        0x5A => {
            dummy_read(s);
            assert(shift_effect(opcode, *old(s), *s)) by { reveal(shift_effect); }
        },
        0x5E => {
            modify(s, Mode::AbsX, RmwOp::Lsr);
            assert(shift_effect(opcode, *old(s), *s)) by { reveal(shift_effect); }
        },
        0x62 => {
            dummy_read(s);
            assert(shift_effect(opcode, *old(s), *s)) by { reveal(shift_effect); }
        },
        0x66 => {
            modify(s, Mode::Zero, RmwOp::Ror);
            assert(shift_effect(opcode, *old(s), *s)) by { reveal(shift_effect); }
        },
        0x6A => {
            modify_acc(s, RmwOp::Ror);
            assert(shift_effect(opcode, *old(s), *s)) by { reveal(shift_effect); }
        },
        0x6E => {
            modify(s, Mode::Abs, RmwOp::Ror);
            assert(shift_effect(opcode, *old(s), *s)) by { reveal(shift_effect); }
        },
        0x72 => {
            dummy_read(s);
            assert(shift_effect(opcode, *old(s), *s)) by { reveal(shift_effect); }
        },
        0x76 => {
            modify(s, Mode::ZeroX, RmwOp::Ror);
            assert(shift_effect(opcode, *old(s), *s)) by { reveal(shift_effect); }
        },
        0x7A => {
            dummy_read(s);
            assert(shift_effect(opcode, *old(s), *s)) by { reveal(shift_effect); }
        },
        0x7E => {
            modify(s, Mode::AbsX, RmwOp::Ror);
            assert(shift_effect(opcode, *old(s), *s)) by { reveal(shift_effect); }
        },
        0x82 => {
            fetch(s, Mode::Imm);
            assert(shift_effect(opcode, *old(s), *s)) by { reveal(shift_effect); }
        },
        0x86 => {
            let v = s.cpu.x;
            store(s, Mode::Zero, v);
            assert(shift_effect(opcode, *old(s), *s)) by { reveal(shift_effect); }
        },
        0x8A => {
            s.cpu.a = s.cpu.x;
            s.cpu.cycles = s.cpu.cycles.wrapping_add(1);
            let v = s.cpu.a;
            set_status_load(&mut s.cpu, v);
            assert(shift_effect(opcode, *old(s), *s)) by { reveal(shift_effect); }
        },
        0x8E => {
            let v = s.cpu.x;
            store(s, Mode::Abs, v);
            assert(shift_effect(opcode, *old(s), *s)) by { reveal(shift_effect); }
        },
        0x92 => {
            dummy_read(s);
            assert(shift_effect(opcode, *old(s), *s)) by { reveal(shift_effect); }
        },
        0x96 => {
            let v = s.cpu.x;
            store(s, Mode::ZeroY, v);
            assert(shift_effect(opcode, *old(s), *s)) by { reveal(shift_effect); }
        },
        0x9A => {
            s.cpu.sp = s.cpu.x;
            s.cpu.cycles = s.cpu.cycles.wrapping_add(1);
            assert(shift_effect(opcode, *old(s), *s)) by { reveal(shift_effect); }
        },
        0x9E => {
            let v = s.cpu.x;
            store_high(s, Mode::AbsY, v);
            assert(shift_effect(opcode, *old(s), *s)) by { reveal(shift_effect); }
        },
        0xA2 => {
            load_x(s, Mode::Imm);
            assert(shift_effect(opcode, *old(s), *s)) by { reveal(shift_effect); }
        },
        0xA6 => {
            load_x(s, Mode::Zero);
            assert(shift_effect(opcode, *old(s), *s)) by { reveal(shift_effect); }
        },
        0xAA => {
            s.cpu.x = s.cpu.a;
            s.cpu.cycles = s.cpu.cycles.wrapping_add(1);
            let v = s.cpu.x;
            set_status_load(&mut s.cpu, v);
            assert(shift_effect(opcode, *old(s), *s)) by { reveal(shift_effect); }
        },
        0xAE => {
            load_x(s, Mode::Abs);
            assert(shift_effect(opcode, *old(s), *s)) by { reveal(shift_effect); }
        },
        0xB2 => {
            dummy_read(s);
            assert(shift_effect(opcode, *old(s), *s)) by { reveal(shift_effect); }
        },
        0xB6 => {
            load_x(s, Mode::ZeroY);
            assert(shift_effect(opcode, *old(s), *s)) by { reveal(shift_effect); }
        },
        0xBA => {
            s.cpu.x = s.cpu.sp;
            s.cpu.cycles = s.cpu.cycles.wrapping_add(1);
            let v = s.cpu.x;
            set_status_load(&mut s.cpu, v);
            assert(shift_effect(opcode, *old(s), *s)) by { reveal(shift_effect); }
        },
        0xBE => {
            load_x(s, Mode::AbsY);
            assert(shift_effect(opcode, *old(s), *s)) by { reveal(shift_effect); }
        },
        0xC2 => {
            fetch(s, Mode::Imm);
            assert(shift_effect(opcode, *old(s), *s)) by { reveal(shift_effect); }
        },
        0xC6 => {
            modify(s, Mode::Zero, RmwOp::Dec);
            assert(shift_effect(opcode, *old(s), *s)) by { reveal(shift_effect); }
        },
        0xCA => {
            dummy_read(s);
            let x = s.cpu.x;
            let r = do_wrapping_add(s, x, -1);
            assert((-1i8) as u8 == 255u8) by (bit_vector);
            s.cpu.x = r;
            assert(shift_effect(opcode, *old(s), *s)) by { reveal(shift_effect); }
        },
        0xCE => {
            modify(s, Mode::Abs, RmwOp::Dec);
            assert(shift_effect(opcode, *old(s), *s)) by { reveal(shift_effect); }
        },
        0xD2 => {
            dummy_read(s);
            assert(shift_effect(opcode, *old(s), *s)) by { reveal(shift_effect); }
        },
        0xD6 => {
            modify(s, Mode::ZeroX, RmwOp::Dec);
            assert(shift_effect(opcode, *old(s), *s)) by { reveal(shift_effect); }
        },
        0xDA => {
            dummy_read(s);
            assert(shift_effect(opcode, *old(s), *s)) by { reveal(shift_effect); }
        },
        0xDE => {
            modify(s, Mode::AbsX, RmwOp::Dec);
            assert(shift_effect(opcode, *old(s), *s)) by { reveal(shift_effect); }
        },
        0xE2 => {
            fetch(s, Mode::Imm);
            assert(shift_effect(opcode, *old(s), *s)) by { reveal(shift_effect); }
        },
        0xE6 => {
            modify(s, Mode::Zero, RmwOp::Inc);
            assert(shift_effect(opcode, *old(s), *s)) by { reveal(shift_effect); }
        },
        0xEA => {
            s.cpu.cycles = s.cpu.cycles.wrapping_add(1);
            assert(shift_effect(opcode, *old(s), *s)) by { reveal(shift_effect); }
        },
        0xEE => {
            modify(s, Mode::Abs, RmwOp::Inc);
            assert(shift_effect(opcode, *old(s), *s)) by { reveal(shift_effect); }
        },
        0xF2 => {
            dummy_read(s);
            assert(shift_effect(opcode, *old(s), *s)) by { reveal(shift_effect); }
        },
        0xF6 => {
            modify(s, Mode::ZeroX, RmwOp::Inc);
            assert(shift_effect(opcode, *old(s), *s)) by { reveal(shift_effect); }
        },
        0xFA => {
            dummy_read(s);
            assert(shift_effect(opcode, *old(s), *s)) by { reveal(shift_effect); }
        },
        0xFE => {
            modify(s, Mode::AbsX, RmwOp::Inc);
            assert(shift_effect(opcode, *old(s), *s)) by { reveal(shift_effect); }
        },
        _ => {
            proof { lemma_opcode_groups(opcode); }
        },
    }
}

/// What an undocumented opcode (low bits 11) does, as far as stated: the
/// program counter moves past its operand, and RRA and ISC leave the
/// rotated or incremented operand, A and the flags as `rra_done` and
/// `isc_done` say.
#[verifier::opaque]
pub open spec fn undocumented_effect(op: u8, o: State, n: State) -> bool {
    let mode = alu_mode(op);
    let k = (op / 4) % 8;
    &&& n.cpu.pc == pc_plus(o.cpu.pc, mode_len(mode))
    &&& op / 32 == 3 && k != 2 ==> exists|r: (u8, bool)| #[trigger] rra_done(mode, o, n, r)
    &&& op / 32 == 7 && k != 2 ==> exists|r: u8| #[trigger] isc_done(mode, o, n, r)
}

/// Opcodes ending in binary 11: the undocumented combined operations.
#[verifier::rlimit(100)]
#[verifier::spinoff_prover]
fn execute_undocumented(s: &mut State, opcode: u8)
    requires
        old(s).wf(),
        opcode & 3 == 3,
    ensures
        bus_step(*final(s), *old(s)),
        undocumented_effect(opcode, *old(s), *final(s)),
{
    match opcode {
        0x03 => {
            shift_combine(s, Mode::IndX, RmwOp::Asl);
            assert(undocumented_effect(opcode, *old(s), *s)) by { reveal(undocumented_effect); }
        },
        0x07 => {
            shift_combine(s, Mode::Zero, RmwOp::Asl);
            assert(undocumented_effect(opcode, *old(s), *s)) by { reveal(undocumented_effect); }
        },
        0x0B => {
            let data = address_immediate(s);
            let a = s.cpu.a & data;
            s.cpu.a = a;
            set_status_load(&mut s.cpu, a);
            s.cpu.status = (s.cpu.status & !STATUS_C) | ((s.cpu.status & STATUS_N) >> 7);
            assert(undocumented_effect(opcode, *old(s), *s)) by { reveal(undocumented_effect); }
        },
        0x0F => {
            shift_combine(s, Mode::Abs, RmwOp::Asl);
            assert(undocumented_effect(opcode, *old(s), *s)) by { reveal(undocumented_effect); }
        },
        0x13 => {
            shift_combine(s, Mode::IndY, RmwOp::Asl);
            assert(undocumented_effect(opcode, *old(s), *s)) by { reveal(undocumented_effect); }
        },
        0x17 => {
            shift_combine(s, Mode::ZeroX, RmwOp::Asl);
            assert(undocumented_effect(opcode, *old(s), *s)) by { reveal(undocumented_effect); }
        },
        0x1B => {
            shift_combine(s, Mode::AbsY, RmwOp::Asl);
            assert(undocumented_effect(opcode, *old(s), *s)) by { reveal(undocumented_effect); }
        },
        0x1F => {
            shift_combine(s, Mode::AbsX, RmwOp::Asl);
            assert(undocumented_effect(opcode, *old(s), *s)) by { reveal(undocumented_effect); }
        },
        0x23 => {
            shift_combine(s, Mode::IndX, RmwOp::Rol);
            assert(undocumented_effect(opcode, *old(s), *s)) by { reveal(undocumented_effect); }
        },
        0x27 => {
            shift_combine(s, Mode::Zero, RmwOp::Rol);
            assert(undocumented_effect(opcode, *old(s), *s)) by { reveal(undocumented_effect); }
        },
        0x2B => {
            let data = address_immediate(s);
            let a = s.cpu.a & data;
            s.cpu.a = a;
            set_status_load(&mut s.cpu, a);
            s.cpu.status = (s.cpu.status & !STATUS_C) | ((s.cpu.status & STATUS_N) >> 7);
            assert(undocumented_effect(opcode, *old(s), *s)) by { reveal(undocumented_effect); }
        },
        0x2F => {
            shift_combine(s, Mode::Abs, RmwOp::Rol);
            assert(undocumented_effect(opcode, *old(s), *s)) by { reveal(undocumented_effect); }
        },
        0x33 => {
            shift_combine(s, Mode::IndY, RmwOp::Rol);
            assert(undocumented_effect(opcode, *old(s), *s)) by { reveal(undocumented_effect); }
        },
        0x37 => {
            shift_combine(s, Mode::ZeroX, RmwOp::Rol);
            assert(undocumented_effect(opcode, *old(s), *s)) by { reveal(undocumented_effect); }
        },
        0x3B => {
            shift_combine(s, Mode::AbsY, RmwOp::Rol);
            assert(undocumented_effect(opcode, *old(s), *s)) by { reveal(undocumented_effect); }
        },
        0x3F => {
            shift_combine(s, Mode::AbsX, RmwOp::Rol);
            assert(undocumented_effect(opcode, *old(s), *s)) by { reveal(undocumented_effect); }
        },
        0x43 => {
            shift_combine(s, Mode::IndX, RmwOp::Lsr);
            assert(undocumented_effect(opcode, *old(s), *s)) by { reveal(undocumented_effect); }
        },
        0x47 => {
            shift_combine(s, Mode::Zero, RmwOp::Lsr);
            assert(undocumented_effect(opcode, *old(s), *s)) by { reveal(undocumented_effect); }
        },
        0x4B => {
            let data = address_immediate(s);
            let a = s.cpu.a & data;
            let result = compute_lsr(&mut s.cpu, a);
            s.cpu.a = result;
            set_status_load(&mut s.cpu, result);
            assert(undocumented_effect(opcode, *old(s), *s)) by { reveal(undocumented_effect); }
        },
        0x4F => {
            shift_combine(s, Mode::Abs, RmwOp::Lsr);
            assert(undocumented_effect(opcode, *old(s), *s)) by { reveal(undocumented_effect); }
        },
        0x53 => {
            shift_combine(s, Mode::IndY, RmwOp::Lsr);
            assert(undocumented_effect(opcode, *old(s), *s)) by { reveal(undocumented_effect); }
        },
        0x57 => {
            shift_combine(s, Mode::ZeroX, RmwOp::Lsr);
            assert(undocumented_effect(opcode, *old(s), *s)) by { reveal(undocumented_effect); }
        },
        0x5B => {
            shift_combine(s, Mode::AbsY, RmwOp::Lsr);
            assert(undocumented_effect(opcode, *old(s), *s)) by { reveal(undocumented_effect); }
        },
        0x5F => {
            shift_combine(s, Mode::AbsX, RmwOp::Lsr);
            assert(undocumented_effect(opcode, *old(s), *s)) by { reveal(undocumented_effect); }
        },
        0x63 => {
            rra(s, Mode::IndX);
            assert(undocumented_effect(opcode, *old(s), *s)) by { reveal(undocumented_effect); }
        },
        0x67 => {
            rra(s, Mode::Zero);
            assert(undocumented_effect(opcode, *old(s), *s)) by { reveal(undocumented_effect); }
        },
        0x6B => {
            let data = address_immediate(s);
            let a = s.cpu.a & data;
            let result = compute_ror(&mut s.cpu, a);
            s.cpu.a = result;
            let z: u8 = if result == 0 { 1 } else { 0 };
            let v: u8 = if ((result >> 6) ^ ((result >> 5) & 1)) == 1 { 1 } else { 0 };
            s.cpu.status = (s.cpu.status & !(STATUS_Z | STATUS_N | STATUS_V | STATUS_C)) | (z << 1)
                | (result & STATUS_N) | (v << 6) | ((result >> 6) & 1);
            assert(undocumented_effect(opcode, *old(s), *s)) by { reveal(undocumented_effect); }
        },
        0x6F => {
            rra(s, Mode::Abs);
            assert(undocumented_effect(opcode, *old(s), *s)) by { reveal(undocumented_effect); }
        },
        0x73 => {
            rra(s, Mode::IndY);
            assert(undocumented_effect(opcode, *old(s), *s)) by { reveal(undocumented_effect); }
        },
        0x77 => {
            rra(s, Mode::ZeroX);
            assert(undocumented_effect(opcode, *old(s), *s)) by { reveal(undocumented_effect); }
        },
        0x7B => {
            rra(s, Mode::AbsY);
            assert(undocumented_effect(opcode, *old(s), *s)) by { reveal(undocumented_effect); }
        },
        0x7F => {
            rra(s, Mode::AbsX);
            assert(undocumented_effect(opcode, *old(s), *s)) by { reveal(undocumented_effect); }
        },
        0x83 => {
            let v = s.cpu.a & s.cpu.x;
            store(s, Mode::IndX, v);
            assert(undocumented_effect(opcode, *old(s), *s)) by { reveal(undocumented_effect); }
        },
        0x87 => {
            let v = s.cpu.a & s.cpu.x;
            store(s, Mode::Zero, v);
            assert(undocumented_effect(opcode, *old(s), *s)) by { reveal(undocumented_effect); }
        },
        0x8B => {
            let data = address_immediate(s);
            let a = (0xFF | s.cpu.a) & s.cpu.x & data;
            s.cpu.a = a;
            set_status_load(&mut s.cpu, a);
            assert(undocumented_effect(opcode, *old(s), *s)) by { reveal(undocumented_effect); }
        },
        0x8F => {
            let v = s.cpu.a & s.cpu.x;
            store(s, Mode::Abs, v);
            assert(undocumented_effect(opcode, *old(s), *s)) by { reveal(undocumented_effect); }
        },
        0x93 => {
            let v = s.cpu.a & s.cpu.x;
            store_high(s, Mode::IndY, v);
            assert(undocumented_effect(opcode, *old(s), *s)) by { reveal(undocumented_effect); }
        },
        0x97 => {
            let v = s.cpu.a & s.cpu.x;
            store(s, Mode::ZeroY, v);
            assert(undocumented_effect(opcode, *old(s), *s)) by { reveal(undocumented_effect); }
        },
        0x9B => {
            let v = s.cpu.a & s.cpu.x;
            s.cpu.sp = v;
            store_high(s, Mode::AbsY, v);
            assert(undocumented_effect(opcode, *old(s), *s)) by { reveal(undocumented_effect); }
        },
        0x9F => {
            let v = s.cpu.a & s.cpu.x;
            store_high(s, Mode::AbsY, v);
            assert(undocumented_effect(opcode, *old(s), *s)) by { reveal(undocumented_effect); }
        },
        0xA3 => {
            lax(s, Mode::IndX);
            assert(undocumented_effect(opcode, *old(s), *s)) by { reveal(undocumented_effect); }
        },
        0xA7 => {
            lax(s, Mode::Zero);
            assert(undocumented_effect(opcode, *old(s), *s)) by { reveal(undocumented_effect); }
        },
        0xAB => {
            let data = address_immediate(s);
            let a = (0xFF | s.cpu.a) & s.cpu.x & data;
            s.cpu.a = a;
            set_status_load(&mut s.cpu, a);
            assert(undocumented_effect(opcode, *old(s), *s)) by { reveal(undocumented_effect); }
        },
        0xAF => {
            lax(s, Mode::Abs);
            assert(undocumented_effect(opcode, *old(s), *s)) by { reveal(undocumented_effect); }
        },
        0xB3 => {
            lax(s, Mode::IndY);
            assert(undocumented_effect(opcode, *old(s), *s)) by { reveal(undocumented_effect); }
        },
        0xB7 => {
            lax(s, Mode::ZeroY);
            assert(undocumented_effect(opcode, *old(s), *s)) by { reveal(undocumented_effect); }
        },
        0xBB => {
            let data = fetch(s, Mode::AbsY);
            let result = data & s.cpu.a;
            s.cpu.a = result;
            s.cpu.x = result;
            s.cpu.sp = result;
            set_status_load(&mut s.cpu, result);
            assert(undocumented_effect(opcode, *old(s), *s)) by { reveal(undocumented_effect); }
        },
        0xBF => {
            lax(s, Mode::AbsY);
            assert(undocumented_effect(opcode, *old(s), *s)) by { reveal(undocumented_effect); }
        },
        0xC3 => {
            dcp(s, Mode::IndX);
            assert(undocumented_effect(opcode, *old(s), *s)) by { reveal(undocumented_effect); }
        },
        0xC7 => {
            dcp(s, Mode::Zero);
            assert(undocumented_effect(opcode, *old(s), *s)) by { reveal(undocumented_effect); }
        },
        0xCB => {
            let data = address_immediate(s);
            let ax = s.cpu.a & s.cpu.x;
            compute_cmp(&mut s.cpu, ax, data);
            assert(undocumented_effect(opcode, *old(s), *s)) by { reveal(undocumented_effect); }
        },
        0xCF => {
            dcp(s, Mode::Abs);
            assert(undocumented_effect(opcode, *old(s), *s)) by { reveal(undocumented_effect); }
        },
        0xD3 => {
            dcp(s, Mode::IndY);
            assert(undocumented_effect(opcode, *old(s), *s)) by { reveal(undocumented_effect); }
        },
        0xD7 => {
            dcp(s, Mode::ZeroX);
            assert(undocumented_effect(opcode, *old(s), *s)) by { reveal(undocumented_effect); }
        },
        0xDB => {
            dcp(s, Mode::AbsY);
            assert(undocumented_effect(opcode, *old(s), *s)) by { reveal(undocumented_effect); }
        },
        0xDF => {
            dcp(s, Mode::AbsX);
            assert(undocumented_effect(opcode, *old(s), *s)) by { reveal(undocumented_effect); }
        },
        0xE3 => {
            isc(s, Mode::IndX);
            assert(undocumented_effect(opcode, *old(s), *s)) by { reveal(undocumented_effect); }
        },
        0xE7 => {
            isc(s, Mode::Zero);
            assert(undocumented_effect(opcode, *old(s), *s)) by { reveal(undocumented_effect); }
        },
        0xEB => {
            let data = address_immediate(s);
            let _ = compute_sbc(&mut s.cpu, data);
            assert(undocumented_effect(opcode, *old(s), *s)) by { reveal(undocumented_effect); }
        },
        0xEF => {
            isc(s, Mode::Abs);
            assert(undocumented_effect(opcode, *old(s), *s)) by { reveal(undocumented_effect); }
        },
        0xF3 => {
            isc(s, Mode::IndY);
            assert(undocumented_effect(opcode, *old(s), *s)) by { reveal(undocumented_effect); }
        },
        0xF7 => {
            isc(s, Mode::ZeroX);
            assert(undocumented_effect(opcode, *old(s), *s)) by { reveal(undocumented_effect); }
        },
        0xFB => {
            isc(s, Mode::AbsY);
            assert(undocumented_effect(opcode, *old(s), *s)) by { reveal(undocumented_effect); }
        },
        0xFF => {
            isc(s, Mode::AbsX);
            assert(undocumented_effect(opcode, *old(s), *s)) by { reveal(undocumented_effect); }
        },
        _ => {
            proof { lemma_opcode_groups(opcode); }
        },
    }
}

/// What opcode `op` does, given state `o` with the program counter just
/// past the opcode, by its group: `control_effect` (stated when the
/// operand bytes are in work RAM), `alu_effect`, `shift_effect` or
/// `undocumented_effect`.
pub open spec fn instruction_effect(op: u8, o: State, n: State) -> bool {
    let g = op % 4;
    if g == 0 {
        o.cpu.pc < 0x1FFF ==> control_effect(op, o, n)
    } else if g == 1 {
        alu_effect(op, o, n)
    } else if g == 2 {
        shift_effect(op, o, n)
    } else {
        undocumented_effect(op, o, n)
    }
}

/// Executes the instruction with opcode `opcode`, whose operands follow at
/// the program counter.
pub fn execute(s: &mut State, opcode: u8)
    requires
        old(s).wf(),
    ensures
        bus_step(*final(s), *old(s)),
        instruction_effect(opcode, *old(s), *final(s)),
{
    let group = opcode & 3;
    proof { lemma_and_bounds(); lemma_byte_fields(opcode); }
    if group == 0 {
        execute_control(s, opcode);
    } else if group == 1 {
        execute_alu(s, opcode);
    } else if group == 2 {
        execute_shift(s, opcode);
    } else {
        execute_undocumented(s, opcode);
    }
}

} // verus!
