//! Operand addressing, the stack and the interrupt sequence: the CPU's
//! traffic on the bus.
use vstd::prelude::*;
use crate::nes::{State, same_registers, next_cycle};
use crate::cpu::{CpuState, InterruptKind, STATUS_I, STATUS_UNUSED};
use crate::cpu::alu::packed_status;
use crate::mapper::Mapper;
use crate::bits::lemma_word_bytes;
use crate::board::AnyMapper;

verus! {

/// A CPU bus step keeps the console well formed, the board's kind and the
/// block cache.
pub open spec fn bus_step(new: State, old: State) -> bool {
    &&& new.wf()
    &&& new.mapper.id() == old.mapper.id()
    &&& new.block_cache.slots@ == old.block_cache.slots@
}

/// Every register but the program counter is unchanged.
pub open spec fn same_but_pc(new: CpuState, old: CpuState) -> bool {
    &&& new.a == old.a
    &&& new.x == old.x
    &&& new.y == old.y
    &&& new.sp == old.sp
    &&& new.status == old.status
}

/// The program counter `n` bytes on, wrapping at 64 KiB.
pub open spec fn pc_plus(pc: u16, n: int) -> u16 {
    ((pc + n) % 0x10000) as u16
}

/// The address of the high byte of a pointer at `lo`: the 6502 does not
/// carry into the page byte.
pub open spec fn wrapped_hi(lo: u16) -> u16 {
    (lo & 0xFF00) | (((lo + 1) % 0x10000) as u16 & 0xFF)
}

/// The little-endian word at `lo` in work RAM, read as `read_u16_wrapped` does.
pub open spec fn ram_word(s: State, lo: u16) -> u16 {
    ((s.ram_at(wrapped_hi(lo)) as u16) << 8) | (s.ram_at(lo) as u16)
}

/// The stack slot that stack pointer value `sp` addresses.
pub open spec fn stack_slot(sp: u8) -> int {
    0x100 + sp
}

/// Reads the byte at `address_lo` and the one after it within the same
/// page, as a little-endian word.
pub fn read_u16_wrapped(s: &mut State, address_lo: u16) -> (r: u16)
    requires
        old(s).wf(),
    ensures
        bus_step(*final(s), *old(s)),
        same_registers(final(s).cpu, old(s).cpu),
        final(s).ram == old(s).ram,
        address_lo < 0x2000 ==> r == ram_word(*old(s), address_lo),
{
    let address_hi = (address_lo & 0xFF00) | (address_lo.wrapping_add(1) & 0x00FF);
    assert(address_lo < 0x2000 ==> address_hi < 0x2000) by (bit_vector)
        requires address_hi == (address_lo & 0xFF00u16) | (address_lo.wrapping_add(1) & 0xFFu16);
    let lo = s.cpu_peek(address_lo) as u16;
    let hi = s.cpu_peek(address_hi) as u16;
    (hi << 8) | lo
}

/// Absolute addressing: the two bytes after the opcode are the address.
pub fn address_absolute(s: &mut State) -> (r: u16)
    requires
        old(s).wf(),
    ensures
        bus_step(*final(s), *old(s)),
        same_but_pc(final(s).cpu, old(s).cpu),
        final(s).cpu.pc == pc_plus(old(s).cpu.pc, 2),
        final(s).ram == old(s).ram,
        old(s).cpu.pc < 0x1FFF ==> r == operand_word(*old(s)),
{
    let pc = s.cpu.pc;
    let lo = s.cpu_peek(pc);
    let hi = s.cpu_peek(pc.wrapping_add(1));
    s.cpu.pc = pc.wrapping_add(2);
    (hi as u16) << 8 | (lo as u16)
}

/// The little-endian word in work RAM at the program counter: the operand
/// of an absolute-mode instruction.
pub open spec fn operand_word(s: State) -> u16 {
    ((s.ram_at((s.cpu.pc + 1) as u16) as u16) << 8) | (s.ram_at(s.cpu.pc) as u16)
}

/// A base address plus an index register, wrapping at 64 KiB.
pub open spec fn indexed_address(base: u16, index: u8) -> u16 {
    ((base + index) % 0x10000) as u16
}

/// Indirect addressing (JMP only): the operand points at the address.
pub fn address_indirect(s: &mut State) -> (r: u16)
    requires
        old(s).wf(),
    ensures
        bus_step(*final(s), *old(s)),
        same_but_pc(final(s).cpu, old(s).cpu),
        final(s).cpu.pc == pc_plus(old(s).cpu.pc, 2),
        final(s).ram == old(s).ram,
        old(s).cpu.pc < 0x1FFF && operand_word(*old(s)) < 0x2000
            ==> r == ram_word(*old(s), operand_word(*old(s))),
{
    let address = address_absolute(s);
    read_u16_wrapped(s, address)
}

/// Immediate addressing: the byte after the opcode is the value.
pub fn address_immediate(s: &mut State) -> (r: u8)
    requires
        old(s).wf(),
    ensures
        bus_step(*final(s), *old(s)),
        same_but_pc(final(s).cpu, old(s).cpu),
        final(s).cpu.pc == pc_plus(old(s).cpu.pc, 1),
        final(s).ram == old(s).ram,
        old(s).cpu.pc < 0x2000 ==> r == old(s).ram_at(old(s).cpu.pc),
{
    let pc = s.cpu.pc;
    let data = s.cpu_peek(pc);
    s.cpu.pc = pc.wrapping_add(1);
    data
}

/// Zero-page addressing: the byte after the opcode is an address in page 0.
pub fn address_zero_page(s: &mut State) -> (r: u16)
    requires
        old(s).wf(),
    ensures
        bus_step(*final(s), *old(s)),
        same_but_pc(final(s).cpu, old(s).cpu),
        final(s).cpu.pc == pc_plus(old(s).cpu.pc, 1),
        final(s).ram == old(s).ram,
        r < 0x100,
        old(s).cpu.pc < 0x2000 ==> r == old(s).ram_at(old(s).cpu.pc) as u16,
{
    let pc = s.cpu.pc;
    let address = s.cpu_peek(pc) as u16;
    s.cpu.pc = pc.wrapping_add(1);
    address
}

/// Zero-page indexed addressing: the operand plus the index, wrapping
/// within page 0; the addition costs a cycle.
pub fn address_zero_page_indexed(s: &mut State, index: u8) -> (r: u16)
    requires
        old(s).wf(),
    ensures
        bus_step(*final(s), *old(s)),
        same_but_pc(final(s).cpu, old(s).cpu),
        final(s).cpu.pc == pc_plus(old(s).cpu.pc, 1),
        final(s).ram == old(s).ram,
        r < 0x100,
        old(s).cpu.pc < 0x2000 ==> r == (old(s).ram_at(old(s).cpu.pc) as u16 + index as u16) % 0x100,
{
    let pc = s.cpu.pc;
    let address = s.cpu_peek(pc) as u16;
    s.cpu.pc = pc.wrapping_add(1);
    s.cpu.cycles = s.cpu.cycles.wrapping_add(1);
    let sum = address + (index as u16);
    let r = sum & 0xFF;
    assert(r == sum % 0x100 && r < 0x100) by (bit_vector)
        requires r == sum & 0xFFu16;
    r
}

/// Absolute indexed addressing: the address plus the index, and the
/// address in the base's page that the CPU reads first when the sum
/// crosses a page.
pub fn address_absolute_indexed(s: &mut State, index: u8) -> (r: (u16, u16))
    requires
        old(s).wf(),
    ensures
        bus_step(*final(s), *old(s)),
        same_but_pc(final(s).cpu, old(s).cpu),
        final(s).cpu.pc == pc_plus(old(s).cpu.pc, 2),
        final(s).ram == old(s).ram,
        r.0 & 0xFF == r.1 & 0xFF,
        old(s).cpu.pc < 0x1FFF ==> r.1 == indexed_address(operand_word(*old(s)), index),
{
    let base = address_absolute(s);
    let fixed = base.wrapping_add(index as u16);
    let initial = (base & 0xFF00) | (fixed & 0xFF);
    assert(initial & 0xFF == fixed & 0xFF) by (bit_vector)
        requires initial == (base & 0xFF00u16) | (fixed & 0xFFu16);
    (initial, fixed)
}

/// Indexed indirect addressing, (zp,X): the pointer sits at the operand
/// plus X in page 0.
pub fn address_indexed_indirect(s: &mut State) -> (r: u16)
    requires
        old(s).wf(),
    ensures
        bus_step(*final(s), *old(s)),
        same_but_pc(final(s).cpu, old(s).cpu),
        final(s).cpu.pc == pc_plus(old(s).cpu.pc, 1),
        final(s).ram == old(s).ram,
        old(s).cpu.pc < 0x2000 ==> r == ram_word(*old(s),
            ((old(s).ram_at(old(s).cpu.pc) as u16 + old(s).cpu.x as u16) % 0x100) as u16),
{
    let pc = s.cpu.pc;
    let base = s.cpu_peek(pc) as u16;
    s.cpu.pc = pc.wrapping_add(1);
    s.cpu.cycles = s.cpu.cycles.wrapping_add(1);
    let address = base.wrapping_add(s.cpu.x as u16) & 0xFF;
    let x = s.cpu.x;
    assert(address == (base + x as u16) % 0x100) by (bit_vector)
        requires address == base.wrapping_add(x as u16) & 0xFFu16, base < 0x100u16;
    read_u16_wrapped(s, address)
}

/// Indirect indexed addressing, (zp),Y: the pointer sits at the operand in
/// page 0 and Y is added to it.
pub fn address_indirect_indexed(s: &mut State) -> (r: (u16, u16))
    requires
        old(s).wf(),
    ensures
        bus_step(*final(s), *old(s)),
        same_but_pc(final(s).cpu, old(s).cpu),
        final(s).cpu.pc == pc_plus(old(s).cpu.pc, 1),
        final(s).ram == old(s).ram,
        r.0 & 0xFF == r.1 & 0xFF,
        old(s).cpu.pc < 0x2000 ==> r.1 == indexed_address(
            ram_word(*old(s), old(s).ram_at(old(s).cpu.pc) as u16), old(s).cpu.y),
{
    let pc = s.cpu.pc;
    let ptr = s.cpu_peek(pc) as u16;
    s.cpu.pc = pc.wrapping_add(1);
    let base = read_u16_wrapped(s, ptr);
    let fixed = base.wrapping_add(s.cpu.y as u16);
    let initial = (base & 0xFF00) | (fixed & 0xFF);
    assert(initial & 0xFF == fixed & 0xFF) by (bit_vector)
        requires initial == (base & 0xFF00u16) | (fixed & 0xFFu16);
    (initial, fixed)
}

/// Pushes a byte: stores it at 0x0100 + SP, then decrements SP.
pub fn stack_push(s: &mut State, data: u8)
    requires
        old(s).wf(),
    ensures
        bus_step(*final(s), *old(s)),
        final(s).ram@ == old(s).ram@.update(stack_slot(old(s).cpu.sp), data),
        final(s).cpu == (CpuState {
            sp: old(s).cpu.sp.wrapping_sub(1),
            cycles: next_cycle(old(s).cpu.cycles),
            ..old(s).cpu
        }),
        *final(s) == (State { cpu: final(s).cpu, ram: final(s).ram, ..*old(s) }),
{
    let sp = s.cpu.sp;
    let addr = 0x0100 | (sp as u16);
    assert(addr < 0x2000 && (addr & 0x7FF) == 0x100 + sp) by (bit_vector)
        requires addr == 0x0100u16 | (sp as u16);
    s.cpu_poke(addr, data);
    s.cpu.sp = sp.wrapping_sub(1);
}

/// Pulls a byte: increments SP, then reads 0x0100 + SP.
pub fn stack_pull(s: &mut State) -> (r: u8)
    requires
        old(s).wf(),
    ensures
        bus_step(*final(s), *old(s)),
        r == old(s).ram@[stack_slot(old(s).cpu.sp.wrapping_add(1))],
        final(s).cpu == (CpuState {
            sp: old(s).cpu.sp.wrapping_add(1),
            cycles: next_cycle(old(s).cpu.cycles),
            ..old(s).cpu
        }),
        *final(s) == (State { cpu: final(s).cpu, ..*old(s) }),
{
    let sp = s.cpu.sp.wrapping_add(1);
    s.cpu.sp = sp;
    let addr = 0x0100 | (sp as u16);
    assert(addr < 0x2000 && (addr & 0x7FF) == 0x100 + sp) by (bit_vector)
        requires addr == 0x0100u16 | (sp as u16);
    s.cpu_peek(addr)
}

/// Pushing a byte and pulling it again gives the byte back and restores
/// the stack pointer; the byte stays in its stack slot.
pub proof fn lemma_push_then_pull(s0: State, s1: State, s2: State, v: u8, r: u8)
    requires
        s1.ram@ == s0.ram@.update(stack_slot(s0.cpu.sp), v),
        s1.cpu.sp == s0.cpu.sp.wrapping_sub(1),
        r == s1.ram@[stack_slot(s1.cpu.sp.wrapping_add(1))],
        s2.cpu.sp == s1.cpu.sp.wrapping_add(1),
        s2.ram == s1.ram,
        s0.ram@.len() == 2048,
    ensures
        r == v,
        s2.cpu.sp == s0.cpu.sp,
        s2.ram@[stack_slot(s0.cpu.sp)] == v,
{
    let sp = s0.cpu.sp;
    assert(sp.wrapping_sub(1).wrapping_add(1) == sp) by (bit_vector);
}

/// The little-endian word made of `lo` and `hi`.
pub open spec fn word_of(lo: u8, hi: u8) -> u16 {
    ((hi as u16) << 8) | (lo as u16)
}

/// Whether `r` is the vector at `addr`: its low byte as board state `m0`
/// answers a read of `addr`, its high byte as state `m1` (the state the
/// first read left) answers a read of the next address.
pub open spec fn vector_read(r: u16, m0: AnyMapper, m1: AnyMapper, addr: u16) -> bool {
    r == word_of(m0.peek_value(addr), m1.peek_value((addr + 1) as u16))
}

/// The vector at `addr` as board `m` answers two reads in a row: the low
/// byte at `addr`, then the high byte at the next address from the state
/// the first read left.
pub open spec fn vector_of(m: AnyMapper, addr: u16) -> u16 {
    word_of(m.peek_value(addr), m.after_read(addr).peek_value((addr + 1) as u16))
}

/// The vector address of an interrupt kind: NMI, IRQ, or reset for the
/// rest.
pub open spec fn vector_address(kind: InterruptKind) -> u16 {
    match kind {
        InterruptKind::NMI => 0xFFFA,
        InterruptKind::IRQ => 0xFFFE,
        _ => 0xFFFC,
    }
}

/// Reads the NMI vector at 0xFFFA.
pub fn vector_nmi(s: &mut State) -> (r: u16)
    requires
        old(s).wf(),
    ensures
        bus_step(*final(s), *old(s)),
        same_registers(final(s).cpu, old(s).cpu),
        final(s).ram == old(s).ram,
        final(s).cpu.cycles == next_cycle(next_cycle(old(s).cpu.cycles)),
        final(s).ppu == old(s).ppu && final(s).apu == old(s).apu,
        r as int % 256 == old(s).mapper.peek_value(0xFFFA),
        r == vector_of(old(s).mapper, 0xFFFA),
{
    let lo = s.cpu_peek(0xFFFA) as u16;
    let ghost m1 = s.mapper;
    let hi = s.cpu_peek(0xFFFB) as u16;
    proof {
        lemma_word_bytes(lo, hi);
        assert(vector_read((hi << 8) | lo, old(s).mapper, m1, 0xFFFA));
        assert(m1 == old(s).mapper.after_read(0xFFFA));
    }
    lo | (hi << 8)
}

/// Reads the reset vector at 0xFFFC.
pub fn vector_reset(s: &mut State) -> (r: u16)
    requires
        old(s).wf(),
    ensures
        bus_step(*final(s), *old(s)),
        same_registers(final(s).cpu, old(s).cpu),
        final(s).ram == old(s).ram,
        final(s).cpu.cycles == next_cycle(next_cycle(old(s).cpu.cycles)),
        final(s).ppu == old(s).ppu && final(s).apu == old(s).apu,
        r as int % 256 == old(s).mapper.peek_value(0xFFFC),
        r == vector_of(old(s).mapper, 0xFFFC),
{
    let lo = s.cpu_peek(0xFFFC) as u16;
    let ghost m1 = s.mapper;
    let hi = s.cpu_peek(0xFFFD) as u16;
    proof {
        lemma_word_bytes(lo, hi);
        assert(vector_read((hi << 8) | lo, old(s).mapper, m1, 0xFFFC));
        assert(m1 == old(s).mapper.after_read(0xFFFC));
    }
    (hi << 8) | lo
}

/// Reads the IRQ/BRK vector at 0xFFFE.
pub fn vector_brk(s: &mut State) -> (r: u16)
    requires
        old(s).wf(),
    ensures
        bus_step(*final(s), *old(s)),
        same_registers(final(s).cpu, old(s).cpu),
        final(s).ram == old(s).ram,
        final(s).cpu.cycles == next_cycle(next_cycle(old(s).cpu.cycles)),
        final(s).ppu == old(s).ppu && final(s).apu == old(s).apu,
        r as int % 256 == old(s).mapper.peek_value(0xFFFE),
        r == vector_of(old(s).mapper, 0xFFFE),
{
    let lo = s.cpu_peek(0xFFFE) as u16;
    let ghost m1 = s.mapper;
    let hi = s.cpu_peek(0xFFFF) as u16;
    proof {
        lemma_word_bytes(lo, hi);
        assert(vector_read((hi << 8) | lo, old(s).mapper, m1, 0xFFFE));
        assert(m1 == old(s).mapper.after_read(0xFFFE));
    }
    lo | (hi << 8)
}

/// Takes the pending interrupt: two dummy reads, the return address and
/// the status (break flag clear) pushed, interrupts disabled, and the
/// program counter loaded from the interrupt's vector.
#[verifier::rlimit(40)]
pub fn handle_interrupt(s: &mut State)
    requires
        old(s).wf(),
        old(s).cpu.pending_interrupt != InterruptKind::NoInterrupt,
    ensures
        bus_step(*final(s), *old(s)),
        final(s).cpu.pending_interrupt == InterruptKind::NoInterrupt,
        final(s).cpu.sp == old(s).cpu.sp.wrapping_sub(3),
        final(s).cpu.status == old(s).cpu.status | STATUS_I,
        final(s).cpu.a == old(s).cpu.a && final(s).cpu.x == old(s).cpu.x && final(s).cpu.y == old(s).cpu.y,
        final(s).ram@ == old(s).ram@
            .update(stack_slot(old(s).cpu.sp), (old(s).cpu.pc >> 8) as u8)
            .update(stack_slot(old(s).cpu.sp.wrapping_sub(1)), (old(s).cpu.pc & 0xFF) as u8)
            .update(stack_slot(old(s).cpu.sp.wrapping_sub(2)), packed_status(old(s).cpu.status, false)),
        exists|m0: AnyMapper, m1: AnyMapper| #[trigger] vector_read(final(s).cpu.pc, m0, m1,
            vector_address(old(s).cpu.pending_interrupt)),
        old(s).cpu.pc < 0x2000 ==> final(s).cpu.pc == vector_of(old(s).mapper,
            vector_address(old(s).cpu.pending_interrupt)),
        old(s).cpu.pc >= 0x4018 ==> final(s).cpu.pc == vector_of(
            old(s).mapper.after_read(old(s).cpu.pc).after_read(old(s).cpu.pc),
            vector_address(old(s).cpu.pending_interrupt)),
{
    let kind = s.cpu.pending_interrupt;
    let pc = s.cpu.pc;
    let sp = s.cpu.sp;
    s.cpu_peek(pc);
    s.cpu_peek(pc);
    let hi = (pc >> 8) & 0xFF;
    let lo = pc & 0xFF;
    stack_push(s, hi as u8);
    stack_push(s, lo as u8);
    let status = crate::cpu::alu::status_pack(&s.cpu, false);
    stack_push(s, status);
    s.cpu.status = s.cpu.status | STATUS_I;
    let ghost m0 = s.mapper;
    assert(old(s).cpu.pc < 0x2000 ==> m0 == old(s).mapper);
    assert(old(s).cpu.pc >= 0x4018 ==> m0 == old(s).mapper.after_read(old(s).cpu.pc).after_read(old(s).cpu.pc));
    let target = match kind {
        InterruptKind::NMI => vector_nmi(s),
        InterruptKind::IRQ => vector_brk(s),
        _ => vector_reset(s),
    };
    let ghost va = vector_address(kind);
    assert(target == vector_of(m0, va));
    s.cpu.pc = target;
    s.cpu.pending_interrupt = InterruptKind::NoInterrupt;
    assert(vector_read(s.cpu.pc, m0, m0.after_read(va), vector_address(old(s).cpu.pending_interrupt)));
    assert(sp.wrapping_sub(1).wrapping_sub(1) == sp.wrapping_sub(2)
        && sp.wrapping_sub(2).wrapping_sub(1) == sp.wrapping_sub(3)) by (bit_vector);
    assert((pc >> 8) & 0xFF == pc >> 8) by (bit_vector);
}

/// A conditional branch: the offset byte is read; a taken branch costs a
/// cycle, and one more when it lands in another page.
pub fn do_branch(s: &mut State, condition: bool)
    requires
        old(s).wf(),
    ensures
        bus_step(*final(s), *old(s)),
        same_but_pc(final(s).cpu, old(s).cpu),
        final(s).ram == old(s).ram,
        !condition ==> final(s).cpu.pc == pc_plus(old(s).cpu.pc, 1),
        condition && old(s).cpu.pc < 0x2000 ==> final(s).cpu.pc == pc_plus(pc_plus(old(s).cpu.pc, 1),
            old(s).ram_at(old(s).cpu.pc) as i8 as int),
{
    let offset = address_immediate(s) as i8;
    if condition {
        let old_pc = s.cpu.pc;
        let new_pc = ((old_pc as i32) + (offset as i32)) as u16;
        s.cpu.cycles = s.cpu.cycles.wrapping_add(1);
        if (old_pc & 0xFF00) != (new_pc & 0xFF00) {
            s.cpu.cycles = s.cpu.cycles.wrapping_add(1);
        }
        s.cpu.pc = new_pc;
        assert(new_pc == pc_plus(old_pc, offset as int)) by (bit_vector)
            requires new_pc == ((old_pc as i32) + (offset as i32)) as u16;
    }
}

/// Adds a signed amount to a register value and sets Z and N from the result.
pub fn do_wrapping_add(s: &mut State, data: u8, amount: i8) -> (r: u8)
    requires
        old(s).wf(),
    ensures
        r == data.wrapping_add(amount as u8),
        crate::cpu::alu::load_flags_ok(final(s).cpu.status, old(s).cpu.status, r),
        crate::cpu::alu::regs_unchanged_but_status(final(s).cpu, old(s).cpu),
        *final(s) == (State { cpu: final(s).cpu, ..*old(s) }),
{
    let t = (data as i16) + (amount as i16);
    let result = (t & 0xFF) as u8;
    assert(result == data.wrapping_add(amount as u8)) by (bit_vector)
        requires t == data as i16 + amount as i16, result == (t & 0xFFi16) as u8;
    crate::cpu::alu::set_status_load(&mut s.cpu, result);
    result
}

} // verus!
