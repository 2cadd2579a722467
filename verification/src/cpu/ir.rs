//! Decoded instructions, basic blocks, and the cache that keeps them.
use vstd::prelude::*;
use crate::bits::{lemma_addr_fields, lemma_word_bytes, lemma_status_merge_carry};
use std::collections::HashMap;
use crate::nes::State;
use crate::ppu::video_step;
use crate::board::AnyMapper;
use crate::mapper::Mapper;
use crate::cpu::{CpuState, InterruptKind, STATUS_C, STATUS_Z, STATUS_I, STATUS_D, STATUS_V, STATUS_N};
use crate::cpu::alu::{
    set_status_load, status_pack, status_unpack, compute_adc, compute_sbc, compute_cmp, compute_bit,
    compute_asl, compute_lsr, compute_rol, compute_ror, flag, same_outside, packed_status, unpacked_status,
    load_flags_ok,
};
use crate::cpu::bus::{
    bus_step, same_but_pc, pc_plus, stack_push, stack_pull, vector_brk, stack_slot, ram_word, word_of,
    read_u16_wrapped,
};
use crate::cpu::exec::{Mode, RmwOp, AccOp, acc_value, apply_rmw, rmw_value, rmw_status_ok, rmw_flags_ok, regs};
use crate::cpu::interp::{stack_byte, alu_acc_op, alu_mode, shift_rmw_op, shift_mode, is_memory_rmw};

verus! {

broadcast use vstd::std_specs::hash::group_hash_axioms;

/// An operand as the instruction encodes it.
#[derive(Clone, Copy, Debug, PartialEq, Eq, Structural)]
pub enum AddrMode {
    Implied,
    Accumulator,
    Immediate(u8),
    ZeroPage(u8),
    ZeroPageX(u8),
    ZeroPageY(u8),
    Absolute(u16),
    AbsoluteX(u16),
    AbsoluteY(u16),
    IndirectX(u8),
    IndirectY(u8),
    Relative(i8),
    Indirect(u16),
}

/// One decoded 6502 instruction, operands included.
#[derive(Clone, Copy, Debug, PartialEq, Eq, Structural)]
pub enum IrOp {
    Lda(AddrMode),
    Ldx(AddrMode),
    Ldy(AddrMode),
    Sta(AddrMode),
    Stx(AddrMode),
    Sty(AddrMode),
    Adc(AddrMode),
    Sbc(AddrMode),
    And(AddrMode),
    Ora(AddrMode),
    Eor(AddrMode),
    Asl(AddrMode),
    Lsr(AddrMode),
    Rol(AddrMode),
    Ror(AddrMode),
    Cmp(AddrMode),
    Cpx(AddrMode),
    Cpy(AddrMode),
    Bit(AddrMode),
    Inc(AddrMode),
    Dec(AddrMode),
    Inx,
    Iny,
    Dex,
    Dey,
    Pha,
    Php,
    Pla,
    Plp,
    Tax,
    Tay,
    Txa,
    Txs,
    Tya,
    Tsx,
    Clc,
    Sec,
    Cld,
    Sed,
    Cli,
    Sei,
    Clv,
    Bcc { target: u16 },
    Bcs { target: u16 },
    Beq { target: u16 },
    Bne { target: u16 },
    Bmi { target: u16 },
    Bpl { target: u16 },
    Bvc { target: u16 },
    Bvs { target: u16 },
    Jmp(u16),
    JmpIndirect(u16),
    Jsr(u16),
    Rts,
    Rti,
    Brk,
    Nop,
    Lax(AddrMode),
    Sax(AddrMode),
    Dcp(AddrMode),
    Isc(AddrMode),
    Slo(AddrMode),
    Sre(AddrMode),
    Rla(AddrMode),
    Rra(AddrMode),
    Anc(AddrMode),
    Alr(AddrMode),
    Arr(AddrMode),
    Las(AddrMode),
    Ane(AddrMode),
    Tas(AddrMode),
    Sha(AddrMode),
    Shy(AddrMode),
    Shx(AddrMode),
    Axs(AddrMode),
}

/// A decoded instruction with its length in bytes and its base cycle count.
#[derive(Clone, Copy, Debug)]
pub struct DecodedInst {
    pub op: IrOp,
    pub bytes: u8,
    pub base_cycles: u8,
}

/// Why a basic block ends where it does.
#[derive(Clone, Copy, Debug, PartialEq, Eq, Structural)]
pub enum BlockEnd {
    Branch,
    Jmp,
    JmpIndirect,
    Jsr,
    Rts,
    Rti,
    Brk,
    Sei,
    Cli,
    PageBoundary,
    MaxInstructions,
}

/// A run of instructions that executes straight through.
#[derive(Clone, Debug)]
pub struct BasicBlock {
    pub instructions: Vec<DecodedInst>,
    pub end_type: BlockEnd,
}

/// The fingerprint given to code that runs from save RAM.
pub const SRAM_FINGERPRINT: u32 = 0xFFFF_FFFF;

/// A cached block and the fingerprint of the memory it was decoded from.
pub struct CacheSlot {
    pub block: Option<BasicBlock>,
    pub rom_fingerprint: u32,
}

/// Decoded blocks by start address.
pub struct BlockCache {
    pub slots: HashMap<u16, CacheSlot>,
}

impl BlockCache {
    /// Whether a usable block for `cpu_addr` decoded under `fingerprint` is cached.
    pub open spec fn holds(&self, cpu_addr: u16, fingerprint: u32) -> bool {
        &&& self.slots@.contains_key(cpu_addr)
        &&& self.slots@[cpu_addr].block is Some
        &&& self.slots@[cpu_addr].rom_fingerprint == fingerprint
    }

    pub fn new() -> (c: BlockCache)
        ensures
            c.slots@ == Map::<u16, CacheSlot>::empty(),
    {
        BlockCache { slots: HashMap::with_capacity(1024) }
    }

    /// Whether a block for `cpu_addr` is cached and was decoded from memory
    /// with this fingerprint.
    pub fn validate(&self, cpu_addr: u16, fingerprint: u32) -> (r: bool)
        ensures
            r == self.holds(cpu_addr, fingerprint),
    {
        match self.slots.get(&cpu_addr) {
            Some(slot) => slot.block.is_some() && slot.rom_fingerprint == fingerprint,
            None => false,
        }
    }

    /// Caches `block` for `cpu_addr`, replacing what was there.
    pub fn insert(&mut self, block: BasicBlock, cpu_addr: u16, fingerprint: u32)
        ensures
            final(self).slots@ == old(self).slots@.insert(
                cpu_addr,
                CacheSlot { block: Some(block), rom_fingerprint: fingerprint },
            ),
    {
        self.slots.insert(cpu_addr, CacheSlot { block: Some(block), rom_fingerprint: fingerprint });
    }

    /// Forgets the block for `cpu_addr`.
    pub fn invalidate(&mut self, cpu_addr: u16)
        ensures
            final(self).slots@ == old(self).slots@.remove(cpu_addr),
    {
        self.slots.remove(&cpu_addr);
    }

    /// Forgets every block.
    pub fn clear(&mut self)
        ensures
            final(self).slots@ == Map::<u16, CacheSlot>::empty(),
    {
        self.slots.clear();
    }
}

/// A block cached under a fingerprint is found again under that fingerprint,
/// and under no other.
pub proof fn lemma_insert_then_validate(c: BlockCache, d: BlockCache, block: BasicBlock, a: u16, fp: u32, fp2: u32)
    requires
        d.slots@ == c.slots@.insert(a, CacheSlot { block: Some(block), rom_fingerprint: fp }),
    ensures
        d.holds(a, fp),
        fp2 != fp ==> !d.holds(a, fp2),
{
}

/// Caching or forgetting a block leaves the blocks of other addresses as they were.
pub proof fn lemma_other_slots_unchanged(c: BlockCache, d: BlockCache, block: BasicBlock, a: u16, b: u16, fp: u32, fp2: u32)
    requires
        a != b,
        d.slots@ == c.slots@.insert(a, CacheSlot { block: Some(block), rom_fingerprint: fp })
            || d.slots@ == c.slots@.remove(a),
    ensures
        d.holds(b, fp2) == c.holds(b, fp2),
{
}

/// After a block is forgotten, or the cache cleared, nothing is found for it.
pub proof fn lemma_invalidate_then_validate(c: BlockCache, d: BlockCache, a: u16, fp: u32)
    requires
        d.slots@ == c.slots@.remove(a) || d.slots@ == Map::<u16, CacheSlot>::empty(),
    ensures
        !d.holds(a, fp),
{
}

/// The length in bytes of the instruction with this opcode.
pub open spec fn inst_bytes(opcode: u8) -> u8 {
    if opcode == 0x00 || opcode == 0x02 || opcode == 0x08 || opcode == 0x0A || opcode == 0x12 ||
        opcode == 0x18 || opcode == 0x1A || opcode == 0x22 || opcode == 0x28 || opcode == 0x2A ||
        opcode == 0x32 || opcode == 0x38 || opcode == 0x3A || opcode == 0x40 || opcode == 0x42 ||
        opcode == 0x48 || opcode == 0x4A || opcode == 0x52 || opcode == 0x58 || opcode == 0x5A ||
        opcode == 0x60 || opcode == 0x62 || opcode == 0x68 || opcode == 0x6A || opcode == 0x72 ||
        opcode == 0x78 || opcode == 0x7A || opcode == 0x88 || opcode == 0x8A || opcode == 0x92 ||
        opcode == 0x98 || opcode == 0x9A || opcode == 0xA8 || opcode == 0xAA || opcode == 0xB2 ||
        opcode == 0xB8 || opcode == 0xBA || opcode == 0xC8 || opcode == 0xCA || opcode == 0xD2 ||
        opcode == 0xD8 || opcode == 0xDA || opcode == 0xE8 || opcode == 0xEA || opcode == 0xF2 ||
        opcode == 0xF8 || opcode == 0xFA {
        1
    } else if opcode == 0x01 || opcode == 0x03 || opcode == 0x04 || opcode == 0x05 || opcode == 0x06 ||
        opcode == 0x07 || opcode == 0x09 || opcode == 0x0B || opcode == 0x10 || opcode == 0x11 ||
        opcode == 0x13 || opcode == 0x14 || opcode == 0x15 || opcode == 0x16 || opcode == 0x17 ||
        opcode == 0x21 || opcode == 0x23 || opcode == 0x24 || opcode == 0x25 || opcode == 0x26 ||
        opcode == 0x27 || opcode == 0x29 || opcode == 0x2B || opcode == 0x30 || opcode == 0x31 ||
        opcode == 0x33 || opcode == 0x34 || opcode == 0x35 || opcode == 0x36 || opcode == 0x37 ||
        opcode == 0x41 || opcode == 0x43 || opcode == 0x44 || opcode == 0x45 || opcode == 0x46 ||
        opcode == 0x47 || opcode == 0x49 || opcode == 0x4B || opcode == 0x50 || opcode == 0x51 ||
        opcode == 0x53 || opcode == 0x54 || opcode == 0x55 || opcode == 0x56 || opcode == 0x57 ||
        opcode == 0x61 || opcode == 0x63 || opcode == 0x64 || opcode == 0x65 || opcode == 0x66 ||
        opcode == 0x67 || opcode == 0x69 || opcode == 0x6B || opcode == 0x70 || opcode == 0x71 ||
        opcode == 0x73 || opcode == 0x74 || opcode == 0x75 || opcode == 0x76 || opcode == 0x77 ||
        opcode == 0x80 || opcode == 0x81 || opcode == 0x82 || opcode == 0x83 || opcode == 0x84 ||
        opcode == 0x85 || opcode == 0x86 || opcode == 0x87 || opcode == 0x89 || opcode == 0x8B ||
        opcode == 0x90 || opcode == 0x91 || opcode == 0x93 || opcode == 0x94 || opcode == 0x95 ||
        opcode == 0x96 || opcode == 0x97 || opcode == 0xA0 || opcode == 0xA1 || opcode == 0xA2 ||
        opcode == 0xA3 || opcode == 0xA4 || opcode == 0xA5 || opcode == 0xA6 || opcode == 0xA7 ||
        opcode == 0xA9 || opcode == 0xB0 || opcode == 0xB1 || opcode == 0xB3 || opcode == 0xB4 ||
        opcode == 0xB5 || opcode == 0xB6 || opcode == 0xB7 || opcode == 0xC0 || opcode == 0xC1 ||
        opcode == 0xC2 || opcode == 0xC3 || opcode == 0xC4 || opcode == 0xC5 || opcode == 0xC6 ||
        opcode == 0xC7 || opcode == 0xC9 || opcode == 0xCB || opcode == 0xD0 || opcode == 0xD1 ||
        opcode == 0xD3 || opcode == 0xD4 || opcode == 0xD5 || opcode == 0xD6 || opcode == 0xD7 ||
        opcode == 0xE0 || opcode == 0xE1 || opcode == 0xE2 || opcode == 0xE3 || opcode == 0xE4 ||
        opcode == 0xE5 || opcode == 0xE6 || opcode == 0xE7 || opcode == 0xE9 || opcode == 0xEB ||
        opcode == 0xF0 || opcode == 0xF1 || opcode == 0xF3 || opcode == 0xF4 || opcode == 0xF5 ||
        opcode == 0xF6 || opcode == 0xF7 {
        2
    } else {
        3
    }
}

/// The base cycle count of the instruction with this opcode.
pub open spec fn inst_base_cycles(opcode: u8) -> u8 {
    if opcode == 0x02 || opcode == 0x09 || opcode == 0x0A || opcode == 0x0B || opcode == 0x10 ||
        opcode == 0x12 || opcode == 0x18 || opcode == 0x1A || opcode == 0x22 || opcode == 0x29 ||
        opcode == 0x2A || opcode == 0x2B || opcode == 0x30 || opcode == 0x32 || opcode == 0x38 ||
        opcode == 0x3A || opcode == 0x42 || opcode == 0x49 || opcode == 0x4A || opcode == 0x4B ||
        opcode == 0x50 || opcode == 0x52 || opcode == 0x58 || opcode == 0x5A || opcode == 0x62 ||
        opcode == 0x69 || opcode == 0x6A || opcode == 0x6B || opcode == 0x70 || opcode == 0x72 ||
        opcode == 0x78 || opcode == 0x7A || opcode == 0x80 || opcode == 0x82 || opcode == 0x88 ||
        opcode == 0x89 || opcode == 0x8A || opcode == 0x8B || opcode == 0x90 || opcode == 0x92 ||
        opcode == 0x98 || opcode == 0x9A || opcode == 0xA0 || opcode == 0xA2 || opcode == 0xA8 ||
        opcode == 0xA9 || opcode == 0xAA || opcode == 0xB0 || opcode == 0xB2 || opcode == 0xB8 ||
        opcode == 0xBA || opcode == 0xC0 || opcode == 0xC2 || opcode == 0xC8 || opcode == 0xC9 ||
        opcode == 0xCA || opcode == 0xCB || opcode == 0xD0 || opcode == 0xD2 || opcode == 0xD8 ||
        opcode == 0xDA || opcode == 0xE0 || opcode == 0xE2 || opcode == 0xE8 || opcode == 0xE9 ||
        opcode == 0xEA || opcode == 0xEB || opcode == 0xF0 || opcode == 0xF2 || opcode == 0xF8 ||
        opcode == 0xFA {
        2
    } else if opcode == 0x04 || opcode == 0x05 || opcode == 0x08 || opcode == 0x24 || opcode == 0x25 ||
        opcode == 0x44 || opcode == 0x45 || opcode == 0x48 || opcode == 0x4C || opcode == 0x64 ||
        opcode == 0x65 || opcode == 0x84 || opcode == 0x85 || opcode == 0x86 || opcode == 0x87 ||
        opcode == 0xA4 || opcode == 0xA5 || opcode == 0xA6 || opcode == 0xA7 || opcode == 0xC4 ||
        opcode == 0xC5 || opcode == 0xE4 || opcode == 0xE5 {
        3
    } else if opcode == 0x0C || opcode == 0x0D || opcode == 0x14 || opcode == 0x15 || opcode == 0x19 ||
        opcode == 0x1C || opcode == 0x1D || opcode == 0x28 || opcode == 0x2C || opcode == 0x2D ||
        opcode == 0x34 || opcode == 0x35 || opcode == 0x39 || opcode == 0x3C || opcode == 0x3D ||
        opcode == 0x4D || opcode == 0x54 || opcode == 0x55 || opcode == 0x59 || opcode == 0x5C ||
        opcode == 0x5D || opcode == 0x68 || opcode == 0x6D || opcode == 0x74 || opcode == 0x75 ||
        opcode == 0x79 || opcode == 0x7C || opcode == 0x7D || opcode == 0x8C || opcode == 0x8D ||
        opcode == 0x8E || opcode == 0x8F || opcode == 0x94 || opcode == 0x95 || opcode == 0x96 ||
        opcode == 0x97 || opcode == 0xAC || opcode == 0xAD || opcode == 0xAE || opcode == 0xAF ||
        opcode == 0xB4 || opcode == 0xB5 || opcode == 0xB6 || opcode == 0xB7 || opcode == 0xB9 ||
        opcode == 0xBB || opcode == 0xBC || opcode == 0xBD || opcode == 0xBE || opcode == 0xBF ||
        opcode == 0xCC || opcode == 0xCD || opcode == 0xD4 || opcode == 0xD5 || opcode == 0xD9 ||
        opcode == 0xDC || opcode == 0xDD || opcode == 0xEC || opcode == 0xED || opcode == 0xF4 ||
        opcode == 0xF5 || opcode == 0xF9 || opcode == 0xFC || opcode == 0xFD {
        4
    } else if opcode == 0x06 || opcode == 0x07 || opcode == 0x11 || opcode == 0x26 || opcode == 0x27 ||
        opcode == 0x31 || opcode == 0x46 || opcode == 0x47 || opcode == 0x51 || opcode == 0x66 ||
        opcode == 0x67 || opcode == 0x6C || opcode == 0x71 || opcode == 0x99 || opcode == 0x9B ||
        opcode == 0x9C || opcode == 0x9D || opcode == 0x9E || opcode == 0x9F || opcode == 0xB1 ||
        opcode == 0xB3 || opcode == 0xC6 || opcode == 0xC7 || opcode == 0xD1 || opcode == 0xE6 ||
        opcode == 0xE7 || opcode == 0xF1 {
        5
    } else if opcode == 0x01 || opcode == 0x0E || opcode == 0x0F || opcode == 0x16 || opcode == 0x17 ||
        opcode == 0x20 || opcode == 0x21 || opcode == 0x2E || opcode == 0x2F || opcode == 0x36 ||
        opcode == 0x37 || opcode == 0x40 || opcode == 0x41 || opcode == 0x4E || opcode == 0x4F ||
        opcode == 0x56 || opcode == 0x57 || opcode == 0x60 || opcode == 0x61 || opcode == 0x6E ||
        opcode == 0x6F || opcode == 0x76 || opcode == 0x77 || opcode == 0x81 || opcode == 0x83 ||
        opcode == 0x91 || opcode == 0x93 || opcode == 0xA1 || opcode == 0xA3 || opcode == 0xC1 ||
        opcode == 0xCE || opcode == 0xCF || opcode == 0xD6 || opcode == 0xD7 || opcode == 0xE1 ||
        opcode == 0xEE || opcode == 0xEF || opcode == 0xF6 || opcode == 0xF7 {
        6
    } else if opcode == 0x00 || opcode == 0x1B || opcode == 0x1E || opcode == 0x1F || opcode == 0x3B ||
        opcode == 0x3E || opcode == 0x3F || opcode == 0x5B || opcode == 0x5E || opcode == 0x5F ||
        opcode == 0x7B || opcode == 0x7E || opcode == 0x7F || opcode == 0xDB || opcode == 0xDE ||
        opcode == 0xDF || opcode == 0xFB || opcode == 0xFE || opcode == 0xFF {
        7
    } else {
        8
    }
}

/// Where a relative branch lands: the offset byte, read as signed, added to
/// the address after the two-byte instruction.
pub open spec fn branch_target(pc: u16, offset: u8) -> u16 {
    pc_plus(pc_plus(pc, 1), offset as i8 as int)
}

/// `pc` moved by the signed `offset`, wrapping at 64 KiB.
pub fn relative_target(pc: u16, offset: i8) -> (t: u16)
    ensures
        t == pc_plus(pc, offset as int),
{
    let t = ((pc as i32) + (offset as i32)) as u16;
    assert(t == pc_plus(pc, offset as int)) by (bit_vector)
        requires t == ((pc as i32) + (offset as i32)) as u16;
    t
}

/// Whether the CPU reads `addr` from work RAM or the cartridge.
pub open spec fn code_addr(addr: u16) -> bool {
    addr < 0x2000 || addr >= 0x4018
}

/// The byte that the CPU reads at code address `addr`.
pub open spec fn code_byte(s: State, addr: u16) -> u8 {
    if addr < 0x2000 { s.ram_at(addr) } else { s.mapper.peek_value(addr) }
}

/// The console's memory after the CPU read code address `addr`: a
/// cartridge read may change the board's state.
pub open spec fn after_code_read(s: State, addr: u16) -> State {
    if addr >= 0x4018 { State { mapper: s.mapper.after_read(addr), ..s } } else { s }
}

/// The little-endian word that the CPU reads at code address `addr` and
/// the one after it.
pub open spec fn code_word(s: State, addr: u16) -> u16 {
    word_of(code_byte(s, addr), code_byte(after_code_read(s, addr), pc_plus(addr, 1)))
}

/// The console's memory after the CPU read the `k` (at most three) code
/// bytes from `a` on.
pub open spec fn code_reads(s: State, a: u16, k: int) -> State {
    if k <= 0 {
        s
    } else if k == 1 {
        after_code_read(s, a)
    } else if k == 2 {
        after_code_read(after_code_read(s, a), pc_plus(a, 1))
    } else {
        after_code_read(after_code_read(after_code_read(s, a), pc_plus(a, 1)), pc_plus(a, 2))
    }
}

/// Whether the two bytes after the opcode are read from work RAM or the
/// cartridge.
pub open spec fn operands_readable(s: State) -> bool {
    code_addr(s.cpu.pc) && code_addr(pc_plus(s.cpu.pc, 1))
}

/// Reads the byte at the program counter and steps past it.
pub fn read_operand_byte(s: &mut State) -> (r: u8)
    requires
        old(s).wf(),
    ensures
        bus_step(*final(s), *old(s)),
        same_but_pc(final(s).cpu, old(s).cpu),
        final(s).cpu.pc == pc_plus(old(s).cpu.pc, 1),
        final(s).ram == old(s).ram,
        old(s).cpu.pc < 0x2000 ==> r == old(s).ram_at(old(s).cpu.pc),
        code_addr(old(s).cpu.pc) ==> r == code_byte(*old(s), old(s).cpu.pc)
            && final(s).mapper == after_code_read(*old(s), old(s).cpu.pc).mapper,
{
    let pc = s.cpu.pc;
    let data = s.cpu_peek(pc);
    s.cpu.pc = pc.wrapping_add(1);
    data
}

/// Reads the little-endian word at the program counter and steps past it.
pub fn read_operand_u16(s: &mut State) -> (r: u16)
    requires
        old(s).wf(),
    ensures
        bus_step(*final(s), *old(s)),
        same_but_pc(final(s).cpu, old(s).cpu),
        final(s).cpu.pc == pc_plus(old(s).cpu.pc, 2),
        final(s).ram == old(s).ram,
        operands_readable(*old(s)) ==> r == code_word(*old(s), old(s).cpu.pc)
            && final(s).mapper == code_reads(*old(s), old(s).cpu.pc, 2).mapper,
{
    let lo = read_operand_byte(s) as u16;
    let hi = read_operand_byte(s) as u16;
    (hi << 8) | lo
}

/// How many bytes after the opcode `decode_opcode` reads for `opcode`:
/// its operand bytes, and the dummy read of the single-byte stack
/// instructions.
pub open spec fn decode_reads(opcode: u8) -> int {
    if opcode == 0x0C || opcode == 0x0D || opcode == 0x0E || opcode == 0x0F || opcode == 0x19 ||
        opcode == 0x1B || opcode == 0x1C || opcode == 0x1D || opcode == 0x1E || opcode == 0x1F ||
        opcode == 0x20 || opcode == 0x2C || opcode == 0x2D || opcode == 0x2E || opcode == 0x2F ||
        opcode == 0x39 || opcode == 0x3B || opcode == 0x3C || opcode == 0x3D || opcode == 0x3E ||
        opcode == 0x3F || opcode == 0x4C || opcode == 0x4D || opcode == 0x4E || opcode == 0x4F ||
        opcode == 0x59 || opcode == 0x5B || opcode == 0x5C || opcode == 0x5D || opcode == 0x5E ||
        opcode == 0x5F || opcode == 0x6C || opcode == 0x6D || opcode == 0x6E || opcode == 0x6F ||
        opcode == 0x79 || opcode == 0x7B || opcode == 0x7C || opcode == 0x7D || opcode == 0x7E ||
        opcode == 0x7F || opcode == 0x8C || opcode == 0x8D || opcode == 0x8E || opcode == 0x8F ||
        opcode == 0x99 || opcode == 0x9B || opcode == 0x9C || opcode == 0x9D || opcode == 0x9E ||
        opcode == 0x9F || opcode == 0xAC || opcode == 0xAD || opcode == 0xAE || opcode == 0xAF ||
        opcode == 0xB9 || opcode == 0xBB || opcode == 0xBC || opcode == 0xBD || opcode == 0xBE ||
        opcode == 0xBF || opcode == 0xCC || opcode == 0xCD || opcode == 0xCE || opcode == 0xCF ||
        opcode == 0xD9 || opcode == 0xDB || opcode == 0xDC || opcode == 0xDD || opcode == 0xDE ||
        opcode == 0xDF || opcode == 0xEC || opcode == 0xED || opcode == 0xEE || opcode == 0xEF ||
        opcode == 0xF9 || opcode == 0xFB || opcode == 0xFC || opcode == 0xFD || opcode == 0xFE ||
        opcode == 0xFF {
        2
    } else if opcode == 0x00 || opcode == 0x01 || opcode == 0x03 || opcode == 0x04 || opcode == 0x05 ||
        opcode == 0x06 || opcode == 0x07 || opcode == 0x08 || opcode == 0x09 || opcode == 0x0B ||
        opcode == 0x10 || opcode == 0x11 || opcode == 0x13 || opcode == 0x14 || opcode == 0x15 ||
        opcode == 0x16 || opcode == 0x17 || opcode == 0x21 || opcode == 0x23 || opcode == 0x24 ||
        opcode == 0x25 || opcode == 0x26 || opcode == 0x27 || opcode == 0x28 || opcode == 0x29 ||
        opcode == 0x2B || opcode == 0x30 || opcode == 0x31 || opcode == 0x33 || opcode == 0x34 ||
        opcode == 0x35 || opcode == 0x36 || opcode == 0x37 || opcode == 0x40 || opcode == 0x41 ||
        opcode == 0x43 || opcode == 0x44 || opcode == 0x45 || opcode == 0x46 || opcode == 0x47 ||
        opcode == 0x48 || opcode == 0x49 || opcode == 0x4B || opcode == 0x50 || opcode == 0x51 ||
        opcode == 0x53 || opcode == 0x54 || opcode == 0x55 || opcode == 0x56 || opcode == 0x57 ||
        opcode == 0x60 || opcode == 0x61 || opcode == 0x63 || opcode == 0x64 || opcode == 0x65 ||
        opcode == 0x66 || opcode == 0x67 || opcode == 0x68 || opcode == 0x69 || opcode == 0x6B ||
        opcode == 0x70 || opcode == 0x71 || opcode == 0x73 || opcode == 0x74 || opcode == 0x75 ||
        opcode == 0x76 || opcode == 0x77 || opcode == 0x80 || opcode == 0x81 || opcode == 0x82 ||
        opcode == 0x83 || opcode == 0x84 || opcode == 0x85 || opcode == 0x86 || opcode == 0x87 ||
        opcode == 0x88 || opcode == 0x89 || opcode == 0x8A || opcode == 0x8B || opcode == 0x90 ||
        opcode == 0x91 || opcode == 0x93 || opcode == 0x94 || opcode == 0x95 || opcode == 0x96 ||
        opcode == 0x97 || opcode == 0x98 || opcode == 0x9A || opcode == 0xA0 || opcode == 0xA1 ||
        opcode == 0xA2 || opcode == 0xA3 || opcode == 0xA4 || opcode == 0xA5 || opcode == 0xA6 ||
        opcode == 0xA7 || opcode == 0xA8 || opcode == 0xA9 || opcode == 0xAA || opcode == 0xB0 ||
        opcode == 0xB1 || opcode == 0xB3 || opcode == 0xB4 || opcode == 0xB5 || opcode == 0xB6 ||
        opcode == 0xB7 || opcode == 0xBA || opcode == 0xC0 || opcode == 0xC1 || opcode == 0xC2 ||
        opcode == 0xC3 || opcode == 0xC4 || opcode == 0xC5 || opcode == 0xC6 || opcode == 0xC7 ||
        opcode == 0xC8 || opcode == 0xC9 || opcode == 0xCA || opcode == 0xCB || opcode == 0xD0 ||
        opcode == 0xD1 || opcode == 0xD3 || opcode == 0xD4 || opcode == 0xD5 || opcode == 0xD6 ||
        opcode == 0xD7 || opcode == 0xE0 || opcode == 0xE1 || opcode == 0xE2 || opcode == 0xE3 ||
        opcode == 0xE4 || opcode == 0xE5 || opcode == 0xE6 || opcode == 0xE7 || opcode == 0xE8 ||
        opcode == 0xE9 || opcode == 0xEA || opcode == 0xEB || opcode == 0xF0 || opcode == 0xF1 ||
        opcode == 0xF3 || opcode == 0xF4 || opcode == 0xF5 || opcode == 0xF6 || opcode == 0xF7 {
        1
    } else {
        0
    }
}

/// The op that `decode_opcode` makes of `opcode`, given the operand byte
/// `b`, the operand word `w` and the branch target `t` it reads or
/// computes (each used only by the opcodes that take it).
#[verifier::opaque]
pub open spec fn decoded_op(opcode: u8, b: u8, w: u16, t: u16) -> IrOp {
    match opcode {
        0x00 => IrOp::Brk,
        0x01 => IrOp::Ora(AddrMode::IndirectX(b)),
        0x02 => IrOp::Nop,
        0x03 => IrOp::Slo(AddrMode::IndirectX(b)),
        0x04 => IrOp::Nop,
        0x05 => IrOp::Ora(AddrMode::ZeroPage(b)),
        0x06 => IrOp::Asl(AddrMode::ZeroPage(b)),
        0x07 => IrOp::Slo(AddrMode::ZeroPage(b)),
        0x08 => IrOp::Php,
        0x09 => IrOp::Ora(AddrMode::Immediate(b)),
        0x0A => IrOp::Asl(AddrMode::Accumulator),
        0x0B => IrOp::Anc(AddrMode::Immediate(b)),
        0x0C => IrOp::Nop,
        0x0D => IrOp::Ora(AddrMode::Absolute(w)),
        0x0E => IrOp::Asl(AddrMode::Absolute(w)),
        0x0F => IrOp::Slo(AddrMode::Absolute(w)),
        0x10 => IrOp::Bpl { target: t },
        0x11 => IrOp::Ora(AddrMode::IndirectY(b)),
        0x12 => IrOp::Nop,
        0x13 => IrOp::Slo(AddrMode::IndirectY(b)),
        0x14 => IrOp::Nop,
        0x15 => IrOp::Ora(AddrMode::ZeroPageX(b)),
        0x16 => IrOp::Asl(AddrMode::ZeroPageX(b)),
        0x17 => IrOp::Slo(AddrMode::ZeroPageX(b)),
        0x18 => IrOp::Clc,
        0x19 => IrOp::Ora(AddrMode::AbsoluteY(w)),
        0x1A => IrOp::Nop,
        0x1B => IrOp::Slo(AddrMode::AbsoluteY(w)),
        0x1C => IrOp::Nop,
        0x1D => IrOp::Ora(AddrMode::AbsoluteX(w)),
        0x1E => IrOp::Asl(AddrMode::AbsoluteX(w)),
        0x1F => IrOp::Slo(AddrMode::AbsoluteX(w)),
        0x20 => IrOp::Jsr(w),
        0x21 => IrOp::And(AddrMode::IndirectX(b)),
        0x22 => IrOp::Nop,
        0x23 => IrOp::Rla(AddrMode::IndirectX(b)),
        0x24 => IrOp::Bit(AddrMode::ZeroPage(b)),
        0x25 => IrOp::And(AddrMode::ZeroPage(b)),
        0x26 => IrOp::Rol(AddrMode::ZeroPage(b)),
        0x27 => IrOp::Rla(AddrMode::ZeroPage(b)),
        0x28 => IrOp::Plp,
        0x29 => IrOp::And(AddrMode::Immediate(b)),
        0x2A => IrOp::Rol(AddrMode::Accumulator),
        0x2B => IrOp::Anc(AddrMode::Immediate(b)),
        0x2C => IrOp::Bit(AddrMode::Absolute(w)),
        0x2D => IrOp::And(AddrMode::Absolute(w)),
        0x2E => IrOp::Rol(AddrMode::Absolute(w)),
        0x2F => IrOp::Rla(AddrMode::Absolute(w)),
        0x30 => IrOp::Bmi { target: t },
        0x31 => IrOp::And(AddrMode::IndirectY(b)),
        0x32 => IrOp::Nop,
        0x33 => IrOp::Rla(AddrMode::IndirectY(b)),
        0x34 => IrOp::Nop,
        0x35 => IrOp::And(AddrMode::ZeroPageX(b)),
        0x36 => IrOp::Rol(AddrMode::ZeroPageX(b)),
        0x37 => IrOp::Rla(AddrMode::ZeroPageX(b)),
        0x38 => IrOp::Sec,
        0x39 => IrOp::And(AddrMode::AbsoluteY(w)),
        0x3A => IrOp::Nop,
        0x3B => IrOp::Rla(AddrMode::AbsoluteY(w)),
        0x3C => IrOp::Nop,
        0x3D => IrOp::And(AddrMode::AbsoluteX(w)),
        0x3E => IrOp::Rol(AddrMode::AbsoluteX(w)),
        0x3F => IrOp::Rla(AddrMode::AbsoluteX(w)),
        0x40 => IrOp::Rti,
        0x41 => IrOp::Eor(AddrMode::IndirectX(b)),
        0x42 => IrOp::Nop,
        0x43 => IrOp::Sre(AddrMode::IndirectX(b)),
        0x44 => IrOp::Nop,
        0x45 => IrOp::Eor(AddrMode::ZeroPage(b)),
        0x46 => IrOp::Lsr(AddrMode::ZeroPage(b)),
        0x47 => IrOp::Sre(AddrMode::ZeroPage(b)),
        0x48 => IrOp::Pha,
        0x49 => IrOp::Eor(AddrMode::Immediate(b)),
        0x4A => IrOp::Lsr(AddrMode::Accumulator),
        0x4B => IrOp::Alr(AddrMode::Immediate(b)),
        0x4C => IrOp::Jmp(w),
        0x4D => IrOp::Eor(AddrMode::Absolute(w)),
        0x4E => IrOp::Lsr(AddrMode::Absolute(w)),
        0x4F => IrOp::Sre(AddrMode::Absolute(w)),
        0x50 => IrOp::Bvc { target: t },
        0x51 => IrOp::Eor(AddrMode::IndirectY(b)),
        0x52 => IrOp::Nop,
        0x53 => IrOp::Sre(AddrMode::IndirectY(b)),
        0x54 => IrOp::Nop,
        0x55 => IrOp::Eor(AddrMode::ZeroPageX(b)),
        0x56 => IrOp::Lsr(AddrMode::ZeroPageX(b)),
        0x57 => IrOp::Sre(AddrMode::ZeroPageX(b)),
        0x58 => IrOp::Cli,
        0x59 => IrOp::Eor(AddrMode::AbsoluteY(w)),
        0x5A => IrOp::Nop,
        0x5B => IrOp::Sre(AddrMode::AbsoluteY(w)),
        0x5C => IrOp::Nop,
        0x5D => IrOp::Eor(AddrMode::AbsoluteX(w)),
        0x5E => IrOp::Lsr(AddrMode::AbsoluteX(w)),
        0x5F => IrOp::Sre(AddrMode::AbsoluteX(w)),
        0x60 => IrOp::Rts,
        0x61 => IrOp::Adc(AddrMode::IndirectX(b)),
        0x62 => IrOp::Nop,
        0x63 => IrOp::Rra(AddrMode::IndirectX(b)),
        0x64 => IrOp::Nop,
        0x65 => IrOp::Adc(AddrMode::ZeroPage(b)),
        0x66 => IrOp::Ror(AddrMode::ZeroPage(b)),
        0x67 => IrOp::Rra(AddrMode::ZeroPage(b)),
        0x68 => IrOp::Pla,
        0x69 => IrOp::Adc(AddrMode::Immediate(b)),
        0x6A => IrOp::Ror(AddrMode::Accumulator),
        0x6B => IrOp::Arr(AddrMode::Immediate(b)),
        0x6C => IrOp::JmpIndirect(w),
        0x6D => IrOp::Adc(AddrMode::Absolute(w)),
        0x6E => IrOp::Ror(AddrMode::Absolute(w)),
        0x6F => IrOp::Rra(AddrMode::Absolute(w)),
        0x70 => IrOp::Bvs { target: t },
        0x71 => IrOp::Adc(AddrMode::IndirectY(b)),
        0x72 => IrOp::Nop,
        0x73 => IrOp::Rra(AddrMode::IndirectY(b)),
        0x74 => IrOp::Nop,
        0x75 => IrOp::Adc(AddrMode::ZeroPageX(b)),
        0x76 => IrOp::Ror(AddrMode::ZeroPageX(b)),
        0x77 => IrOp::Rra(AddrMode::ZeroPageX(b)),
        0x78 => IrOp::Sei,
        0x79 => IrOp::Adc(AddrMode::AbsoluteY(w)),
        0x7A => IrOp::Nop,
        0x7B => IrOp::Rra(AddrMode::AbsoluteY(w)),
        0x7C => IrOp::Nop,
        0x7D => IrOp::Adc(AddrMode::AbsoluteX(w)),
        0x7E => IrOp::Ror(AddrMode::AbsoluteX(w)),
        0x7F => IrOp::Rra(AddrMode::AbsoluteX(w)),
        0x80 => IrOp::Nop,
        0x81 => IrOp::Sta(AddrMode::IndirectX(b)),
        0x82 => IrOp::Nop,
        0x83 => IrOp::Sax(AddrMode::IndirectX(b)),
        0x84 => IrOp::Sty(AddrMode::ZeroPage(b)),
        0x85 => IrOp::Sta(AddrMode::ZeroPage(b)),
        0x86 => IrOp::Stx(AddrMode::ZeroPage(b)),
        0x87 => IrOp::Sax(AddrMode::ZeroPage(b)),
        0x88 => IrOp::Dey,
        0x89 => IrOp::Nop,
        0x8A => IrOp::Txa,
        0x8B => IrOp::Ane(AddrMode::Immediate(b)),
        0x8C => IrOp::Sty(AddrMode::Absolute(w)),
        0x8D => IrOp::Sta(AddrMode::Absolute(w)),
        0x8E => IrOp::Stx(AddrMode::Absolute(w)),
        0x8F => IrOp::Sax(AddrMode::Absolute(w)),
        0x90 => IrOp::Bcc { target: t },
        0x91 => IrOp::Sta(AddrMode::IndirectY(b)),
        0x92 => IrOp::Nop,
        0x93 => IrOp::Sha(AddrMode::IndirectY(b)),
        0x94 => IrOp::Sty(AddrMode::ZeroPageX(b)),
        0x95 => IrOp::Sta(AddrMode::ZeroPageX(b)),
        0x96 => IrOp::Stx(AddrMode::ZeroPageY(b)),
        0x97 => IrOp::Sax(AddrMode::ZeroPageY(b)),
        0x98 => IrOp::Tya,
        0x99 => IrOp::Sta(AddrMode::AbsoluteY(w)),
        0x9A => IrOp::Txs,
        0x9B => IrOp::Tas(AddrMode::AbsoluteY(w)),
        0x9C => IrOp::Shy(AddrMode::AbsoluteX(w)),
        0x9D => IrOp::Sta(AddrMode::AbsoluteX(w)),
        0x9E => IrOp::Shx(AddrMode::AbsoluteY(w)),
        0x9F => IrOp::Sha(AddrMode::AbsoluteY(w)),
        0xA0 => IrOp::Ldy(AddrMode::Immediate(b)),
        0xA1 => IrOp::Lda(AddrMode::IndirectX(b)),
        0xA2 => IrOp::Ldx(AddrMode::Immediate(b)),
        0xA3 => IrOp::Lax(AddrMode::IndirectX(b)),
        0xA4 => IrOp::Ldy(AddrMode::ZeroPage(b)),
        0xA5 => IrOp::Lda(AddrMode::ZeroPage(b)),
        0xA6 => IrOp::Ldx(AddrMode::ZeroPage(b)),
        0xA7 => IrOp::Lax(AddrMode::ZeroPage(b)),
        0xA8 => IrOp::Tay,
        0xA9 => IrOp::Lda(AddrMode::Immediate(b)),
        0xAA => IrOp::Tax,
        0xAC => IrOp::Ldy(AddrMode::Absolute(w)),
        0xAD => IrOp::Lda(AddrMode::Absolute(w)),
        0xAE => IrOp::Ldx(AddrMode::Absolute(w)),
        0xAF => IrOp::Lax(AddrMode::Absolute(w)),
        0xB0 => IrOp::Bcs { target: t },
        0xB1 => IrOp::Lda(AddrMode::IndirectY(b)),
        0xB2 => IrOp::Nop,
        0xB3 => IrOp::Lax(AddrMode::IndirectY(b)),
        0xB4 => IrOp::Ldy(AddrMode::ZeroPageX(b)),
        0xB5 => IrOp::Lda(AddrMode::ZeroPageX(b)),
        0xB6 => IrOp::Ldx(AddrMode::ZeroPageY(b)),
        0xB7 => IrOp::Lax(AddrMode::ZeroPageY(b)),
        0xB8 => IrOp::Clv,
        0xB9 => IrOp::Lda(AddrMode::AbsoluteY(w)),
        0xBA => IrOp::Tsx,
        0xBB => IrOp::Las(AddrMode::AbsoluteY(w)),
        0xBC => IrOp::Ldy(AddrMode::AbsoluteX(w)),
        0xBD => IrOp::Lda(AddrMode::AbsoluteX(w)),
        0xBE => IrOp::Ldx(AddrMode::AbsoluteY(w)),
        0xBF => IrOp::Lax(AddrMode::AbsoluteY(w)),
        0xC0 => IrOp::Cpy(AddrMode::Immediate(b)),
        0xC1 => IrOp::Cmp(AddrMode::IndirectX(b)),
        0xC2 => IrOp::Nop,
        0xC3 => IrOp::Dcp(AddrMode::IndirectX(b)),
        0xC4 => IrOp::Cpy(AddrMode::ZeroPage(b)),
        0xC5 => IrOp::Cmp(AddrMode::ZeroPage(b)),
        0xC6 => IrOp::Dec(AddrMode::ZeroPage(b)),
        0xC7 => IrOp::Dcp(AddrMode::ZeroPage(b)),
        0xC8 => IrOp::Iny,
        0xC9 => IrOp::Cmp(AddrMode::Immediate(b)),
        0xCA => IrOp::Dex,
        0xCB => IrOp::Axs(AddrMode::Immediate(b)),
        0xCC => IrOp::Cpy(AddrMode::Absolute(w)),
        0xCD => IrOp::Cmp(AddrMode::Absolute(w)),
        0xCE => IrOp::Dec(AddrMode::Absolute(w)),
        0xCF => IrOp::Dcp(AddrMode::Absolute(w)),
        0xD0 => IrOp::Bne { target: t },
        0xD1 => IrOp::Cmp(AddrMode::IndirectY(b)),
        0xD2 => IrOp::Nop,
        0xD3 => IrOp::Dcp(AddrMode::IndirectY(b)),
        0xD4 => IrOp::Nop,
        0xD5 => IrOp::Cmp(AddrMode::ZeroPageX(b)),
        0xD6 => IrOp::Dec(AddrMode::ZeroPageX(b)),
        0xD7 => IrOp::Dcp(AddrMode::ZeroPageX(b)),
        0xD8 => IrOp::Cld,
        0xD9 => IrOp::Cmp(AddrMode::AbsoluteY(w)),
        0xDA => IrOp::Nop,
        0xDB => IrOp::Dcp(AddrMode::AbsoluteY(w)),
        0xDC => IrOp::Nop,
        0xDD => IrOp::Cmp(AddrMode::AbsoluteX(w)),
        0xDE => IrOp::Dec(AddrMode::AbsoluteX(w)),
        0xDF => IrOp::Dcp(AddrMode::AbsoluteX(w)),
        0xE0 => IrOp::Cpx(AddrMode::Immediate(b)),
        0xE1 => IrOp::Sbc(AddrMode::IndirectX(b)),
        0xE2 => IrOp::Nop,
        0xE3 => IrOp::Isc(AddrMode::IndirectX(b)),
        0xE4 => IrOp::Cpx(AddrMode::ZeroPage(b)),
        0xE5 => IrOp::Sbc(AddrMode::ZeroPage(b)),
        0xE6 => IrOp::Inc(AddrMode::ZeroPage(b)),
        0xE7 => IrOp::Isc(AddrMode::ZeroPage(b)),
        0xE8 => IrOp::Inx,
        0xE9 => IrOp::Sbc(AddrMode::Immediate(b)),
        0xEA => IrOp::Nop,
        0xEB => IrOp::Sbc(AddrMode::Immediate(b)),
        0xEC => IrOp::Cpx(AddrMode::Absolute(w)),
        0xED => IrOp::Sbc(AddrMode::Absolute(w)),
        0xEE => IrOp::Inc(AddrMode::Absolute(w)),
        0xEF => IrOp::Isc(AddrMode::Absolute(w)),
        0xF0 => IrOp::Beq { target: t },
        0xF1 => IrOp::Sbc(AddrMode::IndirectY(b)),
        0xF2 => IrOp::Nop,
        0xF3 => IrOp::Isc(AddrMode::IndirectY(b)),
        0xF4 => IrOp::Nop,
        0xF5 => IrOp::Sbc(AddrMode::ZeroPageX(b)),
        0xF6 => IrOp::Inc(AddrMode::ZeroPageX(b)),
        0xF7 => IrOp::Isc(AddrMode::ZeroPageX(b)),
        0xF8 => IrOp::Sed,
        0xF9 => IrOp::Sbc(AddrMode::AbsoluteY(w)),
        0xFA => IrOp::Nop,
        0xFB => IrOp::Isc(AddrMode::AbsoluteY(w)),
        0xFC => IrOp::Nop,
        0xFD => IrOp::Sbc(AddrMode::AbsoluteX(w)),
        0xFE => IrOp::Inc(AddrMode::AbsoluteX(w)),
        0xFF => IrOp::Isc(AddrMode::AbsoluteX(w)),
        _ => IrOp::Nop,
    }
}

/// Decodes the instruction with opcode `opcode` whose operands start at
/// the program counter, reading them (and moving the program counter past
/// what it read).  0xAB, whose effect depends on the chip, is not decoded.
#[verifier::rlimit(100)]
pub fn decode_opcode(s: &mut State, opcode: u8) -> (r: DecodedInst)
    requires
        old(s).wf(),
        opcode != 0xAB,
    ensures
        bus_step(*final(s), *old(s)),
        same_but_pc(final(s).cpu, old(s).cpu),
        final(s).ram == old(s).ram,
        r.bytes == inst_bytes(opcode),
        1 <= r.bytes <= 3,
        r.base_cycles == inst_base_cycles(opcode),
        exists|b: u8, w: u16, t: u16| #[trigger] decoded_op(opcode, b, w, t) == r.op,
        operands_readable(*old(s)) ==> final(s).mapper == code_reads(*old(s), old(s).cpu.pc,
            decode_reads(opcode)).mapper,
        operands_readable(*old(s)) ==> r.op == decoded_op(opcode, code_byte(*old(s), old(s).cpu.pc),
            code_word(*old(s), old(s).cpu.pc), branch_target(old(s).cpu.pc, code_byte(*old(s), old(s).cpu.pc))),
        old(s).cpu.pc < 0x2000 ==> {
            let t = branch_target(old(s).cpu.pc, old(s).ram_at(old(s).cpu.pc));
            &&& opcode == 0x90 ==> r.op == IrOp::Bcc { target: t }
            &&& opcode == 0xB0 ==> r.op == IrOp::Bcs { target: t }
            &&& opcode == 0xF0 ==> r.op == IrOp::Beq { target: t }
            &&& opcode == 0xD0 ==> r.op == IrOp::Bne { target: t }
            &&& opcode == 0x30 ==> r.op == IrOp::Bmi { target: t }
            &&& opcode == 0x10 ==> r.op == IrOp::Bpl { target: t }
            &&& opcode == 0x50 ==> r.op == IrOp::Bvc { target: t }
            &&& opcode == 0x70 ==> r.op == IrOp::Bvs { target: t }
        },
{
    match opcode {
        0x00 => {
            read_operand_byte(s);
            let d = DecodedInst { op: IrOp::Brk, bytes: 1, base_cycles: 7 };
            assert(d.op == decoded_op(opcode, 0u8, 0u16, 0u16)) by { reveal(decoded_op); }
            assert(operands_readable(*old(s)) ==> d.op == decoded_op(opcode, code_byte(*old(s), old(s).cpu.pc),
                code_word(*old(s), old(s).cpu.pc), branch_target(old(s).cpu.pc, code_byte(*old(s), old(s).cpu.pc))))
                by { reveal(decoded_op); }
            d
        },
        0x01 => {
            let v = read_operand_byte(s);
            let d = DecodedInst { op: IrOp::Ora(AddrMode::IndirectX(v)), bytes: 2, base_cycles: 6 };
            assert(d.op == decoded_op(opcode, v, 0u16, 0u16)) by { reveal(decoded_op); }
            assert(operands_readable(*old(s)) ==> d.op == decoded_op(opcode, code_byte(*old(s), old(s).cpu.pc),
                code_word(*old(s), old(s).cpu.pc), branch_target(old(s).cpu.pc, code_byte(*old(s), old(s).cpu.pc))))
                by { reveal(decoded_op); }
            d
        },
        0x02 => {
            let d = DecodedInst { op: IrOp::Nop, bytes: 1, base_cycles: 2 };
            assert(d.op == decoded_op(opcode, 0u8, 0u16, 0u16)) by { reveal(decoded_op); }
            assert(operands_readable(*old(s)) ==> d.op == decoded_op(opcode, code_byte(*old(s), old(s).cpu.pc),
                code_word(*old(s), old(s).cpu.pc), branch_target(old(s).cpu.pc, code_byte(*old(s), old(s).cpu.pc))))
                by { reveal(decoded_op); }
            d
        },
        0x03 => {
            let v = read_operand_byte(s);
            let d = DecodedInst { op: IrOp::Slo(AddrMode::IndirectX(v)), bytes: 2, base_cycles: 8 };
            assert(d.op == decoded_op(opcode, v, 0u16, 0u16)) by { reveal(decoded_op); }
            assert(operands_readable(*old(s)) ==> d.op == decoded_op(opcode, code_byte(*old(s), old(s).cpu.pc),
                code_word(*old(s), old(s).cpu.pc), branch_target(old(s).cpu.pc, code_byte(*old(s), old(s).cpu.pc))))
                by { reveal(decoded_op); }
            d
        },
        0x04 => {
            read_operand_byte(s);
            let d = DecodedInst { op: IrOp::Nop, bytes: 2, base_cycles: 3 };
            assert(d.op == decoded_op(opcode, 0u8, 0u16, 0u16)) by { reveal(decoded_op); }
            assert(operands_readable(*old(s)) ==> d.op == decoded_op(opcode, code_byte(*old(s), old(s).cpu.pc),
                code_word(*old(s), old(s).cpu.pc), branch_target(old(s).cpu.pc, code_byte(*old(s), old(s).cpu.pc))))
                by { reveal(decoded_op); }
            d
        },
        0x05 => {
            let v = read_operand_byte(s);
            let d = DecodedInst { op: IrOp::Ora(AddrMode::ZeroPage(v)), bytes: 2, base_cycles: 3 };
            assert(d.op == decoded_op(opcode, v, 0u16, 0u16)) by { reveal(decoded_op); }
            assert(operands_readable(*old(s)) ==> d.op == decoded_op(opcode, code_byte(*old(s), old(s).cpu.pc),
                code_word(*old(s), old(s).cpu.pc), branch_target(old(s).cpu.pc, code_byte(*old(s), old(s).cpu.pc))))
                by { reveal(decoded_op); }
            d
        },
        0x06 => {
            let v = read_operand_byte(s);
            let d = DecodedInst { op: IrOp::Asl(AddrMode::ZeroPage(v)), bytes: 2, base_cycles: 5 };
            assert(d.op == decoded_op(opcode, v, 0u16, 0u16)) by { reveal(decoded_op); }
            assert(operands_readable(*old(s)) ==> d.op == decoded_op(opcode, code_byte(*old(s), old(s).cpu.pc),
                code_word(*old(s), old(s).cpu.pc), branch_target(old(s).cpu.pc, code_byte(*old(s), old(s).cpu.pc))))
                by { reveal(decoded_op); }
            d
        },
        0x07 => {
            let v = read_operand_byte(s);
            let d = DecodedInst { op: IrOp::Slo(AddrMode::ZeroPage(v)), bytes: 2, base_cycles: 5 };
            assert(d.op == decoded_op(opcode, v, 0u16, 0u16)) by { reveal(decoded_op); }
            assert(operands_readable(*old(s)) ==> d.op == decoded_op(opcode, code_byte(*old(s), old(s).cpu.pc),
                code_word(*old(s), old(s).cpu.pc), branch_target(old(s).cpu.pc, code_byte(*old(s), old(s).cpu.pc))))
                by { reveal(decoded_op); }
            d
        },
        0x08 => {
            read_operand_byte(s);
            let d = DecodedInst { op: IrOp::Php, bytes: 1, base_cycles: 3 };
            assert(d.op == decoded_op(opcode, 0u8, 0u16, 0u16)) by { reveal(decoded_op); }
            assert(operands_readable(*old(s)) ==> d.op == decoded_op(opcode, code_byte(*old(s), old(s).cpu.pc),
                code_word(*old(s), old(s).cpu.pc), branch_target(old(s).cpu.pc, code_byte(*old(s), old(s).cpu.pc))))
                by { reveal(decoded_op); }
            d
        },
        0x09 => {
            let v = read_operand_byte(s);
            let d = DecodedInst { op: IrOp::Ora(AddrMode::Immediate(v)), bytes: 2, base_cycles: 2 };
            assert(d.op == decoded_op(opcode, v, 0u16, 0u16)) by { reveal(decoded_op); }
            assert(operands_readable(*old(s)) ==> d.op == decoded_op(opcode, code_byte(*old(s), old(s).cpu.pc),
                code_word(*old(s), old(s).cpu.pc), branch_target(old(s).cpu.pc, code_byte(*old(s), old(s).cpu.pc))))
                by { reveal(decoded_op); }
            d
        },
        0x0A => {
            let d = DecodedInst { op: IrOp::Asl(AddrMode::Accumulator), bytes: 1, base_cycles: 2 };
            assert(d.op == decoded_op(opcode, 0u8, 0u16, 0u16)) by { reveal(decoded_op); }
            assert(operands_readable(*old(s)) ==> d.op == decoded_op(opcode, code_byte(*old(s), old(s).cpu.pc),
                code_word(*old(s), old(s).cpu.pc), branch_target(old(s).cpu.pc, code_byte(*old(s), old(s).cpu.pc))))
                by { reveal(decoded_op); }
            d
        },
        0x0B => {
            let v = read_operand_byte(s);
            let d = DecodedInst { op: IrOp::Anc(AddrMode::Immediate(v)), bytes: 2, base_cycles: 2 };
            assert(d.op == decoded_op(opcode, v, 0u16, 0u16)) by { reveal(decoded_op); }
            assert(operands_readable(*old(s)) ==> d.op == decoded_op(opcode, code_byte(*old(s), old(s).cpu.pc),
                code_word(*old(s), old(s).cpu.pc), branch_target(old(s).cpu.pc, code_byte(*old(s), old(s).cpu.pc))))
                by { reveal(decoded_op); }
            d
        },
        0x0C => {
            read_operand_u16(s);
            let d = DecodedInst { op: IrOp::Nop, bytes: 3, base_cycles: 4 };
            assert(d.op == decoded_op(opcode, 0u8, 0u16, 0u16)) by { reveal(decoded_op); }
            assert(operands_readable(*old(s)) ==> d.op == decoded_op(opcode, code_byte(*old(s), old(s).cpu.pc),
                code_word(*old(s), old(s).cpu.pc), branch_target(old(s).cpu.pc, code_byte(*old(s), old(s).cpu.pc))))
                by { reveal(decoded_op); }
            d
        },
        0x0D => {
            let v = read_operand_u16(s);
            let d = DecodedInst { op: IrOp::Ora(AddrMode::Absolute(v)), bytes: 3, base_cycles: 4 };
            assert(d.op == decoded_op(opcode, 0u8, v, 0u16)) by { reveal(decoded_op); }
            assert(operands_readable(*old(s)) ==> d.op == decoded_op(opcode, code_byte(*old(s), old(s).cpu.pc),
                code_word(*old(s), old(s).cpu.pc), branch_target(old(s).cpu.pc, code_byte(*old(s), old(s).cpu.pc))))
                by { reveal(decoded_op); }
            d
        },
        0x0E => {
            let v = read_operand_u16(s);
            let d = DecodedInst { op: IrOp::Asl(AddrMode::Absolute(v)), bytes: 3, base_cycles: 6 };
            assert(d.op == decoded_op(opcode, 0u8, v, 0u16)) by { reveal(decoded_op); }
            assert(operands_readable(*old(s)) ==> d.op == decoded_op(opcode, code_byte(*old(s), old(s).cpu.pc),
                code_word(*old(s), old(s).cpu.pc), branch_target(old(s).cpu.pc, code_byte(*old(s), old(s).cpu.pc))))
                by { reveal(decoded_op); }
            d
        },
        0x0F => {
            let v = read_operand_u16(s);
            let d = DecodedInst { op: IrOp::Slo(AddrMode::Absolute(v)), bytes: 3, base_cycles: 6 };
            assert(d.op == decoded_op(opcode, 0u8, v, 0u16)) by { reveal(decoded_op); }
            assert(operands_readable(*old(s)) ==> d.op == decoded_op(opcode, code_byte(*old(s), old(s).cpu.pc),
                code_word(*old(s), old(s).cpu.pc), branch_target(old(s).cpu.pc, code_byte(*old(s), old(s).cpu.pc))))
                by { reveal(decoded_op); }
            d
        },
        0x10 => {
            let offset = read_operand_byte(s) as i8;
            let target = relative_target(s.cpu.pc, offset);
            let d = DecodedInst { op: IrOp::Bpl { target }, bytes: 2, base_cycles: 2 };
            assert(d.op == decoded_op(opcode, 0u8, 0u16, target)) by { reveal(decoded_op); }
            assert(operands_readable(*old(s)) ==> d.op == decoded_op(opcode, code_byte(*old(s), old(s).cpu.pc),
                code_word(*old(s), old(s).cpu.pc), branch_target(old(s).cpu.pc, code_byte(*old(s), old(s).cpu.pc))))
                by { reveal(decoded_op); }
            d
        },
        0x11 => {
            let v = read_operand_byte(s);
            let d = DecodedInst { op: IrOp::Ora(AddrMode::IndirectY(v)), bytes: 2, base_cycles: 5 };
            assert(d.op == decoded_op(opcode, v, 0u16, 0u16)) by { reveal(decoded_op); }
            assert(operands_readable(*old(s)) ==> d.op == decoded_op(opcode, code_byte(*old(s), old(s).cpu.pc),
                code_word(*old(s), old(s).cpu.pc), branch_target(old(s).cpu.pc, code_byte(*old(s), old(s).cpu.pc))))
                by { reveal(decoded_op); }
            d
        },
        0x12 => {
            let d = DecodedInst { op: IrOp::Nop, bytes: 1, base_cycles: 2 };
            assert(d.op == decoded_op(opcode, 0u8, 0u16, 0u16)) by { reveal(decoded_op); }
            assert(operands_readable(*old(s)) ==> d.op == decoded_op(opcode, code_byte(*old(s), old(s).cpu.pc),
                code_word(*old(s), old(s).cpu.pc), branch_target(old(s).cpu.pc, code_byte(*old(s), old(s).cpu.pc))))
                by { reveal(decoded_op); }
            d
        },
        0x13 => {
            let v = read_operand_byte(s);
            let d = DecodedInst { op: IrOp::Slo(AddrMode::IndirectY(v)), bytes: 2, base_cycles: 8 };
            assert(d.op == decoded_op(opcode, v, 0u16, 0u16)) by { reveal(decoded_op); }
            assert(operands_readable(*old(s)) ==> d.op == decoded_op(opcode, code_byte(*old(s), old(s).cpu.pc),
                code_word(*old(s), old(s).cpu.pc), branch_target(old(s).cpu.pc, code_byte(*old(s), old(s).cpu.pc))))
                by { reveal(decoded_op); }
            d
        },
        0x14 => {
            read_operand_byte(s);
            let d = DecodedInst { op: IrOp::Nop, bytes: 2, base_cycles: 4 };
            assert(d.op == decoded_op(opcode, 0u8, 0u16, 0u16)) by { reveal(decoded_op); }
            assert(operands_readable(*old(s)) ==> d.op == decoded_op(opcode, code_byte(*old(s), old(s).cpu.pc),
                code_word(*old(s), old(s).cpu.pc), branch_target(old(s).cpu.pc, code_byte(*old(s), old(s).cpu.pc))))
                by { reveal(decoded_op); }
            d
        },
        0x15 => {
            let v = read_operand_byte(s);
            let d = DecodedInst { op: IrOp::Ora(AddrMode::ZeroPageX(v)), bytes: 2, base_cycles: 4 };
            assert(d.op == decoded_op(opcode, v, 0u16, 0u16)) by { reveal(decoded_op); }
            assert(operands_readable(*old(s)) ==> d.op == decoded_op(opcode, code_byte(*old(s), old(s).cpu.pc),
                code_word(*old(s), old(s).cpu.pc), branch_target(old(s).cpu.pc, code_byte(*old(s), old(s).cpu.pc))))
                by { reveal(decoded_op); }
            d
        },
        0x16 => {
            let v = read_operand_byte(s);
            let d = DecodedInst { op: IrOp::Asl(AddrMode::ZeroPageX(v)), bytes: 2, base_cycles: 6 };
            assert(d.op == decoded_op(opcode, v, 0u16, 0u16)) by { reveal(decoded_op); }
            assert(operands_readable(*old(s)) ==> d.op == decoded_op(opcode, code_byte(*old(s), old(s).cpu.pc),
                code_word(*old(s), old(s).cpu.pc), branch_target(old(s).cpu.pc, code_byte(*old(s), old(s).cpu.pc))))
                by { reveal(decoded_op); }
            d
        },
        0x17 => {
            let v = read_operand_byte(s);
            let d = DecodedInst { op: IrOp::Slo(AddrMode::ZeroPageX(v)), bytes: 2, base_cycles: 6 };
            assert(d.op == decoded_op(opcode, v, 0u16, 0u16)) by { reveal(decoded_op); }
            assert(operands_readable(*old(s)) ==> d.op == decoded_op(opcode, code_byte(*old(s), old(s).cpu.pc),
                code_word(*old(s), old(s).cpu.pc), branch_target(old(s).cpu.pc, code_byte(*old(s), old(s).cpu.pc))))
                by { reveal(decoded_op); }
            d
        },
        0x18 => {
            let d = DecodedInst { op: IrOp::Clc, bytes: 1, base_cycles: 2 };
            assert(d.op == decoded_op(opcode, 0u8, 0u16, 0u16)) by { reveal(decoded_op); }
            assert(operands_readable(*old(s)) ==> d.op == decoded_op(opcode, code_byte(*old(s), old(s).cpu.pc),
                code_word(*old(s), old(s).cpu.pc), branch_target(old(s).cpu.pc, code_byte(*old(s), old(s).cpu.pc))))
                by { reveal(decoded_op); }
            d
        },
        0x19 => {
            let v = read_operand_u16(s);
            let d = DecodedInst { op: IrOp::Ora(AddrMode::AbsoluteY(v)), bytes: 3, base_cycles: 4 };
            assert(d.op == decoded_op(opcode, 0u8, v, 0u16)) by { reveal(decoded_op); }
            assert(operands_readable(*old(s)) ==> d.op == decoded_op(opcode, code_byte(*old(s), old(s).cpu.pc),
                code_word(*old(s), old(s).cpu.pc), branch_target(old(s).cpu.pc, code_byte(*old(s), old(s).cpu.pc))))
                by { reveal(decoded_op); }
            d
        },
        0x1A => {
            let d = DecodedInst { op: IrOp::Nop, bytes: 1, base_cycles: 2 };
            assert(d.op == decoded_op(opcode, 0u8, 0u16, 0u16)) by { reveal(decoded_op); }
            assert(operands_readable(*old(s)) ==> d.op == decoded_op(opcode, code_byte(*old(s), old(s).cpu.pc),
                code_word(*old(s), old(s).cpu.pc), branch_target(old(s).cpu.pc, code_byte(*old(s), old(s).cpu.pc))))
                by { reveal(decoded_op); }
            d
        },
        0x1B => {
            let v = read_operand_u16(s);
            let d = DecodedInst { op: IrOp::Slo(AddrMode::AbsoluteY(v)), bytes: 3, base_cycles: 7 };
            assert(d.op == decoded_op(opcode, 0u8, v, 0u16)) by { reveal(decoded_op); }
            assert(operands_readable(*old(s)) ==> d.op == decoded_op(opcode, code_byte(*old(s), old(s).cpu.pc),
                code_word(*old(s), old(s).cpu.pc), branch_target(old(s).cpu.pc, code_byte(*old(s), old(s).cpu.pc))))
                by { reveal(decoded_op); }
            d
        },
        0x1C => {
            read_operand_u16(s);
            let d = DecodedInst { op: IrOp::Nop, bytes: 3, base_cycles: 4 };
            assert(d.op == decoded_op(opcode, 0u8, 0u16, 0u16)) by { reveal(decoded_op); }
            assert(operands_readable(*old(s)) ==> d.op == decoded_op(opcode, code_byte(*old(s), old(s).cpu.pc),
                code_word(*old(s), old(s).cpu.pc), branch_target(old(s).cpu.pc, code_byte(*old(s), old(s).cpu.pc))))
                by { reveal(decoded_op); }
            d
        },
        0x1D => {
            let v = read_operand_u16(s);
            let d = DecodedInst { op: IrOp::Ora(AddrMode::AbsoluteX(v)), bytes: 3, base_cycles: 4 };
            assert(d.op == decoded_op(opcode, 0u8, v, 0u16)) by { reveal(decoded_op); }
            assert(operands_readable(*old(s)) ==> d.op == decoded_op(opcode, code_byte(*old(s), old(s).cpu.pc),
                code_word(*old(s), old(s).cpu.pc), branch_target(old(s).cpu.pc, code_byte(*old(s), old(s).cpu.pc))))
                by { reveal(decoded_op); }
            d
        },
        0x1E => {
            let v = read_operand_u16(s);
            let d = DecodedInst { op: IrOp::Asl(AddrMode::AbsoluteX(v)), bytes: 3, base_cycles: 7 };
            assert(d.op == decoded_op(opcode, 0u8, v, 0u16)) by { reveal(decoded_op); }
            assert(operands_readable(*old(s)) ==> d.op == decoded_op(opcode, code_byte(*old(s), old(s).cpu.pc),
                code_word(*old(s), old(s).cpu.pc), branch_target(old(s).cpu.pc, code_byte(*old(s), old(s).cpu.pc))))
                by { reveal(decoded_op); }
            d
        },
        0x1F => {
            let v = read_operand_u16(s);
            let d = DecodedInst { op: IrOp::Slo(AddrMode::AbsoluteX(v)), bytes: 3, base_cycles: 7 };
            assert(d.op == decoded_op(opcode, 0u8, v, 0u16)) by { reveal(decoded_op); }
            assert(operands_readable(*old(s)) ==> d.op == decoded_op(opcode, code_byte(*old(s), old(s).cpu.pc),
                code_word(*old(s), old(s).cpu.pc), branch_target(old(s).cpu.pc, code_byte(*old(s), old(s).cpu.pc))))
                by { reveal(decoded_op); }
            d
        },
        0x20 => {
            let v = read_operand_u16(s);
            let d = DecodedInst { op: IrOp::Jsr(v), bytes: 3, base_cycles: 6 };
            assert(d.op == decoded_op(opcode, 0u8, v, 0u16)) by { reveal(decoded_op); }
            assert(operands_readable(*old(s)) ==> d.op == decoded_op(opcode, code_byte(*old(s), old(s).cpu.pc),
                code_word(*old(s), old(s).cpu.pc), branch_target(old(s).cpu.pc, code_byte(*old(s), old(s).cpu.pc))))
                by { reveal(decoded_op); }
            d
        },
        0x21 => {
            let v = read_operand_byte(s);
            let d = DecodedInst { op: IrOp::And(AddrMode::IndirectX(v)), bytes: 2, base_cycles: 6 };
            assert(d.op == decoded_op(opcode, v, 0u16, 0u16)) by { reveal(decoded_op); }
            assert(operands_readable(*old(s)) ==> d.op == decoded_op(opcode, code_byte(*old(s), old(s).cpu.pc),
                code_word(*old(s), old(s).cpu.pc), branch_target(old(s).cpu.pc, code_byte(*old(s), old(s).cpu.pc))))
                by { reveal(decoded_op); }
            d
        },
        0x22 => {
            let d = DecodedInst { op: IrOp::Nop, bytes: 1, base_cycles: 2 };
            assert(d.op == decoded_op(opcode, 0u8, 0u16, 0u16)) by { reveal(decoded_op); }
            assert(operands_readable(*old(s)) ==> d.op == decoded_op(opcode, code_byte(*old(s), old(s).cpu.pc),
                code_word(*old(s), old(s).cpu.pc), branch_target(old(s).cpu.pc, code_byte(*old(s), old(s).cpu.pc))))
                by { reveal(decoded_op); }
            d
        },
        0x23 => {
            let v = read_operand_byte(s);
            let d = DecodedInst { op: IrOp::Rla(AddrMode::IndirectX(v)), bytes: 2, base_cycles: 8 };
            assert(d.op == decoded_op(opcode, v, 0u16, 0u16)) by { reveal(decoded_op); }
            assert(operands_readable(*old(s)) ==> d.op == decoded_op(opcode, code_byte(*old(s), old(s).cpu.pc),
                code_word(*old(s), old(s).cpu.pc), branch_target(old(s).cpu.pc, code_byte(*old(s), old(s).cpu.pc))))
                by { reveal(decoded_op); }
            d
        },
        0x24 => {
            let v = read_operand_byte(s);
            let d = DecodedInst { op: IrOp::Bit(AddrMode::ZeroPage(v)), bytes: 2, base_cycles: 3 };
            assert(d.op == decoded_op(opcode, v, 0u16, 0u16)) by { reveal(decoded_op); }
            assert(operands_readable(*old(s)) ==> d.op == decoded_op(opcode, code_byte(*old(s), old(s).cpu.pc),
                code_word(*old(s), old(s).cpu.pc), branch_target(old(s).cpu.pc, code_byte(*old(s), old(s).cpu.pc))))
                by { reveal(decoded_op); }
            d
        },
        0x25 => {
            let v = read_operand_byte(s);
            let d = DecodedInst { op: IrOp::And(AddrMode::ZeroPage(v)), bytes: 2, base_cycles: 3 };
            assert(d.op == decoded_op(opcode, v, 0u16, 0u16)) by { reveal(decoded_op); }
            assert(operands_readable(*old(s)) ==> d.op == decoded_op(opcode, code_byte(*old(s), old(s).cpu.pc),
                code_word(*old(s), old(s).cpu.pc), branch_target(old(s).cpu.pc, code_byte(*old(s), old(s).cpu.pc))))
                by { reveal(decoded_op); }
            d
        },
        0x26 => {
            let v = read_operand_byte(s);
            let d = DecodedInst { op: IrOp::Rol(AddrMode::ZeroPage(v)), bytes: 2, base_cycles: 5 };
            assert(d.op == decoded_op(opcode, v, 0u16, 0u16)) by { reveal(decoded_op); }
            assert(operands_readable(*old(s)) ==> d.op == decoded_op(opcode, code_byte(*old(s), old(s).cpu.pc),
                code_word(*old(s), old(s).cpu.pc), branch_target(old(s).cpu.pc, code_byte(*old(s), old(s).cpu.pc))))
                by { reveal(decoded_op); }
            d
        },
        0x27 => {
            let v = read_operand_byte(s);
            let d = DecodedInst { op: IrOp::Rla(AddrMode::ZeroPage(v)), bytes: 2, base_cycles: 5 };
            assert(d.op == decoded_op(opcode, v, 0u16, 0u16)) by { reveal(decoded_op); }
            assert(operands_readable(*old(s)) ==> d.op == decoded_op(opcode, code_byte(*old(s), old(s).cpu.pc),
                code_word(*old(s), old(s).cpu.pc), branch_target(old(s).cpu.pc, code_byte(*old(s), old(s).cpu.pc))))
                by { reveal(decoded_op); }
            d
        },
        0x28 => {
            read_operand_byte(s);
            let d = DecodedInst { op: IrOp::Plp, bytes: 1, base_cycles: 4 };
            assert(d.op == decoded_op(opcode, 0u8, 0u16, 0u16)) by { reveal(decoded_op); }
            assert(operands_readable(*old(s)) ==> d.op == decoded_op(opcode, code_byte(*old(s), old(s).cpu.pc),
                code_word(*old(s), old(s).cpu.pc), branch_target(old(s).cpu.pc, code_byte(*old(s), old(s).cpu.pc))))
                by { reveal(decoded_op); }
            d
        },
        0x29 => {
            let v = read_operand_byte(s);
            let d = DecodedInst { op: IrOp::And(AddrMode::Immediate(v)), bytes: 2, base_cycles: 2 };
            assert(d.op == decoded_op(opcode, v, 0u16, 0u16)) by { reveal(decoded_op); }
            assert(operands_readable(*old(s)) ==> d.op == decoded_op(opcode, code_byte(*old(s), old(s).cpu.pc),
                code_word(*old(s), old(s).cpu.pc), branch_target(old(s).cpu.pc, code_byte(*old(s), old(s).cpu.pc))))
                by { reveal(decoded_op); }
            d
        },
        0x2A => {
            let d = DecodedInst { op: IrOp::Rol(AddrMode::Accumulator), bytes: 1, base_cycles: 2 };
            assert(d.op == decoded_op(opcode, 0u8, 0u16, 0u16)) by { reveal(decoded_op); }
            assert(operands_readable(*old(s)) ==> d.op == decoded_op(opcode, code_byte(*old(s), old(s).cpu.pc),
                code_word(*old(s), old(s).cpu.pc), branch_target(old(s).cpu.pc, code_byte(*old(s), old(s).cpu.pc))))
                by { reveal(decoded_op); }
            d
        },
        0x2B => {
            let v = read_operand_byte(s);
            let d = DecodedInst { op: IrOp::Anc(AddrMode::Immediate(v)), bytes: 2, base_cycles: 2 };
            assert(d.op == decoded_op(opcode, v, 0u16, 0u16)) by { reveal(decoded_op); }
            assert(operands_readable(*old(s)) ==> d.op == decoded_op(opcode, code_byte(*old(s), old(s).cpu.pc),
                code_word(*old(s), old(s).cpu.pc), branch_target(old(s).cpu.pc, code_byte(*old(s), old(s).cpu.pc))))
                by { reveal(decoded_op); }
            d
        },
        0x2C => {
            let v = read_operand_u16(s);
            let d = DecodedInst { op: IrOp::Bit(AddrMode::Absolute(v)), bytes: 3, base_cycles: 4 };
            assert(d.op == decoded_op(opcode, 0u8, v, 0u16)) by { reveal(decoded_op); }
            assert(operands_readable(*old(s)) ==> d.op == decoded_op(opcode, code_byte(*old(s), old(s).cpu.pc),
                code_word(*old(s), old(s).cpu.pc), branch_target(old(s).cpu.pc, code_byte(*old(s), old(s).cpu.pc))))
                by { reveal(decoded_op); }
            d
        },
        0x2D => {
            let v = read_operand_u16(s);
            let d = DecodedInst { op: IrOp::And(AddrMode::Absolute(v)), bytes: 3, base_cycles: 4 };
            assert(d.op == decoded_op(opcode, 0u8, v, 0u16)) by { reveal(decoded_op); }
            assert(operands_readable(*old(s)) ==> d.op == decoded_op(opcode, code_byte(*old(s), old(s).cpu.pc),
                code_word(*old(s), old(s).cpu.pc), branch_target(old(s).cpu.pc, code_byte(*old(s), old(s).cpu.pc))))
                by { reveal(decoded_op); }
            d
        },
        0x2E => {
            let v = read_operand_u16(s);
            let d = DecodedInst { op: IrOp::Rol(AddrMode::Absolute(v)), bytes: 3, base_cycles: 6 };
            assert(d.op == decoded_op(opcode, 0u8, v, 0u16)) by { reveal(decoded_op); }
            assert(operands_readable(*old(s)) ==> d.op == decoded_op(opcode, code_byte(*old(s), old(s).cpu.pc),
                code_word(*old(s), old(s).cpu.pc), branch_target(old(s).cpu.pc, code_byte(*old(s), old(s).cpu.pc))))
                by { reveal(decoded_op); }
            d
        },
        0x2F => {
            let v = read_operand_u16(s);
            let d = DecodedInst { op: IrOp::Rla(AddrMode::Absolute(v)), bytes: 3, base_cycles: 6 };
            assert(d.op == decoded_op(opcode, 0u8, v, 0u16)) by { reveal(decoded_op); }
            assert(operands_readable(*old(s)) ==> d.op == decoded_op(opcode, code_byte(*old(s), old(s).cpu.pc),
                code_word(*old(s), old(s).cpu.pc), branch_target(old(s).cpu.pc, code_byte(*old(s), old(s).cpu.pc))))
                by { reveal(decoded_op); }
            d
        },
        0x30 => {
            let offset = read_operand_byte(s) as i8;
            let target = relative_target(s.cpu.pc, offset);
            let d = DecodedInst { op: IrOp::Bmi { target }, bytes: 2, base_cycles: 2 };
            assert(d.op == decoded_op(opcode, 0u8, 0u16, target)) by { reveal(decoded_op); }
            assert(operands_readable(*old(s)) ==> d.op == decoded_op(opcode, code_byte(*old(s), old(s).cpu.pc),
                code_word(*old(s), old(s).cpu.pc), branch_target(old(s).cpu.pc, code_byte(*old(s), old(s).cpu.pc))))
                by { reveal(decoded_op); }
            d
        },
        0x31 => {
            let v = read_operand_byte(s);
            let d = DecodedInst { op: IrOp::And(AddrMode::IndirectY(v)), bytes: 2, base_cycles: 5 };
            assert(d.op == decoded_op(opcode, v, 0u16, 0u16)) by { reveal(decoded_op); }
            assert(operands_readable(*old(s)) ==> d.op == decoded_op(opcode, code_byte(*old(s), old(s).cpu.pc),
                code_word(*old(s), old(s).cpu.pc), branch_target(old(s).cpu.pc, code_byte(*old(s), old(s).cpu.pc))))
                by { reveal(decoded_op); }
            d
        },
        0x32 => {
            let d = DecodedInst { op: IrOp::Nop, bytes: 1, base_cycles: 2 };
            assert(d.op == decoded_op(opcode, 0u8, 0u16, 0u16)) by { reveal(decoded_op); }
            assert(operands_readable(*old(s)) ==> d.op == decoded_op(opcode, code_byte(*old(s), old(s).cpu.pc),
                code_word(*old(s), old(s).cpu.pc), branch_target(old(s).cpu.pc, code_byte(*old(s), old(s).cpu.pc))))
                by { reveal(decoded_op); }
            d
        },
        0x33 => {
            let v = read_operand_byte(s);
            let d = DecodedInst { op: IrOp::Rla(AddrMode::IndirectY(v)), bytes: 2, base_cycles: 8 };
            assert(d.op == decoded_op(opcode, v, 0u16, 0u16)) by { reveal(decoded_op); }
            assert(operands_readable(*old(s)) ==> d.op == decoded_op(opcode, code_byte(*old(s), old(s).cpu.pc),
                code_word(*old(s), old(s).cpu.pc), branch_target(old(s).cpu.pc, code_byte(*old(s), old(s).cpu.pc))))
                by { reveal(decoded_op); }
            d
        },
        0x34 => {
            read_operand_byte(s);
            let d = DecodedInst { op: IrOp::Nop, bytes: 2, base_cycles: 4 };
            assert(d.op == decoded_op(opcode, 0u8, 0u16, 0u16)) by { reveal(decoded_op); }
            assert(operands_readable(*old(s)) ==> d.op == decoded_op(opcode, code_byte(*old(s), old(s).cpu.pc),
                code_word(*old(s), old(s).cpu.pc), branch_target(old(s).cpu.pc, code_byte(*old(s), old(s).cpu.pc))))
                by { reveal(decoded_op); }
            d
        },
        0x35 => {
            let v = read_operand_byte(s);
            let d = DecodedInst { op: IrOp::And(AddrMode::ZeroPageX(v)), bytes: 2, base_cycles: 4 };
            assert(d.op == decoded_op(opcode, v, 0u16, 0u16)) by { reveal(decoded_op); }
            assert(operands_readable(*old(s)) ==> d.op == decoded_op(opcode, code_byte(*old(s), old(s).cpu.pc),
                code_word(*old(s), old(s).cpu.pc), branch_target(old(s).cpu.pc, code_byte(*old(s), old(s).cpu.pc))))
                by { reveal(decoded_op); }
            d
        },
        0x36 => {
            let v = read_operand_byte(s);
            let d = DecodedInst { op: IrOp::Rol(AddrMode::ZeroPageX(v)), bytes: 2, base_cycles: 6 };
            assert(d.op == decoded_op(opcode, v, 0u16, 0u16)) by { reveal(decoded_op); }
            assert(operands_readable(*old(s)) ==> d.op == decoded_op(opcode, code_byte(*old(s), old(s).cpu.pc),
                code_word(*old(s), old(s).cpu.pc), branch_target(old(s).cpu.pc, code_byte(*old(s), old(s).cpu.pc))))
                by { reveal(decoded_op); }
            d
        },
        0x37 => {
            let v = read_operand_byte(s);
            let d = DecodedInst { op: IrOp::Rla(AddrMode::ZeroPageX(v)), bytes: 2, base_cycles: 6 };
            assert(d.op == decoded_op(opcode, v, 0u16, 0u16)) by { reveal(decoded_op); }
            assert(operands_readable(*old(s)) ==> d.op == decoded_op(opcode, code_byte(*old(s), old(s).cpu.pc),
                code_word(*old(s), old(s).cpu.pc), branch_target(old(s).cpu.pc, code_byte(*old(s), old(s).cpu.pc))))
                by { reveal(decoded_op); }
            d
        },
        0x38 => {
            let d = DecodedInst { op: IrOp::Sec, bytes: 1, base_cycles: 2 };
            assert(d.op == decoded_op(opcode, 0u8, 0u16, 0u16)) by { reveal(decoded_op); }
            assert(operands_readable(*old(s)) ==> d.op == decoded_op(opcode, code_byte(*old(s), old(s).cpu.pc),
                code_word(*old(s), old(s).cpu.pc), branch_target(old(s).cpu.pc, code_byte(*old(s), old(s).cpu.pc))))
                by { reveal(decoded_op); }
            d
        },
        0x39 => {
            let v = read_operand_u16(s);
            let d = DecodedInst { op: IrOp::And(AddrMode::AbsoluteY(v)), bytes: 3, base_cycles: 4 };
            assert(d.op == decoded_op(opcode, 0u8, v, 0u16)) by { reveal(decoded_op); }
            assert(operands_readable(*old(s)) ==> d.op == decoded_op(opcode, code_byte(*old(s), old(s).cpu.pc),
                code_word(*old(s), old(s).cpu.pc), branch_target(old(s).cpu.pc, code_byte(*old(s), old(s).cpu.pc))))
                by { reveal(decoded_op); }
            d
        },
        0x3A => {
            let d = DecodedInst { op: IrOp::Nop, bytes: 1, base_cycles: 2 };
            assert(d.op == decoded_op(opcode, 0u8, 0u16, 0u16)) by { reveal(decoded_op); }
            assert(operands_readable(*old(s)) ==> d.op == decoded_op(opcode, code_byte(*old(s), old(s).cpu.pc),
                code_word(*old(s), old(s).cpu.pc), branch_target(old(s).cpu.pc, code_byte(*old(s), old(s).cpu.pc))))
                by { reveal(decoded_op); }
            d
        },
        0x3B => {
            let v = read_operand_u16(s);
            let d = DecodedInst { op: IrOp::Rla(AddrMode::AbsoluteY(v)), bytes: 3, base_cycles: 7 };
            assert(d.op == decoded_op(opcode, 0u8, v, 0u16)) by { reveal(decoded_op); }
            assert(operands_readable(*old(s)) ==> d.op == decoded_op(opcode, code_byte(*old(s), old(s).cpu.pc),
                code_word(*old(s), old(s).cpu.pc), branch_target(old(s).cpu.pc, code_byte(*old(s), old(s).cpu.pc))))
                by { reveal(decoded_op); }
            d
        },
        0x3C => {
            read_operand_u16(s);
            let d = DecodedInst { op: IrOp::Nop, bytes: 3, base_cycles: 4 };
            assert(d.op == decoded_op(opcode, 0u8, 0u16, 0u16)) by { reveal(decoded_op); }
            assert(operands_readable(*old(s)) ==> d.op == decoded_op(opcode, code_byte(*old(s), old(s).cpu.pc),
                code_word(*old(s), old(s).cpu.pc), branch_target(old(s).cpu.pc, code_byte(*old(s), old(s).cpu.pc))))
                by { reveal(decoded_op); }
            d
        },
        0x3D => {
            let v = read_operand_u16(s);
            let d = DecodedInst { op: IrOp::And(AddrMode::AbsoluteX(v)), bytes: 3, base_cycles: 4 };
            assert(d.op == decoded_op(opcode, 0u8, v, 0u16)) by { reveal(decoded_op); }
            assert(operands_readable(*old(s)) ==> d.op == decoded_op(opcode, code_byte(*old(s), old(s).cpu.pc),
                code_word(*old(s), old(s).cpu.pc), branch_target(old(s).cpu.pc, code_byte(*old(s), old(s).cpu.pc))))
                by { reveal(decoded_op); }
            d
        },
        0x3E => {
            let v = read_operand_u16(s);
            let d = DecodedInst { op: IrOp::Rol(AddrMode::AbsoluteX(v)), bytes: 3, base_cycles: 7 };
            assert(d.op == decoded_op(opcode, 0u8, v, 0u16)) by { reveal(decoded_op); }
            assert(operands_readable(*old(s)) ==> d.op == decoded_op(opcode, code_byte(*old(s), old(s).cpu.pc),
                code_word(*old(s), old(s).cpu.pc), branch_target(old(s).cpu.pc, code_byte(*old(s), old(s).cpu.pc))))
                by { reveal(decoded_op); }
            d
        },
        0x3F => {
            let v = read_operand_u16(s);
            let d = DecodedInst { op: IrOp::Rla(AddrMode::AbsoluteX(v)), bytes: 3, base_cycles: 7 };
            assert(d.op == decoded_op(opcode, 0u8, v, 0u16)) by { reveal(decoded_op); }
            assert(operands_readable(*old(s)) ==> d.op == decoded_op(opcode, code_byte(*old(s), old(s).cpu.pc),
                code_word(*old(s), old(s).cpu.pc), branch_target(old(s).cpu.pc, code_byte(*old(s), old(s).cpu.pc))))
                by { reveal(decoded_op); }
            d
        },
        0x40 => {
            read_operand_byte(s);
            let d = DecodedInst { op: IrOp::Rti, bytes: 1, base_cycles: 6 };
            assert(d.op == decoded_op(opcode, 0u8, 0u16, 0u16)) by { reveal(decoded_op); }
            assert(operands_readable(*old(s)) ==> d.op == decoded_op(opcode, code_byte(*old(s), old(s).cpu.pc),
                code_word(*old(s), old(s).cpu.pc), branch_target(old(s).cpu.pc, code_byte(*old(s), old(s).cpu.pc))))
                by { reveal(decoded_op); }
            d
        },
        0x41 => {
            let v = read_operand_byte(s);
            let d = DecodedInst { op: IrOp::Eor(AddrMode::IndirectX(v)), bytes: 2, base_cycles: 6 };
            assert(d.op == decoded_op(opcode, v, 0u16, 0u16)) by { reveal(decoded_op); }
            assert(operands_readable(*old(s)) ==> d.op == decoded_op(opcode, code_byte(*old(s), old(s).cpu.pc),
                code_word(*old(s), old(s).cpu.pc), branch_target(old(s).cpu.pc, code_byte(*old(s), old(s).cpu.pc))))
                by { reveal(decoded_op); }
            d
        },
        0x42 => {
            let d = DecodedInst { op: IrOp::Nop, bytes: 1, base_cycles: 2 };
            assert(d.op == decoded_op(opcode, 0u8, 0u16, 0u16)) by { reveal(decoded_op); }
            assert(operands_readable(*old(s)) ==> d.op == decoded_op(opcode, code_byte(*old(s), old(s).cpu.pc),
                code_word(*old(s), old(s).cpu.pc), branch_target(old(s).cpu.pc, code_byte(*old(s), old(s).cpu.pc))))
                by { reveal(decoded_op); }
            d
        },
        0x43 => {
            let v = read_operand_byte(s);
            let d = DecodedInst { op: IrOp::Sre(AddrMode::IndirectX(v)), bytes: 2, base_cycles: 8 };
            assert(d.op == decoded_op(opcode, v, 0u16, 0u16)) by { reveal(decoded_op); }
            assert(operands_readable(*old(s)) ==> d.op == decoded_op(opcode, code_byte(*old(s), old(s).cpu.pc),
                code_word(*old(s), old(s).cpu.pc), branch_target(old(s).cpu.pc, code_byte(*old(s), old(s).cpu.pc))))
                by { reveal(decoded_op); }
            d
        },
        0x44 => {
            read_operand_byte(s);
            let d = DecodedInst { op: IrOp::Nop, bytes: 2, base_cycles: 3 };
            assert(d.op == decoded_op(opcode, 0u8, 0u16, 0u16)) by { reveal(decoded_op); }
            assert(operands_readable(*old(s)) ==> d.op == decoded_op(opcode, code_byte(*old(s), old(s).cpu.pc),
                code_word(*old(s), old(s).cpu.pc), branch_target(old(s).cpu.pc, code_byte(*old(s), old(s).cpu.pc))))
                by { reveal(decoded_op); }
            d
        },
        0x45 => {
            let v = read_operand_byte(s);
            let d = DecodedInst { op: IrOp::Eor(AddrMode::ZeroPage(v)), bytes: 2, base_cycles: 3 };
            assert(d.op == decoded_op(opcode, v, 0u16, 0u16)) by { reveal(decoded_op); }
            assert(operands_readable(*old(s)) ==> d.op == decoded_op(opcode, code_byte(*old(s), old(s).cpu.pc),
                code_word(*old(s), old(s).cpu.pc), branch_target(old(s).cpu.pc, code_byte(*old(s), old(s).cpu.pc))))
                by { reveal(decoded_op); }
            d
        },
        0x46 => {
            let v = read_operand_byte(s);
            let d = DecodedInst { op: IrOp::Lsr(AddrMode::ZeroPage(v)), bytes: 2, base_cycles: 5 };
            assert(d.op == decoded_op(opcode, v, 0u16, 0u16)) by { reveal(decoded_op); }
            assert(operands_readable(*old(s)) ==> d.op == decoded_op(opcode, code_byte(*old(s), old(s).cpu.pc),
                code_word(*old(s), old(s).cpu.pc), branch_target(old(s).cpu.pc, code_byte(*old(s), old(s).cpu.pc))))
                by { reveal(decoded_op); }
            d
        },
        0x47 => {
            let v = read_operand_byte(s);
            let d = DecodedInst { op: IrOp::Sre(AddrMode::ZeroPage(v)), bytes: 2, base_cycles: 5 };
            assert(d.op == decoded_op(opcode, v, 0u16, 0u16)) by { reveal(decoded_op); }
            assert(operands_readable(*old(s)) ==> d.op == decoded_op(opcode, code_byte(*old(s), old(s).cpu.pc),
                code_word(*old(s), old(s).cpu.pc), branch_target(old(s).cpu.pc, code_byte(*old(s), old(s).cpu.pc))))
                by { reveal(decoded_op); }
            d
        },
        0x48 => {
            read_operand_byte(s);
            let d = DecodedInst { op: IrOp::Pha, bytes: 1, base_cycles: 3 };
            assert(d.op == decoded_op(opcode, 0u8, 0u16, 0u16)) by { reveal(decoded_op); }
            assert(operands_readable(*old(s)) ==> d.op == decoded_op(opcode, code_byte(*old(s), old(s).cpu.pc),
                code_word(*old(s), old(s).cpu.pc), branch_target(old(s).cpu.pc, code_byte(*old(s), old(s).cpu.pc))))
                by { reveal(decoded_op); }
            d
        },
        0x49 => {
            let v = read_operand_byte(s);
            let d = DecodedInst { op: IrOp::Eor(AddrMode::Immediate(v)), bytes: 2, base_cycles: 2 };
            assert(d.op == decoded_op(opcode, v, 0u16, 0u16)) by { reveal(decoded_op); }
            assert(operands_readable(*old(s)) ==> d.op == decoded_op(opcode, code_byte(*old(s), old(s).cpu.pc),
                code_word(*old(s), old(s).cpu.pc), branch_target(old(s).cpu.pc, code_byte(*old(s), old(s).cpu.pc))))
                by { reveal(decoded_op); }
            d
        },
        0x4A => {
            let d = DecodedInst { op: IrOp::Lsr(AddrMode::Accumulator), bytes: 1, base_cycles: 2 };
            assert(d.op == decoded_op(opcode, 0u8, 0u16, 0u16)) by { reveal(decoded_op); }
            assert(operands_readable(*old(s)) ==> d.op == decoded_op(opcode, code_byte(*old(s), old(s).cpu.pc),
                code_word(*old(s), old(s).cpu.pc), branch_target(old(s).cpu.pc, code_byte(*old(s), old(s).cpu.pc))))
                by { reveal(decoded_op); }
            d
        },
        0x4B => {
            let v = read_operand_byte(s);
            let d = DecodedInst { op: IrOp::Alr(AddrMode::Immediate(v)), bytes: 2, base_cycles: 2 };
            assert(d.op == decoded_op(opcode, v, 0u16, 0u16)) by { reveal(decoded_op); }
            assert(operands_readable(*old(s)) ==> d.op == decoded_op(opcode, code_byte(*old(s), old(s).cpu.pc),
                code_word(*old(s), old(s).cpu.pc), branch_target(old(s).cpu.pc, code_byte(*old(s), old(s).cpu.pc))))
                by { reveal(decoded_op); }
            d
        },
        0x4C => {
            let v = read_operand_u16(s);
            let d = DecodedInst { op: IrOp::Jmp(v), bytes: 3, base_cycles: 3 };
            assert(d.op == decoded_op(opcode, 0u8, v, 0u16)) by { reveal(decoded_op); }
            assert(operands_readable(*old(s)) ==> d.op == decoded_op(opcode, code_byte(*old(s), old(s).cpu.pc),
                code_word(*old(s), old(s).cpu.pc), branch_target(old(s).cpu.pc, code_byte(*old(s), old(s).cpu.pc))))
                by { reveal(decoded_op); }
            d
        },
        0x4D => {
            let v = read_operand_u16(s);
            let d = DecodedInst { op: IrOp::Eor(AddrMode::Absolute(v)), bytes: 3, base_cycles: 4 };
            assert(d.op == decoded_op(opcode, 0u8, v, 0u16)) by { reveal(decoded_op); }
            assert(operands_readable(*old(s)) ==> d.op == decoded_op(opcode, code_byte(*old(s), old(s).cpu.pc),
                code_word(*old(s), old(s).cpu.pc), branch_target(old(s).cpu.pc, code_byte(*old(s), old(s).cpu.pc))))
                by { reveal(decoded_op); }
            d
        },
        0x4E => {
            let v = read_operand_u16(s);
            let d = DecodedInst { op: IrOp::Lsr(AddrMode::Absolute(v)), bytes: 3, base_cycles: 6 };
            assert(d.op == decoded_op(opcode, 0u8, v, 0u16)) by { reveal(decoded_op); }
            assert(operands_readable(*old(s)) ==> d.op == decoded_op(opcode, code_byte(*old(s), old(s).cpu.pc),
                code_word(*old(s), old(s).cpu.pc), branch_target(old(s).cpu.pc, code_byte(*old(s), old(s).cpu.pc))))
                by { reveal(decoded_op); }
            d
        },
        0x4F => {
            let v = read_operand_u16(s);
            let d = DecodedInst { op: IrOp::Sre(AddrMode::Absolute(v)), bytes: 3, base_cycles: 6 };
            assert(d.op == decoded_op(opcode, 0u8, v, 0u16)) by { reveal(decoded_op); }
            assert(operands_readable(*old(s)) ==> d.op == decoded_op(opcode, code_byte(*old(s), old(s).cpu.pc),
                code_word(*old(s), old(s).cpu.pc), branch_target(old(s).cpu.pc, code_byte(*old(s), old(s).cpu.pc))))
                by { reveal(decoded_op); }
            d
        },
        0x50 => {
            let offset = read_operand_byte(s) as i8;
            let target = relative_target(s.cpu.pc, offset);
            let d = DecodedInst { op: IrOp::Bvc { target }, bytes: 2, base_cycles: 2 };
            assert(d.op == decoded_op(opcode, 0u8, 0u16, target)) by { reveal(decoded_op); }
            assert(operands_readable(*old(s)) ==> d.op == decoded_op(opcode, code_byte(*old(s), old(s).cpu.pc),
                code_word(*old(s), old(s).cpu.pc), branch_target(old(s).cpu.pc, code_byte(*old(s), old(s).cpu.pc))))
                by { reveal(decoded_op); }
            d
        },
        0x51 => {
            let v = read_operand_byte(s);
            let d = DecodedInst { op: IrOp::Eor(AddrMode::IndirectY(v)), bytes: 2, base_cycles: 5 };
            assert(d.op == decoded_op(opcode, v, 0u16, 0u16)) by { reveal(decoded_op); }
            assert(operands_readable(*old(s)) ==> d.op == decoded_op(opcode, code_byte(*old(s), old(s).cpu.pc),
                code_word(*old(s), old(s).cpu.pc), branch_target(old(s).cpu.pc, code_byte(*old(s), old(s).cpu.pc))))
                by { reveal(decoded_op); }
            d
        },
        0x52 => {
            let d = DecodedInst { op: IrOp::Nop, bytes: 1, base_cycles: 2 };
            assert(d.op == decoded_op(opcode, 0u8, 0u16, 0u16)) by { reveal(decoded_op); }
            assert(operands_readable(*old(s)) ==> d.op == decoded_op(opcode, code_byte(*old(s), old(s).cpu.pc),
                code_word(*old(s), old(s).cpu.pc), branch_target(old(s).cpu.pc, code_byte(*old(s), old(s).cpu.pc))))
                by { reveal(decoded_op); }
            d
        },
        0x53 => {
            let v = read_operand_byte(s);
            let d = DecodedInst { op: IrOp::Sre(AddrMode::IndirectY(v)), bytes: 2, base_cycles: 8 };
            assert(d.op == decoded_op(opcode, v, 0u16, 0u16)) by { reveal(decoded_op); }
            assert(operands_readable(*old(s)) ==> d.op == decoded_op(opcode, code_byte(*old(s), old(s).cpu.pc),
                code_word(*old(s), old(s).cpu.pc), branch_target(old(s).cpu.pc, code_byte(*old(s), old(s).cpu.pc))))
                by { reveal(decoded_op); }
            d
        },
        0x54 => {
            read_operand_byte(s);
            let d = DecodedInst { op: IrOp::Nop, bytes: 2, base_cycles: 4 };
            assert(d.op == decoded_op(opcode, 0u8, 0u16, 0u16)) by { reveal(decoded_op); }
            assert(operands_readable(*old(s)) ==> d.op == decoded_op(opcode, code_byte(*old(s), old(s).cpu.pc),
                code_word(*old(s), old(s).cpu.pc), branch_target(old(s).cpu.pc, code_byte(*old(s), old(s).cpu.pc))))
                by { reveal(decoded_op); }
            d
        },
        0x55 => {
            let v = read_operand_byte(s);
            let d = DecodedInst { op: IrOp::Eor(AddrMode::ZeroPageX(v)), bytes: 2, base_cycles: 4 };
            assert(d.op == decoded_op(opcode, v, 0u16, 0u16)) by { reveal(decoded_op); }
            assert(operands_readable(*old(s)) ==> d.op == decoded_op(opcode, code_byte(*old(s), old(s).cpu.pc),
                code_word(*old(s), old(s).cpu.pc), branch_target(old(s).cpu.pc, code_byte(*old(s), old(s).cpu.pc))))
                by { reveal(decoded_op); }
            d
        },
        0x56 => {
            let v = read_operand_byte(s);
            let d = DecodedInst { op: IrOp::Lsr(AddrMode::ZeroPageX(v)), bytes: 2, base_cycles: 6 };
            assert(d.op == decoded_op(opcode, v, 0u16, 0u16)) by { reveal(decoded_op); }
            assert(operands_readable(*old(s)) ==> d.op == decoded_op(opcode, code_byte(*old(s), old(s).cpu.pc),
                code_word(*old(s), old(s).cpu.pc), branch_target(old(s).cpu.pc, code_byte(*old(s), old(s).cpu.pc))))
                by { reveal(decoded_op); }
            d
        },
        0x57 => {
            let v = read_operand_byte(s);
            let d = DecodedInst { op: IrOp::Sre(AddrMode::ZeroPageX(v)), bytes: 2, base_cycles: 6 };
            assert(d.op == decoded_op(opcode, v, 0u16, 0u16)) by { reveal(decoded_op); }
            assert(operands_readable(*old(s)) ==> d.op == decoded_op(opcode, code_byte(*old(s), old(s).cpu.pc),
                code_word(*old(s), old(s).cpu.pc), branch_target(old(s).cpu.pc, code_byte(*old(s), old(s).cpu.pc))))
                by { reveal(decoded_op); }
            d
        },
        0x58 => {
            let d = DecodedInst { op: IrOp::Cli, bytes: 1, base_cycles: 2 };
            assert(d.op == decoded_op(opcode, 0u8, 0u16, 0u16)) by { reveal(decoded_op); }
            assert(operands_readable(*old(s)) ==> d.op == decoded_op(opcode, code_byte(*old(s), old(s).cpu.pc),
                code_word(*old(s), old(s).cpu.pc), branch_target(old(s).cpu.pc, code_byte(*old(s), old(s).cpu.pc))))
                by { reveal(decoded_op); }
            d
        },
        0x59 => {
            let v = read_operand_u16(s);
            let d = DecodedInst { op: IrOp::Eor(AddrMode::AbsoluteY(v)), bytes: 3, base_cycles: 4 };
            assert(d.op == decoded_op(opcode, 0u8, v, 0u16)) by { reveal(decoded_op); }
            assert(operands_readable(*old(s)) ==> d.op == decoded_op(opcode, code_byte(*old(s), old(s).cpu.pc),
                code_word(*old(s), old(s).cpu.pc), branch_target(old(s).cpu.pc, code_byte(*old(s), old(s).cpu.pc))))
                by { reveal(decoded_op); }
            d
        },
        0x5A => {
            let d = DecodedInst { op: IrOp::Nop, bytes: 1, base_cycles: 2 };
            assert(d.op == decoded_op(opcode, 0u8, 0u16, 0u16)) by { reveal(decoded_op); }
            assert(operands_readable(*old(s)) ==> d.op == decoded_op(opcode, code_byte(*old(s), old(s).cpu.pc),
                code_word(*old(s), old(s).cpu.pc), branch_target(old(s).cpu.pc, code_byte(*old(s), old(s).cpu.pc))))
                by { reveal(decoded_op); }
            d
        },
        0x5B => {
            let v = read_operand_u16(s);
            let d = DecodedInst { op: IrOp::Sre(AddrMode::AbsoluteY(v)), bytes: 3, base_cycles: 7 };
            assert(d.op == decoded_op(opcode, 0u8, v, 0u16)) by { reveal(decoded_op); }
            assert(operands_readable(*old(s)) ==> d.op == decoded_op(opcode, code_byte(*old(s), old(s).cpu.pc),
                code_word(*old(s), old(s).cpu.pc), branch_target(old(s).cpu.pc, code_byte(*old(s), old(s).cpu.pc))))
                by { reveal(decoded_op); }
            d
        },
        0x5C => {
            read_operand_u16(s);
            let d = DecodedInst { op: IrOp::Nop, bytes: 3, base_cycles: 4 };
            assert(d.op == decoded_op(opcode, 0u8, 0u16, 0u16)) by { reveal(decoded_op); }
            assert(operands_readable(*old(s)) ==> d.op == decoded_op(opcode, code_byte(*old(s), old(s).cpu.pc),
                code_word(*old(s), old(s).cpu.pc), branch_target(old(s).cpu.pc, code_byte(*old(s), old(s).cpu.pc))))
                by { reveal(decoded_op); }
            d
        },
        0x5D => {
            let v = read_operand_u16(s);
            let d = DecodedInst { op: IrOp::Eor(AddrMode::AbsoluteX(v)), bytes: 3, base_cycles: 4 };
            assert(d.op == decoded_op(opcode, 0u8, v, 0u16)) by { reveal(decoded_op); }
            assert(operands_readable(*old(s)) ==> d.op == decoded_op(opcode, code_byte(*old(s), old(s).cpu.pc),
                code_word(*old(s), old(s).cpu.pc), branch_target(old(s).cpu.pc, code_byte(*old(s), old(s).cpu.pc))))
                by { reveal(decoded_op); }
            d
        },
        0x5E => {
            let v = read_operand_u16(s);
            let d = DecodedInst { op: IrOp::Lsr(AddrMode::AbsoluteX(v)), bytes: 3, base_cycles: 7 };
            assert(d.op == decoded_op(opcode, 0u8, v, 0u16)) by { reveal(decoded_op); }
            assert(operands_readable(*old(s)) ==> d.op == decoded_op(opcode, code_byte(*old(s), old(s).cpu.pc),
                code_word(*old(s), old(s).cpu.pc), branch_target(old(s).cpu.pc, code_byte(*old(s), old(s).cpu.pc))))
                by { reveal(decoded_op); }
            d
        },
        0x5F => {
            let v = read_operand_u16(s);
            let d = DecodedInst { op: IrOp::Sre(AddrMode::AbsoluteX(v)), bytes: 3, base_cycles: 7 };
            assert(d.op == decoded_op(opcode, 0u8, v, 0u16)) by { reveal(decoded_op); }
            assert(operands_readable(*old(s)) ==> d.op == decoded_op(opcode, code_byte(*old(s), old(s).cpu.pc),
                code_word(*old(s), old(s).cpu.pc), branch_target(old(s).cpu.pc, code_byte(*old(s), old(s).cpu.pc))))
                by { reveal(decoded_op); }
            d
        },
        0x60 => {
            read_operand_byte(s);
            let d = DecodedInst { op: IrOp::Rts, bytes: 1, base_cycles: 6 };
            assert(d.op == decoded_op(opcode, 0u8, 0u16, 0u16)) by { reveal(decoded_op); }
            assert(operands_readable(*old(s)) ==> d.op == decoded_op(opcode, code_byte(*old(s), old(s).cpu.pc),
                code_word(*old(s), old(s).cpu.pc), branch_target(old(s).cpu.pc, code_byte(*old(s), old(s).cpu.pc))))
                by { reveal(decoded_op); }
            d
        },
        0x61 => {
            let v = read_operand_byte(s);
            let d = DecodedInst { op: IrOp::Adc(AddrMode::IndirectX(v)), bytes: 2, base_cycles: 6 };
            assert(d.op == decoded_op(opcode, v, 0u16, 0u16)) by { reveal(decoded_op); }
            assert(operands_readable(*old(s)) ==> d.op == decoded_op(opcode, code_byte(*old(s), old(s).cpu.pc),
                code_word(*old(s), old(s).cpu.pc), branch_target(old(s).cpu.pc, code_byte(*old(s), old(s).cpu.pc))))
                by { reveal(decoded_op); }
            d
        },
        0x62 => {
            let d = DecodedInst { op: IrOp::Nop, bytes: 1, base_cycles: 2 };
            assert(d.op == decoded_op(opcode, 0u8, 0u16, 0u16)) by { reveal(decoded_op); }
            assert(operands_readable(*old(s)) ==> d.op == decoded_op(opcode, code_byte(*old(s), old(s).cpu.pc),
                code_word(*old(s), old(s).cpu.pc), branch_target(old(s).cpu.pc, code_byte(*old(s), old(s).cpu.pc))))
                by { reveal(decoded_op); }
            d
        },
        0x63 => {
            let v = read_operand_byte(s);
            let d = DecodedInst { op: IrOp::Rra(AddrMode::IndirectX(v)), bytes: 2, base_cycles: 8 };
            assert(d.op == decoded_op(opcode, v, 0u16, 0u16)) by { reveal(decoded_op); }
            assert(operands_readable(*old(s)) ==> d.op == decoded_op(opcode, code_byte(*old(s), old(s).cpu.pc),
                code_word(*old(s), old(s).cpu.pc), branch_target(old(s).cpu.pc, code_byte(*old(s), old(s).cpu.pc))))
                by { reveal(decoded_op); }
            d
        },
        0x64 => {
            read_operand_byte(s);
            let d = DecodedInst { op: IrOp::Nop, bytes: 2, base_cycles: 3 };
            assert(d.op == decoded_op(opcode, 0u8, 0u16, 0u16)) by { reveal(decoded_op); }
            assert(operands_readable(*old(s)) ==> d.op == decoded_op(opcode, code_byte(*old(s), old(s).cpu.pc),
                code_word(*old(s), old(s).cpu.pc), branch_target(old(s).cpu.pc, code_byte(*old(s), old(s).cpu.pc))))
                by { reveal(decoded_op); }
            d
        },
        0x65 => {
            let v = read_operand_byte(s);
            let d = DecodedInst { op: IrOp::Adc(AddrMode::ZeroPage(v)), bytes: 2, base_cycles: 3 };
            assert(d.op == decoded_op(opcode, v, 0u16, 0u16)) by { reveal(decoded_op); }
            assert(operands_readable(*old(s)) ==> d.op == decoded_op(opcode, code_byte(*old(s), old(s).cpu.pc),
                code_word(*old(s), old(s).cpu.pc), branch_target(old(s).cpu.pc, code_byte(*old(s), old(s).cpu.pc))))
                by { reveal(decoded_op); }
            d
        },
        0x66 => {
            let v = read_operand_byte(s);
            let d = DecodedInst { op: IrOp::Ror(AddrMode::ZeroPage(v)), bytes: 2, base_cycles: 5 };
            assert(d.op == decoded_op(opcode, v, 0u16, 0u16)) by { reveal(decoded_op); }
            assert(operands_readable(*old(s)) ==> d.op == decoded_op(opcode, code_byte(*old(s), old(s).cpu.pc),
                code_word(*old(s), old(s).cpu.pc), branch_target(old(s).cpu.pc, code_byte(*old(s), old(s).cpu.pc))))
                by { reveal(decoded_op); }
            d
        },
        0x67 => {
            let v = read_operand_byte(s);
            let d = DecodedInst { op: IrOp::Rra(AddrMode::ZeroPage(v)), bytes: 2, base_cycles: 5 };
            assert(d.op == decoded_op(opcode, v, 0u16, 0u16)) by { reveal(decoded_op); }
            assert(operands_readable(*old(s)) ==> d.op == decoded_op(opcode, code_byte(*old(s), old(s).cpu.pc),
                code_word(*old(s), old(s).cpu.pc), branch_target(old(s).cpu.pc, code_byte(*old(s), old(s).cpu.pc))))
                by { reveal(decoded_op); }
            d
        },
        0x68 => {
            read_operand_byte(s);
            let d = DecodedInst { op: IrOp::Pla, bytes: 1, base_cycles: 4 };
            assert(d.op == decoded_op(opcode, 0u8, 0u16, 0u16)) by { reveal(decoded_op); }
            assert(operands_readable(*old(s)) ==> d.op == decoded_op(opcode, code_byte(*old(s), old(s).cpu.pc),
                code_word(*old(s), old(s).cpu.pc), branch_target(old(s).cpu.pc, code_byte(*old(s), old(s).cpu.pc))))
                by { reveal(decoded_op); }
            d
        },
        0x69 => {
            let v = read_operand_byte(s);
            let d = DecodedInst { op: IrOp::Adc(AddrMode::Immediate(v)), bytes: 2, base_cycles: 2 };
            assert(d.op == decoded_op(opcode, v, 0u16, 0u16)) by { reveal(decoded_op); }
            assert(operands_readable(*old(s)) ==> d.op == decoded_op(opcode, code_byte(*old(s), old(s).cpu.pc),
                code_word(*old(s), old(s).cpu.pc), branch_target(old(s).cpu.pc, code_byte(*old(s), old(s).cpu.pc))))
                by { reveal(decoded_op); }
            d
        },
        0x6A => {
            let d = DecodedInst { op: IrOp::Ror(AddrMode::Accumulator), bytes: 1, base_cycles: 2 };
            assert(d.op == decoded_op(opcode, 0u8, 0u16, 0u16)) by { reveal(decoded_op); }
            assert(operands_readable(*old(s)) ==> d.op == decoded_op(opcode, code_byte(*old(s), old(s).cpu.pc),
                code_word(*old(s), old(s).cpu.pc), branch_target(old(s).cpu.pc, code_byte(*old(s), old(s).cpu.pc))))
                by { reveal(decoded_op); }
            d
        },
        0x6B => {
            let v = read_operand_byte(s);
            let d = DecodedInst { op: IrOp::Arr(AddrMode::Immediate(v)), bytes: 2, base_cycles: 2 };
            assert(d.op == decoded_op(opcode, v, 0u16, 0u16)) by { reveal(decoded_op); }
            assert(operands_readable(*old(s)) ==> d.op == decoded_op(opcode, code_byte(*old(s), old(s).cpu.pc),
                code_word(*old(s), old(s).cpu.pc), branch_target(old(s).cpu.pc, code_byte(*old(s), old(s).cpu.pc))))
                by { reveal(decoded_op); }
            d
        },
        0x6C => {
            let v = read_operand_u16(s);
            let d = DecodedInst { op: IrOp::JmpIndirect(v), bytes: 3, base_cycles: 5 };
            assert(d.op == decoded_op(opcode, 0u8, v, 0u16)) by { reveal(decoded_op); }
            assert(operands_readable(*old(s)) ==> d.op == decoded_op(opcode, code_byte(*old(s), old(s).cpu.pc),
                code_word(*old(s), old(s).cpu.pc), branch_target(old(s).cpu.pc, code_byte(*old(s), old(s).cpu.pc))))
                by { reveal(decoded_op); }
            d
        },
        0x6D => {
            let v = read_operand_u16(s);
            let d = DecodedInst { op: IrOp::Adc(AddrMode::Absolute(v)), bytes: 3, base_cycles: 4 };
            assert(d.op == decoded_op(opcode, 0u8, v, 0u16)) by { reveal(decoded_op); }
            assert(operands_readable(*old(s)) ==> d.op == decoded_op(opcode, code_byte(*old(s), old(s).cpu.pc),
                code_word(*old(s), old(s).cpu.pc), branch_target(old(s).cpu.pc, code_byte(*old(s), old(s).cpu.pc))))
                by { reveal(decoded_op); }
            d
        },
        0x6E => {
            let v = read_operand_u16(s);
            let d = DecodedInst { op: IrOp::Ror(AddrMode::Absolute(v)), bytes: 3, base_cycles: 6 };
            assert(d.op == decoded_op(opcode, 0u8, v, 0u16)) by { reveal(decoded_op); }
            assert(operands_readable(*old(s)) ==> d.op == decoded_op(opcode, code_byte(*old(s), old(s).cpu.pc),
                code_word(*old(s), old(s).cpu.pc), branch_target(old(s).cpu.pc, code_byte(*old(s), old(s).cpu.pc))))
                by { reveal(decoded_op); }
            d
        },
        0x6F => {
            let v = read_operand_u16(s);
            let d = DecodedInst { op: IrOp::Rra(AddrMode::Absolute(v)), bytes: 3, base_cycles: 6 };
            assert(d.op == decoded_op(opcode, 0u8, v, 0u16)) by { reveal(decoded_op); }
            assert(operands_readable(*old(s)) ==> d.op == decoded_op(opcode, code_byte(*old(s), old(s).cpu.pc),
                code_word(*old(s), old(s).cpu.pc), branch_target(old(s).cpu.pc, code_byte(*old(s), old(s).cpu.pc))))
                by { reveal(decoded_op); }
            d
        },
        0x70 => {
            let offset = read_operand_byte(s) as i8;
            let target = relative_target(s.cpu.pc, offset);
            let d = DecodedInst { op: IrOp::Bvs { target }, bytes: 2, base_cycles: 2 };
            assert(d.op == decoded_op(opcode, 0u8, 0u16, target)) by { reveal(decoded_op); }
            assert(operands_readable(*old(s)) ==> d.op == decoded_op(opcode, code_byte(*old(s), old(s).cpu.pc),
                code_word(*old(s), old(s).cpu.pc), branch_target(old(s).cpu.pc, code_byte(*old(s), old(s).cpu.pc))))
                by { reveal(decoded_op); }
            d
        },
        0x71 => {
            let v = read_operand_byte(s);
            let d = DecodedInst { op: IrOp::Adc(AddrMode::IndirectY(v)), bytes: 2, base_cycles: 5 };
            assert(d.op == decoded_op(opcode, v, 0u16, 0u16)) by { reveal(decoded_op); }
            assert(operands_readable(*old(s)) ==> d.op == decoded_op(opcode, code_byte(*old(s), old(s).cpu.pc),
                code_word(*old(s), old(s).cpu.pc), branch_target(old(s).cpu.pc, code_byte(*old(s), old(s).cpu.pc))))
                by { reveal(decoded_op); }
            d
        },
        0x72 => {
            let d = DecodedInst { op: IrOp::Nop, bytes: 1, base_cycles: 2 };
            assert(d.op == decoded_op(opcode, 0u8, 0u16, 0u16)) by { reveal(decoded_op); }
            assert(operands_readable(*old(s)) ==> d.op == decoded_op(opcode, code_byte(*old(s), old(s).cpu.pc),
                code_word(*old(s), old(s).cpu.pc), branch_target(old(s).cpu.pc, code_byte(*old(s), old(s).cpu.pc))))
                by { reveal(decoded_op); }
            d
        },
        0x73 => {
            let v = read_operand_byte(s);
            let d = DecodedInst { op: IrOp::Rra(AddrMode::IndirectY(v)), bytes: 2, base_cycles: 8 };
            assert(d.op == decoded_op(opcode, v, 0u16, 0u16)) by { reveal(decoded_op); }
            assert(operands_readable(*old(s)) ==> d.op == decoded_op(opcode, code_byte(*old(s), old(s).cpu.pc),
                code_word(*old(s), old(s).cpu.pc), branch_target(old(s).cpu.pc, code_byte(*old(s), old(s).cpu.pc))))
                by { reveal(decoded_op); }
            d
        },
        0x74 => {
            read_operand_byte(s);
            let d = DecodedInst { op: IrOp::Nop, bytes: 2, base_cycles: 4 };
            assert(d.op == decoded_op(opcode, 0u8, 0u16, 0u16)) by { reveal(decoded_op); }
            assert(operands_readable(*old(s)) ==> d.op == decoded_op(opcode, code_byte(*old(s), old(s).cpu.pc),
                code_word(*old(s), old(s).cpu.pc), branch_target(old(s).cpu.pc, code_byte(*old(s), old(s).cpu.pc))))
                by { reveal(decoded_op); }
            d
        },
        0x75 => {
            let v = read_operand_byte(s);
            let d = DecodedInst { op: IrOp::Adc(AddrMode::ZeroPageX(v)), bytes: 2, base_cycles: 4 };
            assert(d.op == decoded_op(opcode, v, 0u16, 0u16)) by { reveal(decoded_op); }
            assert(operands_readable(*old(s)) ==> d.op == decoded_op(opcode, code_byte(*old(s), old(s).cpu.pc),
                code_word(*old(s), old(s).cpu.pc), branch_target(old(s).cpu.pc, code_byte(*old(s), old(s).cpu.pc))))
                by { reveal(decoded_op); }
            d
        },
        0x76 => {
            let v = read_operand_byte(s);
            let d = DecodedInst { op: IrOp::Ror(AddrMode::ZeroPageX(v)), bytes: 2, base_cycles: 6 };
            assert(d.op == decoded_op(opcode, v, 0u16, 0u16)) by { reveal(decoded_op); }
            assert(operands_readable(*old(s)) ==> d.op == decoded_op(opcode, code_byte(*old(s), old(s).cpu.pc),
                code_word(*old(s), old(s).cpu.pc), branch_target(old(s).cpu.pc, code_byte(*old(s), old(s).cpu.pc))))
                by { reveal(decoded_op); }
            d
        },
        0x77 => {
            let v = read_operand_byte(s);
            let d = DecodedInst { op: IrOp::Rra(AddrMode::ZeroPageX(v)), bytes: 2, base_cycles: 6 };
            assert(d.op == decoded_op(opcode, v, 0u16, 0u16)) by { reveal(decoded_op); }
            assert(operands_readable(*old(s)) ==> d.op == decoded_op(opcode, code_byte(*old(s), old(s).cpu.pc),
                code_word(*old(s), old(s).cpu.pc), branch_target(old(s).cpu.pc, code_byte(*old(s), old(s).cpu.pc))))
                by { reveal(decoded_op); }
            d
        },
        0x78 => {
            let d = DecodedInst { op: IrOp::Sei, bytes: 1, base_cycles: 2 };
            assert(d.op == decoded_op(opcode, 0u8, 0u16, 0u16)) by { reveal(decoded_op); }
            assert(operands_readable(*old(s)) ==> d.op == decoded_op(opcode, code_byte(*old(s), old(s).cpu.pc),
                code_word(*old(s), old(s).cpu.pc), branch_target(old(s).cpu.pc, code_byte(*old(s), old(s).cpu.pc))))
                by { reveal(decoded_op); }
            d
        },
        0x79 => {
            let v = read_operand_u16(s);
            let d = DecodedInst { op: IrOp::Adc(AddrMode::AbsoluteY(v)), bytes: 3, base_cycles: 4 };
            assert(d.op == decoded_op(opcode, 0u8, v, 0u16)) by { reveal(decoded_op); }
            assert(operands_readable(*old(s)) ==> d.op == decoded_op(opcode, code_byte(*old(s), old(s).cpu.pc),
                code_word(*old(s), old(s).cpu.pc), branch_target(old(s).cpu.pc, code_byte(*old(s), old(s).cpu.pc))))
                by { reveal(decoded_op); }
            d
        },
        0x7A => {
            let d = DecodedInst { op: IrOp::Nop, bytes: 1, base_cycles: 2 };
            assert(d.op == decoded_op(opcode, 0u8, 0u16, 0u16)) by { reveal(decoded_op); }
            assert(operands_readable(*old(s)) ==> d.op == decoded_op(opcode, code_byte(*old(s), old(s).cpu.pc),
                code_word(*old(s), old(s).cpu.pc), branch_target(old(s).cpu.pc, code_byte(*old(s), old(s).cpu.pc))))
                by { reveal(decoded_op); }
            d
        },
        0x7B => {
            let v = read_operand_u16(s);
            let d = DecodedInst { op: IrOp::Rra(AddrMode::AbsoluteY(v)), bytes: 3, base_cycles: 7 };
            assert(d.op == decoded_op(opcode, 0u8, v, 0u16)) by { reveal(decoded_op); }
            assert(operands_readable(*old(s)) ==> d.op == decoded_op(opcode, code_byte(*old(s), old(s).cpu.pc),
                code_word(*old(s), old(s).cpu.pc), branch_target(old(s).cpu.pc, code_byte(*old(s), old(s).cpu.pc))))
                by { reveal(decoded_op); }
            d
        },
        0x7C => {
            read_operand_u16(s);
            let d = DecodedInst { op: IrOp::Nop, bytes: 3, base_cycles: 4 };
            assert(d.op == decoded_op(opcode, 0u8, 0u16, 0u16)) by { reveal(decoded_op); }
            assert(operands_readable(*old(s)) ==> d.op == decoded_op(opcode, code_byte(*old(s), old(s).cpu.pc),
                code_word(*old(s), old(s).cpu.pc), branch_target(old(s).cpu.pc, code_byte(*old(s), old(s).cpu.pc))))
                by { reveal(decoded_op); }
            d
        },
        0x7D => {
            let v = read_operand_u16(s);
            let d = DecodedInst { op: IrOp::Adc(AddrMode::AbsoluteX(v)), bytes: 3, base_cycles: 4 };
            assert(d.op == decoded_op(opcode, 0u8, v, 0u16)) by { reveal(decoded_op); }
            assert(operands_readable(*old(s)) ==> d.op == decoded_op(opcode, code_byte(*old(s), old(s).cpu.pc),
                code_word(*old(s), old(s).cpu.pc), branch_target(old(s).cpu.pc, code_byte(*old(s), old(s).cpu.pc))))
                by { reveal(decoded_op); }
            d
        },
        0x7E => {
            let v = read_operand_u16(s);
            let d = DecodedInst { op: IrOp::Ror(AddrMode::AbsoluteX(v)), bytes: 3, base_cycles: 7 };
            assert(d.op == decoded_op(opcode, 0u8, v, 0u16)) by { reveal(decoded_op); }
            assert(operands_readable(*old(s)) ==> d.op == decoded_op(opcode, code_byte(*old(s), old(s).cpu.pc),
                code_word(*old(s), old(s).cpu.pc), branch_target(old(s).cpu.pc, code_byte(*old(s), old(s).cpu.pc))))
                by { reveal(decoded_op); }
            d
        },
        0x7F => {
            let v = read_operand_u16(s);
            let d = DecodedInst { op: IrOp::Rra(AddrMode::AbsoluteX(v)), bytes: 3, base_cycles: 7 };
            assert(d.op == decoded_op(opcode, 0u8, v, 0u16)) by { reveal(decoded_op); }
            assert(operands_readable(*old(s)) ==> d.op == decoded_op(opcode, code_byte(*old(s), old(s).cpu.pc),
                code_word(*old(s), old(s).cpu.pc), branch_target(old(s).cpu.pc, code_byte(*old(s), old(s).cpu.pc))))
                by { reveal(decoded_op); }
            d
        },
        0x80 => {
            read_operand_byte(s);
            let d = DecodedInst { op: IrOp::Nop, bytes: 2, base_cycles: 2 };
            assert(d.op == decoded_op(opcode, 0u8, 0u16, 0u16)) by { reveal(decoded_op); }
            assert(operands_readable(*old(s)) ==> d.op == decoded_op(opcode, code_byte(*old(s), old(s).cpu.pc),
                code_word(*old(s), old(s).cpu.pc), branch_target(old(s).cpu.pc, code_byte(*old(s), old(s).cpu.pc))))
                by { reveal(decoded_op); }
            d
        },
        0x81 => {
            let v = read_operand_byte(s);
            let d = DecodedInst { op: IrOp::Sta(AddrMode::IndirectX(v)), bytes: 2, base_cycles: 6 };
            assert(d.op == decoded_op(opcode, v, 0u16, 0u16)) by { reveal(decoded_op); }
            assert(operands_readable(*old(s)) ==> d.op == decoded_op(opcode, code_byte(*old(s), old(s).cpu.pc),
                code_word(*old(s), old(s).cpu.pc), branch_target(old(s).cpu.pc, code_byte(*old(s), old(s).cpu.pc))))
                by { reveal(decoded_op); }
            d
        },
        0x82 => {
            read_operand_byte(s);
            let d = DecodedInst { op: IrOp::Nop, bytes: 2, base_cycles: 2 };
            assert(d.op == decoded_op(opcode, 0u8, 0u16, 0u16)) by { reveal(decoded_op); }
            assert(operands_readable(*old(s)) ==> d.op == decoded_op(opcode, code_byte(*old(s), old(s).cpu.pc),
                code_word(*old(s), old(s).cpu.pc), branch_target(old(s).cpu.pc, code_byte(*old(s), old(s).cpu.pc))))
                by { reveal(decoded_op); }
            d
        },
        0x83 => {
            let v = read_operand_byte(s);
            let d = DecodedInst { op: IrOp::Sax(AddrMode::IndirectX(v)), bytes: 2, base_cycles: 6 };
            assert(d.op == decoded_op(opcode, v, 0u16, 0u16)) by { reveal(decoded_op); }
            assert(operands_readable(*old(s)) ==> d.op == decoded_op(opcode, code_byte(*old(s), old(s).cpu.pc),
                code_word(*old(s), old(s).cpu.pc), branch_target(old(s).cpu.pc, code_byte(*old(s), old(s).cpu.pc))))
                by { reveal(decoded_op); }
            d
        },
        0x84 => {
            let v = read_operand_byte(s);
            let d = DecodedInst { op: IrOp::Sty(AddrMode::ZeroPage(v)), bytes: 2, base_cycles: 3 };
            assert(d.op == decoded_op(opcode, v, 0u16, 0u16)) by { reveal(decoded_op); }
            assert(operands_readable(*old(s)) ==> d.op == decoded_op(opcode, code_byte(*old(s), old(s).cpu.pc),
                code_word(*old(s), old(s).cpu.pc), branch_target(old(s).cpu.pc, code_byte(*old(s), old(s).cpu.pc))))
                by { reveal(decoded_op); }
            d
        },
        0x85 => {
            let v = read_operand_byte(s);
            let d = DecodedInst { op: IrOp::Sta(AddrMode::ZeroPage(v)), bytes: 2, base_cycles: 3 };
            assert(d.op == decoded_op(opcode, v, 0u16, 0u16)) by { reveal(decoded_op); }
            assert(operands_readable(*old(s)) ==> d.op == decoded_op(opcode, code_byte(*old(s), old(s).cpu.pc),
                code_word(*old(s), old(s).cpu.pc), branch_target(old(s).cpu.pc, code_byte(*old(s), old(s).cpu.pc))))
                by { reveal(decoded_op); }
            d
        },
        0x86 => {
            let v = read_operand_byte(s);
            let d = DecodedInst { op: IrOp::Stx(AddrMode::ZeroPage(v)), bytes: 2, base_cycles: 3 };
            assert(d.op == decoded_op(opcode, v, 0u16, 0u16)) by { reveal(decoded_op); }
            assert(operands_readable(*old(s)) ==> d.op == decoded_op(opcode, code_byte(*old(s), old(s).cpu.pc),
                code_word(*old(s), old(s).cpu.pc), branch_target(old(s).cpu.pc, code_byte(*old(s), old(s).cpu.pc))))
                by { reveal(decoded_op); }
            d
        },
        0x87 => {
            let v = read_operand_byte(s);
            let d = DecodedInst { op: IrOp::Sax(AddrMode::ZeroPage(v)), bytes: 2, base_cycles: 3 };
            assert(d.op == decoded_op(opcode, v, 0u16, 0u16)) by { reveal(decoded_op); }
            assert(operands_readable(*old(s)) ==> d.op == decoded_op(opcode, code_byte(*old(s), old(s).cpu.pc),
                code_word(*old(s), old(s).cpu.pc), branch_target(old(s).cpu.pc, code_byte(*old(s), old(s).cpu.pc))))
                by { reveal(decoded_op); }
            d
        },
        0x88 => {
            read_operand_byte(s);
            let d = DecodedInst { op: IrOp::Dey, bytes: 1, base_cycles: 2 };
            assert(d.op == decoded_op(opcode, 0u8, 0u16, 0u16)) by { reveal(decoded_op); }
            assert(operands_readable(*old(s)) ==> d.op == decoded_op(opcode, code_byte(*old(s), old(s).cpu.pc),
                code_word(*old(s), old(s).cpu.pc), branch_target(old(s).cpu.pc, code_byte(*old(s), old(s).cpu.pc))))
                by { reveal(decoded_op); }
            d
        },
        0x89 => {
            read_operand_byte(s);
            let d = DecodedInst { op: IrOp::Nop, bytes: 2, base_cycles: 2 };
            assert(d.op == decoded_op(opcode, 0u8, 0u16, 0u16)) by { reveal(decoded_op); }
            assert(operands_readable(*old(s)) ==> d.op == decoded_op(opcode, code_byte(*old(s), old(s).cpu.pc),
                code_word(*old(s), old(s).cpu.pc), branch_target(old(s).cpu.pc, code_byte(*old(s), old(s).cpu.pc))))
                by { reveal(decoded_op); }
            d
        },
        0x8A => {
            read_operand_byte(s);
            let d = DecodedInst { op: IrOp::Txa, bytes: 1, base_cycles: 2 };
            assert(d.op == decoded_op(opcode, 0u8, 0u16, 0u16)) by { reveal(decoded_op); }
            assert(operands_readable(*old(s)) ==> d.op == decoded_op(opcode, code_byte(*old(s), old(s).cpu.pc),
                code_word(*old(s), old(s).cpu.pc), branch_target(old(s).cpu.pc, code_byte(*old(s), old(s).cpu.pc))))
                by { reveal(decoded_op); }
            d
        },
        0x8B => {
            let v = read_operand_byte(s);
            let d = DecodedInst { op: IrOp::Ane(AddrMode::Immediate(v)), bytes: 2, base_cycles: 2 };
            assert(d.op == decoded_op(opcode, v, 0u16, 0u16)) by { reveal(decoded_op); }
            assert(operands_readable(*old(s)) ==> d.op == decoded_op(opcode, code_byte(*old(s), old(s).cpu.pc),
                code_word(*old(s), old(s).cpu.pc), branch_target(old(s).cpu.pc, code_byte(*old(s), old(s).cpu.pc))))
                by { reveal(decoded_op); }
            d
        },
        0x8C => {
            let v = read_operand_u16(s);
            let d = DecodedInst { op: IrOp::Sty(AddrMode::Absolute(v)), bytes: 3, base_cycles: 4 };
            assert(d.op == decoded_op(opcode, 0u8, v, 0u16)) by { reveal(decoded_op); }
            assert(operands_readable(*old(s)) ==> d.op == decoded_op(opcode, code_byte(*old(s), old(s).cpu.pc),
                code_word(*old(s), old(s).cpu.pc), branch_target(old(s).cpu.pc, code_byte(*old(s), old(s).cpu.pc))))
                by { reveal(decoded_op); }
            d
        },
        0x8D => {
            let v = read_operand_u16(s);
            let d = DecodedInst { op: IrOp::Sta(AddrMode::Absolute(v)), bytes: 3, base_cycles: 4 };
            assert(d.op == decoded_op(opcode, 0u8, v, 0u16)) by { reveal(decoded_op); }
            assert(operands_readable(*old(s)) ==> d.op == decoded_op(opcode, code_byte(*old(s), old(s).cpu.pc),
                code_word(*old(s), old(s).cpu.pc), branch_target(old(s).cpu.pc, code_byte(*old(s), old(s).cpu.pc))))
                by { reveal(decoded_op); }
            d
        },
        0x8E => {
            let v = read_operand_u16(s);
            let d = DecodedInst { op: IrOp::Stx(AddrMode::Absolute(v)), bytes: 3, base_cycles: 4 };
            assert(d.op == decoded_op(opcode, 0u8, v, 0u16)) by { reveal(decoded_op); }
            assert(operands_readable(*old(s)) ==> d.op == decoded_op(opcode, code_byte(*old(s), old(s).cpu.pc),
                code_word(*old(s), old(s).cpu.pc), branch_target(old(s).cpu.pc, code_byte(*old(s), old(s).cpu.pc))))
                by { reveal(decoded_op); }
            d
        },
        0x8F => {
            let v = read_operand_u16(s);
            let d = DecodedInst { op: IrOp::Sax(AddrMode::Absolute(v)), bytes: 3, base_cycles: 4 };
            assert(d.op == decoded_op(opcode, 0u8, v, 0u16)) by { reveal(decoded_op); }
            assert(operands_readable(*old(s)) ==> d.op == decoded_op(opcode, code_byte(*old(s), old(s).cpu.pc),
                code_word(*old(s), old(s).cpu.pc), branch_target(old(s).cpu.pc, code_byte(*old(s), old(s).cpu.pc))))
                by { reveal(decoded_op); }
            d
        },
        0x90 => {
            let offset = read_operand_byte(s) as i8;
            let target = relative_target(s.cpu.pc, offset);
            let d = DecodedInst { op: IrOp::Bcc { target }, bytes: 2, base_cycles: 2 };
            assert(d.op == decoded_op(opcode, 0u8, 0u16, target)) by { reveal(decoded_op); }
            assert(operands_readable(*old(s)) ==> d.op == decoded_op(opcode, code_byte(*old(s), old(s).cpu.pc),
                code_word(*old(s), old(s).cpu.pc), branch_target(old(s).cpu.pc, code_byte(*old(s), old(s).cpu.pc))))
                by { reveal(decoded_op); }
            d
        },
        0x91 => {
            let v = read_operand_byte(s);
            let d = DecodedInst { op: IrOp::Sta(AddrMode::IndirectY(v)), bytes: 2, base_cycles: 6 };
            assert(d.op == decoded_op(opcode, v, 0u16, 0u16)) by { reveal(decoded_op); }
            assert(operands_readable(*old(s)) ==> d.op == decoded_op(opcode, code_byte(*old(s), old(s).cpu.pc),
                code_word(*old(s), old(s).cpu.pc), branch_target(old(s).cpu.pc, code_byte(*old(s), old(s).cpu.pc))))
                by { reveal(decoded_op); }
            d
        },
        0x92 => {
            let d = DecodedInst { op: IrOp::Nop, bytes: 1, base_cycles: 2 };
            assert(d.op == decoded_op(opcode, 0u8, 0u16, 0u16)) by { reveal(decoded_op); }
            assert(operands_readable(*old(s)) ==> d.op == decoded_op(opcode, code_byte(*old(s), old(s).cpu.pc),
                code_word(*old(s), old(s).cpu.pc), branch_target(old(s).cpu.pc, code_byte(*old(s), old(s).cpu.pc))))
                by { reveal(decoded_op); }
            d
        },
        0x93 => {
            let v = read_operand_byte(s);
            let d = DecodedInst { op: IrOp::Sha(AddrMode::IndirectY(v)), bytes: 2, base_cycles: 6 };
            assert(d.op == decoded_op(opcode, v, 0u16, 0u16)) by { reveal(decoded_op); }
            assert(operands_readable(*old(s)) ==> d.op == decoded_op(opcode, code_byte(*old(s), old(s).cpu.pc),
                code_word(*old(s), old(s).cpu.pc), branch_target(old(s).cpu.pc, code_byte(*old(s), old(s).cpu.pc))))
                by { reveal(decoded_op); }
            d
        },
        0x94 => {
            let v = read_operand_byte(s);
            let d = DecodedInst { op: IrOp::Sty(AddrMode::ZeroPageX(v)), bytes: 2, base_cycles: 4 };
            assert(d.op == decoded_op(opcode, v, 0u16, 0u16)) by { reveal(decoded_op); }
            assert(operands_readable(*old(s)) ==> d.op == decoded_op(opcode, code_byte(*old(s), old(s).cpu.pc),
                code_word(*old(s), old(s).cpu.pc), branch_target(old(s).cpu.pc, code_byte(*old(s), old(s).cpu.pc))))
                by { reveal(decoded_op); }
            d
        },
        0x95 => {
            let v = read_operand_byte(s);
            let d = DecodedInst { op: IrOp::Sta(AddrMode::ZeroPageX(v)), bytes: 2, base_cycles: 4 };
            assert(d.op == decoded_op(opcode, v, 0u16, 0u16)) by { reveal(decoded_op); }
            assert(operands_readable(*old(s)) ==> d.op == decoded_op(opcode, code_byte(*old(s), old(s).cpu.pc),
                code_word(*old(s), old(s).cpu.pc), branch_target(old(s).cpu.pc, code_byte(*old(s), old(s).cpu.pc))))
                by { reveal(decoded_op); }
            d
        },
        0x96 => {
            let v = read_operand_byte(s);
            let d = DecodedInst { op: IrOp::Stx(AddrMode::ZeroPageY(v)), bytes: 2, base_cycles: 4 };
            assert(d.op == decoded_op(opcode, v, 0u16, 0u16)) by { reveal(decoded_op); }
            assert(operands_readable(*old(s)) ==> d.op == decoded_op(opcode, code_byte(*old(s), old(s).cpu.pc),
                code_word(*old(s), old(s).cpu.pc), branch_target(old(s).cpu.pc, code_byte(*old(s), old(s).cpu.pc))))
                by { reveal(decoded_op); }
            d
        },
        0x97 => {
            let v = read_operand_byte(s);
            let d = DecodedInst { op: IrOp::Sax(AddrMode::ZeroPageY(v)), bytes: 2, base_cycles: 4 };
            assert(d.op == decoded_op(opcode, v, 0u16, 0u16)) by { reveal(decoded_op); }
            assert(operands_readable(*old(s)) ==> d.op == decoded_op(opcode, code_byte(*old(s), old(s).cpu.pc),
                code_word(*old(s), old(s).cpu.pc), branch_target(old(s).cpu.pc, code_byte(*old(s), old(s).cpu.pc))))
                by { reveal(decoded_op); }
            d
        },
        0x98 => {
            read_operand_byte(s);
            let d = DecodedInst { op: IrOp::Tya, bytes: 1, base_cycles: 2 };
            assert(d.op == decoded_op(opcode, 0u8, 0u16, 0u16)) by { reveal(decoded_op); }
            assert(operands_readable(*old(s)) ==> d.op == decoded_op(opcode, code_byte(*old(s), old(s).cpu.pc),
                code_word(*old(s), old(s).cpu.pc), branch_target(old(s).cpu.pc, code_byte(*old(s), old(s).cpu.pc))))
                by { reveal(decoded_op); }
            d
        },
        0x99 => {
            let v = read_operand_u16(s);
            let d = DecodedInst { op: IrOp::Sta(AddrMode::AbsoluteY(v)), bytes: 3, base_cycles: 5 };
            assert(d.op == decoded_op(opcode, 0u8, v, 0u16)) by { reveal(decoded_op); }
            assert(operands_readable(*old(s)) ==> d.op == decoded_op(opcode, code_byte(*old(s), old(s).cpu.pc),
                code_word(*old(s), old(s).cpu.pc), branch_target(old(s).cpu.pc, code_byte(*old(s), old(s).cpu.pc))))
                by { reveal(decoded_op); }
            d
        },
        0x9A => {
            read_operand_byte(s);
            let d = DecodedInst { op: IrOp::Txs, bytes: 1, base_cycles: 2 };
            assert(d.op == decoded_op(opcode, 0u8, 0u16, 0u16)) by { reveal(decoded_op); }
            assert(operands_readable(*old(s)) ==> d.op == decoded_op(opcode, code_byte(*old(s), old(s).cpu.pc),
                code_word(*old(s), old(s).cpu.pc), branch_target(old(s).cpu.pc, code_byte(*old(s), old(s).cpu.pc))))
                by { reveal(decoded_op); }
            d
        },
        0x9B => {
            let v = read_operand_u16(s);
            let d = DecodedInst { op: IrOp::Tas(AddrMode::AbsoluteY(v)), bytes: 3, base_cycles: 5 };
            assert(d.op == decoded_op(opcode, 0u8, v, 0u16)) by { reveal(decoded_op); }
            assert(operands_readable(*old(s)) ==> d.op == decoded_op(opcode, code_byte(*old(s), old(s).cpu.pc),
                code_word(*old(s), old(s).cpu.pc), branch_target(old(s).cpu.pc, code_byte(*old(s), old(s).cpu.pc))))
                by { reveal(decoded_op); }
            d
        },
        0x9C => {
            let v = read_operand_u16(s);
            let d = DecodedInst { op: IrOp::Shy(AddrMode::AbsoluteX(v)), bytes: 3, base_cycles: 5 };
            assert(d.op == decoded_op(opcode, 0u8, v, 0u16)) by { reveal(decoded_op); }
            assert(operands_readable(*old(s)) ==> d.op == decoded_op(opcode, code_byte(*old(s), old(s).cpu.pc),
                code_word(*old(s), old(s).cpu.pc), branch_target(old(s).cpu.pc, code_byte(*old(s), old(s).cpu.pc))))
                by { reveal(decoded_op); }
            d
        },
        0x9D => {
            let v = read_operand_u16(s);
            let d = DecodedInst { op: IrOp::Sta(AddrMode::AbsoluteX(v)), bytes: 3, base_cycles: 5 };
            assert(d.op == decoded_op(opcode, 0u8, v, 0u16)) by { reveal(decoded_op); }
            assert(operands_readable(*old(s)) ==> d.op == decoded_op(opcode, code_byte(*old(s), old(s).cpu.pc),
                code_word(*old(s), old(s).cpu.pc), branch_target(old(s).cpu.pc, code_byte(*old(s), old(s).cpu.pc))))
                by { reveal(decoded_op); }
            d
        },
        0x9E => {
            let v = read_operand_u16(s);
            let d = DecodedInst { op: IrOp::Shx(AddrMode::AbsoluteY(v)), bytes: 3, base_cycles: 5 };
            assert(d.op == decoded_op(opcode, 0u8, v, 0u16)) by { reveal(decoded_op); }
            assert(operands_readable(*old(s)) ==> d.op == decoded_op(opcode, code_byte(*old(s), old(s).cpu.pc),
                code_word(*old(s), old(s).cpu.pc), branch_target(old(s).cpu.pc, code_byte(*old(s), old(s).cpu.pc))))
                by { reveal(decoded_op); }
            d
        },
        0x9F => {
            let v = read_operand_u16(s);
            let d = DecodedInst { op: IrOp::Sha(AddrMode::AbsoluteY(v)), bytes: 3, base_cycles: 5 };
            assert(d.op == decoded_op(opcode, 0u8, v, 0u16)) by { reveal(decoded_op); }
            assert(operands_readable(*old(s)) ==> d.op == decoded_op(opcode, code_byte(*old(s), old(s).cpu.pc),
                code_word(*old(s), old(s).cpu.pc), branch_target(old(s).cpu.pc, code_byte(*old(s), old(s).cpu.pc))))
                by { reveal(decoded_op); }
            d
        },
        0xA0 => {
            let v = read_operand_byte(s);
            let d = DecodedInst { op: IrOp::Ldy(AddrMode::Immediate(v)), bytes: 2, base_cycles: 2 };
            assert(d.op == decoded_op(opcode, v, 0u16, 0u16)) by { reveal(decoded_op); }
            assert(operands_readable(*old(s)) ==> d.op == decoded_op(opcode, code_byte(*old(s), old(s).cpu.pc),
                code_word(*old(s), old(s).cpu.pc), branch_target(old(s).cpu.pc, code_byte(*old(s), old(s).cpu.pc))))
                by { reveal(decoded_op); }
            d
        },
        0xA1 => {
            let v = read_operand_byte(s);
            let d = DecodedInst { op: IrOp::Lda(AddrMode::IndirectX(v)), bytes: 2, base_cycles: 6 };
            assert(d.op == decoded_op(opcode, v, 0u16, 0u16)) by { reveal(decoded_op); }
            assert(operands_readable(*old(s)) ==> d.op == decoded_op(opcode, code_byte(*old(s), old(s).cpu.pc),
                code_word(*old(s), old(s).cpu.pc), branch_target(old(s).cpu.pc, code_byte(*old(s), old(s).cpu.pc))))
                by { reveal(decoded_op); }
            d
        },
        0xA2 => {
            let v = read_operand_byte(s);
            let d = DecodedInst { op: IrOp::Ldx(AddrMode::Immediate(v)), bytes: 2, base_cycles: 2 };
            assert(d.op == decoded_op(opcode, v, 0u16, 0u16)) by { reveal(decoded_op); }
            assert(operands_readable(*old(s)) ==> d.op == decoded_op(opcode, code_byte(*old(s), old(s).cpu.pc),
                code_word(*old(s), old(s).cpu.pc), branch_target(old(s).cpu.pc, code_byte(*old(s), old(s).cpu.pc))))
                by { reveal(decoded_op); }
            d
        },
        0xA3 => {
            let v = read_operand_byte(s);
            let d = DecodedInst { op: IrOp::Lax(AddrMode::IndirectX(v)), bytes: 2, base_cycles: 6 };
            assert(d.op == decoded_op(opcode, v, 0u16, 0u16)) by { reveal(decoded_op); }
            assert(operands_readable(*old(s)) ==> d.op == decoded_op(opcode, code_byte(*old(s), old(s).cpu.pc),
                code_word(*old(s), old(s).cpu.pc), branch_target(old(s).cpu.pc, code_byte(*old(s), old(s).cpu.pc))))
                by { reveal(decoded_op); }
            d
        },
        0xA4 => {
            let v = read_operand_byte(s);
            let d = DecodedInst { op: IrOp::Ldy(AddrMode::ZeroPage(v)), bytes: 2, base_cycles: 3 };
            assert(d.op == decoded_op(opcode, v, 0u16, 0u16)) by { reveal(decoded_op); }
            assert(operands_readable(*old(s)) ==> d.op == decoded_op(opcode, code_byte(*old(s), old(s).cpu.pc),
                code_word(*old(s), old(s).cpu.pc), branch_target(old(s).cpu.pc, code_byte(*old(s), old(s).cpu.pc))))
                by { reveal(decoded_op); }
            d
        },
        0xA5 => {
            let v = read_operand_byte(s);
            let d = DecodedInst { op: IrOp::Lda(AddrMode::ZeroPage(v)), bytes: 2, base_cycles: 3 };
            assert(d.op == decoded_op(opcode, v, 0u16, 0u16)) by { reveal(decoded_op); }
            assert(operands_readable(*old(s)) ==> d.op == decoded_op(opcode, code_byte(*old(s), old(s).cpu.pc),
                code_word(*old(s), old(s).cpu.pc), branch_target(old(s).cpu.pc, code_byte(*old(s), old(s).cpu.pc))))
                by { reveal(decoded_op); }
            d
        },
        0xA6 => {
            let v = read_operand_byte(s);
            let d = DecodedInst { op: IrOp::Ldx(AddrMode::ZeroPage(v)), bytes: 2, base_cycles: 3 };
            assert(d.op == decoded_op(opcode, v, 0u16, 0u16)) by { reveal(decoded_op); }
            assert(operands_readable(*old(s)) ==> d.op == decoded_op(opcode, code_byte(*old(s), old(s).cpu.pc),
                code_word(*old(s), old(s).cpu.pc), branch_target(old(s).cpu.pc, code_byte(*old(s), old(s).cpu.pc))))
                by { reveal(decoded_op); }
            d
        },
        0xA7 => {
            let v = read_operand_byte(s);
            let d = DecodedInst { op: IrOp::Lax(AddrMode::ZeroPage(v)), bytes: 2, base_cycles: 3 };
            assert(d.op == decoded_op(opcode, v, 0u16, 0u16)) by { reveal(decoded_op); }
            assert(operands_readable(*old(s)) ==> d.op == decoded_op(opcode, code_byte(*old(s), old(s).cpu.pc),
                code_word(*old(s), old(s).cpu.pc), branch_target(old(s).cpu.pc, code_byte(*old(s), old(s).cpu.pc))))
                by { reveal(decoded_op); }
            d
        },
        0xA8 => {
            read_operand_byte(s);
            let d = DecodedInst { op: IrOp::Tay, bytes: 1, base_cycles: 2 };
            assert(d.op == decoded_op(opcode, 0u8, 0u16, 0u16)) by { reveal(decoded_op); }
            assert(operands_readable(*old(s)) ==> d.op == decoded_op(opcode, code_byte(*old(s), old(s).cpu.pc),
                code_word(*old(s), old(s).cpu.pc), branch_target(old(s).cpu.pc, code_byte(*old(s), old(s).cpu.pc))))
                by { reveal(decoded_op); }
            d
        },
        0xA9 => {
            let v = read_operand_byte(s);
            let d = DecodedInst { op: IrOp::Lda(AddrMode::Immediate(v)), bytes: 2, base_cycles: 2 };
            assert(d.op == decoded_op(opcode, v, 0u16, 0u16)) by { reveal(decoded_op); }
            assert(operands_readable(*old(s)) ==> d.op == decoded_op(opcode, code_byte(*old(s), old(s).cpu.pc),
                code_word(*old(s), old(s).cpu.pc), branch_target(old(s).cpu.pc, code_byte(*old(s), old(s).cpu.pc))))
                by { reveal(decoded_op); }
            d
        },
        0xAA => {
            read_operand_byte(s);
            let d = DecodedInst { op: IrOp::Tax, bytes: 1, base_cycles: 2 };
            assert(d.op == decoded_op(opcode, 0u8, 0u16, 0u16)) by { reveal(decoded_op); }
            assert(operands_readable(*old(s)) ==> d.op == decoded_op(opcode, code_byte(*old(s), old(s).cpu.pc),
                code_word(*old(s), old(s).cpu.pc), branch_target(old(s).cpu.pc, code_byte(*old(s), old(s).cpu.pc))))
                by { reveal(decoded_op); }
            d
        },
        0xAC => {
            let v = read_operand_u16(s);
            let d = DecodedInst { op: IrOp::Ldy(AddrMode::Absolute(v)), bytes: 3, base_cycles: 4 };
            assert(d.op == decoded_op(opcode, 0u8, v, 0u16)) by { reveal(decoded_op); }
            assert(operands_readable(*old(s)) ==> d.op == decoded_op(opcode, code_byte(*old(s), old(s).cpu.pc),
                code_word(*old(s), old(s).cpu.pc), branch_target(old(s).cpu.pc, code_byte(*old(s), old(s).cpu.pc))))
                by { reveal(decoded_op); }
            d
        },
        0xAD => {
            let v = read_operand_u16(s);
            let d = DecodedInst { op: IrOp::Lda(AddrMode::Absolute(v)), bytes: 3, base_cycles: 4 };
            assert(d.op == decoded_op(opcode, 0u8, v, 0u16)) by { reveal(decoded_op); }
            assert(operands_readable(*old(s)) ==> d.op == decoded_op(opcode, code_byte(*old(s), old(s).cpu.pc),
                code_word(*old(s), old(s).cpu.pc), branch_target(old(s).cpu.pc, code_byte(*old(s), old(s).cpu.pc))))
                by { reveal(decoded_op); }
            d
        },
        0xAE => {
            let v = read_operand_u16(s);
            let d = DecodedInst { op: IrOp::Ldx(AddrMode::Absolute(v)), bytes: 3, base_cycles: 4 };
            assert(d.op == decoded_op(opcode, 0u8, v, 0u16)) by { reveal(decoded_op); }
            assert(operands_readable(*old(s)) ==> d.op == decoded_op(opcode, code_byte(*old(s), old(s).cpu.pc),
                code_word(*old(s), old(s).cpu.pc), branch_target(old(s).cpu.pc, code_byte(*old(s), old(s).cpu.pc))))
                by { reveal(decoded_op); }
            d
        },
        0xAF => {
            let v = read_operand_u16(s);
            let d = DecodedInst { op: IrOp::Lax(AddrMode::Absolute(v)), bytes: 3, base_cycles: 4 };
            assert(d.op == decoded_op(opcode, 0u8, v, 0u16)) by { reveal(decoded_op); }
            assert(operands_readable(*old(s)) ==> d.op == decoded_op(opcode, code_byte(*old(s), old(s).cpu.pc),
                code_word(*old(s), old(s).cpu.pc), branch_target(old(s).cpu.pc, code_byte(*old(s), old(s).cpu.pc))))
                by { reveal(decoded_op); }
            d
        },
        0xB0 => {
            let offset = read_operand_byte(s) as i8;
            let target = relative_target(s.cpu.pc, offset);
            let d = DecodedInst { op: IrOp::Bcs { target }, bytes: 2, base_cycles: 2 };
            assert(d.op == decoded_op(opcode, 0u8, 0u16, target)) by { reveal(decoded_op); }
            assert(operands_readable(*old(s)) ==> d.op == decoded_op(opcode, code_byte(*old(s), old(s).cpu.pc),
                code_word(*old(s), old(s).cpu.pc), branch_target(old(s).cpu.pc, code_byte(*old(s), old(s).cpu.pc))))
                by { reveal(decoded_op); }
            d
        },
        0xB1 => {
            let v = read_operand_byte(s);
            let d = DecodedInst { op: IrOp::Lda(AddrMode::IndirectY(v)), bytes: 2, base_cycles: 5 };
            assert(d.op == decoded_op(opcode, v, 0u16, 0u16)) by { reveal(decoded_op); }
            assert(operands_readable(*old(s)) ==> d.op == decoded_op(opcode, code_byte(*old(s), old(s).cpu.pc),
                code_word(*old(s), old(s).cpu.pc), branch_target(old(s).cpu.pc, code_byte(*old(s), old(s).cpu.pc))))
                by { reveal(decoded_op); }
            d
        },
        0xB2 => {
            let d = DecodedInst { op: IrOp::Nop, bytes: 1, base_cycles: 2 };
            assert(d.op == decoded_op(opcode, 0u8, 0u16, 0u16)) by { reveal(decoded_op); }
            assert(operands_readable(*old(s)) ==> d.op == decoded_op(opcode, code_byte(*old(s), old(s).cpu.pc),
                code_word(*old(s), old(s).cpu.pc), branch_target(old(s).cpu.pc, code_byte(*old(s), old(s).cpu.pc))))
                by { reveal(decoded_op); }
            d
        },
        0xB3 => {
            let v = read_operand_byte(s);
            let d = DecodedInst { op: IrOp::Lax(AddrMode::IndirectY(v)), bytes: 2, base_cycles: 5 };
            assert(d.op == decoded_op(opcode, v, 0u16, 0u16)) by { reveal(decoded_op); }
            assert(operands_readable(*old(s)) ==> d.op == decoded_op(opcode, code_byte(*old(s), old(s).cpu.pc),
                code_word(*old(s), old(s).cpu.pc), branch_target(old(s).cpu.pc, code_byte(*old(s), old(s).cpu.pc))))
                by { reveal(decoded_op); }
            d
        },
        0xB4 => {
            let v = read_operand_byte(s);
            let d = DecodedInst { op: IrOp::Ldy(AddrMode::ZeroPageX(v)), bytes: 2, base_cycles: 4 };
            assert(d.op == decoded_op(opcode, v, 0u16, 0u16)) by { reveal(decoded_op); }
            assert(operands_readable(*old(s)) ==> d.op == decoded_op(opcode, code_byte(*old(s), old(s).cpu.pc),
                code_word(*old(s), old(s).cpu.pc), branch_target(old(s).cpu.pc, code_byte(*old(s), old(s).cpu.pc))))
                by { reveal(decoded_op); }
            d
        },
        0xB5 => {
            let v = read_operand_byte(s);
            let d = DecodedInst { op: IrOp::Lda(AddrMode::ZeroPageX(v)), bytes: 2, base_cycles: 4 };
            assert(d.op == decoded_op(opcode, v, 0u16, 0u16)) by { reveal(decoded_op); }
            assert(operands_readable(*old(s)) ==> d.op == decoded_op(opcode, code_byte(*old(s), old(s).cpu.pc),
                code_word(*old(s), old(s).cpu.pc), branch_target(old(s).cpu.pc, code_byte(*old(s), old(s).cpu.pc))))
                by { reveal(decoded_op); }
            d
        },
        0xB6 => {
            let v = read_operand_byte(s);
            let d = DecodedInst { op: IrOp::Ldx(AddrMode::ZeroPageY(v)), bytes: 2, base_cycles: 4 };
            assert(d.op == decoded_op(opcode, v, 0u16, 0u16)) by { reveal(decoded_op); }
            assert(operands_readable(*old(s)) ==> d.op == decoded_op(opcode, code_byte(*old(s), old(s).cpu.pc),
                code_word(*old(s), old(s).cpu.pc), branch_target(old(s).cpu.pc, code_byte(*old(s), old(s).cpu.pc))))
                by { reveal(decoded_op); }
            d
        },
        0xB7 => {
            let v = read_operand_byte(s);
            let d = DecodedInst { op: IrOp::Lax(AddrMode::ZeroPageY(v)), bytes: 2, base_cycles: 4 };
            assert(d.op == decoded_op(opcode, v, 0u16, 0u16)) by { reveal(decoded_op); }
            assert(operands_readable(*old(s)) ==> d.op == decoded_op(opcode, code_byte(*old(s), old(s).cpu.pc),
                code_word(*old(s), old(s).cpu.pc), branch_target(old(s).cpu.pc, code_byte(*old(s), old(s).cpu.pc))))
                by { reveal(decoded_op); }
            d
        },
        0xB8 => {
            let d = DecodedInst { op: IrOp::Clv, bytes: 1, base_cycles: 2 };
            assert(d.op == decoded_op(opcode, 0u8, 0u16, 0u16)) by { reveal(decoded_op); }
            assert(operands_readable(*old(s)) ==> d.op == decoded_op(opcode, code_byte(*old(s), old(s).cpu.pc),
                code_word(*old(s), old(s).cpu.pc), branch_target(old(s).cpu.pc, code_byte(*old(s), old(s).cpu.pc))))
                by { reveal(decoded_op); }
            d
        },
        0xB9 => {
            let v = read_operand_u16(s);
            let d = DecodedInst { op: IrOp::Lda(AddrMode::AbsoluteY(v)), bytes: 3, base_cycles: 4 };
            assert(d.op == decoded_op(opcode, 0u8, v, 0u16)) by { reveal(decoded_op); }
            assert(operands_readable(*old(s)) ==> d.op == decoded_op(opcode, code_byte(*old(s), old(s).cpu.pc),
                code_word(*old(s), old(s).cpu.pc), branch_target(old(s).cpu.pc, code_byte(*old(s), old(s).cpu.pc))))
                by { reveal(decoded_op); }
            d
        },
        0xBA => {
            read_operand_byte(s);
            let d = DecodedInst { op: IrOp::Tsx, bytes: 1, base_cycles: 2 };
            assert(d.op == decoded_op(opcode, 0u8, 0u16, 0u16)) by { reveal(decoded_op); }
            assert(operands_readable(*old(s)) ==> d.op == decoded_op(opcode, code_byte(*old(s), old(s).cpu.pc),
                code_word(*old(s), old(s).cpu.pc), branch_target(old(s).cpu.pc, code_byte(*old(s), old(s).cpu.pc))))
                by { reveal(decoded_op); }
            d
        },
        0xBB => {
            let v = read_operand_u16(s);
            let d = DecodedInst { op: IrOp::Las(AddrMode::AbsoluteY(v)), bytes: 3, base_cycles: 4 };
            assert(d.op == decoded_op(opcode, 0u8, v, 0u16)) by { reveal(decoded_op); }
            assert(operands_readable(*old(s)) ==> d.op == decoded_op(opcode, code_byte(*old(s), old(s).cpu.pc),
                code_word(*old(s), old(s).cpu.pc), branch_target(old(s).cpu.pc, code_byte(*old(s), old(s).cpu.pc))))
                by { reveal(decoded_op); }
            d
        },
        0xBC => {
            let v = read_operand_u16(s);
            let d = DecodedInst { op: IrOp::Ldy(AddrMode::AbsoluteX(v)), bytes: 3, base_cycles: 4 };
            assert(d.op == decoded_op(opcode, 0u8, v, 0u16)) by { reveal(decoded_op); }
            assert(operands_readable(*old(s)) ==> d.op == decoded_op(opcode, code_byte(*old(s), old(s).cpu.pc),
                code_word(*old(s), old(s).cpu.pc), branch_target(old(s).cpu.pc, code_byte(*old(s), old(s).cpu.pc))))
                by { reveal(decoded_op); }
            d
        },
        0xBD => {
            let v = read_operand_u16(s);
            let d = DecodedInst { op: IrOp::Lda(AddrMode::AbsoluteX(v)), bytes: 3, base_cycles: 4 };
            assert(d.op == decoded_op(opcode, 0u8, v, 0u16)) by { reveal(decoded_op); }
            assert(operands_readable(*old(s)) ==> d.op == decoded_op(opcode, code_byte(*old(s), old(s).cpu.pc),
                code_word(*old(s), old(s).cpu.pc), branch_target(old(s).cpu.pc, code_byte(*old(s), old(s).cpu.pc))))
                by { reveal(decoded_op); }
            d
        },
        0xBE => {
            let v = read_operand_u16(s);
            let d = DecodedInst { op: IrOp::Ldx(AddrMode::AbsoluteY(v)), bytes: 3, base_cycles: 4 };
            assert(d.op == decoded_op(opcode, 0u8, v, 0u16)) by { reveal(decoded_op); }
            assert(operands_readable(*old(s)) ==> d.op == decoded_op(opcode, code_byte(*old(s), old(s).cpu.pc),
                code_word(*old(s), old(s).cpu.pc), branch_target(old(s).cpu.pc, code_byte(*old(s), old(s).cpu.pc))))
                by { reveal(decoded_op); }
            d
        },
        0xBF => {
            let v = read_operand_u16(s);
            let d = DecodedInst { op: IrOp::Lax(AddrMode::AbsoluteY(v)), bytes: 3, base_cycles: 4 };
            assert(d.op == decoded_op(opcode, 0u8, v, 0u16)) by { reveal(decoded_op); }
            assert(operands_readable(*old(s)) ==> d.op == decoded_op(opcode, code_byte(*old(s), old(s).cpu.pc),
                code_word(*old(s), old(s).cpu.pc), branch_target(old(s).cpu.pc, code_byte(*old(s), old(s).cpu.pc))))
                by { reveal(decoded_op); }
            d
        },
        0xC0 => {
            let v = read_operand_byte(s);
            let d = DecodedInst { op: IrOp::Cpy(AddrMode::Immediate(v)), bytes: 2, base_cycles: 2 };
            assert(d.op == decoded_op(opcode, v, 0u16, 0u16)) by { reveal(decoded_op); }
            assert(operands_readable(*old(s)) ==> d.op == decoded_op(opcode, code_byte(*old(s), old(s).cpu.pc),
                code_word(*old(s), old(s).cpu.pc), branch_target(old(s).cpu.pc, code_byte(*old(s), old(s).cpu.pc))))
                by { reveal(decoded_op); }
            d
        },
        0xC1 => {
            let v = read_operand_byte(s);
            let d = DecodedInst { op: IrOp::Cmp(AddrMode::IndirectX(v)), bytes: 2, base_cycles: 6 };
            assert(d.op == decoded_op(opcode, v, 0u16, 0u16)) by { reveal(decoded_op); }
            assert(operands_readable(*old(s)) ==> d.op == decoded_op(opcode, code_byte(*old(s), old(s).cpu.pc),
                code_word(*old(s), old(s).cpu.pc), branch_target(old(s).cpu.pc, code_byte(*old(s), old(s).cpu.pc))))
                by { reveal(decoded_op); }
            d
        },
        0xC2 => {
            read_operand_byte(s);
            let d = DecodedInst { op: IrOp::Nop, bytes: 2, base_cycles: 2 };
            assert(d.op == decoded_op(opcode, 0u8, 0u16, 0u16)) by { reveal(decoded_op); }
            assert(operands_readable(*old(s)) ==> d.op == decoded_op(opcode, code_byte(*old(s), old(s).cpu.pc),
                code_word(*old(s), old(s).cpu.pc), branch_target(old(s).cpu.pc, code_byte(*old(s), old(s).cpu.pc))))
                by { reveal(decoded_op); }
            d
        },
        0xC3 => {
            let v = read_operand_byte(s);
            let d = DecodedInst { op: IrOp::Dcp(AddrMode::IndirectX(v)), bytes: 2, base_cycles: 8 };
            assert(d.op == decoded_op(opcode, v, 0u16, 0u16)) by { reveal(decoded_op); }
            assert(operands_readable(*old(s)) ==> d.op == decoded_op(opcode, code_byte(*old(s), old(s).cpu.pc),
                code_word(*old(s), old(s).cpu.pc), branch_target(old(s).cpu.pc, code_byte(*old(s), old(s).cpu.pc))))
                by { reveal(decoded_op); }
            d
        },
        0xC4 => {
            let v = read_operand_byte(s);
            let d = DecodedInst { op: IrOp::Cpy(AddrMode::ZeroPage(v)), bytes: 2, base_cycles: 3 };
            assert(d.op == decoded_op(opcode, v, 0u16, 0u16)) by { reveal(decoded_op); }
            assert(operands_readable(*old(s)) ==> d.op == decoded_op(opcode, code_byte(*old(s), old(s).cpu.pc),
                code_word(*old(s), old(s).cpu.pc), branch_target(old(s).cpu.pc, code_byte(*old(s), old(s).cpu.pc))))
                by { reveal(decoded_op); }
            d
        },
        0xC5 => {
            let v = read_operand_byte(s);
            let d = DecodedInst { op: IrOp::Cmp(AddrMode::ZeroPage(v)), bytes: 2, base_cycles: 3 };
            assert(d.op == decoded_op(opcode, v, 0u16, 0u16)) by { reveal(decoded_op); }
            assert(operands_readable(*old(s)) ==> d.op == decoded_op(opcode, code_byte(*old(s), old(s).cpu.pc),
                code_word(*old(s), old(s).cpu.pc), branch_target(old(s).cpu.pc, code_byte(*old(s), old(s).cpu.pc))))
                by { reveal(decoded_op); }
            d
        },
        0xC6 => {
            let v = read_operand_byte(s);
            let d = DecodedInst { op: IrOp::Dec(AddrMode::ZeroPage(v)), bytes: 2, base_cycles: 5 };
            assert(d.op == decoded_op(opcode, v, 0u16, 0u16)) by { reveal(decoded_op); }
            assert(operands_readable(*old(s)) ==> d.op == decoded_op(opcode, code_byte(*old(s), old(s).cpu.pc),
                code_word(*old(s), old(s).cpu.pc), branch_target(old(s).cpu.pc, code_byte(*old(s), old(s).cpu.pc))))
                by { reveal(decoded_op); }
            d
        },
        0xC7 => {
            let v = read_operand_byte(s);
            let d = DecodedInst { op: IrOp::Dcp(AddrMode::ZeroPage(v)), bytes: 2, base_cycles: 5 };
            assert(d.op == decoded_op(opcode, v, 0u16, 0u16)) by { reveal(decoded_op); }
            assert(operands_readable(*old(s)) ==> d.op == decoded_op(opcode, code_byte(*old(s), old(s).cpu.pc),
                code_word(*old(s), old(s).cpu.pc), branch_target(old(s).cpu.pc, code_byte(*old(s), old(s).cpu.pc))))
                by { reveal(decoded_op); }
            d
        },
        0xC8 => {
            read_operand_byte(s);
            let d = DecodedInst { op: IrOp::Iny, bytes: 1, base_cycles: 2 };
            assert(d.op == decoded_op(opcode, 0u8, 0u16, 0u16)) by { reveal(decoded_op); }
            assert(operands_readable(*old(s)) ==> d.op == decoded_op(opcode, code_byte(*old(s), old(s).cpu.pc),
                code_word(*old(s), old(s).cpu.pc), branch_target(old(s).cpu.pc, code_byte(*old(s), old(s).cpu.pc))))
                by { reveal(decoded_op); }
            d
        },
        0xC9 => {
            let v = read_operand_byte(s);
            let d = DecodedInst { op: IrOp::Cmp(AddrMode::Immediate(v)), bytes: 2, base_cycles: 2 };
            assert(d.op == decoded_op(opcode, v, 0u16, 0u16)) by { reveal(decoded_op); }
            assert(operands_readable(*old(s)) ==> d.op == decoded_op(opcode, code_byte(*old(s), old(s).cpu.pc),
                code_word(*old(s), old(s).cpu.pc), branch_target(old(s).cpu.pc, code_byte(*old(s), old(s).cpu.pc))))
                by { reveal(decoded_op); }
            d
        },
        0xCA => {
            read_operand_byte(s);
            let d = DecodedInst { op: IrOp::Dex, bytes: 1, base_cycles: 2 };
            assert(d.op == decoded_op(opcode, 0u8, 0u16, 0u16)) by { reveal(decoded_op); }
            assert(operands_readable(*old(s)) ==> d.op == decoded_op(opcode, code_byte(*old(s), old(s).cpu.pc),
                code_word(*old(s), old(s).cpu.pc), branch_target(old(s).cpu.pc, code_byte(*old(s), old(s).cpu.pc))))
                by { reveal(decoded_op); }
            d
        },
        0xCB => {
            let v = read_operand_byte(s);
            let d = DecodedInst { op: IrOp::Axs(AddrMode::Immediate(v)), bytes: 2, base_cycles: 2 };
            assert(d.op == decoded_op(opcode, v, 0u16, 0u16)) by { reveal(decoded_op); }
            assert(operands_readable(*old(s)) ==> d.op == decoded_op(opcode, code_byte(*old(s), old(s).cpu.pc),
                code_word(*old(s), old(s).cpu.pc), branch_target(old(s).cpu.pc, code_byte(*old(s), old(s).cpu.pc))))
                by { reveal(decoded_op); }
            d
        },
        0xCC => {
            let v = read_operand_u16(s);
            let d = DecodedInst { op: IrOp::Cpy(AddrMode::Absolute(v)), bytes: 3, base_cycles: 4 };
            assert(d.op == decoded_op(opcode, 0u8, v, 0u16)) by { reveal(decoded_op); }
            assert(operands_readable(*old(s)) ==> d.op == decoded_op(opcode, code_byte(*old(s), old(s).cpu.pc),
                code_word(*old(s), old(s).cpu.pc), branch_target(old(s).cpu.pc, code_byte(*old(s), old(s).cpu.pc))))
                by { reveal(decoded_op); }
            d
        },
        0xCD => {
            let v = read_operand_u16(s);
            let d = DecodedInst { op: IrOp::Cmp(AddrMode::Absolute(v)), bytes: 3, base_cycles: 4 };
            assert(d.op == decoded_op(opcode, 0u8, v, 0u16)) by { reveal(decoded_op); }
            assert(operands_readable(*old(s)) ==> d.op == decoded_op(opcode, code_byte(*old(s), old(s).cpu.pc),
                code_word(*old(s), old(s).cpu.pc), branch_target(old(s).cpu.pc, code_byte(*old(s), old(s).cpu.pc))))
                by { reveal(decoded_op); }
            d
        },
        0xCE => {
            let v = read_operand_u16(s);
            let d = DecodedInst { op: IrOp::Dec(AddrMode::Absolute(v)), bytes: 3, base_cycles: 6 };
            assert(d.op == decoded_op(opcode, 0u8, v, 0u16)) by { reveal(decoded_op); }
            assert(operands_readable(*old(s)) ==> d.op == decoded_op(opcode, code_byte(*old(s), old(s).cpu.pc),
                code_word(*old(s), old(s).cpu.pc), branch_target(old(s).cpu.pc, code_byte(*old(s), old(s).cpu.pc))))
                by { reveal(decoded_op); }
            d
        },
        0xCF => {
            let v = read_operand_u16(s);
            let d = DecodedInst { op: IrOp::Dcp(AddrMode::Absolute(v)), bytes: 3, base_cycles: 6 };
            assert(d.op == decoded_op(opcode, 0u8, v, 0u16)) by { reveal(decoded_op); }
            assert(operands_readable(*old(s)) ==> d.op == decoded_op(opcode, code_byte(*old(s), old(s).cpu.pc),
                code_word(*old(s), old(s).cpu.pc), branch_target(old(s).cpu.pc, code_byte(*old(s), old(s).cpu.pc))))
                by { reveal(decoded_op); }
            d
        },
        0xD0 => {
            let offset = read_operand_byte(s) as i8;
            let target = relative_target(s.cpu.pc, offset);
            let d = DecodedInst { op: IrOp::Bne { target }, bytes: 2, base_cycles: 2 };
            assert(d.op == decoded_op(opcode, 0u8, 0u16, target)) by { reveal(decoded_op); }
            assert(operands_readable(*old(s)) ==> d.op == decoded_op(opcode, code_byte(*old(s), old(s).cpu.pc),
                code_word(*old(s), old(s).cpu.pc), branch_target(old(s).cpu.pc, code_byte(*old(s), old(s).cpu.pc))))
                by { reveal(decoded_op); }
            d
        },
        0xD1 => {
            let v = read_operand_byte(s);
            let d = DecodedInst { op: IrOp::Cmp(AddrMode::IndirectY(v)), bytes: 2, base_cycles: 5 };
            assert(d.op == decoded_op(opcode, v, 0u16, 0u16)) by { reveal(decoded_op); }
            assert(operands_readable(*old(s)) ==> d.op == decoded_op(opcode, code_byte(*old(s), old(s).cpu.pc),
                code_word(*old(s), old(s).cpu.pc), branch_target(old(s).cpu.pc, code_byte(*old(s), old(s).cpu.pc))))
                by { reveal(decoded_op); }
            d
        },
        0xD2 => {
            let d = DecodedInst { op: IrOp::Nop, bytes: 1, base_cycles: 2 };
            assert(d.op == decoded_op(opcode, 0u8, 0u16, 0u16)) by { reveal(decoded_op); }
            assert(operands_readable(*old(s)) ==> d.op == decoded_op(opcode, code_byte(*old(s), old(s).cpu.pc),
                code_word(*old(s), old(s).cpu.pc), branch_target(old(s).cpu.pc, code_byte(*old(s), old(s).cpu.pc))))
                by { reveal(decoded_op); }
            d
        },
        0xD3 => {
            let v = read_operand_byte(s);
            let d = DecodedInst { op: IrOp::Dcp(AddrMode::IndirectY(v)), bytes: 2, base_cycles: 8 };
            assert(d.op == decoded_op(opcode, v, 0u16, 0u16)) by { reveal(decoded_op); }
            assert(operands_readable(*old(s)) ==> d.op == decoded_op(opcode, code_byte(*old(s), old(s).cpu.pc),
                code_word(*old(s), old(s).cpu.pc), branch_target(old(s).cpu.pc, code_byte(*old(s), old(s).cpu.pc))))
                by { reveal(decoded_op); }
            d
        },
        0xD4 => {
            read_operand_byte(s);
            let d = DecodedInst { op: IrOp::Nop, bytes: 2, base_cycles: 4 };
            assert(d.op == decoded_op(opcode, 0u8, 0u16, 0u16)) by { reveal(decoded_op); }
            assert(operands_readable(*old(s)) ==> d.op == decoded_op(opcode, code_byte(*old(s), old(s).cpu.pc),
                code_word(*old(s), old(s).cpu.pc), branch_target(old(s).cpu.pc, code_byte(*old(s), old(s).cpu.pc))))
                by { reveal(decoded_op); }
            d
        },
        0xD5 => {
            let v = read_operand_byte(s);
            let d = DecodedInst { op: IrOp::Cmp(AddrMode::ZeroPageX(v)), bytes: 2, base_cycles: 4 };
            assert(d.op == decoded_op(opcode, v, 0u16, 0u16)) by { reveal(decoded_op); }
            assert(operands_readable(*old(s)) ==> d.op == decoded_op(opcode, code_byte(*old(s), old(s).cpu.pc),
                code_word(*old(s), old(s).cpu.pc), branch_target(old(s).cpu.pc, code_byte(*old(s), old(s).cpu.pc))))
                by { reveal(decoded_op); }
            d
        },
        0xD6 => {
            let v = read_operand_byte(s);
            let d = DecodedInst { op: IrOp::Dec(AddrMode::ZeroPageX(v)), bytes: 2, base_cycles: 6 };
            assert(d.op == decoded_op(opcode, v, 0u16, 0u16)) by { reveal(decoded_op); }
            assert(operands_readable(*old(s)) ==> d.op == decoded_op(opcode, code_byte(*old(s), old(s).cpu.pc),
                code_word(*old(s), old(s).cpu.pc), branch_target(old(s).cpu.pc, code_byte(*old(s), old(s).cpu.pc))))
                by { reveal(decoded_op); }
            d
        },
        0xD7 => {
            let v = read_operand_byte(s);
            let d = DecodedInst { op: IrOp::Dcp(AddrMode::ZeroPageX(v)), bytes: 2, base_cycles: 6 };
            assert(d.op == decoded_op(opcode, v, 0u16, 0u16)) by { reveal(decoded_op); }
            assert(operands_readable(*old(s)) ==> d.op == decoded_op(opcode, code_byte(*old(s), old(s).cpu.pc),
                code_word(*old(s), old(s).cpu.pc), branch_target(old(s).cpu.pc, code_byte(*old(s), old(s).cpu.pc))))
                by { reveal(decoded_op); }
            d
        },
        0xD8 => {
            let d = DecodedInst { op: IrOp::Cld, bytes: 1, base_cycles: 2 };
            assert(d.op == decoded_op(opcode, 0u8, 0u16, 0u16)) by { reveal(decoded_op); }
            assert(operands_readable(*old(s)) ==> d.op == decoded_op(opcode, code_byte(*old(s), old(s).cpu.pc),
                code_word(*old(s), old(s).cpu.pc), branch_target(old(s).cpu.pc, code_byte(*old(s), old(s).cpu.pc))))
                by { reveal(decoded_op); }
            d
        },
        0xD9 => {
            let v = read_operand_u16(s);
            let d = DecodedInst { op: IrOp::Cmp(AddrMode::AbsoluteY(v)), bytes: 3, base_cycles: 4 };
            assert(d.op == decoded_op(opcode, 0u8, v, 0u16)) by { reveal(decoded_op); }
            assert(operands_readable(*old(s)) ==> d.op == decoded_op(opcode, code_byte(*old(s), old(s).cpu.pc),
                code_word(*old(s), old(s).cpu.pc), branch_target(old(s).cpu.pc, code_byte(*old(s), old(s).cpu.pc))))
                by { reveal(decoded_op); }
            d
        },
        0xDA => {
            let d = DecodedInst { op: IrOp::Nop, bytes: 1, base_cycles: 2 };
            assert(d.op == decoded_op(opcode, 0u8, 0u16, 0u16)) by { reveal(decoded_op); }
            assert(operands_readable(*old(s)) ==> d.op == decoded_op(opcode, code_byte(*old(s), old(s).cpu.pc),
                code_word(*old(s), old(s).cpu.pc), branch_target(old(s).cpu.pc, code_byte(*old(s), old(s).cpu.pc))))
                by { reveal(decoded_op); }
            d
        },
        0xDB => {
            let v = read_operand_u16(s);
            let d = DecodedInst { op: IrOp::Dcp(AddrMode::AbsoluteY(v)), bytes: 3, base_cycles: 7 };
            assert(d.op == decoded_op(opcode, 0u8, v, 0u16)) by { reveal(decoded_op); }
            assert(operands_readable(*old(s)) ==> d.op == decoded_op(opcode, code_byte(*old(s), old(s).cpu.pc),
                code_word(*old(s), old(s).cpu.pc), branch_target(old(s).cpu.pc, code_byte(*old(s), old(s).cpu.pc))))
                by { reveal(decoded_op); }
            d
        },
        0xDC => {
            read_operand_u16(s);
            let d = DecodedInst { op: IrOp::Nop, bytes: 3, base_cycles: 4 };
            assert(d.op == decoded_op(opcode, 0u8, 0u16, 0u16)) by { reveal(decoded_op); }
            assert(operands_readable(*old(s)) ==> d.op == decoded_op(opcode, code_byte(*old(s), old(s).cpu.pc),
                code_word(*old(s), old(s).cpu.pc), branch_target(old(s).cpu.pc, code_byte(*old(s), old(s).cpu.pc))))
                by { reveal(decoded_op); }
            d
        },
        0xDD => {
            let v = read_operand_u16(s);
            let d = DecodedInst { op: IrOp::Cmp(AddrMode::AbsoluteX(v)), bytes: 3, base_cycles: 4 };
            assert(d.op == decoded_op(opcode, 0u8, v, 0u16)) by { reveal(decoded_op); }
            assert(operands_readable(*old(s)) ==> d.op == decoded_op(opcode, code_byte(*old(s), old(s).cpu.pc),
                code_word(*old(s), old(s).cpu.pc), branch_target(old(s).cpu.pc, code_byte(*old(s), old(s).cpu.pc))))
                by { reveal(decoded_op); }
            d
        },
        0xDE => {
            let v = read_operand_u16(s);
            let d = DecodedInst { op: IrOp::Dec(AddrMode::AbsoluteX(v)), bytes: 3, base_cycles: 7 };
            assert(d.op == decoded_op(opcode, 0u8, v, 0u16)) by { reveal(decoded_op); }
            assert(operands_readable(*old(s)) ==> d.op == decoded_op(opcode, code_byte(*old(s), old(s).cpu.pc),
                code_word(*old(s), old(s).cpu.pc), branch_target(old(s).cpu.pc, code_byte(*old(s), old(s).cpu.pc))))
                by { reveal(decoded_op); }
            d
        },
        0xDF => {
            let v = read_operand_u16(s);
            let d = DecodedInst { op: IrOp::Dcp(AddrMode::AbsoluteX(v)), bytes: 3, base_cycles: 7 };
            assert(d.op == decoded_op(opcode, 0u8, v, 0u16)) by { reveal(decoded_op); }
            assert(operands_readable(*old(s)) ==> d.op == decoded_op(opcode, code_byte(*old(s), old(s).cpu.pc),
                code_word(*old(s), old(s).cpu.pc), branch_target(old(s).cpu.pc, code_byte(*old(s), old(s).cpu.pc))))
                by { reveal(decoded_op); }
            d
        },
        0xE0 => {
            let v = read_operand_byte(s);
            let d = DecodedInst { op: IrOp::Cpx(AddrMode::Immediate(v)), bytes: 2, base_cycles: 2 };
            assert(d.op == decoded_op(opcode, v, 0u16, 0u16)) by { reveal(decoded_op); }
            assert(operands_readable(*old(s)) ==> d.op == decoded_op(opcode, code_byte(*old(s), old(s).cpu.pc),
                code_word(*old(s), old(s).cpu.pc), branch_target(old(s).cpu.pc, code_byte(*old(s), old(s).cpu.pc))))
                by { reveal(decoded_op); }
            d
        },
        0xE1 => {
            let v = read_operand_byte(s);
            let d = DecodedInst { op: IrOp::Sbc(AddrMode::IndirectX(v)), bytes: 2, base_cycles: 6 };
            assert(d.op == decoded_op(opcode, v, 0u16, 0u16)) by { reveal(decoded_op); }
            assert(operands_readable(*old(s)) ==> d.op == decoded_op(opcode, code_byte(*old(s), old(s).cpu.pc),
                code_word(*old(s), old(s).cpu.pc), branch_target(old(s).cpu.pc, code_byte(*old(s), old(s).cpu.pc))))
                by { reveal(decoded_op); }
            d
        },
        0xE2 => {
            read_operand_byte(s);
            let d = DecodedInst { op: IrOp::Nop, bytes: 2, base_cycles: 2 };
            assert(d.op == decoded_op(opcode, 0u8, 0u16, 0u16)) by { reveal(decoded_op); }
            assert(operands_readable(*old(s)) ==> d.op == decoded_op(opcode, code_byte(*old(s), old(s).cpu.pc),
                code_word(*old(s), old(s).cpu.pc), branch_target(old(s).cpu.pc, code_byte(*old(s), old(s).cpu.pc))))
                by { reveal(decoded_op); }
            d
        },
        0xE3 => {
            let v = read_operand_byte(s);
            let d = DecodedInst { op: IrOp::Isc(AddrMode::IndirectX(v)), bytes: 2, base_cycles: 8 };
            assert(d.op == decoded_op(opcode, v, 0u16, 0u16)) by { reveal(decoded_op); }
            assert(operands_readable(*old(s)) ==> d.op == decoded_op(opcode, code_byte(*old(s), old(s).cpu.pc),
                code_word(*old(s), old(s).cpu.pc), branch_target(old(s).cpu.pc, code_byte(*old(s), old(s).cpu.pc))))
                by { reveal(decoded_op); }
            d
        },
        0xE4 => {
            let v = read_operand_byte(s);
            let d = DecodedInst { op: IrOp::Cpx(AddrMode::ZeroPage(v)), bytes: 2, base_cycles: 3 };
            assert(d.op == decoded_op(opcode, v, 0u16, 0u16)) by { reveal(decoded_op); }
            assert(operands_readable(*old(s)) ==> d.op == decoded_op(opcode, code_byte(*old(s), old(s).cpu.pc),
                code_word(*old(s), old(s).cpu.pc), branch_target(old(s).cpu.pc, code_byte(*old(s), old(s).cpu.pc))))
                by { reveal(decoded_op); }
            d
        },
        0xE5 => {
            let v = read_operand_byte(s);
            let d = DecodedInst { op: IrOp::Sbc(AddrMode::ZeroPage(v)), bytes: 2, base_cycles: 3 };
            assert(d.op == decoded_op(opcode, v, 0u16, 0u16)) by { reveal(decoded_op); }
            assert(operands_readable(*old(s)) ==> d.op == decoded_op(opcode, code_byte(*old(s), old(s).cpu.pc),
                code_word(*old(s), old(s).cpu.pc), branch_target(old(s).cpu.pc, code_byte(*old(s), old(s).cpu.pc))))
                by { reveal(decoded_op); }
            d
        },
        0xE6 => {
            let v = read_operand_byte(s);
            let d = DecodedInst { op: IrOp::Inc(AddrMode::ZeroPage(v)), bytes: 2, base_cycles: 5 };
            assert(d.op == decoded_op(opcode, v, 0u16, 0u16)) by { reveal(decoded_op); }
            assert(operands_readable(*old(s)) ==> d.op == decoded_op(opcode, code_byte(*old(s), old(s).cpu.pc),
                code_word(*old(s), old(s).cpu.pc), branch_target(old(s).cpu.pc, code_byte(*old(s), old(s).cpu.pc))))
                by { reveal(decoded_op); }
            d
        },
        0xE7 => {
            let v = read_operand_byte(s);
            let d = DecodedInst { op: IrOp::Isc(AddrMode::ZeroPage(v)), bytes: 2, base_cycles: 5 };
            assert(d.op == decoded_op(opcode, v, 0u16, 0u16)) by { reveal(decoded_op); }
            assert(operands_readable(*old(s)) ==> d.op == decoded_op(opcode, code_byte(*old(s), old(s).cpu.pc),
                code_word(*old(s), old(s).cpu.pc), branch_target(old(s).cpu.pc, code_byte(*old(s), old(s).cpu.pc))))
                by { reveal(decoded_op); }
            d
        },
        0xE8 => {
            read_operand_byte(s);
            let d = DecodedInst { op: IrOp::Inx, bytes: 1, base_cycles: 2 };
            assert(d.op == decoded_op(opcode, 0u8, 0u16, 0u16)) by { reveal(decoded_op); }
            assert(operands_readable(*old(s)) ==> d.op == decoded_op(opcode, code_byte(*old(s), old(s).cpu.pc),
                code_word(*old(s), old(s).cpu.pc), branch_target(old(s).cpu.pc, code_byte(*old(s), old(s).cpu.pc))))
                by { reveal(decoded_op); }
            d
        },
        0xE9 => {
            let v = read_operand_byte(s);
            let d = DecodedInst { op: IrOp::Sbc(AddrMode::Immediate(v)), bytes: 2, base_cycles: 2 };
            assert(d.op == decoded_op(opcode, v, 0u16, 0u16)) by { reveal(decoded_op); }
            assert(operands_readable(*old(s)) ==> d.op == decoded_op(opcode, code_byte(*old(s), old(s).cpu.pc),
                code_word(*old(s), old(s).cpu.pc), branch_target(old(s).cpu.pc, code_byte(*old(s), old(s).cpu.pc))))
                by { reveal(decoded_op); }
            d
        },
        0xEA => {
            read_operand_byte(s);
            let d = DecodedInst { op: IrOp::Nop, bytes: 1, base_cycles: 2 };
            assert(d.op == decoded_op(opcode, 0u8, 0u16, 0u16)) by { reveal(decoded_op); }
            assert(operands_readable(*old(s)) ==> d.op == decoded_op(opcode, code_byte(*old(s), old(s).cpu.pc),
                code_word(*old(s), old(s).cpu.pc), branch_target(old(s).cpu.pc, code_byte(*old(s), old(s).cpu.pc))))
                by { reveal(decoded_op); }
            d
        },
        0xEB => {
            let v = read_operand_byte(s);
            let d = DecodedInst { op: IrOp::Sbc(AddrMode::Immediate(v)), bytes: 2, base_cycles: 2 };
            assert(d.op == decoded_op(opcode, v, 0u16, 0u16)) by { reveal(decoded_op); }
            assert(operands_readable(*old(s)) ==> d.op == decoded_op(opcode, code_byte(*old(s), old(s).cpu.pc),
                code_word(*old(s), old(s).cpu.pc), branch_target(old(s).cpu.pc, code_byte(*old(s), old(s).cpu.pc))))
                by { reveal(decoded_op); }
            d
        },
        0xEC => {
            let v = read_operand_u16(s);
            let d = DecodedInst { op: IrOp::Cpx(AddrMode::Absolute(v)), bytes: 3, base_cycles: 4 };
            assert(d.op == decoded_op(opcode, 0u8, v, 0u16)) by { reveal(decoded_op); }
            assert(operands_readable(*old(s)) ==> d.op == decoded_op(opcode, code_byte(*old(s), old(s).cpu.pc),
                code_word(*old(s), old(s).cpu.pc), branch_target(old(s).cpu.pc, code_byte(*old(s), old(s).cpu.pc))))
                by { reveal(decoded_op); }
            d
        },
        0xED => {
            let v = read_operand_u16(s);
            let d = DecodedInst { op: IrOp::Sbc(AddrMode::Absolute(v)), bytes: 3, base_cycles: 4 };
            assert(d.op == decoded_op(opcode, 0u8, v, 0u16)) by { reveal(decoded_op); }
            assert(operands_readable(*old(s)) ==> d.op == decoded_op(opcode, code_byte(*old(s), old(s).cpu.pc),
                code_word(*old(s), old(s).cpu.pc), branch_target(old(s).cpu.pc, code_byte(*old(s), old(s).cpu.pc))))
                by { reveal(decoded_op); }
            d
        },
        0xEE => {
            let v = read_operand_u16(s);
            let d = DecodedInst { op: IrOp::Inc(AddrMode::Absolute(v)), bytes: 3, base_cycles: 6 };
            assert(d.op == decoded_op(opcode, 0u8, v, 0u16)) by { reveal(decoded_op); }
            assert(operands_readable(*old(s)) ==> d.op == decoded_op(opcode, code_byte(*old(s), old(s).cpu.pc),
                code_word(*old(s), old(s).cpu.pc), branch_target(old(s).cpu.pc, code_byte(*old(s), old(s).cpu.pc))))
                by { reveal(decoded_op); }
            d
        },
        0xEF => {
            let v = read_operand_u16(s);
            let d = DecodedInst { op: IrOp::Isc(AddrMode::Absolute(v)), bytes: 3, base_cycles: 6 };
            assert(d.op == decoded_op(opcode, 0u8, v, 0u16)) by { reveal(decoded_op); }
            assert(operands_readable(*old(s)) ==> d.op == decoded_op(opcode, code_byte(*old(s), old(s).cpu.pc),
                code_word(*old(s), old(s).cpu.pc), branch_target(old(s).cpu.pc, code_byte(*old(s), old(s).cpu.pc))))
                by { reveal(decoded_op); }
            d
        },
        0xF0 => {
            let offset = read_operand_byte(s) as i8;
            let target = relative_target(s.cpu.pc, offset);
            let d = DecodedInst { op: IrOp::Beq { target }, bytes: 2, base_cycles: 2 };
            assert(d.op == decoded_op(opcode, 0u8, 0u16, target)) by { reveal(decoded_op); }
            assert(operands_readable(*old(s)) ==> d.op == decoded_op(opcode, code_byte(*old(s), old(s).cpu.pc),
                code_word(*old(s), old(s).cpu.pc), branch_target(old(s).cpu.pc, code_byte(*old(s), old(s).cpu.pc))))
                by { reveal(decoded_op); }
            d
        },
        0xF1 => {
            let v = read_operand_byte(s);
            let d = DecodedInst { op: IrOp::Sbc(AddrMode::IndirectY(v)), bytes: 2, base_cycles: 5 };
            assert(d.op == decoded_op(opcode, v, 0u16, 0u16)) by { reveal(decoded_op); }
            assert(operands_readable(*old(s)) ==> d.op == decoded_op(opcode, code_byte(*old(s), old(s).cpu.pc),
                code_word(*old(s), old(s).cpu.pc), branch_target(old(s).cpu.pc, code_byte(*old(s), old(s).cpu.pc))))
                by { reveal(decoded_op); }
            d
        },
        0xF2 => {
            let d = DecodedInst { op: IrOp::Nop, bytes: 1, base_cycles: 2 };
            assert(d.op == decoded_op(opcode, 0u8, 0u16, 0u16)) by { reveal(decoded_op); }
            assert(operands_readable(*old(s)) ==> d.op == decoded_op(opcode, code_byte(*old(s), old(s).cpu.pc),
                code_word(*old(s), old(s).cpu.pc), branch_target(old(s).cpu.pc, code_byte(*old(s), old(s).cpu.pc))))
                by { reveal(decoded_op); }
            d
        },
        0xF3 => {
            let v = read_operand_byte(s);
            let d = DecodedInst { op: IrOp::Isc(AddrMode::IndirectY(v)), bytes: 2, base_cycles: 8 };
            assert(d.op == decoded_op(opcode, v, 0u16, 0u16)) by { reveal(decoded_op); }
            assert(operands_readable(*old(s)) ==> d.op == decoded_op(opcode, code_byte(*old(s), old(s).cpu.pc),
                code_word(*old(s), old(s).cpu.pc), branch_target(old(s).cpu.pc, code_byte(*old(s), old(s).cpu.pc))))
                by { reveal(decoded_op); }
            d
        },
        0xF4 => {
            read_operand_byte(s);
            let d = DecodedInst { op: IrOp::Nop, bytes: 2, base_cycles: 4 };
            assert(d.op == decoded_op(opcode, 0u8, 0u16, 0u16)) by { reveal(decoded_op); }
            assert(operands_readable(*old(s)) ==> d.op == decoded_op(opcode, code_byte(*old(s), old(s).cpu.pc),
                code_word(*old(s), old(s).cpu.pc), branch_target(old(s).cpu.pc, code_byte(*old(s), old(s).cpu.pc))))
                by { reveal(decoded_op); }
            d
        },
        0xF5 => {
            let v = read_operand_byte(s);
            let d = DecodedInst { op: IrOp::Sbc(AddrMode::ZeroPageX(v)), bytes: 2, base_cycles: 4 };
            assert(d.op == decoded_op(opcode, v, 0u16, 0u16)) by { reveal(decoded_op); }
            assert(operands_readable(*old(s)) ==> d.op == decoded_op(opcode, code_byte(*old(s), old(s).cpu.pc),
                code_word(*old(s), old(s).cpu.pc), branch_target(old(s).cpu.pc, code_byte(*old(s), old(s).cpu.pc))))
                by { reveal(decoded_op); }
            d
        },
        0xF6 => {
            let v = read_operand_byte(s);
            let d = DecodedInst { op: IrOp::Inc(AddrMode::ZeroPageX(v)), bytes: 2, base_cycles: 6 };
            assert(d.op == decoded_op(opcode, v, 0u16, 0u16)) by { reveal(decoded_op); }
            assert(operands_readable(*old(s)) ==> d.op == decoded_op(opcode, code_byte(*old(s), old(s).cpu.pc),
                code_word(*old(s), old(s).cpu.pc), branch_target(old(s).cpu.pc, code_byte(*old(s), old(s).cpu.pc))))
                by { reveal(decoded_op); }
            d
        },
        0xF7 => {
            let v = read_operand_byte(s);
            let d = DecodedInst { op: IrOp::Isc(AddrMode::ZeroPageX(v)), bytes: 2, base_cycles: 6 };
            assert(d.op == decoded_op(opcode, v, 0u16, 0u16)) by { reveal(decoded_op); }
            assert(operands_readable(*old(s)) ==> d.op == decoded_op(opcode, code_byte(*old(s), old(s).cpu.pc),
                code_word(*old(s), old(s).cpu.pc), branch_target(old(s).cpu.pc, code_byte(*old(s), old(s).cpu.pc))))
                by { reveal(decoded_op); }
            d
        },
        0xF8 => {
            let d = DecodedInst { op: IrOp::Sed, bytes: 1, base_cycles: 2 };
            assert(d.op == decoded_op(opcode, 0u8, 0u16, 0u16)) by { reveal(decoded_op); }
            assert(operands_readable(*old(s)) ==> d.op == decoded_op(opcode, code_byte(*old(s), old(s).cpu.pc),
                code_word(*old(s), old(s).cpu.pc), branch_target(old(s).cpu.pc, code_byte(*old(s), old(s).cpu.pc))))
                by { reveal(decoded_op); }
            d
        },
        0xF9 => {
            let v = read_operand_u16(s);
            let d = DecodedInst { op: IrOp::Sbc(AddrMode::AbsoluteY(v)), bytes: 3, base_cycles: 4 };
            assert(d.op == decoded_op(opcode, 0u8, v, 0u16)) by { reveal(decoded_op); }
            assert(operands_readable(*old(s)) ==> d.op == decoded_op(opcode, code_byte(*old(s), old(s).cpu.pc),
                code_word(*old(s), old(s).cpu.pc), branch_target(old(s).cpu.pc, code_byte(*old(s), old(s).cpu.pc))))
                by { reveal(decoded_op); }
            d
        },
        0xFA => {
            let d = DecodedInst { op: IrOp::Nop, bytes: 1, base_cycles: 2 };
            assert(d.op == decoded_op(opcode, 0u8, 0u16, 0u16)) by { reveal(decoded_op); }
            assert(operands_readable(*old(s)) ==> d.op == decoded_op(opcode, code_byte(*old(s), old(s).cpu.pc),
                code_word(*old(s), old(s).cpu.pc), branch_target(old(s).cpu.pc, code_byte(*old(s), old(s).cpu.pc))))
                by { reveal(decoded_op); }
            d
        },
        0xFB => {
            let v = read_operand_u16(s);
            let d = DecodedInst { op: IrOp::Isc(AddrMode::AbsoluteY(v)), bytes: 3, base_cycles: 7 };
            assert(d.op == decoded_op(opcode, 0u8, v, 0u16)) by { reveal(decoded_op); }
            assert(operands_readable(*old(s)) ==> d.op == decoded_op(opcode, code_byte(*old(s), old(s).cpu.pc),
                code_word(*old(s), old(s).cpu.pc), branch_target(old(s).cpu.pc, code_byte(*old(s), old(s).cpu.pc))))
                by { reveal(decoded_op); }
            d
        },
        0xFC => {
            read_operand_u16(s);
            let d = DecodedInst { op: IrOp::Nop, bytes: 3, base_cycles: 4 };
            assert(d.op == decoded_op(opcode, 0u8, 0u16, 0u16)) by { reveal(decoded_op); }
            assert(operands_readable(*old(s)) ==> d.op == decoded_op(opcode, code_byte(*old(s), old(s).cpu.pc),
                code_word(*old(s), old(s).cpu.pc), branch_target(old(s).cpu.pc, code_byte(*old(s), old(s).cpu.pc))))
                by { reveal(decoded_op); }
            d
        },
        0xFD => {
            let v = read_operand_u16(s);
            let d = DecodedInst { op: IrOp::Sbc(AddrMode::AbsoluteX(v)), bytes: 3, base_cycles: 4 };
            assert(d.op == decoded_op(opcode, 0u8, v, 0u16)) by { reveal(decoded_op); }
            assert(operands_readable(*old(s)) ==> d.op == decoded_op(opcode, code_byte(*old(s), old(s).cpu.pc),
                code_word(*old(s), old(s).cpu.pc), branch_target(old(s).cpu.pc, code_byte(*old(s), old(s).cpu.pc))))
                by { reveal(decoded_op); }
            d
        },
        0xFE => {
            let v = read_operand_u16(s);
            let d = DecodedInst { op: IrOp::Inc(AddrMode::AbsoluteX(v)), bytes: 3, base_cycles: 7 };
            assert(d.op == decoded_op(opcode, 0u8, v, 0u16)) by { reveal(decoded_op); }
            assert(operands_readable(*old(s)) ==> d.op == decoded_op(opcode, code_byte(*old(s), old(s).cpu.pc),
                code_word(*old(s), old(s).cpu.pc), branch_target(old(s).cpu.pc, code_byte(*old(s), old(s).cpu.pc))))
                by { reveal(decoded_op); }
            d
        },
        0xFF => {
            let v = read_operand_u16(s);
            let d = DecodedInst { op: IrOp::Isc(AddrMode::AbsoluteX(v)), bytes: 3, base_cycles: 7 };
            assert(d.op == decoded_op(opcode, 0u8, v, 0u16)) by { reveal(decoded_op); }
            assert(operands_readable(*old(s)) ==> d.op == decoded_op(opcode, code_byte(*old(s), old(s).cpu.pc),
                code_word(*old(s), old(s).cpu.pc), branch_target(old(s).cpu.pc, code_byte(*old(s), old(s).cpu.pc))))
                by { reveal(decoded_op); }
            d
        },
        _ => {
            let d = DecodedInst { op: IrOp::Nop, bytes: 1, base_cycles: 2 };
            assert(d.op == decoded_op(opcode, 0u8, 0u16, 0u16)) by { reveal(decoded_op); }
            assert(operands_readable(*old(s)) ==> d.op == decoded_op(opcode, code_byte(*old(s), old(s).cpu.pc),
                code_word(*old(s), old(s).cpu.pc), branch_target(old(s).cpu.pc, code_byte(*old(s), old(s).cpu.pc))))
                by { reveal(decoded_op); }
            d
        },
    }
}


/// The address a zero-page or absolute operand names, indexed forms
/// included (a zero-page index wraps within page 0, an absolute one
/// within the address space); zero for the other modes.
pub open spec fn direct_address(mode: AddrMode, x: u8, y: u8) -> u16 {
    match mode {
        AddrMode::ZeroPage(zp) => zp as u16,
        AddrMode::ZeroPageX(zp) => ((zp + x) % 256) as u16,
        AddrMode::ZeroPageY(zp) => ((zp + y) % 256) as u16,
        AddrMode::Absolute(a) => a,
        AddrMode::AbsoluteX(a) => ((a + x) % 65536) as u16,
        AddrMode::AbsoluteY(a) => ((a + y) % 65536) as u16,
        _ => 0,
    }
}

/// The little-endian pointer stored at zero-page address `zp`, its high
/// byte read from `zp + 1` wrapped within page 0.
pub open spec fn zp_pointer(ram: Seq<u8>, zp: u8) -> u16 {
    (ram[(zp + 1) % 256] * 256 + ram[zp as int]) as u16
}

/// The effective address of a zero-page or absolute operand (indexed forms
/// included); the zero-page index costs a cycle.
pub fn resolve_address(s: &mut State, mode: &AddrMode) -> (r: u16)
    requires
        old(s).wf(),
    ensures
        *final(s) == (State { cpu: final(s).cpu, ..*old(s) }),
        final(s).cpu == (crate::cpu::CpuState { cycles: final(s).cpu.cycles, ..old(s).cpu }),
        final(s).wf(),
        r == direct_address(*mode, old(s).cpu.x, old(s).cpu.y),
        final(s).cpu.cycles == (if *mode is ZeroPageX || *mode is ZeroPageY {
            old(s).cpu.cycles.wrapping_add(1)
        } else {
            old(s).cpu.cycles
        }),
{
    match *mode {
        AddrMode::ZeroPage(zp) => zp as u16,
        AddrMode::ZeroPageX(zp) => {
            s.cpu.cycles = s.cpu.cycles.wrapping_add(1);
            zp.wrapping_add(s.cpu.x) as u16
        },
        AddrMode::ZeroPageY(zp) => {
            s.cpu.cycles = s.cpu.cycles.wrapping_add(1);
            zp.wrapping_add(s.cpu.y) as u16
        },
        AddrMode::Absolute(addr) => addr,
        AddrMode::AbsoluteX(addr) => addr.wrapping_add(s.cpu.x as u16),
        AddrMode::AbsoluteY(addr) => addr.wrapping_add(s.cpu.y as u16),
        _ => 0,
    }
}

/// Reads the little-endian pointer at zero-page address `zp`, wrapping
/// within page 0.
fn read_zp_pointer(s: &mut State, zp: u8) -> (r: u16)
    requires
        old(s).wf(),
    ensures
        bus_step(*final(s), *old(s)),
        crate::nes::same_registers(final(s).cpu, old(s).cpu),
        final(s).ram == old(s).ram,
        r == ((old(s).ram@[zp.wrapping_add(1) as int] as u16) << 8) | (old(s).ram@[zp as int] as u16),
        r == zp_pointer(old(s).ram@, zp),
{
    let lo = s.cpu_peek(zp as u16) as u16;
    let hi = s.cpu_peek(zp.wrapping_add(1) as u16) as u16;
    let z1 = zp.wrapping_add(1);
    proof { lemma_addr_fields(zp as u16); lemma_addr_fields(z1 as u16); lemma_word_bytes(lo, hi); }
    (hi << 8) | lo
}

/// The address that a decoded memory operand names, indirect forms through
/// their zero-page pointer.
pub open spec fn operand_address(s: State, mode: AddrMode) -> u16 {
    match mode {
        AddrMode::IndirectX(zp) => zp_pointer(s.ram@, ((zp + s.cpu.x) % 256) as u8),
        AddrMode::IndirectY(zp) => ((zp_pointer(s.ram@, zp) + s.cpu.y) % 65536) as u16,
        _ => direct_address(mode, s.cpu.x, s.cpu.y),
    }
}

/// The value of a decoded operand where it is fixed before the read: the
/// immediate byte, A, or the byte at the operand's address in work RAM.
pub open spec fn operand_value(s: State, mode: AddrMode) -> Option<u8> {
    match mode {
        AddrMode::Immediate(v) => Some(v),
        AddrMode::Accumulator => Some(s.cpu.a),
        AddrMode::Implied | AddrMode::Relative(_) | AddrMode::Indirect(_) => None,
        _ => if operand_address(s, mode) < 0x2000 {
            Some(s.ram_at(operand_address(s, mode)))
        } else {
            None
        },
    }
}

/// The accumulator operation and operand mode of a decoded instruction that
/// combines its operand into A.
pub open spec fn ir_acc_op(op: IrOp) -> Option<(AccOp, AddrMode)> {
    match op {
        IrOp::Lda(m) => Some((AccOp::Lda, m)),
        IrOp::Adc(m) => Some((AccOp::Adc, m)),
        IrOp::Sbc(m) => Some((AccOp::Sbc, m)),
        IrOp::And(m) => Some((AccOp::And, m)),
        IrOp::Ora(m) => Some((AccOp::Ora, m)),
        IrOp::Eor(m) => Some((AccOp::Eor, m)),
        _ => None,
    }
}

/// What an accumulator instruction leaves in `n` after `o`, where its
/// operand is known beforehand: A holds `acc_value` of A and the operand,
/// and Z and N follow it.
pub open spec fn acc_effect(op: IrOp, o: State, n: State) -> bool {
    match ir_acc_op(op) {
        Some((aop, mode)) => match operand_value(o, mode) {
            Some(d) => {
                &&& n.cpu.a == acc_value(aop, o.cpu.a, d, o.cpu.status)
                &&& flag(n.cpu.status, STATUS_Z) == (n.cpu.a == 0)
                &&& flag(n.cpu.status, STATUS_N) == (n.cpu.a >= 0x80)
            },
            None => true,
        },
        None => true,
    }
}

/// The decoded form of an interpreter addressing mode, with operand byte
/// `b` and operand word `w`.
pub open spec fn addr_mode_of(mode: Mode, b: u8, w: u16) -> AddrMode {
    match mode {
        Mode::Imm => AddrMode::Immediate(b),
        Mode::Zero => AddrMode::ZeroPage(b),
        Mode::ZeroX => AddrMode::ZeroPageX(b),
        Mode::ZeroY => AddrMode::ZeroPageY(b),
        Mode::Abs => AddrMode::Absolute(w),
        Mode::AbsX => AddrMode::AbsoluteX(w),
        Mode::AbsY => AddrMode::AbsoluteY(w),
        Mode::IndX => AddrMode::IndirectX(b),
        Mode::IndY => AddrMode::IndirectY(b),
    }
}

/// The decoder agrees with the opcode layout of the accumulator group: an
/// opcode with low bits 01 (STA and CMP aside) decodes to the operation
/// that its top three bits name, in the addressing mode that bits 2 to 4
/// name.
#[verifier::rlimit(100)]
#[verifier::spinoff_prover]
pub proof fn lemma_decoder_acc_group(op: u8, b: u8, w: u16, t: u16)
    requires
        op % 4 == 1,
        op / 32 != 4,
        op / 32 != 6,
    ensures
        ir_acc_op(decoded_op(op, b, w, t)) == Some((alu_acc_op(op), addr_mode_of(alu_mode(op), b, w))),
{
    reveal(decoded_op);
    assert(op == 0x01u8 || op == 0x05u8 || op == 0x09u8 || op == 0x0Du8 || op == 0x11u8 || op == 0x15u8 || op == 0x19u8 || op == 0x1Du8 || op == 0x21u8 || op == 0x25u8 || op == 0x29u8 || op == 0x2Du8 || op == 0x31u8 || op == 0x35u8 || op == 0x39u8 || op == 0x3Du8 || op == 0x41u8 || op == 0x45u8 || op == 0x49u8 || op == 0x4Du8 || op == 0x51u8 || op == 0x55u8 || op == 0x59u8 || op == 0x5Du8 || op == 0x61u8 || op == 0x65u8 || op == 0x69u8 || op == 0x6Du8 || op == 0x71u8 || op == 0x75u8 || op == 0x79u8 || op == 0x7Du8 || op == 0xA1u8 || op == 0xA5u8 || op == 0xA9u8 || op == 0xADu8 || op == 0xB1u8 || op == 0xB5u8 || op == 0xB9u8 || op == 0xBDu8 || op == 0xE1u8 || op == 0xE5u8 || op == 0xE9u8 || op == 0xEDu8 || op == 0xF1u8 || op == 0xF5u8 || op == 0xF9u8 || op == 0xFDu8);
}

/// The decoder agrees with the opcode layout of the shift group on memory:
/// an opcode with low bits 10 whose top three bits name ASL, ROL, LSR, ROR,
/// DEC or INC and whose bits 2 to 4 name a memory operand decodes to that
/// operation in that addressing mode.
#[verifier::rlimit(100)]
#[verifier::spinoff_prover]
pub proof fn lemma_decoder_rmw_group(op: u8, b: u8, w: u16, t: u16)
    requires
        op % 4 == 2,
        is_memory_rmw(op),
    ensures
        ir_rmw_op(decoded_op(op, b, w, t)) == Some((shift_rmw_op(op), addr_mode_of(shift_mode(op), b, w))),
{
    reveal(decoded_op);
    assert(op == 0x06u8 || op == 0x0Eu8 || op == 0x16u8 || op == 0x1Eu8 || op == 0x26u8 || op == 0x2Eu8 || op == 0x36u8 || op == 0x3Eu8 || op == 0x46u8 || op == 0x4Eu8 || op == 0x56u8 || op == 0x5Eu8 || op == 0x66u8 || op == 0x6Eu8 || op == 0x76u8 || op == 0x7Eu8 || op == 0xC6u8 || op == 0xCEu8 || op == 0xD6u8 || op == 0xDEu8 || op == 0xE6u8 || op == 0xEEu8 || op == 0xF6u8 || op == 0xFEu8);
}

/// The decoder agrees with the opcode layout of the accumulator group for
/// stores and compares: top bits 100 store A (0x89, which would store to an
/// immediate, aside) and top bits 110 compare A, in the addressing mode
/// that bits 2 to 4 name.
#[verifier::rlimit(100)]
#[verifier::spinoff_prover]
pub proof fn lemma_decoder_store_compare(op: u8, b: u8, w: u16, t: u16)
    requires
        op % 4 == 1,
        op / 32 == 4 || op / 32 == 6,
        op != 0x89,
    ensures
        op / 32 == 4 ==> decoded_op(op, b, w, t) == IrOp::Sta(addr_mode_of(alu_mode(op), b, w)),
        op / 32 == 6 ==> decoded_op(op, b, w, t) == IrOp::Cmp(addr_mode_of(alu_mode(op), b, w)),
{
    reveal(decoded_op);
    assert(op == 0x81u8 || op == 0x85u8 || op == 0x8Du8 || op == 0x91u8 || op == 0x95u8 || op == 0x99u8 || op == 0x9Du8 || op == 0xC1u8 || op == 0xC5u8 || op == 0xC9u8 || op == 0xCDu8 || op == 0xD1u8 || op == 0xD5u8 || op == 0xD9u8 || op == 0xDDu8);
}

/// The operand modes that name a byte of memory.
pub open spec fn is_memory_operand(mode: AddrMode) -> bool {
    !(mode is Implied || mode is Accumulator || mode is Immediate || mode is Relative || mode is Indirect)
}

/// A store of `v` through `mode`: where the operand's address is in work
/// RAM, the byte there becomes `v`.
pub open spec fn stored_to(mode: AddrMode, o: State, n: State, v: u8) -> bool {
    is_memory_operand(mode) && operand_address(o, mode) < 0x2000
        ==> n.ram@ == o.ram@.update((operand_address(o, mode) & 0x7FF) as int, v)
}

/// What a decoded load, store, read-modify-write, compare or bit test does
/// where its operand is known beforehand: the accumulator operations as
/// `acc_effect` says, read-modify-writes as `rmw_effect` says, X and Y
/// loads take the operand, stores write the register, compares
/// set C, Z and N from the register and the operand, and BIT sets Z from
/// A AND the operand and V and N from its bits 6 and 7.
pub open spec fn memory_effect(op: IrOp, o: State, n: State) -> bool {
    &&& acc_effect(op, o, n)
    &&& ir_rmw_op(op) matches Some((rop, mode)) ==> rmw_effect(rop, mode, o, n)
    &&& match op {
        IrOp::Ldx(mode) => operand_value(o, mode) matches Some(d)
            ==> n.cpu.x == d && load_flags_ok(n.cpu.status, o.cpu.status, d),
        IrOp::Ldy(mode) => operand_value(o, mode) matches Some(d)
            ==> n.cpu.y == d && load_flags_ok(n.cpu.status, o.cpu.status, d),
        IrOp::Sta(mode) => stored_to(mode, o, n, o.cpu.a),
        IrOp::Stx(mode) => stored_to(mode, o, n, o.cpu.x),
        IrOp::Sty(mode) => stored_to(mode, o, n, o.cpu.y),
        IrOp::Cmp(mode) => operand_value(o, mode) matches Some(d) ==> compare_flags(n.cpu.status, o.cpu.a, d),
        IrOp::Cpx(mode) => operand_value(o, mode) matches Some(d) ==> compare_flags(n.cpu.status, o.cpu.x, d),
        IrOp::Cpy(mode) => operand_value(o, mode) matches Some(d) ==> compare_flags(n.cpu.status, o.cpu.y, d),
        IrOp::Bit(mode) => operand_value(o, mode) matches Some(d) ==> {
            &&& flag(n.cpu.status, STATUS_Z) == (o.cpu.a & d == 0)
            &&& flag(n.cpu.status, STATUS_V) == (d & 0x40 != 0)
            &&& flag(n.cpu.status, STATUS_N) == (d >= 0x80)
        },
        _ => true,
    }
}

/// The read-modify-write operation and operand mode of a decoded shift,
/// rotate, increment or decrement.
pub open spec fn ir_rmw_op(op: IrOp) -> Option<(RmwOp, AddrMode)> {
    match op {
        IrOp::Asl(m) => Some((RmwOp::Asl, m)),
        IrOp::Lsr(m) => Some((RmwOp::Lsr, m)),
        IrOp::Rol(m) => Some((RmwOp::Rol, m)),
        IrOp::Ror(m) => Some((RmwOp::Ror, m)),
        IrOp::Inc(m) => Some((RmwOp::Inc, m)),
        IrOp::Dec(m) => Some((RmwOp::Dec, m)),
        _ => None,
    }
}

/// What a read-modify-write instruction does where its operand is A or a
/// byte of work RAM: the byte becomes `rmw_value` of it, Z and N follow the
/// result, and the shifts and rotations set C from the bit shifted out.
pub open spec fn rmw_effect(rop: RmwOp, mode: AddrMode, o: State, n: State) -> bool {
    let c = flag(o.cpu.status, STATUS_C);
    let addr = direct_address(mode, o.cpu.x, o.cpu.y);
    &&& mode is Accumulator ==> n.cpu.a == rmw_value(rop, o.cpu.a, c)
        && rmw_flags_ok(rop, o.cpu.a, n.cpu.a, n.cpu.status, o.cpu.status)
    &&& rmw_direct_mode(mode) && addr < 0x2000 ==> ({
        let r = rmw_value(rop, o.ram_at(addr), c);
        &&& n.ram@ == o.ram@.update((addr & 0x7FF) as int, r)
        &&& rmw_flags_ok(rop, o.ram_at(addr), r, n.cpu.status, o.cpu.status)
    })
}

/// The decoded ops that `execute_memory` carries out.
pub open spec fn is_memory_op(op: IrOp) -> bool {
    ir_acc_op(op) is Some || ir_rmw_op(op) is Some || op is Ldx || op is Ldy || op is Sta || op is Stx
        || op is Sty || op is Cmp || op is Cpx || op is Cpy || op is Bit
}

/// The decoded ops that `execute_register` carries out.
pub open spec fn is_register_op(op: IrOp) -> bool {
    op is Inx || op is Iny || op is Dex || op is Dey || op is Pha || op is Php || op is Pla || op is Plp
        || op is Tax || op is Tay || op is Txa || op is Tya || op is Tsx || op is Txs || op is Clc
        || op is Sec || op is Cld || op is Sed || op is Cli || op is Sei || op is Clv || op is Nop
}

/// The decoded ops that `execute_undocumented` carries out.
pub open spec fn is_undocumented_op(op: IrOp) -> bool {
    op is Lax || op is Sax || op is Dcp || op is Isc || op is Slo || op is Sre || op is Rla || op is Rra
        || op is Anc || op is Alr || op is Arr || op is Las || op is Ane || op is Tas || op is Sha
        || op is Shy || op is Shx || op is Axs
}

/// The flags of a compare of register value `z` with `m`: C when `z >= m`,
/// Z when equal, N from bit 7 of `z - m`.
pub open spec fn compare_flags(status: u8, z: u8, m: u8) -> bool {
    &&& flag(status, STATUS_C) == (z >= m)
    &&& flag(status, STATUS_Z) == (z == m)
    &&& flag(status, STATUS_N) == (((z - m) % 256) >= 0x80)
}

/// What a decoded register, stack or flag instruction does to the CPU
/// registers and work RAM from `o` to `n`: increments, decrements and
/// transfers set Z and N from the value they produce; pushes and pulls go
/// through the stack slot that SP addresses; flag instructions set or
/// clear their one bit.
pub open spec fn register_effect(op: IrOp, o: State, n: State) -> bool {
    let c = o.cpu;
    let m = n.cpu;
    let kept = m.pc == c.pc;
    match op {
        IrOp::Inx => kept && (m.a, m.x, m.y, m.sp) == (c.a, c.x.wrapping_add(1), c.y, c.sp)
            && load_flags_ok(m.status, c.status, m.x),
        IrOp::Iny => kept && (m.a, m.x, m.y, m.sp) == (c.a, c.x, c.y.wrapping_add(1), c.sp)
            && load_flags_ok(m.status, c.status, m.y),
        IrOp::Dex => kept && (m.a, m.x, m.y, m.sp) == (c.a, c.x.wrapping_sub(1), c.y, c.sp)
            && load_flags_ok(m.status, c.status, m.x),
        IrOp::Dey => kept && (m.a, m.x, m.y, m.sp) == (c.a, c.x, c.y.wrapping_sub(1), c.sp)
            && load_flags_ok(m.status, c.status, m.y),
        IrOp::Tax => kept && (m.a, m.x, m.y, m.sp) == (c.a, c.a, c.y, c.sp) && load_flags_ok(m.status, c.status, c.a),
        IrOp::Tay => kept && (m.a, m.x, m.y, m.sp) == (c.a, c.x, c.a, c.sp) && load_flags_ok(m.status, c.status, c.a),
        IrOp::Txa => kept && (m.a, m.x, m.y, m.sp) == (c.x, c.x, c.y, c.sp) && load_flags_ok(m.status, c.status, c.x),
        IrOp::Tya => kept && (m.a, m.x, m.y, m.sp) == (c.y, c.x, c.y, c.sp) && load_flags_ok(m.status, c.status, c.y),
        IrOp::Tsx => kept && (m.a, m.x, m.y, m.sp) == (c.a, c.sp, c.y, c.sp) && load_flags_ok(m.status, c.status, c.sp),
        IrOp::Txs => kept && (m.a, m.x, m.y, m.sp, m.status) == (c.a, c.x, c.y, c.x, c.status),
        IrOp::Pha => kept && (m.a, m.x, m.y, m.sp, m.status) == (c.a, c.x, c.y, c.sp.wrapping_sub(1), c.status)
            && n.ram@ == o.ram@.update(stack_slot(c.sp), c.a),
        IrOp::Php => kept && (m.a, m.x, m.y, m.sp, m.status) == (c.a, c.x, c.y, c.sp.wrapping_sub(1), c.status)
            && n.ram@ == o.ram@.update(stack_slot(c.sp), packed_status(c.status, true)),
        IrOp::Pla => kept && (m.x, m.y, m.sp) == (c.x, c.y, c.sp.wrapping_add(1))
            && m.a == o.ram@[stack_slot(c.sp.wrapping_add(1))] && load_flags_ok(m.status, c.status, m.a),
        IrOp::Plp => kept && (m.a, m.x, m.y, m.sp) == (c.a, c.x, c.y, c.sp.wrapping_add(1))
            && m.status == unpacked_status(o.ram@[stack_slot(c.sp.wrapping_add(1))]),
        IrOp::Clc => kept && regs(m) == regs(c) && m.status == c.status & !STATUS_C,
        IrOp::Sec => kept && regs(m) == regs(c) && m.status == c.status | STATUS_C,
        IrOp::Cld => kept && regs(m) == regs(c) && m.status == c.status & !STATUS_D,
        IrOp::Sed => kept && regs(m) == regs(c) && m.status == c.status | STATUS_D,
        IrOp::Cli => kept && regs(m) == regs(c) && m.status == c.status & !STATUS_I,
        IrOp::Sei => kept && regs(m) == regs(c) && m.status == c.status | STATUS_I,
        IrOp::Clv => kept && regs(m) == regs(c) && m.status == c.status & !STATUS_V,
        IrOp::Nop => regs(m) == regs(c) && m.status == c.status,
        _ => true,
    }
}

/// Reads a decoded instruction's operand: the value itself for immediate
/// and accumulator operands, otherwise through memory, with the dummy
/// cycles of each mode.
#[verifier::rlimit(80)]
#[verifier::spinoff_prover]
pub fn read_operand(s: &mut State, mode: &AddrMode) -> (r: u8)
    requires
        old(s).wf(),
    ensures
        bus_step(*final(s), *old(s)),
        crate::nes::same_registers(final(s).cpu, old(s).cpu),
        final(s).ram == old(s).ram,
        *mode matches AddrMode::Immediate(v) ==> r == v,
        *mode is Accumulator ==> r == old(s).cpu.a,
        *mode matches AddrMode::ZeroPage(zp) ==> r == old(s).ram@[zp as int],
        operand_value(*old(s), *mode) matches Some(v) ==> r == v,
{
    let ghost o = *s;
    match *mode {
        AddrMode::Immediate(val) => val,
        AddrMode::Accumulator => s.cpu.a,
        AddrMode::ZeroPage(zp) => {
            proof { lemma_addr_fields(zp as u16); }
            s.cpu_peek(zp as u16)
        },
        AddrMode::ZeroPageX(zp) | AddrMode::ZeroPageY(zp) => {
            s.cpu.cycles = s.cpu.cycles.wrapping_add(1);
            let idx = if matches!(*mode, AddrMode::ZeroPageX(_)) { s.cpu.x } else { s.cpu.y };
            let addr = zp.wrapping_add(idx) as u16;
            assert(addr == operand_address(o, *mode));
            s.cpu_peek(addr)
        },
        AddrMode::Absolute(addr) => s.cpu_peek(addr),
        AddrMode::AbsoluteX(addr) | AddrMode::AbsoluteY(addr) => {
            let idx = if matches!(*mode, AddrMode::AbsoluteX(_)) { s.cpu.x } else { s.cpu.y };
            let address = addr.wrapping_add(idx as u16);
            assert(address == operand_address(o, *mode));
            let adjusted = (addr & 0xFF00) | (address & 0x00FF);
            if address == adjusted {
                s.cpu_peek(address)
            } else {
                s.cpu_peek(adjusted);
                s.cpu_peek(address)
            }
        },
        AddrMode::IndirectX(zp) => {
            s.cpu.cycles = s.cpu.cycles.wrapping_add(1);
            let ptr = zp.wrapping_add(s.cpu.x);
            let addr = read_zp_pointer(s, ptr);
            assert(addr == operand_address(o, *mode));
            s.cpu_peek(addr)
        },
        AddrMode::IndirectY(zp) => {
            let base = read_zp_pointer(s, zp);
            let address = base.wrapping_add(s.cpu.y as u16);
            assert(address == operand_address(o, *mode));
            let adjusted = (base & 0xFF00) | (address & 0x00FF);
            if address == adjusted {
                s.cpu_peek(address)
            } else {
                s.cpu_peek(adjusted);
                s.cpu_peek(address)
            }
        },
        _ => 0,
    }
}

/// The effective address of an operand without reading it; for (zp),Y
/// the unfixed address is read when the index crosses a page.
pub fn read_address_only(s: &mut State, mode: &AddrMode) -> (r: u16)
    requires
        old(s).wf(),
    ensures
        bus_step(*final(s), *old(s)),
        crate::nes::same_registers(final(s).cpu, old(s).cpu),
        final(s).ram == old(s).ram,
        *mode matches AddrMode::IndirectX(zp)
            ==> r == zp_pointer(old(s).ram@, ((zp + old(s).cpu.x) % 256) as u8),
        *mode matches AddrMode::IndirectY(zp)
            ==> r == ((zp_pointer(old(s).ram@, zp) + old(s).cpu.y) % 65536) as u16,
        !(*mode is IndirectX || *mode is IndirectY)
            ==> r == direct_address(*mode, old(s).cpu.x, old(s).cpu.y),
{
    match *mode {
        AddrMode::IndirectX(zp) => {
            s.cpu.cycles = s.cpu.cycles.wrapping_add(1);
            let ptr = zp.wrapping_add(s.cpu.x);
            read_zp_pointer(s, ptr)
        },
        AddrMode::IndirectY(zp) => {
            let base = read_zp_pointer(s, zp);
            let address = base.wrapping_add(s.cpu.y as u16);
            let adjusted = (base & 0xFF00) | (address & 0x00FF);
            if address != adjusted {
                s.cpu_peek(adjusted);
            }
            address
        },
        _ => resolve_address(s, mode),
    }
}

/// Writes `val` to a decoded instruction's operand; the indexed absolute
/// and (zp),Y forms read the unfixed address first.
#[verifier::rlimit(80)]
#[verifier::spinoff_prover]
pub fn write_operand(s: &mut State, mode: &AddrMode, val: u8)
    requires
        old(s).wf(),
    ensures
        bus_step(*final(s), *old(s)),
        crate::nes::same_registers(final(s).cpu, old(s).cpu),
        *mode matches AddrMode::ZeroPage(zp) ==> final(s).ram@ == old(s).ram@.update(zp as int, val),
        stored_to(*mode, *old(s), *final(s), val),
{
    let ghost o = *s;
    match *mode {
        AddrMode::ZeroPage(zp) => {
            proof { lemma_addr_fields(zp as u16); }
            s.cpu_poke(zp as u16, val);
        },
        AddrMode::ZeroPageX(zp) | AddrMode::ZeroPageY(zp) => {
            s.cpu.cycles = s.cpu.cycles.wrapping_add(1);
            let idx = if matches!(*mode, AddrMode::ZeroPageX(_)) { s.cpu.x } else { s.cpu.y };
            let addr = zp.wrapping_add(idx) as u16;
            assert(addr == operand_address(o, *mode));
            s.cpu_poke(addr, val);
        },
        AddrMode::Absolute(addr) => s.cpu_poke(addr, val),
        AddrMode::AbsoluteX(addr) | AddrMode::AbsoluteY(addr) => {
            let idx = if matches!(*mode, AddrMode::AbsoluteX(_)) { s.cpu.x } else { s.cpu.y };
            let address = addr.wrapping_add(idx as u16);
            assert(address == operand_address(o, *mode));
            let adjusted = (addr & 0xFF00) | (address & 0x00FF);
            s.cpu_peek(adjusted);
            s.cpu_poke(address, val);
        },
        AddrMode::IndirectX(zp) => {
            s.cpu.cycles = s.cpu.cycles.wrapping_add(1);
            let ptr = zp.wrapping_add(s.cpu.x);
            let addr = read_zp_pointer(s, ptr);
            assert(addr == operand_address(o, *mode));
            s.cpu_poke(addr, val);
        },
        AddrMode::IndirectY(zp) => {
            let base = read_zp_pointer(s, zp);
            let address = base.wrapping_add(s.cpu.y as u16);
            assert(address == operand_address(o, *mode));
            let adjusted = (base & 0xFF00) | (address & 0x00FF);
            s.cpu_peek(adjusted);
            s.cpu_poke(address, val);
        },
        _ => {},
    }
}

/// The read-modify-write modes whose address `direct_address` gives.
pub open spec fn rmw_direct_mode(mode: AddrMode) -> bool {
    mode is ZeroPage || mode is ZeroPageX || mode is ZeroPageY || mode is Absolute
        || mode is AbsoluteX || mode is AbsoluteY
}

/// Reads an operand, computes `op` on it and writes the result back, with
/// the dummy cycles of each mode; the accumulator form works on A.
/// Returns the result.
#[verifier::rlimit(50)]
pub fn read_modify_write(s: &mut State, mode: &AddrMode, op: RmwOp) -> (r: u8)
    requires
        old(s).wf(),
    ensures
        bus_step(*final(s), *old(s)),
        final(s).cpu.pc == old(s).cpu.pc,
        final(s).cpu.x == old(s).cpu.x && final(s).cpu.y == old(s).cpu.y && final(s).cpu.sp == old(s).cpu.sp,
        !(*mode is Accumulator) ==> final(s).cpu.a == old(s).cpu.a,
        *mode is Accumulator ==> final(s).cpu.a == r,
        op == RmwOp::Inc ==> (*mode matches AddrMode::ZeroPage(zp) ==> r == old(s).ram@[zp as int].wrapping_add(1)
            && final(s).ram@ == old(s).ram@.update(zp as int, r)),
        same_outside(final(s).cpu.status, old(s).cpu.status, 0x01),
        *mode is Accumulator ==> r == rmw_value(op, old(s).cpu.a, flag(old(s).cpu.status, 0x01))
            && rmw_status_ok(op, old(s).cpu.a, final(s).cpu.status, old(s).cpu.status)
            && final(s).ram == old(s).ram,
        rmw_direct_mode(*mode) && direct_address(*mode, old(s).cpu.x, old(s).cpu.y) < 0x2000 ==> ({
            let addr = direct_address(*mode, old(s).cpu.x, old(s).cpu.y);
            &&& r == rmw_value(op, old(s).ram_at(addr), flag(old(s).cpu.status, 0x01))
            &&& rmw_status_ok(op, old(s).ram_at(addr), final(s).cpu.status, old(s).cpu.status)
            &&& final(s).ram@ == old(s).ram@.update((addr & 0x7FF) as int, r)
        }),
{
    match *mode {
        AddrMode::Accumulator => {
            let pc = s.cpu.pc;
            s.cpu_peek(pc);
            let data = s.cpu.a;
            let result = apply_rmw(&mut s.cpu, op, data);
            s.cpu.a = result;
            result
        },
        AddrMode::ZeroPage(zp) => {
            let addr = zp as u16;
            proof { lemma_addr_fields(addr); }
            let data = s.cpu_peek(addr);
            s.cpu.cycles = s.cpu.cycles.wrapping_add(1);
            let result = apply_rmw(&mut s.cpu, op, data);
            s.cpu_poke(addr, result);
            result
        },
        AddrMode::ZeroPageX(zp) | AddrMode::ZeroPageY(zp) => {
            s.cpu.cycles = s.cpu.cycles.wrapping_add(1);
            let idx = if matches!(*mode, AddrMode::ZeroPageX(_)) { s.cpu.x } else { s.cpu.y };
            let addr = zp.wrapping_add(idx) as u16;
            let data = s.cpu_peek(addr);
            s.cpu.cycles = s.cpu.cycles.wrapping_add(1);
            let result = apply_rmw(&mut s.cpu, op, data);
            s.cpu_poke(addr, result);
            result
        },
        AddrMode::Absolute(addr) => {
            let data = s.cpu_peek(addr);
            s.cpu_poke(addr, data);
            let result = apply_rmw(&mut s.cpu, op, data);
            s.cpu_poke(addr, result);
            proof {
                if addr < 0x2000 {
                    lemma_addr_fields(addr);
                    let i = (addr & 0x7FF) as int;
                    assert(s.ram@ =~= old(s).ram@.update(i, result));
                }
            }
            result
        },
        AddrMode::AbsoluteX(addr) | AddrMode::AbsoluteY(addr) => {
            let idx = if matches!(*mode, AddrMode::AbsoluteX(_)) { s.cpu.x } else { s.cpu.y };
            let address = addr.wrapping_add(idx as u16);
            let adjusted = (addr & 0xFF00) | (address & 0x00FF);
            s.cpu_peek(adjusted);
            let data = s.cpu_peek(address);
            let result = apply_rmw(&mut s.cpu, op, data);
            s.cpu_poke(address, result);
            s.cpu_poke(address, result);
            proof {
                if address < 0x2000 {
                    lemma_addr_fields(address);
                    let i = (address & 0x7FF) as int;
                    assert(s.ram@ =~= old(s).ram@.update(i, result));
                }
            }
            result
        },
        AddrMode::IndirectX(zp) => {
            s.cpu.cycles = s.cpu.cycles.wrapping_add(1);
            let ptr = zp.wrapping_add(s.cpu.x);
            let addr = read_zp_pointer(s, ptr);
            let data = s.cpu_peek(addr);
            s.cpu_poke(addr, data);
            let result = apply_rmw(&mut s.cpu, op, data);
            s.cpu_poke(addr, result);
            result
        },
        AddrMode::IndirectY(zp) => {
            let base = read_zp_pointer(s, zp);
            let address = base.wrapping_add(s.cpu.y as u16);
            let adjusted = (base & 0xFF00) | (address & 0x00FF);
            s.cpu_peek(adjusted);
            let data = s.cpu_peek(address);
            s.cpu_poke(address, data);
            let result = apply_rmw(&mut s.cpu, op, data);
            s.cpu_poke(address, result);
            result
        },
        _ => 0,
    }
}


/// The target of branch op `op` and whether `status` takes it; `None`
/// for the other ops.
pub open spec fn branch_spec(op: IrOp, status: u8) -> Option<(u16, bool)> {
    match op {
        IrOp::Bcc { target } => Some((target, status & STATUS_C == 0)),
        IrOp::Bcs { target } => Some((target, status & STATUS_C != 0)),
        IrOp::Beq { target } => Some((target, status & STATUS_Z != 0)),
        IrOp::Bne { target } => Some((target, status & STATUS_Z == 0)),
        IrOp::Bmi { target } => Some((target, status & STATUS_N != 0)),
        IrOp::Bpl { target } => Some((target, status & STATUS_N == 0)),
        IrOp::Bvc { target } => Some((target, status & STATUS_V == 0)),
        IrOp::Bvs { target } => Some((target, status & STATUS_V != 0)),
        _ => None,
    }
}

/// The ops that transfer control: branches, jumps, subroutine calls and
/// returns, and BRK.
pub open spec fn is_transfer(op: IrOp) -> bool {
    branch_spec(op, 0) is Some || op is Jmp || op is JmpIndirect || op is Jsr || op is Rts || op is Rti || op is Brk
}

/// What a control-transfer op does to the console `o`, whose program
/// counter is at the op: a branch moves the program counter to its target
/// when taken (one cycle more, two when the target is in another page than
/// the next instruction) or past its two bytes; JMP, JSR, RTS and RTI set
/// it and move the stack as the 6502 does; BRK pushes the return address
/// and status and sets I.  A JMP (indirect) whose pointer is in work RAM
/// reads the target without carrying into the pointer's page byte.
#[verifier::opaque]
pub open spec fn ir_control_effect(op: IrOp, o: State, n: State) -> bool {
    let c = o.cpu;
    let m = n.cpu;
    match branch_spec(op, c.status) {
        Some((target, taken)) => n == (State {
            cpu: CpuState {
                pc: if taken { target } else { c.pc.wrapping_add(2) },
                cycles: if !taken {
                    c.cycles
                } else if (c.pc.wrapping_add(2) & 0xFF00) != (target & 0xFF00) {
                    c.cycles.wrapping_add(1).wrapping_add(1)
                } else {
                    c.cycles.wrapping_add(1)
                },
                ..c
            },
            ..o
        }),
        None => match op {
            IrOp::Jmp(t) => n == (State { cpu: CpuState { pc: t, ..c }, ..o }),
            IrOp::JmpIndirect(addr) => {
                &&& regs(m) == (c.a, c.x, c.y, c.sp, m.pc)
                &&& m.status == c.status
                &&& n.ram == o.ram
                &&& addr < 0x2000 ==> m.pc == ram_word(o, addr)
            },
            IrOp::Jsr(t) => {
                let ret = c.pc.wrapping_add(2);
                &&& regs(m) == (c.a, c.x, c.y, ((c.sp - 2) % 256) as u8, t)
                &&& m.status == c.status
                &&& n.ram@ == o.ram@.update(stack_slot(c.sp), (ret >> 8) as u8)
                    .update(stack_slot(((c.sp - 1) % 256) as u8), (ret & 0xFF) as u8)
            },
            IrOp::Rts => {
                &&& regs(m) == (c.a, c.x, c.y, ((c.sp + 2) % 256) as u8,
                    word_of(stack_byte(o, 1), stack_byte(o, 2)).wrapping_add(1))
                &&& m.status == c.status
                &&& n.ram == o.ram
            },
            IrOp::Rti => {
                &&& regs(m) == (c.a, c.x, c.y, ((c.sp + 3) % 256) as u8, word_of(stack_byte(o, 2), stack_byte(o, 3)))
                &&& m.status == unpacked_status(stack_byte(o, 1))
                &&& n.ram == o.ram
            },
            IrOp::Brk => {
                let ret = c.pc.wrapping_add(2);
                &&& m.a == c.a && m.x == c.x && m.y == c.y
                &&& m.sp == ((c.sp - 3) % 256) as u8
                &&& m.status == c.status | STATUS_I
                &&& n.ram@ == o.ram@.update(stack_slot(c.sp), (ret >> 8) as u8)
                    .update(stack_slot(((c.sp - 1) % 256) as u8), (ret & 0xFF) as u8)
                    .update(stack_slot(((c.sp - 2) % 256) as u8), packed_status(c.status, true))
            },
            _ => n == o,
        },
    }
}

/// The branch condition of a branch op, if `op` is one: (target, taken).
fn branch_of(op: IrOp, status: u8) -> (r: Option<(u16, bool)>)
    ensures
        r == branch_spec(op, status),
{
    match op {
        IrOp::Bcc { target } => Some((target, status & STATUS_C == 0)),
        IrOp::Bcs { target } => Some((target, status & STATUS_C != 0)),
        IrOp::Beq { target } => Some((target, status & STATUS_Z != 0)),
        IrOp::Bne { target } => Some((target, status & STATUS_Z == 0)),
        IrOp::Bmi { target } => Some((target, status & STATUS_N != 0)),
        IrOp::Bpl { target } => Some((target, status & STATUS_N == 0)),
        IrOp::Bvc { target } => Some((target, status & STATUS_V == 0)),
        IrOp::Bvs { target } => Some((target, status & STATUS_V != 0)),
        _ => None,
    }
}

/// Control transfers: branches, jumps, calls, returns and BRK.  Returns
/// whether `op` was one; the program counter is then already set.
#[verifier::rlimit(60)]
fn execute_control(s: &mut State, op: IrOp) -> (done: bool)
    requires
        old(s).wf(),
    ensures
        bus_step(*final(s), *old(s)),
        !done ==> *final(s) == *old(s),
        done == is_transfer(op),
        ir_control_effect(op, *old(s), *final(s)),
{
    if let Some((target, taken)) = branch_of(op, s.cpu.status) {
        let pc = s.cpu.pc;
        if taken {
            s.cpu.cycles = s.cpu.cycles.wrapping_add(1);
            if (pc.wrapping_add(2) & 0xFF00) != (target & 0xFF00) {
                s.cpu.cycles = s.cpu.cycles.wrapping_add(1);
            }
            s.cpu.pc = target;
        } else {
            s.cpu.pc = pc.wrapping_add(2);
        }
        assert(ir_control_effect(op, *old(s), *s)) by { reveal(ir_control_effect); }
        return true;
    }
    match op {
        IrOp::Jmp(target) => {
            s.cpu.pc = target;
            assert(ir_control_effect(op, *old(s), *s)) by { reveal(ir_control_effect); }
            true
        },
        IrOp::JmpIndirect(addr) => {
            let target = read_u16_wrapped(s, addr);
            s.cpu.pc = target;
            assert(ir_control_effect(op, *old(s), *s)) by { reveal(ir_control_effect); }
            true
        },
        IrOp::Jsr(target) => {
            let ret = s.cpu.pc.wrapping_add(2);
            stack_push(s, (ret >> 8) as u8);
            stack_push(s, (ret & 0xFF) as u8);
            s.cpu.cycles = s.cpu.cycles.wrapping_add(1);
            s.cpu.pc = target;
            assert(ir_control_effect(op, *old(s), *s)) by { reveal(ir_control_effect); }
            true
        },
        IrOp::Rts => {
            let pc = s.cpu.pc;
            s.cpu_peek(pc);
            s.cpu.cycles = s.cpu.cycles.wrapping_add(1);
            let lo = stack_pull(s) as u16;
            let hi = stack_pull(s) as u16;
            let ret = (hi << 8) | lo;
            s.cpu.pc = ret;
            s.cpu_peek(ret);
            s.cpu.pc = ret.wrapping_add(1);
            assert(ir_control_effect(op, *old(s), *s)) by { reveal(ir_control_effect); }
            true
        },
        IrOp::Rti => {
            let pc = s.cpu.pc;
            s.cpu_peek(pc);
            s.cpu.cycles = s.cpu.cycles.wrapping_add(1);
            let st = stack_pull(s);
            status_unpack(&mut s.cpu, st);
            let lo = stack_pull(s) as u16;
            let hi = stack_pull(s) as u16;
            s.cpu.pc = (hi << 8) | lo;
            assert(ir_control_effect(op, *old(s), *s)) by { reveal(ir_control_effect); }
            true
        },
        IrOp::Brk => {
            let pc = s.cpu.pc;
            s.cpu_peek(pc);
            let ret = pc.wrapping_add(2);
            s.cpu.pc = ret;
            stack_push(s, (ret >> 8) as u8);
            stack_push(s, (ret & 0xFF) as u8);
            let st = status_pack(&s.cpu, true);
            stack_push(s, st);
            let target = vector_brk(s);
            s.cpu.pc = target;
            s.cpu.status = s.cpu.status | STATUS_I;
            assert(ir_control_effect(op, *old(s), *s)) by { reveal(ir_control_effect); }
            true
        },
        _ => {
            assert(ir_control_effect(op, *old(s), *s)) by { reveal(ir_control_effect); }
            false
        },
    }
}

/// Loads, stores, arithmetic and the read-modify-write operations.
#[verifier::rlimit(100)]
#[verifier::spinoff_prover]
fn execute_memory(s: &mut State, op: IrOp)
    requires
        old(s).wf(),
    ensures
        bus_step(*final(s), *old(s)),
        memory_effect(op, *old(s), *final(s)),
        final(s).cpu.pc == old(s).cpu.pc,
        !is_memory_op(op) ==> *final(s) == *old(s),
{
    match op {
        IrOp::Lda(mode) => {
            let data = read_operand(s, &mode);
            s.cpu.a = data;
            set_status_load(&mut s.cpu, data);
        },
        IrOp::Ldx(mode) => {
            let data = read_operand(s, &mode);
            s.cpu.x = data;
            set_status_load(&mut s.cpu, data);
        },
        IrOp::Ldy(mode) => {
            let data = read_operand(s, &mode);
            s.cpu.y = data;
            set_status_load(&mut s.cpu, data);
        },
        IrOp::Sta(mode) => {
            let v = s.cpu.a;
            write_operand(s, &mode, v);
        },
        IrOp::Stx(mode) => {
            let v = s.cpu.x;
            write_operand(s, &mode, v);
        },
        IrOp::Sty(mode) => {
            let v = s.cpu.y;
            write_operand(s, &mode, v);
        },
        IrOp::Adc(mode) => {
            let data = read_operand(s, &mode);
            let r = compute_adc(&mut s.cpu, data);
            s.cpu.a = r;
            set_status_load(&mut s.cpu, r);
        },
        IrOp::Sbc(mode) => {
            let data = read_operand(s, &mode);
            let r = compute_sbc(&mut s.cpu, data);
            s.cpu.a = r;
            set_status_load(&mut s.cpu, r);
        },
        IrOp::And(mode) => {
            let data = read_operand(s, &mode);
            let r = s.cpu.a & data;
            s.cpu.a = r;
            set_status_load(&mut s.cpu, r);
        },
        IrOp::Ora(mode) => {
            let data = read_operand(s, &mode);
            let r = s.cpu.a | data;
            s.cpu.a = r;
            set_status_load(&mut s.cpu, r);
        },
        IrOp::Eor(mode) => {
            let data = read_operand(s, &mode);
            let r = s.cpu.a ^ data;
            s.cpu.a = r;
            set_status_load(&mut s.cpu, r);
        },
        IrOp::Asl(mode) | IrOp::Lsr(mode) | IrOp::Rol(mode) | IrOp::Ror(mode) | IrOp::Inc(mode) | IrOp::Dec(mode) => {
            let rop = match op {
                IrOp::Asl(_) => RmwOp::Asl,
                IrOp::Lsr(_) => RmwOp::Lsr,
                IrOp::Rol(_) => RmwOp::Rol,
                IrOp::Ror(_) => RmwOp::Ror,
                IrOp::Inc(_) => RmwOp::Inc,
                _ => RmwOp::Dec,
            };
            let ghost st0 = s.cpu.status;
            let result = read_modify_write(s, &mode, rop);
            let ghost st1 = s.cpu.status;
            set_status_load(&mut s.cpu, result);
            proof { lemma_status_merge_carry(st0, st1, s.cpu.status); }
        },
        IrOp::Cmp(mode) => {
            let data = read_operand(s, &mode);
            let a = s.cpu.a;
            compute_cmp(&mut s.cpu, a, data);
        },
        IrOp::Cpx(mode) => {
            let data = read_operand(s, &mode);
            let x = s.cpu.x;
            compute_cmp(&mut s.cpu, x, data);
        },
        IrOp::Cpy(mode) => {
            let data = read_operand(s, &mode);
            let y = s.cpu.y;
            compute_cmp(&mut s.cpu, y, data);
        },
        IrOp::Bit(mode) => {
            let data = read_operand(s, &mode);
            compute_bit(&mut s.cpu, data);
        },
        _ => {},
    }
}

/// Register, stack and flag operations.
#[verifier::rlimit(100)]
#[verifier::spinoff_prover]
fn execute_register(s: &mut State, op: IrOp)
    requires
        old(s).wf(),
    ensures
        bus_step(*final(s), *old(s)),
        register_effect(op, *old(s), *final(s)),
        final(s).cpu.pc == old(s).cpu.pc,
        !is_register_op(op) ==> *final(s) == *old(s),
{
    match op {
        IrOp::Inx | IrOp::Iny | IrOp::Dex | IrOp::Dey => {
            let pc = s.cpu.pc;
            s.cpu_peek(pc);
            let r = match op {
                IrOp::Inx => {
                    s.cpu.x = s.cpu.x.wrapping_add(1);
                    s.cpu.x
                },
                IrOp::Iny => {
                    s.cpu.y = s.cpu.y.wrapping_add(1);
                    s.cpu.y
                },
                IrOp::Dex => {
                    s.cpu.x = s.cpu.x.wrapping_sub(1);
                    s.cpu.x
                },
                _ => {
                    s.cpu.y = s.cpu.y.wrapping_sub(1);
                    s.cpu.y
                },
            };
            set_status_load(&mut s.cpu, r);
        },
        IrOp::Pha => {
            let pc = s.cpu.pc;
            s.cpu_peek(pc);
            let a = s.cpu.a;
            stack_push(s, a);
        },
        IrOp::Php => {
            let pc = s.cpu.pc;
            s.cpu_peek(pc);
            let st = status_pack(&s.cpu, true);
            stack_push(s, st);
        },
        IrOp::Pla => {
            let pc = s.cpu.pc;
            s.cpu_peek(pc);
            s.cpu.cycles = s.cpu.cycles.wrapping_add(1);
            let v = stack_pull(s);
            s.cpu.a = v;
            set_status_load(&mut s.cpu, v);
        },
        IrOp::Plp => {
            let pc = s.cpu.pc;
            s.cpu_peek(pc);
            s.cpu.cycles = s.cpu.cycles.wrapping_add(1);
            let st = stack_pull(s);
            status_unpack(&mut s.cpu, st);
        },
        IrOp::Tax | IrOp::Tay | IrOp::Txa | IrOp::Tya | IrOp::Tsx => {
            let v = match op {
                IrOp::Tax => {
                    s.cpu.x = s.cpu.a;
                    s.cpu.x
                },
                IrOp::Tay => {
                    s.cpu.y = s.cpu.a;
                    s.cpu.y
                },
                IrOp::Txa => {
                    s.cpu.a = s.cpu.x;
                    s.cpu.a
                },
                IrOp::Tya => {
                    s.cpu.a = s.cpu.y;
                    s.cpu.a
                },
                _ => {
                    s.cpu.x = s.cpu.sp;
                    s.cpu.x
                },
            };
            s.cpu.cycles = s.cpu.cycles.wrapping_add(1);
            set_status_load(&mut s.cpu, v);
        },
        IrOp::Txs => {
            s.cpu.sp = s.cpu.x;
            s.cpu.cycles = s.cpu.cycles.wrapping_add(1);
        },
        IrOp::Clc | IrOp::Sec | IrOp::Cld | IrOp::Sed | IrOp::Cli | IrOp::Sei | IrOp::Clv | IrOp::Nop => {
            let st = s.cpu.status;
            s.cpu.status = match op {
                IrOp::Clc => st & !STATUS_C,
                IrOp::Sec => st | STATUS_C,
                IrOp::Cld => st & !STATUS_D,
                IrOp::Sed => st | STATUS_D,
                IrOp::Cli => st & !STATUS_I,
                IrOp::Sei => st | STATUS_I,
                IrOp::Clv => st & !STATUS_V,
                _ => st,
            };
            s.cpu.cycles = s.cpu.cycles.wrapping_add(1);
        },
        _ => {},
    }
}

/// The high byte of `addr` plus one, as the unstable stores mask with.
fn page_after(addr: u16) -> (r: u8)
    ensures
        r == ((addr >> 8) as u8).wrapping_add(1),
{
    ((addr >> 8) as u8).wrapping_add(1)
}

/// The undocumented operations.
#[verifier::rlimit(40)]
fn execute_undocumented(s: &mut State, op: IrOp)
    requires
        old(s).wf(),
    ensures
        bus_step(*final(s), *old(s)),
        final(s).cpu.pc == old(s).cpu.pc,
        !is_undocumented_op(op) ==> *final(s) == *old(s),
{
    match op {
        IrOp::Lax(mode) => {
            let data = read_operand(s, &mode);
            s.cpu.a = data;
            s.cpu.x = data;
            set_status_load(&mut s.cpu, data);
        },
        IrOp::Sax(mode) => {
            let v = s.cpu.a & s.cpu.x;
            write_operand(s, &mode, v);
        },
        IrOp::Dcp(mode) => {
            let result = read_modify_write(s, &mode, RmwOp::Dec);
            let a = s.cpu.a;
            compute_cmp(&mut s.cpu, a, result);
        },
        IrOp::Isc(mode) => {
            let result = read_modify_write(s, &mode, RmwOp::Inc);
            let res = compute_sbc(&mut s.cpu, result);
            s.cpu.a = res;
            set_status_load(&mut s.cpu, res);
        },
        IrOp::Slo(mode) | IrOp::Sre(mode) | IrOp::Rla(mode) => {
            let rop = match op {
                IrOp::Slo(_) => RmwOp::Asl,
                IrOp::Sre(_) => RmwOp::Lsr,
                _ => RmwOp::Rol,
            };
            let result = read_modify_write(s, &mode, rop);
            let a = s.cpu.a;
            let r = match op {
                IrOp::Slo(_) => a | result,
                IrOp::Sre(_) => a ^ result,
                _ => a & result,
            };
            s.cpu.a = r;
            set_status_load(&mut s.cpu, r);
        },
        IrOp::Rra(mode) => {
            let result = read_modify_write(s, &mode, RmwOp::Ror);
            let sum = compute_adc(&mut s.cpu, result);
            s.cpu.a = sum;
            set_status_load(&mut s.cpu, sum);
        },
        IrOp::Anc(mode) => {
            let data = read_operand(s, &mode);
            let a = s.cpu.a & data;
            s.cpu.a = a;
            set_status_load(&mut s.cpu, a);
            s.cpu.status = (s.cpu.status & !STATUS_C) | ((s.cpu.status & STATUS_N) >> 7);
        },
        IrOp::Alr(mode) => {
            let data = read_operand(s, &mode);
            let a = s.cpu.a & data;
            let result = compute_lsr(&mut s.cpu, a);
            s.cpu.a = result;
            set_status_load(&mut s.cpu, result);
        },
        IrOp::Arr(mode) => {
            let data = read_operand(s, &mode);
            let a = s.cpu.a & data;
            let result = compute_ror(&mut s.cpu, a);
            s.cpu.a = result;
            let z: u8 = if result == 0 { 1 } else { 0 };
            let v: u8 = if ((result >> 6) ^ ((result >> 5) & 1)) == 1 { 1 } else { 0 };
            s.cpu.status = (s.cpu.status & !(STATUS_Z | STATUS_N | STATUS_V | STATUS_C)) | (z << 1)
                | (result & STATUS_N) | (v << 6) | ((result >> 6) & 1);
        },
        IrOp::Las(mode) => {
            let data = read_operand(s, &mode);
            let result = data & s.cpu.a;
            s.cpu.a = result;
            s.cpu.x = result;
            s.cpu.sp = result;
            set_status_load(&mut s.cpu, result);
        },
        IrOp::Ane(mode) => {
            let data = read_operand(s, &mode);
            let a = (0xFF | s.cpu.a) & s.cpu.x & data;
            s.cpu.a = a;
            set_status_load(&mut s.cpu, a);
        },
        IrOp::Tas(mode) | IrOp::Sha(mode) | IrOp::Shy(mode) | IrOp::Shx(mode) => {
            let addr = read_address_only(s, &mode);
            let value = match op {
                IrOp::Tas(_) => {
                    let v = s.cpu.a & s.cpu.x;
                    s.cpu.sp = v;
                    v
                },
                IrOp::Sha(_) => s.cpu.a & s.cpu.x,
                IrOp::Shy(_) => s.cpu.y,
                _ => s.cpu.x,
            };
            let high = page_after(addr);
            s.cpu_poke(addr, value & high);
        },
        IrOp::Axs(mode) => {
            let data = read_operand(s, &mode);
            let ax = s.cpu.a & s.cpu.x;
            compute_cmp(&mut s.cpu, ax, data);
        },
        _ => {},
    }
}

/// Whether an interrupt is due in `s`: one is pending, or interrupts are
/// enabled and the board or the audio unit raises its line.
pub open spec fn interrupt_due(s: State) -> bool {
    s.cpu.pending_interrupt != InterruptKind::NoInterrupt
        || (s.cpu.status & STATUS_I == 0 && (s.mapper.irq_line() || s.apu.irq_pending))
}

/// Whether `mid` is `o` after the video unit caught up with the CPU.
pub open spec fn caught_up_from(mid: State, o: State) -> bool {
    &&& mid.wf()
    &&& video_step(mid, o)
    &&& mid.ppu.last_cpu_cycle == mid.cpu.cycles
    &&& o.ppu.last_cpu_cycle == o.cpu.cycles ==> mid == o
}

/// What running a block does at its first instruction `first`, with `mid`
/// the console after the video unit caught up: an interrupt that is due
/// stops the block before the instruction (a raised line is recorded as a
/// pending IRQ); otherwise a control transfer is the block's last
/// instruction, run after its bytes' cycles are counted.
pub open spec fn block_first_step(o: State, mid: State, n: State, first: DecodedInst) -> bool {
    &&& caught_up_from(mid, o)
    &&& interrupt_due(mid) ==> n == (State {
        cpu: CpuState {
            pending_interrupt: if mid.cpu.pending_interrupt != InterruptKind::NoInterrupt {
                mid.cpu.pending_interrupt
            } else {
                InterruptKind::IRQ
            },
            ..mid.cpu
        },
        ..mid
    })
    &&& !interrupt_due(mid) && is_transfer(first.op) ==> ir_control_effect(
        first.op,
        State { cpu: CpuState { cycles: mid.cpu.cycles.wrapping_add(first.bytes as u64), ..mid.cpu }, ..mid },
        n,
    )
}

/// The console `mid` with the cycles of instruction `d`'s bytes counted.
pub open spec fn with_inst_cycles(mid: State, d: DecodedInst) -> State {
    State { cpu: CpuState { cycles: mid.cpu.cycles.wrapping_add(d.bytes as u64), ..mid.cpu }, ..mid }
}

/// The console `mid` with a due interrupt recorded: a pending one stays, a
/// raised IRQ line becomes a pending IRQ.
pub open spec fn interrupt_recorded(mid: State) -> State {
    State {
        cpu: CpuState {
            pending_interrupt: if mid.cpu.pending_interrupt != InterruptKind::NoInterrupt {
                mid.cpu.pending_interrupt
            } else {
                InterruptKind::IRQ
            },
            ..mid.cpu
        },
        ..mid
    }
}

/// What a block instruction `d` that is no control transfer does from `o`
/// (its bytes' cycles counted) to `n`: the program counter moves past its
/// bytes, and the registers, flags and work RAM change as `memory_effect`
/// and `register_effect` say of the console before the program counter
/// moved.
pub open spec fn block_inst_effect(d: DecodedInst, o: State, n: State) -> bool {
    let k = State { cpu: CpuState { pc: o.cpu.pc, ..n.cpu }, ..n };
    &&& n.cpu.pc == pc_plus(o.cpu.pc, d.bytes as int)
    &&& memory_effect(d.op, o, k)
    &&& register_effect(d.op, o, k)
}

/// One instruction of a block after which the block runs on: the video
/// unit caught up from `o` to `mid`, no interrupt was due there, and `d`,
/// no control transfer, ran to `n`.
pub open spec fn block_step(o: State, mid: State, n: State, d: DecodedInst) -> bool {
    &&& caught_up_from(mid, o)
    &&& !interrupt_due(mid)
    &&& !is_transfer(d.op)
    &&& block_inst_effect(d, with_inst_cycles(mid, d), n)
}

/// How a block ends at instruction `d` from `o`: after the video unit caught
/// up (giving `mid`), a due interrupt stops it before `d` with the interrupt
/// recorded; otherwise `d` is a control transfer and runs.
pub open spec fn block_stop(o: State, mid: State, n: State, d: DecodedInst) -> bool {
    &&& caught_up_from(mid, o)
    &&& interrupt_due(mid) ==> n == interrupt_recorded(mid)
    &&& !interrupt_due(mid) ==> is_transfer(d.op) && ir_control_effect(d.op, with_inst_cycles(mid, d), n)
}

/// A run of the block `insts` from `o` to `n` through the consoles `sts`
/// between its instructions (`mids` after each catch-up): each instruction
/// but the last reached runs on as `block_step` says, and the run either
/// goes through every instruction or stops at the last one reached as
/// `block_stop` says.
pub open spec fn block_run(o: State, n: State, insts: Seq<DecodedInst>, sts: Seq<State>, mids: Seq<State>) -> bool {
    let k = sts.len() - 1;
    &&& 1 <= sts.len() <= insts.len() + 1
    &&& mids.len() == sts.len()
    &&& sts[0] == o
    &&& forall|j: int| 0 <= j < k ==> #[trigger] block_step(sts[j], mids[j], sts[j + 1], insts[j])
    &&& k == insts.len() ==> n == sts[k]
    &&& k < insts.len() ==> block_stop(sts[k], mids[k], n, insts[k])
}

/// Runs a decoded block from the program counter, one instruction at a
/// time: the video unit catches up first, a pending or requested interrupt
/// ends the block, and a control transfer ends it after setting the program
/// counter.
#[verifier::rlimit(100)]
#[verifier::spinoff_prover]
pub fn emulate_block(s: &mut State, block: &BasicBlock)
    requires
        old(s).wf(),
    ensures
        bus_step(*final(s), *old(s)),
        block.instructions@.len() == 0 ==> *final(s) == *old(s),
        block.instructions@.len() > 0 ==> exists|mid: State| #[trigger] block_first_step(
            *old(s), mid, *final(s), block.instructions@[0]),
        exists|sts: Seq<State>, mids: Seq<State>| #[trigger] block_run(
            *old(s), *final(s), block.instructions@, sts, mids),
{
    let ghost mut mid0 = *s;
    let ghost mut sts: Seq<State> = seq![*s];
    let ghost mut mids: Seq<State> = seq![*s];
    let ghost insts = block.instructions@;
    let mut i: usize = 0;
    while i < block.instructions.len()
        invariant_except_break
            i == 0 ==> *s == *old(s),
            sts.len() == i + 1,
            sts[i as int] == *s,
        invariant
            bus_step(*s, *old(s)),
            i <= block.instructions@.len(),
            insts == block.instructions@,
            i > 0 ==> caught_up_from(mid0, *old(s)) && !interrupt_due(mid0)
                && !is_transfer(block.instructions@[0].op),
            1 <= sts.len() <= i + 1,
            mids.len() == sts.len(),
            sts[0] == *old(s),
            forall|j: int| 0 <= j < sts.len() - 1 ==> #[trigger] block_step(sts[j], mids[j], sts[j + 1], insts[j]),
        ensures
            bus_step(*s, *old(s)),
            i <= block.instructions@.len(),
            i == 0 && block.instructions@.len() > 0 ==> block_first_step(*old(s), mid0, *s, block.instructions@[0]),
            i == 0 && block.instructions@.len() == 0 ==> *s == *old(s),
            i > 0 ==> caught_up_from(mid0, *old(s)) && !interrupt_due(mid0)
                && !is_transfer(block.instructions@[0].op),
            block_run(*old(s), *s, insts, sts, mids),
        decreases block.instructions.len() - i,
    {
        let decoded = block.instructions[i];
        crate::ppu::catch_up(s);
        proof {
            if i == 0 {
                mid0 = *s;
            }
            let ghost prev_mids = mids;
            mids = mids.update(i as int, *s);
            assert forall|j: int| 0 <= j < sts.len() - 1 implies #[trigger] block_step(sts[j], mids[j], sts[j + 1], insts[j]) by {
                assert(mids[j] == prev_mids[j]);
            }
        }
        let ghost mid = *s;
        if s.cpu.pending_interrupt != InterruptKind::NoInterrupt {
            proof {
                assert(*s == interrupt_recorded(mid));
                assert(block_stop(sts[i as int], mids[i as int], *s, insts[i as int]));
            }
            break;
        } else if (s.cpu.status & STATUS_I) == 0 && (s.mapper.check_irq() || s.apu.check_irq()) {
            s.cpu.pending_interrupt = InterruptKind::IRQ;
            proof {
                assert(*s == interrupt_recorded(mid));
                assert(block_stop(sts[i as int], mids[i as int], *s, insts[i as int]));
            }
            break;
        }
        s.cpu.cycles = s.cpu.cycles.wrapping_add(decoded.bytes as u64);
        let ghost o1 = *s;
        assert(o1 == with_inst_cycles(mid, decoded));
        if execute_control(s, decoded.op) {
            assert(block_first_step(*old(s), mid0, *s, block.instructions@[0]));
            proof {
                assert(block_stop(sts[i as int], mids[i as int], *s, insts[i as int]));
                assert(block_run(*old(s), *s, insts, sts, mids));
            }
            return;
        }
        execute_memory(s, decoded.op);
        execute_register(s, decoded.op);
        execute_undocumented(s, decoded.op);
        let ghost k = *s;
        s.cpu.pc = s.cpu.pc.wrapping_add(decoded.bytes as u16);
        proof {
            assert(k == State { cpu: CpuState { pc: o1.cpu.pc, ..s.cpu }, ..*s });
            assert(memory_effect(decoded.op, o1, k));
            assert(register_effect(decoded.op, o1, k));
            assert(block_step(sts[i as int], mids[i as int], *s, insts[i as int]));
            let ghost prev = sts;
            let ghost prev_mids = mids;
            sts = sts.push(*s);
            mids = mids.push(*s);
            assert forall|j: int| 0 <= j < sts.len() - 1 implies #[trigger] block_step(sts[j], mids[j], sts[j + 1], insts[j]) by {
                assert(mids[j] == prev_mids[j]);
                assert(sts[j] == prev[j]);
                if j < i {
                    assert(sts[j + 1] == prev[j + 1]);
                    assert(block_step(prev[j], prev_mids[j], prev[j + 1], insts[j]));
                }
            }
        }
        i += 1;
    }
    proof {
        if i > 0 {
            assert(block_first_step(*old(s), mid0, *s, block.instructions@[0]));
        }
        assert(block_run(*old(s), *s, block.instructions@, sts, mids));
    }
}

/// Whether `r` is the fingerprint of the three cartridge bytes at `addr`,
/// each as the board state left by the read before it answers.
pub open spec fn cart_bytes_fingerprint(r: u32, m0: AnyMapper, m1: AnyMapper, m2: AnyMapper, addr: u16) -> bool {
    r == m0.peek_value(addr) as u32 * 0x10000 + m1.peek_value((addr + 1) as u16) as u32 * 0x100
        + m2.peek_value((addr + 2) as u16) as u32
}

/// A fingerprint of the code at `addr`: for RAM and save RAM the three
/// bytes there (so rewritten code is decoded again), for ROM its offset in
/// program ROM (so a bank switch is noticed).
pub fn compute_fingerprint(s: &mut State, addr: u16) -> (r: u32)
    requires
        old(s).wf(),
    ensures
        bus_step(*final(s), *old(s)),
        crate::nes::same_registers(final(s).cpu, old(s).cpu),
        final(s).ram == old(s).ram,
        addr < 0x1FFE ==> r == (old(s).ram_at(addr) as u32) * 0x10000 + (old(s).ram_at((addr + 1) as u16) as u32) * 0x100
            + old(s).ram_at((addr + 2) as u16) as u32,
        addr >= 0x8000 ==> *final(s) == *old(s) && r == (match old(s).mapper.rom_offset(addr) {
            Some(o) => o,
            None => 0,
        }),
        addr < 0x8000 ==> r < 0x0100_0000 && r != SRAM_FINGERPRINT,
        0x4018 <= addr < 0x8000 ==> cart_bytes_fingerprint(r, old(s).mapper, old(s).mapper.after_read(addr),
            old(s).mapper.after_read(addr).after_read((addr + 1) as u16), addr),
{
    if addr < 0x8000 {
        let b0 = s.cpu_peek(addr) as u32;
        let ghost m1 = s.mapper;
        let b1 = s.cpu_peek(addr.wrapping_add(1)) as u32;
        let ghost m2 = s.mapper;
        let b2 = s.cpu_peek(addr.wrapping_add(2)) as u32;

        let r = (b0 << 16) | (b1 << 8) | b2;
        assert(r == b0 * 0x10000 + b1 * 0x100 + b2) by (bit_vector)
            requires r == (b0 << 16u32) | (b1 << 8u32) | b2, b0 < 256u32, b1 < 256u32, b2 < 256u32;
        proof {
            if 0x4018 <= addr < 0x8000 {
                assert(cart_bytes_fingerprint(r, old(s).mapper, m1, m2, addr));
            }
        }
        r
    } else {
        match s.mapper.get_prg_rom_offset(addr) {
            Some(o) => o,
            None => 0,
        }
    }
}


/// Whether a write through `mode` may reach a board register.
pub open spec fn far_mode(mode: AddrMode) -> bool {
    mode matches AddrMode::Absolute(_) || mode matches AddrMode::AbsoluteX(_) || mode matches AddrMode::AbsoluteY(_)
        || mode matches AddrMode::IndirectX(_) || mode matches AddrMode::IndirectY(_)
        || mode matches AddrMode::Indirect(_)
}

/// How a block ends at `op`, if it must.
pub open spec fn block_end(op: IrOp) -> Option<BlockEnd> {
    match op {
        IrOp::Bcc { .. } => Some(BlockEnd::Branch),
        IrOp::Bcs { .. } => Some(BlockEnd::Branch),
        IrOp::Beq { .. } => Some(BlockEnd::Branch),
        IrOp::Bne { .. } => Some(BlockEnd::Branch),
        IrOp::Bmi { .. } => Some(BlockEnd::Branch),
        IrOp::Bpl { .. } => Some(BlockEnd::Branch),
        IrOp::Bvc { .. } => Some(BlockEnd::Branch),
        IrOp::Bvs { .. } => Some(BlockEnd::Branch),
        IrOp::Jmp(_) => Some(BlockEnd::Jmp),
        IrOp::JmpIndirect(_) => Some(BlockEnd::JmpIndirect),
        IrOp::Jsr(_) => Some(BlockEnd::Jsr),
        IrOp::Rts => Some(BlockEnd::Rts),
        IrOp::Rti => Some(BlockEnd::Rti),
        IrOp::Brk => Some(BlockEnd::Brk),
        IrOp::Sei => Some(BlockEnd::Sei),
        IrOp::Cli => Some(BlockEnd::Cli),
        IrOp::Sta(mode) => if far_mode(mode) { Some(BlockEnd::MaxInstructions) } else { None },
        IrOp::Stx(mode) => if far_mode(mode) { Some(BlockEnd::MaxInstructions) } else { None },
        IrOp::Sty(mode) => if far_mode(mode) { Some(BlockEnd::MaxInstructions) } else { None },
        IrOp::Inc(mode) => if far_mode(mode) { Some(BlockEnd::MaxInstructions) } else { None },
        IrOp::Dec(mode) => if far_mode(mode) { Some(BlockEnd::MaxInstructions) } else { None },
        IrOp::Asl(mode) => if far_mode(mode) { Some(BlockEnd::MaxInstructions) } else { None },
        IrOp::Lsr(mode) => if far_mode(mode) { Some(BlockEnd::MaxInstructions) } else { None },
        IrOp::Rol(mode) => if far_mode(mode) { Some(BlockEnd::MaxInstructions) } else { None },
        IrOp::Ror(mode) => if far_mode(mode) { Some(BlockEnd::MaxInstructions) } else { None },
        _ => None,
    }
}

/// How a block ends at `op`, if it must: control transfers and interrupt
/// mask changes end it, and so do stores and read-modify-writes through
/// absolute or indirect addresses, which may switch banks.
pub fn block_end_of(op: IrOp) -> (r: Option<BlockEnd>)
    ensures
        r == block_end(op),
{
    match op {
        IrOp::Bcc { .. } | IrOp::Bcs { .. } | IrOp::Beq { .. } | IrOp::Bne { .. } | IrOp::Bmi { .. }
        | IrOp::Bpl { .. } | IrOp::Bvc { .. } | IrOp::Bvs { .. } => Some(BlockEnd::Branch),
        IrOp::Jmp(_) => Some(BlockEnd::Jmp),
        IrOp::JmpIndirect(_) => Some(BlockEnd::JmpIndirect),
        IrOp::Jsr(_) => Some(BlockEnd::Jsr),
        IrOp::Rts => Some(BlockEnd::Rts),
        IrOp::Rti => Some(BlockEnd::Rti),
        IrOp::Brk => Some(BlockEnd::Brk),
        IrOp::Sei => Some(BlockEnd::Sei),
        IrOp::Cli => Some(BlockEnd::Cli),
        IrOp::Sta(mode) | IrOp::Stx(mode) | IrOp::Sty(mode) | IrOp::Inc(mode) | IrOp::Dec(mode)
        | IrOp::Asl(mode) | IrOp::Lsr(mode) | IrOp::Rol(mode) | IrOp::Ror(mode) => match mode {
            AddrMode::Absolute(_) | AddrMode::AbsoluteX(_) | AddrMode::AbsoluteY(_) | AddrMode::IndirectX(_)
            | AddrMode::IndirectY(_) | AddrMode::Indirect(_) => Some(BlockEnd::MaxInstructions),
            _ => None,
        },
        _ => None,
    }
}

/// The longest block decoded from ROM.
pub const MAX_BLOCK_LEN: usize = 32;

/// Whether instruction `inst` is what `decode_opcode` makes of the code at
/// `a`, read from the console's memory `st`: the opcode there and the
/// operand bytes after it.
pub open spec fn decoded_at(st: State, a: u16, inst: DecodedInst) -> bool {
    let op = code_byte(st, a);
    let st1 = after_code_read(st, a);
    let a1 = pc_plus(a, 1);
    &&& inst.bytes == inst_bytes(op)
    &&& inst.op == decoded_op(op, code_byte(st1, a1), code_word(st1, a1), branch_target(a1, code_byte(st1, a1)))
}

/// The console's memory after the CPU decoded the instruction at `a` from
/// memory `st`: the opcode and the bytes that decoding it reads.
pub open spec fn after_decode(st: State, a: u16) -> State {
    code_reads(st, a, 1 + decode_reads(code_byte(st, a)))
}

/// Whether `insts` is the block decoded from memory `st` at `a`:
/// instruction `i` is decoded at `addrs[i]` from memory `sts[i]`, each one
/// starting where the previous one's bytes end and in the memory its reads
/// left, and only the last one may end a block.
pub open spec fn block_trace(st: State, a: u16, insts: Seq<DecodedInst>, sts: Seq<State>, addrs: Seq<u16>) -> bool {
    &&& sts.len() == insts.len() && addrs.len() == insts.len()
    &&& insts.len() > 0 ==> sts[0] == st && addrs[0] == a
    &&& forall|i: int| 0 <= i < insts.len() ==> #[trigger] decoded_at(sts[i], addrs[i], insts[i])
    &&& forall|i: int| 0 <= i < insts.len() - 1 ==> #[trigger] sts[i + 1] == after_decode(sts[i], addrs[i])
        && addrs[i + 1] == pc_plus(addrs[i], insts[i].bytes as int)
    &&& forall|i: int| 0 <= i < insts.len() - 1 ==> #[trigger] block_end(insts[i].op) is None
}

/// The start addresses for which every byte a block decode reads comes from
/// work RAM or the cartridge without wrapping: a work-RAM start (whose block
/// is one instruction) or a cartridge start well below the top of memory.
pub open spec fn block_start_readable(a: u16) -> bool {
    a < 0x1FFD || (0x4018 <= a && a < 0xFD00)
}

/// Reads from two consoles with the same work RAM and board agree.
proof fn lemma_same_memory(x: State, y: State, a: u16, k: int)
    requires
        x.ram == y.ram,
        x.mapper == y.mapper,
    ensures
        code_byte(x, a) == code_byte(y, a),
        code_word(x, a) == code_word(y, a),
        code_reads(x, a, k).mapper == code_reads(y, a, k).mapper,
        code_reads(x, a, k).ram == x.ram,
{
}

/// One step of a block decode: the opcode read at `a` from memory `mem`
/// (console `s0`), then `decode_opcode` from console `s1` with the program
/// counter after the opcode, gives the instruction `decoded_at` names, and
/// leaves the board as `after_decode` says.
proof fn lemma_block_decode_step(mem: State, s0: State, s1: State, s2: State, a: u16, opcode: u8, d: DecodedInst)
    requires
        s0.ram == mem.ram,
        s0.mapper == mem.mapper,
        code_addr(a),
        code_addr(pc_plus(a, 1)),
        code_addr(pc_plus(a, 2)),
        a < 0x2000 ==> opcode == s0.ram_at(a) && s1.mapper == s0.mapper,
        a >= 0x4018 ==> opcode == s0.mapper.peek_value(a) && s1.mapper == s0.mapper.after_read(a),
        s1.ram == s0.ram,
        s1.cpu.pc == pc_plus(a, 1),
        d.bytes == inst_bytes(opcode),
        operands_readable(s1) ==> d.op == decoded_op(opcode, code_byte(s1, s1.cpu.pc),
            code_word(s1, s1.cpu.pc), branch_target(s1.cpu.pc, code_byte(s1, s1.cpu.pc))),
        operands_readable(s1) ==> s2.mapper == code_reads(s1, s1.cpu.pc, decode_reads(opcode)).mapper,
        s2.ram == s1.ram,
    ensures
        decoded_at(mem, a, d),
        s2.mapper == after_decode(mem, a).mapper,
        s2.ram == mem.ram,
{
    let x = after_code_read(mem, a);
    assert(x.ram == s1.ram && x.mapper == s1.mapper);
    lemma_same_memory(x, s1, pc_plus(a, 1), decode_reads(opcode));
    assert(pc_plus(pc_plus(a, 1), 1) == pc_plus(a, 2));
    assert(pc_plus(pc_plus(a, 1), 2) == pc_plus(a, 3));
}

/// Pushing an instruction decoded where the trace's reads ended extends the
/// block trace.
proof fn lemma_block_trace_push(
    st: State,
    a: u16,
    insts: Seq<DecodedInst>,
    sts: Seq<State>,
    addrs: Seq<u16>,
    mem: State,
    cur: u16,
    d: DecodedInst,
)
    requires
        block_trace(st, a, insts, sts, addrs),
        insts.len() == 0 ==> mem == st && cur == a,
        insts.len() > 0 ==> mem == after_decode(sts.last(), addrs.last())
            && cur == pc_plus(addrs.last(), insts.last().bytes as int),
        decoded_at(mem, cur, d),
        forall|i: int| 0 <= i < insts.len() ==> #[trigger] block_end(insts[i].op) is None,
    ensures
        block_trace(st, a, insts.push(d), sts.push(mem), addrs.push(cur)),
{
    let insts2 = insts.push(d);
    let sts2 = sts.push(mem);
    let addrs2 = addrs.push(cur);
    assert forall|i: int| 0 <= i < insts2.len() implies #[trigger] decoded_at(sts2[i], addrs2[i], insts2[i]) by {
        if i < insts.len() {
            assert(decoded_at(sts[i], addrs[i], insts[i]));
        }
    }
    assert forall|i: int| 0 <= i < insts2.len() - 1 implies #[trigger] sts2[i + 1] == after_decode(sts2[i], addrs2[i])
        && addrs2[i + 1] == pc_plus(addrs2[i], insts2[i].bytes as int) by {
        if i < insts.len() - 1 {
            assert(sts[i + 1] == after_decode(sts[i], addrs[i]));
        }
    }
    assert forall|i: int| 0 <= i < insts2.len() - 1 implies #[trigger] block_end(insts2[i].op) is None by {
        assert(insts2[i] == insts[i]);
    }
}

/// Decodes the block that starts at `cpu_addr` and caches it under `fp`.
/// Code in RAM, and all code under precise timing, is decoded one
/// instruction at a time; a block also ends where it would cross into
/// another page.  Decoding reads memory but the CPU's cycle count and
/// program counter are put back.  An opcode that cannot be decoded (0xAB)
/// ends the block before it; when it is the first, nothing is cached and
/// the result is false.
#[verifier::rlimit(100)]
#[verifier::spinoff_prover]
pub fn decode_and_cache_block(s: &mut State, cpu_addr: u16, fp: u32) -> (r: bool)
    requires
        old(s).wf(),
    ensures
        final(s).wf(),
        final(s).mapper.id() == old(s).mapper.id(),
        crate::nes::same_registers(final(s).cpu, old(s).cpu),
        final(s).cpu.cycles == old(s).cpu.cycles,
        final(s).ram == old(s).ram,
        r ==> final(s).block_cache.holds(cpu_addr, fp),
        r ==> forall|a: u16| a != cpu_addr ==> #[trigger] final(s).block_cache.slots@.contains_key(a)
            == old(s).block_cache.slots@.contains_key(a) && (old(s).block_cache.slots@.contains_key(a)
            ==> final(s).block_cache.slots@[a] == old(s).block_cache.slots@[a]),
        !r ==> final(s).block_cache.slots@ == old(s).block_cache.slots@,
        cpu_addr < 0x2000 ==> (r <==> old(s).ram_at(cpu_addr) != 0xAB),
        cpu_addr >= 0x4018 ==> (r <==> old(s).mapper.peek_value(cpu_addr) != 0xAB),
        r ==> (final(s).block_cache.slots@[cpu_addr].block matches Some(b)
            && 1 <= b.instructions@.len() <= MAX_BLOCK_LEN
            && ((cpu_addr < 0x8000 || old(s).ppu.precise_timing) ==> b.instructions@.len() == 1)),
        r && block_start_readable(cpu_addr) ==> (final(s).block_cache.slots@[cpu_addr].block matches Some(b)
            && exists|sts: Seq<State>, addrs: Seq<u16>| #[trigger] block_trace(*old(s), cpu_addr, b.instructions@, sts, addrs)),
{
    let ghost mut sts: Seq<State> = Seq::empty();
    let ghost mut addrs: Seq<u16> = Seq::empty();
    let ghost mut mem: State = *old(s);
    let ghost mut started = false;
    let ghost mut first_ok = false;
    let saved_cycles = s.cpu.cycles;
    let saved_pc = s.cpu.pc;
    let mut instructions: Vec<DecodedInst> = Vec::with_capacity(16);
    let mut current_addr = cpu_addr;
    let mut end_type = BlockEnd::MaxInstructions;
    let is_ram = cpu_addr < 0x8000;
    let block_limit: usize = if s.ppu.precise_timing || is_ram { 1 } else { MAX_BLOCK_LEN };
    let mut n: usize = 0;
    while n < block_limit
        invariant_except_break
            started ==> instructions.len() > 0,
            instructions.len() == n,
            forall|i: int| 0 <= i < instructions@.len() ==> #[trigger] block_end(instructions@[i].op) is None,
            block_start_readable(cpu_addr) ==> s.mapper == mem.mapper
                && cpu_addr <= current_addr <= cpu_addr + 3 * instructions@.len(),
            block_start_readable(cpu_addr) && instructions@.len() > 0 ==> mem == after_decode(sts.last(), addrs.last())
                && current_addr == pc_plus(addrs.last(), instructions@.last().bytes as int),
        invariant
            n <= block_limit <= MAX_BLOCK_LEN,
            instructions.len() <= block_limit,
            block_limit == (if old(s).ppu.precise_timing || cpu_addr < 0x8000 { 1 } else { MAX_BLOCK_LEN }),
            instructions@.len() == 0 ==> mem == *old(s) && current_addr == cpu_addr,
            block_start_readable(cpu_addr) && cpu_addr < 0x2000 ==> block_limit == 1,
            block_start_readable(cpu_addr) ==> mem.ram == old(s).ram
                && block_trace(*old(s), cpu_addr, instructions@, sts, addrs),
            bus_step(*s, *old(s)),
            s.cpu.a == old(s).cpu.a && s.cpu.x == old(s).cpu.x && s.cpu.y == old(s).cpu.y,
            s.cpu.sp == old(s).cpu.sp && s.cpu.status == old(s).cpu.status,
            s.ram == old(s).ram,
            1 <= block_limit,
            !started ==> *s == *old(s) && current_addr == cpu_addr && instructions.len() == 0 && n == 0,
            n > 0 ==> started && instructions.len() > 0,
            started ==> (instructions.len() > 0 <==> first_ok),
            started && cpu_addr < 0x2000 ==> (first_ok <==> old(s).ram_at(cpu_addr) != 0xAB),
            started && cpu_addr >= 0x4018 ==> (first_ok <==> old(s).mapper.peek_value(cpu_addr) != 0xAB),
        ensures
            started,
            instructions.len() <= block_limit,
            block_start_readable(cpu_addr) ==> block_trace(*old(s), cpu_addr, instructions@, sts, addrs),
            instructions.len() > 0 <==> first_ok,
            cpu_addr < 0x2000 ==> (first_ok <==> old(s).ram_at(cpu_addr) != 0xAB),
            cpu_addr >= 0x4018 ==> (first_ok <==> old(s).mapper.peek_value(cpu_addr) != 0xAB),
        decreases block_limit - n,
    {
        let page_of_current = current_addr / 256;
        let ghost s0 = *s;
        let opcode = s.cpu_peek(current_addr);
        proof {
            if !started {
                started = true;
                first_ok = opcode != 0xAB;
            }
        }
        if opcode == 0xAB {
            break;
        }
        s.cpu.pc = current_addr.wrapping_add(1);
        let ghost s1 = *s;
        let decoded = decode_opcode(s, opcode);
        let next_addr = current_addr.wrapping_add(decoded.bytes as u16);
        let end = block_end_of(decoded.op);
        proof {
            if block_start_readable(cpu_addr) {
                lemma_block_decode_step(mem, s0, s1, *s, current_addr, opcode, decoded);
                lemma_block_trace_push(*old(s), cpu_addr, instructions@, sts, addrs, mem, current_addr, decoded);
                sts = sts.push(mem);
                addrs = addrs.push(current_addr);
                mem = after_decode(mem, current_addr);
            }
        }
        instructions.push(decoded);
        current_addr = next_addr;
        if instructions.len() > 1 {
            let page_of_next = next_addr / 256;
            if page_of_current != page_of_next {
                end_type = BlockEnd::PageBoundary;
                break;
            }
        }
        if let Some(e) = end {
            end_type = e;
            break;
        }
        n += 1;
    }
    s.cpu.cycles = saved_cycles;
    s.cpu.pc = saved_pc;
    if instructions.len() == 0 {
        return false;
    }
    let ghost insts = instructions@;
    let block = BasicBlock { instructions, end_type };
    let ghost gb = block;
    s.block_cache.insert(block, cpu_addr, fp);
    proof {
        if block_start_readable(cpu_addr) {
            assert(s.block_cache.slots@[cpu_addr].block == Some(gb));
            assert(gb.instructions@ == insts);
            assert(block_trace(*old(s), cpu_addr, gb.instructions@, sts, addrs));
        }
    }
    true
}

} // verus!
