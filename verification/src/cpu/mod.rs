//! The 6502 CPU: registers, interrupts, addressing and the interpreter.
use vstd::prelude::*;
use crate::save_state::{WriteState, ReadState, StateReader, StateError, u16_bytes, u64_bytes};
use crate::nes::{State, next_cycle};
use crate::mapper::Mapper;
use crate::cpu::bus::{bus_step, handle_interrupt};
use crate::cpu::ir::{compute_fingerprint, decode_and_cache_block, emulate_block, caught_up_from, interrupt_due};
use crate::cpu::interp::{execute, instruction_effect};

pub mod alu;
pub mod ir;
pub mod bus;
pub mod exec;
pub mod interp;

verus! {

/// The interrupt waiting to be taken before the next instruction.
#[derive(Debug, Clone, Copy, PartialEq, Eq, Structural)]
pub enum InterruptKind {
    NoInterrupt,
    Reset,
    IRQ,
    NMI,
}

pub open spec fn interrupt_tag(k: InterruptKind) -> u8 {
    match k {
        InterruptKind::NoInterrupt => 0,
        InterruptKind::Reset => 1,
        InterruptKind::IRQ => 2,
        InterruptKind::NMI => 3,
    }
}

impl WriteState for InterruptKind {
    open spec fn state_bytes(&self) -> Seq<u8> {
        seq![interrupt_tag(*self)]
    }

    fn write(&self, writer: &mut Vec<u8>) {
        let tag: u8 = match self {
            InterruptKind::NoInterrupt => 0,
            InterruptKind::Reset => 1,
            InterruptKind::IRQ => 2,
            InterruptKind::NMI => 3,
        };
        tag.write(writer);
    }
}

impl ReadState for InterruptKind {
    open spec fn parse(bytes: Seq<u8>) -> Option<(InterruptKind, nat)> {
        if bytes.len() >= 1 {
            if bytes[0] == 0 {
                Some((InterruptKind::NoInterrupt, 1))
            } else if bytes[0] == 1 {
                Some((InterruptKind::Reset, 1))
            } else if bytes[0] == 2 {
                Some((InterruptKind::IRQ, 1))
            } else if bytes[0] == 3 {
                Some((InterruptKind::NMI, 1))
            } else {
                None
            }
        } else {
            None
        }
    }

    fn read(reader: &mut StateReader) -> (res: Result<InterruptKind, StateError>) {
        let tag = u8::read(reader)?;
        match tag {
            0 => Ok(InterruptKind::NoInterrupt),
            1 => Ok(InterruptKind::Reset),
            2 => Ok(InterruptKind::IRQ),
            3 => Ok(InterruptKind::NMI),
            _ => Err(StateError::InvalidData),
        }
    }
}

/// Reading an interrupt kind back from what was written gives the same kind.
pub proof fn lemma_interrupt_kind_roundtrip(k: InterruptKind, rest: Seq<u8>)
    ensures
        <InterruptKind as ReadState>::parse(k.state_bytes() + rest) == Some((k, 1nat)),
{
    assert((k.state_bytes() + rest)[0] == interrupt_tag(k));
}

pub const STATUS_C: u8 = 1;
pub const STATUS_Z: u8 = 2;
pub const STATUS_I: u8 = 4;
pub const STATUS_D: u8 = 8;
pub const STATUS_UNUSED: u8 = 32;
pub const STATUS_V: u8 = 64;
pub const STATUS_N: u8 = 128;

/// The 6502 register file.
///
/// The packed status register (P) holds: bit 0 carry, bit 1 zero, bit 2
/// interrupt disable, bit 3 decimal, bit 4 break (only in pushed copies),
/// bit 5 always one, bit 6 overflow, bit 7 negative.
#[derive(Clone, Copy)]
pub struct CpuState {
    pub a: u8,
    pub x: u8,
    pub y: u8,
    pub pc: u16,
    pub sp: u8,
    pub status: u8,
    pub pending_interrupt: InterruptKind,
    pub cycles: u64,
}

impl CpuState {
    /// The power-on register values: stack pointer 0xFD, interrupts disabled.
    pub open spec fn initial() -> CpuState {
        CpuState {
            a: 0,
            x: 0,
            y: 0,
            pc: 0,
            sp: 0xFD,
            cycles: 0,
            status: STATUS_I | STATUS_UNUSED,
            pending_interrupt: InterruptKind::NoInterrupt,
        }
    }

    pub fn new() -> (c: CpuState)
        ensures
            c == CpuState::initial(),
            c.a == 0 && c.x == 0 && c.y == 0 && c.pc == 0,
            c.sp == 0xFD,
            c.cycles == 0,
            c.status == STATUS_I | STATUS_UNUSED,
            c.pending_interrupt == InterruptKind::NoInterrupt,
    {
        CpuState {
            a: 0,
            x: 0,
            y: 0,
            pc: 0,
            sp: 0xFD,
            cycles: 0,
            status: STATUS_I | STATUS_UNUSED,
            pending_interrupt: InterruptKind::NoInterrupt,
        }
    }
}

impl WriteState for CpuState {
    open spec fn state_bytes(&self) -> Seq<u8> {
        seq![self.a] + seq![self.x] + seq![self.y] + u16_bytes(self.pc) + seq![self.sp]
            + seq![self.status] + seq![interrupt_tag(self.pending_interrupt)] + u64_bytes(self.cycles)
    }

    fn write(&self, writer: &mut Vec<u8>) {
        self.a.write(writer);
        self.x.write(writer);
        self.y.write(writer);
        self.pc.write(writer);
        self.sp.write(writer);
        self.status.write(writer);
        self.pending_interrupt.write(writer);
        self.cycles.write(writer);
        assert(writer@ =~= old(writer)@ + self.state_bytes());
    }
}

pub open spec fn interrupt_from_tag(t: u8) -> Option<InterruptKind> {
    if t == 0 {
        Some(InterruptKind::NoInterrupt)
    } else if t == 1 {
        Some(InterruptKind::Reset)
    } else if t == 2 {
        Some(InterruptKind::IRQ)
    } else if t == 3 {
        Some(InterruptKind::NMI)
    } else {
        None
    }
}

impl ReadState for CpuState {
    /// Sixteen bytes: a, x, y, pc (2), sp, status, interrupt tag, cycles (8).
    open spec fn parse(bytes: Seq<u8>) -> Option<(CpuState, nat)> {
        if bytes.len() >= 16 {
            match interrupt_from_tag(bytes[7]) {
                Some(k) => Some((CpuState {
                    a: bytes[0],
                    x: bytes[1],
                    y: bytes[2],
                    pc: vstd::bytes::spec_u16_from_le_bytes(bytes.subrange(3, 5)),
                    sp: bytes[5],
                    status: bytes[6],
                    pending_interrupt: k,
                    cycles: vstd::bytes::spec_u64_from_le_bytes(bytes.subrange(8, 16)),
                }, 16)),
                None => None,
            }
        } else {
            None
        }
    }

    fn read(reader: &mut StateReader) -> (res: Result<CpuState, StateError>) {
        let ghost r0 = reader.rest();
        let a = u8::read(reader)?;
        assert(reader.rest() =~= r0.skip(1));
        let x = u8::read(reader)?;
        assert(reader.rest() =~= r0.skip(2));
        let y = u8::read(reader)?;
        assert(reader.rest() =~= r0.skip(3));
        let pc = u16::read(reader)?;
        assert(reader.rest() =~= r0.skip(5));
        assert(r0.skip(3).take(2) =~= r0.subrange(3, 5));
        let sp = u8::read(reader)?;
        assert(reader.rest() =~= r0.skip(6));
        let status = u8::read(reader)?;
        assert(reader.rest() =~= r0.skip(7));
        let pending_interrupt = InterruptKind::read(reader)?;
        assert(reader.rest() =~= r0.skip(8));
        let cycles = u64::read(reader)?;
        assert(r0.skip(8).take(8) =~= r0.subrange(8, 16));
        Ok(CpuState { a, x, y, pc, sp, status, pending_interrupt, cycles })
    }
}

/// Reading a register file back from what was written gives the same registers.
pub proof fn lemma_cpu_state_roundtrip(c: CpuState, rest: Seq<u8>)
    ensures
        <CpuState as ReadState>::parse(c.state_bytes() + rest) == Some((c, 16nat)),
{
    vstd::bytes::lemma_auto_spec_u16_to_from_le_bytes();
    vstd::bytes::lemma_auto_spec_u64_to_from_le_bytes();
    let b = c.state_bytes() + rest;
    assert(u16_bytes(c.pc).len() == 2);
    assert(u64_bytes(c.cycles).len() == 8);
    assert(b.subrange(3, 5) =~= u16_bytes(c.pc));
    assert(b.subrange(8, 16) =~= u64_bytes(c.cycles));
    assert(b[7] == interrupt_tag(c.pending_interrupt));
}


/// What `emulate` reports: the CPU cycles that ran.
pub open spec fn cycles_run(new: State, start: u64) -> u64 {
    ((new.cpu.cycles - start) % 0x1_0000_0000_0000_0000) as u64
}

/// Takes a pending interrupt, or raises and takes an IRQ when interrupts
/// are enabled and the board or the audio unit asserts one.  Returns
/// whether an interrupt was taken.
fn poll_interrupts(s: &mut State) -> (taken: bool)
    requires
        old(s).wf(),
    ensures
        bus_step(*final(s), *old(s)),
        taken == (old(s).cpu.pending_interrupt != InterruptKind::NoInterrupt
            || (old(s).cpu.status & STATUS_I == 0 && (old(s).mapper.irq_line() || old(s).apu.irq_pending))),
        !taken ==> *final(s) == *old(s),
        taken ==> final(s).cpu.pending_interrupt == InterruptKind::NoInterrupt
            && final(s).cpu.status == old(s).cpu.status | STATUS_I
            && final(s).cpu.sp == old(s).cpu.sp.wrapping_sub(3),
{
    if s.cpu.pending_interrupt != InterruptKind::NoInterrupt {
        handle_interrupt(s);
        true
    } else if (s.cpu.status & STATUS_I) == 0 && (s.mapper.check_irq() || s.apu.check_irq()) {
        s.cpu.pending_interrupt = InterruptKind::IRQ;
        handle_interrupt(s);
        true
    } else {
        false
    }
}

/// The console after the opcode fetch from work RAM: one cycle on and the
/// program counter past the opcode.
pub open spec fn opcode_fetched(s: State) -> State {
    State {
        cpu: CpuState { pc: crate::cpu::bus::pc_plus(s.cpu.pc, 1), cycles: next_cycle(s.cpu.cycles), ..s.cpu },
        ..s
    }
}

/// Fetches the opcode at the program counter and executes it.
pub fn step_instruction(s: &mut State)
    requires
        old(s).wf(),
    ensures
        bus_step(*final(s), *old(s)),
        old(s).cpu.pc < 0x2000 ==> instruction_effect(old(s).ram_at(old(s).cpu.pc), opcode_fetched(*old(s)), *final(s)),
{
    let pc = s.cpu.pc;
    let opcode = s.cpu_peek(pc);
    s.cpu.pc = pc.wrapping_add(1);
    execute(s, opcode);
}

/// Runs the CPU for at least `min_cycles` cycles, through the block cache,
/// and returns how many ran.
pub fn emulate(s: &mut State, min_cycles: u64) -> (r: u64)
    requires
        old(s).wf(),
    ensures
        bus_step_loose(*final(s), *old(s)),
        r == cycles_run(*final(s), old(s).cpu.cycles),
        min_cycles == 0 ==> *final(s) == *old(s) && r == 0,
{
    emulate_cached(s, min_cycles)
}

/// The console stays well formed and its board keeps its kind.
pub open spec fn bus_step_loose(new: State, old: State) -> bool {
    &&& new.wf()
    &&& new.mapper.id() == old.mapper.id()
}

/// Runs the CPU through decoded blocks: before each block the video unit
/// catches up and interrupts are taken; a block is decoded and cached when
/// none is cached for the program counter under the current fingerprint.
/// The loop also stops after `min_cycles` rounds, which, since every round
/// takes at least one cycle, never comes before the cycle target.
pub fn emulate_cached(s: &mut State, min_cycles: u64) -> (r: u64)
    requires
        old(s).wf(),
    ensures
        bus_step_loose(*final(s), *old(s)),
        r == cycles_run(*final(s), old(s).cpu.cycles),
        min_cycles == 0 ==> *final(s) == *old(s) && r == 0,
{
    let start_cycles = s.cpu.cycles;
    let end_cycles = start_cycles.saturating_add(min_cycles);
    let mut rounds = min_cycles;
    while s.cpu.cycles < end_cycles && rounds > 0
        invariant
            bus_step_loose(*s, *old(s)),
            start_cycles == old(s).cpu.cycles,
            rounds <= min_cycles,
            rounds == min_cycles ==> *s == *old(s),
        decreases rounds,
    {
        rounds = rounds - 1;
        crate::ppu::catch_up(s);
        if poll_interrupts(s) {
            continue;
        }
        let cpu_addr = s.cpu.pc;
        let fp = compute_fingerprint(s, cpu_addr);
        let hit = s.block_cache.validate(cpu_addr, fp);
        if !hit {
            if !decode_and_cache_block(s, cpu_addr, fp) {
                step_instruction(s);
                continue;
            }
        }
        match s.block_cache.slots.remove(&cpu_addr) {
            Some(slot) => {
                match slot.block {
                    Some(block) => {
                        emulate_block(s, &block);
                        s.block_cache.insert(block, cpu_addr, slot.rom_fingerprint);
                    },
                    None => {},
                }
            },
            None => {},
        }
    }
    s.cpu.cycles.wrapping_sub(start_cycles)
}

/// One round of the interpreter from `o` to `n`: the video unit catches up
/// (giving `mid`); when no interrupt is due there and the program counter
/// is in work RAM, the instruction there runs as `instruction_effect`
/// says.
pub open spec fn interpreter_round(o: State, mid: State, n: State) -> bool {
    &&& caught_up_from(mid, o)
    &&& !interrupt_due(mid) && mid.cpu.pc < 0x2000 ==> instruction_effect(
        mid.ram_at(mid.cpu.pc), opcode_fetched(mid), n)
}

/// Runs the CPU one instruction at a time for at least `min_cycles`
/// cycles: before each instruction the video unit catches up and
/// interrupts are taken.  Returns how many cycles ran.  As in
/// `emulate_cached`, the loop also stops after `min_cycles` rounds.
pub fn emulate_interpreter(s: &mut State, min_cycles: u64) -> (r: u64)
    requires
        old(s).wf(),
    ensures
        bus_step_loose(*final(s), *old(s)),
        r == cycles_run(*final(s), old(s).cpu.cycles),
        min_cycles == 0 ==> *final(s) == *old(s),
        min_cycles == 1 && old(s).cpu.cycles < u64::MAX ==> exists|mid: State| #[trigger] interpreter_round(
            *old(s), mid, *final(s)),
{
    let ghost mut mid0 = *s;
    let start_cycles = s.cpu.cycles;
    let end_cycles = start_cycles.saturating_add(min_cycles);
    let mut rounds = min_cycles;
    while s.cpu.cycles < end_cycles && rounds > 0
        invariant
            bus_step_loose(*s, *old(s)),
            start_cycles == old(s).cpu.cycles,
            end_cycles == start_cycles.saturating_add(min_cycles),
            rounds <= min_cycles,
            rounds == min_cycles ==> *s == *old(s),
            min_cycles == 1 && rounds == 0 ==> interpreter_round(*old(s), mid0, *s),
        decreases rounds,
    {
        rounds = rounds - 1;
        crate::ppu::catch_up(s);
        proof { mid0 = *s; }
        poll_interrupts(s);
        step_instruction(s);
        proof {
            if min_cycles == 1 {
                assert(interpreter_round(*old(s), mid0, *s));
            }
        }
    }
    s.cpu.cycles.wrapping_sub(start_cycles)
}

} // verus!
