//! The audio processing unit: the frame sequencer and the two square-wave
//! channels.  Each APU cycle records the channels' summed output level;
//! turning levels into samples is left to the front end.
use vstd::prelude::*;
use crate::save_state::{word_fits, word_value, byte_fits, flag_fits, vec_fits, vec_len};
use crate::apu::pulse::pulse_fits;
use crate::bits::{lemma_byte_fields, lemma_parity};
use crate::cpu::InterruptKind;
use crate::nes::{State, same_registers};
use crate::apu::pulse::{Pulse, pulse_bytes, quarter_clocked, half_clocked, pulse_poked};
use crate::save_state::{
    WriteState, StateReader, StateError, bool_bytes, u64_bytes, usize_bytes, vec_bytes, write_byte_vec,
    read_byte_vec_exact, read_bool_strict, read_u64_le, read_usize_at_most, read_u8_at_most,
};

pub mod pulse;

verus! {

/// CPU cycles between two frame-sequencer steps.
pub const FRAME_INTERVAL: u64 = 7457;

/// Output samples per video frame.
pub const AUDIO_SAMPLES_PER_FRAME: usize = 735;

/// Room for the per-cycle levels of one frame and more.
pub const FULL_AUDIO_BUFFER_LEN: usize = 29400;

pub struct ApuState {
    /// The summed channel level of every APU cycle of this frame.
    pub full_audio_buffer: Vec<u8>,
    pub audio_index: usize,
    /// CPU cycles emulated in this frame.
    pub frame_cycle_counter: usize,
    /// The CPU cycle that the unit has been emulated up to.
    pub last_cpu_cycle: u64,
    pub cpu_cycles: u64,
    pub sequence_counter: u64,
    pub next_seq_phase: usize,
    pub sequencer_mode: u8,
    pub irq_enabled: bool,
    pub irq_pending: bool,
    pub pulse1: Pulse,
    pub pulse2: Pulse,
}

impl ApuState {
    pub open spec fn wf(&self) -> bool {
        &&& self.pulse1.wf()
        &&& self.pulse2.wf()
        &&& 1 <= self.sequence_counter <= FRAME_INTERVAL
        &&& self.sequencer_mode <= 1
        &&& self.next_seq_phase < 4 + self.sequencer_mode
        &&& self.full_audio_buffer@.len() == FULL_AUDIO_BUFFER_LEN
        &&& self.audio_index <= FULL_AUDIO_BUFFER_LEN
    }

    pub fn new() -> (a: ApuState)
        ensures
            a.wf(),
            a.audio_index == 0,
            a.sequence_counter == FRAME_INTERVAL,
            a.next_seq_phase == 0,
            a.sequencer_mode == 0,
            !a.irq_enabled && !a.irq_pending,
            a.last_cpu_cycle == 0,
    {
        ApuState {
            full_audio_buffer: vec![0u8; FULL_AUDIO_BUFFER_LEN],
            audio_index: 0,
            frame_cycle_counter: 0,
            last_cpu_cycle: 0,
            cpu_cycles: 0,
            sequence_counter: FRAME_INTERVAL,
            next_seq_phase: 0,
            sequencer_mode: 0,
            irq_enabled: false,
            irq_pending: false,
            pulse1: Pulse::new_pulse1(),
            pulse2: Pulse::new_pulse2(),
        }
    }

    /// Whether the frame sequencer's interrupt is pending.
    pub fn check_irq(&self) -> (r: bool)
        ensures
            r == self.irq_pending,
    {
        self.irq_pending
    }

    /// The status byte at 0x4015: which channels still sound, and the
    /// frame interrupt flag.
    pub open spec fn status_byte(&self) -> u8 {
        ((if self.pulse1.length_counter > 0 { 1u8 } else { 0u8 })
            | (if self.pulse2.length_counter > 0 { 2u8 } else { 0u8 })
            | (if self.irq_pending { 0x40u8 } else { 0u8 })) as u8
    }
}

/// What an audio step leaves alone besides the CPU's pending interrupt.
pub open spec fn apu_step(new: State, old: State) -> bool {
    &&& same_registers(new.cpu, old.cpu)
    &&& new.cpu.cycles == old.cpu.cycles
    &&& new.ppu == old.ppu
    &&& new.mapper == old.mapper
    &&& new.ram == old.ram
    &&& new.controller1 == old.controller1
    &&& new.controller2 == old.controller2
    &&& new.block_cache.slots@ == old.block_cache.slots@
}

/// Starts a new frame of recorded levels.
pub fn start_frame(s: &mut State)
    requires
        old(s).wf(),
    ensures
        final(s).wf(),
        final(s).apu.audio_index == 0,
        final(s).apu.frame_cycle_counter == 0,
        apu_step(*final(s), *old(s)),
        final(s).cpu.pending_interrupt == old(s).cpu.pending_interrupt,
{
    s.apu.frame_cycle_counter = 0;
    s.apu.audio_index = 0;
}

/// Brings the unit up to the CPU's cycle and reports how many levels this
/// frame has recorded.
pub fn complete_frame(s: &mut State) -> (n: usize)
    requires
        old(s).wf(),
    ensures
        final(s).wf(),
        n == final(s).apu.audio_index,
        final(s).apu.last_cpu_cycle == final(s).cpu.cycles,
        apu_step(*final(s), *old(s)),
{
    catch_up(s);
    s.apu.audio_index
}

/// The CPU cycles that the audio unit is behind.
pub open spec fn audio_cycles_behind(s: State) -> int {
    (s.cpu.cycles - s.apu.last_cpu_cycle) % 0x1_0000_0000_0000_0000
}

/// Runs the unit for the CPU cycles since it last ran.
pub fn catch_up(s: &mut State)
    requires
        old(s).wf(),
    ensures
        final(s).wf(),
        final(s).apu.last_cpu_cycle == final(s).cpu.cycles,
        apu_step(*final(s), *old(s)),
        final(s).apu.irq_pending == old(s).apu.irq_pending,
        final(s).apu.irq_enabled == old(s).apu.irq_enabled,
        final(s).apu.sequencer_mode == old(s).apu.sequencer_mode,
        final(s).apu.cpu_cycles == (old(s).apu.cpu_cycles + audio_cycles_behind(*old(s))) % 0x1_0000_0000_0000_0000,
        final(s).apu.frame_cycle_counter as int == (if old(s).apu.frame_cycle_counter + audio_cycles_behind(*old(s))
            <= usize::MAX {
            old(s).apu.frame_cycle_counter + audio_cycles_behind(*old(s))
        } else {
            final(s).apu.frame_cycle_counter as int
        }),
        frame_irq_ok(final(s).cpu.pending_interrupt, old(s).cpu.pending_interrupt, old(s).apu),
        old(s).apu.last_cpu_cycle == old(s).cpu.cycles ==> *final(s) == *old(s),
{
    let cpu_cycles = s.cpu.cycles.wrapping_sub(s.apu.last_cpu_cycle);
    emulate(s, cpu_cycles);
}

/// The recording position after the CPU cycles `c0 + 1` to `c0 + n`: one
/// level is recorded on each odd cycle until the frame's buffer is full.
pub open spec fn levels_recorded(index: usize, c0: int, n: int) -> usize {
    let odd = (c0 + n + 1) / 2 - (c0 + 1) / 2;
    if index + odd <= FULL_AUDIO_BUFFER_LEN { (index + odd) as usize } else { FULL_AUDIO_BUFFER_LEN as usize }
}

/// Whether the audio unit left the CPU's pending interrupt `old` alone or
/// raised the frame interrupt, which it does only with the interrupt
/// enabled in the four-step sequence.
pub open spec fn frame_irq_ok(new: InterruptKind, old: InterruptKind, a: ApuState) -> bool {
    new == old || (new == InterruptKind::IRQ && a.irq_enabled && a.sequencer_mode == 0)
}

/// One CPU cycle of the unit: the frame sequencer steps, and on odd
/// cycles the channels are clocked and their level is recorded while the
/// frame's buffer has room.
fn apu_cycle(s: &mut State)
    requires
        old(s).wf(),
    ensures
        final(s).wf(),
        final(s).apu.last_cpu_cycle == old(s).apu.last_cpu_cycle,
        final(s).apu.cpu_cycles == (old(s).apu.cpu_cycles + 1) % 0x1_0000_0000_0000_0000,
        old(s).apu.frame_cycle_counter < usize::MAX ==> final(s).apu.frame_cycle_counter
            == old(s).apu.frame_cycle_counter + 1,
        apu_step(*final(s), *old(s)),
        final(s).apu.irq_pending == old(s).apu.irq_pending,
        final(s).apu.irq_enabled == old(s).apu.irq_enabled,
        final(s).apu.sequencer_mode == old(s).apu.sequencer_mode,
        final(s).apu.audio_index == (if final(s).apu.cpu_cycles % 2 == 1 && old(s).apu.audio_index < FULL_AUDIO_BUFFER_LEN {
            old(s).apu.audio_index + 1
        } else {
            old(s).apu.audio_index as int
        }),
        forall|k: int| 0 <= k < old(s).apu.audio_index ==> #[trigger] final(s).apu.full_audio_buffer@[k]
            == old(s).apu.full_audio_buffer@[k],
        frame_irq_ok(final(s).cpu.pending_interrupt, old(s).cpu.pending_interrupt, old(s).apu),
{
    let counter = s.apu.sequence_counter - 1;
    if counter != 0 {
        s.apu.sequence_counter = counter;
    } else {
        let phase = s.apu.next_seq_phase;
        if phase == 0 || phase == 2 {
            handle_frame_quarter(s);
        } else if phase == 1 || phase == 4 {
            handle_frame_quarter(s);
            handle_frame_half(s);
        } else if s.apu.sequencer_mode == 0 {
            handle_frame_quarter(s);
            handle_frame_half(s);
            if s.apu.irq_enabled {
                s.cpu.pending_interrupt = InterruptKind::IRQ;
            }
        }
        let period = 4 + (s.apu.sequencer_mode as usize);
        s.apu.next_seq_phase = (s.apu.next_seq_phase + 1) % period;
        s.apu.sequence_counter = FRAME_INTERVAL;
    }
    s.apu.frame_cycle_counter = s.apu.frame_cycle_counter.wrapping_add(1);
    s.apu.cpu_cycles = s.apu.cpu_cycles.wrapping_add(1);
    proof { lemma_parity(s.apu.cpu_cycles); }
    if s.apu.cpu_cycles & 0x1 == 1 {
        s.apu.pulse1.clock();
        s.apu.pulse2.clock();
        let level = s.apu.pulse1.output() + s.apu.pulse2.output();
        if s.apu.audio_index < s.apu.full_audio_buffer.len() {
            let idx = s.apu.audio_index;
            s.apu.full_audio_buffer.set(idx, level);
            s.apu.audio_index = idx + 1;
        }
    }
}

/// Runs the unit for `cycles` CPU cycles: the frame sequencer every cycle,
/// the channels every other one.  A level that no longer fits in this
/// frame's buffer is dropped.
pub fn emulate(s: &mut State, cycles: u64)
    requires
        old(s).wf(),
    ensures
        final(s).wf(),
        final(s).apu.last_cpu_cycle == old(s).cpu.cycles,
        final(s).apu.cpu_cycles == (old(s).apu.cpu_cycles + cycles) % 0x1_0000_0000_0000_0000,
        apu_step(*final(s), *old(s)),
        final(s).apu.irq_pending == old(s).apu.irq_pending,
        final(s).apu.irq_enabled == old(s).apu.irq_enabled,
        final(s).apu.sequencer_mode == old(s).apu.sequencer_mode,
        old(s).apu.audio_index <= final(s).apu.audio_index,
        old(s).apu.frame_cycle_counter + cycles <= usize::MAX ==> final(s).apu.frame_cycle_counter
            == old(s).apu.frame_cycle_counter + cycles,
        old(s).apu.cpu_cycles + cycles < 0x1_0000_0000_0000_0000 ==> final(s).apu.audio_index == levels_recorded(
            old(s).apu.audio_index, old(s).apu.cpu_cycles as int, cycles as int),
        forall|k: int| 0 <= k < old(s).apu.audio_index ==> #[trigger] final(s).apu.full_audio_buffer@[k]
            == old(s).apu.full_audio_buffer@[k],
        frame_irq_ok(final(s).cpu.pending_interrupt, old(s).cpu.pending_interrupt, old(s).apu),
        cycles == 0 ==> *final(s) == (State {
            apu: ApuState { last_cpu_cycle: old(s).cpu.cycles, ..old(s).apu },
            ..*old(s)
        }),
{
    s.apu.last_cpu_cycle = s.cpu.cycles;
    let mut i: u64 = 0;
    while i < cycles
        invariant
            s.wf(),
            i <= cycles,
            s.apu.last_cpu_cycle == old(s).cpu.cycles,
            s.apu.cpu_cycles == (old(s).apu.cpu_cycles + i) % 0x1_0000_0000_0000_0000,
            apu_step(*s, *old(s)),
            s.apu.irq_pending == old(s).apu.irq_pending,
            s.apu.irq_enabled == old(s).apu.irq_enabled,
            s.apu.sequencer_mode == old(s).apu.sequencer_mode,
            old(s).apu.audio_index <= s.apu.audio_index,
            old(s).apu.frame_cycle_counter + cycles <= usize::MAX ==> s.apu.frame_cycle_counter
                == old(s).apu.frame_cycle_counter + i,
            s.apu.full_audio_buffer@.len() == old(s).apu.full_audio_buffer@.len(),
            old(s).apu.cpu_cycles + cycles < 0x1_0000_0000_0000_0000 ==> s.apu.audio_index == levels_recorded(
                old(s).apu.audio_index, old(s).apu.cpu_cycles as int, i as int),
            forall|k: int| 0 <= k < old(s).apu.audio_index ==> #[trigger] s.apu.full_audio_buffer@[k]
                == old(s).apu.full_audio_buffer@[k],
            frame_irq_ok(s.cpu.pending_interrupt, old(s).cpu.pending_interrupt, old(s).apu),
            i == 0 ==> *s == (State { apu: ApuState { last_cpu_cycle: old(s).cpu.cycles, ..old(s).apu }, ..*old(s) }),
        decreases cycles - i,
    {
        apu_cycle(s);
        i = i + 1;
    }
}

/// The envelope step of every channel.
fn handle_frame_quarter(s: &mut State)
    requires
        old(s).wf(),
    ensures
        final(s).wf(),
        apu_step(*final(s), *old(s)),
        final(s).cpu.pending_interrupt == old(s).cpu.pending_interrupt,
        final(s).apu == (ApuState { pulse1: final(s).apu.pulse1, pulse2: final(s).apu.pulse2, ..old(s).apu }),
        final(s).apu.pulse1 == quarter_clocked(old(s).apu.pulse1),
        final(s).apu.pulse2 == quarter_clocked(old(s).apu.pulse2),
{
    s.apu.pulse1.clock_frame_quarter();
    s.apu.pulse2.clock_frame_quarter();
}

/// The sweep and length step of every channel.
fn handle_frame_half(s: &mut State)
    requires
        old(s).wf(),
    ensures
        final(s).wf(),
        apu_step(*final(s), *old(s)),
        final(s).cpu.pending_interrupt == old(s).cpu.pending_interrupt,
        final(s).apu == (ApuState { pulse1: final(s).apu.pulse1, pulse2: final(s).apu.pulse2, ..old(s).apu }),
        final(s).apu.pulse1 == half_clocked(old(s).apu.pulse1),
        final(s).apu.pulse2 == half_clocked(old(s).apu.pulse2),
{
    s.apu.pulse1.clock_frame_half();
    s.apu.pulse2.clock_frame_half();
}

/// A CPU read of an audio register: only 0x4015, the status register,
/// answers, and reading it clears the frame interrupt flag.
pub fn peek_register(s: &mut State, register: u16) -> (r: u8)
    requires
        old(s).wf(),
    ensures
        final(s).wf(),
        apu_step(*final(s), *old(s)),
        final(s).apu.last_cpu_cycle == final(s).cpu.cycles,
        register == 0x4015 ==> r == (ApuState { irq_pending: old(s).apu.irq_pending, ..final(s).apu }).status_byte()
            && !final(s).apu.irq_pending,
        register != 0x4015 ==> r == 0 && final(s).apu.irq_pending == old(s).apu.irq_pending,
{
    catch_up(s);
    if register == 0x4015 {
        let val = (if s.apu.pulse1.is_enabled() { 1u8 } else { 0u8 })
            | (if s.apu.pulse2.is_enabled() { 2u8 } else { 0u8 })
            | (if s.apu.irq_pending { 0x40u8 } else { 0u8 });
        s.apu.irq_pending = false;
        val
    } else {
        0
    }
}

/// A CPU write to an audio register.  The square channels sit at
/// 0x4000-0x4007, their enable bits at 0x4015 and the frame sequencer at
/// 0x4017.
pub fn poke_register(s: &mut State, register: u16, data: u8)
    requires
        old(s).wf(),
    ensures
        final(s).wf(),
        apu_step(*final(s), *old(s)),
        final(s).apu.last_cpu_cycle == final(s).cpu.cycles,
        register == 0x4017 ==> {
            &&& final(s).apu.sequencer_mode == data >> 7
            &&& final(s).apu.irq_enabled == (data & 0x40 == 0)
            &&& final(s).apu.next_seq_phase == 0
            &&& final(s).apu.sequence_counter == FRAME_INTERVAL
            &&& final(s).apu.irq_pending == (old(s).apu.irq_pending && data & 0x40 == 0)
        },
        register == 0x4015 ==> final(s).apu.pulse1.enabled == (data & 1 != 0)
            && final(s).apu.pulse2.enabled == (data & 2 != 0),
        register != 0x4017 ==> final(s).apu.irq_pending == old(s).apu.irq_pending
            && final(s).apu.sequencer_mode == old(s).apu.sequencer_mode,
        old(s).apu.last_cpu_cycle == old(s).cpu.cycles && 0x4000 <= register <= 0x4003
            ==> final(s).apu.pulse1 == pulse_poked(old(s).apu.pulse1, register, data)
            && final(s).apu.pulse2 == old(s).apu.pulse2,
        old(s).apu.last_cpu_cycle == old(s).cpu.cycles && 0x4004 <= register <= 0x4007
            ==> final(s).apu.pulse2 == pulse_poked(old(s).apu.pulse2, register, data)
            && final(s).apu.pulse1 == old(s).apu.pulse1,
{
    catch_up(s);
    if 0x4000 <= register && register <= 0x4003 {
        s.apu.pulse1.poke_register(register, data);
    } else if 0x4004 <= register && register <= 0x4007 {
        s.apu.pulse2.poke_register(register, data);
    } else if register == 0x4015 {
        s.apu.pulse1.set_enable_flag((data & 0b0000_0001) != 0);
        s.apu.pulse2.set_enable_flag((data & 0b0000_0010) != 0);
    } else if register == 0x4017 {
        s.apu.sequencer_mode = (data & 0b1000_0000) >> 7;
        proof { lemma_byte_fields(data); }
        s.apu.irq_enabled = (data & 0b0100_0000) == 0;
        s.apu.next_seq_phase = 0;
        s.apu.sequence_counter = FRAME_INTERVAL;
        if !s.apu.irq_enabled {
            s.apu.irq_pending = false;
        }
    }
}

/// The sequencer and bookkeeping registers of a save state.
pub open spec fn apu_regs_bytes(a: ApuState) -> Seq<u8> {
    usize_bytes(a.audio_index) + usize_bytes(a.frame_cycle_counter) + u64_bytes(a.last_cpu_cycle)
        + u64_bytes(a.cpu_cycles) + u64_bytes(a.sequence_counter) + usize_bytes(a.next_seq_phase)
        + seq![a.sequencer_mode] + bool_bytes(a.irq_enabled) + bool_bytes(a.irq_pending)
}

/// The bytes of the audio unit's save state: the recorded levels, the
/// registers, then both channels.
pub open spec fn apu_bytes(a: ApuState) -> Seq<u8> {
    vec_bytes(a.full_audio_buffer@) + apu_regs_bytes(a) + pulse_bytes(a.pulse1) + pulse_bytes(a.pulse2)
}

fn write_regs(a: &ApuState, writer: &mut Vec<u8>)
    ensures
        final(writer)@ == old(writer)@ + apu_regs_bytes(*a),
{
    a.audio_index.write(writer);
    a.frame_cycle_counter.write(writer);
    a.last_cpu_cycle.write(writer);
    a.cpu_cycles.write(writer);
    a.sequence_counter.write(writer);
    a.next_seq_phase.write(writer);
    a.sequencer_mode.write(writer);
    a.irq_enabled.write(writer);
    a.irq_pending.write(writer);
    assert(writer@ =~= old(writer)@ + apu_regs_bytes(*a));
}

impl WriteState for ApuState {
    open spec fn state_bytes(&self) -> Seq<u8> {
        apu_bytes(*self)
    }

    fn write(&self, writer: &mut Vec<u8>) {
        write_byte_vec(&self.full_audio_buffer, writer);
        write_regs(self, writer);
        self.pulse1.write(writer);
        self.pulse2.write(writer);
        assert(writer@ =~= old(writer)@ + apu_bytes(*self));
    }
}

/// Whether the registers part of an audio unit can be read from `r`: the
/// fields are there and in range, the sequencer's counter lies within a
/// frame interval and its phase within the current mode.
pub open spec fn apu_regs_fit(r: Seq<u8>) -> bool {
    &&& r.len() >= 51
    &&& word_fits(r, FULL_AUDIO_BUFFER_LEN)
    &&& word_fits(r.skip(8), usize::MAX)
    &&& word_fits(r.skip(40), 4)
    &&& byte_fits(r.skip(48), 1)
    &&& flag_fits(r.skip(49))
    &&& flag_fits(r.skip(50))
    &&& 1 <= vstd::bytes::spec_u64_from_le_bytes(r.skip(32).take(8)) <= FRAME_INTERVAL
    &&& word_value(r.skip(40)) < 4 + r.skip(48)[0]
}

/// Whether a whole audio unit can be read from `r`: a level buffer of the
/// full length, the registers and both channels.
pub open spec fn apu_fits(r: Seq<u8>) -> bool {
    &&& vec_fits(r)
    &&& vec_len(r) == FULL_AUDIO_BUFFER_LEN
    &&& apu_regs_fit(r.skip(8 + FULL_AUDIO_BUFFER_LEN))
    &&& pulse_fits(r.skip(8 + FULL_AUDIO_BUFFER_LEN + 51))
    &&& pulse_fits(r.skip(8 + FULL_AUDIO_BUFFER_LEN + 88))
}

/// Reads the registers part into `a`.
#[verifier::rlimit(60)]
fn read_regs(a: &mut ApuState, reader: &mut StateReader) -> (res: Result<(), StateError>)
    requires
        old(reader).wf(),
    ensures
        final(reader).wf(),
        final(reader).data@ == old(reader).data@,
        res is Ok <==> apu_regs_fit(old(reader).rest()),
        res is Ok ==> final(reader).pos == old(reader).pos + 51
            && old(reader).rest().take(51) == apu_regs_bytes(*final(a))
            && final(a).full_audio_buffer == old(a).full_audio_buffer
            && final(a).pulse1 == old(a).pulse1 && final(a).pulse2 == old(a).pulse2
            && final(a).audio_index <= FULL_AUDIO_BUFFER_LEN
            && 1 <= final(a).sequence_counter <= FRAME_INTERVAL
            && final(a).sequencer_mode <= 1
            && final(a).next_seq_phase < 4 + final(a).sequencer_mode,
{
    let ghost r0 = reader.rest();
    let audio_index = read_usize_at_most(reader, FULL_AUDIO_BUFFER_LEN)?;
    assert(reader.rest() =~= r0.skip(8));
    let frame_cycle_counter = read_usize_at_most(reader, usize::MAX)?;
    assert(reader.rest() =~= r0.skip(16));
    let last_cpu_cycle = read_u64_le(reader)?;
    assert(reader.rest() =~= r0.skip(24));
    let cpu_cycles = read_u64_le(reader)?;
    assert(reader.rest() =~= r0.skip(32));
    let sequence_counter = read_u64_le(reader)?;
    assert(reader.rest() =~= r0.skip(40));
    let next_seq_phase = read_usize_at_most(reader, 4)?;
    assert(reader.rest() =~= r0.skip(48));
    let sequencer_mode = read_u8_at_most(reader, 1)?;
    assert(reader.rest() =~= r0.skip(49));
    let irq_enabled = read_bool_strict(reader)?;
    assert(reader.rest() =~= r0.skip(50));
    let irq_pending = read_bool_strict(reader)?;
    if sequence_counter < 1 || sequence_counter > FRAME_INTERVAL || next_seq_phase >= 4 + sequencer_mode as usize {
        return Err(StateError::InvalidData);
    }
    a.audio_index = audio_index;
    a.frame_cycle_counter = frame_cycle_counter;
    a.last_cpu_cycle = last_cpu_cycle;
    a.cpu_cycles = cpu_cycles;
    a.sequence_counter = sequence_counter;
    a.next_seq_phase = next_seq_phase;
    a.sequencer_mode = sequencer_mode;
    a.irq_enabled = irq_enabled;
    a.irq_pending = irq_pending;
    assert(r0.take(51) =~= apu_regs_bytes(*a));
    Ok(())
}

impl ApuState {
    /// Reads an audio unit saved by `write`.  A level buffer of another
    /// length and registers out of their ranges are refused.
    pub fn read_state(reader: &mut StateReader) -> (res: Result<ApuState, StateError>)
        requires
            old(reader).wf(),
        ensures
            final(reader).wf(),
            final(reader).data@ == old(reader).data@,
            res is Ok <==> apu_fits(old(reader).rest()),
            res matches Ok(a) ==> apu_bytes(a).len() == 8 + FULL_AUDIO_BUFFER_LEN + 125,
            res matches Ok(a) ==> a.wf() && final(reader).pos == old(reader).pos + apu_bytes(a).len()
                && old(reader).rest().take(apu_bytes(a).len() as int) == apu_bytes(a),
    {
        let ghost r0 = reader.rest();
        let buffer = read_byte_vec_exact(reader)?;
        if buffer.len() != FULL_AUDIO_BUFFER_LEN {
            return Err(StateError::InvalidData);
        }
        let ghost k1: int = 8 + FULL_AUDIO_BUFFER_LEN;
        assert(reader.rest() =~= r0.skip(k1));
        let mut a = ApuState::new();
        a.full_audio_buffer = buffer;
        read_regs(&mut a, reader)?;
        assert(reader.rest() =~= r0.skip(k1 + 51));
        let pulse1 = Pulse::read_state(reader)?;
        assert(reader.rest() =~= r0.skip(k1 + 88));
        let pulse2 = Pulse::read_state(reader)?;
        a.pulse1 = pulse1;
        a.pulse2 = pulse2;
        assert(r0.take(k1 + 125) =~= apu_bytes(a));
        Ok(a)
    }
}

} // verus!
