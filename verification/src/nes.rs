//! The whole console: the CPU and PPU memory maps and the state they reach.
use vstd::prelude::*;
use crate::bits::lemma_and_bounds;
use crate::cpu::CpuState;
use crate::ppu::{PpuState, palette_to_rgba, rgba_of};
use crate::apu::ApuState;
use crate::controller::ControllerState;
use crate::mapper::{Mapper, sram_after, vram_index, MirrorMode};
use crate::board::AnyMapper;
use crate::cpu::ir::BlockCache;
use crate::cpu::InterruptKind;
use crate::cartridge::{Cartridge, copy_range};
use crate::board::{make_mapper, can_make_mapper, can_make_board, board_fits, supports_board, deserialize_mapper, serialize_mapper};
use crate::apu::{apu_bytes, apu_fits, FULL_AUDIO_BUFFER_LEN};
use crate::ppu::save::{ppu_bytes, ppu_core_bytes, ppu_tail, ppu_core_fits};
use crate::save_state::{WriteState, ReadState, StateReader, StateError};

verus! {

pub const FRAME_WIDTH: usize = 256;
pub const FRAME_HEIGHT: usize = 240;
/// Bytes per pixel (RGBA).
pub const FRAME_DEPTH: usize = 4;
/// Bytes in one frame: width times height times depth.
pub const FRAME_SIZE: usize = 245760;

/// Everything the console holds.
pub struct State {
    pub cpu: CpuState,
    pub ppu: PpuState,
    pub apu: ApuState,
    pub mapper: AnyMapper,
    /// The two kilobytes of work RAM, mirrored through 0x0000-0x1FFF.
    pub ram: [u8; 2048],
    pub controller1: ControllerState,
    pub controller2: ControllerState,
    pub block_cache: BlockCache,
}

/// The CPU's programmer-visible registers are the same in both states.
pub open spec fn same_registers(new: CpuState, old: CpuState) -> bool {
    &&& new.a == old.a
    &&& new.x == old.x
    &&& new.y == old.y
    &&& new.pc == old.pc
    &&& new.sp == old.sp
    &&& new.status == old.status
}

/// The palette slot that a PPU address in 0x3F00-0x3FFF reaches: 32
/// entries mirrored, with the sprite backdrop entries shared with the
/// background ones.
pub open spec fn palette_index(addr: u16) -> int {
    let i = addr & 0x1F;
    if i & 0x13 == 0x10 { (i & 0x0F) as int } else { i as int }
}

/// The mirrors of the PPU's address space.  With horizontal mirroring the
/// nametables at 0x2000 and 0x2400 share their memory and those at 0x2000
/// and 0x2800 do not; with vertical mirroring it is the other way round.
/// The palette entries 0x3F10, 0x3F14, 0x3F18 and 0x3F1C are the ones at
/// 0x3F00, 0x3F04, 0x3F08 and 0x3F0C; every other sprite palette entry is
/// its own.
pub proof fn lemma_ppu_mirrors(addr: u16)
    ensures
        vram_index(MirrorMode::MirrorHorizontal, addr) == vram_index(MirrorMode::MirrorHorizontal, addr ^ 0x400),
        vram_index(MirrorMode::MirrorHorizontal, addr) != vram_index(MirrorMode::MirrorHorizontal, addr ^ 0x800),
        vram_index(MirrorMode::MirrorVertical, addr) == vram_index(MirrorMode::MirrorVertical, addr ^ 0x800),
        vram_index(MirrorMode::MirrorVertical, addr) != vram_index(MirrorMode::MirrorVertical, addr ^ 0x400),
        addr & 3 == 0 ==> palette_index(addr) == palette_index(addr ^ 0x10),
        addr & 3 != 0 ==> palette_index(addr) != palette_index(addr ^ 0x10),
{
    let b = addr ^ 0x400;
    let c = addr ^ 0x800;
    let p = addr ^ 0x10;
    assert({
        &&& (addr & 0x3FF) | ((addr & 0x800) >> 1) == (b & 0x3FF) | ((b & 0x800) >> 1)
        &&& (addr & 0x3FF) | ((addr & 0x800) >> 1) != (c & 0x3FF) | ((c & 0x800) >> 1)
        &&& addr & 0x7FF == c & 0x7FF
        &&& addr & 0x7FF != b & 0x7FF
        &&& addr & 3 == 0 ==> (if (addr & 0x1F) & 0x13 == 0x10 { (addr & 0x1F) & 0x0F } else { addr & 0x1F })
            == (if (p & 0x1F) & 0x13 == 0x10 { (p & 0x1F) & 0x0F } else { p & 0x1F })
        &&& addr & 3 != 0 ==> (if (addr & 0x1F) & 0x13 == 0x10 { (addr & 0x1F) & 0x0F } else { addr & 0x1F })
            != (if (p & 0x1F) & 0x13 == 0x10 { (p & 0x1F) & 0x0F } else { p & 0x1F })
    }) by (bit_vector)
        requires
            b == addr ^ 0x400u16,
            c == addr ^ 0x800u16,
            p == addr ^ 0x10u16;
}

/// The cycle counter one step on.
pub open spec fn next_cycle(c: u64) -> u64 {
    ((c + 1) % 0x1_0000_0000_0000_0000) as u64
}

impl State {
    pub open spec fn wf(&self) -> bool {
        &&& self.ppu.wf()
        &&& self.apu.wf()
        &&& self.mapper.wf()
    }

    /// As `wf`, with the dot counter allowed one past the last dot while a
    /// scanline is being finished.
    pub open spec fn wf_loose(&self) -> bool {
        &&& self.ppu.wf_loose()
        &&& self.apu.wf()
        &&& self.mapper.wf()
    }

    /// The work RAM byte that a CPU address below 0x2000 reaches.
    pub open spec fn ram_at(&self, addr: u16) -> u8 {
        self.ram@[(addr & 0x7FF) as int]
    }

    /// A console built around `mapper`, with every unit at power-on.
    pub fn with_mapper(mapper: AnyMapper) -> (s: State)
        requires
            mapper.wf(),
        ensures
            s.wf(),
            s.mapper == mapper,
            s.cpu == CpuState::initial(),
            s.ppu.last_cpu_cycle == 7,
            s.ram@ == Seq::new(2048, |i: int| 0u8),
            s.block_cache.slots@ == Map::<u16, crate::cpu::ir::CacheSlot>::empty(),
    {
        let s = State {
            cpu: CpuState::new(),
            ppu: PpuState::new(),
            apu: ApuState::new(),
            mapper,
            ram: [0; 2048],
            controller1: ControllerState::new(),
            controller2: ControllerState::new(),
            block_cache: BlockCache::new(),
        };
        assert(s.ram@ =~= Seq::new(2048, |i: int| 0u8));
        s
    }

    /// A CPU bus read.  Each access takes one cycle.  Work RAM is mirrored
    /// through 0x0000-0x1FFF, the PPU registers through 0x2000-0x3FFF;
    /// 0x4016 and 0x4017 read the joypads, the rest of 0x4000-0x4015 the
    /// audio unit, and everything from 0x4018 up the cartridge.
    pub fn cpu_peek(&mut self, addr: u16) -> (r: u8)
        requires
            old(self).wf(),
        ensures
            final(self).wf(),
            same_registers(final(self).cpu, old(self).cpu),
            final(self).cpu.cycles == next_cycle(old(self).cpu.cycles),
            final(self).ram == old(self).ram,
            final(self).block_cache.slots@ == old(self).block_cache.slots@,
            final(self).mapper.id() == old(self).mapper.id(),
            addr < 0x2000 ==> r == old(self).ram_at(addr)
                && *final(self) == (State { cpu: CpuState { cycles: next_cycle(old(self).cpu.cycles), ..old(self).cpu }, ..*old(self) }),
            addr == 0x4016 ==> r == (if old(self).controller1.button(old(self).controller1.index) { 1u8 } else { 0u8 })
                && *final(self) == (State {
                    cpu: CpuState { cycles: next_cycle(old(self).cpu.cycles), ..old(self).cpu },
                    controller1: old(self).controller1.with_index(old(self).controller1.index.wrapping_add(1)),
                    ..*old(self)
                }),
            addr >= 0x4018 ==> r == old(self).mapper.peek_value(addr)
                && final(self).mapper == old(self).mapper.after_read(addr)
                && final(self).ppu == old(self).ppu && final(self).apu == old(self).apu
                && final(self).controller1 == old(self).controller1 && final(self).controller2 == old(self).controller2
                && final(self).cpu.pending_interrupt == old(self).cpu.pending_interrupt,
    {
        self.cpu.cycles = self.cpu.cycles.wrapping_add(1);
        if addr < 0x2000 {
            proof { lemma_and_bounds(); }
            self.ram[(addr & 0x7FF) as usize]
        } else if addr < 0x4000 {
            proof { lemma_and_bounds(); }
            crate::ppu::peek_register(self, addr & 7)
        } else if addr == 0x4016 {
            self.controller1.read()
        } else if addr == 0x4017 {
            self.controller2.read()
        } else if addr < 0x4018 {
            crate::apu::peek_register(self, addr)
        } else {
            self.mapper.peek(addr)
        }
    }

    /// A CPU bus write.  Each access takes one cycle; a write to 0x4014
    /// starts sprite DMA, which takes 513 or 514 more.
    pub fn cpu_poke(&mut self, addr: u16, val: u8)
        requires
            old(self).wf(),
        ensures
            final(self).wf(),
            same_registers(final(self).cpu, old(self).cpu),
            final(self).block_cache.slots@ == old(self).block_cache.slots@,
            final(self).mapper.id() == old(self).mapper.id(),
            addr != 0x4014 ==> final(self).cpu.cycles == next_cycle(old(self).cpu.cycles),
            addr < 0x2000 ==> *final(self) == (State {
                cpu: CpuState { cycles: next_cycle(old(self).cpu.cycles), ..old(self).cpu },
                ram: final(self).ram,
                ..*old(self)
            }) && final(self).ram@ == old(self).ram@.update((addr & 0x7FF) as int, val),
            addr >= 0x2000 ==> final(self).ram == old(self).ram,
            addr >= 0x4018 ==> final(self).ppu == old(self).ppu && final(self).apu == old(self).apu
                && final(self).controller1 == old(self).controller1 && final(self).controller2 == old(self).controller2
                && final(self).cpu.pending_interrupt == old(self).cpu.pending_interrupt,
            addr == 0x4016 ==> *final(self) == (State {
                cpu: CpuState { cycles: next_cycle(old(self).cpu.cycles), ..old(self).cpu },
                controller1: if val & 1 != 0 { old(self).controller1.with_index(0) } else { old(self).controller1 },
                ..*old(self)
            }),
            addr >= 0x4018 ==> old(self).mapper.written(addr, val, final(self).mapper),
    {
        self.cpu.cycles = self.cpu.cycles.wrapping_add(1);
        if addr < 0x2000 {
            proof { lemma_and_bounds(); }
            self.ram[(addr & 0x7FF) as usize] = val;
        } else if addr < 0x4000 {
            proof { lemma_and_bounds(); }
            crate::ppu::poke_register(self, addr & 7, val);
        } else if addr == 0x4014 {
            crate::ppu::poke_register(self, 0x4014, val);
        } else if addr == 0x4016 {
            crate::controller::write(self, val);
        } else if addr < 0x4018 {
            crate::apu::poke_register(self, addr, val);
        } else {
            self.mapper.poke(addr, val);
        }
    }

    /// A PPU bus read: the cartridge below 0x3F00, the palette above, all
    /// mirrored through 0x0000-0x3FFF.
    pub fn ppu_peek(&mut self, addr: u16) -> (r: u8)
        requires
            old(self).wf_loose(),
        ensures
            final(self).wf_loose(),
            *final(self) == (State { mapper: final(self).mapper, ..*old(self) }),
            final(self).mapper.id() == old(self).mapper.id(),
            (addr & 0x3FFF) < 0x3F00 ==> r == old(self).mapper.peek_value(addr & 0x3FFF)
                && final(self).mapper == old(self).mapper.after_read(addr & 0x3FFF),
            (addr & 0x3FFF) >= 0x3F00 ==> r == old(self).ppu.palette@[palette_index(addr)]
                && final(self).mapper == old(self).mapper,
    {
        let a = addr & 0x3FFF;
        if a < 0x3F00 {
            self.mapper.peek(a)
        } else {
            let i = palette_slot(addr);
            self.ppu.palette[i]
        }
    }

    /// A PPU bus write, mapped as `ppu_peek`; a palette write also updates
    /// the entry's RGBA value.
    pub fn ppu_poke(&mut self, addr: u16, val: u8)
        requires
            old(self).wf_loose(),
        ensures
            final(self).wf_loose(),
            final(self).mapper.id() == old(self).mapper.id(),
            (addr & 0x3FFF) < 0x3F00 ==> *final(self) == (State { mapper: final(self).mapper, ..*old(self) })
                && old(self).mapper.written(addr & 0x3FFF, val, final(self).mapper),
            (addr & 0x3FFF) >= 0x3F00 ==> final(self).ppu.palette@ == old(self).ppu.palette@.update(palette_index(addr), val)
                && *final(self) == (State { ppu: PpuState {
                    palette: final(self).ppu.palette,
                    palette_rgba: final(self).ppu.palette_rgba,
                    ..old(self).ppu
                }, ..*old(self) }),
    {
        let a = addr & 0x3FFF;
        if a < 0x3F00 {
            self.mapper.poke(a, val);
        } else {
            let i = palette_slot(addr);
            self.ppu.palette[i] = val;
            let c = palette_to_rgba(val);
            self.ppu.palette_rgba[i] = c;
            reveal(crate::ppu::palette_cached);
            assert forall|j: int| 0 <= j < 32 implies #[trigger] self.ppu.palette_rgba@[j] == rgba_of(self.ppu.palette@[j]) by {
                if j != i {
                    assert(self.ppu.palette_rgba@[j] == old(self).ppu.palette_rgba@[j]);
                }
            }
        }
    }
}

/// The palette slot of a PPU address, as `palette_index` says.
fn palette_slot(addr: u16) -> (i: usize)
    ensures
        i == palette_index(addr),
        i < 32,
{
    let i = addr & 0x1F;
    proof { lemma_and_bounds(); }
    if i & 0x13 == 0x10 {
        proof { lemma_and_bounds(); }
        (i & 0x0F) as usize
    } else {
        i as usize
    }
}

/// The bytes of a console save state: CPU, audio unit, work RAM, picture
/// unit, then the board's mapper number and registers.  The joypads are
/// not saved.
pub open spec fn console_bytes(s: State) -> Seq<u8> {
    s.cpu.state_bytes() + apu_bytes(s.apu) + s.ram@ + ppu_bytes(s.ppu) + seq![s.mapper.id()]
        + s.mapper.saved_bytes()
}

/// Where the core of the picture unit's part ends in a save state of `s`:
/// after the CPU registers (16 bytes), the audio unit and the work RAM.
pub open spec fn core_end(s: State) -> int {
    16 + apu_bytes(s.apu).len() as int + 2048 + ppu_core_bytes(s.ppu).len() as int
}

/// Where the board's number stands in `d`, read as a save state of `s`.
pub open spec fn board_pos(s: State, d: Seq<u8>) -> int {
    core_end(s) + ppu_tail(d.skip(core_end(s))).2
}

/// How many bytes of `d` a restore of `s` from it has read.
pub open spec fn restored_len(s: State, d: Seq<u8>) -> int {
    board_pos(s, d) + 1 + s.mapper.loaded_bytes().len()
}

/// What a successful `set_state` establishes of the console `s` it made
/// from `d`: each part was read from its place in `d`, one after another.
pub open spec fn restored_from(s: State, d: Seq<u8>) -> bool {
    let a: int = 16 + apu_bytes(s.apu).len() as int;
    let p: int = a + 2048;
    let c = core_end(s);
    let q = board_pos(s, d);
    &&& <CpuState as ReadState>::parse(d) == Some((s.cpu, 16nat))
    &&& d.subrange(16, a) == apu_bytes(s.apu)
    &&& d.subrange(a, p) == s.ram@
    &&& d.subrange(p, c) == ppu_core_bytes(s.ppu)
    &&& ppu_tail(d.skip(c)) == (s.ppu.sprites.generation, s.ppu.precise_timing, ppu_tail(d.skip(c)).2)
    &&& q < d.len()
    &&& d[q] == s.mapper.id()
    &&& restored_len(s, d) <= d.len()
    &&& d.subrange(q + 1, restored_len(s, d)) == s.mapper.loaded_bytes()
}

/// Saving a console that was just restored from `d` gives back the bytes
/// that the restore read, where `d` holds the picture unit's optional tail
/// in full with its timing flag written as 0 or 1, and the board reads its
/// registers in the order that it writes them.
#[verifier::rlimit(100)]
#[verifier::spinoff_prover]
pub proof fn lemma_restore_then_save(s: State, d: Seq<u8>)
    requires
        restored_from(s, d),
        ppu_tail(d.skip(core_end(s))).2 == 5,
        d[core_end(s) + 4] <= 1,
        s.mapper.loaded_bytes() == s.mapper.saved_bytes(),
    ensures
        console_bytes(s) == d.take(restored_len(s, d)),
{
    vstd::bytes::lemma_auto_spec_u16_to_from_le_bytes();
    vstd::bytes::lemma_auto_spec_u32_to_from_le_bytes();
    vstd::bytes::lemma_auto_spec_u64_to_from_le_bytes();
    reveal(crate::save_state::bool_byte);
    let a: int = 16 + apu_bytes(s.apu).len() as int;
    let p: int = a + 2048;
    let c = core_end(s);
    let q = board_pos(s, d);
    let n = restored_len(s, d);
    let cpu = s.cpu;
    assert(d.subrange(3, 5).len() == 2);
    assert(d.subrange(8, 16).len() == 8);
    assert(cpu.state_bytes() =~= d.take(16)) by {
        assert(crate::cpu::interrupt_from_tag(d[7]) == Some(cpu.pending_interrupt));
        assert(crate::cpu::interrupt_tag(cpu.pending_interrupt) == d[7]);
        assert(crate::save_state::u16_bytes(cpu.pc) =~= d.subrange(3, 5));
        assert(crate::save_state::u64_bytes(cpu.cycles) =~= d.subrange(8, 16));
    }
    let r = d.skip(c);
    assert(r.take(4).len() == 4);
    assert(crate::save_state::u32_bytes(s.ppu.sprites.generation) =~= d.subrange(c, c + 4)) by {
        assert(r.take(4) =~= d.subrange(c, c + 4));
    }
    assert(crate::save_state::bool_bytes(s.ppu.precise_timing) =~= d.subrange(c + 4, c + 5)) by {
        assert(r[4] == d[c + 4]);
    }
    assert(ppu_bytes(s.ppu) =~= d.subrange(p, c + 5));
    assert(d.take(n) =~= d.take(16) + d.subrange(16, a) + d.subrange(a, p) + d.subrange(p, c + 5)
        + seq![d[q]] + d.subrange(q + 1, n));
}

/// Whether `set_state` can restore a console whose board runs `cart` from
/// `d`: the CPU registers, the audio unit, the work RAM and the picture
/// unit's core read back, and the board number after the picture unit's
/// optional tail names a board that can run `cart` and whose registers
/// read back.
pub open spec fn state_fits(cart: Cartridge, d: Seq<u8>) -> bool {
    let p = 16 + 8 + FULL_AUDIO_BUFFER_LEN + 125;
    let c = p + 2048 + 28 + 8 + FRAME_SIZE + 1437;
    let q = c + ppu_tail(d.skip(c)).2;
    &&& <CpuState as ReadState>::parse(d) is Some
    &&& apu_fits(d.skip(16))
    &&& d.len() >= p + 2048
    &&& ppu_core_fits(d.skip(p + 2048))
    &&& d.len() > q
    &&& can_make_board(d[q], cart)
    &&& board_fits(d[q], cart, d.skip(q + 1))
}

/// Whether the picture unit steps dot by dot for the board with mapper
/// number `id`: the boards whose interrupt counts scanlines from the PPU's
/// fetches.
pub open spec fn precise_board(id: u8) -> bool {
    id == 5 || id == 118 || id == 119
}

/// A console with a cartridge inserted, run a frame at a time.
pub struct Nes {
    pub state: State,
    /// Whether the cartridge keeps its RAM with a battery.
    pub battery: bool,
}

impl Nes {
    pub open spec fn wf(&self) -> bool {
        self.state.wf()
    }

    /// Powers on a console with `cart`: every unit at power-on, the board
    /// that the header names, and a reset pending so that the CPU starts
    /// at the reset vector.  The CPU clock starts at cycle 7, where the
    /// picture unit's does, after the power-up sequence.
    pub fn new(cart: Cartridge) -> (n: Nes)
        requires
            can_make_mapper(cart),
        ensures
            n.wf(),
            n.state.mapper.id() == cart.mapper_id,
            n.battery == cart.battery,
            n.state.cpu.pending_interrupt == InterruptKind::Reset,
            n.state.ppu.precise_timing == precise_board(cart.mapper_id),
            n.state.ram@ == Seq::new(2048, |i: int| 0u8),
            n.state.cpu.cycles == 7,
            n.state.ppu.last_cpu_cycle == n.state.cpu.cycles,
    {
        let battery = cart.battery;
        let id = cart.mapper_id;
        let mapper = make_mapper(cart);
        let mut state = State::with_mapper(mapper);
        state.cpu.pending_interrupt = InterruptKind::Reset;
        state.cpu.cycles = 7;
        state.ppu.precise_timing = id == 5 || id == 118 || id == 119;
        Nes { state, battery }
    }

    /// Runs the console until the picture unit starts the next frame (at
    /// most 40000 CPU cycles) and returns how many audio levels the frame
    /// recorded.
    pub fn emulate_frame(&mut self) -> (n: usize)
        requires
            old(self).wf(),
        ensures
            final(self).wf(),
            final(self).state.mapper.id() == old(self).state.mapper.id(),
            final(self).battery == old(self).battery,
            n == final(self).state.apu.audio_index,
    {
        crate::apu::start_frame(&mut self.state);
        let start = self.state.ppu.beam.frames;
        let mut budget: u32 = 0;
        while self.state.ppu.beam.frames == start && budget < 400
            invariant
                self.state.wf(),
                self.state.mapper.id() == old(self).state.mapper.id(),
                self.battery == old(self).battery,
            decreases 400 - budget,
        {
            crate::cpu::emulate(&mut self.state, 100);
            crate::ppu::catch_up(&mut self.state);
            budget += 1;
        }
        crate::apu::complete_frame(&mut self.state)
    }

    /// The last picture as RGBA bytes, 256 by 240.
    pub fn get_frame_buffer(&self) -> (r: &[u8])
        ensures
            r@ == self.state.ppu.frame_buffer@,
    {
        self.state.ppu.frame_buffer.as_slice()
    }

    /// The audio levels recorded so far; the first `emulate_frame` result
    /// of them belong to the last frame.
    pub fn get_audio_levels(&self) -> (r: &[u8])
        ensures
            r@ == self.state.apu.full_audio_buffer@,
    {
        self.state.apu.full_audio_buffer.as_slice()
    }

    pub fn set_controller1_state(&mut self, c: ControllerState)
        ensures
            final(self).state == (State { controller1: c, ..old(self).state }),
            final(self).battery == old(self).battery,
    {
        self.state.controller1 = c;
    }

    pub fn set_controller2_state(&mut self, c: ControllerState)
        ensures
            final(self).state == (State { controller2: c, ..old(self).state }),
            final(self).battery == old(self).battery,
    {
        self.state.controller2 = c;
    }

    pub fn has_battery(&self) -> (r: bool)
        ensures
            r == self.battery,
    {
        self.battery
    }

    /// The board's battery-backed or work RAM, if it has any.
    pub fn get_sram(&self) -> (r: Option<Vec<u8>>)
        ensures
            r is Some == self.state.mapper.sram() is Some,
            r matches Some(v) ==> self.state.mapper.sram() == Some(v@),
    {
        self.state.mapper.get_sram()
    }

    /// Loads the board's RAM from `data`, as far as both reach.
    pub fn set_sram(&mut self, data: &[u8])
        requires
            old(self).wf(),
        ensures
            final(self).wf(),
            final(self).state.mapper.id() == old(self).state.mapper.id(),
            final(self).battery == old(self).battery,
            final(self).state.mapper.sram() == sram_after(old(self).state.mapper.sram(), data@),
    {
        self.state.mapper.set_sram(data);
    }

    /// A save state of the console.
    pub fn get_state(&self) -> (v: Vec<u8>)
        ensures
            v@ == console_bytes(self.state),
    {
        let mut v: Vec<u8> = Vec::new();
        self.state.cpu.write(&mut v);
        self.state.apu.write(&mut v);
        self.state.ram.write(&mut v);
        self.state.ppu.write(&mut v);
        serialize_mapper(&self.state.mapper, &mut v);
        assert(v@ =~= console_bytes(self.state));
        v
    }

    /// Restores a save state written by `get_state` for the same
    /// cartridge.  The joypads stay as they are and the block cache starts
    /// empty.  A state that cannot be read, or that names a board that
    /// cannot run this cartridge, is refused and leaves the console as it
    /// was.
    #[verifier::rlimit(90)]
    pub fn set_state(&mut self, data: &[u8]) -> (res: Result<(), StateError>)
        requires
            old(self).wf(),
        ensures
            final(self).wf(),
            final(self).battery == old(self).battery,
            res is Err ==> *final(self) == *old(self),
            res is Ok <==> state_fits(old(self).state.mapper.cart(), data@),
            res is Ok ==> restored_from(final(self).state, data@),
            res is Ok ==> final(self).state.controller1 == old(self).state.controller1
                && final(self).state.controller2 == old(self).state.controller2,
    {
        let mut reader = StateReader::new(copy_range(data, 0, data.len()));
        assert(reader.data@ =~= data@);
        let ghost d = data@;
        let ghost oc = self.state.mapper.cart();
        let cpu = CpuState::read(&mut reader)?;
        let ghost a0 = reader.pos as int;
        let ghost ra = reader.rest();
        assert(ra =~= d.skip(16));
        let apu = ApuState::read_state(&mut reader)?;
        let ghost p0 = reader.pos as int;
        let ghost rp = reader.rest();
        assert(p0 == 16 + 8 + FULL_AUDIO_BUFFER_LEN + 125);
        assert(rp =~= d.skip(p0));
        let ram = <[u8; 2048]>::read(&mut reader)?;
        let ghost c0 = reader.pos as int;
        let ghost rc = reader.rest();
        assert(rc =~= d.skip(c0));
        let ppu = PpuState::read_state(&mut reader)?;
        proof {
            let lc = ppu_core_bytes(ppu).len() as int;
            assert(rc.skip(lc) =~= d.skip(c0 + lc));
        }
        if reader.pos >= reader.data.len() {
            return Err(StateError::UnexpectedEnd);
        }
        let id = reader.data[reader.pos];
        let cart = self.state.mapper.cartridge().duplicate();
        proof {
            assert(cart.prg_rom@ =~= oc.prg_rom@);
            assert(cart.chr_rom@ =~= oc.chr_rom@);
            crate::board::lemma_same_rom_same_boards(id, cart, oc, Seq::empty());
        }
        if !supports_board(id, &cart) {
            return Err(StateError::InvalidData);
        }
        let ghost q0 = reader.pos as int;
        let ghost rq = reader.rest();
        assert(rq =~= d.skip(q0));
        proof {
            let c = 16 + 8 + FULL_AUDIO_BUFFER_LEN + 125 + 2048 + 28 + 8 + FRAME_SIZE + 1437;
            assert(c0 + ppu_core_bytes(ppu).len() == c);
            assert(q0 == c + ppu_tail(d.skip(c)).2);
            assert(d[q0] == id);
            assert(rq.skip(1) =~= d.skip(q0 + 1));
            crate::board::lemma_same_rom_same_boards(id, cart, oc, rq.skip(1));
        }
        let mapper = deserialize_mapper(&mut reader, cart)?;
        proof {
            let la = apu_bytes(apu).len() as int;
            let lc = ppu_core_bytes(ppu).len() as int;
            let lm = mapper.loaded_bytes().len() as int;
            assert(a0 == 16);
            assert(ra =~= d.skip(16));
            assert(ra.take(la) =~= d.subrange(16, 16 + la));
            assert(p0 == 16 + la);
            assert(rp =~= d.skip(p0));
            assert(rp.take(2048) =~= d.subrange(p0, p0 + 2048));
            assert(c0 == p0 + 2048);
            assert(rc =~= d.skip(c0));
            assert(rc.take(lc) =~= d.subrange(c0, c0 + lc));
            assert(rc.skip(lc) =~= d.skip(c0 + lc));
            assert(q0 == c0 + lc + ppu_tail(d.skip(c0 + lc)).2);
            assert(rq =~= d.skip(q0));
            assert(rq[0] == d[q0]);
            assert(rq.take(1 + lm) =~= d.subrange(q0, q0 + 1 + lm));
            assert(d.subrange(q0 + 1, q0 + 1 + lm) =~= rq.take(1 + lm).skip(1));
            assert(d[q0] == mapper.id());
            assert(q0 < d.len());
            assert(q0 + 1 + lm <= d.len());
        }
        self.state = State {
            cpu,
            ppu,
            apu,
            mapper,
            ram,
            controller1: self.state.controller1,
            controller2: self.state.controller2,
            block_cache: BlockCache::new(),
        };
        proof {
            let st = self.state;
            let la = apu_bytes(st.apu).len() as int;
            assert(core_end(st) == c0 + ppu_core_bytes(st.ppu).len());
            assert(board_pos(st, d) == q0);
            assert(restored_len(st, d) == q0 + 1 + st.mapper.loaded_bytes().len());
            assert(<CpuState as ReadState>::parse(d) == Some((st.cpu, 16nat)));
            assert(d.subrange(16, 16 + la) == apu_bytes(st.apu));
            assert(d.subrange(16 + la, 16 + la + 2048) == st.ram@);
            assert(d.subrange(16 + la + 2048, core_end(st)) == ppu_core_bytes(st.ppu));
            assert(ppu_tail(d.skip(core_end(st))) == (st.ppu.sprites.generation, st.ppu.precise_timing, ppu_tail(d.skip(core_end(st))).2));
            assert(d[q0] == st.mapper.id());
            assert(d.subrange(q0 + 1, restored_len(st, d)) == st.mapper.loaded_bytes());
        }
        assert(restored_from(self.state, d));
        Ok(())
    }
}

} // verus!
