//! The picture processing unit: background and sprite rendering, scrolling,
//! and the CPU-visible registers at 0x2000-0x2007 and 0x4014.
use vstd::prelude::*;
use crate::bits::lemma_byte_fields;
use crate::bits::lemma_parity;
use crate::bits::lemma_addr_fields;
use crate::bits::lemma_and_bounds;
use crate::cpu::InterruptKind;
use crate::nes::{State, same_registers, FRAME_SIZE, palette_index};
use crate::mapper::Mapper;
use crate::ppu::render::{dot, rendering_dot, scroll_after_dot};

pub mod render;
pub mod save;

verus! {

/// The master palette as 0xRRGGBB.
pub const COLORS: [u32; 64] = [
    0x545454, 0x001e74, 0x081090, 0x300088, 0x440064, 0x5c0030, 0x540400, 0x3c1800, 0x202a00,
    0x083a00, 0x004000, 0x003c00, 0x00323c, 0x000000, 0x000000, 0x000000, 0x989698, 0x084cc4,
    0x3032ec, 0x5c1ee4, 0x8814b0, 0xa01464, 0x982220, 0x783c00, 0x545a00, 0x287200, 0x087c00,
    0x007628, 0x006678, 0x000000, 0x000000, 0x000000, 0xeceeec, 0x4c9aec, 0x787cec, 0xb062ec,
    0xe454ec, 0xec58b4, 0xec6a64, 0xd48820, 0xa0aa00, 0x74c400, 0x4cd020, 0x38cc6c, 0x38b4cc,
    0x3c3c3c, 0x000000, 0x000000, 0xeceeec, 0xa8ccec, 0xbcbcec, 0xd4b2ec, 0xecaeec, 0xecaed4,
    0xecb4b0, 0xe4c490, 0xccd278, 0xb4de78, 0xa8e290, 0x98e2b4, 0xa0d6e4, 0xa0a2a0, 0x000000,
    0x000000,
];

/// A palette entry as an RGBA pixel: red in the low byte, alpha (opaque) in
/// the high one.
pub open spec fn rgba_of(data: u8) -> u32 {
    let col = COLORS@[(data & 0x3F) as int];
    ((col >> 16) & 0xFF) | (((col >> 8) & 0xFF) << 8) | ((col & 0xFF) << 16) | 0xFF00_0000u32
}

pub fn palette_to_rgba(data: u8) -> (r: u32)
    ensures
        r == rgba_of(data),
{
    proof { lemma_and_bounds(); }
    let col = COLORS[(data & 0x3F) as usize];
    ((col >> 16) & 0xFF) | (((col >> 8) & 0xFF) << 8) | ((col & 0xFF) << 16) | 0xFF00_0000u32
}


/// One pixel of the sprite line buffer.
#[derive(Clone, Copy, Debug, PartialEq, Eq, Structural)]
pub struct SpriteBufferData {
    pub id: u8,
    pub color: u8,
    pub priority: bool,
    pub sprite0: bool,
    pub generation: u32,
}

impl Default for SpriteBufferData {
    fn default() -> (d: SpriteBufferData)
        ensures
            d == (SpriteBufferData { id: 0xFF, color: 0, priority: false, sprite0: false, generation: 0 }),
    {
        SpriteBufferData { id: 0xFF, color: 0, priority: false, sprite0: false, generation: 0 }
    }
}

/// Where the beam is: dot and scanline, and the frame and dot counts.
#[derive(Clone, Copy, Debug, PartialEq, Eq, Structural)]
pub struct Beam {
    pub scanline: u16,
    pub tick: u16,
    pub frames: u64,
    pub cycles: u64,
}

/// The flags that PPUSTATUS reports, and whether rendering is under way.
#[derive(Clone, Copy, Debug, PartialEq, Eq, Structural)]
pub struct PpuStatus {
    pub is_rendering: bool,
    pub sprite_overflow: u8,
    pub sprite0_hit: bool,
    pub vblank: u8,
}

/// Sprite evaluation: secondary OAM and the position of the scan through
/// primary OAM.
#[derive(Clone, Copy, Debug)]
pub struct SpriteEval {
    pub oam_2: [u8; 32],
    pub n: usize,
    pub m: usize,
    pub read: u8,
    pub scanline_count: usize,
    pub has_sprite0: bool,
}

/// The decoded sprite pixels of the scanline being drawn.
#[derive(Clone, Copy, Debug)]
pub struct SpriteLine {
    pub buffer: [SpriteBufferData; 256],
    pub generation: u32,
}

/// The ring of decoded background pixels.
#[derive(Clone, Copy, Debug)]
pub struct Background {
    pub data: [u8; 24],
    pub index: usize,
}

/// The loopy scroll registers: current and temporary VRAM address, fine X
/// scroll and the write toggle.
#[derive(Clone, Copy, Debug, PartialEq, Eq, Structural)]
pub struct Scroll {
    pub v: u16,
    pub t: u16,
    pub x: u16,
    pub w: u8,
}

/// PPUCTRL, one field per bit group.
#[derive(Clone, Copy, Debug, PartialEq, Eq, Structural)]
pub struct PpuCtrl {
    pub vram_increment: u8,
    pub sprite_table_addr: u8,
    pub background_table_addr: u8,
    pub sprite_size: u8,
    pub master_slave: u8,
    pub generate_nmi: bool,
}

/// PPUMASK, one field per bit.
#[derive(Clone, Copy, Debug, PartialEq, Eq, Structural)]
pub struct PpuMask {
    pub grayscale: bool,
    pub show_sprites_left: bool,
    pub show_background_left: bool,
    pub render_sprites: bool,
    pub render_background: bool,
    pub emphasize_red: bool,
    pub emphasize_green: bool,
    pub emphasize_blue: bool,
}

pub struct PpuState {
    pub beam: Beam,
    /// Whether to step dot by dot (for boards that count scanlines) or to
    /// batch whole scanlines.
    pub precise_timing: bool,
    /// The CPU cycle that the unit has been emulated up to.
    pub last_cpu_cycle: u64,
    pub frame_buffer: Vec<u8>,
    pub status: PpuStatus,
    pub data_buffer: u8,
    pub latch: u8,
    pub oam_addr: usize,
    pub oam_1: [u8; 256],
    pub eval: SpriteEval,
    pub sprites: SpriteLine,
    pub palette: [u8; 32],
    pub palette_rgba: [u32; 32],
    pub bg: Background,
    pub scroll: Scroll,
    pub ctrl: PpuCtrl,
    pub mask: PpuMask,
}

/// Every RGBA cache entry is the colour of its palette entry.
#[verifier::opaque]
pub open spec fn palette_cached(palette: [u8; 32], rgba: [u32; 32]) -> bool {
    forall|i: int| 0 <= i < 32 ==> #[trigger] rgba@[i] == rgba_of(palette@[i])
}

impl SpriteEval {
    pub open spec fn wf(&self) -> bool {
        self.n <= 64 && self.m <= 3 && self.scanline_count <= 8
    }
}

impl PpuCtrl {
    pub open spec fn wf(&self) -> bool {
        &&& self.vram_increment <= 1
        &&& self.sprite_table_addr <= 1
        &&& self.background_table_addr <= 1
        &&& self.sprite_size <= 1
    }
}

impl PpuState {
    /// The ranges that keep every buffer access in bounds, and the RGBA
    /// cache in step with the palette.  The dot counter may stand one past
    /// the last dot while a scanline is being finished.
    pub open spec fn wf_loose(&self) -> bool {
        &&& self.frame_buffer@.len() == FRAME_SIZE
        &&& self.beam.scanline <= 261
        &&& self.beam.tick <= 341
        &&& self.oam_addr < 256
        &&& self.bg.index < 24
        &&& self.scroll.x < 8
        &&& self.scroll.w <= 1
        &&& self.eval.wf()
        &&& self.ctrl.wf()
        &&& self.status.vblank <= 1
        &&& self.status.sprite_overflow <= 1
        &&& palette_cached(self.palette, self.palette_rgba)
    }

    pub open spec fn wf(&self) -> bool {
        self.wf_loose() && self.beam.tick <= 340
    }

    /// The fields that only CPU writes change: rendering leaves them alone.
    pub open spec fn registers_same(&self, old: &PpuState) -> bool {
        &&& self.scroll.t == old.scroll.t
        &&& self.scroll.x == old.scroll.x
        &&& self.scroll.w == old.scroll.w
        &&& self.latch == old.latch
        &&& self.oam_1 == old.oam_1
        &&& self.oam_addr == old.oam_addr
        &&& self.palette == old.palette
        &&& self.palette_rgba == old.palette_rgba
        &&& self.data_buffer == old.data_buffer
        &&& self.precise_timing == old.precise_timing
        &&& self.ctrl == old.ctrl
        &&& self.mask == old.mask
    }

    pub open spec fn rendering_enabled(&self) -> bool {
        self.mask.render_sprites || self.mask.render_background
    }

    pub fn new() -> (p: PpuState)
        ensures
            p.wf(),
            p.beam == (Beam { scanline: 0, tick: 0, frames: 0, cycles: 0 }),
            p.last_cpu_cycle == 7,
            !p.precise_timing,
            p.scroll == (Scroll { v: 0, t: 0, x: 0, w: 0 }),
            p.palette@ == Seq::new(32, |i: int| 0u8),
            p.frame_buffer@ == Seq::new(FRAME_SIZE as nat, |i: int| 0u8),
            p.status == (PpuStatus { is_rendering: false, sprite_overflow: 0, sprite0_hit: false, vblank: 0 }),
    {
        let mut p = PpuState {
            beam: Beam { scanline: 0, tick: 0, frames: 0, cycles: 0 },
            precise_timing: false,
            last_cpu_cycle: 7,
            frame_buffer: vec![0u8; FRAME_SIZE],
            status: PpuStatus { is_rendering: false, sprite_overflow: 0, sprite0_hit: false, vblank: 0 },
            data_buffer: 0,
            latch: 0,
            oam_addr: 0,
            oam_1: [0; 256],
            eval: SpriteEval { oam_2: [0; 32], n: 0, m: 0, read: 0, scanline_count: 0, has_sprite0: false },
            sprites: SpriteLine {
                buffer: [SpriteBufferData { id: 0xFF, color: 0, priority: false, sprite0: false, generation: 0 }; 256],
                generation: 0,
            },
            palette: [0; 32],
            palette_rgba: [0; 32],
            bg: Background { data: [0; 24], index: 0 },
            scroll: Scroll { v: 0, t: 0, x: 0, w: 0 },
            ctrl: PpuCtrl {
                vram_increment: 0,
                sprite_table_addr: 0,
                background_table_addr: 0,
                sprite_size: 0,
                master_slave: 0,
                generate_nmi: false,
            },
            mask: PpuMask {
                grayscale: false,
                show_sprites_left: false,
                show_background_left: false,
                render_sprites: false,
                render_background: false,
                emphasize_red: false,
                emphasize_green: false,
                emphasize_blue: false,
            },
        };
        p.update_palette_cache();
        assert(p.palette@ =~= Seq::new(32, |i: int| 0u8));
        p
    }

    /// Recomputes the RGBA value of every palette entry.
    pub fn update_palette_cache(&mut self)
        ensures
            palette_cached(final(self).palette, final(self).palette_rgba),
            *final(self) == (PpuState { palette_rgba: final(self).palette_rgba, ..*old(self) }),
    {
        let palette = self.palette;
        let mut rgba = self.palette_rgba;
        let mut i: usize = 0;
        while i < 32
            invariant
                i <= 32,
                forall|j: int| 0 <= j < i ==> #[trigger] rgba@[j] == rgba_of(palette@[j]),
            decreases 32 - i,
        {
            rgba[i] = palette_to_rgba(palette[i]);
            i += 1;
        }
        self.palette_rgba = rgba;
        reveal(palette_cached);
    }
}

/// The loopy `v` register after moving one pixel row down.
pub open spec fn scroll_y_next(v: u16) -> u16 {
    if v & 0x7000 != 0x7000 {
        (v + 0x1000) as u16
    } else {
        let v1 = v & 0x8FFF;
        let y = (v1 & 0x03E0) >> 5;
        if y == 29 {
            (v1 ^ 0x0800) & 0xFC1F
        } else if y == 31 {
            v1 & 0xFC1F
        } else {
            (v1 & 0xFC1F) | (((y + 1) as u16) << 5)
        }
    }
}

/// The loopy `v` register after moving one tile right.
pub open spec fn scroll_x_next(v: u16) -> u16 {
    if v & 0x001F == 31 {
        (v & 0xFFE0) ^ 0x0400
    } else {
        (v + 1) as u16
    }
}

/// Moves the VRAM address down one pixel row, wrapping into the next
/// nametable after row 29.
pub fn increment_scroll_y(ppu: &mut PpuState)
    ensures
        *final(ppu) == (PpuState { scroll: Scroll { v: scroll_y_next(old(ppu).scroll.v), ..old(ppu).scroll }, ..*old(ppu) }),
{
    let v = ppu.scroll.v;
    let nv = if v & 0x7000 != 0x7000 {
        proof { lemma_addr_fields(v); }
        v + 0x1000
    } else {
        let v1 = v & 0x8FFF;
        let y = (v1 & 0x03E0) >> 5;
        proof { lemma_addr_fields(v1); }
        if y == 29 {
            (v1 ^ 0x0800) & 0xFC1F
        } else if y == 31 {
            v1 & 0xFC1F
        } else {
            (v1 & 0xFC1F) | ((y + 1) << 5)
        }
    };
    ppu.scroll.v = nv;
}

/// Moves the VRAM address right one tile, wrapping into the next nametable
/// after column 31.
pub fn increment_scroll_x(ppu: &mut PpuState)
    ensures
        *final(ppu) == (PpuState { scroll: Scroll { v: scroll_x_next(old(ppu).scroll.v), ..old(ppu).scroll }, ..*old(ppu) }),
{
    let v = ppu.scroll.v;
    let nv = if v & 0x001F == 31 {
        (v & 0xFFE0) ^ 0x0400
    } else {
        proof { lemma_addr_fields(v); }
        v + 1
    };
    ppu.scroll.v = nv;
}

/// What rendering changes outside the video unit: only the board (through
/// its bus) and the CPU's pending interrupt.
pub open spec fn video_step(new: State, old: State) -> bool {
    &&& same_registers(new.cpu, old.cpu)
    &&& new.cpu.cycles == old.cpu.cycles
    &&& new.apu == old.apu
    &&& new.ram == old.ram
    &&& new.controller1 == old.controller1
    &&& new.controller2 == old.controller2
    &&& new.block_cache.slots@ == old.block_cache.slots@
    &&& new.mapper.wf()
    &&& new.mapper.id() == old.mapper.id()
}

/// The beam after one dot: the odd-frame skip drops the last dot of the
/// pre-render line when rendering is on, and the last scanline wraps to 0.
pub open spec fn beam_next(b: Beam, rendering_enabled: bool) -> Beam {
    let tick1 = b.tick + 1;
    let tick2 = if b.scanline == 261 && b.frames % 2 == 1 && tick1 == 340 && rendering_enabled { tick1 + 1 } else { tick1 };
    if tick2 >= 341 {
        Beam {
            tick: 0,
            scanline: if b.scanline + 1 > 261 { 0 } else { (b.scanline + 1) as u16 },
            cycles: ((b.cycles + 1) % 0x1_0000_0000_0000_0000) as u64,
            frames: b.frames,
        }
    } else {
        Beam { tick: tick2 as u16, cycles: ((b.cycles + 1) % 0x1_0000_0000_0000_0000) as u64, ..b }
    }
}

/// Advances the beam by one dot.
fn advance_beam(b: &mut Beam, rendering_enabled: bool)
    requires
        old(b).scanline <= 261,
        old(b).tick <= 340,
    ensures
        *final(b) == beam_next(*old(b), rendering_enabled),
        final(b).scanline <= 261,
        final(b).tick <= 340,
{
    b.cycles = b.cycles.wrapping_add(1);
    b.tick = b.tick + 1;
    let frames = b.frames;
    proof { lemma_parity(frames); }
    if b.scanline == 261 && (frames & 1 != 0) && b.tick == 340 && rendering_enabled {
        b.tick = b.tick + 1;
    }
    if b.tick >= 341 {
        b.tick = 0;
        b.scanline = b.scanline + 1;
        if b.scanline > 261 {
            b.scanline = 0;
        }
    }
}

/// The start of vertical blank: the flag goes up, rendering stops, the
/// frame count moves on and, if enabled, an NMI is raised.
fn enter_vblank(s: &mut State)
    requires
        old(s).wf_loose(),
    ensures
        final(s).wf_loose(),
        final(s).ppu.status.vblank == 1,
        !final(s).ppu.status.is_rendering,
        final(s).ppu.beam.frames == (old(s).ppu.beam.frames + 1) % 0x1_0000_0000_0000_0000,
        final(s).cpu.pending_interrupt == (if old(s).ppu.ctrl.generate_nmi { InterruptKind::NMI } else { old(s).cpu.pending_interrupt }),
        final(s).ppu.registers_same(&old(s).ppu),
        final(s).ppu.beam.tick == old(s).ppu.beam.tick,
        final(s).ppu.beam.scanline == old(s).ppu.beam.scanline,
        final(s).ppu.beam.cycles == old(s).ppu.beam.cycles,
        final(s).ppu.last_cpu_cycle == old(s).ppu.last_cpu_cycle,
        video_step(*final(s), *old(s)),
{
    if s.ppu.ctrl.generate_nmi {
        s.cpu.pending_interrupt = InterruptKind::NMI;
    }
    s.ppu.status = PpuStatus { is_rendering: false, vblank: 1, ..s.ppu.status };
    s.ppu.beam.frames = s.ppu.beam.frames.wrapping_add(1);
}

/// Whether the video unit's work left the CPU's pending interrupt `old`
/// alone, or raised an NMI, which it does only with NMI generation on.
pub open spec fn pending_after_video(new_pending: InterruptKind, old_pending: InterruptKind, generate_nmi: bool) -> bool {
    new_pending == old_pending || (new_pending == InterruptKind::NMI && generate_nmi)
}

/// The CPU cycles that the video unit is behind.
pub open spec fn cycles_behind(s: State) -> int {
    (s.cpu.cycles - s.ppu.last_cpu_cycle) % 0x1_0000_0000_0000_0000
}

/// Runs the unit dot by dot for `cycles` dots.
pub fn emulate_precise(s: &mut State, cycles: u64)
    requires
        old(s).wf(),
    ensures
        final(s).wf(),
        final(s).ppu.registers_same(&old(s).ppu),
        final(s).ppu.last_cpu_cycle == old(s).cpu.cycles,
        video_step(*final(s), *old(s)),
        pending_after_video(final(s).cpu.pending_interrupt, old(s).cpu.pending_interrupt, old(s).ppu.ctrl.generate_nmi),
        final(s).ppu.beam.cycles == (old(s).ppu.beam.cycles + cycles) % 0x1_0000_0000_0000_0000,
{
    s.ppu.last_cpu_cycle = s.cpu.cycles;
    let mut cycles_left = cycles;
    while cycles_left > 0
        invariant
            s.wf(),
            s.ppu.registers_same(&old(s).ppu),
            s.ppu.last_cpu_cycle == old(s).cpu.cycles,
            video_step(*s, *old(s)),
            pending_after_video(s.cpu.pending_interrupt, old(s).cpu.pending_interrupt, old(s).ppu.ctrl.generate_nmi),
            s.ppu.beam.cycles == (old(s).ppu.beam.cycles + (cycles - cycles_left)) % 0x1_0000_0000_0000_0000,
            cycles_left <= cycles,
        decreases cycles_left,
    {
        let rendering_enabled = s.ppu.mask.render_sprites || s.ppu.mask.render_background;
        let scanline = s.ppu.beam.scanline;
        let tick = s.ppu.beam.tick;
        dot(s, scanline, tick, rendering_enabled);
        if scanline == 241 && tick == 1 {
            enter_vblank(s);
        }
        advance_beam(&mut s.ppu.beam, rendering_enabled);
        cycles_left = cycles_left - 1;
    }
}

/// Runs the unit for `cycles_left` dots, jumping over the scanlines that
/// draw nothing and running each visible scanline in one batch.
pub fn emulate_batched(s: &mut State, cycles_left: u64)
    requires
        old(s).wf(),
    ensures
        final(s).wf(),
        final(s).ppu.registers_same(&old(s).ppu),
        final(s).ppu.last_cpu_cycle == old(s).cpu.cycles,
        video_step(*final(s), *old(s)),
        pending_after_video(final(s).cpu.pending_interrupt, old(s).cpu.pending_interrupt, old(s).ppu.ctrl.generate_nmi),
        final(s).ppu.beam.cycles == (old(s).ppu.beam.cycles + cycles_left) % 0x1_0000_0000_0000_0000,
{
    s.ppu.last_cpu_cycle = s.cpu.cycles;
    let ghost old_cycles = cycles_left;
    let mut cycles_left = cycles_left;
    while cycles_left > 0
        invariant
            s.wf(),
            s.ppu.registers_same(&old(s).ppu),
            s.ppu.last_cpu_cycle == old(s).cpu.cycles,
            video_step(*s, *old(s)),
            pending_after_video(s.cpu.pending_interrupt, old(s).cpu.pending_interrupt, old(s).ppu.ctrl.generate_nmi),
            s.ppu.beam.cycles == (old(s).ppu.beam.cycles + (old_cycles - cycles_left)) % 0x1_0000_0000_0000_0000,
            cycles_left <= old_cycles,
        decreases cycles_left,
    {
        let rendering_enabled = s.ppu.mask.render_sprites || s.ppu.mask.render_background;
        let b = s.ppu.beam;
        if b.scanline >= 240 && b.scanline < 261 {
            if b.scanline == 241 && b.tick == 0 {
                s.ppu.beam = Beam { tick: 1, cycles: b.cycles.wrapping_add(1), ..b };
                cycles_left = cycles_left - 1;
                enter_vblank(s);
                continue;
            }
            let ticks_to_end = 341 - b.tick;
            let step: u16 = if cycles_left < ticks_to_end as u64 { cycles_left as u16 } else { ticks_to_end };
            let t = b.tick + step;
            cycles_left = cycles_left - step as u64;
            if t >= 341 {
                s.ppu.beam = Beam { tick: 0, scanline: b.scanline + 1, cycles: b.cycles.wrapping_add(step as u64), ..b };
            } else {
                s.ppu.beam = Beam { tick: t, cycles: b.cycles.wrapping_add(step as u64), ..b };
            }
            continue;
        }
        let ticks_to_end = 341 - b.tick;
        if cycles_left >= ticks_to_end as u64 {
            run_batched_active_scanline(s, b.tick, 341, rendering_enabled);
            cycles_left = cycles_left - ticks_to_end as u64;
            let b2 = s.ppu.beam;
            let next = if b2.scanline + 1 > 261 { 0 } else { b2.scanline + 1 };
            s.ppu.beam = Beam { tick: 0, scanline: next, cycles: b2.cycles.wrapping_add(ticks_to_end as u64), ..b2 };
        } else {
            let end_tick = b.tick + cycles_left as u16;
            run_batched_active_scanline(s, b.tick, end_tick, rendering_enabled);
            let b2 = s.ppu.beam;
            s.ppu.beam = Beam { tick: end_tick, cycles: b2.cycles.wrapping_add(cycles_left), ..b2 };
            cycles_left = 0;
        }
    }
}

/// The VRAM address after dot `tick` of `scanline` from scroll registers
/// `sc`: on a rendering dot the pre-render reload at dot 304, then the
/// scroll steps of the dot; otherwise unchanged.
pub open spec fn v_after_dot(sc: Scroll, scanline: u16, tick: u16, rendering_enabled: bool) -> u16 {
    if rendering_dot(scanline, rendering_enabled) {
        let v = if scanline == 261 && tick == 304 { (sc.v & 0x841F) | (sc.t & 0x7BE0) } else { sc.v };
        scroll_after_dot(Scroll { v, ..sc }, tick)
    } else {
        sc.v
    }
}

/// The VRAM address after dots `from` up to (not including) `to` of
/// `scanline`, starting from scroll registers `sc`.
pub open spec fn v_after_dots(sc: Scroll, scanline: u16, from: int, to: int, rendering_enabled: bool) -> u16
    decreases to - from,
{
    if to <= from {
        sc.v
    } else {
        let v = v_after_dots(sc, scanline, from, to - 1, rendering_enabled);
        v_after_dot(Scroll { v, ..sc }, scanline, (to - 1) as u16, rendering_enabled)
    }
}

/// The beam's dot after dot `tick` of `scanline` ran: the pre-render line of
/// an odd frame skips its last dot when rendering is on.
pub open spec fn tick_after_dot(scanline: u16, frames: u64, tick: int, rendering_enabled: bool) -> int {
    if scanline == 261 && frames & 1 != 0 && tick == 340 && rendering_enabled { 341 } else { tick }
}

/// Runs dots `start_tick` up to (not including) `end_tick` of the current
/// visible or pre-render scanline.
pub fn run_batched_active_scanline(s: &mut State, start_tick: u16, end_tick: u16, rendering_enabled: bool)
    requires
        old(s).wf_loose(),
        start_tick <= end_tick <= 341,
    ensures
        final(s).wf_loose(),
        final(s).ppu.registers_same(&old(s).ppu),
        final(s).ppu.beam.scanline == old(s).ppu.beam.scanline,
        final(s).ppu.beam.frames == old(s).ppu.beam.frames,
        final(s).ppu.beam.cycles == old(s).ppu.beam.cycles,
        final(s).ppu.last_cpu_cycle == old(s).ppu.last_cpu_cycle,
        video_step(*final(s), *old(s)),
        final(s).cpu.pending_interrupt == old(s).cpu.pending_interrupt,
        final(s).ppu.scroll.v == v_after_dots(old(s).ppu.scroll, old(s).ppu.beam.scanline,
            start_tick as int, end_tick as int, rendering_enabled),
        final(s).ppu.beam.tick == (if start_tick < end_tick {
            tick_after_dot(old(s).ppu.beam.scanline, old(s).ppu.beam.frames, end_tick - 1, rendering_enabled)
        } else {
            old(s).ppu.beam.tick as int
        }),
{
    let scanline = s.ppu.beam.scanline;
    let mut tick = start_tick;
    while tick < end_tick
        invariant
            start_tick <= tick <= end_tick <= 341,
            s.wf_loose(),
            s.ppu.registers_same(&old(s).ppu),
            s.ppu.beam.scanline == scanline,
            scanline == old(s).ppu.beam.scanline,
            s.ppu.beam.frames == old(s).ppu.beam.frames,
            s.ppu.beam.cycles == old(s).ppu.beam.cycles,
            s.ppu.last_cpu_cycle == old(s).ppu.last_cpu_cycle,
            video_step(*s, *old(s)),
            s.cpu.pending_interrupt == old(s).cpu.pending_interrupt,
            s.ppu.scroll.v == v_after_dots(old(s).ppu.scroll, scanline, start_tick as int, tick as int, rendering_enabled),
            s.ppu.beam.tick == (if start_tick < tick {
                tick_after_dot(scanline, old(s).ppu.beam.frames, tick - 1, rendering_enabled)
            } else {
                old(s).ppu.beam.tick as int
            }),
        decreases end_tick - tick,
    {
        assert(s.ppu.scroll == (Scroll { v: s.ppu.scroll.v, ..old(s).ppu.scroll }));
        s.ppu.beam.tick = tick;
        dot(s, scanline, tick, rendering_enabled);
        if scanline == 261 && (s.ppu.beam.frames & 1 != 0) && tick == 340 && rendering_enabled {
            s.ppu.beam.tick = tick + 1;
        }
        tick = tick + 1;
    }
}

/// Runs the unit up to the CPU's cycle: three dots per CPU cycle.
pub fn catch_up(s: &mut State)
    requires
        old(s).wf(),
    ensures
        final(s).wf(),
        final(s).ppu.registers_same(&old(s).ppu),
        final(s).ppu.last_cpu_cycle == final(s).cpu.cycles,
        video_step(*final(s), *old(s)),
        old(s).ppu.last_cpu_cycle == old(s).cpu.cycles ==> *final(s) == *old(s),
        pending_after_video(final(s).cpu.pending_interrupt, old(s).cpu.pending_interrupt, old(s).ppu.ctrl.generate_nmi),
        final(s).ppu.beam.cycles == (old(s).ppu.beam.cycles + 3 * cycles_behind(*old(s))) % 0x1_0000_0000_0000_0000,
{
    let cpu_cycles = s.cpu.cycles.wrapping_sub(s.ppu.last_cpu_cycle);
    if cpu_cycles == 0 {
        return;
    }
    let dots = cpu_cycles.wrapping_mul(3);
    if s.ppu.precise_timing {
        emulate_precise(s, dots);
    } else {
        emulate_batched(s, dots);
    }
}

/// The PPUSTATUS byte: the open-bus bits of the latch, then sprite
/// overflow, sprite-0 hit and vertical blank.
pub open spec fn status_byte(p: PpuState) -> u8 {
    ((p.latch & 0x1F) | (p.status.sprite_overflow << 5) | ((if p.status.sprite0_hit { 1u8 } else { 0u8 }) << 6)
        | (p.status.vblank << 7)) as u8
}

/// The step that a PPUDATA access adds to the VRAM address: 1, or 32
/// when the control register selects vertical increments.
pub open spec fn vram_increment(ctrl: PpuCtrl) -> int {
    if ctrl.vram_increment == 0 { 1 } else { 32 }
}

/// The VRAM address after a PPUDATA access at `v`.
pub open spec fn vram_step(v: u16, ctrl: PpuCtrl) -> u16 {
    ((v + vram_increment(ctrl)) % 0x10000) as u16
}

/// The VRAM address that a PPUDATA access used, given the address it left.
pub open spec fn data_address_before(v_after: u16, ctrl: PpuCtrl) -> int {
    (v_after - vram_increment(ctrl) + 0x10000) % 0x10000
}

/// The byte that the PPU bus holds at `addr`: the cartridge below the
/// palette, the palette above it.
pub open spec fn ppu_bus_value(s: State, addr: u16) -> u8 {
    if (addr & 0x3FFF) < 0x3F00 {
        s.mapper.peek_value(addr & 0x3FFF)
    } else {
        s.ppu.palette@[palette_index(addr)]
    }
}

/// A CPU read of register `register` (0 to 7).  Status reads clear the
/// vertical-blank flag and the write toggle; data reads go through the
/// read buffer below the palette.  Write-only registers read back the latch.
pub fn peek_register(s: &mut State, register: u16) -> (r: u8)
    requires
        old(s).wf(),
        register < 8,
    ensures
        final(s).wf(),
        video_step(*final(s), *old(s)),
        final(s).ppu.last_cpu_cycle == final(s).cpu.cycles,
        r == final(s).ppu.latch,
        register == 2 ==> final(s).ppu.status.vblank == 0 && final(s).ppu.scroll.w == 0,
        register == 4 ==> r == old(s).ppu.oam_1@[old(s).ppu.oam_addr as int],
        register != 2 && register != 4 && register != 7 ==> r == old(s).ppu.latch
            && final(s).ppu.registers_same(&old(s).ppu),
        final(s).ppu.oam_1 == old(s).ppu.oam_1,
        final(s).ppu.palette == old(s).ppu.palette,
        final(s).ppu.ctrl == old(s).ppu.ctrl,
        register == 2 ==> exists|p: PpuState| #[trigger] status_byte(p) == r && p.latch == old(s).ppu.latch
            && final(s).ppu.status == (PpuStatus { vblank: 0, ..p.status }),
        register == 2 && old(s).ppu.last_cpu_cycle == old(s).cpu.cycles ==> r == status_byte(old(s).ppu),
        register == 7 && data_address_before(final(s).ppu.scroll.v, old(s).ppu.ctrl) <= 0x3EFF
            ==> r == old(s).ppu.data_buffer,
        register == 7 && old(s).ppu.last_cpu_cycle == old(s).cpu.cycles ==> final(s).ppu.scroll.v
            == vram_step(old(s).ppu.scroll.v, old(s).ppu.ctrl),
        register == 7 && old(s).ppu.last_cpu_cycle == old(s).cpu.cycles && old(s).ppu.scroll.v <= 0x3EFF
            ==> final(s).ppu.data_buffer == ppu_bus_value(*old(s), old(s).ppu.scroll.v),
        register == 7 && old(s).ppu.last_cpu_cycle == old(s).cpu.cycles && old(s).ppu.scroll.v > 0x3EFF
            ==> r == ppu_bus_value(*old(s), old(s).ppu.scroll.v),
{
    catch_up(s);
    let ghost caught = s.ppu;
    let latch = if register == 2 {
        let st = s.ppu.status;
        let data = (s.ppu.latch & 0x1F) | (st.sprite_overflow << 5)
            | ((if st.sprite0_hit { 1u8 } else { 0u8 }) << 6) | (st.vblank << 7);
        s.ppu.status = PpuStatus { vblank: 0, ..st };
        s.ppu.scroll.w = 0;
        assert(status_byte(caught) == data);
        data
    } else if register == 4 {
        s.ppu.oam_1[s.ppu.oam_addr]
    } else if register == 7 {
        let v = s.ppu.scroll.v;
        let fetched = s.ppu_peek(v);
        let data = if v <= 0x3EFF {
            let buffered = s.ppu.data_buffer;
            s.ppu.data_buffer = fetched;
            buffered
        } else {
            let below = s.ppu_peek(v - 0x1000);
            s.ppu.data_buffer = below;
            fetched
        };
        let inc: u16 = if s.ppu.ctrl.vram_increment == 0 { 1 } else { 32 };
        s.ppu.scroll.v = v.wrapping_add(inc);
        assert(data_address_before(s.ppu.scroll.v, s.ppu.ctrl) == v);
        data
    } else {
        s.ppu.latch
    };
    s.ppu.latch = latch;
    latch
}

/// PPUCTRL as written: nametable bits go to `t`, the rest to the flags.
pub open spec fn ctrl_of(data: u8) -> PpuCtrl {
    PpuCtrl {
        vram_increment: (data >> 2) & 1,
        sprite_table_addr: (data >> 3) & 1,
        background_table_addr: (data >> 4) & 1,
        sprite_size: (data >> 5) & 1,
        master_slave: (data >> 6) & 1,
        generate_nmi: data >> 7 == 1,
    }
}

/// PPUMASK as written.
pub open spec fn mask_of(data: u8) -> PpuMask {
    PpuMask {
        grayscale: data & 1 != 0,
        show_background_left: data & 2 != 0,
        show_sprites_left: data & 4 != 0,
        render_background: data & 8 != 0,
        render_sprites: data & 0x10 != 0,
        emphasize_red: data & 0x20 != 0,
        emphasize_green: data & 0x40 != 0,
        emphasize_blue: data & 0x80 != 0,
    }
}

/// The scroll registers after a write to PPUSCROLL (register 5).
pub open spec fn scroll_after_5(sc: Scroll, data: u8) -> Scroll {
    if sc.w == 0 {
        Scroll { t: (sc.t & 0xFFE0) | ((data >> 3) as u16), x: (data & 7) as u16, w: 1, ..sc }
    } else {
        Scroll { t: (sc.t & 0x8C1F) | (((data & 7) as u16) << 12) | (((data & 0xF8) as u16) << 2), w: 0, ..sc }
    }
}

/// The scroll registers after a write to PPUADDR (register 6).
pub open spec fn scroll_after_6(sc: Scroll, data: u8) -> Scroll {
    if sc.w == 0 {
        Scroll { t: (sc.t & 0x80FF) | (((data & 0x3F) as u16) << 8), w: 1, ..sc }
    } else {
        let t = (sc.t & 0xFF00) | (data as u16);
        Scroll { t, v: t, w: 0, ..sc }
    }
}

fn write_ctrl(ppu: &mut PpuState, data: u8)
    requires
        old(ppu).wf_loose(),
    ensures
        final(ppu).wf_loose(),
        *final(ppu) == (PpuState {
            ctrl: ctrl_of(data),
            scroll: Scroll { t: (old(ppu).scroll.t & 0xF3FF) | (((data & 3) as u16) << 10), ..old(ppu).scroll },
            ..*old(ppu)
        }),
{
    let t = (ppu.scroll.t & 0b1111_0011_1111_1111) | (((data & 0b11) as u16) << 10);
    ppu.scroll.t = t;
    let c = PpuCtrl {
        vram_increment: (data >> 2) & 0x1,
        sprite_table_addr: (data >> 3) & 0x1,
        background_table_addr: (data >> 4) & 0x1,
        sprite_size: (data >> 5) & 0x1,
        master_slave: (data >> 6) & 0x1,
        generate_nmi: (data >> 7) & 0x1 > 0,
    };
    proof { lemma_byte_fields(data); lemma_and_bounds(); }
    ppu.ctrl = c;
}

fn write_mask(ppu: &mut PpuState, data: u8)
    requires
        old(ppu).wf_loose(),
    ensures
        final(ppu).wf_loose(),
        *final(ppu) == (PpuState { mask: mask_of(data), ..*old(ppu) }),
{
    let m = PpuMask {
        grayscale: data & 0x1 > 0,
        show_background_left: (data >> 1) & 0x1 > 0,
        show_sprites_left: (data >> 2) & 0x1 > 0,
        render_background: (data >> 3) & 0x1 > 0,
        render_sprites: (data >> 4) & 0x1 > 0,
        emphasize_red: (data >> 5) & 0x1 > 0,
        emphasize_green: (data >> 6) & 0x1 > 0,
        emphasize_blue: (data >> 7) & 0x1 > 0,
    };
    proof { lemma_byte_fields(data); }
    ppu.mask = m;
}

fn write_scroll(sc: &mut Scroll, data: u8)
    requires
        old(sc).x < 8,
        old(sc).w <= 1,
    ensures
        *final(sc) == scroll_after_5(*old(sc), data),
        final(sc).x < 8,
        final(sc).w <= 1,
{
    if sc.w == 0 {
        sc.t = (sc.t & 0b1111_1111_1110_0000) | ((data & 0b11111000) as u16 >> 3);
        proof { lemma_byte_fields(data); }
        sc.x = (data & 0b111) as u16;
        proof { lemma_and_bounds(); }
        sc.w = 1;
    } else {
        sc.t = (sc.t & 0b1000_1100_0001_1111)
            | ((data & 0b0000_0111) as u16) << 12
            | ((data & 0b1111_1000) as u16) << 2;
        sc.w = 0;
    }
}

fn write_addr(sc: &mut Scroll, data: u8)
    requires
        old(sc).x < 8,
        old(sc).w <= 1,
    ensures
        *final(sc) == scroll_after_6(*old(sc), data),
        final(sc).x < 8,
        final(sc).w <= 1,
{
    if sc.w == 0 {
        sc.t = (sc.t & 0b1000_0000_1111_1111) | ((data & 0b0011_1111) as u16) << 8;
        sc.w = 1;
    } else {
        sc.t = (sc.t & 0xFF00) | (data as u16);
        sc.v = sc.t;
        sc.w = 0;
    }
}

/// OAM after a DMA from work-RAM page `page` that started at OAM address
/// `start`: the page's byte `j` lands at `start + j`, wrapping.
pub open spec fn dma_oam(s: State, page: u8, start: int) -> Seq<u8> {
    Seq::new(256, |k: int| s.ram_at((page as int * 256 + (k - start) % 256) as u16))
}

/// The address of byte `i` of page `page`.
proof fn lemma_page_offset(page: u8, i: u16)
    by (bit_vector)
    requires
        i < 256,
    ensures
        ((page as u16) << 8) | i == (page as u16) * 256 + i,
        page < 0x20 ==> ((page as u16) << 8) | i < 0x2000,
{
}

/// Sprite DMA: copies the 256 bytes of CPU page `data` into OAM, starting
/// at the OAM address; the CPU stalls for 513 cycles, one more on an odd
/// cycle.
fn oam_dma(s: &mut State, data: u8)
    requires
        old(s).wf(),
    ensures
        final(s).wf(),
        same_registers(final(s).cpu, old(s).cpu),
        final(s).ram == old(s).ram,
        final(s).block_cache.slots@ == old(s).block_cache.slots@,
        final(s).mapper.id() == old(s).mapper.id(),
        final(s).cpu.cycles == (old(s).cpu.cycles + 513 + old(s).cpu.cycles % 2) % 0x1_0000_0000_0000_0000,
        data < 0x20 ==> final(s).ppu.oam_1@ == dma_oam(*old(s), data, old(s).ppu.oam_addr as int)
            && final(s).ppu.oam_addr == old(s).ppu.oam_addr,
{
    let cpu_cycles = s.cpu.cycles;
    let addr = (data as u16) << 8;
    let ghost a0 = s.ppu.oam_addr as int;
    let mut i: u16 = 0;
    while i < 256
        invariant
            i <= 256,
            s.wf(),
            same_registers(s.cpu, old(s).cpu),
            s.ram == old(s).ram,
            s.block_cache.slots@ == old(s).block_cache.slots@,
            s.mapper.id() == old(s).mapper.id(),
            cpu_cycles == old(s).cpu.cycles,
            addr == (data as u16) << 8,
            a0 == old(s).ppu.oam_addr,
            data < 0x20 ==> s.ppu.oam_addr == (a0 + i) % 256,
            data < 0x20 ==> forall|k: int| 0 <= k < 256 ==> #[trigger] s.ppu.oam_1@[k] == (if (k - a0) % 256 < i {
                old(s).ram_at((data as int * 256 + (k - a0) % 256) as u16)
            } else {
                old(s).ppu.oam_1@[k]
            }),
        decreases 256 - i,
    {
        proof { lemma_page_offset(data, i); }
        let byte = s.cpu_peek(addr | i);
        let a = s.ppu.oam_addr;
        s.ppu.oam_1[a] = byte;
        s.ppu.oam_addr = (a + 1) % 256;
        i += 1;
    }
    proof {
        if data < 0x20 {
            assert(s.ppu.oam_1@ =~= dma_oam(*old(s), data, a0));
        }
    }
    s.cpu.cycles = cpu_cycles.wrapping_add(513).wrapping_add(cpu_cycles & 0x1);
    proof { lemma_parity(cpu_cycles); }
}

/// A CPU write to register `register` (0 to 7, or 0x4014 for sprite DMA).
pub fn poke_register(s: &mut State, register: u16, data: u8)
    requires
        old(s).wf(),
        register < 8 || register == 0x4014,
    ensures
        final(s).wf(),
        same_registers(final(s).cpu, old(s).cpu),
        final(s).ram == old(s).ram,
        final(s).block_cache.slots@ == old(s).block_cache.slots@,
        final(s).mapper.id() == old(s).mapper.id(),
        register != 0x4014 ==> final(s).ppu.latch == data && final(s).apu == old(s).apu
            && final(s).cpu.cycles == old(s).cpu.cycles
            && final(s).controller1 == old(s).controller1 && final(s).controller2 == old(s).controller2,
        register == 0x4014 ==> final(s).cpu.cycles == (old(s).cpu.cycles + 513 + old(s).cpu.cycles % 2) % 0x1_0000_0000_0000_0000,
        register == 0 ==> final(s).ppu.ctrl == ctrl_of(data)
            && final(s).ppu.scroll.t == (old(s).ppu.scroll.t & 0xF3FF) | (((data & 3) as u16) << 10),
        register == 1 ==> final(s).ppu.mask == mask_of(data),
        register == 3 ==> final(s).ppu.oam_addr == data as usize,
        register == 5 ==> final(s).ppu.scroll.t == scroll_after_5(old(s).ppu.scroll, data).t
            && final(s).ppu.scroll.x == scroll_after_5(old(s).ppu.scroll, data).x
            && final(s).ppu.scroll.w == scroll_after_5(old(s).ppu.scroll, data).w,
        register == 6 ==> final(s).ppu.scroll.t == scroll_after_6(old(s).ppu.scroll, data).t
            && final(s).ppu.scroll.w == scroll_after_6(old(s).ppu.scroll, data).w,
        register == 6 && old(s).ppu.scroll.w == 1 ==> final(s).ppu.scroll.v == final(s).ppu.scroll.t,
        register == 4 ==> (final(s).ppu.oam_1@ == old(s).ppu.oam_1@.update(old(s).ppu.oam_addr as int, data)
            && final(s).ppu.oam_addr == (old(s).ppu.oam_addr + 1) % 256)
            || (final(s).ppu.oam_1 == old(s).ppu.oam_1 && final(s).ppu.oam_addr == old(s).ppu.oam_addr),
        register == 4 && old(s).ppu.last_cpu_cycle == old(s).cpu.cycles && !old(s).ppu.status.is_rendering
            ==> final(s).ppu.oam_1@ == old(s).ppu.oam_1@.update(old(s).ppu.oam_addr as int, data)
            && final(s).ppu.oam_addr == (old(s).ppu.oam_addr + 1) % 256,
        register == 7 && old(s).ppu.last_cpu_cycle == old(s).cpu.cycles ==> final(s).ppu.scroll.v
            == old(s).ppu.scroll.v.wrapping_add(if old(s).ppu.ctrl.vram_increment == 0 { 1u16 } else { 32u16 }),
        register == 7 && old(s).ppu.last_cpu_cycle == old(s).cpu.cycles && (old(s).ppu.scroll.v & 0x3FFF) >= 0x3F00
            ==> final(s).ppu.palette@ == old(s).ppu.palette@.update(palette_index(old(s).ppu.scroll.v), data),
        register == 7 && old(s).ppu.last_cpu_cycle == old(s).cpu.cycles && (old(s).ppu.scroll.v & 0x3FFF) < 0x3F00
            ==> old(s).mapper.written(old(s).ppu.scroll.v & 0x3FFF, data, final(s).mapper),
        register == 0x4014 && data < 0x20 ==> final(s).ppu.oam_1@ == dma_oam(*old(s), data, old(s).ppu.oam_addr as int)
            && final(s).ppu.oam_addr == old(s).ppu.oam_addr,
        register == 0 && old(s).ppu.last_cpu_cycle == old(s).cpu.cycles && !old(s).ppu.ctrl.generate_nmi
            && ctrl_of(data).generate_nmi && old(s).ppu.status.vblank == 1
            ==> final(s).cpu.pending_interrupt == InterruptKind::NMI,
{
    catch_up(s);
    s.ppu.latch = data;
    if register == 0 {
        let old_nmi = s.ppu.ctrl.generate_nmi;
        write_ctrl(&mut s.ppu, data);
        if !old_nmi && s.ppu.ctrl.generate_nmi && s.ppu.status.vblank == 1 {
            s.cpu.pending_interrupt = InterruptKind::NMI;
        }
    } else if register == 1 {
        write_mask(&mut s.ppu, data);
    } else if register == 3 {
        s.ppu.oam_addr = data as usize;
    } else if register == 4 {
        if !s.ppu.status.is_rendering {
            let a = s.ppu.oam_addr;
            s.ppu.oam_1[a] = data;
            s.ppu.oam_addr = (a + 1) % 256;
        }
    } else if register == 5 {
        write_scroll(&mut s.ppu.scroll, data);
    } else if register == 6 {
        write_addr(&mut s.ppu.scroll, data);
    } else if register == 7 {
        let v = s.ppu.scroll.v;
        s.ppu_poke(v, data);
        let inc: u16 = if s.ppu.ctrl.vram_increment == 0 { 1 } else { 32 };
        s.ppu.scroll.v = v.wrapping_add(inc);
    } else if register == 0x4014 {
        oam_dma(s, data);
    }
}

} // verus!
