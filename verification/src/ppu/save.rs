//! Saving and restoring the picture unit.
use vstd::prelude::*;
use crate::save_state::{word_fits, byte_fits, flag_fits, flags_fit, vec_fits, vec_len};
use vstd::bytes::spec_u32_from_le_bytes;
use crate::nes::FRAME_SIZE;
use crate::ppu::{PpuState, SpriteBufferData, PpuMask};
use crate::save_state::{
    WriteState, ReadState, StateReader, StateError, bool_bytes, u16_bytes, u32_bytes, u64_bytes, usize_bytes,
    vec_bytes, bools_bytes, write_bool_array, read_bool_array, write_byte_vec, read_byte_vec_exact, read_bool_strict, read_u16_le, read_u32_le, read_u64_le,
    read_usize_at_most, read_u8_at_most,
};

verus! {

/// The bytes of one sprite-line pixel; its generation is not saved.
pub open spec fn sprite_data_bytes(d: SpriteBufferData) -> Seq<u8> {
    seq![d.id, d.color] + bool_bytes(d.priority) + bool_bytes(d.sprite0)
}

pub open spec fn sprite_buffer_bytes(s: Seq<SpriteBufferData>) -> Seq<u8>
    decreases s.len(),
{
    if s.len() == 0 {
        Seq::empty()
    } else {
        sprite_buffer_bytes(s.drop_last()) + sprite_data_bytes(s.last())
    }
}

/// Each sprite-line pixel takes four bytes.
pub proof fn lemma_sprite_buffer_bytes_len(s: Seq<SpriteBufferData>)
    ensures
        sprite_buffer_bytes(s).len() == 4 * s.len(),
    decreases s.len(),
{
    if s.len() > 0 {
        lemma_sprite_buffer_bytes_len(s.drop_last());
    }
}

impl WriteState for SpriteBufferData {
    open spec fn state_bytes(&self) -> Seq<u8> {
        sprite_data_bytes(*self)
    }

    fn write(&self, writer: &mut Vec<u8>) {
        self.id.write(writer);
        self.color.write(writer);
        self.priority.write(writer);
        self.sprite0.write(writer);
        assert(writer@ =~= old(writer)@ + sprite_data_bytes(*self));
    }
}

/// Whether a sprite line pixel can be read from `r`: four bytes, the
/// last two flag bytes.
pub open spec fn sprite_data_fits(r: Seq<u8>) -> bool {
    &&& r.len() >= 4
    &&& flag_fits(r.skip(2))
    &&& flag_fits(r.skip(3))
}

/// Whether pixel `i` of a saved sprite line can be read from `r`.
pub open spec fn sprite_entry_fits(r: Seq<u8>, i: int) -> bool {
    sprite_data_fits(r.skip(4 * i))
}

/// Whether a whole sprite line of 256 pixels can be read from `r`.
pub open spec fn sprite_buffer_fits(r: Seq<u8>) -> bool {
    &&& r.len() >= 1024
    &&& forall|i: int| 0 <= i < 256 ==> #[trigger] sprite_entry_fits(r, i)
}

/// Whether the beam part can be read from `r`: a scanline up to 261 and
/// a dot up to 340.
pub open spec fn beam_fits(r: Seq<u8>) -> bool {
    &&& r.len() >= 28
    &&& vstd::bytes::spec_u16_from_le_bytes(r.take(2)) <= 261
    &&& vstd::bytes::spec_u16_from_le_bytes(r.skip(2).take(2)) <= 340
}

/// Whether the status part can be read from `r`.
pub open spec fn status_fits(r: Seq<u8>) -> bool {
    &&& r.len() >= 6
    &&& flag_fits(r)
    &&& byte_fits(r.skip(3), 1)
    &&& flag_fits(r.skip(4))
    &&& byte_fits(r.skip(5), 1)
}

/// Whether the sprite memory and evaluation part can be read from `r`.
pub open spec fn oam_fits(r: Seq<u8>) -> bool {
    &&& r.len() >= 322
    &&& word_fits(r, 255)
    &&& word_fits(r.skip(296), 64)
    &&& word_fits(r.skip(304), 3)
    &&& word_fits(r.skip(313), 8)
    &&& flag_fits(r.skip(321))
}

/// Whether the palette and background shifter part can be read from `r`.
pub open spec fn bg_fits(r: Seq<u8>) -> bool {
    &&& r.len() >= 64
    &&& word_fits(r.skip(56), 23)
}

/// Whether the scroll and control part can be read from `r`: a fine X
/// below 8 and one-bit fields of 0 or 1.
pub open spec fn scroll_ctrl_fits(r: Seq<u8>) -> bool {
    &&& r.len() >= 13
    &&& byte_fits(r.skip(6), 1)
    &&& byte_fits(r.skip(7), 1)
    &&& byte_fits(r.skip(8), 1)
    &&& byte_fits(r.skip(9), 1)
    &&& byte_fits(r.skip(10), 1)
    &&& flag_fits(r.skip(12))
    &&& vstd::bytes::spec_u16_from_le_bytes(r.skip(4).take(2)) <= 7
}

/// Whether everything but the two trailing fields of a picture unit can
/// be read from `r`.
pub open spec fn ppu_core_fits(r: Seq<u8>) -> bool {
    let k = 28 + 8 + FRAME_SIZE;
    &&& beam_fits(r)
    &&& vec_fits(r.skip(28))
    &&& vec_len(r.skip(28)) == FRAME_SIZE
    &&& status_fits(r.skip(k))
    &&& oam_fits(r.skip(k + 6))
    &&& sprite_buffer_fits(r.skip(k + 328))
    &&& bg_fits(r.skip(k + 1352))
    &&& scroll_ctrl_fits(r.skip(k + 1416))
    &&& flags_fit(r.skip(k + 1429), 8)
}

impl SpriteBufferData {
    /// Reads a pixel saved by `write`, with generation 0.
    pub fn read_state(reader: &mut StateReader) -> (res: Result<SpriteBufferData, StateError>)
        requires
            old(reader).wf(),
        ensures
            final(reader).wf(),
            final(reader).data@ == old(reader).data@,
            res is Ok <==> sprite_data_fits(old(reader).rest()),
            res matches Ok(d) ==> d.generation == 0 && final(reader).pos == old(reader).pos + 4
                && old(reader).rest().take(4) == sprite_data_bytes(d),
    {
        let ghost r0 = reader.rest();
        let id = u8::read(reader)?;
        assert(reader.rest() =~= r0.skip(1));
        let color = u8::read(reader)?;
        assert(reader.rest() =~= r0.skip(2));
        let priority = read_bool_strict(reader)?;
        assert(reader.rest() =~= r0.skip(3));
        let sprite0 = read_bool_strict(reader)?;
        let d = SpriteBufferData { id, color, priority, sprite0, generation: 0 };
        assert(r0.take(4) =~= sprite_data_bytes(d));
        Ok(d)
    }
}

fn write_sprite_buffer(buf: &[SpriteBufferData; 256], writer: &mut Vec<u8>)
    ensures
        final(writer)@ == old(writer)@ + sprite_buffer_bytes(buf@),
{
    let ghost start = writer@;
    let mut i: usize = 0;
    while i < 256
        invariant
            i <= 256,
            buf@.len() == 256,
            writer@ == start + sprite_buffer_bytes(buf@.take(i as int)),
        decreases 256 - i,
    {
        buf[i].write(writer);
        assert(buf@.take(i + 1).drop_last() =~= buf@.take(i as int));
        i += 1;
        assert(writer@ =~= start + sprite_buffer_bytes(buf@.take(i as int)));
    }
    assert(buf@.take(256) =~= buf@);
}

fn read_sprite_buffer(reader: &mut StateReader) -> (res: Result<[SpriteBufferData; 256], StateError>)
    requires
        old(reader).wf(),
    ensures
        final(reader).wf(),
        final(reader).data@ == old(reader).data@,
        res is Ok <==> sprite_buffer_fits(old(reader).rest()),
        res matches Ok(a) ==> final(reader).pos == old(reader).pos + 1024
            && old(reader).rest().take(1024) == sprite_buffer_bytes(a@),
{
    let ghost r0 = reader.rest();
    let ghost p0 = reader.pos;
    let mut a = [SpriteBufferData { id: 0xFF, color: 0, priority: false, sprite0: false, generation: 0 }; 256];
    let mut i: usize = 0;
    while i < 256
        invariant
            reader.wf(),
            reader.data@ == old(reader).data@,
            r0 == old(reader).rest(),
            p0 == old(reader).pos,
            i <= 256,
            a@.len() == 256,
            reader.pos == p0 + 4 * i,
            reader.rest() == r0.skip(4 * i),
            r0.take(4 * i) == sprite_buffer_bytes(a@.take(i as int)),
            r0.len() >= 4 * i,
            forall|j: int| 0 <= j < i ==> #[trigger] sprite_entry_fits(r0, j),
        decreases 256 - i,
    {
        let ghost r1 = reader.rest();
        let ghost a0 = a@;
        let d = match SpriteBufferData::read_state(reader) {
            Ok(d) => d,
            Err(e) => {
                proof {
                    assert(!sprite_entry_fits(r0, i as int));
                }
                return Err(e);
            },
        };
        a[i] = d;
        assert(a@.take(i + 1).drop_last() =~= a0.take(i as int));
        assert(r0.take(4 * (i + 1)) =~= r0.take(4 * i) + r1.take(4));
        assert(reader.rest() =~= r0.skip(4 * (i + 1)));
        i += 1;
    }
    assert(a@.take(256) =~= a@);
    Ok(a)
}

/// Beam position and cycle counts.
pub open spec fn beam_bytes(p: PpuState) -> Seq<u8> {
    u16_bytes(p.beam.scanline) + u16_bytes(p.beam.tick) + u64_bytes(p.beam.frames) + u64_bytes(p.beam.cycles)
        + u64_bytes(p.last_cpu_cycle)
}

/// The status flags and the read buffer and latch.
pub open spec fn status_bytes(p: PpuState) -> Seq<u8> {
    bool_bytes(p.status.is_rendering) + seq![p.data_buffer] + seq![p.latch] + seq![p.status.sprite_overflow]
        + bool_bytes(p.status.sprite0_hit) + seq![p.status.vblank]
}

/// Object memory and the state of sprite evaluation.
pub open spec fn oam_bytes(p: PpuState) -> Seq<u8> {
    usize_bytes(p.oam_addr) + p.oam_1@ + p.eval.oam_2@ + usize_bytes(p.eval.n) + usize_bytes(p.eval.m)
        + seq![p.eval.read] + usize_bytes(p.eval.scanline_count) + bool_bytes(p.eval.has_sprite0)
}

/// The palette and the background pixel ring.
pub open spec fn bg_bytes(p: PpuState) -> Seq<u8> {
    p.palette@ + p.bg.data@ + usize_bytes(p.bg.index)
}

/// The scroll registers.
pub open spec fn scroll_bytes(p: PpuState) -> Seq<u8> {
    u16_bytes(p.scroll.v) + u16_bytes(p.scroll.t) + u16_bytes(p.scroll.x) + seq![p.scroll.w]
}

/// PPUCTRL.
pub open spec fn ctrl_bytes(p: PpuState) -> Seq<u8> {
    seq![p.ctrl.vram_increment] + seq![p.ctrl.sprite_table_addr] + seq![p.ctrl.background_table_addr]
        + seq![p.ctrl.sprite_size] + seq![p.ctrl.master_slave] + bool_bytes(p.ctrl.generate_nmi)
}

/// PPUMASK.
pub open spec fn mask_bytes(p: PpuState) -> Seq<u8> {
    pmask_bytes(p.mask)
}

/// The mask flags in their saved order.
pub open spec fn mask_flags(m: PpuMask) -> Seq<bool> {
    seq![m.grayscale, m.show_sprites_left, m.show_background_left, m.render_sprites, m.render_background,
        m.emphasize_red, m.emphasize_green, m.emphasize_blue]
}

pub open spec fn pmask_bytes(m: PpuMask) -> Seq<u8> {
    bools_bytes(mask_flags(m))
}

/// Scroll, PPUCTRL and PPUMASK.
pub open spec fn regs_bytes(p: PpuState) -> Seq<u8> {
    scroll_bytes(p) + ctrl_bytes(p) + mask_bytes(p)
}

/// Everything saved but the two trailing fields.
pub open spec fn ppu_core_bytes(p: PpuState) -> Seq<u8> {
    beam_bytes(p) + vec_bytes(p.frame_buffer@) + status_bytes(p) + oam_bytes(p)
        + sprite_buffer_bytes(p.sprites.buffer@) + bg_bytes(p) + regs_bytes(p)
}

/// The bytes of the picture unit's save state.
pub open spec fn ppu_bytes(p: PpuState) -> Seq<u8> {
    ppu_core_bytes(p) + u32_bytes(p.sprites.generation) + bool_bytes(p.precise_timing)
}

/// The sprite generation, the timing flag and the bytes they take, as read
/// from what follows the core of a save state: each is optional, and a
/// missing one reads as 0 or false.
pub open spec fn ppu_tail(r: Seq<u8>) -> (u32, bool, int) {
    if r.len() >= 4 {
        let g = spec_u32_from_le_bytes(r.take(4));
        if r.len() >= 5 { (g, r[4] != 0, 5) } else { (g, false, 4) }
    } else if r.len() >= 1 {
        (0, r[0] != 0, 1)
    } else {
        (0, false, 0)
    }
}

fn write_beam(p: &PpuState, writer: &mut Vec<u8>)
    ensures
        final(writer)@ == old(writer)@ + beam_bytes(*p),
{
    p.beam.scanline.write(writer);
    p.beam.tick.write(writer);
    p.beam.frames.write(writer);
    p.beam.cycles.write(writer);
    p.last_cpu_cycle.write(writer);
    assert(writer@ =~= old(writer)@ + beam_bytes(*p));
}

fn write_status(p: &PpuState, writer: &mut Vec<u8>)
    ensures
        final(writer)@ == old(writer)@ + status_bytes(*p),
{
    p.status.is_rendering.write(writer);
    p.data_buffer.write(writer);
    p.latch.write(writer);
    p.status.sprite_overflow.write(writer);
    p.status.sprite0_hit.write(writer);
    p.status.vblank.write(writer);
    assert(writer@ =~= old(writer)@ + status_bytes(*p));
}

fn write_oam(p: &PpuState, writer: &mut Vec<u8>)
    ensures
        final(writer)@ == old(writer)@ + oam_bytes(*p),
{
    p.oam_addr.write(writer);
    p.oam_1.write(writer);
    p.eval.oam_2.write(writer);
    p.eval.n.write(writer);
    p.eval.m.write(writer);
    p.eval.read.write(writer);
    p.eval.scanline_count.write(writer);
    p.eval.has_sprite0.write(writer);
    assert(writer@ =~= old(writer)@ + oam_bytes(*p));
}

fn write_bg(p: &PpuState, writer: &mut Vec<u8>)
    ensures
        final(writer)@ == old(writer)@ + bg_bytes(*p),
{
    p.palette.write(writer);
    p.bg.data.write(writer);
    p.bg.index.write(writer);
    assert(writer@ =~= old(writer)@ + bg_bytes(*p));
}

fn write_scroll_ctrl(p: &PpuState, writer: &mut Vec<u8>)
    ensures
        final(writer)@ == old(writer)@ + scroll_bytes(*p) + ctrl_bytes(*p),
{
    p.scroll.v.write(writer);
    p.scroll.t.write(writer);
    p.scroll.x.write(writer);
    p.scroll.w.write(writer);
    assert(writer@ =~= old(writer)@ + scroll_bytes(*p));
    let ghost w1 = writer@;
    p.ctrl.vram_increment.write(writer);
    p.ctrl.sprite_table_addr.write(writer);
    p.ctrl.background_table_addr.write(writer);
    p.ctrl.sprite_size.write(writer);
    p.ctrl.master_slave.write(writer);
    p.ctrl.generate_nmi.write(writer);
    assert(writer@ =~= w1 + ctrl_bytes(*p));
    assert(writer@ =~= old(writer)@ + scroll_bytes(*p) + ctrl_bytes(*p));
}

fn write_mask(m: &PpuMask, writer: &mut Vec<u8>)
    ensures
        final(writer)@ == old(writer)@ + pmask_bytes(*m),
{
    let flags = [m.grayscale, m.show_sprites_left, m.show_background_left, m.render_sprites,
        m.render_background, m.emphasize_red, m.emphasize_green, m.emphasize_blue];
    assert(flags@ =~= mask_flags(*m));
    write_bool_array(&flags, writer);
}

fn write_regs(p: &PpuState, writer: &mut Vec<u8>)
    ensures
        final(writer)@ == old(writer)@ + regs_bytes(*p),
{
    write_scroll_ctrl(p, writer);
    write_mask(&p.mask, writer);
    assert(writer@ =~= old(writer)@ + regs_bytes(*p));
}

impl WriteState for PpuState {
    open spec fn state_bytes(&self) -> Seq<u8> {
        ppu_bytes(*self)
    }

    fn write(&self, writer: &mut Vec<u8>) {
        write_beam(self, writer);
        write_byte_vec(&self.frame_buffer, writer);
        write_status(self, writer);
        write_oam(self, writer);
        write_sprite_buffer(&self.sprites.buffer, writer);
        write_bg(self, writer);
        write_regs(self, writer);
        self.sprites.generation.write(writer);
        self.precise_timing.write(writer);
        assert(writer@ =~= old(writer)@ + ppu_bytes(*self));
    }
}

#[verifier::rlimit(40)]
fn read_beam(p: &mut PpuState, reader: &mut StateReader) -> (res: Result<(), StateError>)
    requires
        old(reader).wf(),
    ensures
        final(reader).wf(),
        final(reader).data@ == old(reader).data@,
        res is Ok <==> beam_fits(old(reader).rest()),
        res is Ok ==> final(reader).pos == old(reader).pos + 28
            && old(reader).rest().take(28) == beam_bytes(*final(p))
            && final(p).beam.scanline <= 261 && final(p).beam.tick <= 340
            && *final(p) == (PpuState { beam: final(p).beam, last_cpu_cycle: final(p).last_cpu_cycle, ..*old(p) }),
{
    let ghost r0 = reader.rest();
    let scanline = read_u16_le(reader)?;
    assert(reader.rest() =~= r0.skip(2));
    let tick = read_u16_le(reader)?;
    assert(reader.rest() =~= r0.skip(4));
    let frames = read_u64_le(reader)?;
    assert(reader.rest() =~= r0.skip(12));
    let cycles = read_u64_le(reader)?;
    assert(reader.rest() =~= r0.skip(20));
    let last_cpu_cycle = read_u64_le(reader)?;
    if scanline > 261 || tick > 340 {
        return Err(StateError::InvalidData);
    }
    p.beam.scanline = scanline;
    p.beam.tick = tick;
    p.beam.frames = frames;
    p.beam.cycles = cycles;
    p.last_cpu_cycle = last_cpu_cycle;
    assert(r0.take(28) =~= beam_bytes(*p));
    Ok(())
}

#[verifier::rlimit(40)]
fn read_status(p: &mut PpuState, reader: &mut StateReader) -> (res: Result<(), StateError>)
    requires
        old(reader).wf(),
    ensures
        final(reader).wf(),
        final(reader).data@ == old(reader).data@,
        res is Ok <==> status_fits(old(reader).rest()),
        res is Ok ==> final(reader).pos == old(reader).pos + 6
            && old(reader).rest().take(6) == status_bytes(*final(p))
            && final(p).status.sprite_overflow <= 1 && final(p).status.vblank <= 1
            && *final(p) == (PpuState {
                status: final(p).status,
                data_buffer: final(p).data_buffer,
                latch: final(p).latch,
                ..*old(p)
            }),
{
    let ghost r0 = reader.rest();
    let is_rendering = read_bool_strict(reader)?;
    assert(reader.rest() =~= r0.skip(1));
    let data_buffer = u8::read(reader)?;
    assert(reader.rest() =~= r0.skip(2));
    let latch = u8::read(reader)?;
    assert(reader.rest() =~= r0.skip(3));
    let sprite_overflow = read_u8_at_most(reader, 1)?;
    assert(reader.rest() =~= r0.skip(4));
    let sprite0_hit = read_bool_strict(reader)?;
    assert(reader.rest() =~= r0.skip(5));
    let vblank = read_u8_at_most(reader, 1)?;
    p.status.is_rendering = is_rendering;
    p.data_buffer = data_buffer;
    p.latch = latch;
    p.status.sprite_overflow = sprite_overflow;
    p.status.sprite0_hit = sprite0_hit;
    p.status.vblank = vblank;
    assert(r0.take(6) =~= status_bytes(*p));
    Ok(())
}

#[verifier::rlimit(60)]
fn read_oam(p: &mut PpuState, reader: &mut StateReader) -> (res: Result<(), StateError>)
    requires
        old(reader).wf(),
    ensures
        final(reader).wf(),
        final(reader).data@ == old(reader).data@,
        res is Ok <==> oam_fits(old(reader).rest()),
        res is Ok ==> final(reader).pos == old(reader).pos + 322
            && old(reader).rest().take(322) == oam_bytes(*final(p))
            && final(p).oam_addr < 256 && final(p).eval.wf()
            && *final(p) == (PpuState { oam_addr: final(p).oam_addr, oam_1: final(p).oam_1, eval: final(p).eval, ..*old(p) }),
{
    let ghost r0 = reader.rest();
    let oam_addr = read_usize_at_most(reader, 255)?;
    assert(reader.rest() =~= r0.skip(8));
    let oam_1 = <[u8; 256]>::read(reader)?;
    assert(oam_1@ =~= r0.subrange(8, 264));
    assert(reader.rest() =~= r0.skip(264));
    let oam_2 = <[u8; 32]>::read(reader)?;
    assert(oam_2@ =~= r0.subrange(264, 296));
    assert(reader.rest() =~= r0.skip(296));
    let n = read_usize_at_most(reader, 64)?;
    assert(reader.rest() =~= r0.skip(304));
    let m = read_usize_at_most(reader, 3)?;
    assert(reader.rest() =~= r0.skip(312));
    let read = u8::read(reader)?;
    assert(reader.rest() =~= r0.skip(313));
    let scanline_count = read_usize_at_most(reader, 8)?;
    assert(reader.rest() =~= r0.skip(321));
    let has_sprite0 = read_bool_strict(reader)?;
    p.oam_addr = oam_addr;
    p.oam_1 = oam_1;
    p.eval.oam_2 = oam_2;
    p.eval.n = n;
    p.eval.m = m;
    p.eval.read = read;
    p.eval.scanline_count = scanline_count;
    p.eval.has_sprite0 = has_sprite0;
    assert(r0.take(322) =~= oam_bytes(*p));
    Ok(())
}

fn read_bg(p: &mut PpuState, reader: &mut StateReader) -> (res: Result<(), StateError>)
    requires
        old(reader).wf(),
    ensures
        final(reader).wf(),
        final(reader).data@ == old(reader).data@,
        res is Ok <==> bg_fits(old(reader).rest()),
        res is Ok ==> final(reader).pos == old(reader).pos + 64
            && old(reader).rest().take(64) == bg_bytes(*final(p))
            && final(p).bg.index < 24
            && *final(p) == (PpuState { palette: final(p).palette, bg: final(p).bg, ..*old(p) }),
{
    let ghost r0 = reader.rest();
    let palette = <[u8; 32]>::read(reader)?;
    assert(palette@ =~= r0.subrange(0, 32));
    assert(reader.rest() =~= r0.skip(32));
    let data = <[u8; 24]>::read(reader)?;
    assert(data@ =~= r0.subrange(32, 56));
    assert(reader.rest() =~= r0.skip(56));
    let index = read_usize_at_most(reader, 23)?;
    p.palette = palette;
    p.bg.data = data;
    p.bg.index = index;
    assert(r0.take(64) =~= bg_bytes(*p));
    Ok(())
}

#[verifier::rlimit(40)]
fn read_scroll_ctrl(p: &mut PpuState, reader: &mut StateReader) -> (res: Result<(), StateError>)
    requires
        old(reader).wf(),
    ensures
        final(reader).wf(),
        final(reader).data@ == old(reader).data@,
        res is Ok <==> scroll_ctrl_fits(old(reader).rest()),
        res is Ok ==> final(reader).pos == old(reader).pos + 13
            && old(reader).rest().take(13) == scroll_bytes(*final(p)) + ctrl_bytes(*final(p))
            && final(p).scroll.x < 8 && final(p).scroll.w <= 1 && final(p).ctrl.wf()
            && *final(p) == (PpuState { scroll: final(p).scroll, ctrl: final(p).ctrl, ..*old(p) }),
{
    let ghost r0 = reader.rest();
    let v = read_u16_le(reader)?;
    assert(reader.rest() =~= r0.skip(2));
    let t = read_u16_le(reader)?;
    assert(reader.rest() =~= r0.skip(4));
    let x = read_u16_le(reader)?;
    assert(reader.rest() =~= r0.skip(6));
    let w = read_u8_at_most(reader, 1)?;
    assert(reader.rest() =~= r0.skip(7));
    let vram_increment = read_u8_at_most(reader, 1)?;
    assert(reader.rest() =~= r0.skip(8));
    let sprite_table_addr = read_u8_at_most(reader, 1)?;
    assert(reader.rest() =~= r0.skip(9));
    let background_table_addr = read_u8_at_most(reader, 1)?;
    assert(reader.rest() =~= r0.skip(10));
    let sprite_size = read_u8_at_most(reader, 1)?;
    assert(reader.rest() =~= r0.skip(11));
    let master_slave = u8::read(reader)?;
    assert(reader.rest() =~= r0.skip(12));
    let generate_nmi = read_bool_strict(reader)?;
    if x > 7 {
        return Err(StateError::InvalidData);
    }
    p.scroll.v = v;
    p.scroll.t = t;
    p.scroll.x = x;
    p.scroll.w = w;
    p.ctrl.vram_increment = vram_increment;
    p.ctrl.sprite_table_addr = sprite_table_addr;
    p.ctrl.background_table_addr = background_table_addr;
    p.ctrl.sprite_size = sprite_size;
    p.ctrl.master_slave = master_slave;
    p.ctrl.generate_nmi = generate_nmi;
    assert(r0.take(13) =~= scroll_bytes(*p) + ctrl_bytes(*p));
    Ok(())
}

fn read_mask(reader: &mut StateReader) -> (res: Result<PpuMask, StateError>)
    requires
        old(reader).wf(),
    ensures
        final(reader).wf(),
        final(reader).data@ == old(reader).data@,
        res is Ok <==> flags_fit(old(reader).rest(), 8),
        res matches Ok(m) ==> final(reader).pos == old(reader).pos + 8
            && old(reader).rest().take(8) == pmask_bytes(m),
{
    let f = read_bool_array::<8>(reader)?;
    let m = PpuMask {
        grayscale: f[0],
        show_sprites_left: f[1],
        show_background_left: f[2],
        render_sprites: f[3],
        render_background: f[4],
        emphasize_red: f[5],
        emphasize_green: f[6],
        emphasize_blue: f[7],
    };
    assert(f@ =~= mask_flags(m));
    Ok(m)
}

/// Reads everything but the two trailing fields into `p`.
#[verifier::rlimit(80)]
fn read_core(p: &mut PpuState, reader: &mut StateReader) -> (res: Result<(), StateError>)
    requires
        old(reader).wf(),
        old(p).wf(),
    ensures
        final(reader).wf(),
        final(reader).data@ == old(reader).data@,
        res is Ok <==> ppu_core_fits(old(reader).rest()),
        res is Ok ==> ppu_core_bytes(*final(p)).len() == 28 + 8 + FRAME_SIZE + 1437,
        res is Ok ==> final(p).wf_core() && final(reader).pos == old(reader).pos + ppu_core_bytes(*final(p)).len()
            && old(reader).rest().take(ppu_core_bytes(*final(p)).len() as int) == ppu_core_bytes(*final(p))
            && final(p).palette_rgba == old(p).palette_rgba && final(p).precise_timing == old(p).precise_timing,
{
    let ghost r0 = reader.rest();
    read_beam(p, reader)?;
    assert(reader.rest() =~= r0.skip(28));
    let frame_buffer = read_byte_vec_exact(reader)?;
    if frame_buffer.len() != FRAME_SIZE {
        return Err(StateError::InvalidData);
    }
    p.frame_buffer = frame_buffer;
    let ghost k: int = 28 + 8 + FRAME_SIZE;
    assert(reader.rest() =~= r0.skip(k));
    read_status(p, reader)?;
    assert(reader.rest() =~= r0.skip(k + 6));
    read_oam(p, reader)?;
    assert(reader.rest() =~= r0.skip(k + 328));
    let buffer = read_sprite_buffer(reader)?;
    p.sprites.buffer = buffer;
    assert(reader.rest() =~= r0.skip(k + 1352));
    read_bg(p, reader)?;
    assert(reader.rest() =~= r0.skip(k + 1416));
    read_scroll_ctrl(p, reader)?;
    assert(reader.rest() =~= r0.skip(k + 1429));
    let mask = read_mask(reader)?;
    p.mask = mask;
    let ghost c: int = k + 1437;
    proof {
        lemma_sprite_buffer_bytes_len(p.sprites.buffer@);
    }
    assert(r0.take(c) =~= ppu_core_bytes(*p));
    Ok(())
}

impl PpuState {
    /// Reads a picture unit saved by `write`.  The sprite generation and
    /// the timing flag at the end may be missing and then read as 0 and
    /// false.  A frame buffer of another size, positions and counters out
    /// of range, and flag bytes other than 0 and 1 are refused.  The RGBA
    /// palette cache is rebuilt.
    /// The ranges of `wf` but the RGBA palette cache.
    pub open spec fn wf_core(&self) -> bool {
        &&& self.frame_buffer@.len() == FRAME_SIZE
        &&& self.beam.scanline <= 261
        &&& self.beam.tick <= 340
        &&& self.oam_addr < 256
        &&& self.bg.index < 24
        &&& self.scroll.x < 8
        &&& self.scroll.w <= 1
        &&& self.eval.wf()
        &&& self.ctrl.wf()
        &&& self.status.vblank <= 1
        &&& self.status.sprite_overflow <= 1
    }

    /// Reads a picture unit saved by `write`.  The sprite generation and
    /// the timing flag at the end may be missing and then read as 0 and
    /// false.  A frame buffer of another size, positions and counters out
    /// of range, and flag bytes other than 0 and 1 are refused.  The RGBA
    /// palette cache is rebuilt.
    #[verifier::rlimit(60)]
    pub fn read_state(reader: &mut StateReader) -> (res: Result<PpuState, StateError>)
        requires
            old(reader).wf(),
        ensures
            final(reader).wf(),
            final(reader).data@ == old(reader).data@,
            res is Ok <==> ppu_core_fits(old(reader).rest()),
            res matches Ok(p) ==> ppu_core_bytes(p).len() == 28 + 8 + FRAME_SIZE + 1437,
            res matches Ok(p) ==> p.wf() && {
                let c = ppu_core_bytes(p).len() as int;
                &&& old(reader).rest().take(c) == ppu_core_bytes(p)
                &&& ppu_tail(old(reader).rest().skip(c)) == (p.sprites.generation, p.precise_timing,
                    final(reader).pos - old(reader).pos - c)
            },
    {
        let ghost r0 = reader.rest();
        let ghost p0 = reader.pos;
        let mut p = PpuState::new();
        read_core(&mut p, reader)?;
        let ghost c: int = ppu_core_bytes(p).len() as int;
        let ghost rc = reader.rest();
        assert(rc =~= r0.skip(c));
        let generation = match read_u32_le(reader) {
            Ok(g) => g,
            Err(_) => 0,
        };
        let ghost rg = reader.rest();
        let ghost pg = reader.pos;
        proof {
            vstd::bytes::lemma_auto_spec_u32_to_from_le_bytes();
            if rc.len() >= 4 {
                assert(rc.take(4).len() == 4);
                assert(generation == spec_u32_from_le_bytes(rc.take(4)));
                assert(rg =~= rc.skip(4));
            } else {
                assert(rg =~= rc);
            }
        }
        let precise_timing = if reader.pos < reader.data.len() {
            let b = u8::read(reader)?;
            assert(b == rg[0]);
            b != 0
        } else {
            false
        };
        let ghost core = ppu_core_bytes(p);
        p.sprites.generation = generation;
        p.precise_timing = precise_timing;
        assert(ppu_core_bytes(p) =~= core);
        assert(ppu_tail(rc) == (generation, precise_timing, reader.pos - p0 - c));
        p.update_palette_cache();
        assert(p.wf_core());
        Ok(p)
    }
}

} // verus!
