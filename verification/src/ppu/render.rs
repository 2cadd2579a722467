//! Background and sprite rendering: tile fetches, pixel output and sprite
//! evaluation, one dot at a time.
use vstd::prelude::*;
use crate::bits::lemma_addr_fields;
use crate::bits::lemma_and_bounds;
use crate::nes::{State, FRAME_SIZE};
use crate::mapper::Mapper;
use crate::board::AnyMapper;
use crate::ppu::{
    PpuState, PpuStatus, SpriteBufferData, SpriteEval, SpriteLine, Background, video_step,
    increment_scroll_x, increment_scroll_y, Scroll, scroll_x_next, scroll_y_next,
};

verus! {

/// The byte offset of pixel (`x`, `y`) in the frame buffer.
pub open spec fn pixel_offset(x: int, y: int) -> int {
    y * 1024 + x * 4
}

/// Moves the background ring on by one pixel.
fn advance_bg(bg: &mut Background)
    requires
        old(bg).index < 24,
    ensures
        final(bg).index == (old(bg).index + 1) % 24,
        final(bg).data == old(bg).data,
{
    let next = bg.index + 1;
    bg.index = if next == 24 { 0 } else { next };
}

/// Pixel `j` (counted from the right) of a tile row: the attribute bits
/// above bit `j` of each pattern plane.
pub open spec fn tile_pixel(at_data: u16, lo: u16, hi: u16, j: u16) -> u8 {
    (at_data | (((lo >> j) & 0x1) | (((hi >> j) & 0x1) << 1))) as u8
}

/// The ring after a tile row is decoded into the eight slots before
/// `index`: pixel `j` lands `j + 1` slots back, the other slots keep their
/// pixels.
pub open spec fn ring_with_tile(data: Seq<u8>, index: int, at_data: u16, lo: u16, hi: u16) -> Seq<u8> {
    Seq::new(24, |k: int| {
        let j = (index + 23 - k) % 24;
        if j < 8 { tile_pixel(at_data, lo, hi, j as u16) } else { data[k] }
    })
}

/// Shifting right by `i` and then by one is shifting right by `i + 1`.
proof fn lemma_shift_step(x: u16, i: u16)
    by (bit_vector)
    requires
        i < 16,
    ensures
        (x >> i) >> 1u16 == x >> ((i + 1) as u16),
{
}

/// Writes the eight pixels of a tile row into the eight ring slots before
/// the current one: bit `i` of the pattern planes goes `i + 1` slots back.
fn decode_tile(bg: &mut Background, at_data: u16, pattern_lo: u16, pattern_hi: u16)
    requires
        old(bg).index < 24,
        at_data <= 12,
    ensures
        final(bg).index == old(bg).index,
        final(bg).data@ == ring_with_tile(old(bg).data@, old(bg).index as int, at_data, pattern_lo, pattern_hi),
{
    let base = bg.index;
    let ghost old_data = bg.data@;
    let mut lo = pattern_lo;
    let mut hi = pattern_hi;
    let mut i: usize = 0;
    assert(pattern_lo >> 0u16 == pattern_lo && pattern_hi >> 0u16 == pattern_hi) by (bit_vector);
    while i < 8
        invariant
            i <= 8,
            base < 24,
            bg.index == base,
            at_data <= 12,
            lo == pattern_lo >> (i as u16),
            hi == pattern_hi >> (i as u16),
            bg.data@.len() == 24,
            old_data.len() == 24,
            forall|k: int| 0 <= k < 24 ==> #[trigger] bg.data@[k] == {
                let j = (base + 23 - k) % 24;
                if j < i { tile_pixel(at_data, pattern_lo, pattern_hi, j as u16) } else { old_data[k] }
            },
        decreases 8 - i,
    {
        let bits = (lo & 0x1) | ((hi & 0x1) << 1);
        let pixel_data = at_data | bits;
        proof {
            lemma_shift_step(pattern_lo, i as u16);
            lemma_shift_step(pattern_hi, i as u16);
        }
        lo = lo >> 1;
        hi = hi >> 1;
        let mut ind = base + 24 - 1 - i;
        if ind >= 24 {
            ind = ind - 24;
        }
        assert(pixel_data as u8 == tile_pixel(at_data, pattern_lo, pattern_hi, i as u16));
        bg.data[ind] = pixel_data as u8;
        i += 1;
    }
    assert(bg.data@ =~= ring_with_tile(old_data, base as int, at_data, pattern_lo, pattern_hi));
}

/// The attribute-table address of the tile under VRAM address `v`.
pub open spec fn bg_attr_addr(v: u16) -> u16 {
    0x23C0 | (v & 0x0C00) | ((v >> 4) & 0x38) | ((v >> 2) & 0x07)
}

/// The attribute bits of the tile under `v` taken from attribute byte
/// `at`: its quadrant's palette, moved above the two pattern bits.
pub open spec fn bg_attr_bits(v: u16, at: u8) -> u16 {
    (((at as u16) >> (((v >> 4) & 4) | (v & 2))) & 3) << 2
}

/// The address of the low pattern plane of the row that `v`'s fine Y
/// selects in tile `nt` of pattern table `table`.
pub open spec fn bg_pattern_addr(v: u16, nt: u8, table: u8) -> u16 {
    ((v >> 12) & 0x7) | ((nt as u16) << 4) | ((table as u16) << 12)
}

/// Whether `data` is the background ring of `p` with the tile under its
/// VRAM address decoded in: the name byte read from board state `m0`, the
/// attribute byte from `m1` and the two pattern bytes from `m2` and `m3`
/// (each read may change the board's state for the next).
pub open spec fn tile_fetched(
    p: PpuState,
    m0: AnyMapper,
    m1: AnyMapper,
    m2: AnyMapper,
    m3: AnyMapper,
    data: Seq<u8>,
) -> bool {
    let v = p.scroll.v;
    let nt = m0.peek_value(0x2000 | (v & 0x0FFF));
    let at = m1.peek_value(bg_attr_addr(v));
    let pat = bg_pattern_addr(v, nt, p.ctrl.background_table_addr);
    let lo = m2.peek_value(pat);
    let hi = m3.peek_value(pat | 0x8);
    data == ring_with_tile(p.bg.data@, p.bg.index as int, bg_attr_bits(v, at), lo as u16, hi as u16)
}

/// The four background fetch addresses lie on the cartridge side of the
/// PPU bus, below the palette.
proof fn lemma_bg_fetch_addrs(v: u16, nt: u16, table: u16)
    by (bit_vector)
    requires
        nt < 256,
        table <= 1,
    ensures
        (0x2000 | (v & 0x0FFF)) & 0x3FFF == 0x2000 | (v & 0x0FFF),
        (0x2000 | (v & 0x0FFF)) & 0x3FFF < 0x3F00,
        (0x23C0 | (v & 0x0C00) | ((v >> 4) & 0x38) | ((v >> 2) & 0x07)) & 0x3FFF
            == 0x23C0 | (v & 0x0C00) | ((v >> 4) & 0x38) | ((v >> 2) & 0x07),
        (0x23C0 | (v & 0x0C00) | ((v >> 4) & 0x38) | ((v >> 2) & 0x07)) & 0x3FFF < 0x3F00,
        (((v >> 12) & 0x7) | (nt << 4) | (table << 12)) & 0x3FFF == ((v >> 12) & 0x7) | (nt << 4) | (table << 12),
        (((v >> 12) & 0x7) | (nt << 4) | (table << 12)) & 0x3FFF < 0x3F00,
        ((((v >> 12) & 0x7) | (nt << 4) | (table << 12)) | 0x8) & 0x3FFF
            == (((v >> 12) & 0x7) | (nt << 4) | (table << 12)) | 0x8,
        ((((v >> 12) & 0x7) | (nt << 4) | (table << 12)) | 0x8) & 0x3FFF < 0x3F00,
{
}

/// Fetches the next background tile (name, attribute and both pattern
/// bytes) and decodes it into the background ring.
pub fn fetch_tile(s: &mut State)
    requires
        old(s).wf_loose(),
    ensures
        final(s).wf_loose(),
        final(s).ppu == (PpuState { bg: Background { data: final(s).ppu.bg.data, ..old(s).ppu.bg }, ..old(s).ppu }),
        video_step(*final(s), *old(s)),
        final(s).cpu.pending_interrupt == old(s).cpu.pending_interrupt,
        exists|m1: AnyMapper, m2: AnyMapper, m3: AnyMapper|
            #[trigger] tile_fetched(old(s).ppu, old(s).mapper, m1, m2, m3, final(s).ppu.bg.data@),
{
    let v = s.ppu.scroll.v;
    let table = s.ppu.ctrl.background_table_addr;
    let nt_addr = 0x2000 | (v & 0x0FFF);
    let ghost m0 = s.mapper;
    let nt_byte = s.ppu_peek(nt_addr);
    let nt_data = nt_byte as u16;
    let at_addr = 0x23C0 | (v & 0x0C00) | ((v >> 4) & 0x38) | ((v >> 2) & 0x07);
    proof { lemma_bg_fetch_addrs(v, nt_data, table as u16); }
    let ghost m1 = s.mapper;
    let at_byte = s.ppu_peek(at_addr);
    let at_raw = at_byte as u16;
    let sh = ((v >> 4) & 4) | (v & 2);
    proof { lemma_addr_fields(v); }
    let at_data = ((at_raw >> sh) & 3) << 2;
    proof { lemma_addr_fields(at_raw >> sh); }
    let pattern_addr: u16 = ((v >> 12) & 0x7) | (nt_data << 4) | ((table as u16) << 12);
    let ghost m2 = s.mapper;
    let pattern_lo = s.ppu_peek(pattern_addr) as u16;
    let ghost m3 = s.mapper;
    let pattern_hi = s.ppu_peek(pattern_addr | 0x8) as u16;
    let ghost p0 = s.ppu;
    decode_tile(&mut s.ppu.bg, at_data, pattern_lo, pattern_hi);
    assert(tile_fetched(p0, m0, m1, m2, m3, s.ppu.bg.data@));
}

/// The background and sprite pixels at the current dot, after the
/// left-column masks.
pub open spec fn dot_pixels(p: PpuState) -> (u8, u8, bool, SpriteBufferData) {
    let x = p.beam.tick - 1;
    let bgi = p.bg.index + p.scroll.x;
    let bg_index = if bgi >= 24 { bgi - 24 } else { bgi };
    let entry = p.sprites.buffer@[x];
    let gen_valid = entry.generation == p.sprites.generation;
    let bg = if x < 8 && !p.mask.show_background_left { 0u8 } else { p.bg.data@[bg_index] };
    let spr = if x < 8 && !p.mask.show_sprites_left { 0u8 } else if gen_valid { entry.color } else { 0u8 };
    (bg, spr, gen_valid, entry)
}

/// The palette entry that the pixel at the current dot shows: background
/// or sprite, whichever is opaque, the sprite winning where both are and
/// it has priority.
pub open spec fn pixel_color(p: PpuState) -> u8 {
    let (bg, spr, gen_valid, entry) = dot_pixels(p);
    let bg_visible = bg & 3 != 0 && p.mask.render_background;
    let spr_visible = spr & 3 != 0 && p.mask.render_sprites;
    if !bg_visible && !spr_visible {
        0
    } else if !spr_visible {
        bg
    } else if !bg_visible {
        spr
    } else if gen_valid && entry.priority {
        spr
    } else {
        bg
    }
}

/// Whether the pixel at the current dot is an opaque sprite-0 pixel over an
/// opaque background pixel.
pub open spec fn sprite0_hits(p: PpuState) -> bool {
    let (bg, spr, gen_valid, entry) = dot_pixels(p);
    &&& bg & 3 != 0 && p.mask.render_background
    &&& spr & 3 != 0 && p.mask.render_sprites
    &&& gen_valid && entry.sprite0
}

/// Stores an RGBA pixel, red first, at byte offset `i`.
fn put_pixel(fb: &mut Vec<u8>, i: usize, px: u32)
    requires
        i + 4 <= FRAME_SIZE,
        old(fb)@.len() == FRAME_SIZE,
    ensures
        final(fb)@ == old(fb)@.update(i as int, (px & 0xFF) as u8).update(i + 1, ((px >> 8) & 0xFF) as u8)
            .update(i + 2, ((px >> 16) & 0xFF) as u8).update(i + 3, (px >> 24) as u8),
{
    fb.set(i, (px & 0xFF) as u8);
    fb.set(i + 1, ((px >> 8) & 0xFF) as u8);
    fb.set(i + 2, ((px >> 16) & 0xFF) as u8);
    fb.set(i + 3, (px >> 24) as u8);
}

/// Draws the pixel at the current dot into the frame buffer.
#[verifier::rlimit(40)]
pub fn render_pixel(s: &mut State)
    requires
        old(s).wf_loose(),
        1 <= old(s).ppu.beam.tick <= 256,
        old(s).ppu.beam.scanline < 240,
    ensures
        ({
            let o = pixel_offset(old(s).ppu.beam.tick - 1, old(s).ppu.beam.scanline as int);
            let px = old(s).ppu.palette_rgba@[(pixel_color(old(s).ppu) & 0x1F) as int];
            &&& 0 <= o && o + 4 <= FRAME_SIZE
            &&& final(s).ppu.frame_buffer@ == old(s).ppu.frame_buffer@.update(o, (px & 0xFF) as u8)
                .update(o + 1, ((px >> 8) & 0xFF) as u8).update(o + 2, ((px >> 16) & 0xFF) as u8)
                .update(o + 3, (px >> 24) as u8)
        }),
        final(s).ppu.status.sprite0_hit == (old(s).ppu.status.sprite0_hit || sprite0_hits(old(s).ppu)),
        final(s).ppu == (PpuState {
            frame_buffer: final(s).ppu.frame_buffer,
            status: PpuStatus { sprite0_hit: final(s).ppu.status.sprite0_hit, ..old(s).ppu.status },
            ..old(s).ppu
        }),
        *final(s) == (State { ppu: final(s).ppu, ..*old(s) }),
        final(s).wf_loose(),
{
    let x = (s.ppu.beam.tick - 1) as usize;
    let y = s.ppu.beam.scanline as usize;
    let mut bg_index = s.ppu.bg.index + (s.ppu.scroll.x as usize);
    if bg_index >= 24 {
        bg_index -= 24;
    }
    let mut bg_pixel = s.ppu.bg.data[bg_index];
    let sprite_entry = s.ppu.sprites.buffer[x];
    let sprite_gen_valid = sprite_entry.generation == s.ppu.sprites.generation;
    let mut sprite_pixel = if sprite_gen_valid { sprite_entry.color } else { 0 };
    if x < 8 {
        if !s.ppu.mask.show_background_left {
            bg_pixel = 0;
        }
        if !s.ppu.mask.show_sprites_left {
            sprite_pixel = 0;
        }
    }
    let bg_visible = ((bg_pixel & 0x3) != 0) && s.ppu.mask.render_background;
    let sprite_visible = ((sprite_pixel & 0x3) != 0) && s.ppu.mask.render_sprites;
    let hit = bg_visible && sprite_visible && sprite_gen_valid && sprite_entry.sprite0;
    let col = if !bg_visible && !sprite_visible {
        0
    } else if !sprite_visible {
        bg_pixel
    } else if !bg_visible {
        sprite_pixel
    } else if sprite_gen_valid && sprite_entry.priority {
        sprite_pixel
    } else {
        bg_pixel
    };
    if hit {
        s.ppu.status.sprite0_hit = true;
    }
    proof { lemma_and_bounds(); }
    let pixel = s.ppu.palette_rgba[(col & 0x1F) as usize];
    let i = y * 1024 + x * 4;
    put_pixel(&mut s.ppu.frame_buffer, i, pixel);
}

/// Clears scanline `y` of the frame buffer to opaque black.
pub fn blank_scanline(fb: &mut Vec<u8>, y: usize)
    requires
        old(fb)@.len() == FRAME_SIZE,
        y < 240,
    ensures
        final(fb)@.len() == FRAME_SIZE,
        forall|k: int| 0 <= k < FRAME_SIZE && !(y * 1024 <= k < y * 1024 + 1024)
            ==> #[trigger] final(fb)@[k] == old(fb)@[k],
        forall|k: int| y * 1024 <= k < y * 1024 + 1024
            ==> #[trigger] final(fb)@[k] == (if k % 4 == 3 { 255u8 } else { 0u8 }),
{
    let row_start = y * 1024;
    let row_end = row_start + 1024;
    let mut i = row_start;
    while i < row_end
        invariant
            row_start == y * 1024,
            row_end == row_start + 1024,
            row_start <= i <= row_end,
            (i - row_start) % 4 == 0,
            fb@.len() == FRAME_SIZE,
            y < 240,
            forall|k: int| 0 <= k < FRAME_SIZE && !(row_start <= k < i)
                ==> #[trigger] fb@[k] == old(fb)@[k],
            forall|k: int| row_start <= k < i ==> #[trigger] fb@[k] == (if k % 4 == 3 { 255u8 } else { 0u8 }),
        decreases row_end - i,
    {
        fb.set(i, 0);
        fb.set(i + 1, 0);
        fb.set(i + 2, 0);
        fb.set(i + 3, 255);
        i += 4;
    }
}

/// Dot 1: clears secondary OAM and restarts the evaluation.
fn reset_evaluation(e: &mut SpriteEval)
    ensures
        final(e).wf(),
        final(e).oam_2@ == Seq::new(32, |i: int| 0xFFu8),
        final(e).n == 0 && final(e).m == 0,
        final(e).scanline_count == 0 && !final(e).has_sprite0,
        final(e).read == old(e).read,
{
    e.oam_2 = [0xFF; 32];
    assert(e.oam_2@ =~= Seq::new(32, |i: int| 0xFFu8));
    e.n = 0;
    e.m = 0;
    e.scanline_count = 0;
    e.has_sprite0 = false;
}

/// Dots 65 to 256: odd dots read a byte of primary OAM, even dots copy it
/// to secondary OAM and move on; a sprite whose rows do not cover this
/// scanline is skipped after its first byte, and the scan stops after
/// eight sprites.
fn evaluation_step(e: &mut SpriteEval, oam_1: &[u8; 256], tick: u16, scanline: u16, sprite_size: u8)
    requires
        old(e).wf(),
        old(e).n < 64,
        old(e).scanline_count < 8,
    ensures
        final(e).wf(),
        tick & 1 == 1 ==> *final(e) == (SpriteEval { read: oam_1@[old(e).n * 4 + old(e).m], ..*old(e) }),
        tick & 1 == 0 ==> final(e).oam_2@ == old(e).oam_2@.update(4 * old(e).scanline_count + old(e).m, old(e).read),
{
    let n = e.n;
    let m = e.m;
    if tick & 0x1 == 1 {
        e.read = oam_1[n * 4 + m];
    } else {
        let count = e.scanline_count;
        let read = e.read;
        e.oam_2[4 * count + m] = read;
        if m == 0 {
            let sprite_height: u16 = if sprite_size == 0 { 8 } else { 16 };
            let top = read as u16;
            let bottom = top + sprite_height;
            if scanline >= top && scanline < bottom {
                e.m = 1;
            } else {
                e.n = n + 1;
            }
        } else if m == 3 {
            if n == 0 {
                e.has_sprite0 = true;
            }
            e.n = n + 1;
            e.m = 0;
            e.scanline_count = count + 1;
        } else {
            e.m = m + 1;
        }
    }
}

/// Whether the video unit's dot is one on which the next line's sprites
/// are searched: dots 65 to 256 while fewer than eight are found and OAM
/// is not exhausted.
pub open spec fn evaluating_dot(p: PpuState) -> bool {
    65 <= p.beam.tick <= 256 && p.eval.n < 64 && p.eval.scanline_count < 8
}

/// One step of sprite evaluation at the current dot: clearing secondary
/// OAM, copying in the sprites that cover the next scanline, and decoding
/// them into the sprite line buffer.
pub fn sprite_evaluation(s: &mut State)
    requires
        old(s).wf_loose(),
    ensures
        final(s).wf_loose(),
        final(s).ppu == (PpuState { eval: final(s).ppu.eval, sprites: final(s).ppu.sprites, ..old(s).ppu }),
        video_step(*final(s), *old(s)),
        final(s).cpu.pending_interrupt == old(s).cpu.pending_interrupt,
        old(s).ppu.beam.tick == 1 ==> final(s).ppu.eval.oam_2@ == Seq::new(32, |i: int| 0xFFu8)
            && final(s).ppu.eval.n == 0 && final(s).ppu.eval.scanline_count == 0,
        old(s).ppu.beam.tick != 1 ==> final(s).ppu.eval == old(s).ppu.eval || evaluating_dot(old(s).ppu),
        evaluating_dot(old(s).ppu) ==> final(s).ppu.sprites == old(s).ppu.sprites,
        evaluating_dot(old(s).ppu) && old(s).ppu.beam.tick % 2 == 1 ==> final(s).ppu.eval == (SpriteEval {
            read: old(s).ppu.oam_1@[old(s).ppu.eval.n * 4 + old(s).ppu.eval.m],
            ..old(s).ppu.eval
        }),
        evaluating_dot(old(s).ppu) && old(s).ppu.beam.tick % 2 == 0 ==> final(s).ppu.eval.oam_2@
            == old(s).ppu.eval.oam_2@.update(4 * old(s).ppu.eval.scanline_count + old(s).ppu.eval.m,
                old(s).ppu.eval.read),
        old(s).ppu.beam.tick == 256 && !evaluating_dot(old(s).ppu) ==> final(s).ppu.eval == old(s).ppu.eval
            && final(s).ppu.sprites == (SpriteLine {
                generation: old(s).ppu.sprites.generation.wrapping_add(1),
                ..old(s).ppu.sprites
            }),
        257 <= old(s).ppu.beam.tick <= 320 && old(s).ppu.beam.tick % 8 == 0 ==> final(s).ppu.eval == old(s).ppu.eval
            && exists|m1: AnyMapper| #[trigger] sprite_loaded(old(s).ppu, old(s).mapper, m1, old(s).ppu.beam.tick,
                final(s).ppu.sprites),
        old(s).ppu.beam.tick != 1 && old(s).ppu.beam.tick != 256 && !evaluating_dot(old(s).ppu)
            && !(257 <= old(s).ppu.beam.tick <= 320 && old(s).ppu.beam.tick % 8 == 0) ==> *final(s) == *old(s),
{
    let tick = s.ppu.beam.tick;
    proof { lemma_addr_fields(tick); }
    if tick != 1 && tick != 256 && (tick < 65 || tick > 320 || (tick > 256 && (tick & 7) != 0)) {
        return;
    }
    if tick == 1 {
        reset_evaluation(&mut s.ppu.eval);
    } else if 65 <= tick && tick <= 256 && s.ppu.eval.n < 64 && s.ppu.eval.scanline_count < 8 {
        let scanline = s.ppu.beam.scanline;
        let sprite_size = s.ppu.ctrl.sprite_size;
        evaluation_step(&mut s.ppu.eval, &s.ppu.oam_1, tick, scanline, sprite_size);
    } else if tick == 256 {
        s.ppu.sprites.generation = s.ppu.sprites.generation.wrapping_add(1);
    } else if 257 <= tick && tick <= 320 && (tick & 0x7) == 0 {
        load_sprite(s, tick);
    }
}

/// Whether sprite-line slot `e` can take a pixel of a sprite drawn for line
/// `generation`: it holds another line's pixel, no sprite, or a
/// transparent one.
pub open spec fn slot_free(e: SpriteBufferData, generation: u32) -> bool {
    e.generation != generation || e.id == 0xFF || e.color & 0b11 == 0
}

/// The bit of the sprite pattern that lands `off` pixels right of the
/// sprite's left edge: the leftmost pixel is bit 7 unless the sprite is
/// flipped horizontally.
pub open spec fn sprite_bit(attribute: u8, off: int) -> int {
    if attribute & 0x40 > 0 { off } else { 7 - off }
}

/// Pixel bit `i` of a sprite row: the two pattern planes' bits as a colour
/// index, above them the sprite palette, marked as a sprite colour.
pub open spec fn sprite_color(attribute: u8, lo: u8, hi: u8, i: u8) -> u8 {
    let bit0: u8 = if lo & (1u8 << i) > 0 { 1 } else { 0 };
    let bit1: u8 = if hi & (1u8 << i) > 0 { 2 } else { 0 };
    0b10000u8 | bit0 | bit1 | ((attribute & 0b11u8) << 2u8)
}

/// The sprite line buffer after sprite `n`'s row is drawn at `x_pos`: each
/// of its eight pixels that falls on the line takes its slot where the
/// slot is free, every other slot is kept.
#[verifier::opaque]
pub open spec fn sprite_row_drawn(
    buf: Seq<SpriteBufferData>,
    generation: u32,
    n: u8,
    x_pos: u8,
    attribute: u8,
    lo: u8,
    hi: u8,
    sprite0: bool,
) -> Seq<SpriteBufferData> {
    Seq::new(256, |x: int| {
        let off = x - x_pos;
        if 0 <= off < 8 && slot_free(buf[x], generation) {
            SpriteBufferData {
                id: n,
                generation,
                color: sprite_color(attribute, lo, hi, sprite_bit(attribute, off) as u8),
                priority: (attribute & 0b00100000) == 0,
                sprite0,
            }
        } else {
            buf[x]
        }
    })
}

/// Writes the eight pixels of sprite `n`'s row into the sprite line
/// buffer, where no opaque pixel of an earlier sprite of this line is.
fn draw_sprite_row(line: &mut SpriteLine, n: u8, x_pos: u8, attribute: u8, lo: u8, hi: u8, sprite0: bool)
    ensures
        final(line).generation == old(line).generation,
        final(line).buffer@ == sprite_row_drawn(old(line).buffer@, old(line).generation, n, x_pos, attribute, lo, hi, sprite0),
{
    let flip_horizontal = attribute & 0x40 > 0;
    let generation = line.generation;
    let ghost old_buf = line.buffer@;
    let mut i: u8 = 0;
    while i < 8
        invariant
            i <= 8,
            line.generation == generation,
            flip_horizontal == (attribute & 0x40 > 0),
            line.buffer@.len() == 256,
            old_buf.len() == 256,
            forall|x: int| 0 <= x < 256 ==> #[trigger] line.buffer@[x] == {
                let off = x - x_pos;
                if 0 <= off < 8 && sprite_bit(attribute, off) < i && slot_free(old_buf[x], generation) {
                    SpriteBufferData {
                        id: n,
                        generation,
                        color: sprite_color(attribute, lo, hi, sprite_bit(attribute, off) as u8),
                        priority: (attribute & 0b00100000) == 0,
                        sprite0,
                    }
                } else {
                    old_buf[x]
                }
            },
        decreases 8 - i,
    {
        let x_off: u8 = if flip_horizontal { i } else { 7 - i };
        let buf_x = (x_pos as usize) + (x_off as usize);
        assert(sprite_bit(attribute, x_off as int) == i);
        if buf_x < 256 {
            let entry = line.buffer[buf_x];
            assert(entry == old_buf[buf_x as int]);
            if entry.generation != generation || entry.id == 0xFF || (entry.color & 0b11) == 0 {
                let bit0: u8 = if lo & (1u8 << i) > 0 { 1 } else { 0 };
                let bit1: u8 = if hi & (1u8 << i) > 0 { 2 } else { 0 };
                line.buffer[buf_x] = SpriteBufferData {
                    id: n,
                    generation,
                    color: 0b10000 | bit0 | bit1 | ((attribute & 0b11) << 2),
                    priority: (attribute & 0b00100000) == 0,
                    sprite0,
                };
            }
        }
        i += 1;
    }
    assert(line.buffer@ =~= sprite_row_drawn(old_buf, generation, n, x_pos, attribute, lo, hi, sprite0)) by {
        reveal(sprite_row_drawn);
    }
}

/// The secondary-OAM bytes (Y, tile, attribute, X) of sprite slot `n` of
/// the next line; a slot past the sprites found is an empty sprite with
/// all three other bytes 0xFF.
pub open spec fn sprite_slot(p: PpuState, n: int) -> (u8, u8, u8, u8) {
    if n >= p.eval.scanline_count {
        (p.beam.scanline as u8, 0xFFu8, 0xFFu8, 0xFFu8)
    } else {
        (p.eval.oam_2@[n * 4], p.eval.oam_2@[n * 4 + 1], p.eval.oam_2@[n * 4 + 2], p.eval.oam_2@[n * 4 + 3])
    }
}

/// The address of the low pattern plane of the current line's row of a
/// sprite at `y_pos` with tile byte `tile`: 8x16 sprites take their table
/// from the tile's low bit and their half from the row, and a vertical
/// flip mirrors the row.
pub open spec fn sprite_pattern_addr(p: PpuState, y_pos: u8, tile: u8, attribute: u8) -> u16 {
    let row_raw = p.beam.scanline.wrapping_sub(y_pos as u16);
    let flip_v = attribute & 0x80 > 0;
    let table: u8 = if p.ctrl.sprite_size > 0 { tile & 0x1 } else { p.ctrl.sprite_table_addr };
    let t: u8 = if p.ctrl.sprite_size > 0 {
        (tile & 0xFE) | (if (row_raw >= 8) != flip_v { 1u8 } else { 0u8 })
    } else {
        tile
    };
    let low_row = row_raw & 0x7;
    let tile_row: u16 = if flip_v { (7 - low_row) as u16 } else { low_row };
    tile_row | ((t as u16) << 4) | ((table as u16) << 12)
}

/// Whether `sprites` is the sprite line of `p` after dot `tick` loads its
/// sprite slot: the low pattern byte read from board state `m0`, the high
/// one from `m1`; an empty slot draws nothing.
#[verifier::opaque]
pub open spec fn sprite_loaded(p: PpuState, m0: AnyMapper, m1: AnyMapper, tick: u16, sprites: SpriteLine) -> bool {
    let n = (tick - 257) / 8;
    let (y_pos, tile, attribute, x_pos) = sprite_slot(p, n);
    let pat = sprite_pattern_addr(p, y_pos, tile, attribute);
    if x_pos == 0xFF {
        sprites == p.sprites
    } else {
        &&& sprites.generation == p.sprites.generation
        &&& sprites.buffer@ == sprite_row_drawn(
            p.sprites.buffer@,
            p.sprites.generation,
            n as u8,
            x_pos,
            attribute,
            m0.peek_value(pat),
            m1.peek_value(pat | 0x8),
            p.eval.has_sprite0 && n == 0,
        )
    }
}

/// A sprite pattern address lies on the cartridge side of the PPU bus.
proof fn lemma_sprite_fetch_addrs(row: u16, t: u16, table: u16)
    by (bit_vector)
    requires
        row < 8,
        t < 256,
        table <= 1,
    ensures
        (row | (t << 4) | (table << 12)) & 0x3FFF == row | (t << 4) | (table << 12),
        (row | (t << 4) | (table << 12)) & 0x3FFF < 0x3F00,
        ((row | (t << 4) | (table << 12)) | 0x8) & 0x3FFF == (row | (t << 4) | (table << 12)) | 0x8,
        ((row | (t << 4) | (table << 12)) | 0x8) & 0x3FFF < 0x3F00,
{
}

/// The pattern address of the current line's row of a sprite at `y_pos`
/// with tile byte `tile` (see `sprite_pattern_addr`).
fn sprite_row_addr(p: &PpuState, y_pos: u8, tile: u8, attribute: u8) -> (r: u16)
    requires
        p.wf_loose(),
    ensures
        r == sprite_pattern_addr(*p, y_pos, tile, attribute),
        r & 0x3FFF == r,
        r & 0x3FFF < 0x3F00,
        (r | 0x8) & 0x3FFF == r | 0x8,
        (r | 0x8) & 0x3FFF < 0x3F00,
{
    let mut t = tile;
    let mut sprite_table = p.ctrl.sprite_table_addr;
    let tile_row_raw = p.beam.scanline.wrapping_sub(y_pos as u16);
    let flip_vertical = attribute & 0x80 > 0;
    if p.ctrl.sprite_size > 0 {
        sprite_table = t & 0x1;
        t = t & 0xFE;
        let low: u8 = if (tile_row_raw >= 8) != flip_vertical { 1 } else { 0 };
        t = t | low;
    }
    let low_row = tile_row_raw & 0x7;
    proof { lemma_and_bounds(); }
    let tile_row = if flip_vertical { 7 - low_row } else { low_row };
    proof { lemma_sprite_fetch_addrs(tile_row, t as u16, sprite_table as u16); }
    tile_row | ((t as u16) << 4) | ((sprite_table as u16) << 12)
}

/// Dots 264, 272, ..., 320: fetches the patterns of one secondary-OAM
/// sprite and draws its row for the next scanline.
#[verifier::rlimit(60)]
pub fn load_sprite(s: &mut State, tick: u16)
    requires
        old(s).wf_loose(),
        257 <= tick <= 320,
        tick & 7 == 0,
    ensures
        final(s).wf_loose(),
        final(s).ppu == (PpuState { sprites: final(s).ppu.sprites, ..old(s).ppu }),
        video_step(*final(s), *old(s)),
        final(s).cpu.pending_interrupt == old(s).cpu.pending_interrupt,
        exists|m1: AnyMapper| #[trigger] sprite_loaded(old(s).ppu, old(s).mapper, m1, tick, final(s).ppu.sprites),
{
    let n = ((tick - 257) / 8) as usize;
    assert(n < 8);
    let e = s.ppu.eval;
    let mut y_pos = e.oam_2[n * 4 + 0];
    let mut tile = e.oam_2[n * 4 + 1];
    let mut attribute = e.oam_2[n * 4 + 2];
    let mut x_pos = e.oam_2[n * 4 + 3];
    let scanline = s.ppu.beam.scanline;
    if n >= e.scanline_count {
        y_pos = scanline as u8;
        tile = 0xFF;
        attribute = 0xFF;
        x_pos = 0xFF;
    }
    let pattern_addr = sprite_row_addr(&s.ppu, y_pos, tile, attribute);
    let ghost m0 = s.mapper;
    let lo = s.ppu_peek(pattern_addr);
    let ghost m1 = s.mapper;
    let hi = s.ppu_peek(pattern_addr | 0x8);
    let ghost p0 = s.ppu;
    if x_pos == 0xFF {
        assert(sprite_loaded(p0, m0, m1, tick, s.ppu.sprites)) by { reveal(sprite_loaded); }
        return;
    }
    let sprite0 = e.has_sprite0 && (n == 0);
    draw_sprite_row(&mut s.ppu.sprites, n as u8, x_pos, attribute, lo, hi, sprite0);
    assert(sprite_loaded(p0, m0, m1, tick, s.ppu.sprites)) by { reveal(sprite_loaded); }
}

/// The video unit after dot `tick` of the pre-render scanline does its
/// own work: dot 1 clears the vertical-blank and sprite-0 flags and marks
/// rendering, dot 304 reloads the vertical scroll bits from `t` when
/// rendering is on.
pub open spec fn prerendered(p: PpuState, tick: u16, rendering_enabled: bool) -> PpuState {
    if tick == 1 {
        PpuState { status: PpuStatus { sprite0_hit: false, vblank: 0, is_rendering: true, ..p.status }, ..p }
    } else if tick == 304 && rendering_enabled {
        PpuState { scroll: Scroll { v: (p.scroll.v & 0x841F) | (p.scroll.t & 0x7BE0), ..p.scroll }, ..p }
    } else {
        p
    }
}

/// The video unit after the pre-render work of a dot, if any.
pub open spec fn before_render(p: PpuState, scanline: u16, tick: u16, rendering_enabled: bool) -> PpuState {
    if scanline == 261 { prerendered(p, tick, rendering_enabled) } else { p }
}

/// Whether a dot of `scanline` renders: a visible or the pre-render line,
/// with rendering on.
pub open spec fn rendering_dot(scanline: u16, rendering_enabled: bool) -> bool {
    (scanline < 240 || scanline == 261) && rendering_enabled
}

/// Dots 1 and 304 of the pre-render scanline: the status flags are
/// cleared, then the vertical scroll bits are reloaded from `t`.
fn prerender_dot(ppu: &mut PpuState, tick: u16, rendering_enabled: bool)
    requires
        old(ppu).wf_loose(),
    ensures
        final(ppu).wf_loose(),
        final(ppu).registers_same(old(ppu)),
        final(ppu).beam == old(ppu).beam,
        final(ppu).last_cpu_cycle == old(ppu).last_cpu_cycle,
        tick == 1 ==> !final(ppu).status.sprite0_hit && final(ppu).status.vblank == 0
            && final(ppu).status.is_rendering,
        *final(ppu) == prerendered(*old(ppu), tick, rendering_enabled),
{
    if tick == 1 {
        ppu.status = PpuStatus { sprite0_hit: false, vblank: 0, is_rendering: true, ..ppu.status };
    } else if tick == 304 && rendering_enabled {
        ppu.scroll.v = (ppu.scroll.v & 0x841F) | (ppu.scroll.t & 0x7BE0);
    }
}

/// The VRAM address after the scroll work of dot `tick`: the vertical step
/// at 256, the horizontal reload from `t` at 257, a coarse X step every
/// eighth dot of 1-256 and 321-336.
pub open spec fn scroll_after_dot(sc: Scroll, tick: u16) -> u16 {
    if tick == 256 {
        scroll_y_next(sc.v)
    } else if tick == 257 {
        (sc.v & 0xFBE0) | (sc.t & 0x41F)
    } else if ((321 <= tick <= 336) || (1 <= tick <= 256)) && tick & 0x7 == 0 {
        scroll_x_next(sc.v)
    } else {
        sc.v
    }
}

/// Dots 256 to 336: the end-of-line vertical step, the horizontal reload
/// and the coarse X steps.
fn scroll_dot(ppu: &mut PpuState, tick: u16)
    requires
        old(ppu).wf_loose(),
    ensures
        final(ppu).wf_loose(),
        final(ppu).registers_same(old(ppu)),
        final(ppu).beam == old(ppu).beam,
        final(ppu).last_cpu_cycle == old(ppu).last_cpu_cycle,
        *final(ppu) == (PpuState {
            scroll: Scroll { v: scroll_after_dot(old(ppu).scroll, tick), ..old(ppu).scroll },
            ..*old(ppu)
        }),
{
    if tick == 256 {
        increment_scroll_y(ppu);
    } else if tick == 257 {
        ppu.scroll.v = (ppu.scroll.v & 0xFBE0) | (ppu.scroll.t & 0x41F);
    } else if ((tick >= 321 && tick <= 336) || (tick >= 1 && tick <= 256)) && (tick & 0x7 == 0) {
        increment_scroll_x(ppu);
    }
}

/// Whether dot `tick` steps the background ring: dots 1-256 and 321-336.
pub open spec fn bg_shift_dot(tick: u16) -> bool {
    (1 <= tick <= 256) || (321 <= tick <= 336)
}

/// `p` with its background ring moved to slot `index`.
pub open spec fn with_ring_index(p: PpuState, index: usize) -> PpuState {
    PpuState { bg: Background { index, ..p.bg }, ..p }
}

/// Whether `fb` is the frame buffer of `p` with the pixel at `p`'s dot
/// drawn: the RGBA value of the palette entry that `pixel_color` picks.
pub open spec fn pixel_drawn(fb: Seq<u8>, p: PpuState) -> bool {
    let o = pixel_offset(p.beam.tick - 1, p.beam.scanline as int);
    let px = p.palette_rgba@[(pixel_color(p) & 0x1F) as int];
    fb == p.frame_buffer@.update(o, (px & 0xFF) as u8).update(o + 1, ((px >> 8) & 0xFF) as u8)
        .update(o + 2, ((px >> 16) & 0xFF) as u8).update(o + 3, (px >> 24) as u8)
}

/// Whether `fb` is `old` with row `y` blanked to opaque black.
pub open spec fn row_blanked(fb: Seq<u8>, old: Seq<u8>, y: int) -> bool {
    &&& fb.len() == FRAME_SIZE
    &&& forall|k: int| 0 <= k < FRAME_SIZE && !(y * 1024 <= k < y * 1024 + 1024)
        ==> #[trigger] fb[k] == old[k]
    &&& forall|k: int| y * 1024 <= k < y * 1024 + 1024
        ==> #[trigger] fb[k] == (if k % 4 == 3 { 255u8 } else { 0u8 })
}

/// The background part of a rendering dot: the ring steps, a tile is
/// fetched every eight dots, and the pixel is drawn (border lines are
/// blanked instead).
fn background_dot(s: &mut State, scanline: u16, tick: u16)
    requires
        old(s).wf_loose(),
        scanline == old(s).ppu.beam.scanline,
        tick == old(s).ppu.beam.tick,
        scanline < 240 || scanline == 261,
    ensures
        final(s).wf_loose(),
        final(s).ppu.registers_same(&old(s).ppu),
        final(s).ppu.beam == old(s).ppu.beam,
        final(s).ppu.last_cpu_cycle == old(s).ppu.last_cpu_cycle,
        video_step(*final(s), *old(s)),
        final(s).cpu.pending_interrupt == old(s).cpu.pending_interrupt,
        final(s).ppu == (PpuState {
            bg: final(s).ppu.bg,
            frame_buffer: final(s).ppu.frame_buffer,
            status: PpuStatus { sprite0_hit: final(s).ppu.status.sprite0_hit, ..old(s).ppu.status },
            ..old(s).ppu
        }),
        final(s).ppu.bg.index == (if bg_shift_dot(tick) { (old(s).ppu.bg.index + 1) % 24 } else { old(s).ppu.bg.index as int }),
        !(bg_shift_dot(tick) && tick & 0x7 == 1) ==> final(s).ppu.bg.data == old(s).ppu.bg.data,
        bg_shift_dot(tick) && tick & 0x7 == 1 ==> exists|m1: AnyMapper, m2: AnyMapper, m3: AnyMapper|
            #[trigger] tile_fetched(
                with_ring_index(old(s).ppu, final(s).ppu.bg.index),
                old(s).mapper, m1, m2, m3, final(s).ppu.bg.data@),
        scanline < 240 && 1 <= tick <= 256 && 8 <= scanline < 232 ==> {
            let q = PpuState { bg: final(s).ppu.bg, ..old(s).ppu };
            &&& pixel_drawn(final(s).ppu.frame_buffer@, q)
            &&& final(s).ppu.status.sprite0_hit == (old(s).ppu.status.sprite0_hit || sprite0_hits(q))
        },
        scanline < 240 && tick == 1 && !(8 <= scanline < 232) ==> row_blanked(
            final(s).ppu.frame_buffer@, old(s).ppu.frame_buffer@, scanline as int)
            && final(s).ppu.status.sprite0_hit == old(s).ppu.status.sprite0_hit,
        !(scanline < 240 && 1 <= tick <= 256 && (8 <= scanline < 232 || tick == 1)) ==> final(s).ppu.frame_buffer
            == old(s).ppu.frame_buffer && final(s).ppu.status.sprite0_hit == old(s).ppu.status.sprite0_hit,
{
    ring_dot(s, tick);
    pixel_dot(s, scanline, tick);
}

/// The ring part of a rendering dot: the ring steps, and a tile is fetched
/// every eight dots.
fn ring_dot(s: &mut State, tick: u16)
    requires
        old(s).wf_loose(),
    ensures
        final(s).wf_loose(),
        video_step(*final(s), *old(s)),
        final(s).cpu.pending_interrupt == old(s).cpu.pending_interrupt,
        final(s).ppu == (PpuState { bg: final(s).ppu.bg, ..old(s).ppu }),
        final(s).ppu.bg.index == (if bg_shift_dot(tick) { (old(s).ppu.bg.index + 1) % 24 } else { old(s).ppu.bg.index as int }),
        !(bg_shift_dot(tick) && tick & 0x7 == 1) ==> final(s).ppu.bg.data == old(s).ppu.bg.data,
        bg_shift_dot(tick) && tick & 0x7 == 1 ==> exists|m1: AnyMapper, m2: AnyMapper, m3: AnyMapper|
            #[trigger] tile_fetched(
                with_ring_index(old(s).ppu, final(s).ppu.bg.index),
                old(s).mapper, m1, m2, m3, final(s).ppu.bg.data@),
{
    if (tick >= 1 && tick <= 256) || (tick >= 321 && tick <= 336) {
        advance_bg(&mut s.ppu.bg);
        if tick & 0x7 == 1 {
            let ghost stepped = s.ppu;
            assert(stepped == with_ring_index(old(s).ppu, s.ppu.bg.index));
            fetch_tile(s);
        }
    }
}

/// The pixel part of a rendering dot: the pixel is drawn, or a border line
/// is blanked at its first dot.
fn pixel_dot(s: &mut State, scanline: u16, tick: u16)
    requires
        old(s).wf_loose(),
        scanline == old(s).ppu.beam.scanline,
        tick == old(s).ppu.beam.tick,
    ensures
        final(s).wf_loose(),
        *final(s) == (State { ppu: final(s).ppu, ..*old(s) }),
        final(s).ppu == (PpuState {
            frame_buffer: final(s).ppu.frame_buffer,
            status: PpuStatus { sprite0_hit: final(s).ppu.status.sprite0_hit, ..old(s).ppu.status },
            ..old(s).ppu
        }),
        scanline < 240 && 1 <= tick <= 256 && 8 <= scanline < 232 ==>
            pixel_drawn(final(s).ppu.frame_buffer@, old(s).ppu)
            && final(s).ppu.status.sprite0_hit == (old(s).ppu.status.sprite0_hit || sprite0_hits(old(s).ppu)),
        scanline < 240 && tick == 1 && !(8 <= scanline < 232) ==> row_blanked(
            final(s).ppu.frame_buffer@, old(s).ppu.frame_buffer@, scanline as int)
            && final(s).ppu.status.sprite0_hit == old(s).ppu.status.sprite0_hit,
        !(scanline < 240 && 1 <= tick <= 256 && (8 <= scanline < 232 || tick == 1)) ==> final(s).ppu.frame_buffer
            == old(s).ppu.frame_buffer && final(s).ppu.status.sprite0_hit == old(s).ppu.status.sprite0_hit,
{
    if scanline < 240 && tick >= 1 && tick <= 256 {
        if scanline < 8 || scanline >= 232 {
            if tick == 1 {
                blank_scanline(&mut s.ppu.frame_buffer, scanline as usize);
            }
        } else {
            render_pixel(s);
        }
    }
}

/// The work of one dot of a visible or pre-render scanline: flag resets,
/// background fetches, pixel output, sprite evaluation and scrolling.
pub fn dot(s: &mut State, scanline: u16, tick: u16, rendering_enabled: bool)
    requires
        old(s).wf_loose(),
        scanline == old(s).ppu.beam.scanline,
        tick == old(s).ppu.beam.tick,
    ensures
        final(s).wf_loose(),
        final(s).ppu.registers_same(&old(s).ppu),
        final(s).ppu.beam == old(s).ppu.beam,
        final(s).ppu.last_cpu_cycle == old(s).ppu.last_cpu_cycle,
        video_step(*final(s), *old(s)),
        final(s).cpu.pending_interrupt == old(s).cpu.pending_interrupt,
        !rendering_dot(scanline, rendering_enabled) ==> *final(s) == (State {
            ppu: before_render(old(s).ppu, scanline, tick, rendering_enabled),
            ..*old(s)
        }),
        rendering_dot(scanline, rendering_enabled) ==> final(s).ppu == (PpuState {
            bg: final(s).ppu.bg,
            frame_buffer: final(s).ppu.frame_buffer,
            status: PpuStatus {
                sprite0_hit: final(s).ppu.status.sprite0_hit,
                ..before_render(old(s).ppu, scanline, tick, rendering_enabled).status
            },
            scroll: Scroll {
                v: scroll_after_dot(before_render(old(s).ppu, scanline, tick, rendering_enabled).scroll, tick),
                ..old(s).ppu.scroll
            },
            eval: final(s).ppu.eval,
            sprites: final(s).ppu.sprites,
            ..old(s).ppu
        }),
        rendering_dot(scanline, rendering_enabled) ==> final(s).ppu.bg.index == (if bg_shift_dot(tick) {
            (old(s).ppu.bg.index + 1) % 24
        } else {
            old(s).ppu.bg.index as int
        }),
        rendering_dot(scanline, rendering_enabled) && !(bg_shift_dot(tick) && tick & 0x7 == 1)
            ==> final(s).ppu.bg.data == old(s).ppu.bg.data,
        rendering_dot(scanline, rendering_enabled) && bg_shift_dot(tick) && tick & 0x7 == 1
            ==> exists|m1: AnyMapper, m2: AnyMapper, m3: AnyMapper| #[trigger] tile_fetched(
                with_ring_index(before_render(old(s).ppu, scanline, tick, rendering_enabled), final(s).ppu.bg.index),
                old(s).mapper, m1, m2, m3, final(s).ppu.bg.data@),
        rendering_dot(scanline, rendering_enabled) && scanline < 240 && 1 <= tick <= 256 && 8 <= scanline < 232
            ==> pixel_drawn(final(s).ppu.frame_buffer@, PpuState { bg: final(s).ppu.bg, ..old(s).ppu })
            && final(s).ppu.status.sprite0_hit == (old(s).ppu.status.sprite0_hit
                || sprite0_hits(PpuState { bg: final(s).ppu.bg, ..old(s).ppu })),
        rendering_dot(scanline, rendering_enabled) && scanline < 240 && tick == 1 && !(8 <= scanline < 232)
            ==> row_blanked(final(s).ppu.frame_buffer@, old(s).ppu.frame_buffer@, scanline as int)
            && final(s).ppu.status.sprite0_hit == old(s).ppu.status.sprite0_hit,
        rendering_dot(scanline, rendering_enabled) && !(scanline < 240 && 1 <= tick <= 256 && (8 <= scanline < 232 || tick == 1))
            ==> final(s).ppu.frame_buffer == old(s).ppu.frame_buffer
            && final(s).ppu.status.sprite0_hit == before_render(old(s).ppu, scanline, tick, rendering_enabled).status.sprite0_hit,
        rendering_dot(scanline, rendering_enabled) && tick == 1 ==> final(s).ppu.eval.oam_2@ == Seq::new(32, |i: int| 0xFFu8)
            && final(s).ppu.eval.n == 0 && final(s).ppu.eval.scanline_count == 0,
{
    if scanline == 261 {
        prerender_dot(&mut s.ppu, tick, rendering_enabled);
    }
    let is_active_scanline = scanline < 240 || scanline == 261;
    if is_active_scanline && rendering_enabled {
        background_dot(s, scanline, tick);
        sprite_evaluation(s);
        scroll_dot(&mut s.ppu, tick);
    }
}

} // verus!
