//! MMC5 (mapper 5): four program banking modes with work RAM mappable into
//! ROM space, four character banking modes with separate background
//! banks, per-nametable sources (VRAM pages, extended RAM, fill), an 8-bit
//! multiplier, and a scanline interrupt detected from the PPU's fetch
//! pattern.
use vstd::prelude::*;
use crate::save_state::{flag_fits, vec_fits, vec_len};
use crate::mapper::mirror_fits;
use crate::bits::lemma_addr_fields;
use crate::bits::lemma_and_bounds;
use crate::cartridge::Cartridge;
use crate::mapper::{mirror_tag, read_supported_mirror, lemma_mod_below, Mapper, MirrorMode};
use crate::mapper_nrom::{header_mirroring, mirroring_from_header};
use crate::save_state::{
    WriteState, ReadState, StateReader, StateError, bool_bytes, u16_bytes, vec_bytes, write_byte_vec,
    read_byte_vec_exact, read_bool_strict, read_u16_le,
};

verus! {

/// The bank registers.
pub struct Mmc5Banks {
    pub prg_mode: u8,
    pub prg_bank: [u8; 4],
    pub chr_mode: u8,
    pub chr_upper_bank: u8,
    /// Sprite (and, outside 8x16 mode, all) character banks.
    pub chr_bank: [u8; 8],
    /// Background character banks.
    pub chr_bank_nt: [u8; 4],
}

/// What the four nametables read from.
pub struct Mmc5Nametables {
    /// Two bits per nametable: VRAM page 0, VRAM page 1, extended RAM, fill.
    pub nametable_mode: u8,
    pub vram: [u8; 2048],
    pub fill_tile: u8,
    pub fill_attr: u8,
    pub exram_mode: u8,
    pub exram: [u8; 1024],
}

/// The scanline detector and its interrupt.
#[derive(Clone, Copy)]
pub struct Mmc5Scanline {
    pub irq_enabled: bool,
    pub irq_pending: bool,
    pub irq_latch: u8,
    pub irq_counter: u8,
    pub in_frame: bool,
    pub cpu_reads_since_ppu: u16,
    pub last_ppu_address: u16,
    /// Consecutive pattern-table reads seen.
    pub ppu_match_count: u8,
}

/// What the last nametable fetch latched for the following pattern fetches.
#[derive(Clone, Copy)]
pub struct Mmc5Fetch {
    pub nt_latch: u8,
    pub exram_latch: u8,
    pub bg_chr_fetches_left: u8,
}

pub struct MapperMmc5 {
    pub cart: Cartridge,
    pub banks: Mmc5Banks,
    pub nametables: Mmc5Nametables,
    pub scanline: Mmc5Scanline,
    pub fetch: Mmc5Fetch,
    pub mul_a: u8,
    pub mul_b: u8,
    pub wram_bank: u8,
    pub wram: Vec<u8>,
    pub wram_enabled: bool,
    pub prg_ram_write_1: u8,
    pub prg_ram_write_2: u8,
    pub mirror_mode: MirrorMode,
    pub prg_len: usize,
    pub chr_len: usize,
}

/// The scanline detector after the CPU reads `addr`.  A read of the NMI
/// vector ends the frame.  PPU-side addresses reset the CPU-read count;
/// pattern reads are counted, and a nametable read after three or more
/// pattern reads marks a new scanline: it starts the frame, or counts the
/// scanline and raises the interrupt when the count meets a nonzero latch.
/// Over 200 CPU reads in a row without a PPU access end the frame.
pub open spec fn mmc5_track_read(s: Mmc5Scanline, addr: u16) -> Mmc5Scanline {
    let s1 = if addr == 0xFFFA || addr == 0xFFFB {
        Mmc5Scanline { in_frame: false, last_ppu_address: 0xFFFF, ..s }
    } else {
        s
    };
    if addr < 0x4000 {
        let s2 = if addr < 0x2000 {
            Mmc5Scanline { ppu_match_count: s1.ppu_match_count.saturating_add(1), ..s1 }
        } else if addr <= 0x2FFF {
            let s3 = if s1.ppu_match_count >= 3 {
                if !s1.in_frame {
                    Mmc5Scanline { in_frame: true, irq_counter: 0, ..s1 }
                } else {
                    let c = s1.irq_counter.wrapping_add(1);
                    Mmc5Scanline {
                        irq_counter: c,
                        irq_pending: if s1.irq_latch != 0 && c == s1.irq_latch { true } else { s1.irq_pending },
                        ..s1
                    }
                }
            } else {
                s1
            };
            Mmc5Scanline { ppu_match_count: 0, ..s3 }
        } else {
            Mmc5Scanline { ppu_match_count: 0, ..s1 }
        };
        Mmc5Scanline { cpu_reads_since_ppu: 0, last_ppu_address: addr, ..s2 }
    } else {
        let n = s1.cpu_reads_since_ppu.saturating_add(1);
        Mmc5Scanline { cpu_reads_since_ppu: n, in_frame: if n > 200 { false } else { s1.in_frame }, ..s1 }
    }
}

/// The scanline detector after a read: reading 0x5204 also acknowledges
/// the interrupt.
pub open spec fn mmc5_scanline_after_read(s: Mmc5Scanline, addr: u16) -> Mmc5Scanline {
    let t = mmc5_track_read(s, addr);
    if addr == 0x5204 { Mmc5Scanline { irq_pending: false, ..t } } else { t }
}

/// The scanline detector after the CPU writes `val` to `addr`: disabling
/// rendering through 0x2001 ends the frame, the CPU-access count moves as
/// for reads, and 0x5203 and 0x5204 set the latch and the enable.
pub open spec fn mmc5_scanline_after_write(s: Mmc5Scanline, addr: u16, val: u8) -> Mmc5Scanline {
    let s1 = if addr == 0x2001 && val & 0x18 == 0 {
        Mmc5Scanline { in_frame: false, last_ppu_address: 0xFFFF, ..s }
    } else {
        s
    };
    let s2 = if addr < 0x4000 {
        Mmc5Scanline { cpu_reads_since_ppu: 0, ..s1 }
    } else {
        let n = s1.cpu_reads_since_ppu.saturating_add(1);
        Mmc5Scanline { cpu_reads_since_ppu: n, in_frame: if n > 200 { false } else { s1.in_frame }, ..s1 }
    };
    if addr == 0x5203 {
        Mmc5Scanline { irq_latch: val, ..s2 }
    } else if addr == 0x5204 {
        Mmc5Scanline { irq_enabled: val & 0x80 != 0, ..s2 }
    } else {
        s2
    }
}

/// The mirroring that a write of `val` to 0x5105 reports.
pub open spec fn mmc5_mirroring(val: u8) -> MirrorMode {
    if val & 3 == 1 && (val >> 2) & 3 == 0 { MirrorMode::MirrorVertical } else { MirrorMode::MirrorHorizontal }
}

/// Which nametable (0 to 3) a PPU address falls in.
pub open spec fn nt_index(addr: u16) -> int {
    ((addr & 0x0FFF) >> 10) as int
}

pub open spec fn banks_bytes(b: Mmc5Banks) -> Seq<u8> {
    seq![b.prg_mode] + b.prg_bank@ + seq![b.chr_mode] + seq![b.chr_upper_bank] + b.chr_bank@ + b.chr_bank_nt@
}

pub open spec fn nametables_bytes(n: Mmc5Nametables) -> Seq<u8> {
    seq![n.nametable_mode] + n.vram@ + seq![n.fill_tile] + seq![n.fill_attr] + seq![n.exram_mode] + n.exram@
}

/// The interrupt part of the detector as saved.
pub open spec fn irq_bytes(s: Mmc5Scanline) -> Seq<u8> {
    bool_bytes(s.irq_enabled) + bool_bytes(s.irq_pending) + seq![s.irq_latch] + seq![s.irq_counter]
        + bool_bytes(s.in_frame)
}

/// The fetch latches and detector state saved after the mirroring.
pub open spec fn tail_bytes(f: Mmc5Fetch, s: Mmc5Scanline) -> Seq<u8> {
    seq![f.nt_latch] + seq![f.exram_latch] + seq![f.bg_chr_fetches_left] + u16_bytes(s.last_ppu_address)
        + seq![s.ppu_match_count]
}

impl MapperMmc5 {
    pub const ID: u8 = 5;

    pub open spec fn nt_slot(&self, addr: u16) -> u8 {
        (self.nametables.nametable_mode >> ((nt_index(addr) * 2) as u8)) & 3
    }

    /// The byte a nametable (not attribute) fetch of `addr` gives.
    pub open spec fn nametable_value(&self, addr: u16) -> u8 {
        let offset = (addr & 0x03FF) as int;
        let slot = self.nt_slot(addr);
        if slot == 0 {
            self.nametables.vram@[offset]
        } else if slot == 1 {
            self.nametables.vram@[0x400 + offset]
        } else if slot == 2 {
            self.nametables.exram@[offset]
        } else if offset >= 0x3C0 {
            self.nametables.fill_attr
        } else {
            self.nametables.fill_tile
        }
    }

    /// The byte an attribute fetch of `addr` gives outside extended
    /// attribute mode.
    pub open spec fn attribute_value(&self, addr: u16) -> u8 {
        let offset = (addr & 0x0038) as int;
        let slot = self.nt_slot(addr);
        if slot == 0 {
            self.nametables.vram@[0x3C0 + offset]
        } else if slot == 1 {
            self.nametables.vram@[0x7C0 + offset]
        } else if slot == 2 {
            self.nametables.exram@[0x3C0 + offset]
        } else {
            self.nametables.fill_attr
        }
    }

    /// The character ROM offset of character bank `bank` in the current
    /// character mode, with the upper bank bits.
    pub open spec fn chr_bank_offset(&self, bank: u8) -> int {
        let len = self.chr_len as int;
        let upper = (self.banks.chr_upper_bank & 3) as int;
        if len == 0 {
            0
        } else if self.banks.chr_mode == 0 {
            ((upper * 128 + (bank & 0x7F)) * 0x2000) % len
        } else if self.banks.chr_mode == 1 {
            ((upper * 256 + bank) * 0x1000) % len
        } else if self.banks.chr_mode == 2 {
            ((upper * 256 + bank) * 0x800) % len
        } else {
            ((upper * 256 + bank) * 0x400) % len
        }
    }

    /// The character ROM offset that pattern address `addr` reads, for a
    /// background fetch or not.  Extended attribute mode picks background
    /// tiles through extended RAM.
    pub open spec fn chr_offset(&self, addr: u16, is_bg: bool) -> int {
        let len = self.chr_len as int;
        let banks = if is_bg { self.banks.chr_bank_nt@ } else { self.banks.chr_bank@ };
        if len == 0 {
            0
        } else if is_bg && self.nametables.exram_mode == 1 {
            (((self.fetch.exram_latch & 0x3F) * 256 + self.fetch.nt_latch) * 16 + (addr & 0x0F)) % len
        } else if self.banks.chr_mode == 0 {
            (self.chr_bank_offset(self.banks.chr_bank[7]) + addr) % len
        } else if self.banks.chr_mode == 1 {
            let b = if is_bg { banks[3] } else if addr < 0x1000 { banks[5] } else { banks[7] };
            (self.chr_bank_offset(b) + addr % 0x1000) % len
        } else if self.banks.chr_mode == 2 {
            let b = if is_bg {
                if addr & 0x0FFF < 0x0800 { banks[1] } else { banks[3] }
            } else if addr <= 0x0FFF {
                banks[3]
            } else {
                banks[5]
            };
            (self.chr_bank_offset(b) + addr % 0x0800) % len
        } else {
            let idx = if is_bg { ((addr & 0x0FFF) >> 10) as int } else { (addr >> 10) as int };
            (self.chr_bank_offset(banks[idx]) + (addr & 0x3FF)) % len
        }
    }

    /// Whether CPU address `addr` (0x8000 and up) reads ROM, and the offset
    /// it reads in ROM or work RAM.  Modes 0 to 3 map one 32 KiB, two
    /// 16 KiB, 16+8+8 KiB or four 8 KiB banks; the last bank is always ROM,
    /// the others when bit 7 of their register is set.
    pub open spec fn prg_map(&self, addr: u16) -> (bool, int) {
        let pb = self.banks.prg_bank@;
        let (reg, align, sub, last) = if self.banks.prg_mode == 0 {
            (pb[3], 0xFCu8, addr & 0x7FFF, true)
        } else if self.banks.prg_mode == 1 {
            if addr < 0xC000 { (pb[1], 0xFEu8, addr & 0x3FFF, false) } else { (pb[3], 0xFEu8, addr & 0x3FFF, true) }
        } else if self.banks.prg_mode == 2 {
            if addr < 0xC000 {
                (pb[1], 0xFEu8, addr & 0x3FFF, false)
            } else if addr < 0xE000 {
                (pb[2], 0xFFu8, addr & 0x1FFF, false)
            } else {
                (pb[3], 0xFFu8, addr & 0x1FFF, true)
            }
        } else {
            let idx = (((addr - 0x8000) as u16) >> 13) as int;
            (pb[idx], 0xFFu8, addr & 0x1FFF, idx == 3)
        };
        (reg & 0x80 != 0 || last, (reg & 0x7F & align) * 0x2000 + sub)
    }

    /// Whether writes to work RAM are unlocked.
    pub open spec fn wram_writable(&self) -> bool {
        self.prg_ram_write_1 & 3 == 2 && self.prg_ram_write_2 & 3 == 1
    }

    /// The work RAM offset that 0x6000-0x7FFF address `addr` reaches.
    pub open spec fn wram_window(&self, addr: u16) -> int {
        self.wram_bank * 0x2000 + (addr & 0x1FFF)
    }

    /// The byte a CPU or PPU read of `addr` returns; the status register
    /// reports the detector as this read leaves it.
    pub open spec fn read_value(&self, addr: u16) -> u8 {
        let t = mmc5_track_read(self.scanline, addr);
        let product = self.mul_a * self.mul_b;
        if addr <= 0x1FFF {
            if self.chr_len == 0 {
                0
            } else {
                self.cart.chr_rom@[self.chr_offset(addr, self.fetch.bg_chr_fetches_left > 0)]
            }
        } else if addr <= 0x3EFF {
            if (addr & 0x03FF) >= 0x03C0 {
                if self.nametables.exram_mode == 1 {
                    let pal = (self.fetch.exram_latch >> 6) & 3;
                    pal | (pal << 2) | (pal << 4) | (pal << 6)
                } else {
                    self.attribute_value(addr)
                }
            } else {
                self.nametable_value(addr)
            }
        } else if addr == 0x5204 {
            (if t.irq_pending { 0x80u8 } else { 0u8 }) | (if t.in_frame { 0x40u8 } else { 0u8 })
        } else if addr == 0x5205 {
            (product % 256) as u8
        } else if addr == 0x5206 {
            (product / 256) as u8
        } else if 0x5C00 <= addr <= 0x5FFF {
            if self.nametables.exram_mode <= 3 { self.nametables.exram@[(addr & 0x03FF) as int] } else { 0 }
        } else if 0x6000 <= addr <= 0x7FFF {
            if self.wram_window(addr) < self.wram@.len() { self.wram@[self.wram_window(addr)] } else { 0 }
        } else if addr >= 0x8000 {
            let (is_rom, offset) = self.prg_map(addr);
            if is_rom {
                if self.prg_len == 0 { 0 } else { self.cart.prg_rom@[offset % (self.prg_len as int)] }
            } else {
                if self.wram@.len() == 0 { 0 } else { self.wram@[offset % (self.wram@.len() as int)] }
            }
        } else {
            0
        }
    }

    /// The fetch latches after a read of `addr`: background pattern reads
    /// use up the background fetches, attribute reads start two of them,
    /// and nametable reads latch the tile and its extended RAM byte.
    pub open spec fn fetch_after_read(&self, addr: u16) -> Mmc5Fetch {
        let f = self.fetch;
        if addr <= 0x1FFF {
            if self.chr_len == 0 || f.bg_chr_fetches_left == 0 {
                f
            } else {
                Mmc5Fetch { bg_chr_fetches_left: (f.bg_chr_fetches_left - 1) as u8, ..f }
            }
        } else if addr <= 0x3EFF {
            if (addr & 0x03FF) >= 0x03C0 {
                Mmc5Fetch { bg_chr_fetches_left: 2, ..f }
            } else {
                Mmc5Fetch {
                    nt_latch: self.nametable_value(addr),
                    exram_latch: self.nametables.exram@[(addr & 0x03FF) as int],
                    ..f
                }
            }
        } else {
            f
        }
    }

    pub fn new(cart: Cartridge) -> (m: MapperMmc5)
        requires
            cart.wf(),
        ensures
            m.wf(),
            m.cart == cart,
            m.banks.prg_mode == 3 && m.banks.chr_mode == 3 && m.banks.chr_upper_bank == 0,
            m.banks.prg_bank@ == Seq::new(4, |i: int| 0xFFu8),
            m.banks.chr_bank@ == Seq::new(8, |i: int| 0u8),
            m.banks.chr_bank_nt@ == Seq::new(4, |i: int| 0u8),
            m.nametables.nametable_mode == 0 && m.nametables.exram_mode == 0,
            m.nametables.vram@ == Seq::new(2048, |i: int| 0u8),
            m.nametables.exram@ == Seq::new(1024, |i: int| 0u8),
            m.wram@ == Seq::new(0x10000, |i: int| 0u8),
            m.wram_enabled && m.wram_bank == 0,
            m.scanline.last_ppu_address == 0xFFFF && !m.scanline.in_frame && !m.scanline.irq_pending,
            m.mirror_mode == header_mirroring(cart.mirror_mode),
    {
        let mirror_mode = mirroring_from_header(cart.mirror_mode);
        let prg_len = cart.prg_rom.len();
        let chr_len = cart.chr_rom.len();
        let wram = crate::cartridge::zeroed(0x10000);
        let m = MapperMmc5 {
            cart,
            banks: Mmc5Banks {
                prg_mode: 0x03,
                prg_bank: [0xFF; 4],
                chr_mode: 0x03,
                chr_upper_bank: 0,
                chr_bank: [0; 8],
                chr_bank_nt: [0; 4],
            },
            nametables: Mmc5Nametables {
                nametable_mode: 0,
                vram: [0; 2048],
                fill_tile: 0,
                fill_attr: 0,
                exram_mode: 0,
                exram: [0; 1024],
            },
            scanline: Mmc5Scanline {
                irq_enabled: false,
                irq_pending: false,
                irq_latch: 0,
                irq_counter: 0,
                in_frame: false,
                cpu_reads_since_ppu: 0,
                last_ppu_address: 0xFFFF,
                ppu_match_count: 0,
            },
            fetch: Mmc5Fetch { nt_latch: 0, exram_latch: 0, bg_chr_fetches_left: 0 },
            mul_a: 0,
            mul_b: 0,
            wram_bank: 0,
            wram,
            wram_enabled: true,
            prg_ram_write_1: 0,
            prg_ram_write_2: 0,
            mirror_mode,
            prg_len,
            chr_len,
        };
        assert(m.banks.prg_bank@ =~= Seq::new(4, |i: int| 0xFFu8));
        assert(m.banks.chr_bank@ =~= Seq::new(8, |i: int| 0u8));
        assert(m.banks.chr_bank_nt@ =~= Seq::new(4, |i: int| 0u8));
        assert(m.nametables.vram@ =~= Seq::new(2048, |i: int| 0u8));
        assert(m.nametables.exram@ =~= Seq::new(1024, |i: int| 0u8));
        m
    }
}


fn track_read(s: &mut Mmc5Scanline, addr: u16)
    ensures
        *final(s) == mmc5_track_read(*old(s), addr),
{
    if addr == 0xFFFA || addr == 0xFFFB {
        s.in_frame = false;
        s.last_ppu_address = 0xFFFF;
    }
    if addr < 0x4000 {
        s.cpu_reads_since_ppu = 0;
        if addr < 0x2000 {
            s.ppu_match_count = s.ppu_match_count.saturating_add(1);
        } else if addr <= 0x2FFF {
            if s.ppu_match_count >= 3 {
                if !s.in_frame {
                    s.in_frame = true;
                    s.irq_counter = 0;
                } else {
                    s.irq_counter = s.irq_counter.wrapping_add(1);
                    if s.irq_latch != 0 && s.irq_counter == s.irq_latch {
                        s.irq_pending = true;
                    }
                }
            }
            s.ppu_match_count = 0;
        } else {
            s.ppu_match_count = 0;
        }
        s.last_ppu_address = addr;
    } else {
        s.cpu_reads_since_ppu = s.cpu_reads_since_ppu.saturating_add(1);
        if s.cpu_reads_since_ppu > 200 {
            s.in_frame = false;
        }
    }
}

fn track_write(s: &mut Mmc5Scanline, addr: u16, val: u8)
    ensures
        *final(s) == mmc5_scanline_after_write(*old(s), addr, val),
{
    if addr == 0x2001 && (val & 0x18) == 0 {
        s.in_frame = false;
        s.last_ppu_address = 0xFFFF;
    }
    if addr < 0x4000 {
        s.cpu_reads_since_ppu = 0;
    } else {
        s.cpu_reads_since_ppu = s.cpu_reads_since_ppu.saturating_add(1);
        if s.cpu_reads_since_ppu > 200 {
            s.in_frame = false;
        }
    }
    if addr == 0x5203 {
        s.irq_latch = val;
    } else if addr == 0x5204 {
        s.irq_enabled = (val & 0x80) != 0;
    }
}

fn write_banks(b: &Mmc5Banks, writer: &mut Vec<u8>)
    ensures
        final(writer)@ == old(writer)@ + banks_bytes(*b),
{
    b.prg_mode.write(writer);
    b.prg_bank.write(writer);
    b.chr_mode.write(writer);
    b.chr_upper_bank.write(writer);
    b.chr_bank.write(writer);
    b.chr_bank_nt.write(writer);
    assert(writer@ =~= old(writer)@ + banks_bytes(*b));
}

fn read_banks(reader: &mut StateReader) -> (res: Result<Mmc5Banks, StateError>)
    requires
        old(reader).wf(),
    ensures
        final(reader).wf(),
        final(reader).data@ == old(reader).data@,
        res is Ok <==> old(reader).rest().len() >= 19,
        res matches Ok(b) ==> final(reader).pos == old(reader).pos + 19
            && old(reader).rest().take(19) == banks_bytes(b),
{
    let ghost r0 = reader.rest();
    let prg_mode = u8::read(reader)?;
    assert(reader.rest() =~= r0.skip(1));
    let prg_bank = <[u8; 4]>::read(reader)?;
    assert(prg_bank@ =~= r0.subrange(1, 5));
    assert(reader.rest() =~= r0.skip(5));
    let chr_mode = u8::read(reader)?;
    assert(reader.rest() =~= r0.skip(6));
    let chr_upper_bank = u8::read(reader)?;
    assert(reader.rest() =~= r0.skip(7));
    let chr_bank = <[u8; 8]>::read(reader)?;
    assert(chr_bank@ =~= r0.subrange(7, 15));
    assert(reader.rest() =~= r0.skip(15));
    let chr_bank_nt = <[u8; 4]>::read(reader)?;
    assert(chr_bank_nt@ =~= r0.subrange(15, 19));
    let b = Mmc5Banks { prg_mode, prg_bank, chr_mode, chr_upper_bank, chr_bank, chr_bank_nt };
    assert(r0.take(19) =~= banks_bytes(b));
    Ok(b)
}

fn write_nametables(n: &Mmc5Nametables, writer: &mut Vec<u8>)
    ensures
        final(writer)@ == old(writer)@ + nametables_bytes(*n),
{
    n.nametable_mode.write(writer);
    n.vram.write(writer);
    n.fill_tile.write(writer);
    n.fill_attr.write(writer);
    n.exram_mode.write(writer);
    n.exram.write(writer);
    assert(writer@ =~= old(writer)@ + nametables_bytes(*n));
}

fn read_nametables(reader: &mut StateReader) -> (res: Result<Mmc5Nametables, StateError>)
    requires
        old(reader).wf(),
    ensures
        final(reader).wf(),
        final(reader).data@ == old(reader).data@,
        res is Ok <==> old(reader).rest().len() >= 3076,
        res matches Ok(n) ==> final(reader).pos == old(reader).pos + 3076
            && old(reader).rest().take(3076) == nametables_bytes(n),
{
    let ghost r0 = reader.rest();
    let nametable_mode = u8::read(reader)?;
    assert(reader.rest() =~= r0.skip(1));
    let vram = <[u8; 2048]>::read(reader)?;
    assert(reader.rest() =~= r0.skip(2049));
    let fill_tile = u8::read(reader)?;
    assert(reader.rest() =~= r0.skip(2050));
    let fill_attr = u8::read(reader)?;
    assert(reader.rest() =~= r0.skip(2051));
    let exram_mode = u8::read(reader)?;
    assert(reader.rest() =~= r0.skip(2052));
    let exram = <[u8; 1024]>::read(reader)?;
    let n = Mmc5Nametables { nametable_mode, vram, fill_tile, fill_attr, exram_mode, exram };
    assert(r0.take(3076) =~= nametables_bytes(n));
    Ok(n)
}

impl MapperMmc5 {
    fn nt_slot_of(&self, addr: u16) -> (r: u8)
        ensures
            r == self.nt_slot(addr),
            r < 4,
    {
        let idx = ((addr & 0x0FFF) >> 10) as u8;
        proof { lemma_addr_fields(addr); }
        let mode = self.nametables.nametable_mode;
        let r = (mode >> (idx * 2)) & 3;
        proof { lemma_and_bounds(); }
        r
    }

    fn read_nametable(&self, addr: u16) -> (r: u8)
        ensures
            r == self.nametable_value(addr),
    {
        let slot = self.nt_slot_of(addr);
        let offset = (addr & 0x03FF) as usize;
        proof { lemma_and_bounds(); }
        if slot == 0 {
            self.nametables.vram[offset]
        } else if slot == 1 {
            self.nametables.vram[0x400 + offset]
        } else if slot == 2 {
            self.nametables.exram[offset]
        } else if offset >= 0x3C0 {
            self.nametables.fill_attr
        } else {
            self.nametables.fill_tile
        }
    }

    fn read_attribute(&self, addr: u16) -> (r: u8)
        ensures
            r == self.attribute_value(addr),
    {
        let slot = self.nt_slot_of(addr);
        let offset = (addr & 0x0038) as usize;
        proof { lemma_and_bounds(); }
        if slot == 0 {
            self.nametables.vram[0x3C0 + offset]
        } else if slot == 1 {
            self.nametables.vram[0x400 + 0x3C0 + offset]
        } else if slot == 2 {
            self.nametables.exram[0x3C0 + offset]
        } else {
            self.nametables.fill_attr
        }
    }

    fn get_chr_bank_offset(&self, bank: u8) -> (r: usize)
        requires
            self.chr_len > 0,
            self.chr_len <= 0x400000,
        ensures
            r == self.chr_bank_offset(bank),
            r < self.chr_len,
    {
        let len = self.chr_len;
        let ub = self.banks.chr_upper_bank;
        let upper = (ub & 3) as usize;
        proof { lemma_and_bounds(); }
        let b = match self.banks.chr_mode {
            0 => (upper * 128 + (bank & 0x7F) as usize) * 0x2000,
            1 => (upper * 256 + bank as usize) * 0x1000,
            2 => (upper * 256 + bank as usize) * 0x800,
            _ => (upper * 256 + bank as usize) * 0x400,
        };
        proof {
            lemma_mod_below(b as int, len as int);
        }
        b % len
    }

    fn get_chr_offset(&self, addr: u16, is_bg: bool) -> (r: usize)
        requires
            self.wf(),
            self.chr_len > 0,
            addr <= 0x1FFF,
        ensures
            r == self.chr_offset(addr, is_bg),
            r < self.chr_len,
    {
        let len = self.chr_len;
        if is_bg && self.nametables.exram_mode == 1 {
            let el = self.fetch.exram_latch;
            let hi = el & 0x3F;
            proof { lemma_and_bounds(); }
            let tile_index = (hi as usize) * 256 + self.fetch.nt_latch as usize;
            proof { lemma_and_bounds(); }
            let x = tile_index * 16 + (addr & 0x0F) as usize;
            proof {
                lemma_mod_below(x as int, len as int);
            }
            return x % len;
        }
        let x = match self.banks.chr_mode {
            0 => self.get_chr_bank_offset(self.banks.chr_bank[7]) + addr as usize,
            1 => {
                let b = if is_bg {
                    self.banks.chr_bank_nt[3]
                } else if addr < 0x1000 {
                    self.banks.chr_bank[5]
                } else {
                    self.banks.chr_bank[7]
                };
                self.get_chr_bank_offset(b) + (addr as usize) % 0x1000
            },
            2 => {
                let b = if is_bg {
                    if (addr & 0x0FFF) < 0x0800 { self.banks.chr_bank_nt[1] } else { self.banks.chr_bank_nt[3] }
                } else if addr <= 0x0FFF {
                    self.banks.chr_bank[3]
                } else {
                    self.banks.chr_bank[5]
                };
                self.get_chr_bank_offset(b) + (addr as usize) % 0x0800
            },
            _ => {
                proof { lemma_addr_fields(addr); lemma_and_bounds(); }
                let b = if is_bg {
                    self.banks.chr_bank_nt[((addr & 0x0FFF) >> 10) as usize]
                } else {
                    self.banks.chr_bank[(addr >> 10) as usize]
                };
                self.get_chr_bank_offset(b) + (addr & 0x3FF) as usize
            },
        };
        proof {
            lemma_mod_below(x as int, len as int);
        }
        x % len
    }

    fn get_prg_mapped_addr(&self, addr: u16) -> (r: (bool, usize))
        requires
            addr >= 0x8000,
        ensures
            r.0 == self.prg_map(addr).0,
            r.1 == self.prg_map(addr).1,
            r.1 < 0x110000,
    {
        let (bank_reg, align, sub, last): (u8, u8, u16, bool) = match self.banks.prg_mode {
            0 => (self.banks.prg_bank[3], 0xFC, addr & 0x7FFF, true),
            1 => {
                if addr < 0xC000 {
                    (self.banks.prg_bank[1], 0xFE, addr & 0x3FFF, false)
                } else {
                    (self.banks.prg_bank[3], 0xFE, addr & 0x3FFF, true)
                }
            },
            2 => {
                if addr < 0xC000 {
                    (self.banks.prg_bank[1], 0xFE, addr & 0x3FFF, false)
                } else if addr < 0xE000 {
                    (self.banks.prg_bank[2], 0xFF, addr & 0x1FFF, false)
                } else {
                    (self.banks.prg_bank[3], 0xFF, addr & 0x1FFF, true)
                }
            },
            _ => {
                let idx = ((addr - 0x8000) >> 13) as usize;
                let off = addr - 0x8000;
                proof { lemma_addr_fields(off); }
                (self.banks.prg_bank[idx], 0xFF, addr & 0x1FFF, idx == 3)
            },
        };
        let is_rom = (bank_reg & 0x80) != 0 || last;
        let bank = bank_reg & 0x7F & align;
        proof { lemma_and_bounds(); }
        (is_rom, (bank as usize) * 0x2000 + sub as usize)
    }

    /// Sets the register at `addr` (0x5100 to 0x5206).
    fn poke_register(&mut self, addr: u16, val: u8)
        ensures
            final(self).banks.prg_mode == (if addr == 0x5100 { val & 3 } else { old(self).banks.prg_mode }),
            final(self).banks.chr_mode == (if addr == 0x5101 { val & 3 } else { old(self).banks.chr_mode }),
            final(self).banks.chr_upper_bank == (if addr == 0x5130 { val & 3 } else { old(self).banks.chr_upper_bank }),
            final(self).banks.prg_bank@ == (if 0x5114 <= addr <= 0x5117 {
                old(self).banks.prg_bank@.update(addr - 0x5114, val)
            } else {
                old(self).banks.prg_bank@
            }),
            final(self).banks.chr_bank@ == (if 0x5120 <= addr <= 0x5127 {
                old(self).banks.chr_bank@.update(addr - 0x5120, val)
            } else {
                old(self).banks.chr_bank@
            }),
            final(self).banks.chr_bank_nt@ == (if 0x5128 <= addr <= 0x512B {
                old(self).banks.chr_bank_nt@.update(addr - 0x5128, val)
            } else {
                old(self).banks.chr_bank_nt@
            }),
            final(self).nametables.nametable_mode == (if addr == 0x5105 { val } else { old(self).nametables.nametable_mode }),
            final(self).nametables.fill_tile == (if addr == 0x5106 { val } else { old(self).nametables.fill_tile }),
            final(self).nametables.fill_attr == (if addr == 0x5107 { val & 3 } else { old(self).nametables.fill_attr }),
            final(self).nametables.exram_mode == (if addr == 0x5104 { val & 3 } else { old(self).nametables.exram_mode }),
            final(self).nametables.vram == old(self).nametables.vram,
            final(self).nametables.exram == old(self).nametables.exram,
            final(self).prg_ram_write_1 == (if addr == 0x5102 { val & 3 } else { old(self).prg_ram_write_1 }),
            final(self).prg_ram_write_2 == (if addr == 0x5103 { val & 3 } else { old(self).prg_ram_write_2 }),
            final(self).wram_bank == (if addr == 0x5113 { val & 7 } else { old(self).wram_bank }),
            final(self).mul_a == (if addr == 0x5205 { val } else { old(self).mul_a }),
            final(self).mul_b == (if addr == 0x5206 { val } else { old(self).mul_b }),
            final(self).mirror_mode == (if addr == 0x5105 { mmc5_mirroring(val) } else { old(self).mirror_mode }),
            final(self).mirror_mode.is_supported() || !old(self).mirror_mode.is_supported(),
            final(self).cart == old(self).cart,
            final(self).scanline == old(self).scanline,
            final(self).fetch == old(self).fetch,
            final(self).wram == old(self).wram,
            final(self).wram_enabled == old(self).wram_enabled,
            final(self).prg_len == old(self).prg_len,
            final(self).chr_len == old(self).chr_len,
    {
        if addr == 0x5100 {
            self.banks.prg_mode = val & 3;
        } else if addr == 0x5101 {
            self.banks.chr_mode = val & 3;
        } else if addr == 0x5102 {
            self.prg_ram_write_1 = val & 3;
        } else if addr == 0x5103 {
            self.prg_ram_write_2 = val & 3;
        } else if addr == 0x5104 {
            self.nametables.exram_mode = val & 3;
        } else if addr == 0x5105 {
            self.nametables.nametable_mode = val;
            let nt0 = val & 3;
            let nt1 = (val >> 2) & 3;
            if nt0 == 1 && nt1 == 0 {
                self.mirror_mode = MirrorMode::MirrorVertical;
            } else {
                self.mirror_mode = MirrorMode::MirrorHorizontal;
            }
        } else if addr == 0x5106 {
            self.nametables.fill_tile = val;
        } else if addr == 0x5107 {
            self.nametables.fill_attr = val & 3;
        } else if addr == 0x5113 {
            self.wram_bank = val & 0x07;
        } else if 0x5114 <= addr && addr <= 0x5117 {
            self.banks.prg_bank[(addr - 0x5114) as usize] = val;
        } else if 0x5120 <= addr && addr <= 0x5127 {
            self.banks.chr_bank[(addr - 0x5120) as usize] = val;
        } else if 0x5128 <= addr && addr <= 0x512B {
            self.banks.chr_bank_nt[(addr - 0x5128) as usize] = val;
        } else if addr == 0x5130 {
            self.banks.chr_upper_bank = val & 3;
        } else if addr == 0x5205 {
            self.mul_a = val;
        } else if addr == 0x5206 {
            self.mul_b = val;
        }
    }

    fn wram_offset(&self, addr: u16) -> (r: usize)
        ensures
            r == self.wram_window(addr),
    {
        proof { lemma_and_bounds(); }
        (self.wram_bank as usize) * 0x2000 + (addr & 0x1FFF) as usize
    }
}

/// The fields are all there and the flag bytes are 0 or 1; the work RAM
/// is as long as its length says, and the fields after it follow.
pub open spec fn mmc5_state_fits(cart: Cartridge, rest: Seq<u8>) -> bool {
    let k = 3110 + vec_len(rest.skip(3102));
    &&& rest.len() >= 3102
    &&& flag_fits(rest.skip(3095))
    &&& flag_fits(rest.skip(3096))
    &&& flag_fits(rest.skip(3099))
    &&& vec_fits(rest.skip(3102))
    &&& rest.len() >= k + 10
    &&& flag_fits(rest.skip(k))
    &&& mirror_fits(rest.skip(k + 3))
}

impl Mapper for MapperMmc5 {
    open spec fn wf(&self) -> bool {
        &&& self.prg_len == self.cart.prg_rom@.len()
        &&& self.chr_len == self.cart.chr_rom@.len()
        &&& self.prg_len <= 0x400000
        &&& self.chr_len <= 0x400000
        &&& self.mirror_mode.is_supported()
    }

    open spec fn accepts(&self, cart: &Cartridge) -> bool {
        cart.prg_rom@.len() <= 0x400000 && cart.chr_rom@.len() <= 0x400000
    }

    open spec fn saved_bytes(&self) -> Seq<u8> {
        banks_bytes(self.banks) + nametables_bytes(self.nametables) + irq_bytes(self.scanline)
            + seq![self.mul_a] + seq![self.mul_b] + vec_bytes(self.wram@) + bool_bytes(self.wram_enabled)
            + seq![self.wram_bank] + seq![self.prg_ram_write_1] + seq![self.prg_ram_write_2]
            + seq![mirror_tag(self.mirror_mode)] + tail_bytes(self.fetch, self.scanline)
    }

    /// The work RAM bank is not read back: the bytes from that position
    /// on are read one field early.
    open spec fn loaded_bytes(&self) -> Seq<u8> {
        banks_bytes(self.banks) + nametables_bytes(self.nametables) + irq_bytes(self.scanline)
            + seq![self.mul_a] + seq![self.mul_b] + vec_bytes(self.wram@) + bool_bytes(self.wram_enabled)
            + seq![self.prg_ram_write_1] + seq![self.prg_ram_write_2]
            + seq![mirror_tag(self.mirror_mode)] + tail_bytes(self.fetch, self.scanline)
    }

    open spec fn id(&self) -> u8 {
        5
    }

    open spec fn peek_value(&self, addr: u16) -> u8 {
        self.read_value(addr)
    }

    /// The board after a read of `addr`.
    open spec fn after_read(&self, addr: u16) -> Self {
        Self {
            scanline: mmc5_scanline_after_read(self.scanline, addr),
            fetch: self.fetch_after_read(addr),
            ..*self
        }
    }

    /// Every read feeds the scanline detector; PPU fetches move the fetch
    /// latches; reading 0x5204 acknowledges the interrupt.
    #[verifier::rlimit(40)]
    fn peek(&mut self, addr: u16) -> (r: u8)
        ensures
            r == old(self).read_value(addr),
            final(self).scanline == mmc5_scanline_after_read(old(self).scanline, addr),
            final(self).fetch == old(self).fetch_after_read(addr),
            final(self).cart == old(self).cart,
            final(self).banks == old(self).banks,
            final(self).nametables == old(self).nametables,
            final(self).mul_a == old(self).mul_a,
            final(self).mul_b == old(self).mul_b,
            final(self).wram_bank == old(self).wram_bank,
            final(self).wram == old(self).wram,
            final(self).wram_enabled == old(self).wram_enabled,
            final(self).prg_ram_write_1 == old(self).prg_ram_write_1,
            final(self).prg_ram_write_2 == old(self).prg_ram_write_2,
            final(self).mirror_mode == old(self).mirror_mode,
            final(self).prg_len == old(self).prg_len,
            final(self).chr_len == old(self).chr_len,
    {
        track_read(&mut self.scanline, addr);
        if addr <= 0x1FFF {
            if self.chr_len == 0 {
                return 0;
            }
            let is_bg = self.fetch.bg_chr_fetches_left > 0;
            let offset = self.get_chr_offset(addr, is_bg);
            assert(self.chr_offset(addr, is_bg) == old(self).chr_offset(addr, is_bg));
            if is_bg {
                self.fetch.bg_chr_fetches_left = self.fetch.bg_chr_fetches_left - 1;
            }
            self.cart.chr_rom[offset]
        } else if addr <= 0x3EFF {
            if (addr & 0x03FF) >= 0x03C0 {
                self.fetch.bg_chr_fetches_left = 2;
                if self.nametables.exram_mode == 1 {
                    let pal = (self.fetch.exram_latch >> 6) & 3;
                    pal | (pal << 2) | (pal << 4) | (pal << 6)
                } else {
                    self.read_attribute(addr)
                }
            } else {
                let nt_data = self.read_nametable(addr);
                self.fetch.nt_latch = nt_data;
                proof { lemma_and_bounds(); }
                self.fetch.exram_latch = self.nametables.exram[(addr & 0x03FF) as usize];
                nt_data
            }
        } else if addr == 0x5204 {
            let val: u8 = (if self.scanline.irq_pending { 0x80u8 } else { 0u8 })
                | (if self.scanline.in_frame { 0x40u8 } else { 0u8 });
            self.scanline.irq_pending = false;
            val
        } else if addr == 0x5205 || addr == 0x5206 {
            let a = self.mul_a as u16;
            let b = self.mul_b as u16;
            assert(a * b <= 65025) by (nonlinear_arith)
                requires
                    a <= 255,
                    b <= 255,
            ;
            let result = a * b;
            proof { lemma_addr_fields(result); }
            if addr == 0x5205 {
                (result & 0xFF) as u8
            } else {
                ((result >> 8) & 0xFF) as u8
            }
        } else if 0x5C00 <= addr && addr <= 0x5FFF {
            if self.nametables.exram_mode <= 3 {
                proof { lemma_and_bounds(); }
                self.nametables.exram[(addr & 0x03FF) as usize]
            } else {
                0
            }
        } else if 0x6000 <= addr && addr <= 0x7FFF {
            let offset = self.wram_offset(addr);
            if offset < self.wram.len() {
                self.wram[offset]
            } else {
                0
            }
        } else if addr >= 0x8000 {
            let (is_rom, offset) = self.get_prg_mapped_addr(addr);
            if is_rom {
                if self.prg_len == 0 {
                    return 0;
                }
                self.cart.prg_rom[offset % self.prg_len]
            } else {
                let wram_len = self.wram.len();
                if wram_len == 0 {
                    return 0;
                }
                self.wram[offset % wram_len]
            }
        } else {
            0
        }
    }

    /// What a write of `val` to `addr` leaves: the registers, banks and
    /// memories as this board's `poke` sets them.
    open spec fn written(&self, addr: u16, val: u8, after: Self) -> bool {
        &&& after.scanline == mmc5_scanline_after_write(self.scanline, addr, val)
        &&& after.fetch == self.fetch
        &&& after.cart.prg_rom == self.cart.prg_rom
        &&& after.cart.chr_rom@ == (if addr <= 0x1FFF && self.chr_len > 0 {
                self.cart.chr_rom@.update(self.chr_offset(addr, false), val)
            } else {
                self.cart.chr_rom@
            })
        &&& after.nametables.vram@ == (if 0x2000 <= addr <= 0x3EFF && self.nt_slot(addr) == 0 {
                self.nametables.vram@.update((addr & 0x03FF) as int, val)
            } else if 0x2000 <= addr <= 0x3EFF && self.nt_slot(addr) == 1 {
                self.nametables.vram@.update(0x400 + (addr & 0x03FF), val)
            } else {
                self.nametables.vram@
            })
        &&& after.nametables.exram@ == (if 0x2000 <= addr <= 0x3EFF && self.nt_slot(addr) == 2
                && self.nametables.exram_mode != 3 {
                self.nametables.exram@.update((addr & 0x03FF) as int, val)
            } else if 0x5C00 <= addr <= 0x5FFF && self.nametables.exram_mode <= 2 {
                self.nametables.exram@.update((addr & 0x03FF) as int, val)
            } else {
                self.nametables.exram@
            })
        &&& after.wram@ == (if 0x6000 <= addr <= 0x7FFF && self.wram_writable()
                && self.wram_window(addr) < self.wram@.len() {
                self.wram@.update(self.wram_window(addr), val)
            } else if addr >= 0x8000 && self.wram_writable() && !self.prg_map(addr).0
                && self.wram@.len() > 0 {
                self.wram@.update(self.prg_map(addr).1 % (self.wram@.len() as int), val)
            } else {
                self.wram@
            })
        &&& after.banks.prg_mode == (if addr == 0x5100 { val & 3 } else { self.banks.prg_mode })
        &&& after.banks.chr_mode == (if addr == 0x5101 { val & 3 } else { self.banks.chr_mode })
        &&& after.banks.chr_upper_bank == (if addr == 0x5130 { val & 3 } else { self.banks.chr_upper_bank })
        &&& after.banks.prg_bank@ == (if 0x5114 <= addr <= 0x5117 {
                self.banks.prg_bank@.update(addr - 0x5114, val)
            } else {
                self.banks.prg_bank@
            })
        &&& after.banks.chr_bank@ == (if 0x5120 <= addr <= 0x5127 {
                self.banks.chr_bank@.update(addr - 0x5120, val)
            } else {
                self.banks.chr_bank@
            })
        &&& after.banks.chr_bank_nt@ == (if 0x5128 <= addr <= 0x512B {
                self.banks.chr_bank_nt@.update(addr - 0x5128, val)
            } else {
                self.banks.chr_bank_nt@
            })
        &&& after.nametables.nametable_mode == (if addr == 0x5105 { val } else { self.nametables.nametable_mode })
        &&& after.nametables.fill_tile == (if addr == 0x5106 { val } else { self.nametables.fill_tile })
        &&& after.nametables.fill_attr == (if addr == 0x5107 { val & 3 } else { self.nametables.fill_attr })
        &&& after.nametables.exram_mode == (if addr == 0x5104 { val & 3 } else { self.nametables.exram_mode })
        &&& after.prg_ram_write_1 == (if addr == 0x5102 { val & 3 } else { self.prg_ram_write_1 })
        &&& after.prg_ram_write_2 == (if addr == 0x5103 { val & 3 } else { self.prg_ram_write_2 })
        &&& after.wram_bank == (if addr == 0x5113 { val & 7 } else { self.wram_bank })
        &&& after.mul_a == (if addr == 0x5205 { val } else { self.mul_a })
        &&& after.mul_b == (if addr == 0x5206 { val } else { self.mul_b })
        &&& after.mirror_mode == (if addr == 0x5105 { mmc5_mirroring(val) } else { self.mirror_mode })
        &&& after.wram_enabled == self.wram_enabled
        &&& after.prg_len == self.prg_len
        &&& after.chr_len == self.chr_len
    }

    /// Writes feed the CPU-access count of the scanline detector; pattern
    /// writes go to the sprite-bank location, nametable writes to the page
    /// or extended RAM their nametable uses, 0x5100-0x5206 set registers,
    /// and work RAM (also through ROM space) takes writes only when both
    /// protect registers unlock it.
    #[verifier::rlimit(60)]
    fn poke(&mut self, addr: u16, val: u8)
        ensures
            final(self).scanline == mmc5_scanline_after_write(old(self).scanline, addr, val),
            final(self).fetch == old(self).fetch,
            final(self).cart.prg_rom == old(self).cart.prg_rom,
            final(self).cart.chr_rom@ == (if addr <= 0x1FFF && old(self).chr_len > 0 {
                old(self).cart.chr_rom@.update(old(self).chr_offset(addr, false), val)
            } else {
                old(self).cart.chr_rom@
            }),
            final(self).nametables.vram@ == (if 0x2000 <= addr <= 0x3EFF && old(self).nt_slot(addr) == 0 {
                old(self).nametables.vram@.update((addr & 0x03FF) as int, val)
            } else if 0x2000 <= addr <= 0x3EFF && old(self).nt_slot(addr) == 1 {
                old(self).nametables.vram@.update(0x400 + (addr & 0x03FF), val)
            } else {
                old(self).nametables.vram@
            }),
            final(self).nametables.exram@ == (if 0x2000 <= addr <= 0x3EFF && old(self).nt_slot(addr) == 2
                && old(self).nametables.exram_mode != 3 {
                old(self).nametables.exram@.update((addr & 0x03FF) as int, val)
            } else if 0x5C00 <= addr <= 0x5FFF && old(self).nametables.exram_mode <= 2 {
                old(self).nametables.exram@.update((addr & 0x03FF) as int, val)
            } else {
                old(self).nametables.exram@
            }),
            final(self).wram@ == (if 0x6000 <= addr <= 0x7FFF && old(self).wram_writable()
                && old(self).wram_window(addr) < old(self).wram@.len() {
                old(self).wram@.update(old(self).wram_window(addr), val)
            } else if addr >= 0x8000 && old(self).wram_writable() && !old(self).prg_map(addr).0
                && old(self).wram@.len() > 0 {
                old(self).wram@.update(old(self).prg_map(addr).1 % (old(self).wram@.len() as int), val)
            } else {
                old(self).wram@
            }),
            final(self).banks.prg_mode == (if addr == 0x5100 { val & 3 } else { old(self).banks.prg_mode }),
            final(self).banks.chr_mode == (if addr == 0x5101 { val & 3 } else { old(self).banks.chr_mode }),
            final(self).banks.chr_upper_bank == (if addr == 0x5130 { val & 3 } else { old(self).banks.chr_upper_bank }),
            final(self).banks.prg_bank@ == (if 0x5114 <= addr <= 0x5117 {
                old(self).banks.prg_bank@.update(addr - 0x5114, val)
            } else {
                old(self).banks.prg_bank@
            }),
            final(self).banks.chr_bank@ == (if 0x5120 <= addr <= 0x5127 {
                old(self).banks.chr_bank@.update(addr - 0x5120, val)
            } else {
                old(self).banks.chr_bank@
            }),
            final(self).banks.chr_bank_nt@ == (if 0x5128 <= addr <= 0x512B {
                old(self).banks.chr_bank_nt@.update(addr - 0x5128, val)
            } else {
                old(self).banks.chr_bank_nt@
            }),
            final(self).nametables.nametable_mode == (if addr == 0x5105 { val } else { old(self).nametables.nametable_mode }),
            final(self).nametables.fill_tile == (if addr == 0x5106 { val } else { old(self).nametables.fill_tile }),
            final(self).nametables.fill_attr == (if addr == 0x5107 { val & 3 } else { old(self).nametables.fill_attr }),
            final(self).nametables.exram_mode == (if addr == 0x5104 { val & 3 } else { old(self).nametables.exram_mode }),
            final(self).prg_ram_write_1 == (if addr == 0x5102 { val & 3 } else { old(self).prg_ram_write_1 }),
            final(self).prg_ram_write_2 == (if addr == 0x5103 { val & 3 } else { old(self).prg_ram_write_2 }),
            final(self).wram_bank == (if addr == 0x5113 { val & 7 } else { old(self).wram_bank }),
            final(self).mul_a == (if addr == 0x5205 { val } else { old(self).mul_a }),
            final(self).mul_b == (if addr == 0x5206 { val } else { old(self).mul_b }),
            final(self).mirror_mode == (if addr == 0x5105 { mmc5_mirroring(val) } else { old(self).mirror_mode }),
            final(self).wram_enabled == old(self).wram_enabled,
            final(self).prg_len == old(self).prg_len,
            final(self).chr_len == old(self).chr_len,
    {
        track_write(&mut self.scanline, addr, val);
        if addr <= 0x1FFF {
            if self.chr_len == 0 {
                return;
            }
            let offset = self.get_chr_offset(addr, false);
            if offset < self.chr_len {
                self.cart.chr_rom.set(offset, val);
            }
        } else if addr <= 0x3EFF {
            let slot = self.nt_slot_of(addr);
            let offset = (addr & 0x03FF) as usize;
            proof { lemma_and_bounds(); }
            if slot == 0 {
                self.nametables.vram[offset] = val;
            } else if slot == 1 {
                self.nametables.vram[0x400 + offset] = val;
            } else if slot == 2 {
                if self.nametables.exram_mode != 3 {
                    self.nametables.exram[offset] = val;
                }
            }
        } else if 0x5100 <= addr && addr <= 0x5206 {
            self.poke_register(addr, val);
        } else if 0x5C00 <= addr && addr <= 0x5FFF {
            if self.nametables.exram_mode <= 2 {
                proof { lemma_and_bounds(); }
                self.nametables.exram[(addr & 0x03FF) as usize] = val;
            }
        } else if 0x6000 <= addr && addr <= 0x7FFF {
            if (self.prg_ram_write_1 & 0x03) == 0x02 && (self.prg_ram_write_2 & 0x03) == 0x01 {
                let offset = self.wram_offset(addr);
                if offset < self.wram.len() {
                    self.wram.set(offset, val);
                }
            }
        } else if addr >= 0x8000 {
            if (self.prg_ram_write_1 & 0x03) == 0x02 && (self.prg_ram_write_2 & 0x03) == 0x01 {
                let (is_rom, offset) = self.get_prg_mapped_addr(addr);
                if !is_rom {
                    let wram_len = self.wram.len();
                    if wram_len > 0 {
                        self.wram.set(offset % wram_len, val);
                    }
                }
            }
        }
    }

    fn check_irq(&self) -> (r: bool)
        ensures
            r == (self.scanline.irq_pending && self.scanline.irq_enabled),
    {
        self.scanline.irq_pending && self.scanline.irq_enabled
    }

    fn get_id(&self) -> (r: u8) {
        Self::ID
    }

    /// What putting `cartridge` in leaves: the board's registers as
    /// `update_cartridge` keeps them and its offsets recomputed.
    open spec fn cart_updated(&self, cartridge: Cartridge, after: Self) -> bool {
        &&& after.cart == cartridge
        &&& after.banks == self.banks
        &&& after.nametables == self.nametables
        &&& after.scanline == self.scanline
        &&& after.fetch == self.fetch
        &&& after.wram == self.wram
    }

    fn update_cartridge(&mut self, cartridge: Cartridge)
        ensures
            final(self).cart == cartridge,
            final(self).banks == old(self).banks,
            final(self).nametables == old(self).nametables,
            final(self).scanline == old(self).scanline,
            final(self).fetch == old(self).fetch,
            final(self).wram == old(self).wram,
    {
        self.prg_len = cartridge.prg_rom.len();
        self.chr_len = cartridge.chr_rom.len();
        self.cart = cartridge;
    }

    open spec fn rom_offset(&self, addr: u16) -> Option<u32> {
        (if addr >= 0x8000 && self.prg_map(addr).0 && self.prg_len > 0 {
            Some((self.prg_map(addr).1 % (self.prg_len as int)) as u32)
        } else {
            None::<u32>
        })
    }

    fn get_prg_rom_offset(&self, addr: u16) -> (r: Option<u32>)
        ensures
            r == self.rom_offset(addr),
    {
        if addr >= 0x8000 {
            let (is_rom, offset) = self.get_prg_mapped_addr(addr);
            if is_rom && self.prg_len > 0 {
                proof {
                    lemma_mod_below(offset as int, self.prg_len as int);
                }
                return Some((offset % self.prg_len) as u32);
            }
        }
        None
    }

    open spec fn sram(&self) -> Option<Seq<u8>> {
        Some(self.wram@)
    }

    /// All of the work RAM.
    fn get_sram(&self) -> (r: Option<Vec<u8>>)
        ensures
            r matches Some(v) && v@ == self.wram@,
    {
        let n = self.wram.len();
        let mut v: Vec<u8> = Vec::with_capacity(n);
        let mut i: usize = 0;
        while i < n
            invariant
                i <= n,
                n == self.wram@.len(),
                v@ == self.wram@.take(i as int),
            decreases n - i,
        {
            v.push(self.wram[i]);
            i += 1;
            assert(v@ =~= self.wram@.take(i as int));
        }
        assert(self.wram@.take(n as int) =~= self.wram@);
        Some(v)
    }

    /// Loads work RAM from `data`, as far as both reach.
    fn set_sram(&mut self, data: &[u8])
        ensures
            final(self).wram@.len() == old(self).wram@.len(),
            forall|i: int| 0 <= i < old(self).wram@.len() ==> #[trigger] final(self).wram@[i]
                == (if i < data@.len() { data@[i] } else { old(self).wram@[i] }),
    {
        let n = if data.len() < self.wram.len() { data.len() } else { self.wram.len() };
        let mut i: usize = 0;
        while i < n
            invariant
                n <= data@.len(),
                n <= self.wram@.len(),
                n == (if data@.len() < old(self).wram@.len() { data@.len() } else { old(self).wram@.len() }),
                i <= n,
                self.wf(),
                self.wram@.len() == old(self).wram@.len(),
                self.cart == old(self).cart,
                self.banks == old(self).banks,
                self.nametables == old(self).nametables,
                self.scanline == old(self).scanline,
                self.fetch == old(self).fetch,
                self.mul_a == old(self).mul_a,
                self.mul_b == old(self).mul_b,
                self.wram_bank == old(self).wram_bank,
                self.wram_enabled == old(self).wram_enabled,
                self.prg_ram_write_1 == old(self).prg_ram_write_1,
                self.prg_ram_write_2 == old(self).prg_ram_write_2,
                self.mirror_mode == old(self).mirror_mode,
                self.prg_len == old(self).prg_len,
                self.chr_len == old(self).chr_len,
                forall|k: int| 0 <= k < old(self).wram@.len() ==> #[trigger] self.wram@[k]
                    == (if k < i { data@[k] } else { old(self).wram@[k] }),
            decreases n - i,
        {
            self.wram.set(i, data[i]);
            i += 1;
        }
    }

    #[verifier::rlimit(40)]
    fn write_state_to(&self, writer: &mut Vec<u8>) {
        write_banks(&self.banks, writer);
        write_nametables(&self.nametables, writer);
        self.scanline.irq_enabled.write(writer);
        self.scanline.irq_pending.write(writer);
        self.scanline.irq_latch.write(writer);
        self.scanline.irq_counter.write(writer);
        self.scanline.in_frame.write(writer);
        self.mul_a.write(writer);
        self.mul_b.write(writer);
        write_byte_vec(&self.wram, writer);
        self.wram_enabled.write(writer);
        self.wram_bank.write(writer);
        self.prg_ram_write_1.write(writer);
        self.prg_ram_write_2.write(writer);
        self.mirror_mode.write(writer);
        self.fetch.nt_latch.write(writer);
        self.fetch.exram_latch.write(writer);
        self.fetch.bg_chr_fetches_left.write(writer);
        self.scanline.last_ppu_address.write(writer);
        self.scanline.ppu_match_count.write(writer);
        assert(writer@ =~= old(writer)@ + self.saved_bytes());
    }

    open spec fn state_fits(&self, rest: Seq<u8>) -> bool {
        mmc5_state_fits(self.cart, rest)
    }

    /// Reads the fields in the order written, except the work RAM bank,
    /// which is skipped: the fields after it are read one byte early.
    /// Flag bytes other than 0 and 1 are refused.
    #[verifier::rlimit(90)]
    fn read_state_from(&mut self, reader: &mut StateReader) -> (res: Result<(), StateError>) {
        let ghost r0 = reader.rest();
        let banks = read_banks(reader)?;
        assert(reader.rest() =~= r0.skip(19));
        let nametables = read_nametables(reader)?;
        assert(reader.rest() =~= r0.skip(3095));
        let irq_enabled = read_bool_strict(reader)?;
        assert(reader.rest() =~= r0.skip(3096));
        let irq_pending = read_bool_strict(reader)?;
        assert(reader.rest() =~= r0.skip(3097));
        let irq_latch = u8::read(reader)?;
        assert(reader.rest() =~= r0.skip(3098));
        let irq_counter = u8::read(reader)?;
        assert(reader.rest() =~= r0.skip(3099));
        let in_frame = read_bool_strict(reader)?;
        assert(reader.rest() =~= r0.skip(3100));
        let mul_a = u8::read(reader)?;
        assert(reader.rest() =~= r0.skip(3101));
        let mul_b = u8::read(reader)?;
        let ghost r1 = reader.rest();
        assert(r1 =~= r0.skip(3102));
        let wram = read_byte_vec_exact(reader)?;
        let ghost k: int = (3102 + 8 + wram@.len()) as int;
        assert(reader.rest() =~= r0.skip(k));
        let wram_enabled = read_bool_strict(reader)?;
        assert(reader.rest() =~= r0.skip(k + 1));
        let prg_ram_write_1 = u8::read(reader)?;
        assert(reader.rest() =~= r0.skip(k + 2));
        let prg_ram_write_2 = u8::read(reader)?;
        assert(reader.rest() =~= r0.skip(k + 3));
        let mirror_mode = read_supported_mirror(reader)?;
        assert(reader.rest() =~= r0.skip(k + 4));
        let nt_latch = u8::read(reader)?;
        assert(reader.rest() =~= r0.skip(k + 5));
        let exram_latch = u8::read(reader)?;
        assert(reader.rest() =~= r0.skip(k + 6));
        let bg_chr_fetches_left = u8::read(reader)?;
        assert(reader.rest() =~= r0.skip(k + 7));
        let last_ppu_address = read_u16_le(reader)?;
        assert(reader.rest() =~= r0.skip(k + 9));
        let ppu_match_count = u8::read(reader)?;
        self.banks = banks;
        self.nametables = nametables;
        self.scanline = Mmc5Scanline {
            irq_enabled,
            irq_pending,
            irq_latch,
            irq_counter,
            in_frame,
            cpu_reads_since_ppu: self.scanline.cpu_reads_since_ppu,
            last_ppu_address,
            ppu_match_count,
        };
        self.fetch = Mmc5Fetch { nt_latch, exram_latch, bg_chr_fetches_left };
        self.mul_a = mul_a;
        self.mul_b = mul_b;
        self.wram = wram;
        self.wram_enabled = wram_enabled;
        self.prg_ram_write_1 = prg_ram_write_1;
        self.prg_ram_write_2 = prg_ram_write_2;
        self.mirror_mode = mirror_mode;
        self.prg_len = self.cart.prg_rom.len();
        self.chr_len = self.cart.chr_rom.len();
        assert(r0.take(k + 10) =~= self.loaded_bytes());
        Ok(())
    }
}

} // verus!
