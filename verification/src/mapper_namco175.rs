//! Namco 175 (mapper 68 here): 1 KiB character banks set in pairs, an
//! 8 KiB program bank pair, and switchable mirroring.
use vstd::prelude::*;
use crate::mapper::mirror_fits;
use crate::save_state::{flag_fits, words_fit};
use crate::bits::lemma_addr_fields;
use crate::bits::lemma_and_bounds;
use crate::cartridge::Cartridge;
use crate::mapper::{
    translate_vram, vram_index, mirror_tag, read_vram, read_supported_mirror, lemma_and_le,
    lemma_mod_below, Mapper, MirrorMode,
};
use crate::mapper_mmc2::sat_sub;
use crate::mapper_nrom::{header_mirroring, mirroring_from_header};
use crate::save_state::{
    WriteState, StateReader, StateError, bool_bytes, usizes_bytes, write_usize_array,
    read_usize_array, read_bool_strict, lemma_usizes_bytes_len,
};

verus! {

pub struct MapperNamco175 {
    pub cart: Cartridge,
    pub vram: [u8; 2048],
    pub mirror_mode: MirrorMode,
    /// Byte offsets of the four 8 KiB program windows.
    pub prg_bank: [usize; 4],
    /// Byte offsets of the eight 1 KiB character windows.
    pub chr_bank: [usize; 8],
    pub sram_enable: bool,
    pub prg_len: usize,
    pub prg_power_of_two: bool,
    pub prg_mask: usize,
}

/// Whether `x` is a power of two.
pub open spec fn usize_is_power_of_two(x: usize) -> bool {
    x > 0 && x & ((x - 1) as usize) == 0
}

pub fn is_power_of_two(x: usize) -> (r: bool)
    ensures
        r == usize_is_power_of_two(x),
{
    x > 0 && x & (x - 1) == 0
}

/// A program window after settling: the bank number is clamped to the
/// last whole 8 KiB bank and scaled to a byte offset.
pub open spec fn settled_prg_bank(b: usize, prg_len: int) -> usize {
    let last = sat_sub((prg_len / 0x2000) as usize, 1);
    ((if b < last { b as int } else { last }) * 0x2000) as usize
}

/// A character window after settling: the bank number is wrapped to the
/// 1 KiB banks there are and scaled to a byte offset.
pub open spec fn settled_chr_bank(b: usize, chr_len: int) -> usize {
    let n = chr_len / 0x400;
    if n > 0 { (((b as int) % n) * 0x400) as usize } else { b }
}

pub open spec fn settle_prg(banks: Seq<usize>, prg_len: int) -> Seq<usize> {
    Seq::new(banks.len(), |i: int| settled_prg_bank(banks[i], prg_len))
}

pub open spec fn settle_chr(banks: Seq<usize>, chr_len: int) -> Seq<usize> {
    Seq::new(banks.len(), |i: int| settled_chr_bank(banks[i], chr_len))
}

/// The character windows after a register write, before settling.
pub open spec fn namco_chr_written(banks: Seq<usize>, addr: u16, val: u8) -> Seq<usize> {
    if 0x8000 <= addr <= 0x9FFF {
        let b = (addr - 0x8000) / 0x800;
        banks.update(2 * b, val as usize).update(2 * b + 1, (val + 1) as usize)
    } else if 0xA000 <= addr <= 0xBFFF {
        let b = (addr - 0xA000) / 0x800;
        let v = (val & 0x3F) * 2;
        banks.update(2 * b, v as usize).update(2 * b + 1, (v + 1) as usize)
    } else {
        banks
    }
}

/// The program windows after a register write, before settling.
pub open spec fn namco_prg_written(banks: Seq<usize>, addr: u16, val: u8) -> Seq<usize> {
    if addr >= 0xE000 {
        let v = (val & 0x0F) * 0x2000;
        banks.update(0, v as usize).update(1, (v + 0x2000) as usize)
    } else {
        banks
    }
}

/// Whether a write to `addr` sets bank registers and settles the windows.
pub open spec fn namco_settles(addr: u16) -> bool {
    0x8000 <= addr <= 0xBFFF || addr >= 0xE000
}

impl MapperNamco175 {
    pub const ID: u8 = 68;

    pub open spec fn prg_location(&self, addr: u16) -> int {
        self.prg_bank[(addr - 0x8000) / 0x2000] + (addr & 0x1FFF)
    }

    /// The program ROM offset of CPU address `addr`: the window offset
    /// masked for power-of-two sizes, wrapped otherwise.
    pub open spec fn prg_index(&self, addr: u16) -> int {
        if self.prg_power_of_two {
            ((self.prg_location(addr) as usize) & self.prg_mask) as int
        } else {
            self.prg_location(addr) % (self.prg_len as int)
        }
    }

    pub open spec fn chr_index(&self, addr: u16) -> int {
        self.chr_bank[(addr >> 10) as int] + (addr & 0x3FF)
    }

    pub open spec fn read_value(&self, addr: u16) -> u8 {
        if addr <= 0x1FFF {
            self.cart.chr_rom@[self.chr_index(addr)]
        } else if 0x2000 <= addr <= 0x3EFF {
            self.vram@[vram_index(self.mirror_mode, addr)]
        } else if addr >= 0x8000 {
            self.cart.prg_rom@[self.prg_index(addr)]
        } else {
            0
        }
    }

    /// Everything that `wf` asks but the window bounds.
    pub open spec fn layout_wf(&self) -> bool {
        &&& 0 < self.prg_len
        &&& self.prg_len == self.cart.prg_rom@.len()
        &&& self.prg_len <= 0x400000
        &&& 0x400 <= self.cart.chr_rom@.len() <= 0x400000
        &&& self.prg_power_of_two == usize_is_power_of_two(self.prg_len)
        &&& self.prg_mask == (if self.prg_power_of_two { (self.prg_len - 1) as usize } else { 0 })
        &&& self.mirror_mode.is_supported()
    }

    pub fn new(cart: Cartridge) -> (m: MapperNamco175)
        requires
            cart.wf(),
            cart.prg_rom@.len() > 0,
        ensures
            m.wf(),
            m.cart == cart,
            m.vram@ == Seq::new(2048, |i: int| 0u8),
            m.mirror_mode == header_mirroring(cart.mirror_mode),
            m.prg_bank@ == Seq::new(4, |i: int| 0usize),
            m.chr_bank@ == Seq::new(8, |i: int| 0usize),
            !m.sram_enable,
    {
        let mirror_mode = mirroring_from_header(cart.mirror_mode);
        let prg_len = cart.prg_rom.len();
        let prg_power_of_two = is_power_of_two(prg_len);
        let prg_mask = if prg_power_of_two { prg_len - 1 } else { 0 };
        let mut m = MapperNamco175 {
            cart,
            vram: [0; 2048],
            mirror_mode,
            prg_bank: [0; 4],
            chr_bank: [0; 8],
            sram_enable: false,
            prg_len,
            prg_power_of_two,
            prg_mask,
        };
        assert(m.vram@ =~= Seq::new(2048, |i: int| 0u8));
        m.update_banks();
        assert(m.prg_bank@ =~= Seq::new(4, |i: int| 0usize));
        assert(m.chr_bank@ =~= Seq::new(8, |i: int| 0usize));
        m
    }

    /// Settles every window: program banks are clamped and scaled to byte
    /// offsets, character banks wrapped and scaled.
    fn update_banks(&mut self)
        requires
            old(self).layout_wf(),
        ensures
            final(self).wf(),
            final(self).prg_bank@ == settle_prg(old(self).prg_bank@, old(self).cart.prg_rom@.len() as int),
            final(self).chr_bank@ == settle_chr(old(self).chr_bank@, old(self).cart.chr_rom@.len() as int),
            final(self).cart == old(self).cart,
            final(self).vram == old(self).vram,
            final(self).mirror_mode == old(self).mirror_mode,
            final(self).sram_enable == old(self).sram_enable,
            final(self).prg_len == old(self).prg_len,
            final(self).prg_power_of_two == old(self).prg_power_of_two,
            final(self).prg_mask == old(self).prg_mask,
    {
        let prg_len = self.cart.prg_rom.len();
        let last = (prg_len / 0x2000).saturating_sub(1);
        let mut i: usize = 0;
        while i < 4
            invariant
                i <= 4,
                last == sat_sub((prg_len / 0x2000) as usize, 1),
                prg_len == old(self).cart.prg_rom@.len(),
                prg_len <= 0x400000,
                self.layout_wf(),
                self.cart == old(self).cart,
                self.vram == old(self).vram,
                self.mirror_mode == old(self).mirror_mode,
                self.sram_enable == old(self).sram_enable,
                self.prg_len == old(self).prg_len,
                self.prg_power_of_two == old(self).prg_power_of_two,
                self.prg_mask == old(self).prg_mask,
                self.chr_bank == old(self).chr_bank,
                forall|j: int| 0 <= j < 4 ==> #[trigger] self.prg_bank[j]
                    == if j < i { settled_prg_bank(old(self).prg_bank[j], prg_len as int) } else { old(self).prg_bank[j] },
            decreases 4 - i,
        {
            let b = self.prg_bank[i];
            let m = if b < last { b } else { last };
            self.prg_bank[i] = m * 0x2000;
            i += 1;
        }
        let chr_len = self.cart.chr_rom.len();
        let n = chr_len / 0x400;
        let mut k: usize = 0;
        while k < 8
            invariant
                k <= 8,
                chr_len == old(self).cart.chr_rom@.len(),
                n == chr_len / 0x400,
                n > 0,
                chr_len <= 0x400000,
                self.layout_wf(),
                self.cart == old(self).cart,
                self.vram == old(self).vram,
                self.mirror_mode == old(self).mirror_mode,
                self.sram_enable == old(self).sram_enable,
                self.prg_len == old(self).prg_len,
                self.prg_power_of_two == old(self).prg_power_of_two,
                self.prg_mask == old(self).prg_mask,
                forall|j: int| 0 <= j < 4 ==> #[trigger] self.prg_bank[j]
                    == settled_prg_bank(old(self).prg_bank[j], prg_len as int),
                forall|j: int| 0 <= j < 8 ==> #[trigger] self.chr_bank[j]
                    == if j < k { settled_chr_bank(old(self).chr_bank[j], chr_len as int) } else { old(self).chr_bank[j] },
            decreases 8 - k,
        {
            let b = self.chr_bank[k];
            proof {
                lemma_mod_below(b as int, n as int);
                crate::mapper::lemma_bank_fits((b % n) as int, 0x400, 0, chr_len as int);
            }
            self.chr_bank[k] = (b % n) * 0x400;
            k += 1;
        }
        assert(self.prg_bank@ =~= settle_prg(old(self).prg_bank@, prg_len as int));
        assert(self.chr_bank@ =~= settle_chr(old(self).chr_bank@, chr_len as int));
        assert forall|j: int| 0 <= j < 8 implies #[trigger] self.chr_bank[j] + 0x400 <= chr_len by {
            let b = old(self).chr_bank[j];
            lemma_mod_below(b as int, n as int);
            crate::mapper::lemma_bank_fits((b as int) % (n as int), 0x400, 0, chr_len as int);
        }
    }

    /// The program ROM offset of CPU address `addr` (0x8000 and up).
    fn prg_offset(&self, addr: u16) -> (r: usize)
        requires
            self.wf(),
            addr >= 0x8000,
        ensures
            r == self.prg_index(addr),
            r < self.cart.prg_rom@.len(),
    {
        let bank = ((addr - 0x8000) / 0x2000) as usize;
        let offset = (addr & 0x1FFF) as usize;
        proof { lemma_and_bounds(); }
        let location = self.prg_bank[bank] + offset;
        if self.prg_power_of_two {
            proof {
                lemma_and_le(location, self.prg_mask);
            }
            location & self.prg_mask
        } else {
            location % self.prg_len
        }
    }

    /// The character ROM offset of pattern address `addr`.
    fn chr_offset(&self, addr: u16) -> (r: usize)
        requires
            self.wf(),
            addr <= 0x1FFF,
        ensures
            r == self.chr_index(addr),
            r < self.cart.chr_rom@.len(),
    {
        proof { lemma_addr_fields(addr); lemma_and_bounds(); }
        let bank = (addr >> 10) as usize;
        let offset = (addr & 0x3FF) as usize;
        self.chr_bank[bank] + offset
    }
}

/// The fields are all there, in range, and fit the cartridge.
pub open spec fn namco175_state_fits(cart: Cartridge, rest: Seq<u8>) -> bool {
    &&& rest.len() >= 2146
    &&& mirror_fits(rest.skip(2048))
    &&& words_fit(rest.skip(2049), 4, 0x3FFFFF)
    &&& words_fit(rest.skip(2081), 8, (cart.chr_rom@.len() - 0x400) as usize)
    &&& flag_fits(rest.skip(2145))
}

impl Mapper for MapperNamco175 {
    open spec fn wf(&self) -> bool {
        &&& self.layout_wf()
        &&& forall|i: int| 0 <= i < 4 ==> #[trigger] self.prg_bank[i] < 0x400000
        &&& forall|i: int| 0 <= i < 8 ==> #[trigger] self.chr_bank[i] + 0x400 <= self.cart.chr_rom@.len()
    }

    /// A new cartridge must still hold every character window.
    open spec fn accepts(&self, cart: &Cartridge) -> bool {
        &&& 0 < cart.prg_rom@.len() <= 0x400000
        &&& 0x400 <= cart.chr_rom@.len() <= 0x400000
        &&& forall|i: int| 0 <= i < 8 ==> #[trigger] self.chr_bank[i] + 0x400 <= cart.chr_rom@.len()
    }

    open spec fn saved_bytes(&self) -> Seq<u8> {
        self.vram@ + seq![mirror_tag(self.mirror_mode)] + usizes_bytes(self.prg_bank@)
            + usizes_bytes(self.chr_bank@) + bool_bytes(self.sram_enable)
    }

    open spec fn loaded_bytes(&self) -> Seq<u8> {
        self.saved_bytes()
    }

    open spec fn id(&self) -> u8 {
        68
    }

    open spec fn peek_value(&self, addr: u16) -> u8 {
        self.read_value(addr)
    }

    /// The board after a read of `addr`.
    open spec fn after_read(&self, addr: u16) -> Self {
        *self
    }

    fn peek(&mut self, addr: u16) -> (r: u8)
        ensures
            r == old(self).read_value(addr),
            *final(self) == *old(self),
    {
        if addr <= 0x1FFF {
            self.cart.chr_rom[self.chr_offset(addr)]
        } else if addr <= 0x3EFF {
            self.vram[translate_vram(self.mirror_mode, addr)]
        } else if addr >= 0x8000 {
            self.cart.prg_rom[self.prg_offset(addr)]
        } else {
            0
        }
    }

    /// What a write of `val` to `addr` leaves: the registers, banks and
    /// memories as this board's `poke` sets them.
    open spec fn written(&self, addr: u16, val: u8, after: Self) -> bool {
        &&& after.cart.prg_rom == self.cart.prg_rom
        &&& after.cart.chr_rom@ == (if addr <= 0x1FFF {
                self.cart.chr_rom@.update(self.chr_index(addr), val)
            } else {
                self.cart.chr_rom@
            })
        &&& after.vram@ == (if 0x2000 <= addr <= 0x3EFF {
                self.vram@.update(vram_index(self.mirror_mode, addr), val)
            } else {
                self.vram@
            })
        &&& after.mirror_mode == (if 0xC000 <= addr <= 0xDFFF {
                if val & 0x10 != 0 { MirrorMode::MirrorVertical } else { MirrorMode::MirrorHorizontal }
            } else {
                self.mirror_mode
            })
        &&& after.prg_bank@ == (if namco_settles(addr) {
                settle_prg(namco_prg_written(self.prg_bank@, addr, val), self.prg_len as int)
            } else {
                self.prg_bank@
            })
        &&& after.chr_bank@ == (if namco_settles(addr) {
                settle_chr(namco_chr_written(self.chr_bank@, addr, val), self.cart.chr_rom@.len() as int)
            } else {
                self.chr_bank@
            })
        &&& after.sram_enable == self.sram_enable
    }

    /// Pattern and nametable writes store the byte; 0x8000-0xBFFF set a
    /// pair of character windows, 0xC000-0xDFFF the mirroring, and
    /// 0xE000-0xFFFF the program pair, after which every window settles.
    fn poke(&mut self, addr: u16, val: u8)
        ensures
            final(self).cart.prg_rom == old(self).cart.prg_rom,
            final(self).cart.chr_rom@ == (if addr <= 0x1FFF {
                old(self).cart.chr_rom@.update(old(self).chr_index(addr), val)
            } else {
                old(self).cart.chr_rom@
            }),
            final(self).vram@ == (if 0x2000 <= addr <= 0x3EFF {
                old(self).vram@.update(vram_index(old(self).mirror_mode, addr), val)
            } else {
                old(self).vram@
            }),
            final(self).mirror_mode == (if 0xC000 <= addr <= 0xDFFF {
                if val & 0x10 != 0 { MirrorMode::MirrorVertical } else { MirrorMode::MirrorHorizontal }
            } else {
                old(self).mirror_mode
            }),
            final(self).prg_bank@ == (if namco_settles(addr) {
                settle_prg(namco_prg_written(old(self).prg_bank@, addr, val), old(self).prg_len as int)
            } else {
                old(self).prg_bank@
            }),
            final(self).chr_bank@ == (if namco_settles(addr) {
                settle_chr(namco_chr_written(old(self).chr_bank@, addr, val), old(self).cart.chr_rom@.len() as int)
            } else {
                old(self).chr_bank@
            }),
            final(self).sram_enable == old(self).sram_enable,
    {
        if addr <= 0x1FFF {
            if self.cart.chr_rom.len() > 0 {
                let i = self.chr_offset(addr);
                self.cart.chr_rom.set(i, val);
            }
        } else if addr <= 0x3EFF {
            let i = translate_vram(self.mirror_mode, addr);
            self.vram[i] = val;
        } else if 0x8000 <= addr && addr <= 0x9FFF {
            let b = ((addr - 0x8000) / 0x800) as usize;
            let ghost c0 = self.chr_bank@;
            self.chr_bank[b * 2] = val as usize;
            self.chr_bank[b * 2 + 1] = val as usize + 1;
            assert(self.chr_bank@ =~= namco_chr_written(c0, addr, val));
            self.update_banks();
        } else if 0xA000 <= addr && addr <= 0xBFFF {
            let b = ((addr - 0xA000) / 0x800) as usize;
            let v = (val & 0x3F) as usize * 2;
            let ghost c0 = self.chr_bank@;
            self.chr_bank[b * 2] = v;
            self.chr_bank[b * 2 + 1] = v + 1;
            assert(self.chr_bank@ =~= namco_chr_written(c0, addr, val));
            self.update_banks();
        } else if 0xC000 <= addr && addr <= 0xDFFF {
            self.mirror_mode = if val & 0x10 != 0 {
                MirrorMode::MirrorVertical
            } else {
                MirrorMode::MirrorHorizontal
            };
        } else if addr >= 0xE000 {
            let v = (val & 0x0F) as usize * 0x2000;
            let ghost p0 = self.prg_bank@;
            self.prg_bank[0] = v;
            self.prg_bank[1] = v + 0x2000;
            assert(self.prg_bank@ =~= namco_prg_written(p0, addr, val));
            self.update_banks();
        }
    }

    open spec fn sram(&self) -> Option<Seq<u8>> {
        None
    }

    fn get_sram(&self) -> (r: Option<Vec<u8>>) {
        None
    }

    fn get_id(&self) -> (r: u8) {
        Self::ID
    }

    /// What putting `cartridge` in leaves: the board's registers as
    /// `update_cartridge` keeps them and its offsets recomputed.
    open spec fn cart_updated(&self, cartridge: Cartridge, after: Self) -> bool {
        &&& after.cart == cartridge
        &&& after.prg_len == cartridge.prg_rom@.len()
        &&& after.vram == self.vram
        &&& after.mirror_mode == self.mirror_mode
        &&& after.prg_bank == self.prg_bank
        &&& after.chr_bank == self.chr_bank
        &&& after.sram_enable == self.sram_enable
    }

    /// The program length, its power-of-two test and its mask follow the
    /// new cartridge; the windows stay as they are.
    fn update_cartridge(&mut self, cartridge: Cartridge)
        ensures
            final(self).cart == cartridge,
            final(self).prg_len == cartridge.prg_rom@.len(),
            final(self).vram == old(self).vram,
            final(self).mirror_mode == old(self).mirror_mode,
            final(self).prg_bank == old(self).prg_bank,
            final(self).chr_bank == old(self).chr_bank,
            final(self).sram_enable == old(self).sram_enable,
    {
        self.prg_len = cartridge.prg_rom.len();
        self.prg_power_of_two = is_power_of_two(self.prg_len);
        self.prg_mask = if self.prg_power_of_two { self.prg_len - 1 } else { 0 };
        self.cart = cartridge;
    }

    open spec fn rom_offset(&self, addr: u16) -> Option<u32> {
        (if addr >= 0x8000 { Some(self.prg_index(addr) as u32) } else { None::<u32> })
    }

    fn get_prg_rom_offset(&self, addr: u16) -> (r: Option<u32>)
        ensures
            r == self.rom_offset(addr),
    {
        if addr >= 0x8000 {
            let o = self.prg_offset(addr);
            Some(o as u32)
        } else {
            None
        }
    }

    fn write_state_to(&self, writer: &mut Vec<u8>) {
        self.vram.write(writer);
        self.mirror_mode.write(writer);
        write_usize_array(&self.prg_bank, writer);
        write_usize_array(&self.chr_bank, writer);
        self.sram_enable.write(writer);
        assert(writer@ =~= old(writer)@ + self.saved_bytes());
    }

    open spec fn state_fits(&self, rest: Seq<u8>) -> bool {
        namco175_state_fits(self.cart, rest)
    }

    /// Windows that reach past the ROM are refused.
    fn read_state_from(&mut self, reader: &mut StateReader) -> (res: Result<(), StateError>) {
        let ghost r0 = reader.rest();
        let vram = read_vram(reader)?;
        assert(reader.rest() =~= r0.skip(2048));
        let mirror_mode = read_supported_mirror(reader)?;
        assert(reader.rest() =~= r0.skip(2049));
        let prg_bank = read_usize_array::<4>(reader, 0x3FFFFF)?;
        assert(reader.rest() =~= r0.skip(2081));
        let chr_bank = read_usize_array::<8>(reader, self.cart.chr_rom.len() - 0x400)?;
        assert(reader.rest() =~= r0.skip(2145));
        let sram_enable = read_bool_strict(reader)?;
        self.vram = vram;
        self.mirror_mode = mirror_mode;
        self.prg_bank = prg_bank;
        self.chr_bank = chr_bank;
        self.sram_enable = sram_enable;
        self.prg_len = self.cart.prg_rom.len();
        self.prg_power_of_two = is_power_of_two(self.prg_len);
        self.prg_mask = if self.prg_power_of_two { self.prg_len - 1 } else { 0 };
        proof {
            lemma_usizes_bytes_len(prg_bank@);
            lemma_usizes_bytes_len(chr_bank@);
        }
        assert(r0.take(2146) =~= self.saved_bytes());
        Ok(())
    }
}

} // verus!
