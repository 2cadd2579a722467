//! Action 52 (mapper 228): an outer 32 KiB bank and an inner 16 KiB bank
//! for program ROM, 8 KiB character banks, all set by one register.
use vstd::prelude::*;
use crate::mapper::mirror_fits;
use crate::save_state::{word_fits};
use crate::bits::lemma_and_bounds;
use crate::cartridge::Cartridge;
use crate::mapper::{translate_vram, vram_index, mirror_tag, read_vram, read_supported_mirror, Mapper, MirrorMode};
use crate::mapper_nrom::{header_mirroring, mirroring_from_header};
use crate::save_state::{WriteState, StateReader, StateError, usize_bytes, read_usize_at_most};

verus! {

pub struct MapperAction52 {
    pub cart: Cartridge,
    pub vram: [u8; 2048],
    pub mirror_mode: MirrorMode,
    pub outer_bank: usize,
    pub prg_bank: usize,
    pub chr_bank: usize,
    pub prg_len: usize,
    pub chr_len: usize,
}

impl MapperAction52 {
    pub const ID: u8 = 228;

    /// The program ROM offset that CPU address `addr` (0x8000 and up) reads.
    pub open spec fn prg_index(&self, addr: u16) -> int {
        (self.outer_bank * 0x8000 + self.prg_bank * 0x4000 + (addr & 0x3FFF)) % (self.prg_len as int)
    }

    pub open spec fn chr_index(&self, addr: u16) -> int {
        (self.chr_bank * 0x2000 + addr) % (self.chr_len as int)
    }

    pub open spec fn read_value(&self, addr: u16) -> u8 {
        if addr <= 0x1FFF {
            if self.chr_len == 0 { 0 } else { self.cart.chr_rom@[self.chr_index(addr)] }
        } else if 0x2000 <= addr <= 0x3EFF {
            self.vram@[vram_index(self.mirror_mode, addr)]
        } else if addr >= 0x8000 {
            self.cart.prg_rom@[self.prg_index(addr)]
        } else {
            0
        }
    }

    pub fn new(cart: Cartridge) -> (m: MapperAction52)
        requires
            cart.wf(),
            cart.prg_rom@.len() > 0,
        ensures
            m.wf(),
            m.cart == cart,
            m.vram@ == Seq::new(2048, |i: int| 0u8),
            m.mirror_mode == header_mirroring(cart.mirror_mode),
            m.outer_bank == 0 && m.prg_bank == 0 && m.chr_bank == 0,
    {
        let mirror_mode = mirroring_from_header(cart.mirror_mode);
        let prg_len = cart.prg_rom.len();
        let chr_len = cart.chr_rom.len();
        let m = MapperAction52 {
            cart,
            vram: [0; 2048],
            mirror_mode,
            outer_bank: 0,
            prg_bank: 0,
            chr_bank: 0,
            prg_len,
            chr_len,
        };
        assert(m.vram@ =~= Seq::new(2048, |i: int| 0u8));
        m
    }
}

/// The fields are all there, in range, and fit the cartridge.
pub open spec fn action52_state_fits(cart: Cartridge, rest: Seq<u8>) -> bool {
    &&& rest.len() >= 2073
    &&& mirror_fits(rest.skip(2048))
    &&& word_fits(rest.skip(2049), 7)
    &&& word_fits(rest.skip(2057), 15)
    &&& word_fits(rest.skip(2065), 7)
}

impl Mapper for MapperAction52 {
    open spec fn wf(&self) -> bool {
        &&& self.prg_len == self.cart.prg_rom@.len()
        &&& 0 < self.prg_len <= 0x400000
        &&& self.chr_len == self.cart.chr_rom@.len() <= 0x400000
        &&& self.mirror_mode.is_supported()
        &&& self.outer_bank <= 7
        &&& self.prg_bank <= 15
        &&& self.chr_bank <= 7
    }

    open spec fn accepts(&self, cart: &Cartridge) -> bool {
        0 < cart.prg_rom@.len() <= 0x400000 && cart.chr_rom@.len() <= 0x400000
    }

    open spec fn saved_bytes(&self) -> Seq<u8> {
        self.vram@ + seq![mirror_tag(self.mirror_mode)] + usize_bytes(self.outer_bank) + usize_bytes(self.prg_bank)
            + usize_bytes(self.chr_bank)
    }

    open spec fn loaded_bytes(&self) -> Seq<u8> {
        self.saved_bytes()
    }

    open spec fn id(&self) -> u8 {
        228
    }

    open spec fn peek_value(&self, addr: u16) -> u8 {
        self.read_value(addr)
    }

    /// The board after a read of `addr`.
    open spec fn after_read(&self, addr: u16) -> Self {
        *self
    }

    fn peek(&mut self, addr: u16) -> (r: u8)
        ensures
            r == old(self).read_value(addr),
            *final(self) == *old(self),
    {
        match addr {
            0x0000..=0x1FFF => {
                let bank = self.chr_bank * 0x2000;
                if self.chr_len == 0 {
                    return 0;
                }
                self.cart.chr_rom[(bank + (addr as usize)) % self.chr_len]
            },
            0x2000..=0x3EFF => self.vram[translate_vram(self.mirror_mode, addr)],
            0x8000..=0xFFFF => {
                let base = self.outer_bank * 0x8000 + self.prg_bank * 0x4000;
                proof { lemma_and_bounds(); }
                self.cart.prg_rom[(base + (addr & 0x3FFF) as usize) % self.prg_len]
            },
            _ => 0,
        }
    }

    /// What a write of `val` to `addr` leaves: the registers, banks and
    /// memories as this board's `poke` sets them.
    open spec fn written(&self, addr: u16, val: u8, after: Self) -> bool {
        &&& after.cart.chr_rom@ == (if addr <= 0x1FFF && self.chr_len > 0 {
                self.cart.chr_rom@.update(self.chr_index(addr), val)
            } else {
                self.cart.chr_rom@
            })
        &&& after.vram@ == (if 0x2000 <= addr <= 0x3EFF {
                self.vram@.update(vram_index(self.mirror_mode, addr), val)
            } else {
                self.vram@
            })
        &&& after.cart.prg_rom == self.cart.prg_rom
        &&& after.mirror_mode == self.mirror_mode
        &&& addr >= 0x8000 && val & 0x80 == 0 ==> after.outer_bank == ((val >> 3) & 7) as usize
                && after.prg_bank == (val & 3) as usize && after.chr_bank == self.chr_bank
        &&& addr >= 0x8000 && val & 0x80 != 0 ==> after.prg_bank == ((val >> 3) & 0xF) as usize
                && after.chr_bank == (val & 7) as usize && after.outer_bank == self.outer_bank
        &&& addr < 0x8000 ==> after.outer_bank == self.outer_bank && after.prg_bank == self.prg_bank
                && after.chr_bank == self.chr_bank
    }

    /// A write to ROM space with bit 7 clear sets the outer bank (bits 3-5)
    /// and the inner program bank (bits 0-1); with bit 7 set, the inner
    /// program bank (bits 3-6) and the character bank (bits 0-2).
    fn poke(&mut self, addr: u16, val: u8)
        ensures
            final(self).cart.chr_rom@ == (if addr <= 0x1FFF && old(self).chr_len > 0 {
                old(self).cart.chr_rom@.update(old(self).chr_index(addr), val)
            } else {
                old(self).cart.chr_rom@
            }),
            final(self).vram@ == (if 0x2000 <= addr <= 0x3EFF {
                old(self).vram@.update(vram_index(old(self).mirror_mode, addr), val)
            } else {
                old(self).vram@
            }),
            final(self).cart.prg_rom == old(self).cart.prg_rom,
            final(self).mirror_mode == old(self).mirror_mode,
            addr >= 0x8000 && val & 0x80 == 0 ==> final(self).outer_bank == ((val >> 3) & 7) as usize
                && final(self).prg_bank == (val & 3) as usize && final(self).chr_bank == old(self).chr_bank,
            addr >= 0x8000 && val & 0x80 != 0 ==> final(self).prg_bank == ((val >> 3) & 0xF) as usize
                && final(self).chr_bank == (val & 7) as usize && final(self).outer_bank == old(self).outer_bank,
            addr < 0x8000 ==> final(self).outer_bank == old(self).outer_bank && final(self).prg_bank == old(self).prg_bank
                && final(self).chr_bank == old(self).chr_bank,
    {
        match addr {
            0x0000..=0x1FFF => {
                let bank = self.chr_bank * 0x2000;
                if self.chr_len > 0 {
                    self.cart.chr_rom.set((bank + (addr as usize)) % self.chr_len, val);
                }
            },
            0x2000..=0x3EFF => {
                let i = translate_vram(self.mirror_mode, addr);
                self.vram[i] = val;
            },
            0x8000..=0xFFFF => {
                proof { lemma_and_bounds(); }
                if val & 0x80 == 0 {
                    self.outer_bank = ((val >> 3) & 0x07) as usize;
                    self.prg_bank = (val & 0x03) as usize;
                } else {
                    self.prg_bank = ((val >> 3) & 0x0F) as usize;
                    self.chr_bank = (val & 0x07) as usize;
                }
            },
            _ => {},
        }
    }

    open spec fn sram(&self) -> Option<Seq<u8>> {
        None
    }

    fn get_sram(&self) -> (r: Option<Vec<u8>>) {
        None
    }

    fn get_id(&self) -> (r: u8) {
        Self::ID
    }

    /// What putting `cartridge` in leaves: the board's registers as
    /// `update_cartridge` keeps them and its offsets recomputed.
    open spec fn cart_updated(&self, cartridge: Cartridge, after: Self) -> bool {
        &&& after.cart == cartridge
        &&& after.outer_bank == self.outer_bank
        &&& after.prg_bank == self.prg_bank
        &&& after.chr_bank == self.chr_bank
        &&& after.vram == self.vram
        &&& after.mirror_mode == self.mirror_mode
    }

    fn update_cartridge(&mut self, cartridge: Cartridge)
        ensures
            final(self).cart == cartridge,
            final(self).outer_bank == old(self).outer_bank,
            final(self).prg_bank == old(self).prg_bank,
            final(self).chr_bank == old(self).chr_bank,
            final(self).vram == old(self).vram,
            final(self).mirror_mode == old(self).mirror_mode,
    {
        self.prg_len = cartridge.prg_rom.len();
        self.chr_len = cartridge.chr_rom.len();
        self.cart = cartridge;
    }

    open spec fn rom_offset(&self, addr: u16) -> Option<u32> {
        (if addr >= 0x8000 { Some(self.prg_index(addr) as u32) } else { None::<u32> })
    }

    fn get_prg_rom_offset(&self, addr: u16) -> (r: Option<u32>)
        ensures
            r == self.rom_offset(addr),
    {
        match addr {
            0x8000..=0xFFFF => {
                let base = self.outer_bank * 0x8000 + self.prg_bank * 0x4000;
                proof { lemma_and_bounds(); }
                Some(((base + (addr & 0x3FFF) as usize) % self.prg_len) as u32)
            },
            _ => None,
        }
    }

    fn write_state_to(&self, writer: &mut Vec<u8>) {
        self.vram.write(writer);
        self.mirror_mode.write(writer);
        self.outer_bank.write(writer);
        self.prg_bank.write(writer);
        self.chr_bank.write(writer);
        assert(writer@ =~= old(writer)@ + self.saved_bytes());
    }

    open spec fn state_fits(&self, rest: Seq<u8>) -> bool {
        action52_state_fits(self.cart, rest)
    }

    /// Bank numbers the register cannot hold are refused.
    fn read_state_from(&mut self, reader: &mut StateReader) -> (res: Result<(), StateError>) {
        let ghost r0 = reader.rest();
        let vram = read_vram(reader)?;
        assert(reader.rest() =~= r0.skip(2048));
        let mirror_mode = read_supported_mirror(reader)?;
        assert(reader.rest() =~= r0.skip(2049));
        let outer_bank = read_usize_at_most(reader, 7)?;
        assert(reader.rest() =~= r0.skip(2057));
        let prg_bank = read_usize_at_most(reader, 15)?;
        assert(reader.rest() =~= r0.skip(2065));
        let chr_bank = read_usize_at_most(reader, 7)?;
        self.vram = vram;
        self.mirror_mode = mirror_mode;
        self.outer_bank = outer_bank;
        self.prg_bank = prg_bank;
        self.chr_bank = chr_bank;
        assert(r0.take(2073) =~= self.saved_bytes());
        Ok(())
    }
}

} // verus!
