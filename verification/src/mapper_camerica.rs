//! Camerica (mapper 71): a switchable 16 KiB bank at 0x8000, the last bank
//! fixed at 0xC000, the bank register at 0xC000-0xFFFF.
use vstd::prelude::*;
use crate::mapper::mirror_fits;
use crate::save_state::{word_fits};
use crate::bits::lemma_and_bounds;
use crate::cartridge::Cartridge;
use crate::mapper::{translate_vram, vram_index, mirror_tag, read_vram, read_supported_mirror, Mapper, MirrorMode};
use crate::mapper_nrom::{header_mirroring, mirroring_from_header};
use crate::save_state::{WriteState, StateReader, StateError, usize_bytes, read_usize_at_most};

verus! {

pub struct MapperCamerica {
    pub vram: [u8; 2048],
    pub mirror_mode: MirrorMode,
    pub prg_bank: usize,
    pub cart: Cartridge,
    pub last_prg_offset: usize,
}

impl MapperCamerica {
    pub const ID: u8 = 71;

    pub open spec fn read_value(&self, addr: u16) -> u8 {
        if addr <= 0x1FFF {
            self.cart.chr_rom@[addr as int]
        } else if 0x2000 <= addr <= 0x3EFF {
            self.vram@[vram_index(self.mirror_mode, addr)]
        } else if 0x8000 <= addr <= 0xBFFF {
            self.cart.prg_rom@[self.prg_bank * 0x4000 + (addr & 0x3FFF)]
        } else if addr >= 0xC000 {
            self.cart.prg_rom@[self.last_prg_offset + (addr & 0x3FFF)]
        } else {
            0
        }
    }

    pub fn new(cart: Cartridge) -> (m: MapperCamerica)
        requires
            cart.chr_rom@.len() >= 0x2000,
            cart.prg_rom@.len() >= 0x4000,
            cart.wf(),
        ensures
            m.wf(),
            m.cart == cart,
            m.vram@ == Seq::new(2048, |i: int| 0u8),
            m.mirror_mode == header_mirroring(cart.mirror_mode),
            m.prg_bank == 0,
            m.last_prg_offset == cart.prg_rom@.len() - 0x4000,
    {
        let mirror_mode = mirroring_from_header(cart.mirror_mode);
        let last_prg_offset = cart.prg_rom.len() - 0x4000;
        let m = MapperCamerica { vram: [0; 2048], mirror_mode, prg_bank: 0, cart, last_prg_offset };
        assert(m.vram@ =~= Seq::new(2048, |i: int| 0u8));
        m
    }
}

/// The last 16 KiB of program ROM is fixed at 0xC000-0xFFFF, and
/// 0x8000-0xBFFF shows the selected 16 KiB bank.
pub proof fn lemma_camerica_banks(m: MapperCamerica, addr: u16)
    requires
        m.wf(),
        addr >= 0x8000,
    ensures
        addr >= 0xC000 ==> m.peek_value(addr)
            == m.cart.prg_rom@[m.cart.prg_rom@.len() - 0x4000 + (addr & 0x3FFF)],
        addr < 0xC000 ==> m.peek_value(addr) == m.cart.prg_rom@[m.prg_bank * 0x4000 + (addr & 0x3FFF)],
{
}

/// A write to 0xC000-0xFFFF selects the 16 KiB bank at 0x8000-0xBFFF,
/// modulo the number of banks; a write to 0x8000-0xBFFF changes no read.
pub proof fn lemma_camerica_bank_switch(m: MapperCamerica, addr: u16, val: u8, after: MapperCamerica, a: u16)
    requires
        m.wf(),
        addr >= 0x8000,
        m.written(addr, val, after),
        0x8000 <= a <= 0xBFFF,
    ensures
        addr >= 0xC000 ==> after.peek_value(a) == m.cart.prg_rom@[
            (val as int % ((m.cart.prg_rom@.len() / 0x4000) as int)) * 0x4000 + (a & 0x3FFF)],
        addr < 0xC000 ==> after.peek_value(a) == m.peek_value(a),
{
}

/// The fields are all there, in range, and fit the cartridge.
pub open spec fn camerica_state_fits(cart: Cartridge, rest: Seq<u8>) -> bool {
    &&& rest.len() >= 2057
    &&& mirror_fits(rest.skip(2048))
    &&& word_fits(rest.skip(2049), (cart.prg_rom@.len() / 0x4000 - 1) as usize)
}

impl Mapper for MapperCamerica {
    open spec fn wf(&self) -> bool {
        &&& self.cart.chr_rom@.len() >= 0x2000
        &&& 0x4000 <= self.cart.prg_rom@.len() <= 0x400000
        &&& self.mirror_mode.is_supported()
        &&& self.last_prg_offset == self.cart.prg_rom@.len() - 0x4000
        &&& self.prg_bank < self.cart.prg_rom@.len() / 0x4000
    }

    open spec fn accepts(&self, cart: &Cartridge) -> bool {
        &&& cart.chr_rom@.len() >= 0x2000
        &&& 0x4000 <= cart.prg_rom@.len() <= 0x400000
        &&& self.prg_bank < cart.prg_rom@.len() / 0x4000
    }

    open spec fn saved_bytes(&self) -> Seq<u8> {
        self.vram@ + seq![mirror_tag(self.mirror_mode)] + usize_bytes(self.prg_bank)
    }

    open spec fn loaded_bytes(&self) -> Seq<u8> {
        self.saved_bytes()
    }

    open spec fn id(&self) -> u8 {
        71
    }

    open spec fn peek_value(&self, addr: u16) -> u8 {
        self.read_value(addr)
    }

    /// The board after a read of `addr`.
    open spec fn after_read(&self, addr: u16) -> Self {
        *self
    }

    fn peek(&mut self, addr: u16) -> (r: u8)
        ensures
            r == old(self).read_value(addr),
            *final(self) == *old(self),
            addr >= 0xC000 ==> r == old(self).cart.prg_rom@[old(self).cart.prg_rom@.len() - 0x4000 + (addr & 0x3FFF)],
    {
        match addr {
            0x0000..=0x1FFF => self.cart.chr_rom[addr as usize],
            0x2000..=0x3EFF => self.vram[translate_vram(self.mirror_mode, addr)],
            0x8000..=0xBFFF => {
                proof { lemma_and_bounds(); }
                let bank = self.prg_bank * 0x4000;
                self.cart.prg_rom[bank + (addr & 0x3FFF) as usize]
            },
            0xC000..=0xFFFF => {
                proof { lemma_and_bounds(); }
                self.cart.prg_rom[self.last_prg_offset + (addr & 0x3FFF) as usize]
            },
            _ => 0,
        }
    }

    /// What a write of `val` to `addr` leaves: the registers, banks and
    /// memories as this board's `poke` sets them.
    open spec fn written(&self, addr: u16, val: u8, after: Self) -> bool {
        &&& after.cart.chr_rom@ == (if addr <= 0x1FFF {
                self.cart.chr_rom@.update(addr as int, val)
            } else {
                self.cart.chr_rom@
            })
        &&& after.vram@ == (if 0x2000 <= addr <= 0x3EFF {
                self.vram@.update(vram_index(self.mirror_mode, addr), val)
            } else {
                self.vram@
            })
        &&& after.cart.prg_rom == self.cart.prg_rom
        &&& after.mirror_mode == self.mirror_mode
        &&& after.prg_bank == (if addr >= 0xC000 {
                val as usize % (self.cart.prg_rom@.len() / 0x4000) as usize
            } else {
                self.prg_bank
            })
    }

    /// Writes to 0x8000-0xBFFF are ignored; 0xC000-0xFFFF selects the bank.
    fn poke(&mut self, addr: u16, val: u8)
        ensures
            final(self).cart.chr_rom@ == (if addr <= 0x1FFF {
                old(self).cart.chr_rom@.update(addr as int, val)
            } else {
                old(self).cart.chr_rom@
            }),
            final(self).vram@ == (if 0x2000 <= addr <= 0x3EFF {
                old(self).vram@.update(vram_index(old(self).mirror_mode, addr), val)
            } else {
                old(self).vram@
            }),
            final(self).cart.prg_rom == old(self).cart.prg_rom,
            final(self).mirror_mode == old(self).mirror_mode,
            final(self).prg_bank == (if addr >= 0xC000 {
                val as usize % (old(self).cart.prg_rom@.len() / 0x4000) as usize
            } else {
                old(self).prg_bank
            }),
    {
        match addr {
            0x0000..=0x1FFF => {
                self.cart.chr_rom.set(addr as usize, val);
            },
            0x2000..=0x3EFF => {
                let i = translate_vram(self.mirror_mode, addr);
                self.vram[i] = val;
            },
            0x8000..=0x8FFF => {},
            0x9000..=0x9FFF => {},
            0xA000..=0xBFFF => {},
            0xC000..=0xFFFF => {
                let num_banks = self.cart.prg_rom.len() / 0x4000;
                self.prg_bank = (val as usize) % num_banks;
            },
            _ => {},
        }
    }

    open spec fn sram(&self) -> Option<Seq<u8>> {
        None
    }

    fn get_sram(&self) -> (r: Option<Vec<u8>>) {
        None
    }

    fn get_id(&self) -> (r: u8) {
        Self::ID
    }

    /// What putting `cartridge` in leaves: the board's registers as
    /// `update_cartridge` keeps them and its offsets recomputed.
    open spec fn cart_updated(&self, cartridge: Cartridge, after: Self) -> bool {
        &&& after.cart == cartridge
        &&& after.prg_bank == self.prg_bank
        &&& after.vram == self.vram
        &&& after.mirror_mode == self.mirror_mode
    }

    fn update_cartridge(&mut self, cartridge: Cartridge)
        ensures
            final(self).cart == cartridge,
            final(self).prg_bank == old(self).prg_bank,
            final(self).vram == old(self).vram,
            final(self).mirror_mode == old(self).mirror_mode,
    {
        self.last_prg_offset = cartridge.prg_rom.len() - 0x4000;
        self.cart = cartridge;
    }

    open spec fn rom_offset(&self, addr: u16) -> Option<u32> {
        (if 0x8000 <= addr <= 0xBFFF {
            Some((self.prg_bank * 0x4000 + (addr & 0x3FFF)) as u32)
        } else if addr >= 0xC000 {
            Some((self.last_prg_offset + (addr & 0x3FFF)) as u32)
        } else {
            None::<u32>
        })
    }

    fn get_prg_rom_offset(&self, addr: u16) -> (r: Option<u32>)
        ensures
            r == self.rom_offset(addr),
    {
        match addr {
            0x8000..=0xBFFF => {
                proof { lemma_and_bounds(); }
                let bank = self.prg_bank * 0x4000;
                Some((bank + (addr & 0x3FFF) as usize) as u32)
            },
            0xC000..=0xFFFF => {
                proof { lemma_and_bounds(); }
                Some((self.last_prg_offset + (addr & 0x3FFF) as usize) as u32)
            },
            _ => None,
        }
    }

    fn write_state_to(&self, writer: &mut Vec<u8>) {
        self.vram.write(writer);
        self.mirror_mode.write(writer);
        self.prg_bank.write(writer);
        assert(writer@ =~= old(writer)@ + self.saved_bytes());
    }

    open spec fn state_fits(&self, rest: Seq<u8>) -> bool {
        camerica_state_fits(self.cart, rest)
    }

    /// A bank number that the cartridge does not have is refused.
    fn read_state_from(&mut self, reader: &mut StateReader) -> (res: Result<(), StateError>) {
        let ghost r0 = reader.rest();
        let vram = read_vram(reader)?;
        assert(reader.rest() =~= r0.skip(2048));
        let mirror_mode = read_supported_mirror(reader)?;
        assert(reader.rest() =~= r0.skip(2049));
        let prg_bank = read_usize_at_most(reader, self.cart.prg_rom.len() / 0x4000 - 1)?;
        self.vram = vram;
        self.mirror_mode = mirror_mode;
        self.prg_bank = prg_bank;
        assert(r0.take(2057) =~= self.saved_bytes());
        Ok(())
    }
}

} // verus!
