//! BNROM (mapper 34): 32 KiB program banks selected by bits 2 and up of the
//! written value.
use vstd::prelude::*;
use crate::mapper::mirror_fits;
use crate::save_state::{word_fits};
use crate::cartridge::Cartridge;
use crate::mapper::{translate_vram, vram_index, mirror_tag, read_vram, read_supported_mirror, lemma_and_le, Mapper, MirrorMode};
use crate::mapper_nrom::{header_mirroring, mirroring_from_header};
use crate::save_state::{WriteState, StateReader, StateError, usize_bytes, read_usize_at_most};

verus! {

pub struct MapperBnrom {
    pub cart: Cartridge,
    pub vram: [u8; 2048],
    pub mirror_mode: MirrorMode,
    pub prg_bank: usize,
    pub prg_len: usize,
    pub chr_len: usize,
    pub num_prg_banks: usize,
}

impl MapperBnrom {
    pub const ID: u8 = 34;

    pub open spec fn prg_offset(&self, addr: u16) -> int {
        (self.prg_bank * 0x8000 + (addr - 0x8000)) % (self.prg_len as int)
    }

    pub open spec fn read_value(&self, addr: u16) -> u8 {
        if addr <= 0x1FFF {
            self.cart.chr_rom@[(addr as int) % (self.chr_len as int)]
        } else if 0x2000 <= addr <= 0x3EFF {
            self.vram@[vram_index(self.mirror_mode, addr)]
        } else if addr >= 0x8000 {
            self.cart.prg_rom@[self.prg_offset(addr)]
        } else {
            0
        }
    }

    pub fn new(cart: Cartridge) -> (m: MapperBnrom)
        requires
            cart.chr_rom@.len() > 0,
            cart.prg_rom@.len() > 0,
            cart.wf(),
        ensures
            m.wf(),
            m.cart == cart,
            m.vram@ == Seq::new(2048, |i: int| 0u8),
            m.mirror_mode == header_mirroring(cart.mirror_mode),
            m.prg_bank == 0,
    {
        let mirror_mode = mirroring_from_header(cart.mirror_mode);
        let prg_len = cart.prg_rom.len();
        let chr_len = cart.chr_rom.len();
        let num_prg_banks = prg_len / 0x8000;
        let m = MapperBnrom { cart, vram: [0; 2048], mirror_mode, prg_bank: 0, prg_len, chr_len, num_prg_banks };
        assert(m.vram@ =~= Seq::new(2048, |i: int| 0u8));
        m
    }
}

/// A write to 0x8000-0xFFFF selects the 32 KiB bank `val >> 2`, masked
/// by the bank count less one, for 0x8000-0xFFFF.
pub proof fn lemma_bnrom_bank_switch(m: MapperBnrom, addr: u16, val: u8, after: MapperBnrom, a: u16)
    requires
        m.wf(),
        addr >= 0x8000,
        m.cart.prg_rom@.len() >= 0x8000,
        m.written(addr, val, after),
        a >= 0x8000,
    ensures
        after.peek_value(a) == m.cart.prg_rom@[
            ((((val >> 2) as usize & ((m.cart.prg_rom@.len() / 0x8000 - 1) as usize)) as int) * 0x8000 + (a - 0x8000))
                % (m.cart.prg_rom@.len() as int)],
{
}

/// The fields are all there, in range, and fit the cartridge.
pub open spec fn bnrom_state_fits(cart: Cartridge, rest: Seq<u8>) -> bool {
    &&& rest.len() >= 2057
    &&& mirror_fits(rest.skip(2048))
    &&& word_fits(rest.skip(2049), 0xFF)
}

impl Mapper for MapperBnrom {
    open spec fn wf(&self) -> bool {
        &&& self.chr_len == self.cart.chr_rom@.len() > 0
        &&& self.prg_len == self.cart.prg_rom@.len() > 0
        &&& self.prg_len <= 0x400000
        &&& self.num_prg_banks == self.prg_len / 0x8000
        &&& self.mirror_mode.is_supported()
        &&& self.prg_bank <= 0xFF
    }

    open spec fn accepts(&self, cart: &Cartridge) -> bool {
        cart.chr_rom@.len() > 0 && 0 < cart.prg_rom@.len() <= 0x400000
    }

    open spec fn saved_bytes(&self) -> Seq<u8> {
        self.vram@ + seq![mirror_tag(self.mirror_mode)] + usize_bytes(self.prg_bank)
    }

    open spec fn loaded_bytes(&self) -> Seq<u8> {
        self.saved_bytes()
    }

    open spec fn id(&self) -> u8 {
        34
    }

    open spec fn peek_value(&self, addr: u16) -> u8 {
        self.read_value(addr)
    }

    /// The board after a read of `addr`.
    open spec fn after_read(&self, addr: u16) -> Self {
        *self
    }

    fn peek(&mut self, addr: u16) -> (r: u8)
        ensures
            r == old(self).read_value(addr),
            *final(self) == *old(self),
    {
        match addr {
            0x0000..=0x1FFF => self.cart.chr_rom[(addr as usize) % self.chr_len],
            0x2000..=0x3EFF => self.vram[translate_vram(self.mirror_mode, addr)],
            0x8000..=0xFFFF => {
                let bank = self.prg_bank * 0x8000;
                self.cart.prg_rom[(bank + (addr as usize - 0x8000)) % self.prg_len]
            },
            _ => 0,
        }
    }

    /// What a write of `val` to `addr` leaves: the registers, banks and
    /// memories as this board's `poke` sets them.
    open spec fn written(&self, addr: u16, val: u8, after: Self) -> bool {
        &&& after.cart.chr_rom@ == (if addr <= 0x1FFF {
                self.cart.chr_rom@.update((addr as int) % (self.chr_len as int), val)
            } else {
                self.cart.chr_rom@
            })
        &&& after.vram@ == (if 0x2000 <= addr <= 0x3EFF {
                self.vram@.update(vram_index(self.mirror_mode, addr), val)
            } else {
                self.vram@
            })
        &&& after.cart.prg_rom == self.cart.prg_rom
        &&& after.mirror_mode == self.mirror_mode
        &&& after.prg_len == self.prg_len
        &&& after.prg_bank == (if addr >= 0x8000 && self.num_prg_banks > 0 {
                ((val >> 2) as usize) & ((self.num_prg_banks - 1) as usize)
            } else {
                self.prg_bank
            })
    }

    /// A write to ROM space selects bank `(val >> 2)` masked by the bank count.
    fn poke(&mut self, addr: u16, val: u8)
        ensures
            final(self).cart.chr_rom@ == (if addr <= 0x1FFF {
                old(self).cart.chr_rom@.update((addr as int) % (old(self).chr_len as int), val)
            } else {
                old(self).cart.chr_rom@
            }),
            final(self).vram@ == (if 0x2000 <= addr <= 0x3EFF {
                old(self).vram@.update(vram_index(old(self).mirror_mode, addr), val)
            } else {
                old(self).vram@
            }),
            final(self).cart.prg_rom == old(self).cart.prg_rom,
            final(self).mirror_mode == old(self).mirror_mode,
            final(self).prg_len == old(self).prg_len,
            final(self).prg_bank == (if addr >= 0x8000 && old(self).num_prg_banks > 0 {
                ((val >> 2) as usize) & ((old(self).num_prg_banks - 1) as usize)
            } else {
                old(self).prg_bank
            }),
    {
        match addr {
            0x0000..=0x1FFF => {
                if self.chr_len > 0 {
                    let idx = (addr as usize) % self.chr_len;
                    self.cart.chr_rom.set(idx, val);
                }
            },
            0x2000..=0x3EFF => {
                let i = translate_vram(self.mirror_mode, addr);
                self.vram[i] = val;
            },
            0x8000..=0xFFFF => {
                if self.num_prg_banks > 0 {
                    let v = (val >> 2) as usize;
                    proof { lemma_and_le(v, (self.num_prg_banks - 1) as usize); }
                    self.prg_bank = v & (self.num_prg_banks - 1);
                }
            },
            _ => {},
        }
    }

    open spec fn sram(&self) -> Option<Seq<u8>> {
        None
    }

    fn get_sram(&self) -> (r: Option<Vec<u8>>) {
        None
    }

    fn get_id(&self) -> (r: u8) {
        Self::ID
    }

    /// What putting `cartridge` in leaves: the board's registers as
    /// `update_cartridge` keeps them and its offsets recomputed.
    open spec fn cart_updated(&self, cartridge: Cartridge, after: Self) -> bool {
        &&& after.cart == cartridge
        &&& after.prg_bank == self.prg_bank
        &&& after.vram == self.vram
        &&& after.mirror_mode == self.mirror_mode
    }

    fn update_cartridge(&mut self, cartridge: Cartridge)
        ensures
            final(self).cart == cartridge,
            final(self).prg_bank == old(self).prg_bank,
            final(self).vram == old(self).vram,
            final(self).mirror_mode == old(self).mirror_mode,
    {
        self.prg_len = cartridge.prg_rom.len();
        self.chr_len = cartridge.chr_rom.len();
        self.num_prg_banks = self.prg_len / 0x8000;
        self.cart = cartridge;
    }

    open spec fn rom_offset(&self, addr: u16) -> Option<u32> {
        (if addr >= 0x8000 { Some(self.prg_offset(addr) as u32) } else { None::<u32> })
    }

    fn get_prg_rom_offset(&self, addr: u16) -> (r: Option<u32>)
        ensures
            r == self.rom_offset(addr),
    {
        match addr {
            0x8000..=0xFFFF => {
                if self.prg_len == 0 {
                    None
                } else {
                    let bank = self.prg_bank * 0x8000;
                    let offset = (bank + (addr as usize - 0x8000)) as u32;
                    Some(offset % self.prg_len as u32)
                }
            },
            _ => None,
        }
    }

    fn write_state_to(&self, writer: &mut Vec<u8>) {
        self.vram.write(writer);
        self.mirror_mode.write(writer);
        self.prg_bank.write(writer);
        assert(writer@ =~= old(writer)@ + self.saved_bytes());
    }

    open spec fn state_fits(&self, rest: Seq<u8>) -> bool {
        bnrom_state_fits(self.cart, rest)
    }

    /// A bank number above 255 is refused.
    fn read_state_from(&mut self, reader: &mut StateReader) -> (res: Result<(), StateError>) {
        let ghost r0 = reader.rest();
        let vram = read_vram(reader)?;
        assert(reader.rest() =~= r0.skip(2048));
        let mirror_mode = read_supported_mirror(reader)?;
        assert(reader.rest() =~= r0.skip(2049));
        let prg_bank = read_usize_at_most(reader, 0xFF)?;
        self.vram = vram;
        self.mirror_mode = mirror_mode;
        self.prg_bank = prg_bank;
        assert(r0.take(2057) =~= self.saved_bytes());
        Ok(())
    }
}

} // verus!
