//! AxROM (mapper 7): 32 KiB program banks and one-screen mirroring.
use vstd::prelude::*;
use crate::mapper::mirror_fits;
use crate::save_state::{word_fits};
use crate::bits::lemma_and_bounds;
use crate::cartridge::Cartridge;
use crate::mapper::{translate_vram, vram_index, mirror_tag, read_vram, read_supported_mirror, Mapper, MirrorMode};
use crate::save_state::{WriteState, StateReader, StateError, usize_bytes, read_usize_at_most};

verus! {

pub struct MapperAxRom {
    pub cart: Cartridge,
    pub vram: [u8; 2048],
    pub prg_bank: usize,
    pub mirror_mode: MirrorMode,
}

impl MapperAxRom {
    pub const ID: u8 = 7;

    /// The program ROM offset that CPU address `addr` (at or above 0x8000) reads.
    pub open spec fn prg_offset(&self, addr: u16) -> int {
        (self.prg_bank * 0x8000 + (addr & 0x7FFF)) % (self.cart.prg_rom@.len() as int)
    }

    pub open spec fn read_value(&self, addr: u16) -> u8 {
        if addr <= 0x1FFF {
            self.cart.chr_rom@[addr as int]
        } else if 0x2000 <= addr <= 0x3EFF {
            self.vram@[vram_index(self.mirror_mode, addr)]
        } else if addr >= 0x8000 {
            self.cart.prg_rom@[self.prg_offset(addr)]
        } else {
            0
        }
    }

    /// Starts on the last 32 KiB bank with the first screen.
    pub fn new(cart: Cartridge) -> (m: MapperAxRom)
        requires
            cart.chr_rom@.len() >= 0x2000,
            cart.prg_rom@.len() > 0,
            cart.wf(),
        ensures
            m.wf(),
            m.cart == cart,
            m.vram@ == Seq::new(2048, |i: int| 0u8),
            m.mirror_mode == MirrorMode::MirrorSingleA,
            m.prg_bank == (if cart.prg_rom@.len() / 0x8000 >= 1 { cart.prg_rom@.len() / 0x8000 - 1 } else { 0 }),
    {
        let last_bank = if cart.prg_rom.len() == 0 {
            0
        } else {
            (cart.prg_rom.len() / 0x8000).saturating_sub(1)
        };
        let m = MapperAxRom { cart, vram: [0; 2048], prg_bank: last_bank, mirror_mode: MirrorMode::MirrorSingleA };
        assert(m.vram@ =~= Seq::new(2048, |i: int| 0u8));
        m
    }
}

/// A write to 0x8000-0xFFFF selects the 32 KiB bank from bits 0-2 of the
/// value: reads of 0x8000-0xFFFF then come from that bank, wrapping at the
/// end of the ROM.
pub proof fn lemma_axrom_bank_switch(m: MapperAxRom, addr: u16, val: u8, after: MapperAxRom, a: u16)
    requires
        m.wf(),
        addr >= 0x8000,
        m.written(addr, val, after),
        a >= 0x8000,
    ensures
        after.peek_value(a) == m.cart.prg_rom@[((val & 7) as int * 0x8000 + (a & 0x7FFF)) % (m.cart.prg_rom@.len() as int)],
{
}

/// The fields are all there, in range, and fit the cartridge.
pub open spec fn axrom_state_fits(cart: Cartridge, rest: Seq<u8>) -> bool {
    &&& rest.len() >= 2057
    &&& word_fits(rest.skip(2048), 0xFF)
    &&& mirror_fits(rest.skip(2056))
}

impl Mapper for MapperAxRom {
    open spec fn wf(&self) -> bool {
        &&& self.cart.chr_rom@.len() >= 0x2000
        &&& self.cart.prg_rom@.len() > 0
        &&& self.mirror_mode.is_supported()
        &&& self.prg_bank <= 0xFF
    }

    open spec fn accepts(&self, cart: &Cartridge) -> bool {
        cart.chr_rom@.len() >= 0x2000 && cart.prg_rom@.len() > 0
    }

    open spec fn saved_bytes(&self) -> Seq<u8> {
        self.vram@ + usize_bytes(self.prg_bank) + seq![mirror_tag(self.mirror_mode)]
    }

    open spec fn loaded_bytes(&self) -> Seq<u8> {
        self.saved_bytes()
    }

    open spec fn id(&self) -> u8 {
        7
    }

    open spec fn peek_value(&self, addr: u16) -> u8 {
        self.read_value(addr)
    }

    /// The board after a read of `addr`.
    open spec fn after_read(&self, addr: u16) -> Self {
        *self
    }

    fn peek(&mut self, addr: u16) -> (r: u8)
        ensures
            r == old(self).read_value(addr),
            *final(self) == *old(self),
    {
        match addr {
            0x0000..=0x1FFF => self.cart.chr_rom[addr as usize],
            0x2000..=0x3EFF => self.vram[translate_vram(self.mirror_mode, addr)],
            0x8000..=0xFFFF => {
                let offset = self.prg_bank * 0x8000;
                let masked_addr = (addr & 0x7FFF) as usize;
                self.cart.prg_rom[(offset + masked_addr) % self.cart.prg_rom.len()]
            },
            _ => 0,
        }
    }

    /// What a write of `val` to `addr` leaves: the registers, banks and
    /// memories as this board's `poke` sets them.
    open spec fn written(&self, addr: u16, val: u8, after: Self) -> bool {
        &&& after.cart.chr_rom@ == (if addr <= 0x1FFF {
                self.cart.chr_rom@.update(addr as int, val)
            } else {
                self.cart.chr_rom@
            })
        &&& after.vram@ == (if 0x2000 <= addr <= 0x3EFF {
                self.vram@.update(vram_index(self.mirror_mode, addr), val)
            } else {
                self.vram@
            })
        &&& after.cart.prg_rom == self.cart.prg_rom
        &&& addr >= 0x8000 ==> after.prg_bank == (val & 0x07) as usize
                && after.mirror_mode == (if val & 0x10 != 0 {
                    MirrorMode::MirrorSingleB
                } else {
                    MirrorMode::MirrorSingleA
                })
        &&& addr < 0x8000 ==> after.prg_bank == self.prg_bank
                && after.mirror_mode == self.mirror_mode
    }

    /// A write to ROM space selects the bank (bits 0-2) and the screen (bit 4).
    fn poke(&mut self, addr: u16, val: u8)
        ensures
            final(self).cart.chr_rom@ == (if addr <= 0x1FFF {
                old(self).cart.chr_rom@.update(addr as int, val)
            } else {
                old(self).cart.chr_rom@
            }),
            final(self).vram@ == (if 0x2000 <= addr <= 0x3EFF {
                old(self).vram@.update(vram_index(old(self).mirror_mode, addr), val)
            } else {
                old(self).vram@
            }),
            final(self).cart.prg_rom == old(self).cart.prg_rom,
            addr >= 0x8000 ==> final(self).prg_bank == (val & 0x07) as usize
                && final(self).mirror_mode == (if val & 0x10 != 0 {
                    MirrorMode::MirrorSingleB
                } else {
                    MirrorMode::MirrorSingleA
                }),
            addr < 0x8000 ==> final(self).prg_bank == old(self).prg_bank
                && final(self).mirror_mode == old(self).mirror_mode,
    {
        match addr {
            0x0000..=0x1FFF => {
                self.cart.chr_rom.set(addr as usize, val);
            },
            0x2000..=0x3EFF => {
                let i = translate_vram(self.mirror_mode, addr);
                self.vram[i] = val;
            },
            0x8000..=0xFFFF => {
                proof { lemma_and_bounds(); }
                self.prg_bank = (val & 0x07) as usize;
                self.mirror_mode = if (val & 0x10) != 0 {
                    MirrorMode::MirrorSingleB
                } else {
                    MirrorMode::MirrorSingleA
                };
            },
            _ => {},
        }
    }

    open spec fn sram(&self) -> Option<Seq<u8>> {
        None
    }

    fn get_sram(&self) -> (r: Option<Vec<u8>>) {
        None
    }

    fn get_id(&self) -> (r: u8) {
        Self::ID
    }

    /// What putting `cartridge` in leaves: the board's registers as
    /// `update_cartridge` keeps them and its offsets recomputed.
    open spec fn cart_updated(&self, cartridge: Cartridge, after: Self) -> bool {
        &&& after.cart == cartridge
        &&& after.vram == self.vram
        &&& after.prg_bank == self.prg_bank
        &&& after.mirror_mode == self.mirror_mode
    }

    fn update_cartridge(&mut self, cartridge: Cartridge)
        ensures
            final(self).cart == cartridge,
            final(self).vram == old(self).vram,
            final(self).prg_bank == old(self).prg_bank,
            final(self).mirror_mode == old(self).mirror_mode,
    {
        self.cart = cartridge;
    }

    open spec fn rom_offset(&self, addr: u16) -> Option<u32> {
        (if addr >= 0x8000 { Some(self.prg_offset(addr) as u32) } else { None::<u32> })
    }

    fn get_prg_rom_offset(&self, addr: u16) -> (r: Option<u32>)
        ensures
            r == self.rom_offset(addr),
    {
        match addr {
            0x8000..=0xFFFF => {
                let offset = self.prg_bank * 0x8000;
                let masked_addr = (addr & 0x7FFF) as usize;
                Some(((offset + masked_addr) % self.cart.prg_rom.len()) as u32)
            },
            _ => None,
        }
    }

    fn write_state_to(&self, writer: &mut Vec<u8>) {
        self.vram.write(writer);
        self.prg_bank.write(writer);
        self.mirror_mode.write(writer);
        assert(writer@ =~= old(writer)@ + self.saved_bytes());
    }

    open spec fn state_fits(&self, rest: Seq<u8>) -> bool {
        axrom_state_fits(self.cart, rest)
    }

    fn read_state_from(&mut self, reader: &mut StateReader) -> (res: Result<(), StateError>) {
        let ghost r0 = reader.rest();
        let vram = read_vram(reader)?;
        assert(reader.rest() =~= r0.skip(2048));
        let prg_bank = read_usize_at_most(reader, 0xFF)?;
        assert(reader.rest() =~= r0.skip(2056));
        let mirror_mode = read_supported_mirror(reader)?;
        self.vram = vram;
        self.prg_bank = prg_bank;
        self.mirror_mode = mirror_mode;
        assert(r0.take(2057) =~= self.saved_bytes());
        Ok(())
    }
}

} // verus!
