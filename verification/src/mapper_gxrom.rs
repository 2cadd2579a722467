//! GxROM (mapper 66): 32 KiB program banks and 8 KiB character banks,
//! both chosen by one register.
use vstd::prelude::*;
use crate::mapper::mirror_fits;
use crate::save_state::{word_fits};
use crate::bits::lemma_and_bounds;
use crate::cartridge::Cartridge;
use crate::mapper::{translate_vram, vram_index, mirror_tag, read_vram, read_supported_mirror, Mapper, MirrorMode};
use crate::mapper_nrom::{header_mirroring, mirroring_from_header};
use crate::save_state::{WriteState, StateReader, StateError, usize_bytes, read_usize_at_most};

verus! {

pub struct MapperGxRom {
    pub cart: Cartridge,
    pub vram: [u8; 2048],
    pub mirror_mode: MirrorMode,
    pub prg_bank: usize,
    pub chr_bank: usize,
}

impl MapperGxRom {
    pub const ID: u8 = 66;

    pub open spec fn chr_index(&self, addr: u16) -> int {
        (self.chr_bank * 0x2000 + addr) % (self.cart.chr_rom@.len() as int)
    }

    pub open spec fn read_value(&self, addr: u16) -> u8 {
        if addr <= 0x1FFF {
            self.cart.chr_rom@[self.chr_index(addr)]
        } else if 0x2000 <= addr <= 0x3EFF {
            self.vram@[vram_index(self.mirror_mode, addr)]
        } else if addr >= 0x8000 {
            self.cart.prg_rom@[(self.prg_bank * 0x8000 + (addr - 0x8000)) % (self.cart.prg_rom@.len() as int)]
        } else {
            0
        }
    }

    pub fn new(cart: Cartridge) -> (m: MapperGxRom)
        requires
            cart.wf(),
            cart.prg_rom@.len() > 0,
        ensures
            m.wf(),
            m.cart == cart,
            m.vram@ == Seq::new(2048, |i: int| 0u8),
            m.mirror_mode == header_mirroring(cart.mirror_mode),
            m.prg_bank == 0 && m.chr_bank == 0,
    {
        let mirror_mode = mirroring_from_header(cart.mirror_mode);
        let m = MapperGxRom { cart, vram: [0; 2048], mirror_mode, prg_bank: 0, chr_bank: 0 };
        assert(m.vram@ =~= Seq::new(2048, |i: int| 0u8));
        m
    }
}

/// A write to 0x8000-0xFFFF selects the 32 KiB program bank from bits 4-5
/// and the 8 KiB character bank from bits 0-1 of the value; reads then
/// come from those banks, wrapping at the ends of the ROMs.
pub proof fn lemma_gxrom_bank_switch(m: MapperGxRom, addr: u16, val: u8, after: MapperGxRom, a: u16)
    requires
        m.wf(),
        addr >= 0x8000,
        m.written(addr, val, after),
    ensures
        a >= 0x8000 ==> after.peek_value(a)
            == m.cart.prg_rom@[(((val >> 4) & 3) as int * 0x8000 + (a - 0x8000)) % (m.cart.prg_rom@.len() as int)],
        a <= 0x1FFF ==> after.peek_value(a)
            == m.cart.chr_rom@[((val & 3) as int * 0x2000 + a) % (m.cart.chr_rom@.len() as int)],
{
}

/// The fields are all there, in range, and fit the cartridge.
pub open spec fn gxrom_state_fits(cart: Cartridge, rest: Seq<u8>) -> bool {
    &&& rest.len() >= 2065
    &&& mirror_fits(rest.skip(2048))
    &&& word_fits(rest.skip(2049), 3)
    &&& word_fits(rest.skip(2057), 3)
}

impl Mapper for MapperGxRom {
    open spec fn wf(&self) -> bool {
        &&& 0 < self.cart.prg_rom@.len() <= 0x400000
        &&& 0 < self.cart.chr_rom@.len() <= 0x400000
        &&& self.mirror_mode.is_supported()
        &&& self.prg_bank <= 3
        &&& self.chr_bank <= 3
    }

    open spec fn accepts(&self, cart: &Cartridge) -> bool {
        0 < cart.prg_rom@.len() <= 0x400000 && 0 < cart.chr_rom@.len() <= 0x400000
    }

    open spec fn saved_bytes(&self) -> Seq<u8> {
        self.vram@ + seq![mirror_tag(self.mirror_mode)] + usize_bytes(self.prg_bank) + usize_bytes(self.chr_bank)
    }

    open spec fn loaded_bytes(&self) -> Seq<u8> {
        self.saved_bytes()
    }

    open spec fn id(&self) -> u8 {
        66
    }

    open spec fn peek_value(&self, addr: u16) -> u8 {
        self.read_value(addr)
    }

    /// The board after a read of `addr`.
    open spec fn after_read(&self, addr: u16) -> Self {
        *self
    }

    /// Pattern reads wrap around the character ROM, as pattern writes do.
    fn peek(&mut self, addr: u16) -> (r: u8)
        ensures
            r == old(self).read_value(addr),
            *final(self) == *old(self),
    {
        match addr {
            0x0000..=0x1FFF => {
                let bank = self.chr_bank * 0x2000;
                self.cart.chr_rom[(bank + (addr as usize)) % self.cart.chr_rom.len()]
            },
            0x2000..=0x3EFF => self.vram[translate_vram(self.mirror_mode, addr)],
            0x8000..=0xFFFF => {
                let bank = self.prg_bank * 0x8000;
                let offset = addr as usize - 0x8000;
                self.cart.prg_rom[(bank + offset) % self.cart.prg_rom.len()]
            },
            _ => 0,
        }
    }

    /// What a write of `val` to `addr` leaves: the registers, banks and
    /// memories as this board's `poke` sets them.
    open spec fn written(&self, addr: u16, val: u8, after: Self) -> bool {
        &&& after.cart.chr_rom@ == (if addr <= 0x1FFF {
                self.cart.chr_rom@.update(self.chr_index(addr), val)
            } else {
                self.cart.chr_rom@
            })
        &&& after.vram@ == (if 0x2000 <= addr <= 0x3EFF {
                self.vram@.update(vram_index(self.mirror_mode, addr), val)
            } else {
                self.vram@
            })
        &&& after.cart.prg_rom == self.cart.prg_rom
        &&& after.mirror_mode == self.mirror_mode
        &&& addr >= 0x8000 ==> after.prg_bank == ((val >> 4) & 3) as usize && after.chr_bank == (val & 3) as usize
        &&& addr < 0x8000 ==> after.prg_bank == self.prg_bank && after.chr_bank == self.chr_bank
    }

    /// A write to ROM space selects the program bank (bits 4-5) and the
    /// character bank (bits 0-1).
    fn poke(&mut self, addr: u16, val: u8)
        ensures
            final(self).cart.chr_rom@ == (if addr <= 0x1FFF {
                old(self).cart.chr_rom@.update(old(self).chr_index(addr), val)
            } else {
                old(self).cart.chr_rom@
            }),
            final(self).vram@ == (if 0x2000 <= addr <= 0x3EFF {
                old(self).vram@.update(vram_index(old(self).mirror_mode, addr), val)
            } else {
                old(self).vram@
            }),
            final(self).cart.prg_rom == old(self).cart.prg_rom,
            final(self).mirror_mode == old(self).mirror_mode,
            addr >= 0x8000 ==> final(self).prg_bank == ((val >> 4) & 3) as usize && final(self).chr_bank == (val & 3) as usize,
            addr < 0x8000 ==> final(self).prg_bank == old(self).prg_bank && final(self).chr_bank == old(self).chr_bank,
    {
        match addr {
            0x0000..=0x1FFF => {
                let bank = self.chr_bank * 0x2000;
                let len = self.cart.chr_rom.len();
                self.cart.chr_rom.set((bank + (addr as usize)) % len, val);
            },
            0x2000..=0x3EFF => {
                let i = translate_vram(self.mirror_mode, addr);
                self.vram[i] = val;
            },
            0x8000..=0xFFFF => {
                proof { lemma_and_bounds(); }
                self.prg_bank = ((val >> 4) & 0x03) as usize;
                self.chr_bank = (val & 0x03) as usize;
            },
            _ => {},
        }
    }

    open spec fn rom_offset(&self, addr: u16) -> Option<u32> {
        None
    }

    /// No CPU address reads program ROM at a fixed offset here.
    fn get_prg_rom_offset(&self, addr: u16) -> (r: Option<u32>) {
        None
    }

    open spec fn sram(&self) -> Option<Seq<u8>> {
        None
    }

    fn get_sram(&self) -> (r: Option<Vec<u8>>) {
        None
    }

    fn get_id(&self) -> (r: u8) {
        Self::ID
    }

    /// What putting `cartridge` in leaves: the board's registers as
    /// `update_cartridge` keeps them and its offsets recomputed.
    open spec fn cart_updated(&self, cartridge: Cartridge, after: Self) -> bool {
        &&& after.cart == cartridge
        &&& after.prg_bank == self.prg_bank
        &&& after.chr_bank == self.chr_bank
        &&& after.vram == self.vram
        &&& after.mirror_mode == self.mirror_mode
    }

    fn update_cartridge(&mut self, cartridge: Cartridge)
        ensures
            final(self).cart == cartridge,
            final(self).prg_bank == old(self).prg_bank,
            final(self).chr_bank == old(self).chr_bank,
            final(self).vram == old(self).vram,
            final(self).mirror_mode == old(self).mirror_mode,
    {
        self.cart = cartridge;
    }

    fn write_state_to(&self, writer: &mut Vec<u8>) {
        self.vram.write(writer);
        self.mirror_mode.write(writer);
        self.prg_bank.write(writer);
        self.chr_bank.write(writer);
        assert(writer@ =~= old(writer)@ + self.saved_bytes());
    }

    open spec fn state_fits(&self, rest: Seq<u8>) -> bool {
        gxrom_state_fits(self.cart, rest)
    }

    /// Bank numbers above 3 are refused.
    fn read_state_from(&mut self, reader: &mut StateReader) -> (res: Result<(), StateError>) {
        let ghost r0 = reader.rest();
        let vram = read_vram(reader)?;
        assert(reader.rest() =~= r0.skip(2048));
        let mirror_mode = read_supported_mirror(reader)?;
        assert(reader.rest() =~= r0.skip(2049));
        let prg_bank = read_usize_at_most(reader, 3)?;
        assert(reader.rest() =~= r0.skip(2057));
        let chr_bank = read_usize_at_most(reader, 3)?;
        self.vram = vram;
        self.mirror_mode = mirror_mode;
        self.prg_bank = prg_bank;
        self.chr_bank = chr_bank;
        assert(r0.take(2065) =~= self.saved_bytes());
        Ok(())
    }
}

} // verus!
