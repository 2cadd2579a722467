//! The NES-EVENT board (mapper 105): a serial register that switches
//! between program banking and 4 KiB character banking.
use vstd::prelude::*;
use crate::mapper::mirror_fits;
use crate::save_state::{word_fits, byte_fits};
use crate::bits::lemma_addr_fields;
use crate::bits::lemma_and_bounds;
use crate::cartridge::Cartridge;
use crate::mapper::{translate_vram, vram_index, mirror_tag, read_vram, read_supported_mirror, Mapper, MirrorMode};
use crate::mapper_nrom::{header_mirroring, mirroring_from_header};
use crate::save_state::{WriteState, StateReader, StateError, usize_bytes, read_usize_at_most, read_u8_at_most};

verus! {

pub struct MapperNesEvtRom {
    pub cart: Cartridge,
    pub vram: [u8; 2048],
    pub mirror_mode: MirrorMode,
    pub prg_bank: usize,
    /// The byte offset of the 4 KiB character bank.
    pub chr_bank: usize,
    pub reg: u8,
    pub prg_mode: u8,
}

impl MapperNesEvtRom {
    pub const ID: u8 = 105;

    /// The program ROM offset that CPU address `addr` (0x8000 and up) reads.
    pub open spec fn prg_index(&self, addr: u16) -> int {
        let len = self.cart.prg_rom@.len() as int;
        let offset = addr - 0x8000;
        if self.prg_mode <= 1 {
            ((self.prg_bank & 0xFE) * 0x4000 + offset) % len
        } else if self.prg_mode == 2 {
            ((self.prg_bank & 0x06) * 0x4000 + offset) % len
        } else {
            ((self.prg_bank & 0x07) * 0x2000 + offset) % len
        }
    }

    /// The character ROM offset that pattern address `addr` reads.
    pub open spec fn chr_index(&self, addr: u16) -> int {
        if self.reg & 0x10 != 0 {
            (self.chr_bank + (addr & 0x0FFF)) % (self.cart.chr_rom@.len() as int)
        } else {
            (addr as int) % (self.cart.chr_rom@.len() as int)
        }
    }

    pub open spec fn read_value(&self, addr: u16) -> u8 {
        if addr <= 0x1FFF {
            self.cart.chr_rom@[self.chr_index(addr)]
        } else if 0x2000 <= addr <= 0x3EFF {
            self.vram@[vram_index(self.mirror_mode, addr)]
        } else if addr >= 0x8000 {
            self.cart.prg_rom@[self.prg_index(addr)]
        } else {
            0
        }
    }

    pub fn new(cart: Cartridge) -> (m: MapperNesEvtRom)
        requires
            cart.wf(),
            cart.prg_rom@.len() > 0,
        ensures
            m.wf(),
            m.cart == cart,
            m.vram@ == Seq::new(2048, |i: int| 0u8),
            m.mirror_mode == header_mirroring(cart.mirror_mode),
            m.reg == 0x0C && m.prg_mode == 3 && m.prg_bank == 0 && m.chr_bank == 0,
    {
        let mirror_mode = mirroring_from_header(cart.mirror_mode);
        let m = MapperNesEvtRom {
            cart,
            vram: [0; 2048],
            mirror_mode,
            prg_bank: 0,
            chr_bank: 0,
            reg: 0x0C,
            prg_mode: 3,
        };
        assert(m.vram@ =~= Seq::new(2048, |i: int| 0u8));
        m
    }

    /// Latches the completed register: character mode sets the 4 KiB bank,
    /// program mode sets the banking mode and the program bank.
    fn recalc_banks(&mut self)
        requires
            old(self).wf(),
        ensures
            final(self).wf(),
            final(self).cart == old(self).cart,
            final(self).vram == old(self).vram,
            final(self).mirror_mode == old(self).mirror_mode,
            final(self).reg == old(self).reg,
            old(self).reg & 0x10 != 0 ==> final(self).chr_bank == (old(self).reg & 0x0F) * 0x1000
                && final(self).prg_bank == old(self).prg_bank && final(self).prg_mode == old(self).prg_mode,
            old(self).reg & 0x10 == 0 ==> final(self).prg_mode == (old(self).reg >> 2) & 3
                && final(self).prg_bank == (old(self).reg & 7) && final(self).chr_bank == old(self).chr_bank,
    {
        let reg = self.reg;
        proof { lemma_and_bounds(); }
        if reg & 0x10 != 0 {
            self.chr_bank = ((reg & 0x0F) as usize) * 0x1000;
        } else {
            self.prg_mode = (reg >> 2) & 0x03;
            self.prg_bank = (reg & 0x07) as usize;
        }
    }
}

/// The fields are all there, in range, and fit the cartridge.
pub open spec fn nes_evrom_state_fits(cart: Cartridge, rest: Seq<u8>) -> bool {
    &&& rest.len() >= 2067
    &&& mirror_fits(rest.skip(2048))
    &&& word_fits(rest.skip(2049), 7)
    &&& word_fits(rest.skip(2057), 0xF000)
    &&& byte_fits(rest.skip(2066), 3)
}

impl Mapper for MapperNesEvtRom {
    open spec fn wf(&self) -> bool {
        &&& 0 < self.cart.prg_rom@.len() <= 0x400000
        &&& 0 < self.cart.chr_rom@.len() <= 0x400000
        &&& self.mirror_mode.is_supported()
        &&& self.prg_bank <= 7
        &&& self.chr_bank <= 0xF000
        &&& self.prg_mode <= 3
    }

    open spec fn accepts(&self, cart: &Cartridge) -> bool {
        0 < cart.prg_rom@.len() <= 0x400000 && 0 < cart.chr_rom@.len() <= 0x400000
    }

    open spec fn saved_bytes(&self) -> Seq<u8> {
        self.vram@ + seq![mirror_tag(self.mirror_mode)] + usize_bytes(self.prg_bank) + usize_bytes(self.chr_bank)
            + seq![self.reg] + seq![self.prg_mode]
    }

    open spec fn loaded_bytes(&self) -> Seq<u8> {
        self.saved_bytes()
    }

    open spec fn id(&self) -> u8 {
        105
    }

    open spec fn peek_value(&self, addr: u16) -> u8 {
        self.read_value(addr)
    }

    /// The board after a read of `addr`.
    open spec fn after_read(&self, addr: u16) -> Self {
        *self
    }

    fn peek(&mut self, addr: u16) -> (r: u8)
        ensures
            r == old(self).read_value(addr),
            *final(self) == *old(self),
    {
        match addr {
            0x0000..=0x1FFF => {
                let len = self.cart.chr_rom.len();
                if self.reg & 0x10 != 0 {
                    let location = self.chr_bank + (addr & 0x0FFF) as usize;
                    self.cart.chr_rom[location % len]
                } else {
                    let bank = ((addr & 0x1C00) >> 10) as usize;
                    let offset = (addr & 0x03FF) as usize;
                    let location = (bank * 0x400) + offset;
                    proof { lemma_addr_fields(addr); }
                    self.cart.chr_rom[location % len]
                }
            },
            0x2000..=0x3EFF => self.vram[translate_vram(self.mirror_mode, addr)],
            0x8000..=0xFFFF => {
                let len = self.cart.prg_rom.len();
                let offset = (addr - 0x8000) as usize;
                let pb = self.prg_bank;
                proof { lemma_and_bounds(); }
                if self.prg_mode <= 1 {
                    let bank = (self.prg_bank & 0xFE) * 0x4000;
                    self.cart.prg_rom[(bank + offset) % len]
                } else if self.prg_mode == 2 {
                    let bank = (self.prg_bank & 0x06) * 0x4000;
                    self.cart.prg_rom[(bank + offset) % len]
                } else {
                    let bank = (self.prg_bank & 0x07) * 0x2000;
                    self.cart.prg_rom[(bank + offset) % len]
                }
            },
            _ => 0,
        }
    }

    /// What a write of `val` to `addr` leaves: the registers, banks and
    /// memories as this board's `poke` sets them.
    open spec fn written(&self, addr: u16, val: u8, after: Self) -> bool {
        &&& after.cart.prg_rom == self.cart.prg_rom
        &&& after.mirror_mode == self.mirror_mode
        &&& after.vram@ == (if 0x2000 <= addr <= 0x3EFF {
                self.vram@.update(vram_index(self.mirror_mode, addr), val)
            } else {
                self.vram@
            })
        &&& addr >= 0x8000 && val & 0x80 != 0 ==> after.reg == 0x0C && after.prg_mode == 3
        &&& addr >= 0x8000 && val & 0x80 == 0 ==> after.reg == (self.reg >> 1) | ((val & 1) << 4)
    }

    /// Pattern writes reach character memory only in character mode and
    /// within its size.  A write to ROM space with bit 7 set resets the
    /// serial register; otherwise its bit 0 is shifted in, and the register
    /// takes effect once its start bit has shifted out.
    fn poke(&mut self, addr: u16, val: u8)
        ensures
            final(self).cart.prg_rom == old(self).cart.prg_rom,
            final(self).mirror_mode == old(self).mirror_mode,
            final(self).vram@ == (if 0x2000 <= addr <= 0x3EFF {
                old(self).vram@.update(vram_index(old(self).mirror_mode, addr), val)
            } else {
                old(self).vram@
            }),
            addr >= 0x8000 && val & 0x80 != 0 ==> final(self).reg == 0x0C && final(self).prg_mode == 3,
            addr >= 0x8000 && val & 0x80 == 0 ==> final(self).reg == (old(self).reg >> 1) | ((val & 1) << 4),
    {
        match addr {
            0x0000..=0x1FFF => {
                if self.reg & 0x10 != 0 {
                    let location = self.chr_bank + (addr & 0x0FFF) as usize;
                    if location < self.cart.chr_rom.len() {
                        self.cart.chr_rom.set(location, val);
                    }
                }
            },
            0x2000..=0x3EFF => {
                let i = translate_vram(self.mirror_mode, addr);
                self.vram[i] = val;
            },
            0x8000..=0xFFFF => {
                if val & 0x80 != 0 {
                    self.reg = 0x0C;
                    self.prg_mode = 3;
                } else {
                    let shift = self.reg & 0x01;
                    self.reg = (self.reg >> 1) | ((val & 0x01) << 4);
                    if shift != 0 {
                        self.recalc_banks();
                    }
                }
            },
            _ => {},
        }
    }

    open spec fn rom_offset(&self, addr: u16) -> Option<u32> {
        None
    }

    /// No CPU address reads program ROM at a fixed offset here.
    fn get_prg_rom_offset(&self, addr: u16) -> (r: Option<u32>) {
        None
    }

    open spec fn sram(&self) -> Option<Seq<u8>> {
        None
    }

    fn get_sram(&self) -> (r: Option<Vec<u8>>) {
        None
    }

    fn get_id(&self) -> (r: u8) {
        Self::ID
    }

    /// What putting `cartridge` in leaves: the board's registers as
    /// `update_cartridge` keeps them and its offsets recomputed.
    open spec fn cart_updated(&self, cartridge: Cartridge, after: Self) -> bool {
        &&& after.cart == cartridge
        &&& after.prg_bank == self.prg_bank
        &&& after.chr_bank == self.chr_bank
        &&& after.reg == self.reg
        &&& after.prg_mode == self.prg_mode
        &&& after.vram == self.vram
        &&& after.mirror_mode == self.mirror_mode
    }

    fn update_cartridge(&mut self, cartridge: Cartridge)
        ensures
            final(self).cart == cartridge,
            final(self).prg_bank == old(self).prg_bank,
            final(self).chr_bank == old(self).chr_bank,
            final(self).reg == old(self).reg,
            final(self).prg_mode == old(self).prg_mode,
            final(self).vram == old(self).vram,
            final(self).mirror_mode == old(self).mirror_mode,
    {
        self.cart = cartridge;
    }

    fn write_state_to(&self, writer: &mut Vec<u8>) {
        self.vram.write(writer);
        self.mirror_mode.write(writer);
        self.prg_bank.write(writer);
        self.chr_bank.write(writer);
        self.reg.write(writer);
        self.prg_mode.write(writer);
        assert(writer@ =~= old(writer)@ + self.saved_bytes());
    }

    open spec fn state_fits(&self, rest: Seq<u8>) -> bool {
        nes_evrom_state_fits(self.cart, rest)
    }

    /// Banks and modes that the register cannot produce are refused.
    fn read_state_from(&mut self, reader: &mut StateReader) -> (res: Result<(), StateError>) {
        let ghost r0 = reader.rest();
        let vram = read_vram(reader)?;
        assert(reader.rest() =~= r0.skip(2048));
        let mirror_mode = read_supported_mirror(reader)?;
        assert(reader.rest() =~= r0.skip(2049));
        let prg_bank = read_usize_at_most(reader, 7)?;
        assert(reader.rest() =~= r0.skip(2057));
        let chr_bank = read_usize_at_most(reader, 0xF000)?;
        assert(reader.rest() =~= r0.skip(2065));
        let reg = read_u8_at_most(reader, 0xFF)?;
        assert(reader.rest() =~= r0.skip(2066));
        let prg_mode = read_u8_at_most(reader, 3)?;
        self.vram = vram;
        self.mirror_mode = mirror_mode;
        self.prg_bank = prg_bank;
        self.chr_bank = chr_bank;
        self.reg = reg;
        self.prg_mode = prg_mode;
        assert(r0.take(2067) =~= self.saved_bytes());
        Ok(())
    }
}

} // verus!
