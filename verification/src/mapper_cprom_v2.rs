//! The second CPROM variant (mapper 15 here): the last 32 KiB of program
//! ROM fixed at 0x8000, 8 KiB character banks selected modulo the bank
//! count.
use vstd::prelude::*;
use crate::mapper::mirror_fits;
use crate::save_state::{word_fits};
use crate::cartridge::Cartridge;
use crate::mapper::{translate_vram, vram_index, mirror_tag, read_vram, read_supported_mirror, Mapper, MirrorMode};
use crate::mapper_nrom::{header_mirroring, mirroring_from_header};
use crate::save_state::{WriteState, StateReader, StateError, usize_bytes, read_usize_at_most};

verus! {

pub struct MapperCpromV2 {
    pub cart: Cartridge,
    pub vram: [u8; 2048],
    pub mirror_mode: MirrorMode,
    pub chr_bank: usize,
    pub chr_len: usize,
    pub last_prg_offset: usize,
}

impl MapperCpromV2 {
    pub const ID: u8 = 15;

    pub open spec fn chr_index(&self, addr: u16) -> int {
        (self.chr_bank * 0x2000 + addr) % (self.chr_len as int)
    }

    pub open spec fn read_value(&self, addr: u16) -> u8 {
        if addr <= 0x1FFF {
            if self.chr_len == 0 { 0 } else { self.cart.chr_rom@[self.chr_index(addr)] }
        } else if 0x2000 <= addr <= 0x3EFF {
            self.vram@[vram_index(self.mirror_mode, addr)]
        } else if addr >= 0x8000 {
            self.cart.prg_rom@[self.last_prg_offset + (addr - 0x8000)]
        } else {
            0
        }
    }

    pub fn new(cart: Cartridge) -> (m: MapperCpromV2)
        requires
            cart.wf(),
            cart.prg_rom@.len() >= 0x8000,
        ensures
            m.wf(),
            m.cart == cart,
            m.vram@ == Seq::new(2048, |i: int| 0u8),
            m.mirror_mode == header_mirroring(cart.mirror_mode),
            m.chr_bank == 0,
            m.last_prg_offset == cart.prg_rom@.len() - 0x8000,
    {
        let mirror_mode = mirroring_from_header(cart.mirror_mode);
        let chr_len = cart.chr_rom.len();
        let last_prg_offset = cart.prg_rom.len() - 0x8000;
        let m = MapperCpromV2 { cart, vram: [0; 2048], mirror_mode, chr_bank: 0, chr_len, last_prg_offset };
        assert(m.vram@ =~= Seq::new(2048, |i: int| 0u8));
        m
    }
}

/// The last 32 KiB of program ROM is fixed at 0x8000-0xFFFF.
pub proof fn lemma_cprom_v2_last_bank_fixed(m: MapperCpromV2, addr: u16)
    requires
        m.wf(),
        addr >= 0x8000,
    ensures
        m.peek_value(addr) == m.cart.prg_rom@[m.cart.prg_rom@.len() - 0x8000 + (addr - 0x8000)],
{
}

/// The fields are all there, in range, and fit the cartridge.
pub open spec fn cprom_v2_state_fits(cart: Cartridge, rest: Seq<u8>) -> bool {
    &&& rest.len() >= 2057
    &&& mirror_fits(rest.skip(2048))
    &&& word_fits(rest.skip(2049), 0xFF)
}

impl Mapper for MapperCpromV2 {
    open spec fn wf(&self) -> bool {
        &&& 0x8000 <= self.cart.prg_rom@.len() <= 0x400000
        &&& self.chr_len == self.cart.chr_rom@.len() <= 0x400000
        &&& self.last_prg_offset == self.cart.prg_rom@.len() - 0x8000
        &&& self.mirror_mode.is_supported()
        &&& self.chr_bank <= 0xFF
    }

    open spec fn accepts(&self, cart: &Cartridge) -> bool {
        0x8000 <= cart.prg_rom@.len() <= 0x400000 && cart.chr_rom@.len() <= 0x400000
    }

    open spec fn saved_bytes(&self) -> Seq<u8> {
        self.vram@ + seq![mirror_tag(self.mirror_mode)] + usize_bytes(self.chr_bank)
    }

    open spec fn loaded_bytes(&self) -> Seq<u8> {
        self.saved_bytes()
    }

    open spec fn id(&self) -> u8 {
        15
    }

    open spec fn peek_value(&self, addr: u16) -> u8 {
        self.read_value(addr)
    }

    /// The board after a read of `addr`.
    open spec fn after_read(&self, addr: u16) -> Self {
        *self
    }

    fn peek(&mut self, addr: u16) -> (r: u8)
        ensures
            r == old(self).read_value(addr),
            *final(self) == *old(self),
            addr >= 0x8000 ==> r == old(self).cart.prg_rom@[old(self).cart.prg_rom@.len() - 0x8000 + (addr - 0x8000)],
    {
        match addr {
            0x0000..=0x1FFF => {
                let bank = self.chr_bank * 0x2000;
                if self.chr_len == 0 {
                    return 0;
                }
                self.cart.chr_rom[(bank + (addr as usize)) % self.chr_len]
            },
            0x2000..=0x3EFF => self.vram[translate_vram(self.mirror_mode, addr)],
            0x8000..=0xFFFF => self.cart.prg_rom[self.last_prg_offset + (addr as usize - 0x8000)],
            _ => 0,
        }
    }

    /// What a write of `val` to `addr` leaves: the registers, banks and
    /// memories as this board's `poke` sets them.
    open spec fn written(&self, addr: u16, val: u8, after: Self) -> bool {
        &&& after.cart.chr_rom@ == (if addr <= 0x1FFF && self.chr_len > 0 {
                self.cart.chr_rom@.update(self.chr_index(addr), val)
            } else {
                self.cart.chr_rom@
            })
        &&& after.vram@ == (if 0x2000 <= addr <= 0x3EFF {
                self.vram@.update(vram_index(self.mirror_mode, addr), val)
            } else {
                self.vram@
            })
        &&& after.cart.prg_rom == self.cart.prg_rom
        &&& after.mirror_mode == self.mirror_mode
        &&& after.chr_bank == (if addr >= 0x8000 && self.chr_len / 0x2000 > 0 {
                (val as usize % (self.chr_len / 0x2000)) as usize
            } else {
                self.chr_bank
            })
    }

    /// A write to ROM space selects the character bank, modulo the bank count.
    fn poke(&mut self, addr: u16, val: u8)
        ensures
            final(self).cart.chr_rom@ == (if addr <= 0x1FFF && old(self).chr_len > 0 {
                old(self).cart.chr_rom@.update(old(self).chr_index(addr), val)
            } else {
                old(self).cart.chr_rom@
            }),
            final(self).vram@ == (if 0x2000 <= addr <= 0x3EFF {
                old(self).vram@.update(vram_index(old(self).mirror_mode, addr), val)
            } else {
                old(self).vram@
            }),
            final(self).cart.prg_rom == old(self).cart.prg_rom,
            final(self).mirror_mode == old(self).mirror_mode,
            final(self).chr_bank == (if addr >= 0x8000 && old(self).chr_len / 0x2000 > 0 {
                (val as usize % (old(self).chr_len / 0x2000)) as usize
            } else {
                old(self).chr_bank
            }),
    {
        match addr {
            0x0000..=0x1FFF => {
                let bank = self.chr_bank * 0x2000;
                if self.chr_len > 0 {
                    self.cart.chr_rom.set((bank + (addr as usize)) % self.chr_len, val);
                }
            },
            0x2000..=0x3EFF => {
                let i = translate_vram(self.mirror_mode, addr);
                self.vram[i] = val;
            },
            0x8000..=0xFFFF => {
                let num_chr_banks = self.chr_len / 0x2000;
                if num_chr_banks > 0 {
                    let v = val as usize;
                    assert(v % num_chr_banks <= v) by (nonlinear_arith) requires num_chr_banks > 0;
                    self.chr_bank = v % num_chr_banks;
                }
            },
            _ => {},
        }
    }

    open spec fn sram(&self) -> Option<Seq<u8>> {
        None
    }

    fn get_sram(&self) -> (r: Option<Vec<u8>>) {
        None
    }

    fn get_id(&self) -> (r: u8) {
        Self::ID
    }

    /// What putting `cartridge` in leaves: the board's registers as
    /// `update_cartridge` keeps them and its offsets recomputed.
    open spec fn cart_updated(&self, cartridge: Cartridge, after: Self) -> bool {
        &&& after.cart == cartridge
        &&& after.chr_bank == self.chr_bank
        &&& after.vram == self.vram
        &&& after.mirror_mode == self.mirror_mode
    }

    fn update_cartridge(&mut self, cartridge: Cartridge)
        ensures
            final(self).cart == cartridge,
            final(self).chr_bank == old(self).chr_bank,
            final(self).vram == old(self).vram,
            final(self).mirror_mode == old(self).mirror_mode,
    {
        self.chr_len = cartridge.chr_rom.len();
        self.last_prg_offset = cartridge.prg_rom.len() - 0x8000;
        self.cart = cartridge;
    }

    open spec fn rom_offset(&self, addr: u16) -> Option<u32> {
        (if addr >= 0x8000 { Some((self.last_prg_offset + (addr - 0x8000)) as u32) } else { None::<u32> })
    }

    fn get_prg_rom_offset(&self, addr: u16) -> (r: Option<u32>)
        ensures
            r == self.rom_offset(addr),
    {
        match addr {
            0x8000..=0xFFFF => Some((self.last_prg_offset + (addr as usize - 0x8000)) as u32),
            _ => None,
        }
    }

    fn write_state_to(&self, writer: &mut Vec<u8>) {
        self.vram.write(writer);
        self.mirror_mode.write(writer);
        self.chr_bank.write(writer);
        assert(writer@ =~= old(writer)@ + self.saved_bytes());
    }

    open spec fn state_fits(&self, rest: Seq<u8>) -> bool {
        cprom_v2_state_fits(self.cart, rest)
    }

    /// A bank number above 255 is refused.
    fn read_state_from(&mut self, reader: &mut StateReader) -> (res: Result<(), StateError>) {
        let ghost r0 = reader.rest();
        let vram = read_vram(reader)?;
        assert(reader.rest() =~= r0.skip(2048));
        let mirror_mode = read_supported_mirror(reader)?;
        assert(reader.rest() =~= r0.skip(2049));
        let chr_bank = read_usize_at_most(reader, 0xFF)?;
        self.vram = vram;
        self.mirror_mode = mirror_mode;
        self.chr_bank = chr_bank;
        assert(r0.take(2057) =~= self.saved_bytes());
        Ok(())
    }
}

} // verus!
