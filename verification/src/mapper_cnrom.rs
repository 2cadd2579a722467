//! CNROM (mapper 3): 8 KiB character banks; boards with more than 32 KiB
//! of program ROM also switch the 16 KiB bank at 0x8000.
use vstd::prelude::*;
use crate::mapper::mirror_fits;
use crate::save_state::{word_fits};
use crate::bits::lemma_and_bounds;
use crate::cartridge::Cartridge;
use crate::mapper::{translate_vram, vram_index, mirror_tag, read_vram, read_supported_mirror, Mapper, MirrorMode};
use crate::mapper_nrom::{header_mirroring, mirroring_from_header};
use crate::save_state::{WriteState, StateReader, StateError, usize_bytes, read_usize_at_most};

verus! {

pub struct MapperCnrom {
    pub cart: Cartridge,
    pub vram: [u8; 2048],
    pub mirror_mode: MirrorMode,
    pub prg_bank: usize,
    pub chr_bank: usize,
    pub prg_len: usize,
    pub chr_len: usize,
    pub last_prg_offset: usize,
    /// Offset of the character bank; recomputed on a bank write or a new cartridge.
    pub chr_bank_offset: usize,
    pub num_prg_banks: usize,
    pub num_chr_banks: usize,
}

impl MapperCnrom {
    pub const ID: u8 = 3;

    pub open spec fn read_value(&self, addr: u16) -> u8 {
        if addr <= 0x1FFF {
            if self.chr_len == 0 {
                0
            } else {
                self.cart.chr_rom@[(self.chr_bank_offset + addr) % (self.chr_len as int)]
            }
        } else if 0x2000 <= addr <= 0x3EFF {
            self.vram@[vram_index(self.mirror_mode, addr)]
        } else if 0x8000 <= addr <= 0xBFFF {
            self.cart.prg_rom@[(self.prg_bank * 0x4000 + (addr & 0x3FFF)) % (self.prg_len as int)]
        } else if addr >= 0xC000 {
            self.cart.prg_rom@[self.last_prg_offset + (addr & 0x3FFF)]
        } else {
            0
        }
    }

    pub fn new(cart: Cartridge) -> (m: MapperCnrom)
        requires
            cart.prg_rom@.len() >= 0x4000,
            cart.wf(),
        ensures
            m.wf(),
            m.cart == cart,
            m.vram@ == Seq::new(2048, |i: int| 0u8),
            m.mirror_mode == header_mirroring(cart.mirror_mode),
            m.prg_bank == 0 && m.chr_bank == 0 && m.chr_bank_offset == 0,
    {
        let mirror_mode = mirroring_from_header(cart.mirror_mode);
        let prg_len = cart.prg_rom.len();
        let chr_len = cart.chr_rom.len();
        let last_prg_offset = prg_len.saturating_sub(0x4000);
        let num_prg_banks = prg_len / 0x4000;
        let num_chr_banks = chr_len / 0x2000;
        let m = MapperCnrom {
            cart,
            vram: [0; 2048],
            mirror_mode,
            prg_bank: 0,
            chr_bank: 0,
            prg_len,
            chr_len,
            last_prg_offset,
            chr_bank_offset: 0,
            num_prg_banks,
            num_chr_banks,
        };
        assert(m.vram@ =~= Seq::new(2048, |i: int| 0u8));
        m
    }
}

/// The last 16 KiB of program ROM is fixed at 0xC000-0xFFFF.
pub proof fn lemma_cnrom_last_bank_fixed(m: MapperCnrom, addr: u16)
    requires
        m.wf(),
        addr >= 0xC000,
    ensures
        m.peek_value(addr) == m.cart.prg_rom@[m.cart.prg_rom@.len() - 0x4000 + (addr & 0x3FFF)],
{
}

/// A write to 0x8000-0xFFFF selects, modulo the bank counts, the 16 KiB
/// program bank at 0x8000-0xBFFF and the 8 KiB character bank.
pub proof fn lemma_cnrom_bank_switch(m: MapperCnrom, addr: u16, val: u8, after: MapperCnrom, a: u16)
    requires
        m.wf(),
        addr >= 0x8000,
        m.written(addr, val, after),
    ensures
        0x8000 <= a <= 0xBFFF ==> after.peek_value(a) == m.cart.prg_rom@[
            ((val as int % ((m.cart.prg_rom@.len() / 0x4000) as int)) * 0x4000 + (a & 0x3FFF))
                % (m.cart.prg_rom@.len() as int)],
        a <= 0x1FFF && m.cart.chr_rom@.len() >= 0x2000 ==> after.peek_value(a) == m.cart.chr_rom@[
            ((val as int % ((m.cart.chr_rom@.len() / 0x2000) as int)) * 0x2000 + a) % (m.cart.chr_rom@.len() as int)],
{
}

/// The fields are all there, in range, and fit the cartridge.
pub open spec fn cnrom_state_fits(cart: Cartridge, rest: Seq<u8>) -> bool {
    &&& rest.len() >= 2065
    &&& mirror_fits(rest.skip(2048))
    &&& word_fits(rest.skip(2049), 0xFF)
    &&& word_fits(rest.skip(2057), 0xFF)
}

impl Mapper for MapperCnrom {
    open spec fn wf(&self) -> bool {
        &&& self.prg_len == self.cart.prg_rom@.len()
        &&& 0x4000 <= self.prg_len <= 0x400000
        &&& self.chr_len == self.cart.chr_rom@.len() <= 0x400000
        &&& self.last_prg_offset == self.prg_len - 0x4000
        &&& self.num_prg_banks == self.prg_len / 0x4000
        &&& self.num_chr_banks == self.chr_len / 0x2000
        &&& self.mirror_mode.is_supported()
        &&& self.prg_bank <= 0xFF
        &&& self.chr_bank <= 0xFF
        &&& self.chr_bank_offset <= 0xFF * 0x2000
    }

    open spec fn accepts(&self, cart: &Cartridge) -> bool {
        0x4000 <= cart.prg_rom@.len() <= 0x400000 && cart.chr_rom@.len() <= 0x400000
    }

    open spec fn saved_bytes(&self) -> Seq<u8> {
        self.vram@ + seq![mirror_tag(self.mirror_mode)] + usize_bytes(self.prg_bank) + usize_bytes(self.chr_bank)
    }

    open spec fn loaded_bytes(&self) -> Seq<u8> {
        self.saved_bytes()
    }

    open spec fn id(&self) -> u8 {
        3
    }

    open spec fn peek_value(&self, addr: u16) -> u8 {
        self.read_value(addr)
    }

    /// The board after a read of `addr`.
    open spec fn after_read(&self, addr: u16) -> Self {
        *self
    }

    fn peek(&mut self, addr: u16) -> (r: u8)
        ensures
            r == old(self).read_value(addr),
            *final(self) == *old(self),
            addr >= 0xC000 ==> r == old(self).cart.prg_rom@[old(self).cart.prg_rom@.len() - 0x4000 + (addr & 0x3FFF)],
    {
        match addr {
            0x0000..=0x1FFF => {
                if self.chr_len == 0 {
                    return 0;
                }
                self.cart.chr_rom[(self.chr_bank_offset + (addr as usize)) % self.chr_len]
            },
            0x2000..=0x3EFF => self.vram[translate_vram(self.mirror_mode, addr)],
            0x8000..=0xBFFF => {
                proof { lemma_and_bounds(); }
                let bank = self.prg_bank * 0x4000;
                self.cart.prg_rom[(bank + (addr & 0x3FFF) as usize) % self.prg_len]
            },
            0xC000..=0xFFFF => {
                proof { lemma_and_bounds(); }
                self.cart.prg_rom[self.last_prg_offset + (addr & 0x3FFF) as usize]
            },
            _ => 0,
        }
    }

    /// What a write of `val` to `addr` leaves: the registers, banks and
    /// memories as this board's `poke` sets them.
    open spec fn written(&self, addr: u16, val: u8, after: Self) -> bool {
        &&& after.cart.chr_rom@ == (if addr <= 0x1FFF && self.chr_len > 0 {
                self.cart.chr_rom@.update(
                    (self.chr_bank_offset + addr) % (self.chr_len as int), val)
            } else {
                self.cart.chr_rom@
            })
        &&& after.vram@ == (if 0x2000 <= addr <= 0x3EFF {
                self.vram@.update(vram_index(self.mirror_mode, addr), val)
            } else {
                self.vram@
            })
        &&& after.cart.prg_rom == self.cart.prg_rom
        &&& after.mirror_mode == self.mirror_mode
        &&& after.prg_len == self.prg_len && after.chr_len == self.chr_len
        &&& after.prg_bank == (if addr >= 0x8000 {
                val as usize % self.num_prg_banks
            } else {
                self.prg_bank
            })
        &&& addr >= 0x8000 && self.num_chr_banks > 0 ==> after.chr_bank
                == val as usize % self.num_chr_banks
                && after.chr_bank_offset == after.chr_bank * 0x2000
        &&& !(addr >= 0x8000 && self.num_chr_banks > 0) ==> after.chr_bank == self.chr_bank
                && after.chr_bank_offset == self.chr_bank_offset
    }

    /// A write to ROM space selects both the program and the character bank.
    fn poke(&mut self, addr: u16, val: u8)
        ensures
            final(self).cart.chr_rom@ == (if addr <= 0x1FFF && old(self).chr_len > 0 {
                old(self).cart.chr_rom@.update(
                    (old(self).chr_bank_offset + addr) % (old(self).chr_len as int), val)
            } else {
                old(self).cart.chr_rom@
            }),
            final(self).vram@ == (if 0x2000 <= addr <= 0x3EFF {
                old(self).vram@.update(vram_index(old(self).mirror_mode, addr), val)
            } else {
                old(self).vram@
            }),
            final(self).cart.prg_rom == old(self).cart.prg_rom,
            final(self).mirror_mode == old(self).mirror_mode,
            final(self).prg_len == old(self).prg_len && final(self).chr_len == old(self).chr_len,
            final(self).prg_bank == (if addr >= 0x8000 {
                val as usize % old(self).num_prg_banks
            } else {
                old(self).prg_bank
            }),
            addr >= 0x8000 && old(self).num_chr_banks > 0 ==> final(self).chr_bank
                == val as usize % old(self).num_chr_banks
                && final(self).chr_bank_offset == final(self).chr_bank * 0x2000,
            !(addr >= 0x8000 && old(self).num_chr_banks > 0) ==> final(self).chr_bank == old(self).chr_bank
                && final(self).chr_bank_offset == old(self).chr_bank_offset,
    {
        match addr {
            0x0000..=0x1FFF => {
                if self.chr_len > 0 {
                    let idx = (self.chr_bank_offset + (addr as usize)) % self.chr_len;
                    self.cart.chr_rom.set(idx, val);
                }
            },
            0x2000..=0x3EFF => {
                let i = translate_vram(self.mirror_mode, addr);
                self.vram[i] = val;
            },
            0x8000..=0xFFFF => {
                let v = val as usize;
                let n = self.num_prg_banks;
                assert(v % n <= v) by (nonlinear_arith) requires n > 0;
                self.prg_bank = v % n;
                if self.num_chr_banks > 0 {
                    let c = self.num_chr_banks;
                    assert(v % c <= v) by (nonlinear_arith) requires c > 0;
                    self.chr_bank = v % c;
                    self.chr_bank_offset = self.chr_bank * 0x2000;
                }
            },
            _ => {},
        }
    }

    open spec fn sram(&self) -> Option<Seq<u8>> {
        None
    }

    fn get_sram(&self) -> (r: Option<Vec<u8>>) {
        None
    }

    fn get_id(&self) -> (r: u8) {
        Self::ID
    }

    /// What putting `cartridge` in leaves: the board's registers as
    /// `update_cartridge` keeps them and its offsets recomputed.
    open spec fn cart_updated(&self, cartridge: Cartridge, after: Self) -> bool {
        &&& after.cart == cartridge
        &&& after.prg_bank == self.prg_bank
        &&& after.chr_bank == self.chr_bank
        &&& after.chr_bank_offset == self.chr_bank * 0x2000
        &&& after.vram == self.vram
        &&& after.mirror_mode == self.mirror_mode
    }

    fn update_cartridge(&mut self, cartridge: Cartridge)
        ensures
            final(self).cart == cartridge,
            final(self).prg_bank == old(self).prg_bank,
            final(self).chr_bank == old(self).chr_bank,
            final(self).chr_bank_offset == old(self).chr_bank * 0x2000,
            final(self).vram == old(self).vram,
            final(self).mirror_mode == old(self).mirror_mode,
    {
        self.prg_len = cartridge.prg_rom.len();
        self.chr_len = cartridge.chr_rom.len();
        self.last_prg_offset = self.prg_len.saturating_sub(0x4000);
        self.num_prg_banks = self.prg_len / 0x4000;
        self.num_chr_banks = self.chr_len / 0x2000;
        self.chr_bank_offset = self.chr_bank * 0x2000;
        self.cart = cartridge;
    }

    open spec fn rom_offset(&self, addr: u16) -> Option<u32> {
        (if 0x8000 <= addr <= 0xBFFF {
            Some(((self.prg_bank * 0x4000 + (addr & 0x3FFF)) % (self.prg_len as int)) as u32)
        } else if addr >= 0xC000 {
            Some((self.last_prg_offset + (addr & 0x3FFF)) as u32)
        } else {
            None::<u32>
        })
    }

    fn get_prg_rom_offset(&self, addr: u16) -> (r: Option<u32>)
        ensures
            r == self.rom_offset(addr),
    {
        match addr {
            0x8000..=0xBFFF => {
                proof { lemma_and_bounds(); }
                let bank = self.prg_bank * 0x4000;
                Some(((bank + (addr & 0x3FFF) as usize) % self.prg_len) as u32)
            },
            0xC000..=0xFFFF => {
                proof { lemma_and_bounds(); }
                Some((self.last_prg_offset + (addr & 0x3FFF) as usize) as u32)
            },
            _ => None,
        }
    }

    fn write_state_to(&self, writer: &mut Vec<u8>) {
        self.vram.write(writer);
        self.mirror_mode.write(writer);
        self.prg_bank.write(writer);
        self.chr_bank.write(writer);
        assert(writer@ =~= old(writer)@ + self.saved_bytes());
    }

    open spec fn state_fits(&self, rest: Seq<u8>) -> bool {
        cnrom_state_fits(self.cart, rest)
    }

    /// Bank numbers above 255 are refused.  The character bank offset keeps
    /// its value until the next bank write, as the board's own register does.
    fn read_state_from(&mut self, reader: &mut StateReader) -> (res: Result<(), StateError>) {
        let ghost r0 = reader.rest();
        let vram = read_vram(reader)?;
        assert(reader.rest() =~= r0.skip(2048));
        let mirror_mode = read_supported_mirror(reader)?;
        assert(reader.rest() =~= r0.skip(2049));
        let prg_bank = read_usize_at_most(reader, 0xFF)?;
        assert(reader.rest() =~= r0.skip(2057));
        let chr_bank = read_usize_at_most(reader, 0xFF)?;
        self.vram = vram;
        self.mirror_mode = mirror_mode;
        self.prg_bank = prg_bank;
        self.chr_bank = chr_bank;
        assert(r0.take(2065) =~= self.saved_bytes());
        Ok(())
    }
}

} // verus!
