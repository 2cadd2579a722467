//! Sachen's board (mapper 113 here): a 16 KiB switchable bank at 0x8000,
//! the last bank fixed at 0xC000, 8 KiB character banks, and 8 KiB of
//! battery RAM at 0x6000.
use vstd::prelude::*;
use crate::mapper::mirror_fits;
use crate::save_state::{word_fits};
use crate::bits::lemma_and_bounds;
use crate::cartridge::Cartridge;
use crate::mapper::{translate_vram, vram_index, mirror_tag, read_vram, read_supported_mirror, Mapper, MirrorMode};
use crate::mapper_nrom::{header_mirroring, mirroring_from_header};
use crate::save_state::{WriteState, ReadState, StateReader, StateError, usize_bytes, read_usize_at_most};

verus! {

pub struct MapperSachen {
    pub cart: Cartridge,
    pub ram: [u8; 8192],
    pub vram: [u8; 2048],
    pub mirror_mode: MirrorMode,
    pub prg_bank: usize,
    pub chr_bank: usize,
}

impl MapperSachen {
    pub const ID: u8 = 113;

    pub open spec fn chr_index(&self, addr: u16) -> int {
        (self.chr_bank * 0x2000 + addr) % (self.cart.chr_rom@.len() as int)
    }

    pub open spec fn read_value(&self, addr: u16) -> u8 {
        let len = self.cart.prg_rom@.len() as int;
        if addr <= 0x1FFF {
            if self.cart.chr_rom@.len() == 0 { 0 } else { self.cart.chr_rom@[self.chr_index(addr)] }
        } else if 0x2000 <= addr <= 0x3EFF {
            self.vram@[vram_index(self.mirror_mode, addr)]
        } else if 0x6000 <= addr <= 0x7FFF {
            self.ram@[(addr & 0x1FFF) as int]
        } else if 0x8000 <= addr <= 0xBFFF {
            self.cart.prg_rom@[(self.prg_bank * 0x4000 + (addr & 0x3FFF)) % len]
        } else if addr >= 0xC000 {
            self.cart.prg_rom@[len - 0x4000 + (addr & 0x3FFF)]
        } else {
            0
        }
    }

    pub fn new(cart: Cartridge) -> (m: MapperSachen)
        requires
            cart.wf(),
            cart.prg_rom@.len() >= 0x4000,
        ensures
            m.wf(),
            m.cart == cart,
            m.vram@ == Seq::new(2048, |i: int| 0u8),
            m.ram@ == Seq::new(8192, |i: int| 0u8),
            m.mirror_mode == header_mirroring(cart.mirror_mode),
            m.prg_bank == 0 && m.chr_bank == 0,
    {
        let mirror_mode = mirroring_from_header(cart.mirror_mode);
        let m = MapperSachen { cart, ram: [0; 8192], vram: [0; 2048], mirror_mode, prg_bank: 0, chr_bank: 0 };
        assert(m.vram@ =~= Seq::new(2048, |i: int| 0u8));
        assert(m.ram@ =~= Seq::new(8192, |i: int| 0u8));
        m
    }
}

/// The fields are all there, in range, and fit the cartridge.
pub open spec fn sachen_state_fits(cart: Cartridge, rest: Seq<u8>) -> bool {
    &&& rest.len() >= 10257
    &&& mirror_fits(rest.skip(10240))
    &&& word_fits(rest.skip(10241), 0xFF)
    &&& word_fits(rest.skip(10249), 0xFF)
}

impl Mapper for MapperSachen {
    open spec fn wf(&self) -> bool {
        &&& 0x4000 <= self.cart.prg_rom@.len() <= 0x400000
        &&& self.cart.chr_rom@.len() <= 0x400000
        &&& self.mirror_mode.is_supported()
        &&& self.prg_bank <= 0xFF
        &&& self.chr_bank <= 0xFF
    }

    open spec fn accepts(&self, cart: &Cartridge) -> bool {
        0x4000 <= cart.prg_rom@.len() <= 0x400000 && cart.chr_rom@.len() <= 0x400000
    }

    open spec fn saved_bytes(&self) -> Seq<u8> {
        self.ram@ + self.vram@ + seq![mirror_tag(self.mirror_mode)] + usize_bytes(self.prg_bank)
            + usize_bytes(self.chr_bank)
    }

    open spec fn loaded_bytes(&self) -> Seq<u8> {
        self.saved_bytes()
    }

    open spec fn id(&self) -> u8 {
        113
    }

    open spec fn peek_value(&self, addr: u16) -> u8 {
        self.read_value(addr)
    }

    /// The board after a read of `addr`.
    open spec fn after_read(&self, addr: u16) -> Self {
        *self
    }

    fn peek(&mut self, addr: u16) -> (r: u8)
        ensures
            r == old(self).read_value(addr),
            *final(self) == *old(self),
    {
        match addr {
            0x0000..=0x1FFF => {
                let bank = self.chr_bank * 0x2000;
                let len = self.cart.chr_rom.len();
                if len == 0 {
                    return 0;
                }
                self.cart.chr_rom[(bank + (addr as usize)) % len]
            },
            0x2000..=0x3EFF => self.vram[translate_vram(self.mirror_mode, addr)],
            0x6000..=0x7FFF => {
                proof { lemma_and_bounds(); }
                self.ram[(addr & 0x1FFF) as usize]
            },
            0x8000..=0xBFFF => {
                let bank = self.prg_bank * 0x4000;
                let len = self.cart.prg_rom.len();
                proof { lemma_and_bounds(); }
                self.cart.prg_rom[(bank + (addr & 0x3FFF) as usize) % len]
            },
            0xC000..=0xFFFF => {
                let len = self.cart.prg_rom.len();
                let bank = len - 0x4000;
                proof { lemma_and_bounds(); }
                self.cart.prg_rom[bank + (addr & 0x3FFF) as usize]
            },
            _ => 0,
        }
    }

    /// What a write of `val` to `addr` leaves: the registers, banks and
    /// memories as this board's `poke` sets them.
    open spec fn written(&self, addr: u16, val: u8, after: Self) -> bool {
        &&& after.cart.prg_rom == self.cart.prg_rom
        &&& after.mirror_mode == self.mirror_mode
        &&& 0x6000 <= addr <= 0x7FFF ==> after.ram@ == self.ram@.update((addr & 0x1FFF) as int, val)
        &&& addr >= 0x8000 ==> after.prg_bank == (val as int) % (self.cart.prg_rom@.len() as int / 0x4000)
        &&& 0x4100 <= addr <= 0x41FF ==> after.prg_bank
                == (((val >> 4) & 7) as int) % (self.cart.prg_rom@.len() as int / 0x4000)
    }

    /// Writes to 0x4100-0x41FF select the program bank (bits 4-6) and the
    /// character bank (bits 0-2); writes to ROM space select both from the
    /// whole byte.
    fn poke(&mut self, addr: u16, val: u8)
        ensures
            final(self).cart.prg_rom == old(self).cart.prg_rom,
            final(self).mirror_mode == old(self).mirror_mode,
            0x6000 <= addr <= 0x7FFF ==> final(self).ram@ == old(self).ram@.update((addr & 0x1FFF) as int, val),
            addr >= 0x8000 ==> final(self).prg_bank == (val as int) % (old(self).cart.prg_rom@.len() as int / 0x4000),
            0x4100 <= addr <= 0x41FF ==> final(self).prg_bank
                == (((val >> 4) & 7) as int) % (old(self).cart.prg_rom@.len() as int / 0x4000),
    {
        match addr {
            0x0000..=0x1FFF => {
                let bank = self.chr_bank * 0x2000;
                let len = self.cart.chr_rom.len();
                if len > 0 {
                    self.cart.chr_rom.set((bank + (addr as usize)) % len, val);
                }
            },
            0x2000..=0x3EFF => {
                let i = translate_vram(self.mirror_mode, addr);
                self.vram[i] = val;
            },
            0x4100..=0x41FF => {
                let num_prg_banks = self.cart.prg_rom.len() / 0x4000;
                let p = ((val >> 4) & 0x07) as usize;
                proof { lemma_and_bounds(); }
                assert(p % num_prg_banks <= p) by (nonlinear_arith) requires num_prg_banks > 0;
                self.prg_bank = p % num_prg_banks;
                let num_chr_banks = self.cart.chr_rom.len() / 0x2000;
                if num_chr_banks > 0 {
                    let c = (val & 0x07) as usize;
                    assert(c % num_chr_banks <= c) by (nonlinear_arith) requires num_chr_banks > 0;
                    self.chr_bank = c % num_chr_banks;
                }
            },
            0x6000..=0x7FFF => {
                proof { lemma_and_bounds(); }
                self.ram[(addr & 0x1FFF) as usize] = val;
            },
            0x8000..=0xFFFF => {
                let num_prg_banks = self.cart.prg_rom.len() / 0x4000;
                let v = val as usize;
                assert(v % num_prg_banks <= v) by (nonlinear_arith) requires num_prg_banks > 0;
                self.prg_bank = v % num_prg_banks;
                let num_chr_banks = self.cart.chr_rom.len() / 0x2000;
                if num_chr_banks > 0 {
                    assert(v % num_chr_banks <= v) by (nonlinear_arith) requires num_chr_banks > 0;
                    self.chr_bank = v % num_chr_banks;
                }
            },
            _ => {},
        }
    }

    open spec fn rom_offset(&self, addr: u16) -> Option<u32> {
        None
    }

    /// No CPU address reads program ROM at a fixed offset here.
    fn get_prg_rom_offset(&self, addr: u16) -> (r: Option<u32>) {
        None
    }

    fn get_id(&self) -> (r: u8) {
        Self::ID
    }

    /// What putting `cartridge` in leaves: the board's registers as
    /// `update_cartridge` keeps them and its offsets recomputed.
    open spec fn cart_updated(&self, cartridge: Cartridge, after: Self) -> bool {
        &&& after.cart == cartridge
        &&& after.prg_bank == self.prg_bank
        &&& after.chr_bank == self.chr_bank
        &&& after.ram == self.ram
        &&& after.vram == self.vram
        &&& after.mirror_mode == self.mirror_mode
    }

    fn update_cartridge(&mut self, cartridge: Cartridge)
        ensures
            final(self).cart == cartridge,
            final(self).prg_bank == old(self).prg_bank,
            final(self).chr_bank == old(self).chr_bank,
            final(self).ram == old(self).ram,
            final(self).vram == old(self).vram,
            final(self).mirror_mode == old(self).mirror_mode,
    {
        self.cart = cartridge;
    }

    open spec fn sram(&self) -> Option<Seq<u8>> {
        Some(self.ram@)
    }

    /// The 8 KiB of battery RAM.
    fn get_sram(&self) -> (r: Option<Vec<u8>>)
        ensures
            r matches Some(v) && v@ == self.ram@,
    {
        let mut v: Vec<u8> = Vec::with_capacity(8192);
        let mut i: usize = 0;
        while i < 8192
            invariant
                i <= 8192,
                v@ == self.ram@.take(i as int),
            decreases 8192 - i,
        {
            v.push(self.ram[i]);
            i += 1;
            assert(v@ =~= self.ram@.take(i as int));
        }
        assert(self.ram@.take(8192) =~= self.ram@);
        Some(v)
    }

    /// Loads the battery RAM from `data`, as far as both reach.
    fn set_sram(&mut self, data: &[u8])
        ensures
            forall|i: int| 0 <= i < 8192 ==> #[trigger] final(self).ram@[i]
                == (if i < data@.len() { data@[i] } else { old(self).ram@[i] }),
    {
        let n = if data.len() < 8192 { data.len() } else { 8192 };
        let mut i: usize = 0;
        while i < n
            invariant
                n <= 8192,
                n <= data@.len(),
                n == (if data@.len() < 8192 { data@.len() } else { 8192 }),
                i <= n,
                self.wf(),
                self.cart == old(self).cart,
                self.vram == old(self).vram,
                self.mirror_mode == old(self).mirror_mode,
                self.prg_bank == old(self).prg_bank,
                self.chr_bank == old(self).chr_bank,
                forall|k: int| 0 <= k < 8192 ==> #[trigger] self.ram@[k]
                    == (if k < i { data@[k] } else { old(self).ram@[k] }),
            decreases n - i,
        {
            self.ram[i] = data[i];
            i += 1;
        }
    }

    fn write_state_to(&self, writer: &mut Vec<u8>) {
        self.ram.write(writer);
        self.vram.write(writer);
        self.mirror_mode.write(writer);
        self.prg_bank.write(writer);
        self.chr_bank.write(writer);
        assert(writer@ =~= old(writer)@ + self.saved_bytes());
    }

    open spec fn state_fits(&self, rest: Seq<u8>) -> bool {
        sachen_state_fits(self.cart, rest)
    }

    /// Bank numbers above 255 are refused.
    fn read_state_from(&mut self, reader: &mut StateReader) -> (res: Result<(), StateError>) {
        let ghost r0 = reader.rest();
        let ram = <[u8; 8192]>::read(reader)?;
        assert(reader.rest() =~= r0.skip(8192));
        let vram = read_vram(reader)?;
        assert(reader.rest() =~= r0.skip(10240));
        let mirror_mode = read_supported_mirror(reader)?;
        assert(reader.rest() =~= r0.skip(10241));
        let prg_bank = read_usize_at_most(reader, 0xFF)?;
        assert(reader.rest() =~= r0.skip(10249));
        let chr_bank = read_usize_at_most(reader, 0xFF)?;
        self.ram = ram;
        self.vram = vram;
        self.mirror_mode = mirror_mode;
        self.prg_bank = prg_bank;
        self.chr_bank = chr_bank;
        assert(r0.take(10257) =~= self.saved_bytes());
        Ok(())
    }
}

} // verus!
