//! RAMBO-1 (mapper 64): eight 1 KiB character banks, four 8 KiB program
//! banks, and an interrupt latch.
use vstd::prelude::*;
use crate::mapper::mirror_fits;
use crate::save_state::{flag_fits};
use crate::bits::lemma_and_bounds;
use crate::cartridge::Cartridge;
use crate::mapper::{translate_vram, vram_index, mirror_tag, read_vram, read_supported_mirror, Mapper, MirrorMode};
use crate::mapper_nrom::{header_mirroring, mirroring_from_header};
use crate::save_state::{
    WriteState, ReadState, StateReader, StateError, bool_bytes, u16_bytes, read_bool_strict, read_u16_le,
};

verus! {

pub struct MapperRambo1 {
    pub cart: Cartridge,
    pub vram: [u8; 2048],
    pub mirror_mode: MirrorMode,
    pub chr_bank: [u8; 8],
    pub prg_bank: [u8; 4],
    pub irq_enabled: bool,
    pub irq_pending: bool,
    pub irq_counter: u16,
    pub irq_latch: u16,
    pub sram_enabled: bool,
}

/// The initial program banks: 0, 1, the second-last and the last bank,
/// each as far as the ROM has that many banks, kept to a byte.
pub open spec fn rambo_initial_prg(num_prg: int) -> Seq<u8> {
    seq![
        0u8,
        if num_prg > 1 { 1u8 } else { 0u8 },
        if num_prg > 2 { (num_prg - 2) as u8 } else { 0u8 },
        if num_prg > 0 { (num_prg - 1) as u8 } else { 0u8 },
    ]
}

/// The program banks after a write of `val` to `addr`.
pub open spec fn rambo_prg_written(banks: Seq<u8>, addr: u16, val: u8) -> Seq<u8> {
    if 0x8000 <= addr <= 0xBFFF && addr & 0x1000 != 0 && addr & 3 == 0 {
        banks.update(2, val)
    } else if 0x8000 <= addr <= 0xBFFF && addr & 0x1000 != 0 && addr & 3 == 1 {
        banks.update(3, val)
    } else {
        banks
    }
}

/// The character banks after a write of `val` to `addr`.
pub open spec fn rambo_chr_written(banks: Seq<u8>, addr: u16, val: u8) -> Seq<u8> {
    if 0x8000 <= addr <= 0xBFFF {
        if addr & 0x1000 != 0 {
            if addr & 3 == 2 {
                banks.update(4, val)
            } else if addr & 3 == 3 {
                banks.update(5, val)
            } else {
                banks
            }
        } else {
            banks.update((addr & 3) as int, val)
        }
    } else {
        banks
    }
}

impl MapperRambo1 {
    pub const ID: u8 = 64;

    pub open spec fn chr_index(&self, addr: u16) -> int {
        (self.chr_bank[(addr / 0x400) as int] * 0x400 + (addr & 0x3FF)) % (self.cart.chr_rom@.len() as int)
    }

    pub open spec fn prg_index(&self, addr: u16) -> int {
        (self.prg_bank[((addr - 0x8000) / 0x2000) as int] * 0x2000 + (addr & 0x1FFF))
            % (self.cart.prg_rom@.len() as int)
    }

    /// Without character ROM pattern reads give 0.
    pub open spec fn read_value(&self, addr: u16) -> u8 {
        if addr <= 0x1FFF {
            if self.cart.chr_rom@.len() == 0 { 0 } else { self.cart.chr_rom@[self.chr_index(addr)] }
        } else if 0x2000 <= addr <= 0x3EFF {
            self.vram@[vram_index(self.mirror_mode, addr)]
        } else if addr >= 0x8000 {
            self.cart.prg_rom@[self.prg_index(addr)]
        } else {
            0
        }
    }

    pub fn new(cart: Cartridge) -> (m: MapperRambo1)
        requires
            cart.wf(),
            cart.prg_rom@.len() > 0,
        ensures
            m.wf(),
            m.cart == cart,
            m.vram@ == Seq::new(2048, |i: int| 0u8),
            m.mirror_mode == header_mirroring(cart.mirror_mode),
            m.chr_bank@ == Seq::new(8, |i: int| 0u8),
            m.prg_bank@ == rambo_initial_prg((cart.prg_rom@.len() / 0x2000) as int),
            !m.irq_enabled && !m.irq_pending && !m.sram_enabled,
            m.irq_counter == 0 && m.irq_latch == 0,
    {
        let mirror_mode = mirroring_from_header(cart.mirror_mode);
        let num_prg = cart.prg_rom.len() / 0x2000;
        let mut m = MapperRambo1 {
            cart,
            vram: [0; 2048],
            mirror_mode,
            chr_bank: [0; 8],
            prg_bank: [0; 4],
            irq_enabled: false,
            irq_pending: false,
            irq_counter: 0,
            irq_latch: 0,
            sram_enabled: false,
        };
        m.prg_bank[0] = 0;
        if num_prg > 1 {
            m.prg_bank[1] = 1;
        } else {
            m.prg_bank[1] = 0;
        }
        if num_prg > 2 {
            m.prg_bank[2] = (num_prg - 2) as u8;
        } else {
            m.prg_bank[2] = 0;
        }
        if num_prg > 0 {
            m.prg_bank[3] = (num_prg - 1) as u8;
        } else {
            m.prg_bank[3] = 0;
        }
        assert(m.vram@ =~= Seq::new(2048, |i: int| 0u8));
        assert(m.chr_bank@ =~= Seq::new(8, |i: int| 0u8));
        assert(m.prg_bank@ =~= rambo_initial_prg(num_prg as int));
        m
    }
}

/// The fields are all there, in range, and fit the cartridge.
pub open spec fn rambo1_state_fits(cart: Cartridge, rest: Seq<u8>) -> bool {
    &&& rest.len() >= 2068
    &&& mirror_fits(rest.skip(2048))
    &&& flag_fits(rest.skip(2061))
    &&& flag_fits(rest.skip(2062))
    &&& flag_fits(rest.skip(2067))
}

impl Mapper for MapperRambo1 {
    open spec fn wf(&self) -> bool {
        &&& 0 < self.cart.prg_rom@.len() <= 0x400000
        &&& self.cart.chr_rom@.len() <= 0x400000
        &&& self.mirror_mode.is_supported()
    }

    open spec fn accepts(&self, cart: &Cartridge) -> bool {
        0 < cart.prg_rom@.len() <= 0x400000 && cart.chr_rom@.len() <= 0x400000
    }

    open spec fn saved_bytes(&self) -> Seq<u8> {
        self.vram@ + seq![mirror_tag(self.mirror_mode)] + self.chr_bank@ + self.prg_bank@
            + bool_bytes(self.irq_enabled) + bool_bytes(self.irq_pending) + u16_bytes(self.irq_counter)
            + u16_bytes(self.irq_latch) + bool_bytes(self.sram_enabled)
    }

    open spec fn loaded_bytes(&self) -> Seq<u8> {
        self.saved_bytes()
    }

    open spec fn id(&self) -> u8 {
        64
    }

    open spec fn peek_value(&self, addr: u16) -> u8 {
        self.read_value(addr)
    }

    /// The board after a read of `addr`.
    open spec fn after_read(&self, addr: u16) -> Self {
        *self
    }

    fn peek(&mut self, addr: u16) -> (r: u8)
        ensures
            r == old(self).read_value(addr),
            *final(self) == *old(self),
    {
        if addr <= 0x1FFF {
            let len = self.cart.chr_rom.len();
            if len == 0 {
                return 0;
            }
            let bank = self.chr_bank[(addr / 0x400) as usize] as usize;
            let offset = (addr & 0x3FF) as usize;
            proof { lemma_and_bounds(); }
            self.cart.chr_rom[(bank * 0x400 + offset) % len]
        } else if addr <= 0x3EFF {
            self.vram[translate_vram(self.mirror_mode, addr)]
        } else if addr >= 0x8000 {
            let bank = self.prg_bank[((addr - 0x8000) / 0x2000) as usize] as usize;
            let offset = (addr & 0x1FFF) as usize;
            proof { lemma_and_bounds(); }
            let len = self.cart.prg_rom.len();
            self.cart.prg_rom[(bank * 0x2000 + offset) % len]
        } else {
            0
        }
    }

    /// What a write of `val` to `addr` leaves: the registers, banks and
    /// memories as this board's `poke` sets them.
    open spec fn written(&self, addr: u16, val: u8, after: Self) -> bool {
        &&& after.cart.prg_rom == self.cart.prg_rom
        &&& after.cart.chr_rom@ == (if addr <= 0x1FFF && self.cart.chr_rom@.len() > 0 {
                self.cart.chr_rom@.update(self.chr_index(addr), val)
            } else {
                self.cart.chr_rom@
            })
        &&& after.vram@ == (if 0x2000 <= addr <= 0x3EFF {
                self.vram@.update(vram_index(self.mirror_mode, addr), val)
            } else {
                self.vram@
            })
        &&& after.mirror_mode == self.mirror_mode
        &&& after.prg_bank@ == rambo_prg_written(self.prg_bank@, addr, val)
        &&& after.chr_bank@ == rambo_chr_written(self.chr_bank@, addr, val)
        &&& after.irq_latch == (if 0xC000 <= addr <= 0xCFFF { val as u16 } else { self.irq_latch })
        &&& after.irq_counter == (if 0xD000 <= addr <= 0xDFFF { 0 } else { self.irq_counter })
        &&& after.irq_enabled == (if 0xE000 <= addr <= 0xEFFF {
                false
            } else if addr >= 0xF000 {
                true
            } else {
                self.irq_enabled
            })
        &&& after.irq_pending == (if 0xE000 <= addr <= 0xEFFF { false } else { self.irq_pending })
        &&& after.sram_enabled == self.sram_enabled
    }

    /// Pattern and nametable writes store the byte; 0x8000-0xBFFF set a
    /// bank register picked by bit 12 and the two low address bits;
    /// 0xC000 sets the interrupt latch, 0xD000 clears the counter, 0xE000
    /// disables and acknowledges the interrupt, 0xF000 enables it.
    fn poke(&mut self, addr: u16, val: u8)
        ensures
            final(self).cart.prg_rom == old(self).cart.prg_rom,
            final(self).cart.chr_rom@ == (if addr <= 0x1FFF && old(self).cart.chr_rom@.len() > 0 {
                old(self).cart.chr_rom@.update(old(self).chr_index(addr), val)
            } else {
                old(self).cart.chr_rom@
            }),
            final(self).vram@ == (if 0x2000 <= addr <= 0x3EFF {
                old(self).vram@.update(vram_index(old(self).mirror_mode, addr), val)
            } else {
                old(self).vram@
            }),
            final(self).mirror_mode == old(self).mirror_mode,
            final(self).prg_bank@ == rambo_prg_written(old(self).prg_bank@, addr, val),
            final(self).chr_bank@ == rambo_chr_written(old(self).chr_bank@, addr, val),
            final(self).irq_latch == (if 0xC000 <= addr <= 0xCFFF { val as u16 } else { old(self).irq_latch }),
            final(self).irq_counter == (if 0xD000 <= addr <= 0xDFFF { 0 } else { old(self).irq_counter }),
            final(self).irq_enabled == (if 0xE000 <= addr <= 0xEFFF {
                false
            } else if addr >= 0xF000 {
                true
            } else {
                old(self).irq_enabled
            }),
            final(self).irq_pending == (if 0xE000 <= addr <= 0xEFFF { false } else { old(self).irq_pending }),
            final(self).sram_enabled == old(self).sram_enabled,
    {
        if addr <= 0x1FFF {
            let len = self.cart.chr_rom.len();
            if len > 0 {
                let bank = self.chr_bank[(addr / 0x400) as usize] as usize;
                let offset = (addr & 0x3FF) as usize;
                proof { lemma_and_bounds(); }
                let loc = (bank * 0x400 + offset) % len;
                self.cart.chr_rom.set(loc, val);
            }
        } else if addr <= 0x3EFF {
            let i = translate_vram(self.mirror_mode, addr);
            self.vram[i] = val;
        } else if 0x8000 <= addr && addr <= 0xBFFF {
            let ghost p0 = self.prg_bank@;
            let ghost c0 = self.chr_bank@;
            let low = addr & 0x03;
            proof { lemma_and_bounds(); }
            if addr & 0x1000 != 0 {
                if low == 0 {
                    self.prg_bank[2] = val;
                } else if low == 1 {
                    self.prg_bank[3] = val;
                } else if low == 2 {
                    self.chr_bank[4] = val;
                } else {
                    self.chr_bank[5] = val;
                }
            } else {
                self.chr_bank[low as usize] = val;
            }
            assert(self.prg_bank@ =~= rambo_prg_written(p0, addr, val));
            assert(self.chr_bank@ =~= rambo_chr_written(c0, addr, val));
        } else if 0xC000 <= addr && addr <= 0xCFFF {
            self.irq_latch = val as u16;
        } else if 0xD000 <= addr && addr <= 0xDFFF {
            self.irq_counter = 0;
        } else if 0xE000 <= addr && addr <= 0xEFFF {
            self.irq_enabled = false;
            self.irq_pending = false;
        } else if addr >= 0xF000 {
            self.irq_enabled = true;
        }
    }

    fn check_irq(&self) -> (r: bool)
        ensures
            r == self.irq_pending,
    {
        self.irq_pending
    }

    open spec fn rom_offset(&self, addr: u16) -> Option<u32> {
        None
    }

    /// No CPU address reads program ROM at a fixed offset here.
    fn get_prg_rom_offset(&self, addr: u16) -> (r: Option<u32>) {
        None
    }

    open spec fn sram(&self) -> Option<Seq<u8>> {
        None
    }

    fn get_sram(&self) -> (r: Option<Vec<u8>>) {
        None
    }

    fn get_id(&self) -> (r: u8) {
        Self::ID
    }

    /// What putting `cartridge` in leaves: the board's registers as
    /// `update_cartridge` keeps them and its offsets recomputed.
    open spec fn cart_updated(&self, cartridge: Cartridge, after: Self) -> bool {
        &&& after.cart == cartridge
        &&& after.vram == self.vram
        &&& after.mirror_mode == self.mirror_mode
        &&& after.chr_bank == self.chr_bank
        &&& after.prg_bank == self.prg_bank
        &&& after.irq_enabled == self.irq_enabled
        &&& after.irq_pending == self.irq_pending
        &&& after.irq_counter == self.irq_counter
        &&& after.irq_latch == self.irq_latch
        &&& after.sram_enabled == self.sram_enabled
    }

    fn update_cartridge(&mut self, cartridge: Cartridge)
        ensures
            final(self).cart == cartridge,
            final(self).vram == old(self).vram,
            final(self).mirror_mode == old(self).mirror_mode,
            final(self).chr_bank == old(self).chr_bank,
            final(self).prg_bank == old(self).prg_bank,
            final(self).irq_enabled == old(self).irq_enabled,
            final(self).irq_pending == old(self).irq_pending,
            final(self).irq_counter == old(self).irq_counter,
            final(self).irq_latch == old(self).irq_latch,
            final(self).sram_enabled == old(self).sram_enabled,
    {
        self.cart = cartridge;
    }

    #[verifier::rlimit(30)]
    fn write_state_to(&self, writer: &mut Vec<u8>) {
        self.vram.write(writer);
        self.mirror_mode.write(writer);
        self.chr_bank.write(writer);
        self.prg_bank.write(writer);
        self.irq_enabled.write(writer);
        self.irq_pending.write(writer);
        self.irq_counter.write(writer);
        self.irq_latch.write(writer);
        self.sram_enabled.write(writer);
        assert(writer@ =~= old(writer)@ + self.saved_bytes());
    }

    open spec fn state_fits(&self, rest: Seq<u8>) -> bool {
        rambo1_state_fits(self.cart, rest)
    }

    /// Flag bytes other than 0 and 1 are refused.
    #[verifier::rlimit(30)]
    fn read_state_from(&mut self, reader: &mut StateReader) -> (res: Result<(), StateError>) {
        let ghost r0 = reader.rest();
        let vram = read_vram(reader)?;
        assert(reader.rest() =~= r0.skip(2048));
        let mirror_mode = read_supported_mirror(reader)?;
        assert(reader.rest() =~= r0.skip(2049));
        let chr_bank = <[u8; 8]>::read(reader)?;
        assert(reader.rest() =~= r0.skip(2057));
        let prg_bank = <[u8; 4]>::read(reader)?;
        assert(reader.rest() =~= r0.skip(2061));
        let irq_enabled = read_bool_strict(reader)?;
        assert(reader.rest() =~= r0.skip(2062));
        let irq_pending = read_bool_strict(reader)?;
        assert(reader.rest() =~= r0.skip(2063));
        let irq_counter = read_u16_le(reader)?;
        assert(reader.rest() =~= r0.skip(2065));
        let irq_latch = read_u16_le(reader)?;
        assert(reader.rest() =~= r0.skip(2067));
        let sram_enabled = read_bool_strict(reader)?;
        self.vram = vram;
        self.mirror_mode = mirror_mode;
        self.chr_bank = chr_bank;
        self.prg_bank = prg_bank;
        self.irq_enabled = irq_enabled;
        self.irq_pending = irq_pending;
        self.irq_counter = irq_counter;
        self.irq_latch = irq_latch;
        self.sram_enabled = sram_enabled;
        assert(r0.take(2068) =~= self.saved_bytes());
        Ok(())
    }
}

} // verus!
