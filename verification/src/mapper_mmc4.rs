//! The MMC4-style board (mapper 65 here): like MMC2, one switchable 8 KiB
//! program bank and latch-selected 4 KiB character halves, plus an
//! interrupt latch.
use vstd::prelude::*;
use crate::mapper::mirror_fits;
use crate::save_state::{word_fits, flag_fits};
use crate::bits::lemma_and_bounds;
use crate::cartridge::Cartridge;
use crate::mapper::{
    translate_vram, vram_index, mirror_tag, read_vram, read_supported_mirror, lemma_bank_fits,
    lemma_mod_below, Mapper, MirrorMode,
};
use crate::mapper_mmc2::{latch_board_header_mirroring, latch_board_mirroring_from_header, sat_sub};
use crate::save_state::{
    WriteState, ReadState, StateReader, StateError, usize_bytes, bool_bytes, read_usize_at_most,
    read_bool_strict,
};

verus! {

pub struct MapperMmc4 {
    pub cart: Cartridge,
    pub ram: [u8; 8192],
    pub vram: [u8; 2048],
    pub mirror_mode: MirrorMode,
    pub prg_bank: usize,
    pub chr_bank_0_fd: usize,
    pub chr_bank_0_fe: usize,
    pub chr_bank_1_fd: usize,
    pub chr_bank_1_fe: usize,
    pub latch_0: bool,
    pub latch_1: bool,
    pub irq_enabled: bool,
    pub irq_pending: bool,
    pub irq_latch: u8,
    pub irq_counter: u8,
}

/// The mirroring that a write of `val` to 0xE000-0xEFFF selects.
pub open spec fn mmc4_mirroring(val: u8) -> MirrorMode {
    if val & 1 == 0 { MirrorMode::MirrorHorizontal } else { MirrorMode::MirrorVertical }
}

/// Latch 0 after the PPU reads pattern address `addr` (below 0x1000).
pub open spec fn mmc4_next_latch_0(latch: bool, addr: u16) -> bool {
    if addr & 0xFFF8 == 0x0FD8 { false } else if addr & 0xFFF8 == 0x0FE8 { true } else { latch }
}

/// Latch 1 after the PPU reads pattern address `addr` (0x1000 to 0x1FFF).
pub open spec fn mmc4_next_latch_1(latch: bool, addr: u16) -> bool {
    if addr & 0xFFF8 == 0x1FD8 { false } else if addr & 0xFFF8 == 0x1FE8 { true } else { latch }
}

impl MapperMmc4 {
    pub const ID: u8 = 65;

    pub open spec fn prg_banks(&self) -> int {
        (self.cart.prg_rom@.len() / 0x2000) as int
    }

    pub open spec fn chr_banks(&self) -> int {
        (self.cart.chr_rom@.len() / 0x1000) as int
    }

    pub open spec fn chr_bank_for(&self, addr: u16) -> usize {
        if addr <= 0x0FFF {
            if self.latch_0 { self.chr_bank_0_fe } else { self.chr_bank_0_fd }
        } else {
            if self.latch_1 { self.chr_bank_1_fe } else { self.chr_bank_1_fd }
        }
    }

    pub open spec fn chr_index(&self, addr: u16) -> int {
        ((self.chr_bank_for(addr) as int) % self.chr_banks()) * 0x1000 + (addr & 0x0FFF)
    }

    pub open spec fn prg_bank_for(&self, addr: u16) -> int {
        let n = self.prg_banks() as usize;
        if addr <= 0x9FFF {
            (self.prg_bank as int) % self.prg_banks()
        } else if addr <= 0xBFFF {
            sat_sub(n, 3)
        } else if addr <= 0xDFFF {
            sat_sub(n, 2)
        } else {
            sat_sub(n, 1)
        }
    }

    pub open spec fn prg_index(&self, addr: u16) -> int {
        self.prg_bank_for(addr) * 0x2000 + (addr & 0x1FFF)
    }

    /// Without a whole bank of ROM, pattern and program reads give 0.
    pub open spec fn read_value(&self, addr: u16) -> u8 {
        if addr <= 0x1FFF {
            if self.chr_banks() == 0 { 0 } else { self.cart.chr_rom@[self.chr_index(addr)] }
        } else if 0x2000 <= addr <= 0x3EFF {
            self.vram@[vram_index(self.mirror_mode, addr)]
        } else if 0x6000 <= addr <= 0x7FFF {
            self.ram@[(addr & 0x1FFF) as int]
        } else if addr >= 0x8000 {
            if self.prg_banks() == 0 { 0 } else { self.cart.prg_rom@[self.prg_index(addr)] }
        } else {
            0
        }
    }

    pub fn new(cart: Cartridge) -> (m: MapperMmc4)
        requires
            cart.wf(),
        ensures
            m.wf(),
            m.cart == cart,
            m.ram@ == Seq::new(8192, |i: int| 0u8),
            m.vram@ == Seq::new(2048, |i: int| 0u8),
            m.mirror_mode == latch_board_header_mirroring(cart.mirror_mode),
            m.prg_bank == 0 && m.chr_bank_0_fd == 0 && m.chr_bank_0_fe == 0,
            m.chr_bank_1_fd == 0 && m.chr_bank_1_fe == 0,
            !m.latch_0 && !m.latch_1 && !m.irq_enabled && !m.irq_pending,
            m.irq_latch == 0 && m.irq_counter == 0,
    {
        let mirror_mode = latch_board_mirroring_from_header(cart.mirror_mode);
        let m = MapperMmc4 {
            cart,
            ram: [0; 8192],
            vram: [0; 2048],
            mirror_mode,
            prg_bank: 0,
            chr_bank_0_fd: 0,
            chr_bank_0_fe: 0,
            chr_bank_1_fd: 0,
            chr_bank_1_fe: 0,
            latch_0: false,
            latch_1: false,
            irq_enabled: false,
            irq_pending: false,
            irq_latch: 0,
            irq_counter: 0,
        };
        assert(m.vram@ =~= Seq::new(2048, |i: int| 0u8));
        assert(m.ram@ =~= Seq::new(8192, |i: int| 0u8));
        m
    }
}

/// The latches pick the character banks: after the PPU fetches a pattern
/// address in 0x0FD8-0x0FDF (tile 0xFD), reads of 0x0000-0x0FFF come from
/// the 0xFD bank register, and after 0x0FE8-0x0FEF (tile 0xFE) from the
/// 0xFE one; the upper half switches the same way on 0x1FD8-0x1FDF and
/// 0x1FE8-0x1FEF.
pub proof fn lemma_mmc4_latches(m: MapperMmc4, k: u16, a: u16)
    requires
        m.wf(),
        m.chr_banks() > 0,
        k < 8,
    ensures
        a <= 0x0FFF ==> m.after_read((0x0FD8 + k) as u16).peek_value(a)
            == m.cart.chr_rom@[((m.chr_bank_0_fd as int) % m.chr_banks()) * 0x1000 + (a & 0x0FFF)],
        a <= 0x0FFF ==> m.after_read((0x0FE8 + k) as u16).peek_value(a)
            == m.cart.chr_rom@[((m.chr_bank_0_fe as int) % m.chr_banks()) * 0x1000 + (a & 0x0FFF)],
        0x1000 <= a <= 0x1FFF ==> m.after_read((0x1FD8 + k) as u16).peek_value(a)
            == m.cart.chr_rom@[((m.chr_bank_1_fd as int) % m.chr_banks()) * 0x1000 + (a & 0x0FFF)],
        0x1000 <= a <= 0x1FFF ==> m.after_read((0x1FE8 + k) as u16).peek_value(a)
            == m.cart.chr_rom@[((m.chr_bank_1_fe as int) % m.chr_banks()) * 0x1000 + (a & 0x0FFF)],
{
    let a0 = (0x0FD8 + k) as u16;
    let a1 = (0x0FE8 + k) as u16;
    let a2 = (0x1FD8 + k) as u16;
    let a3 = (0x1FE8 + k) as u16;
    assert(a0 & 0xFFF8 == 0x0FD8 && a1 & 0xFFF8 == 0x0FE8 && a2 & 0xFFF8 == 0x1FD8 && a3 & 0xFFF8 == 0x1FE8) by (bit_vector)
        requires
            k < 8,
            a0 == 0x0FD8u16 + k,
            a1 == 0x0FE8u16 + k,
            a2 == 0x1FD8u16 + k,
            a3 == 0x1FE8u16 + k;
}

/// The fields are all there, in range, and fit the cartridge.
pub open spec fn mmc4_state_fits(cart: Cartridge, rest: Seq<u8>) -> bool {
    &&& rest.len() >= 10287
    &&& mirror_fits(rest.skip(10240))
    &&& word_fits(rest.skip(10241), 0x0F)
    &&& word_fits(rest.skip(10249), 0x1F)
    &&& word_fits(rest.skip(10257), 0x1F)
    &&& word_fits(rest.skip(10265), 0x1F)
    &&& word_fits(rest.skip(10273), 0x1F)
    &&& flag_fits(rest.skip(10281))
    &&& flag_fits(rest.skip(10282))
    &&& flag_fits(rest.skip(10283))
    &&& flag_fits(rest.skip(10284))
}

impl Mapper for MapperMmc4 {
    open spec fn wf(&self) -> bool {
        &&& self.cart.prg_rom@.len() <= 0x400000
        &&& self.cart.chr_rom@.len() <= 0x400000
        &&& self.mirror_mode.is_supported()
        &&& self.prg_bank <= 0x0F
        &&& self.chr_bank_0_fd <= 0x1F
        &&& self.chr_bank_0_fe <= 0x1F
        &&& self.chr_bank_1_fd <= 0x1F
        &&& self.chr_bank_1_fe <= 0x1F
    }

    open spec fn accepts(&self, cart: &Cartridge) -> bool {
        cart.prg_rom@.len() <= 0x400000 && cart.chr_rom@.len() <= 0x400000
    }

    open spec fn saved_bytes(&self) -> Seq<u8> {
        self.ram@ + self.vram@ + seq![mirror_tag(self.mirror_mode)] + usize_bytes(self.prg_bank)
            + usize_bytes(self.chr_bank_0_fd) + usize_bytes(self.chr_bank_0_fe)
            + usize_bytes(self.chr_bank_1_fd) + usize_bytes(self.chr_bank_1_fe)
            + bool_bytes(self.latch_0) + bool_bytes(self.latch_1) + bool_bytes(self.irq_enabled)
            + bool_bytes(self.irq_pending) + seq![self.irq_latch] + seq![self.irq_counter]
    }

    open spec fn loaded_bytes(&self) -> Seq<u8> {
        self.saved_bytes()
    }

    open spec fn id(&self) -> u8 {
        65
    }

    open spec fn peek_value(&self, addr: u16) -> u8 {
        self.read_value(addr)
    }

    /// The board after a read of `addr`.
    open spec fn after_read(&self, addr: u16) -> Self {
        Self {
            latch_0: if addr <= 0x0FFF && self.chr_banks() > 0 {
                mmc4_next_latch_0(self.latch_0, addr)
            } else {
                self.latch_0
            },
            latch_1: if 0x1000 <= addr <= 0x1FFF && self.chr_banks() > 0 {
                mmc4_next_latch_1(self.latch_1, addr)
            } else {
                self.latch_1
            },
            ..*self
        }
    }

    /// A pattern read of the latch tiles flips the latch of its half.
    fn peek(&mut self, addr: u16) -> (r: u8)
        ensures
            r == old(self).read_value(addr),
            final(self).latch_0 == (if addr <= 0x0FFF && old(self).chr_banks() > 0 {
                mmc4_next_latch_0(old(self).latch_0, addr)
            } else {
                old(self).latch_0
            }),
            final(self).latch_1 == (if 0x1000 <= addr <= 0x1FFF && old(self).chr_banks() > 0 {
                mmc4_next_latch_1(old(self).latch_1, addr)
            } else {
                old(self).latch_1
            }),
            final(self).cart == old(self).cart,
            final(self).ram == old(self).ram,
            final(self).vram == old(self).vram,
            final(self).mirror_mode == old(self).mirror_mode,
            final(self).prg_bank == old(self).prg_bank,
            final(self).chr_bank_0_fd == old(self).chr_bank_0_fd,
            final(self).chr_bank_0_fe == old(self).chr_bank_0_fe,
            final(self).chr_bank_1_fd == old(self).chr_bank_1_fd,
            final(self).chr_bank_1_fe == old(self).chr_bank_1_fe,
            final(self).irq_enabled == old(self).irq_enabled,
            final(self).irq_pending == old(self).irq_pending,
            final(self).irq_latch == old(self).irq_latch,
            final(self).irq_counter == old(self).irq_counter,
    {
        if addr <= 0x1FFF {
            let chr_banks = self.cart.chr_rom.len() / 0x1000;
            if chr_banks == 0 {
                return 0;
            }
            let bank = if addr <= 0x0FFF {
                if self.latch_0 { self.chr_bank_0_fe } else { self.chr_bank_0_fd }
            } else {
                if self.latch_1 { self.chr_bank_1_fe } else { self.chr_bank_1_fd }
            };
            let low = addr & 0x0FFF;
            proof { lemma_and_bounds(); }
            proof {
                lemma_mod_below(bank as int, chr_banks as int);
                lemma_bank_fits((bank % chr_banks) as int, 0x1000, low as int, self.cart.chr_rom@.len() as int);
            }
            let data = self.cart.chr_rom[(bank % chr_banks) * 0x1000 + low as usize];
            if addr <= 0x0FFF {
                if (addr & 0xFFF8) == 0x0FD8 {
                    self.latch_0 = false;
                } else if (addr & 0xFFF8) == 0x0FE8 {
                    self.latch_0 = true;
                }
            } else {
                if (addr & 0xFFF8) == 0x1FD8 {
                    self.latch_1 = false;
                } else if (addr & 0xFFF8) == 0x1FE8 {
                    self.latch_1 = true;
                }
            }
            data
        } else if addr <= 0x3EFF {
            self.vram[translate_vram(self.mirror_mode, addr)]
        } else if 0x6000 <= addr && addr <= 0x7FFF {
            let i = addr & 0x1FFF;
            proof { lemma_and_bounds(); }
            self.ram[i as usize]
        } else if addr >= 0x8000 {
            let prg_banks = self.cart.prg_rom.len() / 0x2000;
            if prg_banks == 0 {
                return 0;
            }
            let bank = if addr <= 0x9FFF {
                proof {
                    lemma_mod_below(self.prg_bank as int, prg_banks as int);
                }
                self.prg_bank % prg_banks
            } else if addr <= 0xBFFF {
                prg_banks.saturating_sub(3)
            } else if addr <= 0xDFFF {
                prg_banks.saturating_sub(2)
            } else {
                prg_banks.saturating_sub(1)
            };
            let low = addr & 0x1FFF;
            proof { lemma_and_bounds(); }
            proof {
                lemma_bank_fits(bank as int, 0x2000, low as int, self.cart.prg_rom@.len() as int);
            }
            self.cart.prg_rom[bank * 0x2000 + low as usize]
        } else {
            0
        }
    }

    /// What a write of `val` to `addr` leaves: the registers, banks and
    /// memories as this board's `poke` sets them.
    open spec fn written(&self, addr: u16, val: u8, after: Self) -> bool {
        &&& after.cart == self.cart
        &&& after.ram == self.ram
        &&& after.vram == self.vram
        &&& after.latch_0 == self.latch_0
        &&& after.latch_1 == self.latch_1
        &&& after.irq_latch == (if 0x8000 <= addr <= 0x8FFF { val } else { self.irq_latch })
        &&& after.irq_counter == (if 0x9000 <= addr <= 0x9FFF {
                self.irq_latch
            } else {
                self.irq_counter
            })
        &&& after.irq_enabled == (if 0x9000 <= addr <= 0x9FFF {
                true
            } else if addr >= 0xF000 {
                false
            } else {
                self.irq_enabled
            })
        &&& after.irq_pending == (if 0x9000 <= addr <= 0x9FFF || addr >= 0xF000 {
                false
            } else {
                self.irq_pending
            })
        &&& after.prg_bank == (if 0xA000 <= addr <= 0xAFFF { (val & 0x0F) as usize } else { self.prg_bank })
        &&& after.chr_bank_0_fd == (if 0xB000 <= addr <= 0xBFFF {
                (val & 0x1F) as usize
            } else {
                self.chr_bank_0_fd
            })
        &&& after.chr_bank_0_fe == (if 0xC000 <= addr <= 0xCFFF {
                (val & 0x1F) as usize
            } else {
                self.chr_bank_0_fe
            })
        &&& after.chr_bank_1_fd == (if 0xD000 <= addr <= 0xDFFF {
                (val & 0x1F) as usize
            } else {
                self.chr_bank_1_fd
            })
        &&& after.chr_bank_1_fe == (if 0xE000 <= addr <= 0xEFFF {
                (val & 0x1F) as usize
            } else {
                self.chr_bank_1_fe
            })
        &&& after.mirror_mode == (if 0xE000 <= addr <= 0xEFFF {
                mmc4_mirroring(val)
            } else {
                self.mirror_mode
            })
    }

    /// The interrupt latch at 0x8000, reload and enable at 0x9000, bank
    /// registers at 0xA000-0xEFFF (0xE000 also sets the mirroring), and
    /// interrupt disable at 0xF000.
    fn poke(&mut self, addr: u16, val: u8)
        ensures
            final(self).cart == old(self).cart,
            final(self).ram == old(self).ram,
            final(self).vram == old(self).vram,
            final(self).latch_0 == old(self).latch_0,
            final(self).latch_1 == old(self).latch_1,
            final(self).irq_latch == (if 0x8000 <= addr <= 0x8FFF { val } else { old(self).irq_latch }),
            final(self).irq_counter == (if 0x9000 <= addr <= 0x9FFF {
                old(self).irq_latch
            } else {
                old(self).irq_counter
            }),
            final(self).irq_enabled == (if 0x9000 <= addr <= 0x9FFF {
                true
            } else if addr >= 0xF000 {
                false
            } else {
                old(self).irq_enabled
            }),
            final(self).irq_pending == (if 0x9000 <= addr <= 0x9FFF || addr >= 0xF000 {
                false
            } else {
                old(self).irq_pending
            }),
            final(self).prg_bank == (if 0xA000 <= addr <= 0xAFFF { (val & 0x0F) as usize } else { old(self).prg_bank }),
            final(self).chr_bank_0_fd == (if 0xB000 <= addr <= 0xBFFF {
                (val & 0x1F) as usize
            } else {
                old(self).chr_bank_0_fd
            }),
            final(self).chr_bank_0_fe == (if 0xC000 <= addr <= 0xCFFF {
                (val & 0x1F) as usize
            } else {
                old(self).chr_bank_0_fe
            }),
            final(self).chr_bank_1_fd == (if 0xD000 <= addr <= 0xDFFF {
                (val & 0x1F) as usize
            } else {
                old(self).chr_bank_1_fd
            }),
            final(self).chr_bank_1_fe == (if 0xE000 <= addr <= 0xEFFF {
                (val & 0x1F) as usize
            } else {
                old(self).chr_bank_1_fe
            }),
            final(self).mirror_mode == (if 0xE000 <= addr <= 0xEFFF {
                mmc4_mirroring(val)
            } else {
                old(self).mirror_mode
            }),
    {
        proof { lemma_and_bounds(); }
        if 0x8000 <= addr && addr <= 0x8FFF {
            self.irq_latch = val;
        } else if 0x9000 <= addr && addr <= 0x9FFF {
            self.irq_counter = self.irq_latch;
            self.irq_enabled = true;
            self.irq_pending = false;
        } else if 0xA000 <= addr && addr <= 0xAFFF {
            self.prg_bank = (val & 0x0F) as usize;
        } else if 0xB000 <= addr && addr <= 0xBFFF {
            self.chr_bank_0_fd = (val & 0x1F) as usize;
        } else if 0xC000 <= addr && addr <= 0xCFFF {
            self.chr_bank_0_fe = (val & 0x1F) as usize;
        } else if 0xD000 <= addr && addr <= 0xDFFF {
            self.chr_bank_1_fd = (val & 0x1F) as usize;
        } else if 0xE000 <= addr && addr <= 0xEFFF {
            self.chr_bank_1_fe = (val & 0x1F) as usize;
            self.mirror_mode = if (val & 0x01) == 0 {
                MirrorMode::MirrorHorizontal
            } else {
                MirrorMode::MirrorVertical
            };
        } else if addr >= 0xF000 {
            self.irq_enabled = false;
            self.irq_pending = false;
        }
    }

    fn check_irq(&self) -> (r: bool)
        ensures
            r == self.irq_pending,
    {
        self.irq_pending
    }

    open spec fn rom_offset(&self, addr: u16) -> Option<u32> {
        None
    }

    /// No CPU address reads program ROM at a fixed offset here.
    fn get_prg_rom_offset(&self, addr: u16) -> (r: Option<u32>) {
        None
    }

    fn get_id(&self) -> (r: u8) {
        Self::ID
    }

    /// What putting `cartridge` in leaves: the board's registers as
    /// `update_cartridge` keeps them and its offsets recomputed.
    open spec fn cart_updated(&self, cartridge: Cartridge, after: Self) -> bool {
        &&& after.cart == cartridge
        &&& after.ram == self.ram
        &&& after.vram == self.vram
        &&& after.mirror_mode == self.mirror_mode
        &&& after.prg_bank == self.prg_bank
        &&& after.chr_bank_0_fd == self.chr_bank_0_fd
        &&& after.chr_bank_0_fe == self.chr_bank_0_fe
        &&& after.chr_bank_1_fd == self.chr_bank_1_fd
        &&& after.chr_bank_1_fe == self.chr_bank_1_fe
        &&& after.latch_0 == self.latch_0
        &&& after.latch_1 == self.latch_1
        &&& after.irq_enabled == self.irq_enabled
        &&& after.irq_pending == self.irq_pending
        &&& after.irq_latch == self.irq_latch
        &&& after.irq_counter == self.irq_counter
    }

    fn update_cartridge(&mut self, cartridge: Cartridge)
        ensures
            final(self).cart == cartridge,
            final(self).ram == old(self).ram,
            final(self).vram == old(self).vram,
            final(self).mirror_mode == old(self).mirror_mode,
            final(self).prg_bank == old(self).prg_bank,
            final(self).chr_bank_0_fd == old(self).chr_bank_0_fd,
            final(self).chr_bank_0_fe == old(self).chr_bank_0_fe,
            final(self).chr_bank_1_fd == old(self).chr_bank_1_fd,
            final(self).chr_bank_1_fe == old(self).chr_bank_1_fe,
            final(self).latch_0 == old(self).latch_0,
            final(self).latch_1 == old(self).latch_1,
            final(self).irq_enabled == old(self).irq_enabled,
            final(self).irq_pending == old(self).irq_pending,
            final(self).irq_latch == old(self).irq_latch,
            final(self).irq_counter == old(self).irq_counter,
    {
        self.cart = cartridge;
    }

    open spec fn sram(&self) -> Option<Seq<u8>> {
        Some(self.ram@)
    }

    /// The 8 KiB of work RAM.
    fn get_sram(&self) -> (r: Option<Vec<u8>>)
        ensures
            r matches Some(v) && v@ == self.ram@,
    {
        let mut v: Vec<u8> = Vec::with_capacity(8192);
        let mut i: usize = 0;
        while i < 8192
            invariant
                i <= 8192,
                v@ == self.ram@.take(i as int),
            decreases 8192 - i,
        {
            v.push(self.ram[i]);
            i += 1;
            assert(v@ =~= self.ram@.take(i as int));
        }
        assert(self.ram@.take(8192) =~= self.ram@);
        Some(v)
    }

    /// Loads the work RAM from `data`, as far as both reach.
    fn set_sram(&mut self, data: &[u8])
        ensures
            forall|i: int| 0 <= i < 8192 ==> #[trigger] final(self).ram@[i]
                == (if i < data@.len() { data@[i] } else { old(self).ram@[i] }),
    {
        let n = if data.len() < 8192 { data.len() } else { 8192 };
        let mut i: usize = 0;
        while i < n
            invariant
                n <= 8192,
                n <= data@.len(),
                n == (if data@.len() < 8192 { data@.len() } else { 8192 }),
                i <= n,
                self.wf(),
                self.cart == old(self).cart,
                self.vram == old(self).vram,
                self.mirror_mode == old(self).mirror_mode,
                self.prg_bank == old(self).prg_bank,
                self.chr_bank_0_fd == old(self).chr_bank_0_fd,
                self.chr_bank_0_fe == old(self).chr_bank_0_fe,
                self.chr_bank_1_fd == old(self).chr_bank_1_fd,
                self.chr_bank_1_fe == old(self).chr_bank_1_fe,
                forall|k: int| 0 <= k < 8192 ==> #[trigger] self.ram@[k]
                    == (if k < i { data@[k] } else { old(self).ram@[k] }),
            decreases n - i,
        {
            self.ram[i] = data[i];
            i += 1;
        }
    }

    #[verifier::rlimit(40)]
    fn write_state_to(&self, writer: &mut Vec<u8>) {
        self.ram.write(writer);
        self.vram.write(writer);
        self.mirror_mode.write(writer);
        self.prg_bank.write(writer);
        self.chr_bank_0_fd.write(writer);
        self.chr_bank_0_fe.write(writer);
        self.chr_bank_1_fd.write(writer);
        self.chr_bank_1_fe.write(writer);
        self.latch_0.write(writer);
        self.latch_1.write(writer);
        self.irq_enabled.write(writer);
        self.irq_pending.write(writer);
        self.irq_latch.write(writer);
        self.irq_counter.write(writer);
        assert(writer@ =~= old(writer)@ + self.saved_bytes());
    }

    open spec fn state_fits(&self, rest: Seq<u8>) -> bool {
        mmc4_state_fits(self.cart, rest)
    }

    /// Bank numbers that the registers cannot hold, and flag bytes other
    /// than 0 and 1, are refused.
    #[verifier::rlimit(80)]
    fn read_state_from(&mut self, reader: &mut StateReader) -> (res: Result<(), StateError>) {
        let ghost r0 = reader.rest();
        let ram = <[u8; 8192]>::read(reader)?;
        assert(reader.rest() =~= r0.skip(8192));
        let vram = read_vram(reader)?;
        assert(reader.rest() =~= r0.skip(10240));
        let mirror_mode = read_supported_mirror(reader)?;
        assert(reader.rest() =~= r0.skip(10241));
        let prg_bank = read_usize_at_most(reader, 0x0F)?;
        assert(reader.rest() =~= r0.skip(10249));
        let chr_bank_0_fd = read_usize_at_most(reader, 0x1F)?;
        assert(reader.rest() =~= r0.skip(10257));
        let chr_bank_0_fe = read_usize_at_most(reader, 0x1F)?;
        assert(reader.rest() =~= r0.skip(10265));
        let chr_bank_1_fd = read_usize_at_most(reader, 0x1F)?;
        assert(reader.rest() =~= r0.skip(10273));
        let chr_bank_1_fe = read_usize_at_most(reader, 0x1F)?;
        assert(reader.rest() =~= r0.skip(10281));
        let latch_0 = read_bool_strict(reader)?;
        assert(reader.rest() =~= r0.skip(10282));
        let latch_1 = read_bool_strict(reader)?;
        assert(reader.rest() =~= r0.skip(10283));
        let irq_enabled = read_bool_strict(reader)?;
        assert(reader.rest() =~= r0.skip(10284));
        let irq_pending = read_bool_strict(reader)?;
        assert(reader.rest() =~= r0.skip(10285));
        let irq_latch = u8::read(reader)?;
        assert(reader.rest() =~= r0.skip(10286));
        let irq_counter = u8::read(reader)?;
        self.ram = ram;
        self.vram = vram;
        self.mirror_mode = mirror_mode;
        self.prg_bank = prg_bank;
        self.chr_bank_0_fd = chr_bank_0_fd;
        self.chr_bank_0_fe = chr_bank_0_fe;
        self.chr_bank_1_fd = chr_bank_1_fd;
        self.chr_bank_1_fe = chr_bank_1_fe;
        self.latch_0 = latch_0;
        self.latch_1 = latch_1;
        self.irq_enabled = irq_enabled;
        self.irq_pending = irq_pending;
        self.irq_latch = irq_latch;
        self.irq_counter = irq_counter;
        assert(r0.take(10287) =~= self.saved_bytes());
        Ok(())
    }
}

} // verus!
