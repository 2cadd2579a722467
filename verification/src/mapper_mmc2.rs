//! MMC2 (mapper 9): an 8 KiB switchable program bank and three fixed ones,
//! and two 4 KiB character halves whose bank is picked by latches that flip
//! when the PPU fetches particular tiles.
use vstd::prelude::*;
use crate::mapper::mirror_fits;
use crate::save_state::{word_fits, flag_fits};
use crate::bits::lemma_addr_fields;
use crate::bits::lemma_and_bounds;
use crate::cartridge::Cartridge;
use crate::mapper::{
    translate_vram, vram_index, mirror_tag, read_vram, read_supported_mirror, lemma_bank_fits,
    lemma_mod_below, Mapper, MirrorMode,
};
use crate::save_state::{
    WriteState, ReadState, StateReader, StateError, usize_bytes, bool_bytes, read_usize_at_most,
    read_bool_strict,
};

verus! {

pub struct MapperMmc2 {
    pub cart: Cartridge,
    pub ram: [u8; 8192],
    pub vram: [u8; 2048],
    pub mirror_mode: MirrorMode,
    pub prg_bank_8000: usize,
    pub chr_bank_0_fd: usize,
    pub chr_bank_0_fe: usize,
    pub chr_bank_1_fd: usize,
    pub chr_bank_1_fe: usize,
    pub latch_0: bool,
    pub latch_1: bool,
    /// The number of 8 KiB program banks.
    pub prg_banks: usize,
    /// The number of 4 KiB character banks.
    pub chr_banks: usize,
}

/// The mirroring that the header asks for on these boards: horizontal for
/// 1, vertical otherwise.
pub open spec fn latch_board_header_mirroring(m: u8) -> MirrorMode {
    if m == 1 { MirrorMode::MirrorHorizontal } else { MirrorMode::MirrorVertical }
}

pub fn latch_board_mirroring_from_header(m: u8) -> (r: MirrorMode)
    ensures
        r == latch_board_header_mirroring(m),
{
    if m == 1 { MirrorMode::MirrorHorizontal } else { MirrorMode::MirrorVertical }
}

/// The mirroring that a write of `val` to the mirroring register selects.
pub open spec fn latch_board_mirroring(val: u8) -> MirrorMode {
    if val & 1 == 0 { MirrorMode::MirrorVertical } else { MirrorMode::MirrorHorizontal }
}

/// `a - b`, or 0 where that would be negative.
pub open spec fn sat_sub(a: usize, b: usize) -> int {
    if a >= b { a - b } else { 0 }
}

/// Latch 0 after the PPU reads pattern address `addr`: tile 0xFD sets it
/// to the FD bank, tile 0xFE to the FE bank.
pub open spec fn mmc2_next_latch_0(latch: bool, addr: u16) -> bool {
    if addr == 0x0FD8 { false } else if addr == 0x0FE8 { true } else { latch }
}

/// Latch 1 after the PPU reads pattern address `addr`.
pub open spec fn mmc2_next_latch_1(latch: bool, addr: u16) -> bool {
    if addr & 0xFFF8 == 0x1FD8 { false } else if addr & 0xFFF8 == 0x1FE8 { true } else { latch }
}

impl MapperMmc2 {
    pub const ID: u8 = 9;

    /// The 4 KiB character bank register that pattern address `addr` uses.
    pub open spec fn chr_bank_for(&self, addr: u16) -> usize {
        if addr <= 0x0FFF {
            if self.latch_0 { self.chr_bank_0_fe } else { self.chr_bank_0_fd }
        } else {
            if self.latch_1 { self.chr_bank_1_fe } else { self.chr_bank_1_fd }
        }
    }

    pub open spec fn chr_index(&self, addr: u16) -> int {
        (self.chr_bank_for(addr) % self.chr_banks) * 0x1000 + (addr & 0x0FFF)
    }

    /// The 8 KiB program bank at CPU address `addr`: the switchable one at
    /// 0x8000, then the last three banks of the ROM.
    pub open spec fn prg_bank_for(&self, addr: u16) -> int {
        if addr <= 0x9FFF {
            (self.prg_bank_8000 % self.prg_banks) as int
        } else if addr <= 0xBFFF {
            sat_sub(self.prg_banks, 3)
        } else if addr <= 0xDFFF {
            sat_sub(self.prg_banks, 2)
        } else {
            sat_sub(self.prg_banks, 1)
        }
    }

    pub open spec fn prg_index(&self, addr: u16) -> int {
        self.prg_bank_for(addr) * 0x2000 + (addr & 0x1FFF)
    }

    pub open spec fn read_value(&self, addr: u16) -> u8 {
        if addr <= 0x1FFF {
            self.cart.chr_rom@[self.chr_index(addr)]
        } else if 0x2000 <= addr <= 0x3EFF {
            self.vram@[vram_index(self.mirror_mode, addr)]
        } else if 0x6000 <= addr <= 0x7FFF {
            self.ram@[(addr & 0x1FFF) as int]
        } else if addr >= 0x8000 {
            self.cart.prg_rom@[self.prg_index(addr)]
        } else {
            0
        }
    }

    pub fn new(cart: Cartridge) -> (m: MapperMmc2)
        requires
            cart.wf(),
            cart.prg_rom@.len() > 0,
        ensures
            m.wf(),
            m.cart == cart,
            m.ram@ == Seq::new(8192, |i: int| 0u8),
            m.vram@ == Seq::new(2048, |i: int| 0u8),
            m.mirror_mode == latch_board_header_mirroring(cart.mirror_mode),
            m.prg_bank_8000 == 0 && m.chr_bank_0_fd == 0 && m.chr_bank_0_fe == 0,
            m.chr_bank_1_fd == 0 && m.chr_bank_1_fe == 0,
            !m.latch_0 && !m.latch_1,
    {
        let mirror_mode = latch_board_mirroring_from_header(cart.mirror_mode);
        let prg_banks = cart.prg_rom.len() / 0x2000;
        let chr_banks = cart.chr_rom.len() / 0x1000;
        let m = MapperMmc2 {
            cart,
            ram: [0; 8192],
            vram: [0; 2048],
            mirror_mode,
            prg_bank_8000: 0,
            chr_bank_0_fd: 0,
            chr_bank_0_fe: 0,
            chr_bank_1_fd: 0,
            chr_bank_1_fe: 0,
            latch_0: false,
            latch_1: false,
            prg_banks,
            chr_banks,
        };
        assert(m.vram@ =~= Seq::new(2048, |i: int| 0u8));
        assert(m.ram@ =~= Seq::new(8192, |i: int| 0u8));
        m
    }

    /// The character ROM offset of pattern address `addr`.
    fn chr_offset(&self, addr: u16) -> (r: usize)
        requires
            self.wf(),
            addr <= 0x1FFF,
        ensures
            r == self.chr_index(addr),
            r < self.cart.chr_rom@.len(),
    {
        let bank = if addr <= 0x0FFF {
            if self.latch_0 { self.chr_bank_0_fe } else { self.chr_bank_0_fd }
        } else {
            if self.latch_1 { self.chr_bank_1_fe } else { self.chr_bank_1_fd }
        };
        let chr_banks = self.chr_banks;
        let low = addr & 0x0FFF;
        proof { lemma_and_bounds(); }
        proof {
            lemma_mod_below(bank as int, chr_banks as int);
            lemma_bank_fits((bank % chr_banks) as int, 0x1000, low as int, self.cart.chr_rom@.len() as int);
        }
        (bank % chr_banks) * 0x1000 + low as usize
    }

    /// The program ROM offset of CPU address `addr` (0x8000 and up).
    fn prg_offset(&self, addr: u16) -> (r: usize)
        requires
            self.wf(),
            addr >= 0x8000,
        ensures
            r == self.prg_index(addr),
            r < self.cart.prg_rom@.len(),
    {
        let prg_banks = self.prg_banks;
        let bank = if addr <= 0x9FFF {
            proof {
                lemma_mod_below(self.prg_bank_8000 as int, prg_banks as int);
            }
            self.prg_bank_8000 % prg_banks
        } else if addr <= 0xBFFF {
            prg_banks.saturating_sub(3)
        } else if addr <= 0xDFFF {
            prg_banks.saturating_sub(2)
        } else {
            prg_banks.saturating_sub(1)
        };
        let low = addr & 0x1FFF;
        proof { lemma_and_bounds(); }
        proof {
            lemma_bank_fits(bank as int, 0x2000, low as int, self.cart.prg_rom@.len() as int);
        }
        bank * 0x2000 + low as usize
    }
}

/// The latches pick the character banks.  After the PPU fetches pattern
/// address 0x0FD8 (tile 0xFD), reads of 0x0000-0x0FFF come from the 0xFD
/// bank register, and after 0x0FE8 (tile 0xFE) from the 0xFE one; the
/// upper half switches the same way on 0x1FD8 and 0x1FE8.  The last 8 KiB
/// of program ROM is fixed at 0xE000-0xFFFF.
pub proof fn lemma_mmc2_latches(m: MapperMmc2, a: u16)
    requires
        m.wf(),
    ensures
        a <= 0x0FFF ==> m.after_read(0x0FD8).peek_value(a)
            == m.cart.chr_rom@[(m.chr_bank_0_fd % m.chr_banks) * 0x1000 + (a & 0x0FFF)],
        a <= 0x0FFF ==> m.after_read(0x0FE8).peek_value(a)
            == m.cart.chr_rom@[(m.chr_bank_0_fe % m.chr_banks) * 0x1000 + (a & 0x0FFF)],
        0x1000 <= a <= 0x1FFF ==> m.after_read(0x1FD8).peek_value(a)
            == m.cart.chr_rom@[(m.chr_bank_1_fd % m.chr_banks) * 0x1000 + (a & 0x0FFF)],
        0x1000 <= a <= 0x1FFF ==> m.after_read(0x1FE8).peek_value(a)
            == m.cart.chr_rom@[(m.chr_bank_1_fe % m.chr_banks) * 0x1000 + (a & 0x0FFF)],
        a >= 0xE000 ==> m.peek_value(a)
            == m.cart.prg_rom@[(m.cart.prg_rom@.len() / 0x2000 - 1) * 0x2000 + (a & 0x1FFF)],
{
    assert(0x1FD8u16 & 0xFFF8u16 == 0x1FD8u16 && 0x1FE8u16 & 0xFFF8u16 == 0x1FE8u16) by (bit_vector);
}

/// The fields are all there, in range, and fit the cartridge.
pub open spec fn mmc2_state_fits(cart: Cartridge, rest: Seq<u8>) -> bool {
    &&& rest.len() >= 10283
    &&& mirror_fits(rest.skip(10240))
    &&& word_fits(rest.skip(10241), 0x0F)
    &&& word_fits(rest.skip(10249), 0x1F)
    &&& word_fits(rest.skip(10257), 0x1F)
    &&& word_fits(rest.skip(10265), 0x1F)
    &&& word_fits(rest.skip(10273), 0x1F)
    &&& flag_fits(rest.skip(10281))
    &&& flag_fits(rest.skip(10282))
}

impl Mapper for MapperMmc2 {
    open spec fn wf(&self) -> bool {
        &&& 0x2000 <= self.cart.prg_rom@.len() <= 0x400000
        &&& 0x1000 <= self.cart.chr_rom@.len() <= 0x400000
        &&& self.prg_banks == self.cart.prg_rom@.len() / 0x2000
        &&& self.chr_banks == self.cart.chr_rom@.len() / 0x1000
        &&& self.mirror_mode.is_supported()
        &&& self.prg_bank_8000 <= 0x0F
        &&& self.chr_bank_0_fd <= 0x1F
        &&& self.chr_bank_0_fe <= 0x1F
        &&& self.chr_bank_1_fd <= 0x1F
        &&& self.chr_bank_1_fe <= 0x1F
    }

    open spec fn accepts(&self, cart: &Cartridge) -> bool {
        0x2000 <= cart.prg_rom@.len() <= 0x400000 && 0x1000 <= cart.chr_rom@.len() <= 0x400000
    }

    open spec fn saved_bytes(&self) -> Seq<u8> {
        self.ram@ + self.vram@ + seq![mirror_tag(self.mirror_mode)] + usize_bytes(self.prg_bank_8000)
            + usize_bytes(self.chr_bank_0_fd) + usize_bytes(self.chr_bank_0_fe)
            + usize_bytes(self.chr_bank_1_fd) + usize_bytes(self.chr_bank_1_fe)
            + bool_bytes(self.latch_0) + bool_bytes(self.latch_1)
    }

    open spec fn loaded_bytes(&self) -> Seq<u8> {
        self.saved_bytes()
    }

    open spec fn id(&self) -> u8 {
        9
    }

    open spec fn peek_value(&self, addr: u16) -> u8 {
        self.read_value(addr)
    }

    /// The board after a read of `addr`.
    open spec fn after_read(&self, addr: u16) -> Self {
        Self {
            latch_0: mmc2_next_latch_0(self.latch_0, addr),
            latch_1: mmc2_next_latch_1(self.latch_1, addr),
            ..*self
        }
    }

    /// A pattern read of the latch tiles flips the latch of its half.
    fn peek(&mut self, addr: u16) -> (r: u8)
        ensures
            r == old(self).read_value(addr),
            final(self).latch_0 == mmc2_next_latch_0(old(self).latch_0, addr),
            final(self).latch_1 == mmc2_next_latch_1(old(self).latch_1, addr),
            final(self).cart == old(self).cart,
            final(self).ram == old(self).ram,
            final(self).vram == old(self).vram,
            final(self).mirror_mode == old(self).mirror_mode,
            final(self).prg_bank_8000 == old(self).prg_bank_8000,
            final(self).chr_bank_0_fd == old(self).chr_bank_0_fd,
            final(self).chr_bank_0_fe == old(self).chr_bank_0_fe,
            final(self).chr_bank_1_fd == old(self).chr_bank_1_fd,
            final(self).chr_bank_1_fe == old(self).chr_bank_1_fe,
            final(self).prg_banks == old(self).prg_banks,
            final(self).chr_banks == old(self).chr_banks,
    {
        if addr <= 0x0FFF {
            let data = self.cart.chr_rom[self.chr_offset(addr)];
            if addr == 0x0FD8 {
                self.latch_0 = false;
            } else if addr == 0x0FE8 {
                self.latch_0 = true;
            }
            proof { lemma_addr_fields(addr); }
            data
        } else if addr <= 0x1FFF {
            let data = self.cart.chr_rom[self.chr_offset(addr)];
            if (addr & 0xFFF8) == 0x1FD8 {
                self.latch_1 = false;
            } else if (addr & 0xFFF8) == 0x1FE8 {
                self.latch_1 = true;
            }
            data
        } else {
            proof { lemma_addr_fields(addr); }
            if addr <= 0x3EFF {
                self.vram[translate_vram(self.mirror_mode, addr)]
            } else if 0x6000 <= addr && addr <= 0x7FFF {
                let i = addr & 0x1FFF;
                proof { lemma_and_bounds(); }
                self.ram[i as usize]
            } else if addr >= 0x8000 {
                self.cart.prg_rom[self.prg_offset(addr)]
            } else {
                0
            }
        }
    }

    /// What a write of `val` to `addr` leaves: the registers, banks and
    /// memories as this board's `poke` sets them.
    open spec fn written(&self, addr: u16, val: u8, after: Self) -> bool {
        &&& after.cart.prg_rom == self.cart.prg_rom
        &&& after.cart.mapper_id == self.cart.mapper_id
        &&& after.cart.chr_rom@ == (if addr <= 0x1FFF {
                self.cart.chr_rom@.update(self.chr_index(addr), val)
            } else {
                self.cart.chr_rom@
            })
        &&& after.vram@ == (if 0x2000 <= addr <= 0x3EFF {
                self.vram@.update(vram_index(self.mirror_mode, addr), val)
            } else {
                self.vram@
            })
        &&& after.ram@ == (if 0x6000 <= addr <= 0x7FFF {
                self.ram@.update((addr & 0x1FFF) as int, val)
            } else {
                self.ram@
            })
        &&& after.prg_bank_8000 == (if 0xA000 <= addr <= 0xAFFF {
                (val & 0x0F) as usize
            } else {
                self.prg_bank_8000
            })
        &&& after.chr_bank_0_fd == (if 0xB000 <= addr <= 0xBFFF {
                (val & 0x1F) as usize
            } else {
                self.chr_bank_0_fd
            })
        &&& after.chr_bank_0_fe == (if 0xC000 <= addr <= 0xCFFF {
                (val & 0x1F) as usize
            } else {
                self.chr_bank_0_fe
            })
        &&& after.chr_bank_1_fd == (if 0xD000 <= addr <= 0xDFFF {
                (val & 0x1F) as usize
            } else {
                self.chr_bank_1_fd
            })
        &&& after.chr_bank_1_fe == (if 0xE000 <= addr <= 0xEFFF {
                (val & 0x1F) as usize
            } else {
                self.chr_bank_1_fe
            })
        &&& after.mirror_mode == (if addr >= 0xF000 {
                latch_board_mirroring(val)
            } else {
                self.mirror_mode
            })
        &&& after.latch_0 == self.latch_0
        &&& after.latch_1 == self.latch_1
    }

    /// Pattern writes land in the selected character bank; 0xA000-0xEFFF
    /// set the bank registers and 0xF000-0xFFFF the mirroring.
    fn poke(&mut self, addr: u16, val: u8)
        ensures
            final(self).cart.prg_rom == old(self).cart.prg_rom,
            final(self).cart.mapper_id == old(self).cart.mapper_id,
            final(self).cart.chr_rom@ == (if addr <= 0x1FFF {
                old(self).cart.chr_rom@.update(old(self).chr_index(addr), val)
            } else {
                old(self).cart.chr_rom@
            }),
            final(self).vram@ == (if 0x2000 <= addr <= 0x3EFF {
                old(self).vram@.update(vram_index(old(self).mirror_mode, addr), val)
            } else {
                old(self).vram@
            }),
            final(self).ram@ == (if 0x6000 <= addr <= 0x7FFF {
                old(self).ram@.update((addr & 0x1FFF) as int, val)
            } else {
                old(self).ram@
            }),
            final(self).prg_bank_8000 == (if 0xA000 <= addr <= 0xAFFF {
                (val & 0x0F) as usize
            } else {
                old(self).prg_bank_8000
            }),
            final(self).chr_bank_0_fd == (if 0xB000 <= addr <= 0xBFFF {
                (val & 0x1F) as usize
            } else {
                old(self).chr_bank_0_fd
            }),
            final(self).chr_bank_0_fe == (if 0xC000 <= addr <= 0xCFFF {
                (val & 0x1F) as usize
            } else {
                old(self).chr_bank_0_fe
            }),
            final(self).chr_bank_1_fd == (if 0xD000 <= addr <= 0xDFFF {
                (val & 0x1F) as usize
            } else {
                old(self).chr_bank_1_fd
            }),
            final(self).chr_bank_1_fe == (if 0xE000 <= addr <= 0xEFFF {
                (val & 0x1F) as usize
            } else {
                old(self).chr_bank_1_fe
            }),
            final(self).mirror_mode == (if addr >= 0xF000 {
                latch_board_mirroring(val)
            } else {
                old(self).mirror_mode
            }),
            final(self).latch_0 == old(self).latch_0,
            final(self).latch_1 == old(self).latch_1,
    {
        proof { lemma_and_bounds(); }
        if addr <= 0x1FFF {
            let i = self.chr_offset(addr);
            self.cart.chr_rom.set(i, val);
        } else if addr <= 0x3EFF {
            let i = translate_vram(self.mirror_mode, addr);
            self.vram[i] = val;
        } else if 0x6000 <= addr && addr <= 0x7FFF {
            let i = addr & 0x1FFF;
            proof { lemma_and_bounds(); }
            self.ram[i as usize] = val;
        } else if 0xA000 <= addr && addr <= 0xAFFF {
            self.prg_bank_8000 = (val & 0x0F) as usize;
        } else if 0xB000 <= addr && addr <= 0xBFFF {
            self.chr_bank_0_fd = (val & 0x1F) as usize;
        } else if 0xC000 <= addr && addr <= 0xCFFF {
            self.chr_bank_0_fe = (val & 0x1F) as usize;
        } else if 0xD000 <= addr && addr <= 0xDFFF {
            self.chr_bank_1_fd = (val & 0x1F) as usize;
        } else if 0xE000 <= addr && addr <= 0xEFFF {
            self.chr_bank_1_fe = (val & 0x1F) as usize;
        } else if addr >= 0xF000 {
            self.mirror_mode = if (val & 0x01) == 0 {
                MirrorMode::MirrorVertical
            } else {
                MirrorMode::MirrorHorizontal
            };
        }
    }

    fn get_id(&self) -> (r: u8) {
        Self::ID
    }

    /// What putting `cartridge` in leaves: the board's registers as
    /// `update_cartridge` keeps them and its offsets recomputed.
    open spec fn cart_updated(&self, cartridge: Cartridge, after: Self) -> bool {
        &&& after.cart == cartridge
        &&& after.ram == self.ram
        &&& after.vram == self.vram
        &&& after.mirror_mode == self.mirror_mode
        &&& after.prg_bank_8000 == self.prg_bank_8000
        &&& after.chr_bank_0_fd == self.chr_bank_0_fd
        &&& after.chr_bank_0_fe == self.chr_bank_0_fe
        &&& after.chr_bank_1_fd == self.chr_bank_1_fd
        &&& after.chr_bank_1_fe == self.chr_bank_1_fe
        &&& after.latch_0 == self.latch_0
        &&& after.latch_1 == self.latch_1
    }

    /// The bank counts follow the new cartridge.
    fn update_cartridge(&mut self, cartridge: Cartridge)
        ensures
            final(self).cart == cartridge,
            final(self).ram == old(self).ram,
            final(self).vram == old(self).vram,
            final(self).mirror_mode == old(self).mirror_mode,
            final(self).prg_bank_8000 == old(self).prg_bank_8000,
            final(self).chr_bank_0_fd == old(self).chr_bank_0_fd,
            final(self).chr_bank_0_fe == old(self).chr_bank_0_fe,
            final(self).chr_bank_1_fd == old(self).chr_bank_1_fd,
            final(self).chr_bank_1_fe == old(self).chr_bank_1_fe,
            final(self).latch_0 == old(self).latch_0,
            final(self).latch_1 == old(self).latch_1,
    {
        self.prg_banks = cartridge.prg_rom.len() / 0x2000;
        self.chr_banks = cartridge.chr_rom.len() / 0x1000;
        self.cart = cartridge;
    }

    open spec fn rom_offset(&self, addr: u16) -> Option<u32> {
        (if addr >= 0x8000 { Some(self.prg_index(addr) as u32) } else { None::<u32> })
    }

    fn get_prg_rom_offset(&self, addr: u16) -> (r: Option<u32>)
        ensures
            r == self.rom_offset(addr),
    {
        if addr >= 0x8000 {
            let o = self.prg_offset(addr);
            Some(o as u32)
        } else {
            None
        }
    }

    open spec fn sram(&self) -> Option<Seq<u8>> {
        Some(self.ram@)
    }

    /// The 8 KiB of work RAM.
    fn get_sram(&self) -> (r: Option<Vec<u8>>)
        ensures
            r matches Some(v) && v@ == self.ram@,
    {
        let mut v: Vec<u8> = Vec::with_capacity(8192);
        let mut i: usize = 0;
        while i < 8192
            invariant
                i <= 8192,
                v@ == self.ram@.take(i as int),
            decreases 8192 - i,
        {
            v.push(self.ram[i]);
            i += 1;
            assert(v@ =~= self.ram@.take(i as int));
        }
        assert(self.ram@.take(8192) =~= self.ram@);
        Some(v)
    }

    /// Loads the work RAM from `data`, as far as both reach.
    fn set_sram(&mut self, data: &[u8])
        ensures
            forall|i: int| 0 <= i < 8192 ==> #[trigger] final(self).ram@[i]
                == (if i < data@.len() { data@[i] } else { old(self).ram@[i] }),
    {
        let n = if data.len() < 8192 { data.len() } else { 8192 };
        let mut i: usize = 0;
        while i < n
            invariant
                n <= 8192,
                n <= data@.len(),
                n == (if data@.len() < 8192 { data@.len() } else { 8192 }),
                i <= n,
                self.wf(),
                self.cart == old(self).cart,
                self.vram == old(self).vram,
                self.mirror_mode == old(self).mirror_mode,
                self.prg_bank_8000 == old(self).prg_bank_8000,
                self.chr_bank_0_fd == old(self).chr_bank_0_fd,
                self.chr_bank_0_fe == old(self).chr_bank_0_fe,
                self.chr_bank_1_fd == old(self).chr_bank_1_fd,
                self.chr_bank_1_fe == old(self).chr_bank_1_fe,
                forall|k: int| 0 <= k < 8192 ==> #[trigger] self.ram@[k]
                    == (if k < i { data@[k] } else { old(self).ram@[k] }),
            decreases n - i,
        {
            self.ram[i] = data[i];
            i += 1;
        }
    }

    fn write_state_to(&self, writer: &mut Vec<u8>) {
        self.ram.write(writer);
        self.vram.write(writer);
        self.mirror_mode.write(writer);
        self.prg_bank_8000.write(writer);
        self.chr_bank_0_fd.write(writer);
        self.chr_bank_0_fe.write(writer);
        self.chr_bank_1_fd.write(writer);
        self.chr_bank_1_fe.write(writer);
        self.latch_0.write(writer);
        self.latch_1.write(writer);
        assert(writer@ =~= old(writer)@ + self.saved_bytes());
    }

    open spec fn state_fits(&self, rest: Seq<u8>) -> bool {
        mmc2_state_fits(self.cart, rest)
    }

    /// Bank numbers that the registers cannot hold, and latch bytes other
    /// than 0 and 1, are refused.
    #[verifier::rlimit(80)]
    fn read_state_from(&mut self, reader: &mut StateReader) -> (res: Result<(), StateError>) {
        let ghost r0 = reader.rest();
        let ram = <[u8; 8192]>::read(reader)?;
        assert(reader.rest() =~= r0.skip(8192));
        let vram = read_vram(reader)?;
        assert(reader.rest() =~= r0.skip(10240));
        let mirror_mode = read_supported_mirror(reader)?;
        assert(reader.rest() =~= r0.skip(10241));
        let prg_bank_8000 = read_usize_at_most(reader, 0x0F)?;
        assert(reader.rest() =~= r0.skip(10249));
        let chr_bank_0_fd = read_usize_at_most(reader, 0x1F)?;
        assert(reader.rest() =~= r0.skip(10257));
        let chr_bank_0_fe = read_usize_at_most(reader, 0x1F)?;
        assert(reader.rest() =~= r0.skip(10265));
        let chr_bank_1_fd = read_usize_at_most(reader, 0x1F)?;
        assert(reader.rest() =~= r0.skip(10273));
        let chr_bank_1_fe = read_usize_at_most(reader, 0x1F)?;
        assert(reader.rest() =~= r0.skip(10281));
        let latch_0 = read_bool_strict(reader)?;
        assert(reader.rest() =~= r0.skip(10282));
        let latch_1 = read_bool_strict(reader)?;
        self.ram = ram;
        self.vram = vram;
        self.mirror_mode = mirror_mode;
        self.prg_bank_8000 = prg_bank_8000;
        self.chr_bank_0_fd = chr_bank_0_fd;
        self.chr_bank_0_fe = chr_bank_0_fe;
        self.chr_bank_1_fd = chr_bank_1_fd;
        self.chr_bank_1_fe = chr_bank_1_fe;
        self.latch_0 = latch_0;
        self.latch_1 = latch_1;
        self.prg_banks = self.cart.prg_rom.len() / 0x2000;
        self.chr_banks = self.cart.chr_rom.len() / 0x1000;
        assert(r0.take(10283) =~= self.saved_bytes());
        Ok(())
    }
}

} // verus!
