//! TQROM (mapper 119): an MMC3-style board whose character windows can
//! each map 8 KiB of on-board RAM instead of ROM, selected by bit 6 of the
//! bank number.
use vstd::prelude::*;
use crate::save_state::{word_at, words_fit, flags_fit, flag_fits, words_outcome, flags_outcome};
use crate::mapper::mirror_fits;
use crate::bits::lemma_addr_fields;
use crate::bits::lemma_and_bounds;
use crate::cartridge::Cartridge;
use crate::mapper::{translate_vram, vram_index, mirror_tag, read_vram, read_supported_mirror, Mapper, MirrorMode};
use crate::mapper_txsrom::{signed_byte, get_bank_offset, bank_offset, mmc3_prg_banks, mmc3_prg_offsets};
use crate::save_state::{
    WriteState, ReadState, StateReader, StateError, bool_bytes, bools_bytes, usizes_bytes, write_usize_array,
    read_usize_array, write_bool_array, read_bool_array, read_bool_strict, lemma_usizes_bytes_len,
};

verus! {

/// The raw character bank numbers of the eight 1 KiB windows; bit 7 of
/// the select register swaps which half holds the 2 KiB pairs.
pub open spec fn tqrom_chr_banks(select: u8, data: Seq<u8>) -> Seq<u8> {
    if select & 0x80 == 0 {
        seq![data[0] & 0xFE, (data[0] & 0xFE) | 1, data[1] & 0xFE, (data[1] & 0xFE) | 1, data[2], data[3], data[4], data[5]]
    } else {
        seq![data[2], data[3], data[4] & 0xFE, (data[4] & 0xFE) | 1, data[5] & 0xFE, (data[5] & 0xFE) | 1, data[6], data[7]]
    }
}

/// Whether a raw bank number selects character RAM.
pub open spec fn tqrom_ram_bank(raw: u8) -> bool {
    raw & 0x40 != 0
}

/// The offset of a window: one of four 2 KiB steps in character RAM, or a
/// 1 KiB ROM bank, or 0 without ROM.
pub open spec fn tqrom_chr_offset(raw: u8, chr_len: int) -> usize {
    if tqrom_ram_bank(raw) {
        (((raw & 0x3F) % 4) * 2048) as usize
    } else if chr_len > 0 {
        bank_offset(chr_len, 0x400, (raw & 0x3F) as int) as usize
    } else {
        0
    }
}

/// Whether every character RAM window stays inside the 8 KiB of RAM and
/// every ROM window below four megabytes.
pub open spec fn tqrom_windows_fit(offset_chr: Seq<usize>, modes: Seq<bool>) -> bool {
    forall|j: int| 0 <= j < 8 ==> if #[trigger] modes[j] {
        offset_chr[j] + 0x400 <= 8192
    } else {
        offset_chr[j] < 0x400000
    }
}

/// The eight window offsets saved at the front of `r`.
pub open spec fn saved_offsets(r: Seq<u8>) -> Seq<usize> {
    Seq::new(8, |j: int| word_at(r, j) as usize)
}

/// The eight window kinds (RAM or ROM) saved at the front of `r`.
pub open spec fn saved_modes(r: Seq<u8>) -> Seq<bool> {
    Seq::new(8, |j: int| r[j] == 1)
}

fn windows_fit(offset_chr: &[usize; 8], modes: &[bool; 8]) -> (r: bool)
    ensures
        r == tqrom_windows_fit(offset_chr@, modes@),
{
    let mut i: usize = 0;
    while i < 8
        invariant
            i <= 8,
            forall|j: int| 0 <= j < i ==> if #[trigger] modes[j] {
                offset_chr[j] + 0x400 <= 8192
            } else {
                offset_chr[j] < 0x400000
            },
        decreases 8 - i,
    {
        if modes[i] {
            if offset_chr[i] > 8192 - 0x400 {
                return false;
            }
        } else if offset_chr[i] >= 0x400000 {
            return false;
        }
        i += 1;
    }
    true
}

pub struct MapperTqrom {
    pub cart: Cartridge,
    pub chr_ram: [u8; 8192],
    pub vram: [u8; 2048],
    pub mirror_mode: MirrorMode,
    pub reg_bank_select: u8,
    pub reg_bank_data: [u8; 8],
    pub offset_prg: [usize; 4],
    pub offset_chr: [usize; 8],
    pub chr_ram_mode: [bool; 8],
    pub irq_enabled: bool,
    pub irq_pending: bool,
    pub irq_reload: bool,
    pub irq_counter: u8,
    pub irq_latch: u8,
    pub last_a12: bool,
}

impl MapperTqrom {
    pub const ID: u8 = 119;

    pub open spec fn chr_window(&self, addr: u16) -> int {
        (addr / 0x400) as int
    }

    /// Without character ROM, pattern reads of ROM windows give 0.
    pub open spec fn read_value(&self, addr: u16) -> u8 {
        if addr <= 0x1FFF {
            let w = self.chr_window(addr);
            let at = self.offset_chr[w] + (addr & 0x3FF);
            if self.chr_ram_mode[w] {
                self.chr_ram@[at]
            } else if self.cart.chr_rom@.len() == 0 {
                0
            } else {
                self.cart.chr_rom@[at % (self.cart.chr_rom@.len() as int)]
            }
        } else if 0x2000 <= addr <= 0x3EFF {
            self.vram@[vram_index(self.mirror_mode, addr)]
        } else if addr >= 0x8000 {
            self.cart.prg_rom@[self.offset_prg[((addr - 0x8000) / 0x2000) as int] + (addr & 0x1FFF)]
        } else {
            0
        }
    }

    /// Everything that `wf` asks but the window bounds.
    pub open spec fn layout_wf(&self) -> bool {
        &&& 0x2000 <= self.cart.prg_rom@.len() <= 0x400000
        &&& (self.cart.chr_rom@.len() == 0 || 0x400 <= self.cart.chr_rom@.len())
        &&& self.cart.chr_rom@.len() <= 0x400000
        &&& self.mirror_mode.is_supported()
    }

    pub fn new(cart: Cartridge) -> (m: MapperTqrom)
        requires
            cart.wf(),
            cart.prg_rom@.len() > 0,
        ensures
            m.wf(),
            m.cart == cart,
            m.chr_ram@ == Seq::new(8192, |i: int| 0u8),
            m.vram@ == Seq::new(2048, |i: int| 0u8),
            m.mirror_mode == MirrorMode::MirrorHorizontal,
            m.reg_bank_select == 0,
            m.reg_bank_data@ == Seq::new(8, |i: int| 0u8),
            m.offset_prg@ == mmc3_prg_offsets(0, Seq::new(8, |i: int| 0u8), cart.prg_rom@.len() as int),
            !m.irq_enabled && !m.irq_pending && !m.irq_reload && !m.last_a12,
            m.irq_counter == 0 && m.irq_latch == 0,
    {
        let mut m = MapperTqrom {
            cart,
            chr_ram: [0; 8192],
            vram: [0; 2048],
            mirror_mode: MirrorMode::MirrorHorizontal,
            reg_bank_select: 0,
            reg_bank_data: [0; 8],
            offset_prg: [0; 4],
            offset_chr: [0; 8],
            chr_ram_mode: [false; 8],
            irq_enabled: false,
            irq_pending: false,
            irq_reload: false,
            irq_counter: 0,
            irq_latch: 0,
            last_a12: false,
        };
        assert(m.chr_ram@ =~= Seq::new(8192, |i: int| 0u8));
        assert(m.vram@ =~= Seq::new(2048, |i: int| 0u8));
        assert(m.reg_bank_data@ =~= Seq::new(8, |i: int| 0u8));
        m.update_banks();
        m
    }

    /// Recomputes every window from the select and bank registers.
    fn update_banks(&mut self)
        requires
            old(self).layout_wf(),
        ensures
            final(self).wf(),
            final(self).offset_prg@ == mmc3_prg_offsets(old(self).reg_bank_select, old(self).reg_bank_data@,
                old(self).cart.prg_rom@.len() as int),
            forall|i: int| 0 <= i < 8 ==> #[trigger] final(self).chr_ram_mode[i]
                == tqrom_ram_bank(tqrom_chr_banks(old(self).reg_bank_select, old(self).reg_bank_data@)[i]),
            forall|i: int| 0 <= i < 8 ==> #[trigger] final(self).offset_chr[i]
                == tqrom_chr_offset(tqrom_chr_banks(old(self).reg_bank_select, old(self).reg_bank_data@)[i],
                old(self).cart.chr_rom@.len() as int),
            final(self).cart == old(self).cart,
            final(self).chr_ram == old(self).chr_ram,
            final(self).vram == old(self).vram,
            final(self).reg_bank_select == old(self).reg_bank_select,
            final(self).reg_bank_data == old(self).reg_bank_data,
            final(self).mirror_mode == old(self).mirror_mode,
            final(self).irq_enabled == old(self).irq_enabled,
            final(self).irq_pending == old(self).irq_pending,
            final(self).irq_reload == old(self).irq_reload,
            final(self).irq_counter == old(self).irq_counter,
            final(self).irq_latch == old(self).irq_latch,
            final(self).last_a12 == old(self).last_a12,
    {
        let d = self.reg_bank_data;
        let select = self.reg_bank_select;
        let prg_len = self.cart.prg_rom.len();
        let b6 = signed_byte(d[6]);
        let b7 = signed_byte(d[7]);
        if select & 0x40 == 0 {
            self.offset_prg[0] = get_bank_offset(prg_len, 0x2000, b6);
            self.offset_prg[1] = get_bank_offset(prg_len, 0x2000, b7);
            self.offset_prg[2] = get_bank_offset(prg_len, 0x2000, -2);
            self.offset_prg[3] = get_bank_offset(prg_len, 0x2000, -1);
        } else {
            self.offset_prg[0] = get_bank_offset(prg_len, 0x2000, -2);
            self.offset_prg[1] = get_bank_offset(prg_len, 0x2000, b7);
            self.offset_prg[2] = get_bank_offset(prg_len, 0x2000, b6);
            self.offset_prg[3] = get_bank_offset(prg_len, 0x2000, -1);
        }
        assert(self.offset_prg@ =~= mmc3_prg_offsets(select, d@, prg_len as int));
        let chr_len = self.cart.chr_rom.len();
        let banks: [u8; 8] = if select & 0x80 == 0 {
            let p0 = d[0] & 0xFE;
            let p1 = d[1] & 0xFE;
            [p0, p0 | 1, p1, p1 | 1, d[2], d[3], d[4], d[5]]
        } else {
            let p4 = d[4] & 0xFE;
            let p5 = d[5] & 0xFE;
            [d[2], d[3], p4, p4 | 1, p5, p5 | 1, d[6], d[7]]
        };
        assert(banks@ =~= tqrom_chr_banks(select, d@));
        let mut i: usize = 0;
        while i < 8
            invariant
                i <= 8,
                chr_len == self.cart.chr_rom@.len(),
                banks@ == tqrom_chr_banks(select, d@),
                self.layout_wf(),
                self.offset_prg@ == mmc3_prg_offsets(select, d@, prg_len as int),
                forall|j: int| 0 <= j < 4 ==> #[trigger] self.offset_prg[j] + 0x2000 <= prg_len,
                prg_len == self.cart.prg_rom@.len(),
                self.cart == old(self).cart,
                self.chr_ram == old(self).chr_ram,
                self.vram == old(self).vram,
                self.reg_bank_select == select,
                self.reg_bank_data == d,
                d == old(self).reg_bank_data,
                select == old(self).reg_bank_select,
                self.mirror_mode == old(self).mirror_mode,
                self.irq_enabled == old(self).irq_enabled,
                self.irq_pending == old(self).irq_pending,
                self.irq_reload == old(self).irq_reload,
                self.irq_counter == old(self).irq_counter,
                self.irq_latch == old(self).irq_latch,
                self.last_a12 == old(self).last_a12,
                forall|j: int| 0 <= j < i ==> #[trigger] self.chr_ram_mode[j] == tqrom_ram_bank(banks[j]),
                forall|j: int| 0 <= j < i ==> #[trigger] self.offset_chr[j]
                    == tqrom_chr_offset(banks[j], chr_len as int),
                forall|j: int| 0 <= j < i ==> if #[trigger] self.chr_ram_mode[j] {
                    self.offset_chr[j] + 0x400 <= 8192
                } else {
                    self.offset_chr[j] < 0x400000
                },
            decreases 8 - i,
        {
            let raw = banks[i];
            let ram = raw & 0x40 != 0;
            let bank_val = raw & 0x3F;
            proof { lemma_and_bounds(); }
            self.chr_ram_mode[i] = ram;
            self.offset_chr[i] = if ram {
                (bank_val as usize % 4) * 2048
            } else if chr_len > 0 {
                get_bank_offset(chr_len, 0x400, bank_val as i32)
            } else {
                0
            };
            i += 1;
        }
        proof {
            assert forall|j: int| 0 <= j < 4 implies #[trigger] self.offset_prg[j] + 0x2000 <= prg_len by {
                let b = mmc3_prg_banks(select, d@)[j];
                let n = (prg_len / 0x2000) as int;
                assert(0 <= b % n < n) by (nonlinear_arith)
                    requires
                        n >= 1,
                ;
                crate::mapper::lemma_bank_fits(b % n, 0x2000, 0, prg_len as int);
            }
        }
    }

    fn prg_offset(&self, addr: u16) -> (r: usize)
        requires
            self.wf(),
            addr >= 0x8000,
        ensures
            r == self.offset_prg[((addr - 0x8000) / 0x2000) as int] + (addr & 0x1FFF),
            r < self.cart.prg_rom@.len(),
    {
        proof { lemma_and_bounds(); }
        self.offset_prg[((addr - 0x8000) / 0x2000) as usize] + (addr & 0x1FFF) as usize
    }
}

/// The fields are all there, in range, the flag bytes are 0 or 1, and
/// every character window stays inside the memory it reads.
pub open spec fn tqrom_state_fits(cart: Cartridge, rest: Seq<u8>) -> bool {
    &&& rest.len() >= 10360
    &&& mirror_fits(rest.skip(10240))
    &&& words_fit(rest.skip(10250), 4, (cart.prg_rom@.len() - 0x2000) as usize)
    &&& words_fit(rest.skip(10282), 8, 0x3FFFFF)
    &&& flags_fit(rest.skip(10346), 8)
    &&& flag_fits(rest.skip(10354))
    &&& flag_fits(rest.skip(10355))
    &&& flag_fits(rest.skip(10356))
    &&& flag_fits(rest.skip(10359))
    &&& tqrom_windows_fit(saved_offsets(rest.skip(10282)), saved_modes(rest.skip(10346)))
}

impl Mapper for MapperTqrom {
    open spec fn wf(&self) -> bool {
        &&& self.layout_wf()
        &&& forall|i: int| 0 <= i < 4 ==> #[trigger] self.offset_prg[i] + 0x2000 <= self.cart.prg_rom@.len()
        &&& forall|i: int| 0 <= i < 8 ==> if #[trigger] self.chr_ram_mode[i] {
            self.offset_chr[i] + 0x400 <= 8192
        } else {
            self.offset_chr[i] < 0x400000
        }
    }

    open spec fn accepts(&self, cart: &Cartridge) -> bool {
        &&& 0x2000 <= cart.prg_rom@.len() <= 0x400000
        &&& (cart.chr_rom@.len() == 0 || 0x400 <= cart.chr_rom@.len())
        &&& cart.chr_rom@.len() <= 0x400000
    }

    #[verifier::rlimit(20)]
    open spec fn saved_bytes(&self) -> Seq<u8> {
        self.chr_ram@ + self.vram@ + seq![mirror_tag(self.mirror_mode)] + seq![self.reg_bank_select]
            + self.reg_bank_data@ + usizes_bytes(self.offset_prg@) + usizes_bytes(self.offset_chr@)
            + bools_bytes(self.chr_ram_mode@) + bool_bytes(self.irq_enabled) + bool_bytes(self.irq_pending)
            + bool_bytes(self.irq_reload) + seq![self.irq_counter] + seq![self.irq_latch]
            + bool_bytes(self.last_a12)
    }

    open spec fn loaded_bytes(&self) -> Seq<u8> {
        self.saved_bytes()
    }

    open spec fn id(&self) -> u8 {
        119
    }

    open spec fn peek_value(&self, addr: u16) -> u8 {
        self.read_value(addr)
    }

    /// The board after a read of `addr`.
    open spec fn after_read(&self, addr: u16) -> Self {
        *self
    }

    fn peek(&mut self, addr: u16) -> (r: u8)
        ensures
            r == old(self).read_value(addr),
            *final(self) == *old(self),
    {
        if addr <= 0x1FFF {
            let w = (addr / 0x400) as usize;
            let offset = (addr & 0x3FF) as usize;
            proof { lemma_and_bounds(); }
            if self.chr_ram_mode[w] {
                self.chr_ram[self.offset_chr[w] + offset]
            } else if self.cart.chr_rom.len() == 0 {
                0
            } else {
                self.cart.chr_rom[(self.offset_chr[w] + offset) % self.cart.chr_rom.len()]
            }
        } else if addr <= 0x3EFF {
            self.vram[translate_vram(self.mirror_mode, addr)]
        } else if addr >= 0x8000 {
            self.cart.prg_rom[self.prg_offset(addr)]
        } else {
            0
        }
    }

    /// What a write of `val` to `addr` leaves: the registers, banks and
    /// memories as this board's `poke` sets them.
    open spec fn written(&self, addr: u16, val: u8, after: Self) -> bool {
        &&& after.cart == self.cart
        &&& after.vram == self.vram
        &&& after.chr_ram@ == (if addr <= 0x1FFF && self.chr_ram_mode[(addr / 0x400) as int] {
                self.chr_ram@.update(self.offset_chr[(addr / 0x400) as int] + (addr & 0x3FF), val)
            } else {
                self.chr_ram@
            })
        &&& after.mirror_mode == (if 0x2000 <= addr <= 0x3EFF && (addr & 7 == 0 || addr & 7 == 2) {
                if val & 1 == 0 { MirrorMode::MirrorHorizontal } else { MirrorMode::MirrorVertical }
            } else if 0xA000 <= addr <= 0xBFFF && addr & 1 == 0 {
                if val & 1 == 0 { MirrorMode::MirrorVertical } else { MirrorMode::MirrorHorizontal }
            } else {
                self.mirror_mode
            })
        &&& after.reg_bank_select == (if 0x8000 <= addr <= 0x9FFF && addr & 1 == 0 {
                val
            } else {
                self.reg_bank_select
            })
        &&& after.reg_bank_data@ == (if 0x8000 <= addr <= 0x9FFF && addr & 1 == 1 {
                self.reg_bank_data@.update((self.reg_bank_select & 7) as int, val)
            } else {
                self.reg_bank_data@
            })
        &&& 0x8000 <= addr <= 0x9FFF && addr & 1 == 1 ==> after.offset_prg@ == mmc3_prg_offsets(
                after.reg_bank_select, after.reg_bank_data@, self.cart.prg_rom@.len() as int)
        &&& !(0x8000 <= addr <= 0x9FFF && addr & 1 == 1) ==> after.offset_prg == self.offset_prg
                && after.offset_chr == self.offset_chr && after.chr_ram_mode == self.chr_ram_mode
        &&& after.irq_latch == (if 0xC000 <= addr <= 0xDFFF && addr & 1 == 0 { val } else { self.irq_latch })
        &&& after.irq_counter == (if 0xC000 <= addr <= 0xDFFF && addr & 1 == 1 {
                self.irq_latch
            } else {
                self.irq_counter
            })
        &&& after.irq_reload == (if 0xC000 <= addr <= 0xDFFF && addr & 1 == 1 { true } else { self.irq_reload })
        &&& after.irq_enabled == (if addr >= 0xE000 { addr & 1 == 1 } else { self.irq_enabled })
        &&& after.irq_pending == self.irq_pending
        &&& after.last_a12 == self.last_a12
    }

    /// Pattern writes reach character RAM windows only; writes to the
    /// nametable range set the mirroring at offsets 0 and 2 of each group
    /// of eight; 0x8000 selects a bank register (odd addresses write it and
    /// recompute the windows), 0xA000 sets the mirroring, 0xC000 the
    /// interrupt latch and reload, 0xE000 disables or enables the interrupt.
    fn poke(&mut self, addr: u16, val: u8)
        ensures
            final(self).cart == old(self).cart,
            final(self).vram == old(self).vram,
            final(self).chr_ram@ == (if addr <= 0x1FFF && old(self).chr_ram_mode[(addr / 0x400) as int] {
                old(self).chr_ram@.update(old(self).offset_chr[(addr / 0x400) as int] + (addr & 0x3FF), val)
            } else {
                old(self).chr_ram@
            }),
            final(self).mirror_mode == (if 0x2000 <= addr <= 0x3EFF && (addr & 7 == 0 || addr & 7 == 2) {
                if val & 1 == 0 { MirrorMode::MirrorHorizontal } else { MirrorMode::MirrorVertical }
            } else if 0xA000 <= addr <= 0xBFFF && addr & 1 == 0 {
                if val & 1 == 0 { MirrorMode::MirrorVertical } else { MirrorMode::MirrorHorizontal }
            } else {
                old(self).mirror_mode
            }),
            final(self).reg_bank_select == (if 0x8000 <= addr <= 0x9FFF && addr & 1 == 0 {
                val
            } else {
                old(self).reg_bank_select
            }),
            final(self).reg_bank_data@ == (if 0x8000 <= addr <= 0x9FFF && addr & 1 == 1 {
                old(self).reg_bank_data@.update((old(self).reg_bank_select & 7) as int, val)
            } else {
                old(self).reg_bank_data@
            }),
            0x8000 <= addr <= 0x9FFF && addr & 1 == 1 ==> final(self).offset_prg@ == mmc3_prg_offsets(
                final(self).reg_bank_select, final(self).reg_bank_data@, old(self).cart.prg_rom@.len() as int),
            !(0x8000 <= addr <= 0x9FFF && addr & 1 == 1) ==> final(self).offset_prg == old(self).offset_prg
                && final(self).offset_chr == old(self).offset_chr && final(self).chr_ram_mode == old(self).chr_ram_mode,
            final(self).irq_latch == (if 0xC000 <= addr <= 0xDFFF && addr & 1 == 0 { val } else { old(self).irq_latch }),
            final(self).irq_counter == (if 0xC000 <= addr <= 0xDFFF && addr & 1 == 1 {
                old(self).irq_latch
            } else {
                old(self).irq_counter
            }),
            final(self).irq_reload == (if 0xC000 <= addr <= 0xDFFF && addr & 1 == 1 { true } else { old(self).irq_reload }),
            final(self).irq_enabled == (if addr >= 0xE000 { addr & 1 == 1 } else { old(self).irq_enabled }),
            final(self).irq_pending == old(self).irq_pending,
            final(self).last_a12 == old(self).last_a12,
    {
        proof { lemma_addr_fields(addr); }
        let odd = addr & 1 == 1;
        if addr <= 0x1FFF {
            let w = (addr / 0x400) as usize;
            let offset = (addr & 0x3FF) as usize;
            proof { lemma_and_bounds(); }
            if self.chr_ram_mode[w] {
                let i = self.offset_chr[w] + offset;
                self.chr_ram[i] = val;
            }
        } else if addr <= 0x3EFF {
            let low = addr & 0x7;
            if low == 0 || low == 2 {
                self.mirror_mode = if val & 1 == 0 {
                    MirrorMode::MirrorHorizontal
                } else {
                    MirrorMode::MirrorVertical
                };
            }
        } else if 0x8000 <= addr && addr <= 0x9FFF {
            if !odd {
                self.reg_bank_select = val;
            } else {
                let select = self.reg_bank_select;
                let bank = select & 7;
                proof { lemma_and_bounds(); }
                self.reg_bank_data[bank as usize] = val;
                self.update_banks();
            }
        } else if 0xA000 <= addr && addr <= 0xBFFF {
            if !odd {
                self.mirror_mode = if val & 1 == 0 {
                    MirrorMode::MirrorVertical
                } else {
                    MirrorMode::MirrorHorizontal
                };
            }
        } else if 0xC000 <= addr && addr <= 0xDFFF {
            if !odd {
                self.irq_latch = val;
            } else {
                self.irq_counter = self.irq_latch;
                self.irq_reload = true;
            }
        } else if addr >= 0xE000 {
            self.irq_enabled = odd;
        }
    }

    fn check_irq(&self) -> (r: bool)
        ensures
            r == (self.irq_enabled && self.irq_pending),
    {
        self.irq_enabled && self.irq_pending
    }

    open spec fn rom_offset(&self, addr: u16) -> Option<u32> {
        None
    }

    /// No CPU address reads program ROM at a fixed offset here.
    fn get_prg_rom_offset(&self, addr: u16) -> (r: Option<u32>) {
        None
    }

    open spec fn sram(&self) -> Option<Seq<u8>> {
        None
    }

    fn get_sram(&self) -> (r: Option<Vec<u8>>) {
        None
    }

    fn get_id(&self) -> (r: u8) {
        Self::ID
    }

    /// What putting `cartridge` in leaves: the board's registers as
    /// `update_cartridge` keeps them and its offsets recomputed.
    open spec fn cart_updated(&self, cartridge: Cartridge, after: Self) -> bool {
        &&& after.cart == cartridge
        &&& after.offset_prg@ == mmc3_prg_offsets(self.reg_bank_select, self.reg_bank_data@,
                cartridge.prg_rom@.len() as int)
        &&& after.chr_ram == self.chr_ram
        &&& after.vram == self.vram
        &&& after.reg_bank_select == self.reg_bank_select
        &&& after.reg_bank_data == self.reg_bank_data
        &&& after.mirror_mode == self.mirror_mode
    }

    /// The windows are recomputed for the new cartridge.
    fn update_cartridge(&mut self, cartridge: Cartridge)
        ensures
            final(self).cart == cartridge,
            final(self).offset_prg@ == mmc3_prg_offsets(old(self).reg_bank_select, old(self).reg_bank_data@,
                cartridge.prg_rom@.len() as int),
            final(self).chr_ram == old(self).chr_ram,
            final(self).vram == old(self).vram,
            final(self).reg_bank_select == old(self).reg_bank_select,
            final(self).reg_bank_data == old(self).reg_bank_data,
            final(self).mirror_mode == old(self).mirror_mode,
    {
        self.cart = cartridge;
        self.update_banks();
    }

    #[verifier::rlimit(40)]
    fn write_state_to(&self, writer: &mut Vec<u8>) {
        self.chr_ram.write(writer);
        self.vram.write(writer);
        self.mirror_mode.write(writer);
        self.reg_bank_select.write(writer);
        self.reg_bank_data.write(writer);
        write_usize_array(&self.offset_prg, writer);
        write_usize_array(&self.offset_chr, writer);
        write_bool_array(&self.chr_ram_mode, writer);
        self.irq_enabled.write(writer);
        self.irq_pending.write(writer);
        self.irq_reload.write(writer);
        self.irq_counter.write(writer);
        self.irq_latch.write(writer);
        self.last_a12.write(writer);
        assert(writer@ =~= old(writer)@ + self.saved_bytes());
    }

    open spec fn state_fits(&self, rest: Seq<u8>) -> bool {
        tqrom_state_fits(self.cart, rest)
    }

    /// Windows that reach past their memory and flag bytes other than 0
    /// and 1 are refused.
    #[verifier::rlimit(90)]
    fn read_state_from(&mut self, reader: &mut StateReader) -> (res: Result<(), StateError>) {
        let ghost r0 = reader.rest();
        let chr_ram = <[u8; 8192]>::read(reader)?;
        assert(reader.rest() =~= r0.skip(8192));
        let vram = read_vram(reader)?;
        assert(reader.rest() =~= r0.skip(10240));
        let mirror_mode = read_supported_mirror(reader)?;
        assert(reader.rest() =~= r0.skip(10241));
        let reg_bank_select = u8::read(reader)?;
        assert(reader.rest() =~= r0.skip(10242));
        let reg_bank_data = <[u8; 8]>::read(reader)?;
        assert(reader.rest() =~= r0.skip(10250));
        let offset_prg = read_usize_array::<4>(reader, self.cart.prg_rom.len() - 0x2000)?;
        assert(reader.rest() =~= r0.skip(10282));
        let offset_chr = read_usize_array::<8>(reader, 0x3FFFFF)?;
        assert(reader.rest() =~= r0.skip(10346));
        let chr_ram_mode = read_bool_array::<8>(reader)?;
        assert(reader.rest() =~= r0.skip(10354));
        let irq_enabled = read_bool_strict(reader)?;
        assert(reader.rest() =~= r0.skip(10355));
        let irq_pending = read_bool_strict(reader)?;
        assert(reader.rest() =~= r0.skip(10356));
        let irq_reload = read_bool_strict(reader)?;
        assert(reader.rest() =~= r0.skip(10357));
        let irq_counter = u8::read(reader)?;
        assert(reader.rest() =~= r0.skip(10358));
        let irq_latch = u8::read(reader)?;
        assert(reader.rest() =~= r0.skip(10359));
        let last_a12 = read_bool_strict(reader)?;
        proof {
            reveal(words_outcome);
            reveal(flags_outcome);
            assert(offset_chr@ =~= saved_offsets(r0.skip(10282)));
            assert(chr_ram_mode@ =~= saved_modes(r0.skip(10346)));
        }
        if !windows_fit(&offset_chr, &chr_ram_mode) {
            return Err(StateError::InvalidData);
        }
        self.chr_ram = chr_ram;
        self.vram = vram;
        self.mirror_mode = mirror_mode;
        self.reg_bank_select = reg_bank_select;
        self.reg_bank_data = reg_bank_data;
        self.offset_prg = offset_prg;
        self.offset_chr = offset_chr;
        self.chr_ram_mode = chr_ram_mode;
        self.irq_enabled = irq_enabled;
        self.irq_pending = irq_pending;
        self.irq_reload = irq_reload;
        self.irq_counter = irq_counter;
        self.irq_latch = irq_latch;
        self.last_a12 = last_a12;
        proof {
            lemma_usizes_bytes_len(offset_prg@);
            lemma_usizes_bytes_len(offset_chr@);
        }
        assert(r0.take(10360) =~= self.saved_bytes());
        Ok(())
    }
}

} // verus!
