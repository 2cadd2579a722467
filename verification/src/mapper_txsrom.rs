//! TxSROM (mapper 118 here): an MMC3-style board with a bank-select
//! register, eight bank registers, and an interrupt counter clocked by
//! rising edges of PPU address line A12.
use vstd::prelude::*;
use crate::mapper::mirror_fits;
use crate::save_state::{flag_fits, words_fit};
use crate::bits::lemma_addr_fields;
use crate::bits::lemma_and_bounds;
use vstd::arithmetic::div_mod::{lemma_fundamental_div_mod, lemma_fundamental_div_mod_converse};
use crate::cartridge::Cartridge;
use crate::mapper::{
    translate_vram, vram_index, mirror_tag, read_vram, read_supported_mirror, lemma_bank_fits, Mapper,
    MirrorMode,
};
use crate::save_state::{
    WriteState, ReadState, StateReader, StateError, bool_bytes, usizes_bytes, write_usize_array,
    read_usize_array, read_bool_strict, lemma_usizes_bytes_len,
};

verus! {

/// A register byte read as a signed (two's complement) bank number.
pub open spec fn signed_bank(b: u8) -> int {
    if b < 128 { b as int } else { b as int - 256 }
}

pub fn signed_byte(b: u8) -> (r: i32)
    ensures
        r == signed_bank(b),
{
    if b < 128 { b as i32 } else { b as i32 - 256 }
}

/// The byte offset of bank `bank` among the whole banks of `bank_size`
/// bytes in `total` bytes; bank numbers wrap, negative ones counting back
/// from the last bank.
pub open spec fn bank_offset(total: int, bank_size: int, bank: int) -> int {
    (bank % (total / bank_size)) * bank_size
}

pub fn get_bank_offset(total_size: usize, bank_size: usize, bank: i32) -> (r: usize)
    requires
        0 < bank_size <= total_size,
        total_size / bank_size <= i32::MAX,
    ensures
        r == bank_offset(total_size as int, bank_size as int, bank as int),
        r + bank_size <= total_size,
{
    let banks = total_size / bank_size;
    assert(banks >= 1) by (nonlinear_arith)
        requires
            0 < bank_size <= total_size,
            banks == total_size / bank_size,
    ;
    let idx: usize = if bank >= 0 {
        (bank as usize) % banks
    } else {
        let k = (0 - (bank as i64)) as usize;
        let m = k % banks;
        let ghost q = (k as int) / (banks as int);
        proof {
            lemma_fundamental_div_mod(k as int, banks as int);
        }
        if m == 0 {
            proof {
                assert(bank as int == (-q) * (banks as int) + 0) by (nonlinear_arith)
                    requires
                        k as int == (banks as int) * q + 0,
                        bank as int == -(k as int),
                ;
                lemma_fundamental_div_mod_converse(bank as int, banks as int, -q, 0);
            }
            0
        } else {
            proof {
                assert(bank as int == (-q - 1) * (banks as int) + (banks - m)) by (nonlinear_arith)
                    requires
                        k as int == (banks as int) * q + (m as int),
                        bank as int == -(k as int),
                ;
                lemma_fundamental_div_mod_converse(bank as int, banks as int, -q - 1, (banks - m) as int);
            }
            banks - m
        }
    };
    proof {
        lemma_bank_fits(idx as int, bank_size as int, 0, total_size as int);
    }
    idx * bank_size
}

/// The program bank numbers of the four 8 KiB windows: bit 6 of the
/// select register swaps the first and third windows.
pub open spec fn mmc3_prg_banks(select: u8, data: Seq<u8>) -> Seq<int> {
    if select & 0x40 == 0 {
        seq![signed_bank(data[6]), signed_bank(data[7]), -2, -1]
    } else {
        seq![-2, signed_bank(data[7]), signed_bank(data[6]), -1]
    }
}

pub open spec fn mmc3_prg_offsets(select: u8, data: Seq<u8>, prg_len: int) -> Seq<usize> {
    Seq::new(4, |i: int| bank_offset(prg_len, 0x2000, mmc3_prg_banks(select, data)[i]) as usize)
}

/// The character bank numbers of the eight 1 KiB windows: two 2 KiB pairs
/// and four single banks, the halves swapped by bit 7 of the select
/// register.
pub open spec fn txsrom_chr_banks(select: u8, data: Seq<u8>) -> Seq<u8> {
    if select & 0x80 == 0 {
        seq![data[0] & 0xFE, (data[0] & 0xFE) | 1, data[1] & 0xFE, (data[1] & 0xFE) | 1, data[2], data[3], data[4], data[5]]
    } else {
        seq![data[2], data[3], data[4], data[5], data[0] & 0xFE, (data[0] & 0xFE) | 1, data[1] & 0xFE, (data[1] & 0xFE) | 1]
    }
}

pub open spec fn txsrom_chr_offsets(select: u8, data: Seq<u8>, chr_len: int) -> Seq<usize> {
    Seq::new(8, |i: int| bank_offset(chr_len, 0x400, txsrom_chr_banks(select, data)[i] as int) as usize)
}

/// Whether a PPU access of `addr` is a rising edge of A12.
pub open spec fn a12_rises(last_a12: bool, addr: u16) -> bool {
    addr & 0x1000 != 0 && !last_a12
}

/// The interrupt counter after a rising edge: reloaded from the latch when
/// it is 0 or a reload is due, otherwise decremented.
pub open spec fn clocked_counter(counter: u8, reload: bool, latch: u8) -> u8 {
    if counter == 0 || reload { latch } else { (counter - 1) as u8 }
}

pub struct MapperTxSrom {
    pub cart: Cartridge,
    pub ram: [u8; 8192],
    pub vram: [u8; 2048],
    pub reg_bank_select: u8,
    pub reg_bank_data: [u8; 8],
    pub mirror_mode: MirrorMode,
    pub offset_prg: [usize; 4],
    pub offset_chr: [usize; 8],
    pub irq_enabled: bool,
    pub irq_pending: bool,
    pub irq_reload: bool,
    pub irq_counter: u8,
    pub irq_latch: u8,
    pub last_a12: bool,
}

impl MapperTxSrom {
    pub const ID: u8 = 118;

    pub open spec fn chr_index(&self, addr: u16) -> int {
        self.offset_chr[((addr & 0xFC00) >> 10) as int] + (addr & 0x3FF)
    }

    pub open spec fn prg_index(&self, addr: u16) -> int {
        self.offset_prg[((addr & 0x6000) >> 13) as int] + (addr & 0x1FFF)
    }

    pub open spec fn read_value(&self, addr: u16) -> u8 {
        if addr <= 0x1FFF {
            self.cart.chr_rom@[self.chr_index(addr)]
        } else if 0x2000 <= addr <= 0x3EFF {
            self.vram@[vram_index(self.mirror_mode, addr)]
        } else if 0x6000 <= addr <= 0x7FFF {
            self.ram@[(addr & 0x1FFF) as int]
        } else if addr >= 0x8000 {
            self.cart.prg_rom@[self.prg_index(addr)]
        } else {
            0
        }
    }

    /// Everything that `wf` asks but the window bounds.
    pub open spec fn layout_wf(&self) -> bool {
        &&& 0x2000 <= self.cart.prg_rom@.len() <= 0x400000
        &&& 0x400 <= self.cart.chr_rom@.len() <= 0x400000
        &&& self.mirror_mode.is_supported()
    }

    pub fn new(cart: Cartridge) -> (m: MapperTxSrom)
        requires
            cart.wf(),
            cart.prg_rom@.len() > 0,
        ensures
            m.wf(),
            m.cart == cart,
            m.ram@ == Seq::new(8192, |i: int| 0u8),
            m.vram@ == Seq::new(2048, |i: int| 0u8),
            m.mirror_mode == MirrorMode::MirrorHorizontal,
            m.reg_bank_select == 0,
            m.reg_bank_data@ == Seq::new(8, |i: int| 0u8),
            m.offset_prg@ == mmc3_prg_offsets(0, Seq::new(8, |i: int| 0u8), cart.prg_rom@.len() as int),
            m.offset_chr@ == txsrom_chr_offsets(0, Seq::new(8, |i: int| 0u8), cart.chr_rom@.len() as int),
            !m.irq_enabled && !m.irq_pending && !m.irq_reload && !m.last_a12,
            m.irq_counter == 0 && m.irq_latch == 0,
    {
        let mut m = MapperTxSrom {
            cart,
            ram: [0; 8192],
            vram: [0; 2048],
            reg_bank_select: 0,
            reg_bank_data: [0; 8],
            mirror_mode: MirrorMode::MirrorHorizontal,
            offset_prg: [0; 4],
            offset_chr: [0; 8],
            irq_enabled: false,
            irq_pending: false,
            irq_reload: false,
            irq_counter: 0,
            irq_latch: 0,
            last_a12: false,
        };
        assert(m.ram@ =~= Seq::new(8192, |i: int| 0u8));
        assert(m.vram@ =~= Seq::new(2048, |i: int| 0u8));
        assert(m.reg_bank_data@ =~= Seq::new(8, |i: int| 0u8));
        m.update_banks();
        m
    }

    /// Recomputes every window offset from the select and bank registers.
    fn update_banks(&mut self)
        requires
            old(self).layout_wf(),
        ensures
            final(self).wf(),
            final(self).offset_prg@ == mmc3_prg_offsets(old(self).reg_bank_select, old(self).reg_bank_data@,
                old(self).cart.prg_rom@.len() as int),
            final(self).offset_chr@ == txsrom_chr_offsets(old(self).reg_bank_select, old(self).reg_bank_data@,
                old(self).cart.chr_rom@.len() as int),
            final(self).cart == old(self).cart,
            final(self).ram == old(self).ram,
            final(self).vram == old(self).vram,
            final(self).reg_bank_select == old(self).reg_bank_select,
            final(self).reg_bank_data == old(self).reg_bank_data,
            final(self).mirror_mode == old(self).mirror_mode,
            final(self).irq_enabled == old(self).irq_enabled,
            final(self).irq_pending == old(self).irq_pending,
            final(self).irq_reload == old(self).irq_reload,
            final(self).irq_counter == old(self).irq_counter,
            final(self).irq_latch == old(self).irq_latch,
            final(self).last_a12 == old(self).last_a12,
    {
        let d = self.reg_bank_data;
        let select = self.reg_bank_select;
        let prg_len = self.cart.prg_rom.len();
        let b6 = signed_byte(d[6]);
        let b7 = signed_byte(d[7]);
        if select & 0x40 == 0 {
            self.offset_prg[0] = get_bank_offset(prg_len, 0x2000, b6);
            self.offset_prg[1] = get_bank_offset(prg_len, 0x2000, b7);
            self.offset_prg[2] = get_bank_offset(prg_len, 0x2000, -2);
            self.offset_prg[3] = get_bank_offset(prg_len, 0x2000, -1);
        } else {
            self.offset_prg[0] = get_bank_offset(prg_len, 0x2000, -2);
            self.offset_prg[1] = get_bank_offset(prg_len, 0x2000, b7);
            self.offset_prg[2] = get_bank_offset(prg_len, 0x2000, b6);
            self.offset_prg[3] = get_bank_offset(prg_len, 0x2000, -1);
        }
        assert(self.offset_prg@ =~= mmc3_prg_offsets(select, d@, prg_len as int));
        let chr_len = self.cart.chr_rom.len();
        let p0 = d[0] & 0xFE;
        let p1 = d[1] & 0xFE;
        let banks: [u8; 8] = if select & 0x80 == 0 {
            [p0, p0 | 1, p1, p1 | 1, d[2], d[3], d[4], d[5]]
        } else {
            [d[2], d[3], d[4], d[5], p0, p0 | 1, p1, p1 | 1]
        };
        assert(banks@ =~= txsrom_chr_banks(select, d@));
        let mut i: usize = 0;
        while i < 8
            invariant
                i <= 8,
                chr_len == self.cart.chr_rom@.len(),
                banks@ == txsrom_chr_banks(select, d@),
                self.layout_wf(),
                self.offset_prg@ == mmc3_prg_offsets(select, d@, prg_len as int),
                prg_len == self.cart.prg_rom@.len(),
                self.cart == old(self).cart,
                self.ram == old(self).ram,
                self.vram == old(self).vram,
                self.reg_bank_select == select,
                self.reg_bank_data == d,
                d == old(self).reg_bank_data,
                select == old(self).reg_bank_select,
                self.mirror_mode == old(self).mirror_mode,
                self.irq_enabled == old(self).irq_enabled,
                self.irq_pending == old(self).irq_pending,
                self.irq_reload == old(self).irq_reload,
                self.irq_counter == old(self).irq_counter,
                self.irq_latch == old(self).irq_latch,
                self.last_a12 == old(self).last_a12,
                forall|j: int| 0 <= j < i ==> #[trigger] self.offset_chr[j]
                    == bank_offset(chr_len as int, 0x400, banks[j] as int) as usize,
                forall|j: int| 0 <= j < i ==> #[trigger] self.offset_chr[j] + 0x400 <= chr_len,
            decreases 8 - i,
        {
            self.offset_chr[i] = get_bank_offset(chr_len, 0x400, banks[i] as i32);
            i += 1;
        }
        assert(self.offset_chr@ =~= txsrom_chr_offsets(select, d@, chr_len as int));
        assert forall|j: int| 0 <= j < 4 implies #[trigger] self.offset_prg[j] + 0x2000 <= prg_len by {
            let b = mmc3_prg_banks(select, d@)[j];
            let n = (prg_len / 0x2000) as int;
            assert(n >= 1);
            crate::mapper::lemma_mod_below(0, n);
            assert(0 <= b % n < n) by (nonlinear_arith)
                requires
                    n >= 1,
            ;
            lemma_bank_fits(b % n, 0x2000, 0, prg_len as int);
        }
    }

    /// Observes a PPU pattern access: a rising edge of A12 clocks the
    /// interrupt counter.
    fn check_a12(&mut self, addr: u16)
        ensures
            final(self).irq_counter == (if a12_rises(old(self).last_a12, addr) {
                clocked_counter(old(self).irq_counter, old(self).irq_reload, old(self).irq_latch)
            } else {
                old(self).irq_counter
            }),
            final(self).irq_reload == (if a12_rises(old(self).last_a12, addr) { false } else { old(self).irq_reload }),
            final(self).irq_pending == (if a12_rises(old(self).last_a12, addr) && old(self).irq_enabled
                && clocked_counter(old(self).irq_counter, old(self).irq_reload, old(self).irq_latch) == 0 {
                true
            } else {
                old(self).irq_pending
            }),
            final(self).last_a12 == (addr & 0x1000 != 0),
            final(self).cart == old(self).cart,
            final(self).ram == old(self).ram,
            final(self).vram == old(self).vram,
            final(self).reg_bank_select == old(self).reg_bank_select,
            final(self).reg_bank_data == old(self).reg_bank_data,
            final(self).mirror_mode == old(self).mirror_mode,
            final(self).offset_prg == old(self).offset_prg,
            final(self).offset_chr == old(self).offset_chr,
            final(self).irq_enabled == old(self).irq_enabled,
            final(self).irq_latch == old(self).irq_latch,
    {
        let a12 = (addr & 0x1000) > 0;
        if a12 && !self.last_a12 {
            if self.irq_counter == 0 || self.irq_reload {
                self.irq_counter = self.irq_latch;
                self.irq_reload = false;
            } else {
                self.irq_counter = self.irq_counter - 1;
            }
            if self.irq_counter == 0 && self.irq_enabled {
                self.irq_pending = true;
            }
        }
        self.last_a12 = a12;
    }

    /// Writes a register: bank select and bank data (both recompute the
    /// windows), mirroring, interrupt latch and reload, interrupt disable
    /// (which also acknowledges) and enable, each at even or odd addresses.
    fn write_register(&mut self, addr: u16, val: u8)
        requires
            old(self).wf(),
            addr >= 0x8000,
        ensures
            final(self).wf(),
            final(self).reg_bank_select == (if addr <= 0x9FFF && addr & 1 == 0 { val } else { old(self).reg_bank_select }),
            final(self).reg_bank_data@ == (if addr <= 0x9FFF && addr & 1 == 1 {
                old(self).reg_bank_data@.update((old(self).reg_bank_select & 7) as int, val)
            } else {
                old(self).reg_bank_data@
            }),
            addr <= 0x9FFF ==> final(self).offset_prg@ == mmc3_prg_offsets(final(self).reg_bank_select,
                final(self).reg_bank_data@, old(self).cart.prg_rom@.len() as int),
            addr <= 0x9FFF ==> final(self).offset_chr@ == txsrom_chr_offsets(final(self).reg_bank_select,
                final(self).reg_bank_data@, old(self).cart.chr_rom@.len() as int),
            addr > 0x9FFF ==> final(self).offset_prg == old(self).offset_prg && final(self).offset_chr
                == old(self).offset_chr,
            final(self).mirror_mode == (if 0xA000 <= addr <= 0xBFFF && addr & 1 == 0 {
                if val & 1 == 0 { MirrorMode::MirrorVertical } else { MirrorMode::MirrorHorizontal }
            } else {
                old(self).mirror_mode
            }),
            final(self).irq_latch == (if 0xC000 <= addr <= 0xDFFF && addr & 1 == 0 { val } else { old(self).irq_latch }),
            final(self).irq_reload == (if 0xC000 <= addr <= 0xDFFF && addr & 1 == 1 { true } else { old(self).irq_reload }),
            final(self).irq_enabled == (if addr >= 0xE000 { addr & 1 == 1 } else { old(self).irq_enabled }),
            final(self).irq_pending == (if addr >= 0xE000 && addr & 1 == 0 { false } else { old(self).irq_pending }),
            final(self).irq_counter == old(self).irq_counter,
            final(self).last_a12 == old(self).last_a12,
            final(self).cart == old(self).cart,
            final(self).ram == old(self).ram,
            final(self).vram == old(self).vram,
    {
        let odd = addr & 1 == 1;
        proof { lemma_addr_fields(addr); }
        if addr <= 0x9FFF {
            if !odd {
                self.reg_bank_select = val;
            } else {
                let select = self.reg_bank_select;
                let bank = select & 0b111;
                proof { lemma_and_bounds(); }
                self.reg_bank_data[bank as usize] = val;
            }
            self.update_banks();
        } else if addr <= 0xBFFF {
            if !odd {
                self.mirror_mode = if val & 0x1 == 0 {
                    MirrorMode::MirrorVertical
                } else {
                    MirrorMode::MirrorHorizontal
                };
            }
        } else if addr <= 0xDFFF {
            if !odd {
                self.irq_latch = val;
            } else {
                self.irq_reload = true;
            }
        } else {
            if !odd {
                self.irq_enabled = false;
                self.irq_pending = false;
            } else {
                self.irq_enabled = true;
            }
        }
    }

    fn chr_offset(&self, addr: u16) -> (r: usize)
        requires
            self.wf(),
            addr <= 0x1FFF,
        ensures
            r == self.chr_index(addr),
            r < self.cart.chr_rom@.len(),
    {
        proof { lemma_addr_fields(addr); lemma_and_bounds(); }
        self.offset_chr[((addr & 0xFC00) >> 10) as usize] + (addr & 0x3FF) as usize
    }

    fn prg_offset(&self, addr: u16) -> (r: usize)
        requires
            self.wf(),
        ensures
            r == self.prg_index(addr),
            r < self.cart.prg_rom@.len(),
    {
        proof { lemma_addr_fields(addr); lemma_and_bounds(); }
        self.offset_prg[((addr & 0x6000) >> 13) as usize] + (addr & 0x1FFF) as usize
    }
}

/// The fields are all there, in range, and fit the cartridge.
pub open spec fn txsrom_state_fits(cart: Cartridge, rest: Seq<u8>) -> bool {
    &&& rest.len() >= 10352
    &&& mirror_fits(rest.skip(10249))
    &&& words_fit(rest.skip(10250), 4, (cart.prg_rom@.len() - 0x2000) as usize)
    &&& words_fit(rest.skip(10282), 8, (cart.chr_rom@.len() - 0x400) as usize)
    &&& flag_fits(rest.skip(10346))
    &&& flag_fits(rest.skip(10347))
    &&& flag_fits(rest.skip(10348))
    &&& flag_fits(rest.skip(10351))
}

impl Mapper for MapperTxSrom {
    open spec fn wf(&self) -> bool {
        &&& self.layout_wf()
        &&& forall|i: int| 0 <= i < 4 ==> #[trigger] self.offset_prg[i] + 0x2000 <= self.cart.prg_rom@.len()
        &&& forall|i: int| 0 <= i < 8 ==> #[trigger] self.offset_chr[i] + 0x400 <= self.cart.chr_rom@.len()
    }

    /// A new cartridge must still hold every window.
    open spec fn accepts(&self, cart: &Cartridge) -> bool {
        &&& 0x2000 <= cart.prg_rom@.len() <= 0x400000
        &&& 0x400 <= cart.chr_rom@.len() <= 0x400000
        &&& forall|i: int| 0 <= i < 4 ==> #[trigger] self.offset_prg[i] + 0x2000 <= cart.prg_rom@.len()
        &&& forall|i: int| 0 <= i < 8 ==> #[trigger] self.offset_chr[i] + 0x400 <= cart.chr_rom@.len()
    }

    open spec fn saved_bytes(&self) -> Seq<u8> {
        self.ram@ + self.vram@ + seq![self.reg_bank_select] + self.reg_bank_data@ + seq![mirror_tag(self.mirror_mode)]
            + usizes_bytes(self.offset_prg@) + usizes_bytes(self.offset_chr@) + bool_bytes(self.irq_enabled)
            + bool_bytes(self.irq_pending) + bool_bytes(self.irq_reload) + seq![self.irq_counter]
            + seq![self.irq_latch] + bool_bytes(self.last_a12)
    }

    open spec fn loaded_bytes(&self) -> Seq<u8> {
        self.saved_bytes()
    }

    open spec fn id(&self) -> u8 {
        118
    }

    open spec fn peek_value(&self, addr: u16) -> u8 {
        self.read_value(addr)
    }

    /// The board after a read of `addr`.
    open spec fn after_read(&self, addr: u16) -> Self {
        if addr <= 0x1FFF && a12_rises(self.last_a12, addr) {
            let c = clocked_counter(self.irq_counter, self.irq_reload, self.irq_latch);
            Self {
                irq_counter: c,
                irq_reload: false,
                irq_pending: if self.irq_enabled && c == 0 { true } else { self.irq_pending },
                last_a12: addr & 0x1000 != 0,
                ..*self
            }
        } else {
            Self { last_a12: if addr <= 0x1FFF { addr & 0x1000 != 0 } else { self.last_a12 }, ..*self }
        }
    }

    /// Pattern reads clock the interrupt counter on A12 rising edges.
    fn peek(&mut self, addr: u16) -> (r: u8)
        ensures
            r == old(self).read_value(addr),
            final(self).irq_counter == (if addr <= 0x1FFF && a12_rises(old(self).last_a12, addr) {
                clocked_counter(old(self).irq_counter, old(self).irq_reload, old(self).irq_latch)
            } else {
                old(self).irq_counter
            }),
            final(self).irq_reload == (if addr <= 0x1FFF && a12_rises(old(self).last_a12, addr) {
                false
            } else {
                old(self).irq_reload
            }),
            final(self).irq_pending == (if addr <= 0x1FFF && a12_rises(old(self).last_a12, addr) && old(self).irq_enabled
                && clocked_counter(old(self).irq_counter, old(self).irq_reload, old(self).irq_latch) == 0 {
                true
            } else {
                old(self).irq_pending
            }),
            final(self).last_a12 == (if addr <= 0x1FFF { addr & 0x1000 != 0 } else { old(self).last_a12 }),
            final(self).cart == old(self).cart,
            final(self).ram == old(self).ram,
            final(self).vram == old(self).vram,
            final(self).reg_bank_select == old(self).reg_bank_select,
            final(self).reg_bank_data == old(self).reg_bank_data,
            final(self).mirror_mode == old(self).mirror_mode,
            final(self).offset_prg == old(self).offset_prg,
            final(self).offset_chr == old(self).offset_chr,
            final(self).irq_enabled == old(self).irq_enabled,
            final(self).irq_latch == old(self).irq_latch,
    {
        if addr <= 0x1FFF {
            self.check_a12(addr);
            self.cart.chr_rom[self.chr_offset(addr)]
        } else if addr <= 0x3EFF {
            self.vram[translate_vram(self.mirror_mode, addr)]
        } else if 0x6000 <= addr && addr <= 0x7FFF {
            proof { lemma_and_bounds(); }
            self.ram[(addr & 0x1FFF) as usize]
        } else if addr >= 0x8000 {
            self.cart.prg_rom[self.prg_offset(addr)]
        } else {
            0
        }
    }

    /// What a write of `val` to `addr` leaves: the registers, banks and
    /// memories as this board's `poke` sets them.
    open spec fn written(&self, addr: u16, val: u8, after: Self) -> bool {
        &&& after.cart.prg_rom == self.cart.prg_rom
        &&& after.cart.chr_rom@ == (if addr <= 0x1FFF {
                self.cart.chr_rom@.update(self.chr_index(addr), val)
            } else {
                self.cart.chr_rom@
            })
        &&& after.vram@ == (if 0x2000 <= addr <= 0x3EFF {
                self.vram@.update(vram_index(self.mirror_mode, addr), val)
            } else {
                self.vram@
            })
        &&& after.ram@ == (if 0x6000 <= addr <= 0x7FFF {
                self.ram@.update((addr & 0x1FFF) as int, val)
            } else {
                self.ram@
            })
        &&& addr < 0x8000 ==> after.reg_bank_select == self.reg_bank_select
                && after.reg_bank_data == self.reg_bank_data
                && after.mirror_mode == self.mirror_mode
                && after.offset_prg == self.offset_prg
                && after.offset_chr == self.offset_chr
                && after.irq_enabled == self.irq_enabled
                && after.irq_latch == self.irq_latch
        &&& addr <= 0x1FFF ==> after.last_a12 == (addr & 0x1000 != 0)
        &&& addr <= 0x1FFF && a12_rises(self.last_a12, addr) ==> after.irq_counter
                == clocked_counter(self.irq_counter, self.irq_reload, self.irq_latch)
        &&& 0x2000 <= addr <= 0x7FFF ==> after.irq_counter == self.irq_counter
                && after.irq_reload == self.irq_reload
                && after.irq_pending == self.irq_pending
                && after.last_a12 == self.last_a12
        &&& addr >= 0x8000 ==> after.reg_bank_select == (if addr <= 0x9FFF && addr & 1 == 0 {
                val
            } else {
                self.reg_bank_select
            })
        &&& addr >= 0x8000 ==> after.irq_enabled == (if addr >= 0xE000 { addr & 1 == 1 } else { self.irq_enabled })
        &&& addr >= 0x8000 ==> after.irq_latch == (if 0xC000 <= addr <= 0xDFFF && addr & 1 == 0 {
                val
            } else {
                self.irq_latch
            })
    }

    /// Pattern writes clock the interrupt counter like reads and store the
    /// byte; nametable and work RAM writes store it; 0x8000 and up are
    /// registers.
    fn poke(&mut self, addr: u16, val: u8)
        ensures
            final(self).cart.prg_rom == old(self).cart.prg_rom,
            final(self).cart.chr_rom@ == (if addr <= 0x1FFF {
                old(self).cart.chr_rom@.update(old(self).chr_index(addr), val)
            } else {
                old(self).cart.chr_rom@
            }),
            final(self).vram@ == (if 0x2000 <= addr <= 0x3EFF {
                old(self).vram@.update(vram_index(old(self).mirror_mode, addr), val)
            } else {
                old(self).vram@
            }),
            final(self).ram@ == (if 0x6000 <= addr <= 0x7FFF {
                old(self).ram@.update((addr & 0x1FFF) as int, val)
            } else {
                old(self).ram@
            }),
            addr < 0x8000 ==> final(self).reg_bank_select == old(self).reg_bank_select
                && final(self).reg_bank_data == old(self).reg_bank_data
                && final(self).mirror_mode == old(self).mirror_mode
                && final(self).offset_prg == old(self).offset_prg
                && final(self).offset_chr == old(self).offset_chr
                && final(self).irq_enabled == old(self).irq_enabled
                && final(self).irq_latch == old(self).irq_latch,
            addr <= 0x1FFF ==> final(self).last_a12 == (addr & 0x1000 != 0),
            addr <= 0x1FFF && a12_rises(old(self).last_a12, addr) ==> final(self).irq_counter
                == clocked_counter(old(self).irq_counter, old(self).irq_reload, old(self).irq_latch),
            0x2000 <= addr <= 0x7FFF ==> final(self).irq_counter == old(self).irq_counter
                && final(self).irq_reload == old(self).irq_reload
                && final(self).irq_pending == old(self).irq_pending
                && final(self).last_a12 == old(self).last_a12,
            addr >= 0x8000 ==> final(self).reg_bank_select == (if addr <= 0x9FFF && addr & 1 == 0 {
                val
            } else {
                old(self).reg_bank_select
            }),
            addr >= 0x8000 ==> final(self).irq_enabled == (if addr >= 0xE000 { addr & 1 == 1 } else { old(self).irq_enabled }),
            addr >= 0x8000 ==> final(self).irq_latch == (if 0xC000 <= addr <= 0xDFFF && addr & 1 == 0 {
                val
            } else {
                old(self).irq_latch
            }),
    {
        if addr <= 0x1FFF {
            self.check_a12(addr);
            let i = self.chr_offset(addr);
            self.cart.chr_rom.set(i, val);
        } else if addr <= 0x3EFF {
            let i = translate_vram(self.mirror_mode, addr);
            self.vram[i] = val;
        } else if 0x6000 <= addr && addr <= 0x7FFF {
            proof { lemma_and_bounds(); }
            self.ram[(addr & 0x1FFF) as usize] = val;
        } else if addr >= 0x8000 {
            self.write_register(addr, val);
        }
    }

    fn check_irq(&self) -> (r: bool)
        ensures
            r == self.irq_pending,
    {
        self.irq_pending
    }

    fn get_id(&self) -> (r: u8) {
        Self::ID
    }

    /// What putting `cartridge` in leaves: the board's registers as
    /// `update_cartridge` keeps them and its offsets recomputed.
    open spec fn cart_updated(&self, cartridge: Cartridge, after: Self) -> bool {
        &&& after.cart == cartridge
        &&& after.ram == self.ram
        &&& after.vram == self.vram
        &&& after.reg_bank_select == self.reg_bank_select
        &&& after.reg_bank_data == self.reg_bank_data
        &&& after.mirror_mode == self.mirror_mode
        &&& after.offset_prg == self.offset_prg
        &&& after.offset_chr == self.offset_chr
        &&& after.irq_enabled == self.irq_enabled
        &&& after.irq_pending == self.irq_pending
        &&& after.irq_reload == self.irq_reload
        &&& after.irq_counter == self.irq_counter
        &&& after.irq_latch == self.irq_latch
        &&& after.last_a12 == self.last_a12
    }

    fn update_cartridge(&mut self, cartridge: Cartridge)
        ensures
            final(self).cart == cartridge,
            final(self).ram == old(self).ram,
            final(self).vram == old(self).vram,
            final(self).reg_bank_select == old(self).reg_bank_select,
            final(self).reg_bank_data == old(self).reg_bank_data,
            final(self).mirror_mode == old(self).mirror_mode,
            final(self).offset_prg == old(self).offset_prg,
            final(self).offset_chr == old(self).offset_chr,
            final(self).irq_enabled == old(self).irq_enabled,
            final(self).irq_pending == old(self).irq_pending,
            final(self).irq_reload == old(self).irq_reload,
            final(self).irq_counter == old(self).irq_counter,
            final(self).irq_latch == old(self).irq_latch,
            final(self).last_a12 == old(self).last_a12,
    {
        self.cart = cartridge;
    }

    /// The ROM offset of any CPU address, through the window that its bits
    /// 13 and 14 pick.
    open spec fn rom_offset(&self, addr: u16) -> Option<u32> {
        Some(self.prg_index(addr) as u32)
    }

    fn get_prg_rom_offset(&self, addr: u16) -> (r: Option<u32>)
        ensures
            r == self.rom_offset(addr),
    {
        let o = self.prg_offset(addr);
        Some(o as u32)
    }

    open spec fn sram(&self) -> Option<Seq<u8>> {
        Some(self.ram@)
    }

    /// The 8 KiB of work RAM.
    fn get_sram(&self) -> (r: Option<Vec<u8>>)
        ensures
            r matches Some(v) && v@ == self.ram@,
    {
        let mut v: Vec<u8> = Vec::with_capacity(8192);
        let mut i: usize = 0;
        while i < 8192
            invariant
                i <= 8192,
                v@ == self.ram@.take(i as int),
            decreases 8192 - i,
        {
            v.push(self.ram[i]);
            i += 1;
            assert(v@ =~= self.ram@.take(i as int));
        }
        assert(self.ram@.take(8192) =~= self.ram@);
        Some(v)
    }

    /// Loads the work RAM from `data`, as far as both reach.
    fn set_sram(&mut self, data: &[u8])
        ensures
            forall|i: int| 0 <= i < 8192 ==> #[trigger] final(self).ram@[i]
                == (if i < data@.len() { data@[i] } else { old(self).ram@[i] }),
    {
        let n = if data.len() < 8192 { data.len() } else { 8192 };
        let mut i: usize = 0;
        while i < n
            invariant
                n <= 8192,
                n <= data@.len(),
                n == (if data@.len() < 8192 { data@.len() } else { 8192 }),
                i <= n,
                self.wf(),
                self.cart == old(self).cart,
                self.vram == old(self).vram,
                self.reg_bank_select == old(self).reg_bank_select,
                self.reg_bank_data == old(self).reg_bank_data,
                self.mirror_mode == old(self).mirror_mode,
                self.offset_prg == old(self).offset_prg,
                self.offset_chr == old(self).offset_chr,
                forall|k: int| 0 <= k < 8192 ==> #[trigger] self.ram@[k]
                    == (if k < i { data@[k] } else { old(self).ram@[k] }),
            decreases n - i,
        {
            self.ram[i] = data[i];
            i += 1;
        }
    }

    #[verifier::rlimit(40)]
    fn write_state_to(&self, writer: &mut Vec<u8>) {
        self.ram.write(writer);
        self.vram.write(writer);
        self.reg_bank_select.write(writer);
        self.reg_bank_data.write(writer);
        self.mirror_mode.write(writer);
        write_usize_array(&self.offset_prg, writer);
        write_usize_array(&self.offset_chr, writer);
        self.irq_enabled.write(writer);
        self.irq_pending.write(writer);
        self.irq_reload.write(writer);
        self.irq_counter.write(writer);
        self.irq_latch.write(writer);
        self.last_a12.write(writer);
        assert(writer@ =~= old(writer)@ + self.saved_bytes());
    }

    open spec fn state_fits(&self, rest: Seq<u8>) -> bool {
        txsrom_state_fits(self.cart, rest)
    }

    /// Windows that reach past the ROM and flag bytes other than 0 and 1
    /// are refused.
    #[verifier::rlimit(90)]
    fn read_state_from(&mut self, reader: &mut StateReader) -> (res: Result<(), StateError>) {
        let ghost r0 = reader.rest();
        let ram = <[u8; 8192]>::read(reader)?;
        assert(reader.rest() =~= r0.skip(8192));
        let vram = read_vram(reader)?;
        assert(reader.rest() =~= r0.skip(10240));
        let reg_bank_select = u8::read(reader)?;
        assert(reader.rest() =~= r0.skip(10241));
        let reg_bank_data = <[u8; 8]>::read(reader)?;
        assert(reader.rest() =~= r0.skip(10249));
        let mirror_mode = read_supported_mirror(reader)?;
        assert(reader.rest() =~= r0.skip(10250));
        let offset_prg = read_usize_array::<4>(reader, self.cart.prg_rom.len() - 0x2000)?;
        assert(reader.rest() =~= r0.skip(10282));
        let offset_chr = read_usize_array::<8>(reader, self.cart.chr_rom.len() - 0x400)?;
        assert(reader.rest() =~= r0.skip(10346));
        let irq_enabled = read_bool_strict(reader)?;
        assert(reader.rest() =~= r0.skip(10347));
        let irq_pending = read_bool_strict(reader)?;
        assert(reader.rest() =~= r0.skip(10348));
        let irq_reload = read_bool_strict(reader)?;
        assert(reader.rest() =~= r0.skip(10349));
        let irq_counter = u8::read(reader)?;
        assert(reader.rest() =~= r0.skip(10350));
        let irq_latch = u8::read(reader)?;
        assert(reader.rest() =~= r0.skip(10351));
        let last_a12 = read_bool_strict(reader)?;
        self.ram = ram;
        self.vram = vram;
        self.reg_bank_select = reg_bank_select;
        self.reg_bank_data = reg_bank_data;
        self.mirror_mode = mirror_mode;
        self.offset_prg = offset_prg;
        self.offset_chr = offset_chr;
        self.irq_enabled = irq_enabled;
        self.irq_pending = irq_pending;
        self.irq_reload = irq_reload;
        self.irq_counter = irq_counter;
        self.irq_latch = irq_latch;
        self.last_a12 = last_a12;
        proof {
            lemma_usizes_bytes_len(offset_prg@);
            lemma_usizes_bytes_len(offset_chr@);
        }
        assert(r0.take(10352) =~= self.saved_bytes());
        Ok(())
    }
}

} // verus!
