//! Sunsoft FME-7 (mapper 69): a command register selects which of eight
//! 1 KiB character banks, the program banks or the interrupt counter the
//! next parameter write sets.
use vstd::prelude::*;
use crate::mapper::mirror_fits;
use crate::save_state::{flag_fits, words_fit};
use crate::bits::lemma_addr_fields;
use crate::bits::lemma_and_bounds;
use crate::cartridge::Cartridge;
use crate::mapper::{translate_vram, vram_index, mirror_tag, read_vram, read_supported_mirror, lemma_mod_below, Mapper, MirrorMode};
use crate::mapper_nrom::{header_mirroring, mirroring_from_header};
use crate::save_state::{
    WriteState, ReadState, StateReader, StateError, bool_bytes, u16_bytes, usizes_bytes, write_usize_array,
    read_usize_array, read_bool_strict, read_u16_le, lemma_usizes_bytes_len,
};

verus! {

pub struct MapperSunsoftFme7 {
    pub cart: Cartridge,
    pub vram: [u8; 2048],
    pub mirror_mode: MirrorMode,
    /// Byte offsets of the eight 1 KiB character windows.
    pub chr_bank: [usize; 8],
    /// Byte offsets of the four 8 KiB program windows.
    pub prg_bank: [usize; 4],
    pub prg_mode: u8,
    pub irq_enabled: bool,
    pub irq_pending: bool,
    pub irq_counter: u16,
    pub irq_latch: u16,
    pub irq_mode: u8,
    pub last_a12: bool,
    pub command: u8,
    pub sram_enabled: bool,
}

/// The program windows after settling.  In mode 0 the upper two windows
/// hold the last two banks; otherwise the lower two hold banks 0 and 1,
/// the third is clamped to the ROM and the fourth holds the last bank.
pub open spec fn fme7_settled_prg(prg: Seq<usize>, mode: u8, prg_len: int) -> Seq<usize> {
    let n = prg_len / 0x2000;
    if mode == 0 {
        prg.update(2, ((n - 2) * 0x2000) as usize).update(3, ((n - 1) * 0x2000) as usize)
    } else {
        let b = prg[2] / 0x2000;
        seq![
            0usize,
            0x2000usize,
            ((if b < n - 1 { b as int } else { n - 1 }) * 0x2000) as usize,
            ((n - 1) * 0x2000) as usize,
        ]
    }
}

/// The character windows after settling: each bank number wraps to the
/// 1 KiB banks there are.
pub open spec fn fme7_settled_chr(chr: Seq<usize>, chr_len: int) -> Seq<usize> {
    let n = chr_len / 0x400;
    if n > 0 {
        Seq::new(chr.len(), |i: int| ((((chr[i] / 0x400) as int) % n) * 0x400) as usize)
    } else {
        chr
    }
}

/// The program windows after a write of `val` to `addr` with `command`
/// selected.
pub open spec fn fme7_prg_after(prg: Seq<usize>, command: u8, addr: u16, val: u8, mode: u8, prg_len: int) -> Seq<usize> {
    if 0xA000 <= addr <= 0xBFFF && command == 8 {
        fme7_settled_prg(prg.update(2, (val * 0x2000) as usize), mode, prg_len)
    } else if 0xA000 <= addr <= 0xBFFF && command == 9 {
        seq![0usize, 0x2000usize, (val * 0x2000) as usize, ((prg_len / 0x2000 - 1) * 0x2000) as usize]
    } else {
        prg
    }
}

/// The character windows after a write of `val` to `addr` with `command`
/// selected.
pub open spec fn fme7_chr_after(chr: Seq<usize>, command: u8, addr: u16, val: u8, chr_len: int) -> Seq<usize> {
    if 0xA000 <= addr <= 0xBFFF && command <= 7 {
        chr.update(command as int, (val * 0x400) as usize)
    } else if 0xA000 <= addr <= 0xBFFF && command == 8 {
        fme7_settled_chr(chr, chr_len)
    } else {
        chr
    }
}

impl MapperSunsoftFme7 {
    pub const ID: u8 = 69;

    pub open spec fn chr_index(&self, addr: u16) -> int {
        (self.chr_bank[(addr >> 10) as int] + (addr & 0x3FF)) % (self.cart.chr_rom@.len() as int)
    }

    pub open spec fn prg_index(&self, addr: u16) -> int {
        (self.prg_bank[((addr - 0x8000) / 0x2000) as int] + (addr & 0x1FFF)) % (self.cart.prg_rom@.len() as int)
    }

    /// Without character ROM pattern reads give 0.
    pub open spec fn read_value(&self, addr: u16) -> u8 {
        if addr <= 0x1FFF {
            if self.cart.chr_rom@.len() == 0 { 0 } else { self.cart.chr_rom@[self.chr_index(addr)] }
        } else if 0x2000 <= addr <= 0x3EFF {
            self.vram@[vram_index(self.mirror_mode, addr)]
        } else if addr >= 0x8000 {
            self.cart.prg_rom@[self.prg_index(addr)]
        } else {
            0
        }
    }

    /// Everything that `wf` asks but the window bounds.
    pub open spec fn layout_wf(&self) -> bool {
        &&& 0x4000 <= self.cart.prg_rom@.len() <= 0x400000
        &&& self.cart.chr_rom@.len() <= 0x400000
        &&& self.mirror_mode.is_supported()
    }

    pub fn new(cart: Cartridge) -> (m: MapperSunsoftFme7)
        requires
            cart.wf(),
            cart.prg_rom@.len() > 0,
        ensures
            m.wf(),
            m.cart == cart,
            m.vram@ == Seq::new(2048, |i: int| 0u8),
            m.mirror_mode == header_mirroring(cart.mirror_mode),
            m.prg_bank@ == fme7_settled_prg(Seq::new(4, |i: int| 0usize), 0, cart.prg_rom@.len() as int),
            m.chr_bank@ == Seq::new(8, |i: int| 0usize),
            m.prg_mode == 0 && m.command == 0 && m.irq_mode == 0,
            !m.irq_enabled && !m.irq_pending && !m.last_a12 && !m.sram_enabled,
            m.irq_counter == 0 && m.irq_latch == 0,
    {
        let mirror_mode = mirroring_from_header(cart.mirror_mode);
        let mut m = MapperSunsoftFme7 {
            cart,
            vram: [0; 2048],
            mirror_mode,
            chr_bank: [0; 8],
            prg_bank: [0; 4],
            prg_mode: 0,
            irq_enabled: false,
            irq_pending: false,
            irq_counter: 0,
            irq_latch: 0,
            irq_mode: 0,
            last_a12: false,
            command: 0,
            sram_enabled: false,
        };
        assert(m.vram@ =~= Seq::new(2048, |i: int| 0u8));
        assert(m.prg_bank@ =~= Seq::new(4, |i: int| 0usize));
        let ghost c0 = m.chr_bank@;
        m.update_banks();
        assert forall|i: int| 0 <= i < 8 implies #[trigger] m.chr_bank@[i] == 0usize by {
            let n: int = (m.cart.chr_rom@.len() / 0x400) as int;
            assert(c0[i] == 0);
            if n > 0 {
                assert(0int % n == 0) by (nonlinear_arith)
                    requires
                        n > 0,
                ;
            }
        }
        assert(m.chr_bank@ =~= Seq::new(8, |i: int| 0usize));
        m
    }

    /// Settles the program windows for the current mode and wraps the
    /// character windows to the ROM.
    fn update_banks(&mut self)
        requires
            old(self).layout_wf(),
            forall|i: int| 0 <= i < 4 ==> #[trigger] old(self).prg_bank[i] < 0x400000,
            forall|i: int| 0 <= i < 8 ==> #[trigger] old(self).chr_bank[i] < 0x400000,
        ensures
            final(self).wf(),
            final(self).prg_bank@ == fme7_settled_prg(old(self).prg_bank@, old(self).prg_mode, old(self).cart.prg_rom@.len() as int),
            final(self).chr_bank@ == fme7_settled_chr(old(self).chr_bank@, old(self).cart.chr_rom@.len() as int),
            final(self).cart == old(self).cart,
            final(self).vram == old(self).vram,
            final(self).mirror_mode == old(self).mirror_mode,
            final(self).prg_mode == old(self).prg_mode,
            final(self).irq_enabled == old(self).irq_enabled,
            final(self).irq_pending == old(self).irq_pending,
            final(self).irq_counter == old(self).irq_counter,
            final(self).irq_latch == old(self).irq_latch,
            final(self).irq_mode == old(self).irq_mode,
            final(self).last_a12 == old(self).last_a12,
            final(self).command == old(self).command,
            final(self).sram_enabled == old(self).sram_enabled,
    {
        let prg_len = self.cart.prg_rom.len();
        let num_prg = prg_len / 0x2000;
        let ghost p0 = self.prg_bank@;
        if self.prg_mode == 0 {
            self.prg_bank[2] = (num_prg - 2) * 0x2000;
            self.prg_bank[3] = (num_prg - 1) * 0x2000;
        } else {
            let b = self.prg_bank[2] / 0x2000;
            let m = if b < num_prg - 1 { b } else { num_prg - 1 };
            self.prg_bank[0] = 0;
            self.prg_bank[1] = 0x2000;
            self.prg_bank[2] = m * 0x2000;
            self.prg_bank[3] = (num_prg - 1) * 0x2000;
        }
        assert(self.prg_bank@ =~= fme7_settled_prg(p0, self.prg_mode, prg_len as int));
        let chr_len = self.cart.chr_rom.len();
        let num_chr = chr_len / 0x400;
        if num_chr > 0 {
            let mut i: usize = 0;
            while i < 8
                invariant
                    i <= 8,
                    chr_len == old(self).cart.chr_rom@.len(),
                    num_chr == chr_len / 0x400,
                    num_chr > 0,
                    chr_len <= 0x400000,
                    self.layout_wf(),
                    self.cart == old(self).cart,
                    self.vram == old(self).vram,
                    self.mirror_mode == old(self).mirror_mode,
                    self.prg_mode == old(self).prg_mode,
                    self.irq_enabled == old(self).irq_enabled,
                    self.irq_pending == old(self).irq_pending,
                    self.irq_counter == old(self).irq_counter,
                    self.irq_latch == old(self).irq_latch,
                    self.irq_mode == old(self).irq_mode,
                    self.last_a12 == old(self).last_a12,
                    self.command == old(self).command,
                    self.sram_enabled == old(self).sram_enabled,
                    self.prg_bank@ == fme7_settled_prg(p0, self.prg_mode, prg_len as int),
                    forall|j: int| 0 <= j < 8 ==> #[trigger] self.chr_bank[j] == if j < i {
                        ((((old(self).chr_bank[j] / 0x400) as int) % (num_chr as int)) * 0x400) as usize
                    } else {
                        old(self).chr_bank[j]
                    },
                decreases 8 - i,
            {
                let b = self.chr_bank[i] / 0x400;
                proof {
                    lemma_mod_below(b as int, num_chr as int);
                    crate::mapper::lemma_bank_fits((b % num_chr) as int, 0x400, 0, chr_len as int);
                }
                self.chr_bank[i] = (b % num_chr) * 0x400;
                i += 1;
            }
            assert(self.chr_bank@ =~= fme7_settled_chr(old(self).chr_bank@, chr_len as int));
            assert forall|j: int| 0 <= j < 8 implies #[trigger] self.chr_bank[j] < 0x400000 by {
                let b = old(self).chr_bank[j] / 0x400;
                lemma_mod_below(b as int, num_chr as int);
                crate::mapper::lemma_bank_fits((b as int) % (num_chr as int), 0x400, 0, chr_len as int);
            }
        } else {
            assert(self.chr_bank@ =~= fme7_settled_chr(old(self).chr_bank@, chr_len as int));
        }
    }
}

/// The fields are all there, in range, and fit the cartridge.
pub open spec fn sunsoft_fme7_state_fits(cart: Cartridge, rest: Seq<u8>) -> bool {
    &&& rest.len() >= 2156
    &&& mirror_fits(rest.skip(2048))
    &&& words_fit(rest.skip(2049), 8, 0x3FFFFF)
    &&& words_fit(rest.skip(2113), 4, 0x3FFFFF)
    &&& flag_fits(rest.skip(2146))
    &&& flag_fits(rest.skip(2147))
    &&& flag_fits(rest.skip(2153))
    &&& flag_fits(rest.skip(2155))
}

impl Mapper for MapperSunsoftFme7 {
    open spec fn wf(&self) -> bool {
        &&& self.layout_wf()
        &&& forall|i: int| 0 <= i < 4 ==> #[trigger] self.prg_bank[i] < 0x400000
        &&& forall|i: int| 0 <= i < 8 ==> #[trigger] self.chr_bank[i] < 0x400000
    }

    open spec fn accepts(&self, cart: &Cartridge) -> bool {
        0x4000 <= cart.prg_rom@.len() <= 0x400000 && cart.chr_rom@.len() <= 0x400000
    }

    open spec fn saved_bytes(&self) -> Seq<u8> {
        self.vram@ + seq![mirror_tag(self.mirror_mode)] + usizes_bytes(self.chr_bank@)
            + usizes_bytes(self.prg_bank@) + seq![self.prg_mode] + bool_bytes(self.irq_enabled)
            + bool_bytes(self.irq_pending) + u16_bytes(self.irq_counter) + u16_bytes(self.irq_latch)
            + seq![self.irq_mode] + bool_bytes(self.last_a12) + seq![self.command]
            + bool_bytes(self.sram_enabled)
    }

    open spec fn loaded_bytes(&self) -> Seq<u8> {
        self.saved_bytes()
    }

    open spec fn id(&self) -> u8 {
        69
    }

    open spec fn peek_value(&self, addr: u16) -> u8 {
        self.read_value(addr)
    }

    /// The board after a read of `addr`.
    open spec fn after_read(&self, addr: u16) -> Self {
        *self
    }

    fn peek(&mut self, addr: u16) -> (r: u8)
        ensures
            r == old(self).read_value(addr),
            *final(self) == *old(self),
    {
        if addr <= 0x1FFF {
            let len = self.cart.chr_rom.len();
            if len == 0 {
                return 0;
            }
            proof { lemma_addr_fields(addr); lemma_and_bounds(); }
            let loc = self.chr_bank[(addr >> 10) as usize] + (addr & 0x3FF) as usize;
            self.cart.chr_rom[loc % len]
        } else if addr <= 0x3EFF {
            self.vram[translate_vram(self.mirror_mode, addr)]
        } else if addr >= 0x8000 {
            proof { lemma_and_bounds(); }
            let loc = self.prg_bank[((addr - 0x8000) / 0x2000) as usize] + (addr & 0x1FFF) as usize;
            self.cart.prg_rom[loc % self.cart.prg_rom.len()]
        } else {
            0
        }
    }

    /// What a write of `val` to `addr` leaves: the registers, banks and
    /// memories as this board's `poke` sets them.
    open spec fn written(&self, addr: u16, val: u8, after: Self) -> bool {
        &&& after.cart.prg_rom == self.cart.prg_rom
        &&& after.cart.chr_rom@ == (if addr <= 0x1FFF && self.chr_bank[(addr >> 10) as int]
                + (addr & 0x3FF) < self.cart.chr_rom@.len() {
                self.cart.chr_rom@.update(self.chr_bank[(addr >> 10) as int] + (addr & 0x3FF), val)
            } else {
                self.cart.chr_rom@
            })
        &&& after.vram@ == (if 0x2000 <= addr <= 0x3EFF {
                self.vram@.update(vram_index(self.mirror_mode, addr), val)
            } else {
                self.vram@
            })
        &&& after.mirror_mode == self.mirror_mode
        &&& after.command == (if 0x8000 <= addr <= 0x9FFF { val & 0x0F } else { self.command })
        &&& after.prg_bank@ == fme7_prg_after(self.prg_bank@, self.command, addr, val,
                self.prg_mode, self.cart.prg_rom@.len() as int)
        &&& after.chr_bank@ == fme7_chr_after(self.chr_bank@, self.command, addr, val,
                self.cart.chr_rom@.len() as int)
        &&& after.irq_counter == (if 0xC000 <= addr <= 0xDFFF && self.command == 0x0E {
                val as u16
            } else if 0xC000 <= addr <= 0xDFFF && self.command == 0x0F {
                val as u16
            } else {
                self.irq_counter
            })
        &&& after.irq_latch == (if 0xC000 <= addr <= 0xDFFF && self.command == 0x0F {
                val as u16
            } else {
                self.irq_latch
            })
        &&& after.irq_enabled == (if addr >= 0xE000 { val & 0x80 != 0 } else { self.irq_enabled })
        &&& after.irq_pending == (if addr >= 0xE000 { false } else { self.irq_pending })
        &&& after.prg_mode == self.prg_mode
        &&& after.irq_mode == self.irq_mode
        &&& after.last_a12 == self.last_a12
        &&& after.sram_enabled == self.sram_enabled
    }

    /// Pattern writes inside the ROM and nametable writes store the byte;
    /// 0x8000 selects the command, 0xA000 writes its parameter (a
    /// character bank, the program banks), 0xC000 loads the interrupt
    /// counter or latch, 0xE000 enables or disables the interrupt.
    #[verifier::rlimit(30)]
    fn poke(&mut self, addr: u16, val: u8)
        ensures
            final(self).cart.prg_rom == old(self).cart.prg_rom,
            final(self).cart.chr_rom@ == (if addr <= 0x1FFF && old(self).chr_bank[(addr >> 10) as int]
                + (addr & 0x3FF) < old(self).cart.chr_rom@.len() {
                old(self).cart.chr_rom@.update(old(self).chr_bank[(addr >> 10) as int] + (addr & 0x3FF), val)
            } else {
                old(self).cart.chr_rom@
            }),
            final(self).vram@ == (if 0x2000 <= addr <= 0x3EFF {
                old(self).vram@.update(vram_index(old(self).mirror_mode, addr), val)
            } else {
                old(self).vram@
            }),
            final(self).mirror_mode == old(self).mirror_mode,
            final(self).command == (if 0x8000 <= addr <= 0x9FFF { val & 0x0F } else { old(self).command }),
            final(self).prg_bank@ == fme7_prg_after(old(self).prg_bank@, old(self).command, addr, val,
                old(self).prg_mode, old(self).cart.prg_rom@.len() as int),
            final(self).chr_bank@ == fme7_chr_after(old(self).chr_bank@, old(self).command, addr, val,
                old(self).cart.chr_rom@.len() as int),
            final(self).irq_counter == (if 0xC000 <= addr <= 0xDFFF && old(self).command == 0x0E {
                val as u16
            } else if 0xC000 <= addr <= 0xDFFF && old(self).command == 0x0F {
                val as u16
            } else {
                old(self).irq_counter
            }),
            final(self).irq_latch == (if 0xC000 <= addr <= 0xDFFF && old(self).command == 0x0F {
                val as u16
            } else {
                old(self).irq_latch
            }),
            final(self).irq_enabled == (if addr >= 0xE000 { val & 0x80 != 0 } else { old(self).irq_enabled }),
            final(self).irq_pending == (if addr >= 0xE000 { false } else { old(self).irq_pending }),
            final(self).prg_mode == old(self).prg_mode,
            final(self).irq_mode == old(self).irq_mode,
            final(self).last_a12 == old(self).last_a12,
            final(self).sram_enabled == old(self).sram_enabled,
    {
        if addr <= 0x1FFF {
            let len = self.cart.chr_rom.len();
            if len > 0 {
                proof { lemma_addr_fields(addr); lemma_and_bounds(); }
                let loc = self.chr_bank[(addr >> 10) as usize] + (addr & 0x3FF) as usize;
                if loc < len {
                    self.cart.chr_rom.set(loc, val);
                }
            }
        } else if addr <= 0x3EFF {
            let i = translate_vram(self.mirror_mode, addr);
            self.vram[i] = val;
        } else if 0x8000 <= addr && addr <= 0x9FFF {
            self.command = val & 0x0F;
        } else if 0xA000 <= addr && addr <= 0xBFFF {
            let ghost p0 = self.prg_bank@;
            let ghost c0 = self.chr_bank@;
            let command = self.command;
            if command <= 7 {
                self.chr_bank[command as usize] = val as usize * 0x400;
                assert(self.chr_bank@ =~= fme7_chr_after(c0, command, addr, val, self.cart.chr_rom@.len() as int));
            } else if command == 8 {
                self.prg_bank[2] = val as usize * 0x2000;
                self.update_banks();
            } else if command == 9 {
                let num_prg = self.cart.prg_rom.len() / 0x2000;
                self.prg_bank[0] = 0;
                self.prg_bank[1] = 0x2000;
                self.prg_bank[2] = val as usize * 0x2000;
                self.prg_bank[3] = (num_prg - 1) * 0x2000;
                assert(self.prg_bank@ =~= fme7_prg_after(p0, command, addr, val, self.prg_mode,
                    self.cart.prg_rom@.len() as int));
            }
        } else if 0xC000 <= addr && addr <= 0xDFFF {
            if self.command == 0x0E {
                self.irq_counter = val as u16;
            } else if self.command == 0x0F {
                self.irq_latch = val as u16;
                self.irq_counter = self.irq_latch;
            }
        } else if addr >= 0xE000 {
            if val & 0x80 != 0 {
                self.irq_enabled = true;
                self.irq_pending = false;
            } else {
                self.irq_enabled = false;
                self.irq_pending = false;
            }
        }
    }

    fn check_irq(&self) -> (r: bool)
        ensures
            r == self.irq_pending,
    {
        self.irq_pending
    }

    open spec fn rom_offset(&self, addr: u16) -> Option<u32> {
        None
    }

    /// No CPU address reads program ROM at a fixed offset here.
    fn get_prg_rom_offset(&self, addr: u16) -> (r: Option<u32>) {
        None
    }

    open spec fn sram(&self) -> Option<Seq<u8>> {
        None
    }

    fn get_sram(&self) -> (r: Option<Vec<u8>>) {
        None
    }

    fn get_id(&self) -> (r: u8) {
        Self::ID
    }

    /// What putting `cartridge` in leaves: the board's registers as
    /// `update_cartridge` keeps them and its offsets recomputed.
    open spec fn cart_updated(&self, cartridge: Cartridge, after: Self) -> bool {
        &&& after.cart == cartridge
        &&& after.vram == self.vram
        &&& after.mirror_mode == self.mirror_mode
        &&& after.chr_bank == self.chr_bank
        &&& after.prg_bank == self.prg_bank
        &&& after.prg_mode == self.prg_mode
        &&& after.irq_enabled == self.irq_enabled
        &&& after.irq_pending == self.irq_pending
        &&& after.irq_counter == self.irq_counter
        &&& after.irq_latch == self.irq_latch
        &&& after.irq_mode == self.irq_mode
        &&& after.last_a12 == self.last_a12
        &&& after.command == self.command
        &&& after.sram_enabled == self.sram_enabled
    }

    fn update_cartridge(&mut self, cartridge: Cartridge)
        ensures
            final(self).cart == cartridge,
            final(self).vram == old(self).vram,
            final(self).mirror_mode == old(self).mirror_mode,
            final(self).chr_bank == old(self).chr_bank,
            final(self).prg_bank == old(self).prg_bank,
            final(self).prg_mode == old(self).prg_mode,
            final(self).irq_enabled == old(self).irq_enabled,
            final(self).irq_pending == old(self).irq_pending,
            final(self).irq_counter == old(self).irq_counter,
            final(self).irq_latch == old(self).irq_latch,
            final(self).irq_mode == old(self).irq_mode,
            final(self).last_a12 == old(self).last_a12,
            final(self).command == old(self).command,
            final(self).sram_enabled == old(self).sram_enabled,
    {
        self.cart = cartridge;
    }

    #[verifier::rlimit(40)]
    fn write_state_to(&self, writer: &mut Vec<u8>) {
        self.vram.write(writer);
        self.mirror_mode.write(writer);
        write_usize_array(&self.chr_bank, writer);
        write_usize_array(&self.prg_bank, writer);
        self.prg_mode.write(writer);
        self.irq_enabled.write(writer);
        self.irq_pending.write(writer);
        self.irq_counter.write(writer);
        self.irq_latch.write(writer);
        self.irq_mode.write(writer);
        self.last_a12.write(writer);
        self.command.write(writer);
        self.sram_enabled.write(writer);
        assert(writer@ =~= old(writer)@ + self.saved_bytes());
    }

    open spec fn state_fits(&self, rest: Seq<u8>) -> bool {
        sunsoft_fme7_state_fits(self.cart, rest)
    }

    /// Windows past four megabytes and flag bytes other than 0 and 1 are
    /// refused.
    #[verifier::rlimit(40)]
    fn read_state_from(&mut self, reader: &mut StateReader) -> (res: Result<(), StateError>) {
        let ghost r0 = reader.rest();
        let vram = read_vram(reader)?;
        assert(reader.rest() =~= r0.skip(2048));
        let mirror_mode = read_supported_mirror(reader)?;
        assert(reader.rest() =~= r0.skip(2049));
        let chr_bank = read_usize_array::<8>(reader, 0x3FFFFF)?;
        assert(reader.rest() =~= r0.skip(2113));
        let prg_bank = read_usize_array::<4>(reader, 0x3FFFFF)?;
        assert(reader.rest() =~= r0.skip(2145));
        let prg_mode = u8::read(reader)?;
        assert(reader.rest() =~= r0.skip(2146));
        let irq_enabled = read_bool_strict(reader)?;
        assert(reader.rest() =~= r0.skip(2147));
        let irq_pending = read_bool_strict(reader)?;
        assert(reader.rest() =~= r0.skip(2148));
        let irq_counter = read_u16_le(reader)?;
        assert(reader.rest() =~= r0.skip(2150));
        let irq_latch = read_u16_le(reader)?;
        assert(reader.rest() =~= r0.skip(2152));
        let irq_mode = u8::read(reader)?;
        assert(reader.rest() =~= r0.skip(2153));
        let last_a12 = read_bool_strict(reader)?;
        assert(reader.rest() =~= r0.skip(2154));
        let command = u8::read(reader)?;
        assert(reader.rest() =~= r0.skip(2155));
        let sram_enabled = read_bool_strict(reader)?;
        self.vram = vram;
        self.mirror_mode = mirror_mode;
        self.chr_bank = chr_bank;
        self.prg_bank = prg_bank;
        self.prg_mode = prg_mode;
        self.irq_enabled = irq_enabled;
        self.irq_pending = irq_pending;
        self.irq_counter = irq_counter;
        self.irq_latch = irq_latch;
        self.irq_mode = irq_mode;
        self.last_a12 = last_a12;
        self.command = command;
        self.sram_enabled = sram_enabled;
        proof {
            lemma_usizes_bytes_len(prg_bank@);
            lemma_usizes_bytes_len(chr_bank@);
        }
        assert(r0.take(2156) =~= self.saved_bytes());
        Ok(())
    }
}

} // verus!
