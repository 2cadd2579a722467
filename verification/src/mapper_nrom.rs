//! NROM (mapper 0): fixed program ROM, no bank switching.
use vstd::prelude::*;
use crate::mapper::mirror_fits;
use crate::cartridge::Cartridge;
use crate::mapper::{translate_vram, vram_index, mirror_tag, Mapper, MirrorMode};
use crate::save_state::{WriteState, ReadState, StateReader, StateError};

verus! {

pub struct MapperNrom {
    pub cart: Cartridge,
    pub vram: [u8; 2048],
    pub mirror_mode: MirrorMode,
    /// The program ROM length, kept as a 16-bit number.
    pub prg_len: u16,
}

/// The mirroring that a cartridge header asks for; four-screen boards fall
/// back to horizontal.
pub open spec fn header_mirroring(m: u8) -> MirrorMode {
    if m == 1 { MirrorMode::MirrorVertical } else { MirrorMode::MirrorHorizontal }
}

pub fn mirroring_from_header(m: u8) -> (r: MirrorMode)
    ensures
        r == header_mirroring(m),
{
    match m {
        0 => MirrorMode::MirrorHorizontal,
        1 => MirrorMode::MirrorVertical,
        _ => MirrorMode::MirrorHorizontal,
    }
}

impl MapperNrom {
    pub const ID: u8 = 0;

    /// The value a read of `addr` returns.
    pub open spec fn read_value(&self, addr: u16) -> u8 {
        if addr <= 0x1FFF {
            self.cart.chr_rom@[addr as int]
        } else if 0x2000 <= addr <= 0x3EFF {
            self.vram@[vram_index(self.mirror_mode, addr)]
        } else if addr >= 0x8000 {
            if self.prg_len == 0 {
                0
            } else {
                self.cart.prg_rom@[((addr - 0x8000) % (self.prg_len as int))]
            }
        } else {
            0
        }
    }

    pub fn new(cart: Cartridge) -> (m: MapperNrom)
        requires
            cart.chr_rom@.len() >= 0x2000,
        ensures
            m.wf(),
            m.cart == cart,
            m.vram@ == Seq::new(2048, |i: int| 0u8),
            m.mirror_mode == header_mirroring(cart.mirror_mode),
            m.prg_len as int == cart.prg_rom@.len() % 0x10000,
    {
        let mirror_mode = mirroring_from_header(cart.mirror_mode);
        let prg_len = (cart.prg_rom.len() % 0x10000) as u16;
        let m = MapperNrom { cart, vram: [0; 2048], mirror_mode, prg_len };
        assert(m.vram@ =~= Seq::new(2048, |i: int| 0u8));
        m
    }
}

impl WriteState for MapperNrom {
    open spec fn state_bytes(&self) -> Seq<u8> {
        self.vram@ + seq![mirror_tag(self.mirror_mode)]
    }

    fn write(&self, writer: &mut Vec<u8>) {
        self.vram.write(writer);
        self.mirror_mode.write(writer);
        assert(writer@ =~= old(writer)@ + self.vram@ + seq![mirror_tag(self.mirror_mode)]);
        assert(writer@ == old(writer)@ + self.state_bytes());
    }
}

/// A 16 KiB program ROM appears twice: 0xC000-0xFFFF reads the same bytes
/// as 0x8000-0xBFFF, the ROM's first byte at each start.
pub proof fn lemma_nrom_16k_mirrored(m: MapperNrom, addr: u16)
    requires
        m.wf(),
        m.cart.prg_rom@.len() == 0x4000,
        addr >= 0xC000,
    ensures
        m.peek_value(addr) == m.peek_value((addr - 0x4000) as u16),
        m.peek_value(addr) == m.cart.prg_rom@[addr - 0xC000],
{
}

/// The fields are all there, in range, and fit the cartridge.
pub open spec fn nrom_state_fits(cart: Cartridge, rest: Seq<u8>) -> bool {
    &&& rest.len() >= 2049
    &&& mirror_fits(rest.skip(2048))
}

impl Mapper for MapperNrom {
    open spec fn wf(&self) -> bool {
        &&& self.cart.chr_rom@.len() >= 0x2000
        &&& self.mirror_mode.is_supported()
        &&& self.prg_len as int == self.cart.prg_rom@.len() % 0x10000
    }

    open spec fn accepts(&self, cart: &Cartridge) -> bool {
        cart.chr_rom@.len() >= 0x2000
    }

    open spec fn saved_bytes(&self) -> Seq<u8> {
        self.vram@ + seq![mirror_tag(self.mirror_mode)]
    }

    open spec fn loaded_bytes(&self) -> Seq<u8> {
        self.saved_bytes()
    }

    open spec fn id(&self) -> u8 {
        0
    }

    open spec fn peek_value(&self, addr: u16) -> u8 {
        self.read_value(addr)
    }

    /// The board after a read of `addr`.
    open spec fn after_read(&self, addr: u16) -> Self {
        *self
    }

    fn peek(&mut self, addr: u16) -> (r: u8)
        ensures
            r == old(self).read_value(addr),
            *final(self) == *old(self),
    {
        match addr {
            0x0000..=0x1FFF => self.cart.chr_rom[addr as usize],
            0x2000..=0x3EFF => self.vram[translate_vram(self.mirror_mode, addr)],
            0x8000..=0xFFFF => {
                let offset = addr - 0x8000;
                if self.prg_len == 0 {
                    0
                } else {
                    self.cart.prg_rom[(offset % self.prg_len) as usize]
                }
            },
            _ => 0,
        }
    }

    /// What a write of `val` to `addr` leaves: the registers, banks and
    /// memories as this board's `poke` sets them.
    open spec fn written(&self, addr: u16, val: u8, after: Self) -> bool {
        &&& after.cart.chr_rom@ == (if addr <= 0x1FFF {
                self.cart.chr_rom@.update(addr as int, val)
            } else {
                self.cart.chr_rom@
            })
        &&& after.vram@ == (if 0x2000 <= addr <= 0x3EFF {
                self.vram@.update(vram_index(self.mirror_mode, addr), val)
            } else {
                self.vram@
            })
        &&& after.cart.prg_rom == self.cart.prg_rom
        &&& after.mirror_mode == self.mirror_mode
        &&& after.prg_len == self.prg_len
    }

    fn poke(&mut self, addr: u16, val: u8)
        ensures
            final(self).cart.chr_rom@ == (if addr <= 0x1FFF {
                old(self).cart.chr_rom@.update(addr as int, val)
            } else {
                old(self).cart.chr_rom@
            }),
            final(self).vram@ == (if 0x2000 <= addr <= 0x3EFF {
                old(self).vram@.update(vram_index(old(self).mirror_mode, addr), val)
            } else {
                old(self).vram@
            }),
            final(self).cart.prg_rom == old(self).cart.prg_rom,
            final(self).mirror_mode == old(self).mirror_mode,
            final(self).prg_len == old(self).prg_len,
    {
        match addr {
            0x0000..=0x1FFF => {
                self.cart.chr_rom.set(addr as usize, val);
            },
            0x2000..=0x3EFF => {
                let i = translate_vram(self.mirror_mode, addr);
                self.vram[i] = val;
            },
            _ => {},
        }
    }

    open spec fn sram(&self) -> Option<Seq<u8>> {
        None
    }

    fn get_sram(&self) -> (r: Option<Vec<u8>>) {
        None
    }

    fn get_id(&self) -> (r: u8) {
        Self::ID
    }

    /// What putting `cartridge` in leaves: the board's registers as
    /// `update_cartridge` keeps them and its offsets recomputed.
    open spec fn cart_updated(&self, cartridge: Cartridge, after: Self) -> bool {
        &&& after.cart == cartridge
        &&& after.vram == self.vram
        &&& after.mirror_mode == self.mirror_mode
    }

    fn update_cartridge(&mut self, cartridge: Cartridge)
        ensures
            final(self).cart == cartridge,
            final(self).vram == old(self).vram,
            final(self).mirror_mode == old(self).mirror_mode,
    {
        self.prg_len = (cartridge.prg_rom.len() % 0x10000) as u16;
        self.cart = cartridge;
    }

    open spec fn rom_offset(&self, addr: u16) -> Option<u32> {
        (if addr >= 0x8000 && self.prg_len != 0 {
            Some(((addr - 0x8000) % (self.prg_len as int)) as u32)
        } else {
            None::<u32>
        })
    }

    fn get_prg_rom_offset(&self, addr: u16) -> (r: Option<u32>)
        ensures
            r == self.rom_offset(addr),
    {
        match addr {
            0x8000..=0xFFFF => {
                if self.prg_len == 0 {
                    None
                } else {
                    let offset = (addr - 0x8000) as u32;
                    Some(offset % (self.prg_len as u32))
                }
            },
            _ => None,
        }
    }

    fn write_state_to(&self, writer: &mut Vec<u8>) {
        self.write(writer);
    }

    open spec fn state_fits(&self, rest: Seq<u8>) -> bool {
        nrom_state_fits(self.cart, rest)
    }

    fn read_state_from(&mut self, reader: &mut StateReader) -> (res: Result<(), StateError>) {
        reveal(mirror_fits);
        let ghost r0 = reader.rest();
        let vram = <[u8; 2048]>::read(reader)?;
        let ghost r1 = reader.rest();
        assert(r1 =~= r0.skip(2048));
        let mirror_mode = MirrorMode::read(reader)?;
        if mirror_mode == MirrorMode::MirrorFour {
            return Err(StateError::InvalidData);
        }
        assert(vram@ == r0.take(2048));
        assert(mirror_tag(mirror_mode) == r1[0]);
        assert(r1[0] == r0[2048]);
        self.vram = vram;
        self.mirror_mode = mirror_mode;
        assert(r0.take(2049) =~= self.vram@ + seq![mirror_tag(self.mirror_mode)]);
        Ok(())
    }
}

} // verus!
