//! The cartridge-board interface and nametable mirroring.
use vstd::prelude::*;
use crate::bits::{lemma_and_bounds, lemma_addr_fields};
use crate::cartridge::Cartridge;
use crate::save_state::{WriteState, ReadState, StateReader, StateError};

verus! {

/// How the two kilobytes of console VRAM cover the four nametables.
#[derive(Debug, Clone, Copy, PartialEq, Eq, Structural)]
pub enum MirrorMode {
    MirrorHorizontal,
    MirrorVertical,
    MirrorSingleA,
    MirrorSingleB,
    MirrorFour,
}

impl MirrorMode {
    /// The modes that fit in the console's two kilobytes of VRAM.
    pub open spec fn is_supported(self) -> bool {
        self != MirrorMode::MirrorFour
    }
}

pub open spec fn mirror_tag(m: MirrorMode) -> u8 {
    match m {
        MirrorMode::MirrorHorizontal => 0,
        MirrorMode::MirrorVertical => 1,
        MirrorMode::MirrorSingleA => 2,
        MirrorMode::MirrorSingleB => 3,
        MirrorMode::MirrorFour => 4,
    }
}

impl WriteState for MirrorMode {
    open spec fn state_bytes(&self) -> Seq<u8> {
        seq![mirror_tag(*self)]
    }

    fn write(&self, writer: &mut Vec<u8>) {
        let tag: u8 = match self {
            MirrorMode::MirrorHorizontal => 0,
            MirrorMode::MirrorVertical => 1,
            MirrorMode::MirrorSingleA => 2,
            MirrorMode::MirrorSingleB => 3,
            MirrorMode::MirrorFour => 4,
        };
        tag.write(writer);
        assert(writer@ == old(writer)@ + self.state_bytes());
    }
}

impl ReadState for MirrorMode {
    open spec fn parse(bytes: Seq<u8>) -> Option<(MirrorMode, nat)> {
        if bytes.len() >= 1 {
            if bytes[0] == 0 {
                Some((MirrorMode::MirrorHorizontal, 1))
            } else if bytes[0] == 1 {
                Some((MirrorMode::MirrorVertical, 1))
            } else if bytes[0] == 2 {
                Some((MirrorMode::MirrorSingleA, 1))
            } else if bytes[0] == 3 {
                Some((MirrorMode::MirrorSingleB, 1))
            } else if bytes[0] == 4 {
                Some((MirrorMode::MirrorFour, 1))
            } else {
                None
            }
        } else {
            None
        }
    }

    fn read(reader: &mut StateReader) -> (res: Result<MirrorMode, StateError>) {
        let ghost r0 = reader.rest();
        let tag = match u8::read(reader) {
            Ok(t) => t,
            Err(e) => {
                assert(Self::parse(r0) is None);
                return Err(e);
            },
        };
        assert(r0[0] == tag);
        match tag {
            0 => Ok(MirrorMode::MirrorHorizontal),
            1 => Ok(MirrorMode::MirrorVertical),
            2 => Ok(MirrorMode::MirrorSingleA),
            3 => Ok(MirrorMode::MirrorSingleB),
            4 => Ok(MirrorMode::MirrorFour),
            _ => Err(StateError::InvalidData),
        }
    }
}

/// Reading a mirroring mode back from what was written gives the same mode.
pub proof fn lemma_mirror_mode_roundtrip(m: MirrorMode, rest: Seq<u8>)
    ensures
        <MirrorMode as ReadState>::parse(m.state_bytes() + rest) == Some((m, 1nat)),
{
    assert((m.state_bytes() + rest)[0] == mirror_tag(m));
}

/// Reads a mirroring mode and refuses four-screen mirroring, which no board
/// here can serve from two kilobytes of VRAM.
pub fn read_supported_mirror(reader: &mut StateReader) -> (res: Result<MirrorMode, StateError>)
    requires
        old(reader).wf(),
    ensures
        final(reader).wf(),
        final(reader).data@ == old(reader).data@,
        res is Ok <==> old(reader).rest().len() >= 1 && old(reader).rest()[0] <= 3,
        res is Ok <==> mirror_fits(old(reader).rest()),
        res matches Ok(m) ==> m.is_supported() && final(reader).pos == old(reader).pos + 1
            && old(reader).rest().take(1) == seq![mirror_tag(m)],
{
    reveal(mirror_fits);
    let ghost r0 = reader.rest();
    let m = MirrorMode::read(reader)?;
    if m == MirrorMode::MirrorFour {
        return Err(StateError::InvalidData);
    }
    assert(r0.take(1) =~= seq![mirror_tag(m)]);
    Ok(m)
}

/// Whether `rest` starts with the tag of a mirroring that a board can
/// switch to (not four-screen).
#[verifier::opaque]
pub open spec fn mirror_fits(rest: Seq<u8>) -> bool {
    rest.len() >= 1 && rest[0] <= 3
}

/// Reads the two kilobytes of console VRAM.
pub fn read_vram(reader: &mut StateReader) -> (res: Result<[u8; 2048], StateError>)
    requires
        old(reader).wf(),
    ensures
        final(reader).wf(),
        final(reader).data@ == old(reader).data@,
        res is Ok <==> old(reader).rest().len() >= 2048,
        res matches Ok(v) ==> final(reader).pos == old(reader).pos + 2048
            && old(reader).rest().take(2048) == v@,
{
    <[u8; 2048]>::read(reader)
}

/// The VRAM offset that a nametable address reaches under `mode`.
pub open spec fn vram_index(mode: MirrorMode, addr: u16) -> int {
    match mode {
        MirrorMode::MirrorHorizontal => ((addr & 0x3FF) | ((addr & 0x800) >> 1)) as int,
        MirrorMode::MirrorVertical => (addr & 0x7FF) as int,
        MirrorMode::MirrorSingleA => (addr & 0x3FF) as int,
        _ => (0x400 | (addr & 0x3FF)) as int,
    }
}

/// Maps a nametable address onto the two kilobytes of console VRAM.
pub fn translate_vram(mode: MirrorMode, addr: u16) -> (r: usize)
    requires
        mode.is_supported(),
    ensures
        r == vram_index(mode, addr),
        r < 0x800,
{
    let r: u16 = match mode {
        MirrorMode::MirrorHorizontal => {
            let v = (addr & 0x3FF) | ((addr & 0x800) >> 1);
            proof { lemma_addr_fields(addr); }
            v
        },
        MirrorMode::MirrorVertical => {
            let v = addr & 0x7FF;
            proof { lemma_and_bounds(); }
            v
        },
        MirrorMode::MirrorSingleA => {
            let v = addr & 0x3FF;
            proof { lemma_and_bounds(); }
            v
        },
        _ => {
            let v = 0x400 | (addr & 0x3FF);
            proof { lemma_addr_fields(addr); }
            v
        },
    };
    r as usize
}

/// A bitwise AND is at most either operand.
pub proof fn lemma_and_le(x: usize, y: usize)
    ensures
        x & y <= x,
        x & y <= y,
{
    lemma_and_bounds();
}

/// A bank below `len / unit`, of `unit` bytes each, read at an offset below
/// `unit`, stays inside memory of `len` bytes.
pub proof fn lemma_bank_fits(bank: int, unit: int, offset: int, len: int)
    requires
        0 < unit,
        0 <= len,
        0 <= bank < len / unit,
        0 <= offset < unit,
    ensures
        0 <= bank * unit + offset < len,
        bank * unit + unit <= len,
{
    assert(0 <= bank * unit && bank * unit + unit <= len) by (nonlinear_arith)
        requires
            0 < unit,
            0 <= len,
            0 <= bank < len / unit,
    ;
}

/// The remainder of a bank number is a valid bank.
pub proof fn lemma_mod_below(x: int, n: int)
    requires
        0 <= x,
        0 < n,
    ensures
        0 <= x % n < n,
        x % n <= x,
{
    assert(0 <= x % n < n && x % n <= x) by (nonlinear_arith)
        requires
            0 <= x,
            0 < n,
    ;
}

/// Battery RAM `r` after `d` is loaded into it, as far as both reach.
pub open spec fn sram_loaded(r: Seq<u8>, d: Seq<u8>) -> Seq<u8> {
    Seq::new(r.len(), |i: int| if i < d.len() { d[i] } else { r[i] })
}

/// What loading `d` makes of a board's battery RAM; a board without any
/// stays without.
pub open spec fn sram_after(ram: Option<Seq<u8>>, d: Seq<u8>) -> Option<Seq<u8>> {
    match ram {
        Some(r) => Some(sram_loaded(r, d)),
        None => None,
    }
}

/// A cartridge board: it answers CPU and PPU bus accesses, may switch banks
/// and raise interrupts, and saves its own registers.
pub trait Mapper: Sized {
    /// The board's registers keep every memory access in range.
    spec fn wf(&self) -> bool;

    /// Whether the board can run `cart`.
    spec fn accepts(&self, cart: &Cartridge) -> bool;

    /// The bytes that `write_state_to` appends.
    spec fn saved_bytes(&self) -> Seq<u8>;

    /// The bytes that `read_state_from` consumes to arrive at these
    /// registers.
    spec fn loaded_bytes(&self) -> Seq<u8>;

    /// The mapper number of the board.
    spec fn id(&self) -> u8;

    /// Whether `read_state_from` succeeds on `rest`: every field is there,
    /// in the range its register holds, and fits the cartridge.
    spec fn state_fits(&self, rest: Seq<u8>) -> bool;

    /// The byte that a read of `addr` returns.
    spec fn peek_value(&self, addr: u16) -> u8;

    /// The contents of the board's battery-backed RAM, if it has any.
    spec fn sram(&self) -> Option<Seq<u8>>;

    /// The program ROM offset that a CPU read of `addr` reaches, where the
    /// board reports one.
    spec fn rom_offset(&self, addr: u16) -> Option<u32>;

    /// The board after a read of `addr`: most boards keep their state,
    /// some latch banks or count scanlines on reads.
    spec fn after_read(&self, addr: u16) -> Self;

    /// Whether `after` is this board after `val` was written to `addr`.
    spec fn written(&self, addr: u16, val: u8, after: Self) -> bool;

    fn peek(&mut self, addr: u16) -> (r: u8)
        requires
            old(self).wf(),
        ensures
            final(self).wf(),
            final(self).id() == old(self).id(),
            r == old(self).peek_value(addr),
            *final(self) == old(self).after_read(addr),
    ;

    fn poke(&mut self, addr: u16, val: u8)
        requires
            old(self).wf(),
        ensures
            final(self).wf(),
            final(self).id() == old(self).id(),
            old(self).written(addr, val, *final(self)),
    ;

    fn get_id(&self) -> (r: u8)
        ensures
            r == self.id(),
    ;

    /// Whether `after` is this board with `cartridge` put in.
    spec fn cart_updated(&self, cartridge: Cartridge, after: Self) -> bool;

    fn update_cartridge(&mut self, cartridge: Cartridge)
        requires
            old(self).wf(),
            old(self).accepts(&cartridge),
        ensures
            final(self).wf(),
            final(self).id() == old(self).id(),
            old(self).cart_updated(cartridge, *final(self)),
    ;

    /// Whether the board is asserting its interrupt line.
    fn check_irq(&self) -> (r: bool)
        default_ensures
            !r,
    {
        false
    }

    /// The program ROM offset that a CPU address reads, when it reads ROM.
    fn get_prg_rom_offset(&self, addr: u16) -> (r: Option<u32>)
        requires
            self.wf(),
        ensures
            r == self.rom_offset(addr),
    ;

    fn write_state_to(&self, writer: &mut Vec<u8>)
        ensures
            final(writer)@ == old(writer)@ + self.saved_bytes(),
    ;

    /// Restores the registers from a save state.  On success the bytes read
    /// are exactly the encoding of the new registers in the order that this
    /// board reads them; a state that the cartridge cannot run is refused.
    fn read_state_from(&mut self, reader: &mut StateReader) -> (res: Result<(), StateError>)
        requires
            old(self).wf(),
            old(reader).wf(),
        ensures
            final(self).wf(),
            final(self).id() == old(self).id(),
            final(reader).wf(),
            final(reader).data@ == old(reader).data@,
            res is Ok <==> old(self).state_fits(old(reader).rest()),
            res is Ok ==> final(reader).pos == old(reader).pos + final(self).loaded_bytes().len()
                && old(reader).rest().take(final(self).loaded_bytes().len() as int)
                == final(self).loaded_bytes(),
    ;

    /// A copy of the battery-backed RAM, if the board has any.
    fn get_sram(&self) -> (r: Option<Vec<u8>>)
        ensures
            r is Some == self.sram() is Some,
            r matches Some(v) ==> self.sram() == Some(v@),
    ;

    /// Loads battery-backed RAM from `data`, as far as both reach.
    fn set_sram(&mut self, data: &[u8])
        requires
            old(self).wf(),
        ensures
            final(self).wf(),
            final(self).id() == old(self).id(),
        default_ensures
            final(self).saved_bytes() == old(self).saved_bytes(),
    {
    }
}

} // verus!
