//! Every cartridge board the console supports, behind one type.
use vstd::prelude::*;
use crate::cartridge::Cartridge;
use crate::mapper::{Mapper, sram_after, sram_loaded};
use crate::save_state::{WriteState, ReadState, StateReader, StateError};

use crate::mapper_nrom::MapperNrom;
use crate::mapper_unrom::MapperUnrom;
use crate::mapper_cnrom::MapperCnrom;
use crate::mapper_axrom::MapperAxRom;
use crate::mapper_bnrom::MapperBnrom;
use crate::mapper_camerica::MapperCamerica;
use crate::mapper_cprom::MapperCprom;
use crate::mapper_cprom_v2::MapperCpromV2;
use crate::mapper_gxrom::MapperGxRom;
use crate::mapper_sachen::MapperSachen;
use crate::mapper_action52::MapperAction52;
use crate::mapper_nes_evrom::MapperNesEvtRom;
use crate::mapper_mmc2::MapperMmc2;
use crate::mapper_mmc4::MapperMmc4;
use crate::mapper_namco175::MapperNamco175;
use crate::mapper_rambo1::MapperRambo1;
use crate::mapper_sunsoft_fme7::MapperSunsoftFme7;
use crate::mapper_txsrom::MapperTxSrom;
use crate::mapper_tqrom::MapperTqrom;
use crate::mapper_mmc5::MapperMmc5;

verus! {

/// A cartridge board of any supported kind.
pub enum AnyMapper {
    Nrom(MapperNrom),
    Unrom(MapperUnrom),
    Cnrom(MapperCnrom),
    AxRom(MapperAxRom),
    Bnrom(MapperBnrom),
    Camerica(MapperCamerica),
    Cprom(MapperCprom),
    CpromV2(MapperCpromV2),
    GxRom(MapperGxRom),
    Sachen(MapperSachen),
    Action52(MapperAction52),
    NesEvtRom(MapperNesEvtRom),
    Mmc2(MapperMmc2),
    Mmc4(MapperMmc4),
    Namco175(MapperNamco175),
    Rambo1(MapperRambo1),
    SunsoftFme7(MapperSunsoftFme7),
    TxSrom(MapperTxSrom),
    Tqrom(MapperTqrom),
    Mmc5(MapperMmc5),
}

/// Whether a board with mapper number `id` exists here and can run `cart`.
pub open spec fn can_make_board(id: u8, cart: Cartridge) -> bool {

    (id == MapperNrom::ID && cart.chr_rom@.len() >= 0x2000)
    ||
    (id == MapperUnrom::ID && cart.wf() && cart.prg_rom@.len() >= 0x4000)
    ||
    (id == MapperCnrom::ID && cart.wf() && cart.prg_rom@.len() >= 0x4000)
    ||
    (id == MapperAxRom::ID && cart.wf() && cart.prg_rom@.len() > 0)
    ||
    (id == MapperBnrom::ID && cart.wf() && cart.prg_rom@.len() > 0)
    ||
    (id == MapperCamerica::ID && cart.wf() && cart.prg_rom@.len() >= 0x4000)
    ||
    (id == MapperCprom::ID && cart.wf() && cart.prg_rom@.len() > 0)
    ||
    (id == MapperCpromV2::ID && cart.wf() && cart.prg_rom@.len() >= 0x8000)
    ||
    (id == MapperGxRom::ID && cart.wf() && cart.prg_rom@.len() > 0)
    ||
    (id == MapperSachen::ID && cart.wf() && cart.prg_rom@.len() >= 0x4000)
    ||
    (id == MapperAction52::ID && cart.wf() && cart.prg_rom@.len() > 0)
    ||
    (id == MapperNesEvtRom::ID && cart.wf() && cart.prg_rom@.len() > 0)
    ||
    (id == MapperMmc2::ID && cart.wf() && cart.prg_rom@.len() > 0)
    ||
    (id == MapperMmc4::ID && cart.wf())
    ||
    (id == MapperNamco175::ID && cart.wf() && cart.prg_rom@.len() > 0)
    ||
    (id == MapperRambo1::ID && cart.wf() && cart.prg_rom@.len() > 0)
    ||
    (id == MapperSunsoftFme7::ID && cart.wf() && cart.prg_rom@.len() > 0)
    ||
    (id == MapperTxSrom::ID && cart.wf() && cart.prg_rom@.len() > 0)
    ||
    (id == MapperTqrom::ID && cart.wf() && cart.prg_rom@.len() > 0)
    ||
    (id == MapperMmc5::ID && cart.wf())
}

/// Whether a board with the cartridge's mapper number exists here and can
/// run the cartridge.
pub open spec fn can_make_mapper(cart: Cartridge) -> bool {
    can_make_board(cart.mapper_id, cart)
}

/// Whether the registers of board `id`, built around `cart`, can be read
/// from `rest`.
pub open spec fn board_fits(id: u8, cart: Cartridge, rest: Seq<u8>) -> bool {
    if id == MapperNrom::ID {
        crate::mapper_nrom::nrom_state_fits(cart, rest)
    } else if id == MapperUnrom::ID {
        crate::mapper_unrom::unrom_state_fits(cart, rest)
    } else if id == MapperCnrom::ID {
        crate::mapper_cnrom::cnrom_state_fits(cart, rest)
    } else if id == MapperAxRom::ID {
        crate::mapper_axrom::axrom_state_fits(cart, rest)
    } else if id == MapperBnrom::ID {
        crate::mapper_bnrom::bnrom_state_fits(cart, rest)
    } else if id == MapperCamerica::ID {
        crate::mapper_camerica::camerica_state_fits(cart, rest)
    } else if id == MapperCprom::ID {
        crate::mapper_cprom::cprom_state_fits(cart, rest)
    } else if id == MapperCpromV2::ID {
        crate::mapper_cprom_v2::cprom_v2_state_fits(cart, rest)
    } else if id == MapperGxRom::ID {
        crate::mapper_gxrom::gxrom_state_fits(cart, rest)
    } else if id == MapperSachen::ID {
        crate::mapper_sachen::sachen_state_fits(cart, rest)
    } else if id == MapperAction52::ID {
        crate::mapper_action52::action52_state_fits(cart, rest)
    } else if id == MapperNesEvtRom::ID {
        crate::mapper_nes_evrom::nes_evrom_state_fits(cart, rest)
    } else if id == MapperMmc2::ID {
        crate::mapper_mmc2::mmc2_state_fits(cart, rest)
    } else if id == MapperMmc4::ID {
        crate::mapper_mmc4::mmc4_state_fits(cart, rest)
    } else if id == MapperNamco175::ID {
        crate::mapper_namco175::namco175_state_fits(cart, rest)
    } else if id == MapperRambo1::ID {
        crate::mapper_rambo1::rambo1_state_fits(cart, rest)
    } else if id == MapperSunsoftFme7::ID {
        crate::mapper_sunsoft_fme7::sunsoft_fme7_state_fits(cart, rest)
    } else if id == MapperTxSrom::ID {
        crate::mapper_txsrom::txsrom_state_fits(cart, rest)
    } else if id == MapperTqrom::ID {
        crate::mapper_tqrom::tqrom_state_fits(cart, rest)
    } else if id == MapperMmc5::ID {
        crate::mapper_mmc5::mmc5_state_fits(cart, rest)
    } else {
        false
    }
}

/// Two cartridges with the same ROM contents and header fields make the
/// same boards, which read the same save states.
pub proof fn lemma_same_rom_same_boards(id: u8, c1: Cartridge, c2: Cartridge, r: Seq<u8>)
    requires
        c1.prg_rom@ == c2.prg_rom@,
        c1.chr_rom@ == c2.chr_rom@,
        c1.header == c2.header,
        c1.mapper_id == c2.mapper_id,
        c1.mirror_mode == c2.mirror_mode,
        c1.battery == c2.battery,
    ensures
        can_make_board(id, c1) == can_make_board(id, c2),
        board_fits(id, c1, r) == board_fits(id, c2, r),
{
}

/// Builds the board with mapper number `id` around `cart`.
pub fn make_mapper_for_id(id: u8, cart: Cartridge) -> (m: AnyMapper)
    requires
        can_make_board(id, cart),
    ensures
        m.wf(),
        m.id() == id,
        forall|r: Seq<u8>| #[trigger] m.state_fits(r) == board_fits(id, cart, r),
{
    if id == MapperNrom::ID {
        AnyMapper::Nrom(MapperNrom::new(cart))
    } else if id == MapperUnrom::ID {
        AnyMapper::Unrom(MapperUnrom::new(cart))
    } else if id == MapperCnrom::ID {
        AnyMapper::Cnrom(MapperCnrom::new(cart))
    } else if id == MapperAxRom::ID {
        AnyMapper::AxRom(MapperAxRom::new(cart))
    } else if id == MapperBnrom::ID {
        AnyMapper::Bnrom(MapperBnrom::new(cart))
    } else if id == MapperCamerica::ID {
        AnyMapper::Camerica(MapperCamerica::new(cart))
    } else if id == MapperCprom::ID {
        AnyMapper::Cprom(MapperCprom::new(cart))
    } else if id == MapperCpromV2::ID {
        AnyMapper::CpromV2(MapperCpromV2::new(cart))
    } else if id == MapperGxRom::ID {
        AnyMapper::GxRom(MapperGxRom::new(cart))
    } else if id == MapperSachen::ID {
        AnyMapper::Sachen(MapperSachen::new(cart))
    } else if id == MapperAction52::ID {
        AnyMapper::Action52(MapperAction52::new(cart))
    } else if id == MapperNesEvtRom::ID {
        AnyMapper::NesEvtRom(MapperNesEvtRom::new(cart))
    } else if id == MapperMmc2::ID {
        AnyMapper::Mmc2(MapperMmc2::new(cart))
    } else if id == MapperMmc4::ID {
        AnyMapper::Mmc4(MapperMmc4::new(cart))
    } else if id == MapperNamco175::ID {
        AnyMapper::Namco175(MapperNamco175::new(cart))
    } else if id == MapperRambo1::ID {
        AnyMapper::Rambo1(MapperRambo1::new(cart))
    } else if id == MapperSunsoftFme7::ID {
        AnyMapper::SunsoftFme7(MapperSunsoftFme7::new(cart))
    } else if id == MapperTxSrom::ID {
        AnyMapper::TxSrom(MapperTxSrom::new(cart))
    } else if id == MapperTqrom::ID {
        AnyMapper::Tqrom(MapperTqrom::new(cart))
    } else if id == MapperMmc5::ID {
        AnyMapper::Mmc5(MapperMmc5::new(cart))
    } else {
        AnyMapper::Nrom(MapperNrom::new(cart))
    }
}

/// Builds the board that the cartridge's header names.
pub fn make_mapper(cart: Cartridge) -> (m: AnyMapper)
    requires
        can_make_mapper(cart),
    ensures
        m.wf(),
        m.id() == cart.mapper_id,
{
    let id = cart.mapper_id;
    make_mapper_for_id(id, cart)
}

/// Appends the board's mapper number and then its registers.
pub fn serialize_mapper(m: &AnyMapper, writer: &mut Vec<u8>)
    ensures
        final(writer)@ == old(writer)@ + seq![m.id()] + m.saved_bytes(),
{
    let id = m.get_id();
    id.write(writer);
    m.write_state_to(writer);
    assert(writer@ =~= old(writer)@ + seq![m.id()] + m.saved_bytes());
}

/// Reads a board saved by `serialize_mapper`: the mapper number picks the
/// board, built around `cart`, whose registers are then read.
pub fn deserialize_mapper(reader: &mut StateReader, cart: Cartridge) -> (res: Result<AnyMapper, StateError>)
    requires
        old(reader).wf(),
        old(reader).rest().len() > 0 ==> can_make_board(old(reader).rest()[0], cart),
    ensures
        final(reader).wf(),
        final(reader).data@ == old(reader).data@,
        old(reader).rest().len() == 0 ==> res is Err,
        res is Ok <==> old(reader).rest().len() >= 1
            && board_fits(old(reader).rest()[0], cart, old(reader).rest().skip(1)),
        res matches Ok(m) ==> m.wf() && m.id() == old(reader).rest()[0]
            && final(reader).pos == old(reader).pos + 1 + m.loaded_bytes().len()
            && old(reader).rest().take(1 + m.loaded_bytes().len() as int) == seq![m.id()] + m.loaded_bytes(),
{
    let ghost r0 = reader.rest();
    let id = u8::read(reader)?;
    assert(reader.rest() =~= r0.skip(1));
    let mut m = make_mapper_for_id(id, cart);
    m.read_state_from(reader)?;
    assert(r0.take(1 + m.loaded_bytes().len() as int) =~= seq![m.id()] + m.loaded_bytes());
    Ok(m)
}

/// Whether `make_mapper_for_id` can build board `id` around `cart`.
pub fn supports_board(id: u8, cart: &Cartridge) -> (r: bool)
    ensures
        r == can_make_board(id, *cart),
{
    let prg = cart.prg_rom.len();
    let chr = cart.chr_rom.len();
    let wf = cart.is_wf();
    if id == MapperNrom::ID {
        chr >= 0x2000
    } else if id == MapperUnrom::ID {
        wf && prg >= 0x4000
    } else if id == MapperCnrom::ID {
        wf && prg >= 0x4000
    } else if id == MapperAxRom::ID {
        wf && prg > 0
    } else if id == MapperBnrom::ID {
        wf && prg > 0
    } else if id == MapperCamerica::ID {
        wf && prg >= 0x4000
    } else if id == MapperCprom::ID {
        wf && prg > 0
    } else if id == MapperCpromV2::ID {
        wf && prg >= 0x8000
    } else if id == MapperGxRom::ID {
        wf && prg > 0
    } else if id == MapperSachen::ID {
        wf && prg >= 0x4000
    } else if id == MapperAction52::ID {
        wf && prg > 0
    } else if id == MapperNesEvtRom::ID {
        wf && prg > 0
    } else if id == MapperMmc2::ID {
        wf && prg > 0
    } else if id == MapperMmc4::ID {
        wf
    } else if id == MapperNamco175::ID {
        wf && prg > 0
    } else if id == MapperRambo1::ID {
        wf && prg > 0
    } else if id == MapperSunsoftFme7::ID {
        wf && prg > 0
    } else if id == MapperTxSrom::ID {
        wf && prg > 0
    } else if id == MapperTqrom::ID {
        wf && prg > 0
    } else if id == MapperMmc5::ID {
        wf
    } else {
        false
    }
}

/// Whether `make_mapper` can build a board for `cart`.
pub fn supports(cart: &Cartridge) -> (r: bool)
    ensures
        r == can_make_mapper(*cart),
{
    supports_board(cart.mapper_id, cart)
}

impl AnyMapper {
    /// The cartridge that the board runs.
    pub closed spec fn cart(&self) -> Cartridge {
        match self {
            AnyMapper::Nrom(m) => m.cart,
            AnyMapper::Unrom(m) => m.cart,
            AnyMapper::Cnrom(m) => m.cart,
            AnyMapper::AxRom(m) => m.cart,
            AnyMapper::Bnrom(m) => m.cart,
            AnyMapper::Camerica(m) => m.cart,
            AnyMapper::Cprom(m) => m.cart,
            AnyMapper::CpromV2(m) => m.cart,
            AnyMapper::GxRom(m) => m.cart,
            AnyMapper::Sachen(m) => m.cart,
            AnyMapper::Action52(m) => m.cart,
            AnyMapper::NesEvtRom(m) => m.cart,
            AnyMapper::Mmc2(m) => m.cart,
            AnyMapper::Mmc4(m) => m.cart,
            AnyMapper::Namco175(m) => m.cart,
            AnyMapper::Rambo1(m) => m.cart,
            AnyMapper::SunsoftFme7(m) => m.cart,
            AnyMapper::TxSrom(m) => m.cart,
            AnyMapper::Tqrom(m) => m.cart,
            AnyMapper::Mmc5(m) => m.cart,
        }
    }

    /// Whether the board is asserting its interrupt line: the boards with
    /// a scanline or cycle counter when their interrupt is pending (and,
    /// on some, enabled); the others never.
    pub open spec fn irq_line(&self) -> bool {
        match self {
            AnyMapper::Mmc4(m) => m.irq_pending,
            AnyMapper::Mmc5(m) => m.scanline.irq_pending && m.scanline.irq_enabled,
            AnyMapper::Rambo1(m) => m.irq_pending,
            AnyMapper::SunsoftFme7(m) => m.irq_pending,
            AnyMapper::Tqrom(m) => m.irq_enabled && m.irq_pending,
            AnyMapper::TxSrom(m) => m.irq_pending,
            _ => false,
        }
    }

    pub fn cartridge(&self) -> (c: &Cartridge)
        ensures
            *c == self.cart(),
    {
        match self {
            AnyMapper::Nrom(m) => &m.cart,
            AnyMapper::Unrom(m) => &m.cart,
            AnyMapper::Cnrom(m) => &m.cart,
            AnyMapper::AxRom(m) => &m.cart,
            AnyMapper::Bnrom(m) => &m.cart,
            AnyMapper::Camerica(m) => &m.cart,
            AnyMapper::Cprom(m) => &m.cart,
            AnyMapper::CpromV2(m) => &m.cart,
            AnyMapper::GxRom(m) => &m.cart,
            AnyMapper::Sachen(m) => &m.cart,
            AnyMapper::Action52(m) => &m.cart,
            AnyMapper::NesEvtRom(m) => &m.cart,
            AnyMapper::Mmc2(m) => &m.cart,
            AnyMapper::Mmc4(m) => &m.cart,
            AnyMapper::Namco175(m) => &m.cart,
            AnyMapper::Rambo1(m) => &m.cart,
            AnyMapper::SunsoftFme7(m) => &m.cart,
            AnyMapper::TxSrom(m) => &m.cart,
            AnyMapper::Tqrom(m) => &m.cart,
            AnyMapper::Mmc5(m) => &m.cart,
        }
    }
}


impl Mapper for AnyMapper {
    closed spec fn wf(&self) -> bool {
        match self {
            AnyMapper::Nrom(m) => m.wf(),
            AnyMapper::Unrom(m) => m.wf(),
            AnyMapper::Cnrom(m) => m.wf(),
            AnyMapper::AxRom(m) => m.wf(),
            AnyMapper::Bnrom(m) => m.wf(),
            AnyMapper::Camerica(m) => m.wf(),
            AnyMapper::Cprom(m) => m.wf(),
            AnyMapper::CpromV2(m) => m.wf(),
            AnyMapper::GxRom(m) => m.wf(),
            AnyMapper::Sachen(m) => m.wf(),
            AnyMapper::Action52(m) => m.wf(),
            AnyMapper::NesEvtRom(m) => m.wf(),
            AnyMapper::Mmc2(m) => m.wf(),
            AnyMapper::Mmc4(m) => m.wf(),
            AnyMapper::Namco175(m) => m.wf(),
            AnyMapper::Rambo1(m) => m.wf(),
            AnyMapper::SunsoftFme7(m) => m.wf(),
            AnyMapper::TxSrom(m) => m.wf(),
            AnyMapper::Tqrom(m) => m.wf(),
            AnyMapper::Mmc5(m) => m.wf(),
        }
    }

    closed spec fn accepts(&self, cart: &Cartridge) -> bool {
        match self {
            AnyMapper::Nrom(m) => m.accepts(cart),
            AnyMapper::Unrom(m) => m.accepts(cart),
            AnyMapper::Cnrom(m) => m.accepts(cart),
            AnyMapper::AxRom(m) => m.accepts(cart),
            AnyMapper::Bnrom(m) => m.accepts(cart),
            AnyMapper::Camerica(m) => m.accepts(cart),
            AnyMapper::Cprom(m) => m.accepts(cart),
            AnyMapper::CpromV2(m) => m.accepts(cart),
            AnyMapper::GxRom(m) => m.accepts(cart),
            AnyMapper::Sachen(m) => m.accepts(cart),
            AnyMapper::Action52(m) => m.accepts(cart),
            AnyMapper::NesEvtRom(m) => m.accepts(cart),
            AnyMapper::Mmc2(m) => m.accepts(cart),
            AnyMapper::Mmc4(m) => m.accepts(cart),
            AnyMapper::Namco175(m) => m.accepts(cart),
            AnyMapper::Rambo1(m) => m.accepts(cart),
            AnyMapper::SunsoftFme7(m) => m.accepts(cart),
            AnyMapper::TxSrom(m) => m.accepts(cart),
            AnyMapper::Tqrom(m) => m.accepts(cart),
            AnyMapper::Mmc5(m) => m.accepts(cart),
        }
    }

    closed spec fn saved_bytes(&self) -> Seq<u8> {
        match self {
            AnyMapper::Nrom(m) => m.saved_bytes(),
            AnyMapper::Unrom(m) => m.saved_bytes(),
            AnyMapper::Cnrom(m) => m.saved_bytes(),
            AnyMapper::AxRom(m) => m.saved_bytes(),
            AnyMapper::Bnrom(m) => m.saved_bytes(),
            AnyMapper::Camerica(m) => m.saved_bytes(),
            AnyMapper::Cprom(m) => m.saved_bytes(),
            AnyMapper::CpromV2(m) => m.saved_bytes(),
            AnyMapper::GxRom(m) => m.saved_bytes(),
            AnyMapper::Sachen(m) => m.saved_bytes(),
            AnyMapper::Action52(m) => m.saved_bytes(),
            AnyMapper::NesEvtRom(m) => m.saved_bytes(),
            AnyMapper::Mmc2(m) => m.saved_bytes(),
            AnyMapper::Mmc4(m) => m.saved_bytes(),
            AnyMapper::Namco175(m) => m.saved_bytes(),
            AnyMapper::Rambo1(m) => m.saved_bytes(),
            AnyMapper::SunsoftFme7(m) => m.saved_bytes(),
            AnyMapper::TxSrom(m) => m.saved_bytes(),
            AnyMapper::Tqrom(m) => m.saved_bytes(),
            AnyMapper::Mmc5(m) => m.saved_bytes(),
        }
    }

    closed spec fn loaded_bytes(&self) -> Seq<u8> {
        match self {
            AnyMapper::Nrom(m) => m.loaded_bytes(),
            AnyMapper::Unrom(m) => m.loaded_bytes(),
            AnyMapper::Cnrom(m) => m.loaded_bytes(),
            AnyMapper::AxRom(m) => m.loaded_bytes(),
            AnyMapper::Bnrom(m) => m.loaded_bytes(),
            AnyMapper::Camerica(m) => m.loaded_bytes(),
            AnyMapper::Cprom(m) => m.loaded_bytes(),
            AnyMapper::CpromV2(m) => m.loaded_bytes(),
            AnyMapper::GxRom(m) => m.loaded_bytes(),
            AnyMapper::Sachen(m) => m.loaded_bytes(),
            AnyMapper::Action52(m) => m.loaded_bytes(),
            AnyMapper::NesEvtRom(m) => m.loaded_bytes(),
            AnyMapper::Mmc2(m) => m.loaded_bytes(),
            AnyMapper::Mmc4(m) => m.loaded_bytes(),
            AnyMapper::Namco175(m) => m.loaded_bytes(),
            AnyMapper::Rambo1(m) => m.loaded_bytes(),
            AnyMapper::SunsoftFme7(m) => m.loaded_bytes(),
            AnyMapper::TxSrom(m) => m.loaded_bytes(),
            AnyMapper::Tqrom(m) => m.loaded_bytes(),
            AnyMapper::Mmc5(m) => m.loaded_bytes(),
        }
    }

    closed spec fn id(&self) -> u8 {
        match self {
            AnyMapper::Nrom(m) => m.id(),
            AnyMapper::Unrom(m) => m.id(),
            AnyMapper::Cnrom(m) => m.id(),
            AnyMapper::AxRom(m) => m.id(),
            AnyMapper::Bnrom(m) => m.id(),
            AnyMapper::Camerica(m) => m.id(),
            AnyMapper::Cprom(m) => m.id(),
            AnyMapper::CpromV2(m) => m.id(),
            AnyMapper::GxRom(m) => m.id(),
            AnyMapper::Sachen(m) => m.id(),
            AnyMapper::Action52(m) => m.id(),
            AnyMapper::NesEvtRom(m) => m.id(),
            AnyMapper::Mmc2(m) => m.id(),
            AnyMapper::Mmc4(m) => m.id(),
            AnyMapper::Namco175(m) => m.id(),
            AnyMapper::Rambo1(m) => m.id(),
            AnyMapper::SunsoftFme7(m) => m.id(),
            AnyMapper::TxSrom(m) => m.id(),
            AnyMapper::Tqrom(m) => m.id(),
            AnyMapper::Mmc5(m) => m.id(),
        }
    }

    closed spec fn state_fits(&self, rest: Seq<u8>) -> bool {
        match self {
            AnyMapper::Nrom(m) => m.state_fits(rest),
            AnyMapper::Unrom(m) => m.state_fits(rest),
            AnyMapper::Cnrom(m) => m.state_fits(rest),
            AnyMapper::AxRom(m) => m.state_fits(rest),
            AnyMapper::Bnrom(m) => m.state_fits(rest),
            AnyMapper::Camerica(m) => m.state_fits(rest),
            AnyMapper::Cprom(m) => m.state_fits(rest),
            AnyMapper::CpromV2(m) => m.state_fits(rest),
            AnyMapper::GxRom(m) => m.state_fits(rest),
            AnyMapper::Sachen(m) => m.state_fits(rest),
            AnyMapper::Action52(m) => m.state_fits(rest),
            AnyMapper::NesEvtRom(m) => m.state_fits(rest),
            AnyMapper::Mmc2(m) => m.state_fits(rest),
            AnyMapper::Mmc4(m) => m.state_fits(rest),
            AnyMapper::Namco175(m) => m.state_fits(rest),
            AnyMapper::Rambo1(m) => m.state_fits(rest),
            AnyMapper::SunsoftFme7(m) => m.state_fits(rest),
            AnyMapper::TxSrom(m) => m.state_fits(rest),
            AnyMapper::Tqrom(m) => m.state_fits(rest),
            AnyMapper::Mmc5(m) => m.state_fits(rest),
        }
    }

    closed spec fn sram(&self) -> Option<Seq<u8>> {
        match self {
            AnyMapper::Nrom(m) => m.sram(),
            AnyMapper::Unrom(m) => m.sram(),
            AnyMapper::Cnrom(m) => m.sram(),
            AnyMapper::AxRom(m) => m.sram(),
            AnyMapper::Bnrom(m) => m.sram(),
            AnyMapper::Camerica(m) => m.sram(),
            AnyMapper::Cprom(m) => m.sram(),
            AnyMapper::CpromV2(m) => m.sram(),
            AnyMapper::GxRom(m) => m.sram(),
            AnyMapper::Sachen(m) => m.sram(),
            AnyMapper::Action52(m) => m.sram(),
            AnyMapper::NesEvtRom(m) => m.sram(),
            AnyMapper::Mmc2(m) => m.sram(),
            AnyMapper::Mmc4(m) => m.sram(),
            AnyMapper::Namco175(m) => m.sram(),
            AnyMapper::Rambo1(m) => m.sram(),
            AnyMapper::SunsoftFme7(m) => m.sram(),
            AnyMapper::TxSrom(m) => m.sram(),
            AnyMapper::Tqrom(m) => m.sram(),
            AnyMapper::Mmc5(m) => m.sram(),
        }
    }

    closed spec fn rom_offset(&self, addr: u16) -> Option<u32> {
        match self {
            AnyMapper::Nrom(m) => m.rom_offset(addr),
            AnyMapper::Unrom(m) => m.rom_offset(addr),
            AnyMapper::Cnrom(m) => m.rom_offset(addr),
            AnyMapper::AxRom(m) => m.rom_offset(addr),
            AnyMapper::Bnrom(m) => m.rom_offset(addr),
            AnyMapper::Camerica(m) => m.rom_offset(addr),
            AnyMapper::Cprom(m) => m.rom_offset(addr),
            AnyMapper::CpromV2(m) => m.rom_offset(addr),
            AnyMapper::GxRom(m) => m.rom_offset(addr),
            AnyMapper::Sachen(m) => m.rom_offset(addr),
            AnyMapper::Action52(m) => m.rom_offset(addr),
            AnyMapper::NesEvtRom(m) => m.rom_offset(addr),
            AnyMapper::Mmc2(m) => m.rom_offset(addr),
            AnyMapper::Mmc4(m) => m.rom_offset(addr),
            AnyMapper::Namco175(m) => m.rom_offset(addr),
            AnyMapper::Rambo1(m) => m.rom_offset(addr),
            AnyMapper::SunsoftFme7(m) => m.rom_offset(addr),
            AnyMapper::TxSrom(m) => m.rom_offset(addr),
            AnyMapper::Tqrom(m) => m.rom_offset(addr),
            AnyMapper::Mmc5(m) => m.rom_offset(addr),
        }
    }

    closed spec fn peek_value(&self, addr: u16) -> u8 {
        match self {
            AnyMapper::Nrom(m) => m.peek_value(addr),
            AnyMapper::Unrom(m) => m.peek_value(addr),
            AnyMapper::Cnrom(m) => m.peek_value(addr),
            AnyMapper::AxRom(m) => m.peek_value(addr),
            AnyMapper::Bnrom(m) => m.peek_value(addr),
            AnyMapper::Camerica(m) => m.peek_value(addr),
            AnyMapper::Cprom(m) => m.peek_value(addr),
            AnyMapper::CpromV2(m) => m.peek_value(addr),
            AnyMapper::GxRom(m) => m.peek_value(addr),
            AnyMapper::Sachen(m) => m.peek_value(addr),
            AnyMapper::Action52(m) => m.peek_value(addr),
            AnyMapper::NesEvtRom(m) => m.peek_value(addr),
            AnyMapper::Mmc2(m) => m.peek_value(addr),
            AnyMapper::Mmc4(m) => m.peek_value(addr),
            AnyMapper::Namco175(m) => m.peek_value(addr),
            AnyMapper::Rambo1(m) => m.peek_value(addr),
            AnyMapper::SunsoftFme7(m) => m.peek_value(addr),
            AnyMapper::TxSrom(m) => m.peek_value(addr),
            AnyMapper::Tqrom(m) => m.peek_value(addr),
            AnyMapper::Mmc5(m) => m.peek_value(addr),
        }
    }

    closed spec fn after_read(&self, addr: u16) -> AnyMapper {
        match self {
            AnyMapper::Nrom(m) => AnyMapper::Nrom(m.after_read(addr)),
            AnyMapper::Unrom(m) => AnyMapper::Unrom(m.after_read(addr)),
            AnyMapper::Cnrom(m) => AnyMapper::Cnrom(m.after_read(addr)),
            AnyMapper::AxRom(m) => AnyMapper::AxRom(m.after_read(addr)),
            AnyMapper::Bnrom(m) => AnyMapper::Bnrom(m.after_read(addr)),
            AnyMapper::Camerica(m) => AnyMapper::Camerica(m.after_read(addr)),
            AnyMapper::Cprom(m) => AnyMapper::Cprom(m.after_read(addr)),
            AnyMapper::CpromV2(m) => AnyMapper::CpromV2(m.after_read(addr)),
            AnyMapper::GxRom(m) => AnyMapper::GxRom(m.after_read(addr)),
            AnyMapper::Sachen(m) => AnyMapper::Sachen(m.after_read(addr)),
            AnyMapper::Action52(m) => AnyMapper::Action52(m.after_read(addr)),
            AnyMapper::NesEvtRom(m) => AnyMapper::NesEvtRom(m.after_read(addr)),
            AnyMapper::Mmc2(m) => AnyMapper::Mmc2(m.after_read(addr)),
            AnyMapper::Mmc4(m) => AnyMapper::Mmc4(m.after_read(addr)),
            AnyMapper::Namco175(m) => AnyMapper::Namco175(m.after_read(addr)),
            AnyMapper::Rambo1(m) => AnyMapper::Rambo1(m.after_read(addr)),
            AnyMapper::SunsoftFme7(m) => AnyMapper::SunsoftFme7(m.after_read(addr)),
            AnyMapper::TxSrom(m) => AnyMapper::TxSrom(m.after_read(addr)),
            AnyMapper::Tqrom(m) => AnyMapper::Tqrom(m.after_read(addr)),
            AnyMapper::Mmc5(m) => AnyMapper::Mmc5(m.after_read(addr)),
        }
    }

    closed spec fn written(&self, addr: u16, val: u8, after: AnyMapper) -> bool {
        match (*self, after) {
            (AnyMapper::Nrom(m), AnyMapper::Nrom(a)) => m.written(addr, val, a),
            (AnyMapper::Unrom(m), AnyMapper::Unrom(a)) => m.written(addr, val, a),
            (AnyMapper::Cnrom(m), AnyMapper::Cnrom(a)) => m.written(addr, val, a),
            (AnyMapper::AxRom(m), AnyMapper::AxRom(a)) => m.written(addr, val, a),
            (AnyMapper::Bnrom(m), AnyMapper::Bnrom(a)) => m.written(addr, val, a),
            (AnyMapper::Camerica(m), AnyMapper::Camerica(a)) => m.written(addr, val, a),
            (AnyMapper::Cprom(m), AnyMapper::Cprom(a)) => m.written(addr, val, a),
            (AnyMapper::CpromV2(m), AnyMapper::CpromV2(a)) => m.written(addr, val, a),
            (AnyMapper::GxRom(m), AnyMapper::GxRom(a)) => m.written(addr, val, a),
            (AnyMapper::Sachen(m), AnyMapper::Sachen(a)) => m.written(addr, val, a),
            (AnyMapper::Action52(m), AnyMapper::Action52(a)) => m.written(addr, val, a),
            (AnyMapper::NesEvtRom(m), AnyMapper::NesEvtRom(a)) => m.written(addr, val, a),
            (AnyMapper::Mmc2(m), AnyMapper::Mmc2(a)) => m.written(addr, val, a),
            (AnyMapper::Mmc4(m), AnyMapper::Mmc4(a)) => m.written(addr, val, a),
            (AnyMapper::Namco175(m), AnyMapper::Namco175(a)) => m.written(addr, val, a),
            (AnyMapper::Rambo1(m), AnyMapper::Rambo1(a)) => m.written(addr, val, a),
            (AnyMapper::SunsoftFme7(m), AnyMapper::SunsoftFme7(a)) => m.written(addr, val, a),
            (AnyMapper::TxSrom(m), AnyMapper::TxSrom(a)) => m.written(addr, val, a),
            (AnyMapper::Tqrom(m), AnyMapper::Tqrom(a)) => m.written(addr, val, a),
            (AnyMapper::Mmc5(m), AnyMapper::Mmc5(a)) => m.written(addr, val, a),
            _ => false,
        }
    }

    fn peek(&mut self, addr: u16) -> (r: u8) {
        match self {
            AnyMapper::Nrom(m) => m.peek(addr),
            AnyMapper::Unrom(m) => m.peek(addr),
            AnyMapper::Cnrom(m) => m.peek(addr),
            AnyMapper::AxRom(m) => m.peek(addr),
            AnyMapper::Bnrom(m) => m.peek(addr),
            AnyMapper::Camerica(m) => m.peek(addr),
            AnyMapper::Cprom(m) => m.peek(addr),
            AnyMapper::CpromV2(m) => m.peek(addr),
            AnyMapper::GxRom(m) => m.peek(addr),
            AnyMapper::Sachen(m) => m.peek(addr),
            AnyMapper::Action52(m) => m.peek(addr),
            AnyMapper::NesEvtRom(m) => m.peek(addr),
            AnyMapper::Mmc2(m) => m.peek(addr),
            AnyMapper::Mmc4(m) => m.peek(addr),
            AnyMapper::Namco175(m) => m.peek(addr),
            AnyMapper::Rambo1(m) => m.peek(addr),
            AnyMapper::SunsoftFme7(m) => m.peek(addr),
            AnyMapper::TxSrom(m) => m.peek(addr),
            AnyMapper::Tqrom(m) => m.peek(addr),
            AnyMapper::Mmc5(m) => m.peek(addr),
        }
    }

    fn poke(&mut self, addr: u16, val: u8) {
        match self {
            AnyMapper::Nrom(m) => m.poke(addr, val),
            AnyMapper::Unrom(m) => m.poke(addr, val),
            AnyMapper::Cnrom(m) => m.poke(addr, val),
            AnyMapper::AxRom(m) => m.poke(addr, val),
            AnyMapper::Bnrom(m) => m.poke(addr, val),
            AnyMapper::Camerica(m) => m.poke(addr, val),
            AnyMapper::Cprom(m) => m.poke(addr, val),
            AnyMapper::CpromV2(m) => m.poke(addr, val),
            AnyMapper::GxRom(m) => m.poke(addr, val),
            AnyMapper::Sachen(m) => m.poke(addr, val),
            AnyMapper::Action52(m) => m.poke(addr, val),
            AnyMapper::NesEvtRom(m) => m.poke(addr, val),
            AnyMapper::Mmc2(m) => m.poke(addr, val),
            AnyMapper::Mmc4(m) => m.poke(addr, val),
            AnyMapper::Namco175(m) => m.poke(addr, val),
            AnyMapper::Rambo1(m) => m.poke(addr, val),
            AnyMapper::SunsoftFme7(m) => m.poke(addr, val),
            AnyMapper::TxSrom(m) => m.poke(addr, val),
            AnyMapper::Tqrom(m) => m.poke(addr, val),
            AnyMapper::Mmc5(m) => m.poke(addr, val),
        }
    }

    fn get_id(&self) -> (r: u8) {
        match self {
            AnyMapper::Nrom(m) => m.get_id(),
            AnyMapper::Unrom(m) => m.get_id(),
            AnyMapper::Cnrom(m) => m.get_id(),
            AnyMapper::AxRom(m) => m.get_id(),
            AnyMapper::Bnrom(m) => m.get_id(),
            AnyMapper::Camerica(m) => m.get_id(),
            AnyMapper::Cprom(m) => m.get_id(),
            AnyMapper::CpromV2(m) => m.get_id(),
            AnyMapper::GxRom(m) => m.get_id(),
            AnyMapper::Sachen(m) => m.get_id(),
            AnyMapper::Action52(m) => m.get_id(),
            AnyMapper::NesEvtRom(m) => m.get_id(),
            AnyMapper::Mmc2(m) => m.get_id(),
            AnyMapper::Mmc4(m) => m.get_id(),
            AnyMapper::Namco175(m) => m.get_id(),
            AnyMapper::Rambo1(m) => m.get_id(),
            AnyMapper::SunsoftFme7(m) => m.get_id(),
            AnyMapper::TxSrom(m) => m.get_id(),
            AnyMapper::Tqrom(m) => m.get_id(),
            AnyMapper::Mmc5(m) => m.get_id(),
        }
    }

    closed spec fn cart_updated(&self, cartridge: Cartridge, after: AnyMapper) -> bool {
        match (*self, after) {
            (AnyMapper::Nrom(m), AnyMapper::Nrom(a)) => m.cart_updated(cartridge, a),
            (AnyMapper::Unrom(m), AnyMapper::Unrom(a)) => m.cart_updated(cartridge, a),
            (AnyMapper::Cnrom(m), AnyMapper::Cnrom(a)) => m.cart_updated(cartridge, a),
            (AnyMapper::AxRom(m), AnyMapper::AxRom(a)) => m.cart_updated(cartridge, a),
            (AnyMapper::Bnrom(m), AnyMapper::Bnrom(a)) => m.cart_updated(cartridge, a),
            (AnyMapper::Camerica(m), AnyMapper::Camerica(a)) => m.cart_updated(cartridge, a),
            (AnyMapper::Cprom(m), AnyMapper::Cprom(a)) => m.cart_updated(cartridge, a),
            (AnyMapper::CpromV2(m), AnyMapper::CpromV2(a)) => m.cart_updated(cartridge, a),
            (AnyMapper::GxRom(m), AnyMapper::GxRom(a)) => m.cart_updated(cartridge, a),
            (AnyMapper::Sachen(m), AnyMapper::Sachen(a)) => m.cart_updated(cartridge, a),
            (AnyMapper::Action52(m), AnyMapper::Action52(a)) => m.cart_updated(cartridge, a),
            (AnyMapper::NesEvtRom(m), AnyMapper::NesEvtRom(a)) => m.cart_updated(cartridge, a),
            (AnyMapper::Mmc2(m), AnyMapper::Mmc2(a)) => m.cart_updated(cartridge, a),
            (AnyMapper::Mmc4(m), AnyMapper::Mmc4(a)) => m.cart_updated(cartridge, a),
            (AnyMapper::Namco175(m), AnyMapper::Namco175(a)) => m.cart_updated(cartridge, a),
            (AnyMapper::Rambo1(m), AnyMapper::Rambo1(a)) => m.cart_updated(cartridge, a),
            (AnyMapper::SunsoftFme7(m), AnyMapper::SunsoftFme7(a)) => m.cart_updated(cartridge, a),
            (AnyMapper::TxSrom(m), AnyMapper::TxSrom(a)) => m.cart_updated(cartridge, a),
            (AnyMapper::Tqrom(m), AnyMapper::Tqrom(a)) => m.cart_updated(cartridge, a),
            (AnyMapper::Mmc5(m), AnyMapper::Mmc5(a)) => m.cart_updated(cartridge, a),
            _ => false,
        }
    }

    fn update_cartridge(&mut self, cartridge: Cartridge)
        ensures
            final(self).cart() == cartridge,
    {
        match self {
            AnyMapper::Nrom(m) => m.update_cartridge(cartridge),
            AnyMapper::Unrom(m) => m.update_cartridge(cartridge),
            AnyMapper::Cnrom(m) => m.update_cartridge(cartridge),
            AnyMapper::AxRom(m) => m.update_cartridge(cartridge),
            AnyMapper::Bnrom(m) => m.update_cartridge(cartridge),
            AnyMapper::Camerica(m) => m.update_cartridge(cartridge),
            AnyMapper::Cprom(m) => m.update_cartridge(cartridge),
            AnyMapper::CpromV2(m) => m.update_cartridge(cartridge),
            AnyMapper::GxRom(m) => m.update_cartridge(cartridge),
            AnyMapper::Sachen(m) => m.update_cartridge(cartridge),
            AnyMapper::Action52(m) => m.update_cartridge(cartridge),
            AnyMapper::NesEvtRom(m) => m.update_cartridge(cartridge),
            AnyMapper::Mmc2(m) => m.update_cartridge(cartridge),
            AnyMapper::Mmc4(m) => m.update_cartridge(cartridge),
            AnyMapper::Namco175(m) => m.update_cartridge(cartridge),
            AnyMapper::Rambo1(m) => m.update_cartridge(cartridge),
            AnyMapper::SunsoftFme7(m) => m.update_cartridge(cartridge),
            AnyMapper::TxSrom(m) => m.update_cartridge(cartridge),
            AnyMapper::Tqrom(m) => m.update_cartridge(cartridge),
            AnyMapper::Mmc5(m) => m.update_cartridge(cartridge),
        }
    }

    fn check_irq(&self) -> (r: bool)
        ensures
            r == self.irq_line(),
    {
        match self {
            AnyMapper::Nrom(m) => m.check_irq(),
            AnyMapper::Unrom(m) => m.check_irq(),
            AnyMapper::Cnrom(m) => m.check_irq(),
            AnyMapper::AxRom(m) => m.check_irq(),
            AnyMapper::Bnrom(m) => m.check_irq(),
            AnyMapper::Camerica(m) => m.check_irq(),
            AnyMapper::Cprom(m) => m.check_irq(),
            AnyMapper::CpromV2(m) => m.check_irq(),
            AnyMapper::GxRom(m) => m.check_irq(),
            AnyMapper::Sachen(m) => m.check_irq(),
            AnyMapper::Action52(m) => m.check_irq(),
            AnyMapper::NesEvtRom(m) => m.check_irq(),
            AnyMapper::Mmc2(m) => m.check_irq(),
            AnyMapper::Mmc4(m) => m.check_irq(),
            AnyMapper::Namco175(m) => m.check_irq(),
            AnyMapper::Rambo1(m) => m.check_irq(),
            AnyMapper::SunsoftFme7(m) => m.check_irq(),
            AnyMapper::TxSrom(m) => m.check_irq(),
            AnyMapper::Tqrom(m) => m.check_irq(),
            AnyMapper::Mmc5(m) => m.check_irq(),
        }
    }

    fn get_prg_rom_offset(&self, addr: u16) -> (r: Option<u32>) {
        match self {
            AnyMapper::Nrom(m) => m.get_prg_rom_offset(addr),
            AnyMapper::Unrom(m) => m.get_prg_rom_offset(addr),
            AnyMapper::Cnrom(m) => m.get_prg_rom_offset(addr),
            AnyMapper::AxRom(m) => m.get_prg_rom_offset(addr),
            AnyMapper::Bnrom(m) => m.get_prg_rom_offset(addr),
            AnyMapper::Camerica(m) => m.get_prg_rom_offset(addr),
            AnyMapper::Cprom(m) => m.get_prg_rom_offset(addr),
            AnyMapper::CpromV2(m) => m.get_prg_rom_offset(addr),
            AnyMapper::GxRom(m) => m.get_prg_rom_offset(addr),
            AnyMapper::Sachen(m) => m.get_prg_rom_offset(addr),
            AnyMapper::Action52(m) => m.get_prg_rom_offset(addr),
            AnyMapper::NesEvtRom(m) => m.get_prg_rom_offset(addr),
            AnyMapper::Mmc2(m) => m.get_prg_rom_offset(addr),
            AnyMapper::Mmc4(m) => m.get_prg_rom_offset(addr),
            AnyMapper::Namco175(m) => m.get_prg_rom_offset(addr),
            AnyMapper::Rambo1(m) => m.get_prg_rom_offset(addr),
            AnyMapper::SunsoftFme7(m) => m.get_prg_rom_offset(addr),
            AnyMapper::TxSrom(m) => m.get_prg_rom_offset(addr),
            AnyMapper::Tqrom(m) => m.get_prg_rom_offset(addr),
            AnyMapper::Mmc5(m) => m.get_prg_rom_offset(addr),
        }
    }

    fn write_state_to(&self, writer: &mut Vec<u8>) {
        match self {
            AnyMapper::Nrom(m) => m.write_state_to(writer),
            AnyMapper::Unrom(m) => m.write_state_to(writer),
            AnyMapper::Cnrom(m) => m.write_state_to(writer),
            AnyMapper::AxRom(m) => m.write_state_to(writer),
            AnyMapper::Bnrom(m) => m.write_state_to(writer),
            AnyMapper::Camerica(m) => m.write_state_to(writer),
            AnyMapper::Cprom(m) => m.write_state_to(writer),
            AnyMapper::CpromV2(m) => m.write_state_to(writer),
            AnyMapper::GxRom(m) => m.write_state_to(writer),
            AnyMapper::Sachen(m) => m.write_state_to(writer),
            AnyMapper::Action52(m) => m.write_state_to(writer),
            AnyMapper::NesEvtRom(m) => m.write_state_to(writer),
            AnyMapper::Mmc2(m) => m.write_state_to(writer),
            AnyMapper::Mmc4(m) => m.write_state_to(writer),
            AnyMapper::Namco175(m) => m.write_state_to(writer),
            AnyMapper::Rambo1(m) => m.write_state_to(writer),
            AnyMapper::SunsoftFme7(m) => m.write_state_to(writer),
            AnyMapper::TxSrom(m) => m.write_state_to(writer),
            AnyMapper::Tqrom(m) => m.write_state_to(writer),
            AnyMapper::Mmc5(m) => m.write_state_to(writer),
        }
    }

    fn read_state_from(&mut self, reader: &mut StateReader) -> (res: Result<(), StateError>) {
        match self {
            AnyMapper::Nrom(m) => m.read_state_from(reader),
            AnyMapper::Unrom(m) => m.read_state_from(reader),
            AnyMapper::Cnrom(m) => m.read_state_from(reader),
            AnyMapper::AxRom(m) => m.read_state_from(reader),
            AnyMapper::Bnrom(m) => m.read_state_from(reader),
            AnyMapper::Camerica(m) => m.read_state_from(reader),
            AnyMapper::Cprom(m) => m.read_state_from(reader),
            AnyMapper::CpromV2(m) => m.read_state_from(reader),
            AnyMapper::GxRom(m) => m.read_state_from(reader),
            AnyMapper::Sachen(m) => m.read_state_from(reader),
            AnyMapper::Action52(m) => m.read_state_from(reader),
            AnyMapper::NesEvtRom(m) => m.read_state_from(reader),
            AnyMapper::Mmc2(m) => m.read_state_from(reader),
            AnyMapper::Mmc4(m) => m.read_state_from(reader),
            AnyMapper::Namco175(m) => m.read_state_from(reader),
            AnyMapper::Rambo1(m) => m.read_state_from(reader),
            AnyMapper::SunsoftFme7(m) => m.read_state_from(reader),
            AnyMapper::TxSrom(m) => m.read_state_from(reader),
            AnyMapper::Tqrom(m) => m.read_state_from(reader),
            AnyMapper::Mmc5(m) => m.read_state_from(reader),
        }
    }

    fn get_sram(&self) -> (r: Option<Vec<u8>>) {
        match self {
            AnyMapper::Nrom(m) => m.get_sram(),
            AnyMapper::Unrom(m) => m.get_sram(),
            AnyMapper::Cnrom(m) => m.get_sram(),
            AnyMapper::AxRom(m) => m.get_sram(),
            AnyMapper::Bnrom(m) => m.get_sram(),
            AnyMapper::Camerica(m) => m.get_sram(),
            AnyMapper::Cprom(m) => m.get_sram(),
            AnyMapper::CpromV2(m) => m.get_sram(),
            AnyMapper::GxRom(m) => m.get_sram(),
            AnyMapper::Sachen(m) => m.get_sram(),
            AnyMapper::Action52(m) => m.get_sram(),
            AnyMapper::NesEvtRom(m) => m.get_sram(),
            AnyMapper::Mmc2(m) => m.get_sram(),
            AnyMapper::Mmc4(m) => m.get_sram(),
            AnyMapper::Namco175(m) => m.get_sram(),
            AnyMapper::Rambo1(m) => m.get_sram(),
            AnyMapper::SunsoftFme7(m) => m.get_sram(),
            AnyMapper::TxSrom(m) => m.get_sram(),
            AnyMapper::Tqrom(m) => m.get_sram(),
            AnyMapper::Mmc5(m) => m.get_sram(),
        }
    }

    fn set_sram(&mut self, data: &[u8])
        ensures
            final(self).sram() == sram_after(old(self).sram(), data@),
    {
        match self {
            AnyMapper::Nrom(m) => m.set_sram(data),
            AnyMapper::Unrom(m) => m.set_sram(data),
            AnyMapper::Cnrom(m) => m.set_sram(data),
            AnyMapper::AxRom(m) => m.set_sram(data),
            AnyMapper::Bnrom(m) => m.set_sram(data),
            AnyMapper::Camerica(m) => m.set_sram(data),
            AnyMapper::Cprom(m) => m.set_sram(data),
            AnyMapper::CpromV2(m) => m.set_sram(data),
            AnyMapper::GxRom(m) => m.set_sram(data),
            AnyMapper::Sachen(m) => {
                let ghost r = m.ram@;
                m.set_sram(data);
                assert(m.ram@ =~= sram_loaded(r, data@));
            },
            AnyMapper::Action52(m) => m.set_sram(data),
            AnyMapper::NesEvtRom(m) => m.set_sram(data),
            AnyMapper::Mmc2(m) => {
                let ghost r = m.ram@;
                m.set_sram(data);
                assert(m.ram@ =~= sram_loaded(r, data@));
            },
            AnyMapper::Mmc4(m) => {
                let ghost r = m.ram@;
                m.set_sram(data);
                assert(m.ram@ =~= sram_loaded(r, data@));
            },
            AnyMapper::Namco175(m) => m.set_sram(data),
            AnyMapper::Rambo1(m) => m.set_sram(data),
            AnyMapper::SunsoftFme7(m) => m.set_sram(data),
            AnyMapper::TxSrom(m) => {
                let ghost r = m.ram@;
                m.set_sram(data);
                assert(m.ram@ =~= sram_loaded(r, data@));
            },
            AnyMapper::Tqrom(m) => m.set_sram(data),
            AnyMapper::Mmc5(m) => {
                let ghost r = m.wram@;
                m.set_sram(data);
                assert(m.wram@ =~= sram_loaded(r, data@));
            },
        }
    }
}

} // verus!
