//! A Nintendo Entertainment System emulator core.
use vstd::prelude::*;

pub mod bits;
pub mod save_state;
pub mod cpu;
pub mod cartridge;
pub mod mapper;
pub mod mapper_nrom;
pub mod mapper_axrom;
pub mod mapper_unrom;
pub mod mapper_camerica;
pub mod mapper_bnrom;
pub mod mapper_cnrom;
pub mod mapper_cprom;
pub mod mapper_cprom_v2;
pub mod mapper_gxrom;
pub mod mapper_sachen;
pub mod mapper_action52;
pub mod mapper_nes_evrom;
pub mod mapper_mmc2;
pub mod mapper_mmc4;
pub mod mapper_namco175;
pub mod mapper_rambo1;
pub mod mapper_sunsoft_fme7;
pub mod mapper_txsrom;
pub mod mapper_tqrom;
pub mod mapper_mmc5;
pub mod controller;
pub mod apu;
pub mod ppu;
pub mod nes;
pub mod board;

verus! {
} // verus!
