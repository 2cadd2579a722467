use nes_core::board::{make_mapper, supports, AnyMapper};
use nes_core::cartridge::Cartridge;
use nes_core::mapper::{translate_vram, Mapper, MirrorMode};
use nes_core::mapper_mmc2::MapperMmc2;
use nes_core::mapper_mmc5::MapperMmc5;
use nes_core::mapper_namco175::MapperNamco175;
use nes_core::mapper_nrom::MapperNrom;
use nes_core::mapper_sunsoft_fme7::MapperSunsoftFme7;
use nes_core::mapper_txsrom::{get_bank_offset, MapperTxSrom};

/// An iNES image whose program ROM byte at offset `i` is `i / 0x2000` (the
/// 8 KiB bank number) and whose character ROM byte is `i / 0x400` (the
/// 1 KiB bank number).
fn image(mapper: u8, prg_units: u8, chr_units: u8, flags6_low: u8) -> Vec<u8> {
    let mut v = vec![0x4E, 0x45, 0x53, 0x1A, prg_units, chr_units, (mapper << 4) | flags6_low, mapper & 0xF0];
    v.extend([0u8; 8]);
    for i in 0..(prg_units as usize * 16384) {
        v.push((i / 0x2000) as u8);
    }
    for i in 0..(chr_units as usize * 8192) {
        v.push((i / 0x400) as u8);
    }
    v
}

fn cart(mapper: u8, prg_units: u8, chr_units: u8) -> Cartridge {
    Cartridge::load(&image(mapper, prg_units, chr_units, 0))
}

#[test]
fn header_fields_are_decoded() {
    let c = Cartridge::load(&image(9, 8, 4, 0x03));
    assert_eq!(c.get_mapper_id(), 9);
    assert_eq!(c.get_mapper_name(), "MMC2");
    assert!(c.has_battery());
    assert_eq!(c.mirror_mode, 1);
    assert_eq!(c.prg_rom.len(), 8 * 16384);
    assert_eq!(c.chr_rom.len(), 4 * 8192);
}

#[test]
fn cartridge_without_chr_rom_gets_chr_ram() {
    let c = Cartridge::load(&image(0, 1, 0, 0));
    assert_eq!(c.chr_rom.len(), 8192);
    assert!(c.chr_rom.iter().all(|&b| b == 0));
}

#[test]
fn unknown_boards_are_not_supported() {
    assert!(!supports(&cart(1, 2, 1)));
    assert!(!supports(&cart(4, 2, 1)));
    assert!(supports(&cart(0, 2, 1)));
    assert!(supports(&cart(5, 2, 1)));
}

#[test]
fn mirroring_maps_nametables_onto_vram() {
    assert_eq!(translate_vram(MirrorMode::MirrorHorizontal, 0x2400), 0x000);
    assert_eq!(translate_vram(MirrorMode::MirrorHorizontal, 0x2800), 0x400);
    assert_eq!(translate_vram(MirrorMode::MirrorVertical, 0x2400), 0x400);
    assert_eq!(translate_vram(MirrorMode::MirrorVertical, 0x2800), 0x000);
    assert_eq!(translate_vram(MirrorMode::MirrorSingleA, 0x2C05), 0x005);
    assert_eq!(translate_vram(MirrorMode::MirrorSingleB, 0x2005), 0x405);
}

#[test]
fn nrom_mirrors_a_16k_program_rom() {
    let mut m = MapperNrom::new(cart(0, 1, 1));
    assert_eq!(m.peek(0x8000), 0);
    assert_eq!(m.peek(0xC000), 0);
    assert_eq!(m.peek(0xE000), 1);
    m.poke(0x2001, 0x42);
    assert_eq!(m.peek(0x2001), 0x42);
    assert_eq!(m.get_prg_rom_offset(0xC123), Some(0x0123));
    assert_eq!(m.get_prg_rom_offset(0x6000), None);
}

#[test]
fn mmc2_latches_switch_character_banks() {
    let mut m = MapperMmc2::new(cart(9, 8, 4));
    m.poke(0xB000, 2);
    m.poke(0xC000, 5);
    assert_eq!(m.peek(0x0000), 8);
    m.peek(0x0FE8);
    assert_eq!(m.peek(0x0000), 20);
    m.peek(0x0FD8);
    assert_eq!(m.peek(0x0000), 8);
    m.poke(0xA000, 3);
    assert_eq!(m.peek(0x8000), 3);
    assert_eq!(m.peek(0xA000), 13);
    assert_eq!(m.peek(0xE000), 15);
    m.poke(0xF000, 1);
    assert_eq!(m.mirror_mode, MirrorMode::MirrorHorizontal);
    m.poke(0x6000, 7);
    assert_eq!(m.get_sram().unwrap()[0], 7);
}

#[test]
fn namco175_settles_program_windows_twice() {
    let mut m = MapperNamco175::new(cart(68, 8, 4));
    // The window offsets are clamped to the last bank number and then
    // scaled again, so both land on the last 8 KiB bank (15).
    m.poke(0xE000, 1);
    assert_eq!(m.prg_bank[0], 15 * 0x2000);
    assert_eq!(m.prg_bank[1], 15 * 0x2000);
    m.poke(0x8000, 3);
    assert_eq!(m.chr_bank[0], 3 * 0x400);
    assert_eq!(m.chr_bank[1], 4 * 0x400);
    assert_eq!(m.peek(0x0000), 3);
}

#[test]
fn txsrom_counts_a12_rising_edges() {
    let mut m = MapperTxSrom::new(cart(118, 8, 8));
    m.poke(0xC000, 2);
    m.poke(0xC001, 0);
    m.poke(0xE001, 0);
    assert!(!m.check_irq());
    m.peek(0x1000);
    assert_eq!(m.irq_counter, 2);
    m.peek(0x0000);
    m.peek(0x1000);
    assert_eq!(m.irq_counter, 1);
    assert!(!m.check_irq());
    m.peek(0x0000);
    m.peek(0x1000);
    assert_eq!(m.irq_counter, 0);
    assert!(m.check_irq());
    m.poke(0xE000, 0);
    assert!(!m.check_irq());
}

#[test]
fn txsrom_banks_count_back_from_the_end() {
    assert_eq!(get_bank_offset(0x20000, 0x2000, -1), 0x1E000);
    assert_eq!(get_bank_offset(0x20000, 0x2000, -2), 0x1C000);
    assert_eq!(get_bank_offset(0x20000, 0x2000, 17), 0x2000);
    let mut m = MapperTxSrom::new(cart(118, 8, 8));
    assert_eq!(m.peek(0xE000), 15);
    assert_eq!(m.peek(0xC000), 14);
    m.poke(0x8000, 6);
    m.poke(0x8001, 5);
    assert_eq!(m.peek(0x8000), 5);
}

#[test]
fn fme7_commands_select_banks() {
    let mut m = MapperSunsoftFme7::new(cart(69, 8, 8));
    m.poke(0x8000, 3);
    m.poke(0xA000, 9);
    assert_eq!(m.peek(0x0C00), 9);
    m.poke(0x8000, 9);
    m.poke(0xA000, 4);
    assert_eq!(m.peek(0xC000), 4);
    assert_eq!(m.peek(0xE000), 15);
    m.poke(0x8000, 0x0F);
    m.poke(0xC000, 0x30);
    assert_eq!(m.irq_latch, 0x30);
    assert_eq!(m.irq_counter, 0x30);
}

#[test]
fn mmc5_multiplies_and_keeps_extended_ram() {
    let mut m = MapperMmc5::new(cart(5, 8, 8));
    m.poke(0x5205, 200);
    m.poke(0x5206, 100);
    assert_eq!(m.peek(0x5205), (20000u32 & 0xFF) as u8);
    assert_eq!(m.peek(0x5206), (20000u32 >> 8) as u8);
    m.poke(0x5C10, 0x77);
    assert_eq!(m.peek(0x5C10), 0x77);
    m.poke(0x5104, 3);
    m.poke(0x5C10, 0x11);
    assert_eq!(m.peek(0x5C10), 0x77);
    assert_eq!(m.peek(0xFFFF), 15);
}

#[test]
fn mmc5_status_read_acknowledges_the_interrupt() {
    let mut m = MapperMmc5::new(cart(5, 8, 8));
    m.scanline.irq_pending = true;
    m.scanline.irq_enabled = true;
    assert!(m.check_irq());
    let status = m.peek(0x5204);
    assert_eq!(status & 0x80, 0x80);
    assert!(!m.check_irq());
}

#[test]
fn boards_round_trip_their_registers() {
    for (id, prg, chr) in [(0u8, 2u8, 1u8), (9, 8, 4), (65, 8, 4), (68, 8, 4), (64, 8, 4), (69, 8, 8), (118, 8, 8), (119, 8, 1)] {
        let mut m: AnyMapper = make_mapper(cart(id, prg, chr));
        m.poke(0x2005, 0x5A);
        let mut bytes = Vec::new();
        m.write_state_to(&mut bytes);
        let mut fresh = make_mapper(cart(id, prg, chr));
        let mut reader = nes_core::save_state::StateReader::new(bytes.clone());
        assert!(fresh.read_state_from(&mut reader).is_ok());
        let mut again = Vec::new();
        fresh.write_state_to(&mut again);
        assert_eq!(bytes, again);
        assert_eq!(fresh.peek(0x2005), m.peek(0x2005));
    }
}
