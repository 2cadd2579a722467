use nes_core::apu::pulse::Pulse;
use nes_core::cartridge::Cartridge;
use nes_core::controller::ControllerState;
use nes_core::nes::Nes;
use nes_core::ppu::palette_to_rgba;
use nes_core::save_state::{
    read_bool_strict, read_byte_vec, read_u16_le, read_u32_le, write_byte_vec, ReadState, StateError, StateReader,
    WriteState,
};

/// A 16 KiB NROM image whose reset vector points at 0x8000, where the
/// program is `JMP $8000`.
fn looping_rom() -> Vec<u8> {
    let mut v = vec![0x4E, 0x45, 0x53, 0x1A, 1, 1, 0, 0];
    v.extend([0u8; 8]);
    let mut prg = vec![0xEAu8; 16384];
    prg[0] = 0x4C;
    prg[1] = 0x00;
    prg[2] = 0x80;
    prg[0x3FFC] = 0x00;
    prg[0x3FFD] = 0x80;
    v.extend(prg);
    v.extend(vec![0u8; 8192]);
    v
}

fn console() -> Nes {
    Nes::new(Cartridge::load(&looping_rom()))
}

#[test]
fn joypad_reports_buttons_in_order_after_a_strobe() {
    let mut c = ControllerState::new();
    c.a = true;
    c.start = true;
    c.right = true;
    c.index = 5;
    c.strobe(1);
    let bits: Vec<u8> = (0..8).map(|_| c.read()).collect();
    assert_eq!(bits, vec![1, 0, 0, 1, 0, 0, 0, 1]);
    assert_eq!(c.read(), 0);
    assert_eq!(c.read(), 0);
}

#[test]
fn joypad_strobe_with_bit_clear_keeps_the_position() {
    let mut c = ControllerState::new();
    c.b = true;
    assert_eq!(c.read(), 0);
    c.strobe(0);
    assert_eq!(c.read(), 1);
    c.strobe(3);
    assert_eq!(c.index, 0);
}

#[test]
fn reader_takes_bytes_and_reports_the_end() {
    let mut r = StateReader::new(vec![1, 2, 3]);
    assert_eq!(r.take(2), Ok(vec![1, 2]));
    assert_eq!(r.pos, 2);
    assert_eq!(r.take(2), Err(StateError::UnexpectedEnd));
    assert_eq!(r.pos, 2);
    assert_eq!(r.take(1), Ok(vec![3]));
}

#[test]
fn integers_are_little_endian() {
    let mut w: Vec<u8> = Vec::new();
    0x1234u16.write(&mut w);
    0xAABBCCDDu32.write(&mut w);
    7usize.write(&mut w);
    assert_eq!(w, vec![0x34, 0x12, 0xDD, 0xCC, 0xBB, 0xAA, 7, 0, 0, 0, 0, 0, 0, 0]);
    let mut r = StateReader::new(w);
    assert_eq!(read_u16_le(&mut r), Ok(0x1234));
    assert_eq!(read_u32_le(&mut r), Ok(0xAABBCCDD));
    assert_eq!(usize::read(&mut r), Ok(7));
    assert_eq!(u8::read(&mut r), Err(StateError::UnexpectedEnd));
}

#[test]
fn strict_flags_other_than_zero_and_one_are_refused() {
    let mut r = StateReader::new(vec![1, 0, 2, 2]);
    assert_eq!(read_bool_strict(&mut r), Ok(true));
    assert_eq!(read_bool_strict(&mut r), Ok(false));
    assert_eq!(read_bool_strict(&mut r), Err(StateError::InvalidData));
    assert_eq!(bool::read(&mut r), Ok(true));
}

#[test]
fn byte_vectors_carry_their_length() {
    let mut w: Vec<u8> = Vec::new();
    write_byte_vec(&vec![9, 8, 7], &mut w);
    assert_eq!(w, vec![3, 0, 0, 0, 0, 0, 0, 0, 9, 8, 7]);
    let mut r = StateReader::new(w.clone());
    assert_eq!(read_byte_vec(&mut r), Ok(vec![9, 8, 7]));
    let mut short = StateReader::new(w[..10].to_vec());
    assert_eq!(read_byte_vec(&mut short), Err(StateError::UnexpectedEnd));
}

#[test]
fn palette_entries_become_opaque_rgba() {
    // Entry 0x01 is 0x001e74: blue in the third byte, alpha in the fourth.
    assert_eq!(palette_to_rgba(0x01), 0xFF74_1E00);
    assert_eq!(palette_to_rgba(0x41), 0xFF74_1E00);
    assert_eq!(palette_to_rgba(0x0D), 0xFF00_0000);
}

#[test]
fn pulse_length_counter_loads_only_when_enabled() {
    let mut p = Pulse::new_pulse1();
    p.poke_register(0x4003, 0x09);
    assert_eq!(p.length_counter, 0);
    assert!(!p.is_enabled());
    p.set_enable_flag(true);
    p.poke_register(0x4000, 0xBF);
    p.poke_register(0x4002, 0x00);
    p.poke_register(0x4003, 0x09);
    assert_eq!(p.length_counter, 254);
    assert_eq!(p.freq_timer, 0x100);
    assert_eq!(p.duty_table, 2);
    assert_eq!(p.volume, 15);
    assert!(p.is_enabled());
    p.set_enable_flag(false);
    assert_eq!(p.length_counter, 0);
    assert_eq!(p.output(), 0);
}

#[test]
fn a_frame_runs_and_records_audio() {
    let mut nes = console();
    let n = nes.emulate_frame();
    assert!(n > 0);
    assert!(n <= nes.get_audio_levels().len());
    assert_eq!(nes.get_frame_buffer().len(), 256 * 240 * 4);
    assert!(!nes.has_battery());
}

#[test]
fn a_saved_state_loads_back_to_the_same_bytes() {
    let mut nes = console();
    nes.emulate_frame();
    nes.emulate_frame();
    let saved = nes.get_state();
    let mut other = console();
    assert_eq!(other.set_state(&saved), Ok(()));
    assert_eq!(other.get_state(), saved);
    other.emulate_frame();
    nes.emulate_frame();
    assert_eq!(other.get_state(), nes.get_state());
}

#[test]
fn a_damaged_state_is_refused_and_changes_nothing() {
    let mut nes = console();
    nes.emulate_frame();
    let before = nes.get_state();
    let truncated = before[..before.len() / 2].to_vec();
    assert_eq!(nes.set_state(&truncated), Err(StateError::UnexpectedEnd));
    assert_eq!(nes.get_state(), before);
    assert!(nes.set_state(&[]).is_err());
    assert_eq!(nes.get_state(), before);
}

#[test]
fn a_state_naming_another_board_is_refused() {
    let mut nes = console();
    let mut state = nes.get_state();
    let before = state.clone();
    // The board's number follows the picture unit; the NROM board saves
    // 2048 bytes of nametable memory and one mirroring byte after it.
    let id_pos = state.len() - 2048 - 1 - 1;
    assert_eq!(state[id_pos], 0);
    state[id_pos] = 99;
    assert_eq!(nes.set_state(&state), Err(StateError::InvalidData));
    assert_eq!(nes.get_state(), before);
}

#[test]
fn joypad_state_round_trips() {
    let mut c = ControllerState::new();
    c.up = true;
    c.select = true;
    c.index = 3;
    let mut w: Vec<u8> = Vec::new();
    c.write(&mut w);
    assert_eq!(w, vec![0, 0, 1, 0, 1, 0, 0, 0, 3, 0, 0, 0, 0, 0, 0, 0]);
    let mut r = StateReader::new(w);
    let back = <ControllerState as ReadState>::read(&mut r).unwrap();
    assert_eq!(back, c);
    let mut short = StateReader::new(vec![1, 0, 0]);
    assert_eq!(<ControllerState as ReadState>::read(&mut short), Err(StateError::UnexpectedEnd));
}

#[test]
fn battery_ram_loads_as_far_as_both_reach() {
    let mut v = vec![0x4E, 0x45, 0x53, 0x1A, 8, 4, 0x92, 0];
    v.extend([0u8; 8]);
    v.extend(vec![0u8; 8 * 16384 + 4 * 8192]);
    let mut nes = Nes::new(Cartridge::load(&v));
    assert!(nes.has_battery());
    let before = nes.get_sram().unwrap();
    assert_eq!(before.len(), 8192);
    nes.set_sram(&[1, 2, 3]);
    let after = nes.get_sram().unwrap();
    assert_eq!(&after[..3], &[1, 2, 3]);
    assert_eq!(&after[3..], &before[3..]);
    let long = vec![7u8; 9000];
    nes.set_sram(&long);
    assert_eq!(nes.get_sram().unwrap(), vec![7u8; 8192]);
    assert_eq!(console().get_sram(), None);
}
