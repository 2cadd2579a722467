use nes_core::board::make_mapper;
use nes_core::cartridge::Cartridge;
use nes_core::cpu::step_instruction;
use nes_core::nes::State;

/// An iNES image of an NROM cartridge: 32 KiB of program ROM filled with
/// NOP and 8 KiB of character ROM.
fn nrom_image() -> Vec<u8> {
    let mut image = vec![0x4E, 0x45, 0x53, 0x1A, 2, 1, 0, 0, 0, 0, 0, 0, 0, 0, 0, 0];
    image.extend(std::iter::repeat(0xEA).take(2 * 16384));
    image.extend(std::iter::repeat(0).take(8192));
    image
}

/// A console running code from work RAM at address 0.
fn ram_state() -> State {
    let cart = Cartridge::load(&nrom_image());
    let mut s = State::with_mapper(make_mapper(cart));
    s.cpu.pc = 0;
    s.cpu.sp = 0xFD;
    s.cpu.status = 0x24;
    s.cpu.cycles = 7;
    s
}

#[test]
fn jmp_indirect_reads_high_byte_in_same_page() {
    let mut s = ram_state();
    s.ram[0] = 0x6C;
    s.ram[1] = 0xFF;
    s.ram[2] = 0x02;
    s.ram[0x2FF] = 0x34;
    s.ram[0x200] = 0x12;
    s.ram[0x300] = 0x56;
    step_instruction(&mut s);
    assert_eq!(s.cpu.pc, 0x1234);
}

#[test]
fn rts_returns_after_jsr() {
    let mut s = ram_state();
    s.ram[0] = 0x20;
    s.ram[1] = 0x10;
    s.ram[2] = 0x00;
    s.ram[0x10] = 0x60;
    step_instruction(&mut s);
    assert_eq!(s.cpu.pc, 0x0010);
    assert_eq!(s.cpu.sp, 0xFB);
    assert_eq!(s.ram[0x1FD], 0x00);
    assert_eq!(s.ram[0x1FC], 0x02);
    step_instruction(&mut s);
    assert_eq!(s.cpu.pc, 0x0003);
    assert_eq!(s.cpu.sp, 0xFD);
}

#[test]
fn rra_adds_rotated_byte_to_a() {
    let mut s = ram_state();
    s.cpu.a = 0x01;
    s.ram[0] = 0x67;
    s.ram[1] = 0x10;
    s.ram[0x10] = 0x02;
    step_instruction(&mut s);
    assert_eq!(s.ram[0x10], 0x01);
    assert_eq!(s.cpu.a, 0x02);
    assert_eq!(s.cpu.status & 0x01, 0);
}

#[test]
fn isc_subtracts_incremented_byte_from_a() {
    let mut s = ram_state();
    s.cpu.status = 0x25;
    s.cpu.a = 0x05;
    s.ram[0] = 0xE7;
    s.ram[1] = 0x10;
    s.ram[0x10] = 0x01;
    step_instruction(&mut s);
    assert_eq!(s.ram[0x10], 0x02);
    assert_eq!(s.cpu.a, 0x03);
    assert_eq!(s.cpu.status & 0x01, 0x01);
}

#[test]
fn plp_drops_break_bit() {
    let mut s = ram_state();
    s.cpu.sp = 0xFC;
    s.ram[0x1FD] = 0xFF;
    s.ram[0] = 0x28;
    step_instruction(&mut s);
    assert_eq!(s.cpu.status, 0xEF);
    assert_eq!(s.cpu.sp, 0xFD);
}

#[test]
fn taken_branch_moves_pc() {
    let mut s = ram_state();
    s.ram[0] = 0x90;
    s.ram[1] = 0x05;
    step_instruction(&mut s);
    assert_eq!(s.cpu.pc, 0x0007);
}
