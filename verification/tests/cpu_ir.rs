use nes_core::board::make_mapper;
use nes_core::cartridge::Cartridge;
use nes_core::cpu::ir::{decode_opcode, relative_target, BlockCache, IrOp};
use nes_core::nes::State;

/// An iNES image of an NROM cartridge: 32 KiB of program ROM filled with
/// NOP and 8 KiB of character ROM.
fn nrom_image() -> Vec<u8> {
    let mut image = vec![0x4E, 0x45, 0x53, 0x1A, 2, 1, 0, 0, 0, 0, 0, 0, 0, 0, 0, 0];
    image.extend(std::iter::repeat(0xEA).take(2 * 16384));
    image.extend(std::iter::repeat(0).take(8192));
    image
}

fn make_test_state() -> State {
    let cart = Cartridge::load(&nrom_image());
    State::with_mapper(make_mapper(cart))
}

#[test]
fn test_instruction_lengths() {
    let mut s = make_test_state();

    let decode_len = |s: &mut State, addr: u16, opcode: u8| -> u8 {
        let saved_cycles = s.cpu.cycles;
        let saved_pc = s.cpu.pc;
        let opcode_read = s.cpu_peek(addr);
        s.cpu.pc = addr.wrapping_add(1);
        let d = decode_opcode(s, opcode);
        s.cpu.cycles = saved_cycles;
        s.cpu.pc = saved_pc;
        let _ = opcode_read;
        d.bytes
    };

    assert_eq!(decode_len(&mut s, 0x8000, 0xEA), 1);
    assert_eq!(decode_len(&mut s, 0x8000, 0xAA), 1);
    assert_eq!(decode_len(&mut s, 0x8000, 0x48), 1);
    assert_eq!(decode_len(&mut s, 0x8000, 0x68), 1);
    assert_eq!(decode_len(&mut s, 0x8000, 0x00), 1);
    assert_eq!(decode_len(&mut s, 0x8000, 0x40), 1);
    assert_eq!(decode_len(&mut s, 0x8000, 0x60), 1);

    assert_eq!(decode_len(&mut s, 0x8000, 0xA9), 2);
    assert_eq!(decode_len(&mut s, 0x8000, 0x85), 2);
    assert_eq!(decode_len(&mut s, 0x8000, 0x90), 2);
    assert_eq!(decode_len(&mut s, 0x8000, 0x10), 2);

    assert_eq!(decode_len(&mut s, 0x8000, 0xAD), 3);
    assert_eq!(decode_len(&mut s, 0x8000, 0x8D), 3);
    assert_eq!(decode_len(&mut s, 0x8000, 0x4C), 3);
    assert_eq!(decode_len(&mut s, 0x8000, 0x20), 3);
}

#[test]
fn test_branch_target_computation() {
    let mut s = make_test_state();

    s.ram[0x000] = 0x90;
    s.ram[0x001] = 0x05;

    let saved_cycles = s.cpu.cycles;
    let saved_pc = s.cpu.pc;

    let opcode = s.cpu_peek(0x0000);
    s.cpu.pc = 0x0001;
    let decoded = decode_opcode(&mut s, opcode);

    s.cpu.cycles = saved_cycles;
    s.cpu.pc = saved_pc;

    match decoded.op {
        IrOp::Bcc { target } => {
            assert_eq!(target, 0x0007);
        }
        _ => panic!("Expected Bcc"),
    }
    assert_eq!(decoded.bytes, 2);
}

#[test]
fn backward_branch_wraps_below_the_operand() {
    let mut s = make_test_state();
    s.ram[0x010] = 0xD0;
    s.ram[0x011] = 0xFE;
    let opcode = s.cpu_peek(0x0010);
    s.cpu.pc = 0x0011;
    let decoded = decode_opcode(&mut s, opcode);
    match decoded.op {
        IrOp::Bne { target } => assert_eq!(target, 0x0010),
        _ => panic!("Expected Bne"),
    }
}

#[test]
fn relative_target_adds_a_signed_offset() {
    assert_eq!(relative_target(0x8002, 5), 0x8007);
    assert_eq!(relative_target(0x8002, -2), 0x8000);
    assert_eq!(relative_target(0x0000, -1), 0xFFFF);
}

#[test]
fn block_cache_starts_empty_and_forgets_invalidated_blocks() {
    let mut s = make_test_state();
    let mut cache = BlockCache::new();
    assert!(!cache.validate(0x8000, 1));
    s.cpu.pc = 0x8000;
    let fp = nes_core::cpu::ir::compute_fingerprint(&mut s, 0x8000);
    assert!(nes_core::cpu::ir::decode_and_cache_block(&mut s, 0x8000, fp));
    assert!(s.block_cache.validate(0x8000, fp));
    assert!(!s.block_cache.validate(0x8000, fp.wrapping_add(1)));
    s.block_cache.invalidate(0x8000);
    assert!(!s.block_cache.validate(0x8000, fp));
    cache.clear();
    assert!(!cache.validate(0x8000, 1));
}
