//! Arithmetic, control flow, memory and error behaviour, driven through
//! `load` and `tick` exactly as a host would drive the interpreter.

use chip8_core::EmuConfig;
use chip8_core::EmuError;
use chip8_core::Emulator;
use chip8_core::Variant;

fn config(variant: Variant) -> EmuConfig {
    EmuConfig {
        variant,
        quirk_legacyscroll: false,
        quirk_vfreset: variant == Variant::Chip8,
        quirk_memory: variant != Variant::SChip,
        quirk_displaywait: false,
        quirk_clipping: variant != Variant::XOChip,
        quirk_shifting: variant == Variant::SChip,
        quirk_jumping: variant == Variant::SChip,
        quirk_clipcollision: false,
    }
}

fn run(emu: &mut Emulator, steps: usize) {
    for _ in 0..steps {
        emu.tick(true).expect("step failed");
    }
}

#[test]
fn load_and_set_register() {
    let mut emu = Emulator::new(&config(Variant::Chip8));
    emu.load(&[0x6A, 0x02]);
    emu.tick(true).unwrap();
    assert_eq!(emu.get_v(0xA), 2);
}

#[test]
fn add_sets_carry_flag_exactly_on_overflow() {
    let mut emu = Emulator::new(&config(Variant::Chip8));
    // V10 = 200, V11 = 100, V10 += V11: 300 wraps to 44 with carry.
    emu.load(&[0x6A, 200, 0x6B, 100, 0x8A, 0xB4]);
    run(&mut emu, 3);
    assert_eq!(emu.get_v(0xA), 44);
    assert_eq!(emu.get_v(0xF), 1);

    let mut emu = Emulator::new(&config(Variant::Chip8));
    // 100 + 100 = 200: no carry.
    emu.load(&[0x6A, 100, 0x6B, 100, 0x8A, 0xB4]);
    run(&mut emu, 3);
    assert_eq!(emu.get_v(0xA), 200);
    assert_eq!(emu.get_v(0xF), 0);
}

#[test]
fn sub_clears_flag_exactly_on_borrow() {
    let mut emu = Emulator::new(&config(Variant::Chip8));
    // V10 = 5, V11 = 9, V10 -= V11: borrow, flag 0.
    emu.load(&[0x6A, 5, 0x6B, 9, 0x8A, 0xB5]);
    run(&mut emu, 3);
    assert_eq!(emu.get_v(0xA), 252);
    assert_eq!(emu.get_v(0xF), 0);

    let mut emu = Emulator::new(&config(Variant::Chip8));
    // 9 - 5: no borrow, flag 1.
    emu.load(&[0x6A, 9, 0x6B, 5, 0x8A, 0xB5]);
    run(&mut emu, 3);
    assert_eq!(emu.get_v(0xA), 4);
    assert_eq!(emu.get_v(0xF), 1);
}

#[test]
fn or_resets_flag_under_vf_reset_quirk() {
    let mut emu = Emulator::new(&config(Variant::Chip8));
    assert!(config(Variant::Chip8).quirk_vfreset);
    // VF = 1, V10 = 0x0F, V11 = 0xF0, V10 |= V11.
    emu.load(&[0x6F, 0x01, 0x6A, 0x0F, 0x6B, 0xF0, 0x8A, 0xB1]);
    run(&mut emu, 4);
    assert_eq!(emu.get_v(0xA), 0xFF);
    assert_eq!(emu.get_v(0xF), 0);
}

#[test]
fn or_keeps_flag_without_vf_reset_quirk() {
    let mut emu = Emulator::new(&config(Variant::SChip));
    emu.load(&[0x6F, 0x01, 0x6A, 0x0F, 0x6B, 0xF0, 0x8A, 0xB1]);
    run(&mut emu, 4);
    assert_eq!(emu.get_v(0xA), 0xFF);
    assert_eq!(emu.get_v(0xF), 1);
}

#[test]
fn store_load_round_trip_restores_registers() {
    let mut emu = Emulator::new(&config(Variant::Chip8));
    emu.load(&[
        0x60, 0x11, // V0 = 0x11
        0x61, 0x22, // V1 = 0x22
        0x62, 0x33, // V2 = 0x33
        0xA3, 0x00, // I = 0x300
        0xF2, 0x55, // store V0..=V2
        0x60, 0x00, // V0 = 0
        0x61, 0x00, // V1 = 0
        0x62, 0x00, // V2 = 0
        0xA3, 0x00, // I = 0x300 again (the memory quirk advanced it)
        0xF2, 0x65, // load V0..=V2
    ]);
    run(&mut emu, 10);
    assert_eq!(emu.get_v(0), 0x11);
    assert_eq!(emu.get_v(1), 0x22);
    assert_eq!(emu.get_v(2), 0x33);
}

#[test]
fn memory_quirk_advances_pointer_after_block_store() {
    let mut emu = Emulator::new(&config(Variant::Chip8));
    emu.load(&[0xA3, 0x00, 0xF2, 0x55]);
    run(&mut emu, 2);
    assert_eq!(emu.get_i_register(), 0x303);

    let mut emu = Emulator::new(&config(Variant::SChip));
    emu.load(&[0xA3, 0x00, 0xF2, 0x55]);
    run(&mut emu, 2);
    assert_eq!(emu.get_i_register(), 0x300);
}

#[test]
fn bcd_decomposition_writes_three_digits() {
    let mut emu = Emulator::new(&config(Variant::Chip8));
    emu.load(&[0x65, 234, 0xA4, 0x00, 0xF5, 0x33]);
    run(&mut emu, 3);
    assert_eq!(emu.read_ram(0x400), 2);
    assert_eq!(emu.read_ram(0x401), 3);
    assert_eq!(emu.read_ram(0x402), 4);
}

#[test]
fn shift_right_copies_source_without_quirk() {
    let mut emu = Emulator::new(&config(Variant::Chip8));
    // V11 = 5; V10 = V11 >> 1 (the classic copy-then-shift behaviour).
    emu.load(&[0x6B, 0x05, 0x8A, 0xB6]);
    run(&mut emu, 2);
    assert_eq!(emu.get_v(0xA), 2);
    assert_eq!(emu.get_v(0xF), 1);
}

#[test]
fn shift_in_place_with_quirk() {
    let mut emu = Emulator::new(&config(Variant::SChip));
    // V10 = 0x81; V10 <<= 1 in place, ignoring V11.
    emu.load(&[0x6A, 0x81, 0x6B, 0x00, 0x8A, 0xBE]);
    run(&mut emu, 3);
    assert_eq!(emu.get_v(0xA), 0x02);
    assert_eq!(emu.get_v(0xF), 1);
}

#[test]
fn jump_with_offset_register() {
    // Without the jumping quirk the offset register is V0.
    let mut emu = Emulator::new(&config(Variant::Chip8));
    emu.load(&[0x60, 0x04, 0xB2, 0x06, 0x00, 0x00, 0x00, 0x00, 0x00, 0x00, 0x6A, 0x07]);
    run(&mut emu, 3);
    // B206 jumps to 0x206 + V0 = 0x20A where 6A07 sets V10.
    assert_eq!(emu.get_v(0xA), 0x07);
}

#[test]
fn skip_clears_double_wide_instruction_whole() {
    let mut emu = Emulator::new(&config(Variant::XOChip));
    emu.load(&[
        0x6A, 0x05, // V10 = 5
        0x3A, 0x05, // skip next (taken) - next is the double-wide F000
        0xF0, 0x00, 0x12, 0x34, // I = 0x1234 (must be skipped whole)
        0x6B, 0x07, // V11 = 7
    ]);
    run(&mut emu, 3);
    assert_eq!(emu.get_v(0xB), 0x07);
    assert_eq!(emu.get_i_register(), 0);
}

#[test]
fn long_load_reads_operand_and_advances_by_four() {
    let mut emu = Emulator::new(&config(Variant::XOChip));
    emu.load(&[0xF0, 0x00, 0x12, 0x34]);
    emu.tick(true).unwrap();
    assert_eq!(emu.get_i_register(), 0x1234);
    assert_eq!(emu.get_pc(), 0x204);
}

#[test]
fn register_range_save_and_load_reversed() {
    let mut emu = Emulator::new(&config(Variant::XOChip));
    emu.load(&[
        0x62, 0x0A, // V2 = 10
        0x63, 0x0B, // V3 = 11
        0x64, 0x0C, // V4 = 12
        0xA4, 0x00, // I = 0x400
        0x54, 0x22, // store V4 down to V2 at I
    ]);
    run(&mut emu, 5);
    assert_eq!(emu.read_ram(0x400), 12);
    assert_eq!(emu.read_ram(0x401), 11);
    assert_eq!(emu.read_ram(0x402), 10);

    // Load them back into V8 down to V6.
    let mut emu2 = Emulator::new(&config(Variant::XOChip));
    emu2.load(&[
        0x62, 0x0A, 0x63, 0x0B, 0x64, 0x0C, 0xA4, 0x00, 0x54, 0x22, // as above
        0xA4, 0x00, // I = 0x400
        0x58, 0x63, // load V8 down to V6 from I
    ]);
    run(&mut emu2, 7);
    assert_eq!(emu2.get_v(8), 12);
    assert_eq!(emu2.get_v(7), 11);
    assert_eq!(emu2.get_v(6), 10);
}

#[test]
fn call_and_return() {
    let mut emu = Emulator::new(&config(Variant::Chip8));
    emu.load(&[
        0x22, 0x06, // call 0x206
        0x6B, 0x07, // V11 = 7 (runs after the return)
        0x00, 0x00, // padding
        0x6A, 0x05, // at 0x206: V10 = 5
        0x00, 0xEE, // return
    ]);
    run(&mut emu, 4);
    assert_eq!(emu.get_v(0xA), 5);
    assert_eq!(emu.get_v(0xB), 7);
}

#[test]
fn seventeenth_nested_call_is_a_stack_overflow() {
    let mut emu = Emulator::new(&config(Variant::Chip8));
    // 0x200: call 0x200 - every step pushes another return address.
    emu.load(&[0x22, 0x00]);
    for _ in 0..16 {
        emu.tick(true).unwrap();
    }
    assert_eq!(emu.tick(true), Err(EmuError::StackOverflow));
}

#[test]
fn return_with_empty_stack_is_a_stack_underflow() {
    let mut emu = Emulator::new(&config(Variant::Chip8));
    emu.load(&[0x00, 0xEE]);
    assert_eq!(emu.tick(true), Err(EmuError::StackUnderflow));
}

#[test]
fn unknown_opcode_is_a_decode_failure() {
    let mut emu = Emulator::new(&config(Variant::Chip8));
    emu.load(&[0xFF, 0xFF]);
    assert_eq!(emu.tick(true), Err(EmuError::DecodeFailure));
}

#[test]
fn block_store_past_memory_end_is_out_of_bounds() {
    let mut emu = Emulator::new(&config(Variant::Chip8));
    emu.load(&[0xAF, 0xFF, 0xF3, 0x55]);
    emu.tick(true).unwrap();
    assert_eq!(emu.tick(true), Err(EmuError::OutOfBoundsAccess));
}

#[test]
fn masked_random_byte_respects_mask() {
    let mut emu = Emulator::new(&config(Variant::Chip8));
    // With a zero mask the random byte is fully masked away.
    emu.load(&[0x6A, 0xFF, 0xCA, 0x00]);
    run(&mut emu, 2);
    assert_eq!(emu.get_v(0xA), 0);
    // With mask 0x0F the upper nibble is always clear.
    let mut emu2 = Emulator::new(&config(Variant::Chip8));
    emu2.load(&[0xCA, 0x0F]);
    emu2.tick(true).unwrap();
    assert!(emu2.get_v(0xA) <= 0x0F);
}

#[test]
fn wait_for_key_busy_polls_until_pressed() {
    let mut emu = Emulator::new(&config(Variant::Chip8));
    emu.load(&[0xFA, 0x0A]);
    emu.tick(true).unwrap();
    // No key: the program counter rewound to re-run the wait.
    assert_eq!(emu.get_pc(), 0x200);
    emu.register_keypress(7, true);
    emu.tick(true).unwrap();
    assert_eq!(emu.get_v(0xA), 7);
    assert_eq!(emu.get_pc(), 0x202);
}

#[test]
fn skip_if_key_pressed() {
    let mut emu = Emulator::new(&config(Variant::Chip8));
    emu.load(&[0x60, 0x05, 0xE0, 0x9E, 0x6A, 0x01, 0x6B, 0x02]);
    emu.register_keypress(5, true);
    run(&mut emu, 3);
    // The skip jumped over 6A01, so V10 stays 0 and V11 becomes 2.
    assert_eq!(emu.get_v(0xA), 0);
    assert_eq!(emu.get_v(0xB), 2);
}

#[test]
fn font_addresses_for_digits() {
    let mut emu = Emulator::new(&config(Variant::SChip));
    emu.load(&[0x6A, 0x03, 0xFA, 0x29, 0x6B, 0x04, 0xFB, 0x30]);
    run(&mut emu, 2);
    assert_eq!(emu.get_i_register(), 15); // 5-byte glyphs: digit 3 at 15
    run(&mut emu, 2);
    assert_eq!(emu.get_i_register(), 120); // big glyphs: 80 + 4 * 10
}

#[test]
fn rpl_flags_survive_reset() {
    let mut emu = Emulator::new(&config(Variant::SChip));
    emu.load(&[0x60, 0x2A, 0x61, 0x2B, 0xF1, 0x75]);
    run(&mut emu, 3);
    emu.reset();
    assert_eq!(emu.get_pc(), 0x200);
    assert_eq!(emu.get_v(0), 0);
    emu.load(&[0xF1, 0x85]);
    emu.tick(true).unwrap();
    assert_eq!(emu.get_v(0), 0x2A);
    assert_eq!(emu.get_v(1), 0x2B);
}
