use chip8::chip::Chip;
use chip8::model::{Fault, PIXEL_OFF, PIXEL_ON};

fn machine_with(program: &[u8]) -> Chip {
    let mut chip = Chip::new();
    assert_eq!(chip.load_rom(program), Ok(()));
    chip
}

#[test]
fn new_machine_holds_the_font_and_starts_at_0x200() {
    let chip = Chip::new();
    assert_eq!(chip.pc, 0x200);
    assert_eq!(chip.sp, 0);
    assert_eq!(chip.index, 0);
    assert_eq!(chip.opcode, 0);
    assert_eq!(chip.delay_timer, 0);
    assert_eq!(chip.sound_timer, 0);
    assert_eq!(&chip.memory[0x50..0x55], &[0xF0, 0x90, 0x90, 0x90, 0xF0]);
    assert_eq!(&chip.memory[0x55..0x5A], &[0x20, 0x60, 0x20, 0x20, 0x70]);
    assert_eq!(&chip.memory[0x9B..0xA0], &[0xF0, 0x80, 0xF0, 0x80, 0x80]);
    assert!(chip.memory[..0x50].iter().all(|b| *b == 0));
    assert!(chip.memory[0xA0..].iter().all(|b| *b == 0));
    assert!(chip.registers.iter().all(|r| *r == 0));
    assert!(chip.stack.iter().all(|f| *f == 0));
    assert!(chip.keypad.iter().all(|k| !*k));
    assert!(chip.video.iter().all(|p| *p == PIXEL_OFF));
}

#[test]
fn load_rom_copies_to_the_start_address() {
    let chip = machine_with(&[0x12, 0x34, 0x56]);
    assert_eq!(&chip.memory[0x200..0x204], &[0x12, 0x34, 0x56, 0x00]);
    assert_eq!(chip.memory[0x1FF], 0);
    assert_eq!(chip.memory[0x50], 0xF0);
}

#[test]
fn load_rom_takes_a_program_that_just_fits() {
    let rom = vec![0xAB; 4096 - 0x200];
    let chip = machine_with(&rom);
    assert_eq!(chip.memory[0x200], 0xAB);
    assert_eq!(chip.memory[4095], 0xAB);
}

#[test]
fn load_rom_refuses_a_program_that_is_too_large() {
    let rom = vec![0xAB; 4096 - 0x200 + 1];
    let mut chip = Chip::new();
    assert_eq!(chip.load_rom(&rom), Err(Fault::RomTooLarge));
    assert!(chip.memory[0x200..].iter().all(|b| *b == 0));
}

#[test]
fn clear_screen_darkens_every_pixel() {
    let mut chip = machine_with(&[0x00, 0xE0]);
    chip.video[0] = PIXEL_ON;
    chip.video[2047] = PIXEL_ON;
    assert_eq!(chip.cycle(), Ok(()));
    assert!(chip.video.iter().all(|p| *p == PIXEL_OFF));
    assert_eq!(chip.pc, 0x202);
    assert_eq!(chip.opcode, 0x00E0);
}

#[test]
fn jump_sets_the_program_counter() {
    let mut chip = machine_with(&[0x1A, 0xBC]);
    assert_eq!(chip.cycle(), Ok(()));
    assert_eq!(chip.pc, 0xABC);
}

#[test]
fn call_then_return_comes_back_after_the_call() {
    // 0x200: call 0x204; 0x204: return
    let mut chip = machine_with(&[0x22, 0x04, 0x00, 0x00, 0x00, 0xEE]);
    assert_eq!(chip.cycle(), Ok(()));
    assert_eq!(chip.pc, 0x204);
    assert_eq!(chip.sp, 1);
    assert_eq!(chip.stack[0], 0x202);
    assert_eq!(chip.cycle(), Ok(()));
    assert_eq!(chip.pc, 0x202);
    assert_eq!(chip.sp, 0);
}

#[test]
fn return_without_a_frame_is_a_fault() {
    let mut chip = machine_with(&[0x00, 0xEE]);
    assert_eq!(chip.cycle(), Err(Fault::StackUnderflow));
    assert_eq!(chip.pc, 0x200);
    assert_eq!(chip.sp, 0);
    assert_eq!(chip.opcode, 0);
}

#[test]
fn seventeenth_call_is_a_fault() {
    // a call to itself, over and over
    let mut chip = machine_with(&[0x22, 0x00]);
    for depth in 0..16 {
        assert_eq!(chip.cycle(), Ok(()));
        assert_eq!(chip.sp, depth + 1);
    }
    assert_eq!(chip.cycle(), Err(Fault::StackOverflow));
    assert_eq!(chip.sp, 16);
    assert_eq!(chip.pc, 0x200);
}

#[test]
fn unknown_opcode_is_a_fault_that_names_word_and_place() {
    let mut chip = machine_with(&[0x80, 0x08]);
    assert_eq!(chip.cycle(), Err(Fault::UnknownOpcode { opcode: 0x8008, pc: 0x200 }));
    assert_eq!(chip.pc, 0x200);
    let mut chip = machine_with(&[0x00, 0x01]);
    assert_eq!(chip.cycle(), Err(Fault::UnknownOpcode { opcode: 0x0001, pc: 0x200 }));
    let mut chip = machine_with(&[0xF0, 0xFF]);
    assert_eq!(chip.cycle(), Err(Fault::UnknownOpcode { opcode: 0xF0FF, pc: 0x200 }));
}

#[test]
fn fetch_past_the_end_of_memory_is_a_fault() {
    let mut chip = Chip::new();
    chip.pc = 4095;
    assert_eq!(chip.cycle(), Err(Fault::AddressOutOfRange));
    assert_eq!(chip.pc, 4095);
    chip.pc = 4094;
    chip.memory[4094] = 0x60;
    chip.memory[4095] = 0x07;
    assert_eq!(chip.cycle(), Ok(()));
    assert_eq!(chip.registers[0], 7);
    assert_eq!(chip.pc, 4096);
}

#[test]
fn skip_if_equal_immediate() {
    let mut chip = machine_with(&[0x3A, 0x42]);
    chip.registers[0xA] = 0x42;
    assert_eq!(chip.cycle(), Ok(()));
    assert_eq!(chip.pc, 0x204);
    let mut chip = machine_with(&[0x3A, 0x42]);
    chip.registers[0xA] = 0x41;
    assert_eq!(chip.cycle(), Ok(()));
    assert_eq!(chip.pc, 0x202);
}

#[test]
fn skip_if_not_equal_immediate() {
    let mut chip = machine_with(&[0x4A, 0x42]);
    chip.registers[0xA] = 0x42;
    assert_eq!(chip.cycle(), Ok(()));
    assert_eq!(chip.pc, 0x202);
    let mut chip = machine_with(&[0x4A, 0x42]);
    chip.registers[0xA] = 0x41;
    assert_eq!(chip.cycle(), Ok(()));
    assert_eq!(chip.pc, 0x204);
}

#[test]
fn skip_if_registers_equal() {
    let mut chip = machine_with(&[0x51, 0x20]);
    chip.registers[1] = 9;
    chip.registers[2] = 9;
    assert_eq!(chip.cycle(), Ok(()));
    assert_eq!(chip.pc, 0x204);
    let mut chip = machine_with(&[0x51, 0x20]);
    chip.registers[1] = 9;
    chip.registers[2] = 8;
    assert_eq!(chip.cycle(), Ok(()));
    assert_eq!(chip.pc, 0x202);
}

#[test]
fn skip_if_registers_differ() {
    let mut chip = machine_with(&[0x91, 0x20]);
    chip.registers[1] = 9;
    chip.registers[2] = 8;
    assert_eq!(chip.cycle(), Ok(()));
    assert_eq!(chip.pc, 0x204);
    let mut chip = machine_with(&[0x91, 0x20]);
    chip.registers[1] = 9;
    chip.registers[2] = 9;
    assert_eq!(chip.cycle(), Ok(()));
    assert_eq!(chip.pc, 0x202);
}

#[test]
fn skip_if_key_down() {
    let mut chip = machine_with(&[0xE3, 0x9E]);
    chip.registers[3] = 0xB;
    chip.keypad[0xB] = true;
    assert_eq!(chip.cycle(), Ok(()));
    assert_eq!(chip.pc, 0x204);
    let mut chip = machine_with(&[0xE3, 0x9E]);
    chip.registers[3] = 0xB;
    chip.keypad[0xA] = true;
    assert_eq!(chip.cycle(), Ok(()));
    assert_eq!(chip.pc, 0x202);
}

#[test]
fn skip_if_key_up() {
    let mut chip = machine_with(&[0xE3, 0xA1]);
    chip.registers[3] = 0xB;
    assert_eq!(chip.cycle(), Ok(()));
    assert_eq!(chip.pc, 0x204);
    let mut chip = machine_with(&[0xE3, 0xA1]);
    chip.registers[3] = 0xB;
    chip.keypad[0xB] = true;
    assert_eq!(chip.cycle(), Ok(()));
    assert_eq!(chip.pc, 0x202);
}

#[test]
fn key_number_above_fifteen_is_a_fault() {
    let mut chip = machine_with(&[0xE3, 0x9E]);
    chip.registers[3] = 16;
    assert_eq!(chip.cycle(), Err(Fault::KeyOutOfRange));
    assert_eq!(chip.pc, 0x200);
    let mut chip = machine_with(&[0xE3, 0xA1]);
    chip.registers[3] = 200;
    assert_eq!(chip.cycle(), Err(Fault::KeyOutOfRange));
    assert_eq!(chip.pc, 0x200);
}

#[test]
fn load_immediate_and_add_immediate() {
    let mut chip = machine_with(&[0x65, 0xF0, 0x75, 0x20]);
    assert_eq!(chip.cycle(), Ok(()));
    assert_eq!(chip.registers[5], 0xF0);
    assert_eq!(chip.cycle(), Ok(()));
    assert_eq!(chip.registers[5], 0x10);
    assert_eq!(chip.registers[0xF], 0);
    assert_eq!(chip.pc, 0x204);
}

#[test]
fn copy_or_and_xor() {
    let mut chip = machine_with(&[0x81, 0x20, 0x83, 0x41, 0x85, 0x62, 0x87, 0x83]);
    chip.registers[2] = 0x5A;
    chip.registers[3] = 0b1100;
    chip.registers[4] = 0b1010;
    chip.registers[5] = 0b1100;
    chip.registers[6] = 0b1010;
    chip.registers[7] = 0b1100;
    chip.registers[8] = 0b1010;
    for _ in 0..4 {
        assert_eq!(chip.cycle(), Ok(()));
    }
    assert_eq!(chip.registers[1], 0x5A);
    assert_eq!(chip.registers[3], 0b1110);
    assert_eq!(chip.registers[5], 0b1000);
    assert_eq!(chip.registers[7], 0b0110);
}

#[test]
fn add_with_carry() {
    let mut chip = machine_with(&[0x80, 0x14]);
    chip.registers[0] = 200;
    chip.registers[1] = 100;
    assert_eq!(chip.cycle(), Ok(()));
    assert_eq!(chip.registers[0], 44);
    assert_eq!(chip.registers[0xF], 1);
    let mut chip = machine_with(&[0x80, 0x14]);
    chip.registers[0] = 200;
    chip.registers[1] = 55;
    chip.registers[0xF] = 1;
    assert_eq!(chip.cycle(), Ok(()));
    assert_eq!(chip.registers[0], 255);
    assert_eq!(chip.registers[0xF], 0);
}

#[test]
fn add_with_carry_into_the_flag_register_keeps_the_sum() {
    let mut chip = machine_with(&[0x8F, 0x14]);
    chip.registers[0xF] = 200;
    chip.registers[1] = 100;
    assert_eq!(chip.cycle(), Ok(()));
    assert_eq!(chip.registers[0xF], 44);
}

#[test]
fn subtract_sets_the_flag_where_the_minuend_is_above() {
    let mut chip = machine_with(&[0x80, 0x15]);
    chip.registers[0] = 10;
    chip.registers[1] = 3;
    assert_eq!(chip.cycle(), Ok(()));
    assert_eq!(chip.registers[0], 7);
    assert_eq!(chip.registers[0xF], 1);
    let mut chip = machine_with(&[0x80, 0x15]);
    chip.registers[0] = 3;
    chip.registers[1] = 10;
    chip.registers[0xF] = 1;
    assert_eq!(chip.cycle(), Ok(()));
    assert_eq!(chip.registers[0], 249);
    assert_eq!(chip.registers[0xF], 0);
}

#[test]
fn subtract_with_equal_operands_clears_the_flag() {
    let mut chip = machine_with(&[0x80, 0x15]);
    chip.registers[0] = 10;
    chip.registers[1] = 10;
    chip.registers[0xF] = 1;
    assert_eq!(chip.cycle(), Ok(()));
    assert_eq!(chip.registers[0], 0);
    assert_eq!(chip.registers[0xF], 0);
}

#[test]
fn subtract_reads_the_flag_register_after_the_flag_is_written() {
    // register F is the subtrahend: it holds the flag by the time it is read
    let mut chip = machine_with(&[0x80, 0xF5]);
    chip.registers[0] = 10;
    chip.registers[0xF] = 3;
    assert_eq!(chip.cycle(), Ok(()));
    assert_eq!(chip.registers[0xF], 1);
    assert_eq!(chip.registers[0], 9);
}

#[test]
fn reverse_subtract_sets_the_flag_where_the_minuend_is_above() {
    let mut chip = machine_with(&[0x80, 0x17]);
    chip.registers[0] = 3;
    chip.registers[1] = 10;
    assert_eq!(chip.cycle(), Ok(()));
    assert_eq!(chip.registers[0], 7);
    assert_eq!(chip.registers[0xF], 1);
    let mut chip = machine_with(&[0x80, 0x17]);
    chip.registers[0] = 10;
    chip.registers[1] = 3;
    chip.registers[0xF] = 1;
    assert_eq!(chip.cycle(), Ok(()));
    assert_eq!(chip.registers[0], 249);
    assert_eq!(chip.registers[0xF], 0);
    let mut chip = machine_with(&[0x80, 0x17]);
    chip.registers[0] = 10;
    chip.registers[1] = 10;
    chip.registers[0xF] = 1;
    assert_eq!(chip.cycle(), Ok(()));
    assert_eq!(chip.registers[0], 0);
    assert_eq!(chip.registers[0xF], 0);
}

#[test]
fn shift_right_keeps_the_low_bit_in_the_flag() {
    let mut chip = machine_with(&[0x84, 0x06, 0x84, 0x06]);
    chip.registers[4] = 0b0000_0101;
    assert_eq!(chip.cycle(), Ok(()));
    assert_eq!(chip.registers[4], 0b0000_0010);
    assert_eq!(chip.registers[0xF], 1);
    assert_eq!(chip.cycle(), Ok(()));
    assert_eq!(chip.registers[4], 0b0000_0001);
    assert_eq!(chip.registers[0xF], 0);
}

#[test]
fn shift_left_keeps_the_high_bit_in_the_flag() {
    let mut chip = machine_with(&[0x84, 0x0E, 0x84, 0x0E]);
    chip.registers[4] = 0b1010_0001;
    assert_eq!(chip.cycle(), Ok(()));
    assert_eq!(chip.registers[4], 0b0100_0010);
    assert_eq!(chip.registers[0xF], 1);
    assert_eq!(chip.cycle(), Ok(()));
    assert_eq!(chip.registers[4], 0b1000_0100);
    assert_eq!(chip.registers[0xF], 0);
}

#[test]
fn load_index_and_jump_with_offset() {
    let mut chip = machine_with(&[0xA1, 0x23, 0xB3, 0x00]);
    chip.registers[0] = 0x45;
    assert_eq!(chip.cycle(), Ok(()));
    assert_eq!(chip.index, 0x123);
    assert_eq!(chip.cycle(), Ok(()));
    assert_eq!(chip.pc, 0x345);
}

#[test]
fn random_is_masked() {
    let mut chip = machine_with(&[0xC1, 0x0F, 0xC2, 0x00, 0x12, 0x00]);
    for _ in 0..50 {
        chip.registers[1] = 0xFF;
        chip.registers[2] = 0xFF;
        assert_eq!(chip.cycle(), Ok(()));
        assert_eq!(chip.registers[1] & 0xF0, 0);
        assert_eq!(chip.cycle(), Ok(()));
        assert_eq!(chip.registers[2], 0);
        assert_eq!(chip.cycle(), Ok(()));
        assert_eq!(chip.pc, 0x200);
    }
}

#[test]
fn random_takes_other_values_than_the_register_had() {
    let mut chip = machine_with(&[0xC1, 0xFF, 0x12, 0x00]);
    let mut seen = [false; 256];
    for _ in 0..2000 {
        assert_eq!(chip.cycle(), Ok(()));
        seen[chip.registers[1] as usize] = true;
        assert_eq!(chip.cycle(), Ok(()));
    }
    assert!(seen.iter().filter(|s| **s).count() > 100);
}

#[test]
fn load_masked_applies_the_mask_to_the_byte_given() {
    let mut chip = Chip::new();
    chip.opcode = 0xC73C;
    chip.load_masked(0xA5);
    assert_eq!(chip.registers[7], 0x24);
}

#[test]
fn timers_are_read_and_set() {
    let mut chip = machine_with(&[0xF1, 0x15, 0xF2, 0x07, 0xF3, 0x18]);
    chip.registers[1] = 10;
    chip.registers[3] = 5;
    assert_eq!(chip.cycle(), Ok(()));
    assert_eq!(chip.delay_timer, 9);
    assert_eq!(chip.cycle(), Ok(()));
    assert_eq!(chip.registers[2], 9);
    assert_eq!(chip.delay_timer, 8);
    assert_eq!(chip.cycle(), Ok(()));
    assert_eq!(chip.sound_timer, 4);
    assert_eq!(chip.delay_timer, 7);
}

#[test]
fn timers_stop_at_zero() {
    let mut chip = machine_with(&[0x60, 0x00, 0x60, 0x00]);
    chip.delay_timer = 1;
    chip.sound_timer = 2;
    assert_eq!(chip.cycle(), Ok(()));
    assert_eq!(chip.delay_timer, 0);
    assert_eq!(chip.sound_timer, 1);
    assert_eq!(chip.cycle(), Ok(()));
    assert_eq!(chip.delay_timer, 0);
    assert_eq!(chip.sound_timer, 0);
}

#[test]
fn a_fault_does_not_tick_the_timers() {
    let mut chip = machine_with(&[0x00, 0xEE]);
    chip.delay_timer = 5;
    chip.sound_timer = 6;
    assert_eq!(chip.cycle(), Err(Fault::StackUnderflow));
    assert_eq!(chip.delay_timer, 5);
    assert_eq!(chip.sound_timer, 6);
}

#[test]
fn wait_key_stalls_until_a_key_is_down() {
    let mut chip = machine_with(&[0xF6, 0x0A]);
    for _ in 0..5 {
        assert_eq!(chip.cycle(), Ok(()));
        assert_eq!(chip.pc, 0x200);
        assert_eq!(chip.registers[6], 0);
    }
    chip.keypad[0xC] = true;
    chip.keypad[0x7] = true;
    assert_eq!(chip.cycle(), Ok(()));
    assert_eq!(chip.pc, 0x202);
    assert_eq!(chip.registers[6], 0x7);
}

#[test]
fn add_to_index_wraps_at_sixteen_bits() {
    let mut chip = machine_with(&[0xF1, 0x1E, 0xF1, 0x1E]);
    chip.index = 0x0100;
    chip.registers[1] = 0x20;
    assert_eq!(chip.cycle(), Ok(()));
    assert_eq!(chip.index, 0x0120);
    chip.index = 0xFFF0;
    assert_eq!(chip.cycle(), Ok(()));
    assert_eq!(chip.index, 0x0010);
    assert_eq!(chip.registers[0xF], 0);
}

#[test]
fn glyph_address_is_five_bytes_per_digit() {
    let mut chip = machine_with(&[0xF1, 0x29, 0xF2, 0x29]);
    chip.registers[1] = 0xA;
    chip.registers[2] = 0;
    assert_eq!(chip.cycle(), Ok(()));
    assert_eq!(chip.index, 0x50 + 50);
    assert_eq!(chip.cycle(), Ok(()));
    assert_eq!(chip.index, 0x50);
}

#[test]
fn decimal_digits_are_stored_at_the_index() {
    let mut chip = machine_with(&[0xF3, 0x33]);
    chip.registers[3] = 254;
    chip.index = 0x300;
    assert_eq!(chip.cycle(), Ok(()));
    assert_eq!(&chip.memory[0x300..0x303], &[2, 5, 4]);
    assert_eq!(chip.index, 0x300);
}

#[test]
fn decimal_digits_past_the_end_of_memory_are_a_fault() {
    let mut chip = machine_with(&[0xF3, 0x33]);
    chip.registers[3] = 254;
    chip.index = 4094;
    assert_eq!(chip.cycle(), Err(Fault::AddressOutOfRange));
    assert_eq!(chip.memory[4094], 0);
    assert_eq!(chip.pc, 0x200);
    chip.index = 4093;
    assert_eq!(chip.cycle(), Ok(()));
    assert_eq!(&chip.memory[4093..4096], &[2, 5, 4]);
}

#[test]
fn store_then_load_gives_the_registers_back() {
    let mut chip = machine_with(&[0xF3, 0x55, 0xF3, 0x65]);
    chip.index = 0x400;
    chip.registers[0] = 11;
    chip.registers[1] = 22;
    chip.registers[2] = 33;
    chip.registers[3] = 44;
    chip.registers[4] = 55;
    assert_eq!(chip.cycle(), Ok(()));
    assert_eq!(&chip.memory[0x400..0x405], &[11, 22, 33, 44, 0]);
    assert_eq!(chip.index, 0x400);
    let before = chip.registers;
    chip.registers[0] = 0;
    chip.registers[1] = 0;
    chip.registers[2] = 0;
    chip.registers[3] = 0;
    assert_eq!(chip.cycle(), Ok(()));
    assert_eq!(chip.registers, before);
}

#[test]
fn load_reads_only_registers_up_to_x() {
    let mut chip = machine_with(&[0xF1, 0x65]);
    chip.index = 0x400;
    chip.memory[0x400] = 7;
    chip.memory[0x401] = 8;
    chip.memory[0x402] = 9;
    chip.registers[2] = 0x55;
    assert_eq!(chip.cycle(), Ok(()));
    assert_eq!(&chip.registers[0..3], &[7, 8, 0x55]);
}

#[test]
fn store_and_load_past_the_end_of_memory_are_faults() {
    let mut chip = machine_with(&[0xF2, 0x55]);
    chip.index = 4094;
    chip.registers[0] = 1;
    assert_eq!(chip.cycle(), Err(Fault::AddressOutOfRange));
    assert_eq!(chip.memory[4094], 0);
    let mut chip = machine_with(&[0xF2, 0x65]);
    chip.index = 4094;
    chip.memory[4094] = 9;
    assert_eq!(chip.cycle(), Err(Fault::AddressOutOfRange));
    assert_eq!(chip.registers[0], 0);
}
