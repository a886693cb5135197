use chip8::chip::Chip;
use chip8::debugger::{disassemble, CpuState};

fn text(d1: u16, d2: u16, d3: u16, d4: u16) -> String {
    match disassemble(d1, d2, d3, d4) {
        Some(t) => t,
        None => panic!("no instruction"),
    }
}

#[test]
fn mnemonics_of_control_flow() {
    assert_eq!(text(0, 0, 0xE, 0xE), "RET");
    assert_eq!(text(0, 0, 0xE, 0), "CLR");
    assert_eq!(text(1, 0xA, 0xB, 0xC), "JMP   ABC");
    assert_eq!(text(2, 2, 0, 4), "CALL  204");
    assert_eq!(text(0xB, 3, 0, 0), "JP    V0, 300");
}

#[test]
fn mnemonics_of_skips_and_loads() {
    assert_eq!(text(3, 0xA, 4, 2), "SE    VA, 42");
    assert_eq!(text(4, 1, 0, 0xF), "SNE   V1, 0F");
    assert_eq!(text(5, 1, 2, 0), "SE    V1, V2");
    assert_eq!(text(6, 5, 0xF, 0), "LD    V5, F0");
    assert_eq!(text(7, 5, 2, 0), "ADD   V5, 20");
    assert_eq!(text(9, 1, 2, 0), "SNE  V1, V2");
    assert_eq!(text(0xA, 1, 2, 3), "LD    I, 123");
    assert_eq!(text(0xC, 1, 0, 0xF), "RND   V1, 0F");
    assert_eq!(text(0xD, 1, 2, 5), "DRW   V1, V2, 5");
}

#[test]
fn mnemonics_of_arithmetic() {
    assert_eq!(text(8, 1, 2, 0), "LD    V1, V2");
    assert_eq!(text(8, 1, 2, 1), "OR    V1, V2");
    assert_eq!(text(8, 1, 2, 2), "AND   V1, V2");
    assert_eq!(text(8, 1, 2, 3), "XOR   V1, V2");
    assert_eq!(text(8, 1, 2, 4), "ADD   V1, V2");
    assert_eq!(text(8, 1, 2, 5), "SUB   V1, V2");
    assert_eq!(text(8, 1, 2, 6), "SHR   V1, V2");
    assert_eq!(text(8, 1, 2, 7), "SUBN  V1, V2");
    assert_eq!(text(8, 1, 2, 0xE), "SHL  V1, V2");
}

#[test]
fn mnemonics_of_keys_timers_and_memory() {
    assert_eq!(text(0xE, 3, 9, 0xE), "SKP   V3");
    assert_eq!(text(0xE, 3, 0xA, 1), "SKNP  V3");
    assert_eq!(text(0xF, 6, 0, 7), "LD    V6, DT");
    assert_eq!(text(0xF, 6, 0, 0xA), "LD    V6, K");
    assert_eq!(text(0xF, 6, 1, 5), "LD    DT, V6");
    assert_eq!(text(0xF, 6, 1, 8), "LD    ST, V6");
    assert_eq!(text(0xF, 6, 1, 0xE), "ADD   I, V6");
    assert_eq!(text(0xF, 6, 2, 9), "LD    F, V6");
    assert_eq!(text(0xF, 6, 3, 3), "LD    B, V6");
    assert_eq!(text(0xF, 6, 5, 5), "LD    [I], V6");
    assert_eq!(text(0xF, 6, 6, 5), "LD    V6, [I]");
}

#[test]
fn digits_above_fifteen_are_written_in_full() {
    assert_eq!(text(1, 0x10, 0xABCD, 0), "JMP   10ABCD0");
    assert_eq!(text(6, 0xFFFF, 0x100, 0x2F), "LD    VFFFF, 1002F");
}

#[test]
fn digits_that_make_no_instruction_have_no_text() {
    assert_eq!(disassemble(8, 1, 2, 8), None);
    assert_eq!(disassemble(0xE, 1, 2, 3), None);
    assert_eq!(disassemble(0xF, 1, 0, 0), None);
    assert_eq!(disassemble(0x10, 0, 0, 0), None);
}

#[test]
fn trace_line_names_the_program_counter() {
    let mut chip = Chip::new();
    let mut state = CpuState::new();
    let line = state.show_cpu_state(&chip, 6, 5, 0xF, 0);
    assert_eq!(line, Some("0200: LD    V5, F0".to_string()));
    assert_eq!(state.mnemonic, "LD    V5, F0");
    chip.pc = 0xABC;
    let line = state.show_cpu_state(&chip, 0, 0, 0xE, 0xE);
    assert_eq!(line, Some("0ABC: RET".to_string()));
    assert_eq!(state.mnemonic, "RET");
}

#[test]
fn trace_of_no_instruction_keeps_the_last_text() {
    let chip = Chip::new();
    let mut state = CpuState::new();
    assert!(state.show_cpu_state(&chip, 1, 2, 3, 4).is_some());
    assert_eq!(state.show_cpu_state(&chip, 0xE, 0, 0, 0), None);
    assert_eq!(state.mnemonic, "JMP   234");
}

#[test]
fn validity_is_sixteen_frames_and_binary_pixels() {
    let mut chip = Chip::new();
    assert!(chip.is_valid());
    chip.sp = 16;
    assert!(chip.is_valid());
    chip.sp = 17;
    assert!(!chip.is_valid());
    chip.sp = 0;
    chip.video[2047] = 1;
    assert!(!chip.is_valid());
    chip.video[2047] = 0xFFFF_FFFF;
    assert!(chip.is_valid());
}
