use chip_8::cpu::constants::FONTSET;
use chip_8::cpu::operations::{decode_op, perform_op_with, reg_dump, reg_load};
use chip_8::cpu::{CpuError, DisassembleError, DisassemblyLine, TimerCommand, CPU};

fn machine(program: &[u8]) -> CPU {
    let mut c = CPU::new(None);
    c.load_game(program);
    c
}

fn run(c: &mut CPU, cycles: usize) {
    for _ in 0..cycles {
        assert!(!c.next_instruction_faults());
        c.emulate_cycle(0).unwrap();
    }
}

#[test]
fn new_machine_has_font_and_starts_at_0x200() {
    let c = CPU::new(None);
    assert_eq!(c.pc, 0x200);
    assert_eq!(&c.memory[0..80], &FONTSET[..]);
    assert!(c.memory[80..].iter().all(|&b| b == 0));
    assert_eq!(c.registers(), [0u8; 16]);
    assert_eq!(c.index_register(), 0);
    assert!(c.stack_entries().is_empty());
    assert!(!c.draw);
    assert!(!c.legacy_mode());
    assert!(!c.wrapping());
    assert_eq!(c.colors(), (16, 1));
    assert!(c.screen().iter().all(|&p| !p));
}

#[test]
fn default_is_new_with_standard_bindings() {
    let c = CPU::default();
    assert_eq!(c.pc, 0x200);
    assert!(c.valid_character('x'));
    assert_eq!(c.bound_key('v'), Some(15));
}

#[test]
fn decode_op_is_big_endian() {
    assert_eq!(decode_op(0x12, 0x34), 0x1234);
    assert_eq!(decode_op(0x00, 0xEE), 0x00EE);
    assert_eq!(decode_op(0xFF, 0x00), 0xFF00);
}

#[test]
fn load_game_copies_from_0x200() {
    let c = machine(&[0xAB, 0xCD, 0xEF]);
    assert_eq!(&c.memory[0x200..0x203], &[0xAB, 0xCD, 0xEF]);
    assert_eq!(c.memory[0x203], 0);
    assert_eq!(&c.memory[0..80], &FONTSET[..]);
}

#[test]
fn load_game_keeps_only_what_fits() {
    let data = vec![7u8; 5000];
    let c = machine(&data);
    assert!(c.memory[0x200..].iter().all(|&b| b == 7));
    assert_eq!(c.memory[0x1FF], 0);
}

#[test]
fn set_and_add_register_wraps_without_flag() {
    // V3 = 0xFF; V3 += 2; VF stays 0.
    let mut c = machine(&[0x63, 0xFF, 0x73, 0x02]);
    run(&mut c, 2);
    assert_eq!(c.register(3), Some(1));
    assert_eq!(c.register(15), Some(0));
    assert_eq!(c.pc, 0x204);
}

#[test]
fn jump_sets_program_counter() {
    let mut c = machine(&[0x13, 0x45]);
    run(&mut c, 1);
    assert_eq!(c.pc, 0x345);
}

#[test]
fn call_then_return_resumes_after_call() {
    // 0x200: call 0x206; 0x202: V1 = 9; 0x206: return.
    let mut c = machine(&[0x22, 0x06, 0x61, 0x09, 0x00, 0x00, 0x00, 0xEE]);
    run(&mut c, 1);
    assert_eq!(c.pc, 0x206);
    assert_eq!(c.stack_entries(), vec![0x200]);
    run(&mut c, 1);
    assert_eq!(c.pc, 0x202);
    assert!(c.stack_entries().is_empty());
    run(&mut c, 1);
    assert_eq!(c.register(1), Some(9));
}

#[test]
fn return_with_empty_stack_fails() {
    let mut c = machine(&[0x00, 0xEE]);
    assert_eq!(c.emulate_cycle(0), Err(CpuError::StackUnderflowError));
    assert_eq!(c.pc, 0x200);
}

#[test]
fn thirteenth_nested_call_overflows() {
    // Each instruction calls the next one.
    let mut program = Vec::new();
    for k in 0..13u16 {
        let target = 0x202 + 2 * k;
        program.push(0x20 | (target >> 8) as u8);
        program.push((target & 0xFF) as u8);
    }
    let mut c = machine(&program);
    run(&mut c, 12);
    assert_eq!(c.stack_entries().len(), 12);
    let pc = c.pc;
    assert_eq!(c.emulate_cycle(0), Err(CpuError::StackOverflowError));
    assert_eq!(c.pc, pc);
}

#[test]
fn skips_compare_register_and_byte() {
    // V0 = 5; skip if V0 == 5; (skipped) V1 = 1; skip if V0 != 5; V2 = 2.
    let mut c = machine(&[0x60, 0x05, 0x30, 0x05, 0x61, 0x01, 0x40, 0x05, 0x62, 0x02]);
    run(&mut c, 4);
    assert_eq!(c.register(1), Some(0));
    assert_eq!(c.register(2), Some(2));
    assert_eq!(c.pc, 0x20A);
}

#[test]
fn skips_compare_registers() {
    // V0 = 1; V1 = 1; 5010 skips; 9010 runs the same equality test and skips too.
    let mut c = machine(&[0x60, 0x01, 0x61, 0x01, 0x50, 0x10, 0x00, 0x00, 0x90, 0x10]);
    run(&mut c, 3);
    assert_eq!(c.pc, 0x208);
    run(&mut c, 1);
    assert_eq!(c.pc, 0x20C);
}

#[test]
fn nine_group_does_not_skip_when_different() {
    let mut c = machine(&[0x60, 0x01, 0x90, 0x10]);
    run(&mut c, 2);
    assert_eq!(c.pc, 0x204);
}

#[test]
fn compare_with_low_digit_set_is_unknown() {
    let mut c = machine(&[0x50, 0x11]);
    assert_eq!(c.emulate_cycle(0), Err(CpuError::UnknownOpcode(0x5011)));
    let mut c = machine(&[0x90, 0x1F]);
    assert_eq!(c.emulate_cycle(0), Err(CpuError::UnknownOpcode(0x901F)));
}

#[test]
fn register_logic_ops() {
    // V0 = 0b1100, V1 = 0b1010; then 8011 or, 8012 and, 8013 xor, 8010 copy.
    let mut c = machine(&[0x60, 0x0C, 0x61, 0x0A, 0x80, 0x11]);
    run(&mut c, 3);
    assert_eq!(c.register(0), Some(0x0E));
    let mut c = machine(&[0x60, 0x0C, 0x61, 0x0A, 0x80, 0x12]);
    run(&mut c, 3);
    assert_eq!(c.register(0), Some(0x08));
    let mut c = machine(&[0x60, 0x0C, 0x61, 0x0A, 0x80, 0x13]);
    run(&mut c, 3);
    assert_eq!(c.register(0), Some(0x06));
    let mut c = machine(&[0x60, 0x0C, 0x61, 0x0A, 0x80, 0x10]);
    run(&mut c, 3);
    assert_eq!(c.register(0), Some(0x0A));
}

#[test]
fn add_registers_sets_carry() {
    let mut c = machine(&[0x60, 0xF0, 0x61, 0x20, 0x80, 0x14]);
    run(&mut c, 3);
    assert_eq!(c.register(0), Some(0x10));
    assert_eq!(c.register(15), Some(1));
    let mut c = machine(&[0x60, 0x10, 0x61, 0x20, 0x80, 0x14]);
    run(&mut c, 3);
    assert_eq!(c.register(0), Some(0x30));
    assert_eq!(c.register(15), Some(0));
}

#[test]
fn sub_registers_sets_no_borrow_flag() {
    let mut c = machine(&[0x60, 0x10, 0x61, 0x20, 0x80, 0x15]);
    run(&mut c, 3);
    assert_eq!(c.register(0), Some(0xF0));
    assert_eq!(c.register(15), Some(0));
    let mut c = machine(&[0x60, 0x30, 0x61, 0x20, 0x80, 0x15]);
    run(&mut c, 3);
    assert_eq!(c.register(0), Some(0x10));
    assert_eq!(c.register(15), Some(1));
    // 8XY7: VX = VY - VX.
    let mut c = machine(&[0x60, 0x30, 0x61, 0x20, 0x80, 0x17]);
    run(&mut c, 3);
    assert_eq!(c.register(0), Some(0xF0));
    assert_eq!(c.register(15), Some(0));
}

#[test]
fn flag_wins_when_vf_is_the_target() {
    // VF = 0xFF; V1 = 1; 8F14: VF = 0 (sum wraps) then flag 1.
    let mut c = machine(&[0x6F, 0xFF, 0x61, 0x01, 0x8F, 0x14]);
    run(&mut c, 3);
    assert_eq!(c.register(15), Some(1));
}

#[test]
fn shifts_modern_and_legacy() {
    // V0 = 3, V1 = 0x81; 8016 shifts V0 (modern).
    let mut c = machine(&[0x60, 0x03, 0x61, 0x81, 0x80, 0x16]);
    run(&mut c, 3);
    assert_eq!(c.register(0), Some(1));
    assert_eq!(c.register(15), Some(1));
    // Legacy: V0 = V1 >> 1.
    let mut c = machine(&[0x60, 0x03, 0x61, 0x81, 0x80, 0x16]);
    c.toggle_legacy_mode();
    assert!(c.legacy_mode());
    run(&mut c, 3);
    assert_eq!(c.register(0), Some(0x40));
    assert_eq!(c.register(15), Some(1));
    // 801E shifts left.
    let mut c = machine(&[0x60, 0x81, 0x80, 0x1E]);
    run(&mut c, 2);
    assert_eq!(c.register(0), Some(0x02));
    assert_eq!(c.register(15), Some(1));
    let mut c = machine(&[0x60, 0x01, 0x61, 0xC0, 0x80, 0x1E]);
    c.toggle_legacy_mode();
    run(&mut c, 3);
    assert_eq!(c.register(0), Some(0x80));
    assert_eq!(c.register(15), Some(1));
}

#[test]
fn unknown_register_op() {
    let mut c = machine(&[0x80, 0x18]);
    assert_eq!(c.emulate_cycle(0), Err(CpuError::UnknownOpcode(0x8018)));
}

#[test]
fn set_index_and_jump_plus() {
    let mut c = machine(&[0xA1, 0x23, 0x60, 0x04, 0xB3, 0x00]);
    run(&mut c, 1);
    assert_eq!(c.index_register(), 0x123);
    run(&mut c, 2);
    assert_eq!(c.pc, 0x304);
}

#[test]
fn random_and_masks() {
    let mut c = machine(&[0xC5, 0x00]);
    run(&mut c, 1);
    assert_eq!(c.register(5), Some(0));
    // With the mask 0x0F the value never exceeds 15; over many draws it varies.
    let mut seen = std::collections::HashSet::new();
    for _ in 0..200 {
        let mut c = machine(&[0xC5, 0x0F]);
        run(&mut c, 1);
        let v = c.register(5).unwrap();
        assert!(v <= 0x0F);
        seen.insert(v);
    }
    assert!(seen.len() > 1);
}

#[test]
fn random_byte_given_explicitly() {
    let mut c = machine(&[0xC2, 0x3C]);
    assert_eq!(perform_op_with(&mut c, 0xF5, 0), Ok(TimerCommand::Unchanged));
    assert_eq!(c.register(2), Some(0x34));
    assert_eq!(c.pc, 0x202);
}

#[test]
fn draw_font_digit_and_collide() {
    // I = 0 (font "0"); D015 at (0, 0); draw again.
    let mut c = machine(&[0xA0, 0x00, 0xD0, 0x15, 0xD0, 0x15]);
    run(&mut c, 2);
    let s = c.screen();
    assert!(c.draw);
    // Row 0: 0xF0 -> four pixels.
    assert!(s[0] && s[1] && s[2] && s[3] && !s[4]);
    // Row 1: 0x90 -> pixels 0 and 3.
    assert!(s[64] && !s[65] && !s[66] && s[67]);
    assert_eq!(c.register(15), Some(0));
    run(&mut c, 1);
    assert!(c.screen().iter().all(|&p| !p));
    assert_eq!(c.register(15), Some(1));
}

#[test]
fn draw_clips_at_the_right_edge() {
    // V0 = 62; I = 0; D011 at (62, 0): 0xF0 sets columns 62 and 63 only.
    let mut c = machine(&[0x60, 0x3E, 0xA0, 0x00, 0xD0, 0x11]);
    run(&mut c, 3);
    let s = c.screen();
    assert!(s[62] && s[63]);
    assert!(!s[64] && !s[65] && !s[0] && !s[1]);
}

#[test]
fn draw_wraps_to_the_other_side_when_asked() {
    let mut c = machine(&[0x60, 0x3E, 0xA0, 0x00, 0xD0, 0x11]);
    c.toggle_wrapping();
    run(&mut c, 3);
    let s = c.screen();
    assert!(s[62] && s[63] && s[0] && s[1]);
    assert!(!s[64] && !s[65] && !s[2]);
}

#[test]
fn draw_clips_at_the_bottom_edge() {
    // V1 = 31; I = 0; D015 at (0, 31): only the first row of "0" shows.
    let mut c = machine(&[0x61, 0x1F, 0xA0, 0x00, 0xD0, 0x15]);
    run(&mut c, 3);
    let s = c.screen();
    assert!(s[31 * 64] && s[31 * 64 + 3] && !s[31 * 64 + 4]);
    assert_eq!(s.iter().filter(|&&p| p).count(), 4);
    let mut c = machine(&[0x61, 0x1F, 0xA0, 0x00, 0xD0, 0x15]);
    c.toggle_wrapping();
    run(&mut c, 3);
    let s = c.screen();
    // Row 1 of "0" (0x90) wraps to the top row.
    assert!(s[0] && !s[1] && !s[2] && s[3]);
    assert_eq!(s.iter().filter(|&&p| p).count(), 4 + 2 + 2 + 2 + 4);
}

#[test]
fn draw_origin_beyond_the_right_edge_runs_on_into_the_next_row() {
    // VX = 70 lands at column 6 of row 1.
    let mut c = machine(&[0x60, 0x46, 0xA0, 0x00, 0xD0, 0x11]);
    run(&mut c, 3);
    let s = c.screen();
    assert!(s[64 + 6] && s[64 + 9] && !s[6]);
}

#[test]
fn clear_screen_turns_all_pixels_off() {
    let mut c = machine(&[0xA0, 0x00, 0xD0, 0x15, 0x00, 0xE0]);
    run(&mut c, 2);
    assert!(c.screen().iter().any(|&p| p));
    run(&mut c, 1);
    assert!(c.screen().iter().all(|&p| !p));
    assert!(c.draw);
    // The next cycle clears the draw flag.
    let mut c2 = machine(&[0x00, 0xE0, 0x60, 0x01]);
    run(&mut c2, 1);
    assert!(c2.draw);
    run(&mut c2, 1);
    assert!(!c2.draw);
}

#[test]
fn zero_group_other_opcodes_do_nothing() {
    let mut c = machine(&[0x01, 0x23]);
    run(&mut c, 1);
    assert_eq!(c.pc, 0x202);
}

#[test]
fn key_skips() {
    // V0 = 4; E09E skips when key 4 is down.
    let mut c = machine(&[0x60, 0x04, 0xE0, 0x9E, 0x00, 0x00, 0xE0, 0xA1]);
    c.keypad[4] = true;
    run(&mut c, 2);
    assert_eq!(c.pc, 0x206);
    run(&mut c, 1);
    assert_eq!(c.pc, 0x208);
    let mut c = machine(&[0xE0, 0xA1]);
    run(&mut c, 1);
    assert_eq!(c.pc, 0x204);
    let mut c = machine(&[0xE0, 0x55]);
    assert_eq!(c.emulate_cycle(0), Err(CpuError::UnknownOpcode(0xE055)));
}

#[test]
fn key_skip_beyond_keypad_faults() {
    let mut c = machine(&[0x60, 0x14, 0xE0, 0x9E]);
    run(&mut c, 1);
    assert!(c.next_instruction_faults());
}

#[test]
fn timers_are_asked_for() {
    let mut c = machine(&[0x63, 0x2A, 0xF3, 0x15, 0xF3, 0x18, 0xF4, 0x07]);
    run(&mut c, 1);
    assert_eq!(c.emulate_cycle(0), Ok(TimerCommand::SetDelay(0x2A)));
    assert_eq!(c.emulate_cycle(0), Ok(TimerCommand::SetSound(0x2A)));
    assert_eq!(c.emulate_cycle(7), Ok(TimerCommand::Unchanged));
    assert_eq!(c.register(4), Some(7));
}

#[test]
fn wait_for_key_stops_until_a_key_is_pressed() {
    // F50A waits; V1 = 1 must not run while waiting.
    let mut c = machine(&[0xF5, 0x0A, 0x61, 0x01]);
    run(&mut c, 1);
    assert!(c.is_waiting_for_key());
    assert_eq!(c.pc, 0x202);
    run(&mut c, 3);
    assert_eq!(c.pc, 0x202);
    assert_eq!(c.register(1), Some(0));
    // 'v' is bound to key 15.
    assert_eq!(c.register_key_press('v'), Some((5, 15)));
    assert_eq!(c.register(5), Some(15));
    assert!(c.keypad[15]);
    assert!(!c.is_waiting_for_key());
    run(&mut c, 1);
    assert_eq!(c.register(1), Some(1));
}

#[test]
fn key_down_keeps_a_wait() {
    let mut c = machine(&[0xF3, 0x0A, 0x61, 0x01]);
    run(&mut c, 1);
    assert!(c.is_waiting_for_key());
    // key_down only presses the keypad key: the processor still waits.
    c.key_down('q');
    assert!(c.is_waiting_for_key());
    assert!(c.keypad[4]);
    assert_eq!(c.register(3), Some(0));
    run(&mut c, 1);
    assert_eq!(c.register(1), Some(0));
    // A registered key press ends the wait and fills the waiting register.
    assert_eq!(c.register_key_press('q'), Some((3, 4)));
    assert!(!c.is_waiting_for_key());
    assert_eq!(c.register(3), Some(4));
    run(&mut c, 1);
    assert_eq!(c.register(1), Some(1));
    // An unbound character does not end a wait.
    let mut c = machine(&[0xF3, 0x0A]);
    run(&mut c, 1);
    assert_eq!(c.register_key_press('?'), None);
    assert!(c.is_waiting_for_key());
}

#[test]
fn key_press_without_wait_only_presses() {
    let mut c = CPU::new(None);
    assert_eq!(c.register_key_press('1'), None);
    assert!(c.keypad[1]);
    assert_eq!(c.register_key_press('!'), None);
}

#[test]
fn index_arithmetic() {
    // I = 0x100; V0 = 0x10; I += V0; V1 = 0xA; I = sprite of digit A.
    let mut c = machine(&[0xA1, 0x00, 0x60, 0x10, 0xF0, 0x1E]);
    run(&mut c, 3);
    assert_eq!(c.index_register(), 0x110);
    let mut c = machine(&[0x61, 0x1A, 0xF1, 0x29]);
    run(&mut c, 2);
    assert_eq!(c.index_register(), 50);
}

#[test]
fn bcd_writes_three_digits() {
    let mut c = machine(&[0x60, 0xFE, 0xA3, 0x00, 0xF0, 0x33]);
    run(&mut c, 3);
    assert_eq!(&c.memory[0x300..0x303], &[2, 5, 4]);
}

#[test]
fn reg_load_gives_back_what_reg_dump_stored() {
    // V0..V3 = 1, 2, 3, 4; I = 0x300; later V0..V2 = 9.
    let mut c = machine(&[
        0x60, 0x01, 0x61, 0x02, 0x62, 0x03, 0x63, 0x04, 0xA3, 0x00, 0x60, 0x09, 0x61, 0x09, 0x62,
        0x09,
    ]);
    run(&mut c, 5);
    reg_dump(&mut c, 2);
    assert_eq!(&c.memory[0x300..0x304], &[1, 2, 3, 0]);
    run(&mut c, 3);
    assert_eq!(c.registers()[..4], [9, 9, 9, 4]);
    reg_load(&mut c, 2);
    assert_eq!(c.registers()[..4], [1, 2, 3, 4]);
    assert_eq!(c.index_register(), 0x300);
}

#[test]
fn dump_and_load_registers() {
    // V0..V2 = 1, 2, 3; I = 0x300; F255; clear V0..V2 via load of zeros elsewhere.
    let mut c = machine(&[
        0x60, 0x01, 0x61, 0x02, 0x62, 0x03, 0x63, 0x04, 0xA3, 0x00, 0xF2, 0x55, 0xA3, 0x10, 0xF3,
        0x65,
    ]);
    run(&mut c, 6);
    assert_eq!(&c.memory[0x300..0x304], &[1, 2, 3, 0]);
    run(&mut c, 2);
    // Memory at 0x310 is zero: V0..V3 are cleared.
    assert_eq!(&c.registers()[0..5], &[0, 0, 0, 0, 0]);
    let mut c = machine(&[0xA3, 0x00, 0xF2, 0x65]);
    c.memory[0x300] = 9;
    c.memory[0x301] = 8;
    c.memory[0x302] = 7;
    run(&mut c, 2);
    assert_eq!(&c.registers()[0..4], &[9, 8, 7, 0]);
}

#[test]
fn unknown_f_opcode() {
    let mut c = machine(&[0xF0, 0x99]);
    assert_eq!(c.emulate_cycle(0), Err(CpuError::UnknownOpcode(0xF099)));
}

#[test]
fn program_counter_errors() {
    let mut c = CPU::new(None);
    c.set_pc(0xFFF);
    assert_eq!(
        c.emulate_cycle(0),
        Err(CpuError::ProgramCounterOutOfBounds { pc: 0xFFF, max_memory: 4096 })
    );
    c.set_pc(0x201);
    assert_eq!(c.emulate_cycle(0), Err(CpuError::ProgramCounterInvalidLocation(0x201)));
}

#[test]
fn odd_addresses_when_allowed() {
    let mut c = machine(&[0x00, 0x61, 0x07]);
    c.set_pc(0x201);
    assert_eq!(c.emulate_cycle(0), Err(CpuError::ProgramCounterInvalidLocation(0x201)));
    c.toggle_odds();
    assert!(c.odds());
    run(&mut c, 1);
    assert_eq!(c.register(1), Some(7));
    assert_eq!(c.pc, 0x203);
}

#[test]
fn faulting_instructions_are_recognised() {
    // I = 0xFFF; D002 would read beyond memory.
    let mut c = machine(&[0xAF, 0xFF, 0xD0, 0x02]);
    run(&mut c, 1);
    assert!(c.next_instruction_faults());
    // D001 reads only 0xFFF.
    let mut c = machine(&[0xAF, 0xFF, 0xD0, 0x01]);
    run(&mut c, 1);
    assert!(!c.next_instruction_faults());
    let mut c = machine(&[0xAF, 0xFE, 0xF0, 0x33]);
    run(&mut c, 1);
    assert!(c.next_instruction_faults());
    let mut c = machine(&[0xAF, 0xFE, 0xF2, 0x55]);
    run(&mut c, 1);
    assert!(c.next_instruction_faults());
}

#[test]
fn toggles_and_keys() {
    let mut c = CPU::new(None);
    c.toggle_wrapping();
    assert!(c.wrapping());
    assert!(c.toggle_key(3));
    assert!(c.keypad[3]);
    assert!(c.toggle_key(3));
    assert!(!c.keypad[3]);
    assert!(!c.toggle_key(16));
    c.key_down('q');
    assert!(c.keypad[4]);
    c.key_up('q');
    assert!(!c.keypad[4]);
    c.key_down('?');
    assert!(c.keypad.iter().all(|&k| !k));
    c.key_down('1');
    c.key_down('2');
    c.reset_keys();
    assert!(c.keypad.iter().all(|&k| !k));
    assert!(c.valid_character('z'));
    assert!(!c.valid_character('y'));
}

#[test]
fn frame_buffer_colors() {
    let mut c = machine(&[0xA0, 0x00, 0xD0, 0x11]);
    run(&mut c, 2);
    let mut buffer = vec![7u32; 2048];
    c.draw_screen_winit(&mut buffer);
    assert_eq!(buffer[0], 0x00FFFFFF);
    assert_eq!(buffer[4], 0);
    assert_eq!(buffer[2047], 0);
}

#[test]
fn disassembly_from_program_start() {
    let c = machine(&[0x12, 0x34, 0x00, 0xE0]);
    let lines = c.disassemble(None, 2).unwrap();
    assert_eq!(
        lines,
        vec![
            DisassemblyLine { address: 0x200, opcode: 0x1234, at_pc: true },
            DisassemblyLine { address: 0x202, opcode: 0x00E0, at_pc: false },
        ]
    );
}

#[test]
fn disassembly_starts_at_program_counter() {
    let mut c = CPU::new(None);
    c.set_pc(0x210);
    let lines = c.disassemble(None, 5).unwrap();
    assert_eq!(lines[0].address, 0x210);
    assert!(lines[0].at_pc);
    assert!(!lines[1].at_pc);
    c.set_pc(4);
    assert_eq!(c.disassemble(None, 1).unwrap()[0].address, 4);
    assert_eq!(c.disassemble(Some(0), 3).unwrap()[1].opcode, 0x9090);
    c.set_pc(0x201);
    assert_eq!(c.disassemble(None, 1), Err(DisassembleError::OddStart));
}

#[test]
fn disassembly_errors() {
    let c = CPU::new(None);
    assert_eq!(c.disassemble(Some(4096), 1), Err(DisassembleError::StartBeyondMemory));
    assert_eq!(c.disassemble(Some(0x201), 1), Err(DisassembleError::OddStart));
    assert!(c.disassembly_defined(Some(4094), 1));
    assert!(!c.disassembly_defined(Some(4094), 2));
    assert_eq!(c.disassemble(Some(4094), 1).unwrap().len(), 1);
}
