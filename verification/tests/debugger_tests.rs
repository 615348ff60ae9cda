use chip_8::cpu::{CpuError, CPU};
use chip_8::debugger::{
    breakpoint_reached, continue_stops, delete_breakpoint, disassembly_request, jump, parse_address, parse_command,
    key_request, parse_decimal, register_request, set_breakpoint, BreakpointOutcome, Command,
    DisassemblyRequest, JumpOutcome, KeyRequest, RegisterRequest,
};
use std::collections::HashSet;

#[test]
fn addresses_in_hex_and_decimal() {
    assert_eq!(parse_address("0x200"), Some(0x200));
    assert_eq!(parse_address("0xfFf"), Some(0xFFF));
    assert_eq!(parse_address("512"), Some(512));
    assert_eq!(parse_address("+12"), Some(12));
    assert_eq!(parse_address("0x+1A"), Some(26));
    assert_eq!(parse_address("0x"), None);
    assert_eq!(parse_address("0X10"), None);
    assert_eq!(parse_address("abc"), None);
    assert_eq!(parse_address(""), None);
    assert_eq!(parse_address("+"), None);
    assert_eq!(parse_address("-4"), None);
    assert_eq!(parse_address("0x1g"), None);
    assert_eq!(parse_address("٣"), None);
}

#[test]
fn numbers_that_overflow_are_refused() {
    let max = usize::MAX.to_string();
    assert_eq!(parse_decimal(&max), Some(usize::MAX));
    let over = format!("{}0", max);
    assert_eq!(parse_decimal(&over), None);
    assert_eq!(parse_address(&format!("0x1{}", "0".repeat(16))), None);
    assert_eq!(parse_decimal("007"), Some(7));
    assert_eq!(parse_decimal("0x7"), None);
}

#[test]
fn command_words() {
    assert_eq!(parse_command("load"), Command::Load);
    assert_eq!(parse_command("l"), Command::Load);
    assert_eq!(parse_command("dis"), Command::Disassemble);
    assert_eq!(parse_command("disassemble"), Command::Disassemble);
    assert_eq!(parse_command("p"), Command::Print);
    assert_eq!(parse_command("step"), Command::Step);
    assert_eq!(parse_command("sc"), Command::Screen);
    assert_eq!(parse_command("j"), Command::Jump);
    assert_eq!(parse_command("b"), Command::Break);
    assert_eq!(parse_command("continue"), Command::Continue);
    assert_eq!(parse_command("d"), Command::Delete);
    assert_eq!(parse_command("help"), Command::Help);
    assert_eq!(parse_command("jmp"), Command::Jump);
    assert_eq!(parse_command("leg"), Command::Legacy);
    assert_eq!(parse_command("stack"), Command::Stack);
    assert_eq!(parse_command("stk"), Command::Stack);
    assert_eq!(parse_command("k"), Command::Key);
    assert_eq!(parse_command("keypad"), Command::Keypad);
    assert_eq!(parse_command("kp"), Command::Keypad);
    assert_eq!(parse_command("quit"), Command::Quit);
    assert_eq!(parse_command("q"), Command::Undefined);
    assert_eq!(parse_command("Load"), Command::Undefined);
}

#[test]
fn breakpoints_set_and_delete() {
    let mut b = HashSet::new();
    assert_eq!(set_breakpoint(&["break"], &mut b), BreakpointOutcome::MissingAddress);
    assert_eq!(set_breakpoint(&["break", "zz"], &mut b), BreakpointOutcome::Unreadable);
    assert_eq!(set_breakpoint(&["break", "0x1000"], &mut b), BreakpointOutcome::TooBig(0x1000));
    assert_eq!(set_breakpoint(&["break", "0x201"], &mut b), BreakpointOutcome::Odd(0x201));
    assert!(b.is_empty());
    assert_eq!(set_breakpoint(&["break", "0x204"], &mut b), BreakpointOutcome::Placed(0x204));
    assert!(b.contains(&0x204));
    assert!(breakpoint_reached(0x204, &b));
    assert!(!breakpoint_reached(0x206, &b));
    assert!(breakpoint_reached(4094, &b));
    assert_eq!(delete_breakpoint(&["d"], &mut b), BreakpointOutcome::MissingAddress);
    assert_eq!(delete_breakpoint(&["d", "0x206"], &mut b), BreakpointOutcome::NotFound(0x206));
    assert_eq!(delete_breakpoint(&["d", "516"], &mut b), BreakpointOutcome::Removed(0x204));
    assert!(b.is_empty());
}

#[test]
fn jumps() {
    let mut c = CPU::new(None);
    assert_eq!(jump(&["j"], &mut c), JumpOutcome::MissingAddress);
    assert_eq!(jump(&["j", "x"], &mut c), JumpOutcome::Invalid);
    assert_eq!(jump(&["j", "4096"], &mut c), JumpOutcome::TooBig(4096));
    assert_eq!(jump(&["j", "0x301"], &mut c), JumpOutcome::Odd(0x301));
    assert_eq!(c.pc, 0x200);
    assert_eq!(jump(&["j", "0x300"], &mut c), JumpOutcome::Jumped(0x300));
    assert_eq!(c.pc, 0x300);
}

#[test]
fn disassembly_requests() {
    assert_eq!(disassembly_request(&["dis"]), DisassemblyRequest::Range { start: None, lines: 10 });
    assert_eq!(disassembly_request(&["dis", "x"]), DisassemblyRequest::BadLineCount);
    assert_eq!(disassembly_request(&["dis", "4"]), DisassemblyRequest::Range { start: None, lines: 4 });
    assert_eq!(
        disassembly_request(&["dis", "4", "0x210"]),
        DisassemblyRequest::Range { start: Some(0x210), lines: 4 }
    );
    assert_eq!(
        disassembly_request(&["dis", "4", "nope"]),
        DisassemblyRequest::Range { start: None, lines: 4 }
    );
}

#[test]
fn register_requests() {
    assert_eq!(register_request(&["p"]), RegisterRequest::Missing);
    assert_eq!(register_request(&["p", "all"]), RegisterRequest::All);
    assert_eq!(register_request(&["p", "3"]), RegisterRequest::One(3));
    assert_eq!(register_request(&["p", "99"]), RegisterRequest::One(99));
    assert_eq!(register_request(&["p", "I"]), RegisterRequest::Index);
    assert_eq!(register_request(&["p", "i"]), RegisterRequest::NotInteger);
    let c = CPU::new(None);
    assert_eq!(c.register(99), None);
    assert_eq!(c.register(15), Some(0));
}

#[test]
fn key_requests() {
    assert_eq!(key_request(&["k"]), KeyRequest::Missing);
    assert_eq!(key_request(&["k", "x"]), KeyRequest::NotInteger);
    assert_eq!(key_request(&["k", "12"]), KeyRequest::Key(12));
}

#[test]
fn continue_stops_on_errors_breakpoints_and_the_end() {
    let mut b = HashSet::new();
    b.insert(0x208);
    assert!(!continue_stops(&Ok(()), 0x206, &b));
    assert!(continue_stops(&Ok(()), 0x208, &b));
    assert!(continue_stops(&Ok(()), 4094, &b));
    assert!(continue_stops(&Err(CpuError::StackUnderflowError), 0x206, &b));
}
