//! Fixed data of the machine.
use vstd::prelude::*;

verus! {

/// The built-in font: five rows of four pixels for each hexadecimal digit,
/// loaded at the start of memory.
pub const FONTSET: [u8; 80] = [
    0xF0, 0x90, 0x90, 0x90, 0xF0,  // 0
    0x20, 0x60, 0x20, 0x20, 0x70,  // 1
    0xF0, 0x10, 0xF0, 0x80, 0xF0,  // 2
    0xF0, 0x10, 0xF0, 0x10, 0xF0,  // 3
    0x90, 0x90, 0xF0, 0x10, 0x10,  // 4
    0xF0, 0x80, 0xF0, 0x10, 0xF0,  // 5
    0xF0, 0x80, 0xF0, 0x90, 0xF0,  // 6
    0xF0, 0x10, 0x20, 0x40, 0x40,  // 7
    0xF0, 0x90, 0xF0, 0x90, 0xF0,  // 8
    0xF0, 0x90, 0xF0, 0x10, 0xF0,  // 9
    0xF0, 0x90, 0xF0, 0x90, 0x90,  // A
    0xE0, 0x90, 0xE0, 0x90, 0xE0,  // B
    0xF0, 0x80, 0x80, 0x80, 0xF0,  // C
    0xE0, 0x90, 0x90, 0x90, 0xE0,  // D
    0xF0, 0x80, 0xF0, 0x80, 0xF0,  // E
    0xF0, 0x80, 0xF0, 0x80, 0x80,  // F
];

/// Bytes of memory.
pub const MEMORY_SIZE: usize = 4096;

/// Where programs are loaded and execution starts.
pub const PROGRAM_START: usize = 0x200;

/// Pixels on the screen, 64 wide and 32 high.
pub const SCREEN_SIZE: usize = 2048;

/// How long, in milliseconds, a pressed key stays down before it is released.
pub const KEYDELAY: u128 = 100;

} // verus!
