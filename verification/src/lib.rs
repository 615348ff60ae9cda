//! A CHIP-8 interpreter: the processor and its instruction set, key
//! bindings, and the debugger's command handling.
pub mod cpu;
pub mod debugger;
pub mod keybindings;
