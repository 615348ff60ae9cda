//! What each instruction does, stated from the two bytes at the program
//! counter and the state before it: the value it computes, the flag it sets,
//! where the program counter goes, and that nothing else changes.
use vstd::prelude::*;
use super::{CpuError, CpuState, TimerCommand, well_formed};
use super::operations::{instruction_faults, step, valid_pc};

verus! {

/// The first byte of the instruction at the program counter.
pub open spec fn first_byte(s: CpuState) -> int {
    s.memory[s.pc as int] as int
}

/// The second byte of the instruction at the program counter.
pub open spec fn second_byte(s: CpuState) -> int {
    s.memory[s.pc as int + 1] as int
}

/// The state an instruction that runs leaves behind.
pub open spec fn after(s: CpuState, random: u8, delay: u8) -> CpuState {
    step(s, random, delay)->Ok_0.0
}

/// `t` is `s` with the given registers and the program counter `dist` bytes on.
pub open spec fn moved_on(s: CpuState, t: CpuState, registers: Seq<u8>, dist: int) -> bool {
    t == (CpuState { registers, pc: (s.pc + dist) as usize, ..s })
}

/// The instruction ran, asked nothing of the timers, and left `s` with the
/// given registers and the program counter `dist` bytes on.
pub open spec fn ran_to(s: CpuState, random: u8, delay: u8, registers: Seq<u8>, dist: int) -> bool {
    &&& step(s, random, delay) is Ok
    &&& step(s, random, delay)->Ok_0.1 == TimerCommand::Unchanged
    &&& moved_on(s, after(s, random, delay), registers, dist)
}

// ---------------------------------------------------------------------------
// 8XY?: register arithmetic
// ---------------------------------------------------------------------------

/// 8XY0 to 8XY3 copy, or, and and xor VY into VX; nothing else changes, VF
/// included (unless it is VX).
pub proof fn lemma_register_logic(s: CpuState, random: u8, delay: u8)
    requires
        well_formed(s),
        valid_pc(s),
        first_byte(s) / 16 == 8,
        second_byte(s) % 16 <= 3,
    ensures
        ({
            let x = first_byte(s) % 16;
            let a = s.registers[x];
            let b = s.registers[second_byte(s) / 16];
            let v = if second_byte(s) % 16 == 0 {
                b
            } else if second_byte(s) % 16 == 1 {
                a | b
            } else if second_byte(s) % 16 == 2 {
                a & b
            } else {
                a ^ b
            };
            ran_to(s, random, delay, s.registers.update(x, v), 2)
        }),
{
}

/// 8XY4 adds VY to VX: VX keeps the low byte of the sum and VF its carry,
/// so together they hold the whole sum; no other register changes.
pub proof fn lemma_register_add(s: CpuState, random: u8, delay: u8)
    requires
        well_formed(s),
        valid_pc(s),
        first_byte(s) / 16 == 8,
        second_byte(s) % 16 == 4,
        first_byte(s) % 16 != 15,
    ensures
        ({
            let x = first_byte(s) % 16;
            let a = s.registers[x];
            let b = s.registers[second_byte(s) / 16];
            let t = after(s, random, delay);
            &&& step(s, random, delay) is Ok
            &&& t.registers[15] * 256 + t.registers[x] == a + b
            &&& t.registers[15] <= 1
            &&& moved_on(s, t, s.registers.update(x, t.registers[x]).update(15, t.registers[15]), 2)
        }),
{
}

/// 8XY5 subtracts VY from VX modulo 256 (adding VY back gives VX), and VF
/// is 1 exactly when no borrow was needed, VX >= VY; no other register changes.
pub proof fn lemma_register_subtract(s: CpuState, random: u8, delay: u8)
    requires
        well_formed(s),
        valid_pc(s),
        first_byte(s) / 16 == 8,
        second_byte(s) % 16 == 5,
        first_byte(s) % 16 != 15,
    ensures
        ({
            let x = first_byte(s) % 16;
            let a = s.registers[x];
            let b = s.registers[second_byte(s) / 16];
            let t = after(s, random, delay);
            &&& step(s, random, delay) is Ok
            &&& (t.registers[x] + b) % 256 == a
            &&& t.registers[15] == (if a >= b { 1u8 } else { 0u8 })
            &&& moved_on(s, t, s.registers.update(x, t.registers[x]).update(15, t.registers[15]), 2)
        }),
{
}

/// 8XY7 sets VX to VY minus VX modulo 256 (adding the old VX back gives VY),
/// and VF is 1 exactly when no borrow was needed, VY >= VX; no other register
/// changes.
pub proof fn lemma_register_reverse_subtract(s: CpuState, random: u8, delay: u8)
    requires
        well_formed(s),
        valid_pc(s),
        first_byte(s) / 16 == 8,
        second_byte(s) % 16 == 7,
        first_byte(s) % 16 != 15,
    ensures
        ({
            let x = first_byte(s) % 16;
            let a = s.registers[x];
            let b = s.registers[second_byte(s) / 16];
            let t = after(s, random, delay);
            &&& step(s, random, delay) is Ok
            &&& (t.registers[x] + a) % 256 == b
            &&& t.registers[15] == (if b >= a { 1u8 } else { 0u8 })
            &&& moved_on(s, t, s.registers.update(x, t.registers[x]).update(15, t.registers[15]), 2)
        }),
{
}

/// 8XY6 halves the source (VX, or VY in legacy mode) into VX and puts the
/// bit shifted out in VF; 8XYE doubles it modulo 256 and puts the bit shifted
/// out in VF. Either way VF and VX together give the source back.
pub proof fn lemma_register_shifts(s: CpuState, random: u8, delay: u8)
    requires
        well_formed(s),
        valid_pc(s),
        first_byte(s) / 16 == 8,
        second_byte(s) % 16 == 6 || second_byte(s) % 16 == 0xE,
        first_byte(s) % 16 != 15,
    ensures
        ({
            let x = first_byte(s) % 16;
            let src = if s.legacy_mode {
                s.registers[second_byte(s) / 16]
            } else {
                s.registers[x]
            };
            let t = after(s, random, delay);
            &&& step(s, random, delay) is Ok
            &&& t.registers[15] <= 1
            &&& second_byte(s) % 16 == 6 ==> t.registers[x] * 2 + t.registers[15] == src
            &&& second_byte(s) % 16 == 0xE ==> t.registers[15] * 256 + t.registers[x] == src * 2
            &&& moved_on(s, t, s.registers.update(x, t.registers[x]).update(15, t.registers[15]), 2)
        }),
{
}

/// With X = F the flag wins: VF ends as the carry, no-borrow or shifted-out
/// bit, not as the arithmetic result.
pub proof fn lemma_register_flag_in_vf(s: CpuState, random: u8, delay: u8)
    requires
        well_formed(s),
        valid_pc(s),
        first_byte(s) / 16 == 8,
        first_byte(s) % 16 == 15,
        second_byte(s) % 16 == 4 || second_byte(s) % 16 == 5 || second_byte(s) % 16 == 6 || second_byte(s) % 16 == 7 || second_byte(s) % 16
            == 0xE,
    ensures
        ({
            let a = s.registers[15];
            let b = s.registers[second_byte(s) / 16];
            let src = if s.legacy_mode {
                b
            } else {
                a
            };
            let n = second_byte(s) % 16;
            let f = if n == 4 {
                if a + b > 255 { 1u8 } else { 0u8 }
            } else if n == 5 {
                if a >= b { 1u8 } else { 0u8 }
            } else if n == 7 {
                if b >= a { 1u8 } else { 0u8 }
            } else if n == 6 {
                src % 2
            } else {
                src / 128
            };
            ran_to(s, random, delay, s.registers.update(15, f), 2)
        }),
{
    assert forall|v: u8, f: u8| #[trigger] s.registers.update(15, v).update(15, f) =~= s.registers.update(
        15,
        f,
    ) by {}
}

/// 8XY8 to 8XYD and 8XYF are no instructions: the processor stops on them
/// and keeps its state.
pub proof fn lemma_register_unknown(s: CpuState, random: u8, delay: u8)
    requires
        well_formed(s),
        valid_pc(s),
        first_byte(s) / 16 == 8,
        (8 <= second_byte(s) % 16 <= 0xD) || second_byte(s) % 16 == 0xF,
    ensures
        step(s, random, delay) == Err::<(CpuState, TimerCommand), CpuError>(
            CpuError::UnknownOpcode((first_byte(s) * 256 + second_byte(s)) as u16),
        ),
{
}

// ---------------------------------------------------------------------------
// Skips
// ---------------------------------------------------------------------------

/// 3XNN skips the next instruction exactly when VX equals NN, 4XNN exactly
/// when it differs; nothing else changes.
pub proof fn lemma_skip_on_byte(s: CpuState, random: u8, delay: u8)
    requires
        well_formed(s),
        valid_pc(s),
        first_byte(s) / 16 == 3 || first_byte(s) / 16 == 4,
    ensures
        ({
            let equal = s.registers[first_byte(s) % 16] == second_byte(s);
            let skip = if first_byte(s) / 16 == 3 {
                equal
            } else {
                !equal
            };
            ran_to(s, random, delay, s.registers, if skip { 4 } else { 2 })
        }),
{
}

/// 5XY0, and 9XY0 which the dispatch sends to the same test, skip the next
/// instruction exactly when VX equals VY; with a last digit other than 0 they
/// are no instructions.
pub proof fn lemma_skip_on_registers(s: CpuState, random: u8, delay: u8)
    requires
        well_formed(s),
        valid_pc(s),
        first_byte(s) / 16 == 5 || first_byte(s) / 16 == 9,
    ensures
        second_byte(s) % 16 == 0 ==> ran_to(
            s,
            random,
            delay,
            s.registers,
            if s.registers[first_byte(s) % 16] == s.registers[second_byte(s) / 16] {
                4
            } else {
                2
            },
        ),
        second_byte(s) % 16 != 0 ==> step(s, random, delay) == Err::<(CpuState, TimerCommand), CpuError>(
            CpuError::UnknownOpcode((first_byte(s) * 256 + second_byte(s)) as u16),
        ),
{
}

/// EX9E skips exactly when key VX is down, EXA1 exactly when it is up.
pub proof fn lemma_skip_on_key(s: CpuState, random: u8, delay: u8)
    requires
        well_formed(s),
        valid_pc(s),
        first_byte(s) / 16 == 0xE,
        second_byte(s) == 0x9E || second_byte(s) == 0xA1,
        s.registers[first_byte(s) % 16] < 16,
    ensures
        ({
            let down = s.keypad[s.registers[first_byte(s) % 16] as int];
            let skip = if second_byte(s) == 0x9E {
                down
            } else {
                !down
            };
            ran_to(s, random, delay, s.registers, if skip { 4 } else { 2 })
        }),
{
}

// ---------------------------------------------------------------------------
// Register loads
// ---------------------------------------------------------------------------

/// 6XNN sets VX to NN; 7XNN adds NN to VX modulo 256 and leaves VF alone;
/// no other register changes.
pub proof fn lemma_set_and_add_byte(s: CpuState, random: u8, delay: u8)
    requires
        well_formed(s),
        valid_pc(s),
        first_byte(s) / 16 == 6 || first_byte(s) / 16 == 7,
    ensures
        ({
            let x = first_byte(s) % 16;
            let v = if first_byte(s) / 16 == 6 {
                second_byte(s) as u8
            } else {
                ((s.registers[x] + second_byte(s)) % 256) as u8
            };
            ran_to(s, random, delay, s.registers.update(x, v), 2)
        }),
{
}

/// CXNN sets VX to the random byte masked with NN, whichever byte is drawn:
/// the bits outside NN are clear, and with NN = FF VX is the drawn byte
/// itself, so every byte can come out.
pub proof fn lemma_random_masked(s: CpuState, random: u8, delay: u8)
    requires
        well_formed(s),
        valid_pc(s),
        first_byte(s) / 16 == 0xC,
    ensures
        ({
            let x = first_byte(s) % 16;
            let nn = second_byte(s) as u8;
            let t = after(s, random, delay);
            &&& ran_to(s, random, delay, s.registers.update(x, random & nn), 2)
            &&& t.registers[x] & !nn == 0
            &&& t.registers[x] & nn == t.registers[x]
            &&& nn == 0xFF ==> t.registers[x] == random
            &&& nn == 0 ==> t.registers[x] == 0
        }),
{
    let nn = second_byte(s) as u8;
    assert((random & nn) & !nn == 0) by (bit_vector);
    assert((random & nn) & nn == random & nn) by (bit_vector);
    assert(random & 0xFF == random) by (bit_vector);
    assert(random & 0 == 0) by (bit_vector);
}

// ---------------------------------------------------------------------------
// Jumps, calls and the screen
// ---------------------------------------------------------------------------

/// 1NNN goes to NNN, BNNN to V0 + NNN; nothing else changes.
pub proof fn lemma_jumps(s: CpuState, random: u8, delay: u8)
    requires
        well_formed(s),
        valid_pc(s),
        first_byte(s) / 16 == 1 || first_byte(s) / 16 == 0xB,
    ensures
        ({
            let nnn = (first_byte(s) % 16) * 256 + second_byte(s);
            let target = if first_byte(s) / 16 == 1 {
                nnn
            } else {
                s.registers[0] + nnn
            };
            ran_to(s, random, delay, s.registers, target - s.pc)
        }),
{
}

/// 2NNN pushes the address of the call and goes to NNN, unless the twelve
/// places of the stack are taken, where it stops with an overflow.
pub proof fn lemma_call(s: CpuState, random: u8, delay: u8)
    requires
        well_formed(s),
        valid_pc(s),
        first_byte(s) / 16 == 2,
    ensures
        s.stack.len() == 12 ==> step(s, random, delay) == Err::<(CpuState, TimerCommand), CpuError>(
            CpuError::StackOverflowError,
        ),
        s.stack.len() < 12 ==> {
            &&& step(s, random, delay) is Ok
            &&& step(s, random, delay)->Ok_0.1 == TimerCommand::Unchanged
            &&& after(s, random, delay) == (CpuState {
                pc: ((first_byte(s) % 16) * 256 + second_byte(s)) as usize,
                stack: s.stack.push(s.pc as u16),
                ..s
            })
        },
{
}

/// 00EE goes to the instruction after the last call and pops it, or stops
/// with an underflow when nothing was called; 00E0 turns every pixel off and
/// asks for a redraw; any other 0NNN does nothing.
pub proof fn lemma_return_and_clear(s: CpuState, random: u8, delay: u8)
    requires
        well_formed(s),
        valid_pc(s),
        first_byte(s) == 0,
    ensures
        second_byte(s) == 0xEE && s.stack.len() == 0 ==> step(s, random, delay) == Err::<
            (CpuState, TimerCommand),
            CpuError,
        >(CpuError::StackUnderflowError),
        second_byte(s) == 0xEE && s.stack.len() > 0 ==> {
            &&& step(s, random, delay) is Ok
            &&& after(s, random, delay) == (CpuState {
                pc: (s.stack.last() + 2) as usize,
                stack: s.stack.drop_last(),
                ..s
            })
        },
        second_byte(s) == 0xE0 ==> {
            let t = after(s, random, delay);
            &&& step(s, random, delay) is Ok
            &&& forall|p: int| 0 <= p < 2048 ==> !#[trigger] t.screen[p]
            &&& t.screen.len() == 2048
            &&& t == (CpuState { screen: t.screen, draw: true, pc: (s.pc + 2) as usize, ..s })
        },
        second_byte(s) != 0xEE && second_byte(s) != 0xE0 ==> ran_to(s, random, delay, s.registers, 2),
{
}

// ---------------------------------------------------------------------------
// I, timers, keys and memory
// ---------------------------------------------------------------------------

/// ANNN sets I to NNN; nothing else changes.
pub proof fn lemma_set_index(s: CpuState, random: u8, delay: u8)
    requires
        well_formed(s),
        valid_pc(s),
        first_byte(s) / 16 == 0xA,
    ensures
        step(s, random, delay) is Ok,
        after(s, random, delay) == (CpuState {
            index: ((first_byte(s) % 16) * 256 + second_byte(s)) as u16,
            pc: (s.pc + 2) as usize,
            ..s
        }),
{
}

/// FX1E adds VX to I as whole numbers (where the sum fits in 16 bits), and
/// FX29 points I at the five-byte font sprite of the low digit of VX;
/// nothing else changes.
pub proof fn lemma_index_arithmetic(s: CpuState, random: u8, delay: u8)
    requires
        well_formed(s),
        valid_pc(s),
        first_byte(s) / 16 == 0xF,
        second_byte(s) == 0x1E ==> s.index + s.registers[first_byte(s) % 16] <= 0xFFFF,
        second_byte(s) == 0x1E || second_byte(s) == 0x29,
    ensures
        ({
            let v = s.registers[first_byte(s) % 16];
            let t = after(s, random, delay);
            &&& step(s, random, delay) is Ok
            &&& second_byte(s) == 0x1E ==> t.index == s.index + v
            &&& second_byte(s) == 0x29 ==> t.index == (v % 16) * 5
            &&& t == (CpuState { index: t.index, pc: (s.pc + 2) as usize, ..s })
        }),
{
}

/// FX07 reads the delay timer into VX; FX15 and FX18 ask for the delay and
/// sound timers to be set to VX and change nothing else; FX0A makes the
/// processor wait for a key that goes to VX.
pub proof fn lemma_timers_and_key_wait(s: CpuState, random: u8, delay: u8)
    requires
        well_formed(s),
        valid_pc(s),
        first_byte(s) / 16 == 0xF,
        second_byte(s) == 0x07 || second_byte(s) == 0x15 || second_byte(s) == 0x18 || second_byte(s) == 0x0A,
    ensures
        ({
            let x = first_byte(s) % 16;
            let v = s.registers[x];
            let r = step(s, random, delay);
            &&& second_byte(s) == 0x07 ==> ran_to(s, random, delay, s.registers.update(x, delay), 2)
            &&& second_byte(s) == 0x15 ==> r == Ok::<(CpuState, TimerCommand), CpuError>(
                (CpuState { pc: (s.pc + 2) as usize, ..s }, TimerCommand::SetDelay(v)),
            )
            &&& second_byte(s) == 0x18 ==> r == Ok::<(CpuState, TimerCommand), CpuError>(
                (CpuState { pc: (s.pc + 2) as usize, ..s }, TimerCommand::SetSound(v)),
            )
            &&& second_byte(s) == 0x0A ==> r == Ok::<(CpuState, TimerCommand), CpuError>(
                (
                    CpuState { waiting_key: Some(x as u8), pc: (s.pc + 2) as usize, ..s },
                    TimerCommand::Unchanged,
                ),
            )
        }),
{
}

/// FX55 stores V0 to VX at I, I + 1, ..., I + X and leaves the rest of
/// memory, the registers and I alone; FX65 loads V0 to VX from there and
/// leaves the registers above VX, memory and I alone.
pub proof fn lemma_register_dump_and_load(s: CpuState, random: u8, delay: u8)
    requires
        well_formed(s),
        valid_pc(s),
        first_byte(s) / 16 == 0xF,
        second_byte(s) == 0x55 || second_byte(s) == 0x65,
        s.index + first_byte(s) % 16 < 4096,
    ensures
        ({
            let x = first_byte(s) % 16;
            let i = s.index as int;
            let t = after(s, random, delay);
            &&& step(s, random, delay) is Ok
            &&& t.memory.len() == 4096 && t.registers.len() == 16
            &&& second_byte(s) == 0x55 ==> {
                &&& forall|k: int| 0 <= k <= x ==> #[trigger] t.memory[i + k] == s.registers[k]
                &&& forall|a: int|
                    0 <= a < 4096 && !(i <= a <= i + x) ==> #[trigger] t.memory[a] == s.memory[a]
                &&& t == (CpuState { memory: t.memory, pc: (s.pc + 2) as usize, ..s })
            }
            &&& second_byte(s) == 0x65 ==> {
                &&& forall|k: int| 0 <= k <= x ==> #[trigger] t.registers[k] == s.memory[i + k]
                &&& forall|k: int| x < k < 16 ==> #[trigger] t.registers[k] == s.registers[k]
                &&& t == (CpuState { registers: t.registers, pc: (s.pc + 2) as usize, ..s })
            }
        }),
{
}

/// FX33 writes the hundreds, tens and units of VX at I, I + 1 and I + 2;
/// nothing else changes.
pub proof fn lemma_decimal_digits(s: CpuState, random: u8, delay: u8)
    requires
        well_formed(s),
        valid_pc(s),
        first_byte(s) / 16 == 0xF,
        second_byte(s) == 0x33,
        s.index + 2 < 4096,
    ensures
        ({
            let v = s.registers[first_byte(s) % 16];
            let i = s.index as int;
            let t = after(s, random, delay);
            &&& step(s, random, delay) is Ok
            &&& t.memory[i] * 100 + t.memory[i + 1] * 10 + t.memory[i + 2] == v
            &&& t.memory[i] < 10 && t.memory[i + 1] < 10 && t.memory[i + 2] < 10
            &&& t.memory.len() == 4096
            &&& forall|a: int|
                0 <= a < 4096 && !(i <= a <= i + 2) ==> #[trigger] t.memory[a] == s.memory[a]
            &&& t == (CpuState { memory: t.memory, pc: (s.pc + 2) as usize, ..s })
        }),
{
}

/// Only EX9E and EXA1 exist in the E group, and only FX07, FX0A, FX15, FX18,
/// FX1E, FX29, FX33, FX55 and FX65 in the F group: the processor stops on any
/// other such instruction and keeps its state.
pub proof fn lemma_key_and_misc_unknown(s: CpuState, random: u8, delay: u8)
    requires
        well_formed(s),
        valid_pc(s),
        first_byte(s) / 16 == 0xE && second_byte(s) != 0x9E && second_byte(s) != 0xA1
            || first_byte(s) / 16 == 0xF && second_byte(s) != 0x07 && second_byte(s) != 0x0A
            && second_byte(s) != 0x15 && second_byte(s) != 0x18 && second_byte(s) != 0x1E
            && second_byte(s) != 0x29 && second_byte(s) != 0x33 && second_byte(s) != 0x55
            && second_byte(s) != 0x65,
    ensures
        step(s, random, delay) == Err::<(CpuState, TimerCommand), CpuError>(
            CpuError::UnknownOpcode((first_byte(s) * 256 + second_byte(s)) as u16),
        ),
{
}

/// The only instructions with no defined effect are those that would reach
/// past the end of memory (DXYN rows, FX33 digits, FX55 and FX65 registers),
/// press a key beyond F (EX9E, EXA1), or carry I past 0xFFFF (FX1E); every
/// other instruction at a valid program counter is defined.
pub proof fn lemma_faults_are_out_of_range(s: CpuState)
    requires
        well_formed(s),
        valid_pc(s),
    ensures
        ({
            let g = first_byte(s) / 16;
            let lo = second_byte(s);
            let vx = s.registers[first_byte(s) % 16] as int;
            let i = s.index as int;
            instruction_faults(s) <==> {
                ||| g == 0xD && lo % 16 > 0 && i + lo % 16 > 4096
                ||| g == 0xE && (lo == 0x9E || lo == 0xA1) && vx > 15
                ||| g == 0xF && lo == 0x1E && i + vx > 0xFFFF
                ||| g == 0xF && lo == 0x33 && i + 2 > 4095
                ||| g == 0xF && (lo == 0x55 || lo == 0x65) && i + first_byte(s) % 16 > 4095
            }
        }),
{
}

/// A cycle of a processor that does not wait runs exactly one instruction
/// on the state with the draw flag cleared; when the instruction fails, the
/// processor keeps that state and reports the failure.
pub proof fn lemma_cycle_runs_one_instruction(s: CpuState, random: u8, delay: u8)
    requires
        s.waiting_key is None,
    ensures
        ({
            let cleared = CpuState { draw: false, ..s };
            let (t, r) = super::cycle(s, random, delay);
            &&& step(cleared, random, delay) is Ok ==> t == step(cleared, random, delay)->Ok_0.0
                && r == Ok::<TimerCommand, CpuError>(step(cleared, random, delay)->Ok_0.1)
            &&& step(cleared, random, delay) is Err ==> t == cleared
                && r == Err::<TimerCommand, CpuError>(step(cleared, random, delay)->Err_0)
        }),
{
}

// ---------------------------------------------------------------------------
// DXYN: sprites
// ---------------------------------------------------------------------------

/// Bit `j` of a sprite row, counted from the left, by a mask.
proof fn lemma_row_bit_mask(row: u8, j: u8)
    requires
        j < 8,
    ensures
        super::operations::sprite_row_bit(row, j) == (row & (0x80u8 >> j) != 0),
{
    assert(((row >> ((7 - j) as u8)) & 1 == 1) == (row & (0x80u8 >> j) != 0)) by (bit_vector)
        requires
            j < 8,
    ;
}

/// DXYN with VX and VY on the screen: the pixel in row VY + i and column
/// VX + j (i below N, j below 8, both on the screen) flips exactly when bit j
/// of sprite row i, the byte at I + i, is set, counting bits from the left.
pub proof fn lemma_draw_flips_sprite_bits(s: CpuState, random: u8, delay: u8, i: int, j: int)
    requires
        well_formed(s),
        valid_pc(s),
        first_byte(s) / 16 == 0xD,
        s.registers[first_byte(s) % 16] < 64,
        s.registers[second_byte(s) / 16] < 32,
        s.index + second_byte(s) % 16 <= 4096,
        0 <= i < second_byte(s) % 16,
        0 <= j < 8,
        s.registers[first_byte(s) % 16] + j < 64,
        s.registers[second_byte(s) / 16] + i < 32,
    ensures
        ({
            let x0 = s.registers[first_byte(s) % 16] as int;
            let y0 = s.registers[second_byte(s) / 16] as int;
            let p = (y0 + i) * 64 + x0 + j;
            let row = s.memory[s.index + i];
            &&& step(s, random, delay) is Ok
            &&& after(s, random, delay).screen[p] == (s.screen[p] != (row & (0x80u8 >> (j as u8))
                != 0))
        }),
{
    let x0 = s.registers[first_byte(s) % 16] as int;
    let y0 = s.registers[second_byte(s) / 16] as int;
    let p = (y0 + i) * 64 + x0 + j;
    assert(p % 64 == x0 + j && p / 64 == y0 + i) by {
        vstd::arithmetic::div_mod::lemma_fundamental_div_mod(p, 64);
        vstd::arithmetic::div_mod::lemma_mod_multiples_vanish(y0 + i, x0 + j, 64);
        vstd::arithmetic::div_mod::lemma_small_mod((x0 + j) as nat, 64);
    }
    assert((64 * y0 + x0) % 2048 == 64 * y0 + x0) by {
        vstd::arithmetic::div_mod::lemma_small_mod((64 * y0 + x0) as nat, 2048);
    }
    assert((64 * y0 + x0) % 64 == x0 && (64 * y0 + x0) / 64 == y0) by {
        vstd::arithmetic::div_mod::lemma_fundamental_div_mod(64 * y0 + x0, 64);
        vstd::arithmetic::div_mod::lemma_mod_multiples_vanish(y0, x0, 64);
        vstd::arithmetic::div_mod::lemma_small_mod(x0 as nat, 64);
    }
    lemma_row_bit_mask(s.memory[s.index + i], j as u8);
}

/// DXYN sets VF to 1 exactly when it turns some lit pixel dark, and leaves VF
/// as it was otherwise; it asks for a redraw, and the other registers, memory,
/// I and the rest of the processor stay as they were.
pub proof fn lemma_draw_reports_collision(s: CpuState, random: u8, delay: u8)
    requires
        well_formed(s),
        valid_pc(s),
        first_byte(s) / 16 == 0xD,
        s.index + second_byte(s) % 16 <= 4096,
    ensures
        ({
            let t = after(s, random, delay);
            let dark = exists|p: int| 0 <= p < 2048 && s.screen[p] && !#[trigger] t.screen[p];
            &&& step(s, random, delay) is Ok
            &&& t.screen.len() == 2048
            &&& t.registers == s.registers.update(15, if dark { 1u8 } else { s.registers[15] })
            &&& t == (CpuState {
                screen: t.screen,
                registers: t.registers,
                draw: true,
                pc: (s.pc + 2) as usize,
                ..s
            })
        }),
{
    let t = after(s, random, delay);
    let dark = exists|p: int| 0 <= p < 2048 && s.screen[p] && !#[trigger] t.screen[p];
    if super::operations::sprite_collides(s) {
        let p = choose|p: int| 0 <= p < 2048 && s.screen[p] && #[trigger] super::operations::sprite_covers(s, p);
        assert(s.screen[p] && !t.screen[p]);
        assert(dark);
    }
    if dark {
        let p = choose|p: int| 0 <= p < 2048 && s.screen[p] && !#[trigger] t.screen[p];
        assert(super::operations::sprite_covers(s, p));
    }
    assert(s.registers.update(15, s.registers[15]) =~= s.registers);
}

} // verus!
