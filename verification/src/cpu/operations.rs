//! The instruction set: what each opcode does to the processor, stated over
//! `CpuState`, and the code that carries it out.
use vstd::prelude::*;
use super::{CPU, CpuError, CpuState, TimerCommand};

verus! {

/// What an instruction makes of a state: the next state and what it asks of
/// the timers, or the error that stops it (the state is then unchanged).
pub type Outcome = Result<(CpuState, TimerCommand), CpuError>;

// ---------------------------------------------------------------------------
// Fields of the instruction at the program counter
// ---------------------------------------------------------------------------

/// The program counter points at a whole instruction inside memory, at an
/// even address unless odd ones are allowed.
pub open spec fn valid_pc(s: CpuState) -> bool {
    s.pc < 0xFFF && (s.pc % 2 == 0 || s.odd_addresses)
}

pub open spec fn high_byte(s: CpuState) -> u8 {
    s.memory[s.pc as int]
}

pub open spec fn low_byte(s: CpuState) -> u8 {
    s.memory[s.pc as int + 1]
}

/// The two bytes at the program counter, big-endian.
pub open spec fn opcode(s: CpuState) -> u16 {
    (high_byte(s) as int * 256 + low_byte(s) as int) as u16
}

/// The first hexadecimal digit of the opcode, which selects the instruction.
pub open spec fn group(s: CpuState) -> int {
    high_byte(s) as int / 16
}

/// The X digit: second of the opcode.
pub open spec fn reg_x(s: CpuState) -> int {
    high_byte(s) as int % 16
}

/// The Y digit: third of the opcode.
pub open spec fn reg_y(s: CpuState) -> int {
    low_byte(s) as int / 16
}

/// The N digit: last of the opcode.
pub open spec fn nibble(s: CpuState) -> int {
    low_byte(s) as int % 16
}

/// The NNN address: last three digits of the opcode.
pub open spec fn address(s: CpuState) -> int {
    (high_byte(s) as int % 16) * 256 + low_byte(s) as int
}

pub open spec fn vx(s: CpuState) -> u8 {
    s.registers[reg_x(s)]
}

pub open spec fn vy(s: CpuState) -> u8 {
    s.registers[reg_y(s)]
}

// ---------------------------------------------------------------------------
// Building blocks of the semantics
// ---------------------------------------------------------------------------

/// Skips the next instruction when `cond` holds.
pub open spec fn skipped(s: CpuState, cond: bool) -> CpuState {
    if cond {
        CpuState { pc: (s.pc + 2) as usize, ..s }
    } else {
        s
    }
}

pub open spec fn with_vx(s: CpuState, v: u8) -> CpuState {
    CpuState { registers: s.registers.update(reg_x(s), v), ..s }
}

/// Sets VF, the flag register.
pub open spec fn with_flag(s: CpuState, v: u8) -> CpuState {
    CpuState { registers: s.registers.update(15, v), ..s }
}

pub open spec fn proceed(s: CpuState) -> Outcome {
    Ok((s, TimerCommand::Unchanged))
}

pub open spec fn unknown(s: CpuState) -> Outcome {
    Err(CpuError::UnknownOpcode(opcode(s)))
}

/// An outcome describes what a call did: the result and the state after it.
pub open spec fn outcome_holds(
    before: CpuState,
    after: CpuState,
    r: Result<TimerCommand, CpuError>,
    o: Outcome,
) -> bool {
    match o {
        Ok((t, cmd)) => r == Ok::<TimerCommand, CpuError>(cmd) && after == t,
        Err(e) => r == Err::<TimerCommand, CpuError>(e) && after == before,
    }
}

// ---------------------------------------------------------------------------
// The instructions
// ---------------------------------------------------------------------------

/// 00E0 clears the screen, 00EE returns from a subroutine, other 0NNN do nothing.
pub open spec fn op_screen_result(s: CpuState) -> Outcome {
    if opcode(s) == 0x00E0 {
        proceed(CpuState { screen: Seq::new(2048, |p: int| false), draw: true, ..s })
    } else if opcode(s) == 0x00EE {
        if s.stack.len() == 0 {
            Err(CpuError::StackUnderflowError)
        } else {
            proceed(CpuState { pc: s.stack.last() as usize, stack: s.stack.drop_last(), ..s })
        }
    } else {
        proceed(s)
    }
}

/// 1NNN jumps to NNN.
pub open spec fn jmp_addr_result(s: CpuState) -> Outcome {
    proceed(CpuState { pc: address(s) as usize, ..s })
}

/// 2NNN pushes the program counter and jumps to NNN.
pub open spec fn call_result(s: CpuState) -> Outcome {
    if s.stack.len() >= 12 {
        Err(CpuError::StackOverflowError)
    } else {
        proceed(CpuState { stack: s.stack.push(s.pc as u16), pc: address(s) as usize, ..s })
    }
}

/// 3XNN skips when VX equals NN.
pub open spec fn jmp_if_eq_result(s: CpuState) -> Outcome {
    proceed(skipped(s, vx(s) == low_byte(s)))
}

/// 4XNN skips when VX differs from NN.
pub open spec fn jmp_if_neq_result(s: CpuState) -> Outcome {
    proceed(skipped(s, vx(s) != low_byte(s)))
}

/// 5XY0 skips when VX equals VY; the dispatch sends 9XY0 here too.
pub open spec fn jmp_if_reg_eq_result(s: CpuState) -> Outcome {
    if nibble(s) != 0 {
        unknown(s)
    } else {
        proceed(skipped(s, vx(s) == vy(s)))
    }
}

/// 6XNN sets VX to NN.
pub open spec fn set_reg_result(s: CpuState) -> Outcome {
    proceed(with_vx(s, low_byte(s)))
}

/// 7XNN adds NN to VX, wrapping, and leaves VF alone.
pub open spec fn add_reg_result(s: CpuState) -> Outcome {
    proceed(with_vx(s, ((vx(s) + low_byte(s)) % 256) as u8))
}

/// The arithmetic of 8XY? on VX = `a` and VY = `b`: the new VX and, where the
/// operation writes it, the new VF; `None` for an unknown operation.
pub open spec fn reg_arith_result(a: u8, b: u8, n: int, legacy: bool) -> Option<(u8, Option<u8>)> {
    if n == 0x0 {
        Some((b, None))
    } else if n == 0x1 {
        Some((a | b, None))
    } else if n == 0x2 {
        Some((a & b, None))
    } else if n == 0x3 {
        Some((a ^ b, None))
    } else if n == 0x4 {
        Some((((a + b) % 256) as u8, Some(if a + b > 255 { 1u8 } else { 0u8 })))
    } else if n == 0x5 {
        Some((((a - b + 256) % 256) as u8, Some(if a >= b { 1u8 } else { 0u8 })))
    } else if n == 0x6 {
        let src = if legacy { b } else { a };
        Some((src / 2, Some(src % 2)))
    } else if n == 0x7 {
        Some((((b - a + 256) % 256) as u8, Some(if b >= a { 1u8 } else { 0u8 })))
    } else if n == 0xE {
        let src = if legacy { b } else { a };
        Some((((src * 2) % 256) as u8, Some(src / 128)))
    } else {
        None
    }
}

/// 8XY? register arithmetic; where VF is written it is written last.
pub open spec fn reg_op_result(s: CpuState) -> Outcome {
    match reg_arith_result(vx(s), vy(s), nibble(s), s.legacy_mode) {
        None => unknown(s),
        Some((v, None)) => proceed(with_vx(s, v)),
        Some((v, Some(f))) => proceed(with_flag(with_vx(s, v), f)),
    }
}

/// The register inequality test: skips when VX differs from VY.
pub open spec fn jmp_if_reg_neq_result(s: CpuState) -> Outcome {
    if nibble(s) != 0 {
        unknown(s)
    } else {
        proceed(skipped(s, vx(s) != vy(s)))
    }
}

/// ANNN sets I to NNN.
pub open spec fn set_i_to_addr_result(s: CpuState) -> Outcome {
    proceed(CpuState { index: address(s) as u16, ..s })
}

/// BNNN jumps to V0 + NNN.
pub open spec fn jmp_plus_result(s: CpuState) -> Outcome {
    proceed(CpuState { pc: (s.registers[0] + address(s)) as usize, ..s })
}

/// CXNN sets VX to a random byte masked with NN.
pub open spec fn rand_and_result(s: CpuState, random: u8) -> Outcome {
    proceed(with_vx(s, random & low_byte(s)))
}

/// Where the top left pixel of the sprite lands, counting pixels row by row
/// (an X or Y beyond the screen runs on into the following rows).
pub open spec fn sprite_origin(s: CpuState) -> int {
    (64 * vy(s) as int + vx(s) as int) % 2048
}

/// The column of the sprite's top left pixel.
pub open spec fn origin_x(s: CpuState) -> int {
    sprite_origin(s) % 64
}

/// The row of the sprite's top left pixel.
pub open spec fn origin_y(s: CpuState) -> int {
    sprite_origin(s) / 64
}

/// How many columns right of the sprite's origin pixel `p` lies, around the screen.
pub open spec fn sprite_dx(s: CpuState, p: int) -> int {
    (p % 64 - origin_x(s) + 64) % 64
}

/// How many rows below the sprite's origin pixel `p` lies, around the screen.
pub open spec fn sprite_dy(s: CpuState, p: int) -> int {
    (p / 64 - origin_y(s) + 32) % 32
}

/// Bit `col` of a sprite row, counted from the left (most significant) end.
pub open spec fn sprite_row_bit(row: u8, col: u8) -> bool {
    (row >> ((7 - col) as u8)) & 1 == 1
}

/// The sprite at I, N rows of 8 pixels, sets pixel `p`. Without wrapping,
/// the parts of the sprite beyond the right or bottom edge are clipped; with
/// wrapping they come back on the other side.
pub open spec fn sprite_covers(s: CpuState, p: int) -> bool {
    let dx = sprite_dx(s, p);
    let dy = sprite_dy(s, p);
    &&& dy < nibble(s)
    &&& dx < 8
    &&& s.wrapping || (origin_x(s) + dx < 64 && origin_y(s) + dy < 32)
    &&& sprite_row_bit(s.memory[s.index as int + dy], dx as u8)
}

/// The sprite sets a pixel that is already lit.
pub open spec fn sprite_collides(s: CpuState) -> bool {
    exists|p: int| 0 <= p < 2048 && s.screen[p] && #[trigger] sprite_covers(s, p)
}

/// DXYN xors the sprite onto the screen at (VX, VY), and sets VF
/// to 1 where it turns a lit pixel off (VF is left alone otherwise).
pub open spec fn draw_sprite_result(s: CpuState) -> Outcome {
    proceed(
        CpuState {
            screen: Seq::new(2048, |p: int| s.screen[p] != sprite_covers(s, p)),
            registers: if sprite_collides(s) {
                s.registers.update(15, 1)
            } else {
                s.registers
            },
            draw: true,
            ..s
        },
    )
}

/// EX9E skips when key VX is down, EXA1 when it is up.
pub open spec fn e_key_op_result(s: CpuState) -> Outcome {
    if low_byte(s) == 0x9E {
        proceed(skipped(s, s.keypad[vx(s) as int]))
    } else if low_byte(s) == 0xA1 {
        proceed(skipped(s, !s.keypad[vx(s) as int]))
    } else {
        unknown(s)
    }
}

/// Memory after V0 to V`x` are stored from address `index` on.
pub open spec fn dump_registers(memory: Seq<u8>, registers: Seq<u8>, index: int, x: int) -> Seq<u8> {
    Seq::new(
        memory.len(),
        |a: int|
            if index <= a <= index + x {
                registers[a - index]
            } else {
                memory[a]
            },
    )
}

/// Registers after V0 to V`x` are loaded from address `index` on.
pub open spec fn load_registers(memory: Seq<u8>, registers: Seq<u8>, index: int, x: int) -> Seq<u8> {
    Seq::new(
        registers.len(),
        |r: int|
            if r <= x {
                memory[index + r]
            } else {
                registers[r]
            },
    )
}

/// Memory after FX55 stores V0 to VX from I on.
pub open spec fn dumped_memory(s: CpuState) -> Seq<u8> {
    dump_registers(s.memory, s.registers, s.index as int, reg_x(s))
}

/// Registers after FX65 loads V0 to VX from I on.
pub open spec fn loaded_registers(s: CpuState) -> Seq<u8> {
    load_registers(s.memory, s.registers, s.index as int, reg_x(s))
}

/// FX??: timers, key waiting, I arithmetic, decimal digits, register dumps.
/// `delay` is what the delay timer reads now.
pub open spec fn f_op_result(s: CpuState, delay: u8) -> Outcome {
    let lo = low_byte(s);
    let v = vx(s);
    if lo == 0x07 {
        proceed(with_vx(s, delay))
    } else if lo == 0x0A {
        proceed(CpuState { waiting_key: Some(reg_x(s) as u8), ..s })
    } else if lo == 0x15 {
        Ok((s, TimerCommand::SetDelay(v)))
    } else if lo == 0x18 {
        Ok((s, TimerCommand::SetSound(v)))
    } else if lo == 0x1E {
        proceed(CpuState { index: (s.index + v) as u16, ..s })
    } else if lo == 0x29 {
        proceed(CpuState { index: ((v % 16) * 5) as u16, ..s })
    } else if lo == 0x33 {
        proceed(
            CpuState {
                memory: s.memory.update(s.index as int, v / 100).update(
                    s.index + 1,
                    (v / 10) % 10,
                ).update(s.index + 2, v % 10),
                ..s
            },
        )
    } else if lo == 0x55 {
        proceed(CpuState { memory: dumped_memory(s), ..s })
    } else if lo == 0x65 {
        proceed(CpuState { registers: loaded_registers(s), ..s })
    } else {
        unknown(s)
    }
}

/// The instruction at the program counter, before the program counter moves on.
pub open spec fn execute_result(s: CpuState, random: u8, delay: u8) -> Outcome {
    let g = group(s);
    if g == 0x0 {
        op_screen_result(s)
    } else if g == 0x1 {
        jmp_addr_result(s)
    } else if g == 0x2 {
        call_result(s)
    } else if g == 0x3 {
        jmp_if_eq_result(s)
    } else if g == 0x4 {
        jmp_if_neq_result(s)
    } else if g == 0x5 {
        jmp_if_reg_eq_result(s)
    } else if g == 0x6 {
        set_reg_result(s)
    } else if g == 0x7 {
        add_reg_result(s)
    } else if g == 0x8 {
        reg_op_result(s)
    } else if g == 0x9 {
        jmp_if_reg_eq_result(s)
    } else if g == 0xA {
        set_i_to_addr_result(s)
    } else if g == 0xB {
        jmp_plus_result(s)
    } else if g == 0xC {
        rand_and_result(s, random)
    } else if g == 0xD {
        draw_sprite_result(s)
    } else if g == 0xE {
        e_key_op_result(s)
    } else {
        f_op_result(s, delay)
    }
}

/// The instructions that set the program counter themselves: 1NNN, 2NNN, BNNN.
pub open spec fn is_jump(s: CpuState) -> bool {
    group(s) == 0x1 || group(s) == 0x2 || group(s) == 0xB
}

/// One instruction: check the program counter, run the instruction and move
/// on to the next one unless it jumped.
pub open spec fn step(s: CpuState, random: u8, delay: u8) -> Outcome {
    if s.pc >= 0xFFF {
        Err(CpuError::ProgramCounterOutOfBounds { pc: s.pc, max_memory: 4096 })
    } else if s.pc % 2 != 0 && !s.odd_addresses {
        Err(CpuError::ProgramCounterInvalidLocation(s.pc))
    } else {
        match execute_result(s, random, delay) {
            Ok((t, cmd)) => Ok(
                (
                    if is_jump(s) {
                        t
                    } else {
                        CpuState { pc: (t.pc + 2) as usize, ..t }
                    },
                    cmd,
                ),
            ),
            Err(e) => Err(e),
        }
    }
}

/// The instruction at the program counter would reach outside memory or the
/// keypad, or overflow I: such an instruction has no defined effect.
pub open spec fn instruction_faults(s: CpuState) -> bool {
    let lo = low_byte(s);
    &&& valid_pc(s)
    &&& {
        ||| group(s) == 0xD && nibble(s) > 0 && s.index + nibble(s) - 1 >= 4096
        ||| group(s) == 0xE && (lo == 0x9E || lo == 0xA1) && vx(s) >= 16
        ||| group(s) == 0xF && lo == 0x1E && s.index + vx(s) > 0xFFFF
        ||| group(s) == 0xF && lo == 0x33 && s.index + 2 >= 4096
        ||| group(s) == 0xF && (lo == 0x55 || lo == 0x65) && s.index + reg_x(s) >= 4096
    }
}

// ---------------------------------------------------------------------------
// Bit-level facts
// ---------------------------------------------------------------------------

proof fn lemma_nibbles(b: u8)
    ensures
        b & 0x0F == b % 16,
        b >> 4 == b / 16,
        (b & 0xF0) >> 4 == b / 16,
{
    assert(b & 0x0F == b % 16) by (bit_vector);
    assert(b >> 4 == b / 16) by (bit_vector);
    assert((b & 0xF0) >> 4 == b / 16) by (bit_vector);
}

proof fn lemma_address_mask(hi: u8, lo: u8)
    ensures
        (((hi as u16) << 8) | (lo as u16)) & 0x0FFF == (hi % 16) as u16 * 256 + lo as u16,
        ((hi as u16) << 8) | (lo as u16) == hi as u16 * 256 + lo as u16,
{
    assert((((hi as u16) << 8) | (lo as u16)) & 0x0FFF == (hi % 16) as u16 * 256 + lo as u16)
        by (bit_vector);
    assert(((hi as u16) << 8) | (lo as u16) == hi as u16 * 256 + lo as u16) by (bit_vector);
}

proof fn lemma_opcode_mask(hi: u8, lo: u8, op: u16)
    requires
        op == hi as int * 256 + lo as int,
    ensures
        op & 0x0FFF == (hi % 16) as int * 256 + lo as int,
{
    assert(op & 0x0FFF == (hi % 16) as u16 * 256 + lo as u16) by (bit_vector)
        requires
            op == hi as u16 * 256 + lo as u16,
    ;
}

proof fn lemma_shifts(b: u8)
    ensures
        b >> 1 == b / 2,
        b & 1 == b % 2,
        (b & 0x80) >> 7 == b / 128,
        b << 1 == (b * 2) % 256,
{
    assert(b >> 1 == b / 2) by (bit_vector);
    assert(b & 1 == b % 2) by (bit_vector);
    assert((b & 0x80) >> 7 == b / 128) by (bit_vector);
    assert(b << 1 == (b * 2) % 256) by (bit_vector);
}

proof fn lemma_sprite_bit(b: u8, j: u8)
    requires
        j < 8,
    ensures
        (((b << j) & 0x80) >> 7 == 1) == sprite_row_bit(b, j),
{
    assert((((b << j) & 0x80) >> 7 == 1) == ((b >> ((7 - j) as u8)) & 1 == 1)) by (bit_vector)
        requires
            j < 8,
    ;
}

/// Combines the two bytes of an instruction into its opcode, big-endian.
pub fn decode_op(m1: u8, m2: u8) -> (r: u16)
    ensures
        r == m1 as int * 256 + m2 as int,
{
    proof {
        lemma_address_mask(m1, m2);
    }
    let mut ret: u16 = (m1 as u16) << 8;
    ret = ret | m2 as u16;
    ret
}

} // verus!

verus! {

// ---------------------------------------------------------------------------
// Carrying out the instructions
// ---------------------------------------------------------------------------

/// The high byte, the low byte and the opcode at the program counter.
fn fetch(c: &CPU) -> (r: (u8, u8, u16))
    requires
        valid_pc(c@),
    ensures
        r.0 == high_byte(c@),
        r.1 == low_byte(c@),
        r.2 == opcode(c@),
        r.2 == r.0 as int * 256 + r.1 as int,
{
    let hi = c.memory[c.pc];
    let lo = c.memory[c.pc + 1];
    (hi, lo, decode_op(hi, lo))
}

/// 00E0.
fn clear(c: &mut CPU)
    ensures
        final(c)@ == (CpuState { screen: Seq::new(2048, |p: int| false), draw: true, ..old(c)@ }),
{
    c.gfx = [false; 2048];
    c.draw = true;
    assert(c.gfx@ =~= Seq::new(2048, |p: int| false));
}

/// 00EE.
fn op_return(c: &mut CPU) -> (r: Result<(), CpuError>)
    ensures
        old(c)@.stack.len() == 0 ==> r == Err::<(), CpuError>(CpuError::StackUnderflowError)
            && final(c)@ == old(c)@,
        old(c)@.stack.len() > 0 ==> r == Ok::<(), CpuError>(()) && final(c)@ == (CpuState {
            pc: old(c)@.stack.last() as usize,
            stack: old(c)@.stack.drop_last(),
            ..old(c)@
        }),
{
    match c.stack.pop() {
        Ok(top) => {
            c.pc = top as usize;
            Ok(())
        },
        Err(e) => Err(e),
    }
}

/// 0???
fn op_screen(c: &mut CPU) -> (r: Result<TimerCommand, CpuError>)
    requires
        valid_pc(old(c)@),
    ensures
        outcome_holds(old(c)@, final(c)@, r, op_screen_result(old(c)@)),
{
    let (_, _, full_op) = fetch(c);
    if full_op == 0x00E0 {
        clear(c);
    } else if full_op == 0x00EE {
        match op_return(c) {
            Ok(()) => {},
            Err(e) => return Err(e),
        }
    }
    Ok(TimerCommand::Unchanged)
}

/// 1NNN
fn jmp_addr(c: &mut CPU) -> (r: Result<TimerCommand, CpuError>)
    requires
        valid_pc(old(c)@),
    ensures
        outcome_holds(old(c)@, final(c)@, r, jmp_addr_result(old(c)@)),
{
    let (hi, lo, op) = fetch(c);
    proof {
        lemma_opcode_mask(hi, lo, op);
    }
    let location = op & 0x0FFF;
    c.pc = location as usize;
    Ok(TimerCommand::Unchanged)
}

/// 2NNN
fn call(c: &mut CPU) -> (r: Result<TimerCommand, CpuError>)
    requires
        valid_pc(old(c)@),
    ensures
        outcome_holds(old(c)@, final(c)@, r, call_result(old(c)@)),
{
    let (hi, lo, op) = fetch(c);
    proof {
        lemma_opcode_mask(hi, lo, op);
    }
    let location = op & 0x0FFF;
    match c.stack.push(c.pc as u16) {
        Ok(()) => {},
        Err(e) => return Err(e),
    }
    c.pc = location as usize;
    Ok(TimerCommand::Unchanged)
}

/// 3XNN
fn jmp_if_eq(c: &mut CPU) -> (r: Result<TimerCommand, CpuError>)
    requires
        valid_pc(old(c)@),
    ensures
        outcome_holds(old(c)@, final(c)@, r, jmp_if_eq_result(old(c)@)),
{
    let (hi, lo, _) = fetch(c);
    proof {
        lemma_nibbles(hi);
    }
    let regnum = hi & 0x0F;
    if c.registers[regnum as usize] == lo {
        c.pc = c.pc + 2;
    }
    Ok(TimerCommand::Unchanged)
}

/// 4XNN
fn jmp_if_neq(c: &mut CPU) -> (r: Result<TimerCommand, CpuError>)
    requires
        valid_pc(old(c)@),
    ensures
        outcome_holds(old(c)@, final(c)@, r, jmp_if_neq_result(old(c)@)),
{
    let (hi, lo, _) = fetch(c);
    proof {
        lemma_nibbles(hi);
    }
    let regnum = hi & 0x0F;
    if c.registers[regnum as usize] != lo {
        c.pc = c.pc + 2;
    }
    Ok(TimerCommand::Unchanged)
}

/// 5XY0 and 9XY0
fn jmp_if_reg_eq(c: &mut CPU) -> (r: Result<TimerCommand, CpuError>)
    requires
        valid_pc(old(c)@),
    ensures
        outcome_holds(old(c)@, final(c)@, r, jmp_if_reg_eq_result(old(c)@)),
{
    let (hi, lo, op) = fetch(c);
    proof {
        lemma_nibbles(hi);
        lemma_nibbles(lo);
    }
    if lo & 0x0F != 0 {
        return Err(CpuError::UnknownOpcode(op));
    }
    let regnum1 = hi & 0x0F;
    let regnum2 = lo >> 4;
    if c.registers[regnum1 as usize] == c.registers[regnum2 as usize] {
        c.pc = c.pc + 2;
    }
    Ok(TimerCommand::Unchanged)
}

/// 6XNN
fn set_reg(c: &mut CPU) -> (r: Result<TimerCommand, CpuError>)
    requires
        valid_pc(old(c)@),
    ensures
        outcome_holds(old(c)@, final(c)@, r, set_reg_result(old(c)@)),
{
    let (hi, lo, _) = fetch(c);
    proof {
        lemma_nibbles(hi);
    }
    let regnum = hi & 0x0F;
    c.registers[regnum as usize] = lo;
    Ok(TimerCommand::Unchanged)
}

/// 7XNN
fn add_reg(c: &mut CPU) -> (r: Result<TimerCommand, CpuError>)
    requires
        valid_pc(old(c)@),
    ensures
        outcome_holds(old(c)@, final(c)@, r, add_reg_result(old(c)@)),
{
    let (hi, lo, _) = fetch(c);
    proof {
        lemma_nibbles(hi);
    }
    let regnum = hi & 0x0F;
    c.registers[regnum as usize] = c.registers[regnum as usize].wrapping_add(lo);
    Ok(TimerCommand::Unchanged)
}

/// The arithmetic of 8XY? on VX = `a` and VY = `b`.
fn reg_arith(a: u8, b: u8, n: u8, legacy: bool) -> (r: Option<(u8, Option<u8>)>)
    ensures
        r == reg_arith_result(a, b, n as int, legacy),
{
    proof {
        lemma_shifts(a);
        lemma_shifts(b);
    }
    if n == 0x0 {
        Some((b, None))
    } else if n == 0x1 {
        Some((a | b, None))
    } else if n == 0x2 {
        Some((a & b, None))
    } else if n == 0x3 {
        Some((a ^ b, None))
    } else if n == 0x4 {
        let res = a.wrapping_add(b);
        let overflow = res < a;
        Some((res, Some(if overflow { 1 } else { 0 })))
    } else if n == 0x5 {
        let res = a.wrapping_sub(b);
        let overflow = a < b;
        Some((res, Some(if overflow { 0 } else { 1 })))
    } else if n == 0x6 {
        let src = if legacy { b } else { a };
        Some((src >> 1, Some(src & 1)))
    } else if n == 0x7 {
        let res = b.wrapping_sub(a);
        let overflow = b < a;
        Some((res, Some(if overflow { 0 } else { 1 })))
    } else if n == 0xE {
        let src = if legacy { b } else { a };
        Some((src << 1, Some((src & 0x80) >> 7)))
    } else {
        None
    }
}

/// 8XY?
fn reg_op(c: &mut CPU) -> (r: Result<TimerCommand, CpuError>)
    requires
        valid_pc(old(c)@),
    ensures
        outcome_holds(old(c)@, final(c)@, r, reg_op_result(old(c)@)),
{
    let (hi, lo, op) = fetch(c);
    proof {
        lemma_nibbles(hi);
        lemma_nibbles(lo);
    }
    let x = (hi & 0x0F) as usize;
    let y = (lo >> 4) as usize;
    match reg_arith(c.registers[x], c.registers[y], lo & 0x0F, c.legacy_mode) {
        None => Err(CpuError::UnknownOpcode(op)),
        Some((v, flag)) => {
            c.registers[x] = v;
            if let Some(f) = flag {
                c.registers[0xF] = f;
            }
            Ok(TimerCommand::Unchanged)
        },
    }
}

/// Register inequality test, kept beside the equality test that the
/// dispatch table uses for 9XY0.
#[allow(dead_code)]
fn jmp_if_reg_neq(c: &mut CPU) -> (r: Result<TimerCommand, CpuError>)
    requires
        valid_pc(old(c)@),
    ensures
        outcome_holds(old(c)@, final(c)@, r, jmp_if_reg_neq_result(old(c)@)),
{
    let (hi, lo, op) = fetch(c);
    proof {
        lemma_nibbles(hi);
        lemma_nibbles(lo);
    }
    if lo & 0x0F != 0 {
        return Err(CpuError::UnknownOpcode(op));
    }
    let regnum1 = hi & 0x0F;
    let regnum2 = lo >> 4;
    if c.registers[regnum1 as usize] != c.registers[regnum2 as usize] {
        c.pc = c.pc + 2;
    }
    Ok(TimerCommand::Unchanged)
}

/// ANNN
fn set_i_to_addr(c: &mut CPU) -> (r: Result<TimerCommand, CpuError>)
    requires
        valid_pc(old(c)@),
    ensures
        outcome_holds(old(c)@, final(c)@, r, set_i_to_addr_result(old(c)@)),
{
    let (hi, lo, op) = fetch(c);
    proof {
        lemma_opcode_mask(hi, lo, op);
    }
    c.index = op & 0x0FFF;
    Ok(TimerCommand::Unchanged)
}

/// BNNN
fn jmp_plus(c: &mut CPU) -> (r: Result<TimerCommand, CpuError>)
    requires
        valid_pc(old(c)@),
    ensures
        outcome_holds(old(c)@, final(c)@, r, jmp_plus_result(old(c)@)),
{
    let (hi, lo, op) = fetch(c);
    proof {
        lemma_opcode_mask(hi, lo, op);
    }
    c.pc = (c.registers[0] as usize) + (op & 0x0FFF) as usize;
    Ok(TimerCommand::Unchanged)
}

/// CXNN, with the random byte given.
fn rand_and(c: &mut CPU, randint: u8) -> (r: Result<TimerCommand, CpuError>)
    requires
        valid_pc(old(c)@),
    ensures
        outcome_holds(old(c)@, final(c)@, r, rand_and_result(old(c)@, randint)),
{
    let (hi, lo, _) = fetch(c);
    proof {
        lemma_nibbles(hi);
    }
    let regnum = hi & 0x0F;
    c.registers[regnum as usize] = randint & lo;
    Ok(TimerCommand::Unchanged)
}

/// EX??
fn e_key_op(c: &mut CPU) -> (r: Result<TimerCommand, CpuError>)
    requires
        valid_pc(old(c)@),
        group(old(c)@) == 0xE,
        !instruction_faults(old(c)@),
    ensures
        outcome_holds(old(c)@, final(c)@, r, e_key_op_result(old(c)@)),
{
    let (hi, lo, op) = fetch(c);
    proof {
        lemma_nibbles(hi);
    }
    let regnum = hi & 0x0F;
    let keynum = c.registers[regnum as usize];
    let skip;
    if lo == 0x9E {
        skip = c.keypad[keynum as usize];
    } else if lo == 0xA1 {
        skip = !c.keypad[keynum as usize];
    } else {
        return Err(CpuError::UnknownOpcode(op));
    }
    if skip {
        c.pc = c.pc + 2;
    }
    Ok(TimerCommand::Unchanged)
}

} // verus!

verus! {

/// FX07
fn get_delay(c: &mut CPU, regnum: u8, delay: u8)
    requires
        regnum < 16,
    ensures
        final(c)@ == (CpuState {
            registers: old(c)@.registers.update(regnum as int, delay),
            ..old(c)@
        }),
{
    c.registers[regnum as usize] = delay;
}

/// FX0A
fn wait_for_key(c: &mut CPU, regnum: u8)
    requires
        regnum < 16,
    ensures
        final(c)@ == (CpuState { waiting_key: Some(regnum), ..old(c)@ }),
{
    c.blocking = Some(super::KeyWait { register: regnum });
}

/// FX15
fn delay_timer(c: &CPU, regnum: u8) -> (t: TimerCommand)
    requires
        regnum < 16,
    ensures
        t == TimerCommand::SetDelay(c@.registers[regnum as int]),
{
    TimerCommand::SetDelay(c.registers[regnum as usize])
}

/// FX18
fn sound_timer(c: &CPU, regnum: u8) -> (t: TimerCommand)
    requires
        regnum < 16,
    ensures
        t == TimerCommand::SetSound(c@.registers[regnum as int]),
{
    TimerCommand::SetSound(c.registers[regnum as usize])
}

/// FX1E
fn add_vx_i(c: &mut CPU, regnum: u8)
    requires
        regnum < 16,
        old(c)@.index + old(c)@.registers[regnum as int] <= 0xFFFF,
    ensures
        final(c)@ == (CpuState {
            index: (old(c)@.index + old(c)@.registers[regnum as int]) as u16,
            ..old(c)@
        }),
{
    c.index = c.index + c.registers[regnum as usize] as u16;
}

/// FX29
fn get_sprite_addr(c: &mut CPU, regnum: u8)
    requires
        regnum < 16,
    ensures
        final(c)@ == (CpuState {
            index: ((old(c)@.registers[regnum as int] % 16) * 5) as u16,
            ..old(c)@
        }),
{
    let v = c.registers[regnum as usize];
    proof {
        lemma_nibbles(v);
    }
    c.index = ((v & 0x0F) * 5) as u16;
}

/// FX33
fn set_bcd(c: &mut CPU, regnum: u8)
    requires
        regnum < 16,
        old(c)@.index + 2 < 4096,
    ensures
        ({
            let s = old(c)@;
            let v = s.registers[regnum as int];
            final(c)@ == (CpuState {
                memory: s.memory.update(s.index as int, v / 100).update(s.index + 1, (v / 10) % 10).update(
                    s.index + 2,
                    v % 10,
                ),
                ..s
            })
        }),
{
    let ghost s = c@;
    let mut temp = c.registers[regnum as usize];
    let ghost v = temp;
    let i = c.index as usize;
    c.memory[i + 2] = temp % 10;
    temp = temp / 10;
    c.memory[i + 1] = temp % 10;
    temp = temp / 10;
    assert(temp % 10 == v / 100);
    c.memory[i] = temp % 10;
    assert(c.memory@ =~= s.memory.update(s.index as int, v / 100).update(s.index + 1, (v / 10) % 10).update(
        s.index + 2,
        v % 10,
    ));
}

/// FX55: stores V0 to V`regnum` in memory from I on; registers, I and the
/// rest of memory stay as they were.
pub fn reg_dump(c: &mut CPU, regnum: u8)
    requires
        regnum < 16,
        old(c)@.index + regnum < 4096,
    ensures
        final(c)@ == (CpuState {
            memory: dump_registers(old(c)@.memory, old(c)@.registers, old(c)@.index as int, regnum as int),
            ..old(c)@
        }),
{
    let ghost s = c@;
    let base = c.index as usize;
    let mut k: usize = 0;
    while k <= regnum as usize
        invariant
            k <= regnum as usize + 1,
            regnum < 16,
            base == s.index,
            base + regnum < 4096,
            c@ == (CpuState { memory: c.memory@, ..s }),
            forall|a: int|
                0 <= a < 4096 ==> #[trigger] c.memory@[a] == (if base <= a < base + k {
                    s.registers[a - base]
                } else {
                    s.memory[a]
                }),
        decreases regnum as usize + 1 - k,
    {
        c.memory[base + k] = c.registers[k];
        k = k + 1;
    }
    assert(c.memory@ =~= dump_registers(s.memory, s.registers, s.index as int, regnum as int));
}

/// FX65: loads V0 to V`regnum` from memory from I on; the registers above
/// V`regnum`, memory and I stay as they were.
pub fn reg_load(c: &mut CPU, regnum: u8)
    requires
        regnum < 16,
        old(c)@.index + regnum < 4096,
    ensures
        final(c)@ == (CpuState {
            registers: load_registers(old(c)@.memory, old(c)@.registers, old(c)@.index as int, regnum as int),
            ..old(c)@
        }),
{
    let ghost s = c@;
    let base = c.index as usize;
    let mut k: usize = 0;
    while k <= regnum as usize
        invariant
            k <= regnum as usize + 1,
            regnum < 16,
            base == s.index,
            base + regnum < 4096,
            c@ == (CpuState { registers: c.registers@, ..s }),
            forall|r: int|
                0 <= r < 16 ==> #[trigger] c.registers@[r] == (if r < k {
                    s.memory[base + r]
                } else {
                    s.registers[r]
                }),
        decreases regnum as usize + 1 - k,
    {
        c.registers[k] = c.memory[base + k];
        k = k + 1;
    }
    assert(c.registers@ =~= load_registers(s.memory, s.registers, s.index as int, regnum as int));
}

/// FX??, with what the delay timer reads now.
fn f_op(c: &mut CPU, delay: u8) -> (r: Result<TimerCommand, CpuError>)
    requires
        valid_pc(old(c)@),
        group(old(c)@) == 0xF,
        !instruction_faults(old(c)@),
    ensures
        outcome_holds(old(c)@, final(c)@, r, f_op_result(old(c)@, delay)),
{
    let (hi, lo, op) = fetch(c);
    proof {
        lemma_nibbles(hi);
    }
    let regnum = hi & 0x0F;
    let ghost s = c@;
    assert(s.registers.update(regnum as int, delay) == with_vx(s, delay).registers);
    if lo == 0x07 {
        get_delay(c, regnum, delay);
    } else if lo == 0x0A {
        wait_for_key(c, regnum);
    } else if lo == 0x15 {
        return Ok(delay_timer(c, regnum));
    } else if lo == 0x18 {
        return Ok(sound_timer(c, regnum));
    } else if lo == 0x1E {
        add_vx_i(c, regnum);
    } else if lo == 0x29 {
        get_sprite_addr(c, regnum);
    } else if lo == 0x33 {
        set_bcd(c, regnum);
    } else if lo == 0x55 {
        reg_dump(c, regnum);
    } else if lo == 0x65 {
        reg_load(c, regnum);
    } else {
        return Err(CpuError::UnknownOpcode(op));
    }
    Ok(TimerCommand::Unchanged)
}

} // verus!

verus! {

/// The sprite's pixel in row `dy`, column `dx` comes before row `i`, column `j`.
pub open spec fn drawn_before(s: CpuState, p: int, i: int, j: int) -> bool {
    sprite_dy(s, p) < i || (sprite_dy(s, p) == i && sprite_dx(s, p) < j)
}

/// Some lit pixel that the sprite sets, among those before row `i`, column `j`.
pub open spec fn collided_before(s: CpuState, i: int, j: int) -> bool {
    exists|p: int|
        0 <= p < 2048 && s.screen[p] && #[trigger] sprite_covers(s, p) && drawn_before(s, p, i, j)
}

proof fn lemma_wrap_offset(o: int, k: int, m: int)
    requires
        0 <= o < m,
        0 <= k < m,
    ensures
        0 <= (o + k) % m < m,
        ((o + k) % m - o + m) % m == k,
{
    if o + k < m {
        vstd::arithmetic::div_mod::lemma_small_mod((o + k) as nat, m as nat);
        vstd::arithmetic::div_mod::lemma_mod_add_multiples_vanish(k, m);
        vstd::arithmetic::div_mod::lemma_small_mod(k as nat, m as nat);
    } else {
        vstd::arithmetic::div_mod::lemma_mod_sub_multiples_vanish(o + k, m);
        vstd::arithmetic::div_mod::lemma_small_mod((o + k - m) as nat, m as nat);
        vstd::arithmetic::div_mod::lemma_small_mod(k as nat, m as nat);
    }
}

proof fn lemma_wrap_unique(o: int, a: int, b: int, m: int)
    requires
        0 <= o < m,
        0 <= a < m,
        0 <= b < m,
        (a - o + m) % m == (b - o + m) % m,
    ensures
        a == b,
{
    let da = a - o + m;
    let db = b - o + m;
    if da >= m {
        vstd::arithmetic::div_mod::lemma_mod_sub_multiples_vanish(da, m);
        vstd::arithmetic::div_mod::lemma_small_mod((da - m) as nat, m as nat);
    } else {
        vstd::arithmetic::div_mod::lemma_small_mod(da as nat, m as nat);
    }
    if db >= m {
        vstd::arithmetic::div_mod::lemma_mod_sub_multiples_vanish(db, m);
        vstd::arithmetic::div_mod::lemma_small_mod((db - m) as nat, m as nat);
    } else {
        vstd::arithmetic::div_mod::lemma_small_mod(db as nat, m as nat);
    }
}

proof fn lemma_row_col(a: int, b: int)
    requires
        0 <= a,
        0 <= b < 64,
    ensures
        (64 * a + b) / 64 == a,
        (64 * a + b) % 64 == b,
{
    vstd::arithmetic::div_mod::lemma_fundamental_div_mod_converse(64 * a + b, 64, a, b);
}

proof fn lemma_split(p: int)
    requires
        0 <= p < 2048,
    ensures
        p == 64 * (p / 64) + p % 64,
        0 <= p / 64 < 32,
        0 <= p % 64 < 64,
{
    vstd::arithmetic::div_mod::lemma_fundamental_div_mod(p, 64);
}

/// Two pixels at the same place in the sprite are the same pixel.
proof fn lemma_sprite_place_unique(s: CpuState, p: int, q: int)
    requires
        0 <= p < 2048,
        0 <= q < 2048,
        0 <= origin_x(s) < 64,
        0 <= origin_y(s) < 32,
        sprite_dx(s, p) == sprite_dx(s, q),
        sprite_dy(s, p) == sprite_dy(s, q),
    ensures
        p == q,
{
    lemma_split(p);
    lemma_split(q);
    lemma_wrap_unique(origin_x(s), p % 64, q % 64, 64);
    lemma_wrap_unique(origin_y(s), p / 64, q / 64, 32);
}

/// DXYN
#[verifier::rlimit(80)]
fn draw_sprite(c: &mut CPU) -> (r: Result<TimerCommand, CpuError>)
    requires
        valid_pc(old(c)@),
        group(old(c)@) == 0xD,
        !instruction_faults(old(c)@),
    ensures
        outcome_holds(old(c)@, final(c)@, r, draw_sprite_result(old(c)@)),
{
    let ghost s = c@;
    let (hi, lo, _) = fetch(c);
    proof {
        lemma_nibbles(hi);
        lemma_nibbles(lo);
    }
    let regnum1 = hi & 0x0F;
    let regnum2 = (lo & 0xF0) >> 4;
    let n = lo & 0x0F;
    let start = ((64 * (c.registers[regnum2 as usize] as usize))
        + c.registers[regnum1 as usize] as usize) % 2048;
    let origin_col = start % 64;
    let origin_row = start / 64;
    proof {
        lemma_split(start as int);
    }
    let wrapping = c.wrapping;
    let ghost mut collided = false;
    let mut i: u8 = 0;
    while i < n
        invariant
            n as int == nibble(s),
            i <= n,
            n < 16,
            origin_col == origin_x(s),
            origin_row == origin_y(s),
            0 <= origin_col < 64,
            0 <= origin_row < 32,
            wrapping == s.wrapping,
            s.screen.len() == 2048,
            s.registers.len() == 16,
            c@ == (CpuState { screen: c.gfx@, registers: c.registers@, ..s }),
            forall|p: int|
                0 <= p < 2048 ==> #[trigger] c.gfx@[p] == (s.screen[p] != (sprite_covers(s, p)
                    && drawn_before(s, p, i as int, 0))),
            collided == collided_before(s, i as int, 0),
            c.registers@ == (if collided {
                s.registers.update(15, 1)
            } else {
                s.registers
            }),
            n > 0 ==> s.index + n - 1 < 4096,
        decreases n - i,
    {
        let bitmap: u8 = c.memory[(c.index + i as u16) as usize];
        let mut j: u8 = 0;
        while j < 8
            invariant
                n as int == nibble(s),
                i < n,
                n < 16,
                j <= 8,
                origin_col == origin_x(s),
                origin_row == origin_y(s),
                0 <= origin_col < 64,
                0 <= origin_row < 32,
                wrapping == s.wrapping,
                s.screen.len() == 2048,
                s.registers.len() == 16,
                bitmap == s.memory[s.index + i],
                c@ == (CpuState { screen: c.gfx@, registers: c.registers@, ..s }),
                forall|p: int|
                    0 <= p < 2048 ==> #[trigger] c.gfx@[p] == (s.screen[p] != (sprite_covers(s, p)
                        && drawn_before(s, p, i as int, j as int))),
                collided == collided_before(s, i as int, j as int),
                c.registers@ == (if collided {
                    s.registers.update(15, 1)
                } else {
                    s.registers
                }),
            decreases 8 - j,
        {
            proof {
                lemma_sprite_bit(bitmap, j);
            }
            let bit = ((bitmap << j) & 0b10000000) >> 7 == 1;
            let row = origin_row + i as usize;
            let col = origin_col + j as usize;
            if wrapping || (col < 64 && row < 32) {
                let location = (row % 32) * 64 + col % 64;
                proof {
                    lemma_wrap_offset(origin_col as int, j as int, 64);
                    lemma_wrap_offset(origin_row as int, i as int, 32);
                    lemma_row_col((row % 32) as int, (col % 64) as int);
                    if !wrapping {
                        assert(row % 32 == row);
                        assert(col % 64 == col);
                    }
                }
                let ghost loc = location as int;
                assert(sprite_dx(s, loc) == j);
                assert(sprite_dy(s, loc) == i);
                assert(sprite_covers(s, loc) == bit);
                let lit = c.gfx[location];
                assert(lit == s.screen[loc]);
                if bit && lit {
                    c.registers[0x0F] = 1;
                    assert(c.registers@ =~= s.registers.update(15, 1));
                }
                c.gfx[location] = lit ^ bit;
                proof {
                    assert forall|p: int|
                        0 <= p < 2048 && p != loc implies drawn_before(s, p, i as int, j + 1)
                        == drawn_before(s, p, i as int, j as int) by {
                        if sprite_dy(s, p) == i && sprite_dx(s, p) == j {
                            lemma_sprite_place_unique(s, p, loc);
                        }
                    }
                    if collided_before(s, i as int, j + 1) {
                        let p = choose|p: int|
                            0 <= p < 2048 && s.screen[p] && #[trigger] sprite_covers(s, p)
                                && drawn_before(s, p, i as int, j + 1);
                        if p != loc {
                            assert(collided_before(s, i as int, j as int));
                        }
                    }
                    if bit && lit {
                        assert(collided_before(s, i as int, j + 1));
                    }
                    if collided {
                        let p = choose|p: int|
                            0 <= p < 2048 && s.screen[p] && #[trigger] sprite_covers(s, p)
                                && drawn_before(s, p, i as int, j as int);
                        assert(collided_before(s, i as int, j + 1));
                    }
                    collided = collided || (bit && lit);
                }
            } else {
                proof {
                    assert forall|p: int|
                        0 <= p < 2048 && #[trigger] sprite_covers(s, p) implies drawn_before(s, p, i as int, j + 1)
                        == drawn_before(s, p, i as int, j as int) by {}
                    if collided_before(s, i as int, j + 1) {
                        let p = choose|p: int|
                            0 <= p < 2048 && s.screen[p] && #[trigger] sprite_covers(s, p)
                                && drawn_before(s, p, i as int, j + 1);
                        assert(collided_before(s, i as int, j as int));
                    }
                    if collided {
                        let p = choose|p: int|
                            0 <= p < 2048 && s.screen[p] && #[trigger] sprite_covers(s, p)
                                && drawn_before(s, p, i as int, j as int);
                        assert(collided_before(s, i as int, j + 1));
                    }
                }
            }
            j += 1;
        }
        proof {
            assert forall|p: int| 0 <= p < 2048 && #[trigger] sprite_covers(s, p) implies drawn_before(s, p, i as int, 8)
                == drawn_before(s, p, i + 1, 0) by {}
            if collided_before(s, i + 1, 0) {
                let p = choose|p: int|
                    0 <= p < 2048 && s.screen[p] && #[trigger] sprite_covers(s, p)
                        && drawn_before(s, p, i + 1, 0);
                assert(collided_before(s, i as int, 8));
            }
            if collided_before(s, i as int, 8) {
                let p = choose|p: int|
                    0 <= p < 2048 && s.screen[p] && #[trigger] sprite_covers(s, p)
                        && drawn_before(s, p, i as int, 8);
                assert(collided_before(s, i + 1, 0));
            }
        }
        i += 1;
    }
    proof {
        if sprite_collides(s) {
            let p = choose|p: int| 0 <= p < 2048 && s.screen[p] && #[trigger] sprite_covers(s, p);
            assert(collided_before(s, n as int, 0));
        }
        if collided {
            let p = choose|p: int|
                0 <= p < 2048 && s.screen[p] && #[trigger] sprite_covers(s, p)
                    && drawn_before(s, p, n as int, 0);
            assert(sprite_collides(s));
        }
        assert(c.gfx@ =~= Seq::new(2048, |p: int| s.screen[p] != sprite_covers(s, p)));
    }
    c.draw = true;
    Ok(TimerCommand::Unchanged)
}

} // verus!

verus! {

/// Runs the instruction at the program counter, with `random` as the byte
/// that CXNN draws and `delay` as what the delay timer reads now.
pub fn perform_op_with(c: &mut CPU, random: u8, delay: u8) -> (r: Result<TimerCommand, CpuError>)
    requires
        !instruction_faults(old(c)@),
    ensures
        outcome_holds(old(c)@, final(c)@, r, step(old(c)@, random, delay)),
{
    if c.pc >= 0x0FFF {
        return Err(CpuError::ProgramCounterOutOfBounds { pc: c.pc, max_memory: 4096 });
    }
    if c.pc % 2 != 0 && !c.odds {
        return Err(CpuError::ProgramCounterInvalidLocation(c.pc));
    }
    let first = c.memory[c.pc];
    proof {
        lemma_nibbles(first);
    }
    let leading_num = first >> 4;
    let result = if leading_num == 0x0 {
        op_screen(c)
    } else if leading_num == 0x1 {
        jmp_addr(c)
    } else if leading_num == 0x2 {
        call(c)
    } else if leading_num == 0x3 {
        jmp_if_eq(c)
    } else if leading_num == 0x4 {
        jmp_if_neq(c)
    } else if leading_num == 0x5 {
        jmp_if_reg_eq(c)
    } else if leading_num == 0x6 {
        set_reg(c)
    } else if leading_num == 0x7 {
        add_reg(c)
    } else if leading_num == 0x8 {
        reg_op(c)
    } else if leading_num == 0x9 {
        jmp_if_reg_eq(c)
    } else if leading_num == 0xA {
        set_i_to_addr(c)
    } else if leading_num == 0xB {
        jmp_plus(c)
    } else if leading_num == 0xC {
        rand_and(c, random)
    } else if leading_num == 0xD {
        draw_sprite(c)
    } else if leading_num == 0xE {
        e_key_op(c)
    } else {
        f_op(c, delay)
    };
    let cmd = match result {
        Ok(cmd) => cmd,
        Err(e) => return Err(e),
    };
    if leading_num != 0x1 && leading_num != 0x2 && leading_num != 0xB {
        c.pc = c.pc + 2;
    }
    Ok(cmd)
}

/// CXNN is the one instruction that draws a random byte.
pub open spec fn draws_random(s: CpuState) -> bool {
    valid_pc(s) && group(s) == 0xC
}

/// Calls `rand::random_range` on the inclusive range from `low` to `high`.
/// Trusted: the result lies in that range; which value comes is chance.
#[verifier::external_body]
fn random_in(low: u8, high: u8) -> (r: u8)
    requires
        low <= high,
    ensures
        low <= r <= high,
{
    rand::random_range(low..=high)
}

/// Runs the instruction at the program counter; CXNN draws its byte from the
/// random number generator. `delay` is what the delay timer reads now.
pub fn perform_op(c: &mut CPU, delay: u8) -> (r: Result<TimerCommand, CpuError>)
    requires
        !instruction_faults(old(c)@),
    ensures
        exists|random: u8| outcome_holds(old(c)@, final(c)@, r, step(old(c)@, random, delay)),
        !draws_random(old(c)@) ==> outcome_holds(old(c)@, final(c)@, r, step(old(c)@, 0, delay)),
{
    let random: u8 = if c.pc < 0x0FFF && (c.pc % 2 == 0 || c.odds) && (c.memory[c.pc] >> 4) == 0xC {
        random_in(0, 255)
    } else {
        0
    };
    proof {
        if c.pc < 0x0FFF {
            lemma_nibbles(c.memory[c.pc as int]);
        }
    }
    perform_op_with(c, random, delay)
}

/// Whether the instruction at the program counter has no defined effect:
/// it would reach outside memory or the keypad, or overflow I.
pub(crate) fn faults(c: &CPU) -> (b: bool)
    ensures
        b == instruction_faults(c@),
{
    if c.pc >= 0x0FFF || (c.pc % 2 != 0 && !c.odds) {
        return false;
    }
    let (hi, lo, _) = fetch(c);
    proof {
        lemma_nibbles(hi);
        lemma_nibbles(lo);
    }
    let leading = hi >> 4;
    let x = (hi & 0x0F) as usize;
    let n = lo & 0x0F;
    let index = c.index as usize;
    let v = c.registers[x] as usize;
    if leading == 0xD {
        n > 0 && index + n as usize - 1 >= 4096
    } else if leading == 0xE {
        (lo == 0x9E || lo == 0xA1) && v >= 16
    } else if leading == 0xF {
        (lo == 0x1E && index + v > 0xFFFF) || (lo == 0x33 && index + 2 >= 4096) || ((lo == 0x55
            || lo == 0x65) && index + x >= 4096)
    } else {
        false
    }
}

} // verus!
