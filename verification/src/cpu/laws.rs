//! Properties of the instruction set that hold across instructions and states.
use vstd::prelude::*;
use super::{CpuError, CpuState, cycle, initial_state, loaded_memory, well_formed};
use super::operations::{
    address, draw_sprite_result, dump_registers, load_registers, origin_x, origin_y, draws_random, dumped_memory, f_op_result, group, high_byte,
    instruction_faults, loaded_registers, low_byte, nibble, reg_op_result, reg_x, reg_y,
    sprite_covers, sprite_dx, sprite_dy, step, valid_pc, vx, vy,
};

verus! {

/// Every instruction that runs keeps the shape of the machine.
pub proof fn lemma_step_keeps_shape(s: CpuState, random: u8, delay: u8)
    requires
        well_formed(s),
        !instruction_faults(s),
        step(s, random, delay) is Ok,
    ensures
        well_formed(step(s, random, delay)->Ok_0.0),
{
    let t = step(s, random, delay)->Ok_0.0;
    let g = group(s);
    if g == 0xF && low_byte(s) == 0x55 {
        assert(dumped_memory(s).len() == 4096);
    }
    if g == 0xF && low_byte(s) == 0x65 {
        assert(loaded_registers(s).len() == 16);
    }
}

/// Only CXNN depends on the random byte: every other instruction does the
/// same whichever byte is drawn.
pub proof fn lemma_random_only_for_cxnn(s: CpuState, r1: u8, r2: u8, delay: u8)
    requires
        !draws_random(s),
    ensures
        step(s, r1, delay) == step(s, r2, delay),
{
}

/// A subroutine call (2NNN) followed by the return at NNN (00EE) resumes at
/// the instruction after the call, with the stack as it was.
pub proof fn lemma_call_then_return(s: CpuState, random: u8, delay: u8)
    requires
        well_formed(s),
        valid_pc(s),
        group(s) == 0x2,
        s.stack.len() < 12,
        address(s) < 0xFFF,
        address(s) % 2 == 0,
        s.memory[address(s)] == 0x00,
        s.memory[address(s) + 1] == 0xEE,
    ensures
        step(s, random, delay) is Ok,
        ({
            let t = step(s, random, delay)->Ok_0.0;
            &&& t.pc == address(s)
            &&& step(t, random, delay) is Ok
            &&& step(t, random, delay)->Ok_0.0.pc == s.pc + 2
            &&& step(t, random, delay)->Ok_0.0.stack == s.stack
        }),
{
    let t = step(s, random, delay)->Ok_0.0;
    assert(t.stack.drop_last() =~= s.stack);
}

/// Drawing the same sprite twice leaves the screen as it was, as long as
/// neither coordinate register is VF (which a collision may change).
pub proof fn lemma_draw_twice_restores(s: CpuState)
    requires
        well_formed(s),
        valid_pc(s),
        group(s) == 0xD,
        reg_x(s) != 15,
        reg_y(s) != 15,
    ensures
        ({
            let t = draw_sprite_result(s)->Ok_0.0;
            draw_sprite_result(t)->Ok_0.0.screen == s.screen
        }),
{
    let t = draw_sprite_result(s)->Ok_0.0;
    assert(vx(t) == vx(s));
    assert(vy(t) == vy(s));
    assert forall|p: int| 0 <= p < 2048 implies sprite_covers(t, p) == sprite_covers(s, p) by {
        assert(sprite_dx(t, p) == sprite_dx(s, p));
        assert(sprite_dy(t, p) == sprite_dy(s, p));
    }
    assert(draw_sprite_result(t)->Ok_0.0.screen =~= s.screen);
}

/// 8XY4 keeps the whole sum: VF carries the bit that VX loses (VX not VF).
pub proof fn lemma_add_carries(s: CpuState)
    requires
        well_formed(s),
        valid_pc(s),
        group(s) == 0x8,
        nibble(s) == 0x4,
        reg_x(s) != 15,
    ensures
        ({
            let t = reg_op_result(s)->Ok_0.0;
            t.registers[15] * 256 + t.registers[reg_x(s)] == vx(s) + vy(s)
        }),
{
}

/// 8XY5 subtracts modulo 256, and VF tells whether no borrow was needed (VX not VF).
pub proof fn lemma_sub_borrows(s: CpuState)
    requires
        well_formed(s),
        valid_pc(s),
        group(s) == 0x8,
        nibble(s) == 0x5,
        reg_x(s) != 15,
    ensures
        ({
            let t = reg_op_result(s)->Ok_0.0;
            &&& t.registers[reg_x(s)] == (vx(s) - vy(s) + 256) % 256
            &&& (t.registers[15] == 1) == (vx(s) >= vy(s))
            &&& t.registers[15] <= 1
        }),
{
}

/// 8XY6 shifts right by one bit, and VF holds the bit shifted out (VX not VF).
#[verifier::spinoff_prover]
pub proof fn lemma_shift_right_keeps_bit(s: CpuState)
    requires
        well_formed(s),
        valid_pc(s),
        group(s) == 0x8,
        nibble(s) == 0x6,
        reg_x(s) != 15,
    ensures
        ({
            let t = reg_op_result(s)->Ok_0.0;
            let src = if s.legacy_mode {
                vy(s)
            } else {
                vx(s)
            };
            t.registers[reg_x(s)] * 2 + t.registers[15] == src
        }),
{
}

/// 8XYE shifts left by one bit, and VF holds the bit shifted out (VX not VF).
#[verifier::spinoff_prover]
pub proof fn lemma_shift_left_keeps_bit(s: CpuState)
    requires
        well_formed(s),
        valid_pc(s),
        group(s) == 0x8,
        nibble(s) == 0xE,
        reg_x(s) != 15,
    ensures
        ({
            let t = reg_op_result(s)->Ok_0.0;
            let src = if s.legacy_mode {
                vy(s)
            } else {
                vx(s)
            };
            t.registers[15] * 256 + t.registers[reg_x(s)] == src * 2
        }),
{
}

/// The arithmetic instructions write VF last: with X = F, VF ends as the
/// flag, not as the result.
pub proof fn lemma_flag_wins(s: CpuState)
    requires
        well_formed(s),
        valid_pc(s),
        group(s) == 0x8,
        reg_x(s) == 15,
        nibble(s) == 0x4 || nibble(s) == 0x5 || nibble(s) == 0x6 || nibble(s) == 0x7 || nibble(s)
            == 0xE,
    ensures
        reg_op_result(s)->Ok_0.0.registers[15] <= 1,
{
}

/// FX33 writes the three decimal digits of VX, most significant first.
pub proof fn lemma_bcd_digits(s: CpuState)
    requires
        well_formed(s),
        valid_pc(s),
        group(s) == 0xF,
        low_byte(s) == 0x33,
        s.index + 2 < 4096,
    ensures
        ({
            let m = f_op_result(s, 0)->Ok_0.0.memory;
            let i = s.index as int;
            &&& m[i] * 100 + m[i + 1] * 10 + m[i + 2] == vx(s)
            &&& m[i] < 10 && m[i + 1] < 10 && m[i + 2] < 10
        }),
{
}

/// Loading V0 to VX from where they were just stored gives them back,
/// whatever the registers held in between; the registers above VX stay.
pub proof fn lemma_load_undoes_dump(
    memory: Seq<u8>,
    registers: Seq<u8>,
    other: Seq<u8>,
    index: int,
    x: int,
)
    requires
        memory.len() == 4096,
        registers.len() == 16,
        other.len() == 16,
        0 <= x < 16,
        0 <= index,
        index + x < 4096,
    ensures
        load_registers(dump_registers(memory, registers, index, x), other, index, x)
            == Seq::new(16, |r: int| if r <= x { registers[r] } else { other[r] }),
        load_registers(dump_registers(memory, registers, index, x), registers, index, x)
            == registers,
{
    let m = dump_registers(memory, registers, index, x);
    assert(load_registers(m, other, index, x) =~= Seq::new(
        16,
        |r: int| if r <= x { registers[r] } else { other[r] },
    ));
    assert(load_registers(m, registers, index, x) =~= registers);
}

/// FX55 then FX65 with the same X and I give back V0 to VX, as long as the
/// dump does not overwrite the instruction itself.
pub proof fn lemma_dump_then_load(s: CpuState)
    requires
        well_formed(s),
        valid_pc(s),
        s.index + reg_x(s) < 4096,
        s.pc + 1 < s.index || s.pc > s.index + reg_x(s),
    ensures
        ({
            let t = CpuState { memory: dumped_memory(s), ..s };
            loaded_registers(t) == s.registers
        }),
{
    let t = CpuState { memory: dumped_memory(s), ..s };
    assert(high_byte(t) == high_byte(s));
    lemma_load_undoes_dump(s.memory, s.registers, s.registers, s.index as int, reg_x(s));
}

/// A processor built from bindings that press only keys 0 to 15 can take
/// every character's key press and release.
pub proof fn lemma_bindings_in_range_take_every_key(bindings: Map<char, usize>, key: char)
    requires
        crate::keybindings::keys_in_range(bindings),
    ensures
        super::key_in_range(initial_state(bindings), key),
{
}

/// A new processor has the shape of the machine.
pub proof fn lemma_initial_state_well_formed(bindings: Map<char, usize>)
    ensures
        well_formed(initial_state(bindings)),
{
}

/// Every cycle keeps the shape of the machine, whether or not it runs an
/// instruction and whether or not the instruction fails.
pub proof fn lemma_cycle_keeps_shape(s: CpuState, random: u8, delay: u8)
    requires
        well_formed(s),
        s.waiting_key is None ==> !instruction_faults(s),
    ensures
        well_formed(cycle(s, random, delay).0),
{
    let cleared = CpuState { draw: false, ..s };
    if s.waiting_key is None && step(cleared, random, delay) is Ok {
        lemma_step_keeps_shape(cleared, random, delay);
    }
}

/// A processor that waits for a key runs no instruction: a cycle only
/// clears the draw flag and leaves the timers alone.
pub proof fn lemma_waiting_cycle_holds_still(s: CpuState, random: u8, delay: u8)
    requires
        s.waiting_key is Some,
    ensures
        cycle(s, random, delay).0 == (CpuState { draw: false, ..s }),
        cycle(s, random, delay).1 == Ok::<super::TimerCommand, super::CpuError>(super::TimerCommand::Unchanged),
{
}

/// With odd addresses allowed, the processor never stops for standing at one.
pub proof fn lemma_odd_addresses_never_stop(s: CpuState, random: u8, delay: u8)
    requires
        s.odd_addresses,
    ensures
        !(step(s, random, delay) matches Err(CpuError::ProgramCounterInvalidLocation(_))),
{
}

/// Without wrapping, a sprite is clipped: every pixel it sets lies at or
/// right of its first column and at or below its first row, so nothing comes
/// back on the other side of the screen.
pub proof fn lemma_clipped_sprite_stays_in_place(s: CpuState, p: int)
    requires
        well_formed(s),
        valid_pc(s),
        !s.wrapping,
        0 <= p < 2048,
        sprite_covers(s, p),
    ensures
        p % 64 >= origin_x(s),
        p / 64 >= origin_y(s),
        p % 64 == origin_x(s) + sprite_dx(s, p),
        p / 64 == origin_y(s) + sprite_dy(s, p),
{
    let ox = origin_x(s);
    let oy = origin_y(s);
    let dx = sprite_dx(s, p);
    let dy = sprite_dy(s, p);
    let a = p % 64;
    let b = p / 64;
    vstd::arithmetic::div_mod::lemma_fundamental_div_mod(p, 64);
    vstd::arithmetic::div_mod::lemma_fundamental_div_mod(64 * vy(s) as int + vx(s) as int, 2048);
    vstd::arithmetic::div_mod::lemma_fundamental_div_mod(
        (64 * vy(s) as int + vx(s) as int) % 2048,
        64,
    );
    if a < ox {
        assert((a - ox + 64) % 64 == a - ox + 64) by {
            vstd::arithmetic::div_mod::lemma_small_mod((a - ox + 64) as nat, 64);
        }
    } else {
        assert((a - ox + 64) % 64 == a - ox) by {
            vstd::arithmetic::div_mod::lemma_mod_sub_multiples_vanish(a - ox + 64, 64);
            vstd::arithmetic::div_mod::lemma_small_mod((a - ox) as nat, 64);
        }
    }
    if b < oy {
        assert((b - oy + 32) % 32 == b - oy + 32) by {
            vstd::arithmetic::div_mod::lemma_small_mod((b - oy + 32) as nat, 32);
        }
    } else {
        assert((b - oy + 32) % 32 == b - oy) by {
            vstd::arithmetic::div_mod::lemma_mod_sub_multiples_vanish(b - oy + 32, 32);
            vstd::arithmetic::div_mod::lemma_small_mod((b - oy) as nat, 32);
        }
    }
}

/// Loading a program leaves the memory below 0x200, where the font lives, alone.
pub proof fn lemma_load_keeps_low_memory(memory: Seq<u8>, data: Seq<u8>, a: int)
    requires
        0 <= a < 0x200,
        a < memory.len(),
    ensures
        loaded_memory(memory, data)[a] == memory[a],
{
}

/// Loading a program puts its byte `i` at 0x200 + i, as far as memory goes,
/// and leaves memory past the program alone.
pub proof fn lemma_load_places_program(memory: Seq<u8>, data: Seq<u8>, a: int)
    requires
        0 <= a < memory.len(),
    ensures
        loaded_memory(memory, data).len() == memory.len(),
        0x200 <= a < 0x200 + data.len() ==> loaded_memory(memory, data)[a] == data[a - 0x200],
        a >= 0x200 + data.len() ==> loaded_memory(memory, data)[a] == memory[a],
{
}

/// A key press while the processor waits puts the key's number in the
/// waiting register, presses the key and ends the wait; without a wait it
/// only presses the key; an unbound character changes nothing.
pub proof fn lemma_key_press_delivers(s: CpuState, key: char)
    requires
        well_formed(s),
        super::key_in_range(s, key),
    ensures
        !s.bindings.contains_key(key) ==> super::key_pressed(s, key) == s,
        s.bindings.contains_key(key) ==> {
            let k = s.bindings[key];
            let t = super::key_pressed(s, key);
            &&& t.keypad == s.keypad.update(k as int, true)
            &&& t.waiting_key is None
            &&& s.waiting_key is None ==> t.registers == s.registers
            &&& s.waiting_key matches Some(w) ==> t.registers == s.registers.update(w as int, k as u8)
            &&& t == (CpuState { keypad: t.keypad, waiting_key: None, registers: t.registers, ..s })
        },
{
}

/// Line `k` of a disassembly from `start` shows the address start + 2k, the
/// big-endian opcode of the two bytes there, and whether the program counter
/// points at it; with no start given, a disassembly starts at the program
/// counter.
pub proof fn lemma_disassembly_lines(s: CpuState, start: int, k: int, st: Option<usize>)
    requires
        well_formed(s),
        0 <= k,
        0 <= start,
        start + 2 * k + 1 < 4096,
    ensures
        ({
            let a = start + 2 * k;
            let line = super::disassembly_line(s, start, k);
            &&& line.address == a
            &&& line.opcode == s.memory[a] * 256 + s.memory[a + 1]
            &&& line.at_pc == (s.pc == a)
        }),
        st is None ==> super::disassembly_start(s.pc, st) == s.pc,
        st matches Some(a) ==> super::disassembly_start(s.pc, st) == a,
{
}

/// A processor at power-on stands at 0x200 with every register, I, the
/// stack, the keypad and the screen cleared, no wait and all modes off.
pub proof fn lemma_power_on(bindings: Map<char, usize>)
    ensures
        ({
            let s = initial_state(bindings);
            &&& s.pc == 0x200
            &&& s.index == 0
            &&& s.stack.len() == 0
            &&& forall|r: int| 0 <= r < 16 ==> #[trigger] s.registers[r] == 0
            &&& forall|k: int| 0 <= k < 16 ==> !#[trigger] s.keypad[k]
            &&& forall|p: int| 0 <= p < 2048 ==> !#[trigger] s.screen[p]
            &&& forall|a: int| 0x200 <= a < 4096 ==> #[trigger] s.memory[a] == 0
            &&& s.waiting_key is None && !s.legacy_mode && !s.wrapping && !s.odd_addresses
            &&& s.bindings == bindings
        }),
{
}

/// Lit pixels show white and unlit ones black.
pub proof fn lemma_pixel_colors()
    ensures
        super::pixel_color(true) == 0x00FFFFFFu32,
        super::pixel_color(false) == 0u32,
{
}

} // verus!
