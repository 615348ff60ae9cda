//! The processor: memory, registers, screen, keypad and the call stack.
pub mod constants;
pub mod instruction_laws;
pub mod key;
pub mod laws;
pub mod operations;
pub mod stack;

use vstd::prelude::*;
use crate::keybindings::{KeyBindings, pairs_to_map, standard_pairs};
use self::constants::FONTSET;
use self::stack::Stack;
use self::operations::{instruction_faults, outcome_holds, step};

verus! {

/// What stops the processor.
#[derive(Debug, PartialEq, Eq, Structural, Clone, Copy)]
pub enum CpuError {
    /// The program counter reached an address outside valid memory bounds.
    ProgramCounterOutOfBounds { pc: usize, max_memory: usize },
    /// The program counter reached an odd address in memory.
    ProgramCounterInvalidLocation(usize),
    /// The opcode fetched from memory is not a recognized instruction.
    UnknownOpcode(u16),
    /// A return was attempted with nothing on the stack.
    StackUnderflowError,
    /// A call was attempted with the stack full.
    StackOverflowError,
    /// An access outside memory was attempted.
    OutofBoundsAccess,
}

/// What an instruction asks of the delay and sound timers, which run beside
/// the processor: leave them, or start one with a number of ticks.
#[derive(Debug, PartialEq, Eq, Structural, Clone, Copy)]
pub enum TimerCommand {
    Unchanged,
    SetDelay(u8),
    SetSound(u8),
}

/// The whole state of the processor, as contracts speak of it.
pub struct CpuState {
    /// The 4096 bytes of memory.
    pub memory: Seq<u8>,
    /// V0 to VF.
    pub registers: Seq<u8>,
    /// The address register I.
    pub index: u16,
    /// The program counter.
    pub pc: usize,
    /// Return addresses, the bottom one first.
    pub stack: Seq<u16>,
    /// Which of the 16 keys are down.
    pub keypad: Seq<bool>,
    /// The 64 by 32 pixels, row by row.
    pub screen: Seq<bool>,
    /// 8XY6 and 8XYE shift VY into VX rather than VX itself.
    pub legacy_mode: bool,
    /// Sprites wrap around the screen's edges rather than being clipped.
    pub wrapping: bool,
    /// The program counter may stand at an odd address.
    pub odd_addresses: bool,
    /// The register that the next key press goes to, while the processor waits for one.
    pub waiting_key: Option<u8>,
    /// The terminal colours of lit and unlit pixels.
    pub on_color: u8,
    pub off_color: u8,
    /// Which character presses which keypad key.
    pub bindings: Map<char, usize>,
    /// The screen changed since the last cycle.
    pub draw: bool,
}

/// The register that waits for a key press.
struct KeyWait {
    register: u8,
}

impl KeyWait {
    #[verifier::type_invariant]
    spec fn inv(self) -> bool {
        self.register < 16
    }
}

/// A CHIP-8 processor.
pub struct CPU {
    pub memory: [u8; 4096],
    registers: [u8; 16],
    index: u16,
    pub pc: usize,
    stack: Stack,
    pub keypad: [bool; 16],
    gfx: [bool; 2048],
    legacy_mode: bool,
    wrapping: bool,
    odds: bool,
    blocking: Option<KeyWait>,
    on_char: u8,
    off_char: u8,
    bindings: KeyBindings,
    pub draw: bool,
}

impl View for CPU {
    type V = CpuState;

    closed spec fn view(&self) -> CpuState {
        CpuState {
            memory: self.memory@,
            registers: self.registers@,
            index: self.index,
            pc: self.pc,
            stack: self.stack@,
            keypad: self.keypad@,
            screen: self.gfx@,
            legacy_mode: self.legacy_mode,
            wrapping: self.wrapping,
            odd_addresses: self.odds,
            waiting_key: match self.blocking {
                Some(w) => Some(w.register % 16),
                None => None,
            },
            on_color: self.on_char,
            off_color: self.off_char,
            bindings: self.bindings@,
            draw: self.draw,
        }
    }
}

/// The shape every state of the machine has: 4096 bytes of memory, 16
/// registers and keys, 2048 pixels, at most 12 return addresses, and a
/// waiting register, if any, that is one of V0 to VF.
pub open spec fn well_formed(s: CpuState) -> bool {
    &&& s.memory.len() == 4096
    &&& s.registers.len() == 16
    &&& s.keypad.len() == 16
    &&& s.screen.len() == 2048
    &&& s.stack.len() <= 12
    &&& (s.waiting_key matches Some(r) ==> r < 16)
}

/// Every processor has the shape of the machine.
pub proof fn lemma_well_formed(c: &CPU)
    ensures
        well_formed(c@),
{
    c.stack.lemma_depth();
}

/// Memory at power-on: the font at the bottom, zeros above it.
pub open spec fn initial_memory() -> Seq<u8> {
    Seq::new(4096, |a: int| if a < 80 { FONTSET@[a] } else { 0u8 })
}

/// The state of a new processor with the given bindings.
pub open spec fn initial_state(bindings: Map<char, usize>) -> CpuState {
    CpuState {
        memory: initial_memory(),
        registers: Seq::new(16, |r: int| 0u8),
        index: 0,
        pc: 0x200,
        stack: Seq::empty(),
        keypad: Seq::new(16, |k: int| false),
        screen: Seq::new(2048, |p: int| false),
        legacy_mode: false,
        wrapping: false,
        odd_addresses: false,
        waiting_key: None,
        on_color: 16,
        off_color: 1,
        bindings,
        draw: false,
    }
}

/// The bindings used when none are given.
pub open spec fn standard_bindings() -> Map<char, usize> {
    pairs_to_map(standard_pairs())
}

/// Memory after a program of `data` is loaded at 0x200: as much of it as fits.
pub open spec fn loaded_memory(memory: Seq<u8>, data: Seq<u8>) -> Seq<u8> {
    Seq::new(
        memory.len(),
        |a: int|
            if 0x200 <= a && a - 0x200 < data.len() {
                data[a - 0x200]
            } else {
                memory[a]
            },
    )
}

/// The state after `key` goes down: the bound keypad key is down, and a
/// waiting register receives the key's number and the wait ends. An
/// unbound character changes nothing.
pub open spec fn key_pressed(s: CpuState, key: char) -> CpuState {
    if s.bindings.contains_key(key) {
        let k = s.bindings[key];
        match s.waiting_key {
            Some(reg) => CpuState {
                registers: s.registers.update(reg as int, k as u8),
                waiting_key: None,
                keypad: s.keypad.update(k as int, true),
                ..s
            },
            None => CpuState { keypad: s.keypad.update(k as int, true), ..s },
        }
    } else {
        s
    }
}

/// Each key, while it is bound, presses a keypad key that exists.
pub open spec fn key_in_range(s: CpuState, key: char) -> bool {
    s.bindings.contains_key(key) ==> s.bindings[key] < 16
}

/// One cycle: the draw flag is cleared, then, unless the processor waits for
/// a key, one instruction runs. The state after it and what it returns.
pub open spec fn cycle(s: CpuState, random: u8, delay: u8) -> (CpuState, Result<TimerCommand, CpuError>) {
    let cleared = CpuState { draw: false, ..s };
    if s.waiting_key is Some {
        (cleared, Ok(TimerCommand::Unchanged))
    } else {
        match step(cleared, random, delay) {
            Ok((t, cmd)) => (t, Ok(cmd)),
            Err(e) => (cleared, Err(e)),
        }
    }
}

/// The colour a pixel is shown in: white when lit, black when not.
pub open spec fn pixel_color(lit: bool) -> u32 {
    if lit {
        0x00FFFFFF
    } else {
        0x00000000
    }
}

/// Where a disassembly starts: the address asked for, or else the program counter.
pub open spec fn disassembly_start(pc: usize, st: Option<usize>) -> int {
    match st {
        Some(a) => a as int,
        None => pc as int,
    }
}

/// A disassembly from a valid start stays inside memory.
pub open spec fn disassembly_fits(pc: usize, st: Option<usize>, lines: usize) -> bool {
    let start = disassembly_start(pc, st);
    start <= 4095 && start % 2 == 0 ==> start + 2 * lines <= 4096
}

/// One line of a disassembly.
#[derive(Debug, PartialEq, Eq, Structural, Clone, Copy)]
pub struct DisassemblyLine {
    pub address: usize,
    pub opcode: u16,
    /// The program counter points here.
    pub at_pc: bool,
}

/// Line `k` of a disassembly from `start`.
pub open spec fn disassembly_line(s: CpuState, start: int, k: int) -> DisassemblyLine {
    DisassemblyLine {
        address: (start + 2 * k) as usize,
        opcode: (s.memory[start + 2 * k] as int * 256 + s.memory[start + 2 * k + 1] as int) as u16,
        at_pc: s.pc == start + 2 * k,
    }
}

/// Why a disassembly was not made.
#[derive(Debug, PartialEq, Eq, Structural, Clone, Copy)]
pub enum DisassembleError {
    /// The start lies beyond the end of memory, 4095.
    StartBeyondMemory,
    /// The start is an odd address.
    OddStart,
}

impl Default for CPU {
    /// A processor with the standard bindings.
    fn default() -> (c: Self)
        ensures
            c@ == initial_state(standard_bindings()),
    {
        Self::new(None)
    }
}

impl CPU {
    /// A processor at power-on with the given bindings, or the standard ones.
    pub fn new(bindings: Option<KeyBindings>) -> (c: CPU)
        ensures
            c@ == initial_state(
                match bindings {
                    Some(b) => b@,
                    None => standard_bindings(),
                },
            ),
    {
        let bindings = match bindings {
            Some(map) => map,
            None => KeyBindings::standard(),
        };
        let mut c = CPU {
            memory: [0; 4096],
            registers: [0; 16],
            index: 0,
            pc: 0x200,
            stack: Stack::new(),
            keypad: [false; 16],
            gfx: [false; 2048],
            legacy_mode: false,
            wrapping: false,
            odds: false,
            blocking: None,
            on_char: 16,
            off_char: 1,
            bindings,
            draw: false,
        };
        let mut i: usize = 0;
        while i < 80
            invariant
                i <= 80,
                forall|a: int| 0 <= a < i ==> c.memory@[a] == FONTSET@[a],
                forall|a: int| i <= a < 4096 ==> c.memory@[a] == 0,
                c.registers@ =~= Seq::new(16, |r: int| 0u8),
                c.keypad@ =~= Seq::new(16, |k: int| false),
                c.gfx@ =~= Seq::new(2048, |p: int| false),
                c.pc == 0x200,
                c.index == 0,
                c.stack@ == Seq::<u16>::empty(),
                c.blocking is None,
                c.on_char == 16,
                c.off_char == 1,
                c.bindings == bindings,
                !c.legacy_mode && !c.wrapping && !c.odds && !c.draw,
            decreases 80 - i,
        {
            c.memory[i] = FONTSET[i];
            i = i + 1;
        }
        assert(c.memory@ =~= initial_memory());
        c
    }

    /// Flips between the legacy and the modern behavior of 8XY6 and 8XYE.
    pub fn toggle_legacy_mode(&mut self)
        ensures
            final(self)@ == (CpuState { legacy_mode: !old(self)@.legacy_mode, ..old(self)@ }),
    {
        self.legacy_mode = !self.legacy_mode;
    }

    /// Flips whether sprites wrap at the screen's edges.
    pub fn toggle_wrapping(&mut self)
        ensures
            final(self)@ == (CpuState { wrapping: !old(self)@.wrapping, ..old(self)@ }),
    {
        self.wrapping = !self.wrapping;
    }

    /// Moves the program counter.
    pub fn set_pc(&mut self, pc: usize)
        ensures
            final(self)@ == (CpuState { pc, ..old(self)@ }),
    {
        self.pc = pc;
    }

    /// Flips whether the program counter may stand at an odd address.
    pub fn toggle_odds(&mut self)
        ensures
            final(self)@ == (CpuState { odd_addresses: !old(self)@.odd_addresses, ..old(self)@ }),
    {
        self.odds = !self.odds;
    }

    /// Whether the program counter may stand at an odd address.
    pub fn odds(&self) -> (b: bool)
        ensures
            b == self@.odd_addresses,
    {
        self.odds
    }

    /// Whether 8XY6 and 8XYE shift VY (legacy) or VX.
    pub fn legacy_mode(&self) -> (b: bool)
        ensures
            b == self@.legacy_mode,
    {
        self.legacy_mode
    }

    /// Whether sprites wrap at the screen's edges.
    pub fn wrapping(&self) -> (b: bool)
        ensures
            b == self@.wrapping,
    {
        self.wrapping
    }

    /// Copies a program into memory from 0x200 on, as much of it as fits.
    pub fn load_game(&mut self, data: &[u8])
        ensures
            final(self)@ == (CpuState {
                memory: loaded_memory(old(self)@.memory, data@),
                ..old(self)@
            }),
    {
        let mut i: usize = 0;
        while i < data.len() && i < 3584
            invariant
                i <= data@.len(),
                i <= 3584,
                self.registers == old(self).registers,
                self.index == old(self).index,
                self.pc == old(self).pc,
                self.stack == old(self).stack,
                self.keypad == old(self).keypad,
                self.gfx == old(self).gfx,
                self.legacy_mode == old(self).legacy_mode,
                self.wrapping == old(self).wrapping,
                self.odds == old(self).odds,
                self.blocking == old(self).blocking,
                self.on_char == old(self).on_char,
                self.off_char == old(self).off_char,
                self.bindings == old(self).bindings,
                self.draw == old(self).draw,
                forall|a: int|
                    0 <= a < 4096 ==> #[trigger] self.memory@[a] == (if 0x200 <= a && a - 0x200 < i {
                        data@[a - 0x200]
                    } else {
                        old(self).memory@[a]
                    }),
            decreases 3584 - i,
        {
            self.memory[0x200 + i] = data[i];
            i = i + 1;
        }
        assert(self.memory@ =~= loaded_memory(old(self)@.memory, data@));
    }

    /// Whether `key` is bound to a keypad key.
    pub fn valid_character(&self, key: char) -> (b: bool)
        ensures
            b == self@.bindings.contains_key(key),
    {
        self.bindings.contains(key)
    }

    /// The keypad key bound to `key`, if any.
    pub fn bound_key(&self, key: char) -> (r: Option<usize>)
        ensures
            r == (if self@.bindings.contains_key(key) {
                Some(self@.bindings[key])
            } else {
                None
            }),
    {
        self.bindings.lookup(key)
    }

    /// Presses the keypad key bound to `key`, if any. Nothing else changes:
    /// a processor that waits for a key keeps waiting.
    pub fn key_down(&mut self, key: char)
        requires
            key_in_range(old(self)@, key),
        ensures
            final(self)@ == (if old(self)@.bindings.contains_key(key) {
                CpuState {
                    keypad: old(self)@.keypad.update(old(self)@.bindings[key] as int, true),
                    ..old(self)@
                }
            } else {
                old(self)@
            }),
    {
        if let Some(k) = self.bindings.lookup(key) {
            self.keypad[k] = true;
        }
    }

    /// Releases the keypad key bound to `key`, if any.
    pub fn key_up(&mut self, key: char)
        requires
            key_in_range(old(self)@, key),
        ensures
            final(self)@ == (if old(self)@.bindings.contains_key(key) {
                CpuState {
                    keypad: old(self)@.keypad.update(old(self)@.bindings[key] as int, false),
                    ..old(self)@
                }
            } else {
                old(self)@
            }),
    {
        if let Some(k) = self.bindings.lookup(key) {
            self.keypad[k] = false;
        }
    }

    /// Flips keypad key `key`, which must be 0 to 15; returns whether it did.
    pub fn toggle_key(&mut self, key: u8) -> (done: bool)
        ensures
            done == (key <= 15),
            done ==> final(self)@ == (CpuState {
                keypad: old(self)@.keypad.update(key as int, !old(self)@.keypad[key as int]),
                ..old(self)@
            }),
            !done ==> final(self)@ == old(self)@,
    {
        if key > 15 {
            return false;
        }
        self.keypad[key as usize] = !self.keypad[key as usize];
        true
    }

    /// Releases every keypad key.
    pub fn reset_keys(&mut self)
        ensures
            final(self)@ == (CpuState { keypad: Seq::new(16, |k: int| false), ..old(self)@ }),
    {
        self.keypad = [false; 16];
        assert(self.keypad@ =~= Seq::new(16, |k: int| false));
    }

    /// A key press: the bound keypad key goes down, and when the processor
    /// waits for a key, the key's number goes to the waiting register and the
    /// wait ends. Returns that register and number.
    pub fn register_key_press(&mut self, key: char) -> (r: Option<(u8, u8)>)
        requires
            key_in_range(old(self)@, key),
        ensures
            final(self)@ == key_pressed(old(self)@, key),
            r == (if old(self)@.bindings.contains_key(key) {
                match old(self)@.waiting_key {
                    Some(reg) => Some((reg, old(self)@.bindings[key] as u8)),
                    None => None,
                }
            } else {
                None
            }),
    {
        let mut released = None;
        if let Some(k) = self.bindings.lookup(key) {
            if let Some(w) = &self.blocking {
                proof {
                    use_type_invariant(w);
                }
                let register = w.register;
                self.registers[register as usize] = k as u8;
                self.blocking = None;
                released = Some((register, k as u8));
            }
            self.keypad[k] = true;
        }
        released
    }

    /// Runs one cycle: clears the draw flag and, unless the processor waits
    /// for a key, runs one instruction. `delay` is what the delay timer reads
    /// now; the result says what to do with the timers.
    pub fn emulate_cycle(&mut self, delay: u8) -> (r: Result<TimerCommand, CpuError>)
        requires
            old(self)@.waiting_key is None ==> !instruction_faults(old(self)@),
        ensures
            exists|random: u8|
                final(self)@ == #[trigger] cycle(old(self)@, random, delay).0 && r == cycle(
                    old(self)@,
                    random,
                    delay,
                ).1,
    {
        if self.draw {
            self.draw = false;
        }
        let ghost cleared = self@;
        if self.blocking.is_none() {
            let r = operations::perform_op(self, delay);
            proof {
                let random = choose|random: u8|
                    outcome_holds(cleared, self@, r, step(cleared, random, delay));
                assert(self@ == cycle(old(self)@, random, delay).0);
            }
            return r;
        }
        assert(self@ == cycle(old(self)@, 0, delay).0);
        Ok(TimerCommand::Unchanged)
    }

    /// Whether the instruction at the program counter has no defined effect:
    /// it would reach outside memory or the keypad, or overflow I.
    pub fn next_instruction_faults(&self) -> (b: bool)
        ensures
            b == instruction_faults(self@),
    {
        operations::faults(self)
    }

    /// Shows the screen in a frame buffer of up to 2048 pixels.
    pub fn draw_screen_winit(&self, buffer: &mut [u32])
        requires
            old(buffer)@.len() <= 2048,
        ensures
            final(buffer)@ == Seq::new(old(buffer)@.len(), |i: int| pixel_color(self@.screen[i])),
    {
        let mut i: usize = 0;
        while i < buffer.len()
            invariant
                i <= buffer@.len(),
                buffer@.len() == old(buffer)@.len(),
                buffer@.len() <= 2048,
                forall|j: int| 0 <= j < i ==> #[trigger] buffer@[j] == pixel_color(self.gfx@[j]),
            decreases buffer@.len() - i,
        {
            buffer[i] = if self.gfx[i] {
                0x00FFFFFF
            } else {
                0x00000000
            };
            i = i + 1;
        }
        assert(buffer@ =~= Seq::new(old(buffer)@.len(), |i: int| pixel_color(self@.screen[i])));
    }

    /// Register V`regnum`, or `None` when there is no such register.
    pub fn register(&self, regnum: usize) -> (r: Option<u8>)
        ensures
            regnum > 15 ==> r is None,
            regnum <= 15 ==> r == Some(self@.registers[regnum as int]),
    {
        if regnum > 15 {
            return None;
        }
        Some(self.registers[regnum])
    }

    /// V0 to VF.
    pub fn registers(&self) -> (r: [u8; 16])
        ensures
            r@ == self@.registers,
    {
        self.registers
    }

    /// The address register I.
    pub fn index_register(&self) -> (r: u16)
        ensures
            r == self@.index,
    {
        self.index
    }

    /// The return addresses on the stack, the bottom one first.
    pub fn stack_entries(&self) -> (v: Vec<u16>)
        ensures
            v@ == self@.stack,
    {
        self.stack.entries()
    }

    /// The screen's pixels, row by row.
    pub fn screen(&self) -> (r: [bool; 2048])
        ensures
            r@ == self@.screen,
    {
        self.gfx
    }

    /// The colour numbers that lit and unlit pixels are shown in on a terminal.
    pub fn colors(&self) -> (r: (u8, u8))
        ensures
            r == (self@.on_color, self@.off_color),
    {
        (self.on_char, self.off_char)
    }

    /// Whether the processor waits for a key press.
    pub fn is_waiting_for_key(&self) -> (b: bool)
        ensures
            b == self@.waiting_key is Some,
    {
        self.blocking.is_some()
    }

    /// Where a disassembly starts: `st`, or the program counter.
    fn start_of_disassembly(&self, st: Option<usize>) -> (r: usize)
        ensures
            r == disassembly_start(self@.pc, st),
    {
        match st {
            Some(a) => a,
            None => self.pc,
        }
    }

    /// Whether a disassembly of `lines` instructions from `st` stays inside
    /// memory (or is refused for its start).
    pub fn disassembly_defined(&self, st: Option<usize>, lines: usize) -> (b: bool)
        ensures
            b == disassembly_fits(self@.pc, st, lines),
    {
        let start = self.start_of_disassembly(st);
        if start > 4095 || start % 2 != 0 {
            return true;
        }
        lines <= (4096 - start) / 2
    }

    /// `lines` instructions from `st`, or from the program counter, each with
    /// its address.
    pub fn disassemble(&self, st: Option<usize>, lines: usize) -> (r: Result<Vec<DisassemblyLine>, DisassembleError>)
        requires
            disassembly_fits(self@.pc, st, lines),
        ensures
            ({
                let start = disassembly_start(self@.pc, st);
                &&& start > 4095 ==> r == Err::<Vec<DisassemblyLine>, DisassembleError>(
                    DisassembleError::StartBeyondMemory,
                )
                &&& start <= 4095 && start % 2 != 0 ==> r == Err::<Vec<DisassemblyLine>, DisassembleError>(
                    DisassembleError::OddStart,
                )
                &&& start <= 4095 && start % 2 == 0 ==> (r matches Ok(v) && v@.len() == lines && forall|k: int|
                    0 <= k < lines ==> #[trigger] v@[k] == disassembly_line(self@, start, k))
            }),
    {
        let start = self.start_of_disassembly(st);
        if start > 4095 {
            return Err(DisassembleError::StartBeyondMemory);
        }
        if start % 2 != 0 {
            return Err(DisassembleError::OddStart);
        }
        let count = if lines * 2 < (4096 - start) * 2 {
            lines * 2
        } else {
            (4096 - start) * 2
        };
        let mut out: Vec<DisassemblyLine> = Vec::new();
        let mut i: usize = 0;
        while i < count
            invariant
                count == 2 * lines,
                start + count <= 4096,
                i % 2 == 0,
                i <= count,
                out@.len() == i / 2,
                forall|k: int|
                    0 <= k < i / 2 ==> #[trigger] out@[k] == disassembly_line(self@, start as int, k),
            decreases count - i,
        {
            let opcode = operations::decode_op(self.memory[start + i], self.memory[start + i + 1]);
            out.push(DisassemblyLine { address: start + i, opcode, at_pc: self.pc == start + i });
            i = i + 2;
        }
        Ok(out)
    }
}

} // verus!
