//! The debugger's commands: reading the words and numbers the user types,
//! checking addresses, and keeping the set of breakpoints.
use vstd::prelude::*;
use std::collections::HashSet;
use crate::cpu::{CpuError, CPU};

verus! {

broadcast use vstd::std_specs::hash::group_hash_axioms;

// ---------------------------------------------------------------------------
// Numbers
// ---------------------------------------------------------------------------

/// The value of a digit in the given radix (letters count from ten, in
/// either case), or `None` when `c` is no such digit.
pub open spec fn digit_of(c: char, radix: nat) -> Option<nat> {
    let d: int = if '0' <= c && c <= '9' {
        c as int - '0' as int
    } else if 'a' <= c && c <= 'z' {
        c as int - 'a' as int + 10
    } else if 'A' <= c && c <= 'Z' {
        c as int - 'A' as int + 10
    } else {
        36
    };
    if d < radix {
        Some(d as nat)
    } else {
        None
    }
}

/// The number that a string of digits writes, most significant first.
pub open spec fn digits_value(d: Seq<char>, radix: nat) -> Option<nat>
    decreases d.len(),
{
    if d.len() == 0 {
        Some(0)
    } else {
        match (digits_value(d.drop_last(), radix), digit_of(d.last(), radix)) {
            (Some(v), Some(x)) => Some(v * radix + x),
            _ => None,
        }
    }
}

/// An unsigned number as Rust reads one: an optional `+`, then at least one
/// digit, and a value that fits in `usize`.
pub open spec fn parsed_usize(s: Seq<char>, radix: nat) -> Option<usize> {
    let digits = if s.len() > 0 && s[0] == '+' {
        s.drop_first()
    } else {
        s
    };
    if digits.len() == 0 {
        None
    } else {
        match digits_value(digits, radix) {
            Some(v) => if v <= usize::MAX {
                Some(v as usize)
            } else {
                None
            },
            None => None,
        }
    }
}

/// An address as the user types it: hexadecimal after `0x`, else decimal.
pub open spec fn address_value(s: Seq<char>) -> Option<usize> {
    if s.len() >= 2 && s[0] == '0' && s[1] == 'x' {
        parsed_usize(s.skip(2), 16)
    } else {
        parsed_usize(s, 10)
    }
}

/// The character that writes digit `d`: `0` to `9`, then lower-case letters.
pub open spec fn digit_char(d: nat) -> char {
    if d < 10 {
        (48 + d) as char
    } else {
        (87 + d) as char
    }
}

/// How `n` is written in `radix`: its digits, most significant first, with
/// no leading zeros.
pub open spec fn digits_text(n: nat, radix: nat) -> Seq<char>
    decreases n,
{
    if radix < 2 || n < radix {
        seq![digit_char(n)]
    } else {
        proof {
            vstd::arithmetic::div_mod::lemma_div_decreases(n as int, radix as int);
        }
        digits_text(n / radix, radix).push(digit_char(n % radix))
    }
}

/// Each digit below the radix reads back as itself.
proof fn lemma_digit_char(d: nat, radix: nat)
    requires
        d < radix <= 36,
    ensures
        digit_of(digit_char(d), radix) == Some(d),
{
}

/// The digits that write `n` read back as `n`.
proof fn lemma_digits_text_value(n: nat, radix: nat)
    requires
        2 <= radix <= 16,
    ensures
        digits_value(digits_text(n, radix), radix) == Some(n),
        digits_text(n, radix).len() > 0,
        forall|i: int| 0 <= i < digits_text(n, radix).len() ==> #[trigger] digit_of(digits_text(n, radix)[i], radix) is Some,
    decreases n,
{
    let t = digits_text(n, radix);
    if n < radix {
        lemma_digit_char(n, radix);
        assert(t.drop_last() =~= Seq::<char>::empty());
        assert(digits_value(t.drop_last(), radix) == Some(0nat));
        assert(t.last() == digit_char(n));
        assert(0 * radix == 0);
        assert(digits_value(t, radix) == Some(n));
    } else {
        vstd::arithmetic::div_mod::lemma_div_decreases(n as int, radix as int);
        vstd::arithmetic::div_mod::lemma_div_pos_is_pos(n as int, radix as int);
        let q = n / radix;
        let r = n % radix;
        lemma_digits_text_value(q, radix);
        lemma_digit_char(r, radix);
        assert(t.drop_last() =~= digits_text(q, radix));
        vstd::arithmetic::div_mod::lemma_fundamental_div_mod(n as int, radix as int);
        assert(q * radix == radix * q) by (nonlinear_arith);
        assert(t.last() == digit_char(r));
        assert(forall|i: int| 0 <= i < t.len() - 1 ==> t[i] == digits_text(q, radix)[i]);
        assert(digits_value(t.drop_last(), radix) == Some(q));
        assert(digit_of(t.last(), radix) == Some(r));
        assert(digits_value(t, radix) == Some(q * radix + r));
    }
}

/// Letters count the same in either case: an upper-case letter is the digit
/// its lower-case form is, in every radix.
pub proof fn lemma_digit_case(c: char, radix: nat)
    requires
        'a' <= c <= 'z',
    ensures
        digit_of(((c as int) - 32) as char, radix) == digit_of(c, radix),
{
}

/// Reading back what writing a number gives: the decimal digits of any
/// `usize` read as that number, as a decimal number and as an address, and
/// `0x` followed by its hexadecimal digits reads as that number too.
pub proof fn lemma_written_numbers_read_back(n: usize)
    ensures
        parsed_usize(digits_text(n as nat, 10), 10) == Some(n),
        address_value(digits_text(n as nat, 10)) == Some(n),
        address_value(seq!['0', 'x'] + digits_text(n as nat, 16)) == Some(n),
{
    lemma_digits_text_value(n as nat, 10);
    lemma_digits_text_value(n as nat, 16);
    let d = digits_text(n as nat, 10);
    let h = seq!['0', 'x'] + digits_text(n as nat, 16);
    assert(h.skip(2) =~= digits_text(n as nat, 16));
    assert(h.len() >= 2 && h[0] == '0' && h[1] == 'x');
    let x = digits_text(n as nat, 16);
    assert(digit_of(x[0], 16) is Some);
    assert(x[0] != '+');
    assert(parsed_usize(x, 16) == Some(n));
    assert(digit_of(d[0], 10) is Some);
    assert(d[0] != '+');
    if d.len() >= 2 {
        assert(digit_of(d[1], 10) is Some);
        assert(d[1] != 'x');
    }
}

proof fn lemma_prefix_le(d: Seq<char>, i: int, radix: nat)
    requires
        0 <= i <= d.len(),
        radix >= 1,
        digits_value(d, radix) is Some,
    ensures
        digits_value(d.take(i), radix) is Some,
        digits_value(d.take(i), radix)->Some_0 <= digits_value(d, radix)->Some_0,
    decreases d.len(),
{
    if i < d.len() {
        let t = d.drop_last();
        lemma_prefix_le(t, i, radix);
        assert(t.take(i) =~= d.take(i));
        let v = digits_value(t, radix)->Some_0;
        assert(v * radix >= v) by (nonlinear_arith)
            requires
                radix >= 1,
        ;
    } else {
        assert(d.take(i) =~= d);
    }
}

proof fn lemma_bad_digit(d: Seq<char>, i: int, radix: nat)
    requires
        0 <= i < d.len(),
        digit_of(d[i], radix) is None,
    ensures
        digits_value(d, radix) is None,
    decreases d.len(),
{
    if i < d.len() - 1 {
        lemma_bad_digit(d.drop_last(), i, radix);
    }
}

/// The characters of a text.
fn chars_of(s: &str) -> (v: Vec<char>)
    ensures
        v@ == s@,
{
    let mut v: Vec<char> = Vec::new();
    for c in iter: s.chars()
        invariant
            v@ == iter.seq().take(iter.index() as int),
    {
        v.push(c);
    }
    v
}

/// Whether a text is exactly `lit`.
fn text_is(s: &str, lit: &str) -> (b: bool)
    ensures
        b == (s@ == lit@),
{
    let a = chars_of(s);
    let l = chars_of(lit);
    if a.len() != l.len() {
        return false;
    }
    let mut i: usize = 0;
    while i < a.len()
        invariant
            i <= a@.len(),
            a@ == s@,
            l@ == lit@,
            a@.len() == l@.len(),
            a@.subrange(0, i as int) == l@.subrange(0, i as int),
        decreases a@.len() - i,
    {
        if a[i] != l[i] {
            assert(a@[i as int] != l@[i as int]);
            assert(a@ != l@);
            return false;
        }
        i = i + 1;
        assert(a@.subrange(0, i as int) =~= l@.subrange(0, i as int));
    }
    assert(a@ =~= a@.subrange(0, a@.len() as int));
    assert(l@ =~= l@.subrange(0, l@.len() as int));
    true
}

/// The value of digit `c` in `radix`.
fn digit(c: char, radix: usize) -> (r: Option<usize>)
    requires
        2 <= radix <= 16,
    ensures
        r == (match digit_of(c, radix as nat) {
            Some(v) => Some(v as usize),
            None => None,
        }),
{
    let code = c as u32;
    let d: u32 = if '0' <= c && c <= '9' {
        code - 48
    } else if 'a' <= c && c <= 'z' {
        code - 97 + 10
    } else if 'A' <= c && c <= 'Z' {
        code - 65 + 10
    } else {
        36
    };
    if (d as usize) < radix {
        Some(d as usize)
    } else {
        None
    }
}

/// Reads `chars` from position `from` as an unsigned number in `radix`.
fn parse_radix(chars: &Vec<char>, from: usize, radix: usize) -> (r: Option<usize>)
    requires
        from <= chars@.len(),
        2 <= radix <= 16,
    ensures
        r == parsed_usize(chars@.skip(from as int), radix as nat),
{
    let ghost s = chars@.skip(from as int);
    let mut start = from;
    if start < chars.len() && chars[start] == '+' {
        start = start + 1;
    }
    let ghost digits = chars@.skip(start as int);
    assert(digits =~= (if s.len() > 0 && s[0] == '+' {
        s.drop_first()
    } else {
        s
    }));
    if start == chars.len() {
        return None;
    }
    let mut acc: usize = 0;
    let mut i = start;
    while i < chars.len()
        invariant
            start <= i <= chars@.len(),
            2 <= radix <= 16,
            digits == chars@.skip(start as int),
            digits.len() > 0,
            s == chars@.skip(from as int),
            digits == (if s.len() > 0 && s[0] == '+' {
                s.drop_first()
            } else {
                s
            }),
            digits_value(digits.take(i - start), radix as nat) == Some(acc as nat),
        decreases chars@.len() - i,
    {
        let ghost k = i - start;
        assert(digits.take(k + 1).drop_last() =~= digits.take(k));
        assert(digits[k] == chars@[i as int]);
        assert(digits.take(k + 1).last() == chars@[i as int]);
        match digit(chars[i], radix) {
            None => {
                proof {
                    lemma_bad_digit(digits, k, radix as nat);
                }
                return None;
            },
            Some(x) => {
                assert(digits_value(digits.take(k + 1), radix as nat) == Some((acc * radix + x) as nat));
                match acc.checked_mul(radix) {
                    None => {
                        proof {
                            if digits_value(digits, radix as nat) is Some {
                                lemma_prefix_le(digits, k + 1, radix as nat);
                                assert(acc * radix + x >= acc * radix);
                            }
                        }
                        return None;
                    },
                    Some(m) => match m.checked_add(x) {
                        None => {
                            proof {
                                if digits_value(digits, radix as nat) is Some {
                                    lemma_prefix_le(digits, k + 1, radix as nat);
                                }
                            }
                            return None;
                        },
                        Some(v) => {
                            acc = v;
                        },
                    },
                }
            },
        }
        i = i + 1;
    }
    assert(digits.take(digits.len() as int) =~= digits);
    Some(acc)
}

/// A decimal number, as `str::parse::<usize>` reads one.
pub fn parse_decimal(text: &str) -> (r: Option<usize>)
    ensures
        r == parsed_usize(text@, 10),
{
    let chars = chars_of(text);
    assert(chars@.skip(0) =~= chars@);
    parse_radix(&chars, 0, 10)
}

/// An address typed by the user: hexadecimal after a `0x` prefix, else decimal.
pub fn parse_address(text: &str) -> (r: Option<usize>)
    ensures
        r == address_value(text@),
{
    let chars = chars_of(text);
    if chars.len() >= 2 && chars[0] == '0' && chars[1] == 'x' {
        parse_radix(&chars, 2, 16)
    } else {
        assert(chars@.skip(0) =~= chars@);
        parse_radix(&chars, 0, 10)
    }
}

// ---------------------------------------------------------------------------
// Commands
// ---------------------------------------------------------------------------

/// The debugger's commands.
#[derive(Debug, PartialEq, Eq, Structural, Clone, Copy)]
pub enum Command {
    Load,
    Disassemble,
    Print,
    Step,
    Screen,
    Jump,
    Break,
    Continue,
    Delete,
    Help,
    Legacy,
    Stack,
    Key,
    Keypad,
    Quit,
    Undefined,
}

/// The command a word names, by its long or its short form.
pub open spec fn command_named(word: Seq<char>) -> Command {
    if word == "load"@ || word == "l"@ {
        Command::Load
    } else if word == "disassemble"@ || word == "dis"@ {
        Command::Disassemble
    } else if word == "print"@ || word == "p"@ {
        Command::Print
    } else if word == "step"@ || word == "s"@ {
        Command::Step
    } else if word == "screen"@ || word == "sc"@ {
        Command::Screen
    } else if word == "jump"@ || word == "jmp"@ || word == "j"@ {
        Command::Jump
    } else if word == "break"@ || word == "b"@ {
        Command::Break
    } else if word == "continue"@ || word == "c"@ {
        Command::Continue
    } else if word == "delete"@ || word == "d"@ {
        Command::Delete
    } else if word == "help"@ || word == "h"@ {
        Command::Help
    } else if word == "legacy"@ || word == "leg"@ {
        Command::Legacy
    } else if word == "stack"@ || word == "stk"@ {
        Command::Stack
    } else if word == "key"@ || word == "k"@ {
        Command::Key
    } else if word == "keypad"@ || word == "kp"@ {
        Command::Keypad
    } else if word == "quit"@ {
        Command::Quit
    } else {
        Command::Undefined
    }
}

/// Each command is named by its long form and by its short form alike (and
/// `jump` also by `jmp`), and no two commands share a name.
pub proof fn lemma_command_words()
    ensures
        command_named("load"@) == Command::Load,
        command_named("l"@) == Command::Load,
        command_named("disassemble"@) == Command::Disassemble,
        command_named("dis"@) == Command::Disassemble,
        command_named("print"@) == Command::Print,
        command_named("p"@) == Command::Print,
        command_named("step"@) == Command::Step,
        command_named("s"@) == Command::Step,
        command_named("screen"@) == Command::Screen,
        command_named("sc"@) == Command::Screen,
        command_named("jump"@) == Command::Jump,
        command_named("j"@) == Command::Jump,
        command_named("break"@) == Command::Break,
        command_named("b"@) == Command::Break,
        command_named("continue"@) == Command::Continue,
        command_named("c"@) == Command::Continue,
        command_named("delete"@) == Command::Delete,
        command_named("d"@) == Command::Delete,
        command_named("help"@) == Command::Help,
        command_named("h"@) == Command::Help,
        command_named("legacy"@) == Command::Legacy,
        command_named("leg"@) == Command::Legacy,
        command_named("stack"@) == Command::Stack,
        command_named("stk"@) == Command::Stack,
        command_named("key"@) == Command::Key,
        command_named("k"@) == Command::Key,
        command_named("keypad"@) == Command::Keypad,
        command_named("kp"@) == Command::Keypad,
        command_named("jmp"@) == Command::Jump,
        command_named("quit"@) == Command::Quit,
{
    assert(command_named("load"@) == Command::Load) by {
        reveal_strlit("load");
    }
    assert(command_named("l"@) == Command::Load) by {
        reveal_strlit("load"); reveal_strlit("l");
        assert("l"@.len() != "load"@.len());
    }
    assert(command_named("disassemble"@) == Command::Disassemble) by {
        reveal_strlit("load"); reveal_strlit("l"); reveal_strlit("disassemble");
        assert("disassemble"@.len() != "load"@.len() && "disassemble"@.len() != "l"@.len());
    }
    assert(command_named("dis"@) == Command::Disassemble) by {
        reveal_strlit("load"); reveal_strlit("l"); reveal_strlit("disassemble");
        reveal_strlit("dis");
        assert("dis"@.len() != "load"@.len() && "dis"@.len() != "l"@.len()
            && "dis"@.len() != "disassemble"@.len());
    }
    assert(command_named("print"@) == Command::Print) by {
        reveal_strlit("load"); reveal_strlit("l"); reveal_strlit("disassemble");
        reveal_strlit("dis"); reveal_strlit("print");
        assert("print"@.len() != "load"@.len() && "print"@.len() != "l"@.len()
            && "print"@.len() != "disassemble"@.len() && "print"@.len() != "dis"@.len());
    }
    assert(command_named("p"@) == Command::Print) by {
        reveal_strlit("load"); reveal_strlit("l"); reveal_strlit("disassemble");
        reveal_strlit("dis"); reveal_strlit("print"); reveal_strlit("p");
        assert("p"@.len() != "load"@.len() && "p"@[0] != "l"@[0]
            && "p"@.len() != "disassemble"@.len() && "p"@.len() != "dis"@.len()
            && "p"@.len() != "print"@.len());
    }
    assert(command_named("step"@) == Command::Step) by {
        reveal_strlit("load"); reveal_strlit("l"); reveal_strlit("disassemble");
        reveal_strlit("dis"); reveal_strlit("print"); reveal_strlit("p");
        reveal_strlit("step");
        assert("step"@[0] != "load"@[0] && "step"@.len() != "l"@.len()
            && "step"@.len() != "disassemble"@.len() && "step"@.len() != "dis"@.len()
            && "step"@.len() != "print"@.len() && "step"@.len() != "p"@.len());
    }
    assert(command_named("s"@) == Command::Step) by {
        reveal_strlit("load"); reveal_strlit("l"); reveal_strlit("disassemble");
        reveal_strlit("dis"); reveal_strlit("print"); reveal_strlit("p");
        reveal_strlit("step"); reveal_strlit("s");
        assert("s"@.len() != "load"@.len() && "s"@[0] != "l"@[0]
            && "s"@.len() != "disassemble"@.len() && "s"@.len() != "dis"@.len()
            && "s"@.len() != "print"@.len() && "s"@[0] != "p"@[0] && "s"@.len() != "step"@.len());
    }
    assert(command_named("screen"@) == Command::Screen) by {
        reveal_strlit("load"); reveal_strlit("l"); reveal_strlit("disassemble");
        reveal_strlit("dis"); reveal_strlit("print"); reveal_strlit("p");
        reveal_strlit("step"); reveal_strlit("s"); reveal_strlit("screen");
        assert("screen"@.len() != "load"@.len() && "screen"@.len() != "l"@.len()
            && "screen"@.len() != "disassemble"@.len() && "screen"@.len() != "dis"@.len()
            && "screen"@.len() != "print"@.len() && "screen"@.len() != "p"@.len()
            && "screen"@.len() != "step"@.len() && "screen"@.len() != "s"@.len());
    }
    assert(command_named("sc"@) == Command::Screen) by {
        reveal_strlit("load"); reveal_strlit("l"); reveal_strlit("disassemble");
        reveal_strlit("dis"); reveal_strlit("print"); reveal_strlit("p");
        reveal_strlit("step"); reveal_strlit("s"); reveal_strlit("screen");
        reveal_strlit("sc");
        assert("sc"@.len() != "load"@.len() && "sc"@.len() != "l"@.len()
            && "sc"@.len() != "disassemble"@.len() && "sc"@.len() != "dis"@.len()
            && "sc"@.len() != "print"@.len() && "sc"@.len() != "p"@.len()
            && "sc"@.len() != "step"@.len() && "sc"@.len() != "s"@.len()
            && "sc"@.len() != "screen"@.len());
    }
    assert(command_named("jump"@) == Command::Jump) by {
        reveal_strlit("load"); reveal_strlit("l"); reveal_strlit("disassemble");
        reveal_strlit("dis"); reveal_strlit("print"); reveal_strlit("p");
        reveal_strlit("step"); reveal_strlit("s"); reveal_strlit("screen");
        reveal_strlit("sc"); reveal_strlit("jump");
        assert("jump"@[0] != "load"@[0] && "jump"@.len() != "l"@.len()
            && "jump"@.len() != "disassemble"@.len() && "jump"@.len() != "dis"@.len()
            && "jump"@.len() != "print"@.len() && "jump"@.len() != "p"@.len()
            && "jump"@[0] != "step"@[0] && "jump"@.len() != "s"@.len()
            && "jump"@.len() != "screen"@.len() && "jump"@.len() != "sc"@.len());
    }
    assert(command_named("j"@) == Command::Jump) by {
        reveal_strlit("load"); reveal_strlit("l"); reveal_strlit("disassemble");
        reveal_strlit("dis"); reveal_strlit("print"); reveal_strlit("p");
        reveal_strlit("step"); reveal_strlit("s"); reveal_strlit("screen");
        reveal_strlit("sc"); reveal_strlit("jump"); reveal_strlit("jmp");
        reveal_strlit("j");
        assert("j"@.len() != "load"@.len() && "j"@[0] != "l"@[0]
            && "j"@.len() != "disassemble"@.len() && "j"@.len() != "dis"@.len()
            && "j"@.len() != "print"@.len() && "j"@[0] != "p"@[0] && "j"@.len() != "step"@.len()
            && "j"@[0] != "s"@[0] && "j"@.len() != "screen"@.len() && "j"@.len() != "sc"@.len()
            && "j"@.len() != "jump"@.len() && "j"@.len() != "jmp"@.len());
    }
    assert(command_named("break"@) == Command::Break) by {
        reveal_strlit("load"); reveal_strlit("l"); reveal_strlit("disassemble");
        reveal_strlit("dis"); reveal_strlit("print"); reveal_strlit("p");
        reveal_strlit("step"); reveal_strlit("s"); reveal_strlit("screen");
        reveal_strlit("sc"); reveal_strlit("jump"); reveal_strlit("jmp");
        reveal_strlit("j"); reveal_strlit("break");
        assert("break"@.len() != "load"@.len() && "break"@.len() != "l"@.len()
            && "break"@.len() != "disassemble"@.len() && "break"@.len() != "dis"@.len()
            && "break"@[0] != "print"@[0] && "break"@.len() != "p"@.len()
            && "break"@.len() != "step"@.len() && "break"@.len() != "s"@.len()
            && "break"@.len() != "screen"@.len() && "break"@.len() != "sc"@.len()
            && "break"@.len() != "jump"@.len() && "break"@.len() != "jmp"@.len()
            && "break"@.len() != "j"@.len());
    }
    assert(command_named("b"@) == Command::Break) by {
        reveal_strlit("load"); reveal_strlit("l"); reveal_strlit("disassemble");
        reveal_strlit("dis"); reveal_strlit("print"); reveal_strlit("p");
        reveal_strlit("step"); reveal_strlit("s"); reveal_strlit("screen");
        reveal_strlit("sc"); reveal_strlit("jump"); reveal_strlit("jmp");
        reveal_strlit("j"); reveal_strlit("break"); reveal_strlit("b");
        assert("b"@.len() != "load"@.len() && "b"@[0] != "l"@[0]
            && "b"@.len() != "disassemble"@.len() && "b"@.len() != "dis"@.len()
            && "b"@.len() != "print"@.len() && "b"@[0] != "p"@[0] && "b"@.len() != "step"@.len()
            && "b"@[0] != "s"@[0] && "b"@.len() != "screen"@.len() && "b"@.len() != "sc"@.len()
            && "b"@.len() != "jump"@.len() && "b"@.len() != "jmp"@.len() && "b"@[0] != "j"@[0]
            && "b"@.len() != "break"@.len());
    }
    assert(command_named("continue"@) == Command::Continue) by {
        reveal_strlit("load"); reveal_strlit("l"); reveal_strlit("disassemble");
        reveal_strlit("dis"); reveal_strlit("print"); reveal_strlit("p");
        reveal_strlit("step"); reveal_strlit("s"); reveal_strlit("screen");
        reveal_strlit("sc"); reveal_strlit("jump"); reveal_strlit("jmp");
        reveal_strlit("j"); reveal_strlit("break"); reveal_strlit("b");
        reveal_strlit("continue");
        assert("continue"@.len() != "load"@.len() && "continue"@.len() != "l"@.len()
            && "continue"@.len() != "disassemble"@.len() && "continue"@.len() != "dis"@.len()
            && "continue"@.len() != "print"@.len() && "continue"@.len() != "p"@.len()
            && "continue"@.len() != "step"@.len() && "continue"@.len() != "s"@.len()
            && "continue"@.len() != "screen"@.len() && "continue"@.len() != "sc"@.len()
            && "continue"@.len() != "jump"@.len() && "continue"@.len() != "jmp"@.len()
            && "continue"@.len() != "j"@.len() && "continue"@.len() != "break"@.len()
            && "continue"@.len() != "b"@.len());
    }
    assert(command_named("c"@) == Command::Continue) by {
        reveal_strlit("load"); reveal_strlit("l"); reveal_strlit("disassemble");
        reveal_strlit("dis"); reveal_strlit("print"); reveal_strlit("p");
        reveal_strlit("step"); reveal_strlit("s"); reveal_strlit("screen");
        reveal_strlit("sc"); reveal_strlit("jump"); reveal_strlit("jmp");
        reveal_strlit("j"); reveal_strlit("break"); reveal_strlit("b");
        reveal_strlit("continue"); reveal_strlit("c");
        assert("c"@.len() != "load"@.len() && "c"@[0] != "l"@[0]
            && "c"@.len() != "disassemble"@.len() && "c"@.len() != "dis"@.len()
            && "c"@.len() != "print"@.len() && "c"@[0] != "p"@[0] && "c"@.len() != "step"@.len()
            && "c"@[0] != "s"@[0] && "c"@.len() != "screen"@.len() && "c"@.len() != "sc"@.len()
            && "c"@.len() != "jump"@.len() && "c"@.len() != "jmp"@.len() && "c"@[0] != "j"@[0]
            && "c"@.len() != "break"@.len() && "c"@[0] != "b"@[0]
            && "c"@.len() != "continue"@.len());
    }
    assert(command_named("delete"@) == Command::Delete) by {
        reveal_strlit("load"); reveal_strlit("l"); reveal_strlit("disassemble");
        reveal_strlit("dis"); reveal_strlit("print"); reveal_strlit("p");
        reveal_strlit("step"); reveal_strlit("s"); reveal_strlit("screen");
        reveal_strlit("sc"); reveal_strlit("jump"); reveal_strlit("jmp");
        reveal_strlit("j"); reveal_strlit("break"); reveal_strlit("b");
        reveal_strlit("continue"); reveal_strlit("c"); reveal_strlit("delete");
        assert("delete"@.len() != "load"@.len() && "delete"@.len() != "l"@.len()
            && "delete"@.len() != "disassemble"@.len() && "delete"@.len() != "dis"@.len()
            && "delete"@.len() != "print"@.len() && "delete"@.len() != "p"@.len()
            && "delete"@.len() != "step"@.len() && "delete"@.len() != "s"@.len()
            && "delete"@[0] != "screen"@[0] && "delete"@.len() != "sc"@.len()
            && "delete"@.len() != "jump"@.len() && "delete"@.len() != "jmp"@.len()
            && "delete"@.len() != "j"@.len() && "delete"@.len() != "break"@.len()
            && "delete"@.len() != "b"@.len() && "delete"@.len() != "continue"@.len()
            && "delete"@.len() != "c"@.len());
    }
    assert(command_named("d"@) == Command::Delete) by {
        reveal_strlit("load"); reveal_strlit("l"); reveal_strlit("disassemble");
        reveal_strlit("dis"); reveal_strlit("print"); reveal_strlit("p");
        reveal_strlit("step"); reveal_strlit("s"); reveal_strlit("screen");
        reveal_strlit("sc"); reveal_strlit("jump"); reveal_strlit("jmp");
        reveal_strlit("j"); reveal_strlit("break"); reveal_strlit("b");
        reveal_strlit("continue"); reveal_strlit("c"); reveal_strlit("delete");
        reveal_strlit("d");
        assert("d"@.len() != "load"@.len() && "d"@[0] != "l"@[0]
            && "d"@.len() != "disassemble"@.len() && "d"@.len() != "dis"@.len()
            && "d"@.len() != "print"@.len() && "d"@[0] != "p"@[0] && "d"@.len() != "step"@.len()
            && "d"@[0] != "s"@[0] && "d"@.len() != "screen"@.len() && "d"@.len() != "sc"@.len()
            && "d"@.len() != "jump"@.len() && "d"@.len() != "jmp"@.len() && "d"@[0] != "j"@[0]
            && "d"@.len() != "break"@.len() && "d"@[0] != "b"@[0]
            && "d"@.len() != "continue"@.len() && "d"@[0] != "c"@[0]
            && "d"@.len() != "delete"@.len());
    }
    assert(command_named("help"@) == Command::Help) by {
        reveal_strlit("load"); reveal_strlit("l"); reveal_strlit("disassemble");
        reveal_strlit("dis"); reveal_strlit("print"); reveal_strlit("p");
        reveal_strlit("step"); reveal_strlit("s"); reveal_strlit("screen");
        reveal_strlit("sc"); reveal_strlit("jump"); reveal_strlit("jmp");
        reveal_strlit("j"); reveal_strlit("break"); reveal_strlit("b");
        reveal_strlit("continue"); reveal_strlit("c"); reveal_strlit("delete");
        reveal_strlit("d"); reveal_strlit("help");
        assert("help"@[0] != "load"@[0] && "help"@.len() != "l"@.len()
            && "help"@.len() != "disassemble"@.len() && "help"@.len() != "dis"@.len()
            && "help"@.len() != "print"@.len() && "help"@.len() != "p"@.len()
            && "help"@[0] != "step"@[0] && "help"@.len() != "s"@.len()
            && "help"@.len() != "screen"@.len() && "help"@.len() != "sc"@.len()
            && "help"@[0] != "jump"@[0] && "help"@.len() != "jmp"@.len()
            && "help"@.len() != "j"@.len() && "help"@.len() != "break"@.len()
            && "help"@.len() != "b"@.len() && "help"@.len() != "continue"@.len()
            && "help"@.len() != "c"@.len() && "help"@.len() != "delete"@.len()
            && "help"@.len() != "d"@.len());
    }
    assert(command_named("h"@) == Command::Help) by {
        reveal_strlit("load"); reveal_strlit("l"); reveal_strlit("disassemble");
        reveal_strlit("dis"); reveal_strlit("print"); reveal_strlit("p");
        reveal_strlit("step"); reveal_strlit("s"); reveal_strlit("screen");
        reveal_strlit("sc"); reveal_strlit("jump"); reveal_strlit("jmp");
        reveal_strlit("j"); reveal_strlit("break"); reveal_strlit("b");
        reveal_strlit("continue"); reveal_strlit("c"); reveal_strlit("delete");
        reveal_strlit("d"); reveal_strlit("help"); reveal_strlit("h");
        assert("h"@.len() != "load"@.len() && "h"@[0] != "l"@[0]
            && "h"@.len() != "disassemble"@.len() && "h"@.len() != "dis"@.len()
            && "h"@.len() != "print"@.len() && "h"@[0] != "p"@[0] && "h"@.len() != "step"@.len()
            && "h"@[0] != "s"@[0] && "h"@.len() != "screen"@.len() && "h"@.len() != "sc"@.len()
            && "h"@.len() != "jump"@.len() && "h"@.len() != "jmp"@.len() && "h"@[0] != "j"@[0]
            && "h"@.len() != "break"@.len() && "h"@[0] != "b"@[0]
            && "h"@.len() != "continue"@.len() && "h"@[0] != "c"@[0]
            && "h"@.len() != "delete"@.len() && "h"@[0] != "d"@[0]
            && "h"@.len() != "help"@.len());
    }
    assert(command_named("legacy"@) == Command::Legacy) by {
        reveal_strlit("load"); reveal_strlit("l"); reveal_strlit("disassemble");
        reveal_strlit("dis"); reveal_strlit("print"); reveal_strlit("p");
        reveal_strlit("step"); reveal_strlit("s"); reveal_strlit("screen");
        reveal_strlit("sc"); reveal_strlit("jump"); reveal_strlit("jmp");
        reveal_strlit("j"); reveal_strlit("break"); reveal_strlit("b");
        reveal_strlit("continue"); reveal_strlit("c"); reveal_strlit("delete");
        reveal_strlit("d"); reveal_strlit("help"); reveal_strlit("h");
        reveal_strlit("legacy");
        assert("legacy"@.len() != "load"@.len() && "legacy"@.len() != "l"@.len()
            && "legacy"@.len() != "disassemble"@.len() && "legacy"@.len() != "dis"@.len()
            && "legacy"@.len() != "print"@.len() && "legacy"@.len() != "p"@.len()
            && "legacy"@.len() != "step"@.len() && "legacy"@.len() != "s"@.len()
            && "legacy"@[0] != "screen"@[0] && "legacy"@.len() != "sc"@.len()
            && "legacy"@.len() != "jump"@.len() && "legacy"@.len() != "jmp"@.len()
            && "legacy"@.len() != "j"@.len() && "legacy"@.len() != "break"@.len()
            && "legacy"@.len() != "b"@.len() && "legacy"@.len() != "continue"@.len()
            && "legacy"@.len() != "c"@.len() && "legacy"@[0] != "delete"@[0]
            && "legacy"@.len() != "d"@.len() && "legacy"@.len() != "help"@.len()
            && "legacy"@.len() != "h"@.len());
    }
    assert(command_named("leg"@) == Command::Legacy) by {
        reveal_strlit("load"); reveal_strlit("l"); reveal_strlit("disassemble");
        reveal_strlit("dis"); reveal_strlit("print"); reveal_strlit("p");
        reveal_strlit("step"); reveal_strlit("s"); reveal_strlit("screen");
        reveal_strlit("sc"); reveal_strlit("jump"); reveal_strlit("jmp");
        reveal_strlit("j"); reveal_strlit("break"); reveal_strlit("b");
        reveal_strlit("continue"); reveal_strlit("c"); reveal_strlit("delete");
        reveal_strlit("d"); reveal_strlit("help"); reveal_strlit("h");
        reveal_strlit("legacy"); reveal_strlit("leg");
        assert("leg"@.len() != "load"@.len() && "leg"@.len() != "l"@.len()
            && "leg"@.len() != "disassemble"@.len() && "leg"@[0] != "dis"@[0]
            && "leg"@.len() != "print"@.len() && "leg"@.len() != "p"@.len()
            && "leg"@.len() != "step"@.len() && "leg"@.len() != "s"@.len()
            && "leg"@.len() != "screen"@.len() && "leg"@.len() != "sc"@.len()
            && "leg"@.len() != "jump"@.len() && "leg"@[0] != "jmp"@[0]
            && "leg"@.len() != "j"@.len() && "leg"@.len() != "break"@.len()
            && "leg"@.len() != "b"@.len() && "leg"@.len() != "continue"@.len()
            && "leg"@.len() != "c"@.len() && "leg"@.len() != "delete"@.len()
            && "leg"@.len() != "d"@.len() && "leg"@.len() != "help"@.len()
            && "leg"@.len() != "h"@.len() && "leg"@.len() != "legacy"@.len());
    }
    assert(command_named("stack"@) == Command::Stack) by {
        reveal_strlit("load"); reveal_strlit("l"); reveal_strlit("disassemble");
        reveal_strlit("dis"); reveal_strlit("print"); reveal_strlit("p");
        reveal_strlit("step"); reveal_strlit("s"); reveal_strlit("screen");
        reveal_strlit("sc"); reveal_strlit("jump"); reveal_strlit("jmp");
        reveal_strlit("j"); reveal_strlit("break"); reveal_strlit("b");
        reveal_strlit("continue"); reveal_strlit("c"); reveal_strlit("delete");
        reveal_strlit("d"); reveal_strlit("help"); reveal_strlit("h");
        reveal_strlit("legacy"); reveal_strlit("leg"); reveal_strlit("stack");
        assert("stack"@.len() != "load"@.len() && "stack"@.len() != "l"@.len()
            && "stack"@.len() != "disassemble"@.len() && "stack"@.len() != "dis"@.len()
            && "stack"@[0] != "print"@[0] && "stack"@.len() != "p"@.len()
            && "stack"@.len() != "step"@.len() && "stack"@.len() != "s"@.len()
            && "stack"@.len() != "screen"@.len() && "stack"@.len() != "sc"@.len()
            && "stack"@.len() != "jump"@.len() && "stack"@.len() != "jmp"@.len()
            && "stack"@.len() != "j"@.len() && "stack"@[0] != "break"@[0]
            && "stack"@.len() != "b"@.len() && "stack"@.len() != "continue"@.len()
            && "stack"@.len() != "c"@.len() && "stack"@.len() != "delete"@.len()
            && "stack"@.len() != "d"@.len() && "stack"@.len() != "help"@.len()
            && "stack"@.len() != "h"@.len() && "stack"@.len() != "legacy"@.len()
            && "stack"@.len() != "leg"@.len());
    }
    assert(command_named("stk"@) == Command::Stack) by {
        reveal_strlit("load"); reveal_strlit("l"); reveal_strlit("disassemble");
        reveal_strlit("dis"); reveal_strlit("print"); reveal_strlit("p");
        reveal_strlit("step"); reveal_strlit("s"); reveal_strlit("screen");
        reveal_strlit("sc"); reveal_strlit("jump"); reveal_strlit("jmp");
        reveal_strlit("j"); reveal_strlit("break"); reveal_strlit("b");
        reveal_strlit("continue"); reveal_strlit("c"); reveal_strlit("delete");
        reveal_strlit("d"); reveal_strlit("help"); reveal_strlit("h");
        reveal_strlit("legacy"); reveal_strlit("leg"); reveal_strlit("stack");
        reveal_strlit("stk");
        assert("stk"@.len() != "load"@.len() && "stk"@.len() != "l"@.len()
            && "stk"@.len() != "disassemble"@.len() && "stk"@[0] != "dis"@[0]
            && "stk"@.len() != "print"@.len() && "stk"@.len() != "p"@.len()
            && "stk"@.len() != "step"@.len() && "stk"@.len() != "s"@.len()
            && "stk"@.len() != "screen"@.len() && "stk"@.len() != "sc"@.len()
            && "stk"@.len() != "jump"@.len() && "stk"@[0] != "jmp"@[0]
            && "stk"@.len() != "j"@.len() && "stk"@.len() != "break"@.len()
            && "stk"@.len() != "b"@.len() && "stk"@.len() != "continue"@.len()
            && "stk"@.len() != "c"@.len() && "stk"@.len() != "delete"@.len()
            && "stk"@.len() != "d"@.len() && "stk"@.len() != "help"@.len()
            && "stk"@.len() != "h"@.len() && "stk"@.len() != "legacy"@.len()
            && "stk"@[0] != "leg"@[0] && "stk"@.len() != "stack"@.len());
    }
    assert(command_named("key"@) == Command::Key) by {
        reveal_strlit("load"); reveal_strlit("l"); reveal_strlit("disassemble");
        reveal_strlit("dis"); reveal_strlit("print"); reveal_strlit("p");
        reveal_strlit("step"); reveal_strlit("s"); reveal_strlit("screen");
        reveal_strlit("sc"); reveal_strlit("jump"); reveal_strlit("jmp");
        reveal_strlit("j"); reveal_strlit("break"); reveal_strlit("b");
        reveal_strlit("continue"); reveal_strlit("c"); reveal_strlit("delete");
        reveal_strlit("d"); reveal_strlit("help"); reveal_strlit("h");
        reveal_strlit("legacy"); reveal_strlit("leg"); reveal_strlit("stack");
        reveal_strlit("stk"); reveal_strlit("key");
        assert("key"@.len() != "load"@.len() && "key"@.len() != "l"@.len()
            && "key"@.len() != "disassemble"@.len() && "key"@[0] != "dis"@[0]
            && "key"@.len() != "print"@.len() && "key"@.len() != "p"@.len()
            && "key"@.len() != "step"@.len() && "key"@.len() != "s"@.len()
            && "key"@.len() != "screen"@.len() && "key"@.len() != "sc"@.len()
            && "key"@.len() != "jump"@.len() && "key"@[0] != "jmp"@[0]
            && "key"@.len() != "j"@.len() && "key"@.len() != "break"@.len()
            && "key"@.len() != "b"@.len() && "key"@.len() != "continue"@.len()
            && "key"@.len() != "c"@.len() && "key"@.len() != "delete"@.len()
            && "key"@.len() != "d"@.len() && "key"@.len() != "help"@.len()
            && "key"@.len() != "h"@.len() && "key"@.len() != "legacy"@.len()
            && "key"@[0] != "leg"@[0] && "key"@.len() != "stack"@.len()
            && "key"@[0] != "stk"@[0]);
    }
    assert(command_named("k"@) == Command::Key) by {
        reveal_strlit("load"); reveal_strlit("l"); reveal_strlit("disassemble");
        reveal_strlit("dis"); reveal_strlit("print"); reveal_strlit("p");
        reveal_strlit("step"); reveal_strlit("s"); reveal_strlit("screen");
        reveal_strlit("sc"); reveal_strlit("jump"); reveal_strlit("jmp");
        reveal_strlit("j"); reveal_strlit("break"); reveal_strlit("b");
        reveal_strlit("continue"); reveal_strlit("c"); reveal_strlit("delete");
        reveal_strlit("d"); reveal_strlit("help"); reveal_strlit("h");
        reveal_strlit("legacy"); reveal_strlit("leg"); reveal_strlit("stack");
        reveal_strlit("stk"); reveal_strlit("key"); reveal_strlit("k");
        assert("k"@.len() != "load"@.len() && "k"@[0] != "l"@[0]
            && "k"@.len() != "disassemble"@.len() && "k"@.len() != "dis"@.len()
            && "k"@.len() != "print"@.len() && "k"@[0] != "p"@[0] && "k"@.len() != "step"@.len()
            && "k"@[0] != "s"@[0] && "k"@.len() != "screen"@.len() && "k"@.len() != "sc"@.len()
            && "k"@.len() != "jump"@.len() && "k"@.len() != "jmp"@.len() && "k"@[0] != "j"@[0]
            && "k"@.len() != "break"@.len() && "k"@[0] != "b"@[0]
            && "k"@.len() != "continue"@.len() && "k"@[0] != "c"@[0]
            && "k"@.len() != "delete"@.len() && "k"@[0] != "d"@[0]
            && "k"@.len() != "help"@.len() && "k"@[0] != "h"@[0]
            && "k"@.len() != "legacy"@.len() && "k"@.len() != "leg"@.len()
            && "k"@.len() != "stack"@.len() && "k"@.len() != "stk"@.len()
            && "k"@.len() != "key"@.len());
    }
    assert(command_named("keypad"@) == Command::Keypad) by {
        reveal_strlit("load"); reveal_strlit("l"); reveal_strlit("disassemble");
        reveal_strlit("dis"); reveal_strlit("print"); reveal_strlit("p");
        reveal_strlit("step"); reveal_strlit("s"); reveal_strlit("screen");
        reveal_strlit("sc"); reveal_strlit("jump"); reveal_strlit("jmp");
        reveal_strlit("j"); reveal_strlit("break"); reveal_strlit("b");
        reveal_strlit("continue"); reveal_strlit("c"); reveal_strlit("delete");
        reveal_strlit("d"); reveal_strlit("help"); reveal_strlit("h");
        reveal_strlit("legacy"); reveal_strlit("leg"); reveal_strlit("stack");
        reveal_strlit("stk"); reveal_strlit("key"); reveal_strlit("k");
        reveal_strlit("keypad");
        assert("keypad"@.len() != "load"@.len() && "keypad"@.len() != "l"@.len()
            && "keypad"@.len() != "disassemble"@.len() && "keypad"@.len() != "dis"@.len()
            && "keypad"@.len() != "print"@.len() && "keypad"@.len() != "p"@.len()
            && "keypad"@.len() != "step"@.len() && "keypad"@.len() != "s"@.len()
            && "keypad"@[0] != "screen"@[0] && "keypad"@.len() != "sc"@.len()
            && "keypad"@.len() != "jump"@.len() && "keypad"@.len() != "jmp"@.len()
            && "keypad"@.len() != "j"@.len() && "keypad"@.len() != "break"@.len()
            && "keypad"@.len() != "b"@.len() && "keypad"@.len() != "continue"@.len()
            && "keypad"@.len() != "c"@.len() && "keypad"@[0] != "delete"@[0]
            && "keypad"@.len() != "d"@.len() && "keypad"@.len() != "help"@.len()
            && "keypad"@.len() != "h"@.len() && "keypad"@[0] != "legacy"@[0]
            && "keypad"@.len() != "leg"@.len() && "keypad"@.len() != "stack"@.len()
            && "keypad"@.len() != "stk"@.len() && "keypad"@.len() != "key"@.len()
            && "keypad"@.len() != "k"@.len());
    }
    assert(command_named("kp"@) == Command::Keypad) by {
        reveal_strlit("load"); reveal_strlit("l"); reveal_strlit("disassemble");
        reveal_strlit("dis"); reveal_strlit("print"); reveal_strlit("p");
        reveal_strlit("step"); reveal_strlit("s"); reveal_strlit("screen");
        reveal_strlit("sc"); reveal_strlit("jump"); reveal_strlit("jmp");
        reveal_strlit("j"); reveal_strlit("break"); reveal_strlit("b");
        reveal_strlit("continue"); reveal_strlit("c"); reveal_strlit("delete");
        reveal_strlit("d"); reveal_strlit("help"); reveal_strlit("h");
        reveal_strlit("legacy"); reveal_strlit("leg"); reveal_strlit("stack");
        reveal_strlit("stk"); reveal_strlit("key"); reveal_strlit("k");
        reveal_strlit("keypad"); reveal_strlit("kp");
        assert("kp"@.len() != "load"@.len() && "kp"@.len() != "l"@.len()
            && "kp"@.len() != "disassemble"@.len() && "kp"@.len() != "dis"@.len()
            && "kp"@.len() != "print"@.len() && "kp"@.len() != "p"@.len()
            && "kp"@.len() != "step"@.len() && "kp"@.len() != "s"@.len()
            && "kp"@.len() != "screen"@.len() && "kp"@[0] != "sc"@[0]
            && "kp"@.len() != "jump"@.len() && "kp"@.len() != "jmp"@.len()
            && "kp"@.len() != "j"@.len() && "kp"@.len() != "break"@.len()
            && "kp"@.len() != "b"@.len() && "kp"@.len() != "continue"@.len()
            && "kp"@.len() != "c"@.len() && "kp"@.len() != "delete"@.len()
            && "kp"@.len() != "d"@.len() && "kp"@.len() != "help"@.len()
            && "kp"@.len() != "h"@.len() && "kp"@.len() != "legacy"@.len()
            && "kp"@.len() != "leg"@.len() && "kp"@.len() != "stack"@.len()
            && "kp"@.len() != "stk"@.len() && "kp"@.len() != "key"@.len()
            && "kp"@.len() != "k"@.len() && "kp"@.len() != "keypad"@.len());
    }
    assert(command_named("jmp"@) == Command::Jump) by {
        reveal_strlit("load"); reveal_strlit("l"); reveal_strlit("disassemble");
        reveal_strlit("dis"); reveal_strlit("print"); reveal_strlit("p");
        reveal_strlit("step"); reveal_strlit("s"); reveal_strlit("screen");
        reveal_strlit("sc"); reveal_strlit("jump"); reveal_strlit("jmp");
        assert("jmp"@.len() != "load"@.len() && "jmp"@.len() != "l"@.len()
            && "jmp"@.len() != "disassemble"@.len() && "jmp"@[0] != "dis"@[0]
            && "jmp"@.len() != "print"@.len() && "jmp"@.len() != "p"@.len()
            && "jmp"@.len() != "step"@.len() && "jmp"@.len() != "s"@.len()
            && "jmp"@.len() != "screen"@.len() && "jmp"@.len() != "sc"@.len()
            && "jmp"@.len() != "jump"@.len());
    }
    assert(command_named("quit"@) == Command::Quit) by {
        reveal_strlit("load"); reveal_strlit("l"); reveal_strlit("disassemble");
        reveal_strlit("dis"); reveal_strlit("print"); reveal_strlit("p");
        reveal_strlit("step"); reveal_strlit("s"); reveal_strlit("screen");
        reveal_strlit("sc"); reveal_strlit("jump"); reveal_strlit("jmp");
        reveal_strlit("j"); reveal_strlit("break"); reveal_strlit("b");
        reveal_strlit("continue"); reveal_strlit("c"); reveal_strlit("delete");
        reveal_strlit("d"); reveal_strlit("help"); reveal_strlit("h");
        reveal_strlit("legacy"); reveal_strlit("leg"); reveal_strlit("stack");
        reveal_strlit("stk"); reveal_strlit("key"); reveal_strlit("k");
        reveal_strlit("keypad"); reveal_strlit("kp"); reveal_strlit("quit");
        assert("quit"@[0] != "load"@[0] && "quit"@.len() != "l"@.len()
            && "quit"@.len() != "disassemble"@.len() && "quit"@.len() != "dis"@.len()
            && "quit"@.len() != "print"@.len() && "quit"@.len() != "p"@.len()
            && "quit"@[0] != "step"@[0] && "quit"@.len() != "s"@.len()
            && "quit"@.len() != "screen"@.len() && "quit"@.len() != "sc"@.len()
            && "quit"@[0] != "jump"@[0] && "quit"@.len() != "jmp"@.len()
            && "quit"@.len() != "j"@.len() && "quit"@.len() != "break"@.len()
            && "quit"@.len() != "b"@.len() && "quit"@.len() != "continue"@.len()
            && "quit"@.len() != "c"@.len() && "quit"@.len() != "delete"@.len()
            && "quit"@.len() != "d"@.len() && "quit"@[0] != "help"@[0]
            && "quit"@.len() != "h"@.len() && "quit"@.len() != "legacy"@.len()
            && "quit"@.len() != "leg"@.len() && "quit"@.len() != "stack"@.len()
            && "quit"@.len() != "stk"@.len() && "quit"@.len() != "key"@.len()
            && "quit"@.len() != "k"@.len() && "quit"@.len() != "keypad"@.len()
            && "quit"@.len() != "kp"@.len());
    }
}

/// The command that the first word of a line names.
pub fn parse_command(word: &str) -> (c: Command)
    ensures
        c == command_named(word@),
{
    if text_is(word, "load") || text_is(word, "l") {
        Command::Load
    } else if text_is(word, "disassemble") || text_is(word, "dis") {
        Command::Disassemble
    } else if text_is(word, "print") || text_is(word, "p") {
        Command::Print
    } else if text_is(word, "step") || text_is(word, "s") {
        Command::Step
    } else if text_is(word, "screen") || text_is(word, "sc") {
        Command::Screen
    } else if text_is(word, "jump") || text_is(word, "jmp") || text_is(word, "j") {
        Command::Jump
    } else if text_is(word, "break") || text_is(word, "b") {
        Command::Break
    } else if text_is(word, "continue") || text_is(word, "c") {
        Command::Continue
    } else if text_is(word, "delete") || text_is(word, "d") {
        Command::Delete
    } else if text_is(word, "help") || text_is(word, "h") {
        Command::Help
    } else if text_is(word, "legacy") || text_is(word, "leg") {
        Command::Legacy
    } else if text_is(word, "stack") || text_is(word, "stk") {
        Command::Stack
    } else if text_is(word, "key") || text_is(word, "k") {
        Command::Key
    } else if text_is(word, "keypad") || text_is(word, "kp") {
        Command::Keypad
    } else if text_is(word, "quit") {
        Command::Quit
    } else {
        Command::Undefined
    }
}

// ---------------------------------------------------------------------------
// Breakpoints and jumps
// ---------------------------------------------------------------------------

/// What became of a breakpoint command.
#[derive(Debug, PartialEq, Eq, Structural, Clone, Copy)]
pub enum BreakpointOutcome {
    /// No address was given.
    MissingAddress,
    /// The address could not be read; nothing is said.
    Unreadable,
    /// The address lies beyond 0xFFF.
    TooBig(usize),
    /// The address is odd.
    Odd(usize),
    /// A breakpoint now stands at the address.
    Placed(usize),
    /// No breakpoint stood at the address.
    NotFound(usize),
    /// The breakpoint at the address is gone.
    Removed(usize),
}

/// `break ADDRESS`: sets a breakpoint at an even address up to 0xFFF.
pub fn set_breakpoint(tokens: &[&str], b: &mut HashSet<usize>) -> (r: BreakpointOutcome)
    ensures
        tokens@.len() < 2 ==> r == BreakpointOutcome::MissingAddress && final(b)@ == old(b)@,
        tokens@.len() >= 2 ==> match address_value(tokens@[1]@) {
            None => r == BreakpointOutcome::Unreadable && final(b)@ == old(b)@,
            Some(addr) => if addr > 0xFFF {
                r == BreakpointOutcome::TooBig(addr) && final(b)@ == old(b)@
            } else if addr % 2 != 0 {
                r == BreakpointOutcome::Odd(addr) && final(b)@ == old(b)@
            } else {
                r == BreakpointOutcome::Placed(addr) && final(b)@ == old(b)@.insert(addr)
            },
        },
{
    if tokens.len() < 2 {
        return BreakpointOutcome::MissingAddress;
    }
    match parse_address(tokens[1]) {
        None => BreakpointOutcome::Unreadable,
        Some(addr) => {
            if addr > 0xFFF {
                return BreakpointOutcome::TooBig(addr);
            }
            if addr % 2 != 0 {
                return BreakpointOutcome::Odd(addr);
            }
            b.insert(addr);
            BreakpointOutcome::Placed(addr)
        },
    }
}

/// Setting a breakpoint where none stood and deleting it again leaves the
/// set of breakpoints as it was.
pub proof fn lemma_break_then_delete(b: Set<usize>, addr: usize)
    requires
        !b.contains(addr),
    ensures
        b.insert(addr).remove(addr) == b,
        b.insert(addr).contains(addr),
{
    assert(b.insert(addr).remove(addr) =~= b);
}

/// `delete ADDRESS`: removes the breakpoint at an address.
pub fn delete_breakpoint(tokens: &[&str], b: &mut HashSet<usize>) -> (r: BreakpointOutcome)
    ensures
        tokens@.len() < 2 ==> r == BreakpointOutcome::MissingAddress && final(b)@ == old(b)@,
        tokens@.len() >= 2 ==> match address_value(tokens@[1]@) {
            None => r == BreakpointOutcome::Unreadable && final(b)@ == old(b)@,
            Some(addr) => if !old(b)@.contains(addr) {
                r == BreakpointOutcome::NotFound(addr) && final(b)@ == old(b)@
            } else {
                r == BreakpointOutcome::Removed(addr) && final(b)@ == old(b)@.remove(addr)
            },
        },
{
    if tokens.len() < 2 {
        return BreakpointOutcome::MissingAddress;
    }
    match parse_address(tokens[1]) {
        None => BreakpointOutcome::Unreadable,
        Some(addr) => {
            if !b.contains(&addr) {
                return BreakpointOutcome::NotFound(addr);
            }
            b.remove(&addr);
            BreakpointOutcome::Removed(addr)
        },
    }
}

/// Whether running should stop: a breakpoint stands at the program counter,
/// or it reached the last instruction of memory, 4094.
pub fn breakpoint_reached(pc: usize, b: &HashSet<usize>) -> (stop: bool)
    ensures
        stop == (b@.contains(pc) || pc == 4094),
{
    b.contains(&pc) || pc == 4094
}

/// Whether `continue` stops after a cycle: the cycle failed, so the program
/// has ended, or a breakpoint or the last instruction of memory is reached.
pub fn continue_stops(cycle: &Result<(), CpuError>, pc: usize, b: &HashSet<usize>) -> (stop: bool)
    ensures
        stop == (cycle is Err || b@.contains(pc) || pc == 4094),
{
    cycle.is_err() || breakpoint_reached(pc, b)
}

/// What became of a jump command.
#[derive(Debug, PartialEq, Eq, Structural, Clone, Copy)]
pub enum JumpOutcome {
    /// No address was given.
    MissingAddress,
    /// The address could not be read.
    Invalid,
    /// The address lies beyond 0xFFF.
    TooBig(usize),
    /// The address is odd.
    Odd(usize),
    /// The program counter now holds the address.
    Jumped(usize),
}

/// `jump ADDRESS`: moves the program counter to an even address up to 0xFFF.
pub fn jump(tokens: &[&str], c: &mut CPU) -> (r: JumpOutcome)
    ensures
        tokens@.len() < 2 ==> r == JumpOutcome::MissingAddress && final(c)@ == old(c)@,
        tokens@.len() >= 2 ==> match address_value(tokens@[1]@) {
            None => r == JumpOutcome::Invalid && final(c)@ == old(c)@,
            Some(addr) => if addr > 0xFFF {
                r == JumpOutcome::TooBig(addr) && final(c)@ == old(c)@
            } else if addr % 2 != 0 {
                r == JumpOutcome::Odd(addr) && final(c)@ == old(c)@
            } else {
                r == JumpOutcome::Jumped(addr) && final(c)@ == (crate::cpu::CpuState { pc: addr, ..old(c)@ })
            },
        },
{
    if tokens.len() < 2 {
        return JumpOutcome::MissingAddress;
    }
    match parse_address(tokens[1]) {
        None => JumpOutcome::Invalid,
        Some(addr) => {
            if addr > 0xFFF {
                return JumpOutcome::TooBig(addr);
            }
            if addr % 2 != 0 {
                return JumpOutcome::Odd(addr);
            }
            c.set_pc(addr);
            JumpOutcome::Jumped(addr)
        },
    }
}

// ---------------------------------------------------------------------------
// Disassembly and registers
// ---------------------------------------------------------------------------

/// What a disassemble command asks for.
#[derive(Debug, PartialEq, Eq, Structural, Clone, Copy)]
pub enum DisassemblyRequest {
    /// `lines` instructions from `start`, or from near the program counter.
    Range { start: Option<usize>, lines: usize },
    /// The line count is not a decimal number.
    BadLineCount,
}

/// `disassemble [LINES=10] [ADDRESS]`: the line count and the start asked for.
/// A start that cannot be read counts as none.
pub fn disassembly_request(tokens: &[&str]) -> (r: DisassemblyRequest)
    ensures
        tokens@.len() < 2 ==> r == (DisassemblyRequest::Range { start: None, lines: 10 }),
        tokens@.len() >= 2 ==> match parsed_usize(tokens@[1]@, 10) {
            None => r == DisassemblyRequest::BadLineCount,
            Some(lines) => r == (DisassemblyRequest::Range {
                start: if tokens@.len() > 2 {
                    address_value(tokens@[2]@)
                } else {
                    None
                },
                lines,
            }),
        },
{
    if tokens.len() < 2 {
        return DisassemblyRequest::Range { start: None, lines: 10 };
    }
    let lines = match parse_decimal(tokens[1]) {
        Some(n) => n,
        None => return DisassemblyRequest::BadLineCount,
    };
    let mut start = None;
    if tokens.len() > 2 {
        start = parse_address(tokens[2]);
    }
    DisassemblyRequest::Range { start, lines }
}

/// What a print command asks for.
#[derive(Debug, PartialEq, Eq, Structural, Clone, Copy)]
pub enum RegisterRequest {
    /// No register was named.
    Missing,
    /// `all`: every register.
    All,
    /// `I`: the address register.
    Index,
    /// The register is not a decimal number.
    NotInteger,
    /// One register, by number.
    One(usize),
}

/// `print NUM|I|all`: which registers to show.
pub fn register_request(tokens: &[&str]) -> (r: RegisterRequest)
    ensures
        tokens@.len() < 2 ==> r == RegisterRequest::Missing,
        tokens@.len() >= 2 ==> r == (if tokens@[1]@ == "all"@ {
            RegisterRequest::All
        } else if tokens@[1]@ == "I"@ {
            RegisterRequest::Index
        } else {
            match parsed_usize(tokens@[1]@, 10) {
                None => RegisterRequest::NotInteger,
                Some(n) => RegisterRequest::One(n),
            }
        }),
{
    if tokens.len() < 2 {
        return RegisterRequest::Missing;
    }
    if text_is(tokens[1], "all") {
        return RegisterRequest::All;
    }
    if text_is(tokens[1], "I") {
        return RegisterRequest::Index;
    }
    match parse_decimal(tokens[1]) {
        None => RegisterRequest::NotInteger,
        Some(n) => RegisterRequest::One(n),
    }
}

/// What a key command asks for.
#[derive(Debug, PartialEq, Eq, Structural, Clone, Copy)]
pub enum KeyRequest {
    /// No key was named.
    Missing,
    /// The key is not a decimal number.
    NotInteger,
    /// The key with this number.
    Key(usize),
}

/// `key NUM`: which keypad key to flip.
pub fn key_request(tokens: &[&str]) -> (r: KeyRequest)
    ensures
        tokens@.len() < 2 ==> r == KeyRequest::Missing,
        tokens@.len() >= 2 ==> r == (match parsed_usize(tokens@[1]@, 10) {
            None => KeyRequest::NotInteger,
            Some(n) => KeyRequest::Key(n),
        }),
{
    if tokens.len() < 2 {
        return KeyRequest::Missing;
    }
    match parse_decimal(tokens[1]) {
        None => KeyRequest::NotInteger,
        Some(n) => KeyRequest::Key(n),
    }
}

} // verus!
