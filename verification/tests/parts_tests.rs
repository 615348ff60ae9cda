use chip_8::cpu::constants::KEYDELAY;
use chip_8::cpu::key::Chip8Key;
use chip_8::cpu::stack::Stack;
use chip_8::cpu::CpuError;
use chip_8::keybindings::{bindings_from_json, check_bindings, BindingsError, KeyBindings};

#[test]
fn stack_pops_what_was_pushed() {
    let mut s = Stack::new();
    assert_eq!(s.pop(), Err(CpuError::StackUnderflowError));
    assert_eq!(s.push(0x200), Ok(()));
    assert_eq!(s.push(0x300), Ok(()));
    assert_eq!(s.entries(), vec![0x200, 0x300]);
    assert_eq!(s.pop(), Ok(0x300));
    assert_eq!(s.pop(), Ok(0x200));
    assert_eq!(s.pop(), Err(CpuError::StackUnderflowError));
}

#[test]
fn stack_holds_twelve() {
    let mut s = Stack::new();
    for k in 0..12u16 {
        assert_eq!(s.push(k), Ok(()));
    }
    assert_eq!(s.push(99), Err(CpuError::StackOverflowError));
    assert_eq!(s.entries().len(), 12);
    assert_eq!(s.pop(), Ok(11));
}

#[test]
fn key_press_toggle_release() {
    let mut k = Chip8Key::new();
    assert!(!k.value());
    k.press();
    assert!(k.value());
    k.update();
    assert!(k.value());
    k.release_after(KEYDELAY - 1);
    assert!(k.value());
    k.release_after(KEYDELAY);
    assert!(!k.value());
    k.toggle();
    assert!(k.value());
    k.toggle();
    assert!(!k.value());
    k.update();
    assert!(!k.value());
}

#[test]
fn key_pressed_at_a_given_instant() {
    let now = std::time::Instant::now();
    let long_ago = now
        .checked_sub(std::time::Duration::from_millis(KEYDELAY as u64 + 500))
        .unwrap();
    // Pressed long ago: the first update releases it.
    let mut k = Chip8Key::new_at(now);
    assert!(!k.value());
    k.press_at(long_ago);
    assert!(k.value());
    k.update();
    assert!(!k.value());
    // Pressed just now: an update keeps it down.
    k.press_at(std::time::Instant::now());
    k.update();
    assert!(k.value());
}

#[test]
fn standard_layout() {
    let b = KeyBindings::standard();
    assert_eq!(b.lookup('1'), Some(1));
    assert_eq!(b.lookup('4'), Some(12));
    assert_eq!(b.lookup('x'), Some(0));
    assert_eq!(b.lookup('v'), Some(15));
    assert_eq!(b.lookup('y'), None);
    assert!(b.contains('z'));
    assert!(b.covers_keypad());
}

#[test]
fn later_pairs_override() {
    let b = KeyBindings::from_pairs(vec![('a', 1), ('b', 2), ('a', 3)]);
    assert_eq!(b.lookup('a'), Some(3));
    assert_eq!(b.lookup('b'), Some(2));
    assert!(!b.covers_keypad());
}

#[test]
fn coverage_counts_only_current_bindings() {
    let mut pairs: Vec<(char, usize)> = (0..16).map(|n| (char::from(b'a' + n as u8), n)).collect();
    assert!(KeyBindings::from_pairs(pairs.clone()).covers_keypad());
    // Rebinding 'a' from 0 to 5 leaves key 0 unpressed.
    pairs.push(('a', 5));
    assert!(!KeyBindings::from_pairs(pairs).covers_keypad());
}

#[test]
fn check_bindings_refuses_incomplete() {
    assert!(check_bindings(KeyBindings::standard()).is_ok());
    assert_eq!(
        check_bindings(KeyBindings::from_pairs(vec![('a', 1)])).err(),
        Some(BindingsError::IncompleteKeypad)
    );
    assert_eq!(
        check_bindings(KeyBindings::from_pairs(vec![('a', 16)])).err(),
        Some(BindingsError::IncompleteKeypad)
    );
}

#[test]
fn bindings_from_json_full() {
    let text = r#"{"1":1,"2":2,"3":3,"4":12,"q":4,"w":5,"e":6,"r":13,"a":7,"s":8,"d":9,"f":14,"z":10,"x":0,"c":11,"v":15}"#;
    let b = bindings_from_json(text).unwrap();
    assert_eq!(b.lookup('x'), Some(0));
    assert_eq!(b.lookup('f'), Some(14));
    assert_eq!(b.lookup('k'), None);
}

#[test]
fn bindings_from_json_with_extra_keys() {
    let text = r#"{"1":1,"2":2,"3":3,"4":12,"q":4,"w":5,"e":6,"r":13,"a":7,"s":8,"d":9,"f":14,"z":10,"x":0,"c":11,"v":15,"p":3}"#;
    let b = bindings_from_json(text).unwrap();
    assert_eq!(b.lookup('p'), Some(3));
}

#[test]
fn bindings_from_json_beyond_the_keypad() {
    let text = r#"{"1":1,"2":2,"3":3,"4":12,"q":4,"w":5,"e":6,"r":13,"a":7,"s":8,"d":9,"f":14,"z":10,"x":0,"c":11,"v":15,"p":16}"#;
    let b = bindings_from_json(text).unwrap();
    assert_eq!(b.lookup('p'), Some(16));
    assert_eq!(b.lookup('v'), Some(15));
}

#[test]
fn bindings_from_json_incomplete() {
    assert_eq!(
        bindings_from_json(r#"{"a":1,"b":2}"#).err(),
        Some(BindingsError::IncompleteKeypad)
    );
}

#[test]
fn bindings_from_json_malformed() {
    assert_eq!(bindings_from_json("not json").err(), Some(BindingsError::Malformed));
    assert_eq!(bindings_from_json(r#"{"ab":1}"#).err(), Some(BindingsError::Malformed));
    assert_eq!(bindings_from_json(r#"{"a":-1}"#).err(), Some(BindingsError::Malformed));
}
