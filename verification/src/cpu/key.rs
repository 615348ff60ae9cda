//! A key that stays down for a while after it is pressed.
use vstd::prelude::*;
use super::constants::KEYDELAY;

verus! {

/// `std::time::Instant`, carried through as an opaque value.
#[verifier::external_type_specification]
#[verifier::external_body]
pub struct ExInstant(std::time::Instant);

/// `Instant::now` reads the clock; nothing is promised of the value.
pub assume_specification[ std::time::Instant::now ]() -> std::time::Instant;

/// `Instant::elapsed` measures the time since an instant by the clock;
/// nothing is promised of the value.
pub assume_specification[ std::time::Instant::elapsed ](instant: &std::time::Instant) -> core::time::Duration;

/// `Duration::as_millis` gives a duration in whole milliseconds; the duration
/// is opaque here, so nothing is stated of the number.
pub assume_specification[ core::time::Duration::as_millis ](duration: &core::time::Duration) -> u128;

/// A keypad key with the time it was last pressed.
pub struct Chip8Key {
    value: bool,
    last_pressed: std::time::Instant,
}

impl View for Chip8Key {
    type V = bool;

    /// Whether the key is down.
    closed spec fn view(&self) -> bool {
        self.value
    }
}

impl Chip8Key {
    /// When the key was last pressed (or made).
    pub closed spec fn pressed_at(&self) -> std::time::Instant {
        self.last_pressed
    }

    /// A key that is up, made at `now`.
    pub fn new_at(now: std::time::Instant) -> (k: Chip8Key)
        ensures
            !k@,
            k.pressed_at() == now,
    {
        Chip8Key { value: false, last_pressed: now }
    }

    /// A key that is up, made at the time the clock reads now.
    pub fn new() -> (k: Chip8Key)
        ensures
            !k@,
    {
        Self::new_at(std::time::Instant::now())
    }

    /// Whether the key is down.
    pub fn value(&self) -> (b: bool)
        ensures
            b == self@,
    {
        return self.value;
    }

    /// Puts the key down, pressed at `now`.
    pub fn press_at(&mut self, now: std::time::Instant)
        ensures
            final(self)@,
            final(self).pressed_at() == now,
    {
        self.value = true;
        self.last_pressed = now;
    }

    /// Puts the key down, pressed at the time the clock reads now.
    pub fn press(&mut self)
        ensures
            final(self)@,
    {
        self.press_at(std::time::Instant::now());
    }

    /// Flips the key, leaving the time alone.
    pub fn toggle(&mut self)
        ensures
            final(self)@ == !old(self)@,
            final(self).pressed_at() == old(self).pressed_at(),
    {
        self.value = !self.value;
    }

    /// Releases the key once `elapsed_ms` milliseconds since the last press
    /// reach `KEYDELAY`.
    pub fn release_after(&mut self, elapsed_ms: u128)
        ensures
            final(self)@ == (old(self)@ && elapsed_ms < KEYDELAY),
            final(self).pressed_at() == old(self).pressed_at(),
    {
        if elapsed_ms >= KEYDELAY {
            self.value = false;
        }
    }

    /// Releases the key once it has been down for `KEYDELAY` milliseconds by
    /// the clock. Whatever the clock reads, a key that was up stays up.
    pub fn update(&mut self)
        ensures
            final(self)@ ==> old(self)@,
            final(self).pressed_at() == old(self).pressed_at(),
    {
        let elapsed = self.last_pressed.elapsed().as_millis();
        self.release_after(elapsed);
    }
}

} // verus!
