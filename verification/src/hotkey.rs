//! The hotkey chord Ctrl+Alt+Q: which keys are held, and when the chord is
//! struck.

use vstd::prelude::*;

verus! {

/// What the chord needs to know of a key.
#[derive(Clone, Copy, Debug, PartialEq, Eq, Structural)]
pub enum ChordKey {
    /// Either control key.
    Control,
    /// The alt key or the right-hand alt key.
    Alt,
    /// The letter Q.
    Q,
    /// Any other key.
    Other,
}

/// A key going down or coming up.
#[derive(Clone, Copy, Debug, PartialEq, Eq, Structural)]
pub enum KeyEvent {
    Press(ChordKey),
    Release(ChordKey),
}

/// Which of the chord's modifiers are held.
#[derive(Clone, Copy, Debug, PartialEq, Eq, Structural)]
pub struct Chord {
    pub ctrl: bool,
    pub alt: bool,
}

/// The modifiers after `event`: a modifier is held from its press to its
/// release; other keys change nothing.
pub open spec fn chord_after(chord: Chord, event: KeyEvent) -> Chord {
    match event {
        KeyEvent::Press(ChordKey::Control) => Chord { ctrl: true, ..chord },
        KeyEvent::Press(ChordKey::Alt) => Chord { alt: true, ..chord },
        KeyEvent::Release(ChordKey::Control) => Chord { ctrl: false, ..chord },
        KeyEvent::Release(ChordKey::Alt) => Chord { alt: false, ..chord },
        _ => chord,
    }
}

/// `event` strikes the chord: Q goes down while both modifiers are held.
pub open spec fn strikes(chord: Chord, event: KeyEvent) -> bool {
    event == KeyEvent::Press(ChordKey::Q) && chord.ctrl && chord.alt
}

impl Chord {
    /// No modifier held.
    pub fn new() -> (chord: Chord)
        ensures
            !chord.ctrl && !chord.alt,
    {
        Chord { ctrl: false, alt: false }
    }

    /// Takes one key event; says whether it struck the chord.
    pub fn step(&mut self, event: KeyEvent) -> (struck: bool)
        ensures
            *final(self) == chord_after(*old(self), event),
            struck == strikes(*old(self), event),
    {
        match event {
            KeyEvent::Press(ChordKey::Control) => {
                self.ctrl = true;
                false
            },
            KeyEvent::Press(ChordKey::Alt) => {
                self.alt = true;
                false
            },
            KeyEvent::Press(ChordKey::Q) => self.ctrl && self.alt,
            KeyEvent::Release(ChordKey::Control) => {
                self.ctrl = false;
                false
            },
            KeyEvent::Release(ChordKey::Alt) => {
                self.alt = false;
                false
            },
            _ => false,
        }
    }
}

} // verus!
