use vstd::prelude::*;

verus! {

/// The modifier keys a global shortcut may hold down.
#[derive(Clone, Copy, Debug, PartialEq, Eq, Structural)]
pub enum ModifierKey {
    Control,
    Shift,
    Alt,
    Super,
}

/// A set of modifier keys, one flag per key.
#[derive(Clone, Copy, Debug, PartialEq, Eq, Structural)]
pub struct Modifiers {
    pub control: bool,
    pub shift: bool,
    pub alt: bool,
    pub super_key: bool,
}

impl Modifiers {
    /// Whether `key` is in the set.
    pub open spec fn has(self, key: ModifierKey) -> bool {
        match key {
            ModifierKey::Control => self.control,
            ModifierKey::Shift => self.shift,
            ModifierKey::Alt => self.alt,
            ModifierKey::Super => self.super_key,
        }
    }

    /// The empty set.
    pub fn none() -> (r: Modifiers)
        ensures
            forall|k: ModifierKey| !r.has(k),
    {
        Modifiers { control: false, shift: false, alt: false, super_key: false }
    }

    /// The set with `key` added.
    pub fn with(self, key: ModifierKey) -> (r: Modifiers)
        ensures
            forall|k: ModifierKey| r.has(k) == (self.has(k) || k == key),
    {
        match key {
            ModifierKey::Control => Modifiers { control: true, ..self },
            ModifierKey::Shift => Modifiers { shift: true, ..self },
            ModifierKey::Alt => Modifiers { alt: true, ..self },
            ModifierKey::Super => Modifiers { super_key: true, ..self },
        }
    }

    /// Whether no modifier is in the set.
    pub fn is_empty(&self) -> (r: bool)
        ensures
            r == forall|k: ModifierKey| !self.has(k),
    {
        proof {
            assert(self.has(ModifierKey::Control) == self.control);
            assert(self.has(ModifierKey::Shift) == self.shift);
            assert(self.has(ModifierKey::Alt) == self.alt);
            assert(self.has(ModifierKey::Super) == self.super_key);
        }
        !(self.control || self.shift || self.alt || self.super_key)
    }
}

/// The base key of a binding: one of the Latin letters.
#[derive(Clone, Copy, Debug, PartialEq, Eq, Structural)]
pub enum Letter {
    A, B, C, D, E, F, G, H, I, J, K, L, M,
    N, O, P, Q, R, S, T, U, V, W, X, Y, Z,
}

/// The letter key that an upper-case character names, if any.
pub open spec fn letter_for(c: char) -> Option<Letter> {
    match c {
        'A' => Some(Letter::A),
        'B' => Some(Letter::B),
        'C' => Some(Letter::C),
        'D' => Some(Letter::D),
        'E' => Some(Letter::E),
        'F' => Some(Letter::F),
        'G' => Some(Letter::G),
        'H' => Some(Letter::H),
        'I' => Some(Letter::I),
        'J' => Some(Letter::J),
        'K' => Some(Letter::K),
        'L' => Some(Letter::L),
        'M' => Some(Letter::M),
        'N' => Some(Letter::N),
        'O' => Some(Letter::O),
        'P' => Some(Letter::P),
        'Q' => Some(Letter::Q),
        'R' => Some(Letter::R),
        'S' => Some(Letter::S),
        'T' => Some(Letter::T),
        'U' => Some(Letter::U),
        'V' => Some(Letter::V),
        'W' => Some(Letter::W),
        'X' => Some(Letter::X),
        'Y' => Some(Letter::Y),
        'Z' => Some(Letter::Z),
        _ => None,
    }
}

impl Letter {
    /// The letter key named by the upper-case character `c`.
    pub fn from_char(c: char) -> (r: Option<Letter>)
        ensures
            r == letter_for(c),
            r is Some <==> ('A' <= c && c <= 'Z'),
    {
        match c {
            'A' => Some(Letter::A),
            'B' => Some(Letter::B),
            'C' => Some(Letter::C),
            'D' => Some(Letter::D),
            'E' => Some(Letter::E),
            'F' => Some(Letter::F),
            'G' => Some(Letter::G),
            'H' => Some(Letter::H),
            'I' => Some(Letter::I),
            'J' => Some(Letter::J),
            'K' => Some(Letter::K),
            'L' => Some(Letter::L),
            'M' => Some(Letter::M),
            'N' => Some(Letter::N),
            'O' => Some(Letter::O),
            'P' => Some(Letter::P),
            'Q' => Some(Letter::Q),
            'R' => Some(Letter::R),
            'S' => Some(Letter::S),
            'T' => Some(Letter::T),
            'U' => Some(Letter::U),
            'V' => Some(Letter::V),
            'W' => Some(Letter::W),
            'X' => Some(Letter::X),
            'Y' => Some(Letter::Y),
            'Z' => Some(Letter::Z),
            _ => None,
        }
    }
}

/// One global hotkey: a set of modifiers held with a letter key.
#[derive(Clone, Copy, Debug, PartialEq, Eq, Structural)]
pub struct KeyBinding {
    pub modifiers: Modifiers,
    pub key: Letter,
}

} // verus!
