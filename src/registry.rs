use vstd::prelude::*;

use crate::binding::KeyBinding;

verus! {

/// The two roles a global shortcut can fill.
#[derive(Clone, Copy, Debug, PartialEq, Eq, Structural)]
pub enum Slot {
    Skip,
    Pause,
}

/// The binding of each slot, if it has one.
#[derive(Clone, Copy, Debug, PartialEq, Eq, Structural)]
pub struct Bindings {
    pub skip: Option<KeyBinding>,
    pub pause: Option<KeyBinding>,
}

impl Bindings {
    /// The binding of `slot`.
    pub open spec fn of(self, slot: Slot) -> Option<KeyBinding> {
        match slot {
            Slot::Skip => self.skip,
            Slot::Pause => self.pause,
        }
    }

    /// The binding of `slot`.
    pub fn get(&self, slot: Slot) -> (r: Option<KeyBinding>)
        ensures
            r == self.of(slot),
    {
        match slot {
            Slot::Skip => self.skip,
            Slot::Pause => self.pause,
        }
    }
}

/// The bindings that are currently in force. Both slots are always read and
/// written together.
pub struct Registry {
    bindings: Bindings,
}

impl View for Registry {
    type V = Bindings;

    closed spec fn view(&self) -> Bindings {
        self.bindings
    }
}

impl Registry {
    /// A registry with both slots unbound.
    pub fn new() -> (r: Registry)
        ensures
            r@ == (Bindings { skip: None, pause: None }),
    {
        Registry { bindings: Bindings { skip: None, pause: None } }
    }

    /// A snapshot of both slots.
    pub fn current(&self) -> (r: Bindings)
        ensures
            r == self@,
    {
        self.bindings
    }

    /// Overwrites both slots at once.
    pub fn replace(&mut self, skip: Option<KeyBinding>, pause: Option<KeyBinding>)
        ensures
            final(self)@ == (Bindings { skip, pause }),
    {
        self.bindings = Bindings { skip, pause };
    }
}

} // verus!
