use vstd::prelude::*;

verus! {

/// One lamp of the chain: a named unit with a mutable on/off flag and two
/// optional neighbour links. The links are indices into the arena that the
/// chain keeps, so a lamp in the middle can be reached from both sides
/// without shared ownership.
#[derive(Clone, Copy)]
pub struct Lamp {
    pub name: &'static str,
    pub on: bool,
    pub prev: Option<usize>,
    pub next: Option<usize>,
}

impl Lamp {
    /// A fresh lamp: off, with no neighbours yet.
    pub fn new(name: &'static str) -> (r: Lamp)
        ensures
            r.name@ == name@,
            !r.on,
            r.prev is None,
            r.next is None,
    {
        Lamp { name, on: false, prev: None, next: None }
    }

    /// Switch the lamp on; the name and the links are untouched.
    pub fn turn_on(&mut self)
        ensures
            final(self).on,
            final(self).name@ == old(self).name@,
            final(self).prev == old(self).prev,
            final(self).next == old(self).next,
    {
        self.on = true;
    }

    /// Switch the lamp off; the name and the links are untouched.
    pub fn turn_off(&mut self)
        ensures
            !final(self).on,
            final(self).name@ == old(self).name@,
            final(self).prev == old(self).prev,
            final(self).next == old(self).next,
    {
        self.on = false;
    }
}

/// An action that a traversal applies to each lamp it visits. An action may
/// change nothing but the on/off flag, and what it does to the flag is fixed
/// by `effect`, so that a whole traversal can be described flag by flag.
pub trait LampAction: Sized {
    /// What the action does to the on/off flag.
    spec fn effect(self, s: bool) -> bool;

    /// Apply the action to one lamp: the flag becomes `effect` of the old
    /// flag, and the name and the links stay as they were.
    fn apply(&self, lamp: &mut Lamp)
        ensures
            final(lamp).on == self.effect(old(lamp).on),
            final(lamp).name@ == old(lamp).name@,
            final(lamp).prev == old(lamp).prev,
            final(lamp).next == old(lamp).next;
}

/// The "turn on" action: a lamp that is already on is left alone, so applying
/// it twice is the same as applying it once.
#[derive(Clone, Copy)]
pub struct TurnOn;

impl LampAction for TurnOn {
    open spec fn effect(self, s: bool) -> bool {
        true
    }

    fn apply(&self, lamp: &mut Lamp) {
        if !lamp.on {
            lamp.turn_on();
        }
    }
}

/// The "turn off" action: a lamp that is already off is left alone, so
/// applying it twice is the same as applying it once.
#[derive(Clone, Copy)]
pub struct TurnOff;

impl LampAction for TurnOff {
    open spec fn effect(self, s: bool) -> bool {
        false
    }

    fn apply(&self, lamp: &mut Lamp) {
        if lamp.on {
            lamp.turn_off();
        }
    }
}

} // verus!
