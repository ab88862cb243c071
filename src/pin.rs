//! An input pin's value: a default that applies until a value is set.
use vstd::prelude::*;

verus! {

/// The value of a node input: `initial` unless a value was set.
#[derive(Clone, Copy, Debug, PartialEq, Eq, Structural)]
pub struct NodePin<T> {
    pub initial: T,
    pub value: Option<T>,
}

impl<T> NodePin<T> {
    /// The value that the pin currently has.
    pub open spec fn current(&self) -> T {
        match self.value {
            Some(v) => v,
            None => self.initial,
        }
    }

    pub fn new(initial: T) -> (r: Self)
        ensures
            r.initial == initial,
            r.value is None,
            r.current() == initial,
    {
        NodePin { initial, value: None }
    }

    pub fn set(&mut self, value: T)
        ensures
            final(self).initial == old(self).initial,
            final(self).value == Some(value),
            final(self).current() == value,
    {
        self.value = Some(value);
    }

    pub fn set_initial(&mut self, initial: T)
        ensures
            final(self).initial == initial,
            final(self).value == old(self).value,
    {
        self.initial = initial;
    }

    pub fn reset(&mut self)
        ensures
            final(self).initial == old(self).initial,
            final(self).value is None,
            final(self).current() == old(self).initial,
    {
        self.value = None;
    }

    pub fn as_ref(&self) -> (r: &T)
        ensures
            *r == self.current(),
    {
        match &self.value {
            Some(v) => v,
            None => &self.initial,
        }
    }

    pub fn as_mut(&mut self) -> (r: &mut T)
        ensures
            *r == old(self).current(),
            match old(self).value {
                Some(_) => *final(self) == (NodePin { initial: old(self).initial, value: Some(*final(r)) }),
                None => *final(self) == (NodePin { initial: *final(r), value: None::<T> }),
            },
    {
        match &mut self.value {
            Some(v) => v,
            None => &mut self.initial,
        }
    }
}

impl<T: Copy> NodePin<T> {
    pub fn get(&self) -> (r: T)
        ensures
            r == self.current(),
    {
        match self.value {
            Some(v) => v,
            None => self.initial,
        }
    }
}

} // verus!
