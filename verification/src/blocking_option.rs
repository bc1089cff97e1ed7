//! A slot for one value that the newest value always wins.

use vstd::prelude::*;

verus! {

/// A single slot that hands a value from a sender to a receiver. A value that
/// was not taken yet is replaced by the next one: the receiver only ever sees
/// the newest.
pub struct BlockingOption<T> {
    inner: Option<T>,
}

impl<T> BlockingOption<T> {
    /// The value that waits in the slot, if any.
    pub closed spec fn waiting(&self) -> Option<T> {
        self.inner
    }

    /// An empty slot.
    pub fn new() -> (slot: Self)
        ensures
            slot.waiting() is None,
    {
        Self { inner: None }
    }

    /// A slot in which `value` waits.
    pub fn new_with(value: T) -> (slot: Self)
        ensures
            slot.waiting() == Some(value),
    {
        Self { inner: Some(value) }
    }

    /// Whether a value waits in the slot.
    pub fn is_ready(&self) -> (ready: bool)
        ensures
            ready == self.waiting().is_some(),
    {
        self.inner.is_some()
    }

    /// Takes the value that waits, and leaves the slot empty.
    pub fn take(&mut self) -> (value: Option<T>)
        ensures
            value == old(self).waiting(),
            final(self).waiting() is None,
    {
        self.inner.take()
    }

    /// Puts `value` into the slot, in place of a value that waits there.
    pub fn send(&mut self, value: T)
        ensures
            final(self).waiting() == Some(value),
    {
        self.inner = Some(value);
    }
}

} // verus!
