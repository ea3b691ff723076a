//! Pairing players: whoever arrives first waits for whoever arrives next.

use vstd::prelude::*;

verus! {

/// A waiting room for one. The first guest to come in waits; the second
/// leaves together with the first, and the room is free again.
pub struct WaitingRoom<T> {
    waiting: Option<T>,
}

impl<T> View for WaitingRoom<T> {
    type V = Option<T>;

    closed spec fn view(&self) -> Option<T> {
        self.waiting
    }
}

impl<T> WaitingRoom<T> {
    /// An empty room.
    pub fn new() -> (room: Self)
        ensures
            room@ is None,
    {
        WaitingRoom { waiting: None }
    }

    /// The number that the next guest plays under: 1 in an empty room, 2
    /// where somebody waits.
    pub fn next_number(&self) -> (n: usize)
        ensures
            n == if self@ is None {
                1int
            } else {
                2int
            },
    {
        match &self.waiting {
            None => 1,
            Some(_) => 2,
        }
    }

    /// Lets `guest` in. Where somebody waits, the two leave as a pair, the
    /// one who waited first; otherwise `guest` now waits.
    pub fn join(&mut self, guest: T) -> (pair: Option<(T, T)>)
        ensures
            match old(self)@ {
                Some(first) => pair == Some((first, guest)) && final(self)@ is None,
                None => pair is None && final(self)@ == Some(guest),
            },
    {
        match self.waiting.take() {
            Some(first) => Some((first, guest)),
            None => {
                self.waiting = Some(guest);
                None
            },
        }
    }
}

} // verus!
