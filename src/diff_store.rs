use vstd::prelude::*;

verus! {

/// Remembers the previous reading and hands out the change since it.
pub struct DiffStore {
    previous: usize,
}

impl DiffStore {
    pub closed spec fn previous_spec(&self) -> nat {
        self.previous as nat
    }

    pub fn new(initial: usize) -> (r: DiffStore)
        ensures
            r.previous_spec() == initial,
    {
        DiffStore { previous: initial }
    }

    /// The value of the last reading.
    pub fn previous(&self) -> (r: usize)
        ensures
            r == self.previous_spec(),
    {
        self.previous
    }

    /// Stores `value` and returns how much it grew since the previous reading.
    pub fn update(&mut self, value: usize) -> (delta: usize)
        requires
            old(self).previous_spec() <= value,
        ensures
            delta == value - old(self).previous_spec(),
            final(self).previous_spec() == value,
    {
        let delta = value - self.previous;
        self.previous = value;
        delta
    }
}

} // verus!
