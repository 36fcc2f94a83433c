use vstd::prelude::*;

verus! {

/// The value `a + v` wraps to when carried in a 64-bit register, as a
/// fetch-and-add on such a register would produce it.
pub open spec fn wrap_add(a: u64, v: u64) -> u64 {
    if a + v <= u64::MAX {
        (a + v) as u64
    } else {
        (a + v - 0x1_0000_0000_0000_0000) as u64
    }
}

/// A resettable event counter mirroring a 64-bit fetch-and-add register:
/// increments wrap around on overflow, and the mutating operations return
/// the previous value so that a read-and-reset is a single step.
pub struct Counter {
    counter: u64,
}

impl View for Counter {
    type V = u64;

    closed spec fn view(&self) -> u64 {
        self.counter
    }
}

impl Counter {
    pub fn new() -> (c: Counter)
        ensures
            c@ == 0,
    {
        Counter { counter: 0 }
    }

    /// Get-and-reset of the counter.
    pub fn reset(&mut self) -> (prev: u64)
        ensures
            prev == old(self)@,
            final(self)@ == 0,
    {
        let prev = self.counter;
        self.counter = 0;
        prev
    }

    /// Increment counter by one.
    pub fn incr(&mut self)
        ensures
            final(self)@ == wrap_add(old(self)@, 1),
    {
        self.counter = match self.counter.checked_add(1) {
            Some(next) => next,
            None => 0,
        };
    }

    /// Increment counter by `value`.
    /// Returns the previous value.
    pub fn add(&mut self, value: u64) -> (prev: u64)
        ensures
            prev == old(self)@,
            final(self)@ == wrap_add(old(self)@, value),
    {
        let prev = self.counter;
        self.counter = match self.counter.checked_add(value) {
            Some(next) => next,
            None => value - (u64::MAX - self.counter) - 1,
        };
        prev
    }

    /// Read the counter.
    pub fn load(&self) -> (value: u64)
        ensures
            value == self@,
    {
        self.counter
    }

    /// Set the counter.
    /// Returns the previous value.
    pub fn set(&mut self, value: u64) -> (prev: u64)
        ensures
            prev == old(self)@,
            final(self)@ == value,
    {
        let prev = self.counter;
        self.counter = value;
        prev
    }
}

impl Default for Counter {
    fn default() -> (c: Counter)
        ensures
            c@ == 0,
    {
        Counter::new()
    }
}

} // verus!
