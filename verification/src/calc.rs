//! A small accumulator that sums two independently set arguments.

use vstd::prelude::*;

verus! {

/// A two-argument accumulator: both arguments are set independently and
/// summed on demand.
#[derive(Debug)]
pub struct Calc {
    first_arg: u32,
    second_arg: u32,
}

/// A fresh accumulator with both arguments zero.
pub fn new_calc() -> (r: Calc)
    ensures
        r.first() == 0,
        r.second() == 0,
{
    Calc { first_arg: 0, second_arg: 0 }
}

impl Calc {
    /// The first argument, as contracts see it.
    pub closed spec fn first(self) -> u32 {
        self.first_arg
    }

    /// The second argument, as contracts see it.
    pub closed spec fn second(self) -> u32 {
        self.second_arg
    }

    /// Replaces the first argument; reports success.
    pub fn set_first_argument(&mut self, arg: u32) -> (r: bool)
        ensures
            final(self).first() == arg,
            final(self).second() == old(self).second(),
            r,
    {
        self.first_arg = arg;
        true
    }

    /// Replaces the second argument; reports success.
    pub fn set_second_argument(&mut self, arg: u32) -> (r: bool)
        ensures
            final(self).second() == arg,
            final(self).first() == old(self).first(),
            r,
    {
        self.second_arg = arg;
        true
    }

    /// The sum of the two arguments, which the caller keeps in range.
    pub fn sum(&self) -> (r: u32)
        requires
            self.first() + self.second() <= u32::MAX,
        ensures
            r == self.first() + self.second(),
    {
        self.first_arg + self.second_arg
    }
}

} // verus!
