//! A participant in the resource-contention simulation: a weight, fixed at
//! creation, and a count of meals eaten so far.

use vstd::prelude::*;

verus! {

#[derive(Clone, Copy, Debug, PartialEq, Eq, Structural)]
pub struct Philosopher {
    pub weight: u32,
    pub num_eaten: u32,
}

impl Philosopher {
    /// A philosopher of the given weight that has not eaten yet.
    pub fn new(weight: u32) -> (r: Self)
        ensures
            r.weight == weight,
            r.num_eaten == 0,
    {
        Philosopher { weight, num_eaten: 0 }
    }

    /// The same philosopher after one more meal.
    pub fn eat(&self) -> (r: Self)
        requires
            self.num_eaten < u32::MAX,
        ensures
            r.weight == self.weight,
            r.num_eaten == self.num_eaten + 1,
    {
        Philosopher { weight: self.weight, num_eaten: self.num_eaten + 1 }
    }
}

} // verus!
