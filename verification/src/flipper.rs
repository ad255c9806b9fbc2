//! The smallest stateful module: a boolean that can be flipped and read.

use vstd::prelude::*;

verus! {

pub struct Flipper {
    pub value: bool,
}

impl Flipper {
    pub fn new(init_value: bool) -> (r: Flipper)
        ensures
            r.value == init_value,
    {
        Flipper { value: init_value }
    }

    pub fn default() -> (r: Flipper)
        ensures
            !r.value,
    {
        Flipper::new(false)
    }

    pub fn flip(&mut self)
        ensures
            final(self).value == !old(self).value,
    {
        self.value = !self.value;
    }

    pub fn get(&self) -> (r: bool)
        ensures
            r == self.value,
    {
        self.value
    }
}

} // verus!
