//! Twin of `log_test`: the same logged flipper under its older name.

use vstd::prelude::*;

verus! {

use crate::bridge;

pub struct Logtest {
    pub value: bool,
}

impl Logtest {
    pub fn new(init_value: bool) -> (r: Logtest)
        ensures
            r.value == init_value,
    {
        Logtest { value: init_value }
    }

    pub fn default() -> (r: Logtest)
        ensures
            !r.value,
    {
        Logtest::new(false)
    }

    pub fn flip(&mut self)
        ensures
            final(self).value == !old(self).value,
    {
        bridge::host_log(3, "Flip");
        self.value = !self.value;
    }

    pub fn get(&self) -> (r: bool)
        ensures
            r == self.value,
    {
        bridge::host_log(4, "Get");
        self.value
    }
}

} // verus!
