//! A flipper that reports each operation to the host's log sink.

use vstd::prelude::*;

verus! {

use crate::bridge;

pub struct LogTest {
    pub value: bool,
}

impl LogTest {
    pub fn new(init_value: bool) -> (r: LogTest)
        ensures
            r.value == init_value,
    {
        LogTest { value: init_value }
    }

    pub fn default() -> (r: LogTest)
        ensures
            !r.value,
    {
        LogTest::new(false)
    }

    pub fn flip(&mut self)
        ensures
            final(self).value == !old(self).value,
    {
        bridge::host_log(3, "Flip");
        self.value = !self.value;
    }

    pub fn get(&self) -> (r: bool)
        ensures
            r == self.value,
    {
        bridge::host_log(4, "Get");
        self.value
    }
}

} // verus!
