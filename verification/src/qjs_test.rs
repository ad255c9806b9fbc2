//! A consumer of the script-evaluation driver: whatever the evaluation
//! returned, the caller observes a value - errors collapse to `Undefined`.

use vstd::prelude::*;

verus! {

use crate::codec::Output;

pub struct QjsTest {}

impl QjsTest {
    pub fn default() -> (r: QjsTest) {
        QjsTest {  }
    }

    /// Fold a finished script evaluation into the value this module
    /// exposes: the script's value on success, `Undefined` on any error
    /// the evaluation reported.
    pub fn run(&self, outcome: Result<Output, String>) -> (r: Output)
        ensures
            match outcome {
                Ok(v) => r == v,
                Err(_) => r == Output::Undefined,
            },
    {
        match outcome {
            Ok(ok_result) => ok_result,
            Err(_) => Output::Undefined,
        }
    }
}

} // verus!
