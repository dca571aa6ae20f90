//! Single-column rows.

use vstd::prelude::*;

verus! {

/// A row of one boolean column.
#[derive(Clone, Copy, Debug, PartialEq, Eq, Structural)]
pub struct Boolean {
    pub result: bool,
}

impl Boolean {
    /// The value of the column.
    pub fn get(&self) -> (value: bool)
        ensures
            value == self.result,
    {
        self.result
    }
}

} // verus!
