use vstd::prelude::*;

use crate::clock::nanos_since_epoch;

verus! {

/// The number by which a book is known: the time at which it was made, in nanoseconds.
#[derive(Debug, Clone, Copy, PartialEq, Eq, Structural, Hash)]
pub struct ID {
    pub id: u128,
}

impl ID {
    /// An ID made from the current time.
    pub fn generate() -> (r: Self) {
        Self { id: nanos_since_epoch() }
    }
}

} // verus!
