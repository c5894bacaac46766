//! Places in source files and in the document.

use vstd::prelude::*;

verus! {

/// A place in a source file.
#[derive(Clone, Copy, Debug, PartialEq, Eq, Structural, Hash)]
pub struct Span {
    /// The number of the place.
    pub number: u64,
}

/// The number of the span that points nowhere.
pub const DETACHED: u64 = 1;

impl Span {
    /// The span that points nowhere.
    pub fn detached() -> (r: Self)
        ensures
            r == (Span { number: DETACHED }),
    {
        Span { number: DETACHED }
    }

    /// Whether the span points nowhere.
    pub fn is_detached(&self) -> (r: bool)
        ensures
            r == (self.number == DETACHED),
    {
        self.number == DETACHED
    }
}

/// A place in the document flow.
#[derive(Clone, Copy, Debug, PartialEq, Eq, Structural, Hash)]
pub struct Location {
    /// The hash of the element.
    pub hash: u128,
    /// Tells apart elements with the same hash.
    pub disambiguator: usize,
    /// Tells apart what is derived from one element.
    pub variant: usize,
}

} // verus!
