use vstd::prelude::*;

verus! {

/// Configuration errors reported when an engine is built.
#[derive(Debug, Clone, Copy, PartialEq, Eq, Structural)]
pub enum LifeError {
    /// A rule array does not hold exactly one entry per neighbour count.
    InvalidRuleTableSize,
    /// The grid has a zero side, or the initial cells do not fill it exactly.
    InvalidGridSize,
}

} // verus!
