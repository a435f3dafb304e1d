use vstd::prelude::*;

verus! {

/// Failure of a directory operation.
#[derive(Clone, Copy, PartialEq, Eq, Structural, Debug)]
pub enum DirectoryError {
    /// The path is absent where presence was expected.
    NotFound,
    /// The path is already present where absence was expected.
    AlreadyExists,
}

/// Failure of a segment-state transition.
#[derive(Clone, Copy, PartialEq, Eq, Structural, Debug)]
pub enum IndexError {
    /// A merge was requested for a set of segment ids that is not uniformly
    /// resident in a single tier (mixed or absent).
    InvalidArgument,
}

} // verus!
