use vstd::prelude::*;

verus! {

/// What can go wrong while building or describing a record.
#[derive(Debug, Clone, Copy, PartialEq, Eq, Structural)]
pub enum Error {
    /// The foreign allocator had no memory for a record.
    AllocationFailed,
    /// The decoder rejected its input; the decoder's status code is kept.
    ParseFailed(i32),
    /// The description of a record could not be produced; the routine's status code is kept.
    FormatFailed(i32),
}

} // verus!
