use vstd::prelude::*;

verus! {

/// Identity of a process within a communicator.
pub type MpiRank = i32;

/// Identity of a communicator.
pub type MpiComm = i32;

/// Identity of a non-blocking request.
pub type MpiReq = i32;

/// A value of the time stamp counter, or a number of its ticks.
pub type Tsc = u64;

} // verus!
