//! Errors of the pipeline's operations.

use vstd::prelude::*;

verus! {

/// Why an operation of the pipeline did not take place. None of them is
/// fatal: the caller drops data or retries on a later pass.
#[derive(Clone, Copy, Debug, PartialEq, Eq, Structural)]
pub enum Error {
    /// Not enough free space in the queue for the requested reservation.
    Busy,
    /// Nothing committed in the queue to read.
    Empty,
    /// A grant of the same kind is already open on the queue.
    GrantInProgress,
    /// The grant does not belong to the queue's open grant, or the range
    /// lies outside it.
    OutOfGrant,
    /// A frame larger than a queue can ever hold.
    TooLarge,
}

} // verus!
