//! The closed set of failure kinds one query can end in, and which of
//! them the driver's retry budget covers.

use vstd::prelude::*;

verus! {

/// What went wrong inside a framed send or receive.
#[derive(Debug)]
pub enum IoDetail {
    /// The stream ended before a whole frame had arrived.
    ClosedEarly,
    /// A write reported success without moving any byte of a non-empty payload.
    ZeroProgress,
    /// Any other transport fault, with the transport's own description.
    Fault(String),
}

/// Every failure a query for one agent identifier can end in.
#[derive(Debug)]
pub enum QueryError {
    /// The connection to the endpoint could not be established; carries
    /// the transport's description.  Retryable.
    Connection(String),
    /// A framed send or receive failed.  Retryable.
    Io(IoDetail),
    /// A send or receive was attempted on a channel with no live
    /// connection.  A usage fault, never retried.
    NotConnected,
    /// The response bytes are not valid UTF-8.  Never retried.
    Decode,
    /// The daemon answered that it cannot reach the target agent.  Retryable.
    AgentUnreachable,
}

/// The retry budget covers connection faults, transport faults and the
/// daemon's agent-unreachable answer; a decode failure and a use of an
/// unconnected channel end the identifier at once.
pub open spec fn spec_retryable(e: QueryError) -> bool {
    match e {
        QueryError::Connection(_) => true,
        QueryError::Io(_) => true,
        QueryError::NotConnected => false,
        QueryError::Decode => false,
        QueryError::AgentUnreachable => true,
    }
}

/// Decides whether `e` is covered by the retry budget.
pub fn is_retryable(e: &QueryError) -> (r: bool)
    ensures
        r == spec_retryable(*e),
{
    match e {
        QueryError::Connection(_) => true,
        QueryError::Io(_) => true,
        QueryError::NotConnected => false,
        QueryError::Decode => false,
        QueryError::AgentUnreachable => true,
    }
}

} // verus!
