//! The error type shared by every module.
use vstd::prelude::*;

verus! {

/// Result of a library operation.
pub type Result<T> = std::result::Result<T, Error>;

/// What can go wrong while building, queueing or sending control traffic.
#[derive(Debug)]
pub enum Error {
    /// The request does not fit the state or the limits of the session.
    SessionLifecycle(&'static str),
    /// The dispatcher behind the command queue is gone.
    DispatcherDown(&'static str),
    /// The transport failed, or what it delivered was malformed.
    Transport(String),
    /// A control message does not fit its wire frame.
    ControlMessageTooLarge { size: usize, max: usize },
    /// A bounded wait ran out of time.
    AgentTimeout(&'static str),
}

} // verus!
