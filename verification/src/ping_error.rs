use vstd::prelude::*;

verus! {

/// The error type of the library: a human-readable description of what went
/// wrong (a transport failure, a lifecycle operation invoked in the wrong
/// state, or a closed output queue).
#[derive(Debug, Clone, PartialEq, Eq)]
pub struct PingError {
    pub message: String,
}

impl PingError {
    /// Wraps a description into an error.
    pub fn new(message: &str) -> (r: PingError)
        ensures
            r.message@ == message@,
    {
        PingError { message: String::from_str(message) }
    }
}

pub type PingResult<T> = Result<T, PingError>;

} // verus!
