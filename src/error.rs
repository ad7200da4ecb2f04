use vstd::prelude::*;

verus! {

/// Every way in which an invocation of the event program can be rejected.
#[derive(Debug, Clone, Copy, PartialEq, Eq, Structural)]
pub enum EventError {
    /// The instruction's tag byte names no known instruction.
    UnknownTag,
    /// The instruction ends before its payload does.
    Truncated,
    /// A name field is not valid UTF-8.
    InvalidName,
    /// The record's initialization flag is neither 0 nor 1.
    InvalidFlag,
    /// The event slot does not hold exactly one record.
    InvalidLength,
    /// The caller did not sign the invocation.
    MissingSignature,
    /// The event slot is not exempt from storage rent.
    NotExempt,
    /// The event slot already holds an event.
    AlreadyInitialized,
    /// The event slot holds no event yet.
    Uninitialized,
    /// Every ticket of the event has been issued.
    OutOfTickets,
}

} // verus!
