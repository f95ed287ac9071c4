use vstd::prelude::*;

verus! {

/// Typed failures of the mutation pipeline and of the action dispatcher.
#[derive(Clone, Copy, Debug, PartialEq, Eq, Structural)]
pub enum SessionError {
    /// Malformed payload, missing required field, or an id that does not parse.
    BadRequest,
    /// A candidate interval with `end <= start`, or a required time missing.
    InvalidInterval,
    /// The id does not resolve to an existing session.
    NotFound,
    /// The candidate interval overlaps an existing session in the same hall.
    SchedulingConflict,
    /// An unknown action name arrived on the wire.
    Unsupported,
    /// The store itself failed to carry out an operation.
    StoreFailure,
}

impl SessionError {
    /// The human-readable message carried in an error envelope's data object.
    pub open spec fn message_spec(self) -> Seq<char> {
        match self {
            SessionError::BadRequest => "Bad request"@,
            SessionError::InvalidInterval => "Invalid interval"@,
            SessionError::NotFound => "Session not found"@,
            SessionError::SchedulingConflict => "Scheduling conflict"@,
            SessionError::Unsupported => "Unsupported action"@,
            SessionError::StoreFailure => "Store failure"@,
        }
    }

    pub fn message(&self) -> (m: &'static str)
        ensures
            m@ == self.message_spec(),
    {
        match self {
            SessionError::BadRequest => "Bad request",
            SessionError::InvalidInterval => "Invalid interval",
            SessionError::NotFound => "Session not found",
            SessionError::SchedulingConflict => "Scheduling conflict",
            SessionError::Unsupported => "Unsupported action",
            SessionError::StoreFailure => "Store failure",
        }
    }
}

} // verus!
