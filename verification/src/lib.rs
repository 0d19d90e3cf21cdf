use vstd::prelude::*;

pub mod auth;
pub mod constraints;
pub mod digest;
pub mod numfmt;
pub mod route;
pub mod submit;
pub mod timefmt;

verus! {

/// Everything that can go wrong during a login, a constraint resolution or
/// one submission. Each operation aborts on the first error and surfaces it
/// unchanged; nothing is retried or downgraded.
#[derive(Debug, PartialEq, Eq, Structural)]
pub enum RunError {
    /// The login endpoint reported an explicit client error for the credentials.
    InvalidCredentials,
    /// The server signalled, by a null or incomplete response, that no
    /// constraint period is active.
    SemesterNotStarted,
    /// After bounding and jitter the mileage fell below the effective range.
    EffectiveMileageTooLow,
    /// The supplied course is shorter than the distance to synthesize.
    RouteTooShort,
    /// The supplied course is empty or malformed.
    InvalidPathDescription,
    /// The run duration cannot be placed before its end time.
    InvalidDuration,
    /// A response field did not have the expected shape.
    MalformedResponse,
    /// Any other non-success transport status.
    RequestFailed(u16),
}

} // verus!
