//! How an answer of the origin site is classified.

use vstd::prelude::*;

verus! {

/// Why fetching a leaderboard from the origin failed.
#[derive(Clone, Copy, Debug, PartialEq, Eq, Structural)]
pub enum OriginError {
    /// A server- or auth-class status: the session is not accepted.
    InvalidCredentials,
    /// A client-class status: no such group or year.
    NotFound,
    /// A success whose body is not a leaderboard.
    MalformedResponse,
}

/// The outcome that an HTTP status of the origin stands for: success for
/// 200-299, `NotFound` for 400-499, `InvalidCredentials` otherwise.
pub fn classify_status(status: u16) -> (r: Result<(), OriginError>)
    ensures
        200 <= status <= 299 ==> r == Ok::<(), OriginError>(()),
        400 <= status <= 499 ==> r == Err::<(), OriginError>(OriginError::NotFound),
        !(200 <= status <= 299) && !(400 <= status <= 499) ==> r == Err::<(), OriginError>(
            OriginError::InvalidCredentials,
        ),
{
    if 200 <= status && status <= 299 {
        Ok(())
    } else if 400 <= status && status <= 499 {
        Err(OriginError::NotFound)
    } else {
        Err(OriginError::InvalidCredentials)
    }
}

impl OriginError {
    /// The message shown for the failure.
    pub fn message(&self) -> (r: &'static str)
        ensures
            *self == OriginError::InvalidCredentials ==> r@ == "Invalid Session"@,
            *self == OriginError::NotFound ==> r@ == "Invalid year or leaderboard id"@,
            *self == OriginError::MalformedResponse ==> r@ == "Invalid leaderboard id"@,
    {
        match self {
            OriginError::InvalidCredentials => "Invalid Session",
            OriginError::NotFound => "Invalid year or leaderboard id",
            OriginError::MalformedResponse => "Invalid leaderboard id",
        }
    }
}

} // verus!
