//! The outcome of one request: data, or nothing this time.

use vstd::prelude::*;

verus! {

/// The one failure of a request: the data cannot be had right now
#[derive(Clone, Copy, Debug, PartialEq, Eq, Structural)]
pub struct Unavailable;

/// What came back from the transport
#[derive(Clone, Debug, PartialEq, Eq)]
pub enum Reply {
    /// No response: the request could not be made or was not answered
    Failed,
    /// A response, with its status code and its body
    Response { status: u16, body: String },
}

/// Whether a status code reports success: 200 to 299
pub open spec fn spec_is_success(status: u16) -> bool {
    200 <= status < 300
}

/// Whether a status code reports success: 200 to 299
#[verifier::when_used_as_spec(spec_is_success)]
pub fn is_success(status: u16) -> (success: bool)
    ensures
        success == spec_is_success(status),
{
    200 <= status && status < 300
}

/// The body of a reply that can be used: the reply is a response whose
/// status reports success. Every other reply is `Unavailable`.
pub fn usable_body(reply: Reply) -> (body: Result<String, Unavailable>)
    ensures
        body == (match reply {
            Reply::Response { status, body } if is_success(status) => Ok::<String, Unavailable>(body),
            _ => Err::<String, Unavailable>(Unavailable),
        }),
{
    match reply {
        Reply::Failed => Err(Unavailable),
        Reply::Response { status, body } => {
            if is_success(status) {
                Ok(body)
            } else {
                Err(Unavailable)
            }
        },
    }
}

/// The data of a decoded body; a body that could not be decoded, given as
/// `None`, is `Unavailable` like every other failure.
pub fn decoded<T>(data: Option<T>) -> (outcome: Result<T, Unavailable>)
    ensures
        outcome == (match data {
            Some(value) => Ok::<T, Unavailable>(value),
            None => Err::<T, Unavailable>(Unavailable),
        }),
{
    match data {
        Some(value) => Ok(value),
        None => Err(Unavailable),
    }
}

} // verus!
