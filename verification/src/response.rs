//! What goes back to the client.

use crate::error::ResolveError;
use crate::location::ResolutionResult;
use vstd::prelude::*;

verus! {

/// The answer to a client: its IP and where the providers place it.
#[derive(Debug, PartialEq, Eq)]
pub struct IpResponse {
    pub ip: String,
    pub location: ResolutionResult,
}

/// The answer for `ip` when its resolution ended with `end`: the response
/// where it gave a result, its error where it did not.
pub fn respond(ip: String, end: Result<ResolutionResult, ResolveError>) -> (answer: Result<
    IpResponse,
    ResolveError,
>)
    ensures
        match answer {
            Ok(response) => response.ip == ip && end == Ok::<ResolutionResult, ResolveError>(
                response.location,
            ),
            Err(error) => end == Err::<ResolutionResult, ResolveError>(error),
        },
{
    match end {
        Ok(location) => Ok(IpResponse { ip, location }),
        Err(error) => Err(error),
    }
}

} // verus!
