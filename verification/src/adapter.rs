//! One provider, one call: how what came back from the call is read.
//!
//! The call itself is made elsewhere, once, to [`ProviderIdentifier::request_url`].
//! What this module takes in is its bare outcome; what it gives is the
//! location or the adapter's error, and the event that tells the resolver.

use crate::error::AdapterError;
use crate::location::Location;
use crate::model::Event;
use crate::provider::ProviderIdentifier;
use vstd::prelude::*;

verus! {

/// The two coordinate fields of a provider's answer, as they were found under
/// [`ProviderIdentifier::latitude_field`] and [`ProviderIdentifier::longitude_field`]:
/// the bits of the number, or `None` where the field is missing or holds no number.
#[derive(Clone, Copy, Debug, PartialEq, Eq, Structural)]
pub struct Reply {
    pub latitude: Option<u64>,
    pub longitude: Option<u64>,
}

/// How one outbound call ended.
#[derive(Clone, Copy, Debug, PartialEq, Eq, Structural)]
pub enum CallOutcome {
    /// The provider's budget ran out before the call returned.
    TimedOut,
    /// The call did not get through.
    TransportFailed,
    /// An answer came back.
    Answered(Reply),
}

/// What a call's outcome means: a location, with the provider as its source,
/// exactly when an answer came that holds both coordinates.
pub open spec fn reading(provider: ProviderIdentifier, call: CallOutcome) -> Result<
    Location,
    AdapterError,
> {
    match call {
        CallOutcome::TimedOut => Err(AdapterError::ProviderTimeout),
        CallOutcome::TransportFailed => Err(AdapterError::NetworkError),
        CallOutcome::Answered(reply) => match (reply.latitude, reply.longitude) {
            (Some(lat_bits), Some(lng_bits)) => Ok(
                Location { lat_bits, lng_bits, source: Some(provider) },
            ),
            _ => Err(AdapterError::MalformedResponse),
        },
    }
}

/// Reads the outcome of the call to `provider`.
pub fn interpret(provider: ProviderIdentifier, call: CallOutcome) -> (outcome: Result<
    Location,
    AdapterError,
>)
    ensures
        outcome == reading(provider, call),
{
    match call {
        CallOutcome::TimedOut => Err(AdapterError::ProviderTimeout),
        CallOutcome::TransportFailed => Err(AdapterError::NetworkError),
        CallOutcome::Answered(reply) => match reply.latitude {
            Some(lat_bits) => match reply.longitude {
                Some(lng_bits) => Ok(Location { lat_bits, lng_bits, source: Some(provider) }),
                None => Err(AdapterError::MalformedResponse),
            },
            None => Err(AdapterError::MalformedResponse),
        },
    }
}

/// The event that tells the resolver how the call to `provider` ended.
pub fn report(provider: ProviderIdentifier, call: CallOutcome) -> (event: Event)
    ensures
        event == (Event::Completed { provider, outcome: reading(provider, call) }),
{
    Event::Completed { provider, outcome: interpret(provider, call) }
}

/// A call gives a location exactly when an answer came with both
/// coordinates in it; the location then holds these two and names the
/// provider. Each other outcome gives its own error.
pub proof fn lemma_reading(provider: ProviderIdentifier, call: CallOutcome)
    ensures
        reading(provider, call) is Ok <==> (call matches CallOutcome::Answered(reply)
            && reply.latitude is Some && reply.longitude is Some),
        reading(provider, call) matches Ok(location) ==> call == CallOutcome::Answered(
            Reply { latitude: Some(location.lat_bits), longitude: Some(location.lng_bits) },
        ) && location.source == Some(provider),
        reading(provider, call) == Err::<Location, AdapterError>(AdapterError::ProviderTimeout)
            <==> call is TimedOut,
        reading(provider, call) == Err::<Location, AdapterError>(AdapterError::NetworkError)
            <==> call is TransportFailed,
        reading(provider, call) == Err::<Location, AdapterError>(AdapterError::MalformedResponse)
            <==> (call matches CallOutcome::Answered(reply) && (reply.latitude is None
            || reply.longitude is None)),
{
}

} // verus!
