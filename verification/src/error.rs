//! What can go wrong: at one provider, and for a resolution as a whole.

use vstd::prelude::*;

verus! {

/// Why one provider gave no location. Such a failure never ends a resolution
/// by itself: the resolver counts it as a lost race or leaves the provider out.
#[derive(Clone, Copy, Debug, PartialEq, Eq, Structural)]
pub enum AdapterError {
    /// The call did not get through.
    NetworkError,
    /// An answer came, without two numeric coordinates in it.
    MalformedResponse,
    /// The provider took longer than its budget.
    ProviderTimeout,
}

/// Why a resolution as a whole gave no result.
#[derive(Clone, Copy, Debug, PartialEq, Eq, Structural)]
pub enum ResolveError {
    /// The request selects no provider.
    NoProvidersRequested,
    /// The request selects a provider that the table does not hold.
    UnknownProvider,
    /// Every selected provider failed.
    AllProvidersFailed,
    /// The deadline came before any provider had succeeded and before all had failed.
    ResolutionTimeout,
}

impl ResolveError {
    /// The sentence that [`ResolveError::message`] gives for each error.
    pub open spec fn message_text(self) -> Seq<char> {
        match self {
            ResolveError::NoProvidersRequested => "no providers requested"@,
            ResolveError::UnknownProvider => "unknown provider"@,
            ResolveError::AllProvidersFailed => "all providers failed"@,
            ResolveError::ResolutionTimeout => "resolution timed out"@,
        }
    }

    /// A short sentence for the client.
    pub fn message(self) -> (text: &'static str)
        ensures
            text@ == self.message_text(),
    {
        match self {
            ResolveError::NoProvidersRequested => "no providers requested",
            ResolveError::UnknownProvider => "unknown provider",
            ResolveError::AllProvidersFailed => "all providers failed",
            ResolveError::ResolutionTimeout => "resolution timed out",
        }
    }
}

} // verus!
