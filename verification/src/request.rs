//! What a caller asks for: an IP and, if it likes, a selection of providers.

use crate::error::ResolveError;
use crate::model::distinct;
use crate::provider::ProviderIdentifier;
use crate::resolver::unique;
use vstd::prelude::*;

verus! {

/// A request to resolve one IP with some providers.
#[derive(Debug, PartialEq, Eq)]
pub struct ResolutionRequest {
    /// The client's IP, as text.
    pub ip: String,
    /// The providers to ask: at least one, none twice.
    pub providers: Vec<ProviderIdentifier>,
}

/// Whether every tag of `tags` selects a provider.
pub open spec fn all_known(tags: Seq<String>) -> bool {
    forall|i: int| 0 <= i < tags.len() ==> ProviderIdentifier::named((#[trigger] tags[i])@) is Some
}

/// The providers that the tags select, tag by tag.
pub open spec fn named_by(tags: Seq<String>) -> Seq<ProviderIdentifier> {
    Seq::new(tags.len(), |i: int| ProviderIdentifier::named(tags[i]@)->Some_0)
}

/// The providers that a selection asks for.
///
/// No selection asks for every provider of the table. A selection is turned
/// down with `UnknownProvider` if one of its tags selects no provider, and
/// with `NoProvidersRequested` if it is empty. Otherwise it asks for the
/// providers that its tags select, each once, in the order of their first tags.
pub open spec fn selection(tags: Option<Seq<String>>) -> Result<
    Seq<ProviderIdentifier>,
    ResolveError,
> {
    match tags {
        None => Ok(ProviderIdentifier::table()),
        Some(tags) => if !all_known(tags) {
            Err(ResolveError::UnknownProvider)
        } else if tags.len() == 0 {
            Err(ResolveError::NoProvidersRequested)
        } else {
            Ok(distinct(named_by(tags)))
        },
    }
}

/// The selection that a caller made, as a mathematical value.
pub open spec fn tags_view(tags: Option<&Vec<String>>) -> Option<Seq<String>> {
    match tags {
        Some(tags) => Some(tags@),
        None => None,
    }
}

/// Turns a selection of tags into the providers to ask.
pub fn select_providers(tags: Option<&Vec<String>>) -> (chosen: Result<
    Vec<ProviderIdentifier>,
    ResolveError,
>)
    ensures
        match chosen {
            Ok(providers) => selection(tags_view(tags)) == Ok::<
                Seq<ProviderIdentifier>,
                ResolveError,
            >(providers@),
            Err(error) => selection(tags_view(tags)) == Err::<
                Seq<ProviderIdentifier>,
                ResolveError,
            >(error),
        },
{
    let list = match tags {
        Some(list) => list,
        None => {
            return Ok(ProviderIdentifier::all());
        },
    };
    let mut named: Vec<ProviderIdentifier> = Vec::new();
    let mut i: usize = 0;
    while i < list.len()
        invariant
            i <= list.len(),
            tags_view(tags) == Some(list@),
            all_known(list@.take(i as int)),
            named@ == named_by(list@.take(i as int)),
        decreases list.len() - i,
    {
        match ProviderIdentifier::from_tag(list[i].as_str()) {
            Some(provider) => {
                named.push(provider);
            },
            None => {
                assert(ProviderIdentifier::named(list@[i as int]@) is None);
                return Err(ResolveError::UnknownProvider);
            },
        }
        assert(named@ =~= named_by(list@.take(i + 1)));
        i += 1;
    }
    assert(list@.take(i as int) =~= list@);
    if named.len() == 0 {
        return Err(ResolveError::NoProvidersRequested);
    }
    Ok(unique(&named))
}

impl ResolutionRequest {
    /// The request for `ip` with the providers that `tags` selects.
    ///
    /// Fails as [`selection`] says, and on no other input.
    pub fn new(ip: String, tags: Option<&Vec<String>>) -> (request: Result<
        ResolutionRequest,
        ResolveError,
    >)
        ensures
            match request {
                Ok(request) => request.ip == ip && selection(tags_view(tags)) == Ok::<
                    Seq<ProviderIdentifier>,
                    ResolveError,
                >(request.providers@),
                Err(error) => selection(tags_view(tags)) == Err::<
                    Seq<ProviderIdentifier>,
                    ResolveError,
                >(error),
            },
    {
        match select_providers(tags) {
            Ok(providers) => Ok(ResolutionRequest { ip, providers }),
            Err(error) => Err(error),
        }
    }
}

} // verus!
