//! Locations and what a resolution hands back.

use crate::error::ResolveError;
use crate::provider::ProviderIdentifier;
use vstd::prelude::*;

verus! {

/// A point on the globe. The two coordinates are always there together. Each
/// is held as the 64 bits of an IEEE 754 double: the library carries
/// coordinates from a provider to the caller and never computes with them.
#[derive(Clone, Copy, Debug, PartialEq, Eq, Structural)]
pub struct Location {
    /// Latitude in degrees, as the bits of a double.
    pub lat_bits: u64,
    /// Longitude in degrees, as the bits of a double.
    pub lng_bits: u64,
    /// The provider that gave the coordinates, where one did.
    pub source: Option<ProviderIdentifier>,
}

impl Location {
    /// The location with these coordinates and this source.
    pub fn new(lat_bits: u64, lng_bits: u64, source: Option<ProviderIdentifier>) -> (location:
        Location)
        ensures
            location == (Location { lat_bits, lng_bits, source }),
    {
        Location { lat_bits, lng_bits, source }
    }
}

/// What a resolution hands back: one location where providers race, a list in
/// completion order where all of them are heard.
#[derive(Debug, PartialEq, Eq)]
pub enum ResolutionResult {
    Single(Location),
    Many(Vec<Location>),
}

/// A [`ResolutionResult`] as a mathematical value.
pub enum Resolution {
    Single(Location),
    Many(Seq<Location>),
}

impl Resolution {
    /// The locations that the resolution holds, in order.
    pub open spec fn locations(self) -> Seq<Location> {
        match self {
            Resolution::Single(location) => seq![location],
            Resolution::Many(locations) => locations,
        }
    }
}

impl View for ResolutionResult {
    type V = Resolution;

    open spec fn view(&self) -> Resolution {
        match self {
            ResolutionResult::Single(location) => Resolution::Single(*location),
            ResolutionResult::Many(locations) => Resolution::Many(locations@),
        }
    }
}

/// The end of a resolution as a mathematical value.
pub open spec fn verdict_view(result: Result<ResolutionResult, ResolveError>) -> Result<
    Resolution,
    ResolveError,
> {
    match result {
        Ok(resolution) => Ok(resolution@),
        Err(error) => Err(error),
    }
}

/// A copy of a list of locations.
pub fn copy_locations(locations: &Vec<Location>) -> (copy: Vec<Location>)
    ensures
        copy@ == locations@,
{
    let mut copy: Vec<Location> = Vec::new();
    let mut i: usize = 0;
    while i < locations.len()
        invariant
            i <= locations.len(),
            copy@ == locations@.take(i as int),
        decreases locations.len() - i,
    {
        copy.push(locations[i]);
        assert(locations@.take(i + 1) =~= locations@.take(i as int).push(locations@[i as int]));
        i += 1;
    }
    assert(locations@.take(i as int) =~= locations@);
    copy
}

impl ResolutionResult {
    /// The locations that the result holds, in order: one, or the list.
    pub fn locations(&self) -> (list: Vec<Location>)
        ensures
            list@ == self@.locations(),
    {
        match self {
            ResolutionResult::Single(location) => {
                let mut list: Vec<Location> = Vec::new();
                list.push(*location);
                assert(list@ =~= seq![*location]);
                list
            },
            ResolutionResult::Many(locations) => copy_locations(locations),
        }
    }

    /// A copy of the result.
    pub fn duplicate(&self) -> (copy: ResolutionResult)
        ensures
            copy@ == self@,
    {
        match self {
            ResolutionResult::Single(location) => ResolutionResult::Single(*location),
            ResolutionResult::Many(locations) => ResolutionResult::Many(copy_locations(locations)),
        }
    }
}

} // verus!
