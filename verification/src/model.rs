//! The resolver as a state machine over mathematical values: what it knows,
//! what an event turns that into, and what it asks of its driver in return.
//!
//! One task per requested provider is in flight from the start. The driver
//! hands in an event whenever a task ends or the deadline comes; nothing but
//! the order of these events decides the outcome.

use crate::error::{AdapterError, ResolveError};
use crate::location::{Location, Resolution};
use crate::provider::ProviderIdentifier;
use vstd::prelude::*;

verus! {

/// How the answers of several providers become one result.
#[derive(Clone, Copy, Debug, PartialEq, Eq, Structural)]
pub enum Policy {
    /// The first provider that succeeds gives the result; the others are cancelled.
    RaceToFirstSuccess,
    /// Every provider is heard; the result lists the successes in completion order.
    CollectAll,
}

impl Default for Policy {
    /// The policy of the service: hear every provider. A provider that is
    /// slow or broken then costs its own location and nothing else.
    fn default() -> (policy: Policy)
        ensures
            policy == Policy::CollectAll,
    {
        Policy::CollectAll
    }
}

/// What the driver tells the resolver.
#[derive(Clone, Copy, Debug, PartialEq, Eq)]
pub enum Event {
    /// The task of `provider` has ended: with a location, with an error, or
    /// by running out of its own budget.
    Completed { provider: ProviderIdentifier, outcome: Result<Location, AdapterError> },
    /// The deadline of the whole resolution has come.
    DeadlineElapsed,
}

/// What the resolver knows at one moment.
pub struct ResolverModel {
    pub policy: Policy,
    /// The providers asked, each once, in the order of the request.
    pub requested: Seq<ProviderIdentifier>,
    /// The requested providers whose tasks have ended, in completion order.
    pub reported: Seq<ProviderIdentifier>,
    /// The locations that came in, in completion order.
    pub successes: Seq<Location>,
    /// The end of the resolution, once it is reached.
    pub verdict: Option<Result<Resolution, ResolveError>>,
}

/// What the resolver asks of its driver after an event.
pub enum Reaction {
    /// Nothing is decided yet: go on waiting.
    Wait,
    /// The resolution has ended with `verdict`; the tasks of `cancel` are
    /// still in flight and are to be cancelled.
    Finish { verdict: Result<Resolution, ResolveError>, cancel: Seq<ProviderIdentifier> },
    /// The resolution had ended before: the event is dropped.
    Discard,
}

/// The test "is not among `reported`".
pub open spec fn not_among(reported: Seq<ProviderIdentifier>) -> spec_fn(ProviderIdentifier) -> bool {
    |provider: ProviderIdentifier| !reported.contains(provider)
}

/// `providers` without repetitions: each provider stands where it first occurs.
pub open spec fn distinct(providers: Seq<ProviderIdentifier>) -> Seq<ProviderIdentifier>
    decreases providers.len(),
{
    if providers.len() == 0 {
        Seq::empty()
    } else {
        let before = distinct(providers.drop_last());
        if before.contains(providers.last()) {
            before
        } else {
            before.push(providers.last())
        }
    }
}

impl ResolverModel {
    /// The state in which a resolution starts.
    pub open spec fn init(policy: Policy, requested: Seq<ProviderIdentifier>) -> ResolverModel {
        ResolverModel {
            policy,
            requested,
            reported: Seq::empty(),
            successes: Seq::empty(),
            verdict: None,
        }
    }

    /// Whether the resolution has ended.
    pub open spec fn finished(self) -> bool {
        self.verdict is Some
    }

    /// Whether a report of `provider` is still waited for.
    pub open spec fn awaits(self, provider: ProviderIdentifier) -> bool {
        self.requested.contains(provider) && !self.reported.contains(provider)
    }

    /// The requested providers that have not reported, in the order of the request.
    pub open spec fn outstanding(self) -> Seq<ProviderIdentifier> {
        self.requested.filter(not_among(self.reported))
    }

    /// What the deadline makes of a resolution that has not ended.
    pub open spec fn at_deadline(self) -> Result<Resolution, ResolveError> {
        match self.policy {
            Policy::RaceToFirstSuccess => Err(ResolveError::ResolutionTimeout),
            Policy::CollectAll => Ok(Resolution::Many(self.successes)),
        }
    }

    /// The state with one more report noted and nothing decided.
    pub open spec fn noting(
        self,
        provider: ProviderIdentifier,
        outcome: Result<Location, AdapterError>,
    ) -> ResolverModel {
        ResolverModel {
            reported: self.reported.push(provider),
            successes: match outcome {
                Ok(location) => self.successes.push(location),
                Err(_) => self.successes,
            },
            ..self
        }
    }

    /// What a report decides, `self` being the state in which it is noted already.
    pub open spec fn deciding(self, outcome: Result<Location, AdapterError>) -> Option<
        Result<Resolution, ResolveError>,
    > {
        match self.policy {
            Policy::RaceToFirstSuccess => match outcome {
                Ok(location) => Some(Ok(Resolution::Single(location))),
                Err(_) => if self.outstanding().len() == 0 {
                    Some(Err(ResolveError::AllProvidersFailed))
                } else {
                    None
                },
            },
            Policy::CollectAll => if self.outstanding().len() == 0 {
                Some(Ok(Resolution::Many(self.successes)))
            } else {
                None
            },
        }
    }

    /// The state after `event`.
    ///
    /// An ended resolution stays as it is. So does a resolution that is told
    /// of a provider it does not wait for. A deadline ends the resolution. A
    /// report that is waited for is noted, and ends the resolution where the
    /// policy says so: under the race, a success, or the last failure; under
    /// collect-all, the last report.
    pub open spec fn next(self, event: Event) -> ResolverModel {
        if self.finished() {
            self
        } else {
            match event {
                Event::DeadlineElapsed => ResolverModel {
                    verdict: Some(self.at_deadline()),
                    ..self
                },
                Event::Completed { provider, outcome } => if self.awaits(provider) {
                    let noted = self.noting(provider, outcome);
                    ResolverModel { verdict: noted.deciding(outcome), ..noted }
                } else {
                    self
                },
            }
        }
    }

    /// What the driver is asked to do after `event`.
    pub open spec fn reaction(self, event: Event) -> Reaction {
        if self.finished() {
            Reaction::Discard
        } else {
            let after = self.next(event);
            match after.verdict {
                Some(verdict) => Reaction::Finish { verdict, cancel: after.outstanding() },
                None => Reaction::Wait,
            }
        }
    }

    /// The state after a row of events.
    pub open spec fn run(self, events: Seq<Event>) -> ResolverModel
        decreases events.len(),
    {
        if events.len() == 0 {
            self
        } else {
            self.run(events.drop_last()).next(events.last())
        }
    }

    /// How the resolution ends if the deadline comes now.
    pub open spec fn closing(self) -> Result<Resolution, ResolveError> {
        match self.verdict {
            Some(verdict) => verdict,
            None => self.at_deadline(),
        }
    }
}

/// How a resolution over `requested` ends when `events` is all that happens
/// before its deadline.
pub open spec fn outcome(
    policy: Policy,
    requested: Seq<ProviderIdentifier>,
    events: Seq<Event>,
) -> Result<Resolution, ResolveError> {
    ResolverModel::init(policy, requested).run(events).closing()
}

} // verus!
