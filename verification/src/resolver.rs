//! The resolver that runs: the state machine of [`crate::model`] on machine
//! values. It performs no call and keeps no clock. Its driver starts one task
//! per requested provider, reports each end of a task and the deadline as an
//! [`Event`], and does what the returned [`Action`] says.

use crate::error::ResolveError;
use crate::location::{copy_locations, verdict_view, Location, ResolutionResult};
use crate::model::{distinct, not_among, outcome, Event, Policy, Reaction, ResolverModel};
use crate::provider::ProviderIdentifier;
use vstd::prelude::*;

verus! {

/// One resolution in progress.
pub struct Resolver {
    policy: Policy,
    requested: Vec<ProviderIdentifier>,
    reported: Vec<ProviderIdentifier>,
    successes: Vec<Location>,
    verdict: Option<Result<ResolutionResult, ResolveError>>,
}

/// What the driver is to do after an event.
#[derive(Debug, PartialEq, Eq)]
pub enum Action {
    /// Nothing is decided yet: go on waiting.
    Wait,
    /// The resolution has ended with `result`; cancel the tasks of `cancel`,
    /// which are still in flight.
    Finish { result: Result<ResolutionResult, ResolveError>, cancel: Vec<ProviderIdentifier> },
    /// The resolution had ended before: drop the event.
    Discard,
}

impl View for Action {
    type V = Reaction;

    open spec fn view(&self) -> Reaction {
        match self {
            Action::Wait => Reaction::Wait,
            Action::Finish { result, cancel } => Reaction::Finish {
                verdict: verdict_view(*result),
                cancel: cancel@,
            },
            Action::Discard => Reaction::Discard,
        }
    }
}

impl View for Resolver {
    type V = ResolverModel;

    closed spec fn view(&self) -> ResolverModel {
        ResolverModel {
            policy: self.policy,
            requested: self.requested@,
            reported: self.reported@,
            successes: self.successes@,
            verdict: match self.verdict {
                Some(result) => Some(verdict_view(result)),
                None => None,
            },
        }
    }
}

/// Whether `provider` occurs in `list`.
pub fn holds(list: &Vec<ProviderIdentifier>, provider: ProviderIdentifier) -> (found: bool)
    ensures
        found == list@.contains(provider),
{
    let mut i: usize = 0;
    while i < list.len()
        invariant
            i <= list.len(),
            forall|j: int| 0 <= j < i ==> list@[j] != provider,
        decreases list.len() - i,
    {
        if list[i] == provider {
            return true;
        }
        i += 1;
    }
    false
}

/// The providers of `providers`, each once, where it first occurs.
pub fn unique(providers: &Vec<ProviderIdentifier>) -> (once: Vec<ProviderIdentifier>)
    ensures
        once@ == distinct(providers@),
{
    let mut once: Vec<ProviderIdentifier> = Vec::new();
    let mut i: usize = 0;
    while i < providers.len()
        invariant
            i <= providers.len(),
            once@ == distinct(providers@.take(i as int)),
        decreases providers.len() - i,
    {
        assert(providers@.take(i + 1).drop_last() =~= providers@.take(i as int));
        if !holds(&once, providers[i]) {
            once.push(providers[i]);
        }
        i += 1;
    }
    assert(providers@.take(i as int) =~= providers@);
    once
}

/// The providers of `requested` that are not in `reported`, in their order.
fn left_over(requested: &Vec<ProviderIdentifier>, reported: &Vec<ProviderIdentifier>) -> (rest: Vec<
    ProviderIdentifier,
>)
    ensures
        rest@ == requested@.filter(not_among(reported@)),
{
    let mut rest: Vec<ProviderIdentifier> = Vec::new();
    let mut i: usize = 0;
    proof {
        reveal(Seq::filter);
    }
    while i < requested.len()
        invariant
            i <= requested.len(),
            rest@ == requested@.take(i as int).filter(not_among(reported@)),
        decreases requested.len() - i,
    {
        proof {
            requested@.take(i as int).lemma_filter_push(requested@[i as int], not_among(reported@));
            assert(requested@.take(i + 1) =~= requested@.take(i as int).push(requested@[i as int]));
        }
        if !holds(reported, requested[i]) {
            rest.push(requested[i]);
        }
        i += 1;
    }
    assert(requested@.take(i as int) =~= requested@);
    rest
}

/// A copy of the end of a resolution.
fn copy_verdict(result: &Result<ResolutionResult, ResolveError>) -> (copy: Result<
    ResolutionResult,
    ResolveError,
>)
    ensures
        verdict_view(copy) == verdict_view(*result),
{
    match result {
        Ok(resolution) => Ok(resolution.duplicate()),
        Err(error) => Err(*error),
    }
}

impl Resolver {
    /// Starts a resolution over `providers`. A provider named more than once
    /// counts once, at its first place. The driver is to start one task for
    /// each provider of [`Resolver::requested`], all at once.
    ///
    /// Fails with `NoProvidersRequested` exactly when `providers` is empty.
    pub fn start(policy: Policy, providers: &Vec<ProviderIdentifier>) -> (started: Result<
        Resolver,
        ResolveError,
    >)
        ensures
            match started {
                Ok(resolver) => providers@.len() > 0 && resolver@ == ResolverModel::init(
                    policy,
                    distinct(providers@),
                ),
                Err(error) => providers@.len() == 0 && error == ResolveError::NoProvidersRequested,
            },
    {
        if providers.len() == 0 {
            return Err(ResolveError::NoProvidersRequested);
        }
        let resolver = Resolver {
            policy,
            requested: unique(providers),
            reported: Vec::new(),
            successes: Vec::new(),
            verdict: None,
        };
        assert(resolver@.reported =~= Seq::empty());
        assert(resolver@.successes =~= Seq::empty());
        Ok(resolver)
    }

    /// The policy of the resolution.
    pub fn policy(&self) -> (policy: Policy)
        ensures
            policy == self@.policy,
    {
        self.policy
    }

    /// The providers asked, each once, in the order of the request.
    pub fn requested(&self) -> (providers: &Vec<ProviderIdentifier>)
        ensures
            providers@ == self@.requested,
    {
        &self.requested
    }

    /// The requested providers that have not reported yet.
    pub fn outstanding(&self) -> (providers: Vec<ProviderIdentifier>)
        ensures
            providers@ == self@.outstanding(),
    {
        left_over(&self.requested, &self.reported)
    }

    /// Whether the resolution has ended.
    pub fn is_finished(&self) -> (finished: bool)
        ensures
            finished == self@.finished(),
    {
        self.verdict.is_some()
    }

    /// The end of the resolution, once it is reached.
    pub fn result(&self) -> (verdict: Option<Result<ResolutionResult, ResolveError>>)
        ensures
            match verdict {
                Some(result) => self@.verdict == Some(verdict_view(result)),
                None => self@.verdict is None,
            },
    {
        match &self.verdict {
            Some(result) => Some(copy_verdict(result)),
            None => None,
        }
    }

    /// Takes one event in and says what the driver is to do.
    pub fn step(&mut self, event: Event) -> (action: Action)
        ensures
            final(self)@ == old(self)@.next(event),
            action@ == old(self)@.reaction(event),
    {
        if self.verdict.is_some() {
            return Action::Discard;
        }
        match event {
            Event::DeadlineElapsed => {
                let result = match self.policy {
                    Policy::RaceToFirstSuccess => Err(ResolveError::ResolutionTimeout),
                    Policy::CollectAll => Ok(
                        ResolutionResult::Many(copy_locations(&self.successes)),
                    ),
                };
                let cancel = left_over(&self.requested, &self.reported);
                self.verdict = Some(copy_verdict(&result));
                Action::Finish { result, cancel }
            },
            Event::Completed { provider, outcome } => {
                if !holds(&self.requested, provider) || holds(&self.reported, provider) {
                    return Action::Wait;
                }
                self.reported.push(provider);
                match outcome {
                    Ok(location) => {
                        self.successes.push(location);
                    },
                    Err(_) => {},
                }
                let cancel = left_over(&self.requested, &self.reported);
                let decided: Option<Result<ResolutionResult, ResolveError>> = match self.policy {
                    Policy::RaceToFirstSuccess => match outcome {
                        Ok(location) => Some(Ok(ResolutionResult::Single(location))),
                        Err(_) => if cancel.len() == 0 {
                            Some(Err(ResolveError::AllProvidersFailed))
                        } else {
                            None
                        },
                    },
                    Policy::CollectAll => if cancel.len() == 0 {
                        Some(Ok(ResolutionResult::Many(copy_locations(&self.successes))))
                    } else {
                        None
                    },
                };
                match decided {
                    Some(result) => {
                        self.verdict = Some(copy_verdict(&result));
                        Action::Finish { result, cancel }
                    },
                    None => Action::Wait,
                }
            },
        }
    }

    /// Ends the resolution as the deadline would, if it has not ended, and
    /// hands the end back.
    pub fn close(self) -> (result: Result<ResolutionResult, ResolveError>)
        ensures
            verdict_view(result) == self@.closing(),
    {
        match self.verdict {
            Some(result) => result,
            None => match self.policy {
                Policy::RaceToFirstSuccess => Err(ResolveError::ResolutionTimeout),
                Policy::CollectAll => Ok(ResolutionResult::Many(self.successes)),
            },
        }
    }
}

/// The end of a resolution over `providers` in which `events` is all that
/// happens before the deadline: the events are taken in, in their order, and
/// the deadline after them.
///
/// Fails with `NoProvidersRequested` exactly when `providers` is empty; every
/// other end is that of [`outcome`].
pub fn settle(policy: Policy, providers: &Vec<ProviderIdentifier>, events: &Vec<Event>) -> (result:
    Result<ResolutionResult, ResolveError>)
    ensures
        providers@.len() == 0 ==> result == Err::<ResolutionResult, ResolveError>(
            ResolveError::NoProvidersRequested,
        ),
        providers@.len() > 0 ==> verdict_view(result) == outcome(
            policy,
            distinct(providers@),
            events@,
        ),
{
    let mut resolver = match Resolver::start(policy, providers) {
        Ok(resolver) => resolver,
        Err(error) => {
            return Err(error);
        },
    };
    let ghost first = resolver@;
    let mut i: usize = 0;
    while i < events.len()
        invariant
            i <= events.len(),
            resolver@ == first.run(events@.take(i as int)),
        decreases events.len() - i,
    {
        assert(events@.take(i + 1).drop_last() =~= events@.take(i as int));
        resolver.step(events[i]);
        i += 1;
    }
    assert(events@.take(i as int) =~= events@);
    resolver.close()
}

} // verus!
