//! What holds of every resolution, proved from the state machine of
//! [`crate::model`].

use crate::adapter::{reading, CallOutcome};
use crate::budget::{capping, counting_as, GLOBAL_BUDGET_MS, PROVIDER_BUDGET_MS};
use crate::error::{AdapterError, ResolveError};
use crate::location::{verdict_view, Location, Resolution, ResolutionResult};
use crate::model::{distinct, not_among, outcome, Event, Policy, Reaction, ResolverModel};
use crate::provider::ProviderIdentifier;
use vstd::multiset::Multiset;
use vstd::prelude::*;

verus! {

/// A request as the resolver holds it: at least one provider, none twice.
pub open spec fn valid_request(requested: Seq<ProviderIdentifier>) -> bool {
    requested.len() > 0 && requested.no_duplicates()
}

/// The provider whose task an event reports on.
pub open spec fn reporter(event: Event) -> Option<ProviderIdentifier> {
    match event {
        Event::Completed { provider, .. } => Some(provider),
        Event::DeadlineElapsed => None,
    }
}

/// Events as tasks produce them before the deadline: each is the end of a
/// task, and no task ends twice.
pub open spec fn single_reports(events: Seq<Event>) -> bool {
    &&& forall|i: int| 0 <= i < events.len() ==> (#[trigger] events[i]) is Completed
    &&& forall|i: int, j: int|
        0 <= i < j < events.len() ==> reporter(#[trigger] events[i]) != reporter(
            #[trigger] events[j],
        )
}

/// The requested provider that an event reports on, if it reports on one.
pub open spec fn heard(requested: Seq<ProviderIdentifier>) -> spec_fn(Event) -> Option<
    ProviderIdentifier,
> {
    |event: Event|
        match event {
            Event::Completed { provider, .. } => if requested.contains(provider) {
                Some(provider)
            } else {
                None
            },
            Event::DeadlineElapsed => None,
        }
}

/// The location that an event brings from a requested provider, if it brings one.
pub open spec fn brought(requested: Seq<ProviderIdentifier>) -> spec_fn(Event) -> Option<
    Location,
> {
    |event: Event|
        match event {
            Event::Completed { provider, outcome: Ok(location) } => if requested.contains(
                provider,
            ) {
                Some(location)
            } else {
                None
            },
            _ => None,
        }
}

/// What holds of the resolver in every state that it can reach.
pub open spec fn consistent(state: ResolverModel) -> bool {
    &&& valid_request(state.requested)
    &&& state.reported.no_duplicates()
    &&& forall|i: int|
        0 <= i < state.reported.len() ==> state.requested.contains(#[trigger] state.reported[i])
    &&& state.successes.len() <= state.reported.len()
    &&& match state.verdict {
        None => state.outstanding().len() > 0 && (state.policy == Policy::RaceToFirstSuccess
            ==> state.successes.len() == 0),
        Some(Ok(Resolution::Single(location))) => state.policy == Policy::RaceToFirstSuccess
            && state.successes == seq![location],
        Some(Ok(Resolution::Many(locations))) => state.policy == Policy::CollectAll && locations
            == state.successes,
        Some(Err(error)) => state.policy == Policy::RaceToFirstSuccess && state.successes.len()
            == 0 && (error == ResolveError::AllProvidersFailed ==> state.outstanding().len() == 0)
            && (error == ResolveError::AllProvidersFailed || error
            == ResolveError::ResolutionTimeout),
    }
}

/// `distinct` keeps every provider, keeps none twice, and leaves a row
/// without repetitions as it is.
pub proof fn lemma_distinct(providers: Seq<ProviderIdentifier>)
    ensures
        distinct(providers).no_duplicates(),
        forall|provider: ProviderIdentifier|
            distinct(providers).contains(provider) <==> providers.contains(provider),
        distinct(providers).len() <= providers.len(),
        providers.len() > 0 ==> distinct(providers).len() > 0,
        providers.no_duplicates() ==> distinct(providers) == providers,
        providers.len() > 0 ==> valid_request(distinct(providers)),
    decreases providers.len(),
{
    if providers.len() > 0 {
        let front = providers.drop_last();
        let last = providers.last();
        lemma_distinct(front);
        let before = distinct(front);
        assert forall|provider: ProviderIdentifier|
            distinct(providers).contains(provider) <==> providers.contains(provider) by {
            if providers.contains(provider) {
                let i = choose|i: int| 0 <= i < providers.len() && providers[i] == provider;
                if i < front.len() {
                    assert(front[i] == provider);
                    assert(front.contains(provider));
                    let k = choose|k: int| 0 <= k < before.len() && before[k] == provider;
                    assert(distinct(providers)[k] == provider);
                } else {
                    if !before.contains(last) {
                        assert(before.push(last)[before.len() as int] == last);
                    }
                }
            }
            if distinct(providers).contains(provider) {
                let k = choose|k: int|
                    0 <= k < distinct(providers).len() && distinct(providers)[k] == provider;
                if k < before.len() {
                    assert(before[k] == provider);
                    assert(before.contains(provider));
                    assert(front.contains(provider));
                    let i = choose|i: int| 0 <= i < front.len() && front[i] == provider;
                    assert(providers[i] == provider);
                } else {
                    assert(provider == last);
                    assert(providers[providers.len() - 1] == last);
                }
            }
        }
        if front.len() > 0 {
            assert(before.len() > 0);
        } else {
            assert(!before.contains(last));
        }
        if providers.no_duplicates() {
            assert forall|i: int, j: int| 0 <= i < j < front.len() implies front[i] != front[j] by {
                assert(providers[i] != providers[j]);
            }
            assert(before == front);
            if front.contains(last) {
                let i = choose|i: int| 0 <= i < front.len() && front[i] == last;
                assert(providers[i] == providers[providers.len() - 1]);
            }
            assert(front.push(last) =~= providers);
        }
    }
}

/// Before anything has happened every requested provider is outstanding.
pub proof fn lemma_init_is_consistent(policy: Policy, requested: Seq<ProviderIdentifier>)
    requires
        valid_request(requested),
    ensures
        consistent(ResolverModel::init(policy, requested)),
        ResolverModel::init(policy, requested).outstanding() == requested,
{
    let state = ResolverModel::init(policy, requested);
    lemma_filter_keeps_all(requested, not_among(state.reported));
}

/// A filter that every element passes changes nothing.
proof fn lemma_filter_keeps_all(
    providers: Seq<ProviderIdentifier>,
    pred: spec_fn(ProviderIdentifier) -> bool,
)
    requires
        forall|i: int| 0 <= i < providers.len() ==> pred(#[trigger] providers[i]),
    ensures
        providers.filter(pred) == providers,
    decreases providers.len(),
{
    reveal(Seq::filter);
    if providers.len() > 0 {
        lemma_filter_keeps_all(providers.drop_last(), pred);
        assert(providers.drop_last().push(providers.last()) =~= providers);
    }
}

/// A provider is outstanding exactly when its report is waited for.
pub proof fn lemma_outstanding(state: ResolverModel, provider: ProviderIdentifier)
    ensures
        state.outstanding().contains(provider) <==> state.awaits(provider),
{
    let pred = not_among(state.reported);
    if state.outstanding().contains(provider) {
        state.requested.lemma_filter_contains_rev(pred, provider);
        let k = choose|k: int|
            0 <= k < state.outstanding().len() && state.outstanding()[k] == provider;
        state.requested.lemma_filter_pred(pred, k);
    }
    if state.awaits(provider) {
        let i = choose|i: int| 0 <= i < state.requested.len() && state.requested[i] == provider;
        state.requested.lemma_filter_contains(pred, i);
    }
}

/// Every event leaves a consistent state consistent.
pub proof fn lemma_next_is_consistent(state: ResolverModel, event: Event)
    requires
        consistent(state),
    ensures
        consistent(state.next(event)),
{
    let after = state.next(event);
    if !state.finished() {
        match event {
            Event::DeadlineElapsed => {},
            Event::Completed { provider, outcome } => {
                if state.awaits(provider) {
                    assert(after.reported == state.reported.push(provider));
                    assert forall|i: int|
                        0 <= i < after.reported.len() implies after.requested.contains(
                        #[trigger] after.reported[i],
                    ) by {
                        if i < state.reported.len() {
                            assert(after.reported[i] == state.reported[i]);
                        }
                    }
                    assert forall|i: int, j: int|
                        0 <= i < after.reported.len() && 0 <= j < after.reported.len() && i
                            != j implies after.reported[i] != after.reported[j] by {
                        if i < state.reported.len() && j < state.reported.len() {
                            assert(state.reported[i] != state.reported[j]);
                        } else if i < state.reported.len() {
                            assert(state.reported.contains(state.reported[i]));
                        } else {
                            assert(state.reported.contains(state.reported[j]));
                        }
                    }
                    if state.policy == Policy::RaceToFirstSuccess {
                        match outcome {
                            Ok(location) => {
                                assert(after.successes =~= seq![location]);
                            },
                            Err(_) => {},
                        }
                    }
                }
            },
        }
    }
}

/// No event changes the policy or the request.
pub proof fn lemma_run_keeps_request(state: ResolverModel, events: Seq<Event>)
    ensures
        state.run(events).policy == state.policy,
        state.run(events).requested == state.requested,
    decreases events.len(),
{
    if events.len() > 0 {
        lemma_run_keeps_request(state, events.drop_last());
    }
}

/// Every state that a resolution reaches is consistent.
pub proof fn lemma_run_is_consistent(state: ResolverModel, events: Seq<Event>)
    requires
        consistent(state),
    ensures
        consistent(state.run(events)),
    decreases events.len(),
{
    if events.len() > 0 {
        lemma_run_is_consistent(state, events.drop_last());
        lemma_next_is_consistent(state.run(events.drop_last()), events.last());
    }
}

/// Once a resolution has ended nothing changes it: every later event is
/// dropped, and the driver is asked for nothing more.
pub proof fn lemma_finished_absorbs(state: ResolverModel, event: Event)
    requires
        state.finished(),
    ensures
        state.next(event) == state,
        state.reaction(event) == Reaction::Discard,
{
}

/// Once a resolution has ended no row of events changes it.
pub proof fn lemma_finished_absorbs_all(state: ResolverModel, events: Seq<Event>)
    requires
        state.finished(),
    ensures
        state.run(events) == state,
    decreases events.len(),
{
    if events.len() > 0 {
        lemma_finished_absorbs_all(state, events.drop_last());
    }
}

/// The only event that asks the driver to end anything is the one that ends
/// the resolution, and it names exactly the tasks that are still in flight.
pub proof fn lemma_finish_is_asked_once(state: ResolverModel, event: Event)
    ensures
        state.reaction(event) is Finish <==> !state.finished() && state.next(event).finished(),
        state.reaction(event) matches Reaction::Finish { verdict, cancel } ==> state.next(
            event,
        ).verdict == Some(verdict) && cancel == state.next(event).outstanding(),
        state.reaction(event) is Wait ==> !state.next(event).finished(),
{
}

/// The deadline ends every resolution, whatever has been heard until then.
pub proof fn lemma_deadline_ends(state: ResolverModel)
    ensures
        state.next(Event::DeadlineElapsed).finished(),
        state.next(Event::DeadlineElapsed).verdict == Some(state.closing()),
{
}

/// Nothing outlasts the global budget: whatever comes in after it is spent
/// ends the resolution, in every state and whatever the providers do.
pub proof fn lemma_budget_ends(state: ResolverModel, elapsed_ms: u64, event: Event)
    requires
        elapsed_ms > GLOBAL_BUDGET_MS,
    ensures
        state.next(counting_as(elapsed_ms, event)).finished(),
        state.next(counting_as(elapsed_ms, event)).verdict == Some(state.closing()),
{
}

/// A call that exceeds the provider's budget is a failure of that provider,
/// whatever it would have brought.
pub proof fn lemma_late_call_fails(provider: ProviderIdentifier, latency_ms: u64, call: CallOutcome)
    requires
        latency_ms > PROVIDER_BUDGET_MS,
    ensures
        reading(provider, capping(latency_ms, call)) == Err::<Location, AdapterError>(
            AdapterError::ProviderTimeout,
        ),
{
}

/// A resolution is over, at the latest, when every requested provider has reported.
pub proof fn lemma_all_reported_ends(
    policy: Policy,
    requested: Seq<ProviderIdentifier>,
    events: Seq<Event>,
)
    requires
        valid_request(requested),
    ensures
        ({
            let state = ResolverModel::init(policy, requested).run(events);
            state.outstanding().len() == 0 ==> state.finished()
        }),
{
    lemma_init_is_consistent(policy, requested);
    lemma_run_is_consistent(ResolverModel::init(policy, requested), events);
}

/// Events taken in one after the other: a row may be cut anywhere.
pub proof fn lemma_run_split(state: ResolverModel, events: Seq<Event>, k: int)
    requires
        0 <= k <= events.len(),
    ensures
        state.run(events) == state.run(events.take(k)).run(events.skip(k)),
    decreases events.len(),
{
    if k == events.len() {
        assert(events.take(k) =~= events);
    } else {
        lemma_run_split(state, events.drop_last(), k);
        assert(events.drop_last().take(k) =~= events.take(k));
        assert(events.drop_last().skip(k) =~= events.skip(k).drop_last());
    }
}

/// What is heard after the deadline changes nothing: the end is that of the
/// events before it.
pub proof fn lemma_deadline_cuts(
    policy: Policy,
    requested: Seq<ProviderIdentifier>,
    events: Seq<Event>,
    k: int,
)
    requires
        0 <= k < events.len(),
        events[k] is DeadlineElapsed,
    ensures
        outcome(policy, requested, events) == outcome(policy, requested, events.take(k)),
{
    let start = ResolverModel::init(policy, requested);
    lemma_run_split(start, events, k + 1);
    assert(events.take(k + 1).drop_last() =~= events.take(k));
    lemma_deadline_ends(start.run(events.take(k)));
    lemma_finished_absorbs_all(start.run(events.take(k + 1)), events.skip(k + 1));
}

/// Collect-all never fails, and the race fails in two ways only.
pub proof fn lemma_outcome_kinds(
    policy: Policy,
    requested: Seq<ProviderIdentifier>,
    events: Seq<Event>,
)
    requires
        valid_request(requested),
    ensures
        policy == Policy::CollectAll ==> outcome(policy, requested, events) is Ok && outcome(
            policy,
            requested,
            events,
        )->Ok_0 is Many,
        policy == Policy::RaceToFirstSuccess ==> match outcome(policy, requested, events) {
            Ok(resolution) => resolution is Single,
            Err(error) => error == ResolveError::AllProvidersFailed || error
                == ResolveError::ResolutionTimeout,
        },
{
    lemma_init_is_consistent(policy, requested);
    lemma_run_is_consistent(ResolverModel::init(policy, requested), events);
    lemma_run_keeps_request(ResolverModel::init(policy, requested), events);
}

/// The requested providers that a row of events reports on are those that
/// some event of the row names.
pub proof fn lemma_heard(
    requested: Seq<ProviderIdentifier>,
    events: Seq<Event>,
    provider: ProviderIdentifier,
)
    ensures
        events.filter_map(heard(requested)).contains(provider) <==> requested.contains(provider)
            && exists|i: int| 0 <= i < events.len() && reporter(#[trigger] events[i]) == Some(provider),
    decreases events.len(),
{
    let all = events.filter_map(heard(requested));
    if events.len() > 0 {
        let front = events.drop_last();
        let last = events.last();
        let before = front.filter_map(heard(requested));
        lemma_heard(requested, front, provider);
        if all.contains(provider) {
            let k = choose|k: int| 0 <= k < all.len() && all[k] == provider;
            if k < before.len() {
                assert(before[k] == provider);
                assert(before.contains(provider));
                let i = choose|i: int|
                    0 <= i < front.len() && reporter(#[trigger] front[i]) == Some(provider);
                assert(reporter(events[i]) == Some(provider));
            } else {
                assert(reporter(events[events.len() - 1]) == Some(provider));
            }
        }
        if requested.contains(provider) && exists|i: int|
            0 <= i < events.len() && reporter(#[trigger] events[i]) == Some(provider) {
            let i = choose|i: int|
                0 <= i < events.len() && reporter(#[trigger] events[i]) == Some(provider);
            if i < front.len() {
                assert(reporter(front[i]) == Some(provider));
                let k = choose|k: int| 0 <= k < before.len() && before[k] == provider;
                assert(all[k] == provider);
            } else {
                assert(all[all.len() - 1] == provider);
            }
        }
    }
}

/// Where no task ends twice, the resolver has noted exactly the reports of
/// the requested providers and the locations that they brought, both in
/// completion order; and it has ended only if all of them have reported.
/// Under the race this holds as long as no location has come in.
pub proof fn lemma_run_follows(
    policy: Policy,
    requested: Seq<ProviderIdentifier>,
    events: Seq<Event>,
)
    requires
        valid_request(requested),
        single_reports(events),
        policy == Policy::RaceToFirstSuccess ==> forall|i: int|
            0 <= i < events.len() ==> brought(requested)(#[trigger] events[i]) is None,
    ensures
        ({
            let state = ResolverModel::init(policy, requested).run(events);
            &&& state.reported == events.filter_map(heard(requested))
            &&& state.successes == events.filter_map(brought(requested))
            &&& state.verdict == if state.outstanding().len() > 0 {
                None
            } else {
                Some(
                    match policy {
                        Policy::RaceToFirstSuccess => Err(ResolveError::AllProvidersFailed),
                        Policy::CollectAll => Ok(Resolution::Many(state.successes)),
                    },
                )
            }
        }),
    decreases events.len(),
{
    let start = ResolverModel::init(policy, requested);
    lemma_init_is_consistent(policy, requested);
    if events.len() > 0 {
        let front = events.drop_last();
        let last = events.last();
        assert forall|i: int| 0 <= i < front.len() implies (#[trigger] front[i]) is Completed by {
            assert(events[i] is Completed);
        }
        assert forall|i: int, j: int| 0 <= i < j < front.len() implies reporter(
            #[trigger] front[i],
        ) != reporter(#[trigger] front[j]) by {
            assert(reporter(events[i]) != reporter(events[j]));
        }
        if policy == Policy::RaceToFirstSuccess {
            assert forall|i: int| 0 <= i < front.len() implies brought(requested)(
                #[trigger] front[i],
            ) is None by {
                assert(brought(requested)(events[i]) is None);
            }
        }
        lemma_run_follows(policy, requested, front);
        lemma_run_keeps_request(start, front);
        let before = start.run(front);
        let after = before.next(last);
        assert(events[events.len() - 1] is Completed);
        match last {
            Event::Completed { provider, outcome } => {
                if requested.contains(provider) {
                    lemma_heard(requested, front, provider);
                    if before.reported.contains(provider) {
                        let i = choose|i: int|
                            0 <= i < front.len() && reporter(#[trigger] front[i]) == Some(provider);
                        assert(reporter(events[i]) != reporter(events[events.len() - 1]));
                    }
                    lemma_outstanding(before, provider);
                    assert(after.reported =~= events.filter_map(heard(requested)));
                    assert(brought(requested)(events[events.len() - 1]) == brought(requested)(
                        last,
                    ));
                    assert(after.successes =~= events.filter_map(brought(requested)));
                    assert(after.outstanding() == before.noting(provider, outcome).outstanding());
                } else {
                    assert(after == before);
                }
            },
            Event::DeadlineElapsed => {},
        }
    }
}

/// Collect-all, where no task ends twice: the result lists the locations that
/// the requested providers brought before the deadline, in completion order,
/// and nothing else. No success gives the empty list, not an error.
pub proof fn lemma_collect_all_outcome(requested: Seq<ProviderIdentifier>, events: Seq<Event>)
    requires
        valid_request(requested),
        single_reports(events),
    ensures
        outcome(Policy::CollectAll, requested, events) == Ok::<Resolution, ResolveError>(
            Resolution::Many(events.filter_map(brought(requested))),
        ),
{
    lemma_run_follows(Policy::CollectAll, requested, events);
    lemma_run_keeps_request(ResolverModel::init(Policy::CollectAll, requested), events);
}

/// The race, where no task ends twice: the result is the location of the
/// requested provider that succeeds first, whatever comes after it.
pub proof fn lemma_race_first_success(
    requested: Seq<ProviderIdentifier>,
    events: Seq<Event>,
    i: int,
)
    requires
        valid_request(requested),
        single_reports(events),
        0 <= i < events.len(),
        brought(requested)(events[i]) is Some,
        forall|j: int| 0 <= j < i ==> brought(requested)(#[trigger] events[j]) is None,
    ensures
        outcome(Policy::RaceToFirstSuccess, requested, events) == Ok::<Resolution, ResolveError>(
            Resolution::Single(brought(requested)(events[i])->Some_0),
        ),
        ResolverModel::init(Policy::RaceToFirstSuccess, requested).run(events.take(i)).reaction(
            events[i],
        ) is Finish,
{
    let policy = Policy::RaceToFirstSuccess;
    let start = ResolverModel::init(policy, requested);
    let front = events.take(i);
    assert forall|a: int| 0 <= a < front.len() implies (#[trigger] front[a]) is Completed by {
        assert(events[a] is Completed);
    }
    assert forall|a: int, b: int| 0 <= a < b < front.len() implies reporter(#[trigger] front[a])
        != reporter(#[trigger] front[b]) by {
        assert(reporter(events[a]) != reporter(events[b]));
    }
    assert forall|a: int| 0 <= a < front.len() implies brought(requested)(#[trigger] front[a])
        is None by {
        assert(brought(requested)(events[a]) is None);
    }
    lemma_run_follows(policy, requested, front);
    lemma_run_keeps_request(start, front);
    let before = start.run(front);
    match events[i] {
        Event::Completed { provider, outcome } => {
            lemma_heard(requested, front, provider);
            if before.reported.contains(provider) {
                let a = choose|a: int|
                    0 <= a < front.len() && reporter(#[trigger] front[a]) == Some(provider);
                assert(reporter(events[a]) != reporter(events[i]));
            }
            lemma_outstanding(before, provider);
        },
        Event::DeadlineElapsed => {},
    }
    let won = before.next(events[i]);
    assert(events.take(i + 1).drop_last() =~= front);
    assert(start.run(events.take(i + 1)) == won);
    lemma_run_split(start, events, i + 1);
    lemma_finished_absorbs_all(won, events.skip(i + 1));
}

/// The race, where no task ends twice: if every requested provider reports
/// and none of them brings a location, the end is `AllProvidersFailed`.
pub proof fn lemma_race_all_failed(requested: Seq<ProviderIdentifier>, events: Seq<Event>)
    requires
        valid_request(requested),
        single_reports(events),
        forall|i: int| 0 <= i < events.len() ==> brought(requested)(#[trigger] events[i]) is None,
        forall|provider: ProviderIdentifier| #[trigger]
            requested.contains(provider) ==> exists|i: int|
                0 <= i < events.len() && reporter(#[trigger] events[i]) == Some(provider),
    ensures
        outcome(Policy::RaceToFirstSuccess, requested, events) == Err::<Resolution, ResolveError>(
            ResolveError::AllProvidersFailed,
        ),
{
    let policy = Policy::RaceToFirstSuccess;
    let state = ResolverModel::init(policy, requested).run(events);
    lemma_run_follows(policy, requested, events);
    lemma_run_keeps_request(ResolverModel::init(policy, requested), events);
    if state.outstanding().len() > 0 {
        let provider = state.outstanding()[0];
        assert(state.outstanding().contains(provider));
        lemma_outstanding(state, provider);
        lemma_heard(requested, events, provider);
    }
}

/// The race, where no task ends twice: if no location has come in by the
/// deadline and some requested provider has not reported, the end is
/// `ResolutionTimeout`.
pub proof fn lemma_race_timeout(
    requested: Seq<ProviderIdentifier>,
    events: Seq<Event>,
    silent: ProviderIdentifier,
)
    requires
        valid_request(requested),
        single_reports(events),
        forall|i: int| 0 <= i < events.len() ==> brought(requested)(#[trigger] events[i]) is None,
        requested.contains(silent),
        forall|i: int| 0 <= i < events.len() ==> reporter(#[trigger] events[i]) != Some(silent),
    ensures
        outcome(Policy::RaceToFirstSuccess, requested, events) == Err::<Resolution, ResolveError>(
            ResolveError::ResolutionTimeout,
        ),
{
    let policy = Policy::RaceToFirstSuccess;
    let state = ResolverModel::init(policy, requested).run(events);
    lemma_run_follows(policy, requested, events);
    lemma_run_keeps_request(ResolverModel::init(policy, requested), events);
    lemma_heard(requested, events, silent);
    lemma_outstanding(state, silent);
}

/// Adds to a bag the location that an event brings from a requested provider.
pub open spec fn tally(requested: Seq<ProviderIdentifier>) -> spec_fn(
    Multiset<Location>,
    Event,
) -> Multiset<Location> {
    |bag: Multiset<Location>, event: Event|
        match brought(requested)(event) {
            Some(location) => bag.insert(location),
            None => bag,
        }
}

/// The locations that a row of events brings, as a bag, are the tally of the row.
proof fn lemma_brought_tally(requested: Seq<ProviderIdentifier>, events: Seq<Event>)
    ensures
        events.filter_map(brought(requested)).to_multiset() == events.fold_left(
            Multiset::empty(),
            tally(requested),
        ),
    decreases events.len(),
{
    broadcast use vstd::seq_lib::group_to_multiset_ensures;

    let locations = events.filter_map(brought(requested));
    if events.len() == 0 {
        assert(locations.to_multiset().len() == 0);
        assert(locations.to_multiset() =~= Multiset::empty());
    } else {
        let front = events.drop_last();
        lemma_brought_tally(requested, front);
        match brought(requested)(events.last()) {
            Some(location) => {
                assert(locations =~= front.filter_map(brought(requested)).push(location));
            },
            None => {},
        }
    }
}

/// Collect-all, where no task ends twice: the order in which the tasks end
/// decides the order of the result and nothing else. Two rows of the same
/// reports give the same locations, each as often in one result as in the other.
pub proof fn lemma_collect_all_order_free(
    requested: Seq<ProviderIdentifier>,
    first: Seq<Event>,
    second: Seq<Event>,
)
    requires
        valid_request(requested),
        single_reports(first),
        single_reports(second),
        first.to_multiset() == second.to_multiset(),
    ensures
        outcome(Policy::CollectAll, requested, first) is Ok,
        outcome(Policy::CollectAll, requested, second) is Ok,
        outcome(Policy::CollectAll, requested, first)->Ok_0.locations().to_multiset() == outcome(
            Policy::CollectAll,
            requested,
            second,
        )->Ok_0.locations().to_multiset(),
{
    lemma_collect_all_outcome(requested, first);
    lemma_collect_all_outcome(requested, second);
    lemma_brought_tally(requested, first);
    lemma_brought_tally(requested, second);
    let count = tally(requested);
    assert forall|x: Event, y: Event, bag: Multiset<Location>| #[trigger]
        count(count(bag, x), y) == count(count(bag, y), x) by {
        assert(count(count(bag, x), y) =~= count(count(bag, y), x));
    }
    vstd::seq_lib::lemma_fold_left_permutation(first, second, count, Multiset::empty());
}

/// Played again on what it was given, a resolution ends as it did before:
/// any two ends that [`crate::resolver::settle`] may hand back for one policy, one request and
/// one row of events are the same, location by location.
pub proof fn lemma_settle_repeats(
    policy: Policy,
    providers: Seq<ProviderIdentifier>,
    events: Seq<Event>,
    once: Result<ResolutionResult, ResolveError>,
    again: Result<ResolutionResult, ResolveError>,
)
    requires
        providers.len() == 0 ==> once == Err::<ResolutionResult, ResolveError>(
            ResolveError::NoProvidersRequested,
        ) && again == once,
        providers.len() > 0 ==> verdict_view(once) == outcome(policy, distinct(providers), events)
            && verdict_view(again) == outcome(policy, distinct(providers), events),
    ensures
        verdict_view(once) == verdict_view(again),
        once matches Ok(first) ==> again matches Ok(second) && first@.locations()
            == second@.locations(),
{
}

} // verus!
