use myip::error::{AdapterError, ResolveError};
use myip::location::{Location, ResolutionResult};
use myip::model::{Event, Policy};
use myip::provider::ProviderIdentifier;
use myip::adapter::{interpret, CallOutcome, Reply};
use myip::budget::{capped, remaining_ms, timely, GLOBAL_BUDGET_MS, PROVIDER_BUDGET_MS};
use myip::resolver::{holds, settle, unique, Action, Resolver};

const A: ProviderIdentifier = ProviderIdentifier::FreeGeoIp;
const B: ProviderIdentifier = ProviderIdentifier::IpApi;
const C: ProviderIdentifier = ProviderIdentifier::IpWhoIs;

fn at(lat: f64, lng: f64, source: ProviderIdentifier) -> Location {
    Location::new(lat.to_bits(), lng.to_bits(), Some(source))
}

fn success(provider: ProviderIdentifier, lat: f64, lng: f64) -> Event {
    Event::Completed { provider, outcome: Ok(at(lat, lng, provider)) }
}

fn failure(provider: ProviderIdentifier) -> Event {
    Event::Completed { provider, outcome: Err(AdapterError::NetworkError) }
}

fn sorted(mut locations: Vec<Location>) -> Vec<Location> {
    locations.sort_by_key(|location| (location.lat_bits, location.lng_bits));
    locations
}

#[test]
fn budgets_are_one_second() {
    assert_eq!(PROVIDER_BUDGET_MS, 1000);
    assert_eq!(GLOBAL_BUDGET_MS, 1000);
}

#[test]
fn call_is_held_to_the_provider_budget() {
    let answer = CallOutcome::Answered(Reply { latitude: Some(1), longitude: Some(2) });
    assert_eq!(capped(0, answer), answer);
    assert_eq!(capped(999, answer), answer);
    assert_eq!(capped(1000, answer), answer);
    assert_eq!(capped(1001, answer), CallOutcome::TimedOut);
    assert_eq!(capped(u64::MAX, CallOutcome::TransportFailed), CallOutcome::TimedOut);
    assert_eq!(capped(5, CallOutcome::TransportFailed), CallOutcome::TransportFailed);
    assert_eq!(
        interpret(A, capped(1500, answer)),
        Err(AdapterError::ProviderTimeout)
    );
}

#[test]
fn event_is_held_to_the_global_budget() {
    assert_eq!(timely(100, success(A, 1.0, 2.0)), success(A, 1.0, 2.0));
    assert_eq!(timely(1000, failure(B)), failure(B));
    assert_eq!(timely(1001, success(A, 1.0, 2.0)), Event::DeadlineElapsed);
    assert_eq!(timely(0, Event::DeadlineElapsed), Event::DeadlineElapsed);
    assert_eq!(remaining_ms(0), 1000);
    assert_eq!(remaining_ms(100), 900);
    assert_eq!(remaining_ms(1000), 0);
    assert_eq!(remaining_ms(1001), 0);
    assert_eq!(remaining_ms(u64::MAX), 0);
}

#[test]
fn nothing_that_comes_after_the_budget_is_taken_in() {
    for policy in [Policy::RaceToFirstSuccess, Policy::CollectAll] {
        let mut resolver = Resolver::start(policy, &vec![A, B]).unwrap();
        assert_eq!(resolver.step(timely(400, failure(A))), Action::Wait);
        let action = resolver.step(timely(1200, success(B, 3.0, 4.0)));
        let expected = match policy {
            Policy::RaceToFirstSuccess => Err(ResolveError::ResolutionTimeout),
            Policy::CollectAll => Ok(ResolutionResult::Many(vec![])),
        };
        assert_eq!(action, Action::Finish { result: expected, cancel: vec![B] });
        assert!(resolver.is_finished());
    }
}

#[test]
fn start_holds_the_request() {
    let resolver = Resolver::start(Policy::CollectAll, &vec![C, A]).unwrap();
    assert_eq!(resolver.policy(), Policy::CollectAll);
    assert_eq!(resolver.requested(), &vec![C, A]);
    assert_eq!(resolver.outstanding(), vec![C, A]);
    assert!(!resolver.is_finished());
    assert_eq!(resolver.result(), None);
}

#[test]
fn start_counts_a_repeated_provider_once() {
    let resolver = Resolver::start(Policy::CollectAll, &vec![B, A, B, B, C, A]).unwrap();
    assert_eq!(resolver.requested(), &vec![B, A, C]);
    assert_eq!(unique(&vec![B, A, B, B, C, A]), vec![B, A, C]);
    assert_eq!(unique(&vec![A, A]), vec![A]);
    assert_eq!(unique(&vec![]), vec![]);
}

#[test]
fn holds_finds_what_is_there() {
    assert!(holds(&vec![A, C], C));
    assert!(holds(&vec![A, C], A));
    assert!(!holds(&vec![A, C], B));
    assert!(!holds(&vec![], B));
}

#[test]
fn deadline_ends_every_unfinished_resolution() {
    let mut race = Resolver::start(Policy::RaceToFirstSuccess, &vec![A, B]).unwrap();
    assert_eq!(
        race.step(Event::DeadlineElapsed),
        Action::Finish { result: Err(ResolveError::ResolutionTimeout), cancel: vec![A, B] }
    );
    assert!(race.is_finished());

    let mut collect = Resolver::start(Policy::CollectAll, &vec![A, B]).unwrap();
    assert_eq!(
        collect.step(Event::DeadlineElapsed),
        Action::Finish { result: Ok(ResolutionResult::Many(vec![])), cancel: vec![A, B] }
    );
    assert!(collect.is_finished());
}

#[test]
fn race_times_out_when_some_provider_is_silent() {
    let mut race = Resolver::start(Policy::RaceToFirstSuccess, &vec![A, B, C]).unwrap();
    assert_eq!(race.step(failure(A)), Action::Wait);
    assert_eq!(race.step(failure(C)), Action::Wait);
    assert_eq!(
        race.step(Event::DeadlineElapsed),
        Action::Finish { result: Err(ResolveError::ResolutionTimeout), cancel: vec![B] }
    );
    assert_eq!(
        settle(Policy::RaceToFirstSuccess, &vec![A, B, C], &vec![failure(A), failure(C)]),
        Err(ResolveError::ResolutionTimeout)
    );
    assert_eq!(
        settle(Policy::RaceToFirstSuccess, &vec![A, B, C], &vec![]),
        Err(ResolveError::ResolutionTimeout)
    );
}

#[test]
fn race_takes_a_success_that_follows_failures() {
    let mut race = Resolver::start(Policy::RaceToFirstSuccess, &vec![A, B, C]).unwrap();
    assert_eq!(race.step(failure(B)), Action::Wait);
    assert_eq!(
        race.step(success(C, 5.0, 6.0)),
        Action::Finish {
            result: Ok(ResolutionResult::Single(at(5.0, 6.0, C))),
            cancel: vec![A],
        }
    );
    assert_eq!(race.outstanding(), vec![A]);
    assert_eq!(race.step(success(A, 1.0, 2.0)), Action::Discard);
    assert_eq!(race.step(Event::DeadlineElapsed), Action::Discard);
    assert_eq!(race.result(), Some(Ok(ResolutionResult::Single(at(5.0, 6.0, C)))));
}

#[test]
fn finished_resolution_drops_every_event() {
    let mut collect = Resolver::start(Policy::CollectAll, &vec![A]).unwrap();
    assert_eq!(
        collect.step(success(A, 1.0, 2.0)),
        Action::Finish {
            result: Ok(ResolutionResult::Many(vec![at(1.0, 2.0, A)])),
            cancel: vec![],
        }
    );
    let before = collect.result();
    for event in [success(A, 9.0, 9.0), success(B, 3.0, 4.0), failure(C), Event::DeadlineElapsed] {
        assert_eq!(collect.step(event), Action::Discard);
        assert_eq!(collect.result(), before);
        assert!(collect.is_finished());
    }
}

#[test]
fn reports_that_are_not_waited_for_change_nothing() {
    let mut collect = Resolver::start(Policy::CollectAll, &vec![A, B]).unwrap();
    // C was never asked.
    assert_eq!(collect.step(success(C, 5.0, 6.0)), Action::Wait);
    assert_eq!(collect.outstanding(), vec![A, B]);
    assert_eq!(collect.step(failure(A)), Action::Wait);
    // A has reported already: its task cannot end twice.
    assert_eq!(collect.step(success(A, 1.0, 2.0)), Action::Wait);
    assert_eq!(collect.outstanding(), vec![B]);
    assert_eq!(
        collect.step(success(B, 3.0, 4.0)),
        Action::Finish {
            result: Ok(ResolutionResult::Many(vec![at(3.0, 4.0, B)])),
            cancel: vec![],
        }
    );
}

#[test]
fn collect_all_with_no_success_is_an_empty_list() {
    let events = vec![failure(A), failure(B), failure(C)];
    assert_eq!(
        settle(Policy::CollectAll, &vec![A, B, C], &events),
        Ok(ResolutionResult::Many(vec![]))
    );
    assert_eq!(
        settle(Policy::CollectAll, &vec![A, B, C], &vec![]),
        Ok(ResolutionResult::Many(vec![]))
    );
}

#[test]
fn collect_all_lists_successes_in_completion_order() {
    let events = vec![success(C, 5.0, 6.0), success(A, 1.0, 2.0), success(B, 3.0, 4.0)];
    assert_eq!(
        settle(Policy::CollectAll, &vec![A, B, C], &events),
        Ok(ResolutionResult::Many(vec![at(5.0, 6.0, C), at(1.0, 2.0, A), at(3.0, 4.0, B)]))
    );
}

#[test]
fn collect_all_gives_the_same_locations_in_every_completion_order() {
    let reports = [success(A, 1.0, 2.0), failure(B), success(C, 5.0, 6.0)];
    let orders: [[usize; 3]; 6] =
        [[0, 1, 2], [0, 2, 1], [1, 0, 2], [1, 2, 0], [2, 0, 1], [2, 1, 0]];
    let expected = sorted(vec![at(1.0, 2.0, A), at(5.0, 6.0, C)]);
    for order in orders {
        let events: Vec<Event> = order.iter().map(|&i| reports[i]).collect();
        let result = settle(Policy::CollectAll, &vec![A, B, C], &events).unwrap();
        assert_eq!(sorted(result.locations()), expected);
        let again = settle(Policy::CollectAll, &vec![A, B, C], &events).unwrap();
        assert_eq!(again, result);
    }
}

#[test]
fn settle_gives_the_same_end_when_played_again() {
    let events = vec![failure(B), success(A, 1.0, 2.0), success(C, 5.0, 6.0)];
    for policy in [Policy::RaceToFirstSuccess, Policy::CollectAll] {
        let once = settle(policy, &vec![A, B, C], &events);
        let again = settle(policy, &vec![A, B, C], &events);
        assert_eq!(once, again);
    }
    assert_eq!(
        settle(Policy::RaceToFirstSuccess, &vec![A, B, C], &events),
        Ok(ResolutionResult::Single(at(1.0, 2.0, A)))
    );
}

#[test]
fn settle_stops_listening_at_the_deadline() {
    let events = vec![success(A, 1.0, 2.0), Event::DeadlineElapsed, success(B, 3.0, 4.0)];
    assert_eq!(
        settle(Policy::CollectAll, &vec![A, B], &events),
        Ok(ResolutionResult::Many(vec![at(1.0, 2.0, A)]))
    );
    let late = vec![failure(A), Event::DeadlineElapsed, success(B, 3.0, 4.0)];
    assert_eq!(
        settle(Policy::RaceToFirstSuccess, &vec![A, B], &late),
        Err(ResolveError::ResolutionTimeout)
    );
}

#[test]
fn settle_follows_the_steps() {
    let events = vec![failure(B), success(C, 5.0, 6.0), success(A, 1.0, 2.0)];
    for policy in [Policy::RaceToFirstSuccess, Policy::CollectAll] {
        let mut resolver = Resolver::start(policy, &vec![A, B, C]).unwrap();
        for event in &events {
            resolver.step(*event);
        }
        let stepped = resolver.result();
        assert_eq!(stepped, Some(settle(policy, &vec![A, B, C], &events)));
        assert_eq!(resolver.close(), settle(policy, &vec![A, B, C], &events));
    }
}

#[test]
fn close_ends_an_open_resolution_as_the_deadline_would() {
    let mut collect = Resolver::start(Policy::CollectAll, &vec![A, B]).unwrap();
    collect.step(success(B, 3.0, 4.0));
    assert_eq!(collect.close(), Ok(ResolutionResult::Many(vec![at(3.0, 4.0, B)])));
    let race = Resolver::start(Policy::RaceToFirstSuccess, &vec![A, B]).unwrap();
    assert_eq!(race.close(), Err(ResolveError::ResolutionTimeout));
}

#[test]
fn result_locations_and_duplicate() {
    let single = ResolutionResult::Single(at(1.0, 2.0, A));
    assert_eq!(single.locations(), vec![at(1.0, 2.0, A)]);
    assert_eq!(single.duplicate(), single);
    let many = ResolutionResult::Many(vec![at(1.0, 2.0, A), at(5.0, 6.0, C)]);
    assert_eq!(many.locations(), vec![at(1.0, 2.0, A), at(5.0, 6.0, C)]);
    assert_eq!(many.duplicate(), many);
    assert_eq!(ResolutionResult::Many(vec![]).locations(), vec![]);
}
