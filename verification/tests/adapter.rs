use myip::adapter::{interpret, report, CallOutcome, Reply};
use myip::error::AdapterError;
use myip::location::Location;
use myip::model::Event;
use myip::provider::ProviderIdentifier;

fn answered(latitude: Option<f64>, longitude: Option<f64>) -> CallOutcome {
    CallOutcome::Answered(Reply {
        latitude: latitude.map(f64::to_bits),
        longitude: longitude.map(f64::to_bits),
    })
}

#[test]
fn answer_with_both_coordinates_is_a_location() {
    let outcome = interpret(ProviderIdentifier::IpApi, answered(Some(48.85), Some(-2.35)));
    let location = outcome.unwrap();
    assert_eq!(f64::from_bits(location.lat_bits), 48.85);
    assert_eq!(f64::from_bits(location.lng_bits), -2.35);
    assert_eq!(location.source, Some(ProviderIdentifier::IpApi));
    assert_eq!(
        location,
        Location::new(48.85f64.to_bits(), (-2.35f64).to_bits(), Some(ProviderIdentifier::IpApi))
    );
}

#[test]
fn answer_without_a_coordinate_is_malformed() {
    let provider = ProviderIdentifier::FreeGeoIp;
    for call in [answered(None, Some(2.0)), answered(Some(1.0), None), answered(None, None)] {
        assert_eq!(interpret(provider, call), Err(AdapterError::MalformedResponse));
    }
}

#[test]
fn failed_call_is_a_network_error() {
    assert_eq!(
        interpret(ProviderIdentifier::IpWhoIs, CallOutcome::TransportFailed),
        Err(AdapterError::NetworkError)
    );
}

#[test]
fn call_out_of_budget_is_a_provider_timeout() {
    assert_eq!(
        interpret(ProviderIdentifier::IpWhoIs, CallOutcome::TimedOut),
        Err(AdapterError::ProviderTimeout)
    );
}

#[test]
fn report_names_the_provider_and_carries_the_reading() {
    let provider = ProviderIdentifier::IpWhoIs;
    assert_eq!(
        report(provider, answered(Some(5.0), Some(6.0))),
        Event::Completed {
            provider,
            outcome: Ok(Location::new(5.0f64.to_bits(), 6.0f64.to_bits(), Some(provider))),
        }
    );
    assert_eq!(
        report(provider, CallOutcome::TimedOut),
        Event::Completed { provider, outcome: Err(AdapterError::ProviderTimeout) }
    );
}
