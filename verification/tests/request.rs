use myip::error::ResolveError;
use myip::location::{Location, ResolutionResult};
use myip::provider::ProviderIdentifier;
use myip::request::{select_providers, ResolutionRequest};
use myip::headers::client_ip;
use myip::response::{respond, IpResponse};

fn tags(list: &[&str]) -> Vec<String> {
    list.iter().map(|tag| tag.to_string()).collect()
}

#[test]
fn no_selection_asks_every_provider() {
    assert_eq!(select_providers(None), Ok(ProviderIdentifier::all()));
}

#[test]
fn selection_keeps_the_order_of_the_tags() {
    assert_eq!(
        select_providers(Some(&tags(&["ipwhois", "freegeoip"]))),
        Ok(vec![ProviderIdentifier::IpWhoIs, ProviderIdentifier::FreeGeoIp])
    );
    assert_eq!(select_providers(Some(&tags(&["ipapi"]))), Ok(vec![ProviderIdentifier::IpApi]));
}

#[test]
fn selection_counts_a_repeated_tag_once() {
    assert_eq!(
        select_providers(Some(&tags(&["ipapi", "ipwhois", "ipapi", "ipapi"]))),
        Ok(vec![ProviderIdentifier::IpApi, ProviderIdentifier::IpWhoIs])
    );
}

#[test]
fn empty_selection_is_refused() {
    assert_eq!(select_providers(Some(&tags(&[]))), Err(ResolveError::NoProvidersRequested));
}

#[test]
fn unknown_tag_is_refused() {
    assert_eq!(select_providers(Some(&tags(&["maxmind"]))), Err(ResolveError::UnknownProvider));
    assert_eq!(
        select_providers(Some(&tags(&["ipapi", "IPAPI"]))),
        Err(ResolveError::UnknownProvider)
    );
    assert_eq!(
        select_providers(Some(&tags(&["", "ipapi"]))),
        Err(ResolveError::UnknownProvider)
    );
}

#[test]
fn request_holds_ip_and_providers() {
    let request = ResolutionRequest::new("8.8.8.8".to_string(), Some(&tags(&["ipapi"]))).unwrap();
    assert_eq!(request.ip, "8.8.8.8");
    assert_eq!(request.providers, vec![ProviderIdentifier::IpApi]);
    let all = ResolutionRequest::new("8.8.8.8".to_string(), None).unwrap();
    assert_eq!(all.providers, ProviderIdentifier::all());
    assert_eq!(
        ResolutionRequest::new("8.8.8.8".to_string(), Some(&tags(&[]))),
        Err(ResolveError::NoProvidersRequested)
    );
    assert_eq!(
        ResolutionRequest::new("8.8.8.8".to_string(), Some(&tags(&["nope"]))),
        Err(ResolveError::UnknownProvider)
    );
}

#[test]
fn client_ip_prefers_the_forwarded_address() {
    assert_eq!(client_ip(Some("203.0.113.7".to_string()), "127.0.0.1".to_string()), "203.0.113.7");
    assert_eq!(client_ip(None, "127.0.0.1".to_string()), "127.0.0.1");
}

#[test]
fn respond_wraps_a_result_and_passes_an_error() {
    let location = Location::new(1.0f64.to_bits(), 2.0f64.to_bits(), None);
    assert_eq!(
        respond("8.8.8.8".to_string(), Ok(ResolutionResult::Many(vec![location]))),
        Ok(IpResponse {
            ip: "8.8.8.8".to_string(),
            location: ResolutionResult::Many(vec![location]),
        })
    );
    assert_eq!(
        respond("8.8.8.8".to_string(), Err(ResolveError::AllProvidersFailed)),
        Err(ResolveError::AllProvidersFailed)
    );
}

#[test]
fn error_messages() {
    assert_eq!(ResolveError::NoProvidersRequested.message(), "no providers requested");
    assert_eq!(ResolveError::UnknownProvider.message(), "unknown provider");
    assert_eq!(ResolveError::AllProvidersFailed.message(), "all providers failed");
    assert_eq!(ResolveError::ResolutionTimeout.message(), "resolution timed out");
}
