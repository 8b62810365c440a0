use myip::provider::ProviderIdentifier;

#[test]
fn table_lists_the_three_providers() {
    assert_eq!(
        ProviderIdentifier::all(),
        vec![ProviderIdentifier::FreeGeoIp, ProviderIdentifier::IpApi, ProviderIdentifier::IpWhoIs]
    );
}

#[test]
fn tags_are_the_documented_ones() {
    assert_eq!(ProviderIdentifier::FreeGeoIp.tag(), "freegeoip");
    assert_eq!(ProviderIdentifier::IpApi.tag(), "ipapi");
    assert_eq!(ProviderIdentifier::IpWhoIs.tag(), "ipwhois");
}

#[test]
fn every_tag_selects_its_provider() {
    for provider in ProviderIdentifier::all() {
        assert_eq!(ProviderIdentifier::from_tag(provider.tag()), Some(provider));
    }
}

#[test]
fn other_tags_select_nothing() {
    for tag in ["", "FreeGeoIP", "freegeoip ", " ipapi", "ipwhoi", "ipwhoiss", "ip-api", "maxmind", "ipapi\u{e9}"] {
        assert_eq!(ProviderIdentifier::from_tag(tag), None, "tag {:?}", tag);
    }
}

#[test]
fn request_urls_append_the_ip() {
    assert_eq!(
        ProviderIdentifier::FreeGeoIp.request_url("8.8.8.8"),
        "https://freegeoip.app/json/8.8.8.8"
    );
    assert_eq!(ProviderIdentifier::IpApi.request_url("8.8.8.8"), "http://ip-api.com/json/8.8.8.8");
    assert_eq!(
        ProviderIdentifier::IpWhoIs.request_url("2001:db8::1"),
        "http://ipwhois.app/json/2001:db8::1"
    );
    assert_eq!(ProviderIdentifier::IpApi.request_url(""), "http://ip-api.com/json/");
    assert_eq!(ProviderIdentifier::IpApi.endpoint(), "http://ip-api.com/json/");
}

#[test]
fn answer_fields_by_provider() {
    assert_eq!(ProviderIdentifier::FreeGeoIp.latitude_field(), "latitude");
    assert_eq!(ProviderIdentifier::FreeGeoIp.longitude_field(), "longitude");
    assert_eq!(ProviderIdentifier::IpApi.latitude_field(), "lat");
    assert_eq!(ProviderIdentifier::IpApi.longitude_field(), "lon");
    assert_eq!(ProviderIdentifier::IpWhoIs.latitude_field(), "latitude");
    assert_eq!(ProviderIdentifier::IpWhoIs.longitude_field(), "longitude");
}
