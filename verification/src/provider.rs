//! The closed set of geolocation providers and what is fixed about each:
//! its tag, its endpoint and the names of the two fields of its answer.

use crate::text::text_eq;
use vstd::prelude::*;
use vstd::string::*;

verus! {

/// A supported geolocation provider.
#[derive(Clone, Copy, Debug, PartialEq, Eq, Structural, Hash)]
pub enum ProviderIdentifier {
    FreeGeoIp,
    IpApi,
    IpWhoIs,
}

impl ProviderIdentifier {
    /// The tag by which callers select the provider and by which answers name it.
    pub open spec fn tag_text(self) -> Seq<char> {
        match self {
            ProviderIdentifier::FreeGeoIp => "freegeoip"@,
            ProviderIdentifier::IpApi => "ipapi"@,
            ProviderIdentifier::IpWhoIs => "ipwhois"@,
        }
    }

    /// The provider that a tag selects, if it selects one.
    pub open spec fn named(tag: Seq<char>) -> Option<ProviderIdentifier> {
        if tag == ProviderIdentifier::FreeGeoIp.tag_text() {
            Some(ProviderIdentifier::FreeGeoIp)
        } else if tag == ProviderIdentifier::IpApi.tag_text() {
            Some(ProviderIdentifier::IpApi)
        } else if tag == ProviderIdentifier::IpWhoIs.tag_text() {
            Some(ProviderIdentifier::IpWhoIs)
        } else {
            None
        }
    }

    /// The address to which the client's IP is appended to form the lookup URL.
    pub open spec fn endpoint_text(self) -> Seq<char> {
        match self {
            ProviderIdentifier::FreeGeoIp => "https://freegeoip.app/json/"@,
            ProviderIdentifier::IpApi => "http://ip-api.com/json/"@,
            ProviderIdentifier::IpWhoIs => "http://ipwhois.app/json/"@,
        }
    }

    /// The name of the field that carries the latitude in the provider's answer.
    pub open spec fn latitude_field_text(self) -> Seq<char> {
        match self {
            ProviderIdentifier::FreeGeoIp => "latitude"@,
            ProviderIdentifier::IpApi => "lat"@,
            ProviderIdentifier::IpWhoIs => "latitude"@,
        }
    }

    /// The name of the field that carries the longitude in the provider's answer.
    pub open spec fn longitude_field_text(self) -> Seq<char> {
        match self {
            ProviderIdentifier::FreeGeoIp => "longitude"@,
            ProviderIdentifier::IpApi => "lon"@,
            ProviderIdentifier::IpWhoIs => "longitude"@,
        }
    }

    /// Every supported provider, in table order.
    pub open spec fn table() -> Seq<ProviderIdentifier> {
        seq![ProviderIdentifier::FreeGeoIp, ProviderIdentifier::IpApi, ProviderIdentifier::IpWhoIs]
    }

    /// Every supported provider, in table order.
    pub fn all() -> (providers: Vec<ProviderIdentifier>)
        ensures
            providers@ == ProviderIdentifier::table(),
    {
        let mut providers: Vec<ProviderIdentifier> = Vec::new();
        providers.push(ProviderIdentifier::FreeGeoIp);
        providers.push(ProviderIdentifier::IpApi);
        providers.push(ProviderIdentifier::IpWhoIs);
        assert(providers@ =~= ProviderIdentifier::table());
        providers
    }

    /// The provider's tag.
    pub fn tag(self) -> (tag: &'static str)
        ensures
            tag@ == self.tag_text(),
    {
        match self {
            ProviderIdentifier::FreeGeoIp => "freegeoip",
            ProviderIdentifier::IpApi => "ipapi",
            ProviderIdentifier::IpWhoIs => "ipwhois",
        }
    }

    /// Looks a tag up in the provider table.
    pub fn from_tag(tag: &str) -> (found: Option<ProviderIdentifier>)
        ensures
            found == ProviderIdentifier::named(tag@),
    {
        if text_eq(tag, "freegeoip") {
            Some(ProviderIdentifier::FreeGeoIp)
        } else if text_eq(tag, "ipapi") {
            Some(ProviderIdentifier::IpApi)
        } else if text_eq(tag, "ipwhois") {
            Some(ProviderIdentifier::IpWhoIs)
        } else {
            None
        }
    }

    /// The provider's endpoint, up to and including the last slash.
    pub fn endpoint(self) -> (address: &'static str)
        ensures
            address@ == self.endpoint_text(),
    {
        match self {
            ProviderIdentifier::FreeGeoIp => "https://freegeoip.app/json/",
            ProviderIdentifier::IpApi => "http://ip-api.com/json/",
            ProviderIdentifier::IpWhoIs => "http://ipwhois.app/json/",
        }
    }

    /// The URL of the one lookup that answers for `ip`: the endpoint with the
    /// IP appended as it is.
    pub fn request_url(self, ip: &str) -> (url: String)
        ensures
            url@ == self.endpoint_text() + ip@,
    {
        String::from_str(self.endpoint()).concat(ip)
    }

    /// The field of the answer that holds the latitude.
    pub fn latitude_field(self) -> (name: &'static str)
        ensures
            name@ == self.latitude_field_text(),
    {
        match self {
            ProviderIdentifier::FreeGeoIp => "latitude",
            ProviderIdentifier::IpApi => "lat",
            ProviderIdentifier::IpWhoIs => "latitude",
        }
    }

    /// The field of the answer that holds the longitude.
    pub fn longitude_field(self) -> (name: &'static str)
        ensures
            name@ == self.longitude_field_text(),
    {
        match self {
            ProviderIdentifier::FreeGeoIp => "longitude",
            ProviderIdentifier::IpApi => "lon",
            ProviderIdentifier::IpWhoIs => "longitude",
        }
    }
}

/// No two providers share a tag: the tag of a provider selects that provider.
pub proof fn lemma_tag_selects_its_provider(provider: ProviderIdentifier)
    ensures
        ProviderIdentifier::named(provider.tag_text()) == Some(provider),
{
    reveal_strlit("freegeoip");
    reveal_strlit("ipapi");
    reveal_strlit("ipwhois");
    assert("freegeoip"@.len() == 9);
    assert("ipapi"@.len() == 5);
    assert("ipwhois"@.len() == 7);
}

/// A tag selects a provider only if it is that provider's tag.
pub proof fn lemma_selected_provider_has_the_tag(tag: Seq<char>)
    ensures
        ProviderIdentifier::named(tag) matches Some(provider) ==> provider.tag_text() == tag,
        ProviderIdentifier::named(tag) is None <==> forall|provider: ProviderIdentifier|
            provider.tag_text() != tag,
{
    assert(ProviderIdentifier::named(tag) is None ==> forall|provider: ProviderIdentifier|
        provider.tag_text() != tag);
}

/// The provider table lists every provider once.
pub proof fn lemma_table_is_complete(provider: ProviderIdentifier)
    ensures
        ProviderIdentifier::table().contains(provider),
        ProviderIdentifier::table().no_duplicates(),
{
    let table = ProviderIdentifier::table();
    assert(table[0] == ProviderIdentifier::FreeGeoIp);
    assert(table[1] == ProviderIdentifier::IpApi);
    assert(table[2] == ProviderIdentifier::IpWhoIs);
}

} // verus!
