//! What holds of route configurations as a whole.
use vstd::prelude::*;

use crate::boundary::{ConfigurationEntry, MAX_SECRET_BYTES};
use crate::configuration::{
    RelayLatencyProfile, RouteView, BUS_ID_KEY, DEFAULT_STARTUP_TIMEOUT_MS, ICE_SERVERS_KEY,
    LATENCY_PROFILE_KEY, MAX_GROUP_ID_BYTES, NANOS_PER_MILLI, PUBLISHER_GROUP_ID_KEY,
    RELAY_SESSION_ID_KEY, RELAY_URL_KEY, SOURCE_TOKEN_KEY, STARTUP_TIMEOUT_MS_KEY,
};
use crate::configuration_error::RelayConfigurationError;
use crate::frame_publisher::BUS_MAX_LEN;
use crate::ice_server::{WireIceServerView, MAX_ICE_SERVERS, MAX_ICE_SERVER_URLS};

verus! {

/// The text that stands for an entry in a node configuration.
pub open spec fn entry_text(entry: ConfigurationEntry) -> Seq<char> {
    match entry {
        ConfigurationEntry::Text(text) => text,
        ConfigurationEntry::DurationMilliseconds(ms) => crate::numeral::decimal(ms as nat),
        ConfigurationEntry::Secret(text) => text,
    }
}

/// The values of the node configuration that stands for the entries.
pub open spec fn entry_texts(entries: Map<Seq<char>, ConfigurationEntry>) -> Map<
    Seq<char>,
    Seq<char>,
> {
    entries.map_values(|entry: ConfigurationEntry| entry_text(entry))
}

/// The keys of the secrets.
pub open spec fn secret_keys(entries: Map<Seq<char>, ConfigurationEntry>) -> Set<Seq<char>> {
    Set::new(|key: Seq<char>| entries.contains_key(key) && entries[key] is Secret)
}

/// The lengths and first letters that tell the keys apart.
pub proof fn lemma_keys_differ()
    ensures
        RELAY_URL_KEY@.len() == 9,
        RELAY_SESSION_ID_KEY@.len() == 16,
        SOURCE_TOKEN_KEY@.len() == 12,
        BUS_ID_KEY@.len() == 6,
        PUBLISHER_GROUP_ID_KEY@.len() == 18,
        PUBLISHER_GROUP_ID_KEY@[0] == 'p',
        LATENCY_PROFILE_KEY@.len() == 15,
        ICE_SERVERS_KEY@.len() == 11,
        STARTUP_TIMEOUT_MS_KEY@.len() == 18,
        STARTUP_TIMEOUT_MS_KEY@[0] == 's',
{
    reveal_strlit("relay_url");
    reveal_strlit("relay_session_id");
    reveal_strlit("source_token");
    reveal_strlit("bus_id");
    reveal_strlit("publisher_group_id");
    reveal_strlit("latency_profile");
    reveal_strlit("ice_servers");
    reveal_strlit("startup_timeout_ms");
}

proof fn lemma_bus_label_is_not_blank(bus: Seq<char>)
    requires
        crate::frame_publisher::is_bus_label(bus),
    ensures
        !crate::text::blank(bus),
{
    assert(crate::frame_publisher::bus_char(bus[0]));
    assert(!crate::text::white_space(bus[0]));
}

/// A route that was handed to Core, its durations in decimal and its secrets marked
/// sensitive, reads back as the same route, given the list of STUN servers that
/// its encoded text stands for. A blank token and a part of a millisecond of the
/// startup timeout do not survive.
pub proof fn stored_routes_round_trip(route: RouteView)
    requires
        crate::configuration::route_entries(route) is Ok,
        !crate::text::blank(route.source_token),
        crate::text::byte_len(route.source_token) <= MAX_SECRET_BYTES,
        route.startup_timeout_ns % (NANOS_PER_MILLI as nat) == 0,
    ensures
        ({
            let entries = crate::configuration::route_entries(route)->Ok_0;
            crate::configuration::stored_route(
                entry_texts(entries),
                secret_keys(entries),
                Some(crate::ice_server::encoded_servers(route.ice_servers)),
            ) == Ok::<RouteView, RelayConfigurationError>(route)
        }),
{
    let entries = crate::configuration::route_entries(route)->Ok_0;
    let values = entry_texts(entries);
    let decoded = Some(crate::ice_server::encoded_servers(route.ice_servers));
    lemma_keys_differ();
    lemma_bus_label_is_not_blank(route.bus_id);
    crate::configuration::profile_names_round_trip(route.latency_profile);
    crate::ice_server::servers_round_trip(route.ice_servers);
    let ms = (route.startup_timeout_ns / (NANOS_PER_MILLI as nat)) as u64;
    crate::numeral::numerals_round_trip(ms);
    assert(values[STARTUP_TIMEOUT_MS_KEY@] == crate::numeral::decimal(ms as nat));
    assert(values[LATENCY_PROFILE_KEY@] == crate::configuration::profile_name(
        route.latency_profile,
    ));
    assert(values[PUBLISHER_GROUP_ID_KEY@] == route.publisher_group_id);
    assert(values[BUS_ID_KEY@] == route.bus_id);
    assert(values[SOURCE_TOKEN_KEY@] == route.source_token);
    assert(values[RELAY_SESSION_ID_KEY@] == route.relay_session_id);
    assert(values[RELAY_URL_KEY@] == route.relay_url);
    assert(crate::configuration::stored_servers(values, decoded) == Ok::<
        Seq<Seq<Seq<char>>>,
        RelayConfigurationError,
    >(route.ice_servers)) by {
        if route.ice_servers.len() == 0 {
            assert(route.ice_servers =~= Seq::empty());
        }
    }
    assert(secret_keys(entries).contains(SOURCE_TOKEN_KEY@));
    assert(ms * NANOS_PER_MILLI == route.startup_timeout_ns);
}

/// A stored token that is not marked sensitive is refused, whatever else is stored.
pub proof fn unmarked_tokens_are_refused(
    values: Map<Seq<char>, Seq<char>>,
    sensitive: Set<Seq<char>>,
    decoded: Option<Seq<WireIceServerView>>,
)
    requires
        crate::configuration::present(values, SOURCE_TOKEN_KEY@),
        !sensitive.contains(SOURCE_TOKEN_KEY@),
    ensures
        crate::configuration::stored_route(values, sensitive, decoded) == Err::<
            RouteView,
            RelayConfigurationError,
        >(RelayConfigurationError::SecretNotSensitive(SOURCE_TOKEN_KEY)),
{
}

pub(crate) proof fn lemma_default_timeout()
    ensures
        crate::numeral::numeral_value("30000"@) == Some(30_000u64),
{
    reveal_strlit("30000");
    reveal_with_fuel(crate::numeral::decimal, 6);
    crate::numeral::numerals_round_trip(30_000);
    assert(crate::numeral::decimal(30_000) =~= "30000"@);
}

/// Settings that are left out have their defaults: standard latency, no STUN servers and a
/// startup deadline of thirty seconds.
pub proof fn settings_left_out_have_defaults(
    values: Map<Seq<char>, Seq<char>>,
    sensitive: Set<Seq<char>>,
    decoded: Option<Seq<WireIceServerView>>,
)
    requires
        crate::configuration::stored_route(values, sensitive, decoded) is Ok,
    ensures
        ({
            let route = crate::configuration::stored_route(values, sensitive, decoded)->Ok_0;
            &&& !values.contains_key(LATENCY_PROFILE_KEY@) ==> route.latency_profile
                == RelayLatencyProfile::Standard
            &&& !values.contains_key(ICE_SERVERS_KEY@) ==> route.ice_servers.len() == 0
            &&& !values.contains_key(STARTUP_TIMEOUT_MS_KEY@) ==> route.startup_timeout_ns
                == DEFAULT_STARTUP_TIMEOUT_MS * NANOS_PER_MILLI
        }),
{
    crate::configuration::profile_names_round_trip(RelayLatencyProfile::Standard);
    lemma_default_timeout();
}

/// Secrets, and nothing else, are handed to Core as secrets: the token, and the list
/// of STUN servers where there is one.
pub proof fn secrets_stay_secret(route: RouteView)
    requires
        crate::configuration::route_entries(route) is Ok,
    ensures
        ({
            let entries = crate::configuration::route_entries(route)->Ok_0;
            forall|key: Seq<char>| #[trigger]
                secret_keys(entries).contains(key) <==> key == SOURCE_TOKEN_KEY@ || (key
                    == ICE_SERVERS_KEY@ && route.ice_servers.len() > 0)
        }),
{
    lemma_keys_differ();
}

/// Sharing one publisher is an equivalence.
pub proof fn one_publisher_is_an_equivalence(a: RouteView, b: RouteView, c: RouteView)
    ensures
        crate::configuration::one_publisher(a, a),
        crate::configuration::one_publisher(a, b) ==> crate::configuration::one_publisher(b, a),
        crate::configuration::one_publisher(a, b) && crate::configuration::one_publisher(b, c)
            ==> crate::configuration::one_publisher(a, c),
{
}

/// Low latency changes neither a route's validity nor its publisher.
pub proof fn low_latency_keeps_validity_and_publisher(route: RouteView)
    ensures
        ({
            let low = RouteView { latency_profile: RelayLatencyProfile::Low, ..route };
            &&& crate::configuration::route_fault(low) == crate::configuration::route_fault(route)
            &&& crate::configuration::one_publisher(route, low)
        }),
{
}

/// Everything in a valid route is finite: its identities, its STUN servers with their URLs,
/// and its startup deadline.
pub proof fn valid_routes_are_bounded(route: RouteView)
    requires
        crate::configuration::route_fault(route) is None,
    ensures
        0 < route.bus_id.len() && crate::text::byte_len(route.bus_id) <= BUS_MAX_LEN,
        0 < route.publisher_group_id.len() && crate::text::byte_len(route.publisher_group_id)
            <= MAX_GROUP_ID_BYTES,
        0 < route.relay_session_id.len(),
        route.ice_servers.len() <= MAX_ICE_SERVERS,
        forall|i: int|
            0 <= i < route.ice_servers.len() ==> 0 < (#[trigger] route.ice_servers[i]).len()
                <= MAX_ICE_SERVER_URLS,
        1_000_000 <= route.startup_timeout_ns <= 120_000_000_000,
{
    lemma_servers_are_bounded(route.ice_servers);
}

proof fn lemma_servers_are_bounded(servers: Seq<Seq<Seq<char>>>)
    requires
        crate::ice_server::first_server_fault(servers) is None,
    ensures
        forall|i: int|
            0 <= i < servers.len() ==> 0 < (#[trigger] servers[i]).len() <= MAX_ICE_SERVER_URLS,
    decreases servers.len(),
{
    if servers.len() > 0 {
        lemma_servers_are_bounded(servers.drop_first());
        assert forall|i: int| 0 <= i < servers.len() implies 0 < (#[trigger] servers[i]).len()
            <= MAX_ICE_SERVER_URLS by {
            if i > 0 {
                assert(servers.drop_first()[i - 1] == servers[i]);
            }
        }
    }
}

} // verus!
