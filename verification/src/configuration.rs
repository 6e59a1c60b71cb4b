//! The configuration of one relay route.
use pocketstation::connector::{ConnectorConfiguration, ConnectorSecret};
use pocketstation::graph::NodeConfig;
use std::fmt::{Debug, Formatter};
use std::time::Duration;
use vstd::prelude::*;
use vstd::string::StrSliceExecFns;

use crate::boundary::{
    configuration_with, new_configuration, new_secret, parse_url, ConfigurationEntry,
    ConfigurationValue, UrlParts, UrlPartsView, MAX_SECRET_BYTES,
};
use crate::configuration_error::{RelayConfigurationError, SecretFault};
use crate::frame_publisher::validate_bus;
use crate::ice_server::{
    copy_servers, decode_ice_servers, encode_ice_servers, same_servers, validate_servers, RelayIceServer, WireIceServer,
    WireIceServerView,
};
use crate::numeral::parse_u64;
use crate::redacted::{self, write_debug};
use crate::text::{is_blank, text_eq, to_chars};

verus! {

pub const DEFAULT_STARTUP_TIMEOUT_MS: u64 = 30_000;

pub const MAX_STARTUP_TIMEOUT_MS: u64 = 120_000;

/// The longest publisher group identifier, in bytes.
pub const MAX_GROUP_ID_BYTES: usize = 256;

pub const NANOS_PER_MILLI: u128 = 1_000_000;

pub const RELAY_URL_KEY: &'static str = "relay_url";

pub const RELAY_SESSION_ID_KEY: &'static str = "relay_session_id";

pub const SOURCE_TOKEN_KEY: &'static str = "source_token";

pub const BUS_ID_KEY: &'static str = "bus_id";

pub const PUBLISHER_GROUP_ID_KEY: &'static str = "publisher_group_id";

pub const LATENCY_PROFILE_KEY: &'static str = "latency_profile";

pub const ICE_SERVERS_KEY: &'static str = "ice_servers";

pub const STARTUP_TIMEOUT_MS_KEY: &'static str = "startup_timeout_ms";

// Latency profiles.

#[derive(Debug, Clone, Copy, PartialEq, Eq, Structural)]
pub enum RelayLatencyProfile {
    Standard,
    Low,
}

pub open spec fn profile_name(profile: RelayLatencyProfile) -> Seq<char> {
    match profile {
        RelayLatencyProfile::Standard => "standard"@,
        RelayLatencyProfile::Low => "low"@,
    }
}

/// The profile of that name.
pub open spec fn profile_named(name: Seq<char>) -> Option<RelayLatencyProfile> {
    if name == "standard"@ {
        Some(RelayLatencyProfile::Standard)
    } else if name == "low"@ {
        Some(RelayLatencyProfile::Low)
    } else {
        None
    }
}

impl RelayLatencyProfile {
    pub fn as_str(self) -> (name: &'static str)
        ensures
            name@ == profile_name(self),
    {
        match self {
            RelayLatencyProfile::Standard => "standard",
            RelayLatencyProfile::Low => "low",
        }
    }

    pub fn parse(value: &str) -> (r: Result<RelayLatencyProfile, RelayConfigurationError>)
        ensures
            r is Ok <==> profile_named(value@) is Some,
            r matches Ok(profile) ==> profile_named(value@) == Some(profile),
            r matches Err(error) ==> error == RelayConfigurationError::InvalidLatencyProfile,
    {
        if text_eq(value, "standard") {
            Ok(RelayLatencyProfile::Standard)
        } else if text_eq(value, "low") {
            Ok(RelayLatencyProfile::Low)
        } else {
            Err(RelayConfigurationError::InvalidLatencyProfile)
        }
    }
}

/// A profile is found again under its name.
pub proof fn profile_names_round_trip(profile: RelayLatencyProfile)
    ensures
        profile_named(profile_name(profile)) == Some(profile),
{
    reveal_strlit("standard");
    reveal_strlit("low");
    assert("standard"@.len() != "low"@.len());
}

// Route configurations.

/// What a route configuration holds.
#[verifier::ext_equal]
pub struct RouteView {
    pub relay_url: Seq<char>,
    pub relay_session_id: Seq<char>,
    pub source_token: Seq<char>,
    pub bus_id: Seq<char>,
    pub publisher_group_id: Seq<char>,
    pub latency_profile: RelayLatencyProfile,
    pub ice_servers: Seq<Seq<Seq<char>>>,
    pub startup_timeout_ns: nat,
}

/// The parts of an absolute HTTP or HTTPS origin.
pub open spec fn relay_origin_parts(parts: UrlPartsView) -> bool {
    &&& parts.scheme == "http"@ || parts.scheme == "https"@
    &&& parts.host is Some
    &&& !parts.cannot_be_a_base
    &&& parts.path == ""@ || parts.path == "/"@
    &&& !parts.has_query
    &&& !parts.has_fragment
}

pub open spec fn relay_origin(url: Seq<char>) -> bool {
    &&& !crate::text::blank(url)
    &&& crate::boundary::url_parts(url) is Ok
    &&& relay_origin_parts(crate::boundary::url_parts(url)->Ok_0)
}

/// The startup deadline lies between one millisecond and the longest one, both allowed.
pub open spec fn timeout_in_range(timeout_ns: nat) -> bool {
    NANOS_PER_MILLI <= timeout_ns <= MAX_STARTUP_TIMEOUT_MS * NANOS_PER_MILLI
}

/// Why a route configuration is rejected. The first fault in this order counts.
pub open spec fn route_fault(route: RouteView) -> Option<RelayConfigurationError> {
    if !relay_origin(route.relay_url) {
        Some(RelayConfigurationError::InvalidRelayUrl)
    } else if crate::text::blank(route.relay_session_id) || crate::text::blank(
        route.publisher_group_id,
    ) || crate::text::byte_len(route.publisher_group_id) > MAX_GROUP_ID_BYTES {
        Some(RelayConfigurationError::InvalidIdentity)
    } else if !crate::frame_publisher::is_bus_label(route.bus_id) {
        Some(RelayConfigurationError::InvalidBusId)
    } else if crate::ice_server::servers_fault(route.ice_servers) is Some {
        crate::ice_server::servers_fault(route.ice_servers)
    } else if !timeout_in_range(route.startup_timeout_ns) {
        Some(RelayConfigurationError::InvalidStartupTimeout)
    } else {
        None
    }
}

/// The route configuration itself where it has no fault.
pub open spec fn checked(route: RouteView) -> Result<RouteView, RelayConfigurationError> {
    match route_fault(route) {
        Some(error) => Err(error),
        None => Ok(route),
    }
}

/// What a fallible constructor gives.
pub open spec fn outcome(
    r: Result<RelayRouteConfiguration, RelayConfigurationError>,
) -> Result<RouteView, RelayConfigurationError> {
    match r {
        Ok(route) => Ok(route@),
        Err(error) => Err(error),
    }
}

/// Whether the parts are those of an absolute HTTP or HTTPS origin.
pub fn is_relay_origin(parts: &UrlParts) -> (r: bool)
    ensures
        r == relay_origin_parts(parts@),
{
    (text_eq(parts.scheme.as_str(), "http") || text_eq(parts.scheme.as_str(), "https"))
        && parts.host.is_some() && !parts.cannot_be_a_base && (text_eq(parts.path.as_str(), "")
        || text_eq(parts.path.as_str(), "/")) && !parts.has_query && !parts.has_fragment
}

/// The configuration of one named Relay `AudioBus` route.
pub struct RelayRouteConfiguration {
    pub(crate) relay_url: String,
    pub(crate) relay_session_id: String,
    pub(crate) source_token: ConnectorSecret,
    pub(crate) bus_id: String,
    pub(crate) publisher_group_id: String,
    pub(crate) latency_profile: RelayLatencyProfile,
    pub(crate) ice_servers: Vec<RelayIceServer>,
    pub(crate) startup_timeout: Duration,
}

impl View for RelayRouteConfiguration {
    type V = RouteView;

    closed spec fn view(&self) -> RouteView {
        RouteView {
            relay_url: self.relay_url@,
            relay_session_id: self.relay_session_id@,
            source_token: crate::boundary::secret_text(self.source_token),
            bus_id: self.bus_id@,
            publisher_group_id: self.publisher_group_id@,
            latency_profile: self.latency_profile,
            ice_servers: crate::ice_server::server_views(self.ice_servers@),
            startup_timeout_ns: crate::boundary::duration_nanos(self.startup_timeout),
        }
    }
}

impl Clone for RelayRouteConfiguration {
    fn clone(&self) -> (route: RelayRouteConfiguration)
        ensures
            route@ == self@,
    {
        RelayRouteConfiguration {
            relay_url: self.relay_url.as_str().to_owned(),
            relay_session_id: self.relay_session_id.as_str().to_owned(),
            source_token: self.source_token.clone(),
            bus_id: self.bus_id.as_str().to_owned(),
            publisher_group_id: self.publisher_group_id.as_str().to_owned(),
            latency_profile: self.latency_profile,
            ice_servers: copy_servers(&self.ice_servers),
            startup_timeout: self.startup_timeout,
        }
    }
}

impl RelayRouteConfiguration {
    /// The route as it is shown to people, with a mark in the place of its token.
    pub fn redacted(&self) -> (shown: redacted::RelayRouteConfiguration<'_>)
        ensures
            crate::redacted::shows(shown, self@),
    {
        redacted::RelayRouteConfiguration {
            relay_url: self.relay_url.as_str(),
            relay_session_id: self.relay_session_id.as_str(),
            source_token: redacted::TOKEN_MARK,
            bus_id: self.bus_id.as_str(),
            publisher_group_id: self.publisher_group_id.as_str(),
            latency_profile: self.latency_profile,
            ice_servers: &self.ice_servers,
            startup_timeout: self.startup_timeout,
        }
    }
}

impl Debug for RelayRouteConfiguration {
    fn fmt(&self, formatter: &mut Formatter<'_>) -> (r: std::fmt::Result)
        ensures
            r is Ok ==> crate::redacted::written(*final(formatter)) == crate::redacted::written(
                *old(formatter),
            ) + crate::redacted::shown_text(*old(formatter), self@),
    {
        write_debug(&self.redacted(), formatter)
    }
}

/// A fresh route: the Session is its publisher group, the latency profile is the
/// standard one, there are no STUN servers, and startup takes at most 30 seconds.
pub open spec fn fresh_route(
    relay_url: Seq<char>,
    relay_session_id: Seq<char>,
    source_token: Seq<char>,
    bus_id: Seq<char>,
) -> RouteView {
    RouteView {
        relay_url,
        relay_session_id,
        source_token,
        bus_id,
        publisher_group_id: relay_session_id,
        latency_profile: RelayLatencyProfile::Standard,
        ice_servers: Seq::empty(),
        startup_timeout_ns: (DEFAULT_STARTUP_TIMEOUT_MS * NANOS_PER_MILLI) as nat,
    }
}

/// Whether two routes share one publisher: everything but the bus and the latency
/// profile is the same.
pub open spec fn one_publisher(a: RouteView, b: RouteView) -> bool {
    a == (RouteView { bus_id: a.bus_id, latency_profile: a.latency_profile, ..b })
}

// The stored forms.

pub open spec fn latency_text(profile: RelayLatencyProfile) -> ConfigurationEntry {
    ConfigurationEntry::Text(profile_name(profile))
}

/// The entries of a route without STUN servers.
pub open spec fn base_entries(route: RouteView) -> Map<Seq<char>, ConfigurationEntry> {
    crate::boundary::no_entries().insert(
        RELAY_URL_KEY@,
        ConfigurationEntry::Text(route.relay_url),
    ).insert(RELAY_SESSION_ID_KEY@, ConfigurationEntry::Text(route.relay_session_id)).insert(
        SOURCE_TOKEN_KEY@,
        ConfigurationEntry::Secret(route.source_token),
    ).insert(BUS_ID_KEY@, ConfigurationEntry::Text(route.bus_id)).insert(
        PUBLISHER_GROUP_ID_KEY@,
        ConfigurationEntry::Text(route.publisher_group_id),
    ).insert(LATENCY_PROFILE_KEY@, latency_text(route.latency_profile)).insert(
        STARTUP_TIMEOUT_MS_KEY@,
        ConfigurationEntry::DurationMilliseconds(
            (route.startup_timeout_ns / (NANOS_PER_MILLI as nat)) as u64,
        ),
    )
}

/// The entries of a route in Core's secret-aware configuration.
pub open spec fn route_entries(route: RouteView) -> Result<
    Map<Seq<char>, ConfigurationEntry>,
    RelayConfigurationError,
> {
    let encoded = crate::ice_server::servers_json(route.ice_servers);
    if route_fault(route) is Some {
        Err(route_fault(route)->0)
    } else if route.ice_servers.len() == 0 {
        Ok(base_entries(route))
    } else if secret_fault(encoded) is Some {
        Err(RelayConfigurationError::ConnectorConfiguration(secret_fault(encoded)->0))
    } else {
        Ok(base_entries(route).insert(ICE_SERVERS_KEY@, ConfigurationEntry::Secret(encoded)))
    }
}

/// Why Core accepts no secret of that text.
pub open spec fn secret_fault(text: Seq<char>) -> Option<SecretFault> {
    if text.len() == 0 {
        Some(SecretFault::Empty)
    } else if crate::text::byte_len(text) > MAX_SECRET_BYTES {
        Some(SecretFault::TooLarge)
    } else {
        None
    }
}

/// The value under a key, where it is there and not blank.
pub open spec fn present(values: Map<Seq<char>, Seq<char>>, key: Seq<char>) -> bool {
    values.contains_key(key) && !crate::text::blank(values[key])
}

pub open spec fn value_or(
    values: Map<Seq<char>, Seq<char>>,
    key: Seq<char>,
    default: Seq<char>,
) -> Seq<char> {
    if values.contains_key(key) {
        values[key]
    } else {
        default
    }
}

/// The servers that a stored configuration stands for, given its decoded list.
pub open spec fn stored_servers(
    values: Map<Seq<char>, Seq<char>>,
    decoded: Option<Seq<WireIceServerView>>,
) -> Result<Seq<Seq<Seq<char>>>, RelayConfigurationError> {
    if values.contains_key(ICE_SERVERS_KEY@) {
        crate::ice_server::decoded_servers(decoded)
    } else {
        Ok(Seq::empty())
    }
}

pub open spec fn stored_timeout(values: Map<Seq<char>, Seq<char>>) -> Option<u64> {
    crate::numeral::numeral_value(value_or(values, STARTUP_TIMEOUT_MS_KEY@, "30000"@))
}

pub open spec fn stored_profile(values: Map<Seq<char>, Seq<char>>) -> Option<RelayLatencyProfile> {
    profile_named(value_or(values, LATENCY_PROFILE_KEY@, "standard"@))
}

/// Why no route can be read from a stored configuration, its own validity aside. The
/// first fault in this order counts.
pub open spec fn stored_fault(
    values: Map<Seq<char>, Seq<char>>,
    sensitive: Set<Seq<char>>,
    decoded: Option<Seq<WireIceServerView>>,
) -> Option<RelayConfigurationError> {
    if !present(values, SOURCE_TOKEN_KEY@) {
        Some(RelayConfigurationError::MissingField(SOURCE_TOKEN_KEY))
    } else if !sensitive.contains(SOURCE_TOKEN_KEY@) {
        Some(RelayConfigurationError::SecretNotSensitive(SOURCE_TOKEN_KEY))
    } else if stored_timeout(values) is None {
        Some(RelayConfigurationError::InvalidStartupTimeout)
    } else if stored_servers(values, decoded) is Err {
        Some(stored_servers(values, decoded)->Err_0)
    } else if !present(values, RELAY_URL_KEY@) {
        Some(RelayConfigurationError::MissingField(RELAY_URL_KEY))
    } else if !present(values, RELAY_SESSION_ID_KEY@) {
        Some(RelayConfigurationError::MissingField(RELAY_SESSION_ID_KEY))
    } else if secret_fault(values[SOURCE_TOKEN_KEY@]) is Some {
        Some(
            RelayConfigurationError::ConnectorConfiguration(
                secret_fault(values[SOURCE_TOKEN_KEY@])->0,
            ),
        )
    } else if !present(values, BUS_ID_KEY@) {
        Some(RelayConfigurationError::MissingField(BUS_ID_KEY))
    } else if !present(values, PUBLISHER_GROUP_ID_KEY@) {
        Some(RelayConfigurationError::MissingField(PUBLISHER_GROUP_ID_KEY))
    } else if stored_profile(values) is None {
        Some(RelayConfigurationError::InvalidLatencyProfile)
    } else {
        None
    }
}

/// The route that a stored configuration stands for.
pub open spec fn stored_route(
    values: Map<Seq<char>, Seq<char>>,
    sensitive: Set<Seq<char>>,
    decoded: Option<Seq<WireIceServerView>>,
) -> Result<RouteView, RelayConfigurationError> {
    match stored_fault(values, sensitive, decoded) {
        Some(error) => Err(error),
        None => checked(
            RouteView {
                relay_url: values[RELAY_URL_KEY@],
                relay_session_id: values[RELAY_SESSION_ID_KEY@],
                source_token: values[SOURCE_TOKEN_KEY@],
                bus_id: values[BUS_ID_KEY@],
                publisher_group_id: values[PUBLISHER_GROUP_ID_KEY@],
                latency_profile: stored_profile(values)->0,
                ice_servers: stored_servers(values, decoded)->Ok_0,
                startup_timeout_ns: (stored_timeout(values)->0 * NANOS_PER_MILLI) as nat,
            },
        ),
    }
}

fn secret_of(text: String) -> (r: Result<ConnectorSecret, RelayConfigurationError>)
    ensures
        r is Ok <==> secret_fault(text@) is None,
        r matches Ok(secret) ==> crate::boundary::secret_text(secret) == text@,
        r matches Err(error) ==> secret_fault(text@) is Some && error
            == RelayConfigurationError::ConnectorConfiguration(secret_fault(text@)->0),
{
    let empty = text.as_str().unicode_len() == 0;
    match new_secret(text) {
        Ok(secret) => Ok(secret),
        Err(_) => if empty {
            Err(RelayConfigurationError::ConnectorConfiguration(SecretFault::Empty))
        } else {
            Err(RelayConfigurationError::ConnectorConfiguration(SecretFault::TooLarge))
        },
    }
}

fn required<'a>(configuration: &'a NodeConfig, key: &'static str) -> (r: Result<
    &'a str,
    RelayConfigurationError,
>)
    ensures
        r is Ok <==> present(crate::boundary::node_values(*configuration), key@),
        r matches Ok(value) ==> value@ == crate::boundary::node_values(*configuration)[key@],
        r matches Err(error) ==> error == RelayConfigurationError::MissingField(key),
{
    match configuration.get(key) {
        Some(value) => {
            let chars = to_chars(value);
            if is_blank(chars.as_slice()) {
                Err(RelayConfigurationError::MissingField(key))
            } else {
                Ok(value)
            }
        },
        None => Err(RelayConfigurationError::MissingField(key)),
    }
}

fn required_sensitive<'a>(configuration: &'a NodeConfig, key: &'static str) -> (r: Result<
    &'a str,
    RelayConfigurationError,
>)
    ensures
        r is Ok <==> present(crate::boundary::node_values(*configuration), key@)
            && crate::boundary::node_sensitive(*configuration).contains(key@),
        r matches Ok(value) ==> value@ == crate::boundary::node_values(*configuration)[key@],
        r matches Err(error) ==> error == (if present(
            crate::boundary::node_values(*configuration),
            key@,
        ) {
            RelayConfigurationError::SecretNotSensitive(key)
        } else {
            RelayConfigurationError::MissingField(key)
        }),
{
    match required(configuration, key) {
        Ok(value) => if configuration.is_sensitive(key) {
            Ok(value)
        } else {
            Err(RelayConfigurationError::SecretNotSensitive(key))
        },
        Err(error) => Err(error),
    }
}

fn value_or_default<'a>(configuration: &'a NodeConfig, key: &str, default: &'a str) -> (value:
    &'a str)
    ensures
        value@ == value_or(crate::boundary::node_values(*configuration), key@, default@),
{
    match configuration.get(key) {
        Some(value) => value,
        None => default,
    }
}

impl RelayRouteConfiguration {
    /// A configuration that passes validation, as every constructor returns it.
    pub open spec fn wf(&self) -> bool {
        route_fault(self@) is None
    }

    /// Creates the configuration for one named Relay `AudioBus` route.
    ///
    /// # Errors
    ///
    /// Returns an error when the origin, Session identity, token, bus, or
    /// default startup contract is invalid.
    pub fn new(
        relay_url: String,
        relay_session_id: String,
        source_token: ConnectorSecret,
        bus_id: String,
    ) -> (r: Result<RelayRouteConfiguration, RelayConfigurationError>)
        ensures
            outcome(r) == checked(
                fresh_route(
                    relay_url@,
                    relay_session_id@,
                    crate::boundary::secret_text(source_token),
                    bus_id@,
                ),
            ),
            r matches Ok(route) ==> route.wf(),
    {
        let publisher_group_id = relay_session_id.as_str().to_owned();
        let route = RelayRouteConfiguration {
            relay_url,
            relay_session_id,
            source_token,
            bus_id,
            publisher_group_id,
            latency_profile: RelayLatencyProfile::Standard,
            ice_servers: Vec::new(),
            startup_timeout: Duration::from_millis(DEFAULT_STARTUP_TIMEOUT_MS),
        };
        assert(route@ =~= fresh_route(
            relay_url@,
            relay_session_id@,
            crate::boundary::secret_text(source_token),
            bus_id@,
        ));
        route.validated()
    }

    fn validated(self) -> (r: Result<RelayRouteConfiguration, RelayConfigurationError>)
        ensures
            outcome(r) == checked(self@),
            r matches Ok(route) ==> route.wf(),
    {
        match self.validate() {
            Ok(()) => Ok(self),
            Err(error) => Err(error),
        }
    }

    /// Selects the Session-scoped group that shares one publisher lifecycle.
    ///
    /// # Errors
    ///
    /// Returns an error when the group identifier is empty or too large.
    pub fn with_publisher_group(self, publisher_group_id: String) -> (r: Result<
        RelayRouteConfiguration,
        RelayConfigurationError,
    >)
        ensures
            outcome(r) == checked(
                RouteView { publisher_group_id: publisher_group_id@, ..self@ },
            ),
            r matches Ok(route) ==> route.wf(),
    {
        let route = RelayRouteConfiguration { publisher_group_id, ..self };
        route.validated()
    }

    /// Adds the finite STUN configuration used by the current publisher transport.
    ///
    /// # Errors
    ///
    /// Returns an error when a server or the aggregate server list is invalid.
    pub fn with_ice_servers(self, ice_servers: Vec<RelayIceServer>) -> (r: Result<
        RelayRouteConfiguration,
        RelayConfigurationError,
    >)
        ensures
            outcome(r) == checked(
                RouteView {
                    ice_servers: crate::ice_server::server_views(ice_servers@),
                    ..self@
                },
            ),
            r matches Ok(route) ==> route.wf(),
    {
        let route = RelayRouteConfiguration { ice_servers, ..self };
        route.validated()
    }

    /// Keeps little audio waiting.
    #[must_use]
    pub fn with_low_latency(self) -> (route: RelayRouteConfiguration)
        ensures
            route@ == (RouteView { latency_profile: RelayLatencyProfile::Low, ..self@ }),
            self.wf() ==> route.wf(),
    {
        RelayRouteConfiguration { latency_profile: RelayLatencyProfile::Low, ..self }
    }

    /// Sets the complete signaling, ICE, and DTLS startup deadline.
    ///
    /// # Errors
    ///
    /// Returns an error when the deadline is zero or exceeds 120 seconds.
    pub fn with_startup_timeout(self, startup_timeout: Duration) -> (r: Result<
        RelayRouteConfiguration,
        RelayConfigurationError,
    >)
        ensures
            outcome(r) == checked(
                RouteView {
                    startup_timeout_ns: crate::boundary::duration_nanos(startup_timeout),
                    ..self@
                },
            ),
            r matches Ok(route) ==> route.wf(),
    {
        let route = RelayRouteConfiguration { startup_timeout, ..self };
        route.validated()
    }

    #[must_use]
    pub fn bus_id(&self) -> (bus_id: &str)
        ensures
            bus_id@ == self@.bus_id,
    {
        self.bus_id.as_str()
    }

    #[must_use]
    pub fn publisher_group_id(&self) -> (group: &str)
        ensures
            group@ == self@.publisher_group_id,
    {
        self.publisher_group_id.as_str()
    }

    pub fn latency_profile(&self) -> (profile: RelayLatencyProfile)
        ensures
            profile == self@.latency_profile,
    {
        self.latency_profile
    }

    pub fn ice_servers(&self) -> (servers: &Vec<RelayIceServer>)
        ensures
            crate::ice_server::server_views(servers@) == self@.ice_servers,
    {
        &self.ice_servers
    }

    pub fn relay_url(&self) -> (url: &str)
        ensures
            url@ == self@.relay_url,
    {
        self.relay_url.as_str()
    }

    pub fn relay_session_id(&self) -> (session: &str)
        ensures
            session@ == self@.relay_session_id,
    {
        self.relay_session_id.as_str()
    }

    pub fn source_token(&self) -> (token: &ConnectorSecret)
        ensures
            crate::boundary::secret_text(*token) == self@.source_token,
    {
        &self.source_token
    }

    pub fn startup_timeout(&self) -> (timeout: Duration)
        ensures
            crate::boundary::duration_nanos(timeout) == self@.startup_timeout_ns,
    {
        self.startup_timeout
    }

    /// Whether two routes share one publisher.
    pub fn same_publisher(&self, other: &RelayRouteConfiguration) -> (r: bool)
        ensures
            r == one_publisher(self@, other@),
    {
        let r = text_eq(self.relay_url.as_str(), other.relay_url.as_str()) && text_eq(
            self.relay_session_id.as_str(),
            other.relay_session_id.as_str(),
        ) && self.source_token.eq(&other.source_token) && text_eq(
            self.publisher_group_id.as_str(),
            other.publisher_group_id.as_str(),
        ) && same_servers(&self.ice_servers, &other.ice_servers)
            && self.startup_timeout.as_nanos() == other.startup_timeout.as_nanos();
        r
    }

    /// Checks the configuration.
    pub fn validate(&self) -> (r: Result<(), RelayConfigurationError>)
        ensures
            r is Ok <==> route_fault(self@) is None,
            r matches Err(error) ==> route_fault(self@) == Some(error),
    {
        match parse_url(self.relay_url.as_str()) {
            Ok(parts) => if !is_relay_origin(&parts) {
                return Err(RelayConfigurationError::InvalidRelayUrl);
            },
            Err(_) => {
                return Err(RelayConfigurationError::InvalidRelayUrl);
            },
        }
        let session = to_chars(self.relay_session_id.as_str());
        let group = to_chars(self.publisher_group_id.as_str());
        if is_blank(session.as_slice()) || is_blank(group.as_slice())
            || self.publisher_group_id.as_str().as_bytes().len() > MAX_GROUP_ID_BYTES {
            return Err(RelayConfigurationError::InvalidIdentity);
        }
        match validate_bus(self.bus_id.as_str()) {
            Ok(()) => {},
            Err(_) => {
                return Err(RelayConfigurationError::InvalidBusId);
            },
        }
        match validate_servers(&self.ice_servers) {
            Ok(()) => {},
            Err(error) => {
                return Err(error);
            },
        }
        let startup_timeout_ns: u128 = self.startup_timeout.as_nanos();
        if startup_timeout_ns < NANOS_PER_MILLI || startup_timeout_ns
            > MAX_STARTUP_TIMEOUT_MS as u128 * NANOS_PER_MILLI {
            return Err(RelayConfigurationError::InvalidStartupTimeout);
        }
        Ok(())
    }

    /// Converts this typed value into Core's secret-aware connector configuration.
    ///
    /// # Errors
    ///
    /// Returns an error when validation or the bounded secret encoding fails.
    pub fn connector_configuration(&self) -> (r: Result<
        ConnectorConfiguration,
        RelayConfigurationError,
    >)
        ensures
            r is Ok <==> route_entries(self@) is Ok,
            r matches Ok(configuration) ==> crate::boundary::configuration_entries(configuration)
                == route_entries(self@)->Ok_0,
            r matches Err(error) ==> error == route_entries(self@)->Err_0,
    {
        match self.validate() {
            Ok(()) => {},
            Err(error) => {
                return Err(error);
            },
        }
        let startup_timeout_ms: u64 = (self.startup_timeout.as_nanos() / NANOS_PER_MILLI) as u64;
        let configuration = configuration_with(
            new_configuration(),
            RELAY_URL_KEY,
            ConfigurationValue::Text(self.relay_url.as_str().to_owned()),
        );
        let configuration = configuration_with(
            configuration,
            RELAY_SESSION_ID_KEY,
            ConfigurationValue::Text(self.relay_session_id.as_str().to_owned()),
        );
        let configuration = configuration_with(
            configuration,
            SOURCE_TOKEN_KEY,
            ConfigurationValue::Secret(self.source_token.clone()),
        );
        let configuration = configuration_with(
            configuration,
            BUS_ID_KEY,
            ConfigurationValue::Text(self.bus_id.as_str().to_owned()),
        );
        let configuration = configuration_with(
            configuration,
            PUBLISHER_GROUP_ID_KEY,
            ConfigurationValue::Text(self.publisher_group_id.as_str().to_owned()),
        );
        let configuration = configuration_with(
            configuration,
            LATENCY_PROFILE_KEY,
            ConfigurationValue::Text(self.latency_profile.as_str().to_owned()),
        );
        let configuration = configuration_with(
            configuration,
            STARTUP_TIMEOUT_MS_KEY,
            ConfigurationValue::DurationMilliseconds(startup_timeout_ms),
        );
        if self.ice_servers.len() == 0 {
            return Ok(configuration);
        }
        match secret_of(encode_ice_servers(&self.ice_servers)) {
            Ok(secret) => Ok(
                configuration_with(
                    configuration,
                    ICE_SERVERS_KEY,
                    ConfigurationValue::Secret(secret),
                ),
            ),
            Err(error) => Err(error),
        }
    }

    /// Reads a route from the configuration that Core hands over. `decoded_ice_servers`
    /// is the decoded list under `ice_servers`, or none if it could not be decoded; it
    /// counts only where that key is there.
    ///
    /// # Errors
    ///
    /// Returns an error when a field is missing, not marked sensitive, malformed or
    /// invalid.
    pub fn from_node_config(
        configuration: &NodeConfig,
        decoded_ice_servers: Option<Vec<WireIceServer>>,
    ) -> (r: Result<RelayRouteConfiguration, RelayConfigurationError>)
        ensures
            outcome(r) == stored_route(
                crate::boundary::node_values(*configuration),
                crate::boundary::node_sensitive(*configuration),
                crate::ice_server::wire_option(decoded_ice_servers),
            ),
            r matches Ok(route) ==> route.wf(),
    {
        let source_token = match required_sensitive(configuration, SOURCE_TOKEN_KEY) {
            Ok(value) => value,
            Err(error) => {
                return Err(error);
            },
        };
        let timeout = to_chars(value_or_default(configuration, STARTUP_TIMEOUT_MS_KEY, "30000"));
        let startup_timeout_ms: u64 = match parse_u64(timeout.as_slice()) {
            Some(ms) => ms,
            None => {
                return Err(RelayConfigurationError::InvalidStartupTimeout);
            },
        };
        let mut ice_servers: Vec<RelayIceServer> = Vec::new();
        assert(crate::ice_server::server_views(ice_servers@) =~= Seq::empty());
        if configuration.get(ICE_SERVERS_KEY).is_some() {
            match decode_ice_servers(decoded_ice_servers) {
                Ok(servers) => {
                    ice_servers = servers;
                },
                Err(error) => {
                    return Err(error);
                },
            }
        }
        let relay_url = match required(configuration, RELAY_URL_KEY) {
            Ok(value) => value.to_owned(),
            Err(error) => {
                return Err(error);
            },
        };
        let relay_session_id = match required(configuration, RELAY_SESSION_ID_KEY) {
            Ok(value) => value.to_owned(),
            Err(error) => {
                return Err(error);
            },
        };
        let source_token = match secret_of(source_token.to_owned()) {
            Ok(secret) => secret,
            Err(error) => {
                return Err(error);
            },
        };
        let bus_id = match required(configuration, BUS_ID_KEY) {
            Ok(value) => value.to_owned(),
            Err(error) => {
                return Err(error);
            },
        };
        let publisher_group_id = match required(configuration, PUBLISHER_GROUP_ID_KEY) {
            Ok(value) => value.to_owned(),
            Err(error) => {
                return Err(error);
            },
        };
        let latency_profile = match RelayLatencyProfile::parse(
            value_or_default(configuration, LATENCY_PROFILE_KEY, "standard"),
        ) {
            Ok(profile) => profile,
            Err(error) => {
                return Err(error);
            },
        };
        let route = RelayRouteConfiguration {
            relay_url,
            relay_session_id,
            source_token,
            bus_id,
            publisher_group_id,
            latency_profile,
            ice_servers,
            startup_timeout: Duration::from_millis(startup_timeout_ms),
        };
        route.validated()
    }
}

} // verus!
