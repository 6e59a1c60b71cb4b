//! What the library takes from outside crates, with the contracts that it relies on.
use pocketstation::connector::{
    ConnectorConfiguration, ConnectorConfigurationError, ConnectorConfigurationValue,
    ConnectorError, ConnectorErrorCode, ConnectorErrorStage, ConnectorRetryability,
    ConnectorSecret,
};
use pocketstation::graph::NodeConfig;
use pocketstation::{EdgeObservations, EndpointId, OutputGeneration, RouteId};
use std::sync::OnceLock;
use std::time::{Duration, Instant};
use str0m::change::SdpAnswer;
use str0m::error::SdpError;
use str0m::media::{Frequency, MediaTime};
use str0m::Candidate;
use url::Url;
use vstd::prelude::*;

use crate::relay_error::{ErrorStage, ErrorView, Retryability};

verus! {

// PocketStation Core: secrets.

/// A non-empty text whose debug output is redacted and whose memory is cleared.
#[verifier::external_type_specification]
#[verifier::external_body]
pub struct ExConnectorSecret(ConnectorSecret);

/// Core's report of a rejected configuration value.
#[verifier::external_type_specification]
#[verifier::external_body]
pub struct ExConnectorConfigurationError(ConnectorConfigurationError);

/// The text that a secret holds.
pub uninterp spec fn secret_text(secret: ConnectorSecret) -> Seq<char>;

/// The largest secret that Core accepts, in bytes.
pub const MAX_SECRET_BYTES: usize = 16384;

/// `ConnectorSecret::new` accepts a text that is not empty and takes at most
/// `MAX_SECRET_BYTES` bytes, and holds it unchanged.
#[verifier::external_body]
pub(crate) fn new_secret(text: String) -> (r: Result<ConnectorSecret, ConnectorConfigurationError>)
    ensures
        r is Ok == (0 < text@.len() && crate::text::byte_len(text@) <= MAX_SECRET_BYTES),
        r is Ok ==> secret_text(r->Ok_0) == text@,
{
    ConnectorSecret::new(text)
}

/// `ConnectorSecret::expose_secret` gives the text that the secret holds.
pub assume_specification[ ConnectorSecret::expose_secret ](secret: &ConnectorSecret) -> (text: &str)
    ensures
        text@ == secret_text(*secret),
;

/// A clone of a secret holds the same text.
pub assume_specification[ <ConnectorSecret as Clone>::clone ](secret: &ConnectorSecret) -> (r:
    ConnectorSecret)
    ensures
        secret_text(r) == secret_text(*secret),
;

/// Two secrets are equal exactly if they hold the same text.
pub assume_specification[ <ConnectorSecret as PartialEq>::eq ](
    a: &ConnectorSecret,
    b: &ConnectorSecret,
) -> (r: bool)
    ensures
        r == (secret_text(*a) == secret_text(*b)),
;

// PocketStation Core: the configuration that a route hands to Core.

/// A configuration value in one of the kinds that relay routes use.
pub enum ConfigurationValue {
    Text(String),
    DurationMilliseconds(u64),
    Secret(ConnectorSecret),
}

/// What a configuration value holds.
pub enum ConfigurationEntry {
    Text(Seq<char>),
    DurationMilliseconds(u64),
    Secret(Seq<char>),
}

impl View for ConfigurationValue {
    type V = ConfigurationEntry;

    open spec fn view(&self) -> ConfigurationEntry {
        match *self {
            ConfigurationValue::Text(text) => ConfigurationEntry::Text(text@),
            ConfigurationValue::DurationMilliseconds(ms) => {
                ConfigurationEntry::DurationMilliseconds(ms)
            },
            ConfigurationValue::Secret(secret) => ConfigurationEntry::Secret(secret_text(secret)),
        }
    }
}

/// Core's typed configuration values by field name.
#[verifier::external_type_specification]
#[verifier::external_body]
pub struct ExConnectorConfiguration(ConnectorConfiguration);

/// The entries of a configuration.
pub uninterp spec fn configuration_entries(configuration: ConnectorConfiguration) -> Map<
    Seq<char>,
    ConfigurationEntry,
>;

pub open spec fn no_entries() -> Map<Seq<char>, ConfigurationEntry> {
    Map::empty()
}

/// `ConnectorConfiguration::new` makes a configuration without entries.
#[verifier::external_body]
pub(crate) fn new_configuration() -> (r: ConnectorConfiguration)
    ensures
        configuration_entries(r) == no_entries(),
{
    ConnectorConfiguration::new()
}

/// `ConnectorConfiguration::with` enters a value under its key, in place of an
/// earlier one, and keeps the other entries.
#[verifier::external_body]
pub(crate) fn configuration_with(
    configuration: ConnectorConfiguration,
    key: &str,
    value: ConfigurationValue,
) -> (r: ConnectorConfiguration)
    ensures
        configuration_entries(r) == configuration_entries(configuration).insert(key@, value@),
{
    configuration.with(
        key,
        match value {
            ConfigurationValue::Text(text) => ConnectorConfigurationValue::Text(text),
            ConfigurationValue::DurationMilliseconds(ms) => {
                ConnectorConfigurationValue::DurationMilliseconds(ms)
            },
            ConfigurationValue::Secret(secret) => ConnectorConfigurationValue::Secret(secret),
        },
    )
}

// PocketStation Core: the configuration that Core hands to a prepared route.

/// Core's text values by key, some of them marked sensitive.
#[verifier::external_type_specification]
#[verifier::external_body]
pub struct ExNodeConfig(NodeConfig);

/// The values of a node configuration.
pub uninterp spec fn node_values(configuration: NodeConfig) -> Map<Seq<char>, Seq<char>>;

/// The keys whose values are marked sensitive.
pub uninterp spec fn node_sensitive(configuration: NodeConfig) -> Set<Seq<char>>;

/// `NodeConfig::get` gives the value under the key, if there is one.
pub assume_specification<'a>[ NodeConfig::get ](configuration: &'a NodeConfig, key: &str) -> (value:
    Option<&'a str>)
    ensures
        value is Some == node_values(*configuration).contains_key(key@),
        value is Some ==> value->0@ == node_values(*configuration)[key@],
;

/// `NodeConfig::is_sensitive` holds of the keys whose values are marked sensitive.
pub assume_specification[ NodeConfig::is_sensitive ](configuration: &NodeConfig, key: &str) -> (r:
    bool)
    ensures
        r == node_sensitive(*configuration).contains(key@),
;

// PocketStation Core: identities and observations.

/// Core's number of an endpoint.
#[verifier::external_type_specification]
#[verifier::external_body]
pub struct ExEndpointId(EndpointId);

/// Core's number of a route.
#[verifier::external_type_specification]
#[verifier::external_body]
pub struct ExRouteId(RouteId);

/// The number that an endpoint's identity holds.
pub uninterp spec fn endpoint_number(id: EndpointId) -> u64;

/// The number that a route's identity holds.
pub uninterp spec fn route_number(id: RouteId) -> u64;

/// `EndpointId::get` gives the number.
pub assume_specification[ EndpointId::get ](id: EndpointId) -> (number: u64)
    ensures
        number == endpoint_number(id),
;

/// `RouteId::get` gives the number.
pub assume_specification[ RouteId::get ](id: RouteId) -> (number: u64)
    ensures
        number == route_number(id),
;

/// Core's counts of what passed over a route.
#[verifier::external_type_specification]
#[verifier::external_body]
pub struct ExEdgeObservations(EdgeObservations);

// PocketStation Core: errors.

/// Core's report of a failed connector.
#[verifier::external_type_specification]
#[verifier::external_body]
pub struct ExConnectorError(ConnectorError);

/// The code, stage, retryability and message of a report.
pub uninterp spec fn error_parts(error: ConnectorError) -> ErrorView;

/// `ConnectorError::new`, with a code made by `ConnectorErrorCode::new`. Codes have to
/// be stable identifiers, and messages have to say something within 4096 bytes; then the
/// report holds what it was given.
#[verifier::external_body]
pub(crate) fn new_connector_error(
    code: &str,
    stage: ErrorStage,
    retryability: Retryability,
    message: String,
) -> (r: Option<ConnectorError>)
    ensures
        r is Some == (crate::relay_error::is_error_code(code@)
            && crate::relay_error::is_error_message(message@)),
        r is Some ==> error_parts(r->0) == (ErrorView {
            code: code@,
            stage,
            retryability,
            message: message@,
        }),
{
    let stage = match stage {
        ErrorStage::Configuration => ConnectorErrorStage::Configuration,
        ErrorStage::Prepare => ConnectorErrorStage::Prepare,
        ErrorStage::Startup => ConnectorErrorStage::Startup,
        ErrorStage::Delivery => ConnectorErrorStage::Delivery,
        ErrorStage::Shutdown => ConnectorErrorStage::Shutdown,
        ErrorStage::Join => ConnectorErrorStage::Join,
    };
    let retryability = match retryability {
        Retryability::Never => ConnectorRetryability::Never,
        Retryability::Retryable => ConnectorRetryability::Retryable,
        Retryability::AfterReconfiguration => ConnectorRetryability::RetryAfterReconfiguration,
    };
    ConnectorError::new(ConnectorErrorCode::new(code).ok()?, stage, retryability, message).ok()
}

/// A clone of a report says the same.
pub assume_specification[ <ConnectorError as Clone>::clone ](error: &ConnectorError) -> (r:
    ConnectorError)
    ensures
        error_parts(r) == error_parts(*error),
;

// PocketStation Core: output generations.

/// Core's handle on one run of replaceable output, which its producer may cancel.
#[verifier::external_type_specification]
#[verifier::external_body]
pub struct ExOutputGeneration(OutputGeneration);

/// The number of an output generation.
pub uninterp spec fn generation_number(generation: OutputGeneration) -> u64;

/// `OutputGeneration::id`, as a number.
#[verifier::external_body]
pub(crate) fn generation_id(generation: &OutputGeneration) -> (id: u64)
    ensures
        id == generation_number(*generation),
{
    generation.id().get()
}

/// `OutputGeneration::is_active`: whether the output has not been cancelled or replaced
/// so far. Other holders of the generation change the answer at any time, so nothing
/// is stated of it.
pub assume_specification[ OutputGeneration::is_active ](generation: &OutputGeneration) -> bool;

/// A clone is a handle on the same generation. That both are cancelled together is not
/// stated.
pub assume_specification[ <OutputGeneration as Clone>::clone ](
    generation: &OutputGeneration,
) -> (r: OutputGeneration)
    ensures
        generation_number(r) == generation_number(*generation),
;

// str0m: media time.

/// A time on a media clock: a count of ticks and the clock's frequency.
#[verifier::external_type_specification]
#[verifier::external_body]
pub struct ExMediaTime(MediaTime);

/// The ticks of a media time.
pub uninterp spec fn media_ticks(time: MediaTime) -> u64;

/// The ticks per second of a media time's clock.
pub uninterp spec fn media_clock_hz(time: MediaTime) -> u32;

/// `MediaTime::new` on the 48 kHz clock.
#[verifier::external_body]
pub(crate) fn media_time_48khz(ticks: u64) -> (time: MediaTime)
    ensures
        media_ticks(time) == ticks,
        media_clock_hz(time) == 48_000,
{
    MediaTime::new(ticks, Frequency::FORTY_EIGHT_KHZ)
}

// URLs.

/// What the library reads of a parsed URL.
pub struct UrlParts {
    pub scheme: String,
    pub host: Option<String>,
    pub cannot_be_a_base: bool,
    pub path: String,
    pub has_query: bool,
    pub has_fragment: bool,
    pub port_or_known_default: Option<u16>,
}

/// What a parsed URL holds.
pub struct UrlPartsView {
    pub scheme: Seq<char>,
    pub host: Option<Seq<char>>,
    pub cannot_be_a_base: bool,
    pub path: Seq<char>,
    pub has_query: bool,
    pub has_fragment: bool,
    pub port_or_known_default: Option<u16>,
}

impl View for UrlParts {
    type V = UrlPartsView;

    open spec fn view(&self) -> UrlPartsView {
        UrlPartsView {
            scheme: self.scheme@,
            host: match self.host {
                Some(host) => Some(host@),
                None => None,
            },
            cannot_be_a_base: self.cannot_be_a_base,
            path: self.path@,
            has_query: self.has_query,
            has_fragment: self.has_fragment,
            port_or_known_default: self.port_or_known_default,
        }
    }
}

/// The parts of the URL that a text stands for under the WHATWG URL standard, or the
/// message that says why it stands for none.
pub uninterp spec fn url_parts(text: Seq<char>) -> Result<UrlPartsView, Seq<char>>;

/// `url::Url::parse`, with the accessors that read the parsed URL, or the message of its
/// error. The result depends on the text alone. A URL starts with the letters of its
/// scheme, so a blank text is none.
#[verifier::external_body]
pub(crate) fn parse_url(text: &str) -> (r: Result<UrlParts, String>)
    ensures
        r is Ok == url_parts(text@) is Ok,
        r is Ok ==> r->Ok_0@ == url_parts(text@)->Ok_0,
        r is Err ==> r->Err_0@ == url_parts(text@)->Err_0,
        r is Ok ==> !crate::text::blank(text@),
{
    Url::parse(text).map_err(|error| error.to_string()).map(
        |url|
            UrlParts {
                scheme: url.scheme().to_owned(),
                host: url.host_str().map(str::to_owned),
                cannot_be_a_base: url.cannot_be_a_base(),
                path: url.path().to_owned(),
                has_query: url.query().is_some(),
                has_fragment: url.fragment().is_some(),
                port_or_known_default: url.port_or_known_default(),
            },
    )
}

// serde_json: strings.

/// `serde_json::to_string` of a text: a JSON string in which quotation marks,
/// backslashes and the control characters below the space are escaped and all else
/// stands for itself. Writing a text to memory does not fail, so there is always one.
#[verifier::external_body]
pub(crate) fn json_quote(text: &str) -> (r: String)
    ensures
        r@ == crate::json::json_string(text@),
{
    serde_json::to_string(text).expect("a text is always written")
}

// std: durations.

/// The length of a duration in nanoseconds.
pub uninterp spec fn duration_nanos(duration: Duration) -> nat;

/// `Duration::from_millis` makes a duration of that many milliseconds.
pub assume_specification[ Duration::from_millis ](millis: u64) -> (duration: Duration)
    ensures
        duration_nanos(duration) == millis * 1_000_000,
;

/// `Duration::as_nanos` gives the length in nanoseconds.
pub assume_specification[ Duration::as_nanos ](duration: &Duration) -> (nanos: u128)
    ensures
        nanos == duration_nanos(*duration),
;

// std: instants.

/// A reading of the machine's monotonic clock.
#[verifier::external_type_specification]
#[verifier::external_body]
pub struct ExInstant(Instant);

/// `Instant::now` reads the clock. Nothing is stated of the reading.
pub assume_specification[ Instant::now ]() -> Instant;

/// `Instant::checked_add`: the later time, if the clock can show it. How far the clock
/// reaches depends on the machine, so nothing is stated of the result.
pub assume_specification[ Instant::checked_add ](
    instant: &Instant,
    duration: Duration,
) -> Option<Instant>;

// std: cells that are written once.

/// A cell that is written at most once. Whoever shares it sees what was written.
#[verifier::external_type_specification]
#[verifier::external_body]
#[verifier::reject_recursive_types(T)]
pub struct ExOnceLock<T>(OnceLock<T>);

/// `OnceLock::new` makes an empty cell. What it holds later depends on those who share it,
/// so nothing is stated of it.
pub assume_specification<T>[ OnceLock::<T>::new ]() -> OnceLock<T>;

/// `OnceLock::get` reads the cell. Others may write it at any time, so nothing is stated of
/// what is read.
pub assume_specification<T>[ OnceLock::<T>::get ](cell: &OnceLock<T>) -> Option<&T>;

/// `OnceLock::set` writes the cell if it is empty, and gives the value back if it is not.
/// Which of the two depends on those who share the cell, and is not stated.
pub assume_specification<T>[ OnceLock::<T>::set ](cell: &OnceLock<T>, value: T) -> (r: Result<
    (),
    T,
>)
    ensures
        r is Err ==> r->Err_0 == value,
;

// str0m: what the relay sends.

/// An SDP answer, as the media engine takes it.
#[verifier::external_type_specification]
#[verifier::external_body]
pub struct ExSdpAnswer(SdpAnswer);

/// Why a text is no SDP answer.
#[verifier::external_type_specification]
#[verifier::external_body]
pub struct ExSdpError(SdpError);

/// Whether a text is an SDP answer.
pub uninterp spec fn answer_reads(text: Seq<char>) -> bool;

/// `SdpAnswer::from_sdp_string` reads an answer. Whether there is one depends on the text
/// alone. Of the answer and of the error no more is stated: some parameters are kept in the
/// order of a hash map, and the message of an error holds an address.
pub assume_specification[ SdpAnswer::from_sdp_string ](input: &str) -> (r: Result<
    SdpAnswer,
    SdpError,
>)
    ensures
        r is Ok == answer_reads(input@),
;

/// What an error says of itself.
pub uninterp spec fn sdp_error_text(error: SdpError) -> Seq<char>;

/// The debug output of an `SdpError`, which depends on the error alone.
#[verifier::external_body]
pub(crate) fn show_sdp_error(error: &SdpError) -> (text: String)
    ensures
        text@ == sdp_error_text(*error),
{
    format!("{error:?}")
}

/// A candidate, as the media engine takes it.
#[verifier::external_type_specification]
#[verifier::external_body]
pub struct ExCandidate(Candidate);

/// The candidate that a text stands for, or the debug output of the error that says why it
/// stands for none.
pub uninterp spec fn parsed_candidate(text: Seq<char>) -> Result<Candidate, Seq<char>>;

/// `Candidate::from_sdp_string` reads a candidate. The result depends on the text alone.
#[verifier::external_body]
pub(crate) fn parse_candidate(text: &str) -> (r: Result<Candidate, String>)
    ensures
        r is Ok == parsed_candidate(text@) is Ok,
        r is Ok ==> r->Ok_0 == parsed_candidate(text@)->Ok_0,
        r is Err ==> r->Err_0@ == parsed_candidate(text@)->Err_0,
{
    Candidate::from_sdp_string(text).map_err(|error| format!("{error:?}"))
}

// PocketStation Core: the clock.

/// `pocketstation::timing::monotonic_timestamp_ns`: nanoseconds on Core's
/// process-wide clock, never zero. That later readings are not smaller is not
/// stated, since no clause can speak of two calls.
pub assume_specification[ pocketstation::timing::monotonic_timestamp_ns ]() -> (ns: u64)
    ensures
        ns > 0,
;

} // verus!
