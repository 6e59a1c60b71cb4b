//! The relay connector, as it presents itself to PocketStation Core.
use pocketstation::connector::{
    ConnectorConfigurationError, ConnectorConfigurationField, ConnectorError, ConnectorManifest,
    ConnectorManifestError, ConnectorReadinessPolicyError,
};
use pocketstation::graph::PortSpec;
use std::sync::OnceLock;
use std::time::Duration;
use vstd::prelude::*;

use crate::boundary::ConfigurationEntry;
use crate::configuration::{
    RouteView, BUS_ID_KEY, DEFAULT_STARTUP_TIMEOUT_MS, ICE_SERVERS_KEY, LATENCY_PROFILE_KEY,
    MAX_STARTUP_TIMEOUT_MS, PUBLISHER_GROUP_ID_KEY, RELAY_SESSION_ID_KEY, RELAY_URL_KEY,
    SOURCE_TOKEN_KEY, STARTUP_TIMEOUT_MS_KEY,
};
use crate::manifest::{
    field_with_constraint, manifest_with_capability, manifest_with_requirement, new_audio_port,
    new_capability, new_field, new_manifest, new_node, new_readiness, new_requirement,
    new_schema, validate_manifest, CapabilityView, ConstraintView, Direction, Execution,
    FieldConstraint, FieldKind, FieldRequirement, FieldValue, FieldView, Layout, ManifestView,
    NeedView, NodeView, PortView, ReadinessView, RequirementView, Safety, SchemaView,
    MAX_FIELD_TEXT_BYTES, MAX_MANIFEST_TEXT_BYTES,
};
use crate::receipts::{
    ReceiptRegistry, RegistryView, RelayPublishReceipt, RelayPublishReceiptKey,
    RelayPublishResult,
};
use crate::relay_error::RelayFault;

verus! {

pub const RELAY_CONNECTOR_OPERATOR_ID: &'static str = "io.pocketstation.relay.publish.v1";

pub const RELAY_CONNECTOR_NODE_TYPE_ID: &'static str = "io.pocketstation.relay.publish.node.v1";

pub const PACKAGE_VERSION: &'static str = "0.1.4";

pub const DEFAULT_RECEIPT_CAPACITY: usize = 64;

/// How often Core asks whether the connector is ready, in milliseconds.
pub const READINESS_PROBE_MS: u64 = 100;

// The manifest.

pub open spec fn audio_port() -> PortView {
    PortView {
        name: "audio"@,
        direction: Direction::Input,
        sample_rate_hz: Some(48_000),
        frame_samples: None,
        layout: Layout::Any,
        many: true,
        required: true,
    }
}

pub open spec fn relay_node() -> NodeView {
    NodeView {
        type_id: RELAY_CONNECTOR_NODE_TYPE_ID@,
        display_name: "PocketStation Relay publisher"@,
        inputs: seq![audio_port()],
        outputs: Seq::empty(),
        execution: Execution::AsyncWorker,
        safety: Safety::NetworkAllowed,
        stateful: true,
    }
}

pub open spec fn non_empty_field(
    name: Seq<char>,
    kind: FieldKind,
    requirement: RequirementView,
    documentation: Seq<char>,
) -> FieldView {
    FieldView {
        name,
        kind,
        requirement,
        documentation,
        constraints: seq![ConstraintView::NonEmpty],
    }
}

pub open spec fn required_text_field(name: Seq<char>, documentation: Seq<char>) -> FieldView {
    non_empty_field(name, FieldKind::Text, RequirementView::Required, documentation)
}

pub open spec fn latency_field() -> FieldView {
    FieldView {
        name: LATENCY_PROFILE_KEY@,
        kind: FieldKind::Text,
        requirement: RequirementView::DefaultText("standard"@),
        documentation: "Bounded queue policy: standard preserves queued music; low favors freshness."@,
        constraints: seq![ConstraintView::OneOf(seq!["standard"@, "low"@])],
    }
}

pub open spec fn timeout_field() -> FieldView {
    FieldView {
        name: STARTUP_TIMEOUT_MS_KEY@,
        kind: FieldKind::DurationMilliseconds,
        requirement: RequirementView::DefaultDuration(DEFAULT_STARTUP_TIMEOUT_MS),
        documentation: "One finite deadline covering signaling, ICE and DTLS startup."@,
        constraints: seq![
            ConstraintView::UnsignedRange { minimum: 1, maximum: MAX_STARTUP_TIMEOUT_MS },
        ],
    }
}

/// The configuration of a relay route, field by field.
pub open spec fn relay_schema() -> SchemaView {
    SchemaView {
        revision: 1,
        fields: seq![
            required_text_field(
                RELAY_URL_KEY@,
                "Absolute PocketStation Relay HTTP or HTTPS origin."@,
            ),
            required_text_field(
                RELAY_SESSION_ID_KEY@,
                "Authoritative RelaySession identifier returned by the control plane."@,
            ),
            non_empty_field(
                SOURCE_TOKEN_KEY@,
                FieldKind::Secret,
                RequirementView::Required,
                "RelaySession source credential. This field is always redacted."@,
            ),
            required_text_field(BUS_ID_KEY@, "Named AudioBus published by this route."@),
            required_text_field(
                PUBLISHER_GROUP_ID_KEY@,
                "Session-scoped group whose AudioBuses share one lifecycle."@,
            ),
            latency_field(),
            non_empty_field(
                ICE_SERVERS_KEY@,
                FieldKind::Secret,
                RequirementView::Optional,
                "Bounded JSON projection of STUN servers. TURN credentials are rejected by connector version 0.1."@,
            ),
            timeout_field(),
        ],
    }
}

pub open spec fn relay_capabilities() -> Seq<CapabilityView> {
    seq![
        CapabilityView {
            id: "audio.pcm-f32-to-opus-rtp"@,
            documentation: "Consumes bounded 48 kHz interleaved f32 PCM and publishes Opus over RTP."@,
        },
        CapabilityView {
            id: "relay.grouped-audio-buses"@,
            documentation: "Publishes multiple named AudioBuses under one transactional connector lifecycle."@,
        },
    ]
}

pub open spec fn relay_requirements() -> Seq<NeedView> {
    seq![
        NeedView {
            id: "network.udp"@,
            required: true,
            documentation: "Requires UDP reachability to the selected Relay media plane."@,
        },
        NeedView {
            id: "network.turn-not-supported"@,
            required: false,
            documentation: "Connector version 0.1 does not allocate TURN relays; networks requiring TURN are unsupported."@,
        },
    ]
}

/// What the relay connector declares to Core.
pub open spec fn relay_manifest() -> ManifestView {
    ManifestView {
        manifest_revision: 1,
        operator_id: RELAY_CONNECTOR_OPERATOR_ID@,
        package_version: PACKAGE_VERSION@,
        node: relay_node(),
        configuration: relay_schema(),
        readiness: ReadinessView {
            startup_timeout_ns: 30_000_000_000,
            probe_interval_ns: 100_000_000,
            success_threshold: 1,
            failure_threshold: 3,
        },
        capabilities: relay_capabilities(),
        requirements: relay_requirements(),
    }
}

/// Why the connector cannot be built.
#[derive(Debug)]
pub enum RelayConnectorBuildError {
    GraphContract(String),
    Connector(ConnectorError),
    Configuration(ConnectorConfigurationError),
    Readiness(ConnectorReadinessPolicyError),
    Manifest(ConnectorManifestError),
}

/// A text of at most a thousand characters that begins with a mark says something, and is
/// short enough for a manifest.
proof fn lemma_short_text(text: Seq<char>)
    requires
        0 < text.len() <= 1000,
        !crate::text::white_space(text[0]),
    ensures
        crate::manifest::says_something(text, MAX_MANIFEST_TEXT_BYTES as nat),
        crate::manifest::says_something(text, MAX_FIELD_TEXT_BYTES as nat),
{
    crate::text::lemma_byte_len_bound(text);
}

fn required_text(name: &'static str, documentation: &'static str) -> (field:
    ConnectorConfigurationField)
    ensures
        crate::manifest::field_parts(field) == required_text_field(name@, documentation@),
{
    let field = field_with_constraint(
        new_field(name, FieldKind::Text, FieldRequirement::Required, documentation),
        FieldConstraint::NonEmpty,
    );
    assert(crate::manifest::field_parts(field) =~= required_text_field(name@, documentation@));
    field
}

fn secret_field(
    name: &'static str,
    requirement: FieldRequirement,
    documentation: &'static str,
) -> (field: ConnectorConfigurationField)
    ensures
        crate::manifest::field_parts(field) == non_empty_field(
            name@,
            FieldKind::Secret,
            requirement@,
            documentation@,
        ),
{
    let ghost wanted = requirement@;
    let field = field_with_constraint(
        new_field(name, FieldKind::Secret, requirement, documentation),
        FieldConstraint::NonEmpty,
    );
    assert(crate::manifest::field_parts(field) =~= non_empty_field(
        name@,
        FieldKind::Secret,
        wanted,
        documentation@,
    ));
    field
}

fn latency_profile_field() -> (field: ConnectorConfigurationField)
    ensures
        crate::manifest::field_parts(field) == latency_field(),
{
    let mut values: Vec<String> = Vec::new();
    values.push("standard".to_owned());
    values.push("low".to_owned());
    assert(crate::ice_server::string_views(values@) =~= seq!["standard"@, "low"@]);
    let field = field_with_constraint(
        new_field(
            LATENCY_PROFILE_KEY,
            FieldKind::Text,
            FieldRequirement::DefaultText("standard".to_owned()),
            "Bounded queue policy: standard preserves queued music; low favors freshness.",
        ),
        FieldConstraint::OneOf(values),
    );
    assert(crate::manifest::field_parts(field) =~= latency_field());
    field
}

fn startup_timeout_field() -> (field: ConnectorConfigurationField)
    ensures
        crate::manifest::field_parts(field) == timeout_field(),
{
    let field = field_with_constraint(
        new_field(
            STARTUP_TIMEOUT_MS_KEY,
            FieldKind::DurationMilliseconds,
            FieldRequirement::DefaultDuration(DEFAULT_STARTUP_TIMEOUT_MS),
            "One finite deadline covering signaling, ICE and DTLS startup.",
        ),
        FieldConstraint::UnsignedRange { minimum: 1, maximum: MAX_STARTUP_TIMEOUT_MS },
    );
    assert(crate::manifest::field_parts(field) =~= timeout_field());
    field
}

fn configuration_fields() -> (fields: Vec<ConnectorConfigurationField>)
    ensures
        crate::manifest::schema_view(1, fields@) == relay_schema(),
{
    let mut fields: Vec<ConnectorConfigurationField> = Vec::new();
    fields.push(
        required_text(RELAY_URL_KEY, "Absolute PocketStation Relay HTTP or HTTPS origin."),
    );
    fields.push(
        required_text(
            RELAY_SESSION_ID_KEY,
            "Authoritative RelaySession identifier returned by the control plane.",
        ),
    );
    fields.push(
        secret_field(
            SOURCE_TOKEN_KEY,
            FieldRequirement::Required,
            "RelaySession source credential. This field is always redacted.",
        ),
    );
    fields.push(required_text(BUS_ID_KEY, "Named AudioBus published by this route."));
    fields.push(
        required_text(
            PUBLISHER_GROUP_ID_KEY,
            "Session-scoped group whose AudioBuses share one lifecycle.",
        ),
    );
    fields.push(latency_profile_field());
    fields.push(
        secret_field(
            ICE_SERVERS_KEY,
            FieldRequirement::Optional,
            "Bounded JSON projection of STUN servers. TURN credentials are rejected by connector version 0.1.",
        ),
    );
    fields.push(startup_timeout_field());
    assert(crate::manifest::schema_view(1, fields@).fields =~= relay_schema().fields);
    fields
}

/// The fields are those that Core accepts in a schema.
pub proof fn relay_schema_is_valid()
    ensures
        crate::manifest::schema_is_valid(relay_schema()),
{
    let fields = relay_schema().fields;
    crate::configuration_laws::lemma_keys_differ();
    reveal_strlit("relay_url");
    reveal_strlit("relay_session_id");
    reveal_strlit("source_token");
    reveal_strlit("bus_id");
    reveal_strlit("publisher_group_id");
    reveal_strlit("latency_profile");
    reveal_strlit("ice_servers");
    reveal_strlit("startup_timeout_ms");
    reveal_strlit("Absolute PocketStation Relay HTTP or HTTPS origin.");
    reveal_strlit(
        "Authoritative RelaySession identifier returned by the control plane.",
    );
    reveal_strlit(
        "RelaySession source credential. This field is always redacted.",
    );
    reveal_strlit("Named AudioBus published by this route.");
    reveal_strlit("Session-scoped group whose AudioBuses share one lifecycle.");
    reveal_strlit(
        "Bounded queue policy: standard preserves queued music; low favors freshness.",
    );
    reveal_strlit(
        "Bounded JSON projection of STUN servers. TURN credentials are rejected by connector version 0.1.",
    );
    reveal_strlit(
        "One finite deadline covering signaling, ICE and DTLS startup.",
    );
    lemma_short_text(RELAY_URL_KEY@);
    lemma_short_text(RELAY_SESSION_ID_KEY@);
    lemma_short_text(SOURCE_TOKEN_KEY@);
    lemma_short_text(BUS_ID_KEY@);
    lemma_short_text(PUBLISHER_GROUP_ID_KEY@);
    lemma_short_text(LATENCY_PROFILE_KEY@);
    lemma_short_text(ICE_SERVERS_KEY@);
    lemma_short_text(STARTUP_TIMEOUT_MS_KEY@);
    lemma_short_text("Absolute PocketStation Relay HTTP or HTTPS origin."@);
    lemma_short_text(
        "Authoritative RelaySession identifier returned by the control plane."@,
    );
    lemma_short_text(
        "RelaySession source credential. This field is always redacted."@,
    );
    lemma_short_text("Named AudioBus published by this route."@);
    lemma_short_text(
        "Session-scoped group whose AudioBuses share one lifecycle."@,
    );
    lemma_short_text(
        "Bounded queue policy: standard preserves queued music; low favors freshness."@,
    );
    lemma_short_text(
        "Bounded JSON projection of STUN servers. TURN credentials are rejected by connector version 0.1."@,
    );
    lemma_short_text(
        "One finite deadline covering signaling, ICE and DTLS startup."@,
    );
    reveal_strlit("standard");
    reveal_strlit("low");
    lemma_short_text("standard"@);
    lemma_short_text("low"@);
    let profiles = seq!["standard"@, "low"@];
    assert(profiles[0].len() != profiles[1].len());
    assert(profiles.no_duplicates());
    assert(profiles.contains("standard"@)) by {
        assert(profiles[0] == "standard"@);
    }
    assert(crate::manifest::field_is_valid(latency_field()));
    assert(crate::manifest::field_is_valid(timeout_field()));
    assert forall|i: int| 0 <= i < fields.len() implies crate::manifest::field_is_valid(
        #[trigger] fields[i],
    ) by {}
    assert forall|i: int, j: int| 0 <= i < j < fields.len() implies (#[trigger] fields[i]).name != (
    #[trigger] fields[j]).name by {}
}

/// The manifest is one that Core accepts.
pub proof fn relay_manifest_is_valid()
    ensures
        crate::manifest::node_is_valid(relay_node()),
        crate::manifest::readiness_is_valid(relay_manifest().readiness),
        crate::manifest::manifest_is_valid(relay_manifest()),
{
    reveal_strlit("audio");
    reveal_strlit("PocketStation Relay publisher");
    reveal_strlit("io.pocketstation.relay.publish.v1");
    reveal_strlit("io.pocketstation.relay.publish.node.v1");
    reveal_strlit("0.1.4");
    reveal_strlit("audio.pcm-f32-to-opus-rtp");
    reveal_strlit("relay.grouped-audio-buses");
    reveal_strlit("network.udp");
    reveal_strlit("network.turn-not-supported");
    lemma_short_text("audio"@);
    lemma_short_text("PocketStation Relay publisher"@);
    lemma_short_text(RELAY_CONNECTOR_OPERATOR_ID@);
    lemma_short_text(RELAY_CONNECTOR_NODE_TYPE_ID@);
    lemma_short_text(PACKAGE_VERSION@);
    assert("audio.pcm-f32-to-opus-rtp"@[0] != "relay.grouped-audio-buses"@[0]);
    assert("network.udp"@.len() != "network.turn-not-supported"@.len());
}

/// Builds the versioned Relay connector manifest.
///
/// # Errors
///
/// Returns an error if its graph, configuration, readiness, or metadata contract is invalid,
/// which it never is.
pub fn relay_connector_manifest() -> (r: Result<ConnectorManifest, RelayConnectorBuildError>)
    ensures
        r is Ok,
        r matches Ok(manifest) ==> crate::manifest::manifest_parts(manifest) == relay_manifest(),
{
    proof {
        relay_schema_is_valid();
        relay_manifest_is_valid();
        lemma_entry_texts();
        reveal_strlit("audio");
        lemma_short_text("audio"@);
    }
    let input = match new_audio_port(
        "audio",
        Direction::Input,
        Some(48_000),
        None,
        Layout::Any,
        true,
        true,
    ) {
        Ok(port) => port,
        Err(error) => {
            return Err(RelayConnectorBuildError::GraphContract(error));
        },
    };
    let mut inputs: Vec<PortSpec> = Vec::new();
    inputs.push(input);
    let outputs: Vec<PortSpec> = Vec::new();
    assert(crate::manifest::port_views(inputs@) =~= relay_node().inputs);
    assert(crate::manifest::port_views(outputs@) =~= relay_node().outputs);
    let node = match new_node(
        RELAY_CONNECTOR_NODE_TYPE_ID,
        "PocketStation Relay publisher",
        inputs,
        outputs,
        Execution::AsyncWorker,
        Safety::NetworkAllowed,
        true,
    ) {
        Ok(node) => node,
        Err(error) => {
            return Err(RelayConnectorBuildError::GraphContract(error));
        },
    };
    let configuration = match new_schema(1, configuration_fields()) {
        Ok(schema) => schema,
        Err(error) => {
            return Err(RelayConnectorBuildError::Configuration(error));
        },
    };
    let readiness = match new_readiness(
        Duration::from_millis(DEFAULT_STARTUP_TIMEOUT_MS),
        Duration::from_millis(READINESS_PROBE_MS),
        1,
        3,
    ) {
        Ok(readiness) => readiness,
        Err(error) => {
            return Err(RelayConnectorBuildError::Readiness(error));
        },
    };
    let manifest = match new_manifest(
        1,
        RELAY_CONNECTOR_OPERATOR_ID,
        PACKAGE_VERSION,
        node,
        configuration,
        readiness,
    ) {
        Ok(manifest) => manifest,
        Err(error) => {
            return Err(RelayConnectorBuildError::Manifest(error));
        },
    };
    let manifest = match new_capability(
        "audio.pcm-f32-to-opus-rtp",
        "Consumes bounded 48 kHz interleaved f32 PCM and publishes Opus over RTP.",
    ) {
        Ok(capability) => manifest_with_capability(manifest, capability),
        Err(error) => {
            return Err(RelayConnectorBuildError::Manifest(error));
        },
    };
    let manifest = match new_capability(
        "relay.grouped-audio-buses",
        "Publishes multiple named AudioBuses under one transactional connector lifecycle.",
    ) {
        Ok(capability) => manifest_with_capability(manifest, capability),
        Err(error) => {
            return Err(RelayConnectorBuildError::Manifest(error));
        },
    };
    let manifest = match new_requirement(
        "network.udp",
        true,
        "Requires UDP reachability to the selected Relay media plane.",
    ) {
        Ok(requirement) => manifest_with_requirement(manifest, requirement),
        Err(error) => {
            return Err(RelayConnectorBuildError::Manifest(error));
        },
    };
    let manifest = match new_requirement(
        "network.turn-not-supported",
        false,
        "Connector version 0.1 does not allocate TURN relays; networks requiring TURN are unsupported.",
    ) {
        Ok(requirement) => manifest_with_requirement(manifest, requirement),
        Err(error) => {
            return Err(RelayConnectorBuildError::Manifest(error));
        },
    };
    assert(crate::manifest::manifest_parts(manifest).capabilities =~= relay_capabilities());
    assert(crate::manifest::manifest_parts(manifest).requirements =~= relay_requirements());
    assert(crate::manifest::manifest_parts(manifest) =~= relay_manifest());
    match validate_manifest(&manifest) {
        Ok(()) => Ok(manifest),
        Err(error) => Err(RelayConnectorBuildError::Manifest(error)),
    }
}

proof fn lemma_entry_texts()
    ensures
        forall|i: int|
            0 <= i < relay_capabilities().len() ==> crate::manifest::says_something(
                (#[trigger] relay_capabilities()[i]).id,
                MAX_MANIFEST_TEXT_BYTES as nat,
            ) && crate::manifest::says_something(
                relay_capabilities()[i].documentation,
                MAX_MANIFEST_TEXT_BYTES as nat,
            ),
        forall|i: int|
            0 <= i < relay_requirements().len() ==> crate::manifest::says_something(
                (#[trigger] relay_requirements()[i]).id,
                MAX_MANIFEST_TEXT_BYTES as nat,
            ) && crate::manifest::says_something(
                relay_requirements()[i].documentation,
                MAX_MANIFEST_TEXT_BYTES as nat,
            ),
{
    reveal_strlit("audio.pcm-f32-to-opus-rtp");
    lemma_short_text("audio.pcm-f32-to-opus-rtp"@);
    reveal_strlit(
        "Consumes bounded 48 kHz interleaved f32 PCM and publishes Opus over RTP.",
    );
    lemma_short_text(
        "Consumes bounded 48 kHz interleaved f32 PCM and publishes Opus over RTP."@,
    );
    reveal_strlit("relay.grouped-audio-buses");
    lemma_short_text("relay.grouped-audio-buses"@);
    reveal_strlit(
        "Publishes multiple named AudioBuses under one transactional connector lifecycle.",
    );
    lemma_short_text(
        "Publishes multiple named AudioBuses under one transactional connector lifecycle."@,
    );
    reveal_strlit("network.udp");
    lemma_short_text("network.udp"@);
    reveal_strlit("Requires UDP reachability to the selected Relay media plane.");
    lemma_short_text(
        "Requires UDP reachability to the selected Relay media plane."@,
    );
    reveal_strlit("network.turn-not-supported");
    lemma_short_text("network.turn-not-supported"@);
    reveal_strlit(
        "Connector version 0.1 does not allocate TURN relays; networks requiring TURN are unsupported.",
    );
    lemma_short_text(
        "Connector version 0.1 does not allocate TURN relays; networks requiring TURN are unsupported."@,
    );
}

// The connector.

/// Publishes the routes of a Session to a relay, and keeps the results for the caller.
pub struct RelayConnector {
    receipts: ReceiptRegistry,
}

impl View for RelayConnector {
    type V = RegistryView;

    closed spec fn view(&self) -> RegistryView {
        self.receipts@
    }
}

impl RelayConnector {
    /// The places of the results, by the numbers of their keys.
    pub closed spec fn places(&self) -> Map<u128, OnceLock<RelayPublishResult>> {
        self.receipts.places()
    }

    /// The receipts are within their bounds.
    pub closed spec fn wf(&self) -> bool {
        self.receipts.wf()
    }

    /// Creates a Relay connector with the default bounded receipt capacity.
    ///
    /// # Errors
    ///
    /// Returns an error if the built-in connector contract is invalid, which it never is.
    pub fn new() -> (r: Result<RelayConnector, RelayConnectorBuildError>)
        ensures
            r is Ok,
            r matches Ok(connector) ==> connector.wf() && connector@ == (RegistryView {
                receipts: Map::empty(),
                capacity: DEFAULT_RECEIPT_CAPACITY as nat,
            }),
    {
        RelayConnector::with_receipt_capacity(DEFAULT_RECEIPT_CAPACITY)
    }

    /// Creates a Relay connector with an explicit bounded receipt capacity.
    ///
    /// # Errors
    ///
    /// Returns an error when the capacity is zero.
    pub fn with_receipt_capacity(receipt_capacity: usize) -> (r: Result<
        RelayConnector,
        RelayConnectorBuildError,
    >)
        ensures
            r is Ok <==> receipt_capacity > 0,
            r matches Ok(connector) ==> connector.wf() && connector@ == (RegistryView {
                receipts: Map::empty(),
                capacity: receipt_capacity as nat,
            }),
            r matches Err(error) ==> (error matches RelayConnectorBuildError::Connector(report)
                && crate::boundary::error_parts(report) == crate::relay_error::fault_report(
                RelayFault::InvalidReceiptCapacity,
            )),
    {
        match ReceiptRegistry::new(receipt_capacity) {
            Ok(receipts) => Ok(RelayConnector { receipts }),
            Err(fault) => Err(RelayConnectorBuildError::Connector(fault.report())),
        }
    }

    /// The receipt of a publication.
    #[must_use]
    pub fn receipt(&self, key: RelayPublishReceiptKey) -> (r: Option<RelayPublishReceipt>)
        ensures
            r is Some <==> self@.receipts.contains_key(key@),
            r matches Some(receipt) ==> receipt@ == self.places()[key@] && receipt.key() == key@,
    {
        self.receipts.receipt(key)
    }

    /// Takes the result of a publication that has ended, and gives its receipt up.
    #[must_use]
    pub fn take_result(&mut self, key: RelayPublishReceiptKey) -> (r: Option<RelayPublishResult>)
        requires
            old(self).wf(),
        ensures
            final(self).wf(),
            r is Some <==> crate::receipts::has_result(old(self)@.receipts, key@),
            r matches Some(result) ==> old(self)@.receipts[key@] == Some(result@),
            final(self)@ == (RegistryView {
                receipts: if crate::receipts::has_result(old(self)@.receipts, key@) {
                    old(self)@.receipts.remove(key@)
                } else {
                    old(self)@.receipts
                },
                ..old(self)@
            }),
            final(self).places().submap_of(old(self).places()),
    {
        self.receipts.take_result(key)
    }

    /// The registry in which the publications of this connector are kept.
    pub fn receipts(&mut self) -> (registry: &mut ReceiptRegistry)
        requires
            old(self).wf(),
        ensures
            registry.wf(),
            registry@ == old(self)@,
            registry.places() == old(self).places(),
            final(self)@ == final(registry)@,
            final(self).places() == final(registry).places(),
            final(registry).wf() ==> final(self).wf(),
    {
        &mut self.receipts
    }
}

impl Default for RelayConnector {
    fn default() -> (connector: RelayConnector)
        ensures
            connector.wf(),
            connector@ == (RegistryView {
                receipts: Map::empty(),
                capacity: DEFAULT_RECEIPT_CAPACITY as nat,
            }),
    {
        RelayConnector::new().unwrap()
    }
}

// What holds of routes and the manifest.

pub open spec fn field_value(entry: ConfigurationEntry) -> FieldValue {
    match entry {
        ConfigurationEntry::Text(text) => FieldValue::Text(text),
        ConfigurationEntry::DurationMilliseconds(ms) => FieldValue::DurationMilliseconds(ms),
        ConfigurationEntry::Secret(text) => FieldValue::Secret(text),
    }
}

/// Whether an entry stands in one of the declared fields.
pub open spec fn declared(key: Seq<char>, entry: ConfigurationEntry) -> bool {
    exists|i: int|
        0 <= i < relay_schema().fields.len() && (#[trigger] relay_schema().fields[i]).name == key
            && crate::manifest::value_fits(relay_schema().fields[i], field_value(entry))
}

/// What a route hands to Core is what the manifest declares: every entry stands in a field
/// of its name and meets the field's constraints, and no required field is left out. Core
/// takes texts of at most 16384 bytes.
pub proof fn routes_fit_the_schema(route: RouteView)
    requires
        crate::configuration::route_entries(route) is Ok,
        crate::configuration::secret_fault(route.source_token) is None,
        crate::text::byte_len(route.relay_url) <= MAX_FIELD_TEXT_BYTES,
        crate::text::byte_len(route.relay_session_id) <= MAX_FIELD_TEXT_BYTES,
    ensures
        ({
            let entries = crate::configuration::route_entries(route)->Ok_0;
            &&& forall|key: Seq<char>| #[trigger]
                entries.contains_key(key) ==> declared(key, entries[key])
            &&& forall|i: int|
                0 <= i < relay_schema().fields.len() && (
                #[trigger] relay_schema().fields[i]).requirement is Required
                    ==> entries.contains_key(relay_schema().fields[i].name)
        }),
{
    let entries = crate::configuration::route_entries(route)->Ok_0;
    let fields = relay_schema().fields;
    crate::configuration_laws::lemma_keys_differ();
    reveal_strlit("standard");
    reveal_strlit("low");
    crate::text::lemma_byte_len_bound("standard"@);
    crate::text::lemma_byte_len_bound("low"@);
    let profiles = seq!["standard"@, "low"@];
    assert(profiles[0] == "standard"@ && profiles[1] == "low"@);
    assert(profiles.contains(crate::configuration::profile_name(route.latency_profile)));
    assert forall|key: Seq<char>| #[trigger] entries.contains_key(key) implies declared(
        key,
        entries[key],
    ) by {
        if key == RELAY_URL_KEY@ {
            assert(crate::manifest::value_fits(fields[0], field_value(entries[key])));
        } else if key == RELAY_SESSION_ID_KEY@ {
            assert(crate::manifest::value_fits(fields[1], field_value(entries[key])));
        } else if key == SOURCE_TOKEN_KEY@ {
            assert(crate::manifest::value_fits(fields[2], field_value(entries[key])));
        } else if key == BUS_ID_KEY@ {
            assert(crate::manifest::value_fits(fields[3], field_value(entries[key])));
        } else if key == PUBLISHER_GROUP_ID_KEY@ {
            assert(crate::manifest::value_fits(fields[4], field_value(entries[key])));
        } else if key == LATENCY_PROFILE_KEY@ {
            assert(crate::manifest::value_fits(fields[5], field_value(entries[key])));
        } else if key == ICE_SERVERS_KEY@ {
            assert(crate::manifest::value_fits(fields[6], field_value(entries[key])));
        } else {
            assert(key == STARTUP_TIMEOUT_MS_KEY@);
            assert(crate::manifest::value_fits(fields[7], field_value(entries[key])));
        }
    }
}

} // verus!
