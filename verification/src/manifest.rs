//! Connector manifests, as PocketStation Core builds and checks them.
use pocketstation::connector::{
    ConnectorCapability, ConnectorConfigurationConstraint as CoreConstraint,
    ConnectorConfigurationError, ConnectorConfigurationField,
    ConnectorConfigurationRequirement as CoreRequirement, ConnectorConfigurationSchema,
    ConnectorConfigurationValue as CoreValue, ConnectorConfigurationValueKind, ConnectorManifest,
    ConnectorManifestError, ConnectorReadinessPolicy,
    ConnectorReadinessPolicyError, ConnectorRequirement,
};
use pocketstation::graph::{
    AudioCaps, ChannelLayout, ExecutionPartition, ExecutionSafety, MediaCaps, Multiplicity,
    NodeDescriptor, NodeTypeId, PortDirection, PortSpec, SignalSpec,
};
use pocketstation::{OperatorId, SampleFormat};
use std::time::Duration;
use vstd::prelude::*;

verus! {

/// The longest text of a manifest entry, in bytes.
pub const MAX_MANIFEST_TEXT_BYTES: usize = 4096;

/// The longest text of a configuration field, in bytes.
pub const MAX_FIELD_TEXT_BYTES: usize = 16384;

/// The most fields, constraints of a field, and allowed values of a constraint.
pub const MAX_FIELDS: usize = 128;

/// The most capabilities, and the most requirements, of a manifest.
pub const MAX_MANIFEST_ENTRIES: usize = 128;

/// A text that says something within a number of bytes.
pub open spec fn says_something(text: Seq<char>, max_bytes: nat) -> bool {
    !crate::text::blank(text) && crate::text::byte_len(text) <= max_bytes
}

// Ports.

#[derive(Debug, Clone, Copy, PartialEq, Eq, Structural)]
pub enum Direction {
    Input,
    Output,
}

#[derive(Debug, Clone, Copy, PartialEq, Eq, Structural)]
pub enum Layout {
    Mono,
    Stereo,
    Any,
}

/// What a port for interleaved `f32` audio declares.
#[verifier::ext_equal]
pub struct PortView {
    pub name: Seq<char>,
    pub direction: Direction,
    /// The sample rate that the port takes, or any.
    pub sample_rate_hz: Option<u32>,
    /// The frame length that the port takes, or any.
    pub frame_samples: Option<usize>,
    pub layout: Layout,
    pub many: bool,
    pub required: bool,
}

/// Core's declaration of a port.
#[verifier::external_type_specification]
#[verifier::external_body]
pub struct ExPortSpec(PortSpec);

/// What a port declares.
pub uninterp spec fn port_parts(port: PortSpec) -> PortView;

/// `PortSpec::new` for PCM audio in interleaved `f32` samples, which only asks for a name
/// that is not blank. The port declares what it was given. Of the text of an error
/// nothing is stated.
#[verifier::external_body]
pub(crate) fn new_audio_port(
    name: &str,
    direction: Direction,
    sample_rate_hz: Option<u32>,
    frame_samples: Option<usize>,
    layout: Layout,
    many: bool,
    required: bool,
) -> (r: Result<PortSpec, String>)
    ensures
        r is Ok == !crate::text::blank(name@),
        r is Ok ==> port_parts(r->Ok_0) == (PortView {
            name: name@,
            direction,
            sample_rate_hz,
            frame_samples,
            layout,
            many,
            required,
        }),
{
    let channel_layout = match layout {
        Layout::Mono => ChannelLayout::Mono,
        Layout::Stereo => ChannelLayout::Stereo,
        Layout::Any => ChannelLayout::Any,
    };
    let direction = match direction {
        Direction::Input => PortDirection::Input,
        Direction::Output => PortDirection::Output,
    };
    let multiplicity = if many { Multiplicity::Many } else { Multiplicity::One };
    let format = SampleFormat::F32Interleaved;
    let media = MediaCaps::Audio(AudioCaps { sample_rate_hz, frame_samples, channel_layout, format });
    PortSpec::new(name, direction, SignalSpec::audio(), media, multiplicity, required)
        .map_err(|error| error.to_string())
}

// Nodes.

/// Where a node runs.
#[derive(Debug, Clone, Copy, PartialEq, Eq, Structural)]
pub enum Execution {
    AsyncWorker,
    BlockingWorker,
}

/// What a node may do while it runs.
#[derive(Debug, Clone, Copy, PartialEq, Eq, Structural)]
pub enum Safety {
    NetworkAllowed,
    BlockingAllowed,
}

/// What a node declares.
#[verifier::ext_equal]
pub struct NodeView {
    pub type_id: Seq<char>,
    pub display_name: Seq<char>,
    pub inputs: Seq<PortView>,
    pub outputs: Seq<PortView>,
    pub execution: Execution,
    pub safety: Safety,
    pub stateful: bool,
}

/// Core's declaration of a node.
#[verifier::external_type_specification]
#[verifier::external_body]
pub struct ExNodeDescriptor(NodeDescriptor);

/// What a node declares.
pub uninterp spec fn node_parts(node: NodeDescriptor) -> NodeView;

pub open spec fn port_views(ports: Seq<PortSpec>) -> Seq<PortView> {
    ports.map_values(|port: PortSpec| port_parts(port))
}

pub open spec fn names_differ(ports: Seq<PortView>) -> bool {
    forall|i: int, j: int|
        0 <= i < j < ports.len() ==> (#[trigger] ports[i]).name != (#[trigger] ports[j]).name
}

/// A node has a type and a name, may do on its worker what it wants to, and has its ports
/// on the right sides under different names.
pub open spec fn node_is_valid(node: NodeView) -> bool {
    &&& !crate::text::blank(node.type_id)
    &&& !crate::text::blank(node.display_name)
    &&& node.execution is AsyncWorker <==> node.safety is NetworkAllowed
    &&& forall|i: int| 0 <= i < node.inputs.len() ==> (#[trigger] node.inputs[i]).direction is Input
    &&& forall|i: int|
        0 <= i < node.outputs.len() ==> (#[trigger] node.outputs[i]).direction is Output
    &&& names_differ(node.inputs)
    &&& names_differ(node.outputs)
}

pub open spec fn node_view(
    type_id: Seq<char>,
    display_name: Seq<char>,
    inputs: Seq<PortSpec>,
    outputs: Seq<PortSpec>,
    execution: Execution,
    safety: Safety,
    stateful: bool,
) -> NodeView {
    NodeView {
        type_id,
        display_name,
        inputs: port_views(inputs),
        outputs: port_views(outputs),
        execution,
        safety,
        stateful,
    }
}

/// `NodeDescriptor::new` accepts valid nodes, and the node declares what it was given. Of
/// the text of an error nothing is stated.
#[verifier::external_body]
pub(crate) fn new_node(
    type_id: &str,
    display_name: &'static str,
    inputs: Vec<PortSpec>,
    outputs: Vec<PortSpec>,
    execution: Execution,
    safety: Safety,
    stateful: bool,
) -> (r: Result<NodeDescriptor, String>)
    ensures
        r is Ok == node_is_valid(
            node_view(type_id@, display_name@, inputs@, outputs@, execution, safety, stateful),
        ),
        r is Ok ==> node_parts(r->Ok_0) == node_view(
            type_id@,
            display_name@,
            inputs@,
            outputs@,
            execution,
            safety,
            stateful,
        ),
{
    let execution = match execution {
        Execution::AsyncWorker => ExecutionPartition::AsyncWorker,
        Execution::BlockingWorker => ExecutionPartition::BlockingWorker,
    };
    let safety = match safety {
        Safety::NetworkAllowed => ExecutionSafety::NetworkAllowed,
        Safety::BlockingAllowed => ExecutionSafety::BlockingAllowed,
    };
    let type_id = NodeTypeId::from(type_id);
    NodeDescriptor::new(type_id, display_name, inputs, outputs, execution, safety, stateful)
        .map_err(|error| error.to_string())
}

// Configuration fields.

#[derive(Debug, Clone, Copy, PartialEq, Eq, Structural)]
pub enum FieldKind {
    Text,
    DurationMilliseconds,
    Secret,
}

/// Whether a field has to be there, or what stands in for it.
#[derive(Debug, Clone, PartialEq, Eq)]
pub enum FieldRequirement {
    Required,
    Optional,
    DefaultText(String),
    DefaultDuration(u64),
}

/// What the value of a field has to meet.
#[derive(Debug, Clone, PartialEq, Eq)]
pub enum FieldConstraint {
    NonEmpty,
    UnsignedRange { minimum: u64, maximum: u64 },
    OneOf(Vec<String>),
}

pub enum RequirementView {
    Required,
    Optional,
    DefaultText(Seq<char>),
    DefaultDuration(u64),
}

pub enum ConstraintView {
    NonEmpty,
    UnsignedRange { minimum: u64, maximum: u64 },
    OneOf(Seq<Seq<char>>),
}

impl View for FieldRequirement {
    type V = RequirementView;

    open spec fn view(&self) -> RequirementView {
        match *self {
            FieldRequirement::Required => RequirementView::Required,
            FieldRequirement::Optional => RequirementView::Optional,
            FieldRequirement::DefaultText(text) => RequirementView::DefaultText(text@),
            FieldRequirement::DefaultDuration(ms) => RequirementView::DefaultDuration(ms),
        }
    }
}

impl View for FieldConstraint {
    type V = ConstraintView;

    open spec fn view(&self) -> ConstraintView {
        match *self {
            FieldConstraint::NonEmpty => ConstraintView::NonEmpty,
            FieldConstraint::UnsignedRange { minimum, maximum } => {
                ConstraintView::UnsignedRange { minimum, maximum }
            },
            FieldConstraint::OneOf(values) => {
                ConstraintView::OneOf(crate::ice_server::string_views(values@))
            },
        }
    }
}

/// What a configuration field declares.
#[verifier::ext_equal]
pub struct FieldView {
    pub name: Seq<char>,
    pub kind: FieldKind,
    pub requirement: RequirementView,
    pub documentation: Seq<char>,
    pub constraints: Seq<ConstraintView>,
}

/// Core's declaration of a configuration field.
#[verifier::external_type_specification]
#[verifier::external_body]
pub struct ExConnectorConfigurationField(ConnectorConfigurationField);

/// What a configuration field declares.
pub uninterp spec fn field_parts(field: ConnectorConfigurationField) -> FieldView;

pub open spec fn no_constraints() -> Seq<ConstraintView> {
    Seq::empty()
}

/// `ConnectorConfigurationField::new` makes a field without constraints, which declares
/// what it was given.
#[verifier::external_body]
pub(crate) fn new_field(
    name: &str,
    kind: FieldKind,
    requirement: FieldRequirement,
    documentation: &str,
) -> (field: ConnectorConfigurationField)
    ensures
        field_parts(field) == (FieldView {
            name: name@,
            kind,
            requirement: requirement@,
            documentation: documentation@,
            constraints: no_constraints(),
        }),
{
    let kind = match kind {
        FieldKind::Text => ConnectorConfigurationValueKind::Text,
        FieldKind::DurationMilliseconds => ConnectorConfigurationValueKind::DurationMilliseconds,
        FieldKind::Secret => ConnectorConfigurationValueKind::Secret,
    };
    let requirement = match requirement {
        FieldRequirement::Required => CoreRequirement::Required,
        FieldRequirement::Optional => CoreRequirement::Optional,
        FieldRequirement::DefaultText(text) => CoreRequirement::Default(CoreValue::Text(text)),
        FieldRequirement::DefaultDuration(ms) => {
            CoreRequirement::Default(CoreValue::DurationMilliseconds(ms))
        },
    };
    ConnectorConfigurationField::new(name, kind, requirement, documentation)
}

pub open spec fn with_one_more(field: FieldView, constraint: ConstraintView) -> FieldView {
    FieldView { constraints: field.constraints.push(constraint), ..field }
}

/// `ConnectorConfigurationField::with_constraint` adds a constraint and keeps the rest.
#[verifier::external_body]
pub(crate) fn field_with_constraint(
    field: ConnectorConfigurationField,
    constraint: FieldConstraint,
) -> (r: ConnectorConfigurationField)
    ensures
        field_parts(r) == with_one_more(field_parts(field), constraint@),
{
    field.with_constraint(
        match constraint {
            FieldConstraint::NonEmpty => CoreConstraint::NonEmpty,
            FieldConstraint::UnsignedRange { minimum, maximum } => {
                CoreConstraint::UnsignedRange { minimum, maximum }
            },
            FieldConstraint::OneOf(values) => CoreConstraint::OneOf(values),
        },
    )
}

// Schemas.

/// A value that a field may have.
pub enum FieldValue {
    Text(Seq<char>),
    DurationMilliseconds(u64),
    Secret(Seq<char>),
}

pub open spec fn kind_of(value: FieldValue) -> FieldKind {
    match value {
        FieldValue::Text(_) => FieldKind::Text,
        FieldValue::DurationMilliseconds(_) => FieldKind::DurationMilliseconds,
        FieldValue::Secret(_) => FieldKind::Secret,
    }
}

/// Whether a value meets a constraint.
pub open spec fn meets(value: FieldValue, constraint: ConstraintView) -> bool {
    match (constraint, value) {
        (ConstraintView::NonEmpty, FieldValue::Text(text)) => text.len() > 0,
        (ConstraintView::NonEmpty, FieldValue::Secret(text)) => text.len() > 0,
        (
            ConstraintView::UnsignedRange { minimum, maximum },
            FieldValue::DurationMilliseconds(ms),
        ) => minimum <= ms <= maximum,
        (ConstraintView::OneOf(values), FieldValue::Text(text)) => values.contains(text),
        _ => false,
    }
}

/// Whether a value may stand in a field: it is of the field's kind, is not too long, and
/// meets the field's constraints.
pub open spec fn value_fits(field: FieldView, value: FieldValue) -> bool {
    &&& kind_of(value) == field.kind
    &&& value matches FieldValue::Text(text) ==> crate::text::byte_len(text)
        <= MAX_FIELD_TEXT_BYTES
    &&& value matches FieldValue::Secret(text) ==> crate::text::byte_len(text)
        <= MAX_FIELD_TEXT_BYTES
    &&& forall|i: int|
        0 <= i < field.constraints.len() ==> meets(value, #[trigger] field.constraints[i])
}

/// Whether a constraint makes sense for a kind of value.
pub open spec fn constraint_fits(constraint: ConstraintView, kind: FieldKind) -> bool {
    match constraint {
        ConstraintView::NonEmpty => kind is Text || kind is Secret,
        ConstraintView::UnsignedRange { minimum, maximum } => kind is DurationMilliseconds
            && minimum <= maximum,
        ConstraintView::OneOf(values) => {
            &&& kind is Text
            &&& 0 < values.len() <= MAX_FIELDS
            &&& values.no_duplicates()
            &&& forall|i: int|
                0 <= i < values.len() ==> (#[trigger] values[i]).len() > 0
                    && crate::text::byte_len(values[i]) <= MAX_FIELD_TEXT_BYTES
        },
    }
}

/// A field has a name and a documentation, its default may stand in it, and its constraints
/// make sense.
pub open spec fn field_is_valid(field: FieldView) -> bool {
    &&& says_something(field.name, MAX_FIELD_TEXT_BYTES as nat)
    &&& says_something(field.documentation, MAX_FIELD_TEXT_BYTES as nat)
    &&& field.constraints.len() <= MAX_FIELDS
    &&& field.requirement matches RequirementView::DefaultText(text) ==> value_fits(
        field,
        FieldValue::Text(text),
    )
    &&& field.requirement matches RequirementView::DefaultDuration(ms) ==> value_fits(
        field,
        FieldValue::DurationMilliseconds(ms),
    )
    &&& forall|i: int|
        0 <= i < field.constraints.len() ==> constraint_fits(
            #[trigger] field.constraints[i],
            field.kind,
        )
}

/// What a configuration schema declares.
#[verifier::ext_equal]
pub struct SchemaView {
    pub revision: u32,
    pub fields: Seq<FieldView>,
}

/// A schema has a revision and valid fields under different names.
pub open spec fn schema_is_valid(schema: SchemaView) -> bool {
    &&& schema.revision > 0
    &&& schema.fields.len() <= MAX_FIELDS
    &&& forall|i: int| 0 <= i < schema.fields.len() ==> field_is_valid(#[trigger] schema.fields[i])
    &&& forall|i: int, j: int|
        0 <= i < j < schema.fields.len() ==> (#[trigger] schema.fields[i]).name != (
        #[trigger] schema.fields[j]).name
}

/// Core's declaration of a configuration schema.
#[verifier::external_type_specification]
#[verifier::external_body]
pub struct ExConnectorConfigurationSchema(ConnectorConfigurationSchema);

/// What a configuration schema declares.
pub uninterp spec fn schema_parts(schema: ConnectorConfigurationSchema) -> SchemaView;

pub open spec fn schema_view(
    revision: u32,
    fields: Seq<ConnectorConfigurationField>,
) -> SchemaView {
    SchemaView {
        revision,
        fields: fields.map_values(|field: ConnectorConfigurationField| field_parts(field)),
    }
}

/// `ConnectorConfigurationSchema::new` accepts valid schemas of fields with these kinds,
/// requirements and constraints, and the schema declares what it was given.
#[verifier::external_body]
pub(crate) fn new_schema(revision: u32, fields: Vec<ConnectorConfigurationField>) -> (r: Result<
    ConnectorConfigurationSchema,
    ConnectorConfigurationError,
>)
    ensures
        r is Ok == schema_is_valid(schema_view(revision, fields@)),
        r is Ok ==> schema_parts(r->Ok_0) == schema_view(revision, fields@),
{
    ConnectorConfigurationSchema::new(revision, fields)
}

// Readiness.

/// How a connector shows that it is ready.
pub struct ReadinessView {
    pub startup_timeout_ns: nat,
    pub probe_interval_ns: nat,
    pub success_threshold: u32,
    pub failure_threshold: u32,
}

/// Deadlines are not zero, startup takes at most a day, a probe is not later than startup,
/// and thresholds lie between one and a million.
pub open spec fn readiness_is_valid(readiness: ReadinessView) -> bool {
    &&& 0 < readiness.startup_timeout_ns <= 86_400_000_000_000
    &&& 0 < readiness.probe_interval_ns <= readiness.startup_timeout_ns
    &&& 0 < readiness.success_threshold <= 1_000_000
    &&& 0 < readiness.failure_threshold <= 1_000_000
}

pub open spec fn readiness_view(
    startup_timeout: Duration,
    probe_interval: Duration,
    success_threshold: u32,
    failure_threshold: u32,
) -> ReadinessView {
    ReadinessView {
        startup_timeout_ns: crate::boundary::duration_nanos(startup_timeout),
        probe_interval_ns: crate::boundary::duration_nanos(probe_interval),
        success_threshold,
        failure_threshold,
    }
}

/// Core's readiness policy.
#[verifier::external_type_specification]
#[verifier::external_body]
pub struct ExConnectorReadinessPolicy(ConnectorReadinessPolicy);

/// Core's report of a readiness policy that is not finite.
#[verifier::external_type_specification]
#[verifier::external_body]
pub struct ExConnectorReadinessPolicyError(ConnectorReadinessPolicyError);

/// What a readiness policy declares.
pub uninterp spec fn readiness_parts(policy: ConnectorReadinessPolicy) -> ReadinessView;

/// `ConnectorReadinessPolicy::new` accepts valid policies, and the policy declares what it
/// was given.
#[verifier::external_body]
pub(crate) fn new_readiness(
    startup_timeout: Duration,
    probe_interval: Duration,
    success_threshold: u32,
    failure_threshold: u32,
) -> (r: Result<ConnectorReadinessPolicy, ConnectorReadinessPolicyError>)
    ensures
        r is Ok == readiness_is_valid(
            readiness_view(startup_timeout, probe_interval, success_threshold, failure_threshold),
        ),
        r is Ok ==> readiness_parts(r->Ok_0) == readiness_view(
            startup_timeout,
            probe_interval,
            success_threshold,
            failure_threshold,
        ),
{
    ConnectorReadinessPolicy::new(
        startup_timeout,
        probe_interval,
        success_threshold,
        failure_threshold,
    )
}

// Manifests.

/// A capability: what a connector can do.
#[verifier::ext_equal]
pub struct CapabilityView {
    pub id: Seq<char>,
    pub documentation: Seq<char>,
}

/// A requirement: what a connector needs, or what it has to do without.
#[verifier::ext_equal]
pub struct NeedView {
    pub id: Seq<char>,
    pub required: bool,
    pub documentation: Seq<char>,
}

/// What a manifest declares.
#[verifier::ext_equal]
pub struct ManifestView {
    pub manifest_revision: u32,
    pub operator_id: Seq<char>,
    pub package_version: Seq<char>,
    pub node: NodeView,
    pub configuration: SchemaView,
    pub readiness: ReadinessView,
    pub capabilities: Seq<CapabilityView>,
    pub requirements: Seq<NeedView>,
}

/// Core's declaration of a capability.
#[verifier::external_type_specification]
#[verifier::external_body]
pub struct ExConnectorCapability(ConnectorCapability);

/// Core's declaration of a requirement.
#[verifier::external_type_specification]
#[verifier::external_body]
pub struct ExConnectorRequirement(ConnectorRequirement);

/// Core's manifest of a connector.
#[verifier::external_type_specification]
#[verifier::external_body]
pub struct ExConnectorManifest(ConnectorManifest);

/// Core's report of a manifest that cannot be used.
#[verifier::external_type_specification]
#[verifier::external_body]
pub struct ExConnectorManifestError(ConnectorManifestError);

/// What a capability declares.
pub uninterp spec fn capability_parts(capability: ConnectorCapability) -> CapabilityView;

/// What a requirement declares.
pub uninterp spec fn need_parts(requirement: ConnectorRequirement) -> NeedView;

/// What a manifest declares.
pub uninterp spec fn manifest_parts(manifest: ConnectorManifest) -> ManifestView;

/// `ConnectorCapability::new` asks for an identifier and a documentation of at most 4096
/// bytes each that are not blank, and declares them.
#[verifier::external_body]
pub(crate) fn new_capability(id: &str, documentation: &str) -> (r: Result<
    ConnectorCapability,
    ConnectorManifestError,
>)
    ensures
        r is Ok == (says_something(id@, MAX_MANIFEST_TEXT_BYTES as nat) && says_something(
            documentation@,
            MAX_MANIFEST_TEXT_BYTES as nat,
        )),
        r is Ok ==> capability_parts(r->Ok_0) == (CapabilityView {
            id: id@,
            documentation: documentation@,
        }),
{
    ConnectorCapability::new(id, documentation)
}

/// `ConnectorRequirement::new` asks for an identifier and a documentation of at most 4096
/// bytes each that are not blank, and declares them.
#[verifier::external_body]
pub(crate) fn new_requirement(id: &str, required: bool, documentation: &str) -> (r: Result<
    ConnectorRequirement,
    ConnectorManifestError,
>)
    ensures
        r is Ok == (says_something(id@, MAX_MANIFEST_TEXT_BYTES as nat) && says_something(
            documentation@,
            MAX_MANIFEST_TEXT_BYTES as nat,
        )),
        r is Ok ==> need_parts(r->Ok_0) == (NeedView {
            id: id@,
            required,
            documentation: documentation@,
        }),
{
    ConnectorRequirement::new(id, required, documentation)
}

/// A manifest has a revision, an operator and a version, a node that only takes input, and
/// not too many entries under different identifiers.
pub open spec fn manifest_is_valid(manifest: ManifestView) -> bool {
    &&& manifest.manifest_revision > 0
    &&& !crate::text::blank(manifest.operator_id)
    &&& says_something(manifest.package_version, MAX_MANIFEST_TEXT_BYTES as nat)
    &&& manifest.node.inputs.len() > 0
    &&& manifest.node.outputs.len() == 0
    &&& manifest.capabilities.len() <= MAX_MANIFEST_ENTRIES
    &&& manifest.requirements.len() <= MAX_MANIFEST_ENTRIES
    &&& forall|i: int, j: int|
        0 <= i < j < manifest.capabilities.len() ==> (#[trigger] manifest.capabilities[i]).id != (
        #[trigger] manifest.capabilities[j]).id
    &&& forall|i: int, j: int|
        0 <= i < j < manifest.requirements.len() ==> (#[trigger] manifest.requirements[i]).id != (
        #[trigger] manifest.requirements[j]).id
}

pub open spec fn bare_manifest(
    manifest_revision: u32,
    operator_id: Seq<char>,
    package_version: Seq<char>,
    node: NodeDescriptor,
    configuration: ConnectorConfigurationSchema,
    readiness: ConnectorReadinessPolicy,
) -> ManifestView {
    ManifestView {
        manifest_revision,
        operator_id,
        package_version,
        node: node_parts(node),
        configuration: schema_parts(configuration),
        readiness: readiness_parts(readiness),
        capabilities: Seq::empty(),
        requirements: Seq::empty(),
    }
}

/// `ConnectorManifest::new` makes a manifest without entries, if it is valid so far. Of
/// the places where a node may run, Core refuses none of those in `Execution`.
#[verifier::external_body]
pub(crate) fn new_manifest(
    manifest_revision: u32,
    operator_id: &str,
    package_version: &str,
    node: NodeDescriptor,
    configuration: ConnectorConfigurationSchema,
    readiness: ConnectorReadinessPolicy,
) -> (r: Result<ConnectorManifest, ConnectorManifestError>)
    ensures
        r is Ok == manifest_is_valid(
            bare_manifest(
                manifest_revision,
                operator_id@,
                package_version@,
                node,
                configuration,
                readiness,
            ),
        ),
        r is Ok ==> manifest_parts(r->Ok_0) == bare_manifest(
            manifest_revision,
            operator_id@,
            package_version@,
            node,
            configuration,
            readiness,
        ),
{
    ConnectorManifest::new(
        manifest_revision,
        OperatorId::new(operator_id),
        package_version,
        node,
        configuration,
        readiness,
    )
}

pub open spec fn with_capability_view(
    manifest: ManifestView,
    capability: CapabilityView,
) -> ManifestView {
    ManifestView { capabilities: manifest.capabilities.push(capability), ..manifest }
}

pub open spec fn with_requirement_view(manifest: ManifestView, need: NeedView) -> ManifestView {
    ManifestView { requirements: manifest.requirements.push(need), ..manifest }
}

/// `ConnectorManifest::with_capability` adds a capability and keeps the rest.
#[verifier::external_body]
pub(crate) fn manifest_with_capability(
    manifest: ConnectorManifest,
    capability: ConnectorCapability,
) -> (r: ConnectorManifest)
    ensures
        manifest_parts(r) == with_capability_view(
            manifest_parts(manifest),
            capability_parts(capability),
        ),
{
    manifest.with_capability(capability)
}

/// `ConnectorManifest::with_requirement` adds a requirement and keeps the rest.
#[verifier::external_body]
pub(crate) fn manifest_with_requirement(
    manifest: ConnectorManifest,
    requirement: ConnectorRequirement,
) -> (r: ConnectorManifest)
    ensures
        manifest_parts(r) == with_requirement_view(
            manifest_parts(manifest),
            need_parts(requirement),
        ),
{
    manifest.with_requirement(requirement)
}

/// `ConnectorManifest::validate` accepts valid manifests.
#[verifier::external_body]
pub(crate) fn validate_manifest(manifest: &ConnectorManifest) -> (r: Result<
    (),
    ConnectorManifestError,
>)
    ensures
        r is Ok == manifest_is_valid(manifest_parts(*manifest)),
{
    manifest.validate()
}

} // verus!
