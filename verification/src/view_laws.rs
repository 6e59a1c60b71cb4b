//! What lists of values hold, said of each place.
use vstd::prelude::*;

use crate::configuration::{RelayLatencyProfile, RelayRouteConfiguration};
use crate::ice_server::{RelayIceServer, WireIceServer};
use crate::manifest::{Direction, FieldKind, FieldValue, Layout, RequirementView};
use crate::outcomes::RelayTransportOutcome;
use crate::receipts::RelayPublishReceiptKey;
use crate::rtc::publisher::PublishLane;
use crate::rtc::sdp::Param;

verus! {

/// A list of routes holds each route in its place, and so do the lists of keys, outcomes and
/// lanes.
pub proof fn lists_hold_each_in_its_place(
    routes: Seq<RelayRouteConfiguration>,
    keys: Seq<RelayPublishReceiptKey>,
    outcomes: Seq<RelayTransportOutcome>,
    lanes: Seq<PublishLane>,
    i: int,
)
    ensures
        crate::runtime::route_views(routes).len() == routes.len(),
        0 <= i < routes.len() ==> crate::runtime::route_views(routes)[i] == routes[i]@,
        crate::receipts::key_views(keys).len() == keys.len(),
        0 <= i < keys.len() ==> crate::receipts::key_views(keys)[i] == keys[i]@,
        crate::outcomes::outcome_views(outcomes).len() == outcomes.len(),
        0 <= i < outcomes.len() ==> {
            &&& crate::outcomes::outcome_views(outcomes)[i].statistics == outcomes[i].statistics
            &&& crate::outcomes::outcome_views(outcomes)[i].edge_observations
                == outcomes[i].edge_observations
            &&& crate::outcomes::outcome_views(outcomes)[i].error is Some
                <==> outcomes[i].error is Some
            &&& outcomes[i].error is Some ==> crate::outcomes::outcome_views(outcomes)[i].error
                == Some(crate::boundary::error_parts(outcomes[i].error->0))
        },
        crate::rtc::publisher::lane_views(lanes).len() == lanes.len(),
        0 <= i < lanes.len() ==> {
            &&& crate::rtc::publisher::lane_views(lanes)[i].queue == lanes[i].queue@
            &&& crate::rtc::publisher::lane_views(lanes)[i].backlog_policy
                == lanes[i].backlog_policy
            &&& crate::rtc::publisher::lane_views(lanes)[i].counters == lanes[i].counters
        },
{
}

/// A list of texts holds each text in its place, and so do the lists of servers, parameters
/// and lines.
pub proof fn texts_stand_in_their_places(
    strings: Seq<String>,
    servers: Seq<RelayIceServer>,
    wire: Seq<WireIceServer>,
    params: Seq<Param>,
    lines: Seq<Vec<char>>,
    sections: Seq<Vec<Vec<char>>>,
    i: int,
)
    ensures
        crate::ice_server::string_views(strings).len() == strings.len(),
        0 <= i < strings.len() ==> crate::ice_server::string_views(strings)[i] == strings[i]@,
        crate::ice_server::server_views(servers).len() == servers.len(),
        0 <= i < servers.len() ==> crate::ice_server::server_views(servers)[i] == servers[i]@,
        crate::ice_server::wire_views(wire).len() == wire.len(),
        0 <= i < wire.len() ==> {
            &&& crate::ice_server::wire_views(wire)[i].urls == crate::ice_server::string_views(
                wire[i].urls@,
            )
            &&& crate::ice_server::wire_views(wire)[i].has_username <==> wire[i].username is Some
            &&& crate::ice_server::wire_views(wire)[i].has_credential
                <==> wire[i].credential is Some
        },
        crate::rtc::sdp::param_views(params).len() == params.len(),
        0 <= i < params.len() ==> crate::rtc::sdp::param_views(params)[i].key == params[i].key@
            && crate::rtc::sdp::param_views(params)[i].value == params[i].value@,
        crate::text::views(lines).len() == lines.len(),
        0 <= i < lines.len() ==> crate::text::views(lines)[i] == lines[i]@,
        crate::rtc::sdp::section_views(sections).len() == sections.len(),
        0 <= i < sections.len() ==> crate::rtc::sdp::section_views(sections)[i]
            == crate::text::views(sections[i]@),
{
}

/// The connector takes audio at 48 kHz in any layout and any number of inputs, at least one,
/// and gives none back.
pub proof fn the_connector_takes_audio()
    ensures
        crate::connector::relay_manifest().operator_id == "io.pocketstation.relay.publish.v1"@,
        crate::connector::relay_manifest().node.inputs.len() == 1,
        crate::connector::relay_manifest().node.outputs.len() == 0,
        ({
            let port = crate::connector::relay_manifest().node.inputs[0];
            &&& port.direction == Direction::Input
            &&& port.sample_rate_hz == Some(48_000u32)
            &&& port.frame_samples is None
            &&& port.layout == Layout::Any
            &&& port.many && port.required
        }),
{
}

/// Whether a setting has to be there.
pub open spec fn is_required(name: Seq<char>) -> bool {
    ||| name == "relay_url"@
    ||| name == "relay_session_id"@
    ||| name == "source_token"@
    ||| name == "bus_id"@
    ||| name == "publisher_group_id"@
}

/// The connector declares each setting of a route under the name by which routes are read:
/// those that have to be there as required, the token and the STUN servers as secrets, and
/// the others with the defaults that routes have without them.
pub proof fn the_connector_declares_every_setting(i: int)
    requires
        0 <= i < crate::connector::relay_manifest().configuration.fields.len(),
    ensures
        crate::connector::relay_manifest().configuration.fields.len() == 8,
        ({
            let field = crate::connector::relay_manifest().configuration.fields[i];
            &&& field.requirement is Required <==> is_required(field.name)
            &&& field.kind == FieldKind::Secret <==> field.name == "source_token"@ || field.name
                == "ice_servers"@
            &&& field.name == "ice_servers"@ ==> field.requirement is Optional
            &&& field.name == "latency_profile"@ ==> field.requirement
                == RequirementView::DefaultText("standard"@)
            &&& field.name == "startup_timeout_ms"@ ==> field.requirement
                == RequirementView::DefaultDuration(30_000)
            &&& is_required(field.name) || field.name == "latency_profile"@ || field.name
                == "ice_servers"@ || field.name == "startup_timeout_ms"@
        }),
{
    crate::configuration_laws::lemma_keys_differ();
}

/// What fits a setting is what a route takes under its name: one of the two latency profiles,
/// a deadline from 1 ms to 120 s, or a text that is not empty.
pub proof fn settings_take_what_routes_take(i: int, value: FieldValue)
    requires
        0 <= i < crate::connector::relay_manifest().configuration.fields.len(),
    ensures
        ({
            let field = crate::connector::relay_manifest().configuration.fields[i];
            crate::manifest::value_fits(field, value) <==> (match value {
                FieldValue::Text(text) => crate::text::byte_len(text)
                    <= crate::manifest::MAX_FIELD_TEXT_BYTES && if field.name
                    == "latency_profile"@ {
                    crate::configuration::profile_named(text) is Some
                } else {
                    field.kind == FieldKind::Text && text.len() > 0
                },
                FieldValue::DurationMilliseconds(ms) => field.name == "startup_timeout_ms"@ && 1
                    <= ms <= 120_000,
                FieldValue::Secret(text) => field.kind == FieldKind::Secret && text.len() > 0
                    && crate::text::byte_len(text) <= crate::manifest::MAX_FIELD_TEXT_BYTES,
            })
        }),
{
    crate::configuration_laws::lemma_keys_differ();
    crate::configuration::profile_names_round_trip(RelayLatencyProfile::Standard);
    crate::configuration::profile_names_round_trip(RelayLatencyProfile::Low);
    let field = crate::connector::relay_manifest().configuration.fields[i];
    assert(field.constraints.len() == 1);
    assert(crate::manifest::value_fits(field, value) ==> crate::manifest::meets(
        value,
        field.constraints[0],
    ));
    let names = seq!["standard"@, "low"@];
    assert(names[0] == "standard"@ && names[1] == "low"@);
    assert forall|text: Seq<char>| #[trigger] names.contains(text) implies
        crate::configuration::profile_named(text) is Some by {}
    assert(names.contains("standard"@) && names.contains("low"@));
}

/// The connector publishes Opus over RTP and groups of AudioBuses; it needs UDP and does not
/// allocate TURN relays. It is ready once it has said so, and has failed once it has failed
/// three times, asked ten times a second for half a minute.
pub proof fn the_connector_says_what_it_needs()
    ensures
        ({
            let manifest = crate::connector::relay_manifest();
            &&& manifest.manifest_revision == 1 && manifest.configuration.revision == 1
            &&& manifest.node.type_id == "io.pocketstation.relay.publish.node.v1"@
            &&& manifest.node.display_name == "PocketStation Relay publisher"@
            &&& manifest.node.stateful
            &&& manifest.capabilities.len() == 2
            &&& manifest.capabilities[0].id == "audio.pcm-f32-to-opus-rtp"@
            &&& manifest.capabilities[1].id == "relay.grouped-audio-buses"@
            &&& manifest.requirements.len() == 2
            &&& manifest.requirements[0].id == "network.udp"@ && manifest.requirements[0].required
            &&& manifest.requirements[1].id == "network.turn-not-supported"@
            &&& !manifest.requirements[1].required
            &&& manifest.readiness.success_threshold == 1
            &&& manifest.readiness.failure_threshold == 3
            &&& manifest.readiness.probe_interval_ns * 10 == 1_000_000_000
            &&& manifest.readiness.startup_timeout_ns == 30 * 1_000_000_000
        }),
{
}

} // verus!
