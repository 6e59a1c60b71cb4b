//! What callers can rely on of single answers.
use pocketstation::connector::ConnectorError;
use pocketstation::EdgeObservations;
use std::time::Duration;
use vstd::prelude::*;

use crate::audio::latency_profile::LatencyProfile;
use crate::audio::opus_worker::{EncodedDeliveryPolicy, EncoderCounters};
use crate::configuration::{RelayLatencyProfile, RelayRouteConfiguration};
use crate::configuration_error::RelayConfigurationError;
use crate::frame_publisher::{check_publication_counts, validate_bus};
use crate::outcomes::{
    mismatched_outcomes, route_reports, transport_outcomes, RelayTransportOutcome, RouteReport,
};
use crate::receipts::RelayPublishStatistics;
use crate::relay_error::RelayFault;
use crate::rtc::address::{
    candidate_host, prefer_ipv4, reflexive_candidate, HostAddress, SocketAddress,
};
use crate::rtc::handshake::{
    check_media, handshake_timeout_message, offer_text, publish_request, PublishMedia,
};
use crate::rtc::network::resolution_budget;
use crate::rtc::publish_loop::{level_extension, ping_is_due};
use crate::rtc::publisher::{PublishStats, PublisherBacklogPolicy};
use crate::rtc::signaling::PublishMsg;
use crate::rtc::stun::{parse_binding_response, stun_wait};
use crate::rtc::stun_laws::Attribute;
use crate::runtime::{
    dropped_frames, feed_step, plan_streams, preparation_group, FeedStep, RelayStreamProfile,
    RouteAudio, StreamPlan,
};

verus! {

/// A STUN server is waited for as long as there is time, but for no more than two seconds.
pub proof fn stun_servers_are_waited_for(remaining: Duration, wait: Duration)
    requires
        call_ensures(stun_wait, (remaining,), wait),
    ensures
        ({
            let left = crate::boundary::duration_nanos(remaining);
            let ns = crate::boundary::duration_nanos(wait);
            ns <= left && ns <= 2_000_000_000 && (ns == left || ns == 2_000_000_000)
        }),
{
}

/// The relay is sent a sign of life after 45 seconds without one, and not before.
pub proof fn signs_of_life_are_sent_in_time(since_last_ping: Duration, due: bool)
    requires
        call_ensures(ping_is_due, (since_last_ping,), due),
    ensures
        due <==> crate::boundary::duration_nanos(since_last_ping) >= 45 * 1_000_000_000,
{
}

/// A level is sent with its sign turned, and a level under forty counts as voice.
pub proof fn levels_are_sent_with_their_sign_turned(
    audio_level: Option<i8>,
    r: Option<(i8, bool)>,
)
    requires
        call_ensures(level_extension, (audio_level,), r),
    ensures
        r is Some <==> audio_level is Some,
        r matches Some((turned, voice)) ==> (audio_level->0 > i8::MIN ==> turned + audio_level->0
            == 0) && (voice <==> audio_level->0 < 40),
{
}

/// A candidate names the address that the probe found, or that of the relay where the probe
/// found none. An address that the server sees is a candidate of its own unless it is the
/// local one.
pub proof fn candidates_name_an_address(
    probed: HostAddress,
    relay: HostAddress,
    host: HostAddress,
    local: SocketAddress,
    reflexive: Option<SocketAddress>,
    r: Option<SocketAddress>,
)
    requires
        call_ensures(candidate_host, (probed, relay), host),
        call_ensures(reflexive_candidate, (local, reflexive), r),
    ensures
        host == probed || host == relay,
        host == relay || probed != HostAddress::V4(0) && probed != HostAddress::V6(0),
        probed != HostAddress::V4(0) && probed != HostAddress::V6(0) ==> host == probed,
        r != Some(local),
        reflexive != Some(local) ==> r == reflexive,
{
}

/// Of several addresses the first of IPv4 is taken, and the first of all where there is none.
pub proof fn the_first_ipv4_address_is_taken(
    addresses: Vec<SocketAddress>,
    r: Option<SocketAddress>,
    k: int,
)
    requires
        call_ensures(prefer_ipv4, (&addresses,), r),
        0 <= k < addresses@.len(),
        forall|j: int| 0 <= j < k ==> (#[trigger] addresses@[j]).host is V6,
    ensures
        addresses@[k].host is V4 ==> r == Some(addresses@[k]),
        (forall|j: int| 0 <= j < addresses@.len() ==> (#[trigger] addresses@[j]).host is V6) ==> r
            == Some(addresses@[0]),
{
    let i = choose|i: int|
        #[trigger] crate::rtc::address::preferred(addresses@, i) && Some(addresses@[i]) == r;
    if addresses@[k].host is V4 && i != k {
        if i < k {
            assert(addresses@[i].host is V6);
        }
    }
}

/// A feeder that is told to stop stops. Otherwise it forwards what it has received, and stops
/// only when there is nothing left and Core shuts down.
pub proof fn feeders_forward_what_they_receive(
    told_to_stop: bool,
    received: bool,
    shutting_down: bool,
    step: FeedStep,
)
    requires
        call_ensures(feed_step, (told_to_stop, received, shutting_down), step),
    ensures
        step == FeedStep::Forward <==> received && !told_to_stop,
        step == FeedStep::Wait <==> !received && !told_to_stop && !shutting_down,
        step == FeedStep::Stop <==> told_to_stop || shutting_down && !received,
{
}

/// The frames that were lost are those lost before the encoder, at its queue and at the
/// publisher, and those that the edge lost.
pub proof fn lost_frames_are_added_up(
    edge_frames_dropped: u64,
    statistics: RelayPublishStatistics,
    total: u64,
)
    requires
        call_ensures(dropped_frames, (edge_frames_dropped, &statistics), total),
    ensures
        ({
            let lost = edge_frames_dropped + statistics.ingress_queue_drops_total
                + statistics.encoder_channel_drops_total + statistics.publisher_stale_drops_total;
            total <= lost && (total == lost || total == u64::MAX)
        }),
{
}

/// A publication needs as many media as streams and as receivers, and a handshake at least
/// one medium.
pub proof fn publications_match_their_media(
    media: usize,
    streams: usize,
    receivers: usize,
    r: Result<(), String>,
    offered: Vec<PublishMedia>,
    checked: Result<(), String>,
)
    requires
        call_ensures(check_publication_counts, (media, streams, receivers), r),
        call_ensures(check_media, (&offered,), checked),
    ensures
        r is Ok <==> media == streams && streams == receivers,
        checked is Err <==> offered@.len() == 0,
{
}

/// A request to publish asks for the room with the token and the offer, and binds each medium
/// to the AudioBus of its own name, in order.
pub proof fn requests_bind_each_medium(
    room_id: &str,
    token: &str,
    sdp_offer: &str,
    media: Vec<PublishMedia>,
    msg: PublishMsg,
    i: int,
)
    requires
        call_ensures(publish_request, (room_id, token, sdp_offer, &media), msg),
        0 <= i < media@.len(),
    ensures
        msg.msg_type@ == "PUBLISH"@,
        msg.room_id@ == room_id@,
        msg.token@ == token@,
        msg.sdp_offer@ == sdp_offer@,
        msg.bus_id is None,
        msg.publish_buses@.len() == media@.len(),
        msg.publish_buses@[i].stream_id@ == media@[i].stream_id@,
        msg.publish_buses@[i].bus_id@ == media@[i].stream_id@,
{
    assert(crate::rtc::handshake::bound_to_itself(msg.publish_buses@[i], media@[i]));
}

/// A name is resolved while there is time left, within that time.
pub proof fn names_are_resolved_in_time(remaining: Option<Duration>, r: Result<Duration, String>)
    requires
        call_ensures(resolution_budget, (remaining,), r),
    ensures
        r is Err <==> remaining is None,
        r matches Ok(budget) ==> remaining == Some(budget),
{
}

/// A handshake that takes too long names the deadline that was configured.
pub proof fn late_handshakes_name_their_deadline(startup_timeout_ms: u64, message: String)
    requires
        call_ensures(handshake_timeout_message, (startup_timeout_ms,), message),
    ensures
        message@ == "ICE/DTLS handshake exceeded the configured "@ + crate::numeral::decimal(
            startup_timeout_ms as nat,
        ) + " ms startup deadline"@,
{
}

/// Low latency has short queues and drops what is late; standard latency has long queues and
/// keeps everything. A stream has the latency of its route.
pub proof fn latency_decides_queues(
    profile: LatencyProfile,
    capture: usize,
    encoded: usize,
    delivery: EncodedDeliveryPolicy,
    backlog: PublisherBacklogPolicy,
    chosen: RelayLatencyProfile,
    for_route: LatencyProfile,
)
    requires
        call_ensures(LatencyProfile::capture_channel_depth, (profile,), capture),
        call_ensures(LatencyProfile::encoded_channel_depth, (profile,), encoded),
        call_ensures(EncodedDeliveryPolicy::for_latency_profile, (profile,), delivery),
        call_ensures(PublisherBacklogPolicy::for_latency_profile, (profile,), backlog),
        call_ensures(LatencyProfile::for_route, (chosen,), for_route),
    ensures
        profile == LatencyProfile::Low ==> capture == 2 && encoded == 2 && delivery
            == EncodedDeliveryPolicy::DropNewest && backlog == PublisherBacklogPolicy::DropStale,
        profile == LatencyProfile::Standard ==> capture == 16 && encoded == 8 && delivery
            == EncodedDeliveryPolicy::PreserveWithBackpressure && backlog
            == PublisherBacklogPolicy::Preserve,
        for_route == LatencyProfile::Low <==> chosen == RelayLatencyProfile::Low,
{
}

/// A stream has two channels where it is stereo, and one otherwise.
pub proof fn stereo_has_two_channels(profile: RelayStreamProfile, stereo: bool, channels: u8)
    requires
        call_ensures(RelayStreamProfile::is_stereo, (profile,), stereo),
        call_ensures(RelayStreamProfile::channels, (profile,), channels),
    ensures
        stereo <==> profile == RelayStreamProfile::MusicStereo20ms,
        channels == (if stereo {
            2int
        } else {
            1int
        }),
{
}

/// Each outcome is that of its own report and its own edge. Where there are not as many
/// streams as edges, each edge learns of it, and nothing was sent.
pub proof fn outcomes_belong_to_their_edges(
    reports: Vec<RouteReport>,
    observations: Vec<EdgeObservations>,
    outcomes: Vec<RelayTransportOutcome>,
    prepared: usize,
    mismatch: Option<Vec<RelayTransportOutcome>>,
    i: int,
)
    requires
        call_ensures(transport_outcomes, (&reports, &observations), outcomes),
        call_ensures(mismatched_outcomes, (prepared, &observations), mismatch),
        0 <= i < observations@.len(),
        i < reports@.len(),
    ensures
        outcomes@.len() == reports@.len(),
        outcomes@[i].statistics == reports@[i].statistics,
        outcomes@[i].edge_observations == observations@[i],
        outcomes@[i].error is Some <==> reports@[i].error is Some,
        mismatch is Some <==> prepared != observations@.len(),
        mismatch is Some ==> {
            &&& mismatch->0@.len() == observations@.len()
            &&& mismatch->0@[i].edge_observations == observations@[i]
            &&& mismatch->0@[i].error is Some
            &&& mismatch->0@[i].statistics.rtp_packets_sent_total == 0
        },
{
    let outcome = outcomes@[i];
    assert(outcome@.statistics == reports@[i].statistics);
    if mismatch is Some {
        let other = mismatch->0@[i];
        assert(other@.edge_observations == observations@[i]);
    }
}

/// A group is prepared under the name of its publisher group; a configuration that cannot be
/// read is reported.
pub proof fn groups_are_known_by_their_name(
    configuration: Result<RelayRouteConfiguration, RelayConfigurationError>,
    r: Result<String, RelayFault>,
)
    requires
        call_ensures(preparation_group, (&configuration,), r),
    ensures
        configuration matches Ok(route) ==> r is Ok && r->Ok_0@ == route@.publisher_group_id,
        configuration matches Err(error) ==> r == Err::<String, RelayFault>(
            RelayFault::InvalidConfiguration(error),
        ),
{
}

/// Each route is planned for its own audio, in order, with the AudioBus of its own name.
pub proof fn routes_are_planned_in_order(
    routes: Vec<RelayRouteConfiguration>,
    audio: Vec<RouteAudio>,
    streams: Vec<StreamPlan>,
    i: int,
)
    requires
        routes@.len() == audio@.len(),
        call_ensures(
            plan_streams,
            (&routes, &audio),
            Ok::<Vec<StreamPlan>, RelayFault>(streams),
        ),
        0 <= i < routes@.len(),
    ensures
        streams@.len() == routes@.len(),
        streams@[i].stream_id@ == routes@[i]@.bus_id,
        streams@[i].profile == RelayStreamProfile::MusicStereo20ms <==> audio@[i].channels == 2,
        audio@[i].sample_rate_hz == 48_000,
{
    assert(crate::runtime::plans(streams@[i], routes@[i]@, audio@[i]));
}

/// A text is an AudioBus label exactly where it has from 1 to 64 characters, each a letter, a
/// digit, a dot, an underscore or a hyphen. One that is too long says so.
pub proof fn labels_are_short_and_plain(bus: &str, r: Result<(), String>)
    requires
        call_ensures(validate_bus, (bus,), r),
    ensures
        r is Ok <==> crate::route_laws::is_label(bus@),
        r is Err && (bus@.len() == 0 || crate::text::byte_len(bus@) > 64) ==> r->Err_0@
            == "bus label must be 1–64 characters"@,
        r is Err && 0 < bus@.len() && crate::text::byte_len(bus@) <= 64 ==> r->Err_0@
            == "bus label '"@ + bus@ + "' must contain only letters, digits, '.', '_', or '-'"@,
{
    crate::route_laws::lemma_is_label(bus@);
}

/// Two routes have one publisher exactly where they agree in relay, Session, credential,
/// publisher group, STUN servers and startup deadline.
pub proof fn one_publisher_means_agreement(
    a: RelayRouteConfiguration,
    b: RelayRouteConfiguration,
    r: bool,
)
    requires
        call_ensures(RelayRouteConfiguration::same_publisher, (&a, &b), r),
    ensures
        r <==> crate::runtime_laws::agree(a@, b@),
{
    crate::runtime_laws::lemma_one_publisher(a@, b@);
}

/// Each route reports what was sent on its own stream, and what became of its own audio.
pub proof fn reports_are_those_of_their_routes(
    counters: Vec<EncoderCounters>,
    ingress_drops: Vec<u64>,
    stats: PublishStats,
    shared: Option<ConnectorError>,
    reports: Vec<RouteReport>,
    i: int,
)
    requires
        call_ensures(route_reports, (&counters, &ingress_drops, &Some(stats), &shared), reports),
        0 <= i < counters@.len(),
        i < stats.streams@.len(),
    ensures
        reports@.len() == counters@.len(),
        reports@[i].statistics.rtp_packets_sent_total == stats.streams@[i].rtp_sent,
        reports@[i].statistics.rtp_payload_bytes_sent_total == stats.streams@[i].bytes_sent,
        reports@[i].statistics.opus_packets_encoded_total == counters@[i].opus_packets_out,
        reports@[i].statistics.ingress_queue_drops_total == ingress_drops@[i],
{
    crate::outcome_laws::routes_report_their_own_streams(
        reports@[i],
        i,
        counters@[i],
        ingress_drops@[i],
        stats,
        crate::receipts::error_view(shared),
    );
}

/// An offer keeps every line that is no format line, wherever it stands.
pub proof fn offers_keep_their_lines(sdp: &str, media: Vec<PublishMedia>, offer: String)
    requires
        call_ensures(offer_text, (sdp, &media), offer),
    ensures
        crate::rtc::offer_line_laws::plain(crate::rtc::sdp::lines(offer@))
            == crate::rtc::offer_line_laws::plain(crate::rtc::sdp::lines(sdp@)),
        crate::rtc::sdp::sections(crate::rtc::sdp::lines(offer@))[0] == crate::rtc::sdp::sections(
            crate::rtc::sdp::lines(sdp@),
        )[0],
{
    crate::rtc::offer_line_laws::offers_keep_every_other_line(sdp@, media@);
    crate::rtc::offer_line_laws::offers_change_only_opus_format_lines(sdp@, media@);
}

/// The address in a response is the one that the server wrote into it, behind whatever other
/// attributes.
pub proof fn responses_give_the_mapped_address(
    bytes: &[u8],
    r: Option<SocketAddress>,
    cookie: Seq<u8>,
    before: Seq<Attribute>,
    bits: u32,
    port: u16,
    behind: Seq<u8>,
)
    requires
        call_ensures(parse_binding_response, (bytes,), r),
        cookie.len() == 4,
        forall|i: int|
            0 <= i < before.len() ==> crate::rtc::stun_laws::is_attribute(#[trigger] before[i])
                && crate::rtc::stun_laws::maps_nothing(before[i]),
        crate::rtc::stun_laws::all_written(before).len() + 12 + behind.len() < 0x1_0000,
        bytes@ == crate::rtc::stun_laws::success(
            cookie,
            crate::rtc::stun_laws::all_written(before) + crate::rtc::stun_laws::two_bytes(0x0020)
                + crate::rtc::stun_laws::two_bytes(8) + crate::rtc::stun_laws::mapped_value(
                0,
                bits,
                port,
            ) + behind,
            Seq::empty(),
        ),
    ensures
        r == Some(SocketAddress { host: HostAddress::V4(bits), port, flow_info: 0, scope_id: 0 }),
{
    crate::rtc::stun_laws::mapped_addresses_are_found(
        cookie,
        before,
        8,
        0,
        bits,
        port,
        behind,
        Seq::empty(),
    );
}

} // verus!
