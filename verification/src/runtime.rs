//! The life of a relay publication, from its preparation to its result.
use std::time::Duration;
use vstd::prelude::*;

use crate::audio::latency_profile::LatencyProfile;
use crate::audio::opus_worker::EncoderCounters;
use crate::bounded_queue::{BoundedQueue, SendOutcome};
use crate::configuration::{RelayRouteConfiguration, RouteView, NANOS_PER_MILLI};
use crate::configuration_error::RelayConfigurationError;
use crate::receipts::{
    ReceiptRegistry, RegistryView, RelayPublishReceiptKey, RelayPublishStatistics,
};
use crate::relay_error::RelayFault;
use crate::rtc::publisher::{PublishStats, PublishStreamStats};
use crate::text::text_eq;

verus! {

/// The most AudioBuses that one publisher carries.
pub const MAX_GROUPED_BUSES: usize = 16;

// Preparation.

/// One input of a group that is to be prepared.
pub struct RouteInput {
    pub key: RelayPublishReceiptKey,
    /// The route, as it was read from the configuration that Core handed over.
    pub configuration: Result<RelayRouteConfiguration, RelayConfigurationError>,
    pub is_audio: bool,
}

/// Why an input cannot be prepared.
pub open spec fn input_fault(input: RouteInput) -> Option<RelayFault> {
    match input.configuration {
        Err(error) => Some(RelayFault::InvalidConfiguration(error)),
        Ok(_) => if input.is_audio {
            None
        } else {
            Some(RelayFault::AudioInputRequired)
        },
    }
}

/// The fault of the first input that has one.
pub open spec fn first_input_fault(inputs: Seq<RouteInput>) -> Option<RelayFault>
    decreases inputs.len(),
{
    if inputs.len() == 0 {
        None
    } else if input_fault(inputs[0]) is Some {
        input_fault(inputs[0])
    } else {
        first_input_fault(inputs.drop_first())
    }
}

/// Why a route does not fit to those before it: it belongs to another publisher, or its
/// AudioBus is there already.
pub open spec fn member_fault(routes: Seq<RouteView>, i: int) -> Option<RelayFault> {
    if !crate::configuration::one_publisher(routes[0], routes[i]) {
        Some(RelayFault::PublisherGroupMismatch)
    } else if exists|j: int| 0 <= j < i && (#[trigger] routes[j]).bus_id == routes[i].bus_id {
        Some(RelayFault::DuplicateBus)
    } else {
        None
    }
}

/// The fault of the first route from `i` on that does not fit.
pub open spec fn group_fault(routes: Seq<RouteView>, i: int) -> Option<RelayFault>
    decreases routes.len() - i,
{
    if i < 0 || i >= routes.len() {
        None
    } else if member_fault(routes, i) is Some {
        member_fault(routes, i)
    } else {
        group_fault(routes, i + 1)
    }
}

pub open spec fn route_views(routes: Seq<RelayRouteConfiguration>) -> Seq<RouteView> {
    routes.map_values(|route: RelayRouteConfiguration| route@)
}

/// Whether the routes can share one publisher.
pub fn validate_grouped_routes(routes: &Vec<RelayRouteConfiguration>) -> (r: Result<
    (),
    RelayFault,
>)
    requires
        routes@.len() > 0,
    ensures
        r is Ok <==> group_fault(route_views(routes@), 0) is None,
        r matches Err(fault) ==> group_fault(route_views(routes@), 0) == Some(fault),
{
    let ghost all = route_views(routes@);
    let mut i: usize = 0;
    while i < routes.len()
        invariant
            i <= routes@.len(),
            routes@.len() > 0,
            all == route_views(routes@),
            group_fault(all, 0) == group_fault(all, i as int),
        decreases routes.len() - i,
    {
        assert(all[0] == routes@[0]@);
        assert(all[i as int] == routes@[i as int]@);
        if !routes[0].same_publisher(&routes[i]) {
            return Err(RelayFault::PublisherGroupMismatch);
        }
        let mut j: usize = 0;
        while j < i
            invariant
                j <= i < routes@.len(),
                all == route_views(routes@),
                group_fault(all, 0) == group_fault(all, i as int),
                crate::configuration::one_publisher(all[0], all[i as int]),
                forall|k: int| 0 <= k < j ==> (#[trigger] all[k]).bus_id != all[i as int].bus_id,
            decreases i - j,
        {
            assert(all[j as int] == routes@[j as int]@);
            if text_eq(routes[j].bus_id(), routes[i].bus_id()) {
                assert(all[j as int].bus_id == all[i as int].bus_id);
                return Err(RelayFault::DuplicateBus);
            }
            j = j + 1;
        }
        i = i + 1;
    }
    Ok(())
}

pub open spec fn input_keys(inputs: Seq<RouteInput>) -> Seq<u128> {
    inputs.map_values(|input: RouteInput| input.key@)
}

/// The routes of inputs that have no fault.
pub open spec fn input_routes(inputs: Seq<RouteInput>) -> Seq<RouteView> {
    inputs.map_values(|input: RouteInput| input.configuration->Ok_0@)
}

/// Why a group cannot be prepared. The first fault in this order counts.
pub open spec fn preparation_fault(v: RegistryView, inputs: Seq<RouteInput>) -> Option<RelayFault> {
    if inputs.len() == 0 || inputs.len() > MAX_GROUPED_BUSES {
        Some(RelayFault::InvalidBusCount)
    } else if first_input_fault(inputs) is Some {
        first_input_fault(inputs)
    } else if group_fault(input_routes(inputs), 0) is Some {
        group_fault(input_routes(inputs), 0)
    } else {
        crate::receipts::reserve_fault(v, input_keys(inputs))
    }
}

/// Prepares a group: its inputs are checked and receipts are reserved, before anything is
/// sent. A group that fails leaves the registry as it was.
pub fn prepare_group(registry: &mut ReceiptRegistry, inputs: &Vec<RouteInput>) -> (r: Result<
    Vec<RelayRouteConfiguration>,
    RelayFault,
>)
    requires
        old(registry).wf(),
    ensures
        final(registry).wf(),
        r is Ok <==> preparation_fault(old(registry)@, inputs@) is None,
        r matches Ok(routes) ==> {
            &&& route_views(routes@) == input_routes(inputs@)
            &&& final(registry)@ == (RegistryView {
                receipts: crate::receipts::reserved(
                    old(registry)@.receipts,
                    input_keys(inputs@),
                ),
                ..old(registry)@
            })
            &&& crate::receipts::places_reserved(
                old(registry).places(),
                final(registry).places(),
                input_keys(inputs@),
            )
        },
        r matches Err(fault) ==> {
            &&& preparation_fault(old(registry)@, inputs@) == Some(fault)
            &&& final(registry)@ == old(registry)@
            &&& final(registry).places() == old(registry).places()
        },
{
    if inputs.len() == 0 || inputs.len() > MAX_GROUPED_BUSES {
        return Err(RelayFault::InvalidBusCount);
    }
    let mut routes: Vec<RelayRouteConfiguration> = Vec::new();
    let mut keys: Vec<RelayPublishReceiptKey> = Vec::new();
    let mut i: usize = 0;
    assert(inputs@.skip(0) =~= inputs@);
    while i < inputs.len()
        invariant
            i <= inputs@.len(),
            0 < inputs@.len() <= MAX_GROUPED_BUSES,
            *registry == *old(registry),
            old(registry).wf(),
            routes@.len() == i,
            keys@.len() == i,
            forall|j: int|
                0 <= j < i ==> (#[trigger] routes@[j])@ == inputs@[j].configuration->Ok_0@,
            forall|j: int| 0 <= j < i ==> (#[trigger] keys@[j])@ == inputs@[j].key@,
            first_input_fault(inputs@) == first_input_fault(inputs@.skip(i as int)),
        decreases inputs.len() - i,
    {
        proof {
            assert(inputs@.skip(i as int)[0] == inputs@[i as int]);
            assert(inputs@.skip(i as int).drop_first() =~= inputs@.skip(i + 1));
        }
        match &inputs[i].configuration {
            Ok(route) => {
                if !inputs[i].is_audio {
                    return Err(RelayFault::AudioInputRequired);
                }
                routes.push(route.clone());
                keys.push(inputs[i].key);
            },
            Err(error) => {
                return Err(RelayFault::InvalidConfiguration(*error));
            },
        }
        i = i + 1;
    }
    assert(route_views(routes@) =~= input_routes(inputs@));
    assert(crate::receipts::key_views(keys@) =~= input_keys(inputs@));
    match validate_grouped_routes(&routes) {
        Ok(()) => {},
        Err(fault) => {
            return Err(fault);
        },
    }
    match registry.reserve(&keys) {
        Ok(()) => Ok(routes),
        Err(fault) => Err(fault),
    }
}

/// The group of routes that share one publisher with this one.
pub fn preparation_group(
    configuration: &Result<RelayRouteConfiguration, RelayConfigurationError>,
) -> (r: Result<String, RelayFault>)
    ensures
        match *configuration {
            Ok(route) => r matches Ok(group) && group@ == route@.publisher_group_id,
            Err(error) => r == Err::<String, RelayFault>(RelayFault::InvalidConfiguration(error)),
        },
{
    match configuration {
        Ok(route) => Ok(route.publisher_group_id().to_owned()),
        Err(error) => Err(RelayFault::InvalidConfiguration(*error)),
    }
}

// Streams.

/// How a route is encoded, in packets of 20 ms.
#[derive(Debug, Clone, Copy, PartialEq, Eq, Structural)]
pub enum RelayStreamProfile {
    VoiceMono20ms,
    MusicStereo20ms,
}

impl RelayStreamProfile {
    pub fn is_stereo(self) -> (r: bool)
        ensures
            r == (self is MusicStereo20ms),
    {
        match self {
            RelayStreamProfile::VoiceMono20ms => false,
            RelayStreamProfile::MusicStereo20ms => true,
        }
    }

    /// The number of interleaved channels.
    pub fn channels(self) -> (n: u8)
        ensures
            n == (if self is MusicStereo20ms {
                2u8
            } else {
                1u8
            }),
    {
        if self.is_stereo() {
            2
        } else {
            1
        }
    }
}

/// The audio that a route carries.
#[derive(Debug, Clone, Copy, PartialEq, Eq, Structural)]
pub struct RouteAudio {
    pub sample_rate_hz: u32,
    pub interleaved_f32: bool,
    pub channels: u8,
}

/// How one route of a group is published.
pub struct StreamPlan {
    pub profile: RelayStreamProfile,
    pub latency_profile: LatencyProfile,
    /// The WebRTC stream, named like the AudioBus.
    pub stream_id: String,
}

pub open spec fn audio_profile(audio: RouteAudio) -> Result<RelayStreamProfile, RelayFault> {
    if audio.sample_rate_hz != 48_000 {
        Err(RelayFault::UnsupportedSampleRate(audio.sample_rate_hz))
    } else if !audio.interleaved_f32 {
        Err(RelayFault::UnsupportedSampleFormat)
    } else if audio.channels == 1 {
        Ok(RelayStreamProfile::VoiceMono20ms)
    } else if audio.channels == 2 {
        Ok(RelayStreamProfile::MusicStereo20ms)
    } else {
        Err(RelayFault::UnsupportedChannelCount(audio.channels))
    }
}

/// The profile of a route's audio.
pub fn relay_stream_profile(audio: RouteAudio) -> (r: Result<RelayStreamProfile, RelayFault>)
    ensures
        r == audio_profile(audio),
{
    if audio.sample_rate_hz != 48_000 {
        return Err(RelayFault::UnsupportedSampleRate(audio.sample_rate_hz));
    }
    if !audio.interleaved_f32 {
        return Err(RelayFault::UnsupportedSampleFormat);
    }
    match audio.channels {
        1 => Ok(RelayStreamProfile::VoiceMono20ms),
        2 => Ok(RelayStreamProfile::MusicStereo20ms),
        _ => Err(RelayFault::UnsupportedChannelCount(audio.channels)),
    }
}

/// Whether a plan is that of a route and its audio.
pub open spec fn plans(plan: StreamPlan, route: RouteView, audio: RouteAudio) -> bool {
    &&& audio_profile(audio) == Ok::<RelayStreamProfile, RelayFault>(plan.profile)
    &&& plan.latency_profile is Low <==> route.latency_profile is Low
    &&& plan.stream_id@ == route.bus_id
}

/// Plans the streams of a group. The first route whose audio cannot be published decides.
pub fn plan_streams(routes: &Vec<RelayRouteConfiguration>, audio: &Vec<RouteAudio>) -> (r: Result<
    Vec<StreamPlan>,
    RelayFault,
>)
    requires
        routes@.len() == audio@.len(),
    ensures
        r is Ok <==> routes@.len() > 0 && forall|i: int|
            0 <= i < audio@.len() ==> audio_profile(#[trigger] audio@[i]) is Ok,
        r matches Ok(streams) ==> {
            &&& streams@.len() == routes@.len()
            &&& forall|i: int|
                0 <= i < streams@.len() ==> plans(
                    #[trigger] streams@[i],
                    routes@[i]@,
                    audio@[i],
                )
        },
        r matches Err(fault) ==> if routes@.len() == 0 {
            fault == RelayFault::EmptyGroup
        } else {
            exists|i: int|
                {
                    &&& 0 <= i < audio@.len()
                    &&& audio_profile(#[trigger] audio@[i]) == Err::<
                        RelayStreamProfile,
                        RelayFault,
                    >(fault)
                    &&& forall|j: int| 0 <= j < i ==> audio_profile(#[trigger] audio@[j]) is Ok
                }
        },
{
    if routes.len() == 0 {
        return Err(RelayFault::EmptyGroup);
    }
    let mut streams: Vec<StreamPlan> = Vec::new();
    let mut i: usize = 0;
    while i < routes.len()
        invariant
            i <= routes@.len() == audio@.len(),
            routes@.len() > 0,
            streams@.len() == i,
            forall|j: int| 0 <= j < i ==> audio_profile(#[trigger] audio@[j]) is Ok,
            forall|j: int|
                0 <= j < i ==> plans(#[trigger] streams@[j], routes@[j]@, audio@[j]),
        decreases routes.len() - i,
    {
        let profile = match relay_stream_profile(audio[i]) {
            Ok(profile) => profile,
            Err(fault) => {
                assert(audio_profile(audio@[i as int]) is Err);
                return Err(fault);
            },
        };
        streams.push(
            StreamPlan {
                profile,
                latency_profile: LatencyProfile::for_route(routes[i].latency_profile()),
                stream_id: routes[i].bus_id().to_owned(),
            },
        );
        i = i + 1;
    }
    Ok(streams)
}

// Feeding.

/// What a feeder does next.
#[derive(Debug, Clone, Copy, PartialEq, Eq, Structural)]
pub enum FeedStep {
    /// Stop.
    Stop,
    /// Hand the received frame to the encoder.
    Forward,
    /// Wait a moment for a frame.
    Wait,
}

/// What a feeder does next, given whether it was told to stop, whether a frame was
/// received, and whether the publication shuts down. Frames that are there are forwarded
/// before a shutdown ends the feeder.
pub fn feed_step(told_to_stop: bool, received: bool, shutting_down: bool) -> (step: FeedStep)
    ensures
        step == (if told_to_stop {
            FeedStep::Stop
        } else if received {
            FeedStep::Forward
        } else if shutting_down {
            FeedStep::Stop
        } else {
            FeedStep::Wait
        }),
{
    if told_to_stop {
        FeedStep::Stop
    } else if received {
        FeedStep::Forward
    } else if shutting_down {
        FeedStep::Stop
    } else {
        FeedStep::Wait
    }
}

/// Hands a frame to the encoder. A frame that finds the queue full is dropped and
/// counted. The feeder goes on unless the encoder is gone.
pub fn forward_frame<T>(queue: &mut BoundedQueue<T>, frame: T, ingress_drops: &mut u64) -> (goes_on:
    bool)
    requires
        old(queue).wf(),
    ensures
        final(queue).wf(),
        final(queue)@ == crate::bounded_queue::after_send(old(queue)@, frame),
        goes_on == old(queue)@.receiver_open,
        *final(ingress_drops) == (if old(queue)@.receiver_open && !crate::bounded_queue::has_room(
            old(queue)@,
        ) {
            crate::audio::opus_worker::counted(*old(ingress_drops), 1)
        } else {
            *old(ingress_drops)
        }),
{
    match queue.try_send(frame) {
        SendOutcome::Sent => true,
        SendOutcome::Full(_) => {
            *ingress_drops = crate::audio::opus_worker::count_up(*ingress_drops, 1);
            true
        },
        SendOutcome::Disconnected(_) => false,
    }
}

// Statistics.

/// A duration in whole milliseconds, as far as 64 bits hold it.
pub open spec fn whole_millis(duration: Duration) -> u64 {
    crate::audio::pcm_packetizer::capped(
        crate::boundary::duration_nanos(duration) as int / NANOS_PER_MILLI as int,
    )
}

pub open spec fn statistics_of(
    counters: EncoderCounters,
    ingress_drops: u64,
    publish: Option<PublishStats>,
    stream: Option<PublishStreamStats>,
) -> RelayPublishStatistics {
    RelayPublishStatistics {
        rtp_packets_sent_total: if stream is Some {
            stream->0.rtp_sent
        } else {
            0
        },
        rtp_payload_bytes_sent_total: if stream is Some {
            stream->0.bytes_sent
        } else {
            0
        },
        rtc_poll_drains_total: if publish is Some {
            publish->0.drains
        } else {
            0
        },
        rtc_writer_writes_total: if publish is Some {
            publish->0.writes
        } else {
            0
        },
        elapsed_ms: if publish is Some {
            whole_millis(publish->0.elapsed)
        } else {
            0
        },
        opus_packets_encoded_total: counters.opus_packets_out,
        opus_encode_errors_total: counters.opus_encode_errors,
        encoder_channel_drops_total: counters.encoded_channel_drops,
        publisher_stale_drops_total: counters.publisher_stale_drops,
        ingress_queue_drops_total: ingress_drops,
        cancelled_output_frames_total: counters.cancelled_output_frames,
        cancelled_output_samples_total: counters.cancelled_output_samples,
    }
}

/// The statistics of one route.
pub fn statistics(
    counters: &EncoderCounters,
    ingress_drops: u64,
    publish: &Option<PublishStats>,
    stream: Option<PublishStreamStats>,
) -> (r: RelayPublishStatistics)
    ensures
        r == statistics_of(*counters, ingress_drops, *publish, stream),
{
    let (sent, bytes): (u64, u64) = match stream {
        Some(stats) => (stats.rtp_sent, stats.bytes_sent),
        None => (0, 0),
    };
    let (drains, writes, elapsed_ms): (u64, u64, u64) = match publish {
        Some(stats) => {
            let millis: u128 = stats.elapsed.as_nanos() / NANOS_PER_MILLI;
            let elapsed_ms: u64 = if millis > u64::MAX as u128 {
                u64::MAX
            } else {
                millis as u64
            };
            (stats.drains, stats.writes, elapsed_ms)
        },
        None => (0, 0, 0),
    };
    RelayPublishStatistics {
        rtp_packets_sent_total: sent,
        rtp_payload_bytes_sent_total: bytes,
        rtc_poll_drains_total: drains,
        rtc_writer_writes_total: writes,
        elapsed_ms,
        opus_packets_encoded_total: counters.opus_packets_out,
        opus_encode_errors_total: counters.opus_encode_errors,
        encoder_channel_drops_total: counters.encoded_channel_drops,
        publisher_stale_drops_total: counters.publisher_stale_drops,
        ingress_queue_drops_total: ingress_drops,
        cancelled_output_frames_total: counters.cancelled_output_frames,
        cancelled_output_samples_total: counters.cancelled_output_samples,
    }
}

/// The frames of a route that were lost on its way: those that Core dropped, and those
/// that the ingress queue, the encoder's queue and the publisher dropped.
pub fn dropped_frames(edge_frames_dropped: u64, statistics: &RelayPublishStatistics) -> (total: u64)
    ensures
        total == crate::audio::pcm_packetizer::capped(
            edge_frames_dropped + statistics.ingress_queue_drops_total
                + statistics.encoder_channel_drops_total + statistics.publisher_stale_drops_total,
        ),
{
    edge_frames_dropped.saturating_add(statistics.ingress_queue_drops_total).saturating_add(
        statistics.encoder_channel_drops_total,
    ).saturating_add(statistics.publisher_stale_drops_total)
}

// What holds of groups.

/// The routes of a group that passed share one publisher, and no two of them publish the
/// same AudioBus.
pub proof fn groups_share_one_publisher(routes: Seq<RouteView>)
    requires
        group_fault(routes, 0) is None,
    ensures
        forall|i: int, j: int|
            0 <= i < routes.len() && 0 <= j < routes.len()
                ==> crate::configuration::one_publisher(#[trigger] routes[i], #[trigger] routes[j]),
        forall|i: int, j: int|
            0 <= i < j < routes.len() ==> (#[trigger] routes[i]).bus_id != (
            #[trigger] routes[j]).bus_id,
{
    lemma_members_fit(routes, 0);
    assert forall|i: int, j: int| 0 <= i < routes.len() && 0 <= j < routes.len() implies crate::configuration::one_publisher(
    #[trigger] routes[i], #[trigger] routes[j]) by {
        assert(member_fault(routes, i) is None);
        assert(member_fault(routes, j) is None);
    }
    assert forall|i: int, j: int| 0 <= i < j < routes.len() implies (#[trigger] routes[i]).bus_id
        != (#[trigger] routes[j]).bus_id by {
        assert(member_fault(routes, j) is None);
    }
}

proof fn lemma_members_fit(routes: Seq<RouteView>, i: int)
    requires
        0 <= i <= routes.len(),
        group_fault(routes, i) is None,
    ensures
        forall|k: int| i <= k < routes.len() ==> #[trigger] member_fault(routes, k) is None,
    decreases routes.len() - i,
{
    if i < routes.len() {
        lemma_members_fit(routes, i + 1);
    }
}

} // verus!
