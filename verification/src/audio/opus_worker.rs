//! Encoded frames, their delivery to the publisher, and what is counted on the way.
use pocketstation::OutputGeneration;
use std::time::Instant;
use str0m::media::MediaTime;
use vstd::prelude::*;

use crate::audio::latency_profile::LatencyProfile;
use crate::bounded_queue::{BoundedQueue, QueueView, SendOutcome};

verus! {

/// How old a frame may be when it is encoded: twice the frame period of 20 ms. Older
/// frames show that audio was held up before.
pub const CAPTURE_AGE_BUDGET_NS: u64 = 40_000_000;

// Counters.

/// Totals that the encoder and the publisher count up. They wrap around.
#[derive(Debug, Clone, Copy, PartialEq, Eq, Structural)]
pub struct EncoderCounters {
    /// Interleaved samples discarded at a gap in the sequence.
    pub normalization_partial_samples_discarded: u64,
    /// Interleaved samples of silence that completed the last packet.
    pub normalization_tail_padding_samples_total: u64,
    /// Packets encoded.
    pub opus_packets_out: u64,
    /// Frames and packets that could not be encoded.
    pub opus_encode_errors: u64,
    /// Frames dropped because the queue to the publisher was full.
    pub encoded_channel_drops: u64,
    /// Encoded frames discarded in favor of a fresher one.
    pub publisher_stale_drops: u64,
    /// Frames discarded because their output was cancelled.
    pub cancelled_output_frames: u64,
    /// Pending samples removed when the output changed hands.
    pub cancelled_output_samples: u64,
    /// The sum of the capture ages, in nanoseconds.
    pub capture_age_sum_ns: u64,
    /// The greatest capture age, in nanoseconds.
    pub capture_age_max_ns: u64,
    /// Frames that had a capture age.
    pub capture_age_sample_count: u64,
    /// Frames whose capture age was over the budget.
    pub capture_age_over_budget: u64,
}

pub open spec fn no_counts() -> EncoderCounters {
    EncoderCounters {
        normalization_partial_samples_discarded: 0,
        normalization_tail_padding_samples_total: 0,
        opus_packets_out: 0,
        opus_encode_errors: 0,
        encoded_channel_drops: 0,
        publisher_stale_drops: 0,
        cancelled_output_frames: 0,
        cancelled_output_samples: 0,
        capture_age_sum_ns: 0,
        capture_age_max_ns: 0,
        capture_age_sample_count: 0,
        capture_age_over_budget: 0,
    }
}

impl Default for EncoderCounters {
    fn default() -> (counters: EncoderCounters)
        ensures
            counters == no_counts(),
    {
        EncoderCounters {
            normalization_partial_samples_discarded: 0,
            normalization_tail_padding_samples_total: 0,
            opus_packets_out: 0,
            opus_encode_errors: 0,
            encoded_channel_drops: 0,
            publisher_stale_drops: 0,
            cancelled_output_frames: 0,
            cancelled_output_samples: 0,
            capture_age_sum_ns: 0,
            capture_age_max_ns: 0,
            capture_age_sample_count: 0,
            capture_age_over_budget: 0,
        }
    }
}

/// A count that has gone up, modulo the range of 64 bits.
pub open spec fn counted(count: u64, more: int) -> u64 {
    ((count + more) % 0x1_0000_0000_0000_0000) as u64
}

/// Counts up.
pub fn count_up(count: u64, more: u64) -> (r: u64)
    ensures
        r == counted(count, more as int),
{
    count.wrapping_add(more)
}

pub open spec fn one_encode_error(c: EncoderCounters) -> EncoderCounters {
    EncoderCounters { opus_encode_errors: counted(c.opus_encode_errors, 1), ..c }
}

pub open spec fn one_packet_out(c: EncoderCounters) -> EncoderCounters {
    EncoderCounters { opus_packets_out: counted(c.opus_packets_out, 1), ..c }
}

pub open spec fn one_cancelled_frame(c: EncoderCounters) -> EncoderCounters {
    EncoderCounters { cancelled_output_frames: counted(c.cancelled_output_frames, 1), ..c }
}

pub open spec fn one_channel_drop(c: EncoderCounters) -> EncoderCounters {
    EncoderCounters { encoded_channel_drops: counted(c.encoded_channel_drops, 1), ..c }
}

/// The counters after a frame of that age. An unknown age, zero, leaves them.
pub open spec fn age_observed(c: EncoderCounters, capture_age_ns: u64) -> EncoderCounters {
    if capture_age_ns == 0 {
        c
    } else {
        EncoderCounters {
            capture_age_sum_ns: counted(c.capture_age_sum_ns, capture_age_ns as int),
            capture_age_sample_count: counted(c.capture_age_sample_count, 1),
            capture_age_max_ns: if capture_age_ns > c.capture_age_max_ns {
                capture_age_ns
            } else {
                c.capture_age_max_ns
            },
            capture_age_over_budget: if capture_age_ns > CAPTURE_AGE_BUDGET_NS {
                counted(c.capture_age_over_budget, 1)
            } else {
                c.capture_age_over_budget
            },
            ..c
        }
    }
}

pub fn observe_capture_age(counters: &mut EncoderCounters, capture_age_ns: u64)
    ensures
        *final(counters) == age_observed(*old(counters), capture_age_ns),
{
    if capture_age_ns == 0 {
        return;
    }
    counters.capture_age_sum_ns = count_up(counters.capture_age_sum_ns, capture_age_ns);
    counters.capture_age_sample_count = count_up(counters.capture_age_sample_count, 1);
    if capture_age_ns > counters.capture_age_max_ns {
        counters.capture_age_max_ns = capture_age_ns;
    }
    if capture_age_ns > CAPTURE_AGE_BUDGET_NS {
        counters.capture_age_over_budget = count_up(counters.capture_age_over_budget, 1);
    }
}

// Delivery.

/// An Opus frame ready to be written to a media line.
pub struct EncodedAudioFrame {
    pub payload: Vec<u8>,
    pub wallclock: Instant,
    pub rtp_time: MediaTime,
    pub duration_samples: u32,
    pub audio_level: Option<i8>,
    /// When the first sample was captured, or zero if the source does not say.
    pub capture_timestamp_ns: u64,
    /// The time from capture to the end of encoding, or zero if it is unknown.
    pub capture_age_ns: u64,
    pub output_generation: Option<OutputGeneration>,
}

/// What happens to an encoded frame that finds the queue to the publisher full. The
/// queue is filled by the encoder's worker, never by a capture callback, so that waiting
/// is allowed; low latency drops rather than pile up stale audio.
#[derive(Debug, Clone, Copy, PartialEq, Eq, Structural)]
pub enum EncodedDeliveryPolicy {
    PreserveWithBackpressure,
    DropNewest,
}

impl EncodedDeliveryPolicy {
    pub fn for_latency_profile(latency_profile: LatencyProfile) -> (policy: EncodedDeliveryPolicy)
        ensures
            policy == (match latency_profile {
                LatencyProfile::Low => EncodedDeliveryPolicy::DropNewest,
                LatencyProfile::Standard => EncodedDeliveryPolicy::PreserveWithBackpressure,
            }),
    {
        match latency_profile {
            LatencyProfile::Low => EncodedDeliveryPolicy::DropNewest,
            LatencyProfile::Standard => EncodedDeliveryPolicy::PreserveWithBackpressure,
        }
    }
}

/// What the encoder does after it has handed a frame over.
pub enum Delivery {
    /// It goes on with the next frame.
    Done,
    /// It waits for room and hands this frame over again.
    Waiting(EncodedAudioFrame),
    /// It stops: nobody receives frames any more.
    Disconnected,
}

pub open spec fn delivery(
    queue: QueueView<EncodedAudioFrame>,
    frame: EncodedAudioFrame,
    policy: EncodedDeliveryPolicy,
) -> Delivery {
    match crate::bounded_queue::send_outcome(queue, frame) {
        SendOutcome::Sent => Delivery::Done,
        SendOutcome::Full(frame) => match policy {
            EncodedDeliveryPolicy::PreserveWithBackpressure => Delivery::Waiting(frame),
            EncodedDeliveryPolicy::DropNewest => Delivery::Done,
        },
        SendOutcome::Disconnected(_) => Delivery::Disconnected,
    }
}

pub open spec fn delivery_counted(
    c: EncoderCounters,
    queue: QueueView<EncodedAudioFrame>,
    frame: EncodedAudioFrame,
    policy: EncodedDeliveryPolicy,
) -> EncoderCounters {
    if crate::bounded_queue::send_outcome(queue, frame) is Full && policy
        == EncodedDeliveryPolicy::DropNewest {
        one_channel_drop(c)
    } else {
        c
    }
}

/// Whether the frame was handed to the queue as far as its policy allows.
pub open spec fn handed_over(
    before: (QueueView<EncodedAudioFrame>, EncoderCounters),
    after: (QueueView<EncodedAudioFrame>, EncoderCounters),
    frame: EncodedAudioFrame,
    policy: EncodedDeliveryPolicy,
    result: Delivery,
) -> bool {
    &&& after.0 == crate::bounded_queue::after_send(before.0, frame)
    &&& after.1 == delivery_counted(before.1, before.0, frame, policy)
    &&& result == delivery(before.0, frame, policy)
}

/// Whether the frame was discarded because its output was cancelled.
pub open spec fn discarded(
    before: (QueueView<EncodedAudioFrame>, EncoderCounters),
    after: (QueueView<EncodedAudioFrame>, EncoderCounters),
    result: Delivery,
) -> bool {
    &&& after.0 == before.0
    &&& after.1 == one_cancelled_frame(before.1)
    &&& result is Done
}

/// Whether `cancelled` is what the generation answers when asked whether it is active
/// no more. Audio without a generation is never cancelled.
pub open spec fn answers_cancelled(
    output_generation: Option<OutputGeneration>,
    cancelled: bool,
) -> bool {
    match output_generation {
        Some(generation) => call_ensures(
            OutputGeneration::is_active,
            (&generation,),
            !cancelled,
        ),
        None => !cancelled,
    }
}

/// Whether the output was cancelled, by the answer of its generation. Audio without a
/// generation never is.
pub fn is_cancelled(output_generation: &Option<OutputGeneration>) -> (r: bool)
    ensures
        answers_cancelled(*output_generation, r),
{
    match output_generation {
        Some(generation) => !generation.is_active(),
        None => false,
    }
}

/// Hands a frame whose output is active to the publisher.
pub fn deliver_active_frame(
    queue: &mut BoundedQueue<EncodedAudioFrame>,
    encoded_frame: EncodedAudioFrame,
    delivery_policy: EncodedDeliveryPolicy,
    counters: &mut EncoderCounters,
) -> (r: Delivery)
    requires
        old(queue).wf(),
    ensures
        final(queue).wf(),
        handed_over(
            (old(queue)@, *old(counters)),
            (final(queue)@, *final(counters)),
            encoded_frame,
            delivery_policy,
            r,
        ),
{
    match queue.try_send(encoded_frame) {
        SendOutcome::Sent => Delivery::Done,
        SendOutcome::Full(frame) => match delivery_policy {
            EncodedDeliveryPolicy::PreserveWithBackpressure => Delivery::Waiting(frame),
            EncodedDeliveryPolicy::DropNewest => {
                counters.encoded_channel_drops = count_up(counters.encoded_channel_drops, 1);
                Delivery::Done
            },
        },
        SendOutcome::Disconnected(_) => Delivery::Disconnected,
    }
}

/// Hands a frame to the publisher, unless its output was cancelled.
pub fn deliver_unless_cancelled(
    queue: &mut BoundedQueue<EncodedAudioFrame>,
    encoded_frame: EncodedAudioFrame,
    delivery_policy: EncodedDeliveryPolicy,
    counters: &mut EncoderCounters,
    cancelled: bool,
) -> (r: Delivery)
    requires
        old(queue).wf(),
    ensures
        final(queue).wf(),
        !cancelled ==> handed_over(
            (old(queue)@, *old(counters)),
            (final(queue)@, *final(counters)),
            encoded_frame,
            delivery_policy,
            r,
        ),
        cancelled ==> discarded(
            (old(queue)@, *old(counters)),
            (final(queue)@, *final(counters)),
            r,
        ),
{
    if cancelled {
        counters.cancelled_output_frames = count_up(counters.cancelled_output_frames, 1);
        return Delivery::Done;
    }
    deliver_active_frame(queue, encoded_frame, delivery_policy, counters)
}

/// Whether a frame was handed over, or discarded where its generation answered that the
/// output was cancelled.
pub open spec fn delivered(
    before: (QueueView<EncodedAudioFrame>, EncoderCounters),
    after: (QueueView<EncodedAudioFrame>, EncoderCounters),
    frame: EncodedAudioFrame,
    policy: EncodedDeliveryPolicy,
    result: Delivery,
) -> bool {
    exists|cancelled: bool| #[trigger]
        answers_cancelled(frame.output_generation, cancelled) && (if cancelled {
            discarded(before, after, result)
        } else {
            handed_over(before, after, frame, policy, result)
        })
}

/// Hands a frame to the publisher, unless its output turns out to be cancelled.
pub fn deliver_encoded_frame(
    queue: &mut BoundedQueue<EncodedAudioFrame>,
    encoded_frame: EncodedAudioFrame,
    delivery_policy: EncodedDeliveryPolicy,
    counters: &mut EncoderCounters,
) -> (r: Delivery)
    requires
        old(queue).wf(),
    ensures
        final(queue).wf(),
        delivered(
            (old(queue)@, *old(counters)),
            (final(queue)@, *final(counters)),
            encoded_frame,
            delivery_policy,
            r,
        ),
{
    let cancelled = is_cancelled(&encoded_frame.output_generation);
    deliver_unless_cancelled(queue, encoded_frame, delivery_policy, counters, cancelled)
}

} // verus!
