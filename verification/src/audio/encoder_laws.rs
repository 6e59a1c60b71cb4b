//! What holds of encoded frames as a whole.
use vstd::prelude::*;

use crate::audio::opus_worker::{
    Delivery, EncodedAudioFrame, EncodedDeliveryPolicy, EncoderCounters,
};
use crate::bounded_queue::QueueView;

verus! {

/// Standard delivery loses nothing: the frame stands last in the queue, or it comes back
/// to be handed over again, or nobody receives any more. No drop is counted.
pub proof fn standard_delivery_loses_nothing(
    queue: QueueView<EncodedAudioFrame>,
    frame: EncodedAudioFrame,
    counters: EncoderCounters,
)
    ensures
        ({
            let policy = EncodedDeliveryPolicy::PreserveWithBackpressure;
            let after = crate::bounded_queue::after_send(queue, frame);
            &&& crate::audio::opus_worker::delivery_counted(counters, queue, frame, policy)
                == counters
            &&& match crate::audio::opus_worker::delivery(queue, frame, policy) {
                Delivery::Done => after.items == queue.items.push(frame),
                Delivery::Waiting(back) => back == frame && after == queue
                    && !crate::bounded_queue::has_room(queue),
                Delivery::Disconnected => after == queue && !queue.receiver_open,
            }
        }),
{
}

/// Low-latency delivery never waits. It drops nothing but the newest frame, only where
/// the queue is full, and counts each drop.
pub proof fn low_latency_delivery_drops_only_the_newest(
    queue: QueueView<EncodedAudioFrame>,
    frame: EncodedAudioFrame,
    counters: EncoderCounters,
)
    ensures
        ({
            let policy = EncodedDeliveryPolicy::DropNewest;
            let after = crate::bounded_queue::after_send(queue, frame);
            let counted = crate::audio::opus_worker::delivery_counted(
                counters,
                queue,
                frame,
                policy,
            );
            &&& !(crate::audio::opus_worker::delivery(queue, frame, policy) is Waiting)
            &&& after.items == queue.items || after.items == queue.items.push(frame)
            &&& queue.receiver_open ==> (counted == counters <==> after.items == queue.items.push(
                frame,
            ))
            &&& counted != counters ==> counted == crate::audio::opus_worker::one_channel_drop(
                counters,
            )
        }),
{
    assert(crate::audio::opus_worker::counted(counters.encoded_channel_drops, 1)
        != counters.encoded_channel_drops);
    assert(queue.items.push(frame).len() == queue.items.len() + 1);
}

} // verus!
