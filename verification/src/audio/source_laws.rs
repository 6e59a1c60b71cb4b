//! What holds of a source as a whole, from its first captured frame to its end.
use vstd::arithmetic::div_mod::{lemma_fundamental_div_mod, lemma_fundamental_div_mod_converse};
use vstd::prelude::*;

use crate::audio::encoder_session::{
    EncodedPacket, EncoderWorker, FrameHeader, SessionView,
};
use crate::audio::opus_worker::{
    Delivery, EncodedAudioFrame, EncodedDeliveryPolicy, EncoderCounters,
};
use crate::audio::pcm_packetizer::{PacketizerView, SAMPLE_RATE_HZ};
use crate::bounded_queue::QueueView;

verus! {

// Packets.

/// A frame as it was captured.
pub struct Captured<T> {
    pub header: FrameHeader,
    pub samples: Seq<T>,
}

/// The samples of all frames, in order.
pub open spec fn all_samples<T>(frames: Seq<Captured<T>>) -> Seq<T>
    decreases frames.len(),
{
    if frames.len() == 0 {
        Seq::empty()
    } else {
        all_samples(frames.drop_last()) + frames.last().samples
    }
}

/// The session after all frames. None of them belongs to a generation.
pub open spec fn session_after<T>(start: SessionView<T>, frames: Seq<Captured<T>>) -> SessionView<T>
    decreases frames.len(),
{
    if frames.len() == 0 {
        start
    } else {
        crate::audio::encoder_session::frame_accepted(
            session_after(start, frames.drop_last()),
            frames.last().header,
            frames.last().samples,
            None,
            false,
        )
    }
}

/// The counters after all frames.
pub open spec fn counters_after<T>(
    c: EncoderCounters,
    start: SessionView<T>,
    frames: Seq<Captured<T>>,
) -> EncoderCounters
    decreases frames.len(),
{
    if frames.len() == 0 {
        c
    } else {
        crate::audio::encoder_session::frame_counted(
            counters_after(c, start, frames.drop_last()),
            session_after(start, frames.drop_last()),
            frames.last().header,
            frames.last().samples,
            None,
            false,
        )
    }
}

/// The samples of the packets that one frame fills.
pub open spec fn frame_packet_samples<T>(v: SessionView<T>, frame: Captured<T>) -> Seq<Seq<T>> {
    let begun = crate::audio::encoder_session::begun(v, frame.header, None);
    if crate::audio::encoder_session::admission(v, frame.header, frame.samples, false) is Accepted {
        Seq::new(
            crate::audio::pcm_packetizer::packet_count(begun, frame.samples) as nat,
            |k: int| crate::audio::pcm_packetizer::packet_samples(begun, frame.samples, k),
        )
    } else {
        Seq::empty()
    }
}

/// The samples of the packets that all frames fill, in order.
pub open spec fn all_packets<T>(start: SessionView<T>, frames: Seq<Captured<T>>) -> Seq<Seq<T>>
    decreases frames.len(),
{
    if frames.len() == 0 {
        Seq::empty()
    } else {
        all_packets(start, frames.drop_last()) + frame_packet_samples(
            session_after(start, frames.drop_last()),
            frames.last(),
        )
    }
}

/// A session of a source that has not begun.
pub open spec fn fresh<T>(v: SessionView<T>, channels: u8) -> bool {
    &&& channels == 1 || channels == 2
    &&& v.packetizer == (PacketizerView {
        pending: Seq::<T>::empty(),
        channels,
        timestamp_ns: 0,
        expected: None,
        generation: None,
    })
    &&& v.output is None
}

/// Frames in the layout of the session, each of whole channels, without a gap.
pub open spec fn in_a_row<T>(frames: Seq<Captured<T>>, channels: u8) -> bool {
    &&& forall|i: int|
        0 <= i < frames.len() ==> {
            &&& (#[trigger] frames[i]).header.sample_rate_hz == SAMPLE_RATE_HZ
            &&& frames[i].header.channels == channels
            &&& frames[i].samples.len() as int % channels as int == 0
        }
    &&& forall|i: int|
        0 < i < frames.len() ==> (#[trigger] frames[i]).header.sequence_number
            == frames[i - 1].header.sequence_number + 1
}

/// The number of packets of the given size that hold so many samples, the last one padded.
pub open spec fn packets_for(samples: int, size: int) -> int {
    if samples % size == 0 {
        samples / size
    } else {
        samples / size + 1
    }
}

/// Whether packet `k` holds its part of the source's samples, with silence behind the last.
pub open spec fn holds_part<T: Default>(packet: Seq<T>, k: int, samples: Seq<T>, size: int) -> bool {
    &&& packet.len() == size
    &&& forall|i: int|
        0 <= i < size && k * size + i < samples.len() ==> (#[trigger] packet[i]) == samples[k * size
            + i]
    &&& forall|i: int|
        0 <= i < size && k * size + i >= samples.len() ==> call_ensures(
            T::default,
            (),
            #[trigger] packet[i],
        )
}

/// Frames in a row are so without the last of them.
pub(crate) proof fn lemma_front_in_a_row<T>(frames: Seq<Captured<T>>, channels: u8)
    requires
        frames.len() > 0,
        in_a_row(frames, channels),
    ensures
        in_a_row(frames.drop_last(), channels),
{
    let front = frames.drop_last();
    assert forall|i: int| 0 <= i < front.len() implies {
        &&& (#[trigger] front[i]).header.sample_rate_hz == SAMPLE_RATE_HZ
        &&& front[i].header.channels == channels
        &&& front[i].samples.len() as int % channels as int == 0
    } by {
        assert(front[i] == frames[i]);
    }
    assert forall|i: int| 0 < i < front.len() implies (#[trigger] front[i]).header.sequence_number
        == front[i - 1].header.sequence_number + 1 by {
        assert(front[i] == frames[i]);
        assert(front[i - 1] == frames[i - 1]);
    }
}

/// What a session has done with consecutive frames.
pub(crate) proof fn lemma_run<T>(
    start: SessionView<T>,
    frames: Seq<Captured<T>>,
    channels: u8,
    c: EncoderCounters,
)
    requires
        fresh(start, channels),
        in_a_row(frames, channels),
    ensures
        ({
            let size = crate::audio::pcm_packetizer::packet_size(channels);
            let all = all_samples(frames);
            let count = all.len() as int / size;
            let end = session_after(start, frames);
            let packets = all_packets(start, frames);
            &&& end.packetizer.channels == channels
            &&& end.packetizer.generation is None
            &&& end.output is None
            &&& end.worker == start.worker
            &&& frames.len() > 0 ==> end.packetizer.expected == Some(
                crate::audio::pcm_packetizer::capped(frames.last().header.sequence_number + 1),
            )
            &&& frames.len() == 0 ==> end.packetizer.expected is None
            &&& 0 <= count * size <= all.len() < count * size + size
            &&& end.packetizer.pending == all.skip(count * size)
            &&& packets.len() == count
            &&& forall|k: int|
                0 <= k < count ==> (#[trigger] packets[k]) == all.subrange(k * size, (k + 1) * size)
            &&& counters_after(c, start, frames) == c
        }),
    decreases frames.len(),
{
    let size = crate::audio::pcm_packetizer::packet_size(channels);
    let all = all_samples(frames);
    let end = session_after(start, frames);
    let packets = all_packets(start, frames);
    if frames.len() == 0 {
        assert(0int / size == 0) by (nonlinear_arith)
            requires
                size > 0,
        ;
        assert(0 * size == 0) by (nonlinear_arith);
        assert(all.skip(0) =~= Seq::empty());
    } else {
        let front = frames.drop_last();
        let frame = frames.last();
        let n = frames.len() - 1;
        assert(frame == frames[n]);
        lemma_front_in_a_row(frames, channels);
        lemma_run(start, front, channels, c);
        let mid = session_after(start, front);
        let before = all_samples(front);
        let done = before.len() as int / size;
        if front.len() > 0 {
            assert(front.last() == frames[n - 1]);
            assert(frame.header.sequence_number == front.last().header.sequence_number + 1);
        }
        let begun = crate::audio::encoder_session::begun(mid, frame.header, None);
        assert(!crate::audio::pcm_packetizer::at_gap(
            mid.packetizer,
            frame.header.sequence_number,
        ));
        assert(begun.pending == mid.packetizer.pending);
        let more = crate::audio::pcm_packetizer::packet_count(begun, frame.samples);
        let total = done + more;
        let held = (begun.pending.len() + frame.samples.len()) as int;
        lemma_fundamental_div_mod(held, size);
        assert(more * size == size * more) by (nonlinear_arith);
        assert(total * size == done * size + more * size) by (nonlinear_arith)
            requires
                total == done + more,
        ;
        lemma_fundamental_div_mod_converse(
            all.len() as int,
            size,
            total,
            all.len() - total * size,
        );
        assert(0 <= more * size) by (nonlinear_arith)
            requires
                0 <= more,
                0 <= size,
        ;
        assert(begun.pending + frame.samples =~= all.skip(done * size));
        assert(end.packetizer.pending =~= all.skip(total * size));
        assert forall|k: int| 0 <= k < total implies (#[trigger] packets[k]) == all.subrange(
            k * size,
            (k + 1) * size,
        ) by {
            assert((k + 1) * size == k * size + size) by (nonlinear_arith);
            assert(0 <= k * size) by (nonlinear_arith)
                requires
                    0 <= k,
                    0 <= size,
            ;
            if k < done {
                assert((k + 1) * size <= done * size) by (nonlinear_arith)
                    requires
                        k + 1 <= done,
                        0 <= size,
                ;
                assert(packets[k] == all_packets(start, front)[k]);
                assert(before.subrange(k * size, (k + 1) * size) =~= all.subrange(
                    k * size,
                    (k + 1) * size,
                ));
            } else {
                let j = k - done;
                assert((j + 1) * size == j * size + size) by (nonlinear_arith);
                assert(k * size == done * size + j * size) by (nonlinear_arith)
                    requires
                        k == done + j,
                ;
                assert(0 <= j * size) by (nonlinear_arith)
                    requires
                        0 <= j,
                        0 <= size,
                ;
                assert((j + 1) * size <= more * size) by (nonlinear_arith)
                    requires
                        j + 1 <= more,
                        0 <= size,
                ;
                assert(packets[k] == crate::audio::pcm_packetizer::packet_samples(
                    begun,
                    frame.samples,
                    j,
                ));
                assert(all.skip(done * size).subrange(j * size, (j + 1) * size) =~= all.subrange(
                    k * size,
                    (k + 1) * size,
                ));
            }
        }
    }
}

/// However the samples of a source are cut into frames, the same packets come out: packet
/// `k` holds the `k`-th part of the samples, the last one is padded with silence at the end
/// of the source, and nothing is discarded. The tail is the packet that the end of the
/// source gives.
pub proof fn packets_do_not_depend_on_frames<T: Default>(
    start: SessionView<T>,
    frames: Seq<Captured<T>>,
    channels: u8,
    c: EncoderCounters,
    tail: Option<Seq<T>>,
)
    requires
        fresh(start, channels),
        in_a_row(frames, channels),
        tail is None <==> session_after(start, frames).packetizer.pending.len() == 0,
        tail matches Some(samples) ==> crate::audio::encoder_session::pads_tail(
            session_after(start, frames).packetizer,
            samples,
        ),
    ensures
        tail is None ==> all_packets(start, frames).len() == packets_for(
            all_samples(frames).len() as int,
            crate::audio::pcm_packetizer::packet_size(channels),
        ),
        tail is None ==> forall|k: int|
            0 <= k < all_packets(start, frames).len() ==> holds_part(
                #[trigger] all_packets(start, frames)[k],
                k,
                all_samples(frames),
                crate::audio::pcm_packetizer::packet_size(channels),
            ),
        tail matches Some(samples) ==> all_packets(start, frames).push(samples).len()
            == packets_for(
            all_samples(frames).len() as int,
            crate::audio::pcm_packetizer::packet_size(channels),
        ),
        tail matches Some(samples) ==> forall|k: int|
            0 <= k < all_packets(start, frames).push(samples).len() ==> holds_part(
                #[trigger] all_packets(start, frames).push(samples)[k],
                k,
                all_samples(frames),
                crate::audio::pcm_packetizer::packet_size(channels),
            ),
        crate::audio::encoder_session::tail_padding(session_after(start, frames).packetizer) == (
        crate::audio::pcm_packetizer::packet_size(channels) - all_samples(frames).len() as int
            % crate::audio::pcm_packetizer::packet_size(channels))
            % crate::audio::pcm_packetizer::packet_size(channels),
        crate::audio::encoder_session::tail_padding(session_after(start, frames).packetizer)
            < crate::audio::pcm_packetizer::packet_size(channels),
        counters_after(c, start, frames) == c,
{
    let size = crate::audio::pcm_packetizer::packet_size(channels);
    let all = all_samples(frames);
    let end = session_after(start, frames).packetizer;
    let whole = all_packets(start, frames);
    let count = all.len() as int / size;
    let rest = all.len() as int % size;
    lemma_run(start, frames, channels, c);
    lemma_fundamental_div_mod(all.len() as int, size);
    assert(count * size == size * count) by (nonlinear_arith);
    assert(end.pending.len() == rest);
    assert(rest == 0 ==> (size - rest) % size == 0) by (nonlinear_arith)
        requires
            size > 0,
    ;
    assert(rest > 0 ==> (size - rest) % size == size - rest) by (nonlinear_arith)
        requires
            size > 0,
            0 <= rest < size,
    ;
    let packets = match tail {
        None => whole,
        Some(samples) => whole.push(samples),
    };
    assert forall|k: int| 0 <= k < packets.len() implies holds_part(
        #[trigger] packets[k],
        k,
        all,
        size,
    ) by {
        assert((k + 1) * size == k * size + size) by (nonlinear_arith);
        if k < count {
            assert((k + 1) * size <= count * size) by (nonlinear_arith)
                requires
                    k + 1 <= count,
                    0 <= size,
            ;
            assert(0 <= k * size) by (nonlinear_arith)
                requires
                    0 <= k,
                    0 <= size,
            ;
            assert(packets[k] == whole[k]);
            assert(whole[k] == all.subrange(k * size, (k + 1) * size));
        } else {
            assert(k == count);
            let last = tail->0;
            assert(packets[k] == last);
            assert forall|i: int| 0 <= i < size && k * size + i < all.len() implies (
            #[trigger] last[i]) == all[k * size + i] by {
                assert(last.take(rest)[i] == end.pending[i]);
            }
        }
    }
}

// Media time.

/// What became of a packet.
pub enum Attempt {
    /// Its output was cancelled before it was encoded.
    Cancelled,
    /// It could not be encoded.
    Failed,
    /// It was encoded and put into this frame.
    Encoded(EncodedAudioFrame),
}

/// An encoder between two packets.
pub struct EncoderState {
    pub worker: EncoderWorker,
    pub counters: EncoderCounters,
}

/// Whether an encoded packet in its frame led from one state to the other.
pub open spec fn framed(
    before: EncoderState,
    after: EncoderState,
    frame: EncodedAudioFrame,
    packet: EncodedPacket,
    capture_timestamp_ns: u64,
    now_ns: u64,
) -> bool {
    &&& crate::audio::encoder_session::frame_of(
        before.worker,
        packet,
        capture_timestamp_ns,
        now_ns,
        frame.output_generation,
        frame,
    )
    &&& exists|
        queue: QueueView<EncodedAudioFrame>,
        sent: QueueView<EncodedAudioFrame>,
        policy: EncodedDeliveryPolicy,
        result: Delivery,
    | #[trigger]
        crate::audio::opus_worker::delivered(
            (
                queue,
                crate::audio::encoder_session::encode_counted(
                    before.counters,
                    crate::audio::encoder_session::capture_age(capture_timestamp_ns, now_ns),
                ),
            ),
            (sent, after.counters),
            frame,
            policy,
            result,
        )
}

/// Whether a packet that met this fate led from one state to the other.
pub open spec fn attempted(before: EncoderState, after: EncoderState, attempt: Attempt) -> bool {
    match attempt {
        Attempt::Cancelled => {
            &&& after.worker == before.worker
            &&& after.counters == crate::audio::opus_worker::one_cancelled_frame(before.counters)
        },
        Attempt::Failed => {
            &&& after.worker == before.worker
            &&& after.counters == crate::audio::opus_worker::one_encode_error(before.counters)
        },
        Attempt::Encoded(frame) => {
            &&& after.worker == crate::audio::encoder_session::advanced(before.worker)
            &&& exists|packet: EncodedPacket, capture_timestamp_ns: u64, now_ns: u64| #[trigger]
                framed(before, after, frame, packet, capture_timestamp_ns, now_ns)
        },
    }
}

/// How many packets were encoded.
pub open spec fn encoded_count(attempts: Seq<Attempt>) -> nat
    decreases attempts.len(),
{
    if attempts.len() == 0 {
        0
    } else if attempts.last() is Encoded {
        encoded_count(attempts.drop_last()) + 1
    } else {
        encoded_count(attempts.drop_last())
    }
}

/// Whether the attempts led through the states.
pub open spec fn is_run(states: Seq<EncoderState>, attempts: Seq<Attempt>) -> bool {
    &&& states.len() == attempts.len() + 1
    &&& forall|i: int|
        0 <= i < attempts.len() ==> attempted(states[i], states[i + 1], #[trigger] attempts[i])
}

/// Media time counts the encoded packets and nothing else: the frame of the `k`-th packet
/// that was encoded stands at `k` packet durations, whether it was delivered or dropped, and
/// whatever failed or was cancelled before it.
pub proof fn media_time_counts_encoded_packets(
    states: Seq<EncoderState>,
    attempts: Seq<Attempt>,
    i: int,
)
    requires
        is_run(states, attempts),
        states[0].worker.rtp_sample_count == 0,
        0 <= i <= attempts.len(),
    ensures
        ({
            let k = encoded_count(attempts.take(i));
            let step = states[0].worker.rtp_step_samples;
            &&& states[i].worker == (EncoderWorker {
                rtp_sample_count: crate::audio::pcm_packetizer::capped(k * step),
                rtp_step_samples: step,
            })
            &&& states[i].counters.opus_packets_out == crate::audio::opus_worker::counted(
                states[0].counters.opus_packets_out,
                k as int,
            )
            &&& i < attempts.len() ==> (attempts[i] matches Attempt::Encoded(frame)
                ==> crate::boundary::media_ticks(frame.rtp_time)
                == crate::audio::pcm_packetizer::capped(k * step)
                && crate::boundary::media_clock_hz(frame.rtp_time) == SAMPLE_RATE_HZ)
        }),
    decreases i,
{
    let step = states[0].worker.rtp_step_samples as int;
    let k = encoded_count(attempts.take(i));
    if i == 0 {
        assert(0 * step == 0) by (nonlinear_arith);
        assert(states[0].worker.rtp_sample_count == 0);
    } else {
        let m = i - 1;
        let before = encoded_count(attempts.take(m));
        media_time_counts_encoded_packets(states, attempts, m);
        assert(attempts.take(i).drop_last() =~= attempts.take(m));
        assert(attempts.take(i).last() == attempts[m]);
        assert(attempted(states[m], states[m + 1], attempts[m]));
        assert((before + 1) * step == before * step + step) by (nonlinear_arith);
        assert(0 <= before * step) by (nonlinear_arith)
            requires
                0 <= before,
                0 <= step,
        ;
    }
    if i < attempts.len() {
        assert(attempted(states[i], states[i + 1], attempts[i]));
    }
}

proof fn lemma_all_encoded(attempts: Seq<Attempt>)
    requires
        forall|i: int| 0 <= i < attempts.len() ==> (#[trigger] attempts[i]) is Encoded,
    ensures
        encoded_count(attempts) == attempts.len(),
    decreases attempts.len(),
{
    if attempts.len() > 0 {
        let front = attempts.drop_last();
        assert forall|i: int| 0 <= i < front.len() implies (#[trigger] front[i]) is Encoded by {
            assert(front[i] == attempts[i]);
        }
        lemma_all_encoded(front);
        assert(attempts[attempts.len() - 1] is Encoded);
    }
}

/// Where no packet of a source fails or is cancelled, as many are counted as its samples
/// fill, the padded one included, however they are cut into frames.
pub proof fn sources_count_every_packet<T: Default>(
    start: SessionView<T>,
    frames: Seq<Captured<T>>,
    channels: u8,
    tail: Option<Seq<T>>,
    states: Seq<EncoderState>,
    attempts: Seq<Attempt>,
)
    requires
        fresh(start, channels),
        in_a_row(frames, channels),
        tail is None <==> session_after(start, frames).packetizer.pending.len() == 0,
        tail matches Some(samples) ==> crate::audio::encoder_session::pads_tail(
            session_after(start, frames).packetizer,
            samples,
        ),
        is_run(states, attempts),
        states[0].worker.rtp_sample_count == 0,
        attempts.len() == all_packets(start, frames).len() + (if tail is Some {
            1int
        } else {
            0int
        }),
        forall|i: int| 0 <= i < attempts.len() ==> (#[trigger] attempts[i]) is Encoded,
    ensures
        states.last().counters.opus_packets_out == crate::audio::opus_worker::counted(
            states[0].counters.opus_packets_out,
            packets_for(
                all_samples(frames).len() as int,
                crate::audio::pcm_packetizer::packet_size(channels),
            ),
        ),
{
    packets_do_not_depend_on_frames(start, frames, channels, states[0].counters, tail);
    media_time_counts_encoded_packets(states, attempts, attempts.len() as int);
    assert(attempts.take(attempts.len() as int) =~= attempts);
    lemma_all_encoded(attempts);
}

} // verus!
