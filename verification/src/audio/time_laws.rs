//! What holds of capture times and of the samples that are accounted for.
use pocketstation::OutputGeneration;
use vstd::arithmetic::div_mod::{lemma_fundamental_div_mod, lemma_fundamental_div_mod_converse};
use vstd::prelude::*;

use crate::audio::encoder_session::{EncodedPacket, EncoderWorker, FrameHeader, SessionView};
use crate::audio::opus_worker::{
    Delivery, EncodedAudioFrame, EncodedDeliveryPolicy, EncoderCounters,
};
use crate::audio::pcm_packetizer::{PacketizerView, PcmPacket};
use crate::audio::source_laws::Captured;
use crate::bounded_queue::QueueView;

verus! {

// Times.

/// The time of the sample that lies `frames` sample frames into a captured frame.
pub open spec fn time_into(timestamp_ns: u64, frames: int) -> int {
    timestamp_ns + frames * 1_000_000_000 / 48_000
}

/// A packet holds 20 ms of each channel.
pub proof fn packets_hold_twenty_milliseconds(channels: u8)
    ensures
        crate::audio::pcm_packetizer::packet_size(channels) * 1000 == 20 * (48_000 * channels),
{
    let c = channels as int;
    assert((960 * c) * 1000 == 20 * (48_000 * c)) by (nonlinear_arith);
}

/// A sample has the time of its frame, and as much more as the sample frames before it take
/// at 48 kHz. Samples of one sample frame have one time, whatever the channel.
pub proof fn samples_have_their_times(timestamp_ns: u64, frames: int, channel: int, channels: u8)
    requires
        channels == 1 || channels == 2,
        0 <= channel < channels,
        0 <= frames,
        timestamp_ns + frames * 1_000_000_000 <= u64::MAX,
    ensures
        crate::audio::pcm_packetizer::sample_time(
            timestamp_ns,
            frames * channels + channel,
            channels,
        ) == time_into(timestamp_ns, frames),
{
    lemma_fundamental_div_mod_converse(
        frames * channels + channel,
        channels as int,
        frames,
        channel,
    );
}

/// The packets that one captured frame fills lie 20 ms apart, in mono and in stereo alike.
pub proof fn packets_lie_twenty_milliseconds_apart<T>(
    v: PacketizerView<T>,
    timestamp_ns: u64,
    k: int,
)
    requires
        v.channels == 1 || v.channels == 2,
        v.pending.len() == 0,
        0 <= k,
        timestamp_ns + k * 960 * 1_000_000_000 <= u64::MAX,
    ensures
        crate::audio::pcm_packetizer::packet_time(v, timestamp_ns, k) == timestamp_ns + k
            * 20_000_000,
{
    let c = v.channels as int;
    let frames = k * 960;
    let start = crate::audio::pcm_packetizer::packet_start(k, 0, v.channels);
    assert(start == frames * c + 0) by (nonlinear_arith)
        requires
            start == k * (960 * c),
            frames == k * 960,
    ;
    samples_have_their_times(timestamp_ns, frames, 0, v.channels);
}

/// The capture time of a sample of a source: that of the frame that brought it, and as much
/// more as the sample frames before it in that frame take.
pub open spec fn capture_time<T>(frames: Seq<Captured<T>>, channels: u8, i: int) -> int
    decreases frames.len(),
{
    if frames.len() == 0 {
        0
    } else {
        let before = crate::audio::source_laws::all_samples(frames.drop_last()).len();
        if i >= before {
            time_into(
                frames.last().header.capture_timestamp_ns,
                (i - before) / channels as int,
            )
        } else {
            capture_time(frames.drop_last(), channels, i)
        }
    }
}

/// Whether the clock can show all times within each frame.
pub open spec fn times_fit<T>(frames: Seq<Captured<T>>) -> bool {
    forall|i: int|
        0 <= i < frames.len() ==> (#[trigger] frames[i]).header.capture_timestamp_ns
            + frames[i].samples.len() * 1_000_000_000 <= u64::MAX
}

/// The times of the packets that one frame fills.
pub open spec fn frame_packet_times<T>(v: SessionView<T>, frame: Captured<T>) -> Seq<u64> {
    let begun = crate::audio::encoder_session::begun(v, frame.header, None);
    Seq::new(
        crate::audio::source_laws::frame_packet_samples(v, frame).len(),
        |k: int|
            crate::audio::pcm_packetizer::packet_time(
                begun,
                frame.header.capture_timestamp_ns,
                k,
            ),
    )
}

/// The times of the packets that all frames fill, in order.
pub open spec fn all_times<T>(start: SessionView<T>, frames: Seq<Captured<T>>) -> Seq<u64>
    decreases frames.len(),
{
    if frames.len() == 0 {
        Seq::empty()
    } else {
        all_times(start, frames.drop_last()) + frame_packet_times(
            crate::audio::source_laws::session_after(start, frames.drop_last()),
            frames.last(),
        )
    }
}

/// The time of the packet that begins with sample `k * size` of those that are held when a
/// frame has begun.
proof fn lemma_packet_time<T>(
    begun: PacketizerView<T>,
    frames: Seq<Captured<T>>,
    done: int,
    k: int,
)
    requires
        begun.channels == 1 || begun.channels == 2,
        frames.len() > 0,
        times_fit(frames),
        0 <= done,
        0 <= k,
        ({
            let size = crate::audio::pcm_packetizer::packet_size(begun.channels);
            let before = crate::audio::source_laws::all_samples(frames.drop_last()).len();
            &&& before == done * size + begun.pending.len()
            &&& begun.pending.len() < size
            &&& begun.pending.len() > 0 ==> begun.timestamp_ns == capture_time(
                frames.drop_last(),
                begun.channels,
                done * size,
            )
            &&& k * size < begun.pending.len() + frames.last().samples.len()
        }),
    ensures
        crate::audio::pcm_packetizer::packet_time(
            begun,
            frames.last().header.capture_timestamp_ns,
            k,
        ) == capture_time(
            frames,
            begun.channels,
            (done + k) * crate::audio::pcm_packetizer::packet_size(begun.channels),
        ),
{
    let c = begun.channels as int;
    let size = crate::audio::pcm_packetizer::packet_size(begun.channels);
    let pending = begun.pending.len() as int;
    let before = crate::audio::source_laws::all_samples(frames.drop_last()).len() as int;
    let i = (done + k) * size;
    assert(i == done * size + k * size) by (nonlinear_arith)
        requires
            i == (done + k) * size,
    ;
    if k == 0 && pending > 0 {
        assert(0 * size == 0) by (nonlinear_arith);
        assert(i < before);
    } else {
        if k == 0 {
            assert(0 * size == 0) by (nonlinear_arith);
        } else {
            assert(k * size >= size) by (nonlinear_arith)
                requires
                    k >= 1,
                    size >= 0,
            ;
        }
        let offset = k * size - pending;
        assert(i - before == offset);
        assert(0 <= offset < frames.last().samples.len());
        assert(frames.last() == frames[frames.len() - 1]);
        let ts = frames.last().header.capture_timestamp_ns;
        lemma_fundamental_div_mod(offset, c);
        let n = offset / c;
        assert(n * c == c * n) by (nonlinear_arith);
        assert(0 <= n <= offset) by (nonlinear_arith)
            requires
                offset == n * c + offset % c,
                0 <= offset % c < c,
                0 <= offset,
                c >= 1,
        ;
        samples_have_their_times(ts, n, offset % c, begun.channels);
    }
}

proof fn lemma_times<T>(
    start: SessionView<T>,
    frames: Seq<Captured<T>>,
    channels: u8,
    c: EncoderCounters,
)
    requires
        crate::audio::source_laws::fresh(start, channels),
        crate::audio::source_laws::in_a_row(frames, channels),
        times_fit(frames),
    ensures
        ({
            let size = crate::audio::pcm_packetizer::packet_size(channels);
            let count = crate::audio::source_laws::all_samples(frames).len() as int / size;
            let end = crate::audio::source_laws::session_after(start, frames);
            &&& all_times(start, frames).len() == count
            &&& forall|k: int|
                0 <= k < count ==> (#[trigger] all_times(start, frames)[k]) == capture_time(
                    frames,
                    channels,
                    k * size,
                )
            &&& end.packetizer.pending.len() > 0 ==> end.packetizer.timestamp_ns == capture_time(
                frames,
                channels,
                count * size,
            )
        }),
    decreases frames.len(),
{
    let size = crate::audio::pcm_packetizer::packet_size(channels);
    crate::audio::source_laws::lemma_run(start, frames, channels, c);
    if frames.len() == 0 {
        assert(0int / size == 0) by (nonlinear_arith)
            requires
                size > 0,
        ;
    } else {
        let front = frames.drop_last();
        let frame = frames.last();
        let n = frames.len() - 1;
        assert(frame == frames[n]);
        crate::audio::source_laws::lemma_front_in_a_row(frames, channels);
        assert(times_fit(front)) by {
            assert forall|i: int| 0 <= i < front.len() implies (
            #[trigger] front[i]).header.capture_timestamp_ns + front[i].samples.len()
                * 1_000_000_000 <= u64::MAX by {
                assert(front[i] == frames[i]);
            }
        }
        lemma_times(start, front, channels, c);
        crate::audio::source_laws::lemma_run(start, front, channels, c);
        let mid = crate::audio::source_laws::session_after(start, front);
        let end = crate::audio::source_laws::session_after(start, frames);
        let before = crate::audio::source_laws::all_samples(front);
        let all = crate::audio::source_laws::all_samples(frames);
        let done = before.len() as int / size;
        let count = all.len() as int / size;
        let begun = crate::audio::encoder_session::begun(mid, frame.header, None);
        if front.len() > 0 {
            assert(front.last() == frames[n - 1]);
            assert(frame.header.sequence_number == front.last().header.sequence_number + 1);
        }
        assert(!crate::audio::pcm_packetizer::at_gap(
            mid.packetizer,
            frame.header.sequence_number,
        ));
        assert(begun.pending == mid.packetizer.pending);
        assert(begun.timestamp_ns == mid.packetizer.timestamp_ns);
        let more = crate::audio::pcm_packetizer::packet_count(begun, frame.samples);
        assert(crate::audio::source_laws::all_packets(start, frames).len() == done + more);
        assert(count == done + more);
        let held = (begun.pending.len() + frame.samples.len()) as int;
        lemma_fundamental_div_mod(held, size);
        assert(more * size == size * more) by (nonlinear_arith);
        assert forall|k: int| 0 <= k < count implies (#[trigger] all_times(start, frames)[k])
            == capture_time(frames, channels, k * size) by {
            if k < done {
                assert(all_times(start, frames)[k] == all_times(start, front)[k]);
                assert(k * size < done * size) by (nonlinear_arith)
                    requires
                        k < done,
                        size > 0,
                ;
            } else {
                let j = k - done;
                assert(j * size < more * size) by (nonlinear_arith)
                    requires
                        j < more,
                        size > 0,
                ;
                lemma_packet_time(begun, frames, done, j);
            }
        }
        if end.packetizer.pending.len() > 0 {
            if frame.samples.len() == 0 {
                assert(more == 0) by (nonlinear_arith)
                    requires
                        held == size * more + held % size,
                        0 <= held < size,
                        0 <= held % size,
                        more >= 0,
                        size > 0,
                ;
                assert(count * size < before.len());
            } else {
                lemma_packet_time(begun, frames, done, more);
            }
        }
    }
}

/// Every packet of a source bears the capture time of its first sample, however the samples
/// are cut into frames; so does the tail that is padded at the end of the source.
pub proof fn packets_bear_the_time_of_their_first_sample<T>(
    start: SessionView<T>,
    frames: Seq<Captured<T>>,
    channels: u8,
)
    requires
        crate::audio::source_laws::fresh(start, channels),
        crate::audio::source_laws::in_a_row(frames, channels),
        times_fit(frames),
    ensures
        all_times(start, frames).len() == crate::audio::source_laws::all_packets(
            start,
            frames,
        ).len(),
        forall|k: int|
            0 <= k < all_times(start, frames).len() ==> (#[trigger] all_times(start, frames)[k])
                == capture_time(frames, channels, k * (960 * channels)),
        crate::audio::source_laws::session_after(start, frames).packetizer.pending.len() > 0
            ==> crate::audio::source_laws::session_after(start, frames).packetizer.timestamp_ns
            == capture_time(
            frames,
            channels,
            all_times(start, frames).len() * (960 * channels),
        ),
{
    let c = crate::audio::opus_worker::no_counts();
    lemma_times(start, frames, channels, c);
    crate::audio::source_laws::lemma_run(start, frames, channels, c);
}

/// The packets that a frame fills hold the samples that were pending and those of the frame,
/// in order and without a gap; where nothing was pending they lie 20 ms apart, the first at
/// the time of the frame.
pub proof fn packets_are_filled_in_order<T>(
    v: SessionView<T>,
    header: FrameHeader,
    samples: Seq<T>,
    output_generation: Option<OutputGeneration>,
    packets: Seq<PcmPacket<T>>,
    k: int,
    i: int,
)
    requires
        crate::audio::encoder_session::frame_packets(
            v,
            header,
            samples,
            output_generation,
            false,
            packets,
        ),
        v.packetizer.channels == 1 || v.packetizer.channels == 2,
        header.sample_rate_hz == 48_000,
        header.channels == v.packetizer.channels,
        samples.len() as int % v.packetizer.channels as int == 0,
        0 <= k < packets.len(),
        0 <= i < 960 * v.packetizer.channels,
    ensures
        ({
            let size = 960 * v.packetizer.channels;
            let pending = crate::audio::encoder_session::begun(
                v,
                header,
                output_generation,
            ).pending;
            &&& packets.len() * size <= pending.len() + samples.len() < packets.len() * size + size
            &&& packets[k].samples@.len() == size
            &&& packets[k].samples@[i] == (pending + samples)[k * size + i]
            &&& pending.len() == 0 && header.capture_timestamp_ns + k * 960 * 1_000_000_000
                <= u64::MAX ==> packets[k].timestamp_ns == header.capture_timestamp_ns + k
                * 20_000_000
        }),
{
    let size = crate::audio::pcm_packetizer::packet_size(v.packetizer.channels);
    let begun = crate::audio::encoder_session::begun(v, header, output_generation);
    let total = (begun.pending.len() + samples.len()) as int;
    let n = packets.len() as int;
    lemma_fundamental_div_mod(total, size);
    assert(n * size == size * n) by (nonlinear_arith);
    assert((k + 1) * size == k * size + size) by (nonlinear_arith);
    assert((k + 1) * size <= n * size) by (nonlinear_arith)
        requires
            k + 1 <= n,
            0 <= size,
    ;
    assert(0 <= k * size) by (nonlinear_arith)
        requires
            0 <= k,
            0 <= size,
    ;
    assert(packets[k].samples@ == crate::audio::pcm_packetizer::packet_samples(begun, samples, k));
    if begun.pending.len() == 0 && header.capture_timestamp_ns + k * 960 * 1_000_000_000
        <= u64::MAX {
        packets_lie_twenty_milliseconds_apart(begun, header.capture_timestamp_ns, k);
    }
}

// Samples that are accounted for.

/// Every sample of a frame that is taken goes into a packet, stays pending, or is counted as
/// discarded: at a gap as a part of a packet, at a change of the output as cancelled.
pub proof fn samples_are_accounted_for<T>(
    v: SessionView<T>,
    header: FrameHeader,
    samples: Seq<T>,
    output_generation: Option<OutputGeneration>,
    c: EncoderCounters,
)
    requires
        v.packetizer.channels == 1 || v.packetizer.channels == 2,
        header.sample_rate_hz == 48_000,
        header.channels == v.packetizer.channels,
        samples.len() as int % v.packetizer.channels as int == 0,
        c.normalization_partial_samples_discarded + v.packetizer.pending.len() <= u64::MAX,
        c.cancelled_output_samples + v.packetizer.pending.len() <= u64::MAX,
    ensures
        ({
            let after = crate::audio::encoder_session::frame_accepted(
                v,
                header,
                samples,
                output_generation,
                false,
            );
            let d = crate::audio::encoder_session::frame_counted(
                c,
                v,
                header,
                samples,
                output_generation,
                false,
            );
            let packets = crate::audio::pcm_packetizer::packet_count(
                crate::audio::encoder_session::begun(v, header, output_generation),
                samples,
            );
            &&& v.packetizer.pending.len() + samples.len() == packets * (960
                * v.packetizer.channels) + after.packetizer.pending.len() + (
            d.normalization_partial_samples_discarded - c.normalization_partial_samples_discarded)
                + (d.cancelled_output_samples - c.cancelled_output_samples)
            &&& after.packetizer.pending.len() < 960 * v.packetizer.channels
            &&& d == (EncoderCounters {
                normalization_partial_samples_discarded: d.normalization_partial_samples_discarded,
                cancelled_output_samples: d.cancelled_output_samples,
                ..c
            })
        }),
{
    let size = crate::audio::pcm_packetizer::packet_size(v.packetizer.channels);
    let begun = crate::audio::encoder_session::begun(v, header, output_generation);
    let total = (begun.pending + samples).len() as int;
    lemma_fundamental_div_mod(total, size);
    let packets = crate::audio::pcm_packetizer::packet_count(begun, samples);
    assert(packets * size == size * packets) by (nonlinear_arith);
    assert(0 <= packets * size) by (nonlinear_arith)
        requires
            0 <= packets,
            0 <= size,
    ;
}

/// A frame goes on where the one before ended exactly if its number is the next and its
/// output is the same. Otherwise it begins a packet of its own. The next number is then
/// expected.
pub proof fn frames_go_on_only_in_sequence<T>(
    v: PacketizerView<T>,
    sequence_number: u64,
    generation: Option<u64>,
)
    requires
        sequence_number < u64::MAX,
    ensures
        ({
            let begun = crate::audio::pcm_packetizer::frame_begun(
                crate::audio::pcm_packetizer::owned_by(v, generation),
                sequence_number,
            );
            let goes_on = v.generation == generation && (v.expected is None || v.expected == Some(
                sequence_number,
            ));
            &&& goes_on ==> begun.pending == v.pending && begun.timestamp_ns == v.timestamp_ns
            &&& !goes_on ==> begun.pending.len() == 0
            &&& begun.generation == generation
            &&& begun.channels == v.channels
            &&& begun.expected == Some((sequence_number + 1) as u64)
        }),
{
}

/// A frame that cannot be taken changes nothing but one count: of cancelled frames where its
/// output is cancelled, and of errors where it has another rate, another layout, or samples
/// that make up no whole channels. It fills no packet.
pub proof fn frames_that_cannot_be_taken_are_counted<T>(
    v: SessionView<T>,
    header: FrameHeader,
    samples: Seq<T>,
    output_generation: Option<OutputGeneration>,
    cancelled: bool,
    c: EncoderCounters,
)
    requires
        header.sample_rate_hz != 48_000 || header.channels != v.packetizer.channels || cancelled
            || samples.len() as int % v.packetizer.channels as int != 0,
        c.opus_encode_errors < u64::MAX,
        c.cancelled_output_frames < u64::MAX,
    ensures
        crate::audio::encoder_session::frame_accepted(
            v,
            header,
            samples,
            output_generation,
            cancelled,
        ) == v,
        forall|packets: Seq<PcmPacket<T>>|
            crate::audio::encoder_session::frame_packets(
                v,
                header,
                samples,
                output_generation,
                cancelled,
                packets,
            ) ==> packets.len() == 0,
        crate::audio::encoder_session::frame_counted(
            c,
            v,
            header,
            samples,
            output_generation,
            cancelled,
        ) == (if header.sample_rate_hz == 48_000 && header.channels == v.packetizer.channels
            && cancelled {
            EncoderCounters {
                cancelled_output_frames: (c.cancelled_output_frames + 1) as u64,
                ..c
            }
        } else {
            EncoderCounters { opus_encode_errors: (c.opus_encode_errors + 1) as u64, ..c }
        }),
{
}

// Ages.

/// The age of an encoded frame is the time from its capture to its encoding, and unknown
/// where the source does not say when it captured. It carries what the encoder made, and
/// its time on the media clock.
pub proof fn frames_know_their_age(
    worker: EncoderWorker,
    packet: EncodedPacket,
    capture_timestamp_ns: u64,
    now_ns: u64,
    output_generation: Option<OutputGeneration>,
    frame: EncodedAudioFrame,
)
    requires
        crate::audio::encoder_session::frame_of(
            worker,
            packet,
            capture_timestamp_ns,
            now_ns,
            output_generation,
            frame,
        ),
    ensures
        frame.capture_timestamp_ns == capture_timestamp_ns,
        0 < capture_timestamp_ns <= now_ns ==> frame.capture_timestamp_ns + frame.capture_age_ns
            == now_ns,
        capture_timestamp_ns == 0 || now_ns <= capture_timestamp_ns ==> frame.capture_age_ns == 0,
        frame.payload@ == packet.payload@,
        frame.audio_level == packet.audio_level,
        frame.output_generation == output_generation,
        crate::boundary::media_ticks(frame.rtp_time) == worker.rtp_sample_count,
        crate::boundary::media_clock_hz(frame.rtp_time) == 48_000,
        worker.rtp_step_samples <= u32::MAX ==> frame.duration_samples == worker.rtp_step_samples,
        worker.rtp_step_samples > u32::MAX ==> frame.duration_samples == u32::MAX,
{
}

/// An age that is known is added to the sum and counted once, the greatest one is kept, and
/// one over the budget is counted as such. An unknown one changes nothing, and no age
/// changes any other count.
pub proof fn ages_are_observed_once(c: EncoderCounters, age: u64)
    requires
        c.capture_age_sum_ns + age <= u64::MAX,
        c.capture_age_sample_count < u64::MAX,
        c.capture_age_over_budget < u64::MAX,
    ensures
        ({
            let d = crate::audio::opus_worker::age_observed(c, age);
            &&& d.capture_age_sum_ns == c.capture_age_sum_ns + age
            &&& d.capture_age_sample_count - c.capture_age_sample_count == (if age > 0 {
                1int
            } else {
                0int
            })
            &&& d.capture_age_max_ns >= c.capture_age_max_ns
            &&& d.capture_age_max_ns >= age
            &&& d.capture_age_max_ns == c.capture_age_max_ns || d.capture_age_max_ns == age
            &&& d.capture_age_over_budget - c.capture_age_over_budget == (if age
                > 40_000_000 {
                1int
            } else {
                0int
            })
            &&& d == (EncoderCounters {
                capture_age_sum_ns: d.capture_age_sum_ns,
                capture_age_sample_count: d.capture_age_sample_count,
                capture_age_max_ns: d.capture_age_max_ns,
                capture_age_over_budget: d.capture_age_over_budget,
                ..c
            })
        }),
{
}

/// Counting adds up, as long as the count fits; and each thing that is counted changes no
/// other count.
pub proof fn counts_add_up(c: EncoderCounters, count: u64, more: u64)
    requires
        count + more <= u64::MAX,
        c.opus_packets_out < u64::MAX,
        c.opus_encode_errors < u64::MAX,
        c.encoded_channel_drops < u64::MAX,
        c.cancelled_output_frames < u64::MAX,
    ensures
        crate::audio::opus_worker::counted(count, more as int) == count + more,
        crate::audio::opus_worker::one_packet_out(c) == (EncoderCounters {
            opus_packets_out: (c.opus_packets_out + 1) as u64,
            ..c
        }),
        crate::audio::opus_worker::one_encode_error(c) == (EncoderCounters {
            opus_encode_errors: (c.opus_encode_errors + 1) as u64,
            ..c
        }),
        crate::audio::opus_worker::one_channel_drop(c) == (EncoderCounters {
            encoded_channel_drops: (c.encoded_channel_drops + 1) as u64,
            ..c
        }),
        crate::audio::opus_worker::one_cancelled_frame(c) == (EncoderCounters {
            cancelled_output_frames: (c.cancelled_output_frames + 1) as u64,
            ..c
        }),
{
}

/// Sums that do not fit stop at the greatest number, and no others change.
pub proof fn sums_stop_at_the_end(n: int)
    requires
        n >= 0,
    ensures
        n <= u64::MAX ==> crate::audio::pcm_packetizer::capped(n) == n,
        n >= u64::MAX ==> crate::audio::pcm_packetizer::capped(n) == u64::MAX,
{
}

/// An encoded packet is counted once, with its age.
pub proof fn encoded_packets_are_counted_with_their_age(c: EncoderCounters, age: u64)
    requires
        c.opus_packets_out < u64::MAX,
        c.capture_age_sum_ns + age <= u64::MAX,
        c.capture_age_sample_count < u64::MAX,
        c.capture_age_over_budget < u64::MAX,
    ensures
        ({
            let d = crate::audio::encoder_session::encode_counted(c, age);
            &&& d.opus_packets_out == c.opus_packets_out + 1
            &&& d.capture_age_sum_ns == c.capture_age_sum_ns + age
            &&& d.capture_age_sample_count == c.capture_age_sample_count + (if age > 0 {
                1int
            } else {
                0int
            })
            &&& d.capture_age_over_budget == c.capture_age_over_budget + (if age > 40_000_000 {
                1int
            } else {
                0int
            })
            &&& d.opus_encode_errors == c.opus_encode_errors
            &&& d.encoded_channel_drops == c.encoded_channel_drops
            &&& d.cancelled_output_frames == c.cancelled_output_frames
        }),
{
}

/// The packets that a session holds belong to the output of the frame that it took last.
pub proof fn packets_belong_to_the_output_of_their_frame<T>(
    v: SessionView<T>,
    header: FrameHeader,
    samples: Seq<T>,
    output_generation: Option<OutputGeneration>,
)
    requires
        header.sample_rate_hz == 48_000,
        header.channels == v.packetizer.channels,
        samples.len() as int % v.packetizer.channels as int == 0,
    ensures
        ({
            let after = crate::audio::encoder_session::frame_accepted(
                v,
                header,
                samples,
                output_generation,
                false,
            );
            &&& after.output is None <==> output_generation is None
            &&& after.output is Some ==> crate::boundary::generation_number(after.output->0)
                == crate::boundary::generation_number(output_generation->0)
            &&& after.packetizer.generation == (match output_generation {
                Some(generation) => Some(crate::boundary::generation_number(generation)),
                None => None,
            })
            &&& after.packetizer.channels == v.packetizer.channels
            &&& after.worker == v.worker
        }),
{
}

/// A frame of no generation is handed over, whatever else is asked: it stands last in the
/// queue where there is room. Where there is none it waits or is dropped, as its policy says.
pub proof fn frames_without_a_generation_are_handed_over(
    before: (QueueView<EncodedAudioFrame>, EncoderCounters),
    after: (QueueView<EncodedAudioFrame>, EncoderCounters),
    frame: EncodedAudioFrame,
    policy: EncodedDeliveryPolicy,
    result: Delivery,
)
    requires
        crate::audio::opus_worker::delivered(before, after, frame, policy, result),
        frame.output_generation is None,
        before.0.receiver_open,
        before.1.encoded_channel_drops < u64::MAX,
    ensures
        before.0.items.len() < before.0.capacity ==> {
            &&& after.0.items == before.0.items.push(frame)
            &&& after.1 == before.1
            &&& result is Done
        },
        before.0.items.len() >= before.0.capacity ==> {
            &&& after.0.items == before.0.items
            &&& policy == EncodedDeliveryPolicy::PreserveWithBackpressure ==> after.1 == before.1
                && result == Delivery::Waiting(frame)
            &&& policy == EncodedDeliveryPolicy::DropNewest ==> result is Done && after.1 == (
            EncoderCounters {
                encoded_channel_drops: (before.1.encoded_channel_drops + 1) as u64,
                ..before.1
            })
        },
{
}

/// A frame that is not handed over although there is room was cancelled, by the answer of its
/// generation. It is counted and left out of the queue.
pub proof fn frames_are_left_out_only_where_cancelled(
    before: (QueueView<EncodedAudioFrame>, EncoderCounters),
    after: (QueueView<EncodedAudioFrame>, EncoderCounters),
    frame: EncodedAudioFrame,
    policy: EncodedDeliveryPolicy,
    result: Delivery,
)
    requires
        crate::audio::opus_worker::delivered(before, after, frame, policy, result),
        before.0.receiver_open,
        before.0.items.len() < before.0.capacity,
        after.0.items != before.0.items.push(frame),
        before.1.cancelled_output_frames < u64::MAX,
    ensures
        frame.output_generation matches Some(generation) && call_ensures(
            OutputGeneration::is_active,
            (&generation,),
            false,
        ),
        after.0 == before.0,
        after.1 == (EncoderCounters {
            cancelled_output_frames: (before.1.cancelled_output_frames + 1) as u64,
            ..before.1
        }),
        result is Done,
{
}

/// The tail of a source goes out as one full packet: what was left, in order, and behind it
/// nothing but silence.
pub proof fn tails_are_filled_with_silence<T: Default>(
    v: PacketizerView<T>,
    samples: Seq<T>,
    i: int,
)
    requires
        crate::audio::encoder_session::pads_tail(v, samples),
        v.pending.len() <= 960 * v.channels,
        0 <= i < samples.len(),
    ensures
        samples.len() == 960 * v.channels,
        i < v.pending.len() ==> samples[i] == v.pending[i],
        i >= v.pending.len() ==> call_ensures(T::default, (), samples[i]),
{
    if i < v.pending.len() {
        assert(samples.take(v.pending.len() as int)[i] == v.pending[i]);
    }
}

} // verus!
