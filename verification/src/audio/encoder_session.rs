//! The encoder between captured frames and the publisher.
//!
//! Whoever runs a session hands it the captured frames one by one, encodes each packet
//! that comes out, and hands the result back. At the end of the source the session
//! gives one last packet, padded with silence.
use pocketstation::OutputGeneration;
use std::time::Instant;
use vstd::prelude::*;

use crate::audio::clock::monotonic_ns;
use crate::audio::opus_worker::{
    count_up, deliver_encoded_frame, is_cancelled, observe_capture_age, Delivery,
    EncodedAudioFrame, EncodedDeliveryPolicy, EncoderCounters,
};
use crate::audio::pcm_packetizer::{
    PacketizerView, PcmPacket, PcmPacketizer, PcmPacketizerError, SAMPLE_RATE_HZ,
};
use crate::boundary::{generation_id, media_time_48khz};
use crate::bounded_queue::BoundedQueue;

verus! {

// Packets on the media clock.

/// What the encoder made of a packet.
pub struct EncodedPacket {
    pub payload: Vec<u8>,
    pub audio_level: Option<i8>,
}

/// The place of the encoder on the media clock.
#[derive(Debug, Clone, Copy, PartialEq, Eq, Structural)]
pub struct EncoderWorker {
    pub rtp_sample_count: u64,
    pub rtp_step_samples: u64,
}

/// The worker after one more packet. The clock stops at its end.
pub open spec fn advanced(worker: EncoderWorker) -> EncoderWorker {
    EncoderWorker {
        rtp_sample_count: crate::audio::pcm_packetizer::capped(
            worker.rtp_sample_count + worker.rtp_step_samples,
        ),
        ..worker
    }
}

/// The time from capture to now, or zero if the source does not say when it captured.
pub open spec fn capture_age(capture_timestamp_ns: u64, now_ns: u64) -> u64 {
    if capture_timestamp_ns > 0 && now_ns > capture_timestamp_ns {
        (now_ns - capture_timestamp_ns) as u64
    } else {
        0
    }
}

/// Whether a frame is the one that carries an encoded packet, as of the given time.
pub open spec fn frame_of(
    worker: EncoderWorker,
    packet: EncodedPacket,
    capture_timestamp_ns: u64,
    now_ns: u64,
    output_generation: Option<OutputGeneration>,
    frame: EncodedAudioFrame,
) -> bool {
    &&& frame.payload@ == packet.payload@
    &&& frame.audio_level == packet.audio_level
    &&& crate::boundary::media_ticks(frame.rtp_time) == worker.rtp_sample_count
    &&& crate::boundary::media_clock_hz(frame.rtp_time) == SAMPLE_RATE_HZ
    &&& frame.duration_samples == (if worker.rtp_step_samples <= u32::MAX {
        worker.rtp_step_samples as u32
    } else {
        u32::MAX
    })
    &&& frame.capture_timestamp_ns == capture_timestamp_ns
    &&& frame.capture_age_ns == capture_age(capture_timestamp_ns, now_ns)
    &&& frame.output_generation == output_generation
}

/// The counters after a packet has been encoded.
pub open spec fn encode_counted(c: EncoderCounters, capture_age_ns: u64) -> EncoderCounters {
    crate::audio::opus_worker::age_observed(
        crate::audio::opus_worker::one_packet_out(c),
        capture_age_ns,
    )
}

impl EncoderWorker {
    /// A worker at the beginning of the media clock.
    pub fn new(rtp_step_samples: u64) -> (worker: EncoderWorker)
        ensures
            worker == (EncoderWorker { rtp_sample_count: 0, rtp_step_samples }),
    {
        EncoderWorker { rtp_sample_count: 0, rtp_step_samples }
    }

    /// Puts an encoded packet into a frame, as of the given time.
    pub fn frame_packet(
        &mut self,
        packet: EncodedPacket,
        capture_timestamp_ns: u64,
        output_generation: Option<OutputGeneration>,
        now_ns: u64,
        wallclock: Instant,
        counters: &mut EncoderCounters,
    ) -> (frame: EncodedAudioFrame)
        ensures
            frame_of(
                *old(self),
                packet,
                capture_timestamp_ns,
                now_ns,
                output_generation,
                frame,
            ),
            frame.wallclock == wallclock,
            *final(self) == advanced(*old(self)),
            *final(counters) == encode_counted(
                *old(counters),
                capture_age(capture_timestamp_ns, now_ns),
            ),
    {
        counters.opus_packets_out = count_up(counters.opus_packets_out, 1);
        let capture_age_ns: u64 = if capture_timestamp_ns > 0 {
            now_ns.saturating_sub(capture_timestamp_ns)
        } else {
            0
        };
        observe_capture_age(counters, capture_age_ns);
        let duration_samples: u32 = if self.rtp_step_samples <= u32::MAX as u64 {
            self.rtp_step_samples as u32
        } else {
            u32::MAX
        };
        let frame = EncodedAudioFrame {
            payload: packet.payload,
            wallclock,
            rtp_time: media_time_48khz(self.rtp_sample_count),
            duration_samples,
            audio_level: packet.audio_level,
            capture_timestamp_ns,
            capture_age_ns,
            output_generation,
        };
        self.rtp_sample_count = self.rtp_sample_count.saturating_add(self.rtp_step_samples);
        frame
    }

    /// Hands over what the encoder made of a packet, or counts that it failed.
    pub fn deliver(
        &mut self,
        encoded: Option<EncodedPacket>,
        capture_timestamp_ns: u64,
        output_generation: Option<OutputGeneration>,
        queue: &mut BoundedQueue<EncodedAudioFrame>,
        delivery_policy: EncodedDeliveryPolicy,
        counters: &mut EncoderCounters,
    ) -> (r: Delivery)
        requires
            old(queue).wf(),
        ensures
            final(queue).wf(),
            encoded is None ==> {
                &&& r is Done
                &&& *final(self) == *old(self)
                &&& final(queue)@ == old(queue)@
                &&& *final(counters) == crate::audio::opus_worker::one_encode_error(*old(counters))
            },
            encoded matches Some(packet) ==> *final(self) == advanced(*old(self)) && (exists|
                frame: EncodedAudioFrame,
                now_ns: u64,
            |
                {
                    &&& crate::audio::clock::clock_showed(now_ns)
                    &&& call_ensures(Instant::now, (), frame.wallclock)
                    &&& #[trigger] frame_of(
                        *old(self),
                        packet,
                        capture_timestamp_ns,
                        now_ns,
                        output_generation,
                        frame,
                    )
                    &&& crate::audio::opus_worker::delivered(
                        (
                            old(queue)@,
                            encode_counted(
                                *old(counters),
                                capture_age(capture_timestamp_ns, now_ns),
                            ),
                        ),
                        (final(queue)@, *final(counters)),
                        frame,
                        delivery_policy,
                        r,
                    )
                }),
    {
        let packet = match encoded {
            Some(packet) => packet,
            None => {
                counters.opus_encode_errors = count_up(counters.opus_encode_errors, 1);
                return Delivery::Done;
            },
        };
        let now_ns: u64 = monotonic_ns();
        let wallclock = Instant::now();
        let frame = self.frame_packet(
            packet,
            capture_timestamp_ns,
            output_generation,
            now_ns,
            wallclock,
            counters,
        );
        assert(frame_of(
            *old(self),
            packet,
            capture_timestamp_ns,
            now_ns,
            output_generation,
            frame,
        ));
        deliver_encoded_frame(queue, frame, delivery_policy, counters)
    }
}

// Sessions.

/// What comes with the samples of a captured frame.
#[derive(Debug, Clone, Copy, PartialEq, Eq, Structural)]
pub struct FrameHeader {
    pub sample_rate_hz: u32,
    pub channels: u8,
    pub sequence_number: u64,
    /// When the first sample was captured, or zero if the source does not say.
    pub capture_timestamp_ns: u64,
}

/// What a session holds.
pub struct SessionView<T> {
    pub packetizer: PacketizerView<T>,
    pub output: Option<OutputGeneration>,
    pub worker: EncoderWorker,
}

/// What becomes of a captured frame.
pub enum Admission {
    /// It has another rate or layout than the session.
    Unsupported,
    /// Its output was cancelled.
    Cancelled,
    /// Its samples do not make up whole channels.
    Misaligned,
    Accepted,
}

pub open spec fn admission<T>(
    v: SessionView<T>,
    header: FrameHeader,
    samples: Seq<T>,
    cancelled: bool,
) -> Admission {
    if header.sample_rate_hz != SAMPLE_RATE_HZ || header.channels != v.packetizer.channels {
        Admission::Unsupported
    } else if cancelled {
        Admission::Cancelled
    } else if samples.len() as int % v.packetizer.channels as int != 0 {
        Admission::Misaligned
    } else {
        Admission::Accepted
    }
}

pub open spec fn number_of(output_generation: Option<OutputGeneration>) -> Option<u64> {
    match output_generation {
        Some(generation) => Some(crate::boundary::generation_number(generation)),
        None => None,
    }
}

/// The packetizer once it has begun the frame for that output.
pub open spec fn begun<T>(
    v: SessionView<T>,
    header: FrameHeader,
    output_generation: Option<OutputGeneration>,
) -> PacketizerView<T> {
    crate::audio::pcm_packetizer::frame_begun(
        crate::audio::pcm_packetizer::owned_by(v.packetizer, number_of(output_generation)),
        header.sequence_number,
    )
}

/// The session after a frame.
pub open spec fn frame_accepted<T>(
    v: SessionView<T>,
    header: FrameHeader,
    samples: Seq<T>,
    output_generation: Option<OutputGeneration>,
    cancelled: bool,
) -> SessionView<T> {
    if admission(v, header, samples, cancelled) is Accepted {
        SessionView {
            packetizer: crate::audio::pcm_packetizer::frame_packetized(
                begun(v, header, output_generation),
                samples,
                header.capture_timestamp_ns,
            ),
            output: if number_of(v.output) == number_of(output_generation) {
                v.output
            } else {
                output_generation
            },
            ..v
        }
    } else {
        v
    }
}

/// The counters after a frame.
pub open spec fn frame_counted<T>(
    c: EncoderCounters,
    v: SessionView<T>,
    header: FrameHeader,
    samples: Seq<T>,
    output_generation: Option<OutputGeneration>,
    cancelled: bool,
) -> EncoderCounters {
    match admission(v, header, samples, cancelled) {
        Admission::Unsupported => crate::audio::opus_worker::one_encode_error(c),
        Admission::Cancelled => crate::audio::opus_worker::one_cancelled_frame(c),
        Admission::Misaligned => crate::audio::opus_worker::one_encode_error(c),
        Admission::Accepted => {
            let owned = crate::audio::pcm_packetizer::owned_by(
                v.packetizer,
                number_of(output_generation),
            );
            EncoderCounters {
                normalization_partial_samples_discarded: crate::audio::opus_worker::counted(
                    c.normalization_partial_samples_discarded,
                    owned.pending.len() - begun(v, header, output_generation).pending.len(),
                ),
                cancelled_output_samples: crate::audio::opus_worker::counted(
                    c.cancelled_output_samples,
                    v.packetizer.pending.len() - owned.pending.len(),
                ),
                ..c
            }
        },
    }
}

/// Whether these are the packets that a frame fills.
pub open spec fn frame_packets<T>(
    v: SessionView<T>,
    header: FrameHeader,
    samples: Seq<T>,
    output_generation: Option<OutputGeneration>,
    cancelled: bool,
    packets: Seq<PcmPacket<T>>,
) -> bool {
    let start = begun(v, header, output_generation);
    if admission(v, header, samples, cancelled) is Accepted {
        &&& packets.len() == crate::audio::pcm_packetizer::packet_count(start, samples)
        &&& forall|k: int|
            0 <= k < packets.len() ==> {
                &&& (#[trigger] packets[k]).samples@
                    == crate::audio::pcm_packetizer::packet_samples(start, samples, k)
                &&& packets[k].timestamp_ns == crate::audio::pcm_packetizer::packet_time(
                    start,
                    header.capture_timestamp_ns,
                    k,
                )
            }
    } else {
        packets.len() == 0
    }
}

/// How much silence the last packet of a source needs.
pub open spec fn tail_padding<T>(v: PacketizerView<T>) -> int {
    if v.pending.len() == 0 {
        0
    } else {
        crate::audio::pcm_packetizer::packet_size(v.channels) - v.pending.len()
    }
}

/// Whether these samples are what is pending, with silence up to a whole packet.
pub open spec fn pads_tail<T: Default>(v: PacketizerView<T>, samples: Seq<T>) -> bool {
    &&& samples.len() == crate::audio::pcm_packetizer::packet_size(v.channels)
    &&& samples.take(v.pending.len() as int) == v.pending
    &&& forall|i: int|
        v.pending.len() <= i < samples.len() ==> call_ensures(T::default, (), #[trigger] samples[i])
}

/// The state of the encoder of one source.
pub struct EncoderSession<T> {
    packetizer: PcmPacketizer<T>,
    packet_output: Option<OutputGeneration>,
    worker: EncoderWorker,
    channels: u8,
}

impl<T> View for EncoderSession<T> {
    type V = SessionView<T>;

    closed spec fn view(&self) -> SessionView<T> {
        SessionView {
            packetizer: self.packetizer@,
            output: self.packet_output,
            worker: self.worker,
        }
    }
}

fn id_of(output_generation: &Option<OutputGeneration>) -> (id: Option<u64>)
    ensures
        id == number_of(*output_generation),
{
    match output_generation {
        Some(generation) => Some(generation_id(generation)),
        None => None,
    }
}

fn same_id(a: Option<u64>, b: Option<u64>) -> (r: bool)
    ensures
        r == (a == b),
{
    match (a, b) {
        (Some(a), Some(b)) => a == b,
        (None, None) => true,
        _ => false,
    }
}

impl<T: Copy + Default> EncoderSession<T> {
    /// Between two frames there is less than one packet pending, and the packets belong
    /// to the output that owns the pending samples.
    pub closed spec fn wf(&self) -> bool {
        &&& self.packetizer.wf()
        &&& self.channels == self.packetizer@.channels
        &&& self.packetizer@.pending.len() < crate::audio::pcm_packetizer::packet_size(
            self.channels,
        )
        &&& number_of(self.packet_output) == self.packetizer@.generation
    }

    /// A session for one source.
    pub fn new(channels: u8, rtp_step_samples: u64) -> (r: Result<
        EncoderSession<T>,
        PcmPacketizerError,
    >)
        ensures
            r is Ok <==> channels == 1 || channels == 2,
            r matches Ok(session) ==> {
                &&& session.wf()
                &&& session@.packetizer == (PacketizerView {
                    pending: Seq::<T>::empty(),
                    channels,
                    timestamp_ns: 0,
                    expected: None,
                    generation: None,
                })
                &&& session@.output is None
                &&& session@.worker == (EncoderWorker { rtp_sample_count: 0, rtp_step_samples })
            },
            r matches Err(error) ==> error == PcmPacketizerError::UnsupportedChannelCount(
                channels,
            ),
    {
        match PcmPacketizer::new(SAMPLE_RATE_HZ, channels) {
            Ok(packetizer) => Ok(
                EncoderSession {
                    packetizer,
                    packet_output: None,
                    worker: EncoderWorker::new(rtp_step_samples),
                    channels,
                },
            ),
            Err(error) => Err(error),
        }
    }

    /// Takes a captured frame, given whether its output was cancelled, and returns the
    /// packets that it fills.
    pub fn accept_unless_cancelled(
        &mut self,
        header: FrameHeader,
        samples: &[T],
        output_generation: Option<OutputGeneration>,
        cancelled: bool,
        counters: &mut EncoderCounters,
    ) -> (packets: Vec<PcmPacket<T>>)
        requires
            old(self).wf(),
        ensures
            final(self).wf(),
            final(self)@ == frame_accepted(
                old(self)@,
                header,
                samples@,
                output_generation,
                cancelled,
            ),
            *final(counters) == frame_counted(
                *old(counters),
                old(self)@,
                header,
                samples@,
                output_generation,
                cancelled,
            ),
            frame_packets(
                old(self)@,
                header,
                samples@,
                output_generation,
                cancelled,
                packets@,
            ),
    {
        if header.sample_rate_hz != SAMPLE_RATE_HZ || header.channels != self.channels {
            counters.opus_encode_errors = count_up(counters.opus_encode_errors, 1);
            return Vec::new();
        }
        if cancelled {
            counters.cancelled_output_frames = count_up(counters.cancelled_output_frames, 1);
            return Vec::new();
        }
        let id = id_of(&output_generation);
        let boundary = match self.packetizer.begin_output_frame(
            header.sequence_number,
            samples.len(),
            id,
        ) {
            Ok(boundary) => boundary,
            Err(_) => {
                counters.opus_encode_errors = count_up(counters.opus_encode_errors, 1);
                return Vec::new();
            },
        };
        if !same_id(self.packetizer.output_generation_id(), id_of(&self.packet_output)) {
            self.packet_output = output_generation;
        }
        counters.normalization_partial_samples_discarded =
        count_up(
            counters.normalization_partial_samples_discarded,
            boundary.discontinuity_discarded_samples as u64,
        );
        counters.cancelled_output_samples =
        count_up(
            counters.cancelled_output_samples,
            boundary.cancelled_output_discarded_samples as u64,
        );
        self.packetizer.packetize(samples, header.capture_timestamp_ns)
    }

    /// Takes a captured frame and returns the packets that it fills. A frame whose
    /// output turns out to be cancelled fills none.
    pub fn accept(
        &mut self,
        header: FrameHeader,
        samples: &[T],
        output_generation: Option<OutputGeneration>,
        counters: &mut EncoderCounters,
    ) -> (packets: Vec<PcmPacket<T>>)
        requires
            old(self).wf(),
        ensures
            final(self).wf(),
            exists|cancelled: bool|
                {
                    &&& crate::audio::opus_worker::answers_cancelled(output_generation, cancelled)
                    &&& final(self)@ == frame_accepted(
                        old(self)@,
                        header,
                        samples@,
                        output_generation,
                        cancelled,
                    )
                    &&& *final(counters) == frame_counted(
                        *old(counters),
                        old(self)@,
                        header,
                        samples@,
                        output_generation,
                        cancelled,
                    )
                    &&& #[trigger] frame_packets(
                        old(self)@,
                        header,
                        samples@,
                        output_generation,
                        cancelled,
                        packets@,
                    )
                },
    {
        let cancelled = is_cancelled(&output_generation);
        self.accept_unless_cancelled(header, samples, output_generation, cancelled, counters)
    }

    /// Whether the next packet is to be encoded. One whose output turns out to be
    /// cancelled is counted and not encoded.
    pub fn admit_packet(&self, counters: &mut EncoderCounters) -> (r: bool)
        ensures
            crate::audio::opus_worker::answers_cancelled(self@.output, !r),
            *final(counters) == (if r {
                *old(counters)
            } else {
                crate::audio::opus_worker::one_cancelled_frame(*old(counters))
            }),
    {
        if is_cancelled(&self.packet_output) {
            counters.cancelled_output_frames = count_up(counters.cancelled_output_frames, 1);
            false
        } else {
            true
        }
    }

    /// Hands over what the encoder made of a packet, or counts that it failed.
    pub fn encode_and_deliver(
        &mut self,
        encoded: Option<EncodedPacket>,
        capture_timestamp_ns: u64,
        queue: &mut BoundedQueue<EncodedAudioFrame>,
        delivery_policy: EncodedDeliveryPolicy,
        counters: &mut EncoderCounters,
    ) -> (r: Delivery)
        requires
            old(self).wf(),
            old(queue).wf(),
        ensures
            final(self).wf(),
            final(queue).wf(),
            final(self)@.packetizer == old(self)@.packetizer,
            final(self)@.output == old(self)@.output,
            encoded is None ==> {
                &&& r is Done
                &&& final(self)@.worker == old(self)@.worker
                &&& final(queue)@ == old(queue)@
                &&& *final(counters) == crate::audio::opus_worker::one_encode_error(*old(counters))
            },
            encoded matches Some(packet) ==> final(self)@.worker == advanced(old(self)@.worker)
                && (exists|frame: EncodedAudioFrame, now_ns: u64, output: Option<OutputGeneration>|
                {
                    &&& crate::audio::clock::clock_showed(now_ns)
                    &&& call_ensures(Instant::now, (), frame.wallclock)
                    &&& number_of(output) == number_of(old(self)@.output)
                    &&& #[trigger] frame_of(
                        old(self)@.worker,
                        packet,
                        capture_timestamp_ns,
                        now_ns,
                        output,
                        frame,
                    )
                    &&& crate::audio::opus_worker::delivered(
                        (
                            old(queue)@,
                            encode_counted(
                                *old(counters),
                                capture_age(capture_timestamp_ns, now_ns),
                            ),
                        ),
                        (final(queue)@, *final(counters)),
                        frame,
                        delivery_policy,
                        r,
                    )
                }),
    {
        let output = match &self.packet_output {
            Some(generation) => Some(generation.clone()),
            None => None,
        };
        let ghost worker = self.worker;
        assert(number_of(output) == number_of(old(self)@.output));
        let r = self.worker.deliver(
            encoded,
            capture_timestamp_ns,
            output,
            queue,
            delivery_policy,
            counters,
        );
        assert(worker == old(self)@.worker);
        assert(self.worker == self@.worker);
        r
    }

    /// Ends the source: pads what is pending with silence to one last packet.
    pub fn finish(&mut self, counters: &mut EncoderCounters) -> (packet: Option<PcmPacket<T>>)
        requires
            old(self).wf(),
        ensures
            final(self).wf(),
            packet is None <==> old(self)@.packetizer.pending.len() == 0,
            packet is None ==> *final(self) == *old(self) && *final(counters) == *old(counters),
            packet matches Some(packet) ==> {
                &&& packet.timestamp_ns == old(self)@.packetizer.timestamp_ns
                &&& pads_tail(old(self)@.packetizer, packet.samples@)
                &&& final(self)@.packetizer == crate::audio::pcm_packetizer::emptied(
                    old(self)@.packetizer,
                )
                &&& final(self)@.output == old(self)@.output
                &&& final(self)@.worker == old(self)@.worker
                &&& *final(counters) == (EncoderCounters {
                    normalization_tail_padding_samples_total: crate::audio::opus_worker::counted(
                        old(counters).normalization_tail_padding_samples_total,
                        tail_padding(old(self)@.packetizer),
                    ),
                    ..*old(counters)
                })
            },
    {
        match self.packetizer.pad_tail() {
            Some(padding) => {
                counters.normalization_tail_padding_samples_total =
                count_up(counters.normalization_tail_padding_samples_total, padding as u64);
                self.packetizer.take_packet()
            },
            None => None,
        }
    }
}

} // verus!
