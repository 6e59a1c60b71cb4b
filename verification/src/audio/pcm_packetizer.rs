//! Fixed-capacity PCM packetization for the relay media worker.
//!
//! Capture delivers frames of any width, while the encoder takes packets of one exact
//! duration. The packetizer stands between them, outside of capture callbacks.
use vstd::prelude::*;
use vstd::slice::slice_subrange;

use crate::numeral::push_decimal;
use crate::text::{push_chars, to_chars};

verus! {

pub const SAMPLE_RATE_HZ: u32 = 48_000;

/// The samples of one channel in a packet of 20 ms.
pub const OPUS_FRAME_SAMPLES: usize = 960;

pub const NANOS_PER_SECOND: u64 = 1_000_000_000;

#[derive(Debug, Clone, Copy, PartialEq, Eq, Structural)]
pub enum PcmPacketizerError {
    UnsupportedChannelCount(u8),
    UnsupportedSampleRate(u32),
    MisalignedInput { samples: usize, channels: u8 },
}

pub open spec fn packetizer_error_text(error: PcmPacketizerError) -> Seq<char> {
    match error {
        PcmPacketizerError::UnsupportedChannelCount(channels) => {
            "relay PCM input has unsupported channel count "@ + crate::numeral::decimal(
                channels as nat,
            )
        },
        PcmPacketizerError::UnsupportedSampleRate(sample_rate_hz) => {
            "relay PCM input has unsupported sample rate "@ + crate::numeral::decimal(
                sample_rate_hz as nat,
            ) + " Hz; expected 48000 Hz"@
        },
        PcmPacketizerError::MisalignedInput { samples, channels } => {
            "relay PCM input has "@ + crate::numeral::decimal(samples as nat)
                + " interleaved samples, which is not aligned to "@ + crate::numeral::decimal(
                channels as nat,
            ) + " channels"@
        },
    }
}

fn push_str(out: &mut String, text: &str)
    ensures
        final(out)@ == old(out)@ + text@,
{
    let chars = to_chars(text);
    push_chars(out, chars.as_slice());
}

impl PcmPacketizerError {
    /// The message for people.
    pub fn message(&self) -> (message: String)
        ensures
            message@ == packetizer_error_text(*self),
    {
        match self {
            PcmPacketizerError::UnsupportedChannelCount(channels) => {
                let mut message = "relay PCM input has unsupported channel count ".to_owned();
                push_decimal(&mut message, *channels as u64);
                message
            },
            PcmPacketizerError::UnsupportedSampleRate(sample_rate_hz) => {
                let mut message = "relay PCM input has unsupported sample rate ".to_owned();
                push_decimal(&mut message, *sample_rate_hz as u64);
                push_str(&mut message, " Hz; expected 48000 Hz");
                message
            },
            PcmPacketizerError::MisalignedInput { samples, channels } => {
                let mut message = "relay PCM input has ".to_owned();
                push_decimal(&mut message, *samples as u64);
                push_str(&mut message, " interleaved samples, which is not aligned to ");
                push_decimal(&mut message, *channels as u64);
                push_str(&mut message, " channels");
                message
            },
        }
    }
}

/// What was thrown away when a source frame began.
#[derive(Debug, Clone, Copy, PartialEq, Eq, Structural)]
pub struct FrameBoundary {
    /// Samples that a gap in the sequence left without a continuation.
    pub discontinuity_discarded_samples: usize,
    /// Samples that belonged to another output generation.
    pub cancelled_output_discarded_samples: usize,
}

/// What a packetizer holds.
#[verifier::ext_equal]
pub struct PacketizerView<T> {
    /// The samples of the packet that is being filled.
    pub pending: Seq<T>,
    pub channels: u8,
    /// The capture time of the first pending sample.
    pub timestamp_ns: u64,
    /// The sequence number with which the source goes on.
    pub expected: Option<u64>,
    /// The output generation that owns the pending samples.
    pub generation: Option<u64>,
}

/// The interleaved samples of one packet.
pub open spec fn packet_size(channels: u8) -> int {
    OPUS_FRAME_SAMPLES * channels
}

pub open spec fn capped(n: int) -> u64 {
    if n > u64::MAX {
        u64::MAX
    } else {
        n as u64
    }
}

/// The capture time of the sample at an offset into a source frame.
pub open spec fn sample_time(frame_timestamp_ns: u64, offset: int, channels: u8) -> u64 {
    capped(
        frame_timestamp_ns + capped((offset / channels as int) * NANOS_PER_SECOND) as int
            / SAMPLE_RATE_HZ as int,
    )
}

/// A packetizer without pending samples.
pub open spec fn emptied<T>(v: PacketizerView<T>) -> PacketizerView<T> {
    PacketizerView { pending: Seq::empty(), timestamp_ns: 0, ..v }
}

/// A gap in the sequence throws the pending samples away.
pub open spec fn at_gap<T>(v: PacketizerView<T>, sequence_number: u64) -> bool {
    v.expected is Some && v.expected->0 != sequence_number
}

/// The packetizer after a source frame of that sequence number has begun.
pub open spec fn frame_begun<T>(v: PacketizerView<T>, sequence_number: u64) -> PacketizerView<T> {
    PacketizerView {
        expected: Some(capped(sequence_number + 1)),
        ..if at_gap(v, sequence_number) {
            emptied(v)
        } else {
            v
        }
    }
}

/// The packetizer after ownership has passed to an output generation.
pub open spec fn owned_by<T>(v: PacketizerView<T>, generation: Option<u64>) -> PacketizerView<T> {
    if v.generation == generation {
        v
    } else {
        PacketizerView { generation, ..emptied(v) }
    }
}

/// A packet of exactly one encoder duration, with the capture time of its first sample.
pub struct PcmPacket<T> {
    pub samples: Vec<T>,
    pub timestamp_ns: u64,
}

/// The offset into a source frame at which packet `k` begins, where `pending` samples
/// were there before the frame.
pub open spec fn packet_start(k: int, pending: int, channels: u8) -> int {
    k * packet_size(channels) - pending
}

/// The capture time of packet `k` of those that a source frame fills.
pub open spec fn packet_time<T>(v: PacketizerView<T>, frame_timestamp_ns: u64, k: int) -> u64 {
    if k == 0 && v.pending.len() > 0 {
        v.timestamp_ns
    } else {
        sample_time(
            frame_timestamp_ns,
            packet_start(k, v.pending.len() as int, v.channels),
            v.channels,
        )
    }
}

/// How many packets the pending samples and those of a source frame fill.
pub open spec fn packet_count<T>(v: PacketizerView<T>, samples: Seq<T>) -> int {
    (v.pending.len() + samples.len()) as int / packet_size(v.channels)
}

/// The samples of packet `k`.
pub open spec fn packet_samples<T>(v: PacketizerView<T>, samples: Seq<T>, k: int) -> Seq<T> {
    (v.pending + samples).subrange(k * packet_size(v.channels), (k + 1) * packet_size(v.channels))
}

/// The packetizer after a source frame has been cut into packets. What is left over
/// stays pending.
pub open spec fn frame_packetized<T>(
    v: PacketizerView<T>,
    samples: Seq<T>,
    frame_timestamp_ns: u64,
) -> PacketizerView<T> {
    let count = packet_count(v, samples);
    let rest = (v.pending + samples).skip(count * packet_size(v.channels));
    PacketizerView {
        pending: rest,
        timestamp_ns: if samples.len() == 0 {
            v.timestamp_ns
        } else if rest.len() == 0 {
            0
        } else {
            packet_time(v, frame_timestamp_ns, count)
        },
        ..v
    }
}

fn copy_samples<T: Copy>(samples: &[T]) -> (v: Vec<T>)
    ensures
        v@ == samples@,
{
    let mut v: Vec<T> = Vec::with_capacity(samples.len());
    let mut i: usize = 0;
    while i < samples.len()
        invariant
            i <= samples@.len(),
            v@ == samples@.take(i as int),
        decreases samples.len() - i,
    {
        v.push(samples[i]);
        assert(samples@.take(i + 1) == samples@.take(i as int).push(samples@[i as int]));
        i = i + 1;
    }
    assert(samples@.take(i as int) == samples@);
    v
}

/// Bounded assembler for one 20 ms, 48 kHz mono or stereo transport packet.
pub struct PcmPacketizer<T> {
    samples: Vec<T>,
    packet_samples: usize,
    channels: u8,
    packet_timestamp_ns: u64,
    expected_sequence_number: Option<u64>,
    output_generation_id: Option<u64>,
}

impl<T> View for PcmPacketizer<T> {
    type V = PacketizerView<T>;

    closed spec fn view(&self) -> PacketizerView<T> {
        PacketizerView {
            pending: self.samples@,
            channels: self.channels,
            timestamp_ns: self.packet_timestamp_ns,
            expected: self.expected_sequence_number,
            generation: self.output_generation_id,
        }
    }
}

impl<T: Copy + Default> PcmPacketizer<T> {
    /// Mono or stereo, and never more than one packet.
    pub closed spec fn wf(&self) -> bool {
        &&& self.channels == 1 || self.channels == 2
        &&& self.packet_samples == packet_size(self.channels)
        &&& self.samples@.len() <= self.packet_samples
    }

    /// A packetizer never holds more than one packet.
    pub proof fn lemma_bounded(&self)
        requires
            self.wf(),
        ensures
            self@.channels == 1 || self@.channels == 2,
            self@.pending.len() <= packet_size(self@.channels),
    {
    }

    pub fn new(sample_rate_hz: u32, channels: u8) -> (r: Result<
        PcmPacketizer<T>,
        PcmPacketizerError,
    >)
        ensures
            r is Ok <==> sample_rate_hz == SAMPLE_RATE_HZ && (channels == 1 || channels == 2),
            r matches Ok(packetizer) ==> packetizer.wf() && packetizer@ == (PacketizerView {
                pending: Seq::<T>::empty(),
                channels,
                timestamp_ns: 0,
                expected: None,
                generation: None,
            }),
            r matches Err(error) ==> error == (if sample_rate_hz != SAMPLE_RATE_HZ {
                PcmPacketizerError::UnsupportedSampleRate(sample_rate_hz)
            } else {
                PcmPacketizerError::UnsupportedChannelCount(channels)
            }),
    {
        if sample_rate_hz != SAMPLE_RATE_HZ {
            return Err(PcmPacketizerError::UnsupportedSampleRate(sample_rate_hz));
        }
        if channels != 1 && channels != 2 {
            return Err(PcmPacketizerError::UnsupportedChannelCount(channels));
        }
        let packet_samples: usize = OPUS_FRAME_SAMPLES * channels as usize;
        Ok(
            PcmPacketizer {
                samples: Vec::with_capacity(packet_samples),
                packet_samples,
                channels,
                packet_timestamp_ns: 0,
                expected_sequence_number: None,
                output_generation_id: None,
            },
        )
    }

    /// Starts one source frame and returns the number of partial samples
    /// discarded at a sequence discontinuity.
    pub fn begin_frame(&mut self, sequence_number: u64, sample_count: usize) -> (r: Result<
        usize,
        PcmPacketizerError,
    >)
        requires
            old(self).wf(),
        ensures
            final(self).wf(),
            r is Ok <==> sample_count as int % old(self)@.channels as int == 0,
            r matches Ok(discarded) ==> {
                &&& final(self)@ == frame_begun(old(self)@, sequence_number)
                &&& discarded == old(self)@.pending.len() - final(self)@.pending.len()
            },
            r matches Err(error) ==> {
                &&& *final(self) == *old(self)
                &&& error == (PcmPacketizerError::MisalignedInput {
                    samples: sample_count,
                    channels: old(self)@.channels,
                })
            },
    {
        if sample_count % self.channels as usize != 0 {
            return Err(
                PcmPacketizerError::MisalignedInput {
                    samples: sample_count,
                    channels: self.channels,
                },
            );
        }
        let gap = match self.expected_sequence_number {
            Some(expected) => expected != sequence_number,
            None => false,
        };
        let discarded: usize = if gap {
            self.discard_partial()
        } else {
            0
        };
        self.expected_sequence_number = Some(sequence_number.saturating_add(1));
        Ok(discarded)
    }

    /// Starts one source frame of an output generation. Pending samples of another
    /// generation are discarded first, so that no packet mixes two generations.
    pub fn begin_output_frame(
        &mut self,
        sequence_number: u64,
        sample_count: usize,
        output_generation_id: Option<u64>,
    ) -> (r: Result<FrameBoundary, PcmPacketizerError>)
        requires
            old(self).wf(),
        ensures
            final(self).wf(),
            r is Ok <==> sample_count as int % old(self)@.channels as int == 0,
            r matches Ok(boundary) ==> {
                let owned = owned_by(old(self)@, output_generation_id);
                &&& final(self)@ == frame_begun(owned, sequence_number)
                &&& boundary.cancelled_output_discarded_samples == old(self)@.pending.len()
                    - owned.pending.len()
                &&& boundary.discontinuity_discarded_samples == owned.pending.len() - final(self)@.pending.len()
            },
            r matches Err(error) ==> {
                &&& *final(self) == *old(self)
                &&& error == (PcmPacketizerError::MisalignedInput {
                    samples: sample_count,
                    channels: old(self)@.channels,
                })
            },
    {
        if sample_count % self.channels as usize != 0 {
            return Err(
                PcmPacketizerError::MisalignedInput {
                    samples: sample_count,
                    channels: self.channels,
                },
            );
        }
        let same = match (self.output_generation_id, output_generation_id) {
            (Some(a), Some(b)) => a == b,
            (None, None) => true,
            _ => false,
        };
        let mut cancelled: usize = 0;
        if !same {
            cancelled = self.discard_partial();
            self.output_generation_id = output_generation_id;
        }
        match self.begin_frame(sequence_number, sample_count) {
            Ok(discarded) => Ok(
                FrameBoundary {
                    discontinuity_discarded_samples: discarded,
                    cancelled_output_discarded_samples: cancelled,
                },
            ),
            Err(error) => Err(error),
        }
    }

    /// The output generation that owns the pending samples.
    pub fn output_generation_id(&self) -> (id: Option<u64>)
        ensures
            id == self@.generation,
    {
        self.output_generation_id
    }

    /// Copies as much of `input` as fits and returns the number of interleaved
    /// samples consumed.
    pub fn push(&mut self, input: &[T], input_timestamp_ns: u64, input_offset: usize) -> (copied:
        usize)
        requires
            old(self).wf(),
        ensures
            final(self).wf(),
            copied == (if input@.len() <= packet_size(old(self)@.channels) - old(self)@.pending.len() {
                input@.len() as int
            } else {
                packet_size(old(self)@.channels) - old(self)@.pending.len()
            }),
            final(self)@ == (PacketizerView {
                pending: old(self)@.pending + input@.take(copied as int),
                timestamp_ns: if old(self)@.pending.len() == 0 {
                    sample_time(input_timestamp_ns, input_offset as int, old(self)@.channels)
                } else {
                    old(self)@.timestamp_ns
                },
                ..old(self)@
            }),
    {
        if self.samples.len() == 0 {
            let offset_frames: usize = input_offset / self.channels as usize;
            let scaled: u64 = match (offset_frames as u64).checked_mul(NANOS_PER_SECOND) {
                Some(product) => product,
                None => u64::MAX,
            };
            let offset_ns: u64 = scaled / SAMPLE_RATE_HZ as u64;
            self.packet_timestamp_ns = input_timestamp_ns.saturating_add(offset_ns);
        }
        let room: usize = self.packet_samples - self.samples.len();
        let copied: usize = if input.len() < room {
            input.len()
        } else {
            room
        };
        let mut i: usize = 0;
        while i < copied
            invariant
                i <= copied <= input@.len(),
                self.samples@ == old(self)@.pending + input@.take(i as int),
                self.channels == old(self)@.channels,
                self.packet_samples == old(self).packet_samples,
                self.expected_sequence_number == old(self)@.expected,
                self.output_generation_id == old(self)@.generation,
                self.packet_timestamp_ns == (if old(self)@.pending.len() == 0 {
                    sample_time(input_timestamp_ns, input_offset as int, old(self)@.channels)
                } else {
                    old(self)@.timestamp_ns
                }),
            decreases copied - i,
        {
            self.samples.push(input[i]);
            assert(input@.take(i + 1) == input@.take(i as int).push(input@[i as int]));
            i = i + 1;
        }
        copied
    }

    /// The packet and its capture time, once it is complete.
    pub fn complete_packet(&self) -> (r: Option<(&[T], u64)>)
        requires
            self.wf(),
        ensures
            r is Some <==> self@.pending.len() == packet_size(self@.channels),
            r matches Some((packet, timestamp_ns)) ==> packet@ == self@.pending && timestamp_ns
                == self@.timestamp_ns,
    {
        if self.samples.len() == self.packet_samples {
            Some((self.samples.as_slice(), self.packet_timestamp_ns))
        } else {
            None
        }
    }

    /// Makes room for the next packet.
    pub fn finish_packet(&mut self)
        requires
            old(self).wf(),
            old(self)@.pending.len() == packet_size(old(self)@.channels),
        ensures
            final(self).wf(),
            final(self)@ == emptied(old(self)@),
    {
        self.samples.clear();
        self.packet_timestamp_ns = 0;
    }

    /// Takes the packet out, once it is complete.
    pub fn take_packet(&mut self) -> (r: Option<PcmPacket<T>>)
        requires
            old(self).wf(),
        ensures
            final(self).wf(),
            r is Some <==> old(self)@.pending.len() == packet_size(old(self)@.channels),
            r is None ==> *final(self) == *old(self),
            r matches Some(packet) ==> {
                &&& packet.samples@ == old(self)@.pending
                &&& packet.timestamp_ns == old(self)@.timestamp_ns
                &&& final(self)@ == emptied(old(self)@)
            },
    {
        let packet = match self.complete_packet() {
            Some((packet, timestamp_ns)) => PcmPacket {
                samples: copy_samples(packet),
                timestamp_ns,
            },
            None => {
                return None;
            },
        };
        self.finish_packet();
        Some(packet)
    }

    /// Cuts one source frame into packets. What does not fill a packet stays pending.
    pub fn packetize(&mut self, samples: &[T], frame_timestamp_ns: u64) -> (packets: Vec<
        PcmPacket<T>,
    >)
        requires
            old(self).wf(),
            old(self)@.pending.len() < packet_size(old(self)@.channels),
        ensures
            final(self).wf(),
            final(self)@ == frame_packetized(old(self)@, samples@, frame_timestamp_ns),
            final(self)@.pending.len() < packet_size(final(self)@.channels),
            packets@.len() == packet_count(old(self)@, samples@),
            forall|k: int|
                0 <= k < packets@.len() ==> {
                    &&& (#[trigger] packets@[k]).samples@ == packet_samples(
                        old(self)@,
                        samples@,
                        k,
                    )
                    &&& packets@[k].timestamp_ns == packet_time(old(self)@, frame_timestamp_ns, k)
                },
    {
        let ghost v = old(self)@;
        let ghost size = packet_size(v.channels);
        let ghost held = v.pending.len() as int;
        let ghost total = v.pending + samples@;
        let mut packets: Vec<PcmPacket<T>> = Vec::new();
        let mut offset: usize = 0;
        proof {
            self.lemma_bounded();
            assert(total.subrange(0, held) == v.pending);
            assert(0 * size == 0) by (nonlinear_arith);
        }
        while offset < samples.len()
            invariant
                self.wf(),
                v == old(self)@,
                v.channels == 1 || v.channels == 2,
                size == packet_size(v.channels),
                held == v.pending.len(),
                total == v.pending + samples@,
                offset <= samples@.len(),
                held < size,
                self@.pending.len() < size,
                self@ == (PacketizerView {
                    pending: self@.pending,
                    timestamp_ns: self@.timestamp_ns,
                    ..v
                }),
                packets@.len() * size + self@.pending.len() == held + offset,
                self@.pending == total.subrange(packets@.len() * size, held + offset),
                self@.timestamp_ns == (if offset == 0 {
                    v.timestamp_ns
                } else if self@.pending.len() == 0 {
                    0
                } else {
                    packet_time(v, frame_timestamp_ns, packets@.len() as int)
                }),
                forall|k: int|
                    0 <= k < packets@.len() ==> {
                        &&& (#[trigger] packets@[k]).samples@ == packet_samples(v, samples@, k)
                        &&& packets@[k].timestamp_ns == packet_time(v, frame_timestamp_ns, k)
                    },
            decreases samples.len() - offset,
        {
            let rest = slice_subrange(samples, offset, samples.len());
            let ghost before = self@;
            let ghost k = packets@.len() as int;
            proof {
                assert(k >= 1 ==> k * size >= size) by (nonlinear_arith)
                    requires
                        0 <= size,
                ;
                assert(0 * size == 0) by (nonlinear_arith);
            }
            let copied: usize = self.push(rest, frame_timestamp_ns, offset);
            proof {
                assert(before.pending.len() == 0 ==> offset == packet_start(k, held, v.channels));
                assert(self@.timestamp_ns == packet_time(v, frame_timestamp_ns, k));
                assert(total.subrange(k * size, held + offset) + rest@.take(copied as int)
                    =~= total.subrange(k * size, held + offset + copied));
                assert((k + 1) * size == k * size + size) by (nonlinear_arith);
            }
            offset = offset + copied;
            if let Some(packet) = self.take_packet() {
                packets.push(packet);
                assert(self@.pending =~= total.subrange((k + 1) * size, held + offset));
            }
        }
        proof {
            let n = packets@.len() as int;
            assert(held + samples@.len() == n * size + self@.pending.len());
            vstd::arithmetic::div_mod::lemma_fundamental_div_mod_converse(
                held + samples@.len(),
                size,
                n,
                self@.pending.len() as int,
            );
            assert(self@.pending =~= total.skip(n * size));
        }
        packets
    }

    /// Pads at most one final packet with silence during orderly shutdown, and returns
    /// how much silence was added.
    pub fn pad_tail(&mut self) -> (r: Option<usize>)
        requires
            old(self).wf(),
        ensures
            final(self).wf(),
            r is None <==> old(self)@.pending.len() == 0,
            r is None ==> *final(self) == *old(self),
            r matches Some(padding) ==> {
                &&& padding == packet_size(old(self)@.channels) - old(self)@.pending.len()
                &&& final(self)@.pending.len() == packet_size(old(self)@.channels)
                &&& final(self)@.pending.take(old(self)@.pending.len() as int) == old(self)@.pending
                &&& forall|i: int|
                    old(self)@.pending.len() <= i < final(self)@.pending.len()
                        ==> call_ensures(T::default, (), #[trigger] final(self)@.pending[i])
                &&& final(self)@ == (PacketizerView {
                    pending: final(self)@.pending,
                    ..old(self)@
                })
            },
    {
        if self.samples.len() == 0 {
            return None;
        }
        let padding: usize = self.packet_samples - self.samples.len();
        while self.samples.len() < self.packet_samples
            invariant
                self.samples@.len() <= self.packet_samples,
                old(self)@.pending.len() <= self.samples@.len(),
                self.samples@.take(old(self)@.pending.len() as int) == old(self)@.pending,
                forall|i: int|
                    old(self)@.pending.len() <= i < self.samples@.len() ==> call_ensures(
                        T::default,
                        (),
                        #[trigger] self.samples@[i],
                    ),
                self.channels == old(self)@.channels,
                self.packet_samples == old(self).packet_samples,
                self.expected_sequence_number == old(self)@.expected,
                self.output_generation_id == old(self)@.generation,
                self.packet_timestamp_ns == old(self)@.timestamp_ns,
            decreases self.packet_samples - self.samples.len(),
        {
            let silence = T::default();
            let ghost before = self.samples@;
            self.samples.push(silence);
            assert(self.samples@.take(old(self)@.pending.len() as int) == before.take(
                old(self)@.pending.len() as int,
            ));
        }
        Some(padding)
    }

    fn discard_partial(&mut self) -> (discarded: usize)
        requires
            old(self).wf(),
        ensures
            final(self).wf(),
            final(self)@ == emptied(old(self)@),
            discarded == old(self)@.pending.len(),
    {
        let discarded: usize = self.samples.len();
        self.samples.clear();
        self.packet_timestamp_ns = 0;
        discarded
    }
}

} // verus!
