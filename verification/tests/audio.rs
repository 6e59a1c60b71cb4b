use std::time::Instant;

use pocketstation::{
    AudioInputConfig, OutputCancelResult, OutputGeneration, SampleFormat, SampleSpec, Session,
};
use pocketstation_relay::audio::clock::monotonic_ns;
use pocketstation_relay::audio::encoder_session::{
    EncodedPacket, EncoderSession, EncoderWorker, FrameHeader,
};
use pocketstation_relay::audio::latency_profile::LatencyProfile;
use pocketstation_relay::audio::opus_worker::{
    count_up, deliver_active_frame, deliver_encoded_frame, observe_capture_age, Delivery,
    EncodedAudioFrame, EncodedDeliveryPolicy, EncoderCounters, CAPTURE_AGE_BUDGET_NS,
};
use pocketstation_relay::audio::pcm_packetizer::{PcmPacketizer, PcmPacketizerError};
use pocketstation_relay::bounded_queue::{BoundedQueue, ReceiveOutcome, SendOutcome};
use pocketstation_relay::configuration::RelayLatencyProfile;
use str0m::media::{Frequency, MediaTime};

fn output_generation() -> OutputGeneration {
    let session = Session::builder()
        .sample_spec(SampleSpec::new(48_000, 1, SampleFormat::F32Interleaved))
        .build();
    let input = session
        .audio_input(
            AudioInputConfig::new(
                SampleSpec::new(48_000, 1, SampleFormat::F32Interleaved),
                2,
                960,
            )
            .expect("valid output input"),
        )
        .expect("output input");
    input.begin_output_generation().expect("output generation")
}

fn encoded_frame(sequence: u8) -> EncodedAudioFrame {
    EncodedAudioFrame {
        payload: vec![sequence],
        wallclock: Instant::now(),
        rtp_time: MediaTime::new(u64::from(sequence) * 960, Frequency::FORTY_EIGHT_KHZ),
        duration_samples: 960,
        audio_level: None,
        capture_timestamp_ns: 0,
        capture_age_ns: 0,
        output_generation: None,
    }
}

// The clock.

#[test]
fn given_two_calls_when_sequential_then_second_is_gte_first() {
    let t0 = monotonic_ns();
    let t1 = monotonic_ns();
    assert!(t1 >= t0, "monotonic_ns must be non-decreasing");
}

#[test]
fn given_first_call_when_returned_then_nonzero() {
    assert!(monotonic_ns() > 0);
}

// Latency profiles.

#[test]
fn given_low_profile_when_capture_depth_then_2() {
    assert_eq!(LatencyProfile::Low.capture_channel_depth(), 2);
}

#[test]
fn given_standard_profile_when_capture_depth_then_sixteen() {
    assert_eq!(LatencyProfile::Standard.capture_channel_depth(), 16);
}

#[test]
fn given_low_profile_when_encoded_depth_then_two_frames() {
    assert_eq!(LatencyProfile::Low.encoded_channel_depth(), 2);
}

#[test]
fn given_standard_profile_when_encoded_depth_then_eight_frames() {
    assert_eq!(LatencyProfile::Standard.encoded_channel_depth(), 8);
}

#[test]
fn pipeline_profiles_follow_the_route() {
    assert_eq!(
        LatencyProfile::for_route(RelayLatencyProfile::Low),
        LatencyProfile::Low
    );
    assert_eq!(
        LatencyProfile::for_route(RelayLatencyProfile::Standard),
        LatencyProfile::Standard
    );
    assert_eq!(
        EncodedDeliveryPolicy::for_latency_profile(LatencyProfile::Low),
        EncodedDeliveryPolicy::DropNewest
    );
    assert_eq!(
        EncodedDeliveryPolicy::for_latency_profile(LatencyProfile::Standard),
        EncodedDeliveryPolicy::PreserveWithBackpressure
    );
}

// Delivery.

#[test]
fn given_saturated_channel_when_standard_delivery_bursts_then_all_frames_are_preserved() {
    const FRAME_COUNT: u8 = 16;
    let mut counters = EncoderCounters::default();
    let mut queue = BoundedQueue::new(1);
    let mut received: Vec<u8> = Vec::new();
    let mut waits = 0;

    for sequence in 0..FRAME_COUNT {
        let mut delivery = deliver_encoded_frame(
            &mut queue,
            encoded_frame(sequence),
            EncodedDeliveryPolicy::PreserveWithBackpressure,
            &mut counters,
        );
        while let Delivery::Waiting(frame) = delivery {
            waits += 1;
            if let ReceiveOutcome::Item(oldest) = queue.try_recv() {
                received.push(oldest.payload[0]);
            }
            delivery = deliver_active_frame(
                &mut queue,
                frame,
                EncodedDeliveryPolicy::PreserveWithBackpressure,
                &mut counters,
            );
        }
        assert!(matches!(delivery, Delivery::Done));
    }
    while let ReceiveOutcome::Item(oldest) = queue.try_recv() {
        received.push(oldest.payload[0]);
    }

    assert_eq!(waits, 15);
    assert_eq!(received, (0..FRAME_COUNT).collect::<Vec<_>>());
    assert_eq!(counters.encoded_channel_drops, 0);
}

#[test]
fn given_saturated_channel_when_low_delivery_sends_then_newest_frame_is_dropped() {
    let mut counters = EncoderCounters::default();
    let mut queue = BoundedQueue::new(1);

    assert!(matches!(
        deliver_encoded_frame(
            &mut queue,
            encoded_frame(1),
            EncodedDeliveryPolicy::DropNewest,
            &mut counters,
        ),
        Delivery::Done
    ));
    assert!(matches!(
        deliver_encoded_frame(
            &mut queue,
            encoded_frame(2),
            EncodedDeliveryPolicy::DropNewest,
            &mut counters,
        ),
        Delivery::Done
    ));

    match queue.try_recv() {
        ReceiveOutcome::Item(frame) => assert_eq!(frame.payload, vec![1]),
        _ => panic!("first frame remains"),
    }
    assert_eq!(counters.encoded_channel_drops, 1);
}

#[test]
fn given_cancelled_output_when_encoded_delivery_runs_then_frame_is_discarded() {
    let mut counters = EncoderCounters::default();
    let mut queue = BoundedQueue::new(1);
    let generation = output_generation();
    let mut frame = encoded_frame(1);
    frame.output_generation = Some(generation.clone());

    assert_eq!(generation.cancel(), OutputCancelResult::Cancelled);
    assert!(matches!(
        deliver_encoded_frame(
            &mut queue,
            frame,
            EncodedDeliveryPolicy::PreserveWithBackpressure,
            &mut counters,
        ),
        Delivery::Done
    ));

    assert!(matches!(queue.try_recv(), ReceiveOutcome::Empty));
    assert_eq!(counters.cancelled_output_frames, 1);
}

#[test]
fn active_output_is_delivered() {
    let mut counters = EncoderCounters::default();
    let mut queue = BoundedQueue::new(1);
    let mut frame = encoded_frame(7);
    frame.output_generation = Some(output_generation());
    assert!(matches!(
        deliver_encoded_frame(
            &mut queue,
            frame,
            EncodedDeliveryPolicy::PreserveWithBackpressure,
            &mut counters,
        ),
        Delivery::Done
    ));
    assert_eq!(queue.len(), 1);
    assert_eq!(counters, EncoderCounters::default());
}

#[test]
fn delivery_stops_when_nobody_receives() {
    let mut counters = EncoderCounters::default();
    let mut queue = BoundedQueue::new(4);
    queue.close_receiver();
    for policy in [
        EncodedDeliveryPolicy::PreserveWithBackpressure,
        EncodedDeliveryPolicy::DropNewest,
    ] {
        assert!(matches!(
            deliver_encoded_frame(&mut queue, encoded_frame(0), policy, &mut counters),
            Delivery::Disconnected
        ));
    }
    assert_eq!(counters, EncoderCounters::default());
}

#[test]
fn given_encoded_frame_when_capture_timestamp_zero_then_age_is_zero() {
    let frame = EncodedAudioFrame {
        payload: vec![],
        wallclock: Instant::now(),
        rtp_time: MediaTime::new(0, Frequency::FORTY_EIGHT_KHZ),
        duration_samples: 960,
        audio_level: None,
        capture_timestamp_ns: 0,
        capture_age_ns: 0,
        output_generation: None,
    };
    assert_eq!(frame.capture_timestamp_ns, 0);
    assert_eq!(frame.capture_age_ns, 0);

    let mut counters = EncoderCounters::default();
    let framed = EncoderWorker::new(960).frame_packet(
        EncodedPacket {
            payload: vec![],
            audio_level: None,
        },
        0,
        None,
        monotonic_ns(),
        Instant::now(),
        &mut counters,
    );
    assert_eq!(framed.capture_timestamp_ns, 0);
    assert_eq!(framed.capture_age_ns, 0);
    assert_eq!(counters.capture_age_sample_count, 0);
}

#[test]
fn given_encoded_frame_when_capture_timestamp_present_then_age_computed() {
    let capture_ts = monotonic_ns();
    while monotonic_ns() < capture_ts + 1_000_000 {}
    let mut counters = EncoderCounters::default();
    let frame = EncoderWorker::new(960).frame_packet(
        EncodedPacket {
            payload: vec![],
            audio_level: None,
        },
        capture_ts,
        None,
        monotonic_ns(),
        Instant::now(),
        &mut counters,
    );
    assert!(
        frame.capture_age_ns > 0,
        "capture_age_ns must be > 0 when timestamp is present"
    );
    assert_eq!(frame.capture_timestamp_ns, capture_ts);
    assert_eq!(counters.capture_age_sum_ns, frame.capture_age_ns);
    assert_eq!(counters.capture_age_max_ns, frame.capture_age_ns);
}

#[test]
fn given_capture_age_budget_when_checked_then_equals_40ms() {
    const FRAME_PERIOD_NS: u64 = 20_000_000;
    assert_eq!(
        CAPTURE_AGE_BUDGET_NS,
        2 * FRAME_PERIOD_NS,
        "CAPTURE_AGE_BUDGET_NS must equal 2× the 20 ms frame period"
    );
}

#[test]
fn capture_ages_are_summed_and_held_against_the_budget() {
    let mut counters = EncoderCounters::default();
    observe_capture_age(&mut counters, 0);
    assert_eq!(counters, EncoderCounters::default());
    observe_capture_age(&mut counters, 40_000_000);
    assert_eq!(counters.capture_age_over_budget, 0);
    observe_capture_age(&mut counters, 40_000_001);
    observe_capture_age(&mut counters, 5);
    assert_eq!(counters.capture_age_over_budget, 1);
    assert_eq!(counters.capture_age_sum_ns, 80_000_006);
    assert_eq!(counters.capture_age_max_ns, 40_000_001);
    assert_eq!(counters.capture_age_sample_count, 3);
}

#[test]
fn counters_wrap_around() {
    assert_eq!(count_up(u64::MAX, 1), 0);
    assert_eq!(count_up(u64::MAX - 1, 3), 1);
    assert_eq!(count_up(4, 5), 9);
}

// The queue.

#[test]
fn queues_keep_order_within_their_capacity() {
    let mut queue = BoundedQueue::new(2);
    assert!(matches!(queue.try_recv(), ReceiveOutcome::Empty));
    assert!(matches!(queue.try_send(1), SendOutcome::Sent));
    assert!(matches!(queue.try_send(2), SendOutcome::Sent));
    assert!(matches!(queue.try_send(3), SendOutcome::Full(3)));
    assert!(matches!(queue.try_recv(), ReceiveOutcome::Item(1)));
    assert!(matches!(queue.try_send(4), SendOutcome::Sent));
    queue.close_sender();
    assert!(matches!(queue.try_recv(), ReceiveOutcome::Item(2)));
    assert!(matches!(queue.try_recv(), ReceiveOutcome::Item(4)));
    assert!(matches!(queue.try_recv(), ReceiveOutcome::Disconnected));
    queue.close_receiver();
    assert!(matches!(queue.try_send(5), SendOutcome::Disconnected(5)));
}

// Packets.

#[test]
fn arbitrary_stereo_callback_widths_form_exact_twenty_millisecond_packets() {
    let mut packetizer = PcmPacketizer::new(48_000, 2).unwrap();
    assert_eq!(packetizer.begin_frame(1, 1_024).unwrap(), 0);
    assert_eq!(packetizer.push(&[0.5; 1_024], 10, 0), 1_024);
    assert_eq!(packetizer.begin_frame(2, 1_024).unwrap(), 0);
    assert_eq!(packetizer.push(&[0.25; 1_024], 20, 0), 896);
    assert_eq!(packetizer.complete_packet().unwrap().0.len(), 1_920);
}

#[test]
fn discontinuity_discards_only_the_bounded_partial_packet() {
    let mut packetizer = PcmPacketizer::new(48_000, 1).unwrap();
    packetizer.begin_frame(7, 480).unwrap();
    packetizer.push(&[0.0; 480], 10, 0);
    assert_eq!(packetizer.begin_frame(9, 480).unwrap(), 480);
}

#[test]
fn unsupported_input_is_rejected() {
    let rate = PcmPacketizer::<f32>::new(44_100, 2).err().unwrap();
    assert_eq!(rate, PcmPacketizerError::UnsupportedSampleRate(44_100));
    assert_eq!(
        rate.message(),
        "relay PCM input has unsupported sample rate 44100 Hz; expected 48000 Hz"
    );
    let both = PcmPacketizer::<f32>::new(8_000, 9).err().unwrap();
    assert_eq!(both, PcmPacketizerError::UnsupportedSampleRate(8_000));
    let channels = PcmPacketizer::<f32>::new(48_000, 0).err().unwrap();
    assert_eq!(channels, PcmPacketizerError::UnsupportedChannelCount(0));
    assert_eq!(
        channels.message(),
        "relay PCM input has unsupported channel count 0"
    );
    let mut packetizer = PcmPacketizer::<f32>::new(48_000, 2).unwrap();
    let misaligned = packetizer.begin_frame(1, 961).err().unwrap();
    assert_eq!(
        misaligned,
        PcmPacketizerError::MisalignedInput {
            samples: 961,
            channels: 2
        }
    );
    assert_eq!(
        misaligned.message(),
        "relay PCM input has 961 interleaved samples, which is not aligned to 2 channels"
    );
    // A rejected frame leaves the sequence as it was.
    assert_eq!(packetizer.begin_frame(9, 960).unwrap(), 0);
}

#[test]
fn packets_carry_the_time_of_their_first_sample() {
    let mut packetizer = PcmPacketizer::new(48_000, 1).unwrap();
    packetizer.begin_frame(1, 2_400).unwrap();
    let samples: Vec<u16> = (0..2_400).collect();
    let packets = packetizer.packetize(&samples, 5_000);
    assert_eq!(packets.len(), 2);
    assert_eq!(packets[0].timestamp_ns, 5_000);
    assert_eq!(packets[1].timestamp_ns, 5_000 + 20_000_000);
    assert_eq!(packets[0].samples, samples[..960]);
    assert_eq!(packets[1].samples, samples[960..1_920]);
    // What is left belongs to the next packet.
    packetizer.begin_frame(2, 480).unwrap();
    let packets = packetizer.packetize(&samples[..480], 9_000_000_000);
    assert_eq!(packets.len(), 1);
    assert_eq!(packets[0].timestamp_ns, 5_000 + 40_000_000);
    assert_eq!(packets[0].samples[..480], samples[1_920..]);
    assert_eq!(packets[0].samples[480..], samples[..480]);
    assert_eq!(packetizer.pad_tail(), None);
    // Times saturate.
    packetizer.begin_frame(3, 1_920).unwrap();
    let packets = packetizer.packetize(&samples[..1_920], u64::MAX - 1);
    assert_eq!(packets[1].timestamp_ns, u64::MAX);
}

#[test]
fn tails_are_padded_with_silence() {
    let mut packetizer = PcmPacketizer::new(48_000, 2).unwrap();
    packetizer.begin_frame(1, 4).unwrap();
    packetizer.push(&[1.0_f32, 2.0, 3.0, 4.0], 77, 0);
    assert_eq!(packetizer.pad_tail(), Some(1_916));
    let (packet, timestamp) = packetizer.complete_packet().unwrap();
    assert_eq!(timestamp, 77);
    assert_eq!(packet[..4], [1.0, 2.0, 3.0, 4.0]);
    assert!(packet[4..].iter().all(|sample| *sample == 0.0));
    packetizer.finish_packet();
    assert!(packetizer.complete_packet().is_none());
    assert_eq!(packetizer.pad_tail(), None);
}

#[test]
fn packets_never_mix_output_generations() {
    let mut packetizer = PcmPacketizer::new(48_000, 1).unwrap();
    packetizer.begin_output_frame(1, 100, Some(1)).unwrap();
    assert_eq!(packetizer.output_generation_id(), Some(1));
    packetizer.push(&[0_i16; 100], 1, 0);
    let boundary = packetizer.begin_output_frame(2, 100, Some(2)).unwrap();
    assert_eq!(boundary.cancelled_output_discarded_samples, 100);
    assert_eq!(boundary.discontinuity_discarded_samples, 0);
    packetizer.push(&[0_i16; 100], 1, 0);
    let boundary = packetizer.begin_output_frame(9, 100, Some(2)).unwrap();
    assert_eq!(boundary.cancelled_output_discarded_samples, 0);
    assert_eq!(boundary.discontinuity_discarded_samples, 100);
    packetizer.push(&[0_i16; 100], 1, 0);
    let boundary = packetizer.begin_output_frame(50, 100, None).unwrap();
    assert_eq!(boundary.cancelled_output_discarded_samples, 100);
    assert_eq!(boundary.discontinuity_discarded_samples, 0);
}

// Sessions.

fn header(sequence_number: u64) -> FrameHeader {
    FrameHeader {
        sample_rate_hz: 48_000,
        channels: 1,
        sequence_number,
        capture_timestamp_ns: 0,
    }
}

#[test]
fn sessions_turn_frames_into_packets_and_packets_into_frames() {
    let mut counters = EncoderCounters::default();
    let mut queue = BoundedQueue::new(8);
    let mut session = EncoderSession::new(1, 960).unwrap();
    let packets = session.accept(header(1), &[0.25_f32; 2_000], None, &mut counters);
    assert_eq!(packets.len(), 2);
    for packet in &packets {
        assert!(session.admit_packet(&mut counters));
        let encoded = EncodedPacket {
            payload: vec![packet.samples.len() as u8],
            audio_level: Some(12),
        };
        assert!(matches!(
            session.encode_and_deliver(
                Some(encoded),
                packet.timestamp_ns,
                &mut queue,
                EncodedDeliveryPolicy::PreserveWithBackpressure,
                &mut counters,
            ),
            Delivery::Done
        ));
    }
    assert!(matches!(
        session.encode_and_deliver(
            None,
            0,
            &mut queue,
            EncodedDeliveryPolicy::PreserveWithBackpressure,
            &mut counters,
        ),
        Delivery::Done
    ));
    let tail = session.finish(&mut counters).unwrap();
    assert_eq!(tail.samples.len(), 960);
    assert_eq!(tail.samples[..80], [0.25; 80]);
    assert!(session.finish(&mut counters).is_none());
    assert_eq!(counters.opus_packets_out, 2);
    assert_eq!(counters.opus_encode_errors, 1);
    assert_eq!(counters.normalization_tail_padding_samples_total, 880);
    let mut times = Vec::new();
    while let ReceiveOutcome::Item(frame) = queue.try_recv() {
        assert_eq!(frame.duration_samples, 960);
        assert_eq!(frame.audio_level, Some(12));
        assert_eq!(frame.payload, vec![960_u16.to_le_bytes()[0]]);
        times.push(frame.rtp_time);
    }
    assert_eq!(
        times,
        vec![
            MediaTime::new(0, Frequency::FORTY_EIGHT_KHZ),
            MediaTime::new(960, Frequency::FORTY_EIGHT_KHZ)
        ]
    );
}

#[test]
fn sessions_count_what_they_cannot_use() {
    let mut counters = EncoderCounters::default();
    let mut session = EncoderSession::new(2, 960).unwrap();
    let mono = session.accept(header(1), &[0.0_f32; 960], None, &mut counters);
    assert!(mono.is_empty());
    assert_eq!(counters.opus_encode_errors, 1);
    let stereo = FrameHeader {
        channels: 2,
        ..header(1)
    };
    let slow = FrameHeader {
        sample_rate_hz: 44_100,
        ..stereo
    };
    assert!(session.accept(slow, &[0.0; 960], None, &mut counters).is_empty());
    assert!(session.accept(stereo, &[0.0; 961], None, &mut counters).is_empty());
    assert_eq!(counters.opus_encode_errors, 3);
    assert!(session.accept(stereo, &[0.0; 10], None, &mut counters).is_empty());
    let gap = FrameHeader {
        sequence_number: 5,
        ..stereo
    };
    assert!(session.accept(gap, &[0.0; 10], None, &mut counters).is_empty());
    assert_eq!(counters.normalization_partial_samples_discarded, 10);
    assert_eq!(
        EncoderSession::<f32>::new(3, 960).err().unwrap(),
        PcmPacketizerError::UnsupportedChannelCount(3)
    );
}

#[test]
fn sessions_drop_cancelled_output() {
    let mut counters = EncoderCounters::default();
    let mut session = EncoderSession::new(1, 960).unwrap();
    let generation = output_generation();
    let packets = session.accept(
        header(1),
        &[0.0_f32; 1_000],
        Some(generation.clone()),
        &mut counters,
    );
    assert_eq!(packets.len(), 1);
    assert!(session.admit_packet(&mut counters));
    assert_eq!(generation.cancel(), OutputCancelResult::Cancelled);
    assert!(!session.admit_packet(&mut counters));
    assert!(session
        .accept(header(2), &[0.0; 960], Some(generation), &mut counters)
        .is_empty());
    assert_eq!(counters.cancelled_output_frames, 2);
    // Fresh audio starts a fresh packet.
    let packets = session.accept(header(2), &[1.0; 960], None, &mut counters);
    assert_eq!(packets.len(), 1);
    assert_eq!(packets[0].samples, vec![1.0; 960]);
    assert_eq!(counters.cancelled_output_samples, 40);
    assert!(session.admit_packet(&mut counters));
}

#[test]
fn packets_are_the_same_however_the_frames_are_cut() {
    let samples = (0..4_400).map(|n| n as f32).collect::<Vec<_>>();
    for widths in [vec![4_400], vec![2_200, 2_200], vec![2, 1_918, 0, 960, 1_520], vec![44; 100]] {
        let mut counters = EncoderCounters::default();
        let mut session = EncoderSession::new(2, 960).unwrap();
        let mut packets = Vec::new();
        let mut rest = samples.as_slice();
        for (n, width) in widths.into_iter().enumerate() {
            let (frame, later) = rest.split_at(width);
            let header = FrameHeader {
                channels: 2,
                ..header(n as u64)
            };
            packets.extend(session.accept(header, frame, None, &mut counters));
            rest = later;
        }
        packets.extend(session.finish(&mut counters));
        assert_eq!(packets.len(), 3);
        for (k, packet) in packets.iter().enumerate() {
            for (i, sample) in packet.samples.iter().enumerate() {
                let wanted = samples.get(k * 1_920 + i).copied().unwrap_or(0.0);
                assert_eq!(*sample, wanted);
            }
        }
        assert_eq!(counters.normalization_tail_padding_samples_total, 1_360);
        assert_eq!(counters.normalization_partial_samples_discarded, 0);
    }
}

#[test]
fn media_time_counts_only_what_was_encoded() {
    let mut counters = EncoderCounters::default();
    let mut queue = BoundedQueue::new(1);
    let mut worker = EncoderWorker::new(960);
    let mut deliver = |encoded: bool, queue: &mut BoundedQueue<EncodedAudioFrame>| {
        let packet = EncodedPacket {
            payload: vec![1],
            audio_level: None,
        };
        worker.deliver(
            if encoded { Some(packet) } else { None },
            0,
            None,
            queue,
            EncodedDeliveryPolicy::DropNewest,
            &mut counters,
        )
    };
    // One that is delivered, one that fails, one that is dropped, one that is delivered.
    for encoded in [true, false, true] {
        assert!(matches!(deliver(encoded, &mut queue), Delivery::Done));
    }
    let first = queue.try_recv();
    assert!(matches!(deliver(true, &mut queue), Delivery::Done));
    let last = queue.try_recv();
    match (first, last) {
        (ReceiveOutcome::Item(first), ReceiveOutcome::Item(last)) => {
            assert_eq!(first.rtp_time, MediaTime::new(0, Frequency::FORTY_EIGHT_KHZ));
            assert_eq!(last.rtp_time, MediaTime::new(1_920, Frequency::FORTY_EIGHT_KHZ));
        }
        _ => panic!("two frames are delivered"),
    }
    assert_eq!(counters.opus_packets_out, 3);
    assert_eq!(counters.opus_encode_errors, 1);
    assert_eq!(counters.encoded_channel_drops, 1);
}
