use std::time::Duration;

use pocketstation::connector::{
    ConnectorErrorStage, ConnectorRetryability, ConnectorSecret, MAX_CONNECTOR_ERROR_MESSAGE_BYTES,
};
use pocketstation::{EdgeObservations, EndpointId, RouteId};
use pocketstation_relay::audio::latency_profile::LatencyProfile;
use pocketstation_relay::audio::opus_worker::EncoderCounters;
use pocketstation_relay::bounded_queue::BoundedQueue;
use pocketstation_relay::outcomes::{
    conclude_execution, conclude_run, mismatched_outcomes, route_error, route_reports, settle,
    transport_outcomes, PublishExecution, RelayTransportOutcome,
};
use pocketstation_relay::receipts::ReceiptRegistry;
use pocketstation_relay::relay_error::{
    relay_error, says_something, ErrorStage, RelayFault, Retryability, MAX_ERROR_MESSAGE_BYTES,
};
use pocketstation_relay::rtc::publisher::{PublishStats, PublishStreamStats};
use pocketstation_relay::runtime::{
    dropped_frames, feed_step, forward_frame, plan_streams, prepare_group, preparation_group,
    relay_stream_profile, statistics, validate_grouped_routes, FeedStep, RelayStreamProfile,
    RouteAudio, RouteInput,
};
use pocketstation_relay::{
    RelayConfigurationError, RelayConnector, RelayConnectorBuildError, RelayPublishReceiptKey,
    RelayPublishResult, RelayPublishStatistics, RelayRouteConfiguration,
};

fn key(endpoint: u64, route: u64) -> RelayPublishReceiptKey {
    RelayPublishReceiptKey {
        endpoint_id: EndpointId::new(endpoint),
        route_id: RouteId::new(route),
    }
}

fn route(session: &str, bus: &str) -> RelayRouteConfiguration {
    RelayRouteConfiguration::new(
        "https://relay.invalid".to_owned(),
        session.to_owned(),
        ConnectorSecret::new("source-secret").unwrap(),
        bus.to_owned(),
    )
    .unwrap()
}

fn input(n: u64, session: &str, bus: &str) -> RouteInput {
    RouteInput {
        key: key(n, n),
        configuration: Ok(route(session, bus)),
        is_audio: true,
    }
}

fn result(key: RelayPublishReceiptKey, sent: u64) -> RelayPublishResult {
    RelayPublishResult {
        key,
        statistics: RelayPublishStatistics {
            rtp_packets_sent_total: sent,
            ..RelayPublishStatistics::default()
        },
        edge_observations: EdgeObservations::default(),
        error: None,
    }
}

// Reports.

#[test]
fn long_messages_are_cut_between_characters() {
    assert_eq!(MAX_ERROR_MESSAGE_BYTES, MAX_CONNECTOR_ERROR_MESSAGE_BYTES);
    let long = format!("{}{}", "x".repeat(4_095), "é".repeat(10));
    let error = relay_error(
        "relay.test",
        ErrorStage::Join,
        Retryability::Never,
        &long,
    );
    assert_eq!(error.message(), "x".repeat(4_095));
    assert_eq!(error.code().as_str(), "relay.test");
    assert_eq!(error.stage(), ConnectorErrorStage::Join);
    assert_eq!(error.retryability(), ConnectorRetryability::Never);
    assert!(says_something(&long));
    assert!(!says_something(" \u{3000}"));
    assert!(!says_something(&format!("{}x", " ".repeat(4_096))));
    assert!(says_something(&format!("{}x", " ".repeat(4_095))));
    let short = relay_error(
        "relay.test",
        ErrorStage::Startup,
        Retryability::AfterReconfiguration,
        " é ",
    );
    assert_eq!(short.message(), " é ");
    assert_eq!(
        short.retryability(),
        ConnectorRetryability::RetryAfterReconfiguration
    );
}

#[test]
fn every_fault_is_reported() {
    let faults = vec![
        (RelayFault::InvalidReceiptCapacity, "relay.invalid_receipt_capacity"),
        (
            RelayFault::InvalidConfiguration(RelayConfigurationError::InvalidBusId),
            "relay.invalid_configuration",
        ),
        (RelayFault::InvalidBusCount, "relay.invalid_bus_count"),
        (RelayFault::AudioInputRequired, "relay.audio_input_required"),
        (
            RelayFault::ReceiptRegistryUnavailable,
            "relay.receipt_registry_unavailable",
        ),
        (
            RelayFault::ReceiptCapacityExhausted,
            "relay.receipt_capacity_exhausted",
        ),
        (RelayFault::DuplicateReceipt, "relay.duplicate_receipt"),
        (
            RelayFault::PublisherGroupMismatch,
            "relay.publisher_group_mismatch",
        ),
        (RelayFault::DuplicateBus, "relay.duplicate_bus"),
        (RelayFault::EmptyGroup, "relay.empty_group"),
        (
            RelayFault::HandshakeFailed("x".to_owned()),
            "relay.handshake_failed",
        ),
        (
            RelayFault::UnsupportedSampleRate(8_000),
            "relay.unsupported_sample_rate",
        ),
        (
            RelayFault::UnsupportedSampleFormat,
            "relay.unsupported_sample_format",
        ),
        (
            RelayFault::UnsupportedChannelCount(6),
            "relay.unsupported_channel_count",
        ),
        (
            RelayFault::PreparedStreamMismatch,
            "relay.prepared_stream_mismatch",
        ),
        (
            RelayFault::FeederSpawnFailed("x".to_owned()),
            "relay.feeder_spawn_failed",
        ),
        (RelayFault::EncoderPanicked, "relay.encoder_panicked"),
        (
            RelayFault::PublisherFailed("x".to_owned()),
            "relay.publisher_failed",
        ),
        (
            RelayFault::PublisherStartFailed("x".to_owned()),
            "relay.publisher_start_failed",
        ),
        (RelayFault::FeederPanicked, "relay.feeder_panicked"),
        (
            RelayFault::AudioProcessingFailed {
                encode_errors: 1,
                partial_samples_discarded: 2,
            },
            "relay.audio_processing_failed",
        ),
        (
            RelayFault::PreparationCancelFailed("x".to_owned()),
            "relay.preparation_cancel_failed",
        ),
        (RelayFault::RoutesUnavailable, "relay.routes_unavailable"),
        (
            RelayFault::PreparationUnavailable,
            "relay.preparation_unavailable",
        ),
        (
            RelayFault::InvalidOutcomeCount,
            "relay.invalid_outcome_count",
        ),
        (RelayFault::PublisherExited, "relay.publisher_exited"),
    ];
    for (fault, code) in faults {
        let error = fault.report();
        assert_eq!(error.code().as_str(), code);
        assert_eq!(error.message(), fault.message());
        assert!(!error.message().is_empty());
    }
    let error = RelayFault::HandshakeFailed("timeout".to_owned()).report();
    assert_eq!(error.message(), "relay handshake failed: timeout");
    assert_eq!(error.stage(), ConnectorErrorStage::Startup);
    assert_eq!(error.retryability(), ConnectorRetryability::Retryable);
    assert_eq!(
        RelayFault::UnsupportedSampleRate(44_100).message(),
        "relay input sample rate is 44100 Hz; expected 48000 Hz"
    );
    assert_eq!(
        RelayFault::AudioProcessingFailed {
            encode_errors: 3,
            partial_samples_discarded: 0
        }
        .message(),
        "relay audio processing failed: 3 Opus encode errors, 0 partial PCM samples discarded"
    );
    assert_eq!(
        RelayFault::PreparationCancelFailed("x".to_owned()).report().stage(),
        ConnectorErrorStage::Shutdown
    );
}

// Receipts.

#[test]
fn receipts_keep_the_first_result_until_it_is_taken() {
    let mut registry = ReceiptRegistry::new(2).unwrap();
    registry.reserve(&vec![key(1, 2)]).unwrap();
    assert!(registry.receipt(key(1, 2)).unwrap().result().is_none());
    assert!(registry.receipt(key(2, 1)).is_none());
    assert!(registry.take_result(key(1, 2)).is_none());
    registry.complete(result(key(1, 2), 5));
    registry.complete(result(key(1, 2), 6));
    registry.complete(result(key(9, 9), 7));
    assert!(registry.receipt(key(9, 9)).is_none());
    assert_eq!(
        registry
            .receipt(key(1, 2))
            .unwrap()
            .result()
            .unwrap()
            .statistics
            .rtp_packets_sent_total,
        5
    );
    let taken = registry.take_result(key(1, 2)).unwrap();
    assert_eq!(taken, result(key(1, 2), 5));
    assert!(registry.take_result(key(1, 2)).is_none());
    assert!(registry.receipt(key(1, 2)).is_none());
}

#[test]
fn receipts_held_from_before_show_the_result() {
    let mut registry = ReceiptRegistry::new(2).unwrap();
    registry.reserve(&vec![key(1, 2), key(3, 4)]).unwrap();
    let held = registry.receipt(key(1, 2)).unwrap();
    let copy = held.clone();
    let other = registry.receipt(key(3, 4)).unwrap();
    assert!(held.result().is_none());
    assert!(copy.result().is_none());
    registry.complete(result(key(1, 2), 5));
    assert_eq!(held.result(), Some(&result(key(1, 2), 5)));
    assert_eq!(copy.result(), Some(&result(key(1, 2), 5)));
    assert!(other.result().is_none());
    registry.complete(result(key(1, 2), 6));
    assert_eq!(copy.result(), Some(&result(key(1, 2), 5)));
    // Who holds a receipt keeps the result that was taken.
    assert!(registry.take_result(key(1, 2)).is_some());
    assert_eq!(held.result(), Some(&result(key(1, 2), 5)));
    // A new publication under the same key has a place of its own.
    registry.reserve(&vec![key(1, 2)]).unwrap();
    assert!(registry.receipt(key(1, 2)).unwrap().result().is_none());
    assert!(held.result().is_some());
}

#[test]
fn receipts_are_bounded_and_unique() {
    assert_eq!(
        ReceiptRegistry::new(0).err(),
        Some(RelayFault::InvalidReceiptCapacity)
    );
    let mut registry = ReceiptRegistry::new(3).unwrap();
    registry.reserve(&vec![key(1, 1), key(1, 2)]).unwrap();
    assert_eq!(
        registry.reserve(&vec![key(3, 3), key(4, 4)]),
        Err(RelayFault::ReceiptCapacityExhausted)
    );
    assert_eq!(
        registry.reserve(&vec![key(1, 2)]),
        Err(RelayFault::DuplicateReceipt)
    );
    registry.release(&vec![key(1, 2), key(7, 7)]);
    assert!(registry.receipt(key(1, 2)).is_none());
    assert!(registry.receipt(key(1, 1)).is_some());
    registry.reserve(&vec![key(1, 2), key(2, 1)]).unwrap();
}

// Groups.

#[test]
fn groups_are_checked_before_receipts_are_reserved() {
    let mut registry = ReceiptRegistry::new(32).unwrap();
    assert_eq!(
        prepare_group(&mut registry, &Vec::new()).err(),
        Some(RelayFault::InvalidBusCount)
    );
    let many: Vec<RouteInput> = (0..17).map(|n| input(n, "s", "b")).collect();
    assert_eq!(
        prepare_group(&mut registry, &many).err(),
        Some(RelayFault::InvalidBusCount)
    );
    let broken = RouteInput {
        configuration: Err(RelayConfigurationError::MissingField("bus_id")),
        is_audio: false,
        ..input(2, "s", "b")
    };
    assert_eq!(
        prepare_group(&mut registry, &vec![input(1, "s", "a"), broken]).err(),
        Some(RelayFault::InvalidConfiguration(
            RelayConfigurationError::MissingField("bus_id")
        ))
    );
    let silent = RouteInput {
        is_audio: false,
        ..input(2, "s", "b")
    };
    assert_eq!(
        prepare_group(&mut registry, &vec![silent]).err(),
        Some(RelayFault::AudioInputRequired)
    );
    assert_eq!(
        prepare_group(&mut registry, &vec![input(1, "s", "a"), input(2, "s", "a")]).err(),
        Some(RelayFault::DuplicateBus)
    );
    assert_eq!(
        prepare_group(&mut registry, &vec![input(1, "s", "a"), input(2, "t", "a")]).err(),
        Some(RelayFault::PublisherGroupMismatch)
    );
    assert!(registry.receipt(key(1, 1)).is_none());
    let routes =
        prepare_group(&mut registry, &vec![input(1, "s", "a"), input(2, "s", "b")]).unwrap();
    assert_eq!(routes[1].bus_id(), "b");
    assert!(registry.receipt(key(2, 2)).is_some());
    assert_eq!(
        prepare_group(&mut registry, &vec![input(2, "s", "c")]).err(),
        Some(RelayFault::DuplicateReceipt)
    );
    assert!(validate_grouped_routes(&routes).is_ok());
    assert_eq!(preparation_group(&Ok(route("s", "a"))), Ok("s".to_owned()));
    assert_eq!(
        preparation_group(&Err(RelayConfigurationError::InvalidBusId)),
        Err(RelayFault::InvalidConfiguration(
            RelayConfigurationError::InvalidBusId
        ))
    );
}

#[test]
fn streams_are_planned_from_the_audio_of_the_routes() {
    let audio = |channels| RouteAudio {
        sample_rate_hz: 48_000,
        interleaved_f32: true,
        channels,
    };
    let routes = vec![route("s", "voice"), route("s", "music").with_low_latency()];
    let streams = plan_streams(&routes, &vec![audio(1), audio(2)]).unwrap();
    assert_eq!(streams[0].profile, RelayStreamProfile::VoiceMono20ms);
    assert!(!streams[0].profile.is_stereo());
    assert_eq!(streams[0].latency_profile, LatencyProfile::Standard);
    assert_eq!(streams[1].profile.channels(), 2);
    assert_eq!(streams[1].latency_profile, LatencyProfile::Low);
    assert_eq!(streams[1].stream_id, "music");
    assert_eq!(
        plan_streams(&routes, &vec![audio(3), audio(9)]).err(),
        Some(RelayFault::UnsupportedChannelCount(3))
    );
    assert_eq!(
        plan_streams(&Vec::new(), &Vec::new()).err(),
        Some(RelayFault::EmptyGroup)
    );
    assert_eq!(
        relay_stream_profile(RouteAudio {
            sample_rate_hz: 44_100,
            interleaved_f32: false,
            channels: 0
        }),
        Err(RelayFault::UnsupportedSampleRate(44_100))
    );
    assert_eq!(
        relay_stream_profile(RouteAudio {
            interleaved_f32: false,
            ..audio(0)
        }),
        Err(RelayFault::UnsupportedSampleFormat)
    );
}

#[test]
fn feeders_forward_what_is_there_before_they_stop() {
    assert_eq!(feed_step(true, true, false), FeedStep::Stop);
    assert_eq!(feed_step(false, true, true), FeedStep::Forward);
    assert_eq!(feed_step(false, false, true), FeedStep::Stop);
    assert_eq!(feed_step(false, false, false), FeedStep::Wait);
    let mut queue = BoundedQueue::new(1);
    let mut drops = 0;
    assert!(forward_frame(&mut queue, 1, &mut drops));
    assert!(forward_frame(&mut queue, 2, &mut drops));
    assert_eq!(drops, 1);
    queue.close_receiver();
    assert!(!forward_frame(&mut queue, 3, &mut drops));
    assert_eq!(drops, 1);
}

// Results.

fn stats() -> PublishStats {
    PublishStats {
        streams: vec![PublishStreamStats {
            rtp_sent: 11,
            bytes_sent: 12,
        }],
        elapsed: Duration::from_micros(1_999),
        drains: 13,
        writes: 14,
    }
}

#[test]
fn statistics_gather_all_counters() {
    let counters = EncoderCounters {
        opus_packets_out: 1,
        opus_encode_errors: 2,
        encoded_channel_drops: 3,
        publisher_stale_drops: 4,
        cancelled_output_frames: 5,
        cancelled_output_samples: 6,
        ..EncoderCounters::default()
    };
    let publish = Some(stats());
    let gathered = statistics(&counters, 7, &publish, Some(stats().streams[0]));
    assert_eq!(
        gathered,
        RelayPublishStatistics {
            rtp_packets_sent_total: 11,
            rtp_payload_bytes_sent_total: 12,
            rtc_poll_drains_total: 13,
            rtc_writer_writes_total: 14,
            elapsed_ms: 1,
            opus_packets_encoded_total: 1,
            opus_encode_errors_total: 2,
            encoder_channel_drops_total: 3,
            publisher_stale_drops_total: 4,
            ingress_queue_drops_total: 7,
            cancelled_output_frames_total: 5,
            cancelled_output_samples_total: 6,
        }
    );
    assert_eq!(dropped_frames(100, &gathered), 114);
    assert_eq!(dropped_frames(u64::MAX, &gathered), u64::MAX);
    assert_eq!(
        statistics(&EncoderCounters::default(), 0, &None, None),
        RelayPublishStatistics::default()
    );
    let endless = Some(PublishStats {
        elapsed: Duration::MAX,
        ..stats()
    });
    assert_eq!(
        statistics(&EncoderCounters::default(), 0, &endless, None).elapsed_ms,
        u64::MAX
    );
}

#[test]
fn executions_are_concluded() {
    let code = |execution, feeder_failed| {
        let (stats, error) = conclude_execution(execution, feeder_failed);
        (stats.is_some(), error.map(|error| error.code().as_str().to_owned()))
    };
    let finished = |encoder_failed| PublishExecution::Finished {
        result: Ok(stats()),
        encoder_failed,
    };
    assert_eq!(code(finished(false), false), (true, None));
    assert_eq!(
        code(finished(false), true),
        (true, Some("relay.feeder_panicked".to_owned()))
    );
    assert_eq!(
        code(finished(true), true),
        (true, Some("relay.encoder_panicked".to_owned()))
    );
    assert_eq!(
        code(
            PublishExecution::Finished {
                result: Err("lost".to_owned()),
                encoder_failed: true
            },
            true
        ),
        (false, Some("relay.publisher_failed".to_owned()))
    );
    assert_eq!(
        code(PublishExecution::StartFailed("no thread".to_owned()), false),
        (false, Some("relay.publisher_start_failed".to_owned()))
    );
}

#[test]
fn routes_fail_with_their_group_or_with_their_own_audio() {
    let shared = Some(RelayFault::FeederPanicked.report());
    let broken = EncoderCounters {
        opus_encode_errors: 1,
        ..EncoderCounters::default()
    };
    assert_eq!(
        route_error(&shared, &broken).unwrap().code().as_str(),
        "relay.feeder_panicked"
    );
    assert_eq!(
        route_error(&None, &broken).unwrap().code().as_str(),
        "relay.audio_processing_failed"
    );
    let partial = EncoderCounters {
        normalization_partial_samples_discarded: 9,
        ..EncoderCounters::default()
    };
    assert!(route_error(&None, &partial).unwrap().message().contains("9 partial PCM samples"));
    assert!(route_error(&None, &EncoderCounters::default()).is_none());
    let reports = route_reports(
        &vec![EncoderCounters::default(), broken],
        &vec![1, 2],
        &Some(stats()),
        &None,
    );
    let observed = EdgeObservations {
        frames_dropped_total: 8,
        ..EdgeObservations::default()
    };
    let outcomes = transport_outcomes(&reports, &vec![EdgeObservations::default(), observed]);
    assert_eq!(outcomes.len(), 2);
    assert_eq!(outcomes[0].statistics.rtp_packets_sent_total, 11);
    assert_eq!(outcomes[0].statistics.ingress_queue_drops_total, 1);
    assert!(outcomes[0].error.is_none());
    assert_eq!(outcomes[1].statistics.rtp_packets_sent_total, 0);
    assert_eq!(outcomes[1].statistics.rtc_writer_writes_total, 14);
    assert_eq!(outcomes[1].statistics.ingress_queue_drops_total, 2);
    assert_eq!(outcomes[1].edge_observations.frames_dropped_total, 8);
    assert!(outcomes[1].error.is_some());
}

fn outcome(error: Option<RelayFault>) -> RelayTransportOutcome {
    RelayTransportOutcome {
        statistics: RelayPublishStatistics::default(),
        edge_observations: EdgeObservations::default(),
        error: error.map(|fault| fault.report()),
    }
}

#[test]
fn streams_are_prepared_for_every_route() {
    let observed = EdgeObservations {
        frames_dropped_total: 3,
        ..EdgeObservations::default()
    };
    let observations = vec![EdgeObservations::default(), observed];
    assert!(mismatched_outcomes(2, &observations).is_none());
    let outcomes = mismatched_outcomes(1, &observations).unwrap();
    assert_eq!(outcomes.len(), 2);
    assert_eq!(outcomes[1].edge_observations.frames_dropped_total, 3);
    for outcome in outcomes {
        assert_eq!(
            outcome.error.unwrap().code().as_str(),
            "relay.prepared_stream_mismatch"
        );
    }
}

#[test]
fn runs_succeed_only_when_told_to_stop() {
    let code = |expected, outcomes: Vec<RelayTransportOutcome>, stop| {
        conclude_run(expected, &outcomes, stop)
            .err()
            .map(|error| error.code().as_str().to_owned())
    };
    assert_eq!(code(1, vec![outcome(None)], true), None);
    assert_eq!(
        code(1, vec![outcome(None)], false).as_deref(),
        Some("relay.publisher_exited")
    );
    assert_eq!(
        code(2, vec![outcome(None)], true).as_deref(),
        Some("relay.invalid_outcome_count")
    );
    assert_eq!(
        code(
            3,
            vec![
                outcome(None),
                outcome(Some(RelayFault::EncoderPanicked)),
                outcome(Some(RelayFault::FeederPanicked))
            ],
            true
        )
        .as_deref(),
        Some("relay.encoder_panicked")
    );
}

#[test]
fn every_route_finds_its_own_result() {
    let mut registry = ReceiptRegistry::new(4).unwrap();
    let keys = vec![key(1, 1), key(2, 2)];
    registry.reserve(&keys).unwrap();
    settle(
        &mut registry,
        &keys,
        &vec![outcome(None), outcome(Some(RelayFault::EncoderPanicked))],
    );
    assert!(registry.take_result(key(1, 1)).unwrap().error.is_none());
    let failed = registry.take_result(key(2, 2)).unwrap();
    assert_eq!(failed.key, key(2, 2));
    assert_eq!(failed.error.unwrap().code().as_str(), "relay.encoder_panicked");
}

#[test]
fn the_last_route_of_a_shared_receipt_counts() {
    let mut registry = ReceiptRegistry::new(4).unwrap();
    let keys = vec![key(1, 1), key(1, 1)];
    registry.reserve(&keys).unwrap();
    settle(
        &mut registry,
        &keys,
        &vec![outcome(None), outcome(Some(RelayFault::EncoderPanicked))],
    );
    let shared = registry.take_result(key(1, 1)).unwrap();
    assert_eq!(shared.error.unwrap().code().as_str(), "relay.encoder_panicked");
}

// The connector.

#[test]
fn connectors_keep_their_receipts() {
    let mut connector = RelayConnector::new().unwrap();
    connector.receipts().reserve(&vec![key(5, 6)]).unwrap();
    assert!(connector.receipt(key(5, 6)).unwrap().result().is_none());
    assert!(connector.take_result(key(5, 6)).is_none());
    connector.receipts().complete(result(key(5, 6), 1));
    assert!(connector.take_result(key(5, 6)).is_some());
    assert!(connector.receipt(key(5, 6)).is_none());
    let full: Vec<RelayPublishReceiptKey> = (0..65).map(|n| key(n, n)).collect();
    assert_eq!(
        RelayConnector::default().receipts().reserve(&full),
        Err(RelayFault::ReceiptCapacityExhausted)
    );
    match RelayConnector::with_receipt_capacity(0) {
        Err(RelayConnectorBuildError::Connector(error)) => {
            assert_eq!(error.code().as_str(), "relay.invalid_receipt_capacity");
            assert_eq!(error.stage(), ConnectorErrorStage::Configuration);
        }
        _ => panic!("a connector without receipts cannot be built"),
    }
}
