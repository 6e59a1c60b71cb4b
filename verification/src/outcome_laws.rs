//! What holds of the results of publications as a whole.
use std::time::Duration;
use vstd::prelude::*;

use crate::audio::opus_worker::EncoderCounters;
use crate::audio::pcm_packetizer::PcmPacketizerError;
use crate::configuration_error::{RelayConfigurationError, SecretFault};
use crate::outcomes::{OutcomeView, PublishExecution, RouteReport};
use crate::receipts::{RegistryView, RelayPublishResult, ResultView};
use crate::relay_error::{ErrorStage, ErrorView, RelayFault, Retryability};
use crate::rtc::publisher::PublishStats;

verus! {

/// Each route reports what was counted for its own AudioBus: what the publisher sent on the
/// route's own stream, and what happened to the route's own audio. What the publisher did for
/// all of them is reported by each.
pub proof fn routes_report_their_own_streams(
    report: RouteReport,
    i: int,
    counters: EncoderCounters,
    ingress_drops: u64,
    stats: PublishStats,
    shared: Option<ErrorView>,
)
    requires
        crate::outcomes::reports_route(report, i, counters, ingress_drops, Some(stats), shared),
        0 <= i < stats.streams@.len(),
    ensures
        report.statistics.rtp_packets_sent_total == stats.streams@[i].rtp_sent,
        report.statistics.rtp_payload_bytes_sent_total == stats.streams@[i].bytes_sent,
        report.statistics.rtc_poll_drains_total == stats.drains,
        report.statistics.rtc_writer_writes_total == stats.writes,
        report.statistics.opus_packets_encoded_total == counters.opus_packets_out,
        report.statistics.opus_encode_errors_total == counters.opus_encode_errors,
        report.statistics.encoder_channel_drops_total == counters.encoded_channel_drops,
        report.statistics.publisher_stale_drops_total == counters.publisher_stale_drops,
        report.statistics.ingress_queue_drops_total == ingress_drops,
        report.statistics.cancelled_output_frames_total == counters.cancelled_output_frames,
        report.statistics.cancelled_output_samples_total == counters.cancelled_output_samples,
        crate::boundary::duration_nanos(stats.elapsed) < 0x1_0000_0000_0000_0000 ==> {
            let ms = report.statistics.elapsed_ms;
            ms * 1_000_000 <= crate::boundary::duration_nanos(stats.elapsed) < (ms + 1) * 1_000_000
        },
{
    let nanos = crate::boundary::duration_nanos(stats.elapsed) as int;
    let ms = nanos / 1_000_000;
    assert(crate::runtime::whole_millis(stats.elapsed) == crate::audio::pcm_packetizer::capped(ms));
}

/// A route for which the publisher counted nothing, or whose publisher did not end well,
/// reports nothing sent. What happened to its own audio is reported all the same.
pub proof fn routes_without_a_stream_report_nothing_sent(
    report: RouteReport,
    i: int,
    counters: EncoderCounters,
    ingress_drops: u64,
    publish: Option<PublishStats>,
    shared: Option<ErrorView>,
)
    requires
        crate::outcomes::reports_route(report, i, counters, ingress_drops, publish, shared),
        publish is None || publish->0.streams@.len() <= i,
    ensures
        report.statistics.rtp_packets_sent_total == 0,
        report.statistics.rtp_payload_bytes_sent_total == 0,
        publish is None ==> report.statistics.rtc_poll_drains_total == 0
            && report.statistics.rtc_writer_writes_total == 0 && report.statistics.elapsed_ms == 0,
        report.statistics.opus_packets_encoded_total == counters.opus_packets_out,
        report.statistics.opus_encode_errors_total == counters.opus_encode_errors,
        report.statistics.encoder_channel_drops_total == counters.encoded_channel_drops,
        report.statistics.publisher_stale_drops_total == counters.publisher_stale_drops,
        report.statistics.ingress_queue_drops_total == ingress_drops,
{
}

/// A route has an error exactly where its group has one or its own audio was not processed
/// whole. The group's error comes first.
pub proof fn routes_report_what_went_wrong(
    report: RouteReport,
    i: int,
    counters: EncoderCounters,
    ingress_drops: u64,
    publish: Option<PublishStats>,
    shared: Option<ErrorView>,
)
    requires
        crate::outcomes::reports_route(report, i, counters, ingress_drops, publish, shared),
    ensures
        report.error is None <==> shared is None && counters.opus_encode_errors == 0
            && counters.normalization_partial_samples_discarded == 0,
        shared is Some ==> report.error is Some && shared == Some(
            crate::boundary::error_parts(report.error->0),
        ),
        shared is None && report.error is Some ==> crate::boundary::error_parts(
            report.error->0,
        ).code == "relay.audio_processing_failed"@,
{
}

/// A group has an error exactly where its publisher did not start, did not end well, or one of
/// its threads did not; and the publisher's counts are kept exactly where it ended well.
pub proof fn groups_report_what_went_wrong(execution: PublishExecution, feeder_failed: bool)
    ensures
        crate::outcomes::shared_fault(execution, feeder_failed) is None <==> (
        execution matches PublishExecution::Finished { result: Ok(_), encoder_failed }
            && !encoder_failed && !feeder_failed),
        execution matches PublishExecution::Finished { result: Ok(stats), encoder_failed }
            ==> crate::outcomes::publish_stats(execution) == Some(stats) && (encoder_failed
            ==> crate::outcomes::shared_fault(execution, feeder_failed) == Some(
            RelayFault::EncoderPanicked,
        )) && (!encoder_failed && feeder_failed ==> crate::outcomes::shared_fault(
            execution,
            feeder_failed,
        ) == Some(RelayFault::FeederPanicked)),
        execution matches PublishExecution::Finished { result: Err(error), .. }
            ==> crate::outcomes::publish_stats(execution) is None && crate::outcomes::shared_fault(
            execution,
            feeder_failed,
        ) == Some(RelayFault::PublisherFailed(error)),
        execution matches PublishExecution::StartFailed(error) ==> crate::outcomes::publish_stats(
            execution,
        ) is None && crate::outcomes::shared_fault(execution, feeder_failed) == Some(
            RelayFault::PublisherStartFailed(error),
        ),
{
}

proof fn lemma_first_error_is(outcomes: Seq<OutcomeView>, k: int)
    requires
        0 <= k < outcomes.len(),
        outcomes[k].error is Some,
        forall|i: int| 0 <= i < k ==> (#[trigger] outcomes[i]).error is None,
    ensures
        crate::outcomes::first_error(outcomes) == outcomes[k].error,
    decreases k,
{
    if k > 0 {
        let rest = outcomes.drop_first();
        assert(outcomes[0].error is None);
        assert(rest[k - 1] == outcomes[k]);
        assert forall|i: int| 0 <= i < k - 1 implies (#[trigger] rest[i]).error is None by {
            assert(rest[i] == outcomes[i + 1]);
        }
        lemma_first_error_is(rest, k - 1);
    }
}

/// A run fails with the error of the first route that has one, told to stop or not.
pub proof fn runs_fail_with_the_first_error(
    outcomes: Seq<OutcomeView>,
    stop_requested: bool,
    k: int,
)
    requires
        0 <= k < outcomes.len(),
        outcomes[k].error is Some,
        forall|i: int| 0 <= i < k ==> (#[trigger] outcomes[i]).error is None,
    ensures
        crate::outcomes::run_error(outcomes.len(), outcomes, stop_requested) == outcomes[k].error,
{
    lemma_first_error_is(outcomes, k);
}

/// The result of a route says what the route came to, under the route's own key.
pub proof fn results_say_what_their_routes_came_to(
    receipts: Map<u128, Option<ResultView>>,
    keys: Seq<u128>,
    outcomes: Seq<OutcomeView>,
    i: int,
)
    requires
        keys.len() == outcomes.len(),
        keys.no_duplicates(),
        0 <= i < keys.len(),
        receipts.contains_key(keys[i]),
        receipts[keys[i]] is None,
    ensures
        ({
            let after = crate::outcomes::receipts_settled(receipts, keys, outcomes);
            &&& after.contains_key(keys[i])
            &&& after[keys[i]] is Some
            &&& after[keys[i]]->0.key == keys[i]
            &&& after[keys[i]]->0.statistics == outcomes[i].statistics
            &&& after[keys[i]]->0.edge_observations == outcomes[i].edge_observations
            &&& after[keys[i]]->0.error == outcomes[i].error
        }),
{
    crate::outcomes::lemma_last_place(keys, keys[i]);
}

/// Settling a group changes no receipt of another publication, and none that has its result
/// already, and makes no receipt.
pub proof fn settling_leaves_other_receipts_alone(
    receipts: Map<u128, Option<ResultView>>,
    keys: Seq<u128>,
    outcomes: Seq<OutcomeView>,
    key: u128,
)
    requires
        keys.len() == outcomes.len(),
    ensures
        ({
            let after = crate::outcomes::receipts_settled(receipts, keys, outcomes);
            &&& after.dom() == receipts.dom()
            &&& receipts.contains_key(key) && !keys.contains(key) ==> after[key] == receipts[key]
            &&& receipts.contains_key(key) && receipts[key] is Some ==> after[key] == receipts[key]
        }),
{
    let after = crate::outcomes::receipts_settled(receipts, keys, outcomes);
    crate::outcomes::lemma_last_place(keys, key);
    assert(after.dom() =~= receipts.dom());
}

/// Reserving gives each of the keys a receipt without a result and leaves the others as they
/// are; completing a publication leaves all other receipts as they are.
pub proof fn receipts_do_not_disturb_each_other(
    receipts: Map<u128, Option<ResultView>>,
    keys: Seq<u128>,
    key: u128,
    done: u128,
    result: ResultView,
)
    ensures
        crate::receipts::reserved(receipts, keys).contains_key(key) <==> receipts.contains_key(key)
            || keys.contains(key),
        keys.contains(key) ==> crate::receipts::reserved(receipts, keys)[key] is None,
        receipts.contains_key(key) && !keys.contains(key) ==> crate::receipts::reserved(
            receipts,
            keys,
        )[key] == receipts[key],
        crate::receipts::released(receipts, keys).contains_key(key) <==> receipts.contains_key(key)
            && !keys.contains(key),
        receipts.contains_key(key) && !keys.contains(key) ==> crate::receipts::released(
            receipts,
            keys,
        )[key] == receipts[key],
        crate::receipts::completed(receipts, done, result).dom() == receipts.dom(),
        receipts.contains_key(key) && key != done ==> crate::receipts::completed(
            receipts,
            done,
            result,
        )[key] == receipts[key],
{
    assert(crate::receipts::completed(receipts, done, result).dom() =~= receipts.dom());
}

/// A fault says when it happened: what is wrong with the configuration is said before
/// anything is prepared, what is wrong with a group while it is prepared, and so on to the
/// end of the worker.
pub proof fn faults_say_when_they_happened(fault: RelayFault)
    ensures
        crate::relay_error::fault_stage(fault) == ErrorStage::Configuration <==> (
        fault is InvalidReceiptCapacity || fault is InvalidConfiguration),
        crate::relay_error::fault_stage(fault) == ErrorStage::Prepare <==> (fault is InvalidBusCount
            || fault is AudioInputRequired || fault is ReceiptRegistryUnavailable
            || fault is ReceiptCapacityExhausted || fault is DuplicateReceipt
            || fault is PublisherGroupMismatch || fault is DuplicateBus || fault is EmptyGroup
            || fault is UnsupportedSampleRate || fault is UnsupportedSampleFormat
            || fault is UnsupportedChannelCount),
        crate::relay_error::fault_stage(fault) == ErrorStage::Startup <==> (fault is HandshakeFailed
            || fault is FeederSpawnFailed || fault is PublisherStartFailed
            || fault is RoutesUnavailable || fault is PreparationUnavailable),
        crate::relay_error::fault_stage(fault) == ErrorStage::Delivery <==> (
        fault is PreparedStreamMismatch || fault is EncoderPanicked || fault is PublisherFailed
            || fault is FeederPanicked || fault is AudioProcessingFailed
            || fault is PublisherExited),
        crate::relay_error::fault_stage(fault) == ErrorStage::Shutdown
            <==> fault is PreparationCancelFailed,
        crate::relay_error::fault_stage(fault) == ErrorStage::Join <==> fault is InvalidOutcomeCount,
{
}

/// A fault says whether to try again: not at all where the connector itself is out of step,
/// as it is where the outside may change, and otherwise after the configuration has changed.
pub proof fn faults_say_whether_to_try_again(fault: RelayFault)
    ensures
        crate::relay_error::fault_retryability(fault) == Retryability::Never <==> (
        fault is ReceiptRegistryUnavailable || fault is DuplicateReceipt || fault is EmptyGroup
            || fault is PreparedStreamMismatch || fault is RoutesUnavailable
            || fault is PreparationUnavailable || fault is InvalidOutcomeCount),
        crate::relay_error::fault_retryability(fault) == Retryability::AfterReconfiguration <==> (
        fault is InvalidReceiptCapacity || fault is InvalidConfiguration || fault is InvalidBusCount
            || fault is AudioInputRequired || fault is PublisherGroupMismatch
            || fault is DuplicateBus || fault is UnsupportedSampleRate
            || fault is UnsupportedSampleFormat || fault is UnsupportedChannelCount),
{
}

/// What is reported of a fault names its cause, and keeps as much of it as a report holds.
pub proof fn faults_name_their_cause(fault: RelayFault)
    ensures
        fault matches RelayFault::HandshakeFailed(error) ==> crate::relay_error::fault_message(fault)
            == "relay handshake failed: "@ + error@,
        fault matches RelayFault::FeederSpawnFailed(error) ==> crate::relay_error::fault_message(
            fault,
        ) == "relay feeder spawn failed: "@ + error@,
        fault matches RelayFault::PublisherFailed(error) ==> crate::relay_error::fault_message(fault)
            == error@,
        fault matches RelayFault::PublisherStartFailed(error) ==> crate::relay_error::fault_message(
            fault,
        ) == error@,
        fault matches RelayFault::PreparationCancelFailed(error)
            ==> crate::relay_error::fault_message(fault) == error@,
        crate::relay_error::fault_report(fault).code == crate::relay_error::fault_code(fault),
        crate::relay_error::fault_report(fault).stage == crate::relay_error::fault_stage(fault),
        crate::relay_error::fault_report(fault).retryability
            == crate::relay_error::fault_retryability(fault),
        crate::text::byte_len(crate::relay_error::fault_message(fault))
            <= 4096 ==> crate::relay_error::fault_report(fault).message
            == crate::relay_error::fault_message(fault),
{
    crate::text::truncation_keeps_what_fits(
        crate::relay_error::fault_message(fault),
        crate::relay_error::MAX_ERROR_MESSAGE_BYTES as nat,
    );
}

/// A fault is reported where there is one, and a route for which nothing was done has
/// statistics of zero.
pub proof fn only_faults_are_reported(fault: Option<RelayFault>)
    ensures
        crate::outcomes::report_of(fault) is Some <==> fault is Some,
        fault matches Some(f) ==> crate::outcomes::report_of(fault)->0.code
            == crate::relay_error::fault_code(f),
        ({
            let none = crate::receipts::no_statistics();
            &&& none.rtp_packets_sent_total == 0 && none.rtp_payload_bytes_sent_total == 0
            &&& none.rtc_poll_drains_total == 0 && none.rtc_writer_writes_total == 0
            &&& none.elapsed_ms == 0
            &&& none.opus_packets_encoded_total == 0 && none.opus_encode_errors_total == 0
            &&& none.encoder_channel_drops_total == 0 && none.publisher_stale_drops_total == 0
            &&& none.ingress_queue_drops_total == 0
            &&& none.cancelled_output_frames_total == 0 && none.cancelled_output_samples_total == 0
        }),
{
}

/// A run that gave the wrong number of outcomes says so, whatever they are. One that came to
/// an end by itself, without an error, says that it did.
pub proof fn runs_say_why_they_ended(
    expected: nat,
    outcomes: Seq<OutcomeView>,
    stop_requested: bool,
)
    ensures
        outcomes.len() != expected ==> crate::outcomes::run_error(
            expected,
            outcomes,
            stop_requested,
        ) == Some(crate::relay_error::fault_report(RelayFault::InvalidOutcomeCount)),
        outcomes.len() == expected && !stop_requested && (forall|i: int|
            0 <= i < outcomes.len() ==> (#[trigger] outcomes[i]).error is None)
            ==> crate::outcomes::run_error(expected, outcomes, stop_requested) == Some(
            crate::relay_error::fault_report(RelayFault::PublisherExited),
        ),
{
    crate::outcomes::success_means_no_errors(expected, outcomes, true);
}

/// A time is counted in whole milliseconds, up to the end of the count.
pub proof fn times_are_counted_in_whole_milliseconds(duration: Duration)
    ensures
        ({
            let ms = crate::runtime::whole_millis(duration);
            let ns = crate::boundary::duration_nanos(duration);
            &&& ms * 1_000_000 <= ns
            &&& ms < u64::MAX ==> ns < (ms + 1) * 1_000_000
        }),
{
}

/// A receipt shows a result where it is the receipt's own, and no other.
pub proof fn receipts_show_their_own_result(found: Option<&RelayPublishResult>, key: u128)
    ensures
        crate::receipts::own_result(found, key) is Some <==> found is Some && found->0@.key == key,
        crate::receipts::own_result(found, key) is Some ==> crate::receipts::own_result(found, key)
            == found,
{
}

/// A registry refuses what would take it beyond its capacity, and otherwise what it holds
/// already. It refuses nothing else.
pub proof fn registries_refuse_what_they_cannot_hold(v: RegistryView, keys: Seq<u128>)
    ensures
        crate::receipts::reserve_fault(v, keys) == Some(RelayFault::ReceiptCapacityExhausted)
            <==> v.receipts.len() + keys.len() > v.capacity,
        crate::receipts::reserve_fault(v, keys) == Some(RelayFault::DuplicateReceipt)
            <==> v.receipts.len() + keys.len() <= v.capacity && exists|i: int|
            0 <= i < keys.len() && v.receipts.contains_key(#[trigger] keys[i]),
        crate::receipts::reserve_fault(v, keys) is None <==> v.receipts.len() + keys.len()
            <= v.capacity && forall|i: int|
            0 <= i < keys.len() ==> !v.receipts.contains_key(#[trigger] keys[i]),
{
}

/// What is wrong with audio is said with the numbers that are wrong.
pub proof fn audio_faults_say_their_numbers(fault: RelayFault, error: PcmPacketizerError)
    ensures
        fault matches RelayFault::UnsupportedSampleRate(hz) ==> crate::relay_error::fault_message(
            fault,
        ) == "relay input sample rate is "@ + crate::numeral::decimal(hz as nat)
            + " Hz; expected 48000 Hz"@,
        fault matches RelayFault::UnsupportedChannelCount(channels)
            ==> crate::relay_error::fault_message(fault)
            == "relay input has unsupported channel count "@ + crate::numeral::decimal(
            channels as nat,
        ),
        fault matches RelayFault::AudioProcessingFailed { encode_errors, partial_samples_discarded }
            ==> crate::relay_error::fault_message(fault) == "relay audio processing failed: "@
            + crate::numeral::decimal(encode_errors as nat) + " Opus encode errors, "@
            + crate::numeral::decimal(partial_samples_discarded as nat)
            + " partial PCM samples discarded"@,
        fault matches RelayFault::InvalidConfiguration(error) ==> crate::relay_error::fault_message(
            fault,
        ) == crate::configuration_error::configuration_error_text(error),
        error matches PcmPacketizerError::UnsupportedChannelCount(channels)
            ==> crate::audio::pcm_packetizer::packetizer_error_text(error)
            == "relay PCM input has unsupported channel count "@ + crate::numeral::decimal(
            channels as nat,
        ),
        error matches PcmPacketizerError::UnsupportedSampleRate(hz)
            ==> crate::audio::pcm_packetizer::packetizer_error_text(error)
            == "relay PCM input has unsupported sample rate "@ + crate::numeral::decimal(hz as nat)
            + " Hz; expected 48000 Hz"@,
        error matches PcmPacketizerError::MisalignedInput { samples, channels }
            ==> crate::audio::pcm_packetizer::packetizer_error_text(error)
            == "relay PCM input has "@ + crate::numeral::decimal(samples as nat)
            + " interleaved samples, which is not aligned to "@ + crate::numeral::decimal(
            channels as nat,
        ) + " channels"@,
{
}

/// A setting that is missing or not marked as a secret is named.
pub proof fn settings_that_are_wrong_are_named(field: &'static str, bus: Seq<char>)
    ensures
        crate::configuration_error::configuration_error_text(
            RelayConfigurationError::MissingField(field),
        ) == "relay connector configuration is missing required field '"@ + field@ + "'"@,
        crate::configuration_error::configuration_error_text(
            RelayConfigurationError::SecretNotSensitive(field),
        ) == "relay connector secret field '"@ + field@ + "' was not marked sensitive"@,
        crate::frame_publisher::bus_character_message(bus) == "bus label '"@ + bus
            + "' must contain only letters, digits, '.', '_', or '-'"@,
{
}

/// Each fault has its own code, by which it is known outside.
pub proof fn faults_have_their_codes(fault: RelayFault)
    ensures
        fault is InvalidReceiptCapacity ==> crate::relay_error::fault_code(fault) == "relay.invalid_receipt_capacity"@,
        fault is InvalidConfiguration ==> crate::relay_error::fault_code(fault) == "relay.invalid_configuration"@,
        fault is InvalidBusCount ==> crate::relay_error::fault_code(fault) == "relay.invalid_bus_count"@,
        fault is AudioInputRequired ==> crate::relay_error::fault_code(fault) == "relay.audio_input_required"@,
        fault is ReceiptRegistryUnavailable ==> crate::relay_error::fault_code(fault) == "relay.receipt_registry_unavailable"@,
        fault is ReceiptCapacityExhausted ==> crate::relay_error::fault_code(fault) == "relay.receipt_capacity_exhausted"@,
        fault is DuplicateReceipt ==> crate::relay_error::fault_code(fault) == "relay.duplicate_receipt"@,
        fault is PublisherGroupMismatch ==> crate::relay_error::fault_code(fault) == "relay.publisher_group_mismatch"@,
        fault is DuplicateBus ==> crate::relay_error::fault_code(fault) == "relay.duplicate_bus"@,
        fault is EmptyGroup ==> crate::relay_error::fault_code(fault) == "relay.empty_group"@,
        fault is HandshakeFailed ==> crate::relay_error::fault_code(fault) == "relay.handshake_failed"@,
        fault is UnsupportedSampleRate ==> crate::relay_error::fault_code(fault) == "relay.unsupported_sample_rate"@,
        fault is UnsupportedSampleFormat ==> crate::relay_error::fault_code(fault) == "relay.unsupported_sample_format"@,
        fault is UnsupportedChannelCount ==> crate::relay_error::fault_code(fault) == "relay.unsupported_channel_count"@,
        fault is PreparedStreamMismatch ==> crate::relay_error::fault_code(fault) == "relay.prepared_stream_mismatch"@,
        fault is FeederSpawnFailed ==> crate::relay_error::fault_code(fault) == "relay.feeder_spawn_failed"@,
        fault is EncoderPanicked ==> crate::relay_error::fault_code(fault) == "relay.encoder_panicked"@,
        fault is PublisherFailed ==> crate::relay_error::fault_code(fault) == "relay.publisher_failed"@,
        fault is PublisherStartFailed ==> crate::relay_error::fault_code(fault) == "relay.publisher_start_failed"@,
        fault is FeederPanicked ==> crate::relay_error::fault_code(fault) == "relay.feeder_panicked"@,
        fault is AudioProcessingFailed ==> crate::relay_error::fault_code(fault) == "relay.audio_processing_failed"@,
        fault is PreparationCancelFailed ==> crate::relay_error::fault_code(fault) == "relay.preparation_cancel_failed"@,
        fault is RoutesUnavailable ==> crate::relay_error::fault_code(fault) == "relay.routes_unavailable"@,
        fault is PreparationUnavailable ==> crate::relay_error::fault_code(fault) == "relay.preparation_unavailable"@,
        fault is InvalidOutcomeCount ==> crate::relay_error::fault_code(fault) == "relay.invalid_outcome_count"@,
        fault is PublisherExited ==> crate::relay_error::fault_code(fault) == "relay.publisher_exited"@,
{
}

/// Each fault without a cause of its own says what is wrong.
pub proof fn faults_say_what_is_wrong(fault: RelayFault)
    ensures
        fault is InvalidReceiptCapacity ==> crate::relay_error::fault_message(fault)
            == "relay receipt capacity must be finite and non-zero"@,
        fault is InvalidBusCount ==> crate::relay_error::fault_message(fault)
            == "relay publisher requires between 1 and 16 grouped AudioBus inputs"@,
        fault is AudioInputRequired ==> crate::relay_error::fault_message(fault)
            == "relay publisher requires audio inputs"@,
        fault is ReceiptRegistryUnavailable ==> crate::relay_error::fault_message(fault)
            == "relay receipt registry is unavailable"@,
        fault is ReceiptCapacityExhausted ==> crate::relay_error::fault_message(fault)
            == "relay receipt capacity is exhausted"@,
        fault is DuplicateReceipt ==> crate::relay_error::fault_message(fault)
            == "relay receipt already exists for a grouped endpoint route"@,
        fault is PublisherGroupMismatch ==> crate::relay_error::fault_message(fault)
            == "grouped relay routes must share one Relay origin, Session, credential, publisher group, ICE configuration and startup deadline"@,
        fault is DuplicateBus ==> crate::relay_error::fault_message(fault)
            == "grouped relay routes contain a duplicate AudioBus identifier"@,
        fault is EmptyGroup ==> crate::relay_error::fault_message(fault)
            == "relay route group is empty"@,
        fault is UnsupportedSampleFormat ==> crate::relay_error::fault_message(fault)
            == "relay input must use interleaved f32 PCM"@,
        fault is PreparedStreamMismatch ==> crate::relay_error::fault_message(fault)
            == "relay prepared stream count does not match grouped routes"@,
        fault is EncoderPanicked ==> crate::relay_error::fault_message(fault)
            == "relay encoder thread panicked"@,
        fault is FeederPanicked ==> crate::relay_error::fault_message(fault)
            == "relay feeder thread panicked"@,
        fault is RoutesUnavailable ==> crate::relay_error::fault_message(fault)
            == "relay grouped routes were already consumed"@,
        fault is PreparationUnavailable ==> crate::relay_error::fault_message(fault)
            == "relay transport preparation was already consumed"@,
        fault is InvalidOutcomeCount ==> crate::relay_error::fault_message(fault)
            == "relay transport returned an invalid grouped outcome count"@,
        fault is PublisherExited ==> crate::relay_error::fault_message(fault)
            == "relay publisher exited before stop was requested"@,
{
}

/// Each error of a configuration says what is wrong with it.
pub proof fn configurations_say_what_is_wrong(error: RelayConfigurationError)
    ensures
        error is InvalidRelayUrl ==> crate::configuration_error::configuration_error_text(error)
            == "relay URL must be an absolute HTTP or HTTPS origin"@,
        error is InvalidIdentity ==> crate::configuration_error::configuration_error_text(error)
            == "relay Session and publisher group identifiers must be non-empty and bounded"@,
        error is InvalidBusId ==> crate::configuration_error::configuration_error_text(error)
            == "AudioBus identifier is invalid"@,
        error is InvalidLatencyProfile ==> crate::configuration_error::configuration_error_text(error)
            == "relay latency profile must be 'standard' or 'low'"@,
        error is InvalidStartupTimeout ==> crate::configuration_error::configuration_error_text(error)
            == "relay startup timeout must be finite and between 1 ms and 120 s"@,
        error is InvalidIceServerCount ==> crate::configuration_error::configuration_error_text(error)
            == "ICE server count is outside the finite package limit"@,
        error is InvalidIceServerUrl ==> crate::configuration_error::configuration_error_text(error)
            == "this connector version supports only a valid stun: UDP server authority"@,
        error is InvalidIceCredential ==> crate::configuration_error::configuration_error_text(error)
            == "STUN server configuration must not contain TURN credentials"@,
        error is InvalidIceServerEncoding ==> crate::configuration_error::configuration_error_text(error)
            == "ICE server configuration could not be encoded or decoded"@,
        error == RelayConfigurationError::ConnectorConfiguration(SecretFault::Empty)
            ==> crate::configuration_error::configuration_error_text(error)
            == "connector.configuration.empty_secret: secret value cannot be empty"@,
        error == RelayConfigurationError::ConnectorConfiguration(SecretFault::TooLarge)
            ==> crate::configuration_error::configuration_error_text(error)
            == "connector.configuration.value_too_large: secret value exceeds the connector configuration byte limit"@,
{
}

} // verus!
