//! What the connector reports to PocketStation Core when it fails.
use pocketstation::connector::ConnectorError;
use vstd::prelude::*;

use crate::boundary::new_connector_error;
use crate::configuration_error::RelayConfigurationError;
use crate::numeral::decimal_chars;
use crate::text::{append_chars, append_str, from_chars, is_blank, to_chars, truncate_text};

verus! {

/// The longest message of a report, in bytes.
pub const MAX_ERROR_MESSAGE_BYTES: usize = 4096;

/// The longest code of a report, in bytes.
pub const MAX_ERROR_CODE_BYTES: usize = 160;

/// The part of the connector's life in which it failed.
#[derive(Debug, Clone, Copy, PartialEq, Eq, Structural)]
pub enum ErrorStage {
    Configuration,
    Prepare,
    Startup,
    Delivery,
    Shutdown,
    Join,
}

/// Whether another try may succeed.
#[derive(Debug, Clone, Copy, PartialEq, Eq, Structural)]
pub enum Retryability {
    Never,
    Retryable,
    AfterReconfiguration,
}

/// What a report says.
#[verifier::ext_equal]
pub struct ErrorView {
    pub code: Seq<char>,
    pub stage: ErrorStage,
    pub retryability: Retryability,
    pub message: Seq<char>,
}

pub open spec fn code_char(c: char) -> bool {
    ||| 'a' <= c <= 'z'
    ||| '0' <= c <= '9'
    ||| c == '.'
    ||| c == '_'
    ||| c == '-'
}

/// A stable identifier: lower-case letters, digits, dots, underscores and hyphens.
pub open spec fn is_error_code(code: Seq<char>) -> bool {
    &&& 0 < code.len()
    &&& crate::text::byte_len(code) <= MAX_ERROR_CODE_BYTES
    &&& forall|i: int| 0 <= i < code.len() ==> code_char(#[trigger] code[i])
}

/// A message that says something and is not too long.
pub open spec fn is_error_message(message: Seq<char>) -> bool {
    !crate::text::blank(message) && crate::text::byte_len(message) <= MAX_ERROR_MESSAGE_BYTES
}

/// The part of a message that fits into a report.
pub open spec fn reported(message: Seq<char>) -> Seq<char> {
    crate::text::truncated(message, MAX_ERROR_MESSAGE_BYTES as nat)
}

/// Makes a report. A message that is too long is cut off between two characters.
pub fn relay_error(
    code: &str,
    stage: ErrorStage,
    retryability: Retryability,
    message: &str,
) -> (error: ConnectorError)
    requires
        is_error_code(code@),
        !crate::text::blank(reported(message@)),
    ensures
        crate::boundary::error_parts(error) == (ErrorView {
            code: code@,
            stage,
            retryability,
            message: reported(message@),
        }),
{
    let chars = to_chars(message);
    let kept = from_chars(truncate_text(chars.as_slice(), MAX_ERROR_MESSAGE_BYTES));
    proof {
        crate::text::truncation_is_bounded(message@, MAX_ERROR_MESSAGE_BYTES as nat);
    }
    new_connector_error(code, stage, retryability, kept).unwrap()
}

/// Whether what is reported of a message says something.
pub fn says_something(message: &str) -> (r: bool)
    ensures
        r == !crate::text::blank(reported(message@)),
{
    let chars = to_chars(message);
    !is_blank(truncate_text(chars.as_slice(), MAX_ERROR_MESSAGE_BYTES))
}

/// A message that begins with a mark still says something when it is cut off.
pub proof fn lemma_reported_says_something(message: Seq<char>)
    requires
        message.len() > 0,
        !crate::text::white_space(message[0]),
    ensures
        !crate::text::blank(reported(message)),
{
    crate::text::truncation_is_bounded(message, MAX_ERROR_MESSAGE_BYTES as nat);
    assert(reported(message)[0] == message[0]);
}

// The faults of the connector.

/// What can go wrong.
#[derive(Debug, Clone, PartialEq, Eq)]
pub enum RelayFault {
    InvalidReceiptCapacity,
    InvalidConfiguration(RelayConfigurationError),
    InvalidBusCount,
    AudioInputRequired,
    ReceiptRegistryUnavailable,
    ReceiptCapacityExhausted,
    DuplicateReceipt,
    PublisherGroupMismatch,
    DuplicateBus,
    EmptyGroup,
    HandshakeFailed(String),
    UnsupportedSampleRate(u32),
    UnsupportedSampleFormat,
    UnsupportedChannelCount(u8),
    PreparedStreamMismatch,
    FeederSpawnFailed(String),
    EncoderPanicked,
    PublisherFailed(String),
    PublisherStartFailed(String),
    FeederPanicked,
    AudioProcessingFailed { encode_errors: u64, partial_samples_discarded: u64 },
    PreparationCancelFailed(String),
    RoutesUnavailable,
    PreparationUnavailable,
    InvalidOutcomeCount,
    PublisherExited,
}

pub open spec fn fault_code(fault: RelayFault) -> Seq<char> {
    match fault {
        RelayFault::InvalidReceiptCapacity => "relay.invalid_receipt_capacity"@,
        RelayFault::InvalidConfiguration(_) => "relay.invalid_configuration"@,
        RelayFault::InvalidBusCount => "relay.invalid_bus_count"@,
        RelayFault::AudioInputRequired => "relay.audio_input_required"@,
        RelayFault::ReceiptRegistryUnavailable => "relay.receipt_registry_unavailable"@,
        RelayFault::ReceiptCapacityExhausted => "relay.receipt_capacity_exhausted"@,
        RelayFault::DuplicateReceipt => "relay.duplicate_receipt"@,
        RelayFault::PublisherGroupMismatch => "relay.publisher_group_mismatch"@,
        RelayFault::DuplicateBus => "relay.duplicate_bus"@,
        RelayFault::EmptyGroup => "relay.empty_group"@,
        RelayFault::HandshakeFailed(_) => "relay.handshake_failed"@,
        RelayFault::UnsupportedSampleRate(_) => "relay.unsupported_sample_rate"@,
        RelayFault::UnsupportedSampleFormat => "relay.unsupported_sample_format"@,
        RelayFault::UnsupportedChannelCount(_) => "relay.unsupported_channel_count"@,
        RelayFault::PreparedStreamMismatch => "relay.prepared_stream_mismatch"@,
        RelayFault::FeederSpawnFailed(_) => "relay.feeder_spawn_failed"@,
        RelayFault::EncoderPanicked => "relay.encoder_panicked"@,
        RelayFault::PublisherFailed(_) => "relay.publisher_failed"@,
        RelayFault::PublisherStartFailed(_) => "relay.publisher_start_failed"@,
        RelayFault::FeederPanicked => "relay.feeder_panicked"@,
        RelayFault::AudioProcessingFailed { .. } => "relay.audio_processing_failed"@,
        RelayFault::PreparationCancelFailed(_) => "relay.preparation_cancel_failed"@,
        RelayFault::RoutesUnavailable => "relay.routes_unavailable"@,
        RelayFault::PreparationUnavailable => "relay.preparation_unavailable"@,
        RelayFault::InvalidOutcomeCount => "relay.invalid_outcome_count"@,
        RelayFault::PublisherExited => "relay.publisher_exited"@,
    }
}

pub open spec fn fault_stage(fault: RelayFault) -> ErrorStage {
    match fault {
        RelayFault::InvalidReceiptCapacity => ErrorStage::Configuration,
        RelayFault::InvalidConfiguration(_) => ErrorStage::Configuration,
        RelayFault::HandshakeFailed(_) => ErrorStage::Startup,
        RelayFault::FeederSpawnFailed(_) => ErrorStage::Startup,
        RelayFault::PublisherStartFailed(_) => ErrorStage::Startup,
        RelayFault::RoutesUnavailable => ErrorStage::Startup,
        RelayFault::PreparationUnavailable => ErrorStage::Startup,
        RelayFault::PreparedStreamMismatch => ErrorStage::Delivery,
        RelayFault::EncoderPanicked => ErrorStage::Delivery,
        RelayFault::PublisherFailed(_) => ErrorStage::Delivery,
        RelayFault::FeederPanicked => ErrorStage::Delivery,
        RelayFault::AudioProcessingFailed { .. } => ErrorStage::Delivery,
        RelayFault::PublisherExited => ErrorStage::Delivery,
        RelayFault::PreparationCancelFailed(_) => ErrorStage::Shutdown,
        RelayFault::InvalidOutcomeCount => ErrorStage::Join,
        _ => ErrorStage::Prepare,
    }
}

pub open spec fn fault_retryability(fault: RelayFault) -> Retryability {
    match fault {
        RelayFault::ReceiptRegistryUnavailable => Retryability::Never,
        RelayFault::DuplicateReceipt => Retryability::Never,
        RelayFault::EmptyGroup => Retryability::Never,
        RelayFault::PreparedStreamMismatch => Retryability::Never,
        RelayFault::RoutesUnavailable => Retryability::Never,
        RelayFault::PreparationUnavailable => Retryability::Never,
        RelayFault::InvalidOutcomeCount => Retryability::Never,
        RelayFault::ReceiptCapacityExhausted => Retryability::Retryable,
        RelayFault::HandshakeFailed(_) => Retryability::Retryable,
        RelayFault::FeederSpawnFailed(_) => Retryability::Retryable,
        RelayFault::EncoderPanicked => Retryability::Retryable,
        RelayFault::PublisherFailed(_) => Retryability::Retryable,
        RelayFault::PublisherStartFailed(_) => Retryability::Retryable,
        RelayFault::FeederPanicked => Retryability::Retryable,
        RelayFault::AudioProcessingFailed { .. } => Retryability::Retryable,
        RelayFault::PreparationCancelFailed(_) => Retryability::Retryable,
        RelayFault::PublisherExited => Retryability::Retryable,
        _ => Retryability::AfterReconfiguration,
    }
}

pub open spec fn fault_message(fault: RelayFault) -> Seq<char> {
    match fault {
        RelayFault::InvalidReceiptCapacity => "relay receipt capacity must be finite and non-zero"@,
        RelayFault::InvalidConfiguration(error) => {
            crate::configuration_error::configuration_error_text(error)
        },
        RelayFault::InvalidBusCount => {
            "relay publisher requires between 1 and 16 grouped AudioBus inputs"@
        },
        RelayFault::AudioInputRequired => "relay publisher requires audio inputs"@,
        RelayFault::ReceiptRegistryUnavailable => "relay receipt registry is unavailable"@,
        RelayFault::ReceiptCapacityExhausted => "relay receipt capacity is exhausted"@,
        RelayFault::DuplicateReceipt => {
            "relay receipt already exists for a grouped endpoint route"@
        },
        RelayFault::PublisherGroupMismatch => {
            "grouped relay routes must share one Relay origin, Session, credential, publisher group, ICE configuration and startup deadline"@
        },
        RelayFault::DuplicateBus => {
            "grouped relay routes contain a duplicate AudioBus identifier"@
        },
        RelayFault::EmptyGroup => "relay route group is empty"@,
        RelayFault::HandshakeFailed(error) => "relay handshake failed: "@ + error@,
        RelayFault::UnsupportedSampleRate(hz) => {
            "relay input sample rate is "@ + crate::numeral::decimal(hz as nat)
                + " Hz; expected 48000 Hz"@
        },
        RelayFault::UnsupportedSampleFormat => "relay input must use interleaved f32 PCM"@,
        RelayFault::UnsupportedChannelCount(channels) => {
            "relay input has unsupported channel count "@ + crate::numeral::decimal(
                channels as nat,
            )
        },
        RelayFault::PreparedStreamMismatch => {
            "relay prepared stream count does not match grouped routes"@
        },
        RelayFault::FeederSpawnFailed(error) => "relay feeder spawn failed: "@ + error@,
        RelayFault::EncoderPanicked => "relay encoder thread panicked"@,
        RelayFault::PublisherFailed(error) => error@,
        RelayFault::PublisherStartFailed(error) => error@,
        RelayFault::FeederPanicked => "relay feeder thread panicked"@,
        RelayFault::AudioProcessingFailed { encode_errors, partial_samples_discarded } => {
            "relay audio processing failed: "@ + crate::numeral::decimal(encode_errors as nat)
                + " Opus encode errors, "@ + crate::numeral::decimal(
                partial_samples_discarded as nat,
            ) + " partial PCM samples discarded"@
        },
        RelayFault::PreparationCancelFailed(error) => error@,
        RelayFault::RoutesUnavailable => "relay grouped routes were already consumed"@,
        RelayFault::PreparationUnavailable => "relay transport preparation was already consumed"@,
        RelayFault::InvalidOutcomeCount => {
            "relay transport returned an invalid grouped outcome count"@
        },
        RelayFault::PublisherExited => "relay publisher exited before stop was requested"@,
    }
}

/// The report of a fault.
pub open spec fn fault_report(fault: RelayFault) -> ErrorView {
    ErrorView {
        code: fault_code(fault),
        stage: fault_stage(fault),
        retryability: fault_retryability(fault),
        message: reported(fault_message(fault)),
    }
}

/// Whether a fault can be reported: a message that comes from elsewhere has to say
/// something.
pub open spec fn reportable(fault: RelayFault) -> bool {
    match fault {
        RelayFault::PublisherFailed(error) => !crate::text::blank(reported(error@)),
        RelayFault::PublisherStartFailed(error) => !crate::text::blank(reported(error@)),
        RelayFault::PreparationCancelFailed(error) => !crate::text::blank(reported(error@)),
        _ => true,
    }
}

proof fn lemma_plain_code(code: Seq<char>)
    requires
        0 < code.len() <= MAX_ERROR_CODE_BYTES,
        forall|i: int| 0 <= i < code.len() ==> code_char(#[trigger] code[i]),
    ensures
        is_error_code(code),
{
    assert forall|i: int| 0 <= i < code.len() implies '\0' <= #[trigger] code[i] <= '\u{7f}' by {
        assert(code_char(code[i]));
    }
    vstd::utf8::is_ascii_chars_encode_utf8(code);
}

/// Every fault has a stable code.
pub proof fn faults_have_stable_codes(fault: RelayFault)
    ensures
        is_error_code(fault_code(fault)),
{
    match fault {
        RelayFault::InvalidReceiptCapacity => {
            reveal_strlit("relay.invalid_receipt_capacity");
            lemma_plain_code("relay.invalid_receipt_capacity"@);
        },
        RelayFault::InvalidConfiguration(_) => {
            reveal_strlit("relay.invalid_configuration");
            lemma_plain_code("relay.invalid_configuration"@);
        },
        RelayFault::InvalidBusCount => {
            reveal_strlit("relay.invalid_bus_count");
            lemma_plain_code("relay.invalid_bus_count"@);
        },
        RelayFault::AudioInputRequired => {
            reveal_strlit("relay.audio_input_required");
            lemma_plain_code("relay.audio_input_required"@);
        },
        RelayFault::ReceiptRegistryUnavailable => {
            reveal_strlit("relay.receipt_registry_unavailable");
            lemma_plain_code("relay.receipt_registry_unavailable"@);
        },
        RelayFault::ReceiptCapacityExhausted => {
            reveal_strlit("relay.receipt_capacity_exhausted");
            lemma_plain_code("relay.receipt_capacity_exhausted"@);
        },
        RelayFault::DuplicateReceipt => {
            reveal_strlit("relay.duplicate_receipt");
            lemma_plain_code("relay.duplicate_receipt"@);
        },
        RelayFault::PublisherGroupMismatch => {
            reveal_strlit("relay.publisher_group_mismatch");
            lemma_plain_code("relay.publisher_group_mismatch"@);
        },
        RelayFault::DuplicateBus => {
            reveal_strlit("relay.duplicate_bus");
            lemma_plain_code("relay.duplicate_bus"@);
        },
        RelayFault::EmptyGroup => {
            reveal_strlit("relay.empty_group");
            lemma_plain_code("relay.empty_group"@);
        },
        RelayFault::HandshakeFailed(_) => {
            reveal_strlit("relay.handshake_failed");
            lemma_plain_code("relay.handshake_failed"@);
        },
        RelayFault::UnsupportedSampleRate(_) => {
            reveal_strlit("relay.unsupported_sample_rate");
            lemma_plain_code("relay.unsupported_sample_rate"@);
        },
        RelayFault::UnsupportedSampleFormat => {
            reveal_strlit("relay.unsupported_sample_format");
            lemma_plain_code("relay.unsupported_sample_format"@);
        },
        RelayFault::UnsupportedChannelCount(_) => {
            reveal_strlit("relay.unsupported_channel_count");
            lemma_plain_code("relay.unsupported_channel_count"@);
        },
        RelayFault::PreparedStreamMismatch => {
            reveal_strlit("relay.prepared_stream_mismatch");
            lemma_plain_code("relay.prepared_stream_mismatch"@);
        },
        RelayFault::FeederSpawnFailed(_) => {
            reveal_strlit("relay.feeder_spawn_failed");
            lemma_plain_code("relay.feeder_spawn_failed"@);
        },
        RelayFault::EncoderPanicked => {
            reveal_strlit("relay.encoder_panicked");
            lemma_plain_code("relay.encoder_panicked"@);
        },
        RelayFault::PublisherFailed(_) => {
            reveal_strlit("relay.publisher_failed");
            lemma_plain_code("relay.publisher_failed"@);
        },
        RelayFault::PublisherStartFailed(_) => {
            reveal_strlit("relay.publisher_start_failed");
            lemma_plain_code("relay.publisher_start_failed"@);
        },
        RelayFault::FeederPanicked => {
            reveal_strlit("relay.feeder_panicked");
            lemma_plain_code("relay.feeder_panicked"@);
        },
        RelayFault::AudioProcessingFailed { .. } => {
            reveal_strlit("relay.audio_processing_failed");
            lemma_plain_code("relay.audio_processing_failed"@);
        },
        RelayFault::PreparationCancelFailed(_) => {
            reveal_strlit("relay.preparation_cancel_failed");
            lemma_plain_code("relay.preparation_cancel_failed"@);
        },
        RelayFault::RoutesUnavailable => {
            reveal_strlit("relay.routes_unavailable");
            lemma_plain_code("relay.routes_unavailable"@);
        },
        RelayFault::PreparationUnavailable => {
            reveal_strlit("relay.preparation_unavailable");
            lemma_plain_code("relay.preparation_unavailable"@);
        },
        RelayFault::InvalidOutcomeCount => {
            reveal_strlit("relay.invalid_outcome_count");
            lemma_plain_code("relay.invalid_outcome_count"@);
        },
        RelayFault::PublisherExited => {
            reveal_strlit("relay.publisher_exited");
            lemma_plain_code("relay.publisher_exited"@);
        },
    }
}

/// Every fault that can be reported has a message that says something.
pub proof fn faults_have_messages(fault: RelayFault)
    requires
        reportable(fault),
    ensures
        !crate::text::blank(reported(fault_message(fault))),
{
    match fault {
        RelayFault::PublisherFailed(_) => {},
        RelayFault::PublisherStartFailed(_) => {},
        RelayFault::PreparationCancelFailed(_) => {},
        RelayFault::InvalidConfiguration(error) => {
            crate::configuration_error::lemma_configuration_error_text(error);
            lemma_reported_says_something(fault_message(fault));
        },
        RelayFault::InvalidReceiptCapacity => {
            reveal_strlit(
                "relay receipt capacity must be finite and non-zero",
            );
            lemma_reported_says_something(fault_message(fault));
        },
        RelayFault::InvalidBusCount => {
            reveal_strlit(
                "relay publisher requires between 1 and 16 grouped AudioBus inputs",
            );
            lemma_reported_says_something(fault_message(fault));
        },
        RelayFault::AudioInputRequired => {
            reveal_strlit(
                "relay publisher requires audio inputs",
            );
            lemma_reported_says_something(fault_message(fault));
        },
        RelayFault::ReceiptRegistryUnavailable => {
            reveal_strlit(
                "relay receipt registry is unavailable",
            );
            lemma_reported_says_something(fault_message(fault));
        },
        RelayFault::ReceiptCapacityExhausted => {
            reveal_strlit(
                "relay receipt capacity is exhausted",
            );
            lemma_reported_says_something(fault_message(fault));
        },
        RelayFault::DuplicateReceipt => {
            reveal_strlit(
                "relay receipt already exists for a grouped endpoint route",
            );
            lemma_reported_says_something(fault_message(fault));
        },
        RelayFault::PublisherGroupMismatch => {
            reveal_strlit(
                "grouped relay routes must share one Relay origin, Session, credential, publisher group, ICE configuration and startup deadline",
            );
            lemma_reported_says_something(fault_message(fault));
        },
        RelayFault::DuplicateBus => {
            reveal_strlit(
                "grouped relay routes contain a duplicate AudioBus identifier",
            );
            lemma_reported_says_something(fault_message(fault));
        },
        RelayFault::EmptyGroup => {
            reveal_strlit(
                "relay route group is empty",
            );
            lemma_reported_says_something(fault_message(fault));
        },
        RelayFault::HandshakeFailed(_) => {
            reveal_strlit(
                "relay handshake failed: ",
            );
            lemma_reported_says_something(fault_message(fault));
        },
        RelayFault::UnsupportedSampleRate(_) => {
            reveal_strlit(
                "relay input sample rate is ",
            );
            lemma_reported_says_something(fault_message(fault));
        },
        RelayFault::UnsupportedSampleFormat => {
            reveal_strlit(
                "relay input must use interleaved f32 PCM",
            );
            lemma_reported_says_something(fault_message(fault));
        },
        RelayFault::UnsupportedChannelCount(_) => {
            reveal_strlit(
                "relay input has unsupported channel count ",
            );
            lemma_reported_says_something(fault_message(fault));
        },
        RelayFault::PreparedStreamMismatch => {
            reveal_strlit(
                "relay prepared stream count does not match grouped routes",
            );
            lemma_reported_says_something(fault_message(fault));
        },
        RelayFault::FeederSpawnFailed(_) => {
            reveal_strlit(
                "relay feeder spawn failed: ",
            );
            lemma_reported_says_something(fault_message(fault));
        },
        RelayFault::EncoderPanicked => {
            reveal_strlit(
                "relay encoder thread panicked",
            );
            lemma_reported_says_something(fault_message(fault));
        },
        RelayFault::FeederPanicked => {
            reveal_strlit(
                "relay feeder thread panicked",
            );
            lemma_reported_says_something(fault_message(fault));
        },
        RelayFault::AudioProcessingFailed { .. } => {
            reveal_strlit(
                "relay audio processing failed: ",
            );
            lemma_reported_says_something(fault_message(fault));
        },
        RelayFault::RoutesUnavailable => {
            reveal_strlit(
                "relay grouped routes were already consumed",
            );
            lemma_reported_says_something(fault_message(fault));
        },
        RelayFault::PreparationUnavailable => {
            reveal_strlit(
                "relay transport preparation was already consumed",
            );
            lemma_reported_says_something(fault_message(fault));
        },
        RelayFault::InvalidOutcomeCount => {
            reveal_strlit(
                "relay transport returned an invalid grouped outcome count",
            );
            lemma_reported_says_something(fault_message(fault));
        },
        RelayFault::PublisherExited => {
            reveal_strlit(
                "relay publisher exited before stop was requested",
            );
            lemma_reported_says_something(fault_message(fault));
        },
    }
}

fn prefixed(before: &str, error: &str) -> (message: String)
    ensures
        message@ == before@ + error@,
{
    let mut chars = to_chars(before);
    append_str(&mut chars, error);
    from_chars(chars.as_slice())
}

fn numbered(before: &str, n: u64, after: &str) -> (message: String)
    ensures
        message@ == before@ + crate::numeral::decimal(n as nat) + after@,
{
    let mut chars = to_chars(before);
    let digits = decimal_chars(n);
    append_chars(&mut chars, digits.as_slice());
    append_str(&mut chars, after);
    from_chars(chars.as_slice())
}

impl RelayFault {
    /// The stable code.
    pub fn code(&self) -> (code: &'static str)
        ensures
            code@ == fault_code(*self),
    {
        match self {
            RelayFault::InvalidReceiptCapacity => "relay.invalid_receipt_capacity",
            RelayFault::InvalidConfiguration(_) => "relay.invalid_configuration",
            RelayFault::InvalidBusCount => "relay.invalid_bus_count",
            RelayFault::AudioInputRequired => "relay.audio_input_required",
            RelayFault::ReceiptRegistryUnavailable => "relay.receipt_registry_unavailable",
            RelayFault::ReceiptCapacityExhausted => "relay.receipt_capacity_exhausted",
            RelayFault::DuplicateReceipt => "relay.duplicate_receipt",
            RelayFault::PublisherGroupMismatch => "relay.publisher_group_mismatch",
            RelayFault::DuplicateBus => "relay.duplicate_bus",
            RelayFault::EmptyGroup => "relay.empty_group",
            RelayFault::HandshakeFailed(_) => "relay.handshake_failed",
            RelayFault::UnsupportedSampleRate(_) => "relay.unsupported_sample_rate",
            RelayFault::UnsupportedSampleFormat => "relay.unsupported_sample_format",
            RelayFault::UnsupportedChannelCount(_) => "relay.unsupported_channel_count",
            RelayFault::PreparedStreamMismatch => "relay.prepared_stream_mismatch",
            RelayFault::FeederSpawnFailed(_) => "relay.feeder_spawn_failed",
            RelayFault::EncoderPanicked => "relay.encoder_panicked",
            RelayFault::PublisherFailed(_) => "relay.publisher_failed",
            RelayFault::PublisherStartFailed(_) => "relay.publisher_start_failed",
            RelayFault::FeederPanicked => "relay.feeder_panicked",
            RelayFault::AudioProcessingFailed { .. } => "relay.audio_processing_failed",
            RelayFault::PreparationCancelFailed(_) => "relay.preparation_cancel_failed",
            RelayFault::RoutesUnavailable => "relay.routes_unavailable",
            RelayFault::PreparationUnavailable => "relay.preparation_unavailable",
            RelayFault::InvalidOutcomeCount => "relay.invalid_outcome_count",
            RelayFault::PublisherExited => "relay.publisher_exited",
        }
    }

    pub fn stage(&self) -> (stage: ErrorStage)
        ensures
            stage == fault_stage(*self),
    {
        match self {
            RelayFault::InvalidReceiptCapacity => ErrorStage::Configuration,
            RelayFault::InvalidConfiguration(_) => ErrorStage::Configuration,
            RelayFault::HandshakeFailed(_) => ErrorStage::Startup,
            RelayFault::FeederSpawnFailed(_) => ErrorStage::Startup,
            RelayFault::PublisherStartFailed(_) => ErrorStage::Startup,
            RelayFault::RoutesUnavailable => ErrorStage::Startup,
            RelayFault::PreparationUnavailable => ErrorStage::Startup,
            RelayFault::PreparedStreamMismatch => ErrorStage::Delivery,
            RelayFault::EncoderPanicked => ErrorStage::Delivery,
            RelayFault::PublisherFailed(_) => ErrorStage::Delivery,
            RelayFault::FeederPanicked => ErrorStage::Delivery,
            RelayFault::AudioProcessingFailed { .. } => ErrorStage::Delivery,
            RelayFault::PublisherExited => ErrorStage::Delivery,
            RelayFault::PreparationCancelFailed(_) => ErrorStage::Shutdown,
            RelayFault::InvalidOutcomeCount => ErrorStage::Join,
            _ => ErrorStage::Prepare,
        }
    }

    pub fn retryability(&self) -> (retryability: Retryability)
        ensures
            retryability == fault_retryability(*self),
    {
        match self {
            RelayFault::ReceiptRegistryUnavailable => Retryability::Never,
            RelayFault::DuplicateReceipt => Retryability::Never,
            RelayFault::EmptyGroup => Retryability::Never,
            RelayFault::PreparedStreamMismatch => Retryability::Never,
            RelayFault::RoutesUnavailable => Retryability::Never,
            RelayFault::PreparationUnavailable => Retryability::Never,
            RelayFault::InvalidOutcomeCount => Retryability::Never,
            RelayFault::ReceiptCapacityExhausted => Retryability::Retryable,
            RelayFault::HandshakeFailed(_) => Retryability::Retryable,
            RelayFault::FeederSpawnFailed(_) => Retryability::Retryable,
            RelayFault::EncoderPanicked => Retryability::Retryable,
            RelayFault::PublisherFailed(_) => Retryability::Retryable,
            RelayFault::PublisherStartFailed(_) => Retryability::Retryable,
            RelayFault::FeederPanicked => Retryability::Retryable,
            RelayFault::AudioProcessingFailed { .. } => Retryability::Retryable,
            RelayFault::PreparationCancelFailed(_) => Retryability::Retryable,
            RelayFault::PublisherExited => Retryability::Retryable,
            _ => Retryability::AfterReconfiguration,
        }
    }

    /// The whole message.
    pub fn message(&self) -> (message: String)
        ensures
            message@ == fault_message(*self),
    {
        match self {
            RelayFault::InvalidConfiguration(error) => error.message(),
            RelayFault::HandshakeFailed(error) => prefixed(
                "relay handshake failed: ",
                error.as_str(),
            ),
            RelayFault::FeederSpawnFailed(error) => prefixed(
                "relay feeder spawn failed: ",
                error.as_str(),
            ),
            RelayFault::PublisherFailed(error) => error.as_str().to_owned(),
            RelayFault::PublisherStartFailed(error) => error.as_str().to_owned(),
            RelayFault::PreparationCancelFailed(error) => error.as_str().to_owned(),
            RelayFault::UnsupportedSampleRate(hz) => numbered(
                "relay input sample rate is ",
                *hz as u64,
                " Hz; expected 48000 Hz",
            ),
            RelayFault::UnsupportedChannelCount(channels) => {
                let mut chars = to_chars("relay input has unsupported channel count ");
                let digits = decimal_chars(*channels as u64);
                append_chars(&mut chars, digits.as_slice());
                from_chars(chars.as_slice())
            },
            RelayFault::AudioProcessingFailed { encode_errors, partial_samples_discarded } => {
                let mut chars = to_chars("relay audio processing failed: ");
                let errors = decimal_chars(*encode_errors);
                append_chars(&mut chars, errors.as_slice());
                append_str(&mut chars, " Opus encode errors, ");
                let samples = decimal_chars(*partial_samples_discarded);
                append_chars(&mut chars, samples.as_slice());
                append_str(&mut chars, " partial PCM samples discarded");
                from_chars(chars.as_slice())
            },
            RelayFault::InvalidReceiptCapacity => {
                "relay receipt capacity must be finite and non-zero".to_owned()
            },
            RelayFault::InvalidBusCount => {
                "relay publisher requires between 1 and 16 grouped AudioBus inputs".to_owned()
            },
            RelayFault::AudioInputRequired => {
                "relay publisher requires audio inputs".to_owned()
            },
            RelayFault::ReceiptRegistryUnavailable => {
                "relay receipt registry is unavailable".to_owned()
            },
            RelayFault::ReceiptCapacityExhausted => {
                "relay receipt capacity is exhausted".to_owned()
            },
            RelayFault::DuplicateReceipt => {
                "relay receipt already exists for a grouped endpoint route".to_owned()
            },
            RelayFault::PublisherGroupMismatch => {
                "grouped relay routes must share one Relay origin, Session, credential, publisher group, ICE configuration and startup deadline".to_owned()
            },
            RelayFault::DuplicateBus => {
                "grouped relay routes contain a duplicate AudioBus identifier".to_owned()
            },
            RelayFault::EmptyGroup => {
                "relay route group is empty".to_owned()
            },
            RelayFault::UnsupportedSampleFormat => {
                "relay input must use interleaved f32 PCM".to_owned()
            },
            RelayFault::PreparedStreamMismatch => {
                "relay prepared stream count does not match grouped routes".to_owned()
            },
            RelayFault::EncoderPanicked => {
                "relay encoder thread panicked".to_owned()
            },
            RelayFault::FeederPanicked => {
                "relay feeder thread panicked".to_owned()
            },
            RelayFault::RoutesUnavailable => {
                "relay grouped routes were already consumed".to_owned()
            },
            RelayFault::PreparationUnavailable => {
                "relay transport preparation was already consumed".to_owned()
            },
            RelayFault::InvalidOutcomeCount => {
                "relay transport returned an invalid grouped outcome count".to_owned()
            },
            RelayFault::PublisherExited => {
                "relay publisher exited before stop was requested".to_owned()
            },
        }
    }

    /// Reports the fault to Core.
    pub fn report(&self) -> (error: ConnectorError)
        requires
            reportable(*self),
        ensures
            crate::boundary::error_parts(error) == fault_report(*self),
    {
        proof {
            faults_have_stable_codes(*self);
            faults_have_messages(*self);
        }
        let message = self.message();
        relay_error(self.code(), self.stage(), self.retryability(), message.as_str())
    }
}

} // verus!
