//! Why a relay configuration is rejected.
use vstd::prelude::*;

use crate::text::{append_str, from_chars, to_chars};

verus! {

/// Why Core rejects a secret.
#[derive(Debug, Clone, Copy, PartialEq, Eq)]
pub enum SecretFault {
    Empty,
    TooLarge,
}

#[derive(Debug, Clone, Copy, PartialEq, Eq)]
pub enum RelayConfigurationError {
    InvalidRelayUrl,
    InvalidIdentity,
    InvalidBusId,
    InvalidLatencyProfile,
    InvalidStartupTimeout,
    InvalidIceServerCount,
    InvalidIceServerUrl,
    InvalidIceCredential,
    InvalidIceServerEncoding,
    MissingField(&'static str),
    SecretNotSensitive(&'static str),
    ConnectorConfiguration(SecretFault),
}

pub open spec fn configuration_error_text(error: RelayConfigurationError) -> Seq<char> {
    match error {
        RelayConfigurationError::InvalidRelayUrl => {
            "relay URL must be an absolute HTTP or HTTPS origin"@
        },
        RelayConfigurationError::InvalidIdentity => {
            "relay Session and publisher group identifiers must be non-empty and bounded"@
        },
        RelayConfigurationError::InvalidBusId => "AudioBus identifier is invalid"@,
        RelayConfigurationError::InvalidLatencyProfile => {
            "relay latency profile must be 'standard' or 'low'"@
        },
        RelayConfigurationError::InvalidStartupTimeout => {
            "relay startup timeout must be finite and between 1 ms and 120 s"@
        },
        RelayConfigurationError::InvalidIceServerCount => {
            "ICE server count is outside the finite package limit"@
        },
        RelayConfigurationError::InvalidIceServerUrl => {
            "this connector version supports only a valid stun: UDP server authority"@
        },
        RelayConfigurationError::InvalidIceCredential => {
            "STUN server configuration must not contain TURN credentials"@
        },
        RelayConfigurationError::InvalidIceServerEncoding => {
            "ICE server configuration could not be encoded or decoded"@
        },
        RelayConfigurationError::MissingField(field) => {
            "relay connector configuration is missing required field '"@ + field@ + "'"@
        },
        RelayConfigurationError::SecretNotSensitive(field) => {
            "relay connector secret field '"@ + field@ + "' was not marked sensitive"@
        },
        RelayConfigurationError::ConnectorConfiguration(SecretFault::Empty) => {
            "connector.configuration.empty_secret: secret value cannot be empty"@
        },
        RelayConfigurationError::ConnectorConfiguration(SecretFault::TooLarge) => {
            "connector.configuration.value_too_large: secret value exceeds the connector configuration byte limit"@
        },
    }
}

fn quoted(before: &str, field: &str, after: &str) -> (message: String)
    ensures
        message@ == before@ + field@ + after@,
{
    let mut chars = to_chars(before);
    append_str(&mut chars, field);
    append_str(&mut chars, after);
    from_chars(chars.as_slice())
}

impl RelayConfigurationError {
    /// The message for people.
    pub fn message(&self) -> (message: String)
        ensures
            message@ == configuration_error_text(*self),
    {
        match self {
            RelayConfigurationError::InvalidRelayUrl => {
                "relay URL must be an absolute HTTP or HTTPS origin".to_owned()
            },
            RelayConfigurationError::InvalidIdentity => {
                "relay Session and publisher group identifiers must be non-empty and bounded".to_owned()
            },
            RelayConfigurationError::InvalidBusId => "AudioBus identifier is invalid".to_owned(),
            RelayConfigurationError::InvalidLatencyProfile => {
                "relay latency profile must be 'standard' or 'low'".to_owned()
            },
            RelayConfigurationError::InvalidStartupTimeout => {
                "relay startup timeout must be finite and between 1 ms and 120 s".to_owned()
            },
            RelayConfigurationError::InvalidIceServerCount => {
                "ICE server count is outside the finite package limit".to_owned()
            },
            RelayConfigurationError::InvalidIceServerUrl => {
                "this connector version supports only a valid stun: UDP server authority".to_owned()
            },
            RelayConfigurationError::InvalidIceCredential => {
                "STUN server configuration must not contain TURN credentials".to_owned()
            },
            RelayConfigurationError::InvalidIceServerEncoding => {
                "ICE server configuration could not be encoded or decoded".to_owned()
            },
            RelayConfigurationError::MissingField(field) => quoted(
                "relay connector configuration is missing required field '",
                field,
                "'",
            ),
            RelayConfigurationError::SecretNotSensitive(field) => quoted(
                "relay connector secret field '",
                field,
                "' was not marked sensitive",
            ),
            RelayConfigurationError::ConnectorConfiguration(SecretFault::Empty) => {
                "connector.configuration.empty_secret: secret value cannot be empty".to_owned()
            },
            RelayConfigurationError::ConnectorConfiguration(SecretFault::TooLarge) => {
                "connector.configuration.value_too_large: secret value exceeds the connector configuration byte limit".to_owned()
            },
        }
    }
}

/// Every message begins with a mark.
pub proof fn lemma_configuration_error_text(error: RelayConfigurationError)
    ensures
        configuration_error_text(error).len() > 0,
        !crate::text::white_space(configuration_error_text(error)[0]),
{
    match error {
        RelayConfigurationError::InvalidRelayUrl => {
            reveal_strlit(
                "relay URL must be an absolute HTTP or HTTPS origin",
            );
        },
        RelayConfigurationError::InvalidIdentity => {
            reveal_strlit(
                "relay Session and publisher group identifiers must be non-empty and bounded",
            );
        },
        RelayConfigurationError::InvalidBusId => {
            reveal_strlit(
                "AudioBus identifier is invalid",
            );
        },
        RelayConfigurationError::InvalidLatencyProfile => {
            reveal_strlit(
                "relay latency profile must be 'standard' or 'low'",
            );
        },
        RelayConfigurationError::InvalidStartupTimeout => {
            reveal_strlit(
                "relay startup timeout must be finite and between 1 ms and 120 s",
            );
        },
        RelayConfigurationError::InvalidIceServerCount => {
            reveal_strlit(
                "ICE server count is outside the finite package limit",
            );
        },
        RelayConfigurationError::InvalidIceServerUrl => {
            reveal_strlit(
                "this connector version supports only a valid stun: UDP server authority",
            );
        },
        RelayConfigurationError::InvalidIceCredential => {
            reveal_strlit(
                "STUN server configuration must not contain TURN credentials",
            );
        },
        RelayConfigurationError::InvalidIceServerEncoding => {
            reveal_strlit(
                "ICE server configuration could not be encoded or decoded",
            );
        },
        RelayConfigurationError::MissingField(_) => {
            reveal_strlit(
                "relay connector configuration is missing required field '",
            );
        },
        RelayConfigurationError::SecretNotSensitive(_) => {
            reveal_strlit(
                "relay connector secret field '",
            );
        },
        RelayConfigurationError::ConnectorConfiguration(SecretFault::Empty) => {
            reveal_strlit(
                "connector.configuration.empty_secret: secret value cannot be empty",
            );
        },
        RelayConfigurationError::ConnectorConfiguration(SecretFault::TooLarge) => {
            reveal_strlit(
                "connector.configuration.value_too_large: secret value exceeds the connector configuration byte limit",
            );
        },
    }
}

} // verus!
