//! Publishes PocketStation audio stems to PocketStation Relay.
//!
//! A route names a relay, a Session on it and the AudioBus that the route feeds
//! ([`configuration`]). Routes of one group share a publisher: they are checked together
//! and reserve their receipts together ([`runtime`], [`receipts`]). Captured frames are cut
//! into packets, encoded, and queued for the publisher ([`audio`]), which writes them to the
//! relay ([`rtc`]). When it ends, each route finds its result in its receipt ([`outcomes`]).
//!
//! Sockets, threads and the Opus codec are not here. Whoever owns them asks the library what
//! to do next and tells it what came of it.
pub mod answer_laws;
pub mod audio;
pub mod boundary;
pub mod bounded_queue;
pub mod configuration;
pub mod configuration_error;
pub mod configuration_laws;
pub mod connector;
pub mod frame_publisher;
pub mod ice_server;
pub mod json;
pub mod manifest;
pub mod numeral;
pub mod outcome_laws;
pub mod outcomes;
pub mod receipts;
pub mod redacted;
pub mod relay_error;
pub mod route_laws;
pub mod rtc;
pub mod runtime;
pub mod runtime_laws;
pub mod text;
pub mod view_laws;
pub mod wire_laws;

pub use crate::configuration::{RelayLatencyProfile, RelayRouteConfiguration};
pub use crate::configuration_error::RelayConfigurationError;
pub use crate::connector::{
    relay_connector_manifest, RelayConnector, RelayConnectorBuildError,
    RELAY_CONNECTOR_NODE_TYPE_ID, RELAY_CONNECTOR_OPERATOR_ID,
};
pub use crate::ice_server::{RelayIceServer, MAX_ICE_SERVERS, MAX_ICE_SERVER_URLS};
pub use crate::receipts::{
    RelayPublishReceipt, RelayPublishReceiptKey, RelayPublishResult, RelayPublishStatistics,
};
