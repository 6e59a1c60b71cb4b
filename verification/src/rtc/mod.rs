//! The way of encoded frames to the relay.
pub mod address;
pub mod handshake;
pub mod network;
pub mod offer_laws;
pub mod offer_line_laws;
pub mod param_laws;
pub mod publish_loop;
pub mod publisher;
pub mod publisher_laws;
pub mod sdp;
pub mod sdp_laws;
pub mod signaling;
pub mod step_laws;
pub mod stun;
pub mod stun_laws;
pub mod types;
