//! The way of audio from captured frames to encoded frames.
pub mod clock;
pub mod encoder_laws;
pub mod encoder_session;
pub mod latency_profile;
pub mod opus_worker;
pub mod packetizer_laws;
pub mod pcm_packetizer;
pub mod source_laws;
pub mod time_laws;
