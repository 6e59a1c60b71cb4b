//! Latency profiles of the audio pipeline.
//!
//! Both profiles are deliberately shallow. Queue depth is headroom for scheduling, not
//! a jitter buffer: the receiver adapts to network jitter.
use vstd::prelude::*;

use crate::configuration::RelayLatencyProfile;

verus! {

/// What the pipeline trades latency for.
#[derive(Debug, Clone, Copy, PartialEq, Eq, Structural)]
pub enum LatencyProfile {
    /// Two frames each way. Fit for live use where an occasional gap is acceptable.
    Low,
    /// Sixteen captured frames, at least 160 ms of headroom for callbacks of 10 ms.
    /// Empty capacity adds no latency.
    Standard,
}

impl LatencyProfile {
    /// The depth of the queue from the capture callback to the graph bridge, in frames.
    pub fn capture_channel_depth(self) -> (depth: usize)
        ensures
            depth == (match self {
                LatencyProfile::Low => 2usize,
                LatencyProfile::Standard => 16usize,
            }),
    {
        match self {
            LatencyProfile::Low => 2,
            LatencyProfile::Standard => 16,
        }
    }

    /// The depth of the queue from the encoder to the publisher, in frames.
    pub fn encoded_channel_depth(self) -> (depth: usize)
        ensures
            depth == (match self {
                LatencyProfile::Low => 2usize,
                LatencyProfile::Standard => 8usize,
            }),
    {
        match self {
            LatencyProfile::Low => 2,
            LatencyProfile::Standard => 8,
        }
    }

    /// The pipeline's profile for a route.
    pub fn for_route(profile: RelayLatencyProfile) -> (r: LatencyProfile)
        ensures
            r == LatencyProfile::Low <==> profile == RelayLatencyProfile::Low,
    {
        match profile {
            RelayLatencyProfile::Low => LatencyProfile::Low,
            RelayLatencyProfile::Standard => LatencyProfile::Standard,
        }
    }
}

} // verus!
