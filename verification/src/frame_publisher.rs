//! AudioBus labels and the shape of a prepared publication.
use vstd::prelude::*;

use crate::audio::latency_profile::LatencyProfile;
use crate::bounded_queue::QueueView;
use crate::rtc::publisher::{LaneView, PublishLane, PublisherBacklogPolicy};
use crate::runtime::StreamPlan;
use crate::text::{append_str, from_chars, to_chars};

verus! {

/// The longest AudioBus label, in bytes.
pub const BUS_MAX_LEN: usize = 64;

pub open spec fn bus_char(c: char) -> bool {
    ||| 'a' <= c <= 'z'
    ||| 'A' <= c <= 'Z'
    ||| '0' <= c <= '9'
    ||| c == '.'
    ||| c == '_'
    ||| c == '-'
}

pub open spec fn bus_length_ok(bus: Seq<char>) -> bool {
    0 < bus.len() && crate::text::byte_len(bus) <= BUS_MAX_LEN
}

/// An AudioBus label: 1 to 64 bytes of letters, digits, dots, underscores and hyphens.
pub open spec fn is_bus_label(bus: Seq<char>) -> bool {
    &&& bus_length_ok(bus)
    &&& forall|i: int| 0 <= i < bus.len() ==> bus_char(#[trigger] bus[i])
}

pub open spec fn bus_character_message(bus: Seq<char>) -> Seq<char> {
    "bus label '"@ + bus + "' must contain only letters, digits, '.', '_', or '-'"@
}

/// Accepts AudioBus labels; the error says what is wrong with another text.
pub fn validate_bus(bus: &str) -> (r: Result<(), String>)
    ensures
        r is Ok <==> is_bus_label(bus@),
        r matches Err(message) ==> message@ == (if bus_length_ok(bus@) {
            bus_character_message(bus@)
        } else {
            "bus label must be 1–64 characters"@
        }),
{
    let bytes = bus.as_bytes().len();
    let chars = to_chars(bus);
    if chars.len() == 0 || bytes > BUS_MAX_LEN {
        return Err("bus label must be 1–64 characters".to_owned());
    }
    let mut i: usize = 0;
    while i < chars.len()
        invariant
            i <= chars@.len(),
            chars@ == bus@,
            bus_length_ok(bus@),
            forall|j: int| 0 <= j < i ==> bus_char(#[trigger] bus@[j]),
        decreases chars.len() - i,
    {
        let c = chars[i];
        let allowed = ('a' <= c && c <= 'z') || ('A' <= c && c <= 'Z') || ('0' <= c && c <= '9')
            || c == '.' || c == '_' || c == '-';
        if !allowed {
            assert(!bus_char(bus@[i as int]));
            let mut message = to_chars("bus label '");
            append_str(&mut message, bus);
            append_str(
                &mut message,
                "' must contain only letters, digits, '.', '_', or '-'",
            );
            return Err(from_chars(message.as_slice()));
        }
        i = i + 1;
    }
    Ok(())
}

/// A prepared publication needs one media line, one stream and one receiver for each
/// AudioBus.
pub fn check_publication_counts(media: usize, streams: usize, receivers: usize) -> (r: Result<
    (),
    String,
>)
    ensures
        r is Ok <==> media == streams && media == receivers,
        r matches Err(message) ==> message@
            == "relay publisher media, stream and receiver counts do not match"@,
{
    if media != streams || media != receivers {
        return Err("relay publisher media, stream and receiver counts do not match".to_owned());
    }
    Ok(())
}

/// An empty lane whose depth and whose way with a backlog are those of a latency profile.
pub open spec fn lane_for(profile: LatencyProfile) -> LaneView {
    LaneView {
        queue: QueueView {
            items: Seq::empty(),
            capacity: match profile {
                LatencyProfile::Low => 2,
                LatencyProfile::Standard => 8,
            },
            sender_open: true,
            receiver_open: true,
        },
        backlog_policy: match profile {
            LatencyProfile::Low => PublisherBacklogPolicy::DropStale,
            LatencyProfile::Standard => PublisherBacklogPolicy::Preserve,
        },
        counters: crate::audio::opus_worker::no_counts(),
    }
}

/// The lanes of a publication, one for each stream.
pub fn publish_lanes(streams: &Vec<StreamPlan>) -> (lanes: Vec<PublishLane>)
    ensures
        lanes@.len() == streams@.len(),
        crate::rtc::publisher::lanes_wf(lanes@),
        forall|i: int|
            0 <= i < lanes@.len() ==> (#[trigger] lanes@[i])@ == lane_for(
                streams@[i].latency_profile,
            ),
{
    let mut lanes: Vec<PublishLane> = Vec::new();
    let mut i: usize = 0;
    while i < streams.len()
        invariant
            i <= streams@.len(),
            lanes@.len() == i,
            crate::rtc::publisher::lanes_wf(lanes@),
            forall|j: int|
                0 <= j < i ==> (#[trigger] lanes@[j])@ == lane_for(streams@[j].latency_profile),
        decreases streams.len() - i,
    {
        let profile = streams[i].latency_profile;
        lanes.push(
            PublishLane::new(
                profile.encoded_channel_depth(),
                PublisherBacklogPolicy::for_latency_profile(profile),
            ),
        );
        i = i + 1;
    }
    lanes
}

} // verus!
