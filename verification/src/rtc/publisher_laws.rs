//! What holds of publishers as a whole.
use vstd::prelude::*;

use crate::audio::latency_profile::LatencyProfile;
use crate::audio::opus_worker::EncodedAudioFrame;
use crate::rtc::publisher::{
    LaneView, NoFrame, PublishStreamStats, PublisherBacklogPolicy, PublisherView,
};

verus! {

proof fn lemma_preserving_discards(v: LaneView, k: nat)
    requires
        v.backlog_policy == PublisherBacklogPolicy::Preserve,
        crate::rtc::publisher::discardable(v, k),
    ensures
        ({
            let rest = crate::rtc::publisher::lane_after_discards(v, k);
            &&& k <= v.queue.items.len()
            &&& rest.queue.items == v.queue.items.skip(k as int)
            &&& rest.queue.sender_open == v.queue.sender_open
            &&& rest.backlog_policy == v.backlog_policy
            &&& rest.counters.publisher_stale_drops == v.counters.publisher_stale_drops
            &&& rest.counters.cancelled_output_frames == crate::audio::opus_worker::counted(
                v.counters.cancelled_output_frames,
                k as int,
            )
        }),
    decreases k,
{
    if k == 0 {
        assert(v.queue.items.skip(0) =~= v.queue.items);
    } else {
        let m = (k - 1) as nat;
        lemma_preserving_discards(v, m);
        let before = crate::rtc::publisher::lane_after_discards(v, m);
        assert(before.queue.items.skip(1) =~= v.queue.items.skip(k as int));
    }
}

/// A lane that preserves its backlog publishes the frames in the order in which they were
/// queued. It leaves out no frame but those found to be cancelled, and counts each.
pub proof fn preserving_lanes_keep_order(
    before: LaneView,
    after: LaneView,
    frame: EncodedAudioFrame,
    k: nat,
)
    requires
        before.backlog_policy == PublisherBacklogPolicy::Preserve,
        crate::rtc::publisher::lane_gave(before, after, Ok(frame), k),
    ensures
        k < before.queue.items.len(),
        frame == before.queue.items[k as int],
        after.queue.items == before.queue.items.skip(k as int + 1),
        after.counters.publisher_stale_drops == before.counters.publisher_stale_drops,
        after.counters.cancelled_output_frames == crate::audio::opus_worker::counted(
            before.counters.cancelled_output_frames,
            k as int,
        ),
{
    lemma_preserving_discards(before, k);
    assert(before.queue.items.skip(k as int).skip(1) =~= before.queue.items.skip(k as int + 1));
}

/// A lane that drops stale frames publishes the newest one, and empties its queue.
pub proof fn fresh_lanes_publish_the_newest(
    before: LaneView,
    after: LaneView,
    frame: EncodedAudioFrame,
    k: nat,
)
    requires
        before.backlog_policy == PublisherBacklogPolicy::DropStale,
        crate::rtc::publisher::lane_gave(before, after, Ok(frame), k),
    ensures
        before.queue.items.len() > 0,
        frame == before.queue.items.last(),
        after.queue.items.len() == 0,
        after.counters.publisher_stale_drops == crate::audio::opus_worker::counted(
            before.counters.publisher_stale_drops,
            before.queue.items.len() - 1,
        ),
{
    if k > 0 {
        lemma_fresh_discards(before, k);
    }
}

proof fn lemma_fresh_discards(v: LaneView, k: nat)
    requires
        v.backlog_policy == PublisherBacklogPolicy::DropStale,
        crate::rtc::publisher::discardable(v, k),
        k > 0,
    ensures
        k == 1,
        crate::rtc::publisher::lane_after_discards(v, k).queue.items.len() == 0,
    decreases k,
{
    reveal_with_fuel(crate::rtc::publisher::lane_after_discards, 2);
    if k > 1 {
        lemma_fresh_discards(v, (k - 1) as nat);
    }
}

/// Turns go round fairly: while another lane is chosen before a waiting one, the waiting
/// lane comes nearer to its turn with each frame. So a lane waits for at most one frame of
/// every other lane.
pub proof fn waiting_lanes_come_nearer(start: int, chosen: int, waiting: int, n: int)
    requires
        0 <= start < n,
        0 <= chosen < n,
        0 <= waiting < n,
        crate::rtc::publisher::turn(start, chosen, n) < crate::rtc::publisher::turn(
            start,
            waiting,
            n,
        ),
    ensures
        ({
            let next = crate::rtc::publisher::place_after(chosen, n);
            0 <= crate::rtc::publisher::turn(next, waiting, n) < crate::rtc::publisher::turn(
                start,
                waiting,
                n,
            ) < n
        }),
{
}

// Lanes.

proof fn lemma_discards(v: LaneView, k: nat)
    requires
        crate::rtc::publisher::discardable(v, k),
    ensures
        ({
            let rest = crate::rtc::publisher::lane_after_discards(v, k);
            &&& rest.queue.sender_open == v.queue.sender_open
            &&& rest.queue.receiver_open == v.queue.receiver_open
            &&& rest.queue.capacity == v.queue.capacity
            &&& rest.backlog_policy == v.backlog_policy
        }),
    decreases k,
{
    if k > 0 {
        lemma_discards(v, (k - 1) as nat);
    }
}

/// A lane gives no frame only once its queue is empty, and says that its encoder is gone
/// exactly where nobody sends any more.
pub proof fn lanes_give_what_they_have(
    before: LaneView,
    after: LaneView,
    reason: NoFrame,
    k: nat,
)
    requires
        crate::rtc::publisher::lane_gave(before, after, Err(reason), k),
    ensures
        after.queue.items.len() == 0,
        reason == NoFrame::Disconnected <==> !before.queue.sender_open,
        before.queue.items.len() == 0 ==> k == 0 && after == before,
{
    lemma_discards(before, k);
    if before.queue.items.len() == 0 && k > 0 {
        lemma_nothing_to_discard(before, k);
    }
}

proof fn lemma_nothing_to_discard(v: LaneView, k: nat)
    requires
        v.queue.items.len() == 0,
        crate::rtc::publisher::discardable(v, k),
    ensures
        k == 0,
    decreases k,
{
    if k > 0 {
        lemma_nothing_to_discard(v, (k - 1) as nat);
    }
}

/// What a lane gives is not cancelled, by the answer of its generation, and what it leaves
/// out before that, where it preserves its backlog, is.
pub proof fn lanes_leave_out_only_cancelled_frames(
    before: LaneView,
    after: LaneView,
    r: Result<EncodedAudioFrame, NoFrame>,
    k: nat,
    j: int,
)
    requires
        crate::rtc::publisher::lane_gave(before, after, r, k),
        before.backlog_policy == PublisherBacklogPolicy::Preserve,
        0 <= j < k,
    ensures
        r matches Ok(frame) ==> crate::audio::opus_worker::answers_cancelled(
            frame.output_generation,
            false,
        ),
        j < before.queue.items.len(),
        crate::audio::opus_worker::answers_cancelled(
            before.queue.items[j].output_generation,
            true,
        ),
        before.queue.items[j].output_generation is Some,
    decreases k,
{
    lemma_discarded_is_cancelled(before, k, j);
}

proof fn lemma_discarded_is_cancelled(v: LaneView, k: nat, j: int)
    requires
        v.backlog_policy == PublisherBacklogPolicy::Preserve,
        crate::rtc::publisher::discardable(v, k),
        0 <= j < k,
    ensures
        j < v.queue.items.len(),
        crate::audio::opus_worker::answers_cancelled(v.queue.items[j].output_generation, true),
    decreases k,
{
    let m = (k - 1) as nat;
    lemma_preserving_discards(v, m);
    if j < m {
        lemma_discarded_is_cancelled(v, m, j);
    }
}

// Turns.

/// How many turns a lane has to wait for its own.
pub open spec fn wait(start: int, i: int, n: int) -> int {
    (i - start + n) % n
}

proof fn lemma_wait(start: int, i: int, n: int)
    requires
        0 <= start < n,
        0 <= i < n,
    ensures
        crate::rtc::publisher::turn(start, i, n) == wait(start, i, n),
{
    if i >= start {
        vstd::arithmetic::div_mod::lemma_fundamental_div_mod_converse(
            i - start + n,
            n,
            1,
            i - start,
        );
    } else {
        vstd::arithmetic::div_mod::lemma_small_mod((i - start + n) as nat, n as nat);
    }
}

/// The frame that is published comes from the first lane that has one, going round from the
/// lane whose turn it is. The lanes asked before have none left, and those behind are as they
/// were. Where no frame is published, no lane that was asked has one left. A lane whose encoder
/// is gone is not asked, and one is taken for such only where nobody sends to it any more.
pub proof fn the_first_lane_with_a_frame_is_published(
    publisher: PublisherView,
    before: Seq<LaneView>,
    after: Seq<LaneView>,
    out: Seq<bool>,
    selected: Option<(usize, EncodedAudioFrame)>,
    i: int,
)
    requires
        crate::rtc::publisher::selection(publisher, before, after, out, selected),
        0 <= publisher.start < before.len(),
        0 <= i < before.len(),
    ensures
        selected is None && !publisher.disconnected[i] ==> after[i].queue.items.len() == 0,
        selected matches Some((chosen, frame)) ==> {
            let n = before.len() as int;
            let mine = wait(publisher.start, i, n);
            let theirs = wait(publisher.start, chosen as int, n);
            &&& chosen < n
            &&& !publisher.disconnected[chosen as int]
            &&& before[chosen as int].queue.items.contains(frame)
            &&& mine < theirs && !publisher.disconnected[i] ==> after[i].queue.items.len() == 0
            &&& mine > theirs ==> after[i] == before[i] && out[i] == publisher.disconnected[i]
        },
        publisher.disconnected[i] ==> after[i] == before[i] && out[i],
        out[i] && !publisher.disconnected[i] ==> !before[i].queue.sender_open,
{
    let n = before.len() as int;
    match selected {
        None => {
            assert(crate::rtc::publisher::passed_over(
                before[i],
                after[i],
                publisher.disconnected[i],
                out[i],
            ));
            if !publisher.disconnected[i] {
                lemma_passed_over(before[i], after[i], out[i]);
            }
        },
        Some((chosen, frame)) => {
            let c = chosen as int;
            lemma_wait(publisher.start, i, n);
            lemma_wait(publisher.start, c, n);
            assert(crate::rtc::publisher::had_turn(publisher, before, after, out, c, frame, c));
            assert(crate::rtc::publisher::had_turn(publisher, before, after, out, c, frame, i));
            let k = choose|k: nat| #[trigger]
                crate::rtc::publisher::lane_gave(before[c], after[c], Ok(frame), k);
            lemma_given_frame_was_queued(before[c], after[c], frame, k);
            if crate::rtc::publisher::turn(publisher.start, i, n) < crate::rtc::publisher::turn(
                publisher.start,
                c,
                n,
            ) && !publisher.disconnected[i] {
                lemma_passed_over(before[i], after[i], out[i]);
            }
        },
    }
}

proof fn lemma_passed_over(before: LaneView, after: LaneView, is_out: bool)
    requires
        crate::rtc::publisher::passed_over(before, after, false, is_out),
    ensures
        after.queue.items.len() == 0,
        is_out ==> !before.queue.sender_open,
{
    let (reason, k) = choose|reason: NoFrame, k: nat| #[trigger]
        crate::rtc::publisher::lane_gave(before, after, Err(reason), k) && is_out == (reason
            == NoFrame::Disconnected);
    lanes_give_what_they_have(before, after, reason, k);
}

proof fn lemma_given_frame_was_queued(
    before: LaneView,
    after: LaneView,
    frame: EncodedAudioFrame,
    k: nat,
)
    requires
        crate::rtc::publisher::lane_gave(before, after, Ok(frame), k),
    ensures
        before.queue.items.contains(frame),
{
    match before.backlog_policy {
        PublisherBacklogPolicy::Preserve => {
            preserving_lanes_keep_order(before, after, frame, k);
            assert(before.queue.items[k as int] == frame);
        },
        PublisherBacklogPolicy::DropStale => {
            fresh_lanes_publish_the_newest(before, after, frame, k);
            assert(before.queue.items[before.queue.items.len() - 1] == frame);
        },
    }
}

/// The turn passes to the lane behind the one that was published, going round.
pub proof fn turns_go_round(i: int, n: int)
    requires
        0 <= i < n,
    ensures
        crate::rtc::publisher::place_after(i, n) == (i + 1) % n,
{
    if i + 1 < n {
        vstd::arithmetic::div_mod::lemma_small_mod((i + 1) as nat, n as nat);
    } else {
        vstd::arithmetic::div_mod::lemma_fundamental_div_mod_converse(i + 1, n, 1, 0);
    }
}

/// A frame that was written is counted once for its stream, with its bytes.
pub proof fn written_frames_are_counted_once(stats: PublishStreamStats, payload_bytes: u64)
    requires
        stats.rtp_sent < u64::MAX,
        stats.bytes_sent + payload_bytes <= u64::MAX,
    ensures
        crate::rtc::publisher::frame_counted(stats, payload_bytes).rtp_sent == stats.rtp_sent + 1,
        crate::rtc::publisher::frame_counted(stats, payload_bytes).bytes_sent == stats.bytes_sent
            + payload_bytes,
{
}

/// A low-latency lane holds two frames and publishes the freshest; a standard one holds eight
/// and publishes all. Both begin empty, with their ends open.
pub proof fn lanes_follow_their_latency(profile: LatencyProfile)
    ensures
        ({
            let lane = crate::frame_publisher::lane_for(profile);
            &&& lane.queue.items.len() == 0
            &&& lane.queue.sender_open && lane.queue.receiver_open
            &&& profile == LatencyProfile::Low ==> lane.queue.capacity == 2 && lane.backlog_policy
                == PublisherBacklogPolicy::DropStale
            &&& profile == LatencyProfile::Standard ==> lane.queue.capacity == 8
                && lane.backlog_policy == PublisherBacklogPolicy::Preserve
            &&& lane.counters.opus_packets_out == 0 && lane.counters.opus_encode_errors == 0
            &&& lane.counters.normalization_partial_samples_discarded == 0
        }),
{
}

} // verus!
