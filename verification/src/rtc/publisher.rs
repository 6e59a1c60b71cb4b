//! The publisher, which writes the encoded frames of its AudioBuses to the relay.
//!
//! Whoever runs a publisher owns the engine. After every change of the engine it is
//! drained before the next event is taken: first a due timer, then an incoming datagram,
//! then the next encoded frame.
use std::time::Duration;
use vstd::prelude::*;

use crate::audio::latency_profile::LatencyProfile;
use crate::audio::opus_worker::{count_up, is_cancelled, EncodedAudioFrame, EncoderCounters};
use crate::bounded_queue::{BoundedQueue, QueueView, ReceiveOutcome};

verus! {

// Backlog.

#[derive(Debug, Clone, Copy, PartialEq, Eq, Structural)]
pub enum PublisherBacklogPolicy {
    /// Preserve every queued frame: holes in the media time force receivers to conceal
    /// them.
    Preserve,
    /// Keep only the newest queued frame, where freshness counts more than a gap.
    DropStale,
}

impl PublisherBacklogPolicy {
    pub fn for_latency_profile(latency_profile: LatencyProfile) -> (policy: PublisherBacklogPolicy)
        ensures
            policy == (match latency_profile {
                LatencyProfile::Low => PublisherBacklogPolicy::DropStale,
                LatencyProfile::Standard => PublisherBacklogPolicy::Preserve,
            }),
    {
        match latency_profile {
            LatencyProfile::Low => PublisherBacklogPolicy::DropStale,
            LatencyProfile::Standard => PublisherBacklogPolicy::Preserve,
        }
    }
}

/// Why no frame is there.
#[derive(Debug, Clone, Copy, PartialEq, Eq, Structural)]
pub enum NoFrame {
    Empty,
    Disconnected,
}

pub open spec fn no_frame(queue: QueueView<EncodedAudioFrame>) -> NoFrame {
    if queue.sender_open {
        NoFrame::Empty
    } else {
        NoFrame::Disconnected
    }
}

/// The place of the frame that a policy takes out of a queue.
pub open spec fn taken_place(
    queue: QueueView<EncodedAudioFrame>,
    policy: PublisherBacklogPolicy,
) -> int {
    match policy {
        PublisherBacklogPolicy::Preserve => 0,
        PublisherBacklogPolicy::DropStale => queue.items.len() - 1,
    }
}

/// The queue once that frame has been taken. Older ones are gone with it.
pub open spec fn taken_from(
    queue: QueueView<EncodedAudioFrame>,
    policy: PublisherBacklogPolicy,
) -> QueueView<EncodedAudioFrame> {
    QueueView { items: queue.items.skip(taken_place(queue, policy) + 1), ..queue }
}

/// Takes the next frame according to the policy, with the number of stale frames that
/// were dropped for it.
pub fn try_recv_frame(
    queue: &mut BoundedQueue<EncodedAudioFrame>,
    backlog_policy: PublisherBacklogPolicy,
) -> (r: Result<(EncodedAudioFrame, u64), NoFrame>)
    requires
        old(queue).wf(),
    ensures
        final(queue).wf(),
        r is Ok <==> old(queue)@.items.len() > 0,
        r matches Ok((frame, stale_drops)) ==> {
            &&& frame == old(queue)@.items[taken_place(old(queue)@, backlog_policy)]
            &&& stale_drops == taken_place(old(queue)@, backlog_policy)
            &&& final(queue)@ == taken_from(old(queue)@, backlog_policy)
        },
        r matches Err(reason) ==> reason == no_frame(old(queue)@) && final(queue)@ == old(queue)@,
{
    let ghost before = queue@;
    let mut freshest = match queue.try_recv() {
        ReceiveOutcome::Item(frame) => frame,
        ReceiveOutcome::Empty => {
            return Err(NoFrame::Empty);
        },
        ReceiveOutcome::Disconnected => {
            return Err(NoFrame::Disconnected);
        },
    };
    if let PublisherBacklogPolicy::Preserve = backlog_policy {
        assert(queue@.items =~= before.items.skip(1));
        return Ok((freshest, 0));
    }
    let mut stale_drops: u64 = 0;
    let queued: usize = queue.len();
    while queue.len() > 0
        invariant
            queue.wf(),
            before.items.len() == queued + 1,
            stale_drops + queue@.items.len() == queued,
            queue@ == (QueueView { items: before.items.skip(stale_drops + 1), ..before }),
            freshest == before.items[stale_drops as int],
        decreases queue@.items.len(),
    {
        match queue.try_recv() {
            ReceiveOutcome::Item(next) => {
                freshest = next;
                assert(queue@.items =~= before.items.skip(stale_drops + 2));
                stale_drops = stale_drops + 1;
            },
            _ => {},
        }
    }
    Ok((freshest, stale_drops))
}

// Lanes.

/// The way of one AudioBus from its encoder to the publisher.
pub struct PublishLane {
    pub queue: BoundedQueue<EncodedAudioFrame>,
    pub backlog_policy: PublisherBacklogPolicy,
    pub counters: EncoderCounters,
}

/// What a lane holds.
pub struct LaneView {
    pub queue: QueueView<EncodedAudioFrame>,
    pub backlog_policy: PublisherBacklogPolicy,
    pub counters: EncoderCounters,
}

impl View for PublishLane {
    type V = LaneView;

    open spec fn view(&self) -> LaneView {
        LaneView {
            queue: self.queue@,
            backlog_policy: self.backlog_policy,
            counters: self.counters,
        }
    }
}

/// The lane once it has given up a frame and the older ones that were stale.
pub open spec fn lane_taken(v: LaneView) -> LaneView {
    LaneView {
        queue: taken_from(v.queue, v.backlog_policy),
        counters: EncoderCounters {
            publisher_stale_drops: crate::audio::opus_worker::counted(
                v.counters.publisher_stale_drops,
                taken_place(v.queue, v.backlog_policy),
            ),
            ..v.counters
        },
        ..v
    }
}

/// The lane once the frame that it gave up was found to be cancelled.
pub open spec fn lane_discarded(v: LaneView) -> LaneView {
    LaneView {
        counters: crate::audio::opus_worker::one_cancelled_frame(lane_taken(v).counters),
        ..lane_taken(v)
    }
}

pub open spec fn next_frame(v: LaneView) -> EncodedAudioFrame {
    v.queue.items[taken_place(v.queue, v.backlog_policy)]
}

/// The lane once `k` frames in turn were found to be cancelled.
pub open spec fn lane_after_discards(v: LaneView, k: nat) -> LaneView
    decreases k,
{
    if k == 0 {
        v
    } else {
        lane_discarded(lane_after_discards(v, (k - 1) as nat))
    }
}

/// Whether the first `k` frames that a lane gives up are cancelled, by the answers of their
/// generations.
pub open spec fn discardable(v: LaneView, k: nat) -> bool
    decreases k,
{
    if k == 0 {
        true
    } else {
        let before = lane_after_discards(v, (k - 1) as nat);
        &&& discardable(v, (k - 1) as nat)
        &&& before.queue.items.len() > 0
        &&& crate::audio::opus_worker::answers_cancelled(
            next_frame(before).output_generation,
            true,
        )
    }
}

/// Whether a lane gave this result after it discarded `k` frames whose output had been
/// cancelled. A frame that it gave was not.
pub open spec fn lane_gave(
    before: LaneView,
    after: LaneView,
    r: Result<EncodedAudioFrame, NoFrame>,
    k: nat,
) -> bool {
    let rest = lane_after_discards(before, k);
    &&& discardable(before, k)
    &&& match r {
        Ok(frame) => {
            &&& rest.queue.items.len() > 0
            &&& frame == next_frame(rest)
            &&& crate::audio::opus_worker::answers_cancelled(frame.output_generation, false)
            &&& after == lane_taken(rest)
        },
        Err(reason) => {
            &&& rest.queue.items.len() == 0
            &&& reason == no_frame(rest.queue)
            &&& after == rest
        },
    }
}

impl PublishLane {
    /// The lane within its bounds.
    pub open spec fn wf(&self) -> bool {
        self.queue.wf()
    }

    /// An empty lane.
    pub fn new(capacity: usize, backlog_policy: PublisherBacklogPolicy) -> (lane: PublishLane)
        ensures
            lane.wf(),
            lane@ == (LaneView {
                queue: QueueView {
                    items: Seq::<EncodedAudioFrame>::empty(),
                    capacity: capacity as nat,
                    sender_open: true,
                    receiver_open: true,
                },
                backlog_policy,
                counters: crate::audio::opus_worker::no_counts(),
            }),
    {
        PublishLane {
            queue: BoundedQueue::new(capacity),
            backlog_policy,
            counters: EncoderCounters::default(),
        }
    }

    /// Takes the next frame, given whether its output was cancelled. A cancelled frame is
    /// counted and discarded.
    pub fn publishable(&mut self, frame: EncodedAudioFrame, cancelled: bool) -> (r: Option<
        EncodedAudioFrame,
    >)
        ensures
            r == (if cancelled {
                None
            } else {
                Some(frame)
            }),
            final(self)@ == (LaneView {
                counters: if cancelled {
                    crate::audio::opus_worker::one_cancelled_frame(old(self)@.counters)
                } else {
                    old(self)@.counters
                },
                ..old(self)@
            }),
            final(self).queue == old(self).queue,
    {
        if cancelled {
            self.counters.cancelled_output_frames =
            count_up(self.counters.cancelled_output_frames, 1);
            return None;
        }
        Some(frame)
    }

    /// Takes the next frame whose output was not cancelled. Cancelled frames on the way
    /// are counted and discarded before they are published.
    pub fn take_frame(&mut self) -> (r: Result<EncodedAudioFrame, NoFrame>)
        requires
            old(self).wf(),
        ensures
            final(self).wf(),
            exists|k: nat| #[trigger] lane_gave(old(self)@, final(self)@, r, k),
    {
        let ghost start = self@;
        let ghost mut k: nat = 0;
        loop
            invariant
                self.wf(),
                start == old(self)@,
                discardable(start, k),
                self@ == lane_after_discards(start, k),
            decreases self@.queue.items.len(),
        {
            let ghost before = self@;
            match try_recv_frame(&mut self.queue, self.backlog_policy) {
                Ok((frame, stale_drops)) => {
                    self.counters.publisher_stale_drops =
                    count_up(self.counters.publisher_stale_drops, stale_drops);
                    assert(self@ == lane_taken(before));
                    let cancelled = is_cancelled(&frame.output_generation);
                    if let Some(frame) = self.publishable(frame, cancelled) {
                        assert(lane_gave(start, self@, Ok(frame), k));
                        return Ok(frame);
                    }
                    proof {
                        assert(self@ == lane_discarded(before));
                        k = k + 1;
                    }
                },
                Err(reason) => {
                    assert(lane_gave(start, self@, Err(reason), k));
                    return Err(reason);
                },
            }
        }
    }
}

// The order of the lanes.

#[derive(Debug, Clone, Copy, PartialEq, Eq, Structural)]
pub struct PublishStreamStats {
    pub rtp_sent: u64,
    pub bytes_sent: u64,
}

/// What a publisher comes to.
#[derive(Debug)]
pub struct PublishStats {
    pub streams: Vec<PublishStreamStats>,
    pub elapsed: Duration,
    pub drains: u64,
    pub writes: u64,
}

/// How far a place lies behind the start, going round.
pub open spec fn turn(start: int, i: int, n: int) -> int {
    if i >= start {
        i - start
    } else {
        i + n - start
    }
}

/// The place behind another, going round.
pub open spec fn place_after(i: int, n: int) -> int {
    if i + 1 == n {
        0
    } else {
        i + 1
    }
}

/// What a publisher holds.
#[verifier::ext_equal]
pub struct PublisherView {
    pub disconnected: Seq<bool>,
    pub statistics: Seq<PublishStreamStats>,
    /// The lane that has the first turn.
    pub start: int,
    pub writes: u64,
    pub drains: u64,
}

pub struct Publisher {
    disconnected: Vec<bool>,
    statistics: Vec<PublishStreamStats>,
    round_robin_start: usize,
    writes: u64,
    drains: u64,
}

impl View for Publisher {
    type V = PublisherView;

    closed spec fn view(&self) -> PublisherView {
        PublisherView {
            disconnected: self.disconnected@,
            statistics: self.statistics@,
            start: self.round_robin_start as int,
            writes: self.writes,
            drains: self.drains,
        }
    }
}

pub open spec fn lane_views(lanes: Seq<PublishLane>) -> Seq<LaneView> {
    lanes.map_values(|lane: PublishLane| lane@)
}

pub open spec fn lanes_wf(lanes: Seq<PublishLane>) -> bool {
    forall|i: int| 0 <= i < lanes.len() ==> (#[trigger] lanes[i]).wf()
}

/// Whether a lane had its turn and gave no frame. A lane whose encoder is gone is not
/// asked again.
pub open spec fn passed_over(before: LaneView, after: LaneView, was_out: bool, is_out: bool) -> bool {
    if was_out {
        after == before && is_out
    } else {
        exists|reason: NoFrame, k: nat| #[trigger]
            lane_gave(before, after, Err(reason), k) && is_out == (reason == NoFrame::Disconnected)
    }
}

/// What a selection did to lane `i`, where lane `chosen` gave the frame.
pub open spec fn had_turn(
    publisher: PublisherView,
    before: Seq<LaneView>,
    after: Seq<LaneView>,
    out: Seq<bool>,
    chosen: int,
    frame: EncodedAudioFrame,
    i: int,
) -> bool {
    let n = before.len() as int;
    let mine = turn(publisher.start, i, n);
    let theirs = turn(publisher.start, chosen, n);
    if mine < theirs {
        passed_over(before[i], after[i], publisher.disconnected[i], out[i])
    } else if mine == theirs {
        &&& !publisher.disconnected[i]
        &&& !out[i]
        &&& exists|k: nat| #[trigger] lane_gave(before[i], after[i], Ok(frame), k)
    } else {
        after[i] == before[i] && out[i] == publisher.disconnected[i]
    }
}

/// What a selection did to all lanes.
pub open spec fn selection(
    publisher: PublisherView,
    before: Seq<LaneView>,
    after: Seq<LaneView>,
    out: Seq<bool>,
    selected: Option<(usize, EncodedAudioFrame)>,
) -> bool {
    match selected {
        Some((chosen, frame)) => {
            &&& chosen < before.len()
            &&& forall|i: int|
                0 <= i < before.len() ==> #[trigger] had_turn(
                    publisher,
                    before,
                    after,
                    out,
                    chosen as int,
                    frame,
                    i,
                )
        },
        None => forall|i: int|
            0 <= i < before.len() ==> #[trigger] passed_over(
                before[i],
                after[i],
                publisher.disconnected[i],
                out[i],
            ),
    }
}

pub open spec fn frame_counted(stats: PublishStreamStats, payload_bytes: u64) -> PublishStreamStats {
    PublishStreamStats {
        rtp_sent: crate::audio::pcm_packetizer::capped(stats.rtp_sent + 1),
        bytes_sent: crate::audio::pcm_packetizer::capped(stats.bytes_sent + payload_bytes),
    }
}

impl Publisher {
    /// There is at least one lane, and the first turn is that of a lane.
    pub open spec fn wf(&self) -> bool {
        &&& self@.disconnected.len() == self@.statistics.len()
        &&& 0 <= self@.start < self@.disconnected.len()
    }

    /// A publisher of that many AudioBuses.
    pub fn new(streams: usize) -> (r: Result<Publisher, String>)
        ensures
            r is Ok <==> streams > 0,
            r matches Ok(publisher) ==> {
                &&& publisher.wf()
                &&& publisher@ == (PublisherView {
                    disconnected: Seq::new(streams as nat, |i: int| false),
                    statistics: Seq::new(
                        streams as nat,
                        |i: int| (PublishStreamStats { rtp_sent: 0, bytes_sent: 0 }),
                    ),
                    start: 0,
                    writes: 0,
                    drains: 0,
                })
            },
            r matches Err(message) ==> message@
                == "relay publisher requires at least one encoded AudioBus"@,
    {
        if streams == 0 {
            return Err("relay publisher requires at least one encoded AudioBus".to_owned());
        }
        let mut disconnected: Vec<bool> = Vec::new();
        let mut statistics: Vec<PublishStreamStats> = Vec::new();
        let mut i: usize = 0;
        while i < streams
            invariant
                i <= streams,
                disconnected@.len() == i,
                statistics@.len() == i,
                forall|j: int| 0 <= j < i ==> !disconnected@[j],
                forall|j: int|
                    0 <= j < i ==> statistics@[j] == (PublishStreamStats {
                        rtp_sent: 0,
                        bytes_sent: 0,
                    }),
            decreases streams - i,
        {
            disconnected.push(false);
            statistics.push(PublishStreamStats { rtp_sent: 0, bytes_sent: 0 });
            i = i + 1;
        }
        Ok(Publisher { disconnected, statistics, round_robin_start: 0, writes: 0, drains: 0 })
    }

    /// Asks the lanes in turn for a frame, beginning with the lane whose turn it is. The
    /// first frame that is there is published next.
    pub fn select_frame(&mut self, lanes: &mut Vec<PublishLane>) -> (selected: Option<
        (usize, EncodedAudioFrame),
    >)
        requires
            old(self).wf(),
            old(lanes)@.len() == old(self)@.disconnected.len(),
            lanes_wf(old(lanes)@),
        ensures
            final(self).wf(),
            lanes_wf(final(lanes)@),
            final(lanes)@.len() == old(lanes)@.len(),
            final(self)@ == (PublisherView {
                disconnected: final(self)@.disconnected,
                ..old(self)@
            }),
            final(self)@.disconnected.len() == old(self)@.disconnected.len(),
            selection(
                old(self)@,
                lane_views(old(lanes)@),
                lane_views(final(lanes)@),
                final(self)@.disconnected,
                selected,
            ),
    {
        let n: usize = lanes.len();
        let start: usize = self.round_robin_start;
        let ghost publisher = self@;
        let ghost before = lane_views(lanes@);
        let mut offset: usize = 0;
        while offset < n
            invariant
                offset <= n,
                n == lanes@.len(),
                start < n,
                self.wf(),
                publisher == old(self)@,
                publisher.start == start,
                publisher.disconnected.len() == n,
                before == lane_views(old(lanes)@),
                before.len() == n,
                lanes_wf(lanes@),
                self@ == (PublisherView { disconnected: self@.disconnected, ..publisher }),
                self@.disconnected.len() == n,
                forall|i: int|
                    0 <= i < n && turn(start as int, i, n as int) < offset
                        ==> #[trigger] passed_over(
                        before[i],
                        lane_views(lanes@)[i],
                        publisher.disconnected[i],
                        self@.disconnected[i],
                    ),
                forall|i: int|
                    0 <= i < n && turn(start as int, i, n as int) >= offset
                        ==> #[trigger] lane_views(lanes@)[i] == before[i],
                forall|i: int|
                    0 <= i < n && turn(start as int, i, n as int) >= offset
                        ==> #[trigger] self@.disconnected[i] == publisher.disconnected[i],
            decreases n - offset,
        {
            let index: usize = if offset < n - start {
                start + offset
            } else {
                offset - (n - start)
            };
            let ghost views = lane_views(lanes@);
            let ghost out = self@.disconnected;
            assert(turn(start as int, index as int, n as int) == offset);
            assert(forall|i: int|
                0 <= i < n && #[trigger] turn(start as int, i, n as int) == offset ==> i == index);
            assert(views[index as int] == before[index as int]);
            if !self.disconnected[index] {
                let ghost held = lanes@;
                let given = lanes[index].take_frame();
                assert(lanes@ =~= held.update(index as int, lanes@[index as int]));
                assert(forall|i: int|
                    0 <= i < n && i != index ==> #[trigger] lane_views(lanes@)[i] == views[i]);
                let ghost k = choose|k: nat| #[trigger]
                    lane_gave(before[index as int], lanes@[index as int]@, given, k);
                match given {
                    Ok(frame) => {
                        assert(lane_gave(
                            before[index as int],
                            lane_views(lanes@)[index as int],
                            Ok(frame),
                            k,
                        ));
                        assert forall|i: int| 0 <= i < n implies #[trigger] had_turn(
                            publisher,
                            before,
                            lane_views(lanes@),
                            self@.disconnected,
                            index as int,
                            frame,
                            i,
                        ) by {
                            if i != index {
                                assert(lane_views(lanes@)[i] == views[i]);
                                if turn(start as int, i, n as int) < offset {
                                    assert(passed_over(
                                        before[i],
                                        views[i],
                                        publisher.disconnected[i],
                                        out[i],
                                    ));
                                }
                            }
                        }
                        return Some((index, frame));
                    },
                    Err(reason) => {
                        assert(lane_gave(
                            before[index as int],
                            lane_views(lanes@)[index as int],
                            Err(reason),
                            k,
                        ));
                        if let NoFrame::Disconnected = reason {
                            self.disconnected.set(index, true);
                        }
                        assert(passed_over(
                            before[index as int],
                            lane_views(lanes@)[index as int],
                            publisher.disconnected[index as int],
                            self@.disconnected[index as int],
                        ));
                    },
                }
            } else {
                assert(passed_over(
                    before[index as int],
                    views[index as int],
                    publisher.disconnected[index as int],
                    out[index as int],
                ));
            }
            proof {
                assert forall|i: int|
                    0 <= i < n && turn(start as int, i, n as int) < offset + 1 implies #[trigger] passed_over(
                    before[i],
                    lane_views(lanes@)[i],
                    publisher.disconnected[i],
                    self@.disconnected[i],
                ) by {
                    if i != index {
                        assert(passed_over(
                            before[i],
                            views[i],
                            publisher.disconnected[i],
                            out[i],
                        ));
                    }
                }
                assert forall|i: int|
                    0 <= i < n && turn(start as int, i, n as int) >= offset
                        + 1 implies #[trigger] lane_views(lanes@)[i] == before[i] by {
                    assert(i != index);
                    assert(lane_views(lanes@)[i] == views[i]);
                }
            }
            offset = offset + 1;
        }
        None
    }

    /// Notes that a frame was written and the engine drained. The turn passes to the next
    /// lane.
    pub fn frame_written(&mut self, index: usize, payload_bytes: u64)
        requires
            old(self).wf(),
            index < old(self)@.disconnected.len(),
        ensures
            final(self).wf(),
            final(self)@ == (PublisherView {
                statistics: old(self)@.statistics.update(
                    index as int,
                    frame_counted(old(self)@.statistics[index as int], payload_bytes),
                ),
                start: place_after(index as int, old(self)@.disconnected.len() as int),
                writes: crate::audio::pcm_packetizer::capped(old(self)@.writes + 1),
                drains: crate::audio::pcm_packetizer::capped(old(self)@.drains + 1),
                ..old(self)@
            }),
    {
        let stats = self.statistics[index];
        self.statistics.set(
            index,
            PublishStreamStats {
                rtp_sent: stats.rtp_sent.saturating_add(1),
                bytes_sent: stats.bytes_sent.saturating_add(payload_bytes),
            },
        );
        self.writes = self.writes.saturating_add(1);
        self.drains = self.drains.saturating_add(1);
        self.round_robin_start = if index == self.disconnected.len() - 1 {
            0
        } else {
            index + 1
        };
    }

    /// Notes that the engine was drained after a timer or a datagram.
    pub fn drained(&mut self)
        requires
            old(self).wf(),
        ensures
            final(self).wf(),
            final(self)@ == (PublisherView {
                drains: crate::audio::pcm_packetizer::capped(old(self)@.drains + 1),
                ..old(self)@
            }),
    {
        self.drains = self.drains.saturating_add(1);
    }

    /// Whether all encoders are gone.
    pub fn all_disconnected(&self) -> (r: bool)
        ensures
            r == (forall|i: int|
                0 <= i < self@.disconnected.len() ==> #[trigger] self@.disconnected[i]),
    {
        let mut i: usize = 0;
        while i < self.disconnected.len()
            invariant
                i <= self.disconnected@.len(),
                forall|j: int| 0 <= j < i ==> #[trigger] self@.disconnected[j],
            decreases self.disconnected.len() - i,
        {
            if !self.disconnected[i] {
                assert(!self@.disconnected[i as int]);
                return false;
            }
            i = i + 1;
        }
        true
    }

    /// What the publisher has come to.
    pub fn finish(self, elapsed: Duration) -> (stats: PublishStats)
        ensures
            stats.streams@ == self@.statistics,
            stats.elapsed == elapsed,
            stats.drains == self@.drains,
            stats.writes == self@.writes,
    {
        PublishStats {
            streams: self.statistics,
            elapsed,
            drains: self.drains,
            writes: self.writes,
        }
    }
}

} // verus!
