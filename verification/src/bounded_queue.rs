//! A bounded first-in, first-out queue with two ends that can be closed.
use std::collections::VecDeque;
use vstd::prelude::*;

verus! {

/// What a queue holds.
#[verifier::ext_equal]
pub struct QueueView<T> {
    /// The items, the oldest first.
    pub items: Seq<T>,
    pub capacity: nat,
    pub sender_open: bool,
    pub receiver_open: bool,
}

/// What became of an item that was to be sent.
pub enum SendOutcome<T> {
    Sent,
    /// The queue is full: the item comes back.
    Full(T),
    /// Nobody receives any more: the item comes back.
    Disconnected(T),
}

/// What a receiver gets.
pub enum ReceiveOutcome<T> {
    Item(T),
    /// Nothing is there yet.
    Empty,
    /// Nothing is there, and nothing will come.
    Disconnected,
}

pub open spec fn has_room<T>(v: QueueView<T>) -> bool {
    v.items.len() < v.capacity
}

/// The queue after an attempt to send.
pub open spec fn after_send<T>(v: QueueView<T>, item: T) -> QueueView<T> {
    if v.receiver_open && has_room(v) {
        QueueView { items: v.items.push(item), ..v }
    } else {
        v
    }
}

pub open spec fn send_outcome<T>(v: QueueView<T>, item: T) -> SendOutcome<T> {
    if !v.receiver_open {
        SendOutcome::Disconnected(item)
    } else if has_room(v) {
        SendOutcome::Sent
    } else {
        SendOutcome::Full(item)
    }
}

/// The queue after an attempt to receive.
pub open spec fn after_receive<T>(v: QueueView<T>) -> QueueView<T> {
    if v.items.len() > 0 {
        QueueView { items: v.items.drop_first(), ..v }
    } else {
        v
    }
}

pub open spec fn receive_outcome<T>(v: QueueView<T>) -> ReceiveOutcome<T> {
    if v.items.len() > 0 {
        ReceiveOutcome::Item(v.items[0])
    } else if v.sender_open {
        ReceiveOutcome::Empty
    } else {
        ReceiveOutcome::Disconnected
    }
}

pub struct BoundedQueue<T> {
    items: VecDeque<T>,
    capacity: usize,
    sender_open: bool,
    receiver_open: bool,
}

impl<T> View for BoundedQueue<T> {
    type V = QueueView<T>;

    closed spec fn view(&self) -> QueueView<T> {
        QueueView {
            items: self.items@,
            capacity: self.capacity as nat,
            sender_open: self.sender_open,
            receiver_open: self.receiver_open,
        }
    }
}

impl<T> BoundedQueue<T> {
    /// The queue never holds more than its capacity.
    pub open spec fn wf(&self) -> bool {
        self@.items.len() <= self@.capacity
    }

    /// An empty queue, open at both ends.
    pub fn new(capacity: usize) -> (queue: BoundedQueue<T>)
        ensures
            queue.wf(),
            queue@ == (QueueView {
                items: Seq::<T>::empty(),
                capacity: capacity as nat,
                sender_open: true,
                receiver_open: true,
            }),
    {
        BoundedQueue { items: VecDeque::new(), capacity, sender_open: true, receiver_open: true }
    }

    /// Sends an item without waiting.
    pub fn try_send(&mut self, item: T) -> (r: SendOutcome<T>)
        requires
            old(self).wf(),
        ensures
            final(self).wf(),
            final(self)@ == after_send(old(self)@, item),
            r == send_outcome(old(self)@, item),
    {
        if !self.receiver_open {
            SendOutcome::Disconnected(item)
        } else if self.items.len() < self.capacity {
            self.items.push_back(item);
            SendOutcome::Sent
        } else {
            SendOutcome::Full(item)
        }
    }

    /// Receives the oldest item without waiting.
    pub fn try_recv(&mut self) -> (r: ReceiveOutcome<T>)
        requires
            old(self).wf(),
        ensures
            final(self).wf(),
            final(self)@ == after_receive(old(self)@),
            r == receive_outcome(old(self)@),
    {
        let ghost before = self.items@;
        match self.items.pop_front() {
            Some(item) => {
                assert(self.items@ =~= before.drop_first());
                ReceiveOutcome::Item(item)
            },
            None => if self.sender_open {
                ReceiveOutcome::Empty
            } else {
                ReceiveOutcome::Disconnected
            },
        }
    }

    /// Says that nothing more will be sent. What was sent can still be received.
    pub fn close_sender(&mut self)
        ensures
            final(self)@ == (QueueView { sender_open: false, ..old(self)@ }),
    {
        self.sender_open = false;
    }

    /// Says that nothing more will be received, and drops what was not.
    pub fn close_receiver(&mut self)
        ensures
            final(self)@ == (QueueView {
                receiver_open: false,
                items: Seq::<T>::empty(),
                ..old(self)@
            }),
    {
        self.items.clear();
        self.receiver_open = false;
    }

    pub fn len(&self) -> (n: usize)
        ensures
            n == self@.items.len(),
    {
        self.items.len()
    }
}

// What holds of every run.

/// One thing that happens to a queue.
pub enum QueueStep<T> {
    Send(T),
    Receive,
}

/// The queue after a run of steps.
pub open spec fn run<T>(v: QueueView<T>, steps: Seq<QueueStep<T>>) -> QueueView<T>
    decreases steps.len(),
{
    if steps.len() == 0 {
        v
    } else {
        let before = run(v, steps.drop_last());
        match steps.last() {
            QueueStep::Send(item) => after_send(before, item),
            QueueStep::Receive => after_receive(before),
        }
    }
}

/// The items that the queue accepted during a run, in order.
pub open spec fn accepted<T>(v: QueueView<T>, steps: Seq<QueueStep<T>>) -> Seq<T>
    decreases steps.len(),
{
    if steps.len() == 0 {
        Seq::empty()
    } else {
        let before = run(v, steps.drop_last());
        match steps.last() {
            QueueStep::Send(item) => if send_outcome(before, item) is Sent {
                accepted(v, steps.drop_last()).push(item)
            } else {
                accepted(v, steps.drop_last())
            },
            QueueStep::Receive => accepted(v, steps.drop_last()),
        }
    }
}

/// The items that came out of the queue during a run, in order.
pub open spec fn received<T>(v: QueueView<T>, steps: Seq<QueueStep<T>>) -> Seq<T>
    decreases steps.len(),
{
    if steps.len() == 0 {
        Seq::empty()
    } else {
        match (steps.last(), receive_outcome(run(v, steps.drop_last()))) {
            (QueueStep::Receive, ReceiveOutcome::Item(item)) => {
                received(v, steps.drop_last()).push(item)
            },
            _ => received(v, steps.drop_last()),
        }
    }
}

/// Accepted items come out once each, in the order in which they were accepted, and
/// the queue stays within its capacity: what was received and what is still queued is
/// what was queued at first and what was accepted.
pub proof fn queues_keep_order_and_bound<T>(v: QueueView<T>, steps: Seq<QueueStep<T>>)
    requires
        v.items.len() <= v.capacity,
    ensures
        received(v, steps) + run(v, steps).items == v.items + accepted(v, steps),
        run(v, steps).items.len() <= v.capacity,
        run(v, steps).capacity == v.capacity,
    decreases steps.len(),
{
    if steps.len() == 0 {
        assert(received(v, steps) + v.items =~= v.items + accepted(v, steps));
    } else {
        queues_keep_order_and_bound(v, steps.drop_last());
        let before = run(v, steps.drop_last());
        let out = received(v, steps.drop_last());
        let within = accepted(v, steps.drop_last());
        match steps.last() {
            QueueStep::Send(item) => {
                if send_outcome(before, item) is Sent {
                    assert(out + before.items.push(item) =~= (out + before.items).push(item));
                    assert(v.items + within.push(item) =~= (v.items + within).push(item));
                }
            },
            QueueStep::Receive => {
                if before.items.len() > 0 {
                    assert(out.push(before.items[0]) + before.items.drop_first() =~= out
                        + before.items);
                }
            },
        }
    }
}

/// The queue after the items were sent to it, one after the other.
pub open spec fn filled<T>(v: QueueView<T>, items: Seq<T>) -> QueueView<T>
    decreases items.len(),
{
    if items.len() == 0 {
        v
    } else {
        after_send(filled(v, items.drop_last()), items.last())
    }
}

/// A queue takes as many items as it was made for and no more: each of them is sent and
/// stands behind those before it, and the next one comes back. It comes back too where
/// nobody receives any more. A receiver gets the oldest item, and learns that nothing will
/// come only once all items are gone and nobody sends any more.
pub proof fn queues_hold_what_they_were_made_for<T>(v: QueueView<T>, items: Seq<T>, next: T)
    requires
        v.items.len() == 0,
        v.receiver_open,
        items.len() <= v.capacity,
    ensures
        filled(v, items).items == items,
        filled(v, items).receiver_open && filled(v, items).sender_open == v.sender_open,
        filled(v, items).capacity == v.capacity,
        items.len() < v.capacity ==> send_outcome(filled(v, items), next) is Sent,
        items.len() == v.capacity ==> send_outcome(filled(v, items), next) == SendOutcome::Full(
            next,
        ) && after_send(filled(v, items), next) == filled(v, items),
        items.len() > 0 ==> receive_outcome(filled(v, items)) == ReceiveOutcome::Item(items[0])
            && after_receive(filled(v, items)).items == items.skip(1),
        items.len() == 0 ==> receive_outcome(filled(v, items)) == (if v.sender_open {
            ReceiveOutcome::<T>::Empty
        } else {
            ReceiveOutcome::<T>::Disconnected
        }),
        send_outcome(QueueView { receiver_open: false, ..v }, next) == SendOutcome::Disconnected(
            next,
        ),
    decreases items.len(),
{
    if items.len() > 0 {
        queues_hold_what_they_were_made_for(v, items.drop_last(), items.last());
        assert(items.drop_last().push(items.last()) =~= items);
        assert(items.drop_first() =~= items.skip(1));
    } else {
        assert(items =~= v.items);
    }
}

} // verus!
