//! The order of events in a running publisher.
use std::time::Duration;
use vstd::prelude::*;

use crate::rtc::handshake::ReadResult;
use crate::text::{append_str, from_chars, to_chars};

verus! {

/// How long a publisher stays silent on the signaling connection before it sends a ping.
/// The relay drops connections that are silent for 90 seconds.
pub const WS_KEEPALIVE_INTERVAL_NS: u128 = 45_000_000_000;

/// Whether a ping is due.
pub fn ping_is_due(since_last_ping: Duration) -> (r: bool)
    ensures
        r == (crate::boundary::duration_nanos(since_last_ping) >= WS_KEEPALIVE_INTERVAL_NS),
{
    since_last_ping.as_nanos() >= WS_KEEPALIVE_INTERVAL_NS
}

// Signaling.

/// What a read of the signaling connection gave.
pub enum SignalRead {
    /// The relay announced that it closes the connection.
    CloseMessage,
    OtherMessage,
    ConnectionClosed,
    WouldBlock,
    TimedOut,
    Failed(String),
}

/// What a read of the signaling connection means for a running publication.
pub open spec fn signal_read_error(read: SignalRead) -> Option<Seq<char>> {
    match read {
        SignalRead::CloseMessage => {
            Some("relay signaling connection closed during publication"@)
        },
        SignalRead::ConnectionClosed => {
            Some("relay signaling connection closed during publication"@)
        },
        SignalRead::Failed(error) => {
            Some(crate::rtc::handshake::signal_failure_text(error@))
        },
        _ => None,
    }
}

/// Messages and idle reads let the publication go on; a connection that was closed or
/// has failed ends it.
pub fn classify_signaling_read(read: SignalRead) -> (r: Result<(), String>)
    ensures
        r is Ok <==> signal_read_error(read) is None,
        r matches Err(message) ==> signal_read_error(read) == Some(message@),
{
    match read {
        SignalRead::CloseMessage => Err(
            "relay signaling connection closed during publication".to_owned(),
        ),
        SignalRead::ConnectionClosed => Err(
            "relay signaling connection closed during publication".to_owned(),
        ),
        SignalRead::Failed(error) => {
            let mut message = to_chars("relay signaling connection failed: ");
            append_str(&mut message, error.as_str());
            Err(from_chars(message.as_slice()))
        },
        SignalRead::OtherMessage => Ok(()),
        SignalRead::WouldBlock => Ok(()),
        SignalRead::TimedOut => Ok(()),
    }
}

// Frames.

/// What is written next to a frame: its level in dBov, and whether somebody speaks.
pub fn level_extension(audio_level: Option<i8>) -> (r: Option<(i8, bool)>)
    requires
        audio_level matches Some(level) ==> level > i8::MIN,
    ensures
        audio_level is None ==> r is None,
        audio_level matches Some(level) ==> r == Some(((-level) as i8, level < 40)),
{
    match audio_level {
        Some(level) => Some((-level, level < 40)),
        None => None,
    }
}

// Steps.

/// What a publisher does next.
pub enum PublishStep {
    /// Look at the clock.
    Begin,
    /// Tell the engine that its timer has run out.
    Tick,
    /// Look for a datagram, and hand it to the engine.
    ReadDatagram,
    /// Look for a frame, and write it to the engine.
    SelectFrame,
    /// Drain the engine.
    Drain,
    /// Send a ping to the relay.
    Ping,
    /// Read from the signaling connection, for a moment at most.
    ReadSignal,
    /// Leave the relay.
    Stop,
    Failed(String),
}

/// What happened in a step.
pub enum PublishEvent {
    Began { timer_is_due: bool },
    Ticked,
    Datagram(ReadResult),
    FrameWritten,
    NoFrame { all_disconnected: bool, ping_is_due: bool },
    Drained,
    Pinged,
    Signal(SignalRead),
}

/// What a publication fails with. Its socket does not wait, so that a read that timed out
/// is a failure like any other.
pub open spec fn publish_failure(event: PublishEvent) -> Option<Seq<char>> {
    match event {
        PublishEvent::Datagram(ReadResult::TimedOut(error)) => Some(error@),
        PublishEvent::Datagram(ReadResult::Failed(error)) => Some(error@),
        PublishEvent::Signal(read) => signal_read_error(read),
        _ => None,
    }
}

/// Whether an event changed the engine.
pub open spec fn changes_engine(event: PublishEvent) -> bool {
    ||| event is Ticked
    ||| event == PublishEvent::Datagram(ReadResult::Received)
    ||| event is FrameWritten
}

/// A step without what it carries.
pub enum StepKind {
    Begin,
    Tick,
    ReadDatagram,
    SelectFrame,
    Drain,
    Ping,
    ReadSignal,
    Stop,
    Failed,
}

pub open spec fn kind_of(step: PublishStep) -> StepKind {
    match step {
        PublishStep::Begin => StepKind::Begin,
        PublishStep::Tick => StepKind::Tick,
        PublishStep::ReadDatagram => StepKind::ReadDatagram,
        PublishStep::SelectFrame => StepKind::SelectFrame,
        PublishStep::Drain => StepKind::Drain,
        PublishStep::Ping => StepKind::Ping,
        PublishStep::ReadSignal => StepKind::ReadSignal,
        PublishStep::Stop => StepKind::Stop,
        PublishStep::Failed(_) => StepKind::Failed,
    }
}

/// The kind of step that follows an event.
pub open spec fn step_after(event: PublishEvent) -> StepKind {
    if publish_failure(event) is Some {
        StepKind::Failed
    } else if changes_engine(event) {
        StepKind::Drain
    } else {
        match event {
            PublishEvent::Began { timer_is_due } => if timer_is_due {
                StepKind::Tick
            } else {
                StepKind::ReadDatagram
            },
            PublishEvent::Datagram(_) => StepKind::SelectFrame,
            PublishEvent::NoFrame { all_disconnected, ping_is_due } => if all_disconnected {
                StepKind::Stop
            } else if ping_is_due {
                StepKind::Ping
            } else {
                StepKind::ReadSignal
            },
            PublishEvent::Pinged => StepKind::ReadSignal,
            _ => StepKind::Begin,
        }
    }
}

/// The step that follows an event.
pub fn next_publish_step(event: PublishEvent) -> (step: PublishStep)
    ensures
        kind_of(step) == step_after(event),
        step matches PublishStep::Failed(message) ==> publish_failure(event) == Some(message@),
{
    match event {
        PublishEvent::Began { timer_is_due } => if timer_is_due {
            PublishStep::Tick
        } else {
            PublishStep::ReadDatagram
        },
        PublishEvent::Ticked => PublishStep::Drain,
        PublishEvent::Datagram(result) => match result {
            ReadResult::Received => PublishStep::Drain,
            ReadResult::Idle => PublishStep::SelectFrame,
            ReadResult::TimedOut(error) => PublishStep::Failed(error),
            ReadResult::Failed(error) => PublishStep::Failed(error),
        },
        PublishEvent::FrameWritten => PublishStep::Drain,
        PublishEvent::NoFrame { all_disconnected, ping_is_due } => if all_disconnected {
            PublishStep::Stop
        } else if ping_is_due {
            PublishStep::Ping
        } else {
            PublishStep::ReadSignal
        },
        PublishEvent::Drained => PublishStep::Begin,
        PublishEvent::Pinged => PublishStep::ReadSignal,
        PublishEvent::Signal(read) => match classify_signaling_read(read) {
            Ok(()) => PublishStep::Begin,
            Err(message) => PublishStep::Failed(message),
        },
    }
}

// What holds of every run.

/// Whether an event can happen in a step.
pub open spec fn happens_in(event: PublishEvent, step: StepKind) -> bool {
    match step {
        StepKind::Begin => event is Began,
        StepKind::Tick => event is Ticked,
        StepKind::ReadDatagram => event is Datagram,
        StepKind::SelectFrame => event is FrameWritten || event is NoFrame,
        StepKind::Drain => event is Drained,
        StepKind::Ping => event is Pinged,
        StepKind::ReadSignal => event is Signal,
        StepKind::Stop => false,
        StepKind::Failed => false,
    }
}

/// The events of a run: each happens in the step that follows the one before.
pub open spec fn is_run(events: Seq<PublishEvent>) -> bool {
    &&& events.len() > 0 ==> happens_in(events[0], StepKind::Begin)
    &&& forall|i: int|
        0 <= i < events.len() - 1 ==> happens_in(
            #[trigger] events[i + 1],
            step_after(events[i]),
        )
}

/// The engine is drained after every change, before anything else happens.
pub proof fn the_engine_is_drained_after_every_change(events: Seq<PublishEvent>, i: int)
    requires
        is_run(events),
        0 <= i < events.len() - 1,
        changes_engine(events[i]),
    ensures
        events[i + 1] is Drained,
{
    assert(happens_in(events[i + 1], step_after(events[i])));
}

/// A frame is written only where no timer was due and no datagram was waiting.
pub proof fn timers_and_datagrams_come_before_frames(events: Seq<PublishEvent>, i: int)
    requires
        is_run(events),
        0 <= i < events.len(),
        events[i] is FrameWritten,
    ensures
        i >= 2,
        events[i - 1] == PublishEvent::Datagram(ReadResult::Idle),
        events[i - 2] == (PublishEvent::Began { timer_is_due: false }),
{
    assert(happens_in(events[(i - 1) + 1], step_after(events[i - 1])));
    assert(happens_in(events[(i - 2) + 1], step_after(events[i - 2])));
}

/// Every event has the step that it asks for: what changed the engine leads to draining it,
/// a timer that is due comes before datagrams, datagrams before frames, frames before signals,
/// and a publication stops where all encoders are gone and nowhere else.
pub proof fn events_have_their_steps(event: PublishEvent)
    ensures
        step_after(event) == StepKind::Drain <==> (event is Ticked || event is FrameWritten || event
            == PublishEvent::Datagram(ReadResult::Received)),
        step_after(event) == StepKind::Tick <==> event == (PublishEvent::Began {
            timer_is_due: true,
        }),
        step_after(event) == StepKind::ReadDatagram <==> event == (PublishEvent::Began {
            timer_is_due: false,
        }),
        step_after(event) == StepKind::SelectFrame <==> event == PublishEvent::Datagram(
            ReadResult::Idle,
        ),
        step_after(event) == StepKind::Stop <==> (
        event matches PublishEvent::NoFrame { all_disconnected, .. } && all_disconnected),
        step_after(event) == StepKind::Ping <==> event == (PublishEvent::NoFrame {
            all_disconnected: false,
            ping_is_due: true,
        }),
        step_after(event) == StepKind::ReadSignal <==> (event is Pinged || event == (
        PublishEvent::NoFrame { all_disconnected: false, ping_is_due: false })),
        step_after(event) == StepKind::Begin <==> (event is Drained || event == PublishEvent::Signal(
            SignalRead::OtherMessage,
        ) || event == PublishEvent::Signal(SignalRead::WouldBlock) || event
            == PublishEvent::Signal(SignalRead::TimedOut)),
        step_after(event) == StepKind::Failed <==> (event matches PublishEvent::Datagram(read) && (
        read is TimedOut || read is Failed)) || (event matches PublishEvent::Signal(read) && (
        read is CloseMessage || read is ConnectionClosed || read is Failed)),
{
}

} // verus!
