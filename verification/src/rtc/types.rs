//! What the engine that speaks RTP asks for, and how it is answered.
use vstd::prelude::*;

use crate::text::{append_str, find_text, from_chars, to_chars};

verus! {

/// What came of sending a datagram.
pub enum Transmission {
    Sent,
    /// The socket's buffer is full: the datagram is dropped, which does no harm.
    WouldBlock,
    Failed(String),
}

/// What the engine gives when it is polled.
pub enum EngineOutput {
    /// It wants nothing until its next deadline.
    Timeout,
    /// A datagram was to be sent.
    Transmit(Transmission),
    Event,
    /// It failed, with this debug text.
    Failed(String),
}

/// How draining goes on.
pub enum DrainStep {
    PollAgain,
    /// The engine is drained, and may be changed again.
    Drained,
    Failed(String),
}

pub open spec fn poll_failure_text(debug: Seq<char>) -> Seq<char> {
    if crate::text::holds_text(debug, "CloseNotify"@) {
        "relay closed DTLS connection"@
    } else {
        "poll_output: "@ + debug
    }
}

/// What draining fails with.
pub open spec fn drain_failure(output: EngineOutput) -> Option<Seq<char>> {
    match output {
        EngineOutput::Failed(debug) => Some(poll_failure_text(debug@)),
        EngineOutput::Transmit(Transmission::Failed(error)) => Some(error@),
        _ => None,
    }
}

/// The message for an engine that failed. A relay that closes its side is no fault of
/// the engine.
pub fn poll_failure(debug: &str) -> (message: String)
    ensures
        message@ == poll_failure_text(debug@),
{
    let chars = to_chars(debug);
    let notice = to_chars("CloseNotify");
    if find_text(chars.as_slice(), notice.as_slice()).is_some() {
        return "relay closed DTLS connection".to_owned();
    }
    let mut message = to_chars("poll_output: ");
    append_str(&mut message, debug);
    from_chars(message.as_slice())
}

/// Drains the engine step by step. After any change it must be polled until it gives a
/// timeout, before the next change.
pub fn drain_step(output: EngineOutput) -> (step: DrainStep)
    ensures
        step is Drained <==> output is Timeout,
        step is Failed <==> drain_failure(output) is Some,
        step matches DrainStep::Failed(message) ==> drain_failure(output) == Some(message@),
{
    match output {
        EngineOutput::Timeout => DrainStep::Drained,
        EngineOutput::Event => DrainStep::PollAgain,
        EngineOutput::Failed(debug) => DrainStep::Failed(poll_failure(debug.as_str())),
        EngineOutput::Transmit(transmission) => match transmission {
            Transmission::Sent => DrainStep::PollAgain,
            Transmission::WouldBlock => DrainStep::PollAgain,
            Transmission::Failed(error) => DrainStep::Failed(error),
        },
    }
}

} // verus!
