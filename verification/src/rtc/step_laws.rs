//! What holds of the steps of a handshake and of what it hands over.
use std::time::Instant;
use str0m::change::SdpAnswer;
use str0m::error::SdpError;
use vstd::prelude::*;

use crate::rtc::handshake::{HandshakeEvent, PollResult, PublishMedia, ReadResult};
use crate::rtc::network::{Resolution, SignalingUrlFault};
use crate::rtc::publish_loop::{PublishEvent, PublishStep, SignalRead, StepKind};
use crate::rtc::signaling::{PublishBusBinding, ServerMsgView};
use crate::rtc::types::{EngineOutput, Transmission};
use crate::runtime::{RelayStreamProfile, StreamPlan};

verus! {

/// A handshake fails where a datagram cannot be sent, or a datagram or a signal cannot be
/// read, and nowhere else. That nothing came is no failure.
pub proof fn handshakes_fail_where_the_network_does(event: HandshakeEvent)
    ensures
        crate::rtc::handshake::handshake_failure(event) is Some <==> {
            ||| event matches HandshakeEvent::Polled(PollResult::Transmit(Transmission::Failed(_)))
            ||| event matches HandshakeEvent::Datagram(ReadResult::Failed(_))
            ||| event matches HandshakeEvent::Signal(ReadResult::Failed(_))
        },
        event matches HandshakeEvent::Polled(PollResult::Transmit(Transmission::Failed(error)))
            ==> crate::rtc::handshake::handshake_failure(event) == Some(error@),
        event matches HandshakeEvent::Datagram(ReadResult::Failed(error))
            ==> crate::rtc::handshake::handshake_failure(event) == Some(error@),
        event matches HandshakeEvent::Signal(ReadResult::Failed(error))
            ==> crate::rtc::handshake::handshake_failure(event) == Some(
            "relay signaling connection failed: "@ + error@,
        ),
{
}

/// Draining fails where the engine does, or where a datagram cannot be sent; a full buffer of
/// the socket is no failure. A relay that closes its side is named as such.
pub proof fn draining_fails_where_the_engine_does(output: EngineOutput)
    ensures
        crate::rtc::types::drain_failure(output) is Some <==> {
            ||| output is Failed
            ||| output matches EngineOutput::Transmit(Transmission::Failed(_))
        },
        output matches EngineOutput::Transmit(Transmission::Failed(error))
            ==> crate::rtc::types::drain_failure(output) == Some(error@),
        output matches EngineOutput::Failed(debug) ==> crate::rtc::types::drain_failure(output)
            == Some(
            if exists|i: int|
                0 <= i <= debug@.len() - 11 && #[trigger] debug@.subrange(i, i + 11)
                    == "CloseNotify"@ {
                "relay closed DTLS connection"@
            } else {
                "poll_output: "@ + debug@
            },
        ),
{
    reveal_strlit("CloseNotify");
    if let EngineOutput::Failed(debug) = output {
        let part = "CloseNotify"@;
        if crate::text::holds_text(debug@, part) {
            let i = choose|i: int| crate::text::occurs_at(debug@, part, i);
            assert(debug@.subrange(i, i + 11) == part);
        }
        if exists|i: int|
            0 <= i <= debug@.len() - 11 && #[trigger] debug@.subrange(i, i + 11) == part {
            let i = choose|i: int|
                0 <= i <= debug@.len() - 11 && #[trigger] debug@.subrange(i, i + 11) == part;
            assert(crate::text::occurs_at(debug@, part, i));
        }
    }
}

/// A medium is that of its stream: stereo for music and mono for voice, under the stream's
/// name and at the bitrate of its encoder; and it is bound to the AudioBus of that name.
pub proof fn media_are_those_of_their_streams(
    media: PublishMedia,
    plan: StreamPlan,
    kbps: u32,
    binding: PublishBusBinding,
)
    requires
        crate::rtc::handshake::carries(media, plan, kbps),
        crate::rtc::handshake::bound_to_itself(binding, media),
    ensures
        media.stereo <==> plan.profile == RelayStreamProfile::MusicStereo20ms,
        media.max_avg_bitrate_kbps == kbps,
        media.stream_id@ == plan.stream_id@,
        binding.stream_id@ == plan.stream_id@,
        binding.bus_id@ == plan.stream_id@,
{
}

/// What the engine read in the relay's answer is handed on as it is.
pub proof fn answers_are_handed_on(
    found: Result<SdpAnswer, SdpError>,
    r: Result<SdpAnswer, String>,
)
    requires
        crate::rtc::handshake::answer_for(found, r),
    ensures
        r is Ok <==> found is Ok,
        found matches Ok(answer) ==> r == Ok::<SdpAnswer, String>(answer),
{
}

/// A step is of its own kind.
pub proof fn steps_are_of_their_kind(step: PublishStep)
    ensures
        crate::rtc::publish_loop::kind_of(step) == StepKind::Begin <==> step is Begin,
        crate::rtc::publish_loop::kind_of(step) == StepKind::Tick <==> step is Tick,
        crate::rtc::publish_loop::kind_of(step) == StepKind::ReadDatagram <==> step is ReadDatagram,
        crate::rtc::publish_loop::kind_of(step) == StepKind::SelectFrame <==> step is SelectFrame,
        crate::rtc::publish_loop::kind_of(step) == StepKind::Drain <==> step is Drain,
        crate::rtc::publish_loop::kind_of(step) == StepKind::Ping <==> step is Ping,
        crate::rtc::publish_loop::kind_of(step) == StepKind::ReadSignal <==> step is ReadSignal,
        crate::rtc::publish_loop::kind_of(step) == StepKind::Stop <==> step is Stop,
        crate::rtc::publish_loop::kind_of(step) == StepKind::Failed <==> step is Failed,
{
}

/// What ended a publication is said: what could not be read, or that the relay has closed the
/// connection.
pub proof fn publications_say_what_ended_them(event: PublishEvent)
    ensures
        event matches PublishEvent::Datagram(ReadResult::Failed(error))
            ==> crate::rtc::publish_loop::publish_failure(event) == Some(error@),
        event matches PublishEvent::Datagram(ReadResult::TimedOut(error))
            ==> crate::rtc::publish_loop::publish_failure(event) == Some(error@),
        event matches PublishEvent::Signal(SignalRead::Failed(error))
            ==> crate::rtc::publish_loop::publish_failure(event) == Some(
            "relay signaling connection failed: "@ + error@,
        ),
        event == PublishEvent::Signal(SignalRead::CloseMessage) || event == PublishEvent::Signal(
            SignalRead::ConnectionClosed,
        ) ==> crate::rtc::publish_loop::publish_failure(event) == Some(
            "relay signaling connection closed during publication"@,
        ),
{
}

/// A deadline that the clock can show is the sum of start and startup timeout; one that it
/// cannot show is refused.
pub proof fn deadlines_are_what_the_clock_shows(sum: Option<Instant>, r: Result<Instant, String>)
    requires
        crate::rtc::handshake::deadline_for(sum, r),
    ensures
        r is Ok <==> sum is Some,
        sum matches Some(deadline) ==> r == Ok::<Instant, String>(deadline),
{
}

/// A STUN server is asked at the port that its authority names, and at port 3478 where it
/// names none.
pub proof fn stun_servers_are_asked_at_their_port(host: Seq<char>, port: Seq<char>)
    ensures
        crate::rtc::stun::stun_endpoint_text(host + seq![':'] + port) == host + seq![':'] + port,
        !host.contains(':') ==> crate::rtc::stun::stun_endpoint_text(host) == host + seq![
            ':',
            '3',
            '4',
            '7',
            '8',
        ],
{
    reveal_strlit(":3478");
    assert(":3478"@ =~= seq![':', '3', '4', '7', '8']);
    let whole = host + seq![':'] + port;
    assert(whole[host.len() as int] == ':');
    assert(whole.contains(':'));
}

/// A connection that came to nothing says why the last address did not answer, or that there
/// was no time to try one. A name that was not resolved says why.
pub proof fn failed_connections_say_why(error: Seq<char>, resolution: Resolution)
    ensures
        crate::rtc::network::connect_failure(Some(error)) == "relay signaling connection failed: "@
            + error,
        crate::rtc::network::connect_failure(None)
            == "relay signaling connection exceeded its startup deadline"@,
        crate::rtc::network::resolution_error(resolution) is None <==> (
        resolution matches Resolution::Resolved(addresses) && addresses@.len() > 0),
        resolution matches Resolution::Failed(message) ==> crate::rtc::network::resolution_error(
            resolution,
        ) == Some(message@),
{
}

/// A signaling URL that cannot be read says what the parser says of it; another one leads
/// where its parts do. A relay that refuses says its code and its message.
pub proof fn refusals_say_why(ws_url: Seq<char>, msg: ServerMsgView)
    ensures
        crate::boundary::url_parts(ws_url) matches Err(reason)
            ==> crate::rtc::network::endpoint_text(ws_url) == Err::<Seq<char>, SignalingUrlFault>(
            SignalingUrlFault::Malformed(reason),
        ),
        crate::boundary::url_parts(ws_url) matches Ok(parts) ==> crate::rtc::network::endpoint_text(
            ws_url,
        ) == crate::rtc::network::endpoint_of(parts),
        crate::rtc::signaling::refusal_text(msg) == "relay error "@ + msg.code + ": "@
            + msg.message,
        crate::rtc::handshake::bad_answer_text(msg.message) == "failed to parse SDP answer: "@
            + msg.message,
        crate::rtc::handshake::bad_early_candidate_text(msg.message)
            == "invalid buffered relay ICE candidate: "@ + msg.message,
{
}

} // verus!
