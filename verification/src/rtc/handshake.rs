//! The handshake by which a publisher joins a relay session.
use std::time::{Duration, Instant};
use str0m::change::SdpAnswer;
use str0m::error::SdpError;
use str0m::Candidate;
use vstd::prelude::*;

use crate::boundary::{parse_candidate, show_sdp_error};
use crate::numeral::decimal_chars;
use crate::rtc::sdp::{join_lines, munge_lines, split_sections, ParamView, SDP_BITS_PER_KBPS};
use crate::rtc::signaling::{PublishBusBinding, PublishMsg};
use crate::rtc::types::Transmission;
use crate::runtime::StreamPlan;
use crate::text::{append_chars, append_str, from_chars, to_chars};

verus! {

// Media.

/// What the offer says of one AudioBus.
#[derive(Debug, Clone, PartialEq, Eq)]
pub struct PublishMedia {
    pub stereo: bool,
    /// The average bitrate that receivers should expect, in kbps.
    pub max_avg_bitrate_kbps: u32,
    /// The WebRTC stream and track that carry the AudioBus.
    pub stream_id: String,
}

/// A handshake is about something.
pub fn check_media(media: &Vec<PublishMedia>) -> (r: Result<(), String>)
    ensures
        r is Ok <==> media@.len() > 0,
        r matches Err(message) ==> message@ == "relay handshake requires at least one AudioBus"@,
{
    if media.len() == 0 {
        return Err("relay handshake requires at least one AudioBus".to_owned());
    }
    Ok(())
}

/// Whether a medium is the one of a planned stream, with the given bitrate.
pub open spec fn carries(media: PublishMedia, plan: StreamPlan, kbps: u32) -> bool {
    &&& media.stereo == (plan.profile is MusicStereo20ms)
    &&& media.max_avg_bitrate_kbps == kbps
    &&& media.stream_id@ == plan.stream_id@
}

/// The media of the planned streams, given the bitrate that the encoder of each is set to.
pub fn publish_media(plans: &Vec<StreamPlan>, kbps: &Vec<u32>) -> (media: Vec<PublishMedia>)
    requires
        plans@.len() == kbps@.len(),
    ensures
        media@.len() == plans@.len(),
        forall|i: int|
            0 <= i < media@.len() ==> carries(#[trigger] media@[i], plans@[i], kbps@[i]),
{
    let mut media: Vec<PublishMedia> = Vec::new();
    let mut i: usize = 0;
    while i < plans.len()
        invariant
            i <= plans@.len() == kbps@.len(),
            media@.len() == i,
            forall|j: int| 0 <= j < i ==> carries(#[trigger] media@[j], plans@[j], kbps@[j]),
        decreases plans.len() - i,
    {
        media.push(
            PublishMedia {
                stereo: plans[i].profile.is_stereo(),
                max_avg_bitrate_kbps: kbps[i],
                stream_id: plans[i].stream_id.as_str().to_owned(),
            },
        );
        i = i + 1;
    }
    media
}

// The deadline.

/// Whether this is the deadline that follows from what the clock made of the sum of start and
/// startup timeout. A sum that the clock cannot show is none.
pub open spec fn deadline_for(sum: Option<Instant>, r: Result<Instant, String>) -> bool {
    match sum {
        Some(deadline) => r == Ok::<Instant, String>(deadline),
        None => r matches Err(message) && message@ == "relay startup deadline overflow"@,
    }
}

/// The deadline of a handshake that starts now.
pub fn startup_deadline(now: Instant, startup_timeout: Duration) -> (r: Result<Instant, String>)
    ensures
        exists|sum: Option<Instant>| #[trigger]
            call_ensures(Instant::checked_add, (&now, startup_timeout), sum) && deadline_for(
                sum,
                r,
            ),
{
    let sum = now.checked_add(startup_timeout);
    assert(call_ensures(Instant::checked_add, (&now, startup_timeout), sum));
    match sum {
        Some(deadline) => Ok(deadline),
        None => Err("relay startup deadline overflow".to_owned()),
    }
}

// The offer.

/// The Opus parameters of a medium: its own layout and its own bitrate.
pub open spec fn media_params(media: PublishMedia) -> Seq<ParamView> {
    crate::rtc::sdp::opus_params(
        media.stereo,
        (media.max_avg_bitrate_kbps * SDP_BITS_PER_KBPS) as nat,
    )
}

/// The lines of a section of the offer. Behind the part that concerns the whole session, each
/// medium has a section, in which its parameters are declared.
pub open spec fn offered_section(
    sections: Seq<Seq<Seq<char>>>,
    media: Seq<PublishMedia>,
    i: int,
) -> Seq<Seq<char>> {
    if 0 < i <= media.len() {
        crate::rtc::sdp::munged_lines(sections[i], media_params(media[i - 1]))
    } else {
        sections[i]
    }
}

pub open spec fn offered_sections(
    sections: Seq<Seq<Seq<char>>>,
    media: Seq<PublishMedia>,
) -> Seq<Seq<Seq<char>>> {
    Seq::new(sections.len(), |i: int| offered_section(sections, media, i))
}

/// The offer in which each medium's section declares that medium's parameters.
pub open spec fn offered(sdp: Seq<char>, media: Seq<PublishMedia>) -> Seq<char> {
    offered_sections(
        crate::rtc::sdp::sections(crate::rtc::sdp::lines(sdp)),
        media,
    ).flatten().flatten()
}

/// The offer, with the layout and the bitrate of each medium written into its section. A
/// mono medium does not advertise stereo, and no medium is capped at the bitrate of another.
pub fn offer_text(sdp: &str, media: &Vec<PublishMedia>) -> (offer: String)
    requires
        forall|i: int|
            0 <= i < media@.len() ==> (#[trigger] media@[i]).max_avg_bitrate_kbps
                * SDP_BITS_PER_KBPS <= u32::MAX,
    ensures
        offer@ == offered(sdp@, media@),
{
    let found = split_sections(sdp);
    let ghost sections = crate::rtc::sdp::sections(crate::rtc::sdp::lines(sdp@));
    let ghost all = offered_sections(sections, media@);
    let mut out: Vec<char> = Vec::new();
    let mut i: usize = 0;
    assert(all.take(0).flatten().flatten() =~= Seq::empty());
    while i < found.len()
        invariant
            i <= found@.len(),
            sections == crate::rtc::sdp::section_views(found@),
            all == offered_sections(sections, media@),
            forall|j: int|
                0 <= j < media@.len() ==> (#[trigger] media@[j]).max_avg_bitrate_kbps
                    * SDP_BITS_PER_KBPS <= u32::MAX,
            out@ == all.take(i as int).flatten().flatten(),
        decreases found.len() - i,
    {
        let ghost before = all.take(i as int);
        let ghost section = offered_section(sections, media@, i as int);
        proof {
            assert(all.take(i + 1) =~= before.push(section));
            before.lemma_flatten_push(section);
            crate::rtc::sdp::lemma_flatten_join(before.flatten(), section);
        }
        let text = if 0 < i && i <= media.len() {
            let medium = &media[i - 1];
            assert(medium == media@[i - 1]);
            munge_lines(
                &found[i],
                medium.stereo,
                medium.max_avg_bitrate_kbps * SDP_BITS_PER_KBPS,
            )
        } else {
            join_lines(&found[i])
        };
        assert(text@ == section.flatten());
        append_chars(&mut out, text.as_slice());
        i = i + 1;
    }
    assert(all.take(i as int) =~= all);
    from_chars(out.as_slice())
}

/// Each medium is bound to the AudioBus of its own name.
pub open spec fn bound_to_itself(binding: PublishBusBinding, media: PublishMedia) -> bool {
    binding.stream_id@ == media.stream_id@ && binding.bus_id@ == media.stream_id@
}

/// The request to publish the media.
pub fn publish_request(
    room_id: &str,
    token: &str,
    sdp_offer: &str,
    media: &Vec<PublishMedia>,
) -> (msg: PublishMsg)
    ensures
        msg.msg_type@ == "PUBLISH"@,
        msg.room_id@ == room_id@,
        msg.token@ == token@,
        msg.sdp_offer@ == sdp_offer@,
        msg.bus_id is None,
        msg.publish_buses@.len() == media@.len(),
        forall|i: int|
            0 <= i < media@.len() ==> bound_to_itself(#[trigger] msg.publish_buses@[i], media@[i]),
{
    let mut publish_buses: Vec<PublishBusBinding> = Vec::new();
    let mut i: usize = 0;
    while i < media.len()
        invariant
            i <= media@.len(),
            publish_buses@.len() == i,
            forall|j: int| 0 <= j < i ==> bound_to_itself(#[trigger] publish_buses@[j], media@[j]),
        decreases media.len() - i,
    {
        let stream_id = media[i].stream_id.as_str();
        publish_buses.push(
            PublishBusBinding { stream_id: stream_id.to_owned(), bus_id: stream_id.to_owned() },
        );
        i = i + 1;
    }
    PublishMsg {
        msg_type: "PUBLISH".to_owned(),
        room_id: room_id.to_owned(),
        token: token.to_owned(),
        sdp_offer: sdp_offer.to_owned(),
        bus_id: None,
        publish_buses,
    }
}

// What the relay sends.

pub open spec fn bad_answer_text(error: Seq<char>) -> Seq<char> {
    "failed to parse SDP answer: "@ + error
}

pub open spec fn bad_early_candidate_text(error: Seq<char>) -> Seq<char> {
    "invalid buffered relay ICE candidate: "@ + error
}

fn failure_text(what: &str, error: &str) -> (message: String)
    ensures
        message@ == what@ + error@,
{
    let mut message = to_chars(what);
    append_str(&mut message, error);
    from_chars(message.as_slice())
}

/// Whether this is what follows from what the engine read in the relay's answer.
pub open spec fn answer_for(
    found: Result<SdpAnswer, SdpError>,
    r: Result<SdpAnswer, String>,
) -> bool {
    match found {
        Ok(answer) => r == Ok::<SdpAnswer, String>(answer),
        Err(error) => r matches Err(message) && message@ == bad_answer_text(
            crate::boundary::sdp_error_text(error),
        ),
    }
}

/// The relay's answer for the engine. A text that is none ends the startup.
pub fn read_answer(text: &str) -> (r: Result<SdpAnswer, String>)
    ensures
        r is Ok <==> crate::boundary::answer_reads(text@),
        exists|found: Result<SdpAnswer, SdpError>| #[trigger]
            call_ensures(SdpAnswer::from_sdp_string, (text,), found) && answer_for(found, r),
{
    let found = SdpAnswer::from_sdp_string(text);
    assert(call_ensures(SdpAnswer::from_sdp_string, (text,), found));
    match found {
        Ok(answer) => Ok(answer),
        Err(error) => {
            let shown = show_sdp_error(&error);
            Err(failure_text("failed to parse SDP answer: ", shown.as_str()))
        },
    }
}

/// A candidate that came before the answer. A text that is none ends the startup.
pub fn read_early_candidate(text: &str) -> (r: Result<Candidate, String>)
    ensures
        match crate::boundary::parsed_candidate(text@) {
            Ok(candidate) => r == Ok::<Candidate, String>(candidate),
            Err(error) => r matches Err(message) && message@ == bad_early_candidate_text(error),
        },
{
    match parse_candidate(text) {
        Ok(candidate) => Ok(candidate),
        Err(error) => Err(
            failure_text("invalid buffered relay ICE candidate: ", error.as_str()),
        ),
    }
}

/// A candidate that comes after the answer. A text that is none is passed over.
pub fn read_late_candidate(text: &str) -> (r: Option<Candidate>)
    ensures
        r == (match crate::boundary::parsed_candidate(text@) {
            Ok(candidate) => Some(candidate),
            Err(_) => None,
        }),
{
    match parse_candidate(text) {
        Ok(candidate) => Some(candidate),
        Err(_) => None,
    }
}

// The connectivity checks.

/// What the handshake does next.
pub enum HandshakeStep {
    /// Look at the clock, and poll the engine.
    Poll,
    /// Advance the engine's clock and read a datagram.
    ReadDatagram,
    /// Read a signaling message.
    ReadSignal,
    /// The connection is there.
    Connected,
    /// The relay is left, since the deadline has passed.
    TimedOut,
    Failed(String),
}

/// What the engine gave when it was polled.
pub enum PollResult {
    Transmit(Transmission),
    Connected,
    OtherEvent,
    Timeout,
}

/// What reading a datagram or a signaling message came to.
pub enum ReadResult {
    Received,
    /// There is nothing to read yet.
    Idle,
    /// Nothing came within the short time of one read, as the message says.
    TimedOut(String),
    Failed(String),
}

/// What happened in a step.
pub enum HandshakeEvent {
    DeadlinePassed,
    Polled(PollResult),
    Datagram(ReadResult),
    Signal(ReadResult),
}

pub open spec fn signal_failure_text(error: Seq<char>) -> Seq<char> {
    "relay signaling connection failed: "@ + error
}

/// What a handshake fails with.
pub open spec fn handshake_failure(event: HandshakeEvent) -> Option<Seq<char>> {
    match event {
        HandshakeEvent::Polled(PollResult::Transmit(Transmission::Failed(error))) => Some(error@),
        HandshakeEvent::Datagram(ReadResult::Failed(error)) => Some(error@),
        HandshakeEvent::Signal(ReadResult::Failed(error)) => Some(signal_failure_text(error@)),
        _ => None,
    }
}

/// The step that follows an event: the deadline ends the handshake, a timeout of the
/// engine leads through one read of each kind, and all else to the next poll.
pub fn next_handshake_step(event: HandshakeEvent) -> (step: HandshakeStep)
    ensures
        step is TimedOut <==> event is DeadlinePassed,
        step is Connected <==> event == HandshakeEvent::Polled(PollResult::Connected),
        step is ReadDatagram <==> event == HandshakeEvent::Polled(PollResult::Timeout),
        step is ReadSignal <==> event is Datagram && handshake_failure(event) is None,
        step is Failed <==> handshake_failure(event) is Some,
        step matches HandshakeStep::Failed(message) ==> handshake_failure(event) == Some(message@),
{
    match event {
        HandshakeEvent::DeadlinePassed => HandshakeStep::TimedOut,
        HandshakeEvent::Polled(result) => match result {
            PollResult::Transmit(transmission) => match transmission {
                Transmission::Failed(error) => HandshakeStep::Failed(error),
                _ => HandshakeStep::Poll,
            },
            PollResult::Connected => HandshakeStep::Connected,
            PollResult::OtherEvent => HandshakeStep::Poll,
            PollResult::Timeout => HandshakeStep::ReadDatagram,
        },
        HandshakeEvent::Datagram(result) => match result {
            ReadResult::Failed(error) => HandshakeStep::Failed(error),
            _ => HandshakeStep::ReadSignal,
        },
        HandshakeEvent::Signal(result) => match result {
            ReadResult::Failed(error) => HandshakeStep::Failed(
                failure_text("relay signaling connection failed: ", error.as_str()),
            ),
            _ => HandshakeStep::Poll,
        },
    }
}

/// The message for a handshake that took too long.
pub fn handshake_timeout_message(startup_timeout_ms: u64) -> (message: String)
    ensures
        message@ == "ICE/DTLS handshake exceeded the configured "@ + crate::numeral::decimal(
            startup_timeout_ms as nat,
        ) + " ms startup deadline"@,
{
    let mut message = to_chars("ICE/DTLS handshake exceeded the configured ");
    let digits = decimal_chars(startup_timeout_ms);
    append_chars(&mut message, digits.as_slice());
    append_str(&mut message, " ms startup deadline");
    from_chars(message.as_slice())
}

} // verus!
