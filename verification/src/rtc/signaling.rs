//! The messages of the relay's signaling protocol.
use vstd::prelude::*;
use vstd::string::StrSliceExecFns;

use crate::json;
use crate::text::{append_str, from_chars, text_eq, to_chars};

verus! {

// What the publisher sends.

/// Ties a WebRTC stream to an AudioBus.
#[derive(Debug, Clone, PartialEq, Eq)]
pub struct PublishBusBinding {
    pub stream_id: String,
    pub bus_id: String,
}

/// A request to publish one or more AudioBuses into a room.
#[derive(Debug, Clone, PartialEq, Eq)]
pub struct PublishMsg {
    pub msg_type: String,
    pub room_id: String,
    pub token: String,
    pub sdp_offer: String,
    pub bus_id: Option<String>,
    pub publish_buses: Vec<PublishBusBinding>,
}

/// A notice that the publisher leaves a room.
#[derive(Debug, Clone, PartialEq, Eq)]
pub struct LeaveMsg {
    pub msg_type: String,
    pub room_id: String,
}

pub open spec fn text_member(name: Seq<char>, value: Seq<char>) -> Seq<char> {
    crate::json::json_member(name, crate::json::json_string(value))
}

pub open spec fn binding_json(stream_id: Seq<char>, bus_id: Seq<char>) -> Seq<char> {
    crate::json::json_object(
        seq![text_member("stream_id"@, stream_id), text_member("bus_id"@, bus_id)],
    )
}

pub open spec fn bindings_json(bindings: Seq<PublishBusBinding>) -> Seq<char> {
    crate::json::json_array(
        bindings.map_values(|b: PublishBusBinding| binding_json(b.stream_id@, b.bus_id@)),
    )
}

/// The members of a publish request on the wire. The single bus stands there only where
/// there is one, the list of buses only where it is not empty.
pub open spec fn publish_members(msg: PublishMsg) -> Seq<Seq<char>> {
    seq![
        text_member("type"@, msg.msg_type@),
        text_member("room_id"@, msg.room_id@),
        text_member("token"@, msg.token@),
        text_member("sdp_offer"@, msg.sdp_offer@),
    ] + (match msg.bus_id {
        Some(bus_id) => seq![text_member("bus_id"@, bus_id@)],
        None => Seq::empty(),
    }) + (if msg.publish_buses@.len() > 0 {
        seq![crate::json::json_member("publish_buses"@, bindings_json(msg.publish_buses@))]
    } else {
        Seq::empty()
    })
}

pub open spec fn leave_members(msg: LeaveMsg) -> Seq<Seq<char>> {
    seq![text_member("type"@, msg.msg_type@), text_member("room_id"@, msg.room_id@)]
}

fn member(name: &str, value: &str) -> (v: Vec<char>)
    ensures
        v@ == text_member(name@, value@),
{
    json::member(name, json::string(value))
}

fn encode_binding(binding: &PublishBusBinding) -> (v: Vec<char>)
    ensures
        v@ == binding_json(binding.stream_id@, binding.bus_id@),
{
    let mut members: Vec<Vec<char>> = Vec::new();
    members.push(member("stream_id", binding.stream_id.as_str()));
    members.push(member("bus_id", binding.bus_id.as_str()));
    assert(crate::text::views(members@) =~= seq![
        text_member("stream_id"@, binding.stream_id@),
        text_member("bus_id"@, binding.bus_id@),
    ]);
    json::object(&members)
}

fn encode_bindings(bindings: &Vec<PublishBusBinding>) -> (v: Vec<char>)
    ensures
        v@ == bindings_json(bindings@),
{
    let mut items: Vec<Vec<char>> = Vec::new();
    let mut i: usize = 0;
    while i < bindings.len()
        invariant
            i <= bindings@.len(),
            items@.len() == i,
            forall|j: int|
                0 <= j < i ==> (#[trigger] items@[j])@ == binding_json(
                    bindings@[j].stream_id@,
                    bindings@[j].bus_id@,
                ),
        decreases bindings.len() - i,
    {
        items.push(encode_binding(&bindings[i]));
        i = i + 1;
    }
    assert(crate::text::views(items@) =~= bindings@.map_values(
        |b: PublishBusBinding| binding_json(b.stream_id@, b.bus_id@),
    ));
    json::array(&items)
}

impl PublishMsg {
    /// The message on the wire.
    pub fn encode(&self) -> (text: String)
        ensures
            text@ == crate::json::json_object(publish_members(*self)),
    {
        let mut members: Vec<Vec<char>> = Vec::new();
        members.push(member("type", self.msg_type.as_str()));
        members.push(member("room_id", self.room_id.as_str()));
        members.push(member("token", self.token.as_str()));
        members.push(member("sdp_offer", self.sdp_offer.as_str()));
        if let Some(bus_id) = &self.bus_id {
            members.push(member("bus_id", bus_id.as_str()));
        }
        if self.publish_buses.len() > 0 {
            members.push(json::member("publish_buses", encode_bindings(&self.publish_buses)));
        }
        assert(crate::text::views(members@) =~= publish_members(*self));
        let text = json::object(&members);
        from_chars(text.as_slice())
    }
}

impl LeaveMsg {
    /// The notice for a room.
    pub fn new(room_id: &str) -> (msg: LeaveMsg)
        ensures
            msg.msg_type@ == "LEAVE"@,
            msg.room_id@ == room_id@,
    {
        LeaveMsg { msg_type: "LEAVE".to_owned(), room_id: room_id.to_owned() }
    }

    /// The message on the wire.
    pub fn encode(&self) -> (text: String)
        ensures
            text@ == crate::json::json_object(leave_members(*self)),
    {
        let mut members: Vec<Vec<char>> = Vec::new();
        members.push(member("type", self.msg_type.as_str()));
        members.push(member("room_id", self.room_id.as_str()));
        assert(crate::text::views(members@) =~= leave_members(*self));
        let text = json::object(&members);
        from_chars(text.as_slice())
    }
}

// What the relay sends.

/// A message of the relay. Fields that it does not carry are empty.
#[derive(Debug, Clone, PartialEq, Eq)]
pub struct ServerMsg {
    pub msg_type: String,
    pub sdp_answer: String,
    pub candidate: String,
    pub code: String,
    pub message: String,
}

/// What a message of the relay holds.
pub struct ServerMsgView {
    pub msg_type: Seq<char>,
    pub sdp_answer: Seq<char>,
    pub candidate: Seq<char>,
    pub code: Seq<char>,
    pub message: Seq<char>,
}

impl View for ServerMsg {
    type V = ServerMsgView;

    open spec fn view(&self) -> ServerMsgView {
        ServerMsgView {
            msg_type: self.msg_type@,
            sdp_answer: self.sdp_answer@,
            candidate: self.candidate@,
            code: self.code@,
            message: self.message@,
        }
    }
}

/// What a message means while the answer is awaited.
pub enum AnswerEvent {
    Answer,
    EmptyAnswer,
    Candidate,
    Refused,
    Other,
}

pub open spec fn answer_event(msg: ServerMsgView) -> AnswerEvent {
    if msg.msg_type == "SDP_ANSWER"@ {
        if msg.sdp_answer.len() == 0 {
            AnswerEvent::EmptyAnswer
        } else {
            AnswerEvent::Answer
        }
    } else if carries_candidate(msg) {
        AnswerEvent::Candidate
    } else if msg.msg_type == "ERROR"@ {
        AnswerEvent::Refused
    } else {
        AnswerEvent::Other
    }
}

/// Whether a message brings a candidate of the relay.
pub open spec fn carries_candidate(msg: ServerMsgView) -> bool {
    msg.msg_type == "ICE"@ && msg.candidate.len() > 0
}

pub open spec fn refusal_text(msg: ServerMsgView) -> Seq<char> {
    "relay error "@ + msg.code + ": "@ + msg.message
}

/// The candidate that a message brings.
pub fn candidate_of(msg: &ServerMsg) -> (r: Option<&str>)
    ensures
        r is Some <==> carries_candidate(msg@),
        r matches Some(candidate) ==> candidate@ == msg@.candidate,
{
    if text_eq(msg.msg_type.as_str(), "ICE") && msg.candidate.as_str().unicode_len() > 0 {
        Some(msg.candidate.as_str())
    } else {
        None
    }
}

/// The relay's answer, with the candidates that came before it. They may race ahead
/// on a fast connection and must not be lost: without them no connection comes about.
#[derive(Debug, Clone, PartialEq, Eq)]
pub struct SignalingAnswer {
    pub sdp_answer: String,
    pub early_candidates: Vec<String>,
}

/// Waits for the relay's answer.
pub struct AnswerWait {
    early_candidates: Vec<String>,
}

impl View for AnswerWait {
    type V = Seq<Seq<char>>;

    /// The candidates so far, in order.
    closed spec fn view(&self) -> Seq<Seq<char>> {
        crate::ice_server::string_views(self.early_candidates@)
    }
}

/// How the wait goes on.
pub enum AnswerStep {
    Waiting,
    Answered(SignalingAnswer),
    Failed(String),
}

impl AnswerWait {
    pub fn new() -> (wait: AnswerWait)
        ensures
            wait@ == Seq::<Seq<char>>::empty(),
    {
        let wait = AnswerWait { early_candidates: Vec::new() };
        assert(wait@ =~= Seq::<Seq<char>>::empty());
        wait
    }

    /// Takes the next message. What could not be read as a message is given as none and
    /// passed over.
    pub fn receive(&mut self, msg: Option<ServerMsg>) -> (step: AnswerStep)
        ensures
            msg is None ==> step is Waiting && final(self)@ == old(self)@,
            msg matches Some(msg) ==> match answer_event(msg@) {
                AnswerEvent::Answer => {
                    &&& step matches AnswerStep::Answered(answer)
                    &&& answer.sdp_answer@ == msg@.sdp_answer
                    &&& crate::ice_server::string_views(answer.early_candidates@) == old(self)@
                    &&& final(self)@ == Seq::<Seq<char>>::empty()
                },
                AnswerEvent::EmptyAnswer => {
                    &&& step matches AnswerStep::Failed(message)
                    &&& message@ == "SDP_ANSWER received but sdp_answer field is empty"@
                    &&& final(self)@ == old(self)@
                },
                AnswerEvent::Candidate => {
                    &&& step is Waiting
                    &&& final(self)@ == old(self)@.push(msg@.candidate)
                },
                AnswerEvent::Refused => {
                    &&& step matches AnswerStep::Failed(message)
                    &&& message@ == refusal_text(msg@)
                    &&& final(self)@ == old(self)@
                },
                AnswerEvent::Other => step is Waiting && final(self)@ == old(self)@,
            },
    {
        let msg = match msg {
            Some(msg) => msg,
            None => {
                return AnswerStep::Waiting;
            },
        };
        if text_eq(msg.msg_type.as_str(), "SDP_ANSWER") {
            if msg.sdp_answer.as_str().unicode_len() == 0 {
                return AnswerStep::Failed(
                    "SDP_ANSWER received but sdp_answer field is empty".to_owned(),
                );
            }
            let mut early_candidates: Vec<String> = Vec::new();
            early_candidates.append(&mut self.early_candidates);
            assert(early_candidates@ =~= old(self).early_candidates@);
            assert(self@ =~= Seq::<Seq<char>>::empty());
            return AnswerStep::Answered(
                SignalingAnswer { sdp_answer: msg.sdp_answer, early_candidates },
            );
        }
        if let Some(candidate) = candidate_of(&msg) {
            let candidate = candidate.to_owned();
            self.early_candidates.push(candidate);
            assert(self@ =~= old(self)@.push(msg@.candidate));
            return AnswerStep::Waiting;
        }
        if text_eq(msg.msg_type.as_str(), "ERROR") {
            let mut message = to_chars("relay error ");
            append_str(&mut message, msg.code.as_str());
            append_str(&mut message, ": ");
            append_str(&mut message, msg.message.as_str());
            return AnswerStep::Failed(from_chars(message.as_slice()));
        }
        AnswerStep::Waiting
    }
}

// What holds of the wait as a whole.

/// The candidates among the messages, in order.
pub open spec fn candidates(msgs: Seq<ServerMsgView>) -> Seq<Seq<char>>
    decreases msgs.len(),
{
    if msgs.len() == 0 {
        Seq::empty()
    } else if carries_candidate(msgs.last()) {
        candidates(msgs.drop_last()).push(msgs.last().candidate)
    } else {
        candidates(msgs.drop_last())
    }
}

/// Whether the wait goes on through all these messages.
pub open spec fn keeps_waiting(msgs: Seq<ServerMsgView>) -> bool {
    forall|i: int|
        0 <= i < msgs.len() ==> {
            let event = #[trigger] answer_event(msgs[i]);
            event is Candidate || event is Other
        }
}

/// The candidates that a wait has kept after a run of messages.
pub open spec fn kept(start: Seq<Seq<char>>, msgs: Seq<ServerMsgView>) -> Seq<Seq<char>>
    decreases msgs.len(),
{
    if msgs.len() == 0 {
        start
    } else {
        let before = kept(start, msgs.drop_last());
        if answer_event(msgs.last()) is Candidate {
            before.push(msgs.last().candidate)
        } else {
            before
        }
    }
}

/// No candidate that comes before the answer is lost or moved.
pub proof fn early_candidates_are_kept(msgs: Seq<ServerMsgView>)
    requires
        keeps_waiting(msgs),
    ensures
        kept(Seq::empty(), msgs) == candidates(msgs),
    decreases msgs.len(),
{
    if msgs.len() > 0 {
        assert forall|i: int| 0 <= i < msgs.drop_last().len() implies ({
            let event = #[trigger] answer_event(msgs.drop_last()[i]);
            event is Candidate || event is Other
        }) by {
            assert(msgs.drop_last()[i] == msgs[i]);
        }
        early_candidates_are_kept(msgs.drop_last());
        let event = answer_event(msgs[msgs.len() - 1]);
        assert(event is Candidate || event is Other);
    }
}

/// A message means what its type says: an answer is one where it has a text, a candidate is
/// one where it has a text, an error refuses, and all else is passed over.
pub proof fn messages_mean_what_their_type_says(msg: ServerMsgView)
    ensures
        answer_event(msg) == AnswerEvent::Answer <==> msg.msg_type == "SDP_ANSWER"@
            && msg.sdp_answer.len() > 0,
        answer_event(msg) == AnswerEvent::EmptyAnswer <==> msg.msg_type == "SDP_ANSWER"@
            && msg.sdp_answer.len() == 0,
        answer_event(msg) == AnswerEvent::Candidate <==> msg.msg_type == "ICE"@
            && msg.candidate.len() > 0,
        answer_event(msg) == AnswerEvent::Refused <==> msg.msg_type == "ERROR"@,
        carries_candidate(msg) <==> msg.msg_type == "ICE"@ && msg.candidate.len() > 0,
{
    reveal_strlit("SDP_ANSWER");
    reveal_strlit("ICE");
    reveal_strlit("ERROR");
    assert("SDP_ANSWER"@.len() == 10 && "ICE"@.len() == 3 && "ERROR"@.len() == 5);
}

} // verus!
