use std::time::{Duration, Instant};

use pocketstation::{
    AudioInputConfig, OutputCancelResult, OutputGeneration, SampleFormat, SampleSpec, Session,
};
use pocketstation_relay::audio::latency_profile::LatencyProfile;
use pocketstation_relay::audio::opus_worker::EncodedAudioFrame;
use pocketstation_relay::bounded_queue::{BoundedQueue, ReceiveOutcome, SendOutcome};
use pocketstation_relay::frame_publisher::publish_lanes;
use pocketstation_relay::ice_server::RelayIceServer;
use pocketstation_relay::rtc::address::{
    candidate_host, ipv4_address, prefer_ipv4, reflexive_candidate, HostAddress, SocketAddress,
};
use pocketstation_relay::rtc::handshake::{
    check_media, handshake_timeout_message, next_handshake_step, offer_text, publish_media,
    publish_request, read_answer, read_early_candidate, read_late_candidate, startup_deadline,
    HandshakeEvent, HandshakeStep, PollResult, PublishMedia,
    ReadResult,
};
use pocketstation_relay::rtc::network::{
    probe_authority, resolution_budget, resolved_addresses, signaling_endpoint, signaling_url,
    url_endpoint, ConnectAttempts, ConnectStep, Resolution, SignalingUrlError,
};
use pocketstation_relay::rtc::publish_loop::{
    classify_signaling_read, level_extension, next_publish_step, ping_is_due, PublishEvent,
    PublishStep, SignalRead,
};
use pocketstation_relay::rtc::publisher::{
    try_recv_frame, NoFrame, PublishLane, Publisher, PublisherBacklogPolicy,
};
use pocketstation_relay::rtc::sdp::{merge_params, munge_opus_params, munge_opus_stereo, Param};
use pocketstation_relay::rtc::signaling::{
    candidate_of, AnswerStep, AnswerWait, LeaveMsg, PublishBusBinding, PublishMsg, ServerMsg,
};
use pocketstation_relay::rtc::stun::{
    authorities_to_probe, binding_request, parse_binding_response, stun_endpoint, stun_wait,
};
use pocketstation_relay::rtc::types::{drain_step, DrainStep, EngineOutput, Transmission};
use pocketstation_relay::runtime::{RelayStreamProfile, StreamPlan};
use serde_json::Value;
use str0m::change::SdpAnswer;
use str0m::media::{Direction, Frequency, MediaKind, MediaTime};
use str0m::{Candidate, Rtc};

// Offers.

#[test]
fn given_opus_with_existing_fmtp_when_munged_then_stereo_params_added_and_existing_kept() {
    let sdp = "v=0\r\nm=audio 9 UDP/TLS/RTP/SAVPF 111\r\n\
               a=rtpmap:111 opus/48000/2\r\na=fmtp:111 minptime=10;useinbandfec=1\r\n";
    let out = munge_opus_stereo(sdp);
    assert!(
        out.contains("sprop-stereo=1"),
        "must declare sprop-stereo: {out}"
    );
    assert!(out.contains("stereo=1"), "must declare stereo: {out}");
    assert!(
        out.contains("maxaveragebitrate=131072"),
        "must cap bitrate: {out}"
    );
    assert!(
        out.contains("minptime=10"),
        "must keep existing params: {out}"
    );
    assert!(
        out.contains("useinbandfec=0"),
        "must disable FEC for low-latency live receive: {out}"
    );
}

#[test]
fn given_opus_without_fmtp_when_munged_then_fmtp_line_inserted() {
    let sdp = "v=0\r\nm=audio 9 UDP/TLS/RTP/SAVPF 111\r\na=rtpmap:111 opus/48000/2\r\n";
    let out = munge_opus_stereo(sdp);
    assert!(
        out.contains("a=fmtp:111 "),
        "must insert an fmtp line: {out}"
    );
    assert!(out.contains("sprop-stereo=1"), "{out}");
}

#[test]
fn given_no_opus_when_munged_then_unchanged() {
    let sdp = "v=0\r\nm=audio 9 UDP/TLS/RTP/SAVPF 8\r\na=rtpmap:8 PCMA/8000\r\n";
    assert_eq!(munge_opus_stereo(sdp), sdp);
}

#[test]
fn given_already_stereo_when_munged_twice_then_idempotent() {
    let sdp = "v=0\r\nm=audio 9 UDP/TLS/RTP/SAVPF 111\r\n\
               a=rtpmap:111 opus/48000/2\r\na=fmtp:111 minptime=10\r\n";
    let once = munge_opus_stereo(sdp);
    let twice = munge_opus_stereo(&once);
    assert_eq!(once, twice, "munge must be idempotent");
    assert_eq!(
        twice.matches("sprop-stereo=1").count(),
        1,
        "no duplicate params: {twice}"
    );
}

#[test]
fn munged_offers_are_exact() {
    assert_eq!(
        munge_opus_params(
            "a=rtpmap:111 opus/48000/2\r\na=fmtp:111 x;stereo=1; y=2;;\r\n",
            false,
            65_536
        ),
        "a=rtpmap:111 opus/48000/2\r\na=fmtp:111 x;stereo=0;y=2;minptime=10;useinbandfec=0;\
         sprop-stereo=0;maxaveragebitrate=65536\r\n"
    );
    assert_eq!(
        munge_opus_params("a=rtpmap:96 OPUS/48000\nb\n", true, 1),
        "a=rtpmap:96 OPUS/48000\na=fmtp:96 minptime=10;useinbandfec=0;sprop-stereo=1;stereo=1;\
         maxaveragebitrate=1\nb\n"
    );
}

fn media(stereo: bool, kbps: u32, stream_id: &str) -> PublishMedia {
    PublishMedia {
        stereo,
        max_avg_bitrate_kbps: kbps,
        stream_id: stream_id.to_owned(),
    }
}

#[test]
fn every_value_of_a_wanted_parameter_is_replaced() {
    assert_eq!(
        munge_opus_params(
            "a=rtpmap:111 opus/48000/2\r\na=fmtp:111 stereo=0;x=1;stereo=0\r\n",
            true,
            131_072
        ),
        "a=rtpmap:111 opus/48000/2\r\na=fmtp:111 stereo=1;x=1;stereo=1;minptime=10;\
         useinbandfec=0;sprop-stereo=1;maxaveragebitrate=131072\r\n"
    );
    let param = |key: &str, value: &str| Param {
        key: key.chars().collect(),
        value: value.chars().collect(),
    };
    let existing = "stereo=0;stereo=0".chars().collect::<Vec<_>>();
    let merged = merge_params(&existing, &vec![param("stereo", "1")]);
    assert_eq!(merged.into_iter().collect::<String>(), "stereo=1;stereo=1");
    let merged = merge_params(&[], &vec![param("stereo", "1"), param("x", "")]);
    assert_eq!(merged.into_iter().collect::<String>(), "stereo=1;x");
}

#[test]
fn mapping_lines_without_a_line_end_get_a_format_line() {
    let params = "minptime=10;useinbandfec=0;sprop-stereo=1;stereo=1;maxaveragebitrate=131072";
    let out = munge_opus_params("v=0\r\na=rtpmap:111 opus/48000/2", true, 131_072);
    assert_eq!(
        out.lines().collect::<Vec<_>>(),
        ["v=0", "a=rtpmap:111 opus/48000/2", &format!("a=fmtp:111 {params}")]
    );
    assert_eq!(munge_opus_params(&out, true, 131_072), out);
    assert_eq!(
        munge_opus_params(" a=rtpmap:111 opus/48000/2\n", true, 131_072),
        format!(" a=rtpmap:111 opus/48000/2\na=fmtp:111 {params}\n")
    );
    assert_eq!(
        munge_opus_params("a=rtpmap:111 opus/48000/2\na=rtpmap:111 \r\n", true, 131_072),
        format!(
            "a=rtpmap:111 opus/48000/2\na=fmtp:111 {params}\n\
             a=rtpmap:111 \r\na=fmtp:111 {params}\r\n"
        )
    );
    assert_eq!(
        munge_opus_params("a=rtpmap:111 opus/48000/2\r", true, 131_072),
        format!("a=rtpmap:111 opus/48000/2\r\na=fmtp:111 {params}\r\n")
    );
}

#[test]
fn offers_declare_each_medium_in_its_section() {
    let sdp = "v=0\r\ns=-\r\n\
               m=audio 9 UDP/TLS/RTP/SAVPF 111\r\na=mid:a\r\na=rtpmap:111 opus/48000/2\r\n\
               a=fmtp:111 minptime=10;useinbandfec=1\r\n\
               m=audio 9 UDP/TLS/RTP/SAVPF 111\r\na=mid:b\r\na=rtpmap:111 opus/48000/2\r\n\
               m=audio 9 UDP/TLS/RTP/SAVPF 111\r\na=mid:c\r\na=rtpmap:111 opus/48000/2";
    let all = vec![media(false, 24, "voice"), media(true, 128, "music")];
    assert_eq!(
        offer_text(sdp, &all),
        "v=0\r\ns=-\r\n\
         m=audio 9 UDP/TLS/RTP/SAVPF 111\r\na=mid:a\r\na=rtpmap:111 opus/48000/2\r\n\
         a=fmtp:111 minptime=10;useinbandfec=0;sprop-stereo=0;stereo=0;\
         maxaveragebitrate=24576\r\n\
         m=audio 9 UDP/TLS/RTP/SAVPF 111\r\na=mid:b\r\na=rtpmap:111 opus/48000/2\r\n\
         a=fmtp:111 minptime=10;useinbandfec=0;sprop-stereo=1;stereo=1;\
         maxaveragebitrate=131072\r\n\
         m=audio 9 UDP/TLS/RTP/SAVPF 111\r\na=mid:c\r\na=rtpmap:111 opus/48000/2"
    );
    assert_eq!(offer_text("v=0\r\n", &all), "v=0\r\n");
    assert_eq!(offer_text("", &all), "");
    assert!(check_media(&all).is_ok());
    assert_eq!(
        check_media(&Vec::new()).unwrap_err(),
        "relay handshake requires at least one AudioBus"
    );
}

#[test]
fn engine_offers_declare_each_medium_in_its_section() {
    let mut rtc = Rtc::builder()
        .clear_codecs()
        .enable_opus(true, false)
        .build(Instant::now());
    let all = vec![media(false, 24, "voice"), media(true, 128, "music")];
    let mut change = rtc.sdp_api();
    for item in &all {
        change.add_media(
            MediaKind::Audio,
            Direction::SendOnly,
            Some(item.stream_id.clone()),
            Some(item.stream_id.clone()),
            None,
        );
    }
    let (offer, _) = change.apply().unwrap();
    let text = offer_text(&offer.to_sdp_string(), &all);
    let sections = text.split("m=audio").skip(1).collect::<Vec<_>>();
    assert_eq!(sections.len(), 2);
    for (section, item) in sections.iter().zip(&all) {
        assert!(section.contains(&item.stream_id), "{section}");
        let flag = if item.stereo { 1 } else { 0 };
        let bits = item.max_avg_bitrate_kbps * 1024;
        assert!(section.contains(&format!(";sprop-stereo={flag};stereo={flag};")), "{section}");
        assert!(section.contains(&format!("maxaveragebitrate={bits}")), "{section}");
    }
}

#[test]
fn media_are_those_of_the_planned_streams() {
    let plan = |profile, stream_id: &str| StreamPlan {
        profile,
        latency_profile: LatencyProfile::Low,
        stream_id: stream_id.to_owned(),
    };
    let plans = vec![
        plan(RelayStreamProfile::VoiceMono20ms, "voice"),
        plan(RelayStreamProfile::MusicStereo20ms, "music"),
    ];
    assert_eq!(
        publish_media(&plans, &vec![24, 128]),
        vec![media(false, 24, "voice"), media(true, 128, "music")]
    );
}

#[test]
fn deadlines_that_the_clock_cannot_show_are_refused() {
    let now = Instant::now();
    let timeout = Duration::from_secs(30);
    assert_eq!(startup_deadline(now, timeout), Ok(now + timeout));
    assert_eq!(
        startup_deadline(now, Duration::MAX),
        Err("relay startup deadline overflow".to_owned())
    );
}

#[test]
fn the_engine_reads_what_the_relay_sends() {
    let mut publisher = Rtc::builder().build(Instant::now());
    let mut change = publisher.sdp_api();
    change.add_media(MediaKind::Audio, Direction::SendOnly, None, None, None);
    let (offer, _) = change.apply().unwrap();
    let mut relay = Rtc::builder().build(Instant::now());
    let text = relay.sdp_api().accept_offer(offer).unwrap().to_sdp_string();
    let answer = SdpAnswer::from_sdp_string(&text).unwrap();
    assert_eq!(read_answer(&text).unwrap(), answer);
    let refused = read_answer("no answer").unwrap_err();
    assert!(refused.starts_with("failed to parse SDP answer: ParseError(\""), "{refused}");

    let text = "candidate:1 1 udp 2113929471 203.0.113.100 10100 typ host";
    let candidate = Candidate::from_sdp_string(text).unwrap();
    assert_eq!(read_early_candidate(text), Ok(candidate.clone()));
    assert_eq!(read_late_candidate(text), Some(candidate));
    assert_eq!(
        read_early_candidate("x").unwrap_err(),
        "invalid buffered relay ICE candidate: \
         BadCandidate(\"x: missing 'candidate:' prefix\")"
    );
    assert!(read_late_candidate("x").is_none());
}

// Signaling.

#[test]
fn grouped_publish_uses_canonical_wire_names_without_legacy_bus() {
    let buses = vec![
        PublishBusBinding {
            stream_id: "application".to_owned(),
            bus_id: "application".to_owned(),
        },
        PublishBusBinding {
            stream_id: "microphone".to_owned(),
            bus_id: "microphone".to_owned(),
        },
    ];
    let text = PublishMsg {
        msg_type: "PUBLISH".to_owned(),
        room_id: "session".to_owned(),
        token: "secret".to_owned(),
        sdp_offer: "offer".to_owned(),
        bus_id: None,
        publish_buses: buses,
    }
    .encode();
    let encoded: Value = serde_json::from_str(&text).unwrap();

    assert!(encoded.get("bus_id").is_none());
    assert_eq!(encoded["publish_buses"][0]["stream_id"], "application");
    assert_eq!(encoded["publish_buses"][1]["bus_id"], "microphone");
    assert_eq!(
        text,
        "{\"type\":\"PUBLISH\",\"room_id\":\"session\",\"token\":\"secret\",\
         \"sdp_offer\":\"offer\",\"publish_buses\":[{\"stream_id\":\"application\",\
         \"bus_id\":\"application\"},{\"stream_id\":\"microphone\",\"bus_id\":\"microphone\"}]}"
    );
}

#[test]
fn messages_leave_out_what_they_do_not_carry() {
    let single = PublishMsg {
        msg_type: "PUBLISH".to_owned(),
        room_id: "r".to_owned(),
        token: "t".to_owned(),
        sdp_offer: "v=0\r\ns=\"q\"\\".to_owned(),
        bus_id: Some("b".to_owned()),
        publish_buses: Vec::new(),
    };
    assert_eq!(
        single.encode(),
        "{\"type\":\"PUBLISH\",\"room_id\":\"r\",\"token\":\"t\",\
         \"sdp_offer\":\"v=0\\r\\ns=\\\"q\\\"\\\\\",\"bus_id\":\"b\"}"
    );
    assert_eq!(
        LeaveMsg::new("room").encode(),
        "{\"type\":\"LEAVE\",\"room_id\":\"room\"}"
    );
    let request = publish_request("room", "token", "offer", &vec![media(true, 1, "bus")]);
    assert_eq!(request.msg_type, "PUBLISH");
    assert_eq!(request.bus_id, None);
    assert_eq!(request.publish_buses[0].stream_id, "bus");
    assert_eq!(request.publish_buses[0].bus_id, "bus");
}

fn server_msg(msg_type: &str) -> ServerMsg {
    ServerMsg {
        msg_type: msg_type.to_owned(),
        sdp_answer: String::new(),
        candidate: String::new(),
        code: String::new(),
        message: String::new(),
    }
}

#[test]
fn candidates_before_the_answer_are_kept_in_order() {
    let mut wait = AnswerWait::new();
    for candidate in ["one", "", "two"] {
        let msg = ServerMsg {
            candidate: candidate.to_owned(),
            ..server_msg("ICE")
        };
        assert_eq!(candidate_of(&msg).is_some(), !candidate.is_empty());
        assert!(matches!(wait.receive(Some(msg)), AnswerStep::Waiting));
    }
    assert!(matches!(wait.receive(None), AnswerStep::Waiting));
    assert!(matches!(
        wait.receive(Some(server_msg("PING"))),
        AnswerStep::Waiting
    ));
    let answer = ServerMsg {
        sdp_answer: "v=0".to_owned(),
        ..server_msg("SDP_ANSWER")
    };
    match wait.receive(Some(answer)) {
        AnswerStep::Answered(answer) => {
            assert_eq!(answer.sdp_answer, "v=0");
            assert_eq!(answer.early_candidates, vec!["one", "two"]);
        }
        _ => panic!("the answer ends the wait"),
    }
}

#[test]
fn refusals_and_empty_answers_end_the_wait() {
    let mut wait = AnswerWait::new();
    let refusal = ServerMsg {
        code: "401".to_owned(),
        message: "no".to_owned(),
        ..server_msg("ERROR")
    };
    match wait.receive(Some(refusal)) {
        AnswerStep::Failed(message) => assert_eq!(message, "relay error 401: no"),
        _ => panic!("a refusal ends the wait"),
    }
    match wait.receive(Some(server_msg("SDP_ANSWER"))) {
        AnswerStep::Failed(message) => {
            assert_eq!(message, "SDP_ANSWER received but sdp_answer field is empty");
        }
        _ => panic!("an empty answer ends the wait"),
    }
}

// Addresses.

const LOCAL: SocketAddress = SocketAddress {
    host: HostAddress::V4(0x0A00_0001),
    port: 4_000,
    flow_info: 0,
    scope_id: 0,
};

#[test]
fn ipv4_addresses_are_preferred() {
    let v6 = SocketAddress {
        host: HostAddress::V6(1),
        port: 80,
        flow_info: 0,
        scope_id: 7,
    };
    assert_eq!(prefer_ipv4(&vec![v6, LOCAL]), Some(LOCAL));
    assert_eq!(prefer_ipv4(&vec![v6]), Some(v6));
    assert_eq!(prefer_ipv4(&Vec::new()), None);
    assert!(HostAddress::V4(0x7F01_0203).is_loopback());
    assert!(!HostAddress::V4(0x8000_0001).is_loopback());
    assert!(HostAddress::V6(1).is_loopback());
    assert!(HostAddress::V6(0).is_unspecified());
    assert_eq!(candidate_host(HostAddress::V4(0), LOCAL.host), LOCAL.host);
    assert_eq!(candidate_host(v6.host, LOCAL.host), v6.host);
    assert_eq!(reflexive_candidate(LOCAL, Some(LOCAL)), None);
    assert_eq!(reflexive_candidate(LOCAL, Some(v6)), Some(v6));
    assert_eq!(reflexive_candidate(LOCAL, None), None);
}

// STUN.

#[test]
fn stun_servers_are_not_awaited_beyond_the_deadline() {
    let millis = Duration::from_millis;
    assert_eq!(stun_wait(millis(1_999)), millis(1_999));
    assert_eq!(stun_wait(millis(2_000)), millis(2_000));
    assert_eq!(stun_wait(Duration::MAX), millis(2_000));
    assert_eq!(stun_wait(Duration::ZERO), Duration::ZERO);
}

fn response(attributes: &[u8]) -> Vec<u8> {
    let mut bytes = vec![0x01, 0x01, 0, attributes.len() as u8, 0x21, 0x12, 0xA4, 0x42];
    bytes.extend_from_slice(b"pks-stun-prb");
    bytes.extend_from_slice(attributes);
    bytes
}

#[test]
fn binding_requests_are_exact() {
    let mut expected = vec![0, 1, 0, 0, 0x21, 0x12, 0xA4, 0x42];
    expected.extend_from_slice(b"pks-stun-prb");
    assert_eq!(binding_request().to_vec(), expected);
    assert_eq!(stun_endpoint("stun.example.com"), "stun.example.com:3478");
    assert_eq!(stun_endpoint("stun.example.com:99"), "stun.example.com:99");
}

#[test]
fn mapped_addresses_are_read() {
    // 192.0.2.1:32853, behind another attribute of odd length.
    let attributes = [
        0x80, 0x22, 0, 3, b'a', b'b', b'c', 0, 0x00, 0x20, 0, 8, 0, 1, 0xA1, 0x47, 0xE1, 0x12,
        0xA6, 0x43,
    ];
    let bytes = response(&attributes);
    assert_eq!(
        parse_binding_response(&bytes),
        Some(ipv4_address(0xC000_0201, 32_853))
    );
    for n in 0..bytes.len() {
        assert_eq!(parse_binding_response(&bytes[..n]), None);
    }
    let mut other = bytes.clone();
    other[0] = 0x01;
    other[1] = 0x11;
    assert_eq!(parse_binding_response(&other), None);
    let mut stranger = bytes;
    stranger[19] ^= 1;
    assert_eq!(parse_binding_response(&stranger), None);
    // IPv6 is passed over, and an attribute that is cut off maps to nothing.
    assert_eq!(
        parse_binding_response(&response(&[0, 0x20, 0, 8, 0, 2, 1, 2, 3, 4, 5, 6])),
        None
    );
    assert_eq!(
        parse_binding_response(&response(&[0, 0x20, 0, 8, 0, 1, 1, 2])),
        None
    );
}

#[test]
fn stun_servers_are_asked_in_turn() {
    let server = |urls: &[&str]| {
        RelayIceServer::new(urls.iter().map(|url| (*url).to_owned()).collect()).unwrap()
    };
    let servers = vec![server(&["stun:a", "stun://b:1"]), server(&["stun:c"])];
    assert_eq!(authorities_to_probe(&servers, LOCAL.host), vec!["a", "b:1", "c"]);
    assert!(authorities_to_probe(&servers, HostAddress::V6(1)).is_empty());
}

// The network.

#[test]
fn expired_resolution_deadline_fails_before_starting_network_work() {
    let deadline = Instant::now();
    let error = resolution_budget(deadline.checked_duration_since(
        deadline + Duration::from_nanos(1),
    ))
    .expect_err("expired DNS budget must fail");

    assert!(error.to_string().contains("startup deadline"));
    assert_eq!(
        resolution_budget(Some(Duration::from_secs(2))),
        Ok(Duration::from_secs(2))
    );
}

#[test]
fn resolutions_are_classified() {
    assert_eq!(
        resolved_addresses(Resolution::Resolved(vec![LOCAL])),
        Ok(vec![LOCAL])
    );
    assert_eq!(
        resolved_addresses(Resolution::Resolved(Vec::new())).unwrap_err(),
        "relay name resolved to no addresses"
    );
    assert_eq!(
        resolved_addresses(Resolution::Failed("no such host".to_owned())).unwrap_err(),
        "no such host"
    );
    assert_eq!(
        resolved_addresses(Resolution::TimedOut).unwrap_err(),
        "relay name resolution exceeded its startup deadline"
    );
    assert_eq!(
        resolved_addresses(Resolution::Exited).unwrap_err(),
        "relay name resolver exited without a result"
    );
}

#[test]
fn relay_urls_lead_to_authorities_and_endpoints() {
    assert_eq!(probe_authority("https://relay.example.com"), "relay.example.com:80");
    assert_eq!(probe_authority("http://relay:8080/x/y"), "relay:8080");
    assert_eq!(probe_authority("https://http://wss://ws://h"), "h:80");
    assert_eq!(
        signaling_url("https://relay.example.com"),
        "wss://relay.example.com/v1/signal"
    );
    assert_eq!(signaling_url("http://relay:80"), "ws://relay:80/v1/signal");
    assert_eq!(
        signaling_endpoint("wss://relay.example.com/v1/signal"),
        Ok("relay.example.com:443".to_owned())
    );
    assert_eq!(
        signaling_endpoint("ws://127.0.0.1:9000/v1/signal"),
        Ok("127.0.0.1:9000".to_owned())
    );
    assert_eq!(
        signaling_endpoint("not a url"),
        Err(SignalingUrlError::Malformed("relative URL without a base".to_owned()))
    );
    assert_eq!(
        signaling_endpoint("data:text/plain,x"),
        Err(SignalingUrlError::NoHost)
    );
    assert_eq!(
        signaling_endpoint("unknown://host"),
        Err(SignalingUrlError::NoPort)
    );
    assert_eq!(
        signaling_endpoint("wss://:80/x").unwrap_err().message(),
        "empty host"
    );
    assert_eq!(
        SignalingUrlError::NoHost.message(),
        "relay signaling URL has no host"
    );
}

#[test]
fn hosts_with_colons_stand_in_brackets() {
    let parts = pocketstation_relay::boundary::UrlParts {
        scheme: "ws".to_owned(),
        host: Some("::1".to_owned()),
        cannot_be_a_base: false,
        path: "/".to_owned(),
        has_query: false,
        has_fragment: false,
        port_or_known_default: Some(80),
    };
    assert_eq!(url_endpoint(&parts), Ok("[::1]:80".to_owned()));
}

#[test]
fn addresses_are_tried_once_each_until_the_deadline() {
    let mut attempts = ConnectAttempts::new(2);
    assert!(matches!(attempts.next_step(false), ConnectStep::Try(0)));
    attempts.attempt_failed("refused".to_owned());
    assert!(matches!(attempts.next_step(false), ConnectStep::Try(1)));
    attempts.attempt_failed("unreachable".to_owned());
    match attempts.next_step(false) {
        ConnectStep::GiveUp(message) => {
            assert_eq!(message, "relay signaling connection failed: unreachable");
        }
        ConnectStep::Try(_) => panic!("no address is left"),
    }
    match ConnectAttempts::new(3).next_step(true) {
        ConnectStep::GiveUp(message) => assert_eq!(
            message,
            "relay signaling connection exceeded its startup deadline"
        ),
        ConnectStep::Try(_) => panic!("the deadline has passed"),
    }
}

// The handshake.

#[test]
fn handshakes_go_on_until_connected_failed_or_late() {
    let polled = |result| next_handshake_step(HandshakeEvent::Polled(result));
    assert!(matches!(polled(PollResult::Connected), HandshakeStep::Connected));
    assert!(matches!(polled(PollResult::Timeout), HandshakeStep::ReadDatagram));
    assert!(matches!(polled(PollResult::OtherEvent), HandshakeStep::Poll));
    assert!(matches!(
        polled(PollResult::Transmit(Transmission::WouldBlock)),
        HandshakeStep::Poll
    ));
    assert!(matches!(
        next_handshake_step(HandshakeEvent::DeadlinePassed),
        HandshakeStep::TimedOut
    ));
    assert!(matches!(
        next_handshake_step(HandshakeEvent::Datagram(ReadResult::Idle)),
        HandshakeStep::ReadSignal
    ));
    assert!(matches!(
        next_handshake_step(HandshakeEvent::Datagram(ReadResult::TimedOut("late".to_owned()))),
        HandshakeStep::ReadSignal
    ));
    assert!(matches!(
        next_handshake_step(HandshakeEvent::Signal(ReadResult::Received)),
        HandshakeStep::Poll
    ));
    match next_handshake_step(HandshakeEvent::Signal(ReadResult::Failed("gone".to_owned()))) {
        HandshakeStep::Failed(message) => {
            assert_eq!(message, "relay signaling connection failed: gone");
        }
        _ => panic!("a lost signaling connection ends the handshake"),
    }
    match next_handshake_step(HandshakeEvent::Datagram(ReadResult::Failed("udp".to_owned()))) {
        HandshakeStep::Failed(message) => assert_eq!(message, "udp"),
        _ => panic!("a lost socket ends the handshake"),
    }
    assert_eq!(
        handshake_timeout_message(30_000),
        "ICE/DTLS handshake exceeded the configured 30000 ms startup deadline"
    );
}

#[test]
fn engines_are_drained_to_their_timeout() {
    assert!(matches!(drain_step(EngineOutput::Timeout), DrainStep::Drained));
    assert!(matches!(drain_step(EngineOutput::Event), DrainStep::PollAgain));
    assert!(matches!(
        drain_step(EngineOutput::Transmit(Transmission::WouldBlock)),
        DrainStep::PollAgain
    ));
    let failure = |output| match drain_step(output) {
        DrainStep::Failed(message) => message,
        _ => panic!("the engine has failed"),
    };
    assert_eq!(
        failure(EngineOutput::Failed("Dtls(CloseNotify)".to_owned())),
        "relay closed DTLS connection"
    );
    assert_eq!(
        failure(EngineOutput::Failed("Ice".to_owned())),
        "poll_output: Ice"
    );
    assert_eq!(
        failure(EngineOutput::Transmit(Transmission::Failed("io".to_owned()))),
        "io"
    );
}

// The publisher.

fn encoded_frame(rtp_samples: u64) -> EncodedAudioFrame {
    EncodedAudioFrame {
        payload: vec![rtp_samples.to_le_bytes()[0]],
        wallclock: Instant::now(),
        rtp_time: MediaTime::new(rtp_samples, Frequency::FORTY_EIGHT_KHZ),
        duration_samples: 960,
        audio_level: None,
        capture_timestamp_ns: 0,
        capture_age_ns: 0,
        output_generation: None,
    }
}

fn backlog() -> BoundedQueue<EncodedAudioFrame> {
    let mut queue = BoundedQueue::new(4);
    for rtp_samples in [0, 960, 1920] {
        assert!(matches!(
            queue.try_send(encoded_frame(rtp_samples)),
            SendOutcome::Sent
        ));
    }
    queue
}

#[test]
fn given_drop_stale_policy_when_encoded_backlog_then_freshest_frame_wins() {
    let mut rx = backlog();

    let (freshest, stale_drops) =
        try_recv_frame(&mut rx, PublisherBacklogPolicy::DropStale).unwrap();

    assert_eq!(freshest.payload, vec![1920_u64.to_le_bytes()[0]]);
    assert_eq!(
        freshest.rtp_time,
        MediaTime::new(1920, Frequency::FORTY_EIGHT_KHZ)
    );
    assert_eq!(stale_drops, 2);
}

#[test]
fn given_preserve_policy_when_encoded_backlog_then_oldest_frame_wins() {
    let mut rx = backlog();

    let (oldest, stale_drops) = try_recv_frame(&mut rx, PublisherBacklogPolicy::Preserve).unwrap();

    assert_eq!(
        oldest.rtp_time,
        MediaTime::new(0, Frequency::FORTY_EIGHT_KHZ)
    );
    assert_eq!(stale_drops, 0);
    for rtp_samples in [960, 1920] {
        match rx.try_recv() {
            ReceiveOutcome::Item(frame) => assert_eq!(
                frame.rtp_time,
                MediaTime::new(rtp_samples, Frequency::FORTY_EIGHT_KHZ)
            ),
            _ => panic!("the backlog is preserved"),
        }
    }
}

#[test]
fn given_remote_signaling_close_when_classified_then_publication_fails() {
    for read in [SignalRead::CloseMessage, SignalRead::ConnectionClosed] {
        let error = classify_signaling_read(read)
            .expect_err("remote close must not look like a clean local stop");

        assert!(error.to_string().contains("closed during publication"));
    }
}

#[test]
fn given_signaling_read_timeout_when_classified_then_publication_continues() {
    classify_signaling_read(SignalRead::TimedOut)
        .expect("bounded idle timeout is not a transport failure");
    classify_signaling_read(SignalRead::WouldBlock)
        .expect("bounded idle timeout is not a transport failure");
    assert_eq!(
        classify_signaling_read(SignalRead::Failed("reset".to_owned())).unwrap_err(),
        "relay signaling connection failed: reset"
    );
}

#[test]
fn empty_queues_say_whether_more_will_come() {
    let mut queue = BoundedQueue::new(1);
    for policy in [
        PublisherBacklogPolicy::for_latency_profile(LatencyProfile::Low),
        PublisherBacklogPolicy::for_latency_profile(LatencyProfile::Standard),
    ] {
        assert_eq!(try_recv_frame(&mut queue, policy).err(), Some(NoFrame::Empty));
    }
    queue.close_sender();
    assert_eq!(
        try_recv_frame(&mut queue, PublisherBacklogPolicy::DropStale).err(),
        Some(NoFrame::Disconnected)
    );
    assert_eq!(
        PublisherBacklogPolicy::for_latency_profile(LatencyProfile::Low),
        PublisherBacklogPolicy::DropStale
    );
}

fn lanes(frames: &[&[u64]]) -> Vec<PublishLane> {
    frames
        .iter()
        .map(|frames| {
            let mut lane = PublishLane::new(8, PublisherBacklogPolicy::Preserve);
            for rtp_samples in *frames {
                lane.queue.try_send(encoded_frame(*rtp_samples));
            }
            lane
        })
        .collect()
}

#[test]
fn lanes_take_turns() {
    let mut lanes = lanes(&[&[1, 2, 3], &[4], &[], &[5, 6]]);
    let mut publisher = Publisher::new(4).unwrap();
    let mut order = Vec::new();
    while let Some((index, frame)) = publisher.select_frame(&mut lanes) {
        order.push((index, frame.payload[0]));
        publisher.frame_written(index, frame.payload.len() as u64);
    }
    assert_eq!(order, vec![(0, 1), (1, 4), (3, 5), (0, 2), (3, 6), (0, 3)]);
    assert!(!publisher.all_disconnected());
    for lane in &mut lanes {
        lane.queue.close_sender();
    }
    assert!(publisher.select_frame(&mut lanes).is_none());
    assert!(publisher.all_disconnected());
    publisher.drained();
    let stats = publisher.finish(Duration::from_millis(5));
    assert_eq!(stats.writes, 6);
    assert_eq!(stats.drains, 7);
    assert_eq!(stats.streams[0].rtp_sent, 3);
    assert_eq!(stats.streams[2].bytes_sent, 0);
    assert_eq!(stats.elapsed, Duration::from_millis(5));
    assert_eq!(
        Publisher::new(0).err().unwrap(),
        "relay publisher requires at least one encoded AudioBus"
    );
}

fn output_generation() -> OutputGeneration {
    let spec = SampleSpec::new(48_000, 1, SampleFormat::F32Interleaved);
    let session = Session::builder().sample_spec(spec).build();
    let input = session
        .audio_input(AudioInputConfig::new(spec, 2, 960).expect("valid output input"))
        .expect("output input");
    input.begin_output_generation().expect("output generation")
}

#[test]
fn cancelled_output_is_not_published_while_other_buses_go_on() {
    let mut lanes = lanes(&[&[], &[9]]);
    let generation = output_generation();
    for rtp_samples in [1, 2] {
        let mut frame = encoded_frame(rtp_samples);
        frame.output_generation = Some(generation.clone());
        lanes[0].queue.try_send(frame);
    }
    lanes[0].queue.try_send(encoded_frame(3));
    let mut publisher = Publisher::new(2).unwrap();
    let (index, frame) = publisher.select_frame(&mut lanes).unwrap();
    assert_eq!((index, frame.payload[0]), (0, 1));
    publisher.frame_written(index, 1);
    assert_eq!(generation.cancel(), OutputCancelResult::Cancelled);
    let (index, frame) = publisher.select_frame(&mut lanes).unwrap();
    assert_eq!((index, frame.payload[0]), (1, 9));
    publisher.frame_written(index, 1);
    let (index, frame) = publisher.select_frame(&mut lanes).unwrap();
    assert_eq!((index, frame.payload[0]), (0, 3));
    assert_eq!(lanes[0].counters.cancelled_output_frames, 1);
    assert_eq!(lanes[1].counters.cancelled_output_frames, 0);
    assert!(publisher.select_frame(&mut lanes).is_none());
}

#[test]
fn lanes_are_as_deep_as_their_latency_allows() {
    let plan = |latency_profile| StreamPlan {
        profile: RelayStreamProfile::VoiceMono20ms,
        latency_profile,
        stream_id: "bus".to_owned(),
    };
    let mut lanes = publish_lanes(&vec![plan(LatencyProfile::Low), plan(LatencyProfile::Standard)]);
    assert_eq!(lanes[0].backlog_policy, PublisherBacklogPolicy::DropStale);
    assert_eq!(lanes[1].backlog_policy, PublisherBacklogPolicy::Preserve);
    for (lane, depth) in lanes.iter_mut().zip([2, 8]) {
        let mut sent = 0;
        while let SendOutcome::Sent = lane.queue.try_send(encoded_frame(0)) {
            sent += 1;
        }
        assert_eq!(sent, depth);
    }
}

#[test]
fn fresh_lanes_count_what_they_skip() {
    let mut lanes = lanes(&[&[1, 2, 3]]);
    lanes[0].backlog_policy = PublisherBacklogPolicy::DropStale;
    let mut publisher = Publisher::new(1).unwrap();
    let (_, frame) = publisher.select_frame(&mut lanes).unwrap();
    assert_eq!(frame.payload, vec![3]);
    assert_eq!(lanes[0].counters.publisher_stale_drops, 2);
}

#[test]
fn publishers_drain_after_every_change() {
    for event in [
        PublishEvent::Ticked,
        PublishEvent::Datagram(ReadResult::Received),
        PublishEvent::FrameWritten,
    ] {
        assert!(matches!(next_publish_step(event), PublishStep::Drain));
    }
    let step = |event| next_publish_step(event);
    assert!(matches!(
        step(PublishEvent::Began { timer_is_due: true }),
        PublishStep::Tick
    ));
    assert!(matches!(
        step(PublishEvent::Began {
            timer_is_due: false
        }),
        PublishStep::ReadDatagram
    ));
    assert!(matches!(
        step(PublishEvent::Datagram(ReadResult::Idle)),
        PublishStep::SelectFrame
    ));
    match step(PublishEvent::Datagram(ReadResult::TimedOut("late".to_owned()))) {
        PublishStep::Failed(message) => assert_eq!(message, "late"),
        _ => panic!("the publisher's socket does not wait"),
    }
    let nothing = |all_disconnected, ping_is_due| {
        step(PublishEvent::NoFrame {
            all_disconnected,
            ping_is_due,
        })
    };
    assert!(matches!(nothing(true, true), PublishStep::Stop));
    assert!(matches!(nothing(false, true), PublishStep::Ping));
    assert!(matches!(nothing(false, false), PublishStep::ReadSignal));
    assert!(matches!(step(PublishEvent::Pinged), PublishStep::ReadSignal));
    assert!(matches!(step(PublishEvent::Drained), PublishStep::Begin));
    assert!(matches!(
        step(PublishEvent::Signal(SignalRead::OtherMessage)),
        PublishStep::Begin
    ));
    assert!(matches!(
        step(PublishEvent::Signal(SignalRead::CloseMessage)),
        PublishStep::Failed(_)
    ));
    assert!(!ping_is_due(Duration::from_millis(44_999)));
    assert!(ping_is_due(Duration::from_secs(45)));
    assert_eq!(level_extension(Some(39)), Some((-39, true)));
    assert_eq!(level_extension(Some(127)), Some((-127, false)));
    assert_eq!(level_extension(None), None);
}
