use std::time::Duration;

use pocketstation::connector::{ConnectorConfigurationValue, ConnectorSecret};
use pocketstation::graph::NodeConfig;
use pocketstation_relay::boundary::{UrlParts, MAX_SECRET_BYTES};
use pocketstation_relay::configuration::is_relay_origin;
use pocketstation_relay::configuration_error::SecretFault;
use pocketstation_relay::ice_server::{
    decode_ice_servers, encode_ice_servers, same_servers, stun_authority, WireIceServer,
};
use pocketstation_relay::{
    RelayConfigurationError, RelayIceServer, RelayLatencyProfile, RelayRouteConfiguration,
    MAX_ICE_SERVERS, MAX_ICE_SERVER_URLS,
};

fn secret(text: &str) -> ConnectorSecret {
    ConnectorSecret::new(text).expect("secret")
}

fn route() -> RelayRouteConfiguration {
    RelayRouteConfiguration::new(
        "https://relay.example.com".to_owned(),
        "session-a".to_owned(),
        secret("token"),
        "application".to_owned(),
    )
    .expect("route")
}

fn route_at(url: &str) -> Result<RelayRouteConfiguration, RelayConfigurationError> {
    RelayRouteConfiguration::new(
        url.to_owned(),
        "session-a".to_owned(),
        secret("token"),
        "application".to_owned(),
    )
}

fn server(urls: &[&str]) -> Result<RelayIceServer, RelayConfigurationError> {
    RelayIceServer::new(urls.iter().map(|url| (*url).to_owned()).collect())
}

fn wire(urls: &[&str]) -> WireIceServer {
    WireIceServer {
        urls: urls.iter().map(|url| (*url).to_owned()).collect(),
        username: None,
        credential: None,
    }
}

// STUN servers.

#[test]
fn stun_urls_have_an_authority() {
    assert_eq!(stun_authority("stun:stun.example.com:3478"), Some("stun.example.com:3478"));
    assert_eq!(stun_authority("stun://host"), Some("host"));
    for url in [
        "", "stun:", "stun://", "turn:host", "STUN:host", "stun:///x", "stun:a/b", "stun:a?b",
        "stun:a#b", "stun:u@h", "stun: a", "stun:a ", "stun:a\u{3000}",
    ] {
        assert_eq!(stun_authority(url), None, "{url}");
    }
    assert_eq!(stun_authority("stun:é:1"), Some("é:1"));
}

#[test]
fn servers_are_bounded_lists_of_stun_urls() {
    let good = server(&["stun:a", "stun:b:1"]).unwrap();
    assert_eq!(good.urls(), ["stun:a", "stun:b:1"]);
    assert_eq!(good.stun_authorities(), vec!["a", "b:1"]);
    assert_eq!(server(&[]), Err(RelayConfigurationError::InvalidIceServerCount));
    assert_eq!(MAX_ICE_SERVER_URLS, 8);
    assert!(server(&["stun:a"; 8]).is_ok());
    assert_eq!(
        server(&["bad"; 9]),
        Err(RelayConfigurationError::InvalidIceServerCount)
    );
    assert_eq!(
        server(&["stun:a", "turn:b"]),
        Err(RelayConfigurationError::InvalidIceServerUrl)
    );
    assert!(good.same_urls(&server(&["stun:a", "stun:b:1"]).unwrap()));
    assert!(!good.same_urls(&server(&["stun:b:1", "stun:a"]).unwrap()));
    assert!(same_servers(&vec![good.clone()], &vec![good.clone()]));
    assert!(!same_servers(&vec![good], &Vec::new()));
}

#[test]
fn stored_servers_read_back() {
    let servers = vec![server(&["stun:a", "stun:q\"uote"]).unwrap(), server(&["stun:b"]).unwrap()];
    let encoded = encode_ice_servers(&servers);
    assert_eq!(
        encoded,
        "[{\"urls\":[\"stun:a\",\"stun:q\\\"uote\"],\"username\":null,\"credential\":null},\
         {\"urls\":[\"stun:b\"],\"username\":null,\"credential\":null}]"
    );
    assert_eq!(encode_ice_servers(&Vec::new()), "[]");
    let decoded =
        decode_ice_servers(Some(vec![wire(&["stun:a", "stun:q\"uote"]), wire(&["stun:b"])]));
    assert_eq!(decoded, Ok(servers));
}

#[test]
fn stored_servers_are_checked() {
    assert_eq!(
        decode_ice_servers(None),
        Err(RelayConfigurationError::InvalidIceServerEncoding)
    );
    assert_eq!(MAX_ICE_SERVERS, 16);
    let many: Vec<WireIceServer> = (0..17).map(|_| wire(&["bad"])).collect();
    assert_eq!(
        decode_ice_servers(Some(many)),
        Err(RelayConfigurationError::InvalidIceServerCount)
    );
    for (username, credential) in [(Some("u"), None), (None, Some("c"))] {
        let turn = WireIceServer {
            username: username.map(str::to_owned),
            credential: credential.map(str::to_owned),
            ..wire(&[])
        };
        assert_eq!(
            decode_ice_servers(Some(vec![wire(&["stun:a"]), turn])),
            Err(RelayConfigurationError::InvalidIceCredential)
        );
    }
    assert_eq!(
        decode_ice_servers(Some(vec![wire(&[])])),
        Err(RelayConfigurationError::InvalidIceServerCount)
    );
}

// Routes.

#[test]
fn fresh_routes_have_defaults() {
    let route = route();
    assert_eq!(route.bus_id(), "application");
    assert_eq!(route.publisher_group_id(), "session-a");
    assert_eq!(route.latency_profile(), RelayLatencyProfile::Standard);
    assert_eq!(route.startup_timeout(), Duration::from_secs(30));
    assert_eq!(route.relay_url(), "https://relay.example.com");
    assert_eq!(route.relay_session_id(), "session-a");
    assert_eq!(route.source_token().expose_secret(), "token");
    assert!(route.ice_servers().is_empty());
}

#[test]
fn relay_urls_are_origins() {
    for url in [
        "http://relay",
        "https://relay.example.com/",
        "HTTPS://relay:8443",
        "http://[::1]:80/",
    ] {
        assert!(route_at(url).is_ok(), "{url}");
    }
    for url in [
        "",
        "  ",
        "relay.example.com",
        "ftp://relay",
        "https://relay/path",
        "https://relay?x",
        "https://relay#x",
        "https://",
        "mailto:a@b",
    ] {
        assert_eq!(
            route_at(url).err(),
            Some(RelayConfigurationError::InvalidRelayUrl),
            "{url}"
        );
    }
    let parts = |scheme: &str, path: &str| UrlParts {
        scheme: scheme.to_owned(),
        host: Some("h".to_owned()),
        cannot_be_a_base: false,
        path: path.to_owned(),
        has_query: false,
        has_fragment: false,
        port_or_known_default: None,
    };
    assert!(is_relay_origin(&parts("http", "")));
    assert!(is_relay_origin(&parts("https", "/")));
    assert!(!is_relay_origin(&parts("ws", "/")));
    assert!(!is_relay_origin(&parts("http", "//")));
    assert!(!is_relay_origin(&UrlParts {
        host: None,
        ..parts("http", "/")
    }));
    assert!(!is_relay_origin(&UrlParts {
        has_query: true,
        ..parts("http", "/")
    }));
}

#[test]
fn identities_are_finite_and_not_blank() {
    let named = |session: &str, bus: &str| {
        RelayRouteConfiguration::new(
            "https://relay".to_owned(),
            session.to_owned(),
            secret("token"),
            bus.to_owned(),
        )
        .err()
    };
    assert_eq!(named(" \u{a0}", "b"), Some(RelayConfigurationError::InvalidIdentity));
    assert_eq!(
        named(&"s".repeat(257), "b"),
        Some(RelayConfigurationError::InvalidIdentity)
    );
    assert_eq!(named("s", "no spaces"), Some(RelayConfigurationError::InvalidBusId));
    assert!(route().with_publisher_group("g".repeat(256)).is_ok());
    for group in [String::new(), "g".repeat(257), "é".repeat(129)] {
        assert_eq!(
            route().with_publisher_group(group).err(),
            Some(RelayConfigurationError::InvalidIdentity)
        );
    }
}

#[test]
fn startup_deadlines_are_bounded() {
    for millis in [1, 120_000] {
        let timeout = Duration::from_millis(millis);
        assert_eq!(route().with_startup_timeout(timeout).unwrap().startup_timeout(), timeout);
    }
    for timeout in [
        Duration::ZERO,
        Duration::from_micros(999),
        Duration::new(120, 1),
        Duration::from_micros(120_000_999),
        Duration::from_millis(120_001),
        Duration::MAX,
    ] {
        assert_eq!(
            route().with_startup_timeout(timeout).err(),
            Some(RelayConfigurationError::InvalidStartupTimeout)
        );
    }
}

#[test]
fn routes_hold_at_most_sixteen_servers() {
    let servers = |n: usize| (0..n).map(|_| server(&["stun:a"]).unwrap()).collect::<Vec<_>>();
    assert_eq!(route().with_ice_servers(servers(16)).unwrap().ice_servers().len(), 16);
    assert_eq!(
        route().with_ice_servers(servers(17)).err(),
        Some(RelayConfigurationError::InvalidIceServerCount)
    );
}

#[test]
fn publishers_are_shared_whatever_the_bus_and_the_latency() {
    let other_bus = RelayRouteConfiguration::new(
        "https://relay.example.com".to_owned(),
        "session-a".to_owned(),
        secret("token"),
        "microphone".to_owned(),
    )
    .unwrap();
    assert!(route().same_publisher(&other_bus.with_low_latency()));
    assert!(!route().same_publisher(&route_at("https://other").unwrap()));
    assert!(!route().same_publisher(&route().with_publisher_group("g".to_owned()).unwrap()));
    assert!(!route()
        .same_publisher(&route().with_startup_timeout(Duration::from_millis(5)).unwrap()));
    let stun = route().with_ice_servers(vec![server(&["stun:a"]).unwrap()]).unwrap();
    assert!(!route().same_publisher(&stun));
    assert!(stun.same_publisher(&stun.clone()));
    let other_token = RelayRouteConfiguration::new(
        "https://relay.example.com".to_owned(),
        "session-a".to_owned(),
        secret("other"),
        "application".to_owned(),
    )
    .unwrap();
    assert!(!route().same_publisher(&other_token));
}

// The stored forms.

#[test]
fn routes_are_handed_to_core_with_their_secrets_marked() {
    let configuration = route()
        .with_ice_servers(vec![server(&["stun:a"]).unwrap()])
        .unwrap()
        .with_low_latency()
        .connector_configuration()
        .unwrap();
    assert_eq!(configuration.len(), 8);
    assert_eq!(
        configuration.get("relay_url"),
        Some(&ConnectorConfigurationValue::Text("https://relay.example.com".to_owned()))
    );
    assert_eq!(
        configuration.get("latency_profile"),
        Some(&ConnectorConfigurationValue::Text("low".to_owned()))
    );
    assert_eq!(
        configuration.get("source_token"),
        Some(&ConnectorConfigurationValue::Secret(secret("token")))
    );
    assert_eq!(
        configuration.get("startup_timeout_ms"),
        Some(&ConnectorConfigurationValue::DurationMilliseconds(30_000))
    );
    assert_eq!(
        configuration.get("ice_servers"),
        Some(&ConnectorConfigurationValue::Secret(secret(
            "[{\"urls\":[\"stun:a\"],\"username\":null,\"credential\":null}]"
        )))
    );
    assert_eq!(route().connector_configuration().unwrap().len(), 7);
}

#[test]
fn servers_that_take_too_many_bytes_are_no_secret() {
    let long = format!("stun:{}", "h".repeat(3_000));
    let huge = server(&[long.as_str(); 8]).unwrap();
    assert_eq!(
        route()
            .with_ice_servers(vec![huge])
            .unwrap()
            .connector_configuration()
            .err(),
        Some(RelayConfigurationError::ConnectorConfiguration(
            SecretFault::TooLarge
        ))
    );
}

fn node() -> NodeConfig {
    NodeConfig::new()
        .with("relay_url", "https://relay.example.com")
        .with("relay_session_id", "session-a")
        .with_sensitive("source_token", "token")
        .with("bus_id", "application")
        .with("publisher_group_id", "group")
}

fn read(node: &NodeConfig) -> Result<RelayRouteConfiguration, RelayConfigurationError> {
    RelayRouteConfiguration::from_node_config(node, None)
}

#[test]
fn routes_are_read_from_core() {
    let route = read(&node()).unwrap();
    assert_eq!(route.publisher_group_id(), "group");
    assert_eq!(route.latency_profile(), RelayLatencyProfile::Standard);
    assert_eq!(route.startup_timeout(), Duration::from_millis(30_000));
    let full = node()
        .with("latency_profile", "low")
        .with("startup_timeout_ms", "+250")
        .with_sensitive("ice_servers", "(decoded elsewhere)");
    let route =
        RelayRouteConfiguration::from_node_config(&full, Some(vec![wire(&["stun:a"])])).unwrap();
    assert_eq!(route.latency_profile(), RelayLatencyProfile::Low);
    assert_eq!(route.startup_timeout(), Duration::from_millis(250));
    assert_eq!(route.ice_servers()[0].urls(), ["stun:a"]);
    assert_eq!(
        read(&full).err(),
        Some(RelayConfigurationError::InvalidIceServerEncoding)
    );
}

#[test]
fn each_fault_of_a_stored_route_is_told() {
    let missing = |field| Some(RelayConfigurationError::MissingField(field));
    assert_eq!(read(&NodeConfig::new()).err(), missing("source_token"));
    assert_eq!(
        read(&node().with_sensitive("source_token", " \t")).err(),
        missing("source_token")
    );
    assert_eq!(
        read(&node().with("source_token", "token")).err(),
        Some(RelayConfigurationError::SecretNotSensitive("source_token"))
    );
    for timeout in ["", "1.5", "-1", "18446744073709551616", "0", "120001"] {
        assert_eq!(
            read(&node().with("startup_timeout_ms", timeout)).err(),
            Some(RelayConfigurationError::InvalidStartupTimeout),
            "{timeout}"
        );
    }
    for field in ["relay_url", "relay_session_id", "bus_id", "publisher_group_id"] {
        assert_eq!(read(&node().with(field, " ")).err(), missing(field));
    }
    assert_eq!(
        read(&node().with_sensitive("source_token", &"t".repeat(MAX_SECRET_BYTES + 1))).err(),
        Some(RelayConfigurationError::ConnectorConfiguration(
            SecretFault::TooLarge
        ))
    );
    assert_eq!(
        read(&node().with("latency_profile", "Low")).err(),
        Some(RelayConfigurationError::InvalidLatencyProfile)
    );
    assert_eq!(
        read(&node().with("bus_id", "a b")).err(),
        Some(RelayConfigurationError::InvalidBusId)
    );
}

#[test]
fn messages_name_the_fault() {
    assert_eq!(
        RelayConfigurationError::MissingField("bus_id").message(),
        "relay connector configuration is missing required field 'bus_id'"
    );
    assert_eq!(
        RelayConfigurationError::SecretNotSensitive("source_token").message(),
        "relay connector secret field 'source_token' was not marked sensitive"
    );
    assert_eq!(
        RelayConfigurationError::InvalidRelayUrl.message(),
        "relay URL must be an absolute HTTP or HTTPS origin"
    );
    let core = ConnectorSecret::new("").err().unwrap().to_string();
    assert_eq!(
        RelayConfigurationError::ConnectorConfiguration(SecretFault::Empty).message(),
        core
    );
    let core = ConnectorSecret::new("x".repeat(MAX_SECRET_BYTES + 1)).err().unwrap().to_string();
    assert_eq!(
        RelayConfigurationError::ConnectorConfiguration(SecretFault::TooLarge).message(),
        core
    );
    assert!(ConnectorSecret::new("x".repeat(MAX_SECRET_BYTES)).is_ok());
}

#[test]
fn latency_profiles_have_names() {
    for profile in [RelayLatencyProfile::Standard, RelayLatencyProfile::Low] {
        assert_eq!(RelayLatencyProfile::parse(profile.as_str()), Ok(profile));
    }
    assert_eq!(
        RelayLatencyProfile::parse("STANDARD"),
        Err(RelayConfigurationError::InvalidLatencyProfile)
    );
}

#[test]
fn debug_output_marks_the_token() {
    let route = RelayRouteConfiguration::new(
        "https://relay.example.com".to_owned(),
        "session-a".to_owned(),
        secret("never-shown"),
        "application".to_owned(),
    )
    .unwrap()
    .with_ice_servers(vec![server(&["stun:a:1"]).unwrap()])
    .unwrap();
    assert_eq!(
        format!("{route:?}"),
        "RelayRouteConfiguration { relay_url: \"https://relay.example.com\", \
         relay_session_id: \"session-a\", source_token: \"<redacted>\", \
         bus_id: \"application\", publisher_group_id: \"session-a\", \
         latency_profile: Standard, ice_servers: [RelayIceServer { urls: [\"stun:a:1\"] }], \
         startup_timeout: 30s }"
    );
    let pretty = format!("{route:#?}");
    assert!(pretty.contains("    source_token: \"<redacted>\",\n"), "{pretty}");
    assert!(!pretty.contains("never-shown"), "{pretty}");
    let other = RelayRouteConfiguration::new(
        "https://relay.example.com".to_owned(),
        "session-a".to_owned(),
        secret("another"),
        "application".to_owned(),
    )
    .unwrap()
    .with_ice_servers(vec![server(&["stun:a:1"]).unwrap()])
    .unwrap();
    assert_eq!(format!("{other:?}"), format!("{route:?}"));
    assert_eq!(format!("{other:#?}"), pretty);
}
