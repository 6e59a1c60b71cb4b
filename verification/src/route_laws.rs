//! What holds of routes and STUN servers, said of their texts.
use vstd::prelude::*;

use crate::boundary::ConfigurationEntry;
use crate::configuration::{RelayLatencyProfile, RelayRouteConfiguration, RouteView};
use crate::configuration_error::{RelayConfigurationError, SecretFault};
use crate::ice_server::WireIceServerView;

verus! {

// STUN URLs.

/// Whether a text can stand as host and port: it is not empty, has no white space at its
/// ends, and no mark of a path, a query, a fragment or a user.
pub open spec fn is_host_and_port(a: Seq<char>) -> bool {
    &&& a.len() > 0
    &&& !crate::text::white_space(a[0])
    &&& !crate::text::white_space(a.last())
    &&& !a.contains('/')
    &&& !a.contains('?')
    &&& !a.contains('#')
    &&& !a.contains('@')
}

/// Whether a text is the STUN URL of that host and port.
pub open spec fn is_stun_url(raw: Seq<char>, a: Seq<char>) -> bool {
    is_host_and_port(a) && (raw == "stun:"@ + a || raw == "stun://"@ + a)
}

/// Trimming takes white space off the ends of a text and nothing else, and leaves none there.
pub proof fn trimming_takes_only_white_space(s: Seq<char>) -> (k: int)
    ensures
        0 <= k <= k + crate::text::trim(s).len() <= s.len(),
        crate::text::trim(s) == s.subrange(k, k + crate::text::trim(s).len()),
        forall|i: int| 0 <= i < k ==> crate::text::white_space(#[trigger] s[i]),
        forall|i: int|
            k + crate::text::trim(s).len() <= i < s.len() ==> crate::text::white_space(
                #[trigger] s[i],
            ),
        crate::text::trim(s).len() > 0 ==> !crate::text::white_space(crate::text::trim(s)[0])
            && !crate::text::white_space(crate::text::trim(s).last()),
    decreases s.len(),
{
    if s.len() > 0 && crate::text::white_space(s[0]) {
        let rest = s.drop_first();
        let j = trimming_takes_only_white_space(rest);
        let n = crate::text::trim(s).len() as int;
        assert(rest.subrange(j, j + n) =~= s.subrange(j + 1, j + 1 + n));
        assert forall|i: int| 0 <= i < j + 1 implies crate::text::white_space(#[trigger] s[i]) by {
            if i > 0 {
                assert(rest[i - 1] == s[i]);
            }
        }
        assert forall|i: int| j + 1 + n <= i < s.len() implies crate::text::white_space(
            #[trigger] s[i],
        ) by {
            assert(rest[i - 1] == s[i]);
        }
        j + 1
    } else {
        lemma_trim_end(s);
        0
    }
}

proof fn lemma_trim_end(s: Seq<char>)
    ensures
        crate::text::trim_end(s).len() <= s.len(),
        crate::text::trim_end(s) == s.subrange(0, crate::text::trim_end(s).len() as int),
        forall|i: int|
            crate::text::trim_end(s).len() <= i < s.len() ==> crate::text::white_space(
                #[trigger] s[i],
            ),
        crate::text::trim_end(s).len() > 0 ==> !crate::text::white_space(
            crate::text::trim_end(s).last(),
        ),
    decreases s.len(),
{
    let n = crate::text::trim_end(s).len() as int;
    if s.len() > 0 && crate::text::white_space(s.last()) {
        let front = s.drop_last();
        lemma_trim_end(front);
        assert(front.subrange(0, n) =~= s.subrange(0, n));
        assert forall|i: int| n <= i < s.len() implies crate::text::white_space(#[trigger] s[i]) by {
            if i < s.len() - 1 {
                assert(front[i] == s[i]);
            }
        }
    } else {
        assert(s.subrange(0, n) =~= s);
    }
}

proof fn lemma_is_authority(a: Seq<char>)
    ensures
        crate::ice_server::is_authority(a) <==> is_host_and_port(a),
{
    if is_host_and_port(a) {
        assert forall|i: int| 0 <= i < a.len() implies !crate::ice_server::outside_authority(
            #[trigger] a[i],
        ) by {
            assert(a.contains(a[i]));
        }
        assert(crate::text::trim(a) == a);
    }
    if crate::ice_server::is_authority(a) {
        let k = trimming_takes_only_white_space(a);
        assert forall|c: char| a.contains(c) implies !crate::ice_server::outside_authority(c) by {
            let i = choose|i: int| 0 <= i < a.len() && a[i] == c;
            assert(!crate::ice_server::outside_authority(a[i]));
        }
        assert(crate::ice_server::outside_authority('/'));
        assert(crate::ice_server::outside_authority('?'));
        assert(crate::ice_server::outside_authority('#'));
        assert(crate::ice_server::outside_authority('@'));
    }
}

/// A text names a STUN server exactly where it is `stun:`, with two slashes or none, before
/// the server's host and port.
pub proof fn stun_urls_name_their_server(raw: Seq<char>, a: Seq<char>)
    ensures
        crate::ice_server::authority_of(raw) == Some(a) <==> is_stun_url(raw, a),
{
    reveal_strlit("stun:");
    reveal_strlit("stun://");
    reveal_strlit("//");
    let mark = "stun:"@;
    let slashes = "//"@;
    lemma_is_authority(a);
    assert("stun://"@ =~= mark + slashes);
    if crate::ice_server::authority_of(raw) == Some(a) {
        let rest = raw.skip(5);
        assert(raw =~= mark + rest) by {
            assert forall|i: int| 0 <= i < 5 implies raw[i] == mark[i] by {
                assert(raw.take(5)[i] == mark[i]);
            }
        }
        if crate::text::starts_with(rest, slashes) {
            assert(rest =~= slashes + a) by {
                assert(rest.take(2)[0] == '/' && rest.take(2)[1] == '/');
            }
            assert(raw =~= "stun://"@ + a);
        } else {
            assert(rest == a);
        }
    }
    if is_stun_url(raw, a) {
        if raw == mark + a {
            assert(raw.take(5) =~= mark);
            assert(raw.skip(5) =~= a);
            assert(!crate::text::starts_with(a, slashes)) by {
                if crate::text::starts_with(a, slashes) {
                    assert(a.take(2)[0] == '/');
                    assert(a.contains(a[0]));
                }
            }
        } else {
            assert(raw.take(5) =~= mark);
            assert(raw.skip(5) =~= slashes + a);
            assert((slashes + a).take(2) =~= slashes);
            assert((slashes + a).skip(2) =~= a);
        }
    }
}

/// Whether a text is the STUN URL of some host and port.
pub open spec fn is_any_stun_url(raw: Seq<char>) -> bool {
    exists|a: Seq<char>| is_stun_url(raw, a)
}

proof fn lemma_any_stun_url(raw: Seq<char>)
    ensures
        crate::ice_server::authority_of(raw) is Some <==> is_any_stun_url(raw),
{
    if crate::ice_server::authority_of(raw) is Some {
        let a = crate::ice_server::authority_of(raw)->0;
        stun_urls_name_their_server(raw, a);
        assert(is_stun_url(raw, a));
    }
    if is_any_stun_url(raw) {
        let a = choose|a: Seq<char>| is_stun_url(raw, a);
        stun_urls_name_their_server(raw, a);
    }
}

/// Whether a list of URLs makes a server: one to eight STUN URLs.
pub open spec fn is_server(urls: Seq<Seq<char>>) -> bool {
    &&& 1 <= urls.len() <= 8
    &&& forall|i: int| 0 <= i < urls.len() ==> is_any_stun_url(#[trigger] urls[i])
}

/// A server is made of one to eight STUN URLs, and of nothing else.
pub proof fn servers_are_made_of_stun_urls(urls: Seq<Seq<char>>)
    ensures
        crate::ice_server::server_fault(urls) is None <==> is_server(urls),
{
    if is_server(urls) {
        assert forall|i: int| 0 <= i < urls.len() implies crate::ice_server::authority_of(
            #[trigger] urls[i],
        ) is Some by {
            lemma_any_stun_url(urls[i]);
        }
    }
    if crate::ice_server::server_fault(urls) is None {
        assert forall|i: int| 0 <= i < urls.len() implies is_any_stun_url(#[trigger] urls[i]) by {
            assert(crate::ice_server::authority_of(urls[i]) is Some);
            lemma_any_stun_url(urls[i]);
        }
    }
}

proof fn lemma_first_server_fault(servers: Seq<Seq<Seq<char>>>)
    ensures
        crate::ice_server::first_server_fault(servers) is None <==> forall|i: int|
            0 <= i < servers.len() ==> is_server(#[trigger] servers[i]),
    decreases servers.len(),
{
    if servers.len() > 0 {
        let rest = servers.drop_first();
        lemma_first_server_fault(rest);
        servers_are_made_of_stun_urls(servers[0]);
        if crate::ice_server::first_server_fault(servers) is None {
            assert forall|i: int| 0 <= i < servers.len() implies is_server(#[trigger] servers[i]) by {
                if i > 0 {
                    assert(rest[i - 1] == servers[i]);
                }
            }
        } else if crate::ice_server::server_fault(servers[0]) is None {
            let i = choose|i: int| 0 <= i < rest.len() && !is_server(#[trigger] rest[i]);
            assert(servers[i + 1] == rest[i]);
        } else {
            assert(!is_server(servers[0]));
        }
    }
}

/// The host and port of each URL are probed, in the order of the servers and their URLs, and
/// nothing else is.
pub proof fn servers_are_probed_in_order(servers: Seq<Seq<Seq<char>>>, n: int, m: int, a: Seq<char>)
    requires
        forall|i: int| 0 <= i < servers.len() ==> is_server(#[trigger] servers[i]),
        0 <= n < servers.len(),
        0 <= m < servers[n].len(),
        is_stun_url(servers[n][m], a),
    ensures
        ({
            let before = servers.take(n).flatten().len() + m;
            &&& crate::rtc::stun::all_authorities(servers).len() == servers.flatten().len()
            &&& before < servers.flatten().len()
            &&& crate::rtc::stun::all_authorities(servers)[before as int] == a
        }),
    decreases servers.len(),
{
    let front = servers.drop_last();
    let last = servers.last();
    let all = crate::rtc::stun::all_authorities(servers);
    assert(front.push(last) =~= servers);
    front.lemma_flatten_push(last);
    assert(is_server(servers[servers.len() - 1]));
    lemma_server_authorities(last);
    assert forall|i: int| 0 <= i < front.len() implies is_server(#[trigger] front[i]) by {
        assert(front[i] == servers[i]);
    }
    lemma_all_authorities_len(front);
    if n < front.len() {
        assert(front[n] == servers[n]);
        assert(front.take(n) =~= servers.take(n));
        servers_are_probed_in_order(front, n, m, a);
    } else {
        assert(servers.take(n) =~= front);
        assert(servers[n] == last);
        stun_urls_name_their_server(last[m], a);
        assert(crate::ice_server::authority_of(last[m]) == Some(
            crate::ice_server::authorities_of(last)[m],
        ));
    }
}

proof fn lemma_server_authorities(urls: Seq<Seq<char>>)
    requires
        is_server(urls),
    ensures
        crate::ice_server::authorities_of(urls).len() == urls.len(),
        forall|i: int|
            0 <= i < urls.len() ==> crate::ice_server::authority_of(urls[i]) == Some(
                #[trigger] crate::ice_server::authorities_of(urls)[i],
            ),
{
    servers_are_made_of_stun_urls(urls);
    crate::ice_server::valid_servers_probe_every_url(urls);
}

proof fn lemma_all_authorities_len(servers: Seq<Seq<Seq<char>>>)
    requires
        forall|i: int| 0 <= i < servers.len() ==> is_server(#[trigger] servers[i]),
    ensures
        crate::rtc::stun::all_authorities(servers).len() == servers.flatten().len(),
    decreases servers.len(),
{
    if servers.len() > 0 {
        let front = servers.drop_last();
        let last = servers.last();
        assert(front.push(last) =~= servers);
        front.lemma_flatten_push(last);
        assert(is_server(servers[servers.len() - 1]));
        lemma_server_authorities(last);
        assert forall|i: int| 0 <= i < front.len() implies is_server(#[trigger] front[i]) by {
            assert(front[i] == servers[i]);
        }
        lemma_all_authorities_len(front);
    }
}

/// A stored list of servers is read exactly where it has at most sixteen entries, each of
/// them a server without user name and credential. What is read are the URLs of the entries.
pub proof fn stored_servers_carry_no_credentials(wire: Seq<WireIceServerView>)
    ensures
        crate::ice_server::decoded_servers(Some(wire)) is Ok <==> wire.len() <= 16 && forall|i: int|
            0 <= i < wire.len() ==> !(#[trigger] wire[i]).has_username && !wire[i].has_credential
                && is_server(wire[i].urls),
        crate::ice_server::decoded_servers(Some(wire)) matches Ok(servers) ==> {
            &&& servers.len() == wire.len()
            &&& forall|i: int| 0 <= i < wire.len() ==> (#[trigger] servers[i]) == wire[i].urls
        },
        wire.len() > 16 ==> crate::ice_server::decoded_servers(Some(wire)) == Err::<
            Seq<Seq<Seq<char>>>,
            RelayConfigurationError,
        >(RelayConfigurationError::InvalidIceServerCount),
        0 < wire.len() <= 16 && (wire[0].has_username || wire[0].has_credential)
            ==> crate::ice_server::decoded_servers(Some(wire)) == Err::<
            Seq<Seq<Seq<char>>>,
            RelayConfigurationError,
        >(RelayConfigurationError::InvalidIceCredential),
{
    lemma_first_wire_fault(wire);
}

proof fn lemma_first_wire_fault(wire: Seq<WireIceServerView>)
    ensures
        crate::ice_server::first_wire_fault(wire) is None <==> forall|i: int|
            0 <= i < wire.len() ==> !(#[trigger] wire[i]).has_username && !wire[i].has_credential
                && is_server(wire[i].urls),
    decreases wire.len(),
{
    if wire.len() > 0 {
        let rest = wire.drop_first();
        lemma_first_wire_fault(rest);
        servers_are_made_of_stun_urls(wire[0].urls);
        if crate::ice_server::first_wire_fault(wire) is None {
            assert forall|i: int| 0 <= i < wire.len() implies !(#[trigger] wire[i]).has_username
                && !wire[i].has_credential && is_server(wire[i].urls) by {
                if i > 0 {
                    assert(rest[i - 1] == wire[i]);
                }
            }
        } else if crate::ice_server::wire_fault(wire[0]) is None {
            let i = choose|i: int|
                0 <= i < rest.len() && !(!(#[trigger] rest[i]).has_username
                    && !rest[i].has_credential && is_server(rest[i].urls));
            assert(wire[i + 1] == rest[i]);
        } else {
            assert(!(!wire[0].has_username && !wire[0].has_credential && is_server(wire[0].urls)));
        }
    }
}

// Routes.

/// Whether a text is the label of an AudioBus: 1 to 64 bytes of letters, digits, dots,
/// underscores and hyphens.
pub open spec fn is_label(bus: Seq<char>) -> bool {
    &&& 0 < bus.len()
    &&& crate::text::byte_len(bus) <= 64
    &&& forall|i: int|
        0 <= i < bus.len() ==> {
            let c = #[trigger] bus[i];
            'a' <= c <= 'z' || 'A' <= c <= 'Z' || '0' <= c <= '9' || c == '.' || c == '_' || c
                == '-'
        }
}

/// A route is valid exactly where it names an HTTP or HTTPS origin, a Session and a group of
/// at most 256 bytes that say something, and an AudioBus by its label, with at most sixteen
/// STUN servers, and starts within one millisecond to two minutes.
pub proof fn routes_are_valid_exactly_so(route: RouteView)
    ensures
        crate::configuration::route_fault(route) is None <==> {
            &&& crate::boundary::url_parts(route.relay_url) matches Ok(parts)
            &&& parts.scheme == "http"@ || parts.scheme == "https"@
            &&& parts.host is Some
            &&& !parts.cannot_be_a_base
            &&& parts.path == ""@ || parts.path == "/"@
            &&& !parts.has_query && !parts.has_fragment
            &&& says_something(route.relay_url)
            &&& says_something(route.relay_session_id)
            &&& says_something(route.publisher_group_id)
            &&& crate::text::byte_len(route.publisher_group_id) <= 256
            &&& is_label(route.bus_id)
            &&& route.ice_servers.len() <= 16
            &&& forall|i: int|
                0 <= i < route.ice_servers.len() ==> is_server(#[trigger] route.ice_servers[i])
            &&& 1_000_000 <= route.startup_timeout_ns <= 120_000_000_000
        },
{
    lemma_first_server_fault(route.ice_servers);
    assert forall|s: Seq<char>| #[trigger] says_something(s) == !crate::text::blank(s) by {
        if !crate::text::blank(s) {
            let i = choose|i: int| 0 <= i < s.len() && !crate::text::white_space(#[trigger] s[i]);
            assert(!crate::text::white_space(s[i]));
        }
    }
    lemma_is_label(route.bus_id);
}

pub(crate) proof fn lemma_is_label(bus: Seq<char>)
    ensures
        crate::frame_publisher::is_bus_label(bus) == is_label(bus),
{
    if is_label(bus) {
        assert forall|i: int| 0 <= i < bus.len() implies crate::frame_publisher::bus_char(
            #[trigger] bus[i],
        ) by {}
    }
    if crate::frame_publisher::is_bus_label(bus) {
        assert forall|i: int| 0 <= i < bus.len() implies {
            let c = #[trigger] bus[i];
            'a' <= c <= 'z' || 'A' <= c <= 'Z' || '0' <= c <= '9' || c == '.' || c == '_' || c
                == '-'
        } by {
            assert(crate::frame_publisher::bus_char(bus[i]));
        }
    }
}

/// Whether a text holds a character that is no white space.
pub open spec fn says_something(s: Seq<char>) -> bool {
    exists|i: int| 0 <= i < s.len() && !crate::text::white_space(#[trigger] s[i])
}

/// A fresh route is its Session's own publisher group, has the standard latency and no STUN
/// servers, and starts within thirty seconds.
pub proof fn fresh_routes_have_defaults(
    relay_url: Seq<char>,
    relay_session_id: Seq<char>,
    source_token: Seq<char>,
    bus_id: Seq<char>,
)
    ensures
        ({
            let route = crate::configuration::fresh_route(
                relay_url,
                relay_session_id,
                source_token,
                bus_id,
            );
            &&& route.relay_url == relay_url
            &&& route.relay_session_id == relay_session_id
            &&& route.source_token == source_token
            &&& route.bus_id == bus_id
            &&& route.publisher_group_id == relay_session_id
            &&& route.latency_profile == RelayLatencyProfile::Standard
            &&& route.ice_servers.len() == 0
            &&& route.startup_timeout_ns == 30_000_000_000
        }),
{
}

/// What a valid route hands to Core stands under the names by which Core and the routes know
/// it: each setting under its own, the token and the STUN servers as secrets.
pub proof fn routes_are_stored_under_their_names(route: RouteView)
    requires
        crate::configuration::route_entries(route) is Ok,
    ensures
        ({
            let entries = crate::configuration::route_entries(route)->Ok_0;
            let ms = (route.startup_timeout_ns / 1_000_000) as u64;
            &&& crate::configuration::route_fault(route) is None
            &&& entries.contains_pair("relay_url"@, ConfigurationEntry::Text(route.relay_url))
            &&& entries.contains_pair(
                "relay_session_id"@,
                ConfigurationEntry::Text(route.relay_session_id),
            )
            &&& entries.contains_pair(
                "source_token"@,
                ConfigurationEntry::Secret(route.source_token),
            )
            &&& entries.contains_pair("bus_id"@, ConfigurationEntry::Text(route.bus_id))
            &&& entries.contains_pair(
                "publisher_group_id"@,
                ConfigurationEntry::Text(route.publisher_group_id),
            )
            &&& entries.contains_pair(
                "latency_profile"@,
                ConfigurationEntry::Text(
                    if route.latency_profile == RelayLatencyProfile::Low {
                        "low"@
                    } else {
                        "standard"@
                    },
                ),
            )
            &&& entries.contains_pair(
                "startup_timeout_ms"@,
                ConfigurationEntry::DurationMilliseconds(ms),
            )
            &&& entries.contains_key("ice_servers"@) <==> route.ice_servers.len() > 0
            &&& route.ice_servers.len() > 0 ==> entries["ice_servers"@] is Secret
        }),
{
    crate::configuration_laws::lemma_keys_differ();
}

/// A stored route is read from the names under which it is stored. A required setting that
/// is missing or blank is refused, and so is a profile that is not known.
pub proof fn routes_are_read_from_their_names(
    values: Map<Seq<char>, Seq<char>>,
    sensitive: Set<Seq<char>>,
    decoded: Option<Seq<WireIceServerView>>,
)
    ensures
        crate::configuration::stored_route(values, sensitive, decoded) matches Ok(route) ==> {
            &&& values.contains_pair("relay_url"@, route.relay_url)
            &&& values.contains_pair("relay_session_id"@, route.relay_session_id)
            &&& values.contains_pair("source_token"@, route.source_token)
            &&& sensitive.contains("source_token"@)
            &&& values.contains_pair("bus_id"@, route.bus_id)
            &&& values.contains_pair("publisher_group_id"@, route.publisher_group_id)
            &&& values.contains_key("latency_profile"@) ==> values["latency_profile"@] == (
            if route.latency_profile == RelayLatencyProfile::Low {
                "low"@
            } else {
                "standard"@
            })
            &&& values.contains_key("startup_timeout_ms"@) ==> crate::numeral::numeral_value(
                values["startup_timeout_ms"@],
            ) is Some && route.startup_timeout_ns == crate::numeral::numeral_value(
                values["startup_timeout_ms"@],
            )->0 * 1_000_000
            &&& values.contains_key("ice_servers"@) ==> decoded is Some && route.ice_servers.len()
                == decoded->0.len() && forall|i: int|
                0 <= i < route.ice_servers.len() ==> (#[trigger] route.ice_servers[i])
                    == decoded->0[i].urls
            &&& says_something(route.source_token)
            &&& crate::configuration::route_fault(route) is None
        },
{
    reveal_strlit("standard");
    reveal_strlit("low");
    if decoded is Some {
        stored_servers_carry_no_credentials(decoded->0);
    }
    if crate::configuration::stored_route(values, sensitive, decoded) is Ok {
        let token = values["source_token"@];
        let i = choose|i: int|
            0 <= i < token.len() && !crate::text::white_space(#[trigger] token[i]);
        assert(!crate::text::white_space(token[i]));
    }
}

/// Whether a text is an HTTP or HTTPS origin.
pub open spec fn is_origin(url: Seq<char>) -> bool {
    &&& says_something(url)
    &&& crate::boundary::url_parts(url) matches Ok(parts)
    &&& parts.scheme == "http"@ || parts.scheme == "https"@
    &&& parts.host is Some
    &&& !parts.cannot_be_a_base
    &&& parts.path == ""@ || parts.path == "/"@
    &&& !parts.has_query && !parts.has_fragment
}

/// Whether Session and group of a route say something, the group in at most 256 bytes.
pub open spec fn has_identity(route: RouteView) -> bool {
    &&& says_something(route.relay_session_id)
    &&& says_something(route.publisher_group_id)
    &&& crate::text::byte_len(route.publisher_group_id) <= 256
}

/// A route that is not valid is told what is wrong with it, in the order of origin, identity,
/// AudioBus, STUN servers and startup deadline.
pub proof fn routes_are_told_what_is_wrong(route: RouteView)
    ensures
        crate::configuration::route_fault(route) == Some(RelayConfigurationError::InvalidRelayUrl)
            <==> !is_origin(route.relay_url),
        crate::configuration::route_fault(route) == Some(RelayConfigurationError::InvalidIdentity)
            <==> is_origin(route.relay_url) && !has_identity(route),
        crate::configuration::route_fault(route) == Some(RelayConfigurationError::InvalidBusId)
            <==> is_origin(route.relay_url) && has_identity(route) && !is_label(route.bus_id),
        crate::configuration::route_fault(route) == Some(
            RelayConfigurationError::InvalidStartupTimeout,
        ) <==> is_origin(route.relay_url) && has_identity(route) && is_label(route.bus_id)
            && route.ice_servers.len() <= 16 && (forall|i: int|
            0 <= i < route.ice_servers.len() ==> is_server(#[trigger] route.ice_servers[i])) && !(
        1_000_000 <= route.startup_timeout_ns <= 120_000_000_000),
{
    routes_are_valid_exactly_so(route);
    lemma_first_server_fault(route.ice_servers);
    lemma_server_faults(route.ice_servers);
    assert forall|s: Seq<char>| #[trigger] says_something(s) == !crate::text::blank(s) by {
        if !crate::text::blank(s) {
            let i = choose|i: int| 0 <= i < s.len() && !crate::text::white_space(#[trigger] s[i]);
            assert(!crate::text::white_space(s[i]));
        }
    }
    let bus = route.bus_id;
    assert(crate::frame_publisher::is_bus_label(bus) == is_label(bus)) by {
        if is_label(bus) {
            assert forall|i: int| 0 <= i < bus.len() implies crate::frame_publisher::bus_char(
                #[trigger] bus[i],
            ) by {}
        }
        if crate::frame_publisher::is_bus_label(bus) {
            assert forall|i: int| 0 <= i < bus.len() implies {
                let c = #[trigger] bus[i];
                'a' <= c <= 'z' || 'A' <= c <= 'Z' || '0' <= c <= '9' || c == '.' || c == '_' || c
                    == '-'
            } by {
                assert(crate::frame_publisher::bus_char(bus[i]));
            }
        }
    }
}

/// What is wrong with servers is their number or one of their URLs.
proof fn lemma_server_faults(servers: Seq<Seq<Seq<char>>>)
    ensures
        crate::ice_server::first_server_fault(servers) matches Some(fault) ==> fault
            == RelayConfigurationError::InvalidIceServerCount || fault
            == RelayConfigurationError::InvalidIceServerUrl,
    decreases servers.len(),
{
    if servers.len() > 0 {
        lemma_server_faults(servers.drop_first());
    }
}

/// A server without a URL or with more than eight has the wrong number of them; one with
/// another number has a URL that is no STUN URL.
pub proof fn servers_are_told_what_is_wrong(urls: Seq<Seq<char>>)
    ensures
        crate::ice_server::server_fault(urls) == Some(
            RelayConfigurationError::InvalidIceServerCount,
        ) <==> urls.len() == 0 || urls.len() > 8,
        crate::ice_server::server_fault(urls) == Some(RelayConfigurationError::InvalidIceServerUrl)
            <==> 1 <= urls.len() <= 8 && !is_server(urls),
{
    servers_are_made_of_stun_urls(urls);
}

/// A route that is made is the one that was given, and is made exactly where nothing is wrong
/// with it; otherwise its first fault is said.
pub proof fn routes_are_made_as_given(route: RouteView)
    ensures
        crate::configuration::route_fault(route) is None <==> crate::configuration::checked(
            route,
        ) is Ok,
        crate::configuration::checked(route) matches Ok(made) ==> made == route,
        crate::configuration::checked(route) matches Err(error)
            ==> crate::configuration::route_fault(route) == Some(error),
{
}

/// What came of making a route is the view of the route that was made, or the error.
pub proof fn outcomes_show_what_was_made(
    r: Result<RelayRouteConfiguration, RelayConfigurationError>,
)
    ensures
        r matches Ok(route) ==> crate::configuration::outcome(r) == Ok::<
            RouteView,
            RelayConfigurationError,
        >(route@),
        r matches Err(error) ==> crate::configuration::outcome(r) == Err::<
            RouteView,
            RelayConfigurationError,
        >(error),
{
}

/// A latency profile is named by `standard` or by `low`, and by no other text.
pub proof fn profiles_have_one_name(name: Seq<char>)
    ensures
        crate::configuration::profile_named(name) == Some(RelayLatencyProfile::Standard) <==> name
            == "standard"@,
        crate::configuration::profile_named(name) == Some(RelayLatencyProfile::Low) <==> name
            == "low"@,
{
    crate::configuration::profile_names_round_trip(RelayLatencyProfile::Low);
}

/// A secret has at least one character and at most 16 KiB.
pub proof fn secrets_are_bounded(text: Seq<char>)
    ensures
        crate::configuration::secret_fault(text) is None <==> text.len() > 0
            && crate::text::byte_len(text) <= 16_384,
        text.len() == 0 ==> crate::configuration::secret_fault(text) == Some(SecretFault::Empty),
        crate::configuration::secret_fault(text) == Some(SecretFault::Empty) ==> text.len() == 0,
{
}

/// Whether a setting is there and says something.
pub open spec fn is_set(values: Map<Seq<char>, Seq<char>>, name: Seq<char>) -> bool {
    values.contains_key(name) && says_something(values[name])
}

proof fn lemma_is_set(values: Map<Seq<char>, Seq<char>>, name: Seq<char>)
    ensures
        crate::configuration::present(values, name) == is_set(values, name),
{
    let s = values[name];
    if !crate::text::blank(s) {
        let i = choose|i: int| 0 <= i < s.len() && !crate::text::white_space(#[trigger] s[i]);
        assert(!crate::text::white_space(s[i]));
    }
}

/// A stored route is read wherever its settings are there, the token is marked as sensitive
/// and is a secret, the optional settings can be read, and the route that they make has no
/// fault.
pub proof fn stored_routes_are_read(
    values: Map<Seq<char>, Seq<char>>,
    sensitive: Set<Seq<char>>,
    decoded: Option<Seq<WireIceServerView>>,
    route: RouteView,
)
    requires
        is_set(values, "relay_url"@) && values["relay_url"@] == route.relay_url,
        is_set(values, "relay_session_id"@) && values["relay_session_id"@]
            == route.relay_session_id,
        is_set(values, "source_token"@) && values["source_token"@] == route.source_token,
        sensitive.contains("source_token"@),
        crate::text::byte_len(route.source_token) <= 16_384,
        is_set(values, "bus_id"@) && values["bus_id"@] == route.bus_id,
        is_set(values, "publisher_group_id"@) && values["publisher_group_id"@]
            == route.publisher_group_id,
        values.contains_key("latency_profile"@) ==> values["latency_profile"@] == (
        if route.latency_profile == RelayLatencyProfile::Low {
            "low"@
        } else {
            "standard"@
        }),
        !values.contains_key("latency_profile"@) ==> route.latency_profile
            == RelayLatencyProfile::Standard,
        values.contains_key("startup_timeout_ms"@) ==> (crate::numeral::numeral_value(
            values["startup_timeout_ms"@],
        ) matches Some(ms) && route.startup_timeout_ns == ms * 1_000_000),
        !values.contains_key("startup_timeout_ms"@) ==> route.startup_timeout_ns == 30_000_000_000,
        values.contains_key("ice_servers"@) ==> crate::ice_server::decoded_servers(decoded) == Ok::<
            Seq<Seq<Seq<char>>>,
            RelayConfigurationError,
        >(route.ice_servers),
        !values.contains_key("ice_servers"@) ==> route.ice_servers.len() == 0,
        crate::configuration::route_fault(route) is None,
    ensures
        crate::configuration::stored_route(values, sensitive, decoded) == Ok::<
            RouteView,
            RelayConfigurationError,
        >(route),
{
    lemma_is_set(values, "relay_url"@);
    lemma_is_set(values, "relay_session_id"@);
    lemma_is_set(values, "source_token"@);
    lemma_is_set(values, "bus_id"@);
    lemma_is_set(values, "publisher_group_id"@);
    crate::configuration_laws::lemma_keys_differ();
    crate::configuration::profile_names_round_trip(route.latency_profile);
    crate::configuration_laws::lemma_default_timeout();
    if !values.contains_key("ice_servers"@) {
        assert(route.ice_servers =~= Seq::<Seq<Seq<char>>>::empty());
    }
}

} // verus!
