//! Name resolution and connection within one startup deadline.
use std::time::Duration;
use vstd::prelude::*;
use vstd::slice::slice_subrange;

use crate::boundary::{parse_url, UrlParts, UrlPartsView};
use crate::numeral::decimal_chars;
use crate::rtc::address::SocketAddress;
use crate::text::{
    append_chars, append_str, from_chars, has_colon, index_of, replaced_first, skip_prefixes,
    to_chars,
};

verus! {

// Authorities.

/// What follows the schemes that a relay URL may begin with.
pub open spec fn without_schemes(url: Seq<char>) -> Seq<char> {
    crate::text::without_prefixes(
        crate::text::without_prefixes(
            crate::text::without_prefixes(
                crate::text::without_prefixes(url, "https://"@),
                "http://"@,
            ),
            "wss://"@,
        ),
        "ws://"@,
    )
}

/// The host and port of a relay URL, port 80 where it names none.
pub open spec fn probe_authority_text(url: Seq<char>) -> Seq<char> {
    let rest = without_schemes(url);
    let authority = rest.take(crate::text::find(rest, '/'));
    if authority.contains(':') {
        authority
    } else {
        authority + ":80"@
    }
}

/// The authority towards which the local address is probed.
pub fn probe_authority(relay_url: &str) -> (authority: String)
    ensures
        authority@ == probe_authority_text(relay_url@),
{
    let url = to_chars(relay_url);
    let https = to_chars("https://");
    let http = to_chars("http://");
    let wss = to_chars("wss://");
    let ws = to_chars("ws://");
    let rest = skip_prefixes(url.as_slice(), https.as_slice());
    let rest = skip_prefixes(rest, http.as_slice());
    let rest = skip_prefixes(rest, wss.as_slice());
    let rest = skip_prefixes(rest, ws.as_slice());
    let end: usize = index_of(rest, '/');
    let authority = from_chars(slice_subrange(rest, 0, end));
    if has_colon(authority.as_str()) {
        return authority;
    }
    let mut chars = to_chars(authority.as_str());
    append_str(&mut chars, ":80");
    from_chars(chars.as_slice())
}

/// The signaling endpoint of a relay origin: the first `https://` becomes `wss://`, the
/// first `http://` becomes `ws://`, and the path follows.
pub open spec fn signaling_url_text(relay_url: Seq<char>) -> Seq<char> {
    crate::text::replace_first(
        crate::text::replace_first(relay_url, "https://"@, "wss://"@),
        "http://"@,
        "ws://"@,
    ) + "/v1/signal"@
}

/// The signaling endpoint of a relay origin.
pub fn signaling_url(relay_url: &str) -> (url: String)
    ensures
        url@ == signaling_url_text(relay_url@),
{
    let url = to_chars(relay_url);
    let https = to_chars("https://");
    let wss = to_chars("wss://");
    let http = to_chars("http://");
    let ws = to_chars("ws://");
    let url = replaced_first(url.as_slice(), https.as_slice(), wss.as_slice());
    let mut url = replaced_first(url.as_slice(), http.as_slice(), ws.as_slice());
    append_str(&mut url, "/v1/signal");
    from_chars(url.as_slice())
}

/// Why a signaling URL names no endpoint.
#[derive(Debug, Clone, PartialEq, Eq)]
pub enum SignalingUrlError {
    /// It is no URL, for the reason that the parser gives.
    Malformed(String),
    NoHost,
    NoPort,
}

/// Why a signaling URL names no endpoint.
pub enum SignalingUrlFault {
    Malformed(Seq<char>),
    NoHost,
    NoPort,
}

impl View for SignalingUrlError {
    type V = SignalingUrlFault;

    open spec fn view(&self) -> SignalingUrlFault {
        match *self {
            SignalingUrlError::Malformed(reason) => SignalingUrlFault::Malformed(reason@),
            SignalingUrlError::NoHost => SignalingUrlFault::NoHost,
            SignalingUrlError::NoPort => SignalingUrlFault::NoPort,
        }
    }
}

impl SignalingUrlError {
    /// The message for people.
    pub fn message(&self) -> (message: &str)
        ensures
            message@ == (match self@ {
                SignalingUrlFault::Malformed(reason) => reason,
                SignalingUrlFault::NoHost => "relay signaling URL has no host"@,
                SignalingUrlFault::NoPort => "relay signaling URL has no usable port"@,
            }),
    {
        match self {
            SignalingUrlError::Malformed(reason) => reason.as_str(),
            SignalingUrlError::NoHost => "relay signaling URL has no host",
            SignalingUrlError::NoPort => "relay signaling URL has no usable port",
        }
    }
}

/// A host and a port as an authority. A host with a colon stands in brackets.
pub open spec fn authority_text(host: Seq<char>, port: u16) -> Seq<char> {
    if host.contains(':') {
        "["@ + host + "]:"@ + crate::numeral::decimal(port as nat)
    } else {
        host + ":"@ + crate::numeral::decimal(port as nat)
    }
}

/// The authority of a parsed signaling URL.
pub open spec fn endpoint_of(parts: UrlPartsView) -> Result<Seq<char>, SignalingUrlFault> {
    match (parts.host, parts.port_or_known_default) {
        (None, _) => Err(SignalingUrlFault::NoHost),
        (Some(_), None) => Err(SignalingUrlFault::NoPort),
        (Some(host), Some(port)) => Ok(authority_text(host, port)),
    }
}

/// The authority of a parsed signaling URL.
pub fn url_endpoint(parts: &UrlParts) -> (r: Result<String, SignalingUrlError>)
    ensures
        r is Ok <==> endpoint_of(parts@) is Ok,
        r matches Ok(authority) ==> authority@ == endpoint_of(parts@)->Ok_0,
        r matches Err(error) ==> error@ == endpoint_of(parts@)->Err_0,
{
    let host = match &parts.host {
        Some(host) => host.as_str(),
        None => {
            return Err(SignalingUrlError::NoHost);
        },
    };
    let port: u16 = match parts.port_or_known_default {
        Some(port) => port,
        None => {
            return Err(SignalingUrlError::NoPort);
        },
    };
    let digits = decimal_chars(port as u64);
    if has_colon(host) {
        let mut chars = to_chars("[");
        append_str(&mut chars, host);
        append_str(&mut chars, "]:");
        append_chars(&mut chars, digits.as_slice());
        return Ok(from_chars(chars.as_slice()));
    }
    let mut chars = to_chars(host);
    append_str(&mut chars, ":");
    append_chars(&mut chars, digits.as_slice());
    Ok(from_chars(chars.as_slice()))
}

/// The authority of a signaling URL, or why it has none.
pub open spec fn endpoint_text(ws_url: Seq<char>) -> Result<Seq<char>, SignalingUrlFault> {
    match crate::boundary::url_parts(ws_url) {
        Ok(parts) => endpoint_of(parts),
        Err(reason) => Err(SignalingUrlFault::Malformed(reason)),
    }
}

/// The authority to which the signaling connection goes.
pub fn signaling_endpoint(ws_url: &str) -> (r: Result<String, SignalingUrlError>)
    ensures
        r is Ok <==> endpoint_text(ws_url@) is Ok,
        r matches Ok(authority) ==> authority@ == endpoint_text(ws_url@)->Ok_0,
        r matches Err(error) ==> error@ == endpoint_text(ws_url@)->Err_0,
{
    match parse_url(ws_url) {
        Ok(parts) => url_endpoint(&parts),
        Err(reason) => Err(SignalingUrlError::Malformed(reason)),
    }
}

// Resolution.

/// The time that is left for resolving a name, given what is left of the startup
/// deadline. Nothing is started after the deadline.
pub fn resolution_budget(remaining: Option<Duration>) -> (r: Result<Duration, String>)
    ensures
        r is Ok <==> remaining is Some,
        r matches Ok(budget) ==> remaining == Some(budget),
        r matches Err(message) ==> message@
            == "relay name resolution exceeded its startup deadline"@,
{
    match remaining {
        Some(budget) => Ok(budget),
        None => Err("relay name resolution exceeded its startup deadline".to_owned()),
    }
}

/// What came of resolving a name.
pub enum Resolution {
    Resolved(Vec<SocketAddress>),
    Failed(String),
    TimedOut,
    /// The resolver ended without a result.
    Exited,
}

pub open spec fn resolution_error(resolution: Resolution) -> Option<Seq<char>> {
    match resolution {
        Resolution::Resolved(addresses) => if addresses@.len() == 0 {
            Some("relay name resolved to no addresses"@)
        } else {
            None
        },
        Resolution::Failed(message) => Some(message@),
        Resolution::TimedOut => Some("relay name resolution exceeded its startup deadline"@),
        Resolution::Exited => Some("relay name resolver exited without a result"@),
    }
}

/// The addresses of a name, never none.
pub fn resolved_addresses(resolution: Resolution) -> (r: Result<Vec<SocketAddress>, String>)
    ensures
        r is Ok <==> resolution_error(resolution) is None,
        r matches Ok(addresses) ==> resolution == Resolution::Resolved(addresses)
            && addresses@.len() > 0,
        r matches Err(message) ==> resolution_error(resolution) == Some(message@),
{
    match resolution {
        Resolution::Resolved(addresses) => if addresses.len() == 0 {
            Err("relay name resolved to no addresses".to_owned())
        } else {
            Ok(addresses)
        },
        Resolution::Failed(message) => Err(message),
        Resolution::TimedOut => Err(
            "relay name resolution exceeded its startup deadline".to_owned(),
        ),
        Resolution::Exited => Err("relay name resolver exited without a result".to_owned()),
    }
}

// Connection.

/// What to do next for a signaling connection.
pub enum ConnectStep {
    /// Try the address at this place.
    Try(usize),
    GiveUp(String),
}

pub open spec fn connect_failure(last_error: Option<Seq<char>>) -> Seq<char> {
    match last_error {
        Some(error) => "relay signaling connection failed: "@ + error,
        None => "relay signaling connection exceeded its startup deadline"@,
    }
}

/// Tries the addresses of a relay one after the other, until one answers or the deadline
/// has passed.
pub struct ConnectAttempts {
    next: usize,
    count: usize,
    last_error: Option<String>,
}

/// What the attempts have come to.
pub struct AttemptsView {
    pub next: nat,
    pub count: nat,
    pub last_error: Option<Seq<char>>,
}

impl View for ConnectAttempts {
    type V = AttemptsView;

    closed spec fn view(&self) -> AttemptsView {
        AttemptsView {
            next: self.next as nat,
            count: self.count as nat,
            last_error: match self.last_error {
                Some(error) => Some(error@),
                None => None,
            },
        }
    }
}

impl ConnectAttempts {
    pub open spec fn wf(&self) -> bool {
        self@.next <= self@.count
    }

    pub fn new(count: usize) -> (attempts: ConnectAttempts)
        ensures
            attempts.wf(),
            attempts@ == (AttemptsView { next: 0, count: count as nat, last_error: None }),
    {
        ConnectAttempts { next: 0, count, last_error: None }
    }

    /// The next address, each at most once and in order, while the deadline has not passed.
    pub fn next_step(&mut self, deadline_passed: bool) -> (step: ConnectStep)
        requires
            old(self).wf(),
        ensures
            final(self).wf(),
            deadline_passed || old(self)@.next == old(self)@.count ==> {
                &&& step matches ConnectStep::GiveUp(message)
                &&& message@ == connect_failure(old(self)@.last_error)
                &&& final(self)@ == old(self)@
            },
            !deadline_passed && old(self)@.next < old(self)@.count ==> {
                &&& step == ConnectStep::Try(old(self)@.next as usize)
                &&& final(self)@ == (AttemptsView { next: old(self)@.next + 1, ..old(self)@ })
            },
    {
        if deadline_passed || self.next == self.count {
            return match &self.last_error {
                Some(error) => {
                    let mut message = to_chars("relay signaling connection failed: ");
                    append_str(&mut message, error.as_str());
                    ConnectStep::GiveUp(from_chars(message.as_slice()))
                },
                None => ConnectStep::GiveUp(
                    "relay signaling connection exceeded its startup deadline".to_owned(),
                ),
            };
        }
        let index: usize = self.next;
        self.next = index + 1;
        ConnectStep::Try(index)
    }

    /// Notes that the address did not answer.
    pub fn attempt_failed(&mut self, error: String)
        requires
            old(self).wf(),
        ensures
            final(self).wf(),
            final(self)@ == (AttemptsView { last_error: Some(error@), ..old(self)@ }),
    {
        self.last_error = Some(error);
    }
}

// What holds of signaling endpoints.

proof fn lemma_schemes()
    ensures
        "https://"@ =~= seq!['h', 't', 't', 'p', 's', ':', '/', '/'],
        "http://"@ =~= seq!['h', 't', 't', 'p', ':', '/', '/'],
        "wss://"@ =~= seq!['w', 's', 's', ':', '/', '/'],
        "ws://"@ =~= seq!['w', 's', ':', '/', '/'],
{
    reveal_strlit("https://");
    reveal_strlit("http://");
    reveal_strlit("wss://");
    reveal_strlit("ws://");
}

/// A secure origin is signaled over a secure connection, and a plain one over a plain
/// one: the scheme is exchanged and the rest stays.
pub proof fn signaling_keeps_security(rest: Seq<char>)
    requires
        !crate::text::holds_text(rest, "https://"@),
        !crate::text::holds_text(rest, "http://"@),
    ensures
        signaling_url_text("https://"@ + rest) == "wss://"@ + rest + "/v1/signal"@,
        signaling_url_text("http://"@ + rest) == "ws://"@ + rest + "/v1/signal"@,
{
    lemma_schemes();
    let https = "https://"@;
    let http = "http://"@;
    let wss = "wss://"@;
    let ws = "ws://"@;
    // A secure origin.
    let url = https + rest;
    assert(url.subrange(0, 8) =~= https);
    assert(crate::text::first_at(url, https, 0));
    crate::text::lemma_replace_first(url, https, wss, 0);
    assert(crate::text::replace_first(url, https, wss) =~= wss + rest);
    lemma_prefix_without(wss, rest, http);
    // A plain origin.
    let url = http + rest;
    assert(url.subrange(0, 7) =~= http);
    lemma_prefix_without(http, rest, https);
    assert(crate::text::first_at(url, http, 0));
    crate::text::lemma_replace_first(url, http, ws, 0);
    assert(crate::text::replace_first(url, http, ws) =~= ws + rest);
}

/// A scheme does not arise at the seam between another scheme and a rest.
proof fn lemma_prefix_without(prefix: Seq<char>, rest: Seq<char>, part: Seq<char>)
    requires
        !crate::text::holds_text(rest, part),
        part.len() > 4,
        part[0] == 'h',
        forall|i: int| 1 <= i < prefix.len() ==> prefix[i] != 'h',
        prefix.len() > 4,
        prefix[0] != 'h' || prefix[4] != part[4],
    ensures
        !crate::text::holds_text(prefix + rest, part),
{
    let whole = prefix + rest;
    assert forall|i: int| !crate::text::occurs_at(whole, part, i) by {
        if crate::text::occurs_at(whole, part, i) {
            let n = part.len();
            assert(whole.subrange(i, i + n)[0] == whole[i]);
            assert(whole.subrange(i, i + n)[4] == whole[i + 4]);
            if i >= prefix.len() {
                let k = i - prefix.len();
                assert(rest.subrange(k, k + n) =~= whole.subrange(i, i + n));
                assert(crate::text::occurs_at(rest, part, k));
            }
        }
    }
}

proof fn lemma_no_scheme(rest: Seq<char>, scheme: Seq<char>, n: int)
    requires
        scheme.len() >= 3,
        scheme[scheme.len() - 3] == ':',
        scheme[scheme.len() - 2] == '/',
        scheme.last() == '/',
        forall|i: int| 0 <= i < scheme.len() - 2 ==> scheme[i] != '/',
        0 < n <= rest.len(),
        forall|i: int| 0 <= i < n ==> rest[i] != '/',
        rest[n - 1] != ':',
        n < rest.len() ==> rest[n] == '/',
    ensures
        crate::text::without_prefixes(rest, scheme) == rest,
{
    if crate::text::starts_with(rest, scheme) {
        let m = scheme.len() - 2;
        assert forall|i: int| 0 <= i < scheme.len() implies rest[i] == scheme[i] by {
            assert(rest.take(scheme.len() as int)[i] == scheme[i]);
        }
        assert(rest[m] == '/' && rest[m - 1] == ':');
        assert(n <= m);
        if n < m {
            assert(rest[n] == scheme[n]);
        }
    }
}

/// The local address is probed towards the host and port of the relay's origin, port 80
/// where it names none, whatever path follows.
pub proof fn origins_are_probed_at_their_host(secure: bool, host: Seq<char>, path: Seq<char>)
    requires
        host.len() > 0,
        !host.contains('/'),
        host.last() != ':',
        path.len() > 0 ==> path[0] == '/',
    ensures
        probe_authority_text(
            (if secure {
                "https://"@
            } else {
                "http://"@
            }) + host + path,
        ) == (if host.contains(':') {
            host
        } else {
            host + ":80"@
        }),
{
    lemma_schemes();
    let https = "https://"@;
    let http = "http://"@;
    let rest = host + path;
    let n = host.len() as int;
    assert forall|i: int| 0 <= i < n implies rest[i] != '/' by {
        assert(host.contains(host[i]));
    }
    assert(rest[n - 1] == host.last());
    lemma_no_scheme(rest, https, n);
    lemma_no_scheme(rest, http, n);
    lemma_no_scheme(rest, "wss://"@, n);
    lemma_no_scheme(rest, "ws://"@, n);
    let scheme = if secure {
        https
    } else {
        http
    };
    let url = scheme + host + path;
    assert(url.take(scheme.len() as int) =~= scheme);
    assert(url.skip(scheme.len() as int) =~= rest);
    if secure {
        assert(crate::text::without_prefixes(url, https) == rest);
    } else {
        assert(!crate::text::starts_with(url, https)) by {
            if crate::text::starts_with(url, https) {
                assert(url.take(8)[4] == https[4]);
            }
        }
        assert(crate::text::without_prefixes(url, http) == rest);
    }
    assert(without_schemes(url) == rest);
    crate::text::searches_find_the_first(rest, '/');
    let f = crate::text::find(rest, '/');
    assert(f == n) by {
        if f < n {
            assert(rest[f] != '/');
        }
        if f > n {
            assert(rest.take(f)[n] == rest[n]);
            assert(rest.take(f).contains(rest.take(f)[n]));
        }
    }
    assert(rest.take(n) =~= host);
}

/// A signaling URL leads to its host and port. Without a host, and without a port that is
/// named or known, it leads nowhere.
pub proof fn signaling_goes_to_host_and_port(parts: UrlPartsView)
    ensures
        endpoint_of(parts) is Ok <==> parts.host is Some && parts.port_or_known_default is Some,
        parts.host is None ==> endpoint_of(parts) == Err::<Seq<char>, SignalingUrlFault>(
            SignalingUrlFault::NoHost,
        ),
        endpoint_of(parts) matches Ok(authority) ==> {
            let host = parts.host->0;
            let port = crate::numeral::decimal(parts.port_or_known_default->0 as nat);
            authority == (if host.contains(':') {
                seq!['['] + host + seq![']'] + seq![':'] + port
            } else {
                host + seq![':'] + port
            })
        },
{
    reveal_strlit("[");
    reveal_strlit("]:");
    reveal_strlit(":");
    if endpoint_of(parts) is Ok {
        let host = parts.host->0;
        let port = crate::numeral::decimal(parts.port_or_known_default->0 as nat);
        assert("["@ + host + "]:"@ + port =~= seq!['['] + host + seq![']'] + seq![':'] + port);
        assert(host + ":"@ + port =~= host + seq![':'] + port);
    }
}

/// The schemes before a host are skipped, however often they stand there.
pub proof fn schemes_are_skipped(url: Seq<char>)
    ensures
        probe_authority_text("https://"@ + url) == probe_authority_text(url),
        !crate::text::starts_with(url, "https://"@) ==> probe_authority_text("http://"@ + url)
            == probe_authority_text(url),
        !crate::text::starts_with(url, "https://"@) && !crate::text::starts_with(url, "http://"@)
            ==> probe_authority_text("wss://"@ + url) == probe_authority_text(url),
        !crate::text::starts_with(url, "https://"@) && !crate::text::starts_with(url, "http://"@)
            && !crate::text::starts_with(url, "wss://"@) ==> probe_authority_text("ws://"@ + url)
            == probe_authority_text(url),
{
    reveal_strlit("https://");
    reveal_strlit("http://");
    reveal_strlit("wss://");
    reveal_strlit("ws://");
    let plain = "http://"@ + url;
    let secure_socket = "wss://"@ + url;
    let socket = "ws://"@ + url;
    lemma_scheme_differs(plain, "https://"@, 4);
    lemma_scheme_differs(secure_socket, "https://"@, 0);
    lemma_scheme_differs(secure_socket, "http://"@, 0);
    lemma_scheme_differs(socket, "https://"@, 0);
    lemma_scheme_differs(socket, "http://"@, 0);
    lemma_scheme_differs(socket, "wss://"@, 2);
    crate::text::prefixes_are_skipped_as_often_as_they_stand(url, "https://"@);
    crate::text::prefixes_are_skipped_as_often_as_they_stand(url, "http://"@);
    crate::text::prefixes_are_skipped_as_often_as_they_stand(url, "wss://"@);
    crate::text::prefixes_are_skipped_as_often_as_they_stand(url, "ws://"@);
    crate::text::prefixes_are_skipped_as_often_as_they_stand(plain, "https://"@);
    crate::text::prefixes_are_skipped_as_often_as_they_stand(secure_socket, "https://"@);
    crate::text::prefixes_are_skipped_as_often_as_they_stand(secure_socket, "http://"@);
    crate::text::prefixes_are_skipped_as_often_as_they_stand(socket, "https://"@);
    crate::text::prefixes_are_skipped_as_often_as_they_stand(socket, "http://"@);
    crate::text::prefixes_are_skipped_as_often_as_they_stand(socket, "wss://"@);
}

proof fn lemma_scheme_differs(url: Seq<char>, scheme: Seq<char>, i: int)
    requires
        0 <= i < scheme.len(),
        i < url.len(),
        url[i] != scheme[i],
    ensures
        !crate::text::starts_with(url, scheme),
{
    if crate::text::starts_with(url, scheme) {
        assert(url.take(scheme.len() as int)[i] == url[i]);
    }
}

} // verus!
