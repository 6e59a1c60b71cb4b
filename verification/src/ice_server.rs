//! STUN servers for server-reflexive discovery.
use vstd::prelude::*;
use vstd::slice::slice_subrange;
use vstd::string::StrSliceExecFns;

use crate::configuration_error::RelayConfigurationError;
use crate::json;
use crate::text::{chars_eq, from_chars, has_prefix, text_eq, to_chars, trimmed};

verus! {

/// The most STUN servers that a route configuration holds.
pub const MAX_ICE_SERVERS: usize = 16;

/// The most URLs that one STUN server has.
pub const MAX_ICE_SERVER_URLS: usize = 8;

// Authorities.

/// What follows `stun:` in a STUN URL, without the two slashes that may stand there.
pub open spec fn stun_rest(raw: Seq<char>) -> Option<Seq<char>> {
    if !crate::text::starts_with(raw, "stun:"@) {
        None
    } else {
        let rest = raw.skip("stun:"@.len() as int);
        if crate::text::starts_with(rest, "//"@) {
            Some(rest.skip("//"@.len() as int))
        } else {
            Some(rest)
        }
    }
}

pub open spec fn outside_authority(c: char) -> bool {
    c == '/' || c == '?' || c == '#' || c == '@'
}

/// An authority is not empty, holds no path, query, fragment or user part, and has
/// no white space at its ends.
pub open spec fn is_authority(s: Seq<char>) -> bool {
    &&& s.len() > 0
    &&& forall|i: int| 0 <= i < s.len() ==> !outside_authority(#[trigger] s[i])
    &&& crate::text::trim(s) == s
}

/// The host, and port if there is one, of a STUN URL.
pub open spec fn authority_of(raw: Seq<char>) -> Option<Seq<char>> {
    match stun_rest(raw) {
        Some(rest) => if is_authority(rest) {
            Some(rest)
        } else {
            None
        },
        None => None,
    }
}

/// The authority of a STUN URL.
pub fn stun_authority(raw: &str) -> (r: Option<&str>)
    ensures
        r is Some == authority_of(raw@) is Some,
        r is Some ==> r->0@ == authority_of(raw@)->0,
{
    let chars = to_chars(raw);
    let scheme = to_chars("stun:");
    if !has_prefix(chars.as_slice(), scheme.as_slice()) {
        return None;
    }
    let mut start: usize = scheme.len();
    let rest = slice_subrange(chars.as_slice(), start, chars.len());
    assert(rest@ == raw@.skip(start as int));
    let slashes = to_chars("//");
    if has_prefix(rest, slashes.as_slice()) {
        proof {
            assert(rest@.skip("//"@.len() as int) == raw@.skip(start + "//"@.len()));
        }
        start = start + slashes.len();
    }
    let authority = slice_subrange(chars.as_slice(), start, chars.len());
    assert(authority@ == stun_rest(raw@)->0);
    if authority.len() == 0 {
        return None;
    }
    let mut i: usize = 0;
    while i < authority.len()
        invariant
            i <= authority@.len(),
            stun_rest(raw@) == Some(authority@),
            forall|j: int| 0 <= j < i ==> !outside_authority(#[trigger] authority@[j]),
        decreases authority.len() - i,
    {
        let c = authority[i];
        if c == '/' || c == '?' || c == '#' || c == '@' {
            assert(outside_authority(authority@[i as int]));
            return None;
        }
        i = i + 1;
    }
    if !chars_eq(trimmed(authority), authority) {
        return None;
    }
    Some(raw.substring_char(start, chars.len()))
}

// Servers.

/// The texts of a list of strings.
pub open spec fn string_views(v: Seq<String>) -> Seq<Seq<char>> {
    v.map_values(|s: String| s@)
}

pub open spec fn has_bad_url(urls: Seq<Seq<char>>) -> bool {
    exists|i: int| 0 <= i < urls.len() && authority_of(#[trigger] urls[i]) is None
}

/// Why a list of URLs makes no server.
pub open spec fn server_fault(urls: Seq<Seq<char>>) -> Option<RelayConfigurationError> {
    if urls.len() == 0 || urls.len() > MAX_ICE_SERVER_URLS {
        Some(RelayConfigurationError::InvalidIceServerCount)
    } else if has_bad_url(urls) {
        Some(RelayConfigurationError::InvalidIceServerUrl)
    } else {
        None
    }
}

/// A bounded list of STUN URLs.
#[derive(Debug, Clone, PartialEq, Eq)]
pub struct RelayIceServer {
    urls: Vec<String>,
}

impl View for RelayIceServer {
    type V = Seq<Seq<char>>;

    closed spec fn view(&self) -> Seq<Seq<char>> {
        string_views(self.urls@)
    }
}

impl RelayIceServer {
    /// Creates a bounded list of STUN server URLs used for server-reflexive discovery.
    ///
    /// # Errors
    ///
    /// Returns an error when the list is empty, exceeds the package limit, or
    /// contains anything other than a valid `stun:` authority.
    pub fn new(urls: Vec<String>) -> (r: Result<RelayIceServer, RelayConfigurationError>)
        ensures
            r is Ok <==> server_fault(string_views(urls@)) is None,
            r matches Ok(server) ==> server@ == string_views(urls@),
            r matches Err(error) ==> server_fault(string_views(urls@)) == Some(error),
    {
        let server = RelayIceServer { urls };
        match server.validate() {
            Ok(()) => Ok(server),
            Err(error) => Err(error),
        }
    }

    /// The URLs, in order.
    pub fn urls(&self) -> (urls: &[String])
        ensures
            string_views(urls@) == self@,
    {
        self.urls.as_slice()
    }

    pub fn validate(&self) -> (r: Result<(), RelayConfigurationError>)
        ensures
            r is Ok <==> server_fault(self@) is None,
            r matches Err(error) ==> server_fault(self@) == Some(error),
    {
        if self.urls.len() == 0 || self.urls.len() > MAX_ICE_SERVER_URLS {
            return Err(RelayConfigurationError::InvalidIceServerCount);
        }
        let mut i: usize = 0;
        while i < self.urls.len()
            invariant
                i <= self.urls@.len(),
                0 < self.urls@.len() <= MAX_ICE_SERVER_URLS,
                forall|j: int| 0 <= j < i ==> authority_of(#[trigger] self@[j]) is Some,
            decreases self.urls.len() - i,
        {
            assert(self@[i as int] == self.urls@[i as int]@);
            if stun_authority(self.urls[i].as_str()).is_none() {
                assert(has_bad_url(self@));
                return Err(RelayConfigurationError::InvalidIceServerUrl);
            }
            i = i + 1;
        }
        assert(!has_bad_url(self@));
        Ok(())
    }

    /// The authorities of the URLs, in order.
    pub fn stun_authorities(&self) -> (authorities: Vec<String>)
        ensures
            string_views(authorities@) == authorities_of(self@),
    {
        let mut authorities: Vec<String> = Vec::new();
        let mut i: usize = 0;
        assert(string_views(authorities@) =~= Seq::empty());
        while i < self.urls.len()
            invariant
                i <= self.urls@.len(),
                string_views(authorities@) == authorities_of(self@.take(i as int)),
            decreases self.urls.len() - i,
        {
            proof {
                assert(self@.take(i + 1).drop_last() == self@.take(i as int));
                assert(self@.take(i + 1).last() == self.urls@[i as int]@);
            }
            if let Some(authority) = stun_authority(self.urls[i].as_str()) {
                let text = authority.to_owned();
                proof {
                    assert(string_views(authorities@.push(text)) =~= string_views(
                        authorities@,
                    ).push(text@));
                }
                authorities.push(text);
            }
            i = i + 1;
        }
        assert(self@.take(i as int) == self@);
        authorities
    }

    /// The same URLs in the same order.
    pub fn same_urls(&self, other: &RelayIceServer) -> (r: bool)
        ensures
            r == (self@ == other@),
    {
        if self.urls.len() != other.urls.len() {
            assert(self@.len() != other@.len());
            return false;
        }
        let mut i: usize = 0;
        while i < self.urls.len()
            invariant
                i <= self.urls@.len(),
                self.urls@.len() == other.urls@.len(),
                forall|j: int| 0 <= j < i ==> self@[j] == other@[j],
            decreases self.urls.len() - i,
        {
            if !text_eq(self.urls[i].as_str(), other.urls[i].as_str()) {
                assert(self@[i as int] != other@[i as int]);
                return false;
            }
            i = i + 1;
        }
        assert(self@ =~= other@);
        true
    }
}

/// The authorities of the URLs that have one.
pub open spec fn authorities_of(urls: Seq<Seq<char>>) -> Seq<Seq<char>>
    decreases urls.len(),
{
    if urls.len() == 0 {
        Seq::empty()
    } else {
        match authority_of(urls.last()) {
            Some(authority) => authorities_of(urls.drop_last()).push(authority),
            None => authorities_of(urls.drop_last()),
        }
    }
}

// Lists of servers.

pub open spec fn server_views(servers: Seq<RelayIceServer>) -> Seq<Seq<Seq<char>>> {
    servers.map_values(|s: RelayIceServer| s@)
}

/// Why a list of servers is rejected: its length, or else its first faulty server.
pub open spec fn servers_fault(servers: Seq<Seq<Seq<char>>>) -> Option<RelayConfigurationError> {
    if servers.len() > MAX_ICE_SERVERS {
        Some(RelayConfigurationError::InvalidIceServerCount)
    } else {
        first_server_fault(servers)
    }
}

pub open spec fn first_server_fault(servers: Seq<Seq<Seq<char>>>) -> Option<
    RelayConfigurationError,
>
    decreases servers.len(),
{
    if servers.len() == 0 {
        None
    } else if server_fault(servers[0]) is Some {
        server_fault(servers[0])
    } else {
        first_server_fault(servers.drop_first())
    }
}

/// Checks a list of servers.
pub fn validate_servers(servers: &Vec<RelayIceServer>) -> (r: Result<(), RelayConfigurationError>)
    ensures
        r is Ok <==> servers_fault(server_views(servers@)) is None,
        r matches Err(error) ==> servers_fault(server_views(servers@)) == Some(error),
{
    if servers.len() > MAX_ICE_SERVERS {
        return Err(RelayConfigurationError::InvalidIceServerCount);
    }
    let ghost all = server_views(servers@);
    let mut i: usize = 0;
    assert(all.skip(0) == all);
    while i < servers.len()
        invariant
            i <= servers@.len(),
            all == server_views(servers@),
            all.len() <= MAX_ICE_SERVERS,
            first_server_fault(all) == first_server_fault(all.skip(i as int)),
        decreases servers.len() - i,
    {
        proof {
            assert(all.skip(i as int)[0] == servers@[i as int]@);
            assert(all.skip(i as int).drop_first() == all.skip(i + 1));
        }
        match servers[i].validate() {
            Ok(()) => {},
            Err(error) => {
                return Err(error);
            },
        }
        i = i + 1;
    }
    Ok(())
}

/// A copy of a list of servers.
pub fn copy_servers(servers: &Vec<RelayIceServer>) -> (copies: Vec<RelayIceServer>)
    ensures
        server_views(copies@) == server_views(servers@),
{
    let mut copies: Vec<RelayIceServer> = Vec::new();
    let mut i: usize = 0;
    while i < servers.len()
        invariant
            i <= servers@.len(),
            copies@.len() == i,
            forall|j: int| 0 <= j < i ==> (#[trigger] copies@[j])@ == servers@[j]@,
        decreases servers.len() - i,
    {
        copies.push(RelayIceServer { urls: copy_strings(&servers[i].urls) });
        i = i + 1;
    }
    assert(server_views(copies@) =~= server_views(servers@));
    copies
}

/// The same servers in the same order.
pub fn same_servers(a: &Vec<RelayIceServer>, b: &Vec<RelayIceServer>) -> (r: bool)
    ensures
        r == (server_views(a@) == server_views(b@)),
{
    if a.len() != b.len() {
        assert(server_views(a@).len() != server_views(b@).len());
        return false;
    }
    let mut i: usize = 0;
    while i < a.len()
        invariant
            i <= a@.len(),
            a@.len() == b@.len(),
            forall|j: int| 0 <= j < i ==> server_views(a@)[j] == server_views(b@)[j],
        decreases a.len() - i,
    {
        if !a[i].same_urls(&b[i]) {
            assert(server_views(a@)[i as int] != server_views(b@)[i as int]);
            return false;
        }
        i = i + 1;
    }
    assert(server_views(a@) =~= server_views(b@));
    true
}

// The stored form.

/// A server in the stored form, which has room for TURN credentials.
#[derive(Debug, Clone, PartialEq, Eq)]
pub struct WireIceServer {
    pub urls: Vec<String>,
    pub username: Option<String>,
    pub credential: Option<String>,
}

/// What a stored server holds.
pub struct WireIceServerView {
    pub urls: Seq<Seq<char>>,
    pub has_username: bool,
    pub has_credential: bool,
}

impl View for WireIceServer {
    type V = WireIceServerView;

    open spec fn view(&self) -> WireIceServerView {
        WireIceServerView {
            urls: string_views(self.urls@),
            has_username: self.username is Some,
            has_credential: self.credential is Some,
        }
    }
}

pub open spec fn wire_views(wire: Seq<WireIceServer>) -> Seq<WireIceServerView> {
    wire.map_values(|w: WireIceServer| w@)
}

/// Why a stored server is rejected.
pub open spec fn wire_fault(wire: WireIceServerView) -> Option<RelayConfigurationError> {
    if wire.has_username || wire.has_credential {
        Some(RelayConfigurationError::InvalidIceCredential)
    } else {
        server_fault(wire.urls)
    }
}

pub open spec fn first_wire_fault(wire: Seq<WireIceServerView>) -> Option<RelayConfigurationError>
    decreases wire.len(),
{
    if wire.len() == 0 {
        None
    } else if wire_fault(wire[0]) is Some {
        wire_fault(wire[0])
    } else {
        first_wire_fault(wire.drop_first())
    }
}

/// The URLs of the stored servers.
pub open spec fn wire_urls(wire: Seq<WireIceServerView>) -> Seq<Seq<Seq<char>>> {
    wire.map_values(|w: WireIceServerView| w.urls)
}

/// The servers that a stored list stands for. A list that could not be read is
/// given as none.
pub open spec fn decoded_servers(wire: Option<Seq<WireIceServerView>>) -> Result<
    Seq<Seq<Seq<char>>>,
    RelayConfigurationError,
> {
    match wire {
        None => Err(RelayConfigurationError::InvalidIceServerEncoding),
        Some(wire) => if wire.len() > MAX_ICE_SERVERS {
            Err(RelayConfigurationError::InvalidIceServerCount)
        } else {
            match first_wire_fault(wire) {
                Some(error) => Err(error),
                None => Ok(wire_urls(wire)),
            }
        },
    }
}

pub open spec fn wire_option(wire: Option<Vec<WireIceServer>>) -> Option<Seq<WireIceServerView>> {
    match wire {
        Some(wire) => Some(wire_views(wire@)),
        None => None,
    }
}

/// A copy of a list of strings.
pub fn copy_strings(strings: &Vec<String>) -> (v: Vec<String>)
    ensures
        string_views(v@) == string_views(strings@),
{
    let mut v: Vec<String> = Vec::new();
    let mut i: usize = 0;
    while i < strings.len()
        invariant
            i <= strings@.len(),
            v@.len() == i,
            forall|j: int| 0 <= j < i ==> (#[trigger] v@[j])@ == strings@[j]@,
        decreases strings.len() - i,
    {
        v.push(strings[i].as_str().to_owned());
        i = i + 1;
    }
    assert(string_views(v@) =~= string_views(strings@));
    v
}

/// The servers that a stored list stands for.
///
/// # Errors
///
/// Returns an error when the list could not be read, is too long, carries a TURN
/// credential, or holds an invalid server. The first fault counts.
pub fn decode_ice_servers(wire: Option<Vec<WireIceServer>>) -> (r: Result<
    Vec<RelayIceServer>,
    RelayConfigurationError,
>)
    ensures
        r is Ok <==> decoded_servers(wire_option(wire)) is Ok,
        r matches Ok(servers) ==> decoded_servers(wire_option(wire)) == Ok::<
            Seq<Seq<Seq<char>>>,
            RelayConfigurationError,
        >(server_views(servers@)),
        r matches Err(error) ==> decoded_servers(wire_option(wire)) == Err::<
            Seq<Seq<Seq<char>>>,
            RelayConfigurationError,
        >(error),
{
    let list = match &wire {
        Some(list) => list,
        None => {
            return Err(RelayConfigurationError::InvalidIceServerEncoding);
        },
    };
    if list.len() > MAX_ICE_SERVERS {
        return Err(RelayConfigurationError::InvalidIceServerCount);
    }
    let ghost all = wire_views(list@);
    let mut servers: Vec<RelayIceServer> = Vec::new();
    let mut i: usize = 0;
    assert(all.skip(0) == all);
    while i < list.len()
        invariant
            i <= list@.len(),
            all == wire_views(list@),
            wire_option(wire) == Some(all),
            all.len() <= MAX_ICE_SERVERS,
            first_wire_fault(all) == first_wire_fault(all.skip(i as int)),
            servers@.len() == i,
            forall|j: int| 0 <= j < i ==> (#[trigger] servers@[j])@ == all[j].urls,
        decreases list.len() - i,
    {
        proof {
            assert(all.skip(i as int)[0] == list@[i as int]@);
            assert(all.skip(i as int).drop_first() == all.skip(i + 1));
        }
        if list[i].username.is_some() || list[i].credential.is_some() {
            return Err(RelayConfigurationError::InvalidIceCredential);
        }
        match RelayIceServer::new(copy_strings(&list[i].urls)) {
            Ok(server) => {
                servers.push(server);
            },
            Err(error) => {
                return Err(error);
            },
        }
        i = i + 1;
    }
    assert(server_views(servers@) =~= wire_urls(all));
    Ok(servers)
}

/// What the stored form of a list of servers holds: their URLs, without credentials.
pub open spec fn encoded_servers(servers: Seq<Seq<Seq<char>>>) -> Seq<WireIceServerView> {
    servers.map_values(
        |urls: Seq<Seq<char>>|
            WireIceServerView { urls, has_username: false, has_credential: false },
    )
}

pub open spec fn urls_json(urls: Seq<Seq<char>>) -> Seq<char> {
    crate::json::json_array(urls.map_values(|url: Seq<char>| crate::json::json_string(url)))
}

/// The stored form of a server.
pub open spec fn server_json(urls: Seq<Seq<char>>) -> Seq<char> {
    crate::json::json_object(
        seq![
            crate::json::json_member("urls"@, urls_json(urls)),
            crate::json::json_member("username"@, "null"@),
            crate::json::json_member("credential"@, "null"@),
        ],
    )
}

/// The stored form of a list of servers.
pub open spec fn servers_json(servers: Seq<Seq<Seq<char>>>) -> Seq<char> {
    crate::json::json_array(servers.map_values(|urls: Seq<Seq<char>>| server_json(urls)))
}

fn encode_server(server: &RelayIceServer) -> (v: Vec<char>)
    ensures
        v@ == server_json(server@),
{
    let mut urls: Vec<Vec<char>> = Vec::new();
    let mut i: usize = 0;
    while i < server.urls.len()
        invariant
            i <= server.urls@.len(),
            urls@.len() == i,
            forall|j: int|
                0 <= j < i ==> (#[trigger] urls@[j])@ == crate::json::json_string(
                    server.urls@[j]@,
                ),
        decreases server.urls.len() - i,
    {
        urls.push(json::string(server.urls[i].as_str()));
        i = i + 1;
    }
    assert(crate::text::views(urls@) =~= server@.map_values(
        |url: Seq<char>| crate::json::json_string(url),
    ));
    let mut members: Vec<Vec<char>> = Vec::new();
    members.push(json::member("urls", json::array(&urls)));
    members.push(json::member("username", to_chars("null")));
    members.push(json::member("credential", to_chars("null")));
    assert(crate::text::views(members@) =~= seq![
        crate::json::json_member("urls"@, urls_json(server@)),
        crate::json::json_member("username"@, "null"@),
        crate::json::json_member("credential"@, "null"@),
    ]);
    json::object(&members)
}

/// The stored form of a list of servers.
pub fn encode_ice_servers(servers: &Vec<RelayIceServer>) -> (encoded: String)
    ensures
        encoded@ == servers_json(server_views(servers@)),
{
    let mut items: Vec<Vec<char>> = Vec::new();
    let mut i: usize = 0;
    while i < servers.len()
        invariant
            i <= servers@.len(),
            items@.len() == i,
            forall|j: int| 0 <= j < i ==> (#[trigger] items@[j])@ == server_json(servers@[j]@),
        decreases servers.len() - i,
    {
        items.push(encode_server(&servers[i]));
        i = i + 1;
    }
    assert(crate::text::views(items@) =~= server_views(servers@).map_values(
        |urls: Seq<Seq<char>>| server_json(urls),
    ));
    let encoded = json::array(&items);
    from_chars(encoded.as_slice())
}

/// Valid servers survive being stored and read again.
pub proof fn servers_round_trip(servers: Seq<Seq<Seq<char>>>)
    requires
        servers_fault(servers) is None,
    ensures
        decoded_servers(Some(encoded_servers(servers))) == Ok::<
            Seq<Seq<Seq<char>>>,
            RelayConfigurationError,
        >(servers),
{
    lemma_encoded_servers_have_no_fault(servers);
    assert(wire_urls(encoded_servers(servers)) =~= servers);
}

proof fn lemma_encoded_servers_have_no_fault(servers: Seq<Seq<Seq<char>>>)
    requires
        first_server_fault(servers) is None,
    ensures
        first_wire_fault(encoded_servers(servers)) is None,
    decreases servers.len(),
{
    if servers.len() > 0 {
        lemma_encoded_servers_have_no_fault(servers.drop_first());
        assert(encoded_servers(servers).drop_first() =~= encoded_servers(servers.drop_first()));
    }
}

/// Every URL of a valid server has an authority: none is lost when they are probed.
pub proof fn valid_servers_probe_every_url(urls: Seq<Seq<char>>)
    requires
        !has_bad_url(urls),
    ensures
        authorities_of(urls).len() == urls.len(),
        forall|i: int|
            0 <= i < urls.len() ==> authority_of(urls[i]) == Some(
                #[trigger] authorities_of(urls)[i],
            ),
    decreases urls.len(),
{
    if urls.len() > 0 {
        assert(authority_of(urls[urls.len() - 1]) is Some);
        assert forall|i: int| 0 <= i < urls.drop_last().len() implies authority_of(
            #[trigger] urls.drop_last()[i],
        ) is Some by {
            assert(authority_of(urls[i]) is Some);
        }
        valid_servers_probe_every_url(urls.drop_last());
    }
}

} // verus!
