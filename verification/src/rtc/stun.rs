//! STUN binding requests, by which the publisher learns the address under which the
//! outside sees it.
use std::time::Duration;
use vstd::prelude::*;

use crate::configuration::NANOS_PER_MILLI;
use crate::ice_server::RelayIceServer;
use crate::rtc::address::{ipv4_address, HostAddress, SocketAddress};
use crate::text::{append_str, from_chars, has_colon, to_chars};

verus! {

pub const STUN_HEADER_BYTES: usize = 20;

pub const BINDING_SUCCESS: u16 = 0x0101;

pub const XOR_MAPPED_ADDRESS: u16 = 0x0020;

pub const FAMILY_IPV4: u8 = 0x01;

/// The endpoint of an authority: a STUN server that names no port has the standard one.
pub open spec fn stun_endpoint_text(authority: Seq<char>) -> Seq<char> {
    if authority.contains(':') {
        authority
    } else {
        authority + ":3478"@
    }
}

/// Where to send a binding request for an authority.
pub fn stun_endpoint(authority: &str) -> (endpoint: String)
    ensures
        endpoint@ == stun_endpoint_text(authority@),
{
    let mut chars = to_chars(authority);
    if !has_colon(authority) {
        append_str(&mut chars, ":3478");
    }
    from_chars(chars.as_slice())
}

/// The authorities of all servers, in order.
pub open spec fn all_authorities(servers: Seq<Seq<Seq<char>>>) -> Seq<Seq<char>>
    decreases servers.len(),
{
    if servers.len() == 0 {
        Seq::empty()
    } else {
        all_authorities(servers.drop_last()) + crate::ice_server::authorities_of(servers.last())
    }
}

/// The authorities to ask in turn for the outside address of a local one. On the machine
/// itself there is no outside.
pub fn authorities_to_probe(servers: &Vec<RelayIceServer>, local: HostAddress) -> (authorities: Vec<
    String,
>)
    ensures
        crate::ice_server::string_views(authorities@) == (if crate::rtc::address::loopback(local) {
            Seq::<Seq<char>>::empty()
        } else {
            all_authorities(crate::ice_server::server_views(servers@))
        }),
{
    let mut authorities: Vec<String> = Vec::new();
    assert(crate::ice_server::string_views(authorities@) =~= Seq::empty());
    if local.is_loopback() {
        return authorities;
    }
    let ghost all = crate::ice_server::server_views(servers@);
    let mut i: usize = 0;
    assert(all.take(0) =~= Seq::empty());
    while i < servers.len()
        invariant
            i <= servers@.len(),
            all == crate::ice_server::server_views(servers@),
            crate::ice_server::string_views(authorities@) == all_authorities(all.take(i as int)),
        decreases servers.len() - i,
    {
        let ghost before = authorities@;
        let mut more = servers[i].stun_authorities();
        let ghost added = more@;
        authorities.append(&mut more);
        proof {
            assert(all.take(i + 1).drop_last() =~= all.take(i as int));
            assert(all.take(i + 1).last() == servers@[i as int]@);
            assert(crate::ice_server::string_views(before + added)
                =~= crate::ice_server::string_views(before) + crate::ice_server::string_views(
                added,
            ));
        }
        i = i + 1;
    }
    assert(all.take(i as int) =~= all);
    authorities
}

// Requests.

/// A binding request without attributes: its type, its length, the magic cookie, and a
/// transaction number.
pub open spec fn request_bytes() -> Seq<u8> {
    seq![0x00u8, 0x01, 0x00, 0x00, 0x21, 0x12, 0xA4, 0x42] + transaction()
}

/// The transaction number, `pks-stun-prb`.
pub open spec fn transaction() -> Seq<u8> {
    seq![
        0x70u8, 0x6B, 0x73, 0x2D, 0x73, 0x74, 0x75, 0x6E, 0x2D, 0x70, 0x72, 0x62,
    ]
}

pub fn binding_request() -> (request: [u8; 20])
    ensures
        request@ == request_bytes(),
{
    let request: [u8; 20] = [
        0x00, 0x01, 0x00, 0x00, 0x21, 0x12, 0xA4, 0x42, 0x70, 0x6B, 0x73, 0x2D, 0x73, 0x74, 0x75,
        0x6E, 0x2D, 0x70, 0x72, 0x62,
    ];
    assert(request@ =~= request_bytes());
    request
}

// Responses.

/// A number of two bytes, the greater first.
pub open spec fn be16(bytes: Seq<u8>, i: int) -> u16 {
    (bytes[i] * 256 + bytes[i + 1]) as u16
}

/// Whether the bytes begin with the header of a success response to the request, and
/// all that it announces is there.
pub open spec fn is_response(bytes: Seq<u8>) -> bool {
    &&& bytes.len() >= STUN_HEADER_BYTES
    &&& bytes.subrange(8, 20) == transaction()
    &&& be16(bytes, 0) == BINDING_SUCCESS
    &&& bytes.len() >= STUN_HEADER_BYTES + be16(bytes, 2)
}

/// A length rounded up to whole words of four bytes.
pub open spec fn padded(len: int) -> int {
    (len + 3) / 4 * 4
}

/// Whether the attribute at `pos` is a mapped address with enough bytes for IPv4.
pub open spec fn maps_address(bytes: Seq<u8>, pos: int) -> bool {
    be16(bytes, pos) == XOR_MAPPED_ADDRESS && be16(bytes, pos + 2) >= 8
}

/// The IPv4 address in the mapped address whose attribute stands at `pos`.
pub open spec fn mapped_address(bytes: Seq<u8>, pos: int) -> SocketAddress {
    crate::rtc::address::ipv4(
        ((bytes[pos + 8] ^ 0x21) * 0x100_0000 + (bytes[pos + 9] ^ 0x12) * 0x1_0000 + (bytes[pos
            + 10] ^ 0xA4) * 0x100 + (bytes[pos + 11] ^ 0x42)) as u32,
        be16(bytes, pos + 6) ^ 0x2112,
    )
}

/// The first IPv4 mapped address among the attributes from `pos` up to `end`. One that
/// is cut off is none.
pub open spec fn first_mapped(bytes: Seq<u8>, end: int, pos: int) -> Option<SocketAddress>
    decreases
            (if pos < end {
                end - pos
            } else {
                0
            }),
{
    if pos + 4 > end {
        None
    } else if maps_address(bytes, pos) && pos + 12 > end {
        None
    } else if maps_address(bytes, pos) && bytes[pos + 5] == FAMILY_IPV4 {
        Some(mapped_address(bytes, pos))
    } else {
        first_mapped(bytes, end, pos + 4 + padded(be16(bytes, pos + 2) as int))
    }
}

/// The address that a response maps the sender to.
pub open spec fn response_address(bytes: Seq<u8>) -> Option<SocketAddress> {
    if is_response(bytes) {
        first_mapped(
            bytes,
            STUN_HEADER_BYTES + be16(bytes, 2),
            STUN_HEADER_BYTES as int,
        )
    } else {
        None
    }
}

fn read_be16(bytes: &[u8], i: usize) -> (n: u16)
    requires
        i + 2 <= bytes@.len() <= usize::MAX,
    ensures
        n == be16(bytes@, i as int),
{
    bytes[i] as u16 * 256 + bytes[i + 1] as u16
}

fn read_mapped_address(bytes: &[u8], pos: usize) -> (address: SocketAddress)
    requires
        pos + 12 <= bytes@.len() <= usize::MAX,
    ensures
        address == mapped_address(bytes@, pos as int),
{
    let a: u8 = bytes[pos + 8] ^ 0x21;
    let b: u8 = bytes[pos + 9] ^ 0x12;
    let c: u8 = bytes[pos + 10] ^ 0xA4;
    let d: u8 = bytes[pos + 11] ^ 0x42;
    let bits: u32 = a as u32 * 0x100_0000 + b as u32 * 0x1_0000 + c as u32 * 0x100 + d as u32;
    ipv4_address(bits, read_be16(bytes, pos + 6) ^ 0x2112)
}

fn has_transaction(bytes: &[u8]) -> (r: bool)
    requires
        bytes@.len() >= STUN_HEADER_BYTES,
    ensures
        r == (bytes@.subrange(8, 20) == transaction()),
{
    let request = binding_request();
    let mut i: usize = 8;
    while i < 20
        invariant
            8 <= i <= 20 <= bytes@.len(),
            request@ == request_bytes(),
            forall|j: int| 8 <= j < i ==> bytes@[j] == request@[j],
        decreases 20 - i,
    {
        if bytes[i] != request[i] {
            assert(bytes@.subrange(8, 20)[i - 8] != transaction()[i - 8]);
            return false;
        }
        i = i + 1;
    }
    assert(bytes@.subrange(8, 20) =~= transaction());
    true
}

/// The longest wait for the answer of a STUN server, in milliseconds.
pub const STUN_TIMEOUT_MS: u64 = 2_000;

/// How long a STUN server's answer is awaited: no longer than the startup deadline allows.
pub fn stun_wait(remaining: Duration) -> (wait: Duration)
    ensures
        crate::boundary::duration_nanos(wait) == (if crate::boundary::duration_nanos(remaining)
            < STUN_TIMEOUT_MS * NANOS_PER_MILLI {
            crate::boundary::duration_nanos(remaining)
        } else {
            (STUN_TIMEOUT_MS * NANOS_PER_MILLI) as nat
        }),
{
    let longest = Duration::from_millis(STUN_TIMEOUT_MS);
    if remaining.as_nanos() < longest.as_nanos() {
        remaining
    } else {
        longest
    }
}

/// Reads the bytes that came back for a binding request.
pub fn parse_binding_response(bytes: &[u8]) -> (r: Option<SocketAddress>)
    ensures
        r == response_address(bytes@),
{
    if bytes.len() < STUN_HEADER_BYTES || !has_transaction(bytes) {
        return None;
    }
    if read_be16(bytes, 0) != BINDING_SUCCESS {
        return None;
    }
    let length: usize = read_be16(bytes, 2) as usize;
    if bytes.len() < STUN_HEADER_BYTES + length {
        return None;
    }
    let end: usize = STUN_HEADER_BYTES + length;
    let mut pos: usize = STUN_HEADER_BYTES;
    while pos + 4 <= end
        invariant
            is_response(bytes@),
            end == STUN_HEADER_BYTES + be16(bytes@, 2),
            end <= bytes@.len() <= usize::MAX,
            end <= 0x1_0013,
            pos <= 0x1_0013 + 0x1_0004,
            response_address(bytes@) == first_mapped(bytes@, end as int, pos as int),
        decreases end + 0x2_0000 - pos,
    {
        let kind: u16 = read_be16(bytes, pos);
        let len: u16 = read_be16(bytes, pos + 2);
        if kind == XOR_MAPPED_ADDRESS && len >= 8 {
            if pos + 12 > end {
                return None;
            }
            if bytes[pos + 5] == FAMILY_IPV4 {
                return Some(read_mapped_address(bytes, pos));
            }
        }
        pos = pos + 4 + (len as usize + 3) / 4 * 4;
    }
    None
}

// What holds of mapped addresses.

/// The response of a server that sees the sender at an IPv4 address.
pub open spec fn response_for(bits: u32, port: u16) -> Seq<u8> {
    let x_port = port ^ 0x2112;
    seq![0x01u8, 0x01, 0x00, 0x0C, 0x21, 0x12, 0xA4, 0x42] + transaction() + seq![
        0x00u8,
        0x20,
        0x00,
        0x08,
        0x00,
        FAMILY_IPV4,
        (x_port / 256) as u8,
        (x_port % 256) as u8,
        (bits / 0x100_0000) as u8 ^ 0x21,
        (bits / 0x1_0000 % 256) as u8 ^ 0x12,
        (bits / 0x100 % 256) as u8 ^ 0xA4,
        (bits % 256) as u8 ^ 0x42,
    ]
}

/// The address that a server put into its response is the address that is read from it.
pub proof fn mapped_addresses_read_back(bits: u32, port: u16)
    ensures
        response_address(response_for(bits, port)) == Some(
            crate::rtc::address::ipv4(bits, port),
        ),
{
    let bytes = response_for(bits, port);
    let x_port = port ^ 0x2112;
    assert((port ^ 0x2112) ^ 0x2112 == port) by (bit_vector);
    let a = (bits / 0x100_0000) as u8;
    let b = (bits / 0x1_0000 % 256) as u8;
    let c = (bits / 0x100 % 256) as u8;
    let d = (bits % 256) as u8;
    assert((a ^ 0x21) ^ 0x21 == a) by (bit_vector);
    assert((b ^ 0x12) ^ 0x12 == b) by (bit_vector);
    assert((c ^ 0xA4) ^ 0xA4 == c) by (bit_vector);
    assert((d ^ 0x42) ^ 0x42 == d) by (bit_vector);
    assert(bytes.subrange(8, 20) =~= transaction());
    assert(be16(bytes, 0) == BINDING_SUCCESS);
    assert(be16(bytes, 2) == 12);
    assert(be16(bytes, 20) == XOR_MAPPED_ADDRESS);
    assert(be16(bytes, 22) == 8);
    assert(be16(bytes, 26) == x_port);
    assert(mapped_address(bytes, 20) == crate::rtc::address::ipv4(bits, port));
}

/// A response that is cut short anywhere before its mapped address ends maps to none.
pub proof fn cut_off_responses_map_to_none(bits: u32, port: u16, n: int)
    requires
        0 <= n < response_for(bits, port).len(),
    ensures
        response_address(response_for(bits, port).take(n)) is None,
{
    let bytes = response_for(bits, port);
    assert(bytes.len() == 32);
    if n >= 20 {
        assert(be16(bytes.take(n), 2) == 12);
    }
}

} // verus!
