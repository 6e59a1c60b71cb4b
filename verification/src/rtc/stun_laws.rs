//! What holds of STUN responses as a whole.
use vstd::prelude::*;

use crate::rtc::address::{HostAddress, SocketAddress};

verus! {

/// An attribute of a response: its type, its value, and what fills its last word.
pub struct Attribute {
    pub kind: u16,
    pub value: Seq<u8>,
    pub fill: Seq<u8>,
}

/// Whether an attribute can be written: its length fits in two bytes, and it ends with a
/// whole word of four bytes that holds a part of its value.
pub open spec fn is_attribute(a: Attribute) -> bool {
    &&& a.value.len() < 0x1_0000
    &&& a.fill.len() < 4
    &&& exists|words: int| #[trigger] (4 * words) == a.value.len() + a.fill.len()
}

/// Whether an attribute maps no IPv4 address.
pub open spec fn maps_nothing(a: Attribute) -> bool {
    a.kind != 0x0020 || a.value.len() < 8 || a.value[1] != 1
}

/// A number in two bytes, the greater first.
pub open spec fn two_bytes(n: int) -> Seq<u8> {
    seq![(n / 256) as u8, (n % 256) as u8]
}

pub open spec fn written(a: Attribute) -> Seq<u8> {
    two_bytes(a.kind as int) + two_bytes(a.value.len() as int) + a.value + a.fill
}

pub open spec fn all_written(attributes: Seq<Attribute>) -> Seq<u8>
    decreases attributes.len(),
{
    if attributes.len() == 0 {
        Seq::empty()
    } else {
        written(attributes[0]) + all_written(attributes.drop_first())
    }
}

/// The value of a mapped address: a byte that says nothing, the family of IPv4, and port and
/// address under the magic cookie.
pub open spec fn mapped_value(unused: u8, bits: u32, port: u16) -> Seq<u8> {
    seq![
        unused,
        1u8,
        (port / 256) as u8 ^ 0x21,
        (port % 256) as u8 ^ 0x12,
        (bits / 0x100_0000) as u8 ^ 0x21,
        (bits / 0x1_0000 % 256) as u8 ^ 0x12,
        (bits / 0x100 % 256) as u8 ^ 0xA4,
        (bits % 256) as u8 ^ 0x42,
    ]
}

/// A success response with these attributes to the request that is sent. Its cookie is not
/// looked at, nor is what lies beyond its announced length.
pub open spec fn success(cookie: Seq<u8>, attributes: Seq<u8>, beyond: Seq<u8>) -> Seq<u8> {
    seq![1u8, 1u8] + two_bytes(attributes.len() as int) + cookie
        + crate::rtc::stun::request_bytes().subrange(8, 20) + attributes + beyond
}

proof fn lemma_success(cookie: Seq<u8>, attributes: Seq<u8>, beyond: Seq<u8>)
    requires
        cookie.len() == 4,
        attributes.len() < 0x1_0000,
    ensures
        crate::rtc::stun::is_response(success(cookie, attributes, beyond)),
        success(cookie, attributes, beyond).len() == 20 + attributes.len() + beyond.len(),
        crate::rtc::stun::be16(success(cookie, attributes, beyond), 2) == attributes.len(),
        forall|i: int|
            0 <= i < attributes.len() ==> (#[trigger] success(cookie, attributes, beyond)[20 + i])
                == attributes[i],
{
    let bytes = success(cookie, attributes, beyond);
    assert(bytes.subrange(8, 20) =~= crate::rtc::stun::transaction());
    assert(crate::rtc::stun::be16(bytes, 2) == attributes.len());
}

/// Reading goes on behind attributes that map nothing.
proof fn lemma_passed_over(bytes: Seq<u8>, end: int, pos: int, attributes: Seq<Attribute>)
    requires
        0 <= pos,
        pos + all_written(attributes).len() <= end <= bytes.len(),
        forall|i: int|
            0 <= i < attributes.len() ==> is_attribute(#[trigger] attributes[i]) && maps_nothing(
                attributes[i],
            ),
        bytes.subrange(pos, pos + all_written(attributes).len()) == all_written(attributes),
    ensures
        crate::rtc::stun::first_mapped(bytes, end, pos) == crate::rtc::stun::first_mapped(
            bytes,
            end,
            pos + all_written(attributes).len(),
        ),
    decreases attributes.len(),
{
    if attributes.len() > 0 {
        let a = attributes[0];
        let rest = attributes.drop_first();
        let whole = all_written(attributes);
        let first = written(a);
        assert(is_attribute(attributes[0]));
        let words = choose|words: int| #[trigger] (4 * words) == a.value.len() + a.fill.len();
        let part = bytes.subrange(pos, pos + whole.len());
        assert forall|i: int| 0 <= i < first.len() implies bytes[pos + i] == first[i] by {
            assert(part[i] == whole[i]);
        }
        assert(bytes[pos] == first[0] && bytes[pos + 1] == first[1] && bytes[pos + 2] == first[2]
            && bytes[pos + 3] == first[3]);
        assert(crate::rtc::stun::be16(bytes, pos) == a.kind);
        assert(crate::rtc::stun::be16(bytes, pos + 2) == a.value.len());
        assert(crate::rtc::stun::padded(a.value.len() as int) == a.value.len() + a.fill.len());
        if a.value.len() >= 8 {
            assert(bytes[pos + 5] == first[5]);
            assert(first[5] == a.value[1]);
        }
        let next = pos + first.len();
        assert(bytes.subrange(next, next + all_written(rest).len()) =~= all_written(rest)) by {
            assert forall|i: int| 0 <= i < all_written(rest).len() implies bytes[next + i]
                == all_written(rest)[i] by {
                assert(part[first.len() + i] == whole[first.len() + i]);
            }
        }
        assert forall|i: int| 0 <= i < rest.len() implies is_attribute(#[trigger] rest[i])
            && maps_nothing(rest[i]) by {
            assert(rest[i] == attributes[i + 1]);
        }
        lemma_passed_over(bytes, end, next, rest);
    }
}

proof fn lemma_ports(port: u16)
    ensures
        ((((port / 256) as u8 ^ 0x21) * 256 + ((port % 256) as u8 ^ 0x12)) as u16) ^ 0x2112 == port,
{
    let a = (port / 256) as u8;
    let b = (port % 256) as u8;
    assert(((((a ^ 0x21u8) as u16) * 256u16 + ((b ^ 0x12u8) as u16)) as u16) ^ 0x2112u16 == (a as u16)
        * 256u16 + (b as u16)) by (bit_vector);
}

proof fn lemma_mapped_at(
    bytes: Seq<u8>,
    end: int,
    pos: int,
    len: u16,
    unused: u8,
    bits: u32,
    port: u16,
)
    requires
        0 <= pos <= pos + 12 <= end <= bytes.len(),
        len >= 8,
        bytes.subrange(pos, pos + 12) == two_bytes(0x0020) + two_bytes(len as int) + mapped_value(
            unused,
            bits,
            port,
        ),
    ensures
        crate::rtc::stun::first_mapped(bytes, end, pos) == Some(
            SocketAddress { host: HostAddress::V4(bits), port, flow_info: 0, scope_id: 0 },
        ),
{
    let value = mapped_value(unused, bits, port);
    let own = bytes.subrange(pos, pos + 12);
    assert(own[0] == bytes[pos] && own[1] == bytes[pos + 1]);
    assert(own[2] == bytes[pos + 2] && own[3] == bytes[pos + 3]);
    assert(own[5] == bytes[pos + 5] && own[5] == value[1]);
    assert(own[6] == bytes[pos + 6] && own[6] == value[2]);
    assert(own[7] == bytes[pos + 7] && own[7] == value[3]);
    assert(own[8] == bytes[pos + 8] && own[8] == value[4]);
    assert(own[9] == bytes[pos + 9] && own[9] == value[5]);
    assert(own[10] == bytes[pos + 10] && own[10] == value[6]);
    assert(own[11] == bytes[pos + 11] && own[11] == value[7]);
    assert(crate::rtc::stun::be16(bytes, pos) == 0x0020);
    assert(crate::rtc::stun::be16(bytes, pos + 2) == len);
    lemma_ports(port);
    let a = (bits / 0x100_0000) as u8;
    let b = (bits / 0x1_0000 % 256) as u8;
    let c = (bits / 0x100 % 256) as u8;
    let d = (bits % 256) as u8;
    assert((a ^ 0x21) ^ 0x21 == a) by (bit_vector);
    assert((b ^ 0x12) ^ 0x12 == b) by (bit_vector);
    assert((c ^ 0xA4) ^ 0xA4 == c) by (bit_vector);
    assert((d ^ 0x42) ^ 0x42 == d) by (bit_vector);
}

/// The address that a server maps the sender to is the address that is read, whatever other
/// attributes stand before it, whatever length of at least eight it announces, and whatever
/// follows.
pub proof fn mapped_addresses_are_found(
    cookie: Seq<u8>,
    before: Seq<Attribute>,
    len: u16,
    unused: u8,
    bits: u32,
    port: u16,
    behind: Seq<u8>,
    beyond: Seq<u8>,
)
    requires
        cookie.len() == 4,
        len >= 8,
        forall|i: int|
            0 <= i < before.len() ==> is_attribute(#[trigger] before[i]) && maps_nothing(before[i]),
        all_written(before).len() + 12 + behind.len() < 0x1_0000,
    ensures
        crate::rtc::stun::response_address(
            success(
                cookie,
                all_written(before) + two_bytes(0x0020) + two_bytes(len as int) + mapped_value(
                    unused,
                    bits,
                    port,
                ) + behind,
                beyond,
            ),
        ) == Some(
            SocketAddress { host: HostAddress::V4(bits), port, flow_info: 0, scope_id: 0 },
        ),
{
    let ahead = all_written(before);
    let value = mapped_value(unused, bits, port);
    let attributes = ahead + two_bytes(0x0020) + two_bytes(len as int) + value + behind;
    let bytes = success(cookie, attributes, beyond);
    let end = 20 + attributes.len();
    let pos = 20 + ahead.len() as int;
    lemma_success(cookie, attributes, beyond);
    assert(bytes.subrange(20, pos) =~= ahead) by {
        assert forall|i: int| 0 <= i < ahead.len() implies bytes[20 + i] == ahead[i] by {
            assert(bytes[20 + i] == attributes[i]);
        }
    }
    lemma_passed_over(bytes, end as int, 20, before);
    let own = two_bytes(0x0020) + two_bytes(len as int) + value;
    assert(bytes.subrange(pos, pos + 12) =~= own) by {
        assert forall|i: int| 0 <= i < 12 implies bytes[pos + i] == own[i] by {
            assert(bytes[20 + (ahead.len() + i)] == attributes[ahead.len() + i]);
            assert(attributes =~= ahead + own + behind);
        }
    }
    lemma_mapped_at(bytes, end as int, pos, len, unused, bits, port);
}

/// A response in which no attribute maps an IPv4 address maps the sender to none. A few bytes
/// at its end, too few for an attribute, change nothing.
pub proof fn other_attributes_map_to_none(
    cookie: Seq<u8>,
    attributes: Seq<Attribute>,
    tail: Seq<u8>,
    beyond: Seq<u8>,
)
    requires
        cookie.len() == 4,
        tail.len() < 4,
        forall|i: int|
            0 <= i < attributes.len() ==> is_attribute(#[trigger] attributes[i]) && maps_nothing(
                attributes[i],
            ),
        all_written(attributes).len() + tail.len() < 0x1_0000,
    ensures
        crate::rtc::stun::response_address(
            success(cookie, all_written(attributes) + tail, beyond),
        ) is None,
{
    let all = all_written(attributes);
    let whole = all + tail;
    let bytes = success(cookie, whole, beyond);
    lemma_success(cookie, whole, beyond);
    assert(bytes.subrange(20, 20 + all.len() as int) =~= all) by {
        assert forall|i: int| 0 <= i < all.len() implies bytes[20 + i] == all[i] by {
            assert(bytes[20 + i] == whole[i]);
        }
    }
    lemma_passed_over(bytes, 20 + whole.len() as int, 20, attributes);
}

/// What is no whole success response to the request that was sent maps the sender to none:
/// bytes that are too few for a header, of another type, for another transaction, or cut
/// short of the length that they announce.
pub proof fn strangers_map_to_none(bytes: Seq<u8>)
    requires
        bytes.len() < 20 || bytes[0] != 1 || bytes[1] != 1 || bytes.subrange(8, 20)
            != crate::rtc::stun::request_bytes().subrange(8, 20) || bytes.len() < 20 + bytes[2] * 256
            + bytes[3],
    ensures
        crate::rtc::stun::response_address(bytes) is None,
{
    assert(crate::rtc::stun::request_bytes().subrange(8, 20) =~= crate::rtc::stun::transaction());
}

/// A request asks for a binding and nothing else: its type, no attributes, and the magic
/// cookie, with a transaction number of twelve bytes.
pub proof fn requests_ask_for_a_binding()
    ensures
        crate::rtc::stun::request_bytes().len() == 20,
        crate::rtc::stun::request_bytes().take(8) == seq![
            0u8, 1, 0, 0, 0x21, 0x12, 0xA4, 0x42,
        ],
{
    assert(crate::rtc::stun::request_bytes().take(8) =~= seq![
        0u8, 1, 0, 0, 0x21, 0x12, 0xA4, 0x42,
    ]);
}

} // verus!
