//! What is written to the relay and to Core, said in full.
use vstd::prelude::*;

use crate::rtc::signaling::{LeaveMsg, PublishBusBinding, PublishMsg};

verus! {

/// A text as JSON has it.
pub open spec fn quoted(text: Seq<char>) -> Seq<char> {
    crate::json::json_string(text)
}

/// A name and what stands under it.
pub open spec fn named(name: Seq<char>, value: Seq<char>) -> Seq<char> {
    quoted(name) + seq![':'] + value
}

/// The items in order, with a comma before each but the first.
pub open spec fn listed(items: Seq<Seq<char>>) -> Seq<char>
    decreases items.len(),
{
    if items.len() == 0 {
        Seq::empty()
    } else if items.len() == 1 {
        items[0]
    } else {
        items[0] + seq![','] + listed(items.drop_first())
    }
}

proof fn lemma_joined_first(items: Seq<Seq<char>>)
    requires
        items.len() > 1,
    ensures
        crate::json::joined(items) == items[0] + seq![','] + crate::json::joined(
            items.drop_first(),
        ),
    decreases items.len(),
{
    let rest = items.drop_first();
    let front = items.drop_last();
    if items.len() == 2 {
        assert(front.len() == 1 && front[0] == items[0]);
        assert(rest.len() == 1 && rest[0] == items[1]);
        assert(crate::json::joined(front) == items[0]);
        assert(crate::json::joined(rest) == items[1]);
    } else {
        lemma_joined_first(front);
        assert(front.drop_first() =~= rest.drop_last());
        assert(rest.last() == items.last());
        assert(crate::json::joined(items) =~= items[0] + seq![','] + crate::json::joined(rest));
    }
}

/// Lists are written with a comma between each two of their items, in order.
pub proof fn lists_are_written_in_order(items: Seq<Seq<char>>)
    ensures
        crate::json::joined(items) == listed(items),
        crate::json::json_array(items) == seq!['['] + listed(items) + seq![']'],
        crate::json::json_object(items) == seq!['{'] + listed(items) + seq!['}'],
    decreases items.len(),
{
    if items.len() > 1 {
        lemma_joined_first(items);
        lists_are_written_in_order(items.drop_first());
    }
}

/// The items in order, with a comma before each.
spec fn followed(items: Seq<Seq<char>>) -> Seq<char>
    decreases items.len(),
{
    if items.len() == 0 {
        Seq::empty()
    } else {
        seq![','] + items[0] + followed(items.drop_first())
    }
}

proof fn lemma_listed_followed(items: Seq<Seq<char>>)
    requires
        items.len() > 0,
    ensures
        listed(items) == items[0] + followed(items.drop_first()),
    decreases items.len(),
{
    if items.len() > 1 {
        lemma_listed_followed(items.drop_first());
        assert(listed(items) =~= items[0] + followed(items.drop_first()));
    } else {
        assert(listed(items) =~= items[0] + followed(items.drop_first()));
    }
}

proof fn lemma_followed_by_two(items: Seq<Seq<char>>)
    requires
        items.len() <= 2,
    ensures
        items.len() == 0 ==> followed(items) == Seq::<char>::empty(),
        items.len() == 1 ==> followed(items) == seq![','] + items[0],
        items.len() == 2 ==> followed(items) == seq![','] + items[0] + (seq![','] + items[1]),
{
    if items.len() == 1 {
        assert(followed(items.drop_first()) =~= Seq::<char>::empty());
        assert(followed(items) =~= seq![','] + items[0]);
    } else if items.len() == 2 {
        let rest = items.drop_first();
        assert(rest.len() == 1 && rest[0] == items[1]);
        assert(followed(rest.drop_first()) =~= Seq::<char>::empty());
        assert(followed(rest) =~= seq![','] + items[1]);
    }
}

proof fn lemma_object_of_four(members: Seq<Seq<char>>, tail: Seq<Seq<char>>)
    requires
        members.len() >= 4,
        tail == members.subrange(4, members.len() as int),
    ensures
        crate::json::json_object(members) == seq!['{'] + members[0] + seq![','] + members[1] + seq![
            ',',
        ] + members[2] + seq![','] + members[3] + followed(tail) + seq!['}'],
{
    lists_are_written_in_order(members);
    lemma_listed_followed(members);
    let a = members.drop_first();
    let b = a.drop_first();
    let c = b.drop_first();
    assert(c.drop_first() =~= tail);
    assert(followed(a) == seq![','] + members[1] + followed(b));
    assert(followed(b) == seq![','] + members[2] + followed(c));
    assert(followed(c) == seq![','] + members[3] + followed(tail));
    assert(crate::json::json_object(members) =~= seq!['{'] + members[0] + seq![','] + members[1]
        + seq![','] + members[2] + seq![','] + members[3] + followed(tail) + seq!['}']);
}

proof fn lemma_regrouped(a: Seq<char>, b: Seq<char>, c: Seq<char>, d: Seq<char>)
    ensures
        a + (b + c) + d == a + b + c + d,
{
    assert(a + (b + c) + d =~= a + b + c + d);
}

/// A stream and the AudioBus that it carries.
pub open spec fn binding_text(binding: PublishBusBinding) -> Seq<char> {
    seq!['{'] + named("stream_id"@, quoted(binding.stream_id@)) + seq![','] + named(
        "bus_id"@,
        quoted(binding.bus_id@),
    ) + seq!['}']
}

/// A request to publish says its type, the room, the token and the offer, and then a single
/// AudioBus where it has one, and its AudioBuses in order, each with its stream, where it has
/// any. It says nothing else.
pub proof fn publish_requests_say_everything(msg: PublishMsg)
    ensures
        crate::json::json_object(crate::rtc::signaling::publish_members(msg)) == seq!['{'] + named(
            "type"@,
            quoted(msg.msg_type@),
        ) + seq![','] + named("room_id"@, quoted(msg.room_id@)) + seq![','] + named(
            "token"@,
            quoted(msg.token@),
        ) + seq![','] + named("sdp_offer"@, quoted(msg.sdp_offer@)) + (match msg.bus_id {
            Some(bus_id) => seq![','] + named("bus_id"@, quoted(bus_id@)),
            None => Seq::empty(),
        }) + (if msg.publish_buses@.len() > 0 {
            seq![','] + named(
                "publish_buses"@,
                seq!['['] + listed(
                    Seq::new(
                        msg.publish_buses@.len(),
                        |i: int| binding_text(msg.publish_buses@[i]),
                    ),
                ) + seq![']'],
            )
        } else {
            Seq::empty()
        }) + seq!['}'],
{
    let members = crate::rtc::signaling::publish_members(msg);
    let buses = msg.publish_buses@;
    let items = buses.map_values(
        |b: PublishBusBinding|
            crate::rtc::signaling::binding_json(b.stream_id@, b.bus_id@),
    );
    let texts = Seq::new(buses.len(), |i: int| binding_text(buses[i]));
    assert forall|i: int| 0 <= i < buses.len() implies items[i] == texts[i] by {
        let b = buses[i];
        let pair = seq![
            crate::rtc::signaling::text_member("stream_id"@, b.stream_id@),
            crate::rtc::signaling::text_member("bus_id"@, b.bus_id@),
        ];
        lists_are_written_in_order(pair);
        assert(pair.drop_first() =~= seq![pair[1]]);
        reveal_with_fuel(listed, 3);
        assert(items[i] =~= texts[i]);
    }
    assert(items =~= texts);
    lists_are_written_in_order(items);
    let tail = members.subrange(4, members.len() as int);
    assert(members =~= seq![
        named("type"@, quoted(msg.msg_type@)),
        named("room_id"@, quoted(msg.room_id@)),
        named("token"@, quoted(msg.token@)),
        named("sdp_offer"@, quoted(msg.sdp_offer@)),
    ] + tail);
    lemma_object_of_four(members, tail);
    let bus_text = (match msg.bus_id {
        Some(bus_id) => seq![','] + named("bus_id"@, quoted(bus_id@)),
        None => Seq::empty(),
    });
    let buses_text = (if buses.len() > 0 {
        seq![','] + named("publish_buses"@, seq!['['] + listed(texts) + seq![']'])
    } else {
        Seq::empty()
    });
    assert(followed(tail) =~= bus_text + buses_text) by {
        if msg.bus_id is Some {
            assert(tail[0] == named("bus_id"@, quoted(msg.bus_id->0@)));
        }
        if buses.len() > 0 {
            assert(tail.last() == named("publish_buses"@, seq!['['] + listed(texts) + seq![']']));
        }
        lemma_followed_by_two(tail);
    }
    let head = seq!['{'] + members[0] + seq![','] + members[1] + seq![','] + members[2] + seq![',']
        + members[3];
    lemma_regrouped(head, bus_text, buses_text, seq!['}']);
}

/// A notice that the publisher leaves says its type and the room.
pub proof fn leave_notices_say_everything(msg: LeaveMsg)
    ensures
        crate::json::json_object(crate::rtc::signaling::leave_members(msg)) == seq!['{'] + named(
            "type"@,
            quoted(msg.msg_type@),
        ) + seq![','] + named("room_id"@, quoted(msg.room_id@)) + seq!['}'],
{
    let members = crate::rtc::signaling::leave_members(msg);
    lists_are_written_in_order(members);
    assert(members.drop_first() =~= seq![members[1]]);
    reveal_with_fuel(listed, 3);
    assert(crate::json::json_object(members) =~= seq!['{'] + members[0] + seq![','] + members[1]
        + seq!['}']);
}

/// A stored server: its URLs in order, and neither user name nor credential.
pub open spec fn server_text(urls: Seq<Seq<char>>) -> Seq<char> {
    seq!['{'] + named(
        "urls"@,
        seq!['['] + listed(Seq::new(urls.len(), |i: int| quoted(urls[i]))) + seq![']'],
    ) + seq![','] + named("username"@, "null"@) + seq![','] + named("credential"@, "null"@)
        + seq!['}']
}

/// Servers are stored in order, each with its URLs in order and without credentials.
pub proof fn servers_are_stored_in_order(servers: Seq<Seq<Seq<char>>>)
    ensures
        crate::ice_server::servers_json(servers) == seq!['['] + listed(
            Seq::new(servers.len(), |i: int| server_text(servers[i])),
        ) + seq![']'],
{
    let items = servers.map_values(
        |urls: Seq<Seq<char>>| crate::ice_server::server_json(urls),
    );
    let texts = Seq::new(servers.len(), |i: int| server_text(servers[i]));
    assert forall|i: int| 0 <= i < servers.len() implies items[i] == texts[i] by {
        let urls = servers[i];
        let strings = urls.map_values(|url: Seq<char>| crate::json::json_string(url));
        assert(strings =~= Seq::new(urls.len(), |j: int| quoted(urls[j])));
        lists_are_written_in_order(strings);
        let members = seq![
            crate::json::json_member("urls"@, crate::ice_server::urls_json(urls)),
            crate::json::json_member("username"@, "null"@),
            crate::json::json_member("credential"@, "null"@),
        ];
        lists_are_written_in_order(members);
        let a = members.drop_first();
        let b = a.drop_first();
        assert(b.len() == 1);
        assert(listed(members) == members[0] + seq![','] + listed(a));
        assert(listed(a) == a[0] + seq![','] + listed(b));
        assert(items[i] =~= texts[i]);
    }
    assert(items =~= texts);
    lists_are_written_in_order(items);
}

} // verus!
