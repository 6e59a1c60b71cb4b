//! JSON texts in their compact form.
use vstd::prelude::*;

use crate::boundary::json_quote;
use crate::text::{append_chars, to_chars};

verus! {

pub open spec fn hex_digit(n: int) -> char {
    if n < 10 {
        (48 + n) as char
    } else {
        (87 + n) as char
    }
}

/// A character inside a JSON string.
pub open spec fn json_char(c: char) -> Seq<char> {
    if c == '"' || c == '\\' {
        seq!['\\', c]
    } else if c == '\u{8}' {
        seq!['\\', 'b']
    } else if c == '\t' {
        seq!['\\', 't']
    } else if c == '\n' {
        seq!['\\', 'n']
    } else if c == '\u{c}' {
        seq!['\\', 'f']
    } else if c == '\r' {
        seq!['\\', 'r']
    } else if ' ' > c {
        seq!['\\', 'u', '0', '0', hex_digit(c as int / 16), hex_digit(c as int % 16)]
    } else {
        seq![c]
    }
}

pub open spec fn json_chars(text: Seq<char>) -> Seq<char>
    decreases text.len(),
{
    if text.len() == 0 {
        Seq::empty()
    } else {
        json_chars(text.drop_last()) + json_char(text.last())
    }
}

/// The JSON string that stands for a text.
pub open spec fn json_string(text: Seq<char>) -> Seq<char> {
    seq!['"'] + json_chars(text) + seq!['"']
}

/// Items with commas between them.
pub open spec fn joined(items: Seq<Seq<char>>) -> Seq<char>
    decreases items.len(),
{
    if items.len() == 0 {
        Seq::empty()
    } else if items.len() == 1 {
        items[0]
    } else {
        joined(items.drop_last()) + seq![','] + items.last()
    }
}

pub open spec fn json_array(items: Seq<Seq<char>>) -> Seq<char> {
    seq!['['] + joined(items) + seq![']']
}

pub open spec fn json_object(members: Seq<Seq<char>>) -> Seq<char> {
    seq!['{'] + joined(members) + seq!['}']
}

pub open spec fn json_member(name: Seq<char>, value: Seq<char>) -> Seq<char> {
    json_string(name) + seq![':'] + value
}

/// The JSON string that stands for a text.
pub fn string(text: &str) -> (v: Vec<char>)
    ensures
        v@ == json_string(text@),
{
    let quoted = json_quote(text);
    to_chars(quoted.as_str())
}

fn join(items: &Vec<Vec<char>>, open: char, close: char) -> (v: Vec<char>)
    ensures
        v@ == seq![open] + joined(crate::text::views(items@)) + seq![close],
{
    let ghost all = crate::text::views(items@);
    let mut v: Vec<char> = Vec::new();
    v.push(open);
    let mut i: usize = 0;
    assert(joined(all.take(0)) =~= Seq::empty());
    while i < items.len()
        invariant
            i <= items@.len(),
            all == crate::text::views(items@),
            v@ == seq![open] + joined(all.take(i as int)),
        decreases items.len() - i,
    {
        let ghost before = all.take(i as int);
        let ghost next = all.take(i + 1);
        proof {
            assert(next.drop_last() =~= before);
            assert(next.last() == items@[i as int]@);
        }
        if i > 0 {
            v.push(',');
        }
        append_chars(&mut v, items[i].as_slice());
        proof {
            if i > 0 {
                assert(v@ =~= seq![open] + (joined(before) + seq![','] + next.last()));
            } else {
                assert(next[0] == next.last());
                assert(v@ =~= seq![open] + next.last());
            }
        }
        i = i + 1;
    }
    assert(all.take(i as int) =~= all);
    v.push(close);
    assert(v@ =~= seq![open] + joined(all) + seq![close]);
    v
}

/// The JSON array of the items.
pub fn array(items: &Vec<Vec<char>>) -> (v: Vec<char>)
    ensures
        v@ == json_array(crate::text::views(items@)),
{
    join(items, '[', ']')
}

/// The JSON object with the members.
pub fn object(members: &Vec<Vec<char>>) -> (v: Vec<char>)
    ensures
        v@ == json_object(crate::text::views(members@)),
{
    join(members, '{', '}')
}

/// A member of a JSON object.
pub fn member(name: &str, value: Vec<char>) -> (v: Vec<char>)
    ensures
        v@ == json_member(name@, value@),
{
    let mut v = string(name);
    v.push(':');
    append_chars(&mut v, value.as_slice());
    assert(v@ =~= json_member(name@, value@));
    v
}

} // verus!
