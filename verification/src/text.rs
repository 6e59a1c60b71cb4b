//! Text as sequences of Unicode scalar values.
//!
//! Every rule about labels, URLs and SDP lines is stated over `Seq<char>`. The
//! executable side works on `Vec<char>` and `&[char]`, converting from and to
//! `str` and `String` at its edges.
use vstd::prelude::*;
use vstd::slice::slice_subrange;
use vstd::string::StrSliceExecFns;

verus! {

/// `String::push`: appends one character to the end of the string.
pub assume_specification[ String::push ](text: &mut String, character: char)
    ensures
        final(text)@ == old(text)@.push(character),
;

/// The number of bytes that the text takes in UTF-8.
pub open spec fn byte_len(text: Seq<char>) -> nat {
    vstd::utf8::encode_utf8(text).len()
}

/// The characters with the Unicode `White_Space` property.
pub open spec fn white_space(c: char) -> bool {
    ||| '\u{9}' <= c <= '\u{d}'
    ||| c == ' '
    ||| c == '\u{85}'
    ||| c == '\u{a0}'
    ||| c == '\u{1680}'
    ||| '\u{2000}' <= c <= '\u{200a}'
    ||| c == '\u{2028}'
    ||| c == '\u{2029}'
    ||| c == '\u{202f}'
    ||| c == '\u{205f}'
    ||| c == '\u{3000}'
}

/// Without its leading white space.
pub open spec fn trim_start(s: Seq<char>) -> Seq<char>
    decreases s.len(),
{
    if s.len() > 0 && white_space(s[0]) {
        trim_start(s.drop_first())
    } else {
        s
    }
}

/// Without its trailing white space.
pub open spec fn trim_end(s: Seq<char>) -> Seq<char>
    decreases s.len(),
{
    if s.len() > 0 && white_space(s.last()) {
        trim_end(s.drop_last())
    } else {
        s
    }
}

/// Without its leading and trailing white space.
pub open spec fn trim(s: Seq<char>) -> Seq<char> {
    trim_end(trim_start(s))
}

/// Nothing is left once white space is trimmed.
pub open spec fn blank(s: Seq<char>) -> bool {
    forall|i: int| 0 <= i < s.len() ==> white_space(#[trigger] s[i])
}

pub open spec fn starts_with(s: Seq<char>, prefix: Seq<char>) -> bool {
    prefix.len() <= s.len() && s.take(prefix.len() as int) == prefix
}

/// The index of the first `c` in `s`, or the length of `s` if there is none.
pub open spec fn find(s: Seq<char>, c: char) -> int
    decreases s.len(),
{
    if s.len() == 0 || s[0] == c {
        0
    } else {
        1 + find(s.drop_first(), c)
    }
}

pub open spec fn ascii_lower(c: char) -> char {
    if 'A' <= c <= 'Z' {
        ((c as u32) + 32) as char
    } else {
        c
    }
}

/// With each ASCII capital replaced by its small letter.
pub open spec fn lower(s: Seq<char>) -> Seq<char> {
    s.map_values(|c: char| ascii_lower(c))
}

/// The views of a list of character vectors.
pub open spec fn views(v: Seq<Vec<char>>) -> Seq<Seq<char>> {
    v.map_values(|x: Vec<char>| x@)
}

/// `v` is the characters of `s`.
pub fn to_chars(s: &str) -> (v: Vec<char>)
    ensures
        v@ == s@,
{
    let mut v: Vec<char> = Vec::new();
    for c in it: s.chars()
        invariant
            v@ == it.seq().take(it.index() as int),
            it.seq() == s@,
    {
        v.push(c);
    }
    v
}

pub fn push_chars(out: &mut String, chars: &[char])
    ensures
        final(out)@ == old(out)@ + chars@,
{
    let mut i: usize = 0;
    while i < chars.len()
        invariant
            i <= chars@.len(),
            out@ == old(out)@ + chars@.take(i as int),
        decreases chars.len() - i,
    {
        out.push(chars[i]);
        i = i + 1;
        assert(chars@.take(i as int) == chars@.take(i - 1).push(chars@[i - 1]));
    }
    assert(chars@.take(i as int) == chars@);
}

pub fn from_chars(chars: &[char]) -> (s: String)
    ensures
        s@ == chars@,
{
    let mut s = String::new();
    push_chars(&mut s, chars);
    s
}

pub fn copy_chars(chars: &[char]) -> (v: Vec<char>)
    ensures
        v@ == chars@,
{
    let mut v: Vec<char> = Vec::new();
    append_chars(&mut v, chars);
    v
}

pub fn append_chars(out: &mut Vec<char>, chars: &[char])
    ensures
        final(out)@ == old(out)@ + chars@,
{
    let mut i: usize = 0;
    while i < chars.len()
        invariant
            i <= chars@.len(),
            out@ == old(out)@ + chars@.take(i as int),
        decreases chars.len() - i,
    {
        out.push(chars[i]);
        i = i + 1;
    }
    assert(chars@.take(i as int) == chars@);
}

pub fn append_str(out: &mut Vec<char>, text: &str)
    ensures
        final(out)@ == old(out)@ + text@,
{
    let chars = to_chars(text);
    append_chars(out, chars.as_slice());
}

pub fn chars_eq(a: &[char], b: &[char]) -> (r: bool)
    ensures
        r == (a@ == b@),
{
    if a.len() != b.len() {
        return false;
    }
    let mut i: usize = 0;
    while i < a.len()
        invariant
            i <= a@.len(),
            a@.len() == b@.len(),
            forall|j: int| 0 <= j < i ==> a@[j] == b@[j],
        decreases a.len() - i,
    {
        if a[i] != b[i] {
            return false;
        }
        i = i + 1;
    }
    assert(a@ =~= b@);
    true
}

/// Equality of two strings.
pub fn text_eq(a: &str, b: &str) -> (r: bool)
    ensures
        r == (a@ == b@),
{
    let a = to_chars(a);
    let b = to_chars(b);
    chars_eq(a.as_slice(), b.as_slice())
}

pub fn has_prefix(s: &[char], prefix: &[char]) -> (r: bool)
    ensures
        r == starts_with(s@, prefix@),
{
    if prefix.len() > s.len() {
        return false;
    }
    chars_eq(slice_subrange(s, 0, prefix.len()), prefix)
}

pub fn is_white_space(c: char) -> (r: bool)
    ensures
        r == white_space(c),
{
    ('\u{9}' <= c && c <= '\u{d}') || c == ' ' || c == '\u{85}' || c == '\u{a0}' || c == '\u{1680}'
        || ('\u{2000}' <= c && c <= '\u{200a}') || c == '\u{2028}' || c == '\u{2029}' || c
        == '\u{202f}' || c == '\u{205f}' || c == '\u{3000}'
}

pub fn index_of(s: &[char], c: char) -> (r: usize)
    ensures
        r == find(s@, c),
        r <= s@.len(),
{
    let mut i: usize = 0;
    proof {
        assert(s@.skip(0) == s@);
    }
    while i < s.len() && s[i] != c
        invariant
            i <= s@.len(),
            find(s@, c) == i + find(s@.skip(i as int), c),
        decreases s.len() - i,
    {
        proof {
            assert(s@.skip(i as int).drop_first() == s@.skip(i + 1));
        }
        i = i + 1;
    }
    i
}

pub fn trimmed(s: &[char]) -> (r: &[char])
    ensures
        r@ == trim(s@),
{
    let mut start: usize = 0;
    proof {
        assert(s@.skip(0) == s@);
    }
    while start < s.len() && is_white_space(s[start])
        invariant
            start <= s@.len(),
            trim_start(s@) == trim_start(s@.skip(start as int)),
        decreases s.len() - start,
    {
        proof {
            assert(s@.skip(start as int).drop_first() == s@.skip(start + 1));
        }
        start = start + 1;
    }
    let rest = slice_subrange(s, start, s.len());
    proof {
        assert(rest@ == s@.skip(start as int));
        assert(rest@.take(rest@.len() as int) == rest@);
    }
    let mut end: usize = rest.len();
    while end > 0 && is_white_space(rest[end - 1])
        invariant
            end <= rest@.len(),
            trim_end(rest@) == trim_end(rest@.take(end as int)),
        decreases end,
    {
        proof {
            assert(rest@.take(end as int).drop_last() == rest@.take(end - 1));
        }
        end = end - 1;
    }
    slice_subrange(rest, 0, end)
}

pub fn is_blank(s: &[char]) -> (r: bool)
    ensures
        r == blank(s@),
{
    let mut i: usize = 0;
    while i < s.len()
        invariant
            i <= s@.len(),
            forall|j: int| 0 <= j < i ==> white_space(#[trigger] s@[j]),
        decreases s.len() - i,
    {
        if !is_white_space(s[i]) {
            return false;
        }
        i = i + 1;
    }
    true
}

/// Whether a text holds a colon.
pub fn has_colon(text: &str) -> (r: bool)
    ensures
        r == text@.contains(':'),
{
    let mut i: usize = 0;
    let n = text.unicode_len();
    while i < n
        invariant
            i <= n == text@.len(),
            forall|j: int| 0 <= j < i ==> text@[j] != ':',
        decreases n - i,
    {
        if text.get_char(i) == ':' {
            assert(text@[i as int] == ':');
            return true;
        }
        i = i + 1;
    }
    false
}

// Texts within texts.

pub open spec fn occurs_at(s: Seq<char>, part: Seq<char>, i: int) -> bool {
    0 <= i && i + part.len() <= s.len() && s.subrange(i, i + part.len()) == part
}

/// Whether a text occurs within another.
pub open spec fn holds_text(s: Seq<char>, part: Seq<char>) -> bool {
    exists|i: int| occurs_at(s, part, i)
}

/// Whether a text first occurs within another at `i`.
pub open spec fn first_at(s: Seq<char>, part: Seq<char>, i: int) -> bool {
    occurs_at(s, part, i) && forall|j: int| 0 <= j < i ==> !occurs_at(s, part, j)
}

/// A text with the first occurrence of a part replaced.
pub open spec fn replace_first(s: Seq<char>, part: Seq<char>, with: Seq<char>) -> Seq<char> {
    if holds_text(s, part) {
        let i = choose|i: int| first_at(s, part, i);
        s.take(i) + with + s.skip(i + part.len())
    } else {
        s
    }
}

/// A text is replaced where it first occurs.
pub proof fn lemma_replace_first(s: Seq<char>, part: Seq<char>, with: Seq<char>, i: int)
    requires
        first_at(s, part, i),
    ensures
        replace_first(s, part, with) == s.take(i) + with + s.skip(i + part.len()),
{
    let k = choose|k: int| first_at(s, part, k);
    assert(k == i);
}

/// Where a text first occurs within another.
pub fn find_text(s: &[char], part: &[char]) -> (r: Option<usize>)
    ensures
        r is Some <==> holds_text(s@, part@),
        r matches Some(i) ==> first_at(s@, part@, i as int),
{
    if part.len() > s.len() {
        return None;
    }
    let last: usize = s.len() - part.len();
    let mut i: usize = 0;
    while i <= last
        invariant
            last + part@.len() == s@.len() <= usize::MAX,
            i <= last + 1,
            forall|j: int| 0 <= j < i ==> !occurs_at(s@, part@, j),
        decreases last + 1 - i,
    {
        if chars_eq(slice_subrange(s, i, i + part.len()), part) {
            assert(occurs_at(s@, part@, i as int));
            return Some(i);
        }
        if i == last {
            return None;
        }
        i = i + 1;
    }
    None
}

/// A text with the first occurrence of a part replaced.
pub fn replaced_first(s: &[char], part: &[char], with: &[char]) -> (v: Vec<char>)
    ensures
        v@ == replace_first(s@, part@, with@),
{
    match find_text(s, part) {
        Some(i) => {
            proof {
                lemma_replace_first(s@, part@, with@, i as int);
            }
            let mut v = copy_chars(slice_subrange(s, 0, i));
            append_chars(&mut v, with);
            let end: usize = s.len();
            append_chars(&mut v, slice_subrange(s, i + part.len(), end));
            assert(v@ =~= replace_first(s@, part@, with@));
            v
        },
        None => copy_chars(s),
    }
}

/// A text without the repetitions of a prefix at its start.
pub open spec fn without_prefixes(s: Seq<char>, prefix: Seq<char>) -> Seq<char>
    decreases s.len(),
{
    if prefix.len() > 0 && starts_with(s, prefix) {
        without_prefixes(s.skip(prefix.len() as int), prefix)
    } else {
        s
    }
}

pub fn skip_prefixes<'a>(s: &'a [char], prefix: &[char]) -> (r: &'a [char])
    ensures
        r@ == without_prefixes(s@, prefix@),
{
    let mut rest = s;
    while prefix.len() > 0 && has_prefix(rest, prefix)
        invariant
            without_prefixes(s@, prefix@) == without_prefixes(rest@, prefix@),
        decreases rest@.len(),
    {
        let next = slice_subrange(rest, prefix.len(), rest.len());
        assert(next@ =~= rest@.skip(prefix@.len() as int));
        rest = next;
    }
    rest
}

// Texts within a number of bytes.

/// The bytes that a character takes in UTF-8.
pub open spec fn char_width(c: char) -> nat {
    vstd::utf8::encode_scalar(c as u32).len()
}

/// The longest prefix of a text that takes at most that many bytes.
pub open spec fn truncated(s: Seq<char>, max_bytes: nat) -> Seq<char>
    decreases s.len(),
{
    if s.len() == 0 || byte_len(s) <= max_bytes {
        s
    } else {
        truncated(s.drop_last(), max_bytes)
    }
}

proof fn lemma_byte_len_push(s: Seq<char>, c: char)
    ensures
        byte_len(s.push(c)) == byte_len(s) + char_width(c),
    decreases s.len(),
{
    let t = s.push(c);
    if s.len() == 0 {
        assert(t.drop_first() =~= Seq::empty());
        reveal_with_fuel(vstd::utf8::encode_utf8, 2);
    } else {
        assert(t.drop_first() =~= s.drop_first().push(c));
        lemma_byte_len_push(s.drop_first(), c);
    }
}

/// A character takes at most four bytes.
pub proof fn lemma_byte_len_bound(s: Seq<char>)
    ensures
        byte_len(s) <= 4 * s.len(),
    decreases s.len(),
{
    if s.len() > 0 {
        lemma_byte_len_bound(s.drop_last());
        assert(s.drop_last().push(s.last()) =~= s);
        lemma_byte_len_push(s.drop_last(), s.last());
    }
}

proof fn lemma_byte_len_prefix(s: Seq<char>, k: int)
    requires
        0 <= k <= s.len(),
    ensures
        byte_len(s.take(k)) <= byte_len(s),
    decreases s.len() - k,
{
    if k == s.len() {
        assert(s.take(k) =~= s);
    } else {
        lemma_byte_len_prefix(s, k + 1);
        assert(s.take(k + 1) =~= s.take(k).push(s[k]));
        lemma_byte_len_push(s.take(k), s[k]);
    }
}

proof fn lemma_truncated(s: Seq<char>, k: int, max_bytes: nat)
    requires
        0 <= k <= s.len(),
        byte_len(s.take(k)) <= max_bytes,
        k < s.len() ==> byte_len(s.take(k + 1)) > max_bytes,
    ensures
        truncated(s, max_bytes) == s.take(k),
    decreases s.len(),
{
    if k == s.len() {
        assert(s.take(k) =~= s);
    } else {
        lemma_byte_len_prefix(s, k + 1);
        let t = s.drop_last();
        assert(t.take(k) =~= s.take(k));
        if k < t.len() {
            assert(t.take(k + 1) =~= s.take(k + 1));
        }
        lemma_truncated(t, k, max_bytes);
    }
}

/// A truncated text takes at most that many bytes, keeps its first character where that
/// fits, and is the text itself where the text fits.
pub proof fn truncation_is_bounded(s: Seq<char>, max_bytes: nat)
    ensures
        byte_len(truncated(s, max_bytes)) <= max_bytes,
        truncated(s, max_bytes).len() <= s.len(),
        truncated(s, max_bytes) == s.take(truncated(s, max_bytes).len() as int),
        s.len() > 0 && max_bytes >= 4 ==> truncated(s, max_bytes).len() > 0,
    decreases s.len(),
{
    if s.len() == 0 {
        assert(s.take(0) =~= s);
    } else if byte_len(s) <= max_bytes {
        assert(s.take(s.len() as int) =~= s);
    } else {
        truncation_is_bounded(s.drop_last(), max_bytes);
        let n = truncated(s, max_bytes).len() as int;
        assert(s.drop_last().take(n) =~= s.take(n));
        if s.len() == 1 {
            assert(s =~= Seq::empty().push(s[0]));
            lemma_byte_len_push(Seq::empty(), s[0]);
        }
    }
}

fn width(c: char) -> (n: usize)
    ensures
        n == char_width(c),
        1 <= n <= 4,
{
    proof {
        vstd::utf8::char_is_scalar(c);
    }
    let v: u32 = c as u32;
    if v <= 0x7F {
        1
    } else if v <= 0x7FF {
        2
    } else if v <= 0xFFFF {
        3
    } else {
        4
    }
}

/// The longest prefix of a text that takes at most that many bytes.
pub fn truncate_text(s: &[char], max_bytes: usize) -> (r: &[char])
    requires
        max_bytes < usize::MAX - 4,
    ensures
        r@ == truncated(s@, max_bytes as nat),
{
    let mut bytes: usize = 0;
    let mut i: usize = 0;
    assert(s@.take(0) =~= Seq::empty());
    while i < s.len()
        invariant
            i <= s@.len(),
            bytes == byte_len(s@.take(i as int)),
            bytes <= max_bytes < usize::MAX - 4,
        decreases s.len() - i,
    {
        let more: usize = width(s[i]);
        proof {
            assert(s@.take(i + 1) =~= s@.take(i as int).push(s@[i as int]));
            lemma_byte_len_push(s@.take(i as int), s@[i as int]);
        }
        if bytes + more > max_bytes {
            proof {
                lemma_truncated(s@, i as int, max_bytes as nat);
            }
            return slice_subrange(s, 0, i);
        }
        bytes = bytes + more;
        i = i + 1;
    }
    proof {
        lemma_truncated(s@, i as int, max_bytes as nat);
    }
    slice_subrange(s, 0, i)
}

/// A text is cut where the next character would take too many bytes, and no earlier.
pub proof fn truncation_keeps_what_fits(s: Seq<char>, max_bytes: nat)
    ensures
        byte_len(s) <= max_bytes ==> truncated(s, max_bytes) == s,
        truncated(s, max_bytes).len() < s.len() ==> byte_len(
            s.take(truncated(s, max_bytes).len() as int + 1),
        ) > max_bytes,
    decreases s.len(),
{
    if s.len() > 0 && byte_len(s) > max_bytes {
        let t = s.drop_last();
        let n = truncated(s, max_bytes).len() as int;
        truncation_is_bounded(t, max_bytes);
        truncation_keeps_what_fits(t, max_bytes);
        if n < t.len() {
            assert(t.take(n + 1) =~= s.take(n + 1));
        } else {
            assert(s.take(n + 1) =~= s);
        }
    }
}

/// White space is what Unicode calls so: the controls from tab to carriage return, the
/// space, the next line, and the spaces and separators beyond.
pub proof fn white_space_is_that_of_unicode(c: char)
    ensures
        white_space(c) <==> {
            let n = c as u32;
            ||| 9 <= n <= 13
            ||| n == 32
            ||| n == 133
            ||| n == 160
            ||| n == 5760
            ||| 8192 <= n <= 8202
            ||| n == 8232
            ||| n == 8233
            ||| n == 8239
            ||| n == 8287
            ||| n == 12288
        },
{
}

/// A text is searched from its front, and what is found is the first.
pub proof fn searches_find_the_first(s: Seq<char>, c: char)
    ensures
        0 <= find(s, c) <= s.len(),
        find(s, c) < s.len() <==> s.contains(c),
        find(s, c) < s.len() ==> s[find(s, c)] == c,
        !s.take(find(s, c)).contains(c),
    decreases s.len(),
{
    let n = find(s, c);
    if s.len() > 0 && s[0] != c {
        let rest = s.drop_first();
        searches_find_the_first(rest, c);
        if n < s.len() {
            assert(s[n] == rest[n - 1]);
        }
        if s.contains(c) {
            let i = choose|i: int| 0 <= i < s.len() && s[i] == c;
            assert(rest[i - 1] == c);
            assert(rest.contains(c));
        }
        assert forall|i: int| 0 <= i < n implies s[i] != c by {
            if i > 0 {
                assert(rest.take(n - 1)[i - 1] == s[i]);
                assert(rest.take(n - 1).contains(rest.take(n - 1)[i - 1]));
            }
        }
    } else if s.len() > 0 {
        assert(s[0] == c);
    }
    assert forall|i: int| 0 <= i < n implies s.take(n)[i] != c by {
        assert(s.take(n)[i] == s[i]);
        if s.len() > 0 && s[0] != c && i > 0 {
            let rest = s.drop_first();
            assert(rest.take(n - 1)[i - 1] == s[i]);
            assert(rest.take(n - 1).contains(rest.take(n - 1)[i - 1]));
        }
    }
}

/// Capitals of ASCII become small letters, and nothing else changes.
pub proof fn small_letters_are_those_of_ascii(s: Seq<char>, i: int)
    requires
        0 <= i < s.len(),
    ensures
        lower(s).len() == s.len(),
        65 <= s[i] as u32 <= 90 ==> lower(s)[i] as u32 == s[i] as u32 + 32,
        !(65 <= s[i] as u32 <= 90) ==> lower(s)[i] == s[i],
{
}

/// A prefix is skipped as often as it stands there; a text that does not begin with it stays
/// as it is.
pub proof fn prefixes_are_skipped_as_often_as_they_stand(s: Seq<char>, prefix: Seq<char>)
    requires
        prefix.len() > 0,
    ensures
        without_prefixes(prefix + s, prefix) == without_prefixes(s, prefix),
        !starts_with(s, prefix) ==> without_prefixes(s, prefix) == s,
        !starts_with(without_prefixes(s, prefix), prefix),
    decreases s.len(),
{
    let whole = prefix + s;
    assert(whole.take(prefix.len() as int) =~= prefix);
    assert(whole.skip(prefix.len() as int) =~= s);
    if starts_with(s, prefix) {
        prefixes_are_skipped_as_often_as_they_stand(s.skip(prefix.len() as int), prefix);
    }
}

} // verus!
