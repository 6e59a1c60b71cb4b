//! Opus parameters in an SDP offer.
//!
//! The media engine enables Opus but has no setting for its format parameters,
//! so the generated offer is rewritten: the `a=fmtp` lines of the Opus payload
//! type get the channel layout and the bitrate hint of the published streams
//! (RFC 7587). Parameters of other names are kept.
use vstd::prelude::*;
use vstd::slice::slice_subrange;

use crate::numeral::decimal_chars;
use crate::text::{
    append_chars, chars_eq, copy_chars, from_chars, has_prefix, index_of, to_chars,
    trimmed,
};

verus! {

/// 1 kbit/s in the unit of `maxaveragebitrate`.
pub const SDP_BITS_PER_KBPS: u32 = 1024;

/// One `key=value` format parameter.
pub struct ParamView {
    pub key: Seq<char>,
    pub value: Seq<char>,
}

/// One `key=value` format parameter; a parameter without a value has an empty one.
pub struct Param {
    pub key: Vec<char>,
    pub value: Vec<char>,
}

impl View for Param {
    type V = ParamView;

    open spec fn view(&self) -> ParamView {
        ParamView { key: self.key@, value: self.value@ }
    }
}

pub open spec fn param_views(params: Seq<Param>) -> Seq<ParamView> {
    params.map_values(|p: Param| p@)
}

// Lines.

/// The length of the first line of `s`, its line feed counted.
pub open spec fn first_line_len(s: Seq<char>) -> int
    decreases s.len(),
{
    if s.len() == 0 {
        0
    } else if s[0] == '\n' {
        1
    } else {
        1 + first_line_len(s.drop_first())
    }
}

pub proof fn lemma_first_line_len(s: Seq<char>)
    ensures
        0 <= first_line_len(s) <= s.len(),
        s.len() > 0 ==> first_line_len(s) > 0,
        forall|j: int| 0 <= j < first_line_len(s) - 1 ==> s[j] != '\n',
        first_line_len(s) < s.len() ==> s[first_line_len(s) - 1] == '\n',
    decreases s.len(),
{
    if s.len() > 0 && s[0] != '\n' {
        lemma_first_line_len(s.drop_first());
        assert forall|j: int| 0 <= j < first_line_len(s) - 1 implies s[j] != '\n' by {
            if j > 0 {
                assert(s[j] == s.drop_first()[j - 1]);
            }
        }
    }
}

/// The lines of `s`, each with its line feed; the last may lack one.
pub open spec fn lines(s: Seq<char>) -> Seq<Seq<char>>
    decreases s.len(),
{
    if s.len() == 0 {
        Seq::empty()
    } else {
        proof {
            lemma_first_line_len(s);
        }
        seq![s.take(first_line_len(s))] + lines(s.skip(first_line_len(s)))
    }
}

pub open spec fn line_break(c: char) -> bool {
    c == '\r' || c == '\n'
}

/// A line without the carriage returns and line feeds at its end.
pub open spec fn body(line: Seq<char>) -> Seq<char>
    decreases line.len(),
{
    if line.len() > 0 && line_break(line.last()) {
        body(line.drop_last())
    } else {
        line
    }
}

// Parameter lists.

/// The pieces of `s` between semicolons.
pub open spec fn pieces(s: Seq<char>) -> Seq<Seq<char>>
    decreases s.len(),
{
    let i = crate::text::find(s, ';');
    if 0 <= i < s.len() {
        seq![s.take(i)] + pieces(s.skip(i + 1))
    } else {
        seq![s]
    }
}

/// A parameter is cut at its first equals sign.
pub open spec fn param_of(piece: Seq<char>) -> ParamView {
    let t = crate::text::trim(piece);
    let i = crate::text::find(t, '=');
    if i < t.len() {
        ParamView { key: t.take(i), value: t.skip(i + 1) }
    } else {
        ParamView { key: t, value: Seq::empty() }
    }
}

/// The parameters of the pieces that are not blank.
pub open spec fn params_of(parts: Seq<Seq<char>>) -> Seq<ParamView>
    decreases parts.len(),
{
    if parts.len() == 0 {
        Seq::empty()
    } else if crate::text::trim(parts.last()).len() == 0 {
        params_of(parts.drop_last())
    } else {
        params_of(parts.drop_last()).push(param_of(parts.last()))
    }
}

pub open spec fn has_key(params: Seq<ParamView>, key: Seq<char>) -> bool {
    exists|i: int| 0 <= i < params.len() && (#[trigger] params[i]).key == key
}

/// Every parameter of that name gets the value; without one, the parameter is added.
pub open spec fn with_param(params: Seq<ParamView>, wanted: ParamView) -> Seq<ParamView> {
    if has_key(params, wanted.key) {
        params.map_values(
            |p: ParamView|
                if p.key == wanted.key {
                    wanted
                } else {
                    p
                },
        )
    } else {
        params.push(wanted)
    }
}

pub open spec fn with_params(params: Seq<ParamView>, wanted: Seq<ParamView>) -> Seq<ParamView>
    decreases wanted.len(),
{
    if wanted.len() == 0 {
        params
    } else {
        with_param(with_params(params, wanted.drop_last()), wanted.last())
    }
}

/// A parameter without a value is written without an equals sign.
pub open spec fn param_text(p: ParamView) -> Seq<char> {
    if p.value.len() == 0 {
        p.key
    } else {
        p.key + seq!['='] + p.value
    }
}

pub open spec fn params_text(params: Seq<ParamView>) -> Seq<char>
    decreases params.len(),
{
    if params.len() == 0 {
        Seq::empty()
    } else if params.len() == 1 {
        param_text(params[0])
    } else {
        params_text(params.drop_last()) + seq![';'] + param_text(params.last())
    }
}

/// A parameter list in which every wanted parameter has the wanted value.
pub open spec fn merged(existing: Seq<char>, wanted: Seq<ParamView>) -> Seq<char> {
    params_text(with_params(params_of(pieces(existing)), wanted))
}

// The offer.

/// The payload type that a line maps to Opus.
pub open spec fn opus_mapping(line: Seq<char>) -> Option<Seq<char>> {
    let t = crate::text::trim(line);
    if !crate::text::starts_with(t, "a=rtpmap:"@) {
        None
    } else {
        let rest = t.skip("a=rtpmap:"@.len() as int);
        let i = crate::text::find(rest, ' ');
        if i < rest.len() && crate::text::starts_with(
            crate::text::lower(rest.skip(i + 1)),
            "opus/"@,
        ) {
            Some(rest.take(i))
        } else {
            None
        }
    }
}

/// The payload type of the first line that maps one to Opus.
pub open spec fn opus_payload_type(ls: Seq<Seq<char>>) -> Option<Seq<char>>
    decreases ls.len(),
{
    if ls.len() == 0 {
        None
    } else if opus_mapping(ls[0]) is Some {
        opus_mapping(ls[0])
    } else {
        opus_payload_type(ls.drop_first())
    }
}

pub open spec fn fmtp_prefix(pt: Seq<char>) -> Seq<char> {
    "a=fmtp:"@ + pt + seq![' ']
}

pub open spec fn rtpmap_prefix(pt: Seq<char>) -> Seq<char> {
    "a=rtpmap:"@ + pt + seq![' ']
}

pub open spec fn flag_text(flag: bool) -> Seq<char> {
    if flag {
        "1"@
    } else {
        "0"@
    }
}

/// The parameters that the offer must declare.
pub open spec fn opus_params(stereo: bool, max_avg_bitrate_bits: nat) -> Seq<ParamView> {
    seq![
        ParamView { key: "minptime"@, value: "10"@ },
        ParamView { key: "useinbandfec"@, value: "0"@ },
        ParamView { key: "sprop-stereo"@, value: flag_text(stereo) },
        ParamView { key: "stereo"@, value: flag_text(stereo) },
        ParamView {
            key: "maxaveragebitrate"@,
            value: crate::numeral::decimal(max_avg_bitrate_bits),
        },
    ]
}

pub open spec fn is_fmtp_line(line: Seq<char>, pt: Seq<char>) -> bool {
    crate::text::starts_with(body(line), fmtp_prefix(pt))
}

/// Whether a line maps the payload type. White space around it does not matter, as it does
/// not where the payload type is looked for. Nothing need follow the blank.
pub open spec fn is_rtpmap_line(line: Seq<char>, pt: Seq<char>) -> bool {
    ||| crate::text::starts_with(body(line), rtpmap_prefix(pt))
    ||| crate::text::starts_with(crate::text::trim(line), rtpmap_prefix(pt))
}

pub open spec fn has_fmtp_line(ls: Seq<Seq<char>>, pt: Seq<char>) -> bool {
    exists|i: int| 0 <= i < ls.len() && is_fmtp_line(#[trigger] ls[i], pt)
}

/// A format line of the payload type gets the wanted parameters and keeps its line end.
pub open spec fn rewritten_line(line: Seq<char>, pt: Seq<char>, wanted: Seq<ParamView>) -> Seq<
    char,
> {
    if is_fmtp_line(line, pt) {
        fmtp_prefix(pt) + merged(body(line).skip(fmtp_prefix(pt).len() as int), wanted)
            + line.skip(body(line).len() as int)
    } else {
        line
    }
}

pub open spec fn rewritten_lines(
    ls: Seq<Seq<char>>,
    pt: Seq<char>,
    wanted: Seq<ParamView>,
) -> Seq<Seq<char>> {
    ls.map_values(|line: Seq<char>| rewritten_line(line, pt, wanted))
}

pub open spec fn line_end_like(line: Seq<char>) -> Seq<char> {
    if line.len() >= 2 && line[line.len() - 2] == '\r' && line[line.len() - 1] == '\n' {
        seq!['\r', '\n']
    } else {
        seq!['\n']
    }
}

/// A line with a line feed at its end.
pub open spec fn ended_line(line: Seq<char>) -> Seq<char> {
    if line.len() > 0 && line.last() == '\n' {
        line
    } else {
        line.push('\n')
    }
}

/// The format line for a mapping line, with the same kind of line end.
pub open spec fn fmtp_line_after(
    line: Seq<char>,
    pt: Seq<char>,
    wanted: Seq<ParamView>,
) -> Seq<char> {
    fmtp_prefix(pt) + params_text(wanted) + line_end_like(line)
}

/// Each mapping line of the payload type is followed by a format line. One without a line
/// end gets one first.
pub open spec fn extended_lines(
    ls: Seq<Seq<char>>,
    pt: Seq<char>,
    wanted: Seq<ParamView>,
) -> Seq<Seq<char>>
    decreases ls.len(),
{
    if ls.len() == 0 {
        Seq::empty()
    } else {
        let before = extended_lines(ls.drop_last(), pt, wanted);
        if is_rtpmap_line(ls.last(), pt) {
            let line = ended_line(ls.last());
            before.push(line).push(fmtp_line_after(line, pt, wanted))
        } else {
            before.push(ls.last())
        }
    }
}

/// The lines of the offer with its Opus parameters declared.
pub open spec fn munged_lines(ls: Seq<Seq<char>>, wanted: Seq<ParamView>) -> Seq<Seq<char>> {
    match opus_payload_type(ls) {
        None => ls,
        Some(pt) => if has_fmtp_line(ls, pt) {
            rewritten_lines(ls, pt, wanted)
        } else {
            extended_lines(ls, pt, wanted)
        },
    }
}

/// The offer with its Opus parameters declared.
pub open spec fn munged(sdp: Seq<char>, stereo: bool, max_avg_bitrate_bits: nat) -> Seq<char> {
    munged_lines(lines(sdp), opus_params(stereo, max_avg_bitrate_bits)).flatten()
}

// Sections.

/// Whether a line begins a media section.
pub open spec fn is_media_line(line: Seq<char>) -> bool {
    crate::text::starts_with(line, "m="@)
}

/// The sections of the lines, in order: first what concerns the whole session, then each
/// media section, from its media line on.
pub open spec fn sections(ls: Seq<Seq<char>>) -> Seq<Seq<Seq<char>>>
    decreases ls.len(),
{
    if ls.len() == 0 {
        seq![Seq::empty()]
    } else {
        let before = sections(ls.drop_last());
        if is_media_line(ls.last()) {
            before.push(seq![ls.last()])
        } else {
            before.drop_last().push(before.last().push(ls.last()))
        }
    }
}

// Executable counterparts.

fn first_line(s: &[char]) -> (n: usize)
    ensures
        n == first_line_len(s@),
        n <= s@.len(),
        s@.len() > 0 ==> n > 0,
{
    let mut i: usize = 0;
    assert(s@.skip(0) == s@);
    while i < s.len()
        invariant
            i <= s@.len(),
            first_line_len(s@) == i + first_line_len(s@.skip(i as int)),
        decreases s.len() - i,
    {
        assert(s@.skip(i as int).drop_first() == s@.skip(i + 1));
        if s[i] == '\n' {
            return i + 1;
        }
        i = i + 1;
    }
    i
}

proof fn lemma_views_push(v: Seq<Vec<char>>, x: Vec<char>)
    ensures
        crate::text::views(v.push(x)) == crate::text::views(v).push(x@),
{
    assert(crate::text::views(v.push(x)) =~= crate::text::views(v).push(x@));
}

fn split_lines(s: &[char]) -> (v: Vec<Vec<char>>)
    ensures
        crate::text::views(v@) == lines(s@),
{
    let mut v: Vec<Vec<char>> = Vec::new();
    let mut pos: usize = 0;
    assert(s@.skip(0) == s@);
    assert(crate::text::views(v@) =~= Seq::empty());
    while pos < s.len()
        invariant
            pos <= s@.len(),
            lines(s@) == crate::text::views(v@) + lines(s@.skip(pos as int)),
        decreases s.len() - pos,
    {
        let rest = slice_subrange(s, pos, s.len());
        assert(rest@ == s@.skip(pos as int));
        let n = first_line(rest);
        let line = copy_chars(slice_subrange(rest, 0, n));
        proof {
            lemma_views_push(v@, line);
            assert(line@ == rest@.take(n as int));
            assert(rest@.skip(n as int) == s@.skip(pos + n));
        }
        v.push(line);
        pos = pos + n;
    }
    assert(lines(s@.skip(pos as int)) =~= Seq::empty());
    v
}

fn body_len(line: &[char]) -> (n: usize)
    ensures
        n <= line@.len(),
        line@.take(n as int) == body(line@),
{
    let mut n: usize = line.len();
    assert(line@.take(n as int) == line@);
    while n > 0 && (line[n - 1] == '\r' || line[n - 1] == '\n')
        invariant
            n <= line@.len(),
            body(line@.take(n as int)) == body(line@),
        decreases n,
    {
        assert(line@.take(n as int).drop_last() == line@.take(n - 1));
        n = n - 1;
    }
    n
}

fn split_pieces(s: &[char]) -> (v: Vec<Vec<char>>)
    ensures
        crate::text::views(v@) == pieces(s@),
{
    let mut v: Vec<Vec<char>> = Vec::new();
    let mut pos: usize = 0;
    assert(s@.skip(0) == s@);
    assert(crate::text::views(v@) =~= Seq::empty());
    loop
        invariant
            pos <= s@.len(),
            pieces(s@) == crate::text::views(v@) + pieces(s@.skip(pos as int)),
        decreases s.len() - pos,
    {
        let rest = slice_subrange(s, pos, s.len());
        assert(rest@ == s@.skip(pos as int));
        let n = index_of(rest, ';');
        let piece = copy_chars(slice_subrange(rest, 0, n));
        proof {
            lemma_views_push(v@, piece);
        }
        v.push(piece);
        if n == rest.len() {
            assert(piece@ == rest@);
            return v;
        }
        assert(rest@.skip(n + 1) == s@.skip(pos + n + 1));
        pos = pos + n + 1;
    }
}

proof fn lemma_param_views_push(v: Seq<Param>, p: Param)
    ensures
        param_views(v.push(p)) == param_views(v).push(p@),
{
    assert(param_views(v.push(p)) =~= param_views(v).push(p@));
}

fn read_param(piece: &[char]) -> (p: Param)
    ensures
        p@ == param_of(piece@),
{
    let t = trimmed(piece);
    let i = index_of(t, '=');
    if i < t.len() {
        Param {
            key: copy_chars(slice_subrange(t, 0, i)),
            value: copy_chars(slice_subrange(t, i + 1, t.len())),
        }
    } else {
        Param { key: copy_chars(t), value: Vec::new() }
    }
}

fn read_params(existing: &[char]) -> (params: Vec<Param>)
    ensures
        param_views(params@) == params_of(pieces(existing@)),
{
    let parts = split_pieces(existing);
    let ghost views = pieces(existing@);
    let mut params: Vec<Param> = Vec::new();
    let mut i: usize = 0;
    assert(param_views(params@) =~= Seq::empty());
    while i < parts.len()
        invariant
            i <= parts@.len(),
            views == crate::text::views(parts@),
            param_views(params@) == params_of(views.take(i as int)),
        decreases parts.len() - i,
    {
        let piece = parts[i].as_slice();
        assert(views.take(i + 1).drop_last() == views.take(i as int));
        assert(views.take(i + 1).last() == piece@);
        if trimmed(piece).len() > 0 {
            let p = read_param(piece);
            proof {
                lemma_param_views_push(params@, p);
            }
            params.push(p);
        }
        i = i + 1;
    }
    assert(views.take(i as int) == views);
    params
}

fn set_param(params: &mut Vec<Param>, key: &[char], value: &[char])
    ensures
        param_views(final(params)@) == with_param(
            param_views(old(params)@),
            ParamView { key: key@, value: value@ },
        ),
{
    let ghost all = param_views(params@);
    let ghost wanted = ParamView { key: key@, value: value@ };
    let mut found = false;
    let mut i: usize = 0;
    while i < params.len()
        invariant
            i <= params@.len() == all.len(),
            wanted == (ParamView { key: key@, value: value@ }),
            found == has_key(all.take(i as int), key@),
            forall|j: int|
                0 <= j < i ==> (#[trigger] params@[j])@ == (if all[j].key == key@ {
                    wanted
                } else {
                    all[j]
                }),
            forall|j: int| i <= j < all.len() ==> (#[trigger] params@[j])@ == all[j],
        decreases params.len() - i,
    {
        let ghost before = all.take(i as int);
        let ghost after = all.take(i + 1);
        assert(after == before.push(all[i as int]));
        assert(params@[i as int]@ == all[i as int]);
        if chars_eq(params[i].key.as_slice(), key) {
            params.set(i, Param { key: copy_chars(key), value: copy_chars(value) });
            found = true;
            assert(after[i as int].key == key@);
        } else if found {
            proof {
                let j = choose|j: int| 0 <= j < before.len() && (#[trigger] before[j]).key == key@;
                assert(after[j] == before[j]);
            }
        } else {
            assert forall|j: int| 0 <= j < after.len() implies (#[trigger] after[j]).key
                != key@ by {
                if j < i {
                    assert(after[j] == before[j]);
                }
            }
        }
        i = i + 1;
    }
    assert(all.take(i as int) == all);
    if found {
        assert(param_views(params@) =~= with_param(all, wanted));
    } else {
        let p = Param { key: copy_chars(key), value: copy_chars(value) };
        proof {
            assert forall|j: int| 0 <= j < all.len() implies param_views(params@)[j] == all[j] by {
                assert(params@[j]@ == all[j]);
                assert(all[j].key != key@);
            }
            assert(param_views(params@) =~= all);
            lemma_param_views_push(params@, p);
        }
        params.push(p);
    }
}

fn append_param(out: &mut Vec<char>, p: &Param)
    ensures
        final(out)@ == old(out)@ + param_text(p@),
{
    append_chars(out, p.key.as_slice());
    if p.value.len() > 0 {
        out.push('=');
        append_chars(out, p.value.as_slice());
    }
    assert(out@ =~= old(out)@ + param_text(p@));
}

fn write_params(params: &Vec<Param>) -> (out: Vec<char>)
    ensures
        out@ == params_text(param_views(params@)),
{
    let mut out: Vec<char> = Vec::new();
    let ghost all = param_views(params@);
    let mut i: usize = 0;
    while i < params.len()
        invariant
            i <= params@.len(),
            all == param_views(params@),
            out@ == params_text(all.take(i as int)),
        decreases params.len() - i,
    {
        let ghost before = out@;
        if i > 0 {
            out.push(';');
        }
        append_param(&mut out, &params[i]);
        assert(all.take(i + 1).drop_last() == all.take(i as int));
        assert(all.take(i + 1).last() == params@[i as int]@);
        assert(out@ =~= params_text(all.take(i + 1)));
        i = i + 1;
    }
    assert(all.take(i as int) == all);
    out
}

/// Sets the wanted parameters in a semicolon list. Existing parameters of other
/// names are kept.
pub fn merge_params(existing: &[char], wanted: &Vec<Param>) -> (out: Vec<char>)
    ensures
        out@ == merged(existing@, param_views(wanted@)),
{
    let mut params = read_params(existing);
    let ghost start = param_views(params@);
    let ghost all = param_views(wanted@);
    let mut i: usize = 0;
    while i < wanted.len()
        invariant
            i <= wanted@.len(),
            all == param_views(wanted@),
            param_views(params@) == with_params(start, all.take(i as int)),
        decreases wanted.len() - i,
    {
        set_param(&mut params, wanted[i].key.as_slice(), wanted[i].value.as_slice());
        assert(all.take(i + 1).drop_last() == all.take(i as int));
        assert(all.take(i + 1).last() == wanted@[i as int]@);
        i = i + 1;
    }
    assert(all.take(i as int) == all);
    write_params(&params)
}

fn lower_char(c: char) -> (r: char)
    ensures
        r == crate::text::ascii_lower(c),
{
    if 'A' <= c && c <= 'Z' {
        (c as u8 + 32) as char
    } else {
        c
    }
}

fn lower_chars(s: &[char]) -> (v: Vec<char>)
    ensures
        v@ == crate::text::lower(s@),
{
    let mut v: Vec<char> = Vec::new();
    let mut i: usize = 0;
    while i < s.len()
        invariant
            i <= s@.len(),
            v@ == crate::text::lower(s@.take(i as int)),
        decreases s.len() - i,
    {
        v.push(lower_char(s[i]));
        i = i + 1;
        assert(v@ =~= crate::text::lower(s@.take(i as int)));
    }
    assert(s@.take(i as int) == s@);
    v
}

fn read_opus_mapping(line: &[char]) -> (r: Option<Vec<char>>)
    ensures
        (match r {
            Some(pt) => opus_mapping(line@) == Some(pt@),
            None => opus_mapping(line@) is None,
        }),
{
    let t = trimmed(line);
    let attribute = to_chars("a=rtpmap:");
    if !has_prefix(t, attribute.as_slice()) {
        return None;
    }
    let rest = slice_subrange(t, attribute.len(), t.len());
    assert(rest@ == t@.skip("a=rtpmap:"@.len() as int));
    let i = index_of(rest, ' ');
    if i == rest.len() {
        return None;
    }
    let codec = slice_subrange(rest, i + 1, rest.len());
    assert(codec@ == rest@.skip(i + 1));
    let name = lower_chars(codec);
    let opus = to_chars("opus/");
    if has_prefix(name.as_slice(), opus.as_slice()) {
        Some(copy_chars(slice_subrange(rest, 0, i)))
    } else {
        None
    }
}

fn find_opus_payload_type(ls: &Vec<Vec<char>>) -> (r: Option<Vec<char>>)
    ensures
        (match r {
            Some(pt) => opus_payload_type(crate::text::views(ls@)) == Some(pt@),
            None => opus_payload_type(crate::text::views(ls@)) is None,
        }),
{
    let ghost all = crate::text::views(ls@);
    let mut i: usize = 0;
    assert(all.skip(0) == all);
    while i < ls.len()
        invariant
            i <= ls@.len(),
            all == crate::text::views(ls@),
            opus_payload_type(all) == opus_payload_type(all.skip(i as int)),
        decreases ls.len() - i,
    {
        assert(all.skip(i as int).drop_first() == all.skip(i + 1));
        assert(all.skip(i as int)[0] == ls@[i as int]@);
        let mapping = read_opus_mapping(ls[i].as_slice());
        if mapping.is_some() {
            return mapping;
        }
        i = i + 1;
    }
    None
}

fn wanted_param(key: &str, value: &str) -> (p: Param)
    ensures
        p@ == (ParamView { key: key@, value: value@ }),
{
    Param { key: to_chars(key), value: to_chars(value) }
}

fn wanted_params(stereo: bool, max_avg_bitrate_bits: u32) -> (wanted: Vec<Param>)
    ensures
        param_views(wanted@) == opus_params(stereo, max_avg_bitrate_bits as nat),
{
    let flag = if stereo {
        "1"
    } else {
        "0"
    };
    let mut wanted: Vec<Param> = Vec::new();
    wanted.push(wanted_param("minptime", "10"));
    wanted.push(wanted_param("useinbandfec", "0"));
    wanted.push(wanted_param("sprop-stereo", flag));
    wanted.push(wanted_param("stereo", flag));
    wanted.push(
        Param {
            key: to_chars("maxaveragebitrate"),
            value: decimal_chars(max_avg_bitrate_bits as u64),
        },
    );
    assert(param_views(wanted@) =~= opus_params(stereo, max_avg_bitrate_bits as nat));
    wanted
}

fn attribute_prefix(attribute: &str, pt: &[char]) -> (v: Vec<char>)
    ensures
        v@ == attribute@ + pt@ + seq![' '],
{
    let mut v = to_chars(attribute);
    append_chars(&mut v, pt);
    v.push(' ');
    v
}

/// The text of the lines.
pub(crate) fn join_lines(ls: &Vec<Vec<char>>) -> (out: Vec<char>)
    ensures
        out@ == crate::text::views(ls@).flatten(),
{
    let ghost all = crate::text::views(ls@);
    let mut out: Vec<char> = Vec::new();
    let mut i: usize = 0;
    while i < ls.len()
        invariant
            i <= ls@.len(),
            all == crate::text::views(ls@),
            out@ == all.take(i as int).flatten(),
        decreases ls.len() - i,
    {
        proof {
            assert(all.take(i + 1) == all.take(i as int).push(ls@[i as int]@));
            all.take(i as int).lemma_flatten_push(ls@[i as int]@);
        }
        append_chars(&mut out, ls[i].as_slice());
        i = i + 1;
    }
    assert(all.take(i as int) == all);
    out
}

/// Declares Opus parameters in the lines of an offer or of one of its sections.
pub(crate) fn munge_lines(ls: &Vec<Vec<char>>, stereo: bool, max_avg_bitrate_bits: u32) -> (out:
    Vec<char>)
    ensures
        out@ == munged_lines(
            crate::text::views(ls@),
            opus_params(stereo, max_avg_bitrate_bits as nat),
        ).flatten(),
{
    let ghost all = crate::text::views(ls@);
    let pt = match find_opus_payload_type(ls) {
        Some(pt) => pt,
        None => {
            return join_lines(ls);
        },
    };
    let wanted = wanted_params(stereo, max_avg_bitrate_bits);
    let fmtp = attribute_prefix("a=fmtp:", pt.as_slice());
    let ghost params = param_views(wanted@);
    assert(fmtp@ == fmtp_prefix(pt@));

    let mut have_fmtp = false;
    let mut out: Vec<char> = Vec::new();
    let mut i: usize = 0;
    while i < ls.len()
        invariant
            i <= ls@.len(),
            all == crate::text::views(ls@),
            params == param_views(wanted@),
            fmtp@ == fmtp_prefix(pt@),
            have_fmtp == has_fmtp_line(all.take(i as int), pt@),
            out@ == rewritten_lines(all.take(i as int), pt@, params).flatten(),
        decreases ls.len() - i,
    {
        let line = ls[i].as_slice();
        let n = body_len(line);
        let text = slice_subrange(line, 0, n);
        let ghost before = all.take(i as int);
        let ghost after = all.take(i + 1);
        proof {
            assert(text@ == body(line@));
            assert(after == before.push(line@));
            assert(rewritten_lines(after, pt@, params) =~= rewritten_lines(before, pt@, params).push(
                rewritten_line(line@, pt@, params),
            ));
            rewritten_lines(before, pt@, params).lemma_flatten_push(
                rewritten_line(line@, pt@, params),
            );
        }
        if has_prefix(text, fmtp.as_slice()) {
            have_fmtp = true;
            let existing = slice_subrange(text, fmtp.len(), text.len());
            assert(existing@ == body(line@).skip(fmtp_prefix(pt@).len() as int));
            append_chars(&mut out, fmtp.as_slice());
            let values = merge_params(existing, &wanted);
            append_chars(&mut out, values.as_slice());
            append_chars(&mut out, slice_subrange(line, n, line.len()));
            proof {
                assert(line@.subrange(n as int, line@.len() as int) == line@.skip(n as int));
                assert(after[i as int] == line@);
                assert(has_fmtp_line(after, pt@));
            }
        } else {
            append_chars(&mut out, line);
            proof {
                if have_fmtp {
                    let j = choose|j: int|
                        0 <= j < before.len() && is_fmtp_line(#[trigger] before[j], pt@);
                    assert(after[j] == before[j]);
                } else {
                    assert forall|j: int| 0 <= j < after.len() implies !is_fmtp_line(
                        #[trigger] after[j],
                        pt@,
                    ) by {
                        if j < i {
                            assert(after[j] == before[j]);
                        }
                    }
                }
            }
        }
        assert(out@ =~= rewritten_lines(after, pt@, params).flatten());
        i = i + 1;
    }
    assert(all.take(i as int) == all);
    if have_fmtp {
        return out;
    }
    let rtpmap = attribute_prefix("a=rtpmap:", pt.as_slice());
    assert(rtpmap@ == rtpmap_prefix(pt@));
    let values = write_params(&wanted);
    let mut rebuilt: Vec<char> = Vec::new();
    let mut k: usize = 0;
    while k < ls.len()
        invariant
            k <= ls@.len(),
            all == crate::text::views(ls@),
            params == param_views(wanted@),
            values@ == params_text(params),
            fmtp@ == fmtp_prefix(pt@),
            rtpmap@ == rtpmap_prefix(pt@),
            rebuilt@ == extended_lines(all.take(k as int), pt@, params).flatten(),
        decreases ls.len() - k,
    {
        let line = ls[k].as_slice();
        let ghost before = extended_lines(all.take(k as int), pt@, params);
        proof {
            assert(all.take(k + 1).drop_last() == all.take(k as int));
            assert(all.take(k + 1).last() == line@);
            before.lemma_flatten_push(line@);
            before.lemma_flatten_push(ended_line(line@));
            before.push(ended_line(line@)).lemma_flatten_push(
                fmtp_line_after(ended_line(line@), pt@, params),
            );
        }
        append_chars(&mut rebuilt, line);
        let n = body_len(line);
        if has_prefix(slice_subrange(line, 0, n), rtpmap.as_slice()) || has_prefix(
            trimmed(line),
            rtpmap.as_slice(),
        ) {
            let ghost ended = ended_line(line@);
            let unended = line.len() == 0 || line[line.len() - 1] != '\n';
            if unended {
                rebuilt.push('\n');
            }
            assert(rebuilt@ =~= before.flatten() + ended);
            append_chars(&mut rebuilt, fmtp.as_slice());
            append_chars(&mut rebuilt, values.as_slice());
            let carriage_return = if unended {
                line.len() >= 1 && line[line.len() - 1] == '\r'
            } else {
                line.len() >= 2 && line[line.len() - 2] == '\r'
            };
            if carriage_return {
                rebuilt.push('\r');
            }
            rebuilt.push('\n');
            assert(rebuilt@ =~= before.flatten() + ended + fmtp_line_after(ended, pt@, params));
        }
        k = k + 1;
        assert(rebuilt@ =~= extended_lines(all.take(k as int), pt@, params).flatten());
    }
    assert(all.take(k as int) == all);
    rebuilt
}

/// Declares Opus parameters in an SDP offer: minimum packet time, no in-band
/// FEC, the channel layout and the average bitrate in bits per second.
///
/// Format lines of the Opus payload type are rewritten. Where there is none, one
/// follows each mapping line. An offer without Opus is returned unchanged.
pub fn munge_opus_params(sdp: &str, stereo: bool, max_avg_bitrate_bits: u32) -> (out: String)
    ensures
        out@ == munged(sdp@, stereo, max_avg_bitrate_bits as nat),
        opus_payload_type(lines(sdp@)) is None ==> out@ == sdp@,
{
    let chars = to_chars(sdp);
    let ls = split_lines(chars.as_slice());
    proof {
        lemma_lines_flatten(sdp@);
    }
    let out = munge_lines(&ls, stereo, max_avg_bitrate_bits);
    from_chars(out.as_slice())
}

/// The music defaults: stereo at 128 kbit/s.
pub fn munge_opus_stereo(sdp: &str) -> (out: String)
    ensures
        out@ == munged(sdp@, true, 131072),
{
    munge_opus_params(sdp, true, 128 * SDP_BITS_PER_KBPS)
}

/// The lines that the sections of an offer hold.
pub open spec fn section_views(found: Seq<Vec<Vec<char>>>) -> Seq<Seq<Seq<char>>> {
    found.map_values(|section: Vec<Vec<char>>| crate::text::views(section@))
}

/// Cuts an offer into its sections.
pub(crate) fn split_sections(sdp: &str) -> (found: Vec<Vec<Vec<char>>>)
    ensures
        section_views(found@) == sections(lines(sdp@)),
{
    let chars = to_chars(sdp);
    let ls = split_lines(chars.as_slice());
    let mark = to_chars("m=");
    let ghost all = lines(sdp@);
    let mut found: Vec<Vec<Vec<char>>> = Vec::new();
    let mut section: Vec<Vec<char>> = Vec::new();
    let mut i: usize = 0;
    proof {
        assert(crate::text::views(section@) =~= Seq::empty());
        assert(section_views(found@).push(crate::text::views(section@)) =~= seq![Seq::empty()]);
    }
    while i < ls.len()
        invariant
            i <= ls@.len(),
            all == crate::text::views(ls@),
            mark@ == "m="@,
            sections(all.take(i as int)) == section_views(found@).push(
                crate::text::views(section@),
            ),
        decreases ls.len() - i,
    {
        let line = copy_chars(ls[i].as_slice());
        let ghost before = section_views(found@);
        let ghost current = crate::text::views(section@);
        proof {
            assert(all.take(i + 1).drop_last() == all.take(i as int));
            assert(all.take(i + 1).last() == line@);
            assert(before.push(current).drop_last() =~= before);
        }
        if has_prefix(line.as_slice(), mark.as_slice()) {
            let mut next: Vec<Vec<char>> = Vec::new();
            next.push(line);
            found.push(section);
            section = next;
            assert(section_views(found@) =~= before.push(current));
            assert(crate::text::views(section@) =~= seq![line@]);
        } else {
            proof {
                lemma_views_push(section@, line);
            }
            section.push(line);
        }
        i = i + 1;
    }
    assert(all.take(i as int) == all);
    let ghost before = section_views(found@);
    let ghost last = crate::text::views(section@);
    found.push(section);
    assert(section_views(found@) =~= before.push(last));
    found
}

/// Lines in a row have the texts of the one and the other.
pub proof fn lemma_flatten_join(a: Seq<Seq<char>>, b: Seq<Seq<char>>)
    ensures
        (a + b).flatten() == a.flatten() + b.flatten(),
    decreases a.len(),
{
    if a.len() == 0 {
        assert(a + b =~= b);
        assert(a.flatten() + b.flatten() =~= b.flatten());
    } else {
        lemma_flatten_join(a.drop_first(), b);
        assert((a + b).drop_first() =~= a.drop_first() + b);
        assert(a[0] + a.drop_first().flatten() + b.flatten() =~= a[0] + (a.drop_first().flatten()
            + b.flatten()));
    }
}

/// The lines of a text make up the text.
pub proof fn lemma_lines_flatten(s: Seq<char>)
    ensures
        lines(s).flatten() == s,
    decreases s.len(),
{
    if s.len() > 0 {
        lemma_first_line_len(s);
        let n = first_line_len(s);
        lemma_lines_flatten(s.skip(n));
        assert(lines(s).drop_first() == lines(s.skip(n)));
        assert(s.take(n) + s.skip(n) == s);
    }
}

} // verus!
