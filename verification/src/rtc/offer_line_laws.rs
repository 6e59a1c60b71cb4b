//! What an offer says line by line, beside the offer that the engine made.
use vstd::prelude::*;

use crate::rtc::handshake::PublishMedia;
use crate::rtc::sdp::ParamView;

verus! {

// How texts are cut.

/// A text is cut into lines behind its line feeds and nowhere else: the lines make up the
/// text, none is empty, and each but the last ends with its only line feed.
pub proof fn texts_are_cut_behind_line_feeds(s: Seq<char>)
    ensures
        crate::rtc::sdp::lines(s).flatten() == s,
        forall|i: int|
            0 <= i < crate::rtc::sdp::lines(s).len() ==> (#[trigger] crate::rtc::sdp::lines(
                s,
            )[i]).len() > 0,
        forall|i: int, j: int|
            0 <= i < crate::rtc::sdp::lines(s).len() && 0 <= j < crate::rtc::sdp::lines(s)[i].len()
                - 1 ==> (#[trigger] crate::rtc::sdp::lines(s)[i][j]) != '\n',
        forall|i: int|
            0 <= i < crate::rtc::sdp::lines(s).len() - 1 ==> (#[trigger] crate::rtc::sdp::lines(
                s,
            )[i]).last() == '\n',
{
    crate::rtc::sdp::lemma_lines_flatten(s);
    crate::rtc::sdp_laws::lemma_lines(s);
    let ls = crate::rtc::sdp::lines(s);
    assert forall|i: int| 0 <= i < ls.len() implies (#[trigger] ls[i]).len() > 0 by {
        assert(crate::rtc::sdp_laws::is_line(ls[i]));
    }
    assert forall|i: int, j: int| 0 <= i < ls.len() && 0 <= j < ls[i].len() - 1 implies (
    #[trigger] ls[i][j]) != '\n' by {
        assert(crate::rtc::sdp_laws::is_line(ls[i]));
    }
    assert forall|i: int| 0 <= i < ls.len() - 1 implies (#[trigger] ls[i]).last() == '\n' by {
        assert(crate::rtc::sdp_laws::is_terminated(ls[i]));
    }
}

/// Whether a line begins a media section.
pub open spec fn opens_media(line: Seq<char>) -> bool {
    line.len() >= 2 && line[0] == 'm' && line[1] == '='
}

/// Lines are cut into sections before their media lines and nowhere else: the sections make
/// up the lines, the first has no media line, and each other begins with its only one.
pub proof fn lines_are_cut_before_media_lines(ls: Seq<Seq<char>>)
    ensures
        crate::rtc::sdp::sections(ls).flatten() == ls,
        crate::rtc::sdp::sections(ls).len() > 0,
        forall|j: int|
            0 <= j < crate::rtc::sdp::sections(ls)[0].len() ==> !opens_media(
                #[trigger] crate::rtc::sdp::sections(ls)[0][j],
            ),
        forall|i: int|
            0 < i < crate::rtc::sdp::sections(ls).len() ==> (#[trigger] crate::rtc::sdp::sections(
                ls,
            )[i]).len() > 0 && opens_media(crate::rtc::sdp::sections(ls)[i][0]),
        forall|i: int, j: int|
            0 < i < crate::rtc::sdp::sections(ls).len() && 0 < j < crate::rtc::sdp::sections(
                ls,
            )[i].len() ==> !opens_media(#[trigger] crate::rtc::sdp::sections(ls)[i][j]),
{
    crate::rtc::offer_laws::lemma_sections(ls);
    let found = crate::rtc::sdp::sections(ls);
    assert forall|line: Seq<char>|
        crate::rtc::sdp::is_media_line(line) == #[trigger] opens_media(line) by {
        lemma_opens_media(line);
    }
    assert forall|j: int| 0 <= j < found[0].len() implies !opens_media(#[trigger] found[0][j]) by {
        assert(!crate::rtc::sdp::is_media_line(found[0][j]));
    }
    assert forall|i: int| 0 < i < found.len() implies (#[trigger] found[i]).len() > 0
        && opens_media(found[i][0]) by {
        assert(crate::rtc::offer_laws::begins_section(found[i]));
    }
    assert forall|i: int, j: int| 0 < i < found.len() && 0 < j < found[i].len() implies
        !opens_media(#[trigger] found[i][j]) by {
        assert(crate::rtc::offer_laws::begins_section(found[i]));
        assert(!crate::rtc::sdp::is_media_line(found[i][j]));
    }
}

proof fn lemma_opens_media(line: Seq<char>)
    ensures
        crate::rtc::sdp::is_media_line(line) == opens_media(line),
{
    reveal_strlit("m=");
    let mark = "m="@;
    if crate::rtc::sdp::is_media_line(line) {
        assert(line.take(2)[0] == mark[0] && line.take(2)[1] == mark[1]);
    }
    if opens_media(line) {
        assert(line.take(2) =~= mark);
    }
}

/// The pieces with a semicolon between each two of them.
pub open spec fn joined(parts: Seq<Seq<char>>) -> Seq<char>
    decreases parts.len(),
{
    if parts.len() == 0 {
        Seq::empty()
    } else if parts.len() == 1 {
        parts[0]
    } else {
        parts[0] + seq![';'] + joined(parts.drop_first())
    }
}

/// A parameter list is cut at its semicolons and nowhere else.
pub proof fn lists_are_cut_at_semicolons(s: Seq<char>)
    ensures
        joined(crate::rtc::sdp::pieces(s)) == s,
        crate::rtc::sdp::pieces(s).len() > 0,
        forall|i: int|
            0 <= i < crate::rtc::sdp::pieces(s).len() ==> !(#[trigger] crate::rtc::sdp::pieces(
                s,
            )[i]).contains(';'),
    decreases s.len(),
{
    crate::rtc::sdp_laws::lemma_pieces_hold_no_semicolon(s);
    crate::rtc::sdp_laws::lemma_find(s, ';');
    let n = crate::text::find(s, ';');
    if n < s.len() {
        let rest = s.skip(n + 1);
        lists_are_cut_at_semicolons(rest);
        assert(crate::rtc::sdp::pieces(s).drop_first() =~= crate::rtc::sdp::pieces(rest));
        assert(s.take(n) + seq![';'] + rest =~= s);
    }
}

// What stays.

/// A line with a line feed at its end.
pub open spec fn with_feed(line: Seq<char>) -> Seq<char> {
    if line.len() > 0 && line.last() == '\n' {
        line
    } else {
        line.push('\n')
    }
}

/// Whether a line is a format line of the payload type.
pub open spec fn describes(line: Seq<char>, pt: Seq<char>) -> bool {
    let start = "a=fmtp:"@ + pt + " "@;
    line.len() >= start.len() && line.take(start.len() as int) == start
}

/// The lines but for the format lines of the payload type, each with its line feed.
pub open spec fn others(ls: Seq<Seq<char>>, pt: Seq<char>) -> Seq<Seq<char>>
    decreases ls.len(),
{
    if ls.len() == 0 {
        Seq::empty()
    } else if describes(ls.last(), pt) {
        others(ls.drop_last(), pt)
    } else {
        others(ls.drop_last(), pt).push(with_feed(ls.last()))
    }
}

/// Whether a line maps the payload type to Opus.
pub open spec fn names_opus(line: Seq<char>, pt: Seq<char>) -> bool {
    let t = crate::text::trim(line);
    let start = "a=rtpmap:"@ + pt + " "@;
    &&& !pt.contains(' ')
    &&& t.len() >= start.len()
    &&& t.take(start.len() as int) == start
    &&& crate::text::starts_with(crate::text::lower(t.skip(start.len() as int)), "opus/"@)
}

/// Whether the line at `k` is the first that maps a payload type to Opus, and maps this one.
pub open spec fn first_opus(ls: Seq<Seq<char>>, k: int, pt: Seq<char>) -> bool {
    &&& 0 <= k < ls.len()
    &&& names_opus(ls[k], pt)
    &&& forall|m: int, q: Seq<char>| 0 <= m < k ==> !names_opus(ls[m], q)
}

/// Whether some line maps a payload type to Opus.
pub open spec fn has_opus(ls: Seq<Seq<char>>) -> bool {
    exists|k: int, pt: Seq<char>| #[trigger] first_opus(ls, k, pt)
}

proof fn lemma_names_opus(line: Seq<char>, pt: Seq<char>)
    ensures
        names_opus(line, pt) <==> crate::rtc::sdp::opus_mapping(line) == Some(pt),
{
    reveal_strlit("a=rtpmap:");
    reveal_strlit(" ");
    let t = crate::text::trim(line);
    let mark = "a=rtpmap:"@;
    let start = mark + pt + " "@;
    let n = mark.len() as int;
    let m = pt.len() as int;
    let rest = t.skip(n);
    if names_opus(line, pt) {
        assert forall|j: int| 0 <= j < start.len() implies t[j] == start[j] by {
            assert(t.take(start.len() as int)[j] == start[j]);
        }
        assert(t.take(n) =~= mark);
        assert forall|j: int| 0 <= j < m implies rest[j] != ' ' by {
            assert(rest[j] == pt[j]);
            assert(pt.contains(pt[j]));
        }
        assert(rest[m] == ' ');
        crate::rtc::sdp_laws::lemma_find_is(rest, ' ', m);
        assert(rest.take(m) =~= pt);
        assert(rest.skip(m + 1) =~= t.skip(start.len() as int));
    }
    if crate::rtc::sdp::opus_mapping(line) == Some(pt) {
        crate::rtc::sdp_laws::lemma_find(rest, ' ');
        let i = crate::text::find(rest, ' ');
        assert(i == m);
        assert forall|j: int| 0 <= j < pt.len() implies pt[j] != ' ' by {
            assert(pt[j] == rest[j]);
        }
        assert(t.take(start.len() as int) =~= start) by {
            assert forall|j: int| 0 <= j < start.len() implies t[j] == start[j] by {
                if j < n {
                    assert(t.take(n)[j] == mark[j]);
                } else if j < n + m {
                    assert(rest[j - n] == pt[j - n]);
                } else {
                    assert(rest[m] == ' ');
                }
            }
        }
        assert(rest.skip(m + 1) =~= t.skip(start.len() as int));
    }
}

proof fn lemma_first_opus(ls: Seq<Seq<char>>)
    ensures
        crate::rtc::sdp::opus_payload_type(ls) is None ==> !has_opus(ls),
        crate::rtc::sdp::opus_payload_type(ls) matches Some(pt) ==> exists|k: int| #[trigger]
            first_opus(ls, k, pt),
        forall|k: int, pt: Seq<char>| #[trigger]
            first_opus(ls, k, pt) ==> crate::rtc::sdp::opus_payload_type(ls) == Some(pt),
    decreases ls.len(),
{
    assert forall|line: Seq<char>, pt: Seq<char>|
        #[trigger] names_opus(line, pt) == (crate::rtc::sdp::opus_mapping(line) == Some(pt)) by {
        lemma_names_opus(line, pt);
    }
    if ls.len() > 0 {
        let rest = ls.drop_first();
        lemma_first_opus(rest);
        if crate::rtc::sdp::opus_mapping(ls[0]) is Some {
            let pt = crate::rtc::sdp::opus_mapping(ls[0])->0;
            assert(first_opus(ls, 0, pt));
            assert forall|k: int, q: Seq<char>| #[trigger] first_opus(ls, k, q) implies
                crate::rtc::sdp::opus_payload_type(ls) == Some(q) by {
                if k > 0 {
                    assert(!names_opus(ls[0], pt));
                }
            }
        } else {
            if crate::rtc::sdp::opus_payload_type(ls) is Some {
                let pt = crate::rtc::sdp::opus_payload_type(ls)->0;
                let k = choose|k: int| #[trigger] first_opus(rest, k, pt);
                assert forall|m: int, q: Seq<char>| 0 <= m < k + 1 implies !names_opus(
                    ls[m],
                    q,
                ) by {
                    if m > 0 {
                        assert(rest[m - 1] == ls[m]);
                    }
                }
                assert(ls[k + 1] == rest[k]);
                assert(first_opus(ls, k + 1, pt));
            }
            assert forall|k: int, q: Seq<char>| #[trigger] first_opus(ls, k, q) implies
                crate::rtc::sdp::opus_payload_type(ls) == Some(q) by {
                assert(k > 0);
                assert(rest[k - 1] == ls[k]);
                assert forall|m: int, p: Seq<char>| 0 <= m < k - 1 implies !names_opus(
                    rest[m],
                    p,
                ) by {
                    assert(rest[m] == ls[m + 1]);
                }
                assert(first_opus(rest, k - 1, q));
            }
        }
    }
}

proof fn lemma_describes(line: Seq<char>, pt: Seq<char>)
    ensures
        crate::rtc::sdp::is_fmtp_line(line, pt) == describes(line, pt),
{
    reveal_strlit(" ");
    let prefix = crate::rtc::sdp::fmtp_prefix(pt);
    assert(prefix =~= "a=fmtp:"@ + pt + " "@);
    let n = prefix.len() as int;
    let b = crate::rtc::sdp::body(line);
    crate::rtc::sdp_laws::lemma_body(line);
    if describes(line, pt) {
        assert(line.take(n)[n - 1] == prefix[n - 1]);
        assert(prefix[n - 1] == ' ');
        if b.len() < n {
            assert(crate::rtc::sdp::line_break(line[n - 1]));
        }
        assert(b.take(n) =~= line.take(n));
    }
    if crate::rtc::sdp::is_fmtp_line(line, pt) {
        assert(b.take(n) =~= line.take(n));
    }
}

proof fn lemma_rewritten_others(ls: Seq<Seq<char>>, pt: Seq<char>, wanted: Seq<ParamView>)
    ensures
        others(crate::rtc::sdp::rewritten_lines(ls, pt, wanted), pt) == others(ls, pt),
    decreases ls.len(),
{
    if ls.len() > 0 {
        let out = crate::rtc::sdp::rewritten_lines(ls, pt, wanted);
        lemma_rewritten_others(ls.drop_last(), pt, wanted);
        assert(out.drop_last() =~= crate::rtc::sdp::rewritten_lines(ls.drop_last(), pt, wanted));
        let line = ls.last();
        lemma_describes(line, pt);
        assert(out.last() == crate::rtc::sdp::rewritten_line(line, pt, wanted));
        if describes(line, pt) {
            reveal_strlit(" ");
            let prefix = crate::rtc::sdp::fmtp_prefix(pt);
            assert(prefix =~= "a=fmtp:"@ + pt + " "@);
            assert(out.last().take(prefix.len() as int) =~= prefix);
        }
    } else {
        assert(crate::rtc::sdp::rewritten_lines(ls, pt, wanted) =~= ls);
    }
}

proof fn lemma_extended_others(ls: Seq<Seq<char>>, pt: Seq<char>, wanted: Seq<ParamView>)
    requires
        !crate::rtc::sdp::has_fmtp_line(ls, pt),
    ensures
        others(crate::rtc::sdp::extended_lines(ls, pt, wanted), pt) == others(ls, pt),
    decreases ls.len(),
{
    if ls.len() > 0 {
        let front = ls.drop_last();
        let line = ls.last();
        assert(!crate::rtc::sdp::has_fmtp_line(front, pt)) by {
            assert forall|i: int| 0 <= i < front.len() implies !crate::rtc::sdp::is_fmtp_line(
                #[trigger] front[i],
                pt,
            ) by {
                assert(front[i] == ls[i]);
            }
        }
        lemma_extended_others(front, pt, wanted);
        let before = crate::rtc::sdp::extended_lines(front, pt, wanted);
        let ext = crate::rtc::sdp::extended_lines(ls, pt, wanted);
        assert(!crate::rtc::sdp::is_fmtp_line(ls[ls.len() - 1], pt));
        lemma_describes(line, pt);
        if crate::rtc::sdp::is_rtpmap_line(line, pt) {
            let kept = crate::rtc::sdp::ended_line(line);
            let added = crate::rtc::sdp::fmtp_line_after(kept, pt, wanted);
            reveal_strlit(" ");
            let prefix = crate::rtc::sdp::fmtp_prefix(pt);
            assert(prefix =~= "a=fmtp:"@ + pt + " "@);
            assert(added.take(prefix.len() as int) =~= prefix);
            assert(ext.drop_last() =~= before.push(kept));
            assert(ext.drop_last().drop_last() =~= before);
            assert(with_feed(kept) == with_feed(line));
            assert(!describes(kept, pt)) by {
                lemma_describes(kept, pt);
                if !(line.len() > 0 && line.last() == '\n') {
                    assert(kept.drop_last() =~= line);
                    assert(crate::rtc::sdp::body(kept) == crate::rtc::sdp::body(line));
                }
            }
            assert(before.push(kept).drop_last() =~= before);
            assert(others(before.push(kept), pt) == others(before, pt).push(with_feed(kept)));
            assert(ext.last() == added);
            assert(others(ext, pt) == others(before.push(kept), pt));
        } else {
            assert(ext.drop_last() =~= before);
        }
    }
}

/// Whether lines were changed only to describe Opus: they have no Opus and stay as they are,
/// or all but the format lines of the first Opus payload type stay, in order.
pub open spec fn changes_only_opus(before: Seq<Seq<char>>, after: Seq<Seq<char>>) -> bool {
    &&& !has_opus(before) ==> after == before
    &&& forall|k: int, pt: Seq<char>| #[trigger]
        first_opus(before, k, pt) ==> others(after, pt) == others(before, pt)
}

/// Declaring parameters changes nothing but the format lines of the Opus payload type.
pub proof fn munging_changes_only_opus(ls: Seq<Seq<char>>, wanted: Seq<ParamView>)
    ensures
        changes_only_opus(ls, crate::rtc::sdp::munged_lines(ls, wanted)),
{
    lemma_first_opus(ls);
    if crate::rtc::sdp::opus_payload_type(ls) is Some {
        let pt = crate::rtc::sdp::opus_payload_type(ls)->0;
        if crate::rtc::sdp::has_fmtp_line(ls, pt) {
            lemma_rewritten_others(ls, pt, wanted);
        } else {
            lemma_extended_others(ls, pt, wanted);
        }
        let k = choose|k: int| #[trigger] first_opus(ls, k, pt);
        assert(has_opus(ls));
    }
}

/// The text of an offer differs from the engine's in the Opus format lines of its media and
/// in nothing else: what concerns the whole session stays as it is, and so does every section
/// that belongs to no medium. In the section of a medium all lines but the format lines of its
/// Opus payload type stay, in order.
pub proof fn offers_change_only_opus_format_lines(sdp: Seq<char>, media: Seq<PublishMedia>)
    ensures
        ({
            let before = crate::rtc::sdp::sections(crate::rtc::sdp::lines(sdp));
            let after = crate::rtc::sdp::sections(
                crate::rtc::sdp::lines(crate::rtc::handshake::offered(sdp, media)),
            );
            &&& after.len() == before.len()
            &&& after[0] == before[0]
            &&& forall|i: int| media.len() < i < before.len() ==> (#[trigger] after[i]) == before[i]
            &&& forall|i: int|
                0 < i < before.len() && i <= media.len() ==> changes_only_opus(
                    before[i],
                    #[trigger] after[i],
                )
        }),
{
    let before = crate::rtc::sdp::sections(crate::rtc::sdp::lines(sdp));
    let after = crate::rtc::sdp::sections(
        crate::rtc::sdp::lines(crate::rtc::handshake::offered(sdp, media)),
    );
    crate::rtc::offer_laws::offers_keep_their_sections(sdp, media);
    crate::rtc::offer_laws::lemma_sections(crate::rtc::sdp::lines(sdp));
    assert forall|i: int| 0 < i < before.len() && i <= media.len() implies changes_only_opus(
        before[i],
        #[trigger] after[i],
    ) by {
        munging_changes_only_opus(
            before[i],
            crate::rtc::handshake::media_params(media[i - 1]),
        );
    }
}

/// The lines that describe no payload type at all, each with its line feed.
pub open spec fn plain(ls: Seq<Seq<char>>) -> Seq<Seq<char>>
    decreases ls.len(),
{
    if ls.len() == 0 {
        Seq::empty()
    } else if is_format(ls.last()) {
        plain(ls.drop_last())
    } else {
        plain(ls.drop_last()).push(with_feed(ls.last()))
    }
}

/// Whether a line describes a payload type.
pub open spec fn is_format(line: Seq<char>) -> bool {
    line.len() >= 7 && line.take(7) == "a=fmtp:"@
}

proof fn lemma_plain_join(a: Seq<Seq<char>>, b: Seq<Seq<char>>)
    ensures
        plain(a + b) == plain(a) + plain(b),
    decreases b.len(),
{
    if b.len() == 0 {
        assert(a + b =~= a);
        assert(plain(a) + plain(b) =~= plain(a));
    } else {
        lemma_plain_join(a, b.drop_last());
        assert((a + b).drop_last() =~= a + b.drop_last());
        assert((a + b).last() == b.last());
        assert(plain(a + b) =~= plain(a) + plain(b));
    }
}

proof fn lemma_fmtp_prefix_is_format(pt: Seq<char>, rest: Seq<char>)
    ensures
        is_format(crate::rtc::sdp::fmtp_prefix(pt) + rest),
{
    reveal_strlit("a=fmtp:");
    let line = crate::rtc::sdp::fmtp_prefix(pt) + rest;
    assert(line.take(7) =~= "a=fmtp:"@);
}

proof fn lemma_described_is_format(line: Seq<char>, pt: Seq<char>)
    requires
        crate::rtc::sdp::is_fmtp_line(line, pt),
    ensures
        is_format(line),
{
    reveal_strlit("a=fmtp:");
    let prefix = crate::rtc::sdp::fmtp_prefix(pt);
    crate::rtc::sdp_laws::lemma_body(line);
    assert forall|j: int| 0 <= j < 7 implies line[j] == "a=fmtp:"@[j] by {
        assert(crate::rtc::sdp::body(line).take(prefix.len() as int)[j] == prefix[j]);
    }
    assert(line.take(7) =~= "a=fmtp:"@);
}

proof fn lemma_rewritten_plain(ls: Seq<Seq<char>>, pt: Seq<char>, wanted: Seq<ParamView>)
    ensures
        plain(crate::rtc::sdp::rewritten_lines(ls, pt, wanted)) == plain(ls),
    decreases ls.len(),
{
    if ls.len() > 0 {
        let out = crate::rtc::sdp::rewritten_lines(ls, pt, wanted);
        lemma_rewritten_plain(ls.drop_last(), pt, wanted);
        assert(out.drop_last() =~= crate::rtc::sdp::rewritten_lines(ls.drop_last(), pt, wanted));
        let line = ls.last();
        assert(out.last() == crate::rtc::sdp::rewritten_line(line, pt, wanted));
        if crate::rtc::sdp::is_fmtp_line(line, pt) {
            lemma_described_is_format(line, pt);
            let rest = crate::rtc::sdp::merged(
                crate::rtc::sdp::body(line).skip(crate::rtc::sdp::fmtp_prefix(pt).len() as int),
                wanted,
            ) + line.skip(crate::rtc::sdp::body(line).len() as int);
            assert(out.last() =~= crate::rtc::sdp::fmtp_prefix(pt) + rest);
            lemma_fmtp_prefix_is_format(pt, rest);
        }
    } else {
        assert(crate::rtc::sdp::rewritten_lines(ls, pt, wanted) =~= ls);
    }
}

proof fn lemma_extended_plain(ls: Seq<Seq<char>>, pt: Seq<char>, wanted: Seq<ParamView>)
    ensures
        plain(crate::rtc::sdp::extended_lines(ls, pt, wanted)) == plain(ls),
    decreases ls.len(),
{
    if ls.len() > 0 {
        let line = ls.last();
        lemma_extended_plain(ls.drop_last(), pt, wanted);
        let before = crate::rtc::sdp::extended_lines(ls.drop_last(), pt, wanted);
        let ext = crate::rtc::sdp::extended_lines(ls, pt, wanted);
        if crate::rtc::sdp::is_rtpmap_line(line, pt) {
            let kept = crate::rtc::sdp::ended_line(line);
            let rest = crate::rtc::sdp::params_text(wanted) + crate::rtc::sdp::line_end_like(kept);
            assert(ext.last() =~= crate::rtc::sdp::fmtp_prefix(pt) + rest);
            lemma_fmtp_prefix_is_format(pt, rest);
            assert(ext.drop_last() =~= before.push(kept));
            assert(ext.drop_last().drop_last() =~= before);
            assert(with_feed(kept) == with_feed(line));
            reveal_strlit("a=fmtp:");
            assert(is_format(kept) == is_format(line)) by {
                if line.len() >= 7 {
                    assert(kept.take(7) =~= line.take(7));
                } else if kept.len() >= 7 {
                    assert(kept.take(7)[6] == '\n');
                }
            }
            assert(before.push(kept).drop_last() =~= before);
            assert(plain(before.push(kept)) == if is_format(kept) {
                plain(before)
            } else {
                plain(before).push(with_feed(kept))
            });
            assert(plain(ext) == plain(before.push(kept)));
        } else {
            assert(ext.drop_last() =~= before);
        }
    }
}

proof fn lemma_munged_plain(ls: Seq<Seq<char>>, wanted: Seq<ParamView>)
    ensures
        plain(crate::rtc::sdp::munged_lines(ls, wanted)) == plain(ls),
{
    if crate::rtc::sdp::opus_payload_type(ls) is Some {
        let pt = crate::rtc::sdp::opus_payload_type(ls)->0;
        lemma_rewritten_plain(ls, pt, wanted);
        lemma_extended_plain(ls, pt, wanted);
    }
}

proof fn lemma_offered_plain(before: Seq<Seq<Seq<char>>>, media: Seq<PublishMedia>, n: nat)
    requires
        n <= before.len(),
    ensures
        plain(
            crate::rtc::handshake::offered_sections(before, media).take(n as int).flatten(),
        ) == plain(before.take(n as int).flatten()),
    decreases n,
{
    let after = crate::rtc::handshake::offered_sections(before, media);
    if n == 0 {
        assert(after.take(0) =~= before.take(0));
    } else {
        let m = n - 1;
        lemma_offered_plain(before, media, m as nat);
        assert(after.take(n as int) =~= after.take(m).push(after[m]));
        assert(before.take(n as int) =~= before.take(m).push(before[m]));
        after.take(m).lemma_flatten_push(after[m]);
        before.take(m).lemma_flatten_push(before[m]);
        lemma_plain_join(after.take(m).flatten(), after[m]);
        lemma_plain_join(before.take(m).flatten(), before[m]);
        if 0 < m && m <= media.len() {
            lemma_munged_plain(before[m], crate::rtc::handshake::media_params(media[m - 1]));
        }
    }
}

/// Every line of the engine's offer that describes no payload type stands in the offer that
/// is sent, in its place and as it was, and there are no others.
pub proof fn offers_keep_every_other_line(sdp: Seq<char>, media: Seq<PublishMedia>)
    ensures
        plain(crate::rtc::sdp::lines(crate::rtc::handshake::offered(sdp, media))) == plain(
            crate::rtc::sdp::lines(sdp),
        ),
{
    let ls = crate::rtc::sdp::lines(sdp);
    let before = crate::rtc::sdp::sections(ls);
    let after = crate::rtc::handshake::offered_sections(before, media);
    crate::rtc::offer_laws::offers_keep_their_sections(sdp, media);
    crate::rtc::offer_laws::lemma_sections(ls);
    lemma_offered_plain(before, media, before.len());
    assert(after.take(before.len() as int) =~= after);
    assert(before.take(before.len() as int) =~= before);
}

/// So it is with the parameters of one layout for a whole offer.
pub proof fn munging_keeps_every_other_line(
    sdp: Seq<char>,
    stereo: bool,
    max_avg_bitrate_bits: nat,
)
    ensures
        plain(
            crate::rtc::sdp::lines(
                crate::rtc::sdp::munged(sdp, stereo, max_avg_bitrate_bits),
            ),
        ) == plain(crate::rtc::sdp::lines(sdp)),
{
    let ls = crate::rtc::sdp::lines(sdp);
    let wanted = crate::rtc::sdp::opus_params(stereo, max_avg_bitrate_bits);
    crate::rtc::sdp_laws::lemma_lines(sdp);
    crate::rtc::sdp_laws::lemma_munged_lines_are_lines(ls, stereo, max_avg_bitrate_bits);
    crate::rtc::sdp_laws::lemma_lines_of_flattened(crate::rtc::sdp::munged_lines(ls, wanted));
    lemma_munged_plain(ls, wanted);
}

// What is declared.

/// A parameter is cut at its first equals sign, without the white space around it. One
/// without an equals sign has no value.
pub proof fn parameters_are_cut_at_their_first_equals_sign(piece: Seq<char>)
    ensures
        !crate::rtc::sdp::param_of(piece).key.contains('='),
        crate::text::trim(piece).contains('=') ==> crate::text::trim(piece)
            == crate::rtc::sdp::param_of(piece).key + seq!['='] + crate::rtc::sdp::param_of(
            piece,
        ).value,
        !crate::text::trim(piece).contains('=') ==> crate::text::trim(piece)
            == crate::rtc::sdp::param_of(piece).key && crate::rtc::sdp::param_of(
            piece,
        ).value.len() == 0,
{
    let t = crate::text::trim(piece);
    crate::rtc::sdp_laws::lemma_find(t, '=');
    let i = crate::text::find(t, '=');
    let p = crate::rtc::sdp::param_of(piece);
    if i < t.len() {
        assert(t.contains(t[i]));
        assert(p.key + seq!['='] + p.value =~= t);
    } else if t.contains('=') {
        let j = choose|j: int| 0 <= j < t.len() && t[j] == '=';
        assert(false);
    }
}

/// Whether a piece of a parameter list is a parameter of that name.
pub open spec fn has_name(piece: Seq<char>, key: Seq<char>) -> bool {
    crate::text::trim(piece) == key || crate::text::starts_with(
        crate::text::trim(piece),
        key + "="@,
    )
}

/// Whether a parameter list says of the name that it has the value, and says nothing else of
/// it.
pub open spec fn says(text: Seq<char>, key: Seq<char>, value: Seq<char>) -> bool {
    let parts = crate::rtc::sdp::pieces(text);
    &&& exists|i: int|
        0 <= i < parts.len() && crate::text::trim(#[trigger] parts[i]) == key + "="@ + value
    &&& forall|i: int|
        0 <= i < parts.len() && has_name(#[trigger] parts[i], key) ==> crate::text::trim(parts[i])
            == key + "="@ + value
}

proof fn lemma_params_of(parts: Seq<Seq<char>>)
    ensures
        forall|i: int|
            0 <= i < crate::rtc::sdp::params_of(parts).len() ==> exists|j: int|
                0 <= j < parts.len() && (#[trigger] crate::rtc::sdp::params_of(parts)[i])
                    == crate::rtc::sdp::param_of(#[trigger] parts[j]),
        forall|j: int|
            0 <= j < parts.len() && crate::text::trim(#[trigger] parts[j]).len() > 0
                ==> crate::rtc::sdp::params_of(parts).contains(crate::rtc::sdp::param_of(parts[j])),
    decreases parts.len(),
{
    if parts.len() > 0 {
        let front = parts.drop_last();
        let ps = crate::rtc::sdp::params_of(parts);
        let before = crate::rtc::sdp::params_of(front);
        let n = parts.len() - 1;
        lemma_params_of(front);
        assert forall|i: int| 0 <= i < ps.len() implies exists|j: int|
            0 <= j < parts.len() && (#[trigger] ps[i]) == crate::rtc::sdp::param_of(
                #[trigger] parts[j],
            ) by {
            if i < before.len() {
                assert(before[i] == ps[i]);
                let j = choose|j: int|
                    0 <= j < front.len() && before[i] == crate::rtc::sdp::param_of(
                        #[trigger] front[j],
                    );
                assert(parts[j] == front[j]);
            } else {
                assert(ps[i] == crate::rtc::sdp::param_of(parts[n]));
            }
        }
        assert forall|j: int|
            0 <= j < parts.len() && crate::text::trim(#[trigger] parts[j]).len() > 0 implies
            ps.contains(crate::rtc::sdp::param_of(parts[j])) by {
            if j < n {
                assert(front[j] == parts[j]);
                let i = choose|i: int|
                    0 <= i < before.len() && before[i] == crate::rtc::sdp::param_of(parts[j]);
                assert(ps[i] == before[i]);
            } else {
                assert(ps[ps.len() - 1] == crate::rtc::sdp::param_of(parts[j]));
            }
        }
    }
}

proof fn lemma_says(text: Seq<char>, w: ParamView)
    requires
        crate::rtc::sdp_laws::declares(
            crate::rtc::sdp::params_of(crate::rtc::sdp::pieces(text)),
            w,
        ),
        w.value.len() > 0,
        w.key.len() > 0,
        !w.key.contains('='),
    ensures
        says(text, w.key, w.value),
{
    reveal_strlit("=");
    assert("="@ =~= seq!['=']);
    let parts = crate::rtc::sdp::pieces(text);
    let ps = crate::rtc::sdp::params_of(parts);
    lemma_params_of(parts);
    let i = choose|i: int| 0 <= i < ps.len() && (#[trigger] ps[i]).key == w.key;
    assert(ps[i] == w);
    let j = choose|j: int|
        0 <= j < parts.len() && ps[i] == crate::rtc::sdp::param_of(#[trigger] parts[j]);
    parameters_are_cut_at_their_first_equals_sign(parts[j]);
    assert(crate::text::trim(parts[j]) == w.key + "="@ + w.value);
    assert forall|m: int| 0 <= m < parts.len() && has_name(#[trigger] parts[m], w.key) implies
        crate::text::trim(parts[m]) == w.key + "="@ + w.value by {
        let t = crate::text::trim(parts[m]);
        let p = crate::rtc::sdp::param_of(parts[m]);
        parameters_are_cut_at_their_first_equals_sign(parts[m]);
        assert forall|x: int| 0 <= x < w.key.len() implies w.key[x] != '=' by {
            assert(w.key.contains(w.key[x]));
        }
        assert(p.key == w.key) by {
            if t != w.key {
                let n = w.key.len() as int;
                let start = w.key + "="@;
                assert forall|x: int| 0 <= x <= n implies t[x] == start[x] by {
                    assert(t.take(start.len() as int)[x] == start[x]);
                }
                crate::rtc::sdp_laws::lemma_find_is(t, '=', n);
                assert(t.take(n) =~= w.key);
            }
        }
        assert(t.len() > 0);
        assert(ps.contains(p));
        let x = choose|x: int| 0 <= x < ps.len() && ps[x] == p;
        assert(ps[x].key == w.key);
        assert(p == w);
    }
}

/// Each medium is offered with its own layout and its own bitrate, a least packet time of
/// 10 ms and no in-band error correction: every format line of the section's Opus payload
/// type says so and nothing else of these, and there is one.
pub proof fn offers_say_what_each_medium_is(
    sdp: Seq<char>,
    media: Seq<PublishMedia>,
    i: int,
    k: int,
    pt: Seq<char>,
)
    requires
        0 <= i < media.len(),
        i + 1 < crate::rtc::sdp::sections(crate::rtc::sdp::lines(sdp)).len(),
        crate::rtc::offer_laws::media_settle(
            crate::rtc::sdp::sections(crate::rtc::sdp::lines(sdp)),
            media,
        ),
        first_opus(crate::rtc::sdp::sections(crate::rtc::sdp::lines(sdp))[i + 1], k, pt),
    ensures
        ({
            let after = crate::rtc::sdp::sections(
                crate::rtc::sdp::lines(crate::rtc::handshake::offered(sdp, media)),
            )[i + 1];
            let flag = if media[i].stereo {
                "1"@
            } else {
                "0"@
            };
            &&& exists|j: int| 0 <= j < after.len() && describes(#[trigger] after[j], pt)
            &&& forall|j: int|
                0 <= j < after.len() && describes(#[trigger] after[j], pt) ==> {
                    let text = crate::rtc::sdp_laws::format_text(after[j], pt);
                    &&& says(text, "stereo"@, flag)
                    &&& says(text, "sprop-stereo"@, flag)
                    &&& says(
                        text,
                        "maxaveragebitrate"@,
                        crate::numeral::decimal((media[i].max_avg_bitrate_kbps * 1024) as nat),
                    )
                    &&& says(text, "minptime"@, "10"@)
                    &&& says(text, "useinbandfec"@, "0"@)
                }
        }),
{
    let before = crate::rtc::sdp::sections(crate::rtc::sdp::lines(sdp))[i + 1];
    let after = crate::rtc::sdp::sections(
        crate::rtc::sdp::lines(crate::rtc::handshake::offered(sdp, media)),
    )[i + 1];
    lemma_first_opus(before);
    crate::rtc::offer_laws::offers_declare_each_medium(sdp, media, i);
    let wanted = crate::rtc::handshake::media_params(media[i]);
    let bits = (media[i].max_avg_bitrate_kbps * 1024) as nat;
    crate::rtc::sdp_laws::lemma_opus_params(media[i].stereo, bits);
    reveal_strlit("minptime");
    reveal_strlit("10");
    reveal_strlit("useinbandfec");
    reveal_strlit("0");
    reveal_strlit("1");
    reveal_strlit("sprop-stereo");
    reveal_strlit("stereo");
    reveal_strlit("maxaveragebitrate");
    crate::numeral::lemma_decimal_digits(bits);
    let f = choose|f: int|
        0 <= f < after.len() && crate::rtc::sdp::is_fmtp_line(#[trigger] after[f], pt);
    lemma_describes(after[f], pt);
    assert forall|j: int| 0 <= j < after.len() && describes(#[trigger] after[j], pt) implies {
        let text = crate::rtc::sdp_laws::format_text(after[j], pt);
        &&& says(text, wanted[3].key, wanted[3].value)
        &&& says(text, wanted[2].key, wanted[2].value)
        &&& says(text, wanted[4].key, wanted[4].value)
        &&& says(text, wanted[0].key, wanted[0].value)
        &&& says(text, wanted[1].key, wanted[1].value)
    } by {
        lemma_describes(after[j], pt);
        let text = crate::rtc::sdp_laws::format_text(after[j], pt);
        assert forall|m: int| 0 <= m < 5 implies says(
            text,
            (#[trigger] wanted[m]).key,
            wanted[m].value,
        ) by {
            assert(crate::rtc::sdp_laws::steady(wanted[m]));
            lemma_says(text, wanted[m]);
        }
    }
}

/// Setting parameters adds those that are missing and no others, each once.
pub proof fn merging_adds_only_what_is_missing(existing: Seq<ParamView>, wanted: Seq<ParamView>)
    requires
        crate::rtc::sdp_laws::distinct_keys(wanted),
    ensures
        ({
            let after = crate::rtc::sdp::with_params(existing, wanted);
            &&& existing.len() <= after.len()
            &&& forall|i: int|
                existing.len() <= i < after.len() ==> wanted.contains(#[trigger] after[i])
                    && !crate::rtc::sdp::has_key(existing, after[i].key)
            &&& forall|i: int, j: int|
                existing.len() <= i < j < after.len() ==> (#[trigger] after[i]).key != (
                #[trigger] after[j]).key
        }),
    decreases wanted.len(),
{
    if wanted.len() > 0 {
        let front = wanted.drop_last();
        let w = wanted.last();
        assert forall|i: int, j: int| 0 <= i < j < front.len() implies (#[trigger] front[i]).key
            != (#[trigger] front[j]).key by {
            assert(wanted[i].key != wanted[j].key);
        }
        merging_adds_only_what_is_missing(existing, front);
        let mid = crate::rtc::sdp::with_params(existing, front);
        let after = crate::rtc::sdp::with_params(existing, wanted);
        crate::rtc::sdp_laws::lemma_with_param_places(mid, w);
        crate::rtc::sdp_laws::lemma_with_params_keep_names(existing, front);
        assert(wanted[wanted.len() - 1] == w);
        assert forall|i: int| existing.len() <= i < mid.len() implies after[i] == mid[i]
            && mid[i].key != w.key by {
            assert(front.contains(mid[i]));
            let k = choose|k: int| 0 <= k < front.len() && front[k] == mid[i];
            assert(wanted[k].key != wanted[wanted.len() - 1].key);
        }
        assert forall|i: int| existing.len() <= i < after.len() implies wanted.contains(
            #[trigger] after[i],
        ) && !crate::rtc::sdp::has_key(existing, after[i].key) by {
            if i < mid.len() {
                assert(after[i] == mid[i]);
                let k = choose|k: int| 0 <= k < front.len() && front[k] == mid[i];
                assert(wanted[k] == mid[i]);
            } else {
                assert(after[i] == w);
                if crate::rtc::sdp::has_key(existing, w.key) {
                    let k = choose|k: int|
                        0 <= k < existing.len() && (#[trigger] existing[k]).key == w.key;
                    assert(mid[k].key == w.key);
                    assert(crate::rtc::sdp::has_key(mid, w.key));
                }
            }
        }
        assert forall|i: int, j: int| existing.len() <= i < j < after.len() implies (
        #[trigger] after[i]).key != (#[trigger] after[j]).key by {
            if j >= mid.len() {
                assert(after[j] == w);
                if i >= mid.len() {
                    assert(after.len() <= mid.len() + 1);
                } else {
                    assert(after[i] == mid[i]);
                }
            } else {
                assert(after[i] == mid[i] && after[j] == mid[j]);
            }
        }
    }
}

// Where format lines stand.

/// Whether a line maps the payload type.
pub open spec fn maps(line: Seq<char>, pt: Seq<char>) -> bool {
    let start = "a=rtpmap:"@ + pt + " "@;
    line.len() >= start.len() && line.take(start.len() as int) == start
}

proof fn lemma_maps(line: Seq<char>, pt: Seq<char>)
    requires
        maps(line, pt),
    ensures
        crate::rtc::sdp::is_rtpmap_line(line, pt),
        !describes(line, pt),
{
    reveal_strlit(" ");
    reveal_strlit("a=rtpmap:");
    reveal_strlit("a=fmtp:");
    let prefix = crate::rtc::sdp::rtpmap_prefix(pt);
    let n = prefix.len() as int;
    assert(prefix =~= "a=rtpmap:"@ + pt + " "@);
    crate::rtc::sdp_laws::lemma_body(line);
    let b = crate::rtc::sdp::body(line);
    assert(line.take(n)[n - 1] == prefix[n - 1]);
    if b.len() < n {
        assert(crate::rtc::sdp::line_break(line[n - 1]));
    }
    assert(b.take(n) =~= line.take(n));
    assert(line.take(n)[2] == 'r');
    if describes(line, pt) {
        let start = "a=fmtp:"@ + pt + " "@;
        assert(line.take(start.len() as int)[2] == start[2]);
    }
}

proof fn lemma_mapping_is_followed(
    ls: Seq<Seq<char>>,
    pt: Seq<char>,
    wanted: Seq<ParamView>,
    j: int,
)
    requires
        0 <= j < crate::rtc::sdp::extended_lines(ls, pt, wanted).len(),
        maps(crate::rtc::sdp::extended_lines(ls, pt, wanted)[j], pt),
    ensures
        j + 1 < crate::rtc::sdp::extended_lines(ls, pt, wanted).len(),
        describes(crate::rtc::sdp::extended_lines(ls, pt, wanted)[j + 1], pt),
        crate::rtc::sdp::extended_lines(ls, pt, wanted)[j + 1]
            == crate::rtc::sdp::fmtp_line_after(
            crate::rtc::sdp::extended_lines(ls, pt, wanted)[j],
            pt,
            wanted,
        ),
    decreases ls.len(),
{
    let ext = crate::rtc::sdp::extended_lines(ls, pt, wanted);
    let before = crate::rtc::sdp::extended_lines(ls.drop_last(), pt, wanted);
    let line = ls.last();
    reveal_strlit(" ");
    let prefix = crate::rtc::sdp::fmtp_prefix(pt);
    assert(prefix =~= "a=fmtp:"@ + pt + " "@);
    if j < before.len() {
        assert(ext[j] == before[j]);
        lemma_mapping_is_followed(ls.drop_last(), pt, wanted, j);
        assert(ext[j + 1] == before[j + 1]);
    } else if crate::rtc::sdp::is_rtpmap_line(line, pt) {
        let kept = crate::rtc::sdp::ended_line(line);
        let added = crate::rtc::sdp::fmtp_line_after(kept, pt, wanted);
        assert(added.take(prefix.len() as int) =~= prefix);
        if j == before.len() {
            assert(ext[j] == kept);
            assert(ext[j + 1] == added);
        } else {
            assert(ext[j] == added);
            lemma_maps(added, pt);
        }
    } else {
        lemma_maps(line, pt);
    }
}

/// Where the Opus payload type had no format line, each line that maps it is directly followed
/// by one that holds the parameters, with the same kind of line end.
pub proof fn format_lines_follow_their_mapping(
    ls: Seq<Seq<char>>,
    wanted: Seq<ParamView>,
    k: int,
    pt: Seq<char>,
    j: int,
)
    requires
        first_opus(ls, k, pt),
        forall|i: int| 0 <= i < ls.len() ==> !describes(#[trigger] ls[i], pt),
        0 <= j < crate::rtc::sdp::munged_lines(ls, wanted).len(),
        maps(crate::rtc::sdp::munged_lines(ls, wanted)[j], pt),
    ensures
        ({
            let out = crate::rtc::sdp::munged_lines(ls, wanted);
            let line = out[j];
            &&& j + 1 < out.len()
            &&& describes(out[j + 1], pt)
            &&& out[j + 1].last() == '\n'
            &&& out[j + 1] == "a=fmtp:"@ + pt + " "@ + crate::rtc::sdp::params_text(wanted) + (
            if line.len() >= 2 && line[line.len() - 2] == '\r' && line.last() == '\n' {
                seq!['\r', '\n']
            } else {
                seq!['\n']
            })
        }),
{
    lemma_first_opus(ls);
    assert(!crate::rtc::sdp::has_fmtp_line(ls, pt)) by {
        assert forall|i: int| 0 <= i < ls.len() implies !crate::rtc::sdp::is_fmtp_line(
            #[trigger] ls[i],
            pt,
        ) by {
            lemma_describes(ls[i], pt);
        }
    }
    lemma_mapping_is_followed(ls, pt, wanted, j);
    reveal_strlit(" ");
    assert(crate::rtc::sdp::fmtp_prefix(pt) =~= "a=fmtp:"@ + pt + " "@);
}

/// A format line that is rewritten keeps its parameters of other names, each in its place and
/// with its value, and its line end.
pub proof fn format_lines_keep_other_parameters(
    line: Seq<char>,
    pt: Seq<char>,
    stereo: bool,
    bits: nat,
    i: int,
)
    requires
        crate::rtc::sdp_laws::is_line(line),
        describes(line, pt),
        !pt.contains('\n'),
        ({
            let merged = crate::rtc::sdp_laws::merged_params(
                crate::rtc::sdp_laws::format_text(line, pt),
                crate::rtc::sdp::opus_params(stereo, bits),
            );
            forall|m: int|
                0 <= m < merged.len() ==> crate::rtc::sdp_laws::holds_up(
                    crate::rtc::sdp::param_text(#[trigger] merged[m]),
                )
        }),
        0 <= i < crate::rtc::sdp_laws::line_params(line, pt).len(),
        ({
            let key = crate::rtc::sdp_laws::line_params(line, pt)[i].key;
            key != "minptime"@ && key != "useinbandfec"@ && key != "sprop-stereo"@ && key
                != "stereo"@ && key != "maxaveragebitrate"@
        }),
    ensures
        ({
            let out = crate::rtc::sdp::rewritten_line(
                line,
                pt,
                crate::rtc::sdp::opus_params(stereo, bits),
            );
            &&& i < crate::rtc::sdp_laws::line_params(out, pt).len()
            &&& crate::rtc::sdp_laws::line_params(out, pt)[i]
                == crate::rtc::sdp_laws::line_params(line, pt)[i]
        }),
{
    let wanted = crate::rtc::sdp::opus_params(stereo, bits);
    let before = crate::rtc::sdp_laws::line_params(line, pt);
    lemma_describes(line, pt);
    crate::rtc::sdp_laws::lemma_rewritten_params(line, pt, stereo, bits);
    crate::rtc::sdp_laws::lemma_opus_params(stereo, bits);
    crate::rtc::sdp_laws::merging_declares_and_keeps(
        crate::rtc::sdp_laws::format_text(line, pt),
        wanted,
    );
    let after = crate::rtc::sdp::with_params(before, wanted);
    assert(!crate::rtc::sdp::has_key(wanted, before[i].key)) by {
        if crate::rtc::sdp::has_key(wanted, before[i].key) {
            let k = choose|k: int|
                0 <= k < wanted.len() && (#[trigger] wanted[k]).key == before[i].key;
            assert(k == 0 || k == 1 || k == 2 || k == 3 || k == 4);
        }
    }
    assert(after[i] == before[i]);
}

} // verus!
