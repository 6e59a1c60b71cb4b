//! What holds of offers as a whole.
use vstd::prelude::*;

use crate::rtc::handshake::PublishMedia;
use crate::rtc::sdp::ParamView;

verus! {

/// Sections that were cut at their media lines: the first holds none, and each of the
/// others begins with its only one.
pub open spec fn well_cut(found: Seq<Seq<Seq<char>>>) -> bool {
    &&& found.len() > 0
    &&& forall|j: int|
        0 <= j < found[0].len() ==> !crate::rtc::sdp::is_media_line(#[trigger] found[0][j])
    &&& forall|i: int| 0 < i < found.len() ==> begins_section(#[trigger] found[i])
}

/// Whether lines begin with a media line and hold no other.
pub open spec fn begins_section(ls: Seq<Seq<char>>) -> bool {
    &&& ls.len() > 0
    &&& crate::rtc::sdp::is_media_line(ls[0])
    &&& forall|j: int| 0 < j < ls.len() ==> !crate::rtc::sdp::is_media_line(#[trigger] ls[j])
}

/// Sections are well cut, and together they are the lines.
pub(crate) proof fn lemma_sections(ls: Seq<Seq<char>>)
    ensures
        well_cut(crate::rtc::sdp::sections(ls)),
        crate::rtc::sdp::sections(ls).flatten() == ls,
    decreases ls.len(),
{
    let found = crate::rtc::sdp::sections(ls);
    if ls.len() == 0 {
        found.lemma_flatten_singleton();
        assert(found.flatten() =~= ls);
    } else {
        let line = ls.last();
        let before = crate::rtc::sdp::sections(ls.drop_last());
        lemma_sections(ls.drop_last());
        assert(ls.drop_last().push(line) =~= ls);
        if crate::rtc::sdp::is_media_line(line) {
            before.lemma_flatten_push(seq![line]);
            assert(found.flatten() =~= ls);
            assert forall|i: int| 0 < i < found.len() implies begins_section(
                #[trigger] found[i],
            ) by {
                if i < before.len() {
                    assert(found[i] == before[i]);
                }
            }
            assert(found[0] == before[0]);
        } else {
            let rest = before.drop_last();
            assert(rest.push(before.last()) =~= before);
            rest.lemma_flatten_push(before.last());
            rest.lemma_flatten_push(before.last().push(line));
            assert(found.flatten() =~= ls);
            assert forall|i: int| 0 < i < found.len() implies begins_section(
                #[trigger] found[i],
            ) by {
                assert(begins_section(before[i]));
                if i < before.len() - 1 {
                    assert(found[i] == before[i]);
                } else {
                    assert(found[i] == before[i].push(line));
                }
            }
            assert forall|j: int| 0 <= j < found[0].len() implies !crate::rtc::sdp::is_media_line(
                #[trigger] found[0][j],
            ) by {
                if j < before[0].len() {
                    assert(found[0][j] == before[0][j]);
                }
            }
        }
    }
}

/// Well-cut sections are found again in their lines.
proof fn lemma_sections_read_back(found: Seq<Seq<Seq<char>>>)
    requires
        well_cut(found),
    ensures
        crate::rtc::sdp::sections(found.flatten()) == found,
    decreases found.len(), found.last().len(),
{
    let front = found.drop_last();
    let last = found.last();
    assert(front.push(last) =~= found);
    front.lemma_flatten_push(last);
    if last.len() == 0 {
        if found.len() > 1 {
            assert(begins_section(found[found.len() - 1]));
        }
        assert(front =~= Seq::empty());
        assert(found.flatten() =~= Seq::empty());
        assert(found =~= seq![Seq::empty()]);
    } else {
        let line = last.last();
        let less = last.drop_last();
        let whole = found.flatten();
        assert(whole.last() == line);
        if found.len() > 1 && last.len() == 1 {
            assert(begins_section(found[found.len() - 1]));
            assert(well_cut(front)) by {
                assert(front[0] == found[0]);
                assert forall|i: int| 0 < i < front.len() implies begins_section(
                    #[trigger] front[i],
                ) by {
                    assert(front[i] == found[i]);
                }
            }
            lemma_sections_read_back(front);
            assert(whole.drop_last() =~= front.flatten());
            assert(last =~= seq![line]);
        } else {
            let cut = front.push(less);
            front.lemma_flatten_push(less);
            assert(whole.drop_last() =~= cut.flatten());
            if found.len() > 1 {
                assert(begins_section(found[found.len() - 1]));
                assert(begins_section(less)) by {
                    assert forall|j: int| 0 < j < less.len() implies !crate::rtc::sdp::is_media_line(
                        #[trigger] less[j],
                    ) by {
                        assert(less[j] == last[j]);
                    }
                }
                assert(!crate::rtc::sdp::is_media_line(last[last.len() - 1]));
            } else {
                assert(!crate::rtc::sdp::is_media_line(found[0][last.len() - 1]));
            }
            assert(well_cut(cut)) by {
                assert forall|i: int| 0 < i < cut.len() implies begins_section(
                    #[trigger] cut[i],
                ) by {
                    if i < front.len() {
                        assert(cut[i] == found[i]);
                    }
                }
                assert forall|j: int| 0 <= j < cut[0].len() implies
                    !crate::rtc::sdp::is_media_line(#[trigger] cut[0][j]) by {
                    assert(cut[0][j] == found[0][j]);
                }
            }
            lemma_sections_read_back(cut);
            assert(cut.drop_last() =~= front);
            assert(less.push(line) =~= last);
        }
    }
}

/// Only the last line of the last section may lack its line feed.
proof fn lemma_section_lines(ls: Seq<Seq<char>>)
    requires
        crate::rtc::sdp_laws::are_lines(ls),
    ensures
        ({
            let found = crate::rtc::sdp::sections(ls);
            &&& forall|i: int|
                0 <= i < found.len() ==> crate::rtc::sdp_laws::are_lines(#[trigger] found[i])
            &&& forall|i: int|
                0 <= i < found.len() - 1 ==> crate::rtc::sdp_laws::all_terminated(
                    #[trigger] found[i],
                )
            &&& crate::rtc::sdp_laws::all_terminated(ls) ==> crate::rtc::sdp_laws::all_terminated(
                found.last(),
            )
        }),
    decreases ls.len(),
{
    if ls.len() > 0 {
        let front = ls.drop_last();
        let line = ls.last();
        assert(line == ls[ls.len() - 1]);
        assert(crate::rtc::sdp_laws::is_line(ls[ls.len() - 1]));
        assert forall|i: int| 0 <= i < front.len() implies crate::rtc::sdp_laws::is_line(
            #[trigger] front[i],
        ) && crate::rtc::sdp_laws::is_terminated(front[i]) by {
            assert(front[i] == ls[i]);
        }
        lemma_section_lines(front);
        lemma_sections(front);
        let before = crate::rtc::sdp::sections(front);
        let found = crate::rtc::sdp::sections(ls);
        assert forall|i: int| 0 <= i < before.len() implies crate::rtc::sdp_laws::all_terminated(
            #[trigger] before[i],
        ) by {
            if i == before.len() - 1 {
                assert(before[i] == before.last());
            }
        }
        assert(crate::rtc::sdp_laws::all_terminated(before[before.len() - 1]));
        assert forall|i: int| 0 <= i < found.len() - 1 implies
            crate::rtc::sdp_laws::all_terminated(#[trigger] found[i]) by {
            assert(found[i] == before[i]);
        }
        assert forall|i: int| 0 <= i < found.len() implies crate::rtc::sdp_laws::are_lines(
            #[trigger] found[i],
        ) by {
            if i < found.len() - 1 {
                assert(found[i] == before[i]);
            }
        }
    }
}

/// Attribute lines are no media lines.
proof fn lemma_attributes_begin_no_section(line: Seq<char>)
    requires
        line.len() > 0,
        line[0] == 'a',
    ensures
        !crate::rtc::sdp::is_media_line(line),
{
    reveal_strlit("m=");
    if crate::rtc::sdp::is_media_line(line) {
        assert(line.take("m="@.len() as int)[0] == line[0]);
    }
}

/// A mapping line is no media line, with or without a line feed at its end.
proof fn lemma_mapping_begins_no_section(line: Seq<char>, pt: Seq<char>)
    requires
        crate::rtc::sdp::is_rtpmap_line(line, pt),
    ensures
        !crate::rtc::sdp::is_media_line(line),
        !crate::rtc::sdp::is_media_line(crate::rtc::sdp::ended_line(line)),
{
    reveal_strlit("m=");
    let mark = "m="@;
    let t = crate::text::trim(line);
    let r = crate::rtc::sdp::ended_line(line);
    crate::rtc::sdp_laws::lemma_mapping_says_something(line, pt);
    crate::rtc::sdp_laws::lemma_trim(line);
    assert(line.len() > 0 && r[0] == line[0]);
    assert(line[0] != 'm') by {
        if line[0] == 'm' {
            assert(!crate::text::white_space('m'));
            assert(t[0] == line[0]);
        }
    }
    if crate::rtc::sdp::is_media_line(line) {
        assert(line.take(mark.len() as int)[0] == line[0]);
    }
    if crate::rtc::sdp::is_media_line(r) {
        assert(r.take(mark.len() as int)[0] == r[0]);
    }
}

proof fn lemma_extended_section(ls: Seq<Seq<char>>, pt: Seq<char>, wanted: Seq<ParamView>)
    requires
        begins_section(ls),
    ensures
        begins_section(crate::rtc::sdp::extended_lines(ls, pt, wanted)),
    decreases ls.len(),
{
    let ext = crate::rtc::sdp::extended_lines(ls, pt, wanted);
    let line = ls.last();
    let front = ls.drop_last();
    let before = crate::rtc::sdp::extended_lines(front, pt, wanted);
    if crate::rtc::sdp::is_rtpmap_line(line, pt) {
        lemma_mapping_begins_no_section(line, pt);
    }
    let added = crate::rtc::sdp::fmtp_line_after(crate::rtc::sdp::ended_line(line), pt, wanted);
    reveal_strlit("a=fmtp:");
    assert(added[0] == 'a');
    lemma_attributes_begin_no_section(added);
    if ls.len() == 1 {
        assert(before =~= Seq::empty());
        assert(ext =~= seq![line]);
    } else {
        assert(begins_section(front)) by {
            assert forall|j: int| 0 < j < front.len() implies !crate::rtc::sdp::is_media_line(
                #[trigger] front[j],
            ) by {
                assert(front[j] == ls[j]);
            }
        }
        lemma_extended_section(front, pt, wanted);
        assert(!crate::rtc::sdp::is_media_line(ls[ls.len() - 1]));
        assert(ext[0] == before[0]);
        assert forall|j: int| 0 < j < ext.len() implies !crate::rtc::sdp::is_media_line(
            #[trigger] ext[j],
        ) by {
            if j < before.len() {
                assert(ext[j] == before[j]);
            }
        }
    }
}

/// Declaring parameters in a section leaves it one section.
proof fn lemma_munged_section(ls: Seq<Seq<char>>, wanted: Seq<ParamView>)
    requires
        begins_section(ls),
    ensures
        begins_section(crate::rtc::sdp::munged_lines(ls, wanted)),
{
    match crate::rtc::sdp::opus_payload_type(ls) {
        None => {},
        Some(pt) => {
            if crate::rtc::sdp::has_fmtp_line(ls, pt) {
                let out = crate::rtc::sdp::rewritten_lines(ls, pt, wanted);
                reveal_strlit("a=fmtp:");
                let prefix = crate::rtc::sdp::fmtp_prefix(pt);
                assert(prefix[0] == 'a');
                assert forall|j: int| 0 <= j < ls.len() implies crate::rtc::sdp::is_media_line(
                    #[trigger] out[j],
                ) == crate::rtc::sdp::is_media_line(ls[j]) by {
                    if crate::rtc::sdp::is_fmtp_line(ls[j], pt) {
                        crate::rtc::sdp_laws::lemma_body(ls[j]);
                        assert(crate::rtc::sdp::body(ls[j]).take(prefix.len() as int)[0]
                            == prefix[0]);
                        assert(out[j][0] == 'a');
                        lemma_attributes_begin_no_section(ls[j]);
                        lemma_attributes_begin_no_section(out[j]);
                    }
                }
                assert(crate::rtc::sdp::is_media_line(out[0]));
            } else {
                lemma_extended_section(ls, pt, wanted);
            }
        },
    }
}

/// Whether each medium's section is one that settles with the medium's parameters.
pub open spec fn media_settle(
    sections: Seq<Seq<Seq<char>>>,
    media: Seq<PublishMedia>,
) -> bool {
    forall|i: int|
        0 < i < sections.len() && i <= media.len() ==> crate::rtc::sdp_laws::lines_settle(
            #[trigger] sections[i],
            crate::rtc::handshake::media_params(media[i - 1]),
        )
}

proof fn lemma_lines_join(found: Seq<Seq<Seq<char>>>)
    requires
        forall|i: int|
            0 <= i < found.len() ==> crate::rtc::sdp_laws::are_lines(#[trigger] found[i]),
        forall|i: int|
            0 <= i < found.len() - 1 ==> crate::rtc::sdp_laws::all_terminated(#[trigger] found[i]),
    ensures
        crate::rtc::sdp_laws::are_lines(found.flatten()),
    decreases found.len(),
{
    if found.len() > 0 {
        let rest = found.drop_first();
        assert forall|i: int| 0 <= i < rest.len() implies crate::rtc::sdp_laws::are_lines(
            #[trigger] rest[i],
        ) by {
            assert(rest[i] == found[i + 1]);
        }
        assert forall|i: int| 0 <= i < rest.len() - 1 implies crate::rtc::sdp_laws::all_terminated(
            #[trigger] rest[i],
        ) by {
            assert(rest[i] == found[i + 1]);
        }
        lemma_lines_join(rest);
        let whole = found.flatten();
        let tail = rest.flatten();
        assert(whole == found[0] + tail);
        assert(crate::rtc::sdp_laws::are_lines(found[0]));
        if rest.len() == 0 {
            assert(tail.len() == 0);
        } else {
            assert(crate::rtc::sdp_laws::all_terminated(found[0]));
        }
        assert forall|i: int| 0 <= i < whole.len() implies crate::rtc::sdp_laws::is_line(
            #[trigger] whole[i],
        ) by {
            if i < found[0].len() {
                assert(whole[i] == found[0][i]);
            } else {
                assert(whole[i] == tail[i - found[0].len()]);
            }
        }
        assert forall|i: int| 0 <= i < whole.len() - 1 implies crate::rtc::sdp_laws::is_terminated(
            #[trigger] whole[i],
        ) by {
            if i < found[0].len() {
                assert(whole[i] == found[0][i]);
            } else {
                assert(whole[i] == tail[i - found[0].len()]);
            }
        }
    }
}

/// The text of an offer reads as the sections that were made for it: nothing is added
/// before, between or behind the media, and no section runs into another.
pub proof fn offers_keep_their_sections(sdp: Seq<char>, media: Seq<PublishMedia>)
    ensures
        crate::rtc::sdp::lines(crate::rtc::handshake::offered(sdp, media))
            == crate::rtc::handshake::offered_sections(
            crate::rtc::sdp::sections(crate::rtc::sdp::lines(sdp)),
            media,
        ).flatten(),
        crate::rtc::sdp::sections(
            crate::rtc::sdp::lines(crate::rtc::handshake::offered(sdp, media)),
        ) == crate::rtc::handshake::offered_sections(
            crate::rtc::sdp::sections(crate::rtc::sdp::lines(sdp)),
            media,
        ),
{
    let ls = crate::rtc::sdp::lines(sdp);
    let before = crate::rtc::sdp::sections(ls);
    let after = crate::rtc::handshake::offered_sections(before, media);
    crate::rtc::sdp_laws::lemma_lines(sdp);
    lemma_sections(ls);
    lemma_section_lines(ls);
    assert forall|i: int| 0 <= i < after.len() implies crate::rtc::sdp_laws::are_lines(
        #[trigger] after[i],
    ) && (i < after.len() - 1 ==> crate::rtc::sdp_laws::all_terminated(after[i])) by {
        assert(crate::rtc::sdp_laws::are_lines(before[i]));
        if 0 < i <= media.len() {
            let medium = media[i - 1];
            crate::rtc::sdp_laws::lemma_munged_lines_are_lines(
                before[i],
                medium.stereo,
                (medium.max_avg_bitrate_kbps * crate::rtc::sdp::SDP_BITS_PER_KBPS) as nat,
            );
        }
    }
    assert(well_cut(after)) by {
        assert forall|i: int| 0 < i < after.len() implies begins_section(#[trigger] after[i]) by {
            assert(begins_section(before[i]));
            if i <= media.len() {
                lemma_munged_section(
                    before[i],
                    crate::rtc::handshake::media_params(media[i - 1]),
                );
            }
        }
        assert(after[0] == before[0]);
    }
    lemma_lines_join(after);
    crate::rtc::sdp_laws::lemma_lines_of_flattened(after.flatten());
    lemma_sections_read_back(after);
}

/// Each medium is offered as it is: where its section has Opus, there is a format line of
/// its payload type, and every one declares the medium's own layout and bitrate, whatever
/// the other media are.
pub proof fn offers_declare_each_medium(sdp: Seq<char>, media: Seq<PublishMedia>, i: int)
    requires
        0 <= i < media.len(),
        i + 1 < crate::rtc::sdp::sections(crate::rtc::sdp::lines(sdp)).len(),
        media_settle(crate::rtc::sdp::sections(crate::rtc::sdp::lines(sdp)), media),
    ensures
        ({
            let before = crate::rtc::sdp::sections(crate::rtc::sdp::lines(sdp))[i + 1];
            let after = crate::rtc::sdp::sections(
                crate::rtc::sdp::lines(crate::rtc::handshake::offered(sdp, media)),
            )[i + 1];
            crate::rtc::sdp::opus_payload_type(before) matches Some(pt) ==> {
                &&& forall|j: int|
                    0 <= j < after.len() && crate::rtc::sdp::is_fmtp_line(#[trigger] after[j], pt)
                        ==> crate::rtc::sdp_laws::declares_all(
                        crate::rtc::sdp_laws::line_params(after[j], pt),
                        crate::rtc::handshake::media_params(media[i]),
                    )
                &&& crate::rtc::sdp::has_fmtp_line(after, pt)
            }
        }),
{
    let ls = crate::rtc::sdp::lines(sdp);
    let before = crate::rtc::sdp::sections(ls);
    offers_keep_their_sections(sdp, media);
    crate::rtc::sdp_laws::lemma_lines(sdp);
    lemma_section_lines(ls);
    assert(crate::rtc::sdp_laws::are_lines(before[i + 1]));
    crate::rtc::sdp_laws::lemma_munged_lines(
        before[i + 1],
        media[i].stereo,
        (media[i].max_avg_bitrate_kbps * crate::rtc::sdp::SDP_BITS_PER_KBPS) as nat,
    );
}

} // verus!
