//! What holds of parameter lists as they are written.
use vstd::prelude::*;

use crate::rtc::sdp::ParamView;

verus! {

/// A parameter as it is written: its name, and its value behind an equals sign where it has
/// one.
pub open spec fn written(p: ParamView) -> Seq<char> {
    if p.value.len() == 0 {
        p.key
    } else {
        p.key + seq!['='] + p.value
    }
}

proof fn lemma_joined_push(parts: Seq<Seq<char>>, last: Seq<char>)
    requires
        parts.len() > 0,
    ensures
        crate::rtc::offer_line_laws::joined(parts.push(last))
            == crate::rtc::offer_line_laws::joined(parts) + seq![';'] + last,
    decreases parts.len(),
{
    let whole = parts.push(last);
    if parts.len() == 1 {
        let rest = whole.drop_first();
        assert(rest.len() == 1 && rest[0] == last);
        assert(crate::rtc::offer_line_laws::joined(rest) == last);
        assert(crate::rtc::offer_line_laws::joined(parts) == parts[0]);
    } else {
        lemma_joined_push(parts.drop_first(), last);
        assert(whole.drop_first() =~= parts.drop_first().push(last));
        assert(crate::rtc::offer_line_laws::joined(whole)
            =~= crate::rtc::offer_line_laws::joined(parts) + seq![';'] + last);
    }
}

/// A parameter list is written with one semicolon between each two parameters, in order, and
/// nothing else.
pub proof fn lists_are_written_with_semicolons(ps: Seq<ParamView>)
    ensures
        crate::rtc::sdp::params_text(ps) == crate::rtc::offer_line_laws::joined(
            Seq::new(ps.len(), |i: int| written(ps[i])),
        ),
    decreases ps.len(),
{
    let texts = Seq::new(ps.len(), |i: int| written(ps[i]));
    if ps.len() > 1 {
        let front = Seq::new((ps.len() - 1) as nat, |i: int| written(ps.drop_last()[i]));
        lists_are_written_with_semicolons(ps.drop_last());
        lemma_joined_push(front, written(ps.last()));
        assert(texts =~= front.push(written(ps.last())));
    }
}

/// A piece that holds nothing but white space is no parameter. Each other piece is one, in
/// order.
pub proof fn blank_pieces_are_no_parameters(parts: Seq<Seq<char>>)
    ensures
        ({
            let said = parts.filter(|piece: Seq<char>| !crate::text::blank(piece));
            &&& crate::rtc::sdp::params_of(parts).len() == said.len()
            &&& forall|i: int|
                0 <= i < said.len() ==> (#[trigger] crate::rtc::sdp::params_of(parts)[i])
                    == crate::rtc::sdp::param_of(said[i])
        }),
    decreases parts.len(),
{
    reveal(Seq::filter);
    if parts.len() > 0 {
        blank_pieces_are_no_parameters(parts.drop_last());
        let piece = parts.last();
        let k = crate::route_laws::trimming_takes_only_white_space(piece);
        let t = crate::text::trim(piece);
        if t.len() > 0 {
            assert(piece[k] == t[0]);
            assert(!crate::text::blank(piece));
        } else {
            assert forall|i: int| 0 <= i < piece.len() implies crate::text::white_space(
                #[trigger] piece[i],
            ) by {
                assert(i < k || i >= k + t.len());
            }
            assert(crate::text::blank(piece));
        }
    }
}

/// Whether a text stands in a list as a parameter is written: nothing around it, and no
/// equals sign at its end.
pub open spec fn is_plain(piece: Seq<char>) -> bool {
    &&& piece.len() > 0
    &&& !crate::text::white_space(piece[0])
    &&& !crate::text::white_space(piece.last())
    &&& piece.last() != '='
}

proof fn lemma_plain(piece: Seq<char>)
    requires
        is_plain(piece),
    ensures
        crate::text::trim(piece) == piece,
        written(crate::rtc::sdp::param_of(piece)) == piece,
{
    crate::rtc::sdp_laws::lemma_trim_is_identity(piece);
    crate::rtc::sdp_laws::lemma_find(piece, '=');
    let i = crate::text::find(piece, '=');
    if i < piece.len() {
        assert(piece[i] == '=');
        assert(i < piece.len() - 1);
        assert(piece.skip(i + 1).len() > 0);
        assert(piece.take(i) + seq!['='] + piece.skip(i + 1) =~= piece);
    }
}

proof fn lemma_plain_pieces(parts: Seq<Seq<char>>)
    requires
        forall|i: int| 0 <= i < parts.len() ==> is_plain(#[trigger] parts[i]),
    ensures
        crate::rtc::sdp::params_of(parts).len() == parts.len(),
        forall|i: int|
            0 <= i < parts.len() ==> written(#[trigger] crate::rtc::sdp::params_of(parts)[i])
                == parts[i],
    decreases parts.len(),
{
    if parts.len() > 0 {
        let front = parts.drop_last();
        assert forall|i: int| 0 <= i < front.len() implies is_plain(#[trigger] front[i]) by {
            assert(front[i] == parts[i]);
        }
        lemma_plain_pieces(front);
        assert(parts.last() == parts[parts.len() - 1]);
        lemma_plain(parts.last());
        let ps = crate::rtc::sdp::params_of(parts);
        assert(ps == crate::rtc::sdp::params_of(front).push(
            crate::rtc::sdp::param_of(parts.last()),
        ));
        assert forall|i: int| 0 <= i < parts.len() implies written(#[trigger] ps[i])
            == parts[i] by {
            if i < front.len() {
                assert(ps[i] == crate::rtc::sdp::params_of(front)[i]);
                assert(front[i] == parts[i]);
            }
        }
    }
}

/// A list of parameters that stand in it as they are written is written back letter for
/// letter, where nothing is wanted of it.
pub proof fn lists_are_written_as_they_are_read(s: Seq<char>)
    requires
        forall|i: int|
            0 <= i < crate::rtc::sdp::pieces(s).len() ==> is_plain(
                #[trigger] crate::rtc::sdp::pieces(s)[i],
            ),
    ensures
        crate::rtc::sdp::merged(s, Seq::empty()) == s,
{
    let parts = crate::rtc::sdp::pieces(s);
    let ps = crate::rtc::sdp::params_of(parts);
    lemma_plain_pieces(parts);
    lists_are_written_with_semicolons(ps);
    assert(Seq::new(ps.len(), |i: int| written(ps[i])) =~= parts);
    crate::rtc::offer_line_laws::lists_are_cut_at_semicolons(s);
}

/// The Opus parameters of an offer, letter for letter.
pub proof fn opus_parameters_are_spelled_out(stereo: bool, bits: nat)
    ensures
        crate::rtc::sdp::params_text(crate::rtc::sdp::opus_params(stereo, bits)) == (if stereo {
            "minptime=10;useinbandfec=0;sprop-stereo=1;stereo=1;maxaveragebitrate="@
        } else {
            "minptime=10;useinbandfec=0;sprop-stereo=0;stereo=0;maxaveragebitrate="@
        }) + crate::numeral::decimal(bits),
{
    reveal_strlit("minptime");
    reveal_strlit("10");
    reveal_strlit("useinbandfec");
    reveal_strlit("0");
    reveal_strlit("1");
    reveal_strlit("sprop-stereo");
    reveal_strlit("stereo");
    reveal_strlit("maxaveragebitrate");
    reveal_strlit("minptime=10;useinbandfec=0;sprop-stereo=1;stereo=1;maxaveragebitrate=");
    reveal_strlit("minptime=10;useinbandfec=0;sprop-stereo=0;stereo=0;maxaveragebitrate=");
    let ps = crate::rtc::sdp::opus_params(stereo, bits);
    crate::numeral::lemma_decimal_digits(bits);
    let digits = crate::numeral::decimal(bits);
    let a = written(ps[0]);
    let b = written(ps[1]);
    let c = written(ps[2]);
    let d = written(ps[3]);
    let e = "maxaveragebitrate"@ + seq!['='];
    assert(written(ps[4]) =~= e + digits);
    let head = a + seq![';'] + b + seq![';'] + c + seq![';'] + d + seq![';'] + e;
    if stereo {
        assert(head
            =~= "minptime=10;useinbandfec=0;sprop-stereo=1;stereo=1;maxaveragebitrate="@);
    } else {
        assert(head
            =~= "minptime=10;useinbandfec=0;sprop-stereo=0;stereo=0;maxaveragebitrate="@);
    }
    lemma_five(ps, e, digits);
}

proof fn lemma_five(ps: Seq<ParamView>, e: Seq<char>, digits: Seq<char>)
    requires
        ps.len() == 5,
        written(ps[4]) == e + digits,
    ensures
        crate::rtc::sdp::params_text(ps) == written(ps[0]) + seq![';'] + written(ps[1]) + seq![';']
            + written(ps[2]) + seq![';'] + written(ps[3]) + seq![';'] + e + digits,
{
    reveal_with_fuel(crate::rtc::sdp::params_text, 6);
    assert(crate::rtc::sdp::params_text(ps) =~= written(ps[0]) + seq![';'] + written(ps[1]) + seq![
        ';',
    ] + written(ps[2]) + seq![';'] + written(ps[3]) + seq![';'] + e + digits);
}

} // verus!
