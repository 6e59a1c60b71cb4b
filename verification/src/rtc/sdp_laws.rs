//! Laws of the SDP rewriting.
use vstd::prelude::*;

use crate::rtc::sdp::ParamView;

verus! {

// Trimming and searching.

proof fn lemma_trim_start(s: Seq<char>)
    ensures
        crate::text::trim_start(s).len() <= s.len(),
        crate::text::trim_start(s) == s.skip(s.len() - crate::text::trim_start(s).len()),
        crate::text::trim_start(s).len() > 0 ==> !crate::text::white_space(
            crate::text::trim_start(s)[0],
        ),
    decreases s.len(),
{
    if s.len() > 0 && crate::text::white_space(s[0]) {
        lemma_trim_start(s.drop_first());
        let t = crate::text::trim_start(s);
        assert(s.drop_first().skip(s.len() - 1 - t.len()) =~= s.skip(s.len() - t.len()));
    } else {
        assert(s.skip(0) =~= s);
    }
}

proof fn lemma_trim_end(s: Seq<char>)
    ensures
        crate::text::trim_end(s).len() <= s.len(),
        crate::text::trim_end(s) == s.take(crate::text::trim_end(s).len() as int),
        crate::text::trim_end(s).len() > 0 ==> !crate::text::white_space(
            crate::text::trim_end(s).last(),
        ),
    decreases s.len(),
{
    if s.len() > 0 && crate::text::white_space(s.last()) {
        lemma_trim_end(s.drop_last());
        let t = crate::text::trim_end(s);
        assert(s.drop_last().take(t.len() as int) =~= s.take(t.len() as int));
    } else {
        assert(s.take(s.len() as int) =~= s);
    }
}

/// A trimmed text neither starts nor ends with white space, and holds no character
/// that was not there before.
pub(crate) proof fn lemma_trim(s: Seq<char>)
    ensures
        crate::text::trim(s).len() > 0 ==> !crate::text::white_space(crate::text::trim(s)[0]),
        crate::text::trim(s).len() > 0 ==> !crate::text::white_space(crate::text::trim(s).last()),
        forall|c: char| #[trigger] crate::text::trim(s).contains(c) ==> s.contains(c),
        crate::text::trim(s).len() <= s.len(),
        s.len() > 0 && !crate::text::white_space(s[0]) ==> crate::text::trim(s) == s.take(
            crate::text::trim(s).len() as int,
        ),
{
    lemma_trim_start(s);
    let t = crate::text::trim_start(s);
    lemma_trim_end(t);
    let u = crate::text::trim(s);
    assert forall|c: char| #[trigger] u.contains(c) implies s.contains(c) by {
        let i = choose|i: int| 0 <= i < u.len() && u[i] == c;
        assert(s[s.len() - t.len() + i] == c);
    }
}

pub(crate) proof fn lemma_trim_is_identity(s: Seq<char>)
    requires
        s.len() > 0,
        !crate::text::white_space(s[0]),
        !crate::text::white_space(s.last()),
    ensures
        crate::text::trim(s) == s,
{
}

pub(crate) proof fn lemma_find(s: Seq<char>, c: char)
    ensures
        0 <= crate::text::find(s, c) <= s.len(),
        forall|j: int| 0 <= j < crate::text::find(s, c) ==> s[j] != c,
        crate::text::find(s, c) < s.len() ==> s[crate::text::find(s, c)] == c,
    decreases s.len(),
{
    if s.len() > 0 && s[0] != c {
        lemma_find(s.drop_first(), c);
        assert forall|j: int| 0 <= j < crate::text::find(s, c) implies s[j] != c by {
            if j > 0 {
                assert(s[j] == s.drop_first()[j - 1]);
            }
        }
    }
}

pub(crate) proof fn lemma_find_is(s: Seq<char>, c: char, i: int)
    requires
        0 <= i <= s.len(),
        forall|j: int| 0 <= j < i ==> s[j] != c,
        i == s.len() || s[i] == c,
    ensures
        crate::text::find(s, c) == i,
{
    lemma_find(s, c);
}

// Pieces.

proof fn lemma_pieces_free(s: Seq<char>, x: char)
    requires
        !s.contains(x),
    ensures
        forall|i: int|
            0 <= i < crate::rtc::sdp::pieces(s).len() ==> !(
            #[trigger] crate::rtc::sdp::pieces(s)[i]).contains(x),
    decreases s.len(),
{
    let n = crate::text::find(s, ';');
    if 0 <= n < s.len() {
        let rest = s.skip(n + 1);
        lemma_pieces_free(rest, x);
        assert forall|i: int| 0 <= i < crate::rtc::sdp::pieces(s).len() implies !(
        #[trigger] crate::rtc::sdp::pieces(s)[i]).contains(x) by {
            if i > 0 {
                assert(crate::rtc::sdp::pieces(s)[i] == crate::rtc::sdp::pieces(rest)[i - 1]);
            }
        }
    }
}

pub(crate) proof fn lemma_pieces_hold_no_semicolon(s: Seq<char>)
    ensures
        forall|i: int|
            0 <= i < crate::rtc::sdp::pieces(s).len() ==> !(
            #[trigger] crate::rtc::sdp::pieces(s)[i]).contains(';'),
    decreases s.len(),
{
    lemma_find(s, ';');
    let n = crate::text::find(s, ';');
    if n < s.len() {
        let rest = s.skip(n + 1);
        lemma_pieces_hold_no_semicolon(rest);
        assert forall|i: int| 0 <= i < crate::rtc::sdp::pieces(s).len() implies !(
        #[trigger] crate::rtc::sdp::pieces(s)[i]).contains(';') by {
            if i > 0 {
                assert(crate::rtc::sdp::pieces(s)[i] == crate::rtc::sdp::pieces(rest)[i - 1]);
            }
        }
    }
}

proof fn lemma_pieces_append(a: Seq<char>, b: Seq<char>)
    requires
        !b.contains(';'),
    ensures
        crate::rtc::sdp::pieces(a + seq![';'] + b) == crate::rtc::sdp::pieces(a).push(b),
    decreases a.len(),
{
    let whole = a + seq![';'] + b;
    lemma_find(a, ';');
    let n = crate::text::find(a, ';');
    lemma_find_is(whole, ';', n);
    if n < a.len() {
        lemma_pieces_append(a.skip(n + 1), b);
        assert(whole.skip(n + 1) =~= a.skip(n + 1) + seq![';'] + b);
        assert(whole.take(n) =~= a.take(n));
        assert(crate::rtc::sdp::pieces(whole) =~= crate::rtc::sdp::pieces(a).push(b));
    } else {
        assert(whole.skip(n + 1) =~= b);
        assert(whole.take(n) =~= a);
        lemma_find(b, ';');
        assert(crate::rtc::sdp::pieces(b) =~= seq![b]);
        assert(crate::rtc::sdp::pieces(whole) =~= crate::rtc::sdp::pieces(a).push(b));
    }
}

// Parameters whose text reads back.

/// A text that is not empty and does not end in white space.
pub open spec fn holds_up(t: Seq<char>) -> bool {
    t.len() > 0 && !crate::text::white_space(t.last())
}

/// The text of the parameter can stand in a list, apart from its end.
pub open spec fn listable(p: ParamView) -> bool {
    let t = crate::rtc::sdp::param_text(p);
    &&& t.len() > 0 ==> !crate::text::white_space(t[0])
    &&& p.value.len() > 0 ==> !crate::text::white_space(t.last())
    &&& !t.contains(';')
    &&& !t.contains('\n')
    &&& !p.key.contains('=')
}

/// The text of the parameter can stand in a list and reads back as the parameter.
pub open spec fn steady(p: ParamView) -> bool {
    listable(p) && holds_up(crate::rtc::sdp::param_text(p))
}

pub open spec fn all_listable(ps: Seq<ParamView>) -> bool {
    forall|i: int| 0 <= i < ps.len() ==> listable(#[trigger] ps[i])
}

pub open spec fn all_steady(ps: Seq<ParamView>) -> bool {
    forall|i: int| 0 <= i < ps.len() ==> steady(#[trigger] ps[i])
}

pub open spec fn distinct_keys(ps: Seq<ParamView>) -> bool {
    forall|i: int, j: int|
        0 <= i < j < ps.len() ==> (#[trigger] ps[i]).key != (#[trigger] ps[j]).key
}

/// The parameters of a list once every wanted one has its value.
pub open spec fn merged_params(existing: Seq<char>, wanted: Seq<ParamView>) -> Seq<ParamView> {
    crate::rtc::sdp::with_params(
        crate::rtc::sdp::params_of(crate::rtc::sdp::pieces(existing)),
        wanted,
    )
}

proof fn lemma_steady_reads_back(p: ParamView)
    requires
        steady(p),
    ensures
        crate::text::trim(crate::rtc::sdp::param_text(p)) == crate::rtc::sdp::param_text(p),
        crate::rtc::sdp::param_of(crate::rtc::sdp::param_text(p)) == p,
{
    let t = crate::rtc::sdp::param_text(p);
    lemma_trim_is_identity(t);
    assert forall|j: int| 0 <= j < p.key.len() implies p.key[j] != '=' by {
        assert(p.key.contains(p.key[j]));
    }
    if p.value.len() == 0 {
        lemma_find_is(t, '=', t.len() as int);
        assert(p.value =~= Seq::empty());
    } else {
        lemma_find_is(t, '=', p.key.len() as int);
        assert(t.take(p.key.len() as int) =~= p.key);
        assert(t.skip(p.key.len() as int + 1) =~= p.value);
    }
}

proof fn lemma_piece_is_listable(piece: Seq<char>)
    requires
        !piece.contains(';'),
        !piece.contains('\n'),
        crate::text::trim(piece).len() > 0,
    ensures
        listable(crate::rtc::sdp::param_of(piece)),
{
    let s = crate::text::trim(piece);
    lemma_trim(piece);
    lemma_find(s, '=');
    let p = crate::rtc::sdp::param_of(piece);
    let t = crate::rtc::sdp::param_text(p);
    let i = crate::text::find(s, '=');
    if i < s.len() && p.value.len() > 0 {
        assert(t =~= s);
    } else if i < s.len() {
        assert(t =~= s.take(i));
    } else {
        assert(t =~= s);
    }
    assert forall|c: char| t.contains(c) implies s.contains(c) by {
        let k = choose|k: int| 0 <= k < t.len() && t[k] == c;
        assert(s[k] == c);
    }
    assert(t.len() > 0 ==> t[0] == s[0]);
}

proof fn lemma_params_are_listable(parts: Seq<Seq<char>>)
    requires
        forall|i: int|
            0 <= i < parts.len() ==> !(#[trigger] parts[i]).contains(';') && !parts[i].contains(
                '\n',
            ),
    ensures
        all_listable(crate::rtc::sdp::params_of(parts)),
    decreases parts.len(),
{
    if parts.len() > 0 {
        assert forall|i: int| 0 <= i < parts.drop_last().len() implies !(
        #[trigger] parts.drop_last()[i]).contains(';') && !parts.drop_last()[i].contains(
            '\n',
        ) by {
            assert(parts.drop_last()[i] == parts[i]);
        }
        lemma_params_are_listable(parts.drop_last());
        assert(parts.last() == parts[parts.len() - 1]);
        if crate::text::trim(parts.last()).len() > 0 {
            lemma_piece_is_listable(parts.last());
        }
    }
}

pub open spec fn texts(ps: Seq<ParamView>) -> Seq<Seq<char>> {
    ps.map_values(|p: ParamView| crate::rtc::sdp::param_text(p))
}

proof fn lemma_pieces_of_params_text(ps: Seq<ParamView>)
    requires
        ps.len() > 0,
        all_steady(ps),
    ensures
        crate::rtc::sdp::pieces(crate::rtc::sdp::params_text(ps)) == texts(ps),
    decreases ps.len(),
{
    let t = crate::rtc::sdp::param_text(ps.last());
    assert(steady(ps[ps.len() - 1]));
    if ps.len() == 1 {
        lemma_find(t, ';');
        assert(crate::rtc::sdp::pieces(t) =~= seq![t]);
        assert(texts(ps) =~= seq![t]);
    } else {
        assert forall|i: int| 0 <= i < ps.drop_last().len() implies steady(
            #[trigger] ps.drop_last()[i],
        ) by {
            assert(ps.drop_last()[i] == ps[i]);
        }
        lemma_pieces_of_params_text(ps.drop_last());
        lemma_pieces_append(crate::rtc::sdp::params_text(ps.drop_last()), t);
        assert(texts(ps) =~= texts(ps.drop_last()).push(t));
    }
}

proof fn lemma_params_of_texts(ps: Seq<ParamView>)
    requires
        all_steady(ps),
    ensures
        crate::rtc::sdp::params_of(texts(ps)) == ps,
    decreases ps.len(),
{
    if ps.len() > 0 {
        assert forall|i: int| 0 <= i < ps.drop_last().len() implies steady(
            #[trigger] ps.drop_last()[i],
        ) by {
            assert(ps.drop_last()[i] == ps[i]);
        }
        lemma_params_of_texts(ps.drop_last());
        assert(steady(ps[ps.len() - 1]));
        lemma_steady_reads_back(ps.last());
        assert(texts(ps).drop_last() =~= texts(ps.drop_last()));
        assert(texts(ps).last() == crate::rtc::sdp::param_text(ps.last()));
        assert(crate::rtc::sdp::params_of(texts(ps)) =~= ps);
    } else {
        assert(crate::rtc::sdp::params_of(texts(ps)) =~= ps);
    }
}

// Setting parameters.

/// Some parameter has that name, and each that has is `w`.
pub open spec fn declares(ps: Seq<ParamView>, w: ParamView) -> bool {
    &&& crate::rtc::sdp::has_key(ps, w.key)
    &&& forall|i: int| 0 <= i < ps.len() && (#[trigger] ps[i]).key == w.key ==> ps[i] == w
}

pub open spec fn declares_all(ps: Seq<ParamView>, wanted: Seq<ParamView>) -> bool {
    forall|i: int| 0 <= i < wanted.len() ==> declares(ps, #[trigger] wanted[i])
}

/// Setting a parameter keeps the places and the names of those that are there.
pub(crate) proof fn lemma_with_param_places(ps: Seq<ParamView>, w: ParamView)
    ensures
        ({
            let q = crate::rtc::sdp::with_param(ps, w);
            &&& ps.len() <= q.len()
            &&& q.len() > 0
            &&& forall|j: int|
                0 <= j < ps.len() ==> (#[trigger] q[j]) == (if ps[j].key == w.key {
                    w
                } else {
                    ps[j]
                })
            &&& forall|j: int| ps.len() <= j < q.len() ==> (#[trigger] q[j]) == w
        }),
{
    if !crate::rtc::sdp::has_key(ps, w.key) {
        assert forall|j: int| 0 <= j < ps.len() implies (#[trigger] ps[j]).key != w.key by {}
    }
}

proof fn lemma_with_param(ps: Seq<ParamView>, w: ParamView, other: ParamView)
    ensures
        declares(crate::rtc::sdp::with_param(ps, w), w),
        other.key != w.key && declares(ps, other) ==> declares(
            crate::rtc::sdp::with_param(ps, w),
            other,
        ),
        declares(ps, w) ==> crate::rtc::sdp::with_param(ps, w) == ps,
        all_listable(ps) && listable(w) ==> all_listable(crate::rtc::sdp::with_param(ps, w)),
{
    let q = crate::rtc::sdp::with_param(ps, w);
    lemma_with_param_places(ps, w);
    if crate::rtc::sdp::has_key(ps, w.key) {
        let i = choose|i: int| 0 <= i < ps.len() && (#[trigger] ps[i]).key == w.key;
        assert(q[i].key == w.key);
    } else {
        assert(q[ps.len() as int].key == w.key);
    }
    if other.key != w.key && declares(ps, other) {
        let i = choose|i: int| 0 <= i < ps.len() && (#[trigger] ps[i]).key == other.key;
        assert(q[i].key == other.key);
        assert forall|j: int| 0 <= j < q.len() && (#[trigger] q[j]).key == other.key implies q[j]
            == other by {
            assert(q[j] == ps[j]);
        }
    }
    if declares(ps, w) {
        assert(q =~= ps);
    }
    if all_listable(ps) && listable(w) {
        assert forall|j: int| 0 <= j < q.len() implies listable(#[trigger] q[j]) by {
            if j < ps.len() {
                assert(listable(ps[j]));
            }
        }
    }
}

proof fn lemma_with_params_declares(ps: Seq<ParamView>, wanted: Seq<ParamView>, i: int)
    requires
        0 <= i < wanted.len(),
        distinct_keys(wanted),
    ensures
        declares(crate::rtc::sdp::with_params(ps, wanted), wanted[i]),
    decreases wanted.len(),
{
    let before = crate::rtc::sdp::with_params(ps, wanted.drop_last());
    let w = wanted.last();
    if i == wanted.len() - 1 {
        lemma_with_param(before, w, w);
    } else {
        assert(distinct_keys(wanted.drop_last())) by {
            assert forall|a: int, b: int| 0 <= a < b < wanted.drop_last().len() implies (
            #[trigger] wanted.drop_last()[a]).key != (#[trigger] wanted.drop_last()[b]).key by {
                assert(wanted[a].key != wanted[b].key);
            }
        }
        lemma_with_params_declares(ps, wanted.drop_last(), i);
        assert(wanted.drop_last()[i] == wanted[i]);
        assert(wanted[i].key != wanted[wanted.len() - 1].key);
        lemma_with_param(before, w, wanted[i]);
    }
}

proof fn lemma_with_params_settled(ps: Seq<ParamView>, wanted: Seq<ParamView>)
    requires
        declares_all(ps, wanted),
    ensures
        crate::rtc::sdp::with_params(ps, wanted) == ps,
    decreases wanted.len(),
{
    if wanted.len() > 0 {
        assert forall|i: int| 0 <= i < wanted.drop_last().len() implies declares(
            ps,
            #[trigger] wanted.drop_last()[i],
        ) by {
            assert(wanted.drop_last()[i] == wanted[i]);
        }
        lemma_with_params_settled(ps, wanted.drop_last());
        let w = wanted.last();
        assert(declares(ps, wanted[wanted.len() - 1]));
        lemma_with_param(ps, w, w);
    }
}

proof fn lemma_with_params_listable(ps: Seq<ParamView>, wanted: Seq<ParamView>)
    requires
        all_listable(ps),
        all_steady(wanted),
    ensures
        all_listable(crate::rtc::sdp::with_params(ps, wanted)),
        crate::rtc::sdp::with_params(ps, wanted).len() >= ps.len(),
        wanted.len() > 0 ==> crate::rtc::sdp::with_params(ps, wanted).len() > 0,
    decreases wanted.len(),
{
    if wanted.len() > 0 {
        assert forall|i: int| 0 <= i < wanted.drop_last().len() implies steady(
            #[trigger] wanted.drop_last()[i],
        ) by {
            assert(wanted.drop_last()[i] == wanted[i]);
        }
        lemma_with_params_listable(ps, wanted.drop_last());
        let w = wanted.last();
        assert(steady(wanted[wanted.len() - 1]));
        lemma_with_param(crate::rtc::sdp::with_params(ps, wanted.drop_last()), w, w);
        lemma_with_param_places(crate::rtc::sdp::with_params(ps, wanted.drop_last()), w);
    }
}

proof fn lemma_params_text_ends(ps: Seq<ParamView>)
    requires
        ps.len() > 0,
        all_steady(ps),
    ensures
        crate::rtc::sdp::params_text(ps).len() > 0,
        !crate::text::white_space(crate::rtc::sdp::params_text(ps).last()),
        !crate::rtc::sdp::params_text(ps).contains('\n'),
    decreases ps.len(),
{
    assert(steady(ps[ps.len() - 1]));
    if ps.len() > 1 {
        assert forall|i: int| 0 <= i < ps.drop_last().len() implies steady(
            #[trigger] ps.drop_last()[i],
        ) by {
            assert(ps.drop_last()[i] == ps[i]);
        }
        lemma_params_text_ends(ps.drop_last());
        let a = crate::rtc::sdp::params_text(ps.drop_last());
        let t = crate::rtc::sdp::param_text(ps.last());
        assert(crate::rtc::sdp::params_text(ps).last() == t.last());
        assert forall|i: int| 0 <= i < crate::rtc::sdp::params_text(ps).len() implies
            crate::rtc::sdp::params_text(ps)[i] != '\n' by {
            if i < a.len() {
                assert(a.contains(a[i]));
            } else if i > a.len() {
                assert(t.contains(t[i - a.len() - 1]));
            }
        }
    }
}

/// The merged parameters can stand in a list, and declare what is wanted.
proof fn lemma_merged_params(existing: Seq<char>, wanted: Seq<ParamView>)
    requires
        wanted.len() > 0,
        all_steady(wanted),
        distinct_keys(wanted),
        !existing.contains('\n'),
    ensures
        merged_params(existing, wanted).len() > 0,
        all_listable(merged_params(existing, wanted)),
        declares_all(merged_params(existing, wanted), wanted),
{
    let parts = crate::rtc::sdp::pieces(existing);
    lemma_pieces_free(existing, '\n');
    lemma_pieces_hold_no_semicolon(existing);
    lemma_params_are_listable(parts);
    let ps = crate::rtc::sdp::params_of(parts);
    lemma_with_params_listable(ps, wanted);
    assert forall|i: int| 0 <= i < wanted.len() implies declares(
        merged_params(existing, wanted),
        #[trigger] wanted[i],
    ) by {
        lemma_with_params_declares(ps, wanted, i);
    }
}

/// A list of steady parameters that declares what is wanted is merged to itself.
proof fn lemma_steady_list_is_settled(ps: Seq<ParamView>, wanted: Seq<ParamView>)
    requires
        ps.len() > 0,
        all_steady(ps),
        declares_all(ps, wanted),
    ensures
        crate::rtc::sdp::merged(crate::rtc::sdp::params_text(ps), wanted)
            == crate::rtc::sdp::params_text(ps),
{
    lemma_pieces_of_params_text(ps);
    lemma_params_of_texts(ps);
    lemma_with_params_settled(ps, wanted);
}

/// Merging settled parameters changes nothing: `merge_params` on its own result gives that
/// result back, for wanted parameters of distinct names, unless a merged parameter is
/// written as an empty text or as one that ends in white space.
pub proof fn merging_is_idempotent(existing: Seq<char>, wanted: Seq<ParamView>)
    requires
        wanted.len() > 0,
        all_steady(wanted),
        distinct_keys(wanted),
        !existing.contains('\n'),
        forall|i: int|
            0 <= i < merged_params(existing, wanted).len() ==> holds_up(
                crate::rtc::sdp::param_text(#[trigger] merged_params(existing, wanted)[i]),
            ),
    ensures
        crate::rtc::sdp::merged(crate::rtc::sdp::merged(existing, wanted), wanted)
            == crate::rtc::sdp::merged(existing, wanted),
{
    lemma_merged_params(existing, wanted);
    let q = merged_params(existing, wanted);
    assert forall|i: int| 0 <= i < q.len() implies steady(#[trigger] q[i]) by {
        assert(listable(q[i]));
    }
    lemma_steady_list_is_settled(q, wanted);
}

proof fn lemma_with_params_keeps(ps: Seq<ParamView>, wanted: Seq<ParamView>, i: int)
    requires
        0 <= i < ps.len(),
    ensures
        i < crate::rtc::sdp::with_params(ps, wanted).len(),
        crate::rtc::sdp::with_params(ps, wanted)[i].key == ps[i].key,
        (forall|k: int| 0 <= k < wanted.len() ==> (#[trigger] wanted[k]).key != ps[i].key)
            ==> crate::rtc::sdp::with_params(ps, wanted)[i] == ps[i],
    decreases wanted.len(),
{
    if wanted.len() > 0 {
        let before = crate::rtc::sdp::with_params(ps, wanted.drop_last());
        lemma_with_params_keeps(ps, wanted.drop_last(), i);
        lemma_with_param_places(before, wanted.last());
        if forall|k: int| 0 <= k < wanted.len() ==> (#[trigger] wanted[k]).key != ps[i].key {
            assert forall|k: int| 0 <= k < wanted.drop_last().len() implies (
            #[trigger] wanted.drop_last()[k]).key != ps[i].key by {
                assert(wanted.drop_last()[k] == wanted[k]);
            }
            assert(wanted[wanted.len() - 1].key != ps[i].key);
        }
    }
}

pub(crate) proof fn lemma_with_params_keep_names(ps: Seq<ParamView>, wanted: Seq<ParamView>)
    ensures
        forall|i: int|
            0 <= i < ps.len() ==> (#[trigger] crate::rtc::sdp::with_params(ps, wanted)[i]).key
                == ps[i].key,
{
    assert forall|i: int| 0 <= i < ps.len() implies (#[trigger] crate::rtc::sdp::with_params(
        ps,
        wanted,
    )[i]).key == ps[i].key by {
        lemma_with_params_keeps(ps, wanted, i);
    }
}

/// Each parameter of `before` is still in its place in `after`, with its value
/// unless its name is wanted.
pub open spec fn keeps_others(
    before: Seq<ParamView>,
    after: Seq<ParamView>,
    wanted: Seq<ParamView>,
) -> bool {
    &&& before.len() <= after.len()
    &&& forall|i: int| 0 <= i < before.len() ==> (#[trigger] after[i]).key == before[i].key
    &&& forall|i: int|
        0 <= i < before.len() && !crate::rtc::sdp::has_key(wanted, before[i].key) ==> (
        #[trigger] after[i]) == before[i]
}

/// The merged list declares every wanted parameter, wherever its name is used. The
/// existing parameters keep their places, and those of other names their values.
pub proof fn merging_declares_and_keeps(existing: Seq<char>, wanted: Seq<ParamView>)
    requires
        distinct_keys(wanted),
    ensures
        ({
            let before = crate::rtc::sdp::params_of(crate::rtc::sdp::pieces(existing));
            let after = crate::rtc::sdp::with_params(before, wanted);
            &&& crate::rtc::sdp::merged(existing, wanted) == crate::rtc::sdp::params_text(after)
            &&& declares_all(after, wanted)
            &&& keeps_others(before, after, wanted)
        }),
{
    let before = crate::rtc::sdp::params_of(crate::rtc::sdp::pieces(existing));
    let after = crate::rtc::sdp::with_params(before, wanted);
    assert forall|i: int| 0 <= i < wanted.len() implies declares(after, #[trigger] wanted[i]) by {
        lemma_with_params_declares(before, wanted, i);
    }
    assert(before.len() <= after.len()) by {
        if before.len() > 0 {
            lemma_with_params_keeps(before, wanted, before.len() - 1);
        }
    }
    assert forall|i: int| 0 <= i < before.len() implies (#[trigger] after[i]).key
        == before[i].key by {
        lemma_with_params_keeps(before, wanted, i);
    }
    assert forall|i: int|
        0 <= i < before.len() && !crate::rtc::sdp::has_key(wanted, before[i].key) implies (
    #[trigger] after[i]) == before[i] by {
        lemma_with_params_keeps(before, wanted, i);
    }
}

// Lines.

/// A line feed can only be the last character, and there is a character.
pub open spec fn is_line(line: Seq<char>) -> bool {
    line.len() > 0 && forall|j: int| 0 <= j < line.len() - 1 ==> line[j] != '\n'
}

pub open spec fn is_terminated(line: Seq<char>) -> bool {
    line.len() > 0 && line.last() == '\n'
}

/// Lines of which only the last may lack its line feed.
pub open spec fn are_lines(ls: Seq<Seq<char>>) -> bool {
    &&& forall|i: int| 0 <= i < ls.len() ==> is_line(#[trigger] ls[i])
    &&& forall|i: int| 0 <= i < ls.len() - 1 ==> is_terminated(#[trigger] ls[i])
}

pub open spec fn all_terminated(ls: Seq<Seq<char>>) -> bool {
    forall|i: int| 0 <= i < ls.len() ==> is_line(#[trigger] ls[i]) && is_terminated(ls[i])
}

pub(crate) proof fn lemma_lines(s: Seq<char>)
    ensures
        are_lines(crate::rtc::sdp::lines(s)),
    decreases s.len(),
{
    if s.len() > 0 {
        crate::rtc::sdp::lemma_first_line_len(s);
        let n = crate::rtc::sdp::first_line_len(s);
        let rest = crate::rtc::sdp::lines(s.skip(n));
        lemma_lines(s.skip(n));
        let ls = crate::rtc::sdp::lines(s);
        assert forall|i: int| 0 <= i < ls.len() implies is_line(#[trigger] ls[i]) by {
            if i > 0 {
                assert(ls[i] == rest[i - 1]);
            }
        }
        assert forall|i: int| 0 <= i < ls.len() - 1 implies is_terminated(#[trigger] ls[i]) by {
            if i > 0 {
                assert(ls[i] == rest[i - 1]);
            } else {
                assert(rest.len() > 0);
                assert(s.skip(n).len() > 0);
            }
        }
    }
}

proof fn lemma_first_line_len_is(s: Seq<char>, n: int)
    requires
        0 < n <= s.len(),
        forall|j: int| 0 <= j < n - 1 ==> s[j] != '\n',
        n == s.len() || s[n - 1] == '\n',
    ensures
        crate::rtc::sdp::first_line_len(s) == n,
{
    crate::rtc::sdp::lemma_first_line_len(s);
}

pub(crate) proof fn lemma_lines_of_flattened(ls: Seq<Seq<char>>)
    requires
        are_lines(ls),
    ensures
        crate::rtc::sdp::lines(ls.flatten()) == ls,
    decreases ls.len(),
{
    if ls.len() == 0 {
        assert(crate::rtc::sdp::lines(ls.flatten()) =~= ls);
    } else {
        let rest = ls.drop_first();
        assert forall|i: int| 0 <= i < rest.len() implies is_line(#[trigger] rest[i]) by {
            assert(rest[i] == ls[i + 1]);
        }
        assert forall|i: int| 0 <= i < rest.len() - 1 implies is_terminated(#[trigger] rest[i]) by {
            assert(rest[i] == ls[i + 1]);
        }
        lemma_lines_of_flattened(rest);
        let s = ls.flatten();
        let n = ls[0].len() as int;
        assert(s == ls[0] + rest.flatten());
        assert(is_line(ls[0]));
        assert(rest.len() > 0 ==> is_terminated(ls[0]));
        if rest.len() == 0 {
            assert(rest.flatten().len() == 0);
        }
        assert forall|j: int| 0 <= j < n - 1 implies s[j] != '\n' by {
            assert(s[j] == ls[0][j]);
        }
        lemma_first_line_len_is(s, n);
        assert(s.take(n) =~= ls[0]);
        assert(s.skip(n) =~= rest.flatten());
        assert(crate::rtc::sdp::lines(s) =~= ls);
    }
}

pub(crate) proof fn lemma_body(line: Seq<char>)
    ensures
        crate::rtc::sdp::body(line).len() <= line.len(),
        crate::rtc::sdp::body(line) == line.take(crate::rtc::sdp::body(line).len() as int),
        crate::rtc::sdp::body(line).len() > 0 ==> !crate::rtc::sdp::line_break(
            crate::rtc::sdp::body(line).last(),
        ),
        forall|j: int|
            crate::rtc::sdp::body(line).len() <= j < line.len() ==> crate::rtc::sdp::line_break(
                line[j],
            ),
    decreases line.len(),
{
    if line.len() > 0 && crate::rtc::sdp::line_break(line.last()) {
        lemma_body(line.drop_last());
        let b = crate::rtc::sdp::body(line);
        assert(line.drop_last().take(b.len() as int) =~= line.take(b.len() as int));
        assert forall|j: int| b.len() <= j < line.len() implies crate::rtc::sdp::line_break(
            line[j],
        ) by {
            if j < line.len() - 1 {
                assert(line[j] == line.drop_last()[j]);
            }
        }
    } else {
        assert(line.take(line.len() as int) =~= line);
    }
}

proof fn lemma_body_is(line: Seq<char>, n: int)
    requires
        0 < n <= line.len(),
        !crate::rtc::sdp::line_break(line[n - 1]),
        forall|j: int| n <= j < line.len() ==> crate::rtc::sdp::line_break(line[j]),
    ensures
        crate::rtc::sdp::body(line) == line.take(n),
{
    lemma_body(line);
    let b = crate::rtc::sdp::body(line);
    if b.len() < n {
        assert(crate::rtc::sdp::line_break(line[n - 1]));
    } else if b.len() > n {
        assert(b.last() == line[b.len() - 1]);
    }
}

/// A text that starts with `a=fmtp:` maps no payload type.
proof fn lemma_fmtp_maps_nothing(line: Seq<char>, pt: Seq<char>)
    requires
        crate::text::starts_with(line, crate::rtc::sdp::fmtp_prefix(pt)),
    ensures
        crate::rtc::sdp::opus_mapping(line) is None,
{
    reveal_strlit("a=fmtp:");
    reveal_strlit("a=rtpmap:");
    let prefix = crate::rtc::sdp::fmtp_prefix(pt);
    assert(prefix[0] == 'a' && prefix[2] == 'f');
    assert(line.take(prefix.len() as int)[0] == line[0]);
    assert(line.take(prefix.len() as int)[2] == line[2]);
    lemma_trim(line);
    let t = crate::text::trim(line);
    if crate::text::starts_with(t, "a=rtpmap:"@) {
        assert(t.take("a=rtpmap:"@.len() as int)[2] == 'r');
        assert(t[2] == line[2]);
    }
}

proof fn lemma_opus_type_push(ls: Seq<Seq<char>>, line: Seq<char>)
    ensures
        crate::rtc::sdp::opus_payload_type(ls.push(line)) == (if crate::rtc::sdp::opus_payload_type(
            ls,
        ) is Some {
            crate::rtc::sdp::opus_payload_type(ls)
        } else {
            crate::rtc::sdp::opus_mapping(line)
        }),
    decreases ls.len(),
{
    let all = ls.push(line);
    if ls.len() == 0 {
        assert(crate::rtc::sdp::opus_payload_type(all.drop_first()) is None);
    } else {
        assert(all[0] == ls[0]);
        assert(all.drop_first() =~= ls.drop_first().push(line));
        lemma_opus_type_push(ls.drop_first(), line);
    }
}

proof fn lemma_opus_type_pointwise(a: Seq<Seq<char>>, b: Seq<Seq<char>>)
    requires
        a.len() == b.len(),
        forall|i: int|
            0 <= i < a.len() ==> crate::rtc::sdp::opus_mapping(#[trigger] a[i])
                == crate::rtc::sdp::opus_mapping(b[i]),
    ensures
        crate::rtc::sdp::opus_payload_type(a) == crate::rtc::sdp::opus_payload_type(b),
    decreases a.len(),
{
    if a.len() > 0 {
        assert(crate::rtc::sdp::opus_mapping(a[0]) == crate::rtc::sdp::opus_mapping(b[0]));
        assert forall|i: int| 0 <= i < a.drop_first().len() implies crate::rtc::sdp::opus_mapping(
            #[trigger] a.drop_first()[i],
        ) == crate::rtc::sdp::opus_mapping(b.drop_first()[i]) by {
            assert(a.drop_first()[i] == a[i + 1]);
        }
        lemma_opus_type_pointwise(a.drop_first(), b.drop_first());
    }
}

/// A trimmed text is a range of the text.
proof fn lemma_trimmed_range(s: Seq<char>) -> (k: int)
    ensures
        0 <= k,
        k + crate::text::trim(s).len() <= s.len(),
        crate::text::trim(s) == s.subrange(k, k + crate::text::trim(s).len()),
{
    let t = crate::text::trim_start(s);
    lemma_trim_start(s);
    lemma_trim_end(t);
    let u = crate::text::trim(s);
    let k = s.len() - t.len();
    assert(t.take(u.len() as int) =~= s.subrange(k, k + u.len()));
    k
}

/// A trimmed line holds no line feed.
proof fn lemma_trimmed_line(line: Seq<char>)
    requires
        is_line(line),
    ensures
        forall|j: int| 0 <= j < crate::text::trim(line).len() ==> crate::text::trim(line)[j] != '\n',
{
    let k = lemma_trimmed_range(line);
    let u = crate::text::trim(line);
    lemma_trim(line);
    assert forall|j: int| 0 <= j < u.len() implies u[j] != '\n' by {
        assert(u[j] == line[k + j]);
        if u[j] == '\n' {
            assert(k + j == line.len() - 1);
            assert(u.last() == '\n');
        }
    }
}

/// A payload type holds no line feed.
proof fn lemma_mapping_is_on_one_line(line: Seq<char>)
    requires
        is_line(line),
        crate::rtc::sdp::opus_mapping(line) is Some,
    ensures
        !crate::rtc::sdp::opus_mapping(line)->0.contains('\n'),
{
    lemma_trimmed_line(line);
    let u = crate::text::trim(line);
    let n = "a=rtpmap:"@.len() as int;
    let pt = crate::rtc::sdp::opus_mapping(line)->0;
    let rest = u.skip(n);
    lemma_find(rest, ' ');
    assert forall|j: int| 0 <= j < pt.len() implies pt[j] != '\n' by {
        assert(pt[j] == u[n + j]);
    }
}

proof fn lemma_opus_type_is_on_one_line(ls: Seq<Seq<char>>)
    requires
        forall|i: int| 0 <= i < ls.len() ==> is_line(#[trigger] ls[i]),
        crate::rtc::sdp::opus_payload_type(ls) is Some,
    ensures
        !crate::rtc::sdp::opus_payload_type(ls)->0.contains('\n'),
    decreases ls.len(),
{
    assert(is_line(ls[0]));
    if crate::rtc::sdp::opus_mapping(ls[0]) is Some {
        lemma_mapping_is_on_one_line(ls[0]);
    } else {
        assert forall|i: int| 0 <= i < ls.drop_first().len() implies is_line(
            #[trigger] ls.drop_first()[i],
        ) by {
            assert(ls.drop_first()[i] == ls[i + 1]);
        }
        lemma_opus_type_is_on_one_line(ls.drop_first());
    }
}

proof fn lemma_prefix_is_on_one_line(pt: Seq<char>)
    requires
        !pt.contains('\n'),
    ensures
        forall|j: int|
            0 <= j < crate::rtc::sdp::fmtp_prefix(pt).len() ==> crate::rtc::sdp::fmtp_prefix(pt)[j]
                != '\n',
{
    reveal_strlit("a=fmtp:");
    let prefix = crate::rtc::sdp::fmtp_prefix(pt);
    assert forall|j: int| 0 <= j < prefix.len() implies prefix[j] != '\n' by {
        if 7 <= j < 7 + pt.len() {
            assert(pt.contains(pt[j - 7]));
        }
    }
}

/// A line made of a format prefix, a settled parameter list and a line end is
/// rewritten to itself.
proof fn lemma_settled_line(
    pt: Seq<char>,
    values: Seq<char>,
    end: Seq<char>,
    wanted: Seq<ParamView>,
)
    requires
        values.len() > 0,
        !crate::text::white_space(values.last()),
        crate::rtc::sdp::merged(values, wanted) == values,
        forall|j: int| 0 <= j < end.len() ==> crate::rtc::sdp::line_break(end[j]),
    ensures
        crate::rtc::sdp::is_fmtp_line(crate::rtc::sdp::fmtp_prefix(pt) + values + end, pt),
        crate::rtc::sdp::rewritten_line(
            crate::rtc::sdp::fmtp_prefix(pt) + values + end,
            pt,
            wanted,
        ) == crate::rtc::sdp::fmtp_prefix(pt) + values + end,
        format_text(crate::rtc::sdp::fmtp_prefix(pt) + values + end, pt) == values,
        crate::rtc::sdp::opus_mapping(crate::rtc::sdp::fmtp_prefix(pt) + values + end) is None,
{
    let prefix = crate::rtc::sdp::fmtp_prefix(pt);
    let line = prefix + values + end;
    let n = (prefix.len() + values.len()) as int;
    assert(line[n - 1] == values.last());
    assert forall|j: int| n <= j < line.len() implies crate::rtc::sdp::line_break(line[j]) by {
        assert(line[j] == end[j - n]);
    }
    lemma_body_is(line, n);
    let b = crate::rtc::sdp::body(line);
    assert(b =~= prefix + values);
    assert(b.take(prefix.len() as int) =~= prefix);
    assert(b.skip(prefix.len() as int) =~= values);
    assert(line.skip(n) =~= end);
    assert(line.take(prefix.len() as int) =~= prefix);
    lemma_fmtp_maps_nothing(line, pt);
}

// The wanted Opus parameters.

pub(crate) proof fn lemma_opus_params(stereo: bool, bits: nat)
    ensures
        all_steady(crate::rtc::sdp::opus_params(stereo, bits)),
        distinct_keys(crate::rtc::sdp::opus_params(stereo, bits)),
        crate::rtc::sdp::opus_params(stereo, bits).len() == 5,
{
    reveal_strlit("minptime");
    reveal_strlit("10");
    reveal_strlit("useinbandfec");
    reveal_strlit("0");
    reveal_strlit("1");
    reveal_strlit("sprop-stereo");
    reveal_strlit("stereo");
    reveal_strlit("maxaveragebitrate");
    let ps = crate::rtc::sdp::opus_params(stereo, bits);
    crate::numeral::lemma_decimal_digits(bits);
    let digits = crate::numeral::decimal(bits);
    assert(ps[0].key.len() == 8 && ps[1].key.len() == 12 && ps[2].key.len() == 12 && ps[3].key.len()
        == 6 && ps[4].key.len() == 17);
    assert(ps[1].key[0] != ps[2].key[0]);
    assert forall|i: int| 0 <= i < ps.len() implies steady(#[trigger] ps[i]) by {
        let p = ps[i];
        let t = crate::rtc::sdp::param_text(p);
        assert(p.value.len() > 0);
        assert forall|j: int| 0 <= j < p.value.len() implies crate::numeral::is_digit(
            p.value[j],
        ) by {
            if i == 4 {
                assert(crate::numeral::is_digit(digits[j]));
            }
        }
        assert forall|j: int| 0 <= j < t.len() implies t[j] != ';' && t[j] != '\n' by {
            if j > p.key.len() {
                assert(t[j] == p.value[j - p.key.len() - 1]);
            }
        }
        assert(t.last() == p.value.last());
        assert(t[0] == p.key[0]);
    }
}

/// A list of parameters whose text reads back as the same list, where line breaks may
/// follow the text. Only its last parameter can end in carriage returns: they then count as
/// part of the line's end, and what is left must not have a wanted name.
pub open spec fn list_settles(ps: Seq<ParamView>, wanted: Seq<ParamView>) -> bool {
    let last = ps.last();
    let name = crate::rtc::sdp::body(last.key);
    &&& forall|i: int|
        0 <= i < ps.len() - 1 ==> holds_up(crate::rtc::sdp::param_text(#[trigger] ps[i]))
    &&& holds_up(crate::rtc::sdp::body(crate::rtc::sdp::param_text(last)))
    &&& last.value.len() == 0 && name != last.key ==> !crate::rtc::sdp::has_key(wanted, name)
}

/// The parameters of a format line, without its prefix and its line end.
pub open spec fn format_text(line: Seq<char>, pt: Seq<char>) -> Seq<char> {
    crate::rtc::sdp::body(line).skip(crate::rtc::sdp::fmtp_prefix(pt).len() as int)
}

/// The parameters that a format line declares.
pub open spec fn line_params(line: Seq<char>, pt: Seq<char>) -> Seq<ParamView> {
    crate::rtc::sdp::params_of(crate::rtc::sdp::pieces(format_text(line, pt)))
}

/// Rewriting lines a second time changes them only if a format line comes to hold a
/// parameter that is written as an empty text or as one that ends in white space.
pub open spec fn lines_settle(ls: Seq<Seq<char>>, wanted: Seq<ParamView>) -> bool {
    match crate::rtc::sdp::opus_payload_type(ls) {
        None => true,
        Some(pt) => forall|i: int|
            0 <= i < ls.len() && crate::rtc::sdp::is_fmtp_line(#[trigger] ls[i], pt)
                ==> list_settles(merged_params(format_text(ls[i], pt), wanted), wanted),
    }
}

/// A settling list without the line breaks at its end.
pub open spec fn without_breaks(ps: Seq<ParamView>) -> Seq<ParamView> {
    let last = ps.last();
    if last.value.len() == 0 {
        ps.drop_last().push(
            ParamView { key: crate::rtc::sdp::body(last.key), value: Seq::empty() },
        )
    } else {
        ps
    }
}

proof fn lemma_without_breaks(ps: Seq<ParamView>, wanted: Seq<ParamView>)
    requires
        ps.len() > 0,
        all_listable(ps),
        list_settles(ps, wanted),
        all_steady(wanted),
        declares_all(ps, wanted),
    ensures
        ({
            let qs = without_breaks(ps);
            let t = crate::rtc::sdp::params_text(ps);
            let u = crate::rtc::sdp::params_text(qs);
            &&& qs.len() > 0
            &&& all_steady(qs)
            &&& declares_all(qs, wanted)
            &&& u.len() <= t.len()
            &&& t.take(u.len() as int) == u
            &&& forall|j: int|
                u.len() <= j < t.len() ==> crate::rtc::sdp::line_break(t[j]) && t[j] != '\n'
        }),
{
    let last = ps.last();
    let qs = without_breaks(ps);
    let t = crate::rtc::sdp::param_text(last);
    let b = crate::rtc::sdp::body(t);
    assert(last == ps[ps.len() - 1]);
    assert(listable(ps[ps.len() - 1]));
    lemma_body(t);
    if last.value.len() > 0 {
        lemma_body_is(t, t.len() as int);
        assert(b =~= t);
        assert(qs == ps);
    } else {
        assert(t == last.key);
        assert forall|c: char| b.contains(c) implies t.contains(c) by {
            let k = choose|k: int| 0 <= k < b.len() && b[k] == c;
            assert(t[k] == c);
        }
        assert(crate::rtc::sdp::param_text(qs.last()) == b);
        assert(b[0] == t[0]);
        assert(steady(qs.last()));
        assert(qs.drop_last() =~= ps.drop_last());
    }
    assert forall|i: int| 0 <= i < qs.len() implies steady(#[trigger] qs[i]) by {
        if i < ps.len() - 1 {
            assert(qs[i] == ps[i]);
            assert(listable(ps[i]));
        } else {
            assert(qs[i] == qs.last());
        }
    }
    assert forall|i: int| 0 <= i < wanted.len() implies declares(qs, #[trigger] wanted[i]) by {
        let w = wanted[i];
        let n = ps.len() - 1;
        assert(declares(ps, w));
        assert(steady(w));
        if qs[n] == ps[n] {
            assert(qs =~= ps);
        } else {
            assert(last.value.len() == 0 && last.value =~= Seq::empty());
            assert(qs[n].key == crate::rtc::sdp::body(last.key));
            assert(qs[n].key != last.key);
            assert(qs[n].key != w.key) by {
                assert(!crate::rtc::sdp::has_key(wanted, qs[n].key));
                assert(wanted[i].key == w.key);
            }
            assert(ps[n].key != w.key) by {
                if ps[n].key == w.key {
                    assert(ps[n] == w);
                    lemma_body_is(t, t.len() as int);
                    assert(b =~= t);
                }
            }
            let k = choose|k: int| 0 <= k < ps.len() && (#[trigger] ps[k]).key == w.key;
            assert(qs[k] == ps[k]);
            assert forall|j: int| 0 <= j < qs.len() && (#[trigger] qs[j]).key == w.key implies qs[j]
                == w by {
                assert(j != n);
                assert(qs[j] == ps[j]);
            }
        }
    }
    let whole = crate::rtc::sdp::params_text(ps);
    let kept = crate::rtc::sdp::params_text(qs);
    let n = whole.len() - t.len();
    if ps.len() == 1 {
        assert(whole == t);
        assert(kept == b);
    } else {
        let front = crate::rtc::sdp::params_text(ps.drop_last()) + seq![';'];
        assert(qs.drop_last() =~= ps.drop_last());
        assert(whole == front + t);
        assert(kept == front + b);
    }
    assert(whole.take(kept.len() as int) =~= kept);
    assert forall|j: int| kept.len() <= j < whole.len() implies crate::rtc::sdp::line_break(
        whole[j],
    ) && whole[j] != '\n' by {
        assert(whole[j] == t[j - n]);
        assert(t.contains(t[j - n]));
    }
}

proof fn lemma_rewritten(line: Seq<char>, pt: Seq<char>, stereo: bool, bits: nat)
    requires
        is_line(line),
        !pt.contains('\n'),
        crate::rtc::sdp::is_fmtp_line(line, pt),
        list_settles(
            merged_params(format_text(line, pt), crate::rtc::sdp::opus_params(stereo, bits)),
            crate::rtc::sdp::opus_params(stereo, bits),
        ),
    ensures
        ({
            let wanted = crate::rtc::sdp::opus_params(stereo, bits);
            let r = crate::rtc::sdp::rewritten_line(line, pt, wanted);
            &&& is_line(r)
            &&& is_terminated(line) ==> is_terminated(r)
            &&& crate::rtc::sdp::is_fmtp_line(r, pt)
            &&& crate::rtc::sdp::rewritten_line(r, pt, wanted) == r
            &&& declares_all(line_params(r, pt), wanted)
            &&& crate::rtc::sdp::opus_mapping(r) is None
            &&& crate::rtc::sdp::opus_mapping(line) is None
        }),
{
    let wanted = crate::rtc::sdp::opus_params(stereo, bits);
    let prefix = crate::rtc::sdp::fmtp_prefix(pt);
    let b = crate::rtc::sdp::body(line);
    let existing = b.skip(prefix.len() as int);
    let rest = line.skip(b.len() as int);
    lemma_opus_params(stereo, bits);
    lemma_body(line);
    assert forall|j: int| 0 <= j < existing.len() implies existing[j] != '\n' by {
        assert(existing[j] == line[prefix.len() + j]);
        if prefix.len() + j == line.len() - 1 {
            assert(b.last() == line.last());
        }
    }
    lemma_merged_params(existing, wanted);
    let ps = merged_params(existing, wanted);
    let qs = without_breaks(ps);
    lemma_without_breaks(ps, wanted);
    lemma_steady_list_is_settled(qs, wanted);
    lemma_pieces_of_params_text(qs);
    lemma_params_of_texts(qs);
    lemma_params_text_ends(qs);
    let whole = crate::rtc::sdp::params_text(ps);
    let values = crate::rtc::sdp::params_text(qs);
    let tail = whole.skip(values.len() as int);
    let end = tail + rest;
    assert forall|j: int| 0 <= j < end.len() implies crate::rtc::sdp::line_break(end[j]) && (j
        < end.len() - 1 ==> end[j] != '\n') by {
        if j < tail.len() {
            assert(end[j] == whole[values.len() + j]);
        } else {
            assert(end[j] == line[b.len() + j - tail.len()]);
        }
    }
    lemma_settled_line(pt, values, end, wanted);
    let r = crate::rtc::sdp::rewritten_line(line, pt, wanted);
    assert(r == prefix + whole + rest);
    assert(r =~= prefix + values + end);
    lemma_prefix_is_on_one_line(pt);
    assert forall|j: int| 0 <= j < r.len() - 1 implies r[j] != '\n' by {
        if prefix.len() <= j < prefix.len() + values.len() {
            assert(values.contains(values[j - prefix.len()]));
            assert(r[j] == values[j - prefix.len()]);
        } else if j >= prefix.len() + values.len() {
            assert(r[j] == end[j - prefix.len() - values.len()]);
        } else {
            assert(r[j] == prefix[j]);
        }
    }
    if is_terminated(line) {
        if rest.len() == 0 {
            assert(b =~= line);
        }
        assert(rest.last() == line.last());
        assert(r.last() == rest.last());
    }
    assert(line.take(prefix.len() as int) =~= b.take(prefix.len() as int));
    lemma_fmtp_maps_nothing(line, pt);
}

/// A rewritten format line whose parameters hold up declares the merged parameters.
pub(crate) proof fn lemma_rewritten_params(line: Seq<char>, pt: Seq<char>, stereo: bool, bits: nat)
    requires
        is_line(line),
        crate::rtc::sdp::is_fmtp_line(line, pt),
        ({
            let merged = merged_params(
                format_text(line, pt),
                crate::rtc::sdp::opus_params(stereo, bits),
            );
            forall|m: int|
                0 <= m < merged.len() ==> holds_up(
                    crate::rtc::sdp::param_text(#[trigger] merged[m]),
                )
        }),
    ensures
        line_params(
            crate::rtc::sdp::rewritten_line(line, pt, crate::rtc::sdp::opus_params(stereo, bits)),
            pt,
        ) == merged_params(format_text(line, pt), crate::rtc::sdp::opus_params(stereo, bits)),
{
    let wanted = crate::rtc::sdp::opus_params(stereo, bits);
    let prefix = crate::rtc::sdp::fmtp_prefix(pt);
    let b = crate::rtc::sdp::body(line);
    let existing = format_text(line, pt);
    let rest = line.skip(b.len() as int);
    lemma_opus_params(stereo, bits);
    lemma_body(line);
    assert forall|j: int| 0 <= j < existing.len() implies existing[j] != '\n' by {
        assert(existing[j] == line[prefix.len() + j]);
        if prefix.len() + j == line.len() - 1 {
            assert(b.last() == line.last());
        }
    }
    lemma_merged_params(existing, wanted);
    let ps = merged_params(existing, wanted);
    assert forall|i: int| 0 <= i < ps.len() implies steady(#[trigger] ps[i]) by {
        assert(listable(ps[i]));
    }
    lemma_steady_list_is_settled(ps, wanted);
    lemma_pieces_of_params_text(ps);
    lemma_params_of_texts(ps);
    lemma_params_text_ends(ps);
    let values = crate::rtc::sdp::params_text(ps);
    assert forall|j: int| 0 <= j < rest.len() implies crate::rtc::sdp::line_break(rest[j]) by {
        assert(rest[j] == line[b.len() + j]);
    }
    lemma_settled_line(pt, values, rest, wanted);
}

proof fn lemma_inserted_line(line: Seq<char>, pt: Seq<char>, stereo: bool, bits: nat)
    requires
        !pt.contains('\n'),
    ensures
        ({
            let wanted = crate::rtc::sdp::opus_params(stereo, bits);
            let r = crate::rtc::sdp::fmtp_line_after(line, pt, wanted);
            &&& is_line(r)
            &&& is_terminated(r)
            &&& crate::rtc::sdp::is_fmtp_line(r, pt)
            &&& crate::rtc::sdp::rewritten_line(r, pt, wanted) == r
            &&& declares_all(line_params(r, pt), wanted)
            &&& crate::rtc::sdp::opus_mapping(r) is None
        }),
{
    let wanted = crate::rtc::sdp::opus_params(stereo, bits);
    let prefix = crate::rtc::sdp::fmtp_prefix(pt);
    let values = crate::rtc::sdp::params_text(wanted);
    let end = crate::rtc::sdp::line_end_like(line);
    lemma_opus_params(stereo, bits);
    lemma_params_text_ends(wanted);
    lemma_pieces_of_params_text(wanted);
    lemma_params_of_texts(wanted);
    assert forall|i: int| 0 <= i < wanted.len() implies declares(
        wanted,
        #[trigger] wanted[i],
    ) by {
        assert forall|j: int| 0 <= j < wanted.len() && (#[trigger] wanted[j]).key
            == wanted[i].key implies wanted[j] == wanted[i] by {
            if i < j {
                assert(wanted[i].key != wanted[j].key);
            } else if j < i {
                assert(wanted[j].key != wanted[i].key);
            }
        }
    }
    lemma_with_params_settled(wanted, wanted);
    lemma_settled_line(pt, values, end, wanted);
    lemma_prefix_is_on_one_line(pt);
    let r = crate::rtc::sdp::fmtp_line_after(line, pt, wanted);
    assert forall|j: int| 0 <= j < r.len() - 1 implies r[j] != '\n' by {
        if prefix.len() <= j < prefix.len() + values.len() {
            assert(values.contains(values[j - prefix.len()]));
            assert(r[j] == values[j - prefix.len()]);
        } else if j >= prefix.len() + values.len() {
            assert(r[j] == end[j - prefix.len() - values.len()]);
        } else {
            assert(r[j] == prefix[j]);
        }
    }
    assert(r.last() == end.last());
}

/// A line feed at the end of a text that says something is trimmed off.
proof fn lemma_trim_line_feed(s: Seq<char>)
    requires
        crate::text::trim(s).len() > 0,
    ensures
        crate::text::trim(s.push('\n')) == crate::text::trim(s),
    decreases s.len(),
{
    let r = s.push('\n');
    assert(s.len() > 0);
    assert(r[0] == s[0]);
    if crate::text::white_space(s[0]) {
        assert(r.drop_first() =~= s.drop_first().push('\n'));
        lemma_trim_line_feed(s.drop_first());
    } else {
        assert(r.drop_last() =~= s);
        assert(crate::text::white_space('\n'));
    }
}

/// A mapping line says something, and if it begins with a mark, with that of an attribute.
pub(crate) proof fn lemma_mapping_says_something(line: Seq<char>, pt: Seq<char>)
    requires
        crate::rtc::sdp::is_rtpmap_line(line, pt),
    ensures
        crate::text::trim(line).len() > 0,
        crate::text::trim(line)[0] == 'a',
{
    reveal_strlit("a=rtpmap:");
    let prefix = crate::rtc::sdp::rtpmap_prefix(pt);
    let t = crate::text::trim(line);
    assert(prefix[0] == 'a');
    if crate::text::starts_with(t, prefix) {
        assert(t.take(prefix.len() as int)[0] == prefix[0]);
    } else {
        lemma_body(line);
        assert(crate::rtc::sdp::body(line).take(prefix.len() as int)[0] == prefix[0]);
        assert(line[0] == 'a');
        assert(!crate::text::white_space('a'));
        lemma_trim_start(line);
        assert(crate::text::trim_start(line) == line);
        lemma_keeps_first_mark(line);
    }
}

/// What begins with a mark still does so once its end is trimmed.
proof fn lemma_keeps_first_mark(s: Seq<char>)
    requires
        s.len() > 0,
        !crate::text::white_space(s[0]),
    ensures
        crate::text::trim_end(s).len() > 0,
        crate::text::trim_end(s)[0] == s[0],
    decreases s.len(),
{
    if crate::text::white_space(s.last()) {
        assert(s.len() > 1);
        lemma_keeps_first_mark(s.drop_last());
    }
}

/// A mapping line with a line feed at its end is one line and maps what it mapped before.
proof fn lemma_ended_line(line: Seq<char>, pt: Seq<char>)
    requires
        is_line(line),
        crate::rtc::sdp::is_rtpmap_line(line, pt),
    ensures
        ({
            let r = crate::rtc::sdp::ended_line(line);
            &&& is_line(r)
            &&& is_terminated(r)
            &&& crate::rtc::sdp::is_fmtp_line(r, pt) == crate::rtc::sdp::is_fmtp_line(line, pt)
            &&& crate::rtc::sdp::opus_mapping(r) == crate::rtc::sdp::opus_mapping(line)
        }),
{
    let r = crate::rtc::sdp::ended_line(line);
    if !is_terminated(line) {
        assert(crate::text::trim(line).len() > 0) by {
            lemma_mapping_says_something(line, pt);
        }
        assert(r.drop_last() =~= line);
        assert(crate::rtc::sdp::body(r) == crate::rtc::sdp::body(line));
        lemma_trim_line_feed(line);
    }
}

/// The line from which the payload type is read maps it.
proof fn lemma_opus_type_is_mapped(ls: Seq<Seq<char>>)
    requires
        crate::rtc::sdp::opus_payload_type(ls) is Some,
    ensures
        maps_type(ls, crate::rtc::sdp::opus_payload_type(ls)->0),
    decreases ls.len(),
{
    let pt = crate::rtc::sdp::opus_payload_type(ls)->0;
    if crate::rtc::sdp::opus_mapping(ls[0]) is Some {
        let t = crate::text::trim(ls[0]);
        let start = "a=rtpmap:"@;
        let prefix = crate::rtc::sdp::rtpmap_prefix(pt);
        let rest = t.skip(start.len() as int);
        lemma_find(rest, ' ');
        let n = start.len() as int;
        assert forall|j: int| 0 <= j < prefix.len() implies t[j] == prefix[j] by {
            if j < n {
                assert(t.take(n)[j] == start[j]);
            } else if j < n + pt.len() {
                assert(prefix[j] == pt[j - n]);
                assert(t[j] == rest[j - n]);
            } else {
                assert(t[j] == rest[pt.len() as int]);
            }
        }
        assert(t.take(prefix.len() as int) =~= prefix);
        assert(crate::rtc::sdp::is_rtpmap_line(ls[0], pt));
    } else {
        let rest = ls.drop_first();
        lemma_opus_type_is_mapped(rest);
        let i = choose|i: int|
            0 <= i < rest.len() && crate::rtc::sdp::is_rtpmap_line(#[trigger] rest[i], pt);
        assert(ls[i + 1] == rest[i]);
    }
}

/// Whether some line maps the payload type.
pub open spec fn maps_type(ls: Seq<Seq<char>>, pt: Seq<char>) -> bool {
    exists|i: int| 0 <= i < ls.len() && crate::rtc::sdp::is_rtpmap_line(#[trigger] ls[i], pt)
}

/// What holds of the lines after insertion, for lines without a format line.
proof fn lemma_extended(ls: Seq<Seq<char>>, pt: Seq<char>, stereo: bool, bits: nat)
    requires
        are_lines(ls),
        !pt.contains('\n'),
        !crate::rtc::sdp::has_fmtp_line(ls, pt),
    ensures
        ({
            let wanted = crate::rtc::sdp::opus_params(stereo, bits);
            let ext = crate::rtc::sdp::extended_lines(ls, pt, wanted);
            &&& are_lines(ext)
            &&& all_terminated(ls) ==> all_terminated(ext)
            &&& crate::rtc::sdp::opus_payload_type(ext) == crate::rtc::sdp::opus_payload_type(ls)
            &&& crate::rtc::sdp::rewritten_lines(ext, pt, wanted) == ext
            &&& forall|i: int|
                0 <= i < ext.len() && crate::rtc::sdp::is_fmtp_line(#[trigger] ext[i], pt)
                    ==> declares_all(line_params(ext[i], pt), wanted)
            &&& maps_type(ls, pt) ==> crate::rtc::sdp::has_fmtp_line(ext, pt)
        }),
    decreases ls.len(),
{
    let wanted = crate::rtc::sdp::opus_params(stereo, bits);
    let ext = crate::rtc::sdp::extended_lines(ls, pt, wanted);
    if ls.len() == 0 {
        assert(ext =~= ls);
        assert(crate::rtc::sdp::rewritten_lines(ext, pt, wanted) =~= ext);
    } else {
        let front = ls.drop_last();
        let line = ls.last();
        assert(line == ls[ls.len() - 1]);
        assert(!crate::rtc::sdp::is_fmtp_line(ls[ls.len() - 1], pt));
        assert(all_terminated(front)) by {
            assert forall|i: int| 0 <= i < front.len() implies is_line(#[trigger] front[i])
                && is_terminated(front[i]) by {
                assert(front[i] == ls[i]);
            }
        }
        assert(!crate::rtc::sdp::has_fmtp_line(front, pt)) by {
            assert forall|i: int| 0 <= i < front.len() implies !crate::rtc::sdp::is_fmtp_line(
                #[trigger] front[i],
                pt,
            ) by {
                assert(front[i] == ls[i]);
            }
        }
        lemma_extended(front, pt, stereo, bits);
        let before = crate::rtc::sdp::extended_lines(front, pt, wanted);
        let mapped = crate::rtc::sdp::is_rtpmap_line(line, pt);
        let kept = if mapped {
            crate::rtc::sdp::ended_line(line)
        } else {
            line
        };
        assert(is_line(line));
        if mapped {
            lemma_ended_line(line, pt);
        }
        let with_line = before.push(kept);
        assert(front.push(line) =~= ls);
        lemma_opus_type_push(front, line);
        lemma_opus_type_push(before, kept);
        let added = crate::rtc::sdp::fmtp_line_after(kept, pt, wanted);
        lemma_inserted_line(kept, pt, stereo, bits);
        lemma_opus_type_push(with_line, added);
        assert(!crate::rtc::sdp::is_fmtp_line(kept, pt));
        assert(crate::rtc::sdp::rewritten_lines(with_line, pt, wanted) =~= with_line) by {
            assert forall|i: int| 0 <= i < with_line.len() implies
                crate::rtc::sdp::rewritten_lines(with_line, pt, wanted)[i] == with_line[i] by {
                if i < before.len() {
                    assert(crate::rtc::sdp::rewritten_lines(before, pt, wanted)[i] == before[i]);
                }
            }
        }
        if mapped {
            assert(ext == with_line.push(added));
            assert(crate::rtc::sdp::rewritten_lines(ext, pt, wanted) =~= ext) by {
                assert forall|i: int| 0 <= i < ext.len() implies
                    crate::rtc::sdp::rewritten_lines(ext, pt, wanted)[i] == ext[i] by {
                    if i < with_line.len() {
                        assert(crate::rtc::sdp::rewritten_lines(with_line, pt, wanted)[i]
                            == with_line[i]);
                    }
                }
            }
            assert(ext[ext.len() - 1] == added);
            assert(crate::rtc::sdp::has_fmtp_line(ext, pt));
            assert(all_terminated(ext));
        } else {
            assert(ext == with_line);
            if crate::rtc::sdp::has_fmtp_line(before, pt) {
                let i = choose|i: int|
                    0 <= i < before.len() && crate::rtc::sdp::is_fmtp_line(
                        #[trigger] before[i],
                        pt,
                    );
                assert(ext[i] == before[i]);
            }
            if maps_type(ls, pt) {
                let i = choose|i: int|
                    0 <= i < ls.len() && crate::rtc::sdp::is_rtpmap_line(#[trigger] ls[i], pt);
                assert(front[i] == ls[i]);
            }
        }
        assert forall|i: int|
            0 <= i < ext.len() && crate::rtc::sdp::is_fmtp_line(
                #[trigger] ext[i],
                pt,
            ) implies declares_all(line_params(ext[i], pt), wanted) by {
            if i < before.len() {
                assert(ext[i] == before[i]);
            } else if i == before.len() {
                assert(ext[i] == kept);
            } else {
                assert(ext[i] == added);
            }
        }
        assert(are_lines(ext));
    }
}

proof fn lemma_params_text_is_on_one_line(ps: Seq<ParamView>)
    requires
        all_listable(ps),
    ensures
        !crate::rtc::sdp::params_text(ps).contains('\n'),
    decreases ps.len(),
{
    if ps.len() > 0 {
        let t = crate::rtc::sdp::param_text(ps.last());
        assert(listable(ps[ps.len() - 1]));
        if ps.len() > 1 {
            let front = ps.drop_last();
            assert forall|i: int| 0 <= i < front.len() implies listable(#[trigger] front[i]) by {
                assert(front[i] == ps[i]);
            }
            lemma_params_text_is_on_one_line(front);
            let a = crate::rtc::sdp::params_text(front);
            let whole = crate::rtc::sdp::params_text(ps);
            assert forall|i: int| 0 <= i < whole.len() implies whole[i] != '\n' by {
                if i < a.len() {
                    assert(a.contains(a[i]));
                } else if i > a.len() {
                    assert(t.contains(t[i - a.len() - 1]));
                }
            }
        }
    }
}

/// A rewritten format line is one line, and still a format line.
proof fn lemma_rewritten_is_line(line: Seq<char>, pt: Seq<char>, stereo: bool, bits: nat)
    requires
        is_line(line),
        !pt.contains('\n'),
        crate::rtc::sdp::is_fmtp_line(line, pt),
    ensures
        ({
            let r = crate::rtc::sdp::rewritten_line(
                line,
                pt,
                crate::rtc::sdp::opus_params(stereo, bits),
            );
            &&& is_line(r)
            &&& is_terminated(line) ==> is_terminated(r)
        }),
{
    let wanted = crate::rtc::sdp::opus_params(stereo, bits);
    let prefix = crate::rtc::sdp::fmtp_prefix(pt);
    let b = crate::rtc::sdp::body(line);
    let existing = b.skip(prefix.len() as int);
    let rest = line.skip(b.len() as int);
    lemma_opus_params(stereo, bits);
    lemma_body(line);
    assert forall|j: int| 0 <= j < existing.len() implies existing[j] != '\n' by {
        assert(existing[j] == line[prefix.len() + j]);
        if prefix.len() + j == line.len() - 1 {
            assert(b.last() == line.last());
        }
    }
    lemma_merged_params(existing, wanted);
    lemma_params_text_is_on_one_line(merged_params(existing, wanted));
    let whole = crate::rtc::sdp::params_text(merged_params(existing, wanted));
    let r = crate::rtc::sdp::rewritten_line(line, pt, wanted);
    assert(r == prefix + whole + rest);
    lemma_prefix_is_on_one_line(pt);
    assert forall|j: int| 0 <= j < r.len() - 1 implies r[j] != '\n' by {
        if j < prefix.len() {
            assert(r[j] == prefix[j]);
        } else if j < prefix.len() + whole.len() {
            assert(whole.contains(whole[j - prefix.len()]));
        } else {
            assert(r[j] == line[b.len() + j - prefix.len() - whole.len()]);
        }
    }
    if is_terminated(line) {
        if rest.len() == 0 {
            assert(b =~= line);
        }
        assert(rest.last() == line.last());
        assert(r.last() == rest.last());
    }
}

/// Declaring the Opus parameters makes lines of lines.
pub(crate) proof fn lemma_munged_lines_are_lines(ls: Seq<Seq<char>>, stereo: bool, bits: nat)
    requires
        are_lines(ls),
    ensures
        ({
            let out = crate::rtc::sdp::munged_lines(
                ls,
                crate::rtc::sdp::opus_params(stereo, bits),
            );
            &&& are_lines(out)
            &&& all_terminated(ls) ==> all_terminated(out)
        }),
{
    let wanted = crate::rtc::sdp::opus_params(stereo, bits);
    let out = crate::rtc::sdp::munged_lines(ls, wanted);
    match crate::rtc::sdp::opus_payload_type(ls) {
        None => {},
        Some(pt) => {
            lemma_opus_type_is_on_one_line(ls);
            if crate::rtc::sdp::has_fmtp_line(ls, pt) {
                assert forall|i: int| 0 <= i < ls.len() implies is_line(#[trigger] out[i]) && (
                is_terminated(ls[i]) ==> is_terminated(out[i])) by {
                    assert(is_line(ls[i]));
                    if crate::rtc::sdp::is_fmtp_line(ls[i], pt) {
                        lemma_rewritten_is_line(ls[i], pt, stereo, bits);
                    }
                }
            } else {
                lemma_extended(ls, pt, stereo, bits);
            }
        },
    }
}

/// What declaring the Opus parameters makes of lines that settle.
pub(crate) proof fn lemma_munged_lines(ls: Seq<Seq<char>>, stereo: bool, bits: nat)
    requires
        are_lines(ls),
        lines_settle(ls, crate::rtc::sdp::opus_params(stereo, bits)),
    ensures
        ({
            let wanted = crate::rtc::sdp::opus_params(stereo, bits);
            let out = crate::rtc::sdp::munged_lines(ls, wanted);
            &&& are_lines(out)
            &&& all_terminated(ls) ==> all_terminated(out)
            &&& crate::rtc::sdp::opus_payload_type(out) == crate::rtc::sdp::opus_payload_type(ls)
            &&& crate::rtc::sdp::munged_lines(out, wanted) == out
            &&& match crate::rtc::sdp::opus_payload_type(ls) {
                None => true,
                Some(pt) => {
                    &&& forall|i: int|
                        0 <= i < out.len() && crate::rtc::sdp::is_fmtp_line(#[trigger] out[i], pt)
                            ==> declares_all(line_params(out[i], pt), wanted)
                    &&& crate::rtc::sdp::has_fmtp_line(out, pt)
                },
            }
        }),
{
    let wanted = crate::rtc::sdp::opus_params(stereo, bits);
    let out = crate::rtc::sdp::munged_lines(ls, wanted);
    match crate::rtc::sdp::opus_payload_type(ls) {
        None => {},
        Some(pt) => {
            lemma_opus_type_is_on_one_line(ls);
            if crate::rtc::sdp::has_fmtp_line(ls, pt) {
                assert forall|i: int| 0 <= i < ls.len() implies is_line(#[trigger] out[i]) && (
                is_terminated(ls[i]) ==> is_terminated(out[i]))
                    && crate::rtc::sdp::rewritten_line(out[i], pt, wanted) == out[i]
                    && crate::rtc::sdp::opus_mapping(ls[i]) == crate::rtc::sdp::opus_mapping(out[i])
                    && (crate::rtc::sdp::is_fmtp_line(ls[i], pt)
                    == crate::rtc::sdp::is_fmtp_line(out[i], pt)) && (
                crate::rtc::sdp::is_fmtp_line(out[i], pt) ==> declares_all(
                    line_params(out[i], pt),
                    wanted,
                )) by {
                    assert(is_line(ls[i]));
                    if crate::rtc::sdp::is_fmtp_line(ls[i], pt) {
                        lemma_rewritten(ls[i], pt, stereo, bits);
                    }
                }
                assert(are_lines(out));
                assert forall|i: int| 0 <= i < ls.len() implies crate::rtc::sdp::opus_mapping(
                    #[trigger] ls[i],
                ) == crate::rtc::sdp::opus_mapping(out[i]) by {
                    assert(is_line(out[i]));
                }
                lemma_opus_type_pointwise(ls, out);
                let k = choose|k: int|
                    0 <= k < ls.len() && crate::rtc::sdp::is_fmtp_line(#[trigger] ls[k], pt);
                assert(crate::rtc::sdp::is_fmtp_line(out[k], pt));
                assert(crate::rtc::sdp::rewritten_lines(out, pt, wanted) =~= out);
            } else {
                lemma_opus_type_is_mapped(ls);
                lemma_extended(ls, pt, stereo, bits);
            }
        },
    }
}

/// Declaring the Opus parameters twice is the same as declaring them once, for
/// every offer that settles.
pub proof fn munging_is_idempotent(sdp: Seq<char>, stereo: bool, max_avg_bitrate_bits: nat)
    requires
        lines_settle(
            crate::rtc::sdp::lines(sdp),
            crate::rtc::sdp::opus_params(stereo, max_avg_bitrate_bits),
        ),
    ensures
        crate::rtc::sdp::munged(
            crate::rtc::sdp::munged(sdp, stereo, max_avg_bitrate_bits),
            stereo,
            max_avg_bitrate_bits,
        ) == crate::rtc::sdp::munged(sdp, stereo, max_avg_bitrate_bits),
{
    let ls = crate::rtc::sdp::lines(sdp);
    lemma_lines(sdp);
    lemma_munged_lines(ls, stereo, max_avg_bitrate_bits);
    lemma_lines_of_flattened(
        crate::rtc::sdp::munged_lines(
            ls,
            crate::rtc::sdp::opus_params(stereo, max_avg_bitrate_bits),
        ),
    );
}

/// The rewritten offer reads as the lines that were made for it. Where there is Opus, there
/// is a format line of its payload type, and every one declares the wanted parameters.
pub proof fn munging_declares_the_parameters(
    sdp: Seq<char>,
    stereo: bool,
    max_avg_bitrate_bits: nat,
)
    requires
        lines_settle(
            crate::rtc::sdp::lines(sdp),
            crate::rtc::sdp::opus_params(stereo, max_avg_bitrate_bits),
        ),
    ensures
        ({
            let ls = crate::rtc::sdp::lines(sdp);
            let wanted = crate::rtc::sdp::opus_params(stereo, max_avg_bitrate_bits);
            let out = crate::rtc::sdp::lines(
                crate::rtc::sdp::munged(sdp, stereo, max_avg_bitrate_bits),
            );
            &&& out == crate::rtc::sdp::munged_lines(ls, wanted)
            &&& crate::rtc::sdp::opus_payload_type(ls) matches Some(pt) ==> {
                &&& forall|i: int|
                    0 <= i < out.len() && crate::rtc::sdp::is_fmtp_line(#[trigger] out[i], pt)
                        ==> declares_all(line_params(out[i], pt), wanted)
                &&& crate::rtc::sdp::has_fmtp_line(out, pt)
            }
        }),
{
    let ls = crate::rtc::sdp::lines(sdp);
    lemma_lines(sdp);
    lemma_munged_lines(ls, stereo, max_avg_bitrate_bits);
    lemma_lines_of_flattened(
        crate::rtc::sdp::munged_lines(
            ls,
            crate::rtc::sdp::opus_params(stereo, max_avg_bitrate_bits),
        ),
    );
}

} // verus!
