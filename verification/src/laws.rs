//! The laws this library stands by: how the filter engine relates queries to
//! match lists, how the scroll window keeps its invariant, and that the
//! separator format carries notes faithfully both ways.

use vstd::prelude::*;
use crate::notes::NoteV;
use crate::notes::empty_note;
use crate::notes::is_ignored_line;
use crate::notes::is_sep_line;
use crate::notes::note_lines;
use crate::notes::parse_acc;
use crate::notes::parse_spec;
use crate::notes::serialize_from;
use crate::notes::serialize_spec;
use crate::state::ViewNotes;
use crate::state::filter_spec;
use crate::state::filter_upto;
use crate::state::note_matches;
use crate::state::query_keywords;
use crate::state::view_down;
use crate::state::view_reset;
use crate::state::view_up;
use crate::text::body_lines;
use crate::text::is_substring;
use crate::text::is_ws_char;
use crate::text::join_lines;
use crate::text::lemma_join_split;
use crate::text::lemma_lines_acc_nonempty;
use crate::text::lower_of;
use crate::text::tokens_acc;
use crate::text::tokens_of;

verus! {

/// A position is in the match list of the first `n` notes exactly when it
/// is below `n` and its note matches the keywords.
pub proof fn lemma_filter_upto_contains(notes: Seq<NoteV>, kws: Seq<Seq<char>>, n: int, i: int)
    requires
        0 <= n <= notes.len(),
    ensures
        filter_upto(notes, kws, n).contains(i) <==> (0 <= i < n && note_matches(notes[i], kws)),
    decreases n,
{
    if n > 0 {
        lemma_filter_upto_contains(notes, kws, n - 1, i);
        let a = filter_upto(notes, kws, n - 1);
        let b: Seq<int> = if note_matches(notes[n - 1], kws) {
            seq![n - 1]
        } else {
            Seq::empty()
        };
        assert(filter_upto(notes, kws, n) == a + b);
        if (a + b).contains(i) {
            let j = choose|j: int| 0 <= j < (a + b).len() && (a + b)[j] == i;
            if j < a.len() {
                assert(a[j] == i);
                assert(a.contains(i));
            } else {
                assert(b[j - a.len()] == i);
                assert(i == n - 1 && note_matches(notes[n - 1], kws));
            }
        }
        if 0 <= i < n && note_matches(notes[i], kws) {
            if i < n - 1 {
                let j = choose|j: int| 0 <= j < a.len() && a[j] == i;
                assert((a + b)[j] == i);
            } else {
                assert((a + b)[a.len() as int] == i);
            }
        }
    }
}

/// When every note matches, the match list is every position in order.
proof fn lemma_filter_all_match(notes: Seq<NoteV>, kws: Seq<Seq<char>>, n: int)
    requires
        0 <= n <= notes.len(),
        forall|i: int| 0 <= i < notes.len() ==> note_matches(#[trigger] notes[i], kws),
    ensures
        filter_upto(notes, kws, n).len() == n,
        forall|i: int| 0 <= i < n ==> #[trigger] filter_upto(notes, kws, n)[i] == i,
    decreases n,
{
    if n > 0 {
        lemma_filter_all_match(notes, kws, n - 1);
        assert(note_matches(notes[n - 1], kws));
    }
}

/// The empty query matches every note, in the original order.
pub proof fn lemma_empty_query_matches_all(notes: Seq<NoteV>)
    ensures
        filter_spec(notes, query_keywords(Seq::empty())).len() == notes.len(),
        forall|i: int|
            0 <= i < notes.len() ==> #[trigger] filter_spec(notes, query_keywords(Seq::empty()))[i]
                == i,
{
    assert(tokens_of(Seq::empty()) =~= Seq::<Seq<char>>::empty());
    assert(query_keywords(Seq::empty()) =~= Seq::<Seq<char>>::empty());
    lemma_filter_all_match(notes, query_keywords(Seq::empty()), notes.len() as int);
}

/// Whatever the query, its matches are among the empty query's matches.
pub proof fn lemma_filter_subset_of_all(notes: Seq<NoteV>, cmd: Seq<char>)
    ensures
        forall|i: int|
            #[trigger] filter_spec(notes, query_keywords(cmd)).contains(i) ==> filter_spec(
                notes,
                query_keywords(Seq::empty()),
            ).contains(i),
{
    assert forall|i: int|
        #[trigger] filter_spec(notes, query_keywords(cmd)).contains(i) implies filter_spec(
        notes,
        query_keywords(Seq::empty()),
    ).contains(i) by {
        lemma_filter_upto_contains(notes, query_keywords(cmd), notes.len() as int, i);
        lemma_filter_upto_contains(notes, query_keywords(Seq::empty()), notes.len() as int, i);
        assert(query_keywords(Seq::empty()) =~= Seq::<Seq<char>>::empty());
        assert(note_matches(notes[i], query_keywords(Seq::empty())));
    }
}

/// A string without whitespace is its own single keyword.
proof fn lemma_tokens_all_nonws(s: Seq<char>, cur: Seq<char>)
    requires
        forall|j: int| 0 <= j < s.len() ==> !is_ws_char(#[trigger] s[j]),
    ensures
        tokens_acc(s, cur) == if cur.len() + s.len() > 0 {
            seq![cur + s]
        } else {
            Seq::<Seq<char>>::empty()
        },
    decreases s.len(),
{
    if s.len() == 0 {
        assert(cur + s =~= cur);
        if cur.len() > 0 {
            assert(tokens_acc(s, cur) =~= seq![cur + s]);
        }
    } else {
        assert(forall|j: int|
            0 <= j < s.drop_first().len() ==> !is_ws_char(#[trigger] s.drop_first()[j]));
        lemma_tokens_all_nonws(s.drop_first(), cur.push(s[0]));
        assert(cur.push(s[0]) + s.drop_first() =~= cur + s);
        assert(tokens_acc(s, cur) =~= seq![cur + s]);
    }
}

/// A keyword — non-empty, without whitespace — that occurs in a note's
/// lowercased header or body puts that note in the keyword's match list.
pub proof fn lemma_keyword_finds_note(notes: Seq<NoteV>, k: Seq<char>, i: int)
    requires
        0 <= i < notes.len(),
        k.len() > 0,
        forall|j: int| 0 <= j < k.len() ==> !is_ws_char(#[trigger] k[j]),
    ensures
        is_substring(lower_of(k), lower_of(notes[i].hdr)) || is_substring(
            lower_of(k),
            lower_of(notes[i].txt),
        ) ==> filter_spec(notes, query_keywords(k)).contains(i),
{
    lemma_tokens_all_nonws(k, Seq::empty());
    assert(Seq::<char>::empty() + k =~= k);
    assert(tokens_of(k) == seq![k]);
    assert(query_keywords(k) =~= seq![lower_of(k)]);
    if is_substring(lower_of(k), lower_of(notes[i].hdr)) || is_substring(
        lower_of(k),
        lower_of(notes[i].txt),
    ) {
        assert(note_matches(notes[i], query_keywords(k))) by {
            assert(query_keywords(k)[0] == lower_of(k));
        }
        lemma_filter_upto_contains(notes, query_keywords(k), notes.len() as int, i);
    }
}

/// A scroll window that lies inside a match list of `len` entries and shows
/// its selection within `vh` rows.
pub open spec fn view_valid(v: Option<ViewNotes>, len: int, vh: int) -> bool {
    match v {
        None => true,
        Some(vn) => vn.first <= vn.selected < len && vn.selected - vn.first < vh,
    }
}

/// The scroll-window invariant: with at least one visible row, rebuilding
/// the window and moving it up or down each keep it valid, so it stays valid
/// under any sequence of those operations.
pub proof fn lemma_view_window_invariant(v: Option<ViewNotes>, len: int, vh: int)
    requires
        vh >= 1,
        len <= usize::MAX,
        view_valid(v, len, vh),
    ensures
        view_valid(view_reset(len), len, vh),
        view_valid(view_up(v), len, vh),
        view_valid(view_down(v, len, vh), len, vh),
{
}

/// Moving the selection down when it already sits on the last match changes
/// nothing, however often it is repeated.
pub proof fn lemma_move_down_noop_at_end(v: Option<ViewNotes>, len: int, vh: int)
    requires
        v matches Some(vn) ==> vn.selected + 1 == len,
    ensures
        view_down(v, len, vh) == v,
{
}

/// Moving the selection up when the window sits at the very top changes
/// nothing, however often it is repeated.
pub proof fn lemma_move_up_noop_at_top(v: Option<ViewNotes>)
    requires
        v matches Some(vn) ==> vn.first == 0 && vn.selected == 0,
    ensures
        view_up(v) == v,
{
}

/// A note the separator format can carry: a non-empty header that is neither
/// a comment nor a separator, and body lines that are non-empty and neither
/// comments nor separators.
pub open spec fn round_trippable(n: NoteV) -> bool {
    &&& n.hdr.len() > 0
    &&& !is_ignored_line(n.hdr)
    &&& !is_sep_line(n.hdr)
    &&& forall|i: int|
        0 <= i < body_lines(n.txt).len() ==> ((#[trigger] body_lines(n.txt)[i]).len() > 0
            && !is_ignored_line(body_lines(n.txt)[i]) && !is_sep_line(body_lines(n.txt)[i]))
}

/// The body text a parse accumulates after `txt`, fed the lines `ps`.
pub open spec fn extend_body(txt: Seq<char>, ps: Seq<Seq<char>>) -> Seq<char>
    decreases ps.len(),
{
    if ps.len() == 0 {
        txt
    } else if txt.len() == 0 {
        extend_body(ps[0], ps.drop_first())
    } else {
        extend_body(txt + seq!['\n'] + ps[0], ps.drop_first())
    }
}

/// Accumulating body lines onto a non-empty text joins them with `'\n'`.
proof fn lemma_extend_body_join(txt: Seq<char>, ps: Seq<Seq<char>>)
    requires
        txt.len() > 0,
    ensures
        extend_body(txt, ps) == join_lines(seq![txt] + ps),
    decreases ps.len(),
{
    let ls = seq![txt] + ps;
    if ps.len() == 0 {
        assert(ls.len() == 1);
        assert(ls[0] == txt);
    } else {
        let txt2 = txt + seq!['\n'] + ps[0];
        lemma_extend_body_join(txt2, ps.drop_first());
        let ls2 = seq![txt2] + ps.drop_first();
        assert(ls.len() >= 2);
        assert(ls[0] == txt);
        assert(ls.drop_first() =~= ps);
        if ps.len() == 1 {
            assert(ls2.len() == 1);
            assert(join_lines(ls2) == txt2);
            assert(join_lines(ls) == txt + seq!['\n'] + join_lines(ps));
            assert(join_lines(ps) == ps[0]);
        } else {
            assert(ls2.len() >= 2);
            assert(ls2[0] == txt2);
            assert(ls2.drop_first() =~= ps.drop_first());
            assert(join_lines(ls2) == txt2 + seq!['\n'] + join_lines(ps.drop_first()));
            assert(join_lines(ls) == txt + seq!['\n'] + join_lines(ps));
            assert(join_lines(ps) == ps[0] + seq!['\n'] + join_lines(ps.drop_first()));
            assert(txt2 + seq!['\n'] + join_lines(ps.drop_first()) =~= txt + seq!['\n'] + (ps[0]
                + seq!['\n'] + join_lines(ps.drop_first())));
        }
    }
}

/// A parse that accumulated a body from a note's own non-empty body lines
/// restores the body.
proof fn lemma_extend_body_restores(txt: Seq<char>)
    requires
        forall|i: int| 0 <= i < body_lines(txt).len() ==> (#[trigger] body_lines(txt)[i]).len() > 0,
    ensures
        extend_body(Seq::empty(), body_lines(txt)) == txt,
{
    let ps = body_lines(txt);
    if txt.len() == 0 {
        assert(ps.len() == 0);
    } else {
        lemma_lines_acc_nonempty(txt, Seq::empty());
        assert(ps.len() >= 1);
        assert(ps[0].len() > 0);
        assert(extend_body(Seq::empty(), ps) == extend_body(ps[0], ps.drop_first()));
        lemma_extend_body_join(ps[0], ps.drop_first());
        assert(seq![ps[0]] + ps.drop_first() =~= ps);
        lemma_join_split(txt);
    }
}

/// Parsing a pending note's body lines, a separator, and a tail emits the
/// pending note — its body extended by those lines — and parses the tail
/// afresh.
proof fn lemma_parse_body(ps: Seq<Seq<char>>, hdr: Seq<char>, txt: Seq<char>, tail: Seq<Seq<char>>)
    requires
        hdr.len() > 0,
        forall|i: int|
            0 <= i < ps.len() ==> ((#[trigger] ps[i]).len() > 0 && !is_ignored_line(ps[i])
                && !is_sep_line(ps[i])),
    ensures
        parse_acc(ps + seq![seq!['%']] + tail, (NoteV { hdr, txt })) == seq![
            (NoteV { hdr, txt: extend_body(txt, ps) }),
        ] + parse_acc(tail, empty_note()),
    decreases ps.len(),
{
    let lines = ps + seq![seq!['%']] + tail;
    if ps.len() == 0 {
        assert(lines[0] =~= seq!['%']);
        assert(is_sep_line(lines[0]));
        assert(!is_ignored_line(lines[0]));
        assert(lines.drop_first() =~= tail);
    } else {
        let line = ps[0];
        assert(lines[0] == line);
        assert(lines.drop_first() =~= ps.drop_first() + seq![seq!['%']] + tail);
        let txt2 = if txt.len() == 0 {
            line
        } else {
            txt + seq!['\n'] + line
        };
        assert(forall|i: int|
            0 <= i < ps.drop_first().len() ==> ((#[trigger] ps.drop_first()[i]).len() > 0
                && !is_ignored_line(ps.drop_first()[i]) && !is_sep_line(ps.drop_first()[i])));
        lemma_parse_body(ps.drop_first(), hdr, txt2, tail);
        assert(extend_body(txt, ps) == extend_body(txt2, ps.drop_first()));
    }
}

/// From any starting position, parsing the serialized remainder yields the
/// remaining notes.
proof fn lemma_round_trip_from(notes: Seq<NoteV>, i: int)
    requires
        0 <= i <= notes.len(),
        forall|j: int| 0 <= j < notes.len() ==> round_trippable(#[trigger] notes[j]),
    ensures
        parse_acc(serialize_from(notes, i), empty_note()) == notes.skip(i),
    decreases notes.len() - i,
{
    if i == notes.len() {
        assert(parse_acc(serialize_from(notes, i), empty_note()) =~= notes.skip(i));
    } else {
        let n = notes[i];
        let tail = serialize_from(notes, i + 1);
        let lines = serialize_from(notes, i);
        assert(lines == note_lines(n) + tail);
        assert(lines[0] == n.hdr);
        assert(lines.drop_first() =~= body_lines(n.txt) + seq![seq!['%']] + tail);
        lemma_parse_body(body_lines(n.txt), n.hdr, Seq::empty(), tail);
        lemma_extend_body_restores(n.txt);
        assert((NoteV { hdr: n.hdr, txt: extend_body(Seq::empty(), body_lines(n.txt)) }) == n);
        lemma_round_trip_from(notes, i + 1);
        assert(parse_acc(lines, empty_note()) =~= seq![n] + notes.skip(i + 1));
        assert(seq![n] + notes.skip(i + 1) =~= notes.skip(i));
    }
}

/// Writing notes out in the separator format and parsing the lines back
/// yields the same notes.
pub proof fn lemma_parse_serialize_round_trip(notes: Seq<NoteV>)
    requires
        forall|i: int| 0 <= i < notes.len() ==> round_trippable(#[trigger] notes[i]),
    ensures
        parse_spec(serialize_spec(notes)) == notes,
{
    lemma_round_trip_from(notes, 0);
    assert(notes.skip(0) =~= notes);
}

} // verus!
