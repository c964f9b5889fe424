//! Character and string primitives the filter engine is built on: whitespace
//! classification, substring search, keyword tokenization, line splitting,
//! and lowercasing.

use vstd::prelude::*;

verus! {

/// The characters with the Unicode `White_Space` property: what separates a
/// query into keywords.
pub open spec fn is_ws_char(c: char) -> bool {
    c == ' ' || c == '\t' || c == '\n' || c == '\u{0b}' || c == '\u{0c}' || c == '\r'
        || c == '\u{85}' || c == '\u{a0}' || c == '\u{1680}'
        || c == '\u{2000}' || c == '\u{2001}' || c == '\u{2002}' || c == '\u{2003}'
        || c == '\u{2004}' || c == '\u{2005}' || c == '\u{2006}' || c == '\u{2007}'
        || c == '\u{2008}' || c == '\u{2009}' || c == '\u{200a}'
        || c == '\u{2028}' || c == '\u{2029}' || c == '\u{202f}' || c == '\u{205f}'
        || c == '\u{3000}'
}

/// Whitespace test, equivalent to the `White_Space` list above.
pub fn is_whitespace_char(c: char) -> (r: bool)
    ensures
        r == is_ws_char(c),
{
    c == ' ' || c == '\t' || c == '\n' || c == '\u{0b}' || c == '\u{0c}' || c == '\r'
        || c == '\u{85}' || c == '\u{a0}' || c == '\u{1680}'
        || c == '\u{2000}' || c == '\u{2001}' || c == '\u{2002}' || c == '\u{2003}'
        || c == '\u{2004}' || c == '\u{2005}' || c == '\u{2006}' || c == '\u{2007}'
        || c == '\u{2008}' || c == '\u{2009}' || c == '\u{200a}'
        || c == '\u{2028}' || c == '\u{2029}' || c == '\u{202f}' || c == '\u{205f}'
        || c == '\u{3000}'
}

/// `needle` occurs contiguously somewhere in `hay` (the empty sequence occurs
/// everywhere).
pub open spec fn is_substring(needle: Seq<char>, hay: Seq<char>) -> bool {
    exists|i: int|
        0 <= i && i + needle.len() <= hay.len() && #[trigger] hay.subrange(i, i + needle.len())
            == needle
}

/// `needle` matches `hay` at position `i` exactly.
fn matches_at(hay: &str, needle: &str, i: usize) -> (r: bool)
    requires
        i + needle@.len() <= hay@.len(),
    ensures
        r == (hay@.subrange(i as int, i + needle@.len()) == needle@),
{
    let n = hay.unicode_len();
    let m = needle.unicode_len();
    let mut j: usize = 0;
    while j < m
        invariant
            n == hay@.len(),
            m == needle@.len(),
            i + m <= n,
            0 <= j <= m,
            forall|t: int| 0 <= t < j ==> hay@[i + t] == needle@[t],
        decreases m - j,
    {
        if hay.get_char(i + j) != needle.get_char(j) {
            assert(hay@.subrange(i as int, i + needle@.len())[j as int] != needle@[j as int]);
            return false;
        }
        j += 1;
    }
    assert(hay@.subrange(i as int, i + needle@.len()) =~= needle@);
    true
}

/// Substring search: whether `needle`, read as a character sequence, occurs
/// in `hay`.
pub fn contains_sub(hay: &str, needle: &str) -> (r: bool)
    ensures
        r == is_substring(needle@, hay@),
{
    let n = hay.unicode_len();
    let m = needle.unicode_len();
    if m > n {
        assert(!is_substring(needle@, hay@));
        return false;
    }
    let mut i: usize = 0;
    loop
        invariant
            n == hay@.len(),
            m == needle@.len(),
            m <= n,
            0 <= i <= n - m,
            forall|k: int|
                0 <= k < i ==> #[trigger] hay@.subrange(k, k + needle@.len()) != needle@,
        decreases n - m - i,
    {
        if matches_at(hay, needle, i) {
            return true;
        }
        if i == n - m {
            assert(forall|k: int|
                0 <= k && k + needle@.len() <= hay@.len() ==> #[trigger] hay@.subrange(
                    k,
                    k + needle@.len(),
                ) != needle@);
            return false;
        }
        i += 1;
    }
}

/// Keywords of `s` after the pending partial keyword `cur`: maximal runs of
/// non-whitespace characters, in order.
pub open spec fn tokens_acc(s: Seq<char>, cur: Seq<char>) -> Seq<Seq<char>>
    decreases s.len(),
{
    if s.len() == 0 {
        if cur.len() > 0 {
            seq![cur]
        } else {
            Seq::empty()
        }
    } else if is_ws_char(s[0]) {
        if cur.len() > 0 {
            seq![cur] + tokens_acc(s.drop_first(), Seq::empty())
        } else {
            tokens_acc(s.drop_first(), Seq::empty())
        }
    } else {
        tokens_acc(s.drop_first(), cur.push(s[0]))
    }
}

/// The whitespace-separated keywords of `s`, in order.
pub open spec fn tokens_of(s: Seq<char>) -> Seq<Seq<char>> {
    tokens_acc(s, Seq::empty())
}

/// Splits a string into its whitespace-separated keywords.
pub fn split_keywords(s: &str) -> (toks: Vec<String>)
    ensures
        toks.deep_view() == tokens_of(s@),
{
    let n = s.unicode_len();
    let mut toks: Vec<String> = Vec::new();
    let mut start: usize = 0;
    let mut i: usize = 0;
    proof {
        assert(s@.subrange(0, n as int) =~= s@);
        assert(s@.subrange(0, 0) =~= Seq::<char>::empty());
        assert(toks.deep_view() =~= Seq::<Seq<char>>::empty());
        assert(Seq::<Seq<char>>::empty() + tokens_of(s@) =~= tokens_of(s@));
    }
    while i < n
        invariant
            n == s@.len(),
            0 <= start <= i <= n,
            toks.deep_view() + tokens_acc(
                s@.subrange(i as int, n as int),
                s@.subrange(start as int, i as int),
            ) == tokens_of(s@),
        decreases n - i,
    {
        let ghost rest = s@.subrange(i as int, n as int);
        let ghost cur = s@.subrange(start as int, i as int);
        proof {
            assert(rest[0] == s@[i as int]);
            assert(rest.drop_first() =~= s@.subrange(i + 1, n as int));
        }
        let c = s.get_char(i);
        if is_whitespace_char(c) {
            if start < i {
                let tok = String::from_str(s.substring_char(start, i));
                let ghost old_toks = toks.deep_view();
                toks.push(tok);
                proof {
                    assert(toks.deep_view() =~= old_toks.push(cur));
                    assert(old_toks.push(cur) =~= old_toks + seq![cur]);
                }
            }
            start = i + 1;
            proof {
                assert(s@.subrange(start as int, i + 1) =~= Seq::<char>::empty());
            }
        } else {
            proof {
                assert(s@.subrange(start as int, i + 1) =~= cur.push(s@[i as int]));
            }
        }
        i += 1;
    }
    proof {
        assert(s@.subrange(n as int, n as int) =~= Seq::<char>::empty());
    }
    if start < n {
        let tok = String::from_str(s.substring_char(start, n));
        let ghost old_toks = toks.deep_view();
        toks.push(tok);
        proof {
            assert(toks.deep_view() =~= old_toks + seq![s@.subrange(start as int, n as int)]);
        }
    }
    toks
}

/// The lines of `s` after the pending partial line `cur`: pieces separated by
/// `'\n'`, empty pieces kept, so `n` separators give `n + 1` lines.
pub open spec fn lines_acc(s: Seq<char>, cur: Seq<char>) -> Seq<Seq<char>>
    decreases s.len(),
{
    if s.len() == 0 {
        seq![cur]
    } else if s[0] == '\n' {
        seq![cur] + lines_acc(s.drop_first(), Seq::empty())
    } else {
        lines_acc(s.drop_first(), cur.push(s[0]))
    }
}

/// The `'\n'`-separated lines of `s`; the empty string has one empty line.
pub open spec fn split_lines_of(s: Seq<char>) -> Seq<Seq<char>> {
    lines_acc(s, Seq::empty())
}

/// The lines of a note body: none for an empty body, its `'\n'`-separated
/// pieces otherwise.
pub open spec fn body_lines(txt: Seq<char>) -> Seq<Seq<char>> {
    if txt.len() == 0 {
        Seq::empty()
    } else {
        split_lines_of(txt)
    }
}

/// Splits a string into its `'\n'`-separated lines, empty pieces kept.
pub fn split_lines(s: &str) -> (lines: Vec<String>)
    ensures
        lines.deep_view() == split_lines_of(s@),
{
    let n = s.unicode_len();
    let mut lines: Vec<String> = Vec::new();
    let mut start: usize = 0;
    let mut i: usize = 0;
    proof {
        assert(s@.subrange(0, n as int) =~= s@);
        assert(s@.subrange(0, 0) =~= Seq::<char>::empty());
        assert(lines.deep_view() =~= Seq::<Seq<char>>::empty());
        assert(Seq::<Seq<char>>::empty() + split_lines_of(s@) =~= split_lines_of(s@));
    }
    while i < n
        invariant
            n == s@.len(),
            0 <= start <= i <= n,
            lines.deep_view() + lines_acc(
                s@.subrange(i as int, n as int),
                s@.subrange(start as int, i as int),
            ) == split_lines_of(s@),
        decreases n - i,
    {
        let ghost rest = s@.subrange(i as int, n as int);
        let ghost cur = s@.subrange(start as int, i as int);
        proof {
            assert(rest[0] == s@[i as int]);
            assert(rest.drop_first() =~= s@.subrange(i + 1, n as int));
        }
        let c = s.get_char(i);
        if c == '\n' {
            let piece = String::from_str(s.substring_char(start, i));
            let ghost old_lines = lines.deep_view();
            lines.push(piece);
            proof {
                assert(lines.deep_view() =~= old_lines + seq![cur]);
            }
            start = i + 1;
            proof {
                assert(s@.subrange(start as int, i + 1) =~= Seq::<char>::empty());
            }
        } else {
            proof {
                assert(s@.subrange(start as int, i + 1) =~= cur.push(s@[i as int]));
            }
        }
        i += 1;
    }
    proof {
        assert(s@.subrange(n as int, n as int) =~= Seq::<char>::empty());
    }
    let piece = String::from_str(s.substring_char(start, n));
    let ghost old_lines = lines.deep_view();
    lines.push(piece);
    proof {
        assert(lines.deep_view() =~= old_lines + seq![s@.subrange(start as int, n as int)]);
    }
    lines
}

/// The lines joined back into one string, `'\n'` between them.
pub open spec fn join_lines(ls: Seq<Seq<char>>) -> Seq<char>
    decreases ls.len(),
{
    if ls.len() == 0 {
        Seq::empty()
    } else if ls.len() == 1 {
        ls[0]
    } else {
        ls[0] + seq!['\n'] + join_lines(ls.drop_first())
    }
}

/// Splitting always yields at least one line.
pub proof fn lemma_lines_acc_nonempty(s: Seq<char>, cur: Seq<char>)
    ensures
        lines_acc(s, cur).len() >= 1,
    decreases s.len(),
{
    if s.len() != 0 && s[0] != '\n' {
        lemma_lines_acc_nonempty(s.drop_first(), cur.push(s[0]));
    }
}

/// Joining what splitting produced restores the pending line followed by the
/// rest of the string.
pub proof fn lemma_join_lines_acc(s: Seq<char>, cur: Seq<char>)
    ensures
        join_lines(lines_acc(s, cur)) == cur + s,
    decreases s.len(),
{
    if s.len() == 0 {
        assert(cur + s =~= cur);
    } else if s[0] == '\n' {
        let rest = s.drop_first();
        lemma_join_lines_acc(rest, Seq::empty());
        lemma_lines_acc_nonempty(rest, Seq::empty());
        let ls = seq![cur] + lines_acc(rest, Seq::empty());
        assert(ls.len() >= 2);
        assert(ls[0] == cur);
        assert(ls.drop_first() =~= lines_acc(rest, Seq::empty()));
        assert(Seq::<char>::empty() + rest =~= rest);
        assert(cur + seq!['\n'] + rest =~= cur + s);
    } else {
        lemma_join_lines_acc(s.drop_first(), cur.push(s[0]));
        assert(cur.push(s[0]) + s.drop_first() =~= cur + s);
    }
}

/// A string is recovered from its `'\n'`-separated lines.
pub proof fn lemma_join_split(s: Seq<char>)
    ensures
        join_lines(split_lines_of(s)) == s,
{
    lemma_join_lines_acc(s, Seq::empty());
    assert(Seq::<char>::empty() + s =~= s);
}

/// Splits a note body into the lines a viewer scrolls through: none when the
/// body is empty.
pub fn split_body(txt: &str) -> (lines: Vec<String>)
    ensures
        lines.deep_view() == body_lines(txt@),
{
    if txt.unicode_len() == 0 {
        let lines: Vec<String> = Vec::new();
        assert(lines.deep_view() =~= body_lines(txt@));
        lines
    } else {
        split_lines(txt)
    }
}

/// The lowercase form of a character sequence, as `str::to_lowercase`
/// computes it; it depends on the characters alone.
pub uninterp spec fn lower_of(s: Seq<char>) -> Seq<char>;

/// Relies on `str::to_lowercase`: returns the lowercase equivalent of the
/// string, a function of its characters alone.
#[verifier::external_body]
pub fn lowercase(s: &str) -> (r: String)
    ensures
        r@ == lower_of(s@),
{
    s.to_lowercase()
}

} // verus!
