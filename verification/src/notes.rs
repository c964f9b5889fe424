//! The note store and its line-oriented source format: blank lines and
//! `#`-comments are ignored, a line holding only `%` separates notes, the
//! first line of a note is its header and the remaining lines are its body.

use vstd::prelude::*;
use crate::text::body_lines;
use crate::text::split_body;

verus! {

/// A note: a one-line header and a multi-line body.
pub struct Note {
    pub hdr: String,
    pub txt: String,
}

/// The mathematical content of a note.
pub ghost struct NoteV {
    pub hdr: Seq<char>,
    pub txt: Seq<char>,
}

impl View for Note {
    type V = NoteV;

    open spec fn view(&self) -> NoteV {
        NoteV { hdr: self.hdr@, txt: self.txt@ }
    }
}

impl DeepView for Note {
    type V = NoteV;

    open spec fn deep_view(&self) -> NoteV {
        self@
    }
}

/// A note with nothing collected yet.
pub open spec fn empty_note() -> NoteV {
    NoteV { hdr: Seq::empty(), txt: Seq::empty() }
}

/// A separator line: exactly `%`.
pub open spec fn is_sep_line(line: Seq<char>) -> bool {
    line.len() == 1 && line[0] == '%'
}

/// A line the parser ignores: empty, or a `#`-comment.
pub open spec fn is_ignored_line(line: Seq<char>) -> bool {
    line.len() == 0 || line[0] == '#'
}

/// The notes of `lines` when a partially collected note `cur` is pending.
/// A pending note is emitted at a separator, or at the end of the input,
/// only if its header is non-empty; body lines are joined with `'\n'`.
pub open spec fn parse_acc(lines: Seq<Seq<char>>, cur: NoteV) -> Seq<NoteV>
    decreases lines.len(),
{
    if lines.len() == 0 {
        if cur.hdr.len() > 0 {
            seq![cur]
        } else {
            Seq::empty()
        }
    } else {
        let line = lines[0];
        let rest = lines.drop_first();
        if is_ignored_line(line) {
            parse_acc(rest, cur)
        } else if is_sep_line(line) {
            if cur.hdr.len() > 0 {
                seq![cur] + parse_acc(rest, empty_note())
            } else {
                parse_acc(rest, cur)
            }
        } else if cur.hdr.len() == 0 {
            parse_acc(rest, NoteV { hdr: line, txt: cur.txt })
        } else if cur.txt.len() > 0 {
            parse_acc(rest, NoteV { hdr: cur.hdr, txt: cur.txt + seq!['\n'] + line })
        } else {
            parse_acc(rest, NoteV { hdr: cur.hdr, txt: line })
        }
    }
}

/// The notes denoted by a sequence of source lines.
pub open spec fn parse_spec(lines: Seq<Seq<char>>) -> Seq<NoteV> {
    parse_acc(lines, empty_note())
}

/// Parses source lines into notes, as `parse_spec` describes.
pub fn parse_notes(lines: &Vec<String>) -> (notes: Vec<Note>)
    ensures
        notes.deep_view() == parse_spec(lines.deep_view()),
{
    let mut note_hdr: String = String::new();
    let mut note_txt: String = String::new();
    let mut ret: Vec<Note> = Vec::new();
    let n = lines.len();
    let mut i: usize = 0;
    proof {
        assert(lines.deep_view().subrange(0, n as int) =~= lines.deep_view());
        assert(ret.deep_view() =~= Seq::<NoteV>::empty());
        assert(Seq::<NoteV>::empty() + parse_spec(lines.deep_view()) =~= parse_spec(
            lines.deep_view(),
        ));
    }
    while i < n
        invariant
            n == lines.len(),
            0 <= i <= n,
            ret.deep_view() + parse_acc(
                lines.deep_view().subrange(i as int, n as int),
                NoteV { hdr: note_hdr@, txt: note_txt@ },
            ) == parse_spec(lines.deep_view()),
        decreases n - i,
    {
        let ghost rest = lines.deep_view().subrange(i as int, n as int);
        let ghost cur = NoteV { hdr: note_hdr@, txt: note_txt@ };
        proof {
            assert(rest[0] == lines.deep_view()[i as int]);
            assert(rest.drop_first() =~= lines.deep_view().subrange(i + 1, n as int));
        }
        let line = &lines[i];
        if line.as_str().unicode_len() == 0 || line.as_str().get_char(0) == '#' {
            // ignored line
        } else if line.as_str().unicode_len() == 1 && line.as_str().get_char(0) == '%' {
            if note_hdr.as_str().unicode_len() > 0 {
                let ghost old_ret = ret.deep_view();
                ret.push(Note { hdr: note_hdr, txt: note_txt });
                note_hdr = String::new();
                note_txt = String::new();
                proof {
                    assert(ret.deep_view() =~= old_ret + seq![cur]);
                    assert(old_ret + (seq![cur] + parse_acc(rest.drop_first(), empty_note()))
                        =~= (old_ret + seq![cur]) + parse_acc(rest.drop_first(), empty_note()));
                }
            }
        } else if note_hdr.as_str().unicode_len() == 0 {
            note_hdr = line.clone();
        } else {
            if note_txt.as_str().unicode_len() > 0 {
                proof {
                    reveal_strlit("\n");
                }
                note_txt.append("\n");
                note_txt.append(line.as_str());
                proof {
                    assert(note_txt@ =~= cur.txt + seq!['\n'] + rest[0]);
                }
            } else {
                note_txt.append(line.as_str());
                proof {
                    assert(note_txt@ =~= rest[0]);
                }
            }
        }
        i += 1;
    }
    proof {
        assert(lines.deep_view().subrange(n as int, n as int) =~= Seq::<Seq<char>>::empty());
    }
    if note_hdr.as_str().unicode_len() > 0 {
        let ghost old_ret = ret.deep_view();
        let ghost cur = NoteV { hdr: note_hdr@, txt: note_txt@ };
        ret.push(Note { hdr: note_hdr, txt: note_txt });
        proof {
            assert(ret.deep_view() =~= old_ret + seq![cur]);
        }
    }
    ret
}

/// The source lines of one note: its header, its body lines, a separator.
pub open spec fn note_lines(n: NoteV) -> Seq<Seq<char>> {
    seq![n.hdr] + body_lines(n.txt) + seq![seq!['%']]
}

/// The source lines of the notes from index `i` on.
pub open spec fn serialize_from(notes: Seq<NoteV>, i: int) -> Seq<Seq<char>>
    decreases notes.len() - i,
{
    if i < 0 || i >= notes.len() {
        Seq::empty()
    } else {
        note_lines(notes[i]) + serialize_from(notes, i + 1)
    }
}

/// The source lines denoting a sequence of notes.
pub open spec fn serialize_spec(notes: Seq<NoteV>) -> Seq<Seq<char>> {
    serialize_from(notes, 0)
}

/// Writes notes back out as source lines, as `serialize_spec` describes.
pub fn serialize_notes(notes: &Vec<Note>) -> (lines: Vec<String>)
    ensures
        lines.deep_view() == serialize_spec(notes.deep_view()),
{
    let mut lines: Vec<String> = Vec::new();
    let n = notes.len();
    let mut i: usize = 0;
    proof {
        assert(lines.deep_view() =~= Seq::<Seq<char>>::empty());
        assert(Seq::<Seq<char>>::empty() + serialize_spec(notes.deep_view()) =~= serialize_spec(
            notes.deep_view(),
        ));
    }
    while i < n
        invariant
            n == notes.len(),
            0 <= i <= n,
            lines.deep_view() + serialize_from(notes.deep_view(), i as int) == serialize_spec(
                notes.deep_view(),
            ),
        decreases n - i,
    {
        let ghost base = lines.deep_view();
        let ghost nv = notes.deep_view()[i as int];
        let note = &notes[i];
        lines.push(note.hdr.clone());
        proof {
            assert(lines.deep_view() =~= base + seq![nv.hdr]);
        }
        let body = split_body(note.txt.as_str());
        let m = body.len();
        let mut j: usize = 0;
        while j < m
            invariant
                m == body.len(),
                0 <= j <= m,
                body.deep_view() == body_lines(nv.txt),
                lines.deep_view() == base + seq![nv.hdr] + body_lines(nv.txt).take(j as int),
            decreases m - j,
        {
            let ghost before = lines.deep_view();
            lines.push(body[j].clone());
            proof {
                assert(body.deep_view()[j as int] == body[j as int]@);
                assert(lines.deep_view() =~= before.push(body_lines(nv.txt)[j as int]));
                assert(before.push(body_lines(nv.txt)[j as int]) =~= base + seq![nv.hdr]
                    + body_lines(nv.txt).take(j + 1));
            }
            j += 1;
        }
        proof {
            reveal_strlit("%");
            assert("%"@ =~= seq!['%']);
        }
        lines.push(String::from_str("%"));
        proof {
            assert(body_lines(nv.txt).take(m as int) =~= body_lines(nv.txt));
            assert(lines.deep_view() =~= (base + seq![nv.hdr] + body_lines(nv.txt)) + seq![
                seq!['%'],
            ]);
            assert((base + seq![nv.hdr] + body_lines(nv.txt)) + seq![seq!['%']] =~= base
                + note_lines(nv));
            assert(base + (note_lines(nv) + serialize_from(notes.deep_view(), i + 1)) =~= (base
                + note_lines(nv)) + serialize_from(notes.deep_view(), i + 1));
        }
        i += 1;
    }
    lines
}

} // verus!
