//! The session state machine: the typed query, the match list the filter
//! engine computes from it, the scroll window over the matches, and the
//! two-mode dispatch of key events.

use vstd::prelude::*;
use crate::notes::Note;
use crate::notes::NoteV;
use crate::notes::parse_notes;
use crate::notes::parse_spec;
use crate::text::body_lines;
use crate::text::contains_sub;
use crate::text::is_substring;
use crate::text::lower_of;
use crate::text::lowercase;
use crate::text::split_body;
use crate::text::split_keywords;
use crate::text::tokens_of;

verus! {

/// The two modes of a session: typing keywords over the match list, or
/// reading the selected note, scrolled `offset` body lines from its top.
#[derive(Clone, Copy, Debug, PartialEq, Eq)]
pub enum Mode {
    Command,
    ShowNote { offset: usize },
}

/// The scroll window: the first visible entry and the selected entry, as
/// positions in the match list.
#[derive(Clone, Copy, Debug, PartialEq, Eq)]
pub struct ViewNotes {
    pub first: usize,
    pub selected: usize,
}

/// What the caller should do after a key was handled.
#[derive(Clone, Copy, Debug, PartialEq, Eq)]
pub enum Action {
    Continue,
    Quit,
}

/// A decoded key event, as the input source hands it to the session.
#[derive(Clone, Copy, Debug, PartialEq, Eq)]
pub enum Key {
    Esc,
    Enter,
    Char(char),
    Up,
    Down,
    Backspace,
    ClearLine,
    Other,
}

/// One session: the note store, the query, and everything derived from them.
pub struct State {
    pub cmd: String,
    pub msg: String,
    pub notes: Vec<Note>,
    pub matched_notes: Vec<usize>,
    pub view_notes: Option<ViewNotes>,
    pub mode: Mode,
}

/// The lowercased whitespace-separated keywords of a query.
pub open spec fn query_keywords(cmd: Seq<char>) -> Seq<Seq<char>> {
    tokens_of(cmd).map_values(|t: Seq<char>| lower_of(t))
}

/// Match-list entries as mathematical positions.
pub open spec fn positions_of(s: Seq<usize>) -> Seq<int> {
    s.map_values(|u: usize| u as int)
}

/// A note matches when every keyword occurs in its lowercased header or its
/// lowercased body.
pub open spec fn note_matches(n: NoteV, kws: Seq<Seq<char>>) -> bool {
    forall|i: int|
        0 <= i < kws.len() ==> is_substring(#[trigger] kws[i], lower_of(n.hdr)) || is_substring(
            kws[i],
            lower_of(n.txt),
        )
}

/// The positions of the matching notes among the first `n`, in order.
pub open spec fn filter_upto(notes: Seq<NoteV>, kws: Seq<Seq<char>>, n: int) -> Seq<int>
    decreases n,
{
    if n <= 0 {
        Seq::empty()
    } else {
        filter_upto(notes, kws, n - 1) + (if note_matches(notes[n - 1], kws) {
            seq![n - 1]
        } else {
            Seq::empty()
        })
    }
}

/// The match list of a query: positions of the matching notes, in their
/// original order.
pub open spec fn filter_spec(notes: Seq<NoteV>, kws: Seq<Seq<char>>) -> Seq<int> {
    filter_upto(notes, kws, notes.len() as int)
}

/// The scroll window rebuilt for a match list of `len` entries: at the top
/// when there is anything to select, absent otherwise.
pub open spec fn view_reset(len: int) -> Option<ViewNotes> {
    if len > 0 {
        Some(ViewNotes { first: 0, selected: 0 })
    } else {
        None
    }
}

/// One upward step of the scroll window: move the selection up, scrolling
/// when it already sits on the first visible row; at the very top, nothing.
pub open spec fn view_up(v: Option<ViewNotes>) -> Option<ViewNotes> {
    match v {
        None => None,
        Some(vn) => if vn.selected > vn.first {
            Some(ViewNotes { first: vn.first, selected: (vn.selected - 1) as usize })
        } else if vn.first > 0 {
            Some(ViewNotes { first: (vn.first - 1) as usize, selected: (vn.selected - 1) as usize })
        } else {
            v
        },
    }
}

/// One downward step of the scroll window over `len` matches with `vh`
/// visible rows: move the selection down, scrolling when it would leave the
/// window; on the last match, nothing.
pub open spec fn view_down(v: Option<ViewNotes>, len: int, vh: int) -> Option<ViewNotes> {
    match v {
        None => None,
        Some(vn) => if vn.selected + 1 == len {
            v
        } else {
            Some(
                ViewNotes {
                    first: (if vn.selected + 1 - vn.first == vh {
                        vn.first + 1
                    } else {
                        vn.first as int
                    }) as usize,
                    selected: (vn.selected + 1) as usize,
                },
            )
        },
    }
}

/// One upward step of the body scroll.
pub open spec fn offset_up(off: int) -> int {
    if off > 0 {
        off - 1
    } else {
        off
    }
}

/// One downward step of the body scroll over `nlines` body lines.
pub open spec fn offset_down(off: int, nlines: int) -> int {
    if off + 1 < nlines {
        off + 1
    } else {
        off
    }
}

/// The mode is reading a note, scrolled to `off`.
pub open spec fn is_viewing_at(m: Mode, off: int) -> bool {
    m matches Mode::ShowNote { offset } && offset == off
}

/// The state after an edit of the query: the match list recomputed from the
/// new query, the scroll window rebuilt, everything else kept.
pub open spec fn refiltered(o: State, f: State) -> bool {
    &&& f.notes == o.notes
    &&& f.msg == o.msg
    &&& f.mode == o.mode
    &&& f.matched_v() == filter_spec(o.notes_v(), query_keywords(f.cmd@))
    &&& f.view_notes == view_reset(f.matched_v().len() as int)
}

impl State {
    /// The notes as mathematical values.
    pub open spec fn notes_v(self) -> Seq<NoteV> {
        self.notes.deep_view()
    }

    /// The match list as mathematical positions.
    pub open spec fn matched_v(self) -> Seq<int> {
        positions_of(self.matched_notes@)
    }

    /// Every match-list entry is a position into the notes.
    pub open spec fn matched_ok(self) -> bool {
        forall|i: int|
            0 <= i < self.matched_notes@.len() ==> (#[trigger] self.matched_notes@[i])
                < self.notes@.len()
    }

    /// The scroll window, when present, lies inside the match list.
    pub open spec fn view_ok(self) -> bool {
        self.view_notes matches Some(vn) ==> vn.first <= vn.selected
            < self.matched_notes@.len()
    }

    /// Reading a note requires a selected match.
    pub open spec fn mode_ok(self) -> bool {
        self.mode is ShowNote ==> self.view_notes is Some
    }

    /// Session well-formedness, kept by every operation.
    pub open spec fn wf(self) -> bool {
        self.matched_ok() && self.view_ok() && self.mode_ok()
    }

    /// The body lines of the note selected for reading.
    pub open spec fn current_body_lines(self) -> Seq<Seq<char>>
        recommends
            self.view_notes is Some,
            self.wf(),
    {
        body_lines(self.notes_v()[self.matched_v()[self.view_notes.unwrap().selected as int]].txt)
    }

    /// Builds the session for a notes source: all notes matched (the query
    /// starts empty), the scroll window at the top when there are notes.
    pub fn new(lines: &Vec<String>) -> (st: State)
        ensures
            st.notes_v() == parse_spec(lines.deep_view()),
            st.cmd@ == Seq::<char>::empty(),
            st.msg@ == "Type keywords, and use arrows to select. <Esc> and q quit."@,
            st.matched_notes@.len() == st.notes_v().len(),
            forall|i: int|
                0 <= i < st.matched_notes@.len() ==> (#[trigger] st.matched_notes@[i]) as int
                    == i,
            st.view_notes == view_reset(st.notes_v().len() as int),
            st.mode is Command,
            st.wf(),
    {
        let notes = parse_notes(lines);
        let notes_nr = notes.len();
        let mut matched: Vec<usize> = Vec::new();
        let mut k: usize = 0;
        while k < notes_nr
            invariant
                0 <= k <= notes_nr,
                matched@.len() == k,
                forall|t: int| 0 <= t < k ==> (#[trigger] matched@[t]) as int == t,
            decreases notes_nr - k,
        {
            matched.push(k);
            k += 1;
        }
        let view_notes = if notes_nr > 0 {
            Some(ViewNotes { first: 0, selected: 0 })
        } else {
            None
        };
        State {
            cmd: String::new(),
            msg: String::from_str("Type keywords, and use arrows to select. <Esc> and q quit."),
            notes,
            matched_notes: matched,
            view_notes,
            mode: Mode::Command,
        }
    }

    /// Switches mode and puts up the matching status message.
    pub fn set_mode(&mut self, m: Mode)
        requires
            m is ShowNote ==> old(self).view_notes is Some,
        ensures
            final(self).mode == m,
            m is Command ==> final(self).msg@
                == "Type keywords, and use arrows to select. <Esc> quits."@,
            m is ShowNote ==> final(self).msg@ == "Arrows scroll. <Esc> returns to the list."@,
            final(self).cmd == old(self).cmd,
            final(self).notes == old(self).notes,
            final(self).matched_notes == old(self).matched_notes,
            final(self).view_notes == old(self).view_notes,
            old(self).wf() ==> final(self).wf(),
    {
        self.mode = m;
        match self.mode {
            Mode::Command => {
                self.msg = String::from_str(
                    "Type keywords, and use arrows to select. <Esc> quits.",
                );
            },
            Mode::ShowNote { .. } => {
                self.msg = String::from_str("Arrows scroll. <Esc> returns to the list.");
            },
        }
    }

    /// Rebuilds the scroll window for the current match list while listing;
    /// while reading a note the window is preserved.
    pub fn reset_view_notes(&mut self)
        ensures
            old(self).mode is Command ==> final(self).view_notes == view_reset(
                old(self).matched_notes@.len() as int,
            ),
            old(self).mode is ShowNote ==> final(self).view_notes == old(self).view_notes,
            final(self).cmd == old(self).cmd,
            final(self).msg == old(self).msg,
            final(self).notes == old(self).notes,
            final(self).matched_notes == old(self).matched_notes,
            final(self).mode == old(self).mode,
            old(self).mode is Command && old(self).matched_ok() ==> final(self).wf(),
            old(self).wf() ==> final(self).wf(),
    {
        match self.mode {
            Mode::Command => {
                if self.matched_notes.len() > 0 {
                    self.view_notes = Some(ViewNotes { first: 0, selected: 0 });
                } else {
                    self.view_notes = None;
                }
            },
            Mode::ShowNote { .. } => {},
        }
    }

    /// Recomputes the match list from the current query: a note stays iff
    /// every keyword of the query occurs in its lowercased header or body.
    pub fn filter_notes(&mut self)
        ensures
            final(self).matched_v() == filter_spec(
                old(self).notes_v(),
                query_keywords(old(self).cmd@),
            ),
            final(self).matched_ok(),
            final(self).cmd == old(self).cmd,
            final(self).msg == old(self).msg,
            final(self).notes == old(self).notes,
            final(self).view_notes == old(self).view_notes,
            final(self).mode == old(self).mode,
    {
        let ghost cmd0 = self.cmd@;
        let toks = split_keywords(self.cmd.as_str());
        let mut kws: Vec<String> = Vec::new();
        let tn = toks.len();
        let mut k: usize = 0;
        proof {
            assert(kws.deep_view() =~= query_keywords(cmd0).take(0));
        }
        while k < tn
            invariant
                tn == toks.len(),
                0 <= k <= tn,
                toks.deep_view() == tokens_of(cmd0),
                kws.deep_view() == query_keywords(cmd0).take(k as int),
            decreases tn - k,
        {
            let ghost before = kws.deep_view();
            let lc = lowercase(toks[k].as_str());
            kws.push(lc);
            proof {
                assert(toks.deep_view()[k as int] == toks[k as int]@);
                assert(kws.deep_view() =~= before.push(lower_of(tokens_of(cmd0)[k as int])));
                assert(before.push(lower_of(tokens_of(cmd0)[k as int])) =~= query_keywords(
                    cmd0,
                ).take(k + 1));
            }
            k += 1;
        }
        proof {
            assert(query_keywords(cmd0).take(tn as int) =~= query_keywords(cmd0));
        }
        let n = self.notes.len();
        let mut matched: Vec<usize> = Vec::new();
        let mut i: usize = 0;
        proof {
            assert(positions_of(matched@) =~= filter_upto(
                self.notes.deep_view(),
                kws.deep_view(),
                0,
            ));
        }
        while i < n
            invariant
                n == self.notes.len(),
                0 <= i <= n,
                self.notes == old(self).notes,
                kws.deep_view() == query_keywords(cmd0),
                positions_of(matched@) == filter_upto(
                    self.notes.deep_view(),
                    kws.deep_view(),
                    i as int,
                ),
                forall|t: int| 0 <= t < matched@.len() ==> #[trigger] matched@[t] < n,
            decreases n - i,
        {
            let ghost before = positions_of(matched@);
            let ok = keywords_match(&self.notes[i], &kws);
            proof {
                assert(self.notes[i as int]@ == self.notes.deep_view()[i as int]);
            }
            if ok {
                matched.push(i);
                proof {
                    assert(positions_of(matched@) =~= before + seq![i as int]);
                }
            } else {
                proof {
                    assert(before + Seq::<int>::empty() =~= before);
                }
            }
            i += 1;
        }
        self.matched_notes = matched;
    }

    /// Moves the selection one match up, scrolling as `view_up` says.
    pub fn prev_result(&mut self)
        requires
            old(self).wf(),
        ensures
            final(self).wf(),
            final(self).view_notes == view_up(old(self).view_notes),
            final(self).cmd == old(self).cmd,
            final(self).msg == old(self).msg,
            final(self).notes == old(self).notes,
            final(self).matched_notes == old(self).matched_notes,
            final(self).mode == old(self).mode,
            old(self).view_notes matches Some(vn) && vn.first == 0 && vn.selected == 0
                ==> *final(self) == *old(self),
    {
        match self.view_notes {
            Some(vn) => {
                if vn.selected > vn.first {
                    self.view_notes = Some(
                        ViewNotes { first: vn.first, selected: vn.selected - 1 },
                    );
                } else if vn.first > 0 {
                    self.view_notes = Some(
                        ViewNotes { first: vn.first - 1, selected: vn.selected - 1 },
                    );
                }
            },
            None => {},
        }
    }

    /// Moves the selection one match down over a window of `viewport_height`
    /// rows, scrolling as `view_down` says.
    pub fn next_result(&mut self, viewport_height: usize)
        requires
            old(self).wf(),
            viewport_height >= 1,
        ensures
            final(self).wf(),
            final(self).view_notes == view_down(
                old(self).view_notes,
                old(self).matched_notes@.len() as int,
                viewport_height as int,
            ),
            final(self).cmd == old(self).cmd,
            final(self).msg == old(self).msg,
            final(self).notes == old(self).notes,
            final(self).matched_notes == old(self).matched_notes,
            final(self).mode == old(self).mode,
            old(self).view_notes matches Some(vn) && vn.selected + 1
                == old(self).matched_notes@.len() ==> *final(self) == *old(self),
    {
        let len = self.matched_notes.len();
        match self.view_notes {
            Some(vn) => {
                if vn.selected + 1 == len {
                    return ;
                }
                let selected = vn.selected + 1;
                let first = if selected - vn.first == viewport_height {
                    vn.first + 1
                } else {
                    vn.first
                };
                self.view_notes = Some(ViewNotes { first, selected });
            },
            None => {},
        }
    }
}

impl State {
    /// Runtime well-formedness test, for unverified callers that must
    /// establish `wf` before calling into the session.
    pub fn is_wf(&self) -> (r: bool)
        ensures
            r == self.wf(),
    {
        let n = self.notes.len();
        let m = self.matched_notes.len();
        let mut i: usize = 0;
        while i < m
            invariant
                n == self.notes@.len(),
                m == self.matched_notes@.len(),
                0 <= i <= m,
                forall|t: int| 0 <= t < i ==> (#[trigger] self.matched_notes@[t]) < n,
            decreases m - i,
        {
            if self.matched_notes[i] >= n {
                assert(!self.matched_ok());
                return false;
            }
            i += 1;
        }
        let view_ok = match self.view_notes {
            Some(vn) => vn.first <= vn.selected && vn.selected < m,
            None => true,
        };
        if !view_ok {
            return false;
        }
        match self.mode {
            Mode::ShowNote { .. } => self.view_notes.is_some(),
            Mode::Command => true,
        }
    }

    /// Routes one key event: while listing, Escape quits, Enter opens the
    /// selected note, arrows move the selection, and edits of the query
    /// recompute the match list and rebuild the scroll window; while reading
    /// a note, Escape returns to the list, arrows scroll the body, and
    /// everything else is ignored.
    pub fn handle_key(&mut self, key: Key, viewport_height: usize) -> (act: Action)
        requires
            old(self).wf(),
            viewport_height >= 1,
        ensures
            final(self).wf(),
            final(self).notes == old(self).notes,
            act is Quit <==> (key is Esc && old(self).mode is Command),
            key is Esc && old(self).mode is Command ==> *final(self) == *old(self),
            key is Esc && old(self).mode is ShowNote ==> final(self).mode is Command
                && final(self).msg@ == "Type keywords, and use arrows to select. <Esc> quits."@
                && final(self).cmd == old(self).cmd && final(self).matched_notes == old(self).matched_notes && final(self).view_notes == old(self).view_notes,
            key is Enter && old(self).mode is Command && old(self).view_notes is Some
                ==> is_viewing_at(final(self).mode, 0) && final(self).msg@
                == "Arrows scroll. <Esc> returns to the list."@ && final(self).cmd == old(self).cmd
                && final(self).matched_notes == old(self).matched_notes && final(self).view_notes
                == old(self).view_notes,
            key is Enter && old(self).mode is Command && old(self).view_notes is None ==> *final(self) == *old(self),
            key is Enter && old(self).mode is ShowNote ==> *final(self) == *old(self),
            key matches Key::Char(c) ==> (old(self).mode is Command ==> final(self).cmd@ == old(self).cmd@.push(c) && refiltered(*old(self), *final(self))),
            key is Char && old(self).mode is ShowNote ==> *final(self) == *old(self),
            key is Up && old(self).mode is Command ==> final(self).view_notes == view_up(
                old(self).view_notes,
            ) && final(self).cmd == old(self).cmd && final(self).msg == old(self).msg && final(self).matched_notes == old(self).matched_notes && final(self).mode == old(self).mode,
            key is Down && old(self).mode is Command ==> final(self).view_notes == view_down(
                old(self).view_notes,
                old(self).matched_notes@.len() as int,
                viewport_height as int,
            ) && final(self).cmd == old(self).cmd && final(self).msg == old(self).msg && final(self).matched_notes == old(self).matched_notes && final(self).mode == old(self).mode,
            key is Up ==> (old(self).mode matches Mode::ShowNote { offset } ==> is_viewing_at(
                final(self).mode,
                offset_up(offset as int),
            ) && final(self).cmd == old(self).cmd && final(self).msg == old(self).msg && final(self).matched_notes == old(self).matched_notes && final(self).view_notes == old(self).view_notes),
            key is Down ==> (old(self).mode matches Mode::ShowNote { offset } ==> is_viewing_at(
                final(self).mode,
                offset_down(offset as int, old(self).current_body_lines().len() as int),
            ) && final(self).cmd == old(self).cmd && final(self).msg == old(self).msg && final(self).matched_notes == old(self).matched_notes && final(self).view_notes == old(self).view_notes),
            key is Backspace && old(self).mode is Command ==> final(self).cmd@ == (if old(self).cmd@.len() > 0 {
                old(self).cmd@.drop_last()
            } else {
                old(self).cmd@
            }) && refiltered(*old(self), *final(self)),
            key is Backspace && old(self).mode is ShowNote ==> *final(self) == *old(self),
            key is ClearLine && old(self).mode is Command ==> final(self).cmd@
                == Seq::<char>::empty() && refiltered(*old(self), *final(self)),
            key is ClearLine && old(self).mode is ShowNote ==> *final(self) == *old(self),
            key is Other ==> *final(self) == *old(self),
    {
        match key {
            Key::Esc => {
                match self.mode {
                    Mode::Command => Action::Quit,
                    Mode::ShowNote { .. } => {
                        self.set_mode(Mode::Command);
                        Action::Continue
                    },
                }
            },
            Key::Enter => {
                match self.mode {
                    Mode::Command => {
                        if self.view_notes.is_some() {
                            self.set_mode(Mode::ShowNote { offset: 0 });
                        }
                    },
                    Mode::ShowNote { .. } => {},
                }
                Action::Continue
            },
            Key::Char(c) => {
                match self.mode {
                    Mode::Command => {
                        push_char(&mut self.cmd, c);
                        self.filter_notes();
                        self.reset_view_notes();
                    },
                    Mode::ShowNote { .. } => {},
                }
                Action::Continue
            },
            Key::Up => {
                match self.mode {
                    Mode::Command => {
                        self.prev_result();
                    },
                    Mode::ShowNote { offset } => {
                        if offset > 0 {
                            self.mode = Mode::ShowNote { offset: offset - 1 };
                        }
                    },
                }
                Action::Continue
            },
            Key::Down => {
                match self.mode {
                    Mode::Command => {
                        self.next_result(viewport_height);
                    },
                    Mode::ShowNote { offset } => {
                        match self.view_notes {
                            Some(vn) => {
                                let ni = self.matched_notes[vn.selected];
                                proof {
                                    assert(self.matched_v()[vn.selected as int]
                                        == self.matched_notes@[vn.selected as int] as int);
                                    assert(self.notes_v()[ni as int] == self.notes@[ni as int]@);
                                }
                                let lines = split_body(self.notes[ni].txt.as_str());
                                let nlines = lines.len();
                                if nlines > 0 && offset < nlines - 1 {
                                    self.mode = Mode::ShowNote { offset: offset + 1 };
                                }
                            },
                            None => {},
                        }
                    },
                }
                Action::Continue
            },
            Key::Backspace => {
                match self.mode {
                    Mode::Command => {
                        let l = self.cmd.as_str().unicode_len();
                        if l > 0 {
                            let shorter = String::from_str(
                                self.cmd.as_str().substring_char(0, l - 1),
                            );
                            self.cmd = shorter;
                            proof {
                                assert(self.cmd@ =~= old(self).cmd@.drop_last());
                            }
                        }
                        self.filter_notes();
                        self.reset_view_notes();
                    },
                    Mode::ShowNote { .. } => {},
                }
                Action::Continue
            },
            Key::ClearLine => {
                match self.mode {
                    Mode::Command => {
                        self.cmd = String::new();
                        self.filter_notes();
                        self.reset_view_notes();
                    },
                    Mode::ShowNote { .. } => {},
                }
                Action::Continue
            },
            Key::Other => Action::Continue,
        }
    }
}

/// Relies on `String::push`: appends one character at the end.
#[verifier::external_body]
fn push_char(s: &mut String, c: char)
    ensures
        final(s)@ == old(s)@.push(c),
{
    s.push(c);
}

/// Every keyword occurs in the note's lowercased header or body.
fn keywords_match(note: &Note, kws: &Vec<String>) -> (r: bool)
    ensures
        r == note_matches(note@, kws.deep_view()),
{
    let hdr_lc = lowercase(note.hdr.as_str());
    let txt_lc = lowercase(note.txt.as_str());
    let m = kws.len();
    let mut j: usize = 0;
    while j < m
        invariant
            m == kws.len(),
            0 <= j <= m,
            hdr_lc@ == lower_of(note.hdr@),
            txt_lc@ == lower_of(note.txt@),
            forall|t: int|
                0 <= t < j ==> is_substring(#[trigger] kws.deep_view()[t], lower_of(note@.hdr))
                    || is_substring(kws.deep_view()[t], lower_of(note@.txt)),
        decreases m - j,
    {
        proof {
            assert(kws.deep_view()[j as int] == kws[j as int]@);
        }
        let in_hdr = contains_sub(hdr_lc.as_str(), kws[j].as_str());
        if !in_hdr {
            let in_txt = contains_sub(txt_lc.as_str(), kws[j].as_str());
            if !in_txt {
                assert(!(is_substring(kws.deep_view()[j as int], lower_of(note@.hdr))
                    || is_substring(kws.deep_view()[j as int], lower_of(note@.txt))));
                return false;
            }
        }
        j += 1;
    }
    true
}

} // verus!
