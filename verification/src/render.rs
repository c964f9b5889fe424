//! The per-frame snapshot handed to the painter: the query and status lines
//! and, per mode, the visible slice of the match list or of the selected
//! note's body. The painter reports the terminal height before each frame;
//! a viewport too small for a query line, a status line and one content row
//! is a size failure.

use vstd::prelude::*;
use crate::state::Mode;
use crate::state::State;
use crate::state::ViewNotes;
use crate::text::split_body;

verus! {

/// One row of the listing: a note header and whether it is the selection.
pub struct Row {
    pub hdr: String,
    pub selected: bool,
}

/// What one frame shows besides the query and status lines.
pub enum FrameBody {
    Listing { rows: Vec<Row> },
    Viewing { hdr: String, body: Vec<String> },
}

/// An immutable snapshot of one frame.
pub struct Frame {
    pub cmd: String,
    pub msg: String,
    pub body: FrameBody,
}

/// The viewport cannot hold the query line, the status line and one content
/// row.
#[derive(Debug)]
pub struct RenderSizeError {
    pub height: u16,
}

/// The first visible match position: the window's start, or zero without a
/// window.
pub open spec fn first_visible(v: Option<ViewNotes>) -> int {
    match v {
        None => 0,
        Some(vn) => vn.first as int,
    }
}

/// How many listing rows a viewport with `vh` content rows shows from
/// position `first` of a match list of `len` entries.
pub open spec fn listing_rows(len: int, first: int, vh: int) -> int {
    vstd::math::min(vh, len - first)
}

/// How many body rows fit once the header and the blank line under it are
/// painted.
pub open spec fn body_budget(vh: int) -> int {
    vstd::math::max(vh - 2, 0)
}

impl State {
    /// Builds the snapshot for a terminal of `term_height` rows; two rows go
    /// to the query and status lines. Fails exactly when fewer than three
    /// rows are available.
    pub fn render_snapshot(&self, term_height: u16) -> (r: Result<Frame, RenderSizeError>)
        requires
            self.wf(),
        ensures
            r is Ok <==> term_height >= 3,
            r matches Err(e) ==> e.height == term_height,
            r matches Ok(f) ==> f.cmd@ == self.cmd@ && f.msg@ == self.msg@,
            self.mode is Command ==> (r matches Ok(f) ==> f.body matches FrameBody::Listing {
                rows,
            } && ({
                let first = first_visible(self.view_notes);
                let shown = listing_rows(
                    self.matched_notes@.len() as int,
                    first,
                    term_height - 2,
                );
                &&& rows@.len() == shown
                &&& forall|t: int|
                    0 <= t < shown ==> (#[trigger] rows@[t]).hdr@ == self.notes@[self.matched_notes@[
                        first + t
                    ] as int].hdr@
                &&& forall|t: int|
                    0 <= t < shown ==> ((#[trigger] rows@[t]).selected <==> (
                    self.view_notes matches Some(vn) && first + t == vn.selected))
            })),
            self.mode matches Mode::ShowNote { offset } ==> (r matches Ok(f)
                ==> f.body matches FrameBody::Viewing { hdr, body } && ({
                let sel = self.view_notes.unwrap().selected as int;
                let lines = self.current_body_lines();
                let start = vstd::math::min(offset as int, lines.len() as int);
                let cnt = vstd::math::min(lines.len() - start, body_budget(term_height - 2));
                &&& hdr@ == self.notes@[self.matched_notes@[sel] as int].hdr@
                &&& body.deep_view() == lines.subrange(start, start + cnt)
            })),
    {
        if term_height < 3 {
            return Err(RenderSizeError { height: term_height });
        }
        let reslines: usize = (term_height as usize) - 2;
        match self.mode {
            Mode::Command => {
                let first = match self.view_notes {
                    Some(vn) => vn.first,
                    None => 0,
                };
                let len = self.matched_notes.len();
                let avail = len - first;
                let shown = if reslines < avail {
                    reslines
                } else {
                    avail
                };
                let mut rows: Vec<Row> = Vec::new();
                let mut t: usize = 0;
                while t < shown
                    invariant
                        self.wf(),
                        len == self.matched_notes@.len(),
                        first + shown <= len,
                        first == first_visible(self.view_notes),
                        0 <= t <= shown,
                        rows@.len() == t,
                        forall|u: int|
                            0 <= u < t ==> (#[trigger] rows@[u]).hdr@ == self.notes@[self.matched_notes@[
                                first + u
                            ] as int].hdr@,
                        forall|u: int|
                            0 <= u < t ==> ((#[trigger] rows@[u]).selected <==> (
                            self.view_notes matches Some(vn) && first + u == vn.selected)),
                    decreases shown - t,
                {
                    let l = first + t;
                    let ni = self.matched_notes[l];
                    let is_sel = match self.view_notes {
                        Some(vn) => l == vn.selected,
                        None => false,
                    };
                    rows.push(Row { hdr: self.notes[ni].hdr.clone(), selected: is_sel });
                    t += 1;
                }
                Ok(Frame { cmd: self.cmd.clone(), msg: self.msg.clone(), body: (FrameBody::Listing {
                    rows,
                }) })
            },
            Mode::ShowNote { offset } => {
                match self.view_notes {
                    Some(vn) => {
                        let ni = self.matched_notes[vn.selected];
                        proof {
                            assert(self.matched_v()[vn.selected as int] == self.matched_notes@[vn.selected as int] as int);
                            assert(self.notes_v()[ni as int] == self.notes@[ni as int]@);
                        }
                        let note = &self.notes[ni];
                        let lines = split_body(note.txt.as_str());
                        let nlines = lines.len();
                        let start = if offset < nlines {
                            offset
                        } else {
                            nlines
                        };
                        let budget = if reslines >= 2 {
                            reslines - 2
                        } else {
                            0
                        };
                        let avail = nlines - start;
                        let cnt = if avail < budget {
                            avail
                        } else {
                            budget
                        };
                        let mut body: Vec<String> = Vec::new();
                        let mut t: usize = 0;
                        proof {
                            assert(body.deep_view() =~= lines.deep_view().subrange(
                                start as int,
                                start as int,
                            ));
                        }
                        while t < cnt
                            invariant
                                nlines == lines@.len(),
                                start + cnt <= nlines,
                                lines@.len() == lines.deep_view().len(),
                                0 <= t <= cnt,
                                body.deep_view() == lines.deep_view().subrange(
                                    start as int,
                                    start + t,
                                ),
                            decreases cnt - t,
                        {
                            let ghost before = body.deep_view();
                            body.push(lines[start + t].clone());
                            proof {
                                assert(lines.deep_view()[start + t] == lines@[start + t]@);
                                assert(body.deep_view() =~= before.push(
                                    lines.deep_view()[start + t],
                                ));
                                assert(before.push(lines.deep_view()[start + t])
                                    =~= lines.deep_view().subrange(start as int, start + t + 1));
                            }
                            t += 1;
                        }
                        Ok(Frame {
                            cmd: self.cmd.clone(),
                            msg: self.msg.clone(),
                            body: (FrameBody::Viewing { hdr: note.hdr.clone(), body }),
                        })
                    },
                    None => unreached(),
                }
            },
        }
    }
}

} // verus!
