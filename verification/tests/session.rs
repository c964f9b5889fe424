use sammy_notes::render::FrameBody;
use sammy_notes::state::Action;
use sammy_notes::state::Key;
use sammy_notes::state::Mode;
use sammy_notes::state::State;
use sammy_notes::state::ViewNotes;

fn lines_of(v: &[&str]) -> Vec<String> {
    v.iter().map(|s| s.to_string()).collect()
}

fn ten_notes() -> State {
    let mut lines: Vec<String> = Vec::new();
    for i in 0..10 {
        lines.push(format!("note {}", i));
        lines.push(format!("body {}", i));
        lines.push("%".to_string());
    }
    State::new(&lines)
}

fn type_query(st: &mut State, q: &str) {
    for c in q.chars() {
        assert!(st.is_wf());
        let act = st.handle_key(Key::Char(c), 5);
        assert_eq!(act, Action::Continue);
    }
}

#[test]
fn new_session_matches_all_in_order() {
    let st = ten_notes();
    assert!(st.is_wf());
    assert_eq!(st.cmd, "");
    assert_eq!(st.matched_notes, (0..10).collect::<Vec<usize>>());
    assert_eq!(st.view_notes, Some(ViewNotes { first: 0, selected: 0 }));
    assert_eq!(st.mode, Mode::Command);
}

#[test]
fn empty_store_has_no_window() {
    let st = State::new(&Vec::new());
    assert!(st.is_wf());
    assert!(st.matched_notes.is_empty());
    assert_eq!(st.view_notes, None);
}

#[test]
fn absent_keyword_empties_matches_and_window() {
    let mut st = ten_notes();
    type_query(&mut st, "xyz-not-present");
    assert!(st.matched_notes.is_empty());
    assert_eq!(st.view_notes, None);
}

#[test]
fn filter_is_case_insensitive_both_ways() {
    let lines = lines_of(&["Apple Pie", "with Cinnamon", "%", "rye bread", "plain", "%"]);
    let mut st = State::new(&lines);
    type_query(&mut st, "APPLE");
    assert_eq!(st.matched_notes, vec![0]);
    let mut st2 = State::new(&lines);
    type_query(&mut st2, "cinnamon");
    assert_eq!(st2.matched_notes, vec![0]);
}

#[test]
fn whitespace_only_query_matches_all() {
    let mut st = ten_notes();
    type_query(&mut st, "  \t ");
    assert_eq!(st.cmd, "  \t ");
    assert_eq!(st.matched_notes, (0..10).collect::<Vec<usize>>());
}

#[test]
fn filter_needs_every_keyword() {
    let lines = lines_of(&["alpha", "beta", "%", "alpha", "gamma", "%"]);
    let mut st = State::new(&lines);
    type_query(&mut st, "alpha gamma");
    assert_eq!(st.matched_notes, vec![1]);
}

#[test]
fn keyword_found_in_body_matches() {
    let lines = lines_of(&["first", "needle here", "%", "second", "nothing", "%"]);
    let mut st = State::new(&lines);
    type_query(&mut st, "needle");
    assert_eq!(st.matched_notes, vec![0]);
}

#[test]
fn backspace_on_empty_query_recomputes_all() {
    let mut st = ten_notes();
    let act = st.handle_key(Key::Backspace, 5);
    assert_eq!(act, Action::Continue);
    assert_eq!(st.cmd, "");
    assert_eq!(st.matched_notes, (0..10).collect::<Vec<usize>>());
    assert_eq!(st.view_notes, Some(ViewNotes { first: 0, selected: 0 }));
}

#[test]
fn backspace_removes_last_char_and_refilters() {
    let mut st = ten_notes();
    type_query(&mut st, "note 3x");
    assert!(st.matched_notes.is_empty());
    st.handle_key(Key::Backspace, 5);
    assert_eq!(st.cmd, "note 3");
    assert_eq!(st.matched_notes, vec![3]);
}

#[test]
fn clear_line_restores_all_matches() {
    let mut st = ten_notes();
    type_query(&mut st, "note 7");
    assert_eq!(st.matched_notes, vec![7]);
    st.handle_key(Key::ClearLine, 5);
    assert_eq!(st.cmd, "");
    assert_eq!(st.matched_notes.len(), 10);
}

#[test]
fn move_down_scrolls_when_window_fills() {
    let mut st = ten_notes();
    for _ in 0..4 {
        st.next_result(5);
    }
    assert_eq!(st.view_notes, Some(ViewNotes { first: 0, selected: 4 }));
    st.next_result(5);
    assert_eq!(st.view_notes, Some(ViewNotes { first: 1, selected: 5 }));
}

#[test]
fn move_down_stops_on_last_match() {
    let mut st = ten_notes();
    for _ in 0..20 {
        st.next_result(5);
    }
    assert_eq!(st.view_notes, Some(ViewNotes { first: 5, selected: 9 }));
    st.next_result(5);
    assert_eq!(st.view_notes, Some(ViewNotes { first: 5, selected: 9 }));
}

#[test]
fn move_up_stops_at_top() {
    let mut st = ten_notes();
    st.next_result(5);
    st.prev_result();
    assert_eq!(st.view_notes, Some(ViewNotes { first: 0, selected: 0 }));
    st.prev_result();
    assert_eq!(st.view_notes, Some(ViewNotes { first: 0, selected: 0 }));
}

#[test]
fn move_up_scrolls_at_window_top() {
    let mut st = ten_notes();
    for _ in 0..6 {
        st.next_result(5);
    }
    assert_eq!(st.view_notes, Some(ViewNotes { first: 2, selected: 6 }));
    for _ in 0..4 {
        st.prev_result();
    }
    assert_eq!(st.view_notes, Some(ViewNotes { first: 2, selected: 2 }));
    st.prev_result();
    assert_eq!(st.view_notes, Some(ViewNotes { first: 1, selected: 1 }));
}

#[test]
fn query_matches_are_a_subset_of_all_matches() {
    let mut st = ten_notes();
    let all: Vec<usize> = st.matched_notes.clone();
    type_query(&mut st, "5");
    assert_eq!(st.matched_notes, vec![5]);
    for i in &st.matched_notes {
        assert!(all.contains(i));
    }
}

#[test]
fn window_stays_valid_under_any_move_sequence() {
    let mut st = ten_notes();
    let moves = [1, 1, 0, 1, 0, 0, 1, 1, 1, 1, 1, 0, 1, 1, 1, 1, 0, 0];
    for &d in moves.iter() {
        let key = if d == 1 { Key::Down } else { Key::Up };
        st.handle_key(key, 4);
        assert!(st.is_wf());
        if let Some(vn) = st.view_notes {
            assert!(vn.first <= vn.selected);
            assert!(vn.selected < st.matched_notes.len());
            assert!(vn.selected - vn.first < 4);
        }
    }
}

#[test]
fn escape_quits_while_listing() {
    let mut st = ten_notes();
    let act = st.handle_key(Key::Esc, 5);
    assert_eq!(act, Action::Quit);
}

#[test]
fn enter_opens_and_escape_returns() {
    let mut st = ten_notes();
    let act = st.handle_key(Key::Enter, 5);
    assert_eq!(act, Action::Continue);
    assert_eq!(st.mode, Mode::ShowNote { offset: 0 });
    assert_eq!(st.msg, "Arrows scroll. <Esc> returns to the list.");
    let act = st.handle_key(Key::Esc, 5);
    assert_eq!(act, Action::Continue);
    assert_eq!(st.mode, Mode::Command);
    assert_eq!(st.msg, "Type keywords, and use arrows to select. <Esc> quits.");
}

#[test]
fn enter_without_matches_stays_listing() {
    let mut st = State::new(&Vec::new());
    let act = st.handle_key(Key::Enter, 5);
    assert_eq!(act, Action::Continue);
    assert_eq!(st.mode, Mode::Command);
}

#[test]
fn body_scroll_moves_within_bounds() {
    let lines = lines_of(&["hdr", "l0", "l1", "l2", "%"]);
    let mut st = State::new(&lines);
    st.handle_key(Key::Enter, 5);
    st.handle_key(Key::Down, 5);
    assert_eq!(st.mode, Mode::ShowNote { offset: 1 });
    st.handle_key(Key::Down, 5);
    assert_eq!(st.mode, Mode::ShowNote { offset: 2 });
    st.handle_key(Key::Down, 5);
    assert_eq!(st.mode, Mode::ShowNote { offset: 2 });
    st.handle_key(Key::Up, 5);
    st.handle_key(Key::Up, 5);
    assert_eq!(st.mode, Mode::ShowNote { offset: 0 });
    st.handle_key(Key::Up, 5);
    assert_eq!(st.mode, Mode::ShowNote { offset: 0 });
}

#[test]
fn typing_while_reading_changes_nothing() {
    let mut st = ten_notes();
    st.handle_key(Key::Enter, 5);
    st.handle_key(Key::Char('q'), 5);
    assert_eq!(st.cmd, "");
    assert_eq!(st.matched_notes.len(), 10);
    assert_eq!(st.mode, Mode::ShowNote { offset: 0 });
}

#[test]
fn render_fails_below_three_rows() {
    let st = ten_notes();
    match st.render_snapshot(2) {
        Err(e) => assert_eq!(e.height, 2),
        Ok(_) => panic!("a two-row terminal must be refused"),
    }
}

#[test]
fn render_listing_shows_window_slice() {
    let mut st = ten_notes();
    st.next_result(3);
    let frame = st.render_snapshot(5).unwrap();
    assert_eq!(frame.cmd, "");
    match frame.body {
        FrameBody::Listing { rows } => {
            assert_eq!(rows.len(), 3);
            assert_eq!(rows[0].hdr, "note 0");
            assert_eq!(rows[1].hdr, "note 1");
            assert_eq!(rows[2].hdr, "note 2");
            assert!(!rows[0].selected);
            assert!(rows[1].selected);
            assert!(!rows[2].selected);
        },
        FrameBody::Viewing { .. } => panic!("listing mode must render a listing"),
    }
}

#[test]
fn render_viewing_shows_scrolled_body() {
    let lines = lines_of(&["hdr", "l0", "l1", "l2", "l3", "%"]);
    let mut st = State::new(&lines);
    st.handle_key(Key::Enter, 5);
    st.handle_key(Key::Down, 5);
    let frame = st.render_snapshot(6).unwrap();
    match frame.body {
        FrameBody::Viewing { hdr, body } => {
            assert_eq!(hdr, "hdr");
            assert_eq!(body, vec!["l1".to_string(), "l2".to_string()]);
        },
        FrameBody::Listing { .. } => panic!("viewing mode must render the note"),
    }
}
