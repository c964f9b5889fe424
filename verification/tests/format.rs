use sammy_notes::notes::parse_notes;
use sammy_notes::notes::serialize_notes;

fn lines_of(v: &[&str]) -> Vec<String> {
    v.iter().map(|s| s.to_string()).collect()
}

#[test]
fn parse_two_notes() {
    let lines = lines_of(&["A", "body1", "%", "B", "body2a", "body2b", "%"]);
    let notes = parse_notes(&lines);
    assert_eq!(notes.len(), 2);
    assert_eq!(notes[0].hdr, "A");
    assert_eq!(notes[0].txt, "body1");
    assert_eq!(notes[1].hdr, "B");
    assert_eq!(notes[1].txt, "body2a\nbody2b");
}

#[test]
fn parse_ignores_blanks_and_comments() {
    let lines = lines_of(&["# a comment", "", "A", "# inside", "x", "", "y", "%"]);
    let notes = parse_notes(&lines);
    assert_eq!(notes.len(), 1);
    assert_eq!(notes[0].hdr, "A");
    assert_eq!(notes[0].txt, "x\ny");
}

#[test]
fn parse_emits_trailing_note_without_separator() {
    let lines = lines_of(&["A", "b"]);
    let notes = parse_notes(&lines);
    assert_eq!(notes.len(), 1);
    assert_eq!(notes[0].hdr, "A");
    assert_eq!(notes[0].txt, "b");
}

#[test]
fn parse_drops_empty_note_between_separators() {
    let lines = lines_of(&["%", "%", "A", "%", "%"]);
    let notes = parse_notes(&lines);
    assert_eq!(notes.len(), 1);
    assert_eq!(notes[0].hdr, "A");
    assert_eq!(notes[0].txt, "");
}

#[test]
fn parse_note_with_empty_body() {
    let lines = lines_of(&["just a header", "%"]);
    let notes = parse_notes(&lines);
    assert_eq!(notes.len(), 1);
    assert_eq!(notes[0].hdr, "just a header");
    assert_eq!(notes[0].txt, "");
}

#[test]
fn serialize_note_with_empty_body() {
    let notes = parse_notes(&lines_of(&["only header", "%"]));
    let lines = serialize_notes(&notes);
    assert_eq!(lines, vec!["only header".to_string(), "%".to_string()]);
}

#[test]
fn serialize_then_parse_round_trip() {
    let original = lines_of(&["A", "body1", "%", "B", "body2a", "body2b", "%", "C", "%"]);
    let notes = parse_notes(&original);
    let written = serialize_notes(&notes);
    let reparsed = parse_notes(&written);
    assert_eq!(notes.len(), reparsed.len());
    for (a, b) in notes.iter().zip(reparsed.iter()) {
        assert_eq!(a.hdr, b.hdr);
        assert_eq!(a.txt, b.txt);
    }
}
