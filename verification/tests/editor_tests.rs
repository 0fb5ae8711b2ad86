use nodera_desktop::editor::{cursor_position, editor_status};
use nodera_desktop::outline::{outline_headings, outline_jump, reading_outline_indent};

#[test]
fn cursor_positions_count_lines_and_columns() {
    let text = "ab\ncd\n\nxyz";
    assert_eq!(cursor_position(text, 0), (1, 1));
    assert_eq!(cursor_position(text, 2), (1, 3));
    assert_eq!(cursor_position(text, 3), (2, 1));
    assert_eq!(cursor_position(text, 7), (4, 1));
    assert_eq!(cursor_position(text, 9), (4, 3));
    assert_eq!(cursor_position(text, 100), (4, 4));
    assert_eq!(cursor_position("", 5), (1, 1));
    assert_eq!(cursor_position("é\nü", 3), (2, 2));
}

#[test]
fn status_line_shows_counts_position_and_saved_state() {
    let status = editor_status("Hello world\nsecond line", 14, true);
    assert_eq!(status.counts_text, "4 words · 23 chars");
    assert_eq!(status.position_text, "Ln 2, Col 3");
    assert_eq!((status.line, status.column), (2, 3));
    assert!(status.unsaved);
    let clean = editor_status("", 0, false);
    assert_eq!(clean.counts_text, "0 words · 0 chars");
    assert_eq!(clean.position_text, "Ln 1, Col 1");
    assert!(!clean.unsaved);
}

#[test]
fn outline_lists_atx_headings_in_order() {
    let text = "# Title\nintro #not\n## Part one ##\n#######seven\n###\n#nospace\n   # indented\n###### Six\n";
    let h = outline_headings(text);
    let got: Vec<(usize, &str, usize)> = h.iter().map(|x| (x.level, x.text.as_str(), x.offset)).collect();
    assert_eq!(
        got,
        vec![(1, "Title", 0), (2, "Part one ##", 19), (3, "", 47), (6, "Six", 74)]
    );
    assert!(outline_headings("no headings here").is_empty());
}

#[test]
fn outline_rows_jump_to_their_heading_line() {
    let text = "# A\ntext\n## B\n";
    let h = outline_headings(text);
    let offset = outline_jump(&h, 1).unwrap();
    assert_eq!(offset, 9);
    assert_eq!(cursor_position(text, offset), (3, 1));
    assert_eq!(outline_jump(&h, 2), None);
    assert_eq!(reading_outline_indent(1), 8);
    assert_eq!(reading_outline_indent(3), 32);
}
