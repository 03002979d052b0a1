use med::renderer::{trim_line_end, visible_line};
use med::{Cursor, Editor, KeyInput, Mode, View};

#[test]
fn cursor_starts_at_origin() {
    let c = Cursor::new();
    assert_eq!(c.get_position_as_tuple(), (0, 0));
}

#[test]
fn view_resize_keeps_offset() {
    let mut v = View::new();
    assert_eq!((v.width(), v.height()), (0, 0));
    v.dy = 7;
    v.resize(80, 24);
    assert_eq!((v.width(), v.height()), (80, 24));
    assert_eq!(v.dy, 7);
}

#[test]
fn adjust_offset_scrolls_down_to_cursor() {
    let mut v = View::new();
    v.resize(80, 10);
    let c = Cursor { x: 0, y: 25 };
    v.adjust_offset(&c);
    assert_eq!(v.dy, 16);
}

#[test]
fn adjust_offset_scrolls_up_to_cursor() {
    let mut v = View::new();
    v.resize(80, 10);
    v.dy = 20;
    let c = Cursor { x: 0, y: 5 };
    v.adjust_offset(&c);
    assert_eq!(v.dy, 5);
}

#[test]
fn adjust_offset_leaves_visible_cursor_alone() {
    let mut v = View::new();
    v.resize(80, 10);
    v.dy = 3;
    let c = Cursor { x: 0, y: 8 };
    v.adjust_offset(&c);
    assert_eq!(v.dy, 3);
}

// line lengths as a rope reports them: each line counts its newline, and
// a trailing newline yields one final empty line
fn doc_lines() -> Vec<usize> {
    // "hello\nhi\n\nlast" -> ["hello\n", "hi\n", "\n", "last"]
    vec![6, 3, 1, 4]
}

#[test]
fn right_stays_within_line() {
    let mut e = Editor::new();
    e.handle_key(KeyInput::Right, &doc_lines());
    assert_eq!(e.cursor, Cursor { x: 1, y: 0 });
}

#[test]
fn right_at_line_end_wraps_to_next_line() {
    let mut e = Editor::new();
    e.cursor = Cursor { x: 5, y: 0 };
    e.handle_key(KeyInput::Right, &doc_lines());
    assert_eq!(e.cursor, Cursor { x: 0, y: 1 });
}

#[test]
fn right_at_document_end_stays_put() {
    let mut e = Editor::new();
    e.cursor = Cursor { x: 3, y: 3 };
    e.handle_key(KeyInput::Right, &doc_lines());
    assert_eq!(e.cursor, Cursor { x: 3, y: 3 });
}

#[test]
fn left_within_line_steps_back() {
    let mut e = Editor::new();
    e.cursor = Cursor { x: 2, y: 1 };
    e.handle_key(KeyInput::Left, &doc_lines());
    assert_eq!(e.cursor, Cursor { x: 1, y: 1 });
}

#[test]
fn left_at_line_start_goes_to_previous_line_end() {
    let mut e = Editor::new();
    e.cursor = Cursor { x: 0, y: 1 };
    e.handle_key(KeyInput::Left, &doc_lines());
    assert_eq!(e.cursor, Cursor { x: 5, y: 0 });
}

#[test]
fn left_at_origin_stays_put() {
    let mut e = Editor::new();
    e.handle_key(KeyInput::Left, &doc_lines());
    assert_eq!(e.cursor, Cursor { x: 0, y: 0 });
}

#[test]
fn up_clamps_column_to_shorter_line() {
    let mut e = Editor::new();
    e.cursor = Cursor { x: 3, y: 3 };
    e.handle_key(KeyInput::Up, &doc_lines());
    assert_eq!(e.cursor, Cursor { x: 0, y: 2 });
}

#[test]
fn down_clamps_column_to_shorter_line() {
    let mut e = Editor::new();
    e.cursor = Cursor { x: 4, y: 0 };
    e.handle_key(KeyInput::Down, &doc_lines());
    assert_eq!(e.cursor, Cursor { x: 2, y: 1 });
}

#[test]
fn down_at_last_line_stays_put() {
    let mut e = Editor::new();
    e.cursor = Cursor { x: 1, y: 3 };
    e.handle_key(KeyInput::Down, &doc_lines());
    assert_eq!(e.cursor, Cursor { x: 1, y: 3 });
}

#[test]
fn i_enters_insert_mode_without_redraw() {
    let mut e = Editor::new();
    let render = e.handle_key(KeyInput::Char('i'), &doc_lines());
    assert!(!render);
    assert_eq!(e.mode, Mode::Insert);
}

#[test]
fn typed_char_in_insert_mode_requests_redraw() {
    let mut e = Editor::new();
    e.handle_key(KeyInput::Char('i'), &doc_lines());
    let render = e.handle_key(KeyInput::Char('x'), &doc_lines());
    assert!(render);
    assert_eq!(e.mode, Mode::Insert);
}

#[test]
fn esc_returns_to_normal_mode() {
    let mut e = Editor::new();
    e.handle_key(KeyInput::Char('i'), &doc_lines());
    let render = e.handle_key(KeyInput::Esc { ctrl: false }, &doc_lines());
    assert!(!render);
    assert_eq!(e.mode, Mode::Normal);
    assert!(!e.should_quit());
}

#[test]
fn ctrl_esc_requests_quit() {
    let mut e = Editor::new();
    let render = e.handle_key(KeyInput::Esc { ctrl: true }, &doc_lines());
    assert!(!render);
    assert!(e.should_quit());
}

#[test]
fn other_keys_are_ignored() {
    let mut e = Editor::new();
    let render = e.handle_key(KeyInput::Other, &doc_lines());
    assert!(!render);
    assert_eq!(e.cursor, Cursor { x: 0, y: 0 });
    assert_eq!(e.mode, Mode::Normal);
}

#[test]
fn trim_strips_trailing_terminators() {
    assert_eq!(trim_line_end("hello\r\n"), "hello");
    assert_eq!(trim_line_end("hello"), "hello");
    assert_eq!(trim_line_end("\n\r\n"), "");
    assert_eq!(trim_line_end(""), "");
}

#[test]
fn visible_line_truncates_to_width() {
    assert_eq!(visible_line("hello world\n", 5), "hello");
    assert_eq!(visible_line("hi\n", 5), "hi");
    assert_eq!(visible_line("hi", 0), "");
}
