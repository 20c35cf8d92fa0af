use ox::document::Document;
use ox::editor::Editor;
use ox::editor::Key;
use ox::editor::Position;
use ox::editor::Terminal;

fn editor_with(width: u16, height: u16, content: &str) -> Editor {
    let mut editor = Editor::new(Terminal { width, height }, true);
    editor.load(Some(Document::from("test.txt", content)));
    editor
}

fn place(editor: &Editor) -> (usize, usize) {
    (
        editor.cursor().x + editor.offset().x,
        editor.cursor().y + editor.offset().y,
    )
}

fn press(editor: &mut Editor, key: Key, times: usize) {
    for _ in 0..times {
        editor.move_cursor(key);
    }
}

#[test]
fn end_on_a_short_row() {
    let mut editor = editor_with(80, 24, "hello");
    assert_eq!(editor.cursor(), Position { x: 0, y: 0 });
    editor.leap_cursor(Key::End);
    assert_eq!(editor.cursor().x, 5);
    assert_eq!(editor.offset().x, 0);
    assert_eq!(editor.graphemes(), 5);
}

#[test]
fn end_on_a_row_as_wide_as_the_window() {
    let mut editor = editor_with(10, 24, "abcdefg");
    editor.leap_cursor(Key::End);
    assert_eq!(editor.cursor().x, 7);
    assert_eq!(editor.offset().x, 0);
}

#[test]
fn end_on_a_long_row_scrolls() {
    let content = "a".repeat(100);
    let mut editor = editor_with(20, 24, &content);
    assert_eq!(editor.columns(), 17);
    editor.leap_cursor(Key::End);
    assert_eq!(editor.cursor().x, 16);
    assert_eq!(editor.offset().x, 84);
    assert_eq!(editor.graphemes(), 100);
}

#[test]
fn end_on_a_long_row_shows_a_wide_last_character() {
    let content = format!("{}日", "a".repeat(99));
    let mut editor = editor_with(20, 24, &content);
    editor.leap_cursor(Key::End);
    assert_eq!(editor.cursor().x, 15);
    assert_eq!(editor.offset().x, 86);
    assert_eq!(editor.graphemes(), 100);
}

#[test]
fn end_on_a_terminal_narrower_than_the_gutter() {
    let mut editor = editor_with(2, 24, "abc");
    assert_eq!(editor.columns(), 0);
    editor.leap_cursor(Key::End);
    assert_eq!(editor.cursor().x, 0);
    assert_eq!(editor.offset().x, 3);
}

#[test]
fn home_resets_column_and_scroll() {
    let content = "a".repeat(100);
    let mut editor = editor_with(20, 24, &content);
    editor.leap_cursor(Key::End);
    editor.leap_cursor(Key::Home);
    assert_eq!(editor.cursor().x, 0);
    assert_eq!(editor.offset().x, 0);
    assert_eq!(editor.graphemes(), 0);
}

#[test]
fn right_steps_by_the_width_of_the_cell() {
    let mut editor = editor_with(80, 24, "a日b");
    editor.move_cursor(Key::Right);
    assert_eq!((editor.cursor().x, editor.graphemes()), (1, 1));
    editor.move_cursor(Key::Right);
    assert_eq!((editor.cursor().x, editor.graphemes()), (3, 2));
    editor.move_cursor(Key::Right);
    assert_eq!((editor.cursor().x, editor.graphemes()), (4, 3));
    editor.move_cursor(Key::Right);
    assert_eq!((editor.cursor().x, editor.graphemes()), (4, 3));
}

#[test]
fn left_steps_by_the_width_of_the_cell() {
    let mut editor = editor_with(80, 24, "a日b");
    editor.leap_cursor(Key::End);
    editor.move_cursor(Key::Left);
    assert_eq!((editor.cursor().x, editor.graphemes()), (3, 2));
    editor.move_cursor(Key::Left);
    assert_eq!((editor.cursor().x, editor.graphemes()), (1, 1));
    editor.move_cursor(Key::Left);
    assert_eq!((editor.cursor().x, editor.graphemes()), (0, 0));
    editor.move_cursor(Key::Left);
    assert_eq!((editor.cursor().x, editor.graphemes()), (0, 0));
}

#[test]
fn right_scrolls_at_the_edge_of_the_window() {
    let mut editor = editor_with(10, 24, "abcdefghijkl");
    assert_eq!(editor.columns(), 7);
    press(&mut editor, Key::Right, 7);
    assert_eq!((editor.cursor().x, editor.offset().x), (7, 0));
    editor.move_cursor(Key::Right);
    assert_eq!((editor.cursor().x, editor.offset().x), (7, 1));
    assert_eq!(editor.graphemes(), 8);
    press(&mut editor, Key::Right, 10);
    assert_eq!((editor.cursor().x, editor.offset().x), (7, 5));
    assert_eq!(editor.graphemes(), 12);
}

#[test]
fn right_scrolls_by_the_width_of_a_wide_cell() {
    let mut editor = editor_with(10, 24, "abcdef日z");
    press(&mut editor, Key::Right, 6);
    assert_eq!((editor.cursor().x, editor.offset().x), (6, 0));
    editor.move_cursor(Key::Right);
    assert_eq!((editor.cursor().x, editor.offset().x), (6, 2));
    assert_eq!(editor.graphemes(), 7);
}

#[test]
fn left_scrolls_at_the_edge_of_the_window() {
    let mut editor = editor_with(10, 24, "abcdefghijkl");
    editor.leap_cursor(Key::End);
    assert_eq!((editor.cursor().x, editor.offset().x), (6, 6));
    press(&mut editor, Key::Left, 6);
    assert_eq!((editor.cursor().x, editor.offset().x), (0, 6));
    editor.move_cursor(Key::Left);
    assert_eq!((editor.cursor().x, editor.offset().x), (0, 5));
    assert_eq!(editor.graphemes(), 5);
}

#[test]
fn left_over_a_wide_cell_cut_by_the_window() {
    let mut editor = editor_with(10, 24, "日abcdefghijk");
    press(&mut editor, Key::Right, 7);
    assert_eq!((editor.cursor().x, editor.offset().x), (7, 1));
    editor.seek(Position { x: 2, y: 0 });
    assert_eq!((editor.cursor().x, editor.offset().x), (1, 1));
    assert_eq!(editor.graphemes(), 1);
    editor.move_cursor(Key::Left);
    assert_eq!((editor.cursor().x, editor.offset().x), (0, 0));
    assert_eq!(editor.graphemes(), 0);
}

#[test]
fn down_and_up_move_by_one_row() {
    let mut editor = editor_with(80, 24, "one\ntwo\nthree");
    editor.move_cursor(Key::Down);
    assert_eq!(place(&editor), (0, 1));
    editor.move_cursor(Key::Down);
    assert_eq!(place(&editor), (0, 2));
    editor.move_cursor(Key::Down);
    assert_eq!(place(&editor), (0, 2));
    editor.move_cursor(Key::Up);
    assert_eq!(place(&editor), (0, 1));
    press(&mut editor, Key::Up, 3);
    assert_eq!(place(&editor), (0, 0));
}

#[test]
fn vertical_move_snaps_to_the_end_of_a_shorter_row() {
    let mut editor = editor_with(80, 24, "abcdef\nab\nabcdef");
    press(&mut editor, Key::Right, 5);
    editor.move_cursor(Key::Down);
    assert_eq!(place(&editor), (2, 1));
    assert_eq!(editor.graphemes(), 2);
    editor.move_cursor(Key::Down);
    assert_eq!(place(&editor), (2, 2));
    assert_eq!(editor.graphemes(), 2);
}

#[test]
fn vertical_move_keeps_off_the_inside_of_a_wide_cell() {
    let mut editor = editor_with(80, 24, "abcd\n日本\nabcd");
    editor.move_cursor(Key::Right);
    editor.move_cursor(Key::Down);
    assert_eq!(place(&editor), (0, 1));
    assert_eq!(editor.graphemes(), 0);
    editor.move_cursor(Key::Up);
    press(&mut editor, Key::Right, 3);
    assert_eq!(place(&editor), (3, 0));
    editor.move_cursor(Key::Down);
    assert_eq!(place(&editor), (2, 1));
    assert_eq!(editor.graphemes(), 1);
    editor.move_cursor(Key::Down);
    assert_eq!(place(&editor), (2, 2));
    assert_eq!(editor.graphemes(), 2);
    editor.move_cursor(Key::Right);
    editor.move_cursor(Key::Right);
    editor.move_cursor(Key::Up);
    assert_eq!(place(&editor), (4, 1));
    assert_eq!(editor.graphemes(), 2);
}

#[test]
fn cursor_row_stays_within_the_window() {
    let mut editor = editor_with(80, 5, "0\n1\n2\n3\n4\n5\n6\n7\n8\n9");
    assert_eq!(editor.max_y(), 2);
    press(&mut editor, Key::Down, 2);
    assert_eq!((editor.cursor().y, editor.offset().y), (2, 0));
    editor.move_cursor(Key::Down);
    assert_eq!((editor.cursor().y, editor.offset().y), (2, 1));
    press(&mut editor, Key::Down, 6);
    assert_eq!((editor.cursor().y, editor.offset().y), (2, 7));
    editor.move_cursor(Key::Down);
    assert_eq!((editor.cursor().y, editor.offset().y), (2, 7));
    press(&mut editor, Key::Up, 2);
    assert_eq!((editor.cursor().y, editor.offset().y), (0, 7));
    editor.move_cursor(Key::Up);
    assert_eq!((editor.cursor().y, editor.offset().y), (0, 6));
}

#[test]
fn a_terminal_of_fewer_than_three_rows_keeps_the_cursor_on_top() {
    let mut editor = editor_with(80, 2, "0\n1\n2");
    assert_eq!(editor.max_y(), 0);
    editor.move_cursor(Key::Down);
    assert_eq!((editor.cursor().y, editor.offset().y), (0, 1));
    let mut editor = editor_with(80, 0, "0\n1\n2");
    assert_eq!(editor.max_y(), 0);
    editor.move_cursor(Key::Down);
    assert_eq!((editor.cursor().y, editor.offset().y), (0, 1));
}

#[test]
fn page_keys_leap_within_the_window() {
    let mut editor = editor_with(80, 5, "0\n1\n2\n3\n4\n5\n6\n7\n8\n9");
    editor.leap_cursor(Key::PageDown);
    assert_eq!((editor.cursor().y, editor.offset().y), (2, 0));
    press(&mut editor, Key::Down, 3);
    assert_eq!((editor.cursor().y, editor.offset().y), (2, 3));
    editor.leap_cursor(Key::PageUp);
    assert_eq!((editor.cursor().y, editor.offset().y), (0, 3));
    editor.leap_cursor(Key::PageDown);
    assert_eq!((editor.cursor().y, editor.offset().y), (2, 3));
}

#[test]
fn page_down_stops_at_the_last_row() {
    let mut editor = editor_with(80, 24, "0\n1\n2");
    editor.leap_cursor(Key::PageDown);
    assert_eq!((editor.cursor().y, editor.offset().y), (2, 0));
    let mut editor = editor_with(80, 5, "0\n1\n2\n3");
    press(&mut editor, Key::Down, 3);
    assert_eq!((editor.cursor().y, editor.offset().y), (2, 1));
    editor.leap_cursor(Key::PageUp);
    editor.leap_cursor(Key::PageDown);
    assert_eq!((editor.cursor().y, editor.offset().y), (2, 1));
}

#[test]
fn page_keys_settle_the_column() {
    let mut editor = editor_with(80, 24, "ab\n日本\nabcdef");
    press(&mut editor, Key::Down, 2);
    press(&mut editor, Key::Right, 5);
    editor.leap_cursor(Key::PageUp);
    assert_eq!(place(&editor), (2, 0));
    assert_eq!(editor.graphemes(), 2);
}

#[test]
fn other_keys_move_nothing() {
    let mut editor = editor_with(80, 24, "abc\ndef");
    editor.move_cursor(Key::Right);
    editor.move_cursor(Key::Home);
    editor.move_cursor(Key::Char('x'));
    editor.leap_cursor(Key::Left);
    editor.leap_cursor(Key::Esc);
    assert_eq!(place(&editor), (1, 0));
    assert_eq!(editor.document().row(0).string(), "abc");
}

#[test]
fn column_helpers_settle_step_by_step() {
    let mut editor = editor_with(80, 24, "abcdef");
    editor.snap_cursor();
    editor.prevent_unicode_hell();
    editor.recalculate_graphemes();
    assert_eq!(place(&editor), (0, 0));
    assert_eq!(editor.graphemes(), 0);
}

#[test]
fn seek_scrolls_no_more_than_needed() {
    let content = (0..50).map(|i| i.to_string()).collect::<Vec<_>>().join("\n");
    let mut editor = editor_with(80, 13, &content);
    assert_eq!(editor.max_y(), 10);
    editor.seek(Position { x: 1, y: 30 });
    assert_eq!((editor.cursor().y, editor.offset().y), (10, 20));
    assert_eq!((editor.cursor().x, editor.offset().x), (1, 0));
    editor.seek(Position { x: 0, y: 25 });
    assert_eq!((editor.cursor().y, editor.offset().y), (5, 20));
    editor.seek(Position { x: 0, y: 3 });
    assert_eq!((editor.cursor().y, editor.offset().y), (0, 3));
}

#[test]
fn goto_ahead_pins_the_match_to_the_bottom() {
    let content = (0..30).map(|i| i.to_string()).collect::<Vec<_>>().join("\n");
    let mut editor = editor_with(20, 10, &content);
    assert_eq!(editor.max_y(), 7);
    editor.goto_ahead(&Position { x: 0, y: 20 });
    assert_eq!((editor.cursor().y, editor.offset().y), (7, 13));
    assert_eq!(place(&editor), (0, 20));
    editor.goto_ahead(&Position { x: 1, y: 15 });
    assert_eq!((editor.cursor().y, editor.offset().y), (2, 13));
    assert_eq!((editor.cursor().x, editor.offset().x), (1, 0));
    assert_eq!(editor.graphemes(), 1);
}

#[test]
fn goto_ahead_near_the_top_does_not_scroll() {
    let content = (0..30).map(|i| i.to_string()).collect::<Vec<_>>().join("\n");
    let mut editor = editor_with(20, 10, &content);
    editor.goto_ahead(&Position { x: 0, y: 20 });
    editor.goto_ahead(&Position { x: 0, y: 3 });
    assert_eq!((editor.cursor().y, editor.offset().y), (3, 0));
}

#[test]
fn goto_behind_pins_the_match_to_the_top() {
    let content = (0..30).map(|i| i.to_string()).collect::<Vec<_>>().join("\n");
    let mut editor = editor_with(20, 10, &content);
    editor.goto_behind(&Position { x: 0, y: 20 });
    assert_eq!((editor.cursor().y, editor.offset().y), (0, 20));
    editor.goto_behind(&Position { x: 0, y: 9 });
    assert_eq!((editor.cursor().y, editor.offset().y), (0, 9));
    editor.goto_behind(&Position { x: 0, y: 3 });
    assert_eq!((editor.cursor().y, editor.offset().y), (3, 0));
    editor.goto_behind(&Position { x: 1, y: 5 });
    assert_eq!((editor.cursor().y, editor.offset().y), (5, 0));
    assert_eq!(editor.graphemes(), 1);
}

#[test]
fn goto_scrolls_sideways_to_a_far_column() {
    let content = format!("{}\nshort", "a".repeat(60));
    let mut editor = editor_with(20, 10, &content);
    assert_eq!(editor.columns(), 17);
    editor.goto_ahead(&Position { x: 30, y: 0 });
    assert_eq!((editor.cursor().x, editor.offset().x), (0, 30));
    assert_eq!(editor.graphemes(), 30);
    editor.goto_behind(&Position { x: 40, y: 0 });
    assert_eq!((editor.cursor().x, editor.offset().x), (10, 30));
    editor.goto_behind(&Position { x: 5, y: 1 });
    assert_eq!((editor.cursor().x, editor.offset().x), (5, 0));
    editor.goto_ahead(&Position { x: 50, y: 0 });
    assert_eq!((editor.cursor().x, editor.offset().x), (0, 50));
}

#[test]
fn resize_cuts_the_screen_row_and_keeps_the_scroll_origin() {
    let content = (0..30).map(|_| "abcdefghij").collect::<Vec<_>>().join("\n");
    let mut editor = editor_with(80, 24, &content);
    press(&mut editor, Key::Down, 15);
    assert_eq!((editor.cursor().y, editor.offset().y), (15, 0));
    editor.resize(80, 10);
    assert_eq!(editor.terminal(), Terminal { width: 80, height: 10 });
    assert_eq!((editor.cursor().y, editor.offset().y), (7, 0));
    assert_eq!(place(&editor), (0, 7));
    assert_eq!(editor.document().len(), 30);
    editor.resize(80, 24);
    assert_eq!((editor.cursor().y, editor.offset().y), (7, 0));
}

#[test]
fn resize_keeps_the_scroll_origin_of_a_scrolled_window() {
    let content = (0..30).map(|_| "abcdefghij").collect::<Vec<_>>().join("\n");
    let mut editor = editor_with(80, 13, &content);
    press(&mut editor, Key::Down, 20);
    assert_eq!((editor.cursor().y, editor.offset().y), (10, 10));
    editor.resize(80, 6);
    assert_eq!((editor.cursor().y, editor.offset().y), (3, 10));
    assert_eq!(place(&editor), (0, 13));
    editor.resize(80, 2);
    assert_eq!((editor.cursor().y, editor.offset().y), (0, 10));
    editor.resize(80, 0);
    assert_eq!((editor.cursor().y, editor.offset().y), (0, 10));
}

#[test]
fn resize_to_a_narrower_window_keeps_the_column() {
    let content = (0..30).map(|_| "abcdefghij").collect::<Vec<_>>().join("\n");
    let mut editor = editor_with(40, 24, &content);
    press(&mut editor, Key::Down, 10);
    editor.leap_cursor(Key::End);
    assert_eq!((editor.cursor().x, editor.cursor().y), (10, 10));
    editor.resize(12, 24);
    assert_eq!(editor.columns(), 8);
    assert_eq!((editor.cursor().x, editor.offset().x), (8, 2));
    assert_eq!((editor.cursor().y, editor.offset().y), (10, 0));
    assert_eq!(place(&editor), (10, 10));
    editor.resize(40, 24);
    assert_eq!((editor.cursor().x, editor.offset().x), (8, 2));
}

#[test]
fn resize_settles_the_column_on_the_row_it_reaches() {
    let mut editor = editor_with(80, 24, "ab\n日本\n\nabcdefgh\nabcdefgh");
    press(&mut editor, Key::Down, 4);
    press(&mut editor, Key::Right, 7);
    assert_eq!(place(&editor), (7, 4));
    editor.resize(80, 5);
    assert_eq!((editor.cursor().y, editor.offset().y), (2, 0));
    assert_eq!(place(&editor), (0, 2));
    assert_eq!(editor.graphemes(), 0);
    let mut editor = editor_with(80, 24, "ab\n日本\n\nabcdefgh\nabcdefgh");
    press(&mut editor, Key::Down, 3);
    press(&mut editor, Key::Right, 3);
    editor.resize(80, 4);
    assert_eq!((editor.cursor().y, editor.offset().y), (1, 0));
    assert_eq!(place(&editor), (2, 1));
    assert_eq!(editor.graphemes(), 1);
    let mut editor = editor_with(80, 24, "ab\n日本\n\nabcdefgh\nabcdefgh");
    press(&mut editor, Key::Down, 3);
    press(&mut editor, Key::Right, 4);
    editor.resize(80, 3);
    assert_eq!((editor.cursor().y, editor.offset().y), (0, 0));
    assert_eq!(place(&editor), (2, 0));
    assert_eq!(editor.graphemes(), 2);
}

#[test]
fn here_is_cursor_plus_offset() {
    let mut editor = editor_with(10, 5, "abcdefghijkl\nb\nc\nd\ne");
    press(&mut editor, Key::Down, 4);
    press(&mut editor, Key::Up, 4);
    press(&mut editor, Key::Right, 9);
    assert_eq!(editor.here(), Position { x: 9, y: 0 });
    assert_eq!(editor.offset(), Position { x: 2, y: 0 });
}
