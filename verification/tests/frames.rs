use ox::document::Document;
use ox::editor::Editor;
use ox::editor::Key;
use ox::editor::Position;
use ox::editor::Severity;
use ox::editor::Terminal;
use ox::render::columns_up_to;
use ox::style::push_paint;
use ox::style::Paint;
use ox::style::TAB_WIDTH;
use ox::style::VERSION;
use termion::color;
use termion::style;
use unicode_width::UnicodeWidthStr;

const BG: &str = "\x1b[48;2;41;41;61m";
const STATUS_BG: &str = "\x1b[48;2;59;59;84m";
const RESET_BG: &str = "\x1b[49m";
const FG: &str = "\x1b[38;2;255;255;255m";
const STATUS_FG: &str = "\x1b[38;2;35;240;144m";
const NUMBER_FG: &str = "\x1b[38;2;73;73;110m";
const RESET_FG: &str = "\x1b[39m";
const RED: &str = "\x1b[38;5;1m";
const YELLOW: &str = "\x1b[38;5;3m";
const BOLD: &str = "\x1b[1m";
const RESET_STYLE: &str = "\x1b[m";

fn editor_with(width: u16, height: u16, content: &str) -> Editor {
    let mut editor = Editor::new(Terminal { width, height }, true);
    editor.load(Some(Document::from("test.txt", content)));
    editor
}

fn blanks(n: usize) -> String {
    " ".repeat(n)
}

#[test]
fn paints_are_escape_sequences() {
    assert_eq!(Paint::Bg.sequence(), BG);
    assert_eq!(Paint::StatusBg.sequence(), STATUS_BG);
    assert_eq!(Paint::ResetBg.sequence(), RESET_BG);
    assert_eq!(Paint::Fg.sequence(), FG);
    assert_eq!(Paint::StatusFg.sequence(), STATUS_FG);
    assert_eq!(Paint::LineNumberFg.sequence(), NUMBER_FG);
    assert_eq!(Paint::ResetFg.sequence(), RESET_FG);
    assert_eq!(Paint::Red.sequence(), RED);
    assert_eq!(Paint::Yellow.sequence(), YELLOW);
    assert_eq!(Paint::Bold.sequence(), BOLD);
    assert_eq!(Paint::ResetStyle.sequence(), RESET_STYLE);
}

#[test]
fn paints_are_those_of_the_terminal_library() {
    assert_eq!(Paint::Bg.sequence(), format!("{}", color::Bg(color::Rgb(41, 41, 61))));
    assert_eq!(Paint::StatusBg.sequence(), format!("{}", color::Bg(color::Rgb(59, 59, 84))));
    assert_eq!(Paint::ResetBg.sequence(), format!("{}", color::Bg(color::Reset)));
    assert_eq!(Paint::Fg.sequence(), format!("{}", color::Fg(color::Rgb(255, 255, 255))));
    assert_eq!(Paint::StatusFg.sequence(), format!("{}", color::Fg(color::Rgb(35, 240, 144))));
    assert_eq!(Paint::LineNumberFg.sequence(), format!("{}", color::Fg(color::Rgb(73, 73, 110))));
    assert_eq!(Paint::ResetFg.sequence(), format!("{}", color::Fg(color::Reset)));
    assert_eq!(Paint::Red.sequence(), format!("{}", color::Fg(color::Red)));
    assert_eq!(Paint::Yellow.sequence(), format!("{}", color::Fg(color::Yellow)));
    assert_eq!(Paint::Bold.sequence(), format!("{}", style::Bold));
    assert_eq!(Paint::ResetStyle.sequence(), format!("{}", style::Reset));
}

#[test]
fn paint_is_appended() {
    let mut s = String::from("x");
    push_paint(&mut s, Paint::Bold);
    push_paint(&mut s, Paint::Red);
    assert_eq!(s, format!("x{}{}", BOLD, RED));
}

#[test]
fn constants_of_the_editor() {
    assert_eq!(TAB_WIDTH, 4);
    assert_eq!(VERSION, "0.2.0");
}

#[test]
fn columns_are_counted_up_to_a_cap() {
    assert_eq!(columns_up_to("abc", 10), 3);
    assert_eq!(columns_up_to("abc", 3), 3);
    assert_eq!(columns_up_to("abc", 2), 2);
    assert_eq!(columns_up_to("日本", 10), 4);
    assert_eq!(columns_up_to("日本", 3), 3);
    assert_eq!(columns_up_to("", 5), 0);
    assert_eq!(columns_up_to("abc", 0), 0);
}

#[test]
fn background_fills_the_line() {
    let editor = Editor::new(Terminal { width: 10, height: 24 }, true);
    assert_eq!(
        editor.add_background("abc"),
        format!("{}abc{}{}", BG, blanks(7), RESET_BG)
    );
    assert_eq!(
        editor.add_background("日本"),
        format!("{}日本{}{}", BG, blanks(6), RESET_BG)
    );
    assert_eq!(
        editor.add_background("abcdefghijkl"),
        format!("{}abcdefghijkl{}", BG, RESET_BG)
    );
    assert_eq!(editor.add_background(""), format!("{}{}{}", BG, blanks(10), RESET_BG));
}

#[test]
fn welcome_message_is_centred() {
    let editor = Editor::new(Terminal { width: 40, height: 24 }, true);
    let text = "Ctrl + Q: Exit   ";
    let expected = format!(
        "{}{}~{}{}{}{}{}{}{}",
        BG,
        NUMBER_FG,
        RESET_FG,
        blanks(20 - 8),
        STATUS_FG,
        text,
        RESET_FG,
        blanks(39 - 17 - 12),
        RESET_BG
    );
    assert_eq!(editor.welcome_message(text, Paint::StatusFg), expected);
}

#[test]
fn welcome_message_on_a_narrow_terminal() {
    let editor = Editor::new(Terminal { width: 10, height: 24 }, true);
    let text = "A Rust powered editor by Luke";
    let expected = format!(
        "{}{}~{}{}{}{}{}",
        BG, NUMBER_FG, RESET_FG, FG, text, RESET_FG, RESET_BG
    );
    assert_eq!(editor.welcome_message(text, Paint::Fg), expected);
}

#[test]
fn command_line_is_coloured_by_severity() {
    let mut editor = Editor::new(Terminal { width: 20, height: 24 }, true);
    let plain = format!("{}Welcome to Ox!{}{}", BG, blanks(6), RESET_BG);
    assert_eq!(editor.command_line(), plain);
    editor.set_command_line("bad".to_string(), Severity::Error);
    let line = format!("{}bad{}{}", BG, blanks(17), RESET_BG);
    assert_eq!(
        editor.command_line(),
        format!("{}{}{}{}{}", BOLD, RED, line, RESET_FG, RESET_STYLE)
    );
    editor.set_command_line("bad".to_string(), Severity::Warning);
    assert_eq!(
        editor.command_line(),
        format!("{}{}{}{}{}", BOLD, YELLOW, line, RESET_FG, RESET_STYLE)
    );
    editor.set_command_line("bad".to_string(), Severity::Info);
    assert_eq!(editor.command_line(), line);
}

#[test]
fn status_line_shows_name_type_and_place() {
    let mut editor = editor_with(80, 24, "ab\ncd\nef");
    editor.move_cursor(Key::Down);
    editor.move_cursor(Key::Right);
    let left = " test.txt \u{f723}  \u{2502} Plain Text";
    let right = "\u{fa70} 2 / 3 \u{2502} \u{fae6}(1, 1) ";
    let pad = 80 - UnicodeWidthStr::width(left) - UnicodeWidthStr::width(right);
    let expected = format!(
        "{}{}{}{}{}{}{}{}{}",
        BOLD,
        STATUS_FG,
        STATUS_BG,
        left,
        blanks(pad),
        right,
        RESET_BG,
        RESET_FG,
        RESET_STYLE
    );
    assert_eq!(editor.status_line(), expected);
}

#[test]
fn status_line_marks_unsaved_changes() {
    let mut editor = Editor::new(Terminal { width: 60, height: 24 }, true);
    editor.character('a');
    let left = " [No name][+] \u{fb12}  \u{2502} Unknown";
    let right = "\u{fa70} 1 / 1 \u{2502} \u{fae6}(1, 0) ";
    let pad = 60 - UnicodeWidthStr::width(left) - UnicodeWidthStr::width(right);
    let expected = format!(
        "{}{}{}{}{}{}{}{}{}",
        BOLD,
        STATUS_FG,
        STATUS_BG,
        left,
        blanks(pad),
        right,
        RESET_BG,
        RESET_FG,
        RESET_STYLE
    );
    assert_eq!(editor.status_line(), expected);
}

#[test]
fn status_line_on_a_narrow_terminal_has_no_padding() {
    let editor = editor_with(10, 24, "ab");
    let left = " test.txt \u{f723}  \u{2502} Plain Text";
    let right = "\u{fa70} 1 / 1 \u{2502} \u{fae6}(0, 0) ";
    let expected = format!(
        "{}{}{}{}{}{}{}{}",
        BOLD, STATUS_FG, STATUS_BG, left, right, RESET_BG, RESET_FG, RESET_STYLE
    );
    assert_eq!(editor.status_line(), expected);
}

#[test]
fn frame_has_one_line_for_each_terminal_row() {
    let editor = editor_with(20, 6, "ab\n日本");
    let lines = editor.render();
    assert_eq!(lines.len(), 6);
    assert_eq!(
        lines[0],
        format!("{}{} 1 {}ab{}{}", BG, NUMBER_FG, RESET_FG, blanks(15), RESET_BG)
    );
    assert_eq!(
        lines[1],
        format!("{}{} 2 {}日本{}{}", BG, NUMBER_FG, RESET_FG, blanks(13), RESET_BG)
    );
    let filler = format!("{}{}~{}{}{}", NUMBER_FG, BG, blanks(19), RESET_BG, RESET_FG);
    assert_eq!(lines[2], filler);
    assert_eq!(lines[3], filler);
    assert_eq!(lines[4], editor.status_line());
    assert_eq!(lines[5], editor.command_line());
}

#[test]
fn frame_of_an_empty_terminal_is_empty() {
    let editor = editor_with(20, 0, "ab");
    assert!(editor.render().is_empty());
    let editor = editor_with(20, 1, "ab");
    let lines = editor.render();
    assert_eq!(lines.len(), 1);
    assert_eq!(lines[0], editor.command_line());
    let editor = editor_with(20, 2, "ab");
    let lines = editor.render();
    assert_eq!(lines.len(), 2);
    assert_eq!(lines[0], editor.status_line());
    assert_eq!(lines[1], editor.command_line());
}

#[test]
fn frame_scrolls_with_the_offset() {
    let mut editor = editor_with(12, 5, "0123456789abcdef\nb\nc\nd\ne");
    for _ in 0..4 {
        editor.move_cursor(Key::Down);
    }
    assert_eq!(editor.offset().y, 2);
    let lines = editor.render();
    assert_eq!(
        lines[0],
        format!("{}{} 3 {}c{}{}", BG, NUMBER_FG, RESET_FG, blanks(8), RESET_BG)
    );
    assert_eq!(
        lines[2],
        format!("{}{} 5 {}e{}{}", BG, NUMBER_FG, RESET_FG, blanks(8), RESET_BG)
    );
    for _ in 0..4 {
        editor.move_cursor(Key::Up);
    }
    editor.leap_cursor(Key::End);
    assert_eq!(editor.offset(), Position { x: 8, y: 0 });
    let lines = editor.render();
    assert_eq!(
        lines[0],
        format!("{}{} 1 {}89abcdef{}{}", BG, NUMBER_FG, RESET_FG, blanks(1), RESET_BG)
    );
    assert_eq!(
        lines[1],
        format!("{}{} 2 {}{}{}", BG, NUMBER_FG, RESET_FG, blanks(9), RESET_BG)
    );
}

#[test]
fn welcome_screen_takes_its_rows() {
    let editor = Editor::new(Terminal { width: 60, height: 24 }, true);
    assert!(editor.shows_welcome());
    let lines = editor.render();
    assert_eq!(lines.len(), 24);
    assert_eq!(
        lines[0],
        format!("{}{} 1 {}{}{}", BG, NUMBER_FG, RESET_FG, blanks(57), RESET_BG)
    );
    assert_eq!(lines[6], editor.welcome_message("Ox editor  v0.2.0", Paint::Fg));
    assert_eq!(
        lines[7],
        editor.welcome_message("A Rust powered editor by Luke", Paint::Fg)
    );
    let filler = format!("{}{}~{}{}{}", NUMBER_FG, BG, blanks(59), RESET_BG, RESET_FG);
    assert_eq!(lines[5], filler);
    assert_eq!(lines[8], filler);
    assert_eq!(lines[9], editor.welcome_message("Ctrl + Q: Exit   ", Paint::StatusFg));
    assert_eq!(lines[10], editor.welcome_message("Ctrl + S: Save   ", Paint::StatusFg));
    assert_eq!(lines[11], editor.welcome_message("Ctrl + W: Save as", Paint::StatusFg));
    assert_eq!(lines[12], filler);
    assert_eq!(lines[22], editor.status_line());
    assert_eq!(lines[23], editor.command_line());
}

#[test]
fn welcome_screen_goes_with_the_first_edit() {
    let mut editor = Editor::new(Terminal { width: 60, height: 24 }, true);
    editor.character('a');
    assert!(!editor.shows_welcome());
    let lines = editor.render();
    let filler = format!("{}{}~{}{}{}", NUMBER_FG, BG, blanks(59), RESET_BG, RESET_FG);
    assert_eq!(lines[6], filler);
    assert_eq!(lines[11], filler);
    editor.undo();
    assert!(!editor.shows_welcome());
    editor.new_document();
    assert!(!editor.shows_welcome());
}

#[test]
fn welcome_screen_yields_to_status_and_command_line() {
    let editor = Editor::new(Terminal { width: 60, height: 6 }, true);
    let lines = editor.render();
    assert_eq!(lines[1], editor.welcome_message("Ox editor  v0.2.0", Paint::Fg));
    assert_eq!(
        lines[2],
        editor.welcome_message("A Rust powered editor by Luke", Paint::Fg)
    );
    assert_eq!(lines[4], editor.status_line());
    assert_eq!(lines[5], editor.command_line());
}

#[test]
fn update_places_the_hardware_cursor_behind_the_gutter() {
    let mut editor = editor_with(80, 24, "ab\ncd");
    editor.move_cursor(Key::Down);
    editor.move_cursor(Key::Right);
    let frame = editor.update();
    assert_eq!(frame.cursor, Position { x: 4, y: 1 });
    assert_eq!(frame.lines.len(), 24);
    assert_eq!(frame.lines, editor.render());
}

#[test]
fn update_widens_the_gutter_with_the_row_count() {
    let mut editor = editor_with(10, 24, "1\n2\n3\n4\n5\n6\n7\n8\nabcdefg");
    editor.leap_cursor(Key::PageDown);
    editor.leap_cursor(Key::End);
    assert_eq!(editor.columns(), 7);
    assert_eq!((editor.cursor().x, editor.offset().x), (7, 0));
    editor.return_key();
    editor.move_cursor(Key::Up);
    editor.leap_cursor(Key::End);
    assert_eq!((editor.cursor().x, editor.offset().x), (7, 0));
    let frame = editor.update();
    assert_eq!(editor.columns(), 6);
    assert_eq!((editor.cursor().x, editor.offset().x), (6, 1));
    assert_eq!(frame.cursor, Position { x: 10, y: 8 });
    assert_eq!(
        frame.lines[8],
        format!("{}{}  9 {}bcdefg{}", BG, NUMBER_FG, RESET_FG, RESET_BG)
    );
    assert_eq!(
        frame.lines[9],
        format!("{}{} 10 {}{}{}", BG, NUMBER_FG, RESET_FG, blanks(6), RESET_BG)
    );
}
