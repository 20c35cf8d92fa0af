use ox::document::Document;
use ox::editor::Position;
use ox::row::Row;
use ox::text::chars_of;
use ox::text::count_digits;
use ox::text::push_decimal;
use ox::text::push_repeated;
use ox::text::same_chars;
use ox::text::spells;
use ox::text::string_of;
use ox::width::cell_columns;
use ox::width::columns_from;
use ox::width::glyph_from;
use ox::width::glyph;
use unicode_width::UnicodeWidthChar;

const NUMBER_FG: &str = "\x1b[38;2;73;73;110m";
const RESET_FG: &str = "\x1b[39m";

fn decimal(n: usize) -> String {
    let mut s = String::new();
    push_decimal(&mut s, n);
    s
}

#[test]
fn ascii_takes_one_column() {
    assert_eq!(cell_columns('a'), 1);
    assert_eq!(cell_columns(' '), 1);
    assert_eq!(cell_columns('~'), 1);
    assert!(glyph('a'));
}

#[test]
fn wide_character_takes_two_columns() {
    assert_eq!(cell_columns('日'), 2);
    assert_eq!(cell_columns('本'), 2);
    assert_eq!(cell_columns('\u{ff21}'), 2);
    assert!(glyph('日'));
}

#[test]
fn widest_character_takes_three_columns() {
    assert_eq!(cell_columns('\u{17d8}'), 3);
}

#[test]
fn character_without_width_takes_one_column() {
    assert_eq!(cell_columns('\u{7}'), 1);
    assert_eq!(cell_columns('\t'), 1);
    assert_eq!(cell_columns('\u{301}'), 1);
    assert!(!glyph('\u{7}'));
    assert!(!glyph('\u{301}'));
}

#[test]
fn measured_widths_become_cell_widths() {
    assert_eq!(columns_from(None), 1);
    assert_eq!(columns_from(Some(0)), 1);
    assert_eq!(columns_from(Some(1)), 1);
    assert_eq!(columns_from(Some(2)), 2);
    assert_eq!(columns_from(Some(3)), 3);
    assert_eq!(columns_from(Some(4)), 3);
    assert_eq!(columns_from(Some(usize::MAX)), 3);
    assert!(!glyph_from(None));
    assert!(!glyph_from(Some(0)));
    assert!(glyph_from(Some(1)));
    assert!(glyph_from(Some(2)));
}

#[test]
fn cell_width_agrees_with_unicode_width() {
    for c in ['a', 'é', '日', 'ｗ', '€', 'Ω', '한'] {
        assert_eq!(Some(cell_columns(c)), UnicodeWidthChar::width(c));
    }
}

#[test]
fn decimal_of_numbers() {
    assert_eq!(decimal(0), "0");
    assert_eq!(decimal(7), "7");
    assert_eq!(decimal(10), "10");
    assert_eq!(decimal(12345), "12345");
    assert_eq!(decimal(1000000007), "1000000007");
    assert_eq!(decimal(usize::MAX), usize::MAX.to_string());
}

#[test]
fn digits_are_counted() {
    assert_eq!(count_digits(0), 1);
    assert_eq!(count_digits(9), 1);
    assert_eq!(count_digits(10), 2);
    assert_eq!(count_digits(99), 2);
    assert_eq!(count_digits(100), 3);
    assert_eq!(count_digits(usize::MAX), usize::MAX.to_string().len());
}

#[test]
fn repeated_characters_are_appended() {
    let mut s = String::from("a");
    push_repeated(&mut s, ' ', 3);
    assert_eq!(s, "a   ");
    push_repeated(&mut s, 'x', 0);
    assert_eq!(s, "a   ");
}

#[test]
fn characters_round_trip_through_strings() {
    let cells = chars_of("a日b");
    assert_eq!(cells, vec!['a', '日', 'b']);
    assert_eq!(string_of(&cells), "a日b");
    assert!(chars_of("").is_empty());
}

#[test]
fn character_sequences_compare() {
    assert!(same_chars(&vec!['a', 'b'], &vec!['a', 'b']));
    assert!(!same_chars(&vec!['a', 'b'], &vec!['a', 'c']));
    assert!(!same_chars(&vec!['a'], &vec!['a', 'b']));
    assert!(same_chars(&vec![], &vec![]));
    assert!(spells(&vec!['r', 's'], "rs"));
    assert!(!spells(&vec!['r', 's'], "r"));
}

#[test]
fn row_lengths_count_columns() {
    let row = Row::from("a日b");
    assert_eq!(row.len(), 3);
    assert_eq!(row.length(), 4);
    assert_eq!(row.string(), "a日b");
    assert_eq!(row.chars(), vec!['a', '日', 'b']);
    assert_eq!(Row::new().length(), 0);
    assert_eq!(Row::new().len(), 0);
}

#[test]
fn row_start_columns() {
    let row = Row::from("a日b");
    assert_eq!(row.width_to(0), 0);
    assert_eq!(row.width_to(1), 1);
    assert_eq!(row.width_to(2), 3);
    assert_eq!(row.width_to(3), 4);
    assert_eq!(row.boundaries(), vec![0, 1, 3, 4]);
    assert_eq!(row.get_jumps(), vec![1, 2, 1]);
    assert_eq!(Row::new().boundaries(), vec![0]);
}

#[test]
fn row_index_of_column() {
    let row = Row::from("a日b");
    assert_eq!(row.index_at(0), 0);
    assert_eq!(row.index_at(1), 1);
    assert_eq!(row.index_at(2), 2);
    assert_eq!(row.index_at(3), 2);
    assert_eq!(row.index_at(4), 3);
    assert_eq!(row.index_at(9), 3);
}

#[test]
fn row_insert_and_delete() {
    let mut row = Row::from("ac");
    row.insert('b', 1);
    assert_eq!(row.string(), "abc");
    row.insert('d', 3);
    assert_eq!(row.string(), "abcd");
    row.insert('_', 0);
    assert_eq!(row.string(), "_abcd");
    assert_eq!(row.delete(0), Some('_'));
    assert_eq!(row.delete(3), Some('d'));
    assert_eq!(row.string(), "abc");
    assert_eq!(row.delete(3), None);
    assert_eq!(row.string(), "abc");
    assert_eq!(row.get(1), 'b');
}

#[test]
fn row_split_and_join() {
    let row = Row::from("hello");
    let (a, b) = row.split(2);
    assert_eq!(a.string(), "he");
    assert_eq!(b.string(), "llo");
    assert_eq!(a.join(&b).string(), "hello");
    let (c, d) = row.split(0);
    assert_eq!(c.string(), "");
    assert_eq!(d.string(), "hello");
    let (e, f) = row.split(5);
    assert_eq!(e.string(), "hello");
    assert_eq!(f.string(), "");
    assert_eq!(row.duplicate().string(), "hello");
}

#[test]
fn row_matches_a_needle() {
    let row = Row::from("abcabc");
    let needle = vec!['b', 'c'];
    assert!(!row.matches(&needle, 0));
    assert!(row.matches(&needle, 1));
    assert!(row.matches(&needle, 4));
    assert!(!row.matches(&needle, 5));
    assert!(!row.matches(&needle, 6));
    assert!(!row.matches(&needle, 7));
    assert!(row.matches(&vec![], 6));
    assert!(!row.matches(&vec![], 7));
}

#[test]
fn row_renders_with_gutter() {
    let row = Row::from("ab日c");
    let expected = format!("{} 1 {}ab日c", NUMBER_FG, RESET_FG);
    assert_eq!(row.render(0, 20, 0, 3), expected);
    let expected = format!("{}  42 {}ab日c", NUMBER_FG, RESET_FG);
    assert_eq!(row.render(0, 20, 41, 5), expected);
}

#[test]
fn row_renders_the_window_only() {
    let row = Row::from("abcdefghij");
    let expected = format!("{} 1 {}cdefg", NUMBER_FG, RESET_FG);
    assert_eq!(row.render(2, 8, 0, 3), expected);
    let expected = format!("{} 1 {}", NUMBER_FG, RESET_FG);
    assert_eq!(row.render(10, 8, 0, 3), expected);
    assert_eq!(row.render(0, 3, 0, 3), expected);
    assert_eq!(row.render(0, 2, 0, 3), expected);
}

#[test]
fn row_renders_a_cut_wide_character_as_blanks() {
    let row = Row::from("ab日c");
    let expected = format!("{} 1 {} c", NUMBER_FG, RESET_FG);
    assert_eq!(row.render(3, 20, 0, 3), expected);
    let expected = format!("{} 1 {}ab ", NUMBER_FG, RESET_FG);
    assert_eq!(row.render(0, 6, 0, 3), expected);
}

#[test]
fn row_renders_a_placeholder_for_a_character_without_glyph() {
    let row = Row::from("a\tb");
    let expected = format!("{} 1 {}a\u{fffd}b", NUMBER_FG, RESET_FG);
    assert_eq!(row.render(0, 20, 0, 3), expected);
}

#[test]
fn row_visible_columns() {
    let row = Row::from("abcdefghij");
    assert_eq!(row.visible_columns(0, 5), 5);
    assert_eq!(row.visible_columns(7, 5), 3);
    assert_eq!(row.visible_columns(10, 5), 0);
    assert_eq!(row.visible_columns(12, 5), 0);
    assert_eq!(row.visible_columns(0, 50), 10);
}

#[test]
fn new_document_is_one_empty_row() {
    let doc = Document::new();
    assert_eq!(doc.len(), 1);
    assert_eq!(doc.row(0).string(), "");
    assert_eq!(doc.name(), "[No name]");
    assert_eq!(doc.path(), "");
    assert_eq!(doc.undo_len(), 0);
    assert_eq!(doc.redo_len(), 0);
    assert_eq!(doc.identify(), "Unknown");
}

#[test]
fn document_from_text_splits_lines() {
    let doc = Document::from("notes.txt", "a\nb\n");
    assert_eq!(doc.len(), 2);
    assert_eq!(doc.row(0).string(), "a");
    assert_eq!(doc.row(1).string(), "b");
    assert_eq!(doc.name(), "notes.txt");
    assert_eq!(doc.path(), "notes.txt");
    let doc = Document::from("x", "a\n\nb");
    assert_eq!(doc.len(), 3);
    assert_eq!(doc.row(1).string(), "");
    assert_eq!(doc.row(2).string(), "b");
    let doc = Document::from("x", "");
    assert_eq!(doc.len(), 1);
    assert_eq!(doc.row(0).string(), "");
    let doc = Document::from("x", "\n");
    assert_eq!(doc.len(), 1);
    assert_eq!(doc.row(0).string(), "");
    let doc = Document::from("x", "\n\n");
    assert_eq!(doc.len(), 2);
}

#[test]
fn document_contents_close_each_row() {
    assert_eq!(Document::from("x", "a\nb").contents(), "a\nb\n");
    assert_eq!(Document::from("x", "a\nb\n").contents(), "a\nb\n");
    assert_eq!(Document::new().contents(), "\n");
    assert_eq!(Document::from("x", "日本\n\nz").contents(), "日本\n\nz\n");
}

#[test]
fn document_identifies_file_types() {
    assert_eq!(Document::from("main.rs", "").identify(), "Rust");
    assert_eq!(Document::from("a.b.py", "").identify(), "Python");
    assert_eq!(Document::from("x.c", "").identify(), "C");
    assert_eq!(Document::from("x.h", "").identify(), "C Header");
    assert_eq!(Document::from("x.cpp", "").identify(), "C++");
    assert_eq!(Document::from("x.js", "").identify(), "JavaScript");
    assert_eq!(Document::from("x.html", "").identify(), "HTML");
    assert_eq!(Document::from("x.css", "").identify(), "CSS");
    assert_eq!(Document::from("README.md", "").identify(), "Markdown");
    assert_eq!(Document::from("Cargo.toml", "").identify(), "TOML");
    assert_eq!(Document::from("x.json", "").identify(), "JSON");
    assert_eq!(Document::from("x.sh", "").identify(), "Shell");
    assert_eq!(Document::from("x.txt", "").identify(), "Plain Text");
    assert_eq!(Document::from("Makefile", "").identify(), "Unknown");
    assert_eq!(Document::from("rs", "").identify(), "Rust");
    assert_eq!(Document::from("x.", "").identify(), "Unknown");
}

#[test]
fn document_gutter_fits_the_row_count() {
    let mut doc = Document::from("x", "1\n2\n3\n4\n5\n6\n7\n8\n9");
    assert_eq!(doc.recalculate_offset(), 3);
    let mut doc = Document::from("x", "1\n2\n3\n4\n5\n6\n7\n8\n9\n10");
    assert_eq!(doc.recalculate_offset(), 4);
    let mut doc = Document::new();
    assert_eq!(doc.recalculate_offset(), 3);
}

#[test]
fn document_scan_finds_every_match_in_order() {
    let doc = Document::from("x", "abab\nxx\nbab");
    let points = doc.scan(&vec!['a', 'b']);
    assert_eq!(
        points,
        vec![
            Position { x: 0, y: 0 },
            Position { x: 2, y: 0 },
            Position { x: 1, y: 2 },
        ]
    );
    assert!(doc.scan(&vec!['z']).is_empty());
}

#[test]
fn document_scan_finds_overlapping_matches() {
    let doc = Document::from("x", "aaa");
    let points = doc.scan(&vec!['a', 'a']);
    assert_eq!(points, vec![Position { x: 0, y: 0 }, Position { x: 1, y: 0 }]);
}

#[test]
fn document_scan_reports_columns() {
    let doc = Document::from("x", "日本語x語");
    let points = doc.scan(&vec!['語']);
    assert_eq!(points, vec![Position { x: 4, y: 0 }, Position { x: 7, y: 0 }]);
}

#[test]
fn document_scan_of_nothing_finds_every_boundary() {
    let doc = Document::from("x", "a日\n");
    let points = doc.scan(&vec![]);
    assert_eq!(
        points,
        vec![
            Position { x: 0, y: 0 },
            Position { x: 1, y: 0 },
            Position { x: 3, y: 0 },
        ]
    );
}

#[test]
fn written_text_reads_back_as_the_rows() {
    for text in ["a\nb\n", "", "\n\n", "日本\n\nz", "one"] {
        let doc = Document::from("x", text);
        let again = Document::from("x", &doc.contents());
        assert_eq!(again.len(), doc.len());
        for y in 0..doc.len() {
            assert_eq!(again.row(y).string(), doc.row(y).string());
        }
        assert_eq!(again.contents(), doc.contents());
    }
}
