use ox::document::Document;
use ox::editor::Editor;
use ox::editor::Key;
use ox::editor::Mode;
use ox::editor::Position;
use ox::editor::PromptEvent;
use ox::editor::PromptKind;
use ox::editor::Request;
use ox::editor::Severity;
use ox::editor::Subject;
use ox::editor::Terminal;

fn editor_with(width: u16, height: u16, content: &str) -> Editor {
    let mut editor = Editor::new(Terminal { width, height }, true);
    editor.load(Some(Document::from("test.txt", content)));
    editor
}

fn rows(editor: &Editor) -> Vec<String> {
    let doc = editor.document();
    (0..doc.len()).map(|y| doc.row(y).string()).collect()
}

fn place(editor: &Editor) -> (usize, usize) {
    (
        editor.cursor().x + editor.offset().x,
        editor.cursor().y + editor.offset().y,
    )
}

fn keys_of(text: &str) -> Vec<Key> {
    text.chars().map(Key::Char).collect()
}

#[test]
fn quit_without_changes_passes_at_once() {
    let mut editor = Editor::new(Terminal { width: 80, height: 24 }, true);
    assert!(!editor.is_dirty());
    editor.quit();
    assert!(editor.has_quit());
    assert_eq!(editor.mode(), Mode::Normal);
    assert_eq!(editor.message(), "Welcome to Ox!");
    assert_eq!(editor.severity(), Severity::Info);
}

#[test]
fn dirty_prompt_passes_without_changes() {
    let mut editor = Editor::new(Terminal { width: 80, height: 24 }, true);
    assert!(editor.dirty_prompt(Subject::Quit));
    assert_eq!(editor.mode(), Mode::Normal);
    assert!(!editor.has_quit());
    assert_eq!(editor.message(), "Welcome to Ox!");
}

#[test]
fn dirty_prompt_warns_of_changes() {
    let mut editor = Editor::new(Terminal { width: 80, height: 24 }, true);
    editor.character('a');
    assert!(!editor.dirty_prompt(Subject::New));
    assert_eq!(editor.mode(), Mode::Confirm(Subject::New));
    assert_eq!(editor.severity(), Severity::Warning);
    assert_eq!(editor.message(), "Unsaved Changes! Ctrl + N to force new");
}

#[test]
fn quit_with_changes_waits_for_a_key() {
    let mut editor = Editor::new(Terminal { width: 80, height: 24 }, true);
    editor.character('a');
    editor.quit();
    assert!(!editor.has_quit());
    assert_eq!(editor.mode(), Mode::Confirm(Subject::Quit));
    assert_eq!(editor.severity(), Severity::Warning);
    assert_eq!(editor.message(), "Unsaved Changes! Ctrl + Q to force quit");
}

#[test]
fn any_other_key_cancels_quit() {
    let mut editor = Editor::new(Terminal { width: 80, height: 24 }, true);
    editor.run(&vec![Key::Char('a'), Key::Ctrl('q'), Key::Char('y')]);
    assert!(!editor.has_quit());
    assert_eq!(editor.mode(), Mode::Normal);
    assert_eq!(editor.severity(), Severity::Info);
    assert_eq!(editor.message(), "Quit cancelled");
    assert_eq!(rows(&editor), vec!["a"]);
    editor.run(&vec![Key::Ctrl('q'), Key::Ctrl('n')]);
    assert!(!editor.has_quit());
    assert_eq!(editor.message(), "Quit cancelled");
    editor.run(&vec![Key::Ctrl('q'), Key::Esc]);
    assert!(!editor.has_quit());
}

#[test]
fn return_forces_quit() {
    let mut editor = Editor::new(Terminal { width: 80, height: 24 }, true);
    let (handled, _) = editor.run(&vec![Key::Char('a'), Key::Ctrl('q'), Key::Char('\n')]);
    assert_eq!(handled, 3);
    assert!(editor.has_quit());
}

#[test]
fn the_same_control_key_forces_quit() {
    let mut editor = Editor::new(Terminal { width: 80, height: 24 }, true);
    editor.run(&vec![Key::Char('a'), Key::Ctrl('q'), Key::Ctrl('q')]);
    assert!(editor.has_quit());
}

#[test]
fn confirm_decides_on_one_key() {
    let mut editor = Editor::new(Terminal { width: 80, height: 24 }, true);
    editor.character('a');
    editor.dirty_prompt(Subject::Open);
    editor.confirm(Subject::Open, Key::Left);
    assert_eq!(editor.mode(), Mode::Normal);
    assert_eq!(editor.message(), "Open cancelled");
    editor.dirty_prompt(Subject::Open);
    editor.confirm(Subject::Open, Key::Ctrl('o'));
    assert_eq!(editor.mode(), Mode::Prompt(PromptKind::Open));
    assert_eq!(editor.message(), "Open: ");
}

#[test]
fn new_document_replaces_a_clean_document() {
    let mut editor = editor_with(80, 24, "ab\ncd");
    editor.move_cursor(Key::Down);
    editor.leap_cursor(Key::End);
    editor.new_document();
    assert_eq!(rows(&editor), vec![""]);
    assert_eq!(place(&editor), (0, 0));
    assert_eq!(editor.graphemes(), 0);
    assert_eq!(editor.document().name(), "[No name]");
    assert_eq!(editor.document().path(), "");
    assert!(!editor.is_dirty());
    assert_eq!(editor.mode(), Mode::Normal);
}

#[test]
fn new_document_asks_before_discarding_changes() {
    let mut editor = editor_with(80, 24, "ab");
    editor.run(&vec![Key::Char('x'), Key::Ctrl('n')]);
    assert_eq!(rows(&editor), vec!["xab"]);
    assert_eq!(editor.message(), "Unsaved Changes! Ctrl + N to force new");
    editor.process_input(Key::Char('n'));
    assert_eq!(rows(&editor), vec!["xab"]);
    assert_eq!(editor.message(), "New cancelled");
    assert!(editor.is_dirty());
    editor.run(&vec![Key::Ctrl('n'), Key::Ctrl('n')]);
    assert_eq!(rows(&editor), vec![""]);
    assert!(!editor.is_dirty());
    assert_eq!(editor.document().undo_len(), 0);
}

#[test]
fn open_asks_for_a_path() {
    let mut editor = Editor::new(Terminal { width: 80, height: 24 }, true);
    editor.open_document();
    assert_eq!(editor.mode(), Mode::Prompt(PromptKind::Open));
    assert_eq!(editor.message(), "Open: ");
    let mut keys = keys_of("a.rs");
    keys.push(Key::Char('\n'));
    keys.push(Key::Char('z'));
    let (handled, request) = editor.run(&keys);
    assert_eq!(handled, 5);
    assert_eq!(request, Request::Open);
    assert_eq!(editor.input(), "a.rs");
    assert_eq!(editor.mode(), Mode::Normal);
    assert_eq!(editor.message(), "Open: a.rs");
    editor.load(Some(Document::from("a.rs", "fn main() {}\n")));
    assert_eq!(rows(&editor), vec!["fn main() {}"]);
    assert_eq!(editor.document().name(), "a.rs");
    assert_eq!(editor.document().identify(), "Rust");
    assert!(!editor.shows_welcome());
    assert!(!editor.is_dirty());
    assert_eq!(place(&editor), (0, 0));
}

#[test]
fn a_file_that_cannot_be_opened_is_reported() {
    let mut editor = editor_with(80, 24, "ab");
    editor.move_cursor(Key::Right);
    editor.load(None);
    assert_eq!(editor.severity(), Severity::Error);
    assert_eq!(editor.message(), "File couldn't be opened");
    assert_eq!(rows(&editor), vec!["ab"]);
    assert_eq!(place(&editor), (1, 0));
}

#[test]
fn open_with_changes_asks_first() {
    let mut editor = Editor::new(Terminal { width: 80, height: 24 }, true);
    editor.run(&vec![Key::Char('a'), Key::Ctrl('o')]);
    assert_eq!(editor.mode(), Mode::Confirm(Subject::Open));
    assert_eq!(editor.message(), "Unsaved Changes! Ctrl + O to force open");
    editor.process_input(Key::Char('x'));
    assert_eq!(editor.message(), "Open cancelled");
    assert_eq!(editor.mode(), Mode::Normal);
    editor.run(&vec![Key::Ctrl('o'), Key::Char('\n')]);
    assert_eq!(editor.mode(), Mode::Prompt(PromptKind::Open));
}

#[test]
fn escape_leaves_the_open_prompt() {
    let mut editor = Editor::new(Terminal { width: 80, height: 24 }, true);
    let (_, request) = editor.run(&vec![Key::Ctrl('o'), Key::Char('a'), Key::Esc]);
    assert_eq!(request, Request::Nothing);
    assert_eq!(editor.mode(), Mode::Normal);
    assert_eq!(editor.message(), "Open: a");
}

#[test]
fn save_reports_the_outcome() {
    let mut editor = editor_with(80, 24, "ab");
    editor.character('x');
    assert_eq!(editor.process_input(Key::Ctrl('s')), Request::Save);
    assert!(editor.is_dirty());
    editor.save(false);
    assert!(editor.is_dirty());
    assert_eq!(editor.severity(), Severity::Error);
    assert_eq!(editor.message(), "Failed to save file to test.txt");
    editor.save(true);
    assert!(!editor.is_dirty());
    assert_eq!(editor.severity(), Severity::Info);
    assert_eq!(editor.message(), "File saved to test.txt successfully");
    assert_eq!(editor.document().contents(), "xab\n");
}

#[test]
fn save_as_asks_for_a_path() {
    let mut editor = Editor::new(Terminal { width: 80, height: 24 }, true);
    editor.character('x');
    editor.process_input(Key::Ctrl('w'));
    assert_eq!(editor.mode(), Mode::Prompt(PromptKind::SaveAs));
    assert_eq!(editor.message(), "Save as: ");
    editor.run(&keys_of("n.txx"));
    assert_eq!(editor.message(), "Save as: n.txx");
    editor.process_input(Key::Backspace);
    editor.process_input(Key::Left);
    assert_eq!(editor.message(), "Save as: n.tx");
    assert_eq!(editor.process_input(Key::Backspace), Request::Nothing);
    assert_eq!(editor.process_input(Key::Char('\n')), Request::SaveAs);
    assert_eq!(editor.input(), "n.t");
    assert_eq!(rows(&editor), vec!["x"]);
    editor.save_as(false);
    assert_eq!(editor.severity(), Severity::Error);
    assert_eq!(editor.message(), "Failed to save file to n.t");
    assert_eq!(editor.document().name(), "[No name]");
    assert!(editor.is_dirty());
    editor.save_as(true);
    assert_eq!(editor.severity(), Severity::Info);
    assert_eq!(editor.message(), "File saved to n.t successfully");
    assert_eq!(editor.document().name(), "n.t");
    assert_eq!(editor.document().path(), "n.t");
    assert!(!editor.is_dirty());
}

#[test]
fn escape_cancels_save_as() {
    let mut editor = Editor::new(Terminal { width: 80, height: 24 }, true);
    let (_, request) = editor.run(&vec![Key::Ctrl('w'), Key::Char('a'), Key::Esc]);
    assert_eq!(request, Request::Nothing);
    assert_eq!(editor.mode(), Mode::Normal);
    assert_eq!(editor.severity(), Severity::Info);
    assert_eq!(editor.message(), "Save as cancelled");
}

#[test]
fn backspace_on_an_empty_prompt_keeps_it_empty() {
    let mut editor = Editor::new(Terminal { width: 80, height: 24 }, true);
    editor.run(&vec![Key::Ctrl('w'), Key::Backspace, Key::Backspace]);
    assert_eq!(editor.input(), "");
    assert_eq!(editor.message(), "Save as: ");
    assert_eq!(editor.mode(), Mode::Prompt(PromptKind::SaveAs));
}

#[test]
fn prompt_keys_do_not_edit_the_document() {
    let mut editor = editor_with(80, 24, "ab");
    editor.prompt(PromptKind::SaveAs);
    editor.prompt_key(PromptKind::SaveAs, Key::Char('x'));
    editor.prompt_key(PromptKind::SaveAs, Key::Char('\t'));
    editor.prompt_key(PromptKind::SaveAs, Key::Right);
    editor.prompt_key(PromptKind::SaveAs, Key::Ctrl('u'));
    assert_eq!(rows(&editor), vec!["ab"]);
    assert_eq!(place(&editor), (0, 0));
    assert_eq!(editor.input(), "x\t");
    assert!(!editor.is_dirty());
}

#[test]
fn search_jumps_to_the_first_match_after_the_cursor() {
    let mut editor = editor_with(80, 24, "abc\nabc\nxbx");
    editor.process_input(Key::Ctrl('f'));
    assert_eq!(editor.mode(), Mode::Prompt(PromptKind::Search));
    assert_eq!(editor.message(), "Search: ");
    editor.process_input(Key::Char('b'));
    assert_eq!(editor.message(), "Search: b");
    assert_eq!(place(&editor), (1, 0));
    assert_eq!(editor.graphemes(), 1);
    editor.process_input(Key::Char('c'));
    assert_eq!(place(&editor), (1, 0));
    editor.process_input(Key::Char('z'));
    assert_eq!(place(&editor), (0, 0));
    assert_eq!(editor.message(), "Search: bcz");
}

#[test]
fn search_arrows_move_between_matches() {
    let mut editor = editor_with(80, 24, "abc\nabc\nxbx");
    editor.run(&vec![Key::Ctrl('f'), Key::Char('b')]);
    assert_eq!(place(&editor), (1, 0));
    editor.process_input(Key::Right);
    assert_eq!(place(&editor), (1, 1));
    editor.process_input(Key::Down);
    assert_eq!(place(&editor), (1, 2));
    editor.process_input(Key::Down);
    assert_eq!(place(&editor), (1, 2));
    editor.process_input(Key::Left);
    assert_eq!(place(&editor), (1, 1));
    editor.process_input(Key::Up);
    assert_eq!(place(&editor), (1, 0));
    editor.process_input(Key::Up);
    assert_eq!(place(&editor), (1, 0));
    editor.process_input(Key::Home);
    assert_eq!(place(&editor), (1, 0));
    assert_eq!(editor.message(), "Search: b");
    assert_eq!(rows(&editor), vec!["abc", "abc", "xbx"]);
}

#[test]
fn search_skips_a_match_under_the_cursor() {
    let mut editor = editor_with(80, 24, "bab");
    editor.run(&vec![Key::Ctrl('f'), Key::Char('b')]);
    assert_eq!(place(&editor), (2, 0));
    editor.process_input(Key::Left);
    assert_eq!(place(&editor), (0, 0));
}

#[test]
fn escape_puts_the_cursor_back() {
    let mut editor = editor_with(80, 5, "a\nb\nc\nd\ne\nf\nneedle\nh");
    editor.move_cursor(Key::Down);
    editor.move_cursor(Key::Right);
    let cursor = editor.cursor();
    let offset = editor.offset();
    let mut keys = vec![Key::Ctrl('f')];
    keys.extend(keys_of("needle"));
    editor.run(&keys);
    assert_eq!(place(&editor), (0, 6));
    assert_ne!(editor.offset(), offset);
    let (_, request) = editor.run(&vec![Key::Esc]);
    assert_eq!(request, Request::Nothing);
    assert_eq!(editor.cursor(), cursor);
    assert_eq!(editor.offset(), offset);
    assert_eq!(editor.graphemes(), 1);
    assert_eq!(editor.mode(), Mode::Normal);
    assert_eq!(editor.severity(), Severity::Info);
    assert_eq!(editor.message(), "Search exited");
}

#[test]
fn return_leaves_the_cursor_on_the_match() {
    let mut editor = editor_with(80, 24, "one\ntwo\nthree");
    let mut keys = vec![Key::Ctrl('f')];
    keys.extend(keys_of("th"));
    keys.push(Key::Char('\n'));
    let (handled, request) = editor.run(&keys);
    assert_eq!(handled, 4);
    assert_eq!(request, Request::Nothing);
    assert_eq!(place(&editor), (0, 2));
    assert_eq!(editor.mode(), Mode::Normal);
    assert_eq!(editor.message(), "Search exited");
}

#[test]
fn search_starts_over_when_the_text_changes() {
    let mut editor = editor_with(80, 24, "ab\nabc\nabcd");
    editor.move_cursor(Key::Right);
    let mut keys = vec![Key::Ctrl('f')];
    keys.extend(keys_of("abc"));
    editor.run(&keys);
    assert_eq!(place(&editor), (0, 1));
    editor.process_input(Key::Char('d'));
    assert_eq!(place(&editor), (0, 2));
    editor.process_input(Key::Backspace);
    assert_eq!(place(&editor), (0, 1));
    editor.run(&vec![Key::Backspace, Key::Backspace, Key::Backspace]);
    assert_eq!(editor.input(), "");
    assert_eq!(place(&editor), (1, 0));
}

#[test]
fn search_reports_columns_of_wide_text() {
    let mut editor = editor_with(80, 24, "日本語の本");
    editor.run(&vec![Key::Ctrl('f'), Key::Char('本')]);
    assert_eq!(place(&editor), (2, 0));
    assert_eq!(editor.graphemes(), 1);
    editor.process_input(Key::Right);
    assert_eq!(place(&editor), (8, 0));
    assert_eq!(editor.graphemes(), 4);
}

#[test]
fn search_scrolls_to_a_match_out_of_view() {
    let content = (0..40).map(|i| format!("line {}", i)).collect::<Vec<_>>().join("\n");
    let mut editor = editor_with(80, 10, &content);
    let mut keys = vec![Key::Ctrl('f')];
    keys.extend(keys_of("line 30"));
    editor.run(&keys);
    assert_eq!(place(&editor), (0, 30));
    assert_eq!((editor.cursor().y, editor.offset().y), (7, 23));
    editor.run(&vec![Key::Char('\n'), Key::Ctrl('f')]);
    editor.run(&keys_of("line 2"));
    assert_eq!(place(&editor), (0, 30));
    editor.process_input(Key::Left);
    assert_eq!(place(&editor), (0, 29));
    assert_eq!((editor.cursor().y, editor.offset().y), (6, 23));
    editor.run(&vec![Key::Left; 10]);
    assert_eq!(place(&editor), (0, 2));
    assert_eq!((editor.cursor().y, editor.offset().y), (2, 0));
}

#[test]
fn search_reaction_alone() {
    let mut editor = editor_with(80, 24, "xaxa");
    editor.search();
    editor.search_react(PromptEvent::Update);
    assert_eq!(place(&editor), (0, 0));
    editor.search_react(PromptEvent::KeyPress(Key::Other));
    assert_eq!(place(&editor), (0, 0));
    editor.search_react(PromptEvent::CharPress);
    assert_eq!(place(&editor), (0, 0));
    editor.search_react(PromptEvent::KeyPress(Key::Right));
    assert_eq!(place(&editor), (1, 0));
    editor.search_react(PromptEvent::KeyPress(Key::Esc));
    assert_eq!(place(&editor), (0, 0));
    assert_eq!(editor.cursor(), Position { x: 0, y: 0 });
}

#[test]
fn set_command_line_replaces_the_message() {
    let mut editor = Editor::new(Terminal { width: 80, height: 24 }, true);
    editor.set_command_line("one".to_string(), Severity::Warning);
    assert_eq!(editor.message(), "one");
    assert_eq!(editor.severity(), Severity::Warning);
    editor.set_command_line("two".to_string(), Severity::Error);
    assert_eq!(editor.message(), "two");
    assert_eq!(editor.severity(), Severity::Error);
}
