use ox::document::Document;
use ox::editor::Editor;
use ox::editor::Key;
use ox::editor::Mode;
use ox::editor::Request;
use ox::editor::Severity;
use ox::editor::Terminal;

struct Dice {
    state: u64,
}

impl Dice {
    fn roll(&mut self, sides: u64) -> u64 {
        self.state = self
            .state
            .wrapping_mul(6364136223846793005)
            .wrapping_add(1442695040888963407);
        (self.state >> 33) % sides
    }
}

fn rows(editor: &Editor) -> Vec<String> {
    let doc = editor.document();
    (0..doc.len()).map(|y| doc.row(y).string()).collect()
}

fn some_key(dice: &mut Dice) -> Key {
    let letters = ['a', 'b', ' ', '日', 'é', '\u{17d8}', '\u{301}', 'z'];
    match dice.roll(20) {
        0 | 1 | 2 | 3 => Key::Char(letters[dice.roll(8) as usize]),
        4 => Key::Char('\n'),
        5 => Key::Char('\t'),
        6 | 7 => Key::Backspace,
        8 => Key::Left,
        9 => Key::Right,
        10 => Key::Up,
        11 => Key::Down,
        12 => Key::Home,
        13 => Key::End,
        14 => Key::PageUp,
        15 => Key::PageDown,
        16 => Key::Ctrl('u'),
        17 => Key::Ctrl('y'),
        18 => Key::Ctrl('f'),
        _ => Key::Esc,
    }
}

fn check(editor: &Editor) {
    let cursor = editor.cursor();
    let offset = editor.offset();
    let doc = editor.document();
    assert!(cursor.y <= editor.max_y());
    assert!(cursor.x <= editor.columns());
    let y = cursor.y + offset.y;
    let x = cursor.x + offset.x;
    assert!(y < doc.len());
    let row = doc.row(y);
    assert!(x <= row.length());
    assert!(editor.graphemes() <= row.len());
    assert_eq!(row.width_to(editor.graphemes()), x);
    assert!(row.boundaries().contains(&x));
    assert_eq!(row.index_at(x), editor.graphemes());
    assert_eq!(editor.render().len(), usize::from(editor.terminal().height));
}

fn wander(seed: u64, width: u16, height: u16, steps: usize) {
    let mut dice = Dice { state: seed };
    let mut editor = Editor::new(Terminal { width, height }, true);
    editor.load(Some(Document::from("soak.txt", "alpha\n日本語 text\n\nlast row")));
    let start = rows(&editor);
    check(&editor);
    for step in 0..steps {
        let key = some_key(&mut dice);
        let request = editor.process_input(key);
        assert_eq!(request, Request::Nothing);
        check(&editor);
        if step % 97 == 0 {
            editor.resize(1 + dice.roll(40) as u16, dice.roll(12) as u16);
            check(&editor);
        }
        if step % 31 == 0 {
            let frame = editor.update();
            assert_eq!(frame.cursor.y, editor.cursor().y);
            check(&editor);
        }
    }
    if editor.mode() != Mode::Normal {
        editor.process_input(Key::Esc);
    }
    assert_eq!(editor.mode(), Mode::Normal);
    let mut undone = 0;
    let recorded = editor.document().undo_len();
    let waiting = editor.document().redo_len();
    loop {
        editor.undo();
        check(&editor);
        if editor.severity() == Severity::Error {
            break;
        }
        undone += 1;
    }
    assert_eq!(undone, recorded);
    assert_eq!(rows(&editor), start);
    assert_eq!(editor.document().redo_len(), recorded + waiting);
    loop {
        editor.redo();
        check(&editor);
        if editor.severity() == Severity::Error {
            break;
        }
    }
    assert_eq!(editor.document().undo_len(), recorded + waiting);
    assert_eq!(editor.document().redo_len(), 0);
}

#[test]
fn invariant_holds_on_a_wide_terminal() {
    wander(1, 80, 24, 3000);
}

#[test]
fn invariant_holds_on_a_narrow_terminal() {
    wander(2, 9, 6, 3000);
}

#[test]
fn invariant_holds_on_a_tiny_terminal() {
    wander(3, 3, 2, 2000);
    wander(4, 1, 0, 2000);
}

#[test]
fn invariant_holds_for_many_seeds() {
    for seed in 10..40 {
        wander(seed, 12 + (seed as u16 % 7), 4 + (seed as u16 % 5), 400);
    }
}
