//! The editor's state and its view as a mathematical value.
use vstd::prelude::*;
use vstd::string::StringExecFns;
use crate::cursor::lemma_clamp;
use crate::document::Document;
use crate::document::gutter_for;
use crate::edit::lemma_here;
use crate::event::Event;
use crate::event::future_ok;
use crate::event::history_ok;
use crate::event::rows_ok;
use crate::prompt::prompt_request;
use crate::row::text_columns;
use crate::text::string_of;
use crate::width::on_boundary;
use crate::width::width_to;

verus! {

/// A pair of coordinates: a cell of the screen, a scroll origin, or a column
/// and row of the document.
#[derive(Clone, Copy, Debug, PartialEq, Eq, Structural)]
pub struct Position {
    pub x: usize,
    pub y: usize,
}

/// How serious the message on the command line is.
#[derive(Clone, Copy, Debug, PartialEq, Eq, Structural)]
pub enum Severity {
    Error,
    Warning,
    Info,
}

/// A decoded key.
#[derive(Clone, Copy, Debug, PartialEq, Eq, Structural)]
pub enum Key {
    Char(char),
    Ctrl(char),
    Backspace,
    Left,
    Right,
    Up,
    Down,
    Home,
    End,
    PageUp,
    PageDown,
    Esc,
    /// Any key that the editor has no use for.
    Other,
}

/// What a prompt tells its reaction.
#[derive(Clone, Copy, Debug, PartialEq, Eq, Structural)]
pub enum PromptEvent {
    /// The command line was redrawn after a keystroke.
    Update,
    /// The text of the prompt changed.
    CharPress,
    /// A key that does not change the text was pressed.
    KeyPress(Key),
}

/// What a prompt asks for, which decides its label, its reaction to
/// keystrokes and what follows when it ends.
#[derive(Clone, Copy, Debug, PartialEq, Eq, Structural)]
pub enum PromptKind {
    Search,
    SaveAs,
    Open,
}

/// An action that discards the document, and so waits for consent while
/// there are unsaved changes.
#[derive(Clone, Copy, Debug, PartialEq, Eq, Structural)]
pub enum Subject {
    Quit,
    New,
    Open,
}

/// Who receives the next key.
#[derive(Clone, Copy, Debug, PartialEq, Eq, Structural)]
pub enum Mode {
    /// The editor itself.
    Normal,
    /// The question whether to go on with an action despite unsaved changes.
    Confirm(Subject),
    /// A prompt that collects a line of text.
    Prompt(PromptKind),
}

/// What the editor needs from outside after a key was handled.
#[derive(Clone, Copy, Debug, PartialEq, Eq, Structural)]
pub enum Request {
    /// Nothing.
    Nothing,
    /// Write the document to its path, then report with `save`.
    Save,
    /// Write the document to the path that was entered, then report with
    /// `save_as`.
    SaveAs,
    /// Read the file at the path that was entered, then report with `load`.
    Open,
}

/// The size of the terminal, in cells.
#[derive(Clone, Copy, Debug, PartialEq, Eq, Structural)]
pub struct Terminal {
    pub width: u16,
    pub height: u16,
}

/// The message on the command line.
pub struct CommandLine {
    pub(crate) msg: Severity,
    pub(crate) text: String,
}

/// The editor: a document, a terminal size, and where the cursor is.
pub struct Editor {
    pub(crate) quit: bool,
    pub(crate) show_welcome: bool,
    pub(crate) dirty: bool,
    pub(crate) graphemes: usize,
    pub(crate) command_line: CommandLine,
    pub(crate) term: Terminal,
    pub(crate) cursor: Position,
    pub(crate) doc: Document,
    pub(crate) offset: Position,
    pub(crate) mode: Mode,
    pub(crate) input: Vec<char>,
    pub(crate) saved_cursor: Position,
    pub(crate) saved_offset: Position,
}

/// A pair of coordinates as mathematical integers.
pub struct Point {
    pub x: int,
    pub y: int,
}

/// The editor as a mathematical value.
#[verifier::ext_equal]
pub struct State {
    /// The cells of each row of the document.
    pub rows: Seq<Seq<char>>,
    /// The undo stack, the latest edit last.
    pub undo: Seq<Event>,
    /// The redo stack, the next edit to make again last.
    pub redo: Seq<Event>,
    /// The document's name.
    pub name: Seq<char>,
    /// The document's path.
    pub path: Seq<char>,
    /// Columns of the gutter.
    pub gutter: nat,
    /// Columns of the terminal.
    pub width: nat,
    /// Rows of the terminal.
    pub height: nat,
    /// The cursor, relative to the text window.
    pub cursor: Point,
    /// The scroll origin: the document position of the window's first cell.
    pub offset: Point,
    /// The index, within its row, of the cell the cursor stands before.
    pub graphemes: int,
    pub quit: bool,
    pub show_welcome: bool,
    pub dirty: bool,
    pub severity: Severity,
    pub message: Seq<char>,
    pub mode: Mode,
    /// The text of the prompt.
    pub input: Seq<char>,
    /// Cursor and scroll origin at the time a search began.
    pub saved_cursor: Point,
    pub saved_offset: Point,
}

impl Position {
    /// The position as a pair of integers.
    pub open spec fn point(self) -> Point {
        Point { x: self.x as int, y: self.y as int }
    }
}

impl View for Editor {
    type V = State;

    open(crate) spec fn view(&self) -> State {
        State {
            rows: self.doc.text(),
            undo: self.doc.undo_events(),
            redo: self.doc.redo_events(),
            name: self.doc.name_view(),
            path: self.doc.path_view(),
            gutter: self.doc.gutter(),
            width: self.term.width as nat,
            height: self.term.height as nat,
            cursor: self.cursor.point(),
            offset: self.offset.point(),
            graphemes: self.graphemes as int,
            quit: self.quit,
            show_welcome: self.show_welcome,
            dirty: self.dirty,
            severity: self.command_line.msg,
            message: self.command_line.text@,
            mode: self.mode,
            input: self.input@,
            saved_cursor: self.saved_cursor.point(),
            saved_offset: self.saved_offset.point(),
        }
    }
}

impl State {
    /// The last screen row the cursor may stand on: two rows below the text
    /// are kept for the status line and the command line.
    pub open spec fn max_y(self) -> int {
        if self.height >= 3 {
            self.height - 3
        } else {
            0
        }
    }

    /// Columns of the text window.
    pub open spec fn columns(self) -> int {
        text_columns(self.width, self.gutter) as int
    }

    /// The cursor's column in the document.
    pub open spec fn x(self) -> int {
        self.cursor.x + self.offset.x
    }

    /// The cursor's row in the document.
    pub open spec fn y(self) -> int {
        self.cursor.y + self.offset.y
    }

    /// The cells of the cursor's row.
    pub open spec fn row(self) -> Seq<char> {
        self.rows[self.y()]
    }

    /// Whether column `x` of row `y` is a place for the cursor.
    pub open spec fn addresses(self, x: int, y: int) -> bool {
        &&& 0 <= y < self.rows.len()
        &&& on_boundary(self.rows[y], x)
    }

    /// The document and what belongs to it are sound: the rows, the two
    /// stacks, and, during a search, the place to return to.
    pub open spec fn grounded(self) -> bool {
        &&& rows_ok(self.rows)
        &&& history_ok(self.rows, self.undo)
        &&& future_ok(self.rows, self.redo)
        &&& self.mode == Mode::Prompt(PromptKind::Search) ==> {
            &&& 0 <= self.saved_cursor.x
            &&& 0 <= self.saved_cursor.y
            &&& 0 <= self.saved_offset.x
            &&& 0 <= self.saved_offset.y
            &&& self.addresses(
                self.saved_cursor.x + self.saved_offset.x,
                self.saved_cursor.y + self.saved_offset.y,
            )
        }
    }

    /// The cursor is inside the text window and on a row of the document;
    /// its column may still be anywhere.
    pub open spec fn framed(self) -> bool {
        &&& self.grounded()
        &&& 0 <= self.cursor.y <= self.max_y()
        &&& 0 <= self.offset.y
        &&& self.y() < self.rows.len()
        &&& 0 <= self.cursor.x <= self.columns()
        &&& 0 <= self.offset.x
        &&& self.x() <= usize::MAX
    }

    /// The state with another message on the command line.
    pub open spec fn say(self, severity: Severity, message: Seq<char>) -> State {
        State { severity, message, ..self }
    }

    /// The cursor's position in the document.
    pub open spec fn here(self) -> Position {
        Position { x: self.x() as usize, y: self.y() as usize }
    }

    /// The invariant of the editor: the cursor is inside the text window, it
    /// addresses a row of the document and a column where a cell of that row
    /// starts or the row ends, and the cell index agrees with the column.
    pub open spec fn wf(self) -> bool {
        &&& self.framed()
        &&& 0 <= self.graphemes <= self.row().len()
        &&& width_to(self.row(), self.graphemes) == self.x()
    }
}

impl Editor {
    /// Replaces the message on the command line.
    pub fn set_command_line(&mut self, text: String, msg: Severity)
        ensures
            final(self)@ == old(self)@.say(msg, text@),
    {
        self.command_line = CommandLine { text, msg };
    }

    /// The cursor's position in the document.
    pub fn here(&self) -> (p: Position)
        requires
            self@.framed(),
        ensures
            p == self@.here(),
            p.x == self@.x(),
            p.y == self@.y(),
    {
        Position { x: self.cursor.x + self.offset.x, y: self.cursor.y + self.offset.y }
    }
}

impl State {
    /// The state of an editor that has just started on a terminal of the
    /// given size: one empty row, no history, the cursor at the start, a
    /// greeting on the command line, and the welcome screen shown or not as
    /// asked.
    pub open spec fn initial(width: nat, height: nat, show_welcome: bool) -> State {
        State {
            rows: seq![Seq::<char>::empty()],
            undo: Seq::empty(),
            redo: Seq::empty(),
            name: "[No name]"@,
            path: Seq::empty(),
            gutter: gutter_for(1),
            width,
            height,
            cursor: Point { x: 0, y: 0 },
            offset: Point { x: 0, y: 0 },
            graphemes: 0,
            quit: false,
            show_welcome,
            dirty: false,
            severity: Severity::Info,
            message: "Welcome to Ox!"@,
            mode: Mode::Normal,
            input: Seq::empty(),
            saved_cursor: Point { x: 0, y: 0 },
            saved_offset: Point { x: 0, y: 0 },
        }
    }

    /// What a key does while the editor itself has the keys. Characters and
    /// Backspace edit, Ctrl keys are commands, arrows move and the leap keys
    /// leap. An edit that the document has no room for is refused with an
    /// error on the command line.
    pub open spec fn normal_key(self, key: Key) -> State {
        match key {
            Key::Char(c) => if self.has_room(c) {
                self.character(c)
            } else {
                self.say(Severity::Error, "No room left"@)
            },
            Key::Backspace => if self.can_backspace() {
                self.backspace()
            } else {
                self.say(Severity::Error, "No room left"@)
            },
            Key::Ctrl(c) => if c == 'q' {
                self.attempt(Subject::Quit)
            } else if c == 'w' {
                self.prompt(PromptKind::SaveAs)
            } else if c == 'n' {
                self.attempt(Subject::New)
            } else if c == 'o' {
                self.attempt(Subject::Open)
            } else if c == 'f' {
                self.prompt(PromptKind::Search)
            } else if c == 'u' {
                self.undo()
            } else if c == 'y' {
                self.redo()
            } else {
                self
            },
            Key::Left => self.moved(key),
            Key::Right => self.moved(key),
            Key::Up => self.moved(key),
            Key::Down => self.moved(key),
            Key::PageUp => self.leaped(key),
            Key::PageDown => self.leaped(key),
            Key::Home => self.leaped(key),
            Key::End => self.leaped(key),
            _ => self,
        }
    }

    /// The state after a key, by who has the keys.
    pub open spec fn step(self, key: Key) -> State {
        match self.mode {
            Mode::Normal => self.normal_key(key),
            Mode::Confirm(subject) => self.confirm(subject, key),
            Mode::Prompt(kind) => self.prompt_key(kind, key),
        }
    }

    /// What a key asks of the outside: Ctrl+S a save, and Return in a prompt
    /// for a path the file operation.
    pub open spec fn request(self, key: Key) -> Request {
        match self.mode {
            Mode::Normal => if key == Key::Ctrl('s') {
                Request::Save
            } else {
                Request::Nothing
            },
            Mode::Confirm(_) => Request::Nothing,
            Mode::Prompt(kind) => prompt_request(kind, key),
        }
    }

    /// The keys from index `from` on, handled in order until the editor has
    /// quit, a key asks something of the outside, or the keys are used up:
    /// the state reached, the index of the first key that was not handled,
    /// and what is asked.
    pub open spec fn run(self, keys: Seq<Key>, from: int) -> (State, int, Request)
        decreases keys.len() - from,
    {
        if self.quit || from < 0 || from >= keys.len() {
            (self, from, Request::Nothing)
        } else if self.request(keys[from]) != Request::Nothing {
            (self.step(keys[from]), from + 1, self.request(keys[from]))
        } else {
            self.step(keys[from]).run(keys, from + 1)
        }
    }

    /// The terminal resized: the cursor is brought back into the window.
    /// Its screen row is cut to the last text row of the new height; the
    /// scroll origin keeps its row and the document is left alone.
    pub open spec fn resize(self, width: nat, height: nat) -> State {
        State { width, height, ..self }.clamp()
    }
}

impl Editor {
    /// An editor for a terminal of the given size, with a new document and
    /// a greeting on the command line. The welcome screen is for an editor
    /// that starts without a file to open: `show_welcome` says whether it
    /// is shown.
    pub fn new(term: Terminal, show_welcome: bool) -> (editor: Editor)
        ensures
            editor@ == State::initial(term.width as nat, term.height as nat, show_welcome),
            editor@.wf(),
    {
        let editor = Editor {
            quit: false,
            show_welcome,
            dirty: false,
            command_line: CommandLine {
                text: String::from_str("Welcome to Ox!"),
                msg: Severity::Info,
            },
            term,
            graphemes: 0,
            cursor: Position { x: 0, y: 0 },
            offset: Position { x: 0, y: 0 },
            doc: Document::new(),
            mode: Mode::Normal,
            input: Vec::new(),
            saved_cursor: Position { x: 0, y: 0 },
            saved_offset: Position { x: 0, y: 0 },
        };
        assert(editor@.rows[0] =~= Seq::<char>::empty());
        assert(editor@.input =~= Seq::<char>::empty());
        editor
    }

    /// Handles one key, by who has the keys: the editor itself, the
    /// question about unsaved changes, or a prompt. The result says what the
    /// outside has to do before the next key.
    pub fn process_input(&mut self, key: Key) -> (request: Request)
        requires
            old(self)@.wf(),
        ensures
            final(self)@ == old(self)@.step(key),
            request == old(self)@.request(key),
            final(self)@.wf(),
    {
        match self.mode {
            Mode::Normal => self.normal_key(key),
            Mode::Confirm(subject) => {
                self.confirm(subject, key);
                Request::Nothing
            },
            Mode::Prompt(kind) => self.prompt_key(kind, key),
        }
    }

    /// Handles one key while the editor itself has the keys.
    fn normal_key(&mut self, key: Key) -> (request: Request)
        requires
            old(self)@.wf(),
            old(self)@.mode == Mode::Normal,
        ensures
            final(self)@ == old(self)@.normal_key(key),
            request == old(self)@.request(key),
            final(self)@.wf(),
    {
        proof {
            lemma_here(self@);
        }
        match key {
            Key::Char(c) => {
                if self.has_room(c) {
                    self.character(c);
                } else {
                    self.set_command_line(String::from_str("No room left"), Severity::Error);
                }
                Request::Nothing
            },
            Key::Backspace => {
                if self.can_backspace() {
                    self.backspace();
                } else {
                    self.set_command_line(String::from_str("No room left"), Severity::Error);
                }
                Request::Nothing
            },
            Key::Ctrl(c) => {
                if c == 'q' {
                    self.quit();
                } else if c == 's' {
                    return Request::Save;
                } else if c == 'w' {
                    self.prompt(PromptKind::SaveAs);
                } else if c == 'n' {
                    self.new_document();
                } else if c == 'o' {
                    self.open_document();
                } else if c == 'f' {
                    self.search();
                } else if c == 'u' {
                    self.undo();
                } else if c == 'y' {
                    self.redo();
                }
                Request::Nothing
            },
            Key::Left | Key::Right | Key::Up | Key::Down => {
                self.move_cursor(key);
                Request::Nothing
            },
            Key::PageUp | Key::PageDown | Key::Home | Key::End => {
                self.leap_cursor(key);
                Request::Nothing
            },
            _ => Request::Nothing,
        }
    }

    /// Handles the keys in order until the editor has quit, a key asks
    /// something of the outside, or the keys are used up. The result is the
    /// number of keys that were handled and what is asked.
    pub fn run(&mut self, keys: &Vec<Key>) -> (outcome: (usize, Request))
        requires
            old(self)@.wf(),
        ensures
            final(self)@ == old(self)@.run(keys@, 0).0,
            outcome.0 == old(self)@.run(keys@, 0).1,
            outcome.1 == old(self)@.run(keys@, 0).2,
            final(self)@.wf(),
    {
        let mut i: usize = 0;
        while !self.quit && i < keys.len()
            invariant
                i <= keys.len(),
                self@.wf(),
                old(self)@.run(keys@, 0) == self@.run(keys@, i as int),
            decreases keys.len() - i,
        {
            let request = self.process_input(keys[i]);
            i += 1;
            match request {
                Request::Nothing => {},
                _ => {
                    return (i, request);
                },
            }
        }
        (i, Request::Nothing)
    }

    /// Takes the new size of the terminal and brings the cursor back into
    /// the text window. A screen row below the last text row of the new
    /// height becomes that row; the scroll origin keeps its row and the
    /// rows of the document stay as they are, so the cursor may come to
    /// stand on a row further up. The screen column is cut to the new
    /// window with the column in the document kept, and the column then
    /// settles on the row that is addressed.
    pub fn resize(&mut self, width: u16, height: u16)
        requires
            old(self)@.wf(),
        ensures
            final(self)@ == old(self)@.resize(width as nat, height as nat),
            final(self)@.wf(),
            final(self)@.cursor.y == if old(self)@.cursor.y > final(self)@.max_y() {
                final(self)@.max_y()
            } else {
                old(self)@.cursor.y
            },
            final(self)@.offset.y == old(self)@.offset.y,
            final(self)@.rows == old(self)@.rows,
            final(self)@.undo == old(self)@.undo,
            final(self)@.redo == old(self)@.redo,
    {
        proof {
            lemma_here(self@);
            lemma_clamp(State { width: width as nat, height: height as nat, ..self@ });
        }
        self.term = Terminal { width, height };
        self.clamp();
    }

    /// The cursor, relative to the text window.
    pub fn cursor(&self) -> (p: Position)
        ensures
            p.point() == self@.cursor,
    {
        self.cursor
    }

    /// The scroll origin.
    pub fn offset(&self) -> (p: Position)
        ensures
            p.point() == self@.offset,
    {
        self.offset
    }

    /// The index, within its row, of the cell the cursor stands before.
    pub fn graphemes(&self) -> (g: usize)
        ensures
            g == self@.graphemes,
    {
        self.graphemes
    }

    /// Whether the editor has quit.
    pub fn has_quit(&self) -> (b: bool)
        ensures
            b == self@.quit,
    {
        self.quit
    }

    /// Whether the document has unsaved changes.
    pub fn is_dirty(&self) -> (b: bool)
        ensures
            b == self@.dirty,
    {
        self.dirty
    }

    /// Whether the welcome screen is shown.
    pub fn shows_welcome(&self) -> (b: bool)
        ensures
            b == self@.show_welcome,
    {
        self.show_welcome
    }

    /// Who receives the next key.
    pub fn mode(&self) -> (m: Mode)
        ensures
            m == self@.mode,
    {
        self.mode
    }

    /// How serious the message on the command line is.
    pub fn severity(&self) -> (s: Severity)
        ensures
            s == self@.severity,
    {
        self.command_line.msg
    }

    /// The message on the command line.
    pub fn message(&self) -> (s: &String)
        ensures
            s@ == self@.message,
    {
        &self.command_line.text
    }

    /// The text of the prompt: after a request for a file operation, the
    /// path that was entered.
    pub fn input(&self) -> (s: String)
        ensures
            s@ == self@.input,
    {
        string_of(&self.input)
    }

    /// The document.
    pub fn document(&self) -> (doc: &Document)
        ensures
            doc.text() == self@.rows,
            doc.undo_events() == self@.undo,
            doc.redo_events() == self@.redo,
            doc.name_view() == self@.name,
            doc.path_view() == self@.path,
            doc.gutter() == self@.gutter,
    {
        &self.doc
    }

    /// The size of the terminal.
    pub fn terminal(&self) -> (term: Terminal)
        ensures
            term.width == self@.width,
            term.height == self@.height,
    {
        self.term
    }
}

} // verus!
