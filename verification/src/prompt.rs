//! The prompt protocol and the commands that use it: a prompt collects a
//! line of text key by key, and the question about unsaved changes waits for
//! one key.
use vstd::prelude::*;
use vstd::string::StringExecFns;
use crate::document::Document;
use crate::document::gutter_for;
use crate::edit::lemma_here;
use crate::editor::Editor;
use crate::editor::Key;
use crate::editor::Mode;
use crate::editor::PromptEvent;
use crate::editor::PromptKind;
use crate::editor::Request;
use crate::editor::Severity;
use crate::editor::State;
use crate::editor::Subject;
use crate::event::lemma_origin_valid;
use crate::search::lemma_search_react;
use crate::text::push_chars;

verus! {

impl PromptKind {
    /// What the prompt shows before the text.
    pub open spec fn label(self) -> Seq<char> {
        match self {
            PromptKind::Search => "Search"@,
            PromptKind::SaveAs => "Save as"@,
            PromptKind::Open => "Open"@,
        }
    }

    /// What the prompt shows before the text.
    pub fn name(self) -> (s: &'static str)
        ensures
            s@ == self.label(),
    {
        match self {
            PromptKind::Search => "Search",
            PromptKind::SaveAs => "Save as",
            PromptKind::Open => "Open",
        }
    }
}

impl Subject {
    /// The letter that, with Ctrl, starts the action and forces it.
    pub open spec fn letter(self) -> char {
        match self {
            Subject::Quit => 'q',
            Subject::New => 'n',
            Subject::Open => 'o',
        }
    }

    /// The warning about unsaved changes.
    pub open spec fn warning(self) -> Seq<char> {
        match self {
            Subject::Quit => "Unsaved Changes! Ctrl + Q to force quit"@,
            Subject::New => "Unsaved Changes! Ctrl + N to force new"@,
            Subject::Open => "Unsaved Changes! Ctrl + O to force open"@,
        }
    }

    /// What the command line says when the action is called off.
    pub open spec fn cancelled(self) -> Seq<char> {
        match self {
            Subject::Quit => "Quit cancelled"@,
            Subject::New => "New cancelled"@,
            Subject::Open => "Open cancelled"@,
        }
    }

    /// The letter that, with Ctrl, starts the action and forces it.
    pub fn key(self) -> (c: char)
        ensures
            c == self.letter(),
    {
        match self {
            Subject::Quit => 'q',
            Subject::New => 'n',
            Subject::Open => 'o',
        }
    }
}

impl State {
    /// A prompt begins: its label is on the command line, its text is
    /// empty, and the cursor and scroll origin are kept for the way back.
    pub open spec fn prompt(self, kind: PromptKind) -> State {
        State {
            mode: Mode::Prompt(kind),
            input: Seq::empty(),
            saved_cursor: self.cursor,
            saved_offset: self.offset,
            ..self
        }.say(Severity::Info, kind.label() + ": "@)
    }

    /// The document replaced by a new, empty one, with the cursor at its
    /// start.
    pub open spec fn fresh(self) -> State {
        State {
            rows: seq![Seq::<char>::empty()],
            undo: Seq::empty(),
            redo: Seq::empty(),
            name: "[No name]"@,
            path: Seq::empty(),
            gutter: gutter_for(1),
            dirty: false,
            ..self
        }.to_row(0, 0).home()
    }

    /// The action itself, once nothing stands in its way.
    pub open spec fn perform(self, subject: Subject) -> State {
        match subject {
            Subject::Quit => State { quit: true, ..self },
            Subject::New => self.fresh(),
            Subject::Open => self.prompt(PromptKind::Open),
        }
    }

    /// The guard before an action that discards the document: with unsaved
    /// changes the warning is shown and the next key decides; without, the
    /// state stays as it is and the action may go on.
    pub open spec fn dirty_prompt(self, subject: Subject) -> State {
        if self.dirty {
            State { mode: Mode::Confirm(subject), ..self }.say(
                Severity::Warning,
                subject.warning(),
            )
        } else {
            self
        }
    }

    /// An action that discards the document: performed at once where
    /// nothing is unsaved, else held at the guard.
    pub open spec fn attempt(self, subject: Subject) -> State {
        if self.dirty {
            self.dirty_prompt(subject)
        } else {
            self.perform(subject)
        }
    }

    /// The key after the warning: Return or the action's own Ctrl key force
    /// the action; any other key calls it off.
    pub open spec fn confirm(self, subject: Subject, key: Key) -> State {
        let back = State { mode: Mode::Normal, ..self };
        if key == Key::Char('\n') || key == Key::Ctrl(subject.letter()) {
            back.perform(subject)
        } else {
            back.say(Severity::Info, subject.cancelled())
        }
    }

    /// The reaction of a prompt to an event: the search prompt moves the
    /// cursor, the others do nothing.
    pub open spec fn react(self, kind: PromptKind, event: PromptEvent) -> State {
        if kind == PromptKind::Search {
            self.search_react(event)
        } else {
            self
        }
    }

    /// The command line redrawn with the prompt's label and text.
    pub open spec fn redraw(self, kind: PromptKind) -> State {
        self.say(Severity::Info, kind.label() + ": "@ + self.input)
    }

    /// A prompt ends with Return: the editor takes the keys again, and the
    /// search says that it is over.
    pub open spec fn commit(self, kind: PromptKind) -> State {
        let back = State { mode: Mode::Normal, ..self };
        if kind == PromptKind::Search {
            back.say(Severity::Info, "Search exited"@)
        } else {
            back
        }
    }

    /// A prompt ends with Escape, after its reaction to that key.
    pub open spec fn cancel(self, kind: PromptKind) -> State {
        let reacted = self.react(kind, PromptEvent::KeyPress(Key::Esc));
        let back = State { mode: Mode::Normal, ..reacted };
        match kind {
            PromptKind::Search => back.say(Severity::Info, "Search exited"@),
            PromptKind::SaveAs => back.say(Severity::Info, "Save as cancelled"@),
            PromptKind::Open => back,
        }
    }

    /// What follows each keystroke that does not end the prompt: the
    /// reaction to it, the command line redrawn, and the reaction to that.
    pub open spec fn echoed(self, kind: PromptKind, event: PromptEvent) -> State {
        self.react(kind, event).redraw(kind).react(kind, PromptEvent::Update)
    }

    /// One key for a prompt. Return ends it with its text; Escape ends it
    /// without; a character is appended to the text, Backspace takes the
    /// last one off; any other key is left to the reaction.
    pub open spec fn prompt_key(self, kind: PromptKind, key: Key) -> State {
        match key {
            Key::Char(c) => if c == '\n' {
                self.commit(kind)
            } else {
                State { input: self.input.push(c), ..self }.echoed(kind, PromptEvent::CharPress)
            },
            Key::Backspace => State {
                input: if self.input.len() > 0 {
                    self.input.drop_last()
                } else {
                    self.input
                },
                ..self
            }.echoed(kind, PromptEvent::CharPress),
            Key::Esc => self.cancel(kind),
            _ => self.echoed(kind, PromptEvent::KeyPress(key)),
        }
    }

    /// What the state after a save to the document's own path is: the
    /// outcome is on the command line, and a document that was written has
    /// no unsaved changes.
    pub open spec fn save(self, ok: bool) -> State {
        if ok {
            State { dirty: false, ..self }.say(
                Severity::Info,
                "File saved to "@ + self.path + " successfully"@,
            )
        } else {
            self.say(Severity::Error, "Failed to save file to "@ + self.path)
        }
    }

    /// What the state after a save to the path of the prompt is: as after a
    /// save, and a document that was written has that path and name.
    pub open spec fn save_as(self, ok: bool) -> State {
        if ok {
            State { dirty: false, name: self.input, path: self.input, ..self }.say(
                Severity::Info,
                "File saved to "@ + self.input + " successfully"@,
            )
        } else {
            self.say(Severity::Error, "Failed to save file to "@ + self.input)
        }
    }

    /// The document replaced by one that was opened, with the cursor at its
    /// start.
    pub open spec fn opened(self, doc: Document) -> State {
        State {
            rows: doc.text(),
            undo: doc.undo_events(),
            redo: doc.redo_events(),
            name: doc.name_view(),
            path: doc.path_view(),
            gutter: doc.gutter(),
            dirty: false,
            show_welcome: false,
            ..self
        }.to_row(0, 0).home()
    }

    /// What the state after an attempt to open a file is.
    pub open spec fn load(self, outcome: Option<Document>) -> State {
        match outcome {
            Some(doc) => self.opened(doc),
            None => self.say(Severity::Error, "File couldn't be opened"@),
        }
    }
}

/// What a prompt asks of the outside when a key ends it: a prompt for a path
/// that ends with Return asks for the file operation.
pub open spec fn prompt_request(kind: PromptKind, key: Key) -> Request {
    if key == Key::Char('\n') {
        match kind {
            PromptKind::Search => Request::Nothing,
            PromptKind::SaveAs => Request::SaveAs,
            PromptKind::Open => Request::Open,
        }
    } else {
        Request::Nothing
    }
}

/// Beginning a prompt keeps the invariant.
pub proof fn lemma_prompt(s: State, kind: PromptKind)
    requires
        s.wf(),
    ensures
        s.prompt(kind).wf(),
{
    lemma_here(s);
}

/// A new document keeps the invariant.
pub proof fn lemma_fresh(s: State)
    requires
        s.mode == Mode::Normal,
        s.max_y() >= 0,
    ensures
        s.fresh().wf(),
{
    let t = s.fresh();
    assert(t.rows[0] =~= Seq::<char>::empty());
}

/// An action, forced or free, keeps the invariant.
pub proof fn lemma_perform(s: State, subject: Subject)
    requires
        s.wf(),
        s.mode == Mode::Normal,
    ensures
        s.perform(subject).wf(),
{
    lemma_fresh(s);
    lemma_prompt(s, PromptKind::Open);
}

/// The reaction of a prompt keeps the invariant, the mode and the text.
pub proof fn lemma_react(s: State, kind: PromptKind, event: PromptEvent)
    requires
        s.wf(),
        s.mode == Mode::Prompt(kind),
    ensures
        s.react(kind, event).wf(),
        s.same_but_cursor(s.react(kind, event)),
{
    if kind == PromptKind::Search {
        lemma_search_react(s, event);
    }
}

/// What follows a keystroke in a prompt keeps the invariant and the mode.
pub proof fn lemma_echoed(s: State, kind: PromptKind, event: PromptEvent)
    requires
        s.wf(),
        s.mode == Mode::Prompt(kind),
    ensures
        s.echoed(kind, event).wf(),
        s.echoed(kind, event).mode == s.mode,
{
    lemma_react(s, kind, event);
    let a = s.react(kind, event).redraw(kind);
    assert(a.wf());
    lemma_react(a, kind, PromptEvent::Update);
}

/// A key for a prompt keeps the invariant.
pub proof fn lemma_prompt_key(s: State, kind: PromptKind, key: Key)
    requires
        s.wf(),
        s.mode == Mode::Prompt(kind),
    ensures
        s.prompt_key(kind, key).wf(),
{
    match key {
        Key::Char(c) => {
            if c != '\n' {
                let a = State { input: s.input.push(c), ..s };
                assert(a.wf());
                lemma_echoed(a, kind, PromptEvent::CharPress);
            }
        },
        Key::Backspace => {
            let a = State {
                input: if s.input.len() > 0 {
                    s.input.drop_last()
                } else {
                    s.input
                },
                ..s
            };
            assert(a.wf());
            lemma_echoed(a, kind, PromptEvent::CharPress);
        },
        Key::Esc => {
            lemma_react(s, kind, PromptEvent::KeyPress(Key::Esc));
        },
        _ => {
            lemma_echoed(s, kind, PromptEvent::KeyPress(key));
        },
    }
}

/// A document that was opened takes the place of the old one with the
/// invariant kept.
pub proof fn lemma_opened(s: State, doc: Document)
    requires
        s.mode == Mode::Normal,
        doc.wf(),
    ensures
        s.opened(doc).wf(),
{
    lemma_origin_valid(doc.text(), 0);
}

impl Editor {
    /// Begins a prompt: shows its label on the command line, empties its
    /// text, and keeps the cursor and scroll origin for the way back. The
    /// keys that follow go to `prompt_key`.
    pub fn prompt(&mut self, kind: PromptKind)
        requires
            old(self)@.wf(),
        ensures
            final(self)@ == old(self)@.prompt(kind),
            final(self)@.wf(),
    {
        proof {
            lemma_prompt(self@, kind);
        }
        self.mode = Mode::Prompt(kind);
        self.input = Vec::new();
        self.saved_cursor = self.cursor;
        self.saved_offset = self.offset;
        let mut line = String::from_str(kind.name());
        line.append(": ");
        self.set_command_line(line, Severity::Info);
    }

    /// Begins a search.
    pub fn search(&mut self)
        requires
            old(self)@.wf(),
        ensures
            final(self)@ == old(self)@.prompt(PromptKind::Search),
            final(self)@.wf(),
    {
        self.prompt(PromptKind::Search);
    }

    /// The reaction of the prompt to an event.
    fn react(&mut self, kind: PromptKind, event: PromptEvent)
        requires
            old(self)@.wf(),
            old(self)@.mode == Mode::Prompt(kind),
        ensures
            final(self)@ == old(self)@.react(kind, event),
            final(self)@.wf(),
            final(self)@.mode == Mode::Prompt(kind),
    {
        match kind {
            PromptKind::Search => self.search_react(event),
            _ => {},
        }
    }

    /// Redraws the command line with the prompt's label and text.
    fn redraw(&mut self, kind: PromptKind)
        ensures
            final(self)@ == old(self)@.redraw(kind),
    {
        let mut line = String::from_str(kind.name());
        line.append(": ");
        push_chars(&mut line, &self.input);
        self.set_command_line(line, Severity::Info);
    }

    /// What follows each keystroke that does not end the prompt.
    fn echo(&mut self, kind: PromptKind, event: PromptEvent)
        requires
            old(self)@.wf(),
            old(self)@.mode == Mode::Prompt(kind),
        ensures
            final(self)@ == old(self)@.echoed(kind, event),
            final(self)@.wf(),
    {
        proof {
            lemma_react(self@, kind, event);
        }
        self.react(kind, event);
        self.redraw(kind);
        self.react(kind, PromptEvent::Update);
    }

    /// Ends the prompt with its text.
    fn commit(&mut self, kind: PromptKind) -> (request: Request)
        requires
            old(self)@.wf(),
        ensures
            final(self)@ == old(self)@.commit(kind),
            request == prompt_request(kind, Key::Char('\n')),
            final(self)@.wf(),
    {
        proof {
            lemma_here(self@);
        }
        self.mode = Mode::Normal;
        match kind {
            PromptKind::Search => {
                self.set_command_line(String::from_str("Search exited"), Severity::Info);
                Request::Nothing
            },
            PromptKind::SaveAs => Request::SaveAs,
            PromptKind::Open => Request::Open,
        }
    }

    /// Ends the prompt without its text.
    fn cancel(&mut self, kind: PromptKind)
        requires
            old(self)@.wf(),
            old(self)@.mode == Mode::Prompt(kind),
        ensures
            final(self)@ == old(self)@.cancel(kind),
            final(self)@.wf(),
    {
        self.react(kind, PromptEvent::KeyPress(Key::Esc));
        proof {
            lemma_here(self@);
        }
        self.mode = Mode::Normal;
        match kind {
            PromptKind::Search => {
                self.set_command_line(String::from_str("Search exited"), Severity::Info);
            },
            PromptKind::SaveAs => {
                self.set_command_line(String::from_str("Save as cancelled"), Severity::Info);
            },
            PromptKind::Open => {},
        }
    }

    /// Handles one key for the prompt that is open, and says what the
    /// outside has to do where the key ended a prompt for a path.
    pub fn prompt_key(&mut self, kind: PromptKind, key: Key) -> (request: Request)
        requires
            old(self)@.wf(),
            old(self)@.mode == Mode::Prompt(kind),
        ensures
            final(self)@ == old(self)@.prompt_key(kind, key),
            request == prompt_request(kind, key),
            final(self)@.wf(),
    {
        proof {
            lemma_here(self@);
        }
        match key {
            Key::Char(c) => {
                if c == '\n' {
                    self.commit(kind)
                } else {
                    self.input.push(c);
                    self.echo(kind, PromptEvent::CharPress);
                    Request::Nothing
                }
            },
            Key::Backspace => {
                if self.input.len() > 0 {
                    self.input.pop();
                }
                self.echo(kind, PromptEvent::CharPress);
                Request::Nothing
            },
            Key::Esc => {
                self.cancel(kind);
                Request::Nothing
            },
            _ => {
                self.echo(kind, PromptEvent::KeyPress(key));
                Request::Nothing
            },
        }
    }

    /// The guard before an action that discards the document. Without
    /// unsaved changes it passes at once: the result is `true` and nothing
    /// changes. With unsaved changes it shows the warning, the result is
    /// `false`, and the next key goes to `confirm`.
    pub fn dirty_prompt(&mut self, subject: Subject) -> (pass: bool)
        requires
            old(self)@.wf(),
        ensures
            pass == !old(self)@.dirty,
            final(self)@ == old(self)@.dirty_prompt(subject),
            final(self)@.wf(),
    {
        proof {
            lemma_here(self@);
        }
        if self.dirty {
            self.mode = Mode::Confirm(subject);
            let warning = match subject {
                Subject::Quit => "Unsaved Changes! Ctrl + Q to force quit",
                Subject::New => "Unsaved Changes! Ctrl + N to force new",
                Subject::Open => "Unsaved Changes! Ctrl + O to force open",
            };
            self.set_command_line(String::from_str(warning), Severity::Warning);
            false
        } else {
            true
        }
    }

    /// Performs the action, now that nothing stands in its way.
    fn perform(&mut self, subject: Subject)
        requires
            old(self)@.wf(),
            old(self)@.mode == Mode::Normal,
        ensures
            final(self)@ == old(self)@.perform(subject),
            final(self)@.wf(),
    {
        proof {
            lemma_perform(self@, subject);
        }
        match subject {
            Subject::Quit => {
                self.quit = true;
            },
            Subject::New => {
                self.doc = Document::new();
                self.dirty = false;
                self.cursor.y = 0;
                self.offset.y = 0;
                self.home();
            },
            Subject::Open => {
                self.prompt(PromptKind::Open);
            },
        }
    }

    /// Handles the key that answers the warning about unsaved changes:
    /// Return or the action's own Ctrl key force the action, any other key
    /// calls it off.
    pub fn confirm(&mut self, subject: Subject, key: Key)
        requires
            old(self)@.wf(),
            old(self)@.mode == Mode::Confirm(subject),
        ensures
            final(self)@ == old(self)@.confirm(subject, key),
            final(self)@.wf(),
    {
        proof {
            lemma_here(self@);
        }
        self.mode = Mode::Normal;
        let forced = match key {
            Key::Char(c) => c == '\n',
            Key::Ctrl(c) => c == subject.key(),
            _ => false,
        };
        if forced {
            self.perform(subject);
        } else {
            let text = match subject {
                Subject::Quit => "Quit cancelled",
                Subject::New => "New cancelled",
                Subject::Open => "Open cancelled",
            };
            self.set_command_line(String::from_str(text), Severity::Info);
        }
    }

    /// Performs the action at once where nothing is unsaved, else asks.
    fn attempt(&mut self, subject: Subject)
        requires
            old(self)@.wf(),
            old(self)@.mode == Mode::Normal,
        ensures
            final(self)@ == old(self)@.attempt(subject),
            final(self)@.wf(),
    {
        if self.dirty_prompt(subject) {
            self.perform(subject);
        }
    }

    /// Quit: at once where nothing is unsaved, else after the warning.
    pub fn quit(&mut self)
        requires
            old(self)@.wf(),
            old(self)@.mode == Mode::Normal,
        ensures
            final(self)@ == old(self)@.attempt(Subject::Quit),
            final(self)@.wf(),
    {
        self.attempt(Subject::Quit);
    }

    /// New document: at once where nothing is unsaved, else after the
    /// warning.
    pub fn new_document(&mut self)
        requires
            old(self)@.wf(),
            old(self)@.mode == Mode::Normal,
        ensures
            final(self)@ == old(self)@.attempt(Subject::New),
            final(self)@.wf(),
    {
        self.attempt(Subject::New);
    }

    /// Open a document: the prompt for its path begins at once where
    /// nothing is unsaved, else after the warning.
    pub fn open_document(&mut self)
        requires
            old(self)@.wf(),
            old(self)@.mode == Mode::Normal,
        ensures
            final(self)@ == old(self)@.attempt(Subject::Open),
            final(self)@.wf(),
    {
        self.attempt(Subject::Open);
    }

    /// Takes the outcome of reading the file that was asked for: the
    /// document that was read replaces the old one; a failure is reported
    /// on the command line and changes nothing else.
    pub fn load(&mut self, outcome: Option<Document>)
        requires
            old(self)@.wf(),
            old(self)@.mode == Mode::Normal,
            outcome matches Some(doc) ==> doc.wf(),
        ensures
            final(self)@ == old(self)@.load(outcome),
            final(self)@.wf(),
    {
        match outcome {
            Some(doc) => {
                proof {
                    lemma_opened(self@, doc);
                }
                self.doc = doc;
                self.dirty = false;
                self.show_welcome = false;
                self.cursor.y = 0;
                self.offset.y = 0;
                self.home();
            },
            None => {
                proof {
                    lemma_here(self@);
                }
                self.set_command_line(String::from_str("File couldn't be opened"), Severity::Error);
            },
        }
    }

    /// Takes the outcome of writing the document to its own path.
    pub fn save(&mut self, ok: bool)
        ensures
            final(self)@ == old(self)@.save(ok),
            old(self)@.wf() ==> final(self)@.wf(),
    {
        if ok {
            self.dirty = false;
            let mut text = String::from_str("File saved to ");
            text.append(self.doc.path.as_str());
            text.append(" successfully");
            self.set_command_line(text, Severity::Info);
        } else {
            let mut text = String::from_str("Failed to save file to ");
            text.append(self.doc.path.as_str());
            self.set_command_line(text, Severity::Error);
        }
    }

    /// Takes the outcome of writing the document to the path that the
    /// prompt collected.
    pub fn save_as(&mut self, ok: bool)
        ensures
            final(self)@ == old(self)@.save_as(ok),
            old(self)@.wf() ==> final(self)@.wf(),
    {
        if ok {
            self.dirty = false;
            let mut text = String::from_str("File saved to ");
            push_chars(&mut text, &self.input);
            text.append(" successfully");
            self.set_command_line(text, Severity::Info);
            let mut name = String::new();
            push_chars(&mut name, &self.input);
            let mut path = String::new();
            push_chars(&mut path, &self.input);
            assert(name@ =~= self.input@);
            assert(path@ =~= self.input@);
            self.doc.name = name;
            self.doc.path = path;
        } else {
            let mut text = String::from_str("Failed to save file to ");
            push_chars(&mut text, &self.input);
            self.set_command_line(text, Severity::Error);
        }
    }
}

} // verus!
