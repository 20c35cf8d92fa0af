//! The edits: typing a character, a tab or a line break, and deleting
//! backwards. Each records one event and clears the redo stack.
use vstd::prelude::*;
use crate::cursor::lemma_moved;
use crate::cursor::lemma_seek;
use crate::editor::Editor;
use crate::editor::Key;
use crate::editor::Mode;
use crate::editor::Position;
use crate::editor::State;
use crate::event::applies;
use crate::event::Event;
use crate::laws::lemma_edit;
use crate::laws::Edit;
use crate::event::forward;
use crate::event::lemma_apply_then_revert;
use crate::event::lemma_landing_valid;
use crate::event::with_run;
use crate::row::lemma_columns_fit;
use crate::row::MAX_CELLS;
use crate::style::TAB_WIDTH;
use crate::text::repeated;
use crate::width::cell_width;
use crate::width::index_at;
use crate::width::lemma_index_of_start;
use crate::width::lemma_width_concat;
use crate::width::lemma_width_insert;
use crate::width::lemma_width_take;
use crate::width::total_width;
use crate::width::width_to;

verus! {

impl State {
    /// The state after the edit that `ev` records was made on the rows and
    /// logged: the event is on the undo stack, the redo stack is empty, the
    /// document counts as changed and the welcome screen is gone.
    pub open spec fn record(self, ev: Event) -> State {
        State {
            rows: forward(self.rows, ev),
            undo: self.undo.push(ev),
            redo: Seq::empty(),
            dirty: true,
            show_welcome: false,
            ..self
        }
    }

    /// `n` moves to the right.
    pub open spec fn move_right_n(self, n: nat) -> State
        decreases n,
    {
        if n == 0 {
            self
        } else {
            self.move_right_n((n - 1) as nat).move_right()
        }
    }

    /// Typing a character that is neither a line break nor a tab: it goes in
    /// at the cursor, and the cursor moves over it.
    pub open spec fn insert_char(self, c: char) -> State {
        self.record(Event::InsertChar(self.here(), c)).move_right()
    }

    /// Typing a tab: blanks up to a tab stop's width go in at the cursor, as
    /// one event, and the cursor moves over them.
    pub open spec fn tab(self) -> State {
        self.record(Event::InsertTab(self.here())).move_right_n(TAB_WIDTH as nat)
    }

    /// The event of a line break at the cursor, by where in its row the
    /// cursor is.
    pub open spec fn split_event(self) -> Event {
        if self.x() == 0 {
            Event::SplitAtStart(self.here())
        } else if self.x() == total_width(self.row()) {
            Event::SplitAtEnd(self.here())
        } else {
            Event::SplitAtMiddle(self.here(), self.graphemes as usize)
        }
    }

    /// Typing a line break: the row is split at the cursor, and the cursor
    /// goes to the start of the lower row.
    pub open spec fn return_key(self) -> State {
        self.record(self.split_event()).move_down().home()
    }

    /// Typing a character.
    pub open spec fn character(self, c: char) -> State {
        if c == '\n' {
            self.return_key()
        } else if c == '\t' {
            self.tab()
        } else {
            self.insert_char(c)
        }
    }

    /// Whether the document has the room that typing `c` takes: a row more
    /// for a line break, cells in the row for anything else.
    pub open spec fn has_room(self, c: char) -> bool {
        if c == '\n' {
            self.rows.len() < usize::MAX
        } else if c == '\t' {
            self.row().len() + TAB_WIDTH <= MAX_CELLS
        } else {
            self.row().len() < MAX_CELLS
        }
    }

    /// Whether deleting backwards stays within the size limit of a row: at
    /// the start of a row the row joins the one above.
    pub open spec fn can_backspace(self) -> bool {
        self.x() == 0 && self.y() > 0 ==> self.rows[self.y() - 1].len() + self.row().len()
            <= MAX_CELLS
    }

    /// The event of deleting backwards at the cursor, where that changes the
    /// document: at the very start of the document it does not.
    pub open spec fn delete_event(self) -> Event {
        if self.x() == 0 {
            Event::MergeRows(self.here(), self.rows[self.y() - 1].len() as usize)
        } else {
            Event::DeleteChar(self.here(), self.row()[self.graphemes - 1])
        }
    }

    /// Deleting backwards: the cell before the cursor goes, and the cursor
    /// with it; at the start of a row the row joins the one above, and the
    /// cursor goes to the joint; at the start of the document nothing
    /// happens.
    pub open spec fn backspace(self) -> State {
        if self.x() == 0 {
            if self.y() == 0 {
                self
            } else {
                self.record(self.delete_event()).seek(
                    total_width(self.rows[self.y() - 1]) as int,
                    self.y() - 1,
                )
            }
        } else {
            self.move_left().record(self.delete_event())
        }
    }
}

/// Logging an edit that can be made keeps the document sound.
pub proof fn lemma_record(s: State, ev: Event)
    requires
        s.grounded(),
        s.mode == Mode::Normal,
        applies(s.rows, ev),
    ensures
        s.record(ev).grounded(),
{
    lemma_apply_then_revert(s.rows, ev);
    assert(s.undo.push(ev).drop_last() =~= s.undo);
}

/// In a well-formed state the cursor's position is a place of the document.
pub proof fn lemma_here(s: State)
    requires
        s.wf(),
    ensures
        s.addresses(s.x(), s.y()),
        index_at(s.row(), s.x()) == s.graphemes,
        s.here().x == s.x(),
        s.here().y == s.y(),
        s.x() <= total_width(s.row()) <= usize::MAX,
{
    lemma_index_of_start(s.row(), s.graphemes);
    lemma_columns_fit(s.row(), s.graphemes);
}

/// `n` moves to the right keep the invariant and touch nothing but the
/// cursor.
pub proof fn lemma_move_right_n(s: State, n: nat)
    requires
        s.wf(),
    ensures
        s.move_right_n(n).wf(),
        s.same_but_cursor(s.move_right_n(n)),
    decreases n,
{
    if n > 0 {
        lemma_move_right_n(s, (n - 1) as nat);
        lemma_moved(s.move_right_n((n - 1) as nat), Key::Right);
    }
}

/// Typing a character keeps the invariant.
pub proof fn lemma_insert_char(s: State, c: char)
    requires
        s.wf(),
        s.mode == Mode::Normal,
        s.row().len() < MAX_CELLS,
        c != '\n',
    ensures
        applies(s.rows, Event::InsertChar(s.here(), c)),
        s.record(Event::InsertChar(s.here(), c)).wf(),
        s.insert_char(c).wf(),
{
    let ev = Event::InsertChar(s.here(), c);
    lemma_here(s);
    lemma_record(s, ev);
    lemma_width_insert(s.row(), s.graphemes, c, s.graphemes);
    let t = s.record(ev);
    assert(t.row() == s.row().insert(s.graphemes, c));
    lemma_columns_fit(t.row(), s.graphemes);
    lemma_moved(t, Key::Right);
}

/// Typing a tab keeps the invariant.
pub proof fn lemma_tab(s: State)
    requires
        s.wf(),
        s.mode == Mode::Normal,
        s.row().len() + TAB_WIDTH <= MAX_CELLS,
    ensures
        applies(s.rows, Event::InsertTab(s.here())),
        s.record(Event::InsertTab(s.here())).wf(),
        s.tab().wf(),
{
    let ev = Event::InsertTab(s.here());
    lemma_here(s);
    lemma_record(s, ev);
    let row = s.row();
    let g = s.graphemes;
    let n = TAB_WIDTH as nat;
    let grown = with_run(row, g, ' ', n);
    lemma_width_take(row, g, g);
    lemma_width_concat(row.take(g), repeated(' ', n) + row.skip(g), g);
    assert(grown =~= row.take(g) + (repeated(' ', n) + row.skip(g)));
    let t = s.record(ev);
    assert(t.row() == grown);
    lemma_move_right_n(t, n);
}

/// A line break at the start of a row keeps the invariant.
proof fn lemma_split_at_start(s: State)
    requires
        s.wf(),
        s.mode == Mode::Normal,
        s.rows.len() < usize::MAX,
        s.x() == 0,
    ensures
        applies(s.rows, s.split_event()),
        s.record(s.split_event()).wf(),
{
    let ev = Event::SplitAtStart(s.here());
    lemma_here(s);
    lemma_record(s, ev);
    crate::width::lemma_width_monotonic(s.row(), 0, s.graphemes);
    let t = s.record(ev);
    assert(t.rows[s.y()] =~= Seq::<char>::empty());
}

/// A line break at the end of a row keeps the invariant.
proof fn lemma_split_at_end(s: State)
    requires
        s.wf(),
        s.mode == Mode::Normal,
        s.rows.len() < usize::MAX,
        s.x() != 0,
        s.x() == total_width(s.row()),
    ensures
        applies(s.rows, s.split_event()),
        s.record(s.split_event()).wf(),
{
    let ev = Event::SplitAtEnd(s.here());
    lemma_here(s);
    lemma_record(s, ev);
    let t = s.record(ev);
    assert(t.rows[s.y()] == s.row());
}

/// A line break inside a row keeps the invariant.
proof fn lemma_split_at_middle(s: State)
    requires
        s.wf(),
        s.mode == Mode::Normal,
        s.rows.len() < usize::MAX,
        s.x() != 0,
        s.x() != total_width(s.row()),
    ensures
        applies(s.rows, s.split_event()),
        s.record(s.split_event()).wf(),
{
    let row = s.row();
    let g = s.graphemes;
    let ev = Event::SplitAtMiddle(s.here(), g as usize);
    lemma_here(s);
    assert(0 < g < row.len());
    lemma_record(s, ev);
    lemma_width_take(row, g, g);
    let t = s.record(ev);
    assert(t.rows[s.y()] == row.take(g));
}

/// Going down a row and to its start keeps the invariant.
proof fn lemma_descend(t: State)
    requires
        t.wf(),
    ensures
        t.move_down().home().wf(),
{
    lemma_moved(t, Key::Down);
}

/// Typing a line break keeps the invariant.
pub proof fn lemma_return_key(s: State)
    requires
        s.wf(),
        s.mode == Mode::Normal,
        s.rows.len() < usize::MAX,
    ensures
        applies(s.rows, s.split_event()),
        s.record(s.split_event()).wf(),
        s.return_key().wf(),
{
    if s.x() == 0 {
        lemma_split_at_start(s);
    } else if s.x() == total_width(s.row()) {
        lemma_split_at_end(s);
    } else {
        lemma_split_at_middle(s);
    }
    lemma_descend(s.record(s.split_event()));
}

/// Deleting backwards keeps the invariant.
pub proof fn lemma_backspace(s: State)
    requires
        s.wf(),
        s.mode == Mode::Normal,
        s.can_backspace(),
    ensures
        s.backspace().wf(),
        !(s.x() == 0 && s.y() == 0) ==> applies(s.rows, s.delete_event()),
        s.x() == 0 && s.y() > 0 ==> s.record(s.delete_event()).grounded(),
        s.x() > 0 ==> s.graphemes > 0 && s.move_left().wf(),
{
    let row = s.row();
    let g = s.graphemes;
    lemma_here(s);
    if s.x() == 0 {
        if s.y() > 0 {
            let ev = s.delete_event();
            lemma_record(s, ev);
            lemma_landing_valid(s.rows, ev);
            lemma_seek(s.record(ev), total_width(s.rows[s.y() - 1]) as int, s.y() - 1);
        }
    } else {
        let ev = s.delete_event();
        let m = s.move_left();
        lemma_moved(s, Key::Left);
        lemma_record(m, ev);
        let t = m.record(ev);
        crate::width::lemma_width_remove(row, g - 1, g - 1);
        assert(t.row() == row.remove(g - 1));
        assert(width_to(row, g) == width_to(row, g - 1) + cell_width(row[g - 1]));
    }
}

impl Editor {
    /// Makes the edit that `ev` records and logs it: the event goes on the
    /// undo stack and the redo stack is cleared.
    fn record(&mut self, ev: Event)
        requires
            old(self)@.grounded(),
            old(self)@.mode == Mode::Normal,
            applies(old(self)@.rows, ev),
        ensures
            final(self)@ == old(self)@.record(ev),
            final(self)@.grounded(),
    {
        proof {
            lemma_record(self@, ev);
        }
        self.dirty = true;
        self.show_welcome = false;
        self.doc.apply(ev);
        self.doc.undo_stack.push(ev);
        self.doc.redo_stack.clear();
    }

    /// Whether the document has the room that typing `c` takes.
    pub fn has_room(&self, c: char) -> (b: bool)
        requires
            self@.wf(),
        ensures
            b == self@.has_room(c),
    {
        let n = self.doc.rows[self.cursor.y + self.offset.y].len();
        if c == '\n' {
            self.doc.rows.len() < usize::MAX
        } else if c == '\t' {
            n <= MAX_CELLS - TAB_WIDTH
        } else {
            n < MAX_CELLS
        }
    }

    /// Whether deleting backwards stays within the size limit of a row.
    pub fn can_backspace(&self) -> (b: bool)
        requires
            self@.wf(),
        ensures
            b == self@.can_backspace(),
    {
        let y = self.cursor.y + self.offset.y;
        if self.cursor.x + self.offset.x == 0 && y > 0 {
            self.doc.rows[y - 1].len() <= MAX_CELLS - self.doc.rows[y].len()
        } else {
            true
        }
    }

    /// Types a character at the cursor: a line break splits the row, a tab
    /// inserts blanks up to a tab stop's width, any other character is
    /// inserted as it is. One event is recorded, the redo stack is cleared,
    /// and the cursor ends behind what was typed.
    pub fn character(&mut self, c: char)
        requires
            old(self)@.wf(),
            old(self)@.mode == Mode::Normal,
            old(self)@.has_room(c),
        ensures
            final(self)@ == old(self)@.character(c),
            final(self)@.wf(),
            final(self)@.redo.len() == 0,
            final(self)@.undo.len() == old(self)@.undo.len() + 1,
            final(self)@.dirty,
    {
        proof {
            lemma_edit(self@, Edit::Type(c));
        }
        if c == '\n' {
            self.return_key();
        } else if c == '\t' {
            self.tab();
        } else {
            proof {
                lemma_insert_char(self@, c);
            }
            let ev = Event::InsertChar(self.here(), c);
            self.record(ev);
            self.move_cursor(Key::Right);
        }
    }

    /// Types a tab at the cursor: blanks up to a tab stop's width go in as
    /// one event, and the redo stack is cleared.
    pub fn tab(&mut self)
        requires
            old(self)@.wf(),
            old(self)@.mode == Mode::Normal,
            old(self)@.has_room('\t'),
        ensures
            final(self)@ == old(self)@.tab(),
            final(self)@.wf(),
            final(self)@.redo.len() == 0,
            final(self)@.undo.len() == old(self)@.undo.len() + 1,
            final(self)@.dirty,
    {
        proof {
            lemma_edit(self@, Edit::Type('\t'));
        }
        proof {
            lemma_tab(self@);
        }
        let ev = Event::InsertTab(self.here());
        self.record(ev);
        let ghost start = self@;
        let mut k: usize = 0;
        while k < TAB_WIDTH
            invariant
                k <= TAB_WIDTH,
                start.wf(),
                self@ == start.move_right_n(k as nat),
                self@.wf(),
            decreases TAB_WIDTH - k,
        {
            self.move_cursor(Key::Right);
            k += 1;
        }
    }

    /// Types a line break at the cursor: the row is split, one event is
    /// recorded, and the redo stack is cleared.
    pub fn return_key(&mut self)
        requires
            old(self)@.wf(),
            old(self)@.mode == Mode::Normal,
            old(self)@.has_room('\n'),
        ensures
            final(self)@ == old(self)@.return_key(),
            final(self)@.wf(),
            final(self)@.redo.len() == 0,
            final(self)@.undo.len() == old(self)@.undo.len() + 1,
            final(self)@.dirty,
    {
        proof {
            lemma_edit(self@, Edit::Type('\n'));
        }
        proof {
            lemma_return_key(self@);
            lemma_here(self@);
        }
        let here = self.here();
        let ev = if here.x == 0 {
            Event::SplitAtStart(here)
        } else if here.x == self.doc.rows[here.y].length() {
            Event::SplitAtEnd(here)
        } else {
            Event::SplitAtMiddle(here, self.graphemes)
        };
        self.record(ev);
        self.move_cursor(Key::Down);
        self.leap_cursor(Key::Home);
    }

    /// Deletes backwards from the cursor. Anywhere but at the start of the
    /// document this changes the document: one event is recorded and the
    /// redo stack is cleared. At the start of the document nothing changes.
    pub fn backspace(&mut self)
        requires
            old(self)@.wf(),
            old(self)@.mode == Mode::Normal,
            old(self)@.can_backspace(),
        ensures
            final(self)@ == old(self)@.backspace(),
            final(self)@.wf(),
            old(self)@.x() > 0 || old(self)@.y() > 0 ==> final(self)@.redo.len() == 0,
            old(self)@.x() > 0 || old(self)@.y() > 0
                ==> final(self)@.undo.len() == old(self)@.undo.len() + 1,
            old(self)@.x() > 0 || old(self)@.y() > 0 ==> final(self)@.dirty,
            old(self)@.x() == 0 && old(self)@.y() == 0 ==> final(self)@ == old(self)@,
    {
        proof {
            lemma_edit(self@, Edit::Backspace);
        }
        proof {
            lemma_backspace(self@);
            lemma_here(self@);
        }
        let here = self.here();
        if here.x == 0 {
            if here.y != 0 {
                let ev = Event::MergeRows(here, self.doc.rows[here.y - 1].len());
                let joint = Position { x: self.doc.rows[here.y - 1].length(), y: here.y - 1 };
                proof {
                    lemma_landing_valid(self@.rows, ev);
                }
                self.record(ev);
                self.seek(joint);
            }
        } else {
            let ev = Event::DeleteChar(here, self.doc.rows[here.y].get(self.graphemes - 1));
            self.move_cursor(Key::Left);
            self.record(ev);
        }
    }
}

} // verus!
