//! What holds of every well-formed state: undo takes back what the edits
//! did, redo takes back an undo, a new edit leaves nothing to redo, and the
//! cursor stays on cell boundaries and inside the window.
use vstd::prelude::*;
use crate::cursor::lemma_clamp;
use crate::cursor::lemma_leaped;
use crate::cursor::lemma_moved;
use crate::document::joined;
use crate::document::lines_fold;
use crate::document::lines_of;
use crate::edit::lemma_backspace;
use crate::edit::lemma_here;
use crate::edit::lemma_insert_char;
use crate::edit::lemma_move_right_n;
use crate::edit::lemma_return_key;
use crate::edit::lemma_tab;
use crate::editor::Key;
use crate::editor::Mode;
use crate::editor::PromptEvent;
use crate::editor::PromptKind;
use crate::editor::Request;
use crate::editor::Severity;
use crate::editor::State;
use crate::editor::Subject;
use crate::event::backward;
use crate::event::Event;
use crate::event::forward;
use crate::event::landing;
use crate::event::lemma_apply_then_revert;
use crate::event::lemma_landing_valid;
use crate::event::lemma_revert_then_apply;
use crate::event::plain;
use crate::event::rows_ok;
use crate::event::with_run;
use crate::history::lemma_redone;
use crate::history::lemma_undone;
use crate::prompt::lemma_perform;
use crate::prompt::lemma_prompt;
use crate::prompt::lemma_prompt_key;
use crate::search::lemma_restored;
use crate::search::lemma_search_react;
use crate::style::TAB_WIDTH;
use crate::width::cell_width;
use crate::width::index_at;
use crate::width::on_boundary;
use crate::width::width_to;

verus! {

/// An edit, as the user makes it.
pub enum Edit {
    /// Typing a character; a line break and a tab are characters too.
    Type(char),
    /// Deleting backwards.
    Backspace,
}

impl State {
    /// Whether the document has room for the edit.
    pub open spec fn admits(self, e: Edit) -> bool {
        match e {
            Edit::Type(c) => self.has_room(c),
            Edit::Backspace => self.can_backspace(),
        }
    }

    /// Whether the edit changes the document, and so records an event:
    /// every edit does but deleting backwards at the start of the document.
    pub open spec fn records(self, e: Edit) -> bool {
        !(e is Backspace && self.x() == 0 && self.y() == 0)
    }

    /// The state after the edit.
    pub open spec fn edit(self, e: Edit) -> State {
        match e {
            Edit::Type(c) => self.character(c),
            Edit::Backspace => self.backspace(),
        }
    }

    /// The state after the edits, made in order.
    pub open spec fn edits(self, es: Seq<Edit>) -> State
        decreases es.len(),
    {
        if es.len() == 0 {
            self
        } else {
            self.edits(es.drop_last()).edit(es.last())
        }
    }

    /// Whether the document has room for each of the edits at its turn.
    pub open spec fn admits_all(self, es: Seq<Edit>) -> bool
        decreases es.len(),
    {
        es.len() > 0 ==> self.admits_all(es.drop_last()) && self.edits(es.drop_last()).admits(
            es.last(),
        )
    }

    /// How many of the edits record an event.
    pub open spec fn recorded(self, es: Seq<Edit>) -> nat
        decreases es.len(),
    {
        if es.len() == 0 {
            0
        } else {
            self.recorded(es.drop_last()) + if self.edits(es.drop_last()).records(es.last()) {
                1nat
            } else {
                0nat
            }
        }
    }

    /// The state after `n` times undo.
    pub open spec fn undo_n(self, n: nat) -> State
        decreases n,
    {
        if n == 0 {
            self
        } else {
            self.undo().undo_n((n - 1) as nat)
        }
    }

    /// Whether two states hold the same text, the same undo stack and the
    /// same cursor position in the document.
    pub open spec fn same_content(self, other: State) -> bool {
        &&& self.rows == other.rows
        &&& self.undo == other.undo
        &&& self.x() == other.x()
        &&& self.y() == other.y()
        &&& self.graphemes == other.graphemes
    }
}

/// Whether `t` is `s` after an edit that recorded `ev`: the state is well
/// formed, the event is the one new entry of the undo stack and names the
/// cursor's position in `s`, the redo stack is empty, reverting the event
/// gives back the rows of `s`, the cursor is where the event lands, the
/// document counts as changed and the welcome screen is gone.
pub open spec fn logged(s: State, t: State, ev: Event) -> bool {
    &&& t.wf()
    &&& t.mode == Mode::Normal
    &&& t.undo == s.undo.push(ev)
    &&& t.redo.len() == 0
    &&& t.rows == forward(s.rows, ev)
    &&& backward(t.rows, ev) == s.rows
    &&& ev.position() == s.here()
    &&& (t.x(), t.y()) == landing(s.rows, ev)
    &&& t.dirty
    &&& !t.show_welcome
}

/// Typing a character records its event.
proof fn lemma_insert_char_logged(s: State, c: char)
    requires
        s.wf(),
        s.mode == Mode::Normal,
        s.row().len() < crate::row::MAX_CELLS,
        c != '\n',
    ensures
        logged(s, s.insert_char(c), Event::InsertChar(s.here(), c)),
{
    let ev = Event::InsertChar(s.here(), c);
    lemma_here(s);
    lemma_insert_char(s, c);
    lemma_apply_then_revert(s.rows, ev);
    let t = s.record(ev);
    lemma_moved(t, Key::Right);
    assert(t.row() == s.row().insert(s.graphemes, c));
    assert(t.row()[s.graphemes] == c);
}

/// Typing a line break records its event.
proof fn lemma_return_key_logged(s: State)
    requires
        s.wf(),
        s.mode == Mode::Normal,
        s.rows.len() < usize::MAX,
    ensures
        logged(s, s.return_key(), s.split_event()),
{
    let ev = s.split_event();
    lemma_here(s);
    lemma_return_key(s);
    lemma_apply_then_revert(s.rows, ev);
    let t = s.record(ev);
    lemma_moved(t, Key::Down);
    assert(t.y() + 1 < t.rows.len());
    if t.cursor.y >= t.max_y() {
        crate::cursor::lemma_settle(t.to_row(t.cursor.y, t.offset.y + 1));
    } else {
        crate::cursor::lemma_settle(t.to_row(t.cursor.y + 1, t.offset.y));
    }
}

/// Typing a tab records its event.
proof fn lemma_tab_logged(s: State)
    requires
        s.wf(),
        s.mode == Mode::Normal,
        s.has_room('\t'),
    ensures
        logged(s, s.tab(), Event::InsertTab(s.here())),
{
    let ev = Event::InsertTab(s.here());
    lemma_here(s);
    lemma_tab(s);
    lemma_apply_then_revert(s.rows, ev);
    let t = s.record(ev);
    lemma_move_right_n(t, TAB_WIDTH as nat);
    assert(t.row() == with_run(s.row(), s.graphemes, ' ', TAB_WIDTH as nat));
    lemma_run_right(t, ' ', TAB_WIDTH as nat);
}

/// Deleting backwards anywhere but at the start of the document records
/// its event.
proof fn lemma_backspace_logged(s: State)
    requires
        s.wf(),
        s.mode == Mode::Normal,
        s.can_backspace(),
        !(s.x() == 0 && s.y() == 0),
    ensures
        logged(s, s.backspace(), s.delete_event()),
{
    let ev = s.delete_event();
    lemma_here(s);
    lemma_backspace(s);
    lemma_apply_then_revert(s.rows, ev);
    if s.x() == 0 {
        lemma_landing_valid(s.rows, ev);
        crate::cursor::lemma_seek(s.record(ev), landing(s.rows, ev).0, landing(s.rows, ev).1);
    } else {
        lemma_moved(s, Key::Left);
        assert(width_to(s.row(), s.graphemes) == width_to(s.row(), s.graphemes - 1) + cell_width(
            s.row()[s.graphemes - 1],
        ));
    }
}

/// An edit keeps the invariant. One that changes the document records one
/// event; one that does not changes nothing at all.
pub proof fn lemma_edit(s: State, e: Edit)
    requires
        s.wf(),
        s.mode == Mode::Normal,
        s.admits(e),
    ensures
        s.edit(e).wf(),
        s.edit(e).mode == Mode::Normal,
        !s.records(e) ==> s.edit(e) == s,
        s.records(e) ==> logged(s, s.edit(e), s.edit(e).undo.last()),
{
    match e {
        Edit::Type(c) => {
            if c == '\n' {
                lemma_return_key_logged(s);
            } else if c == '\t' {
                lemma_tab_logged(s);
            } else {
                lemma_insert_char_logged(s, c);
            }
        },
        Edit::Backspace => {
            if s.records(e) {
                lemma_backspace_logged(s);
            }
        },
    }
}

/// Moving right over `n` cells that hold the same character.
proof fn lemma_run_right(t: State, c: char, n: nat)
    requires
        t.wf(),
        t.graphemes + n <= t.row().len(),
        forall|j: int| t.graphemes <= j < t.graphemes + n ==> #[trigger] t.row()[j] == c,
    ensures
        t.move_right_n(n).y() == t.y(),
        t.move_right_n(n).graphemes == t.graphemes + n,
        t.move_right_n(n).x() == t.x() + n * cell_width(c),
        t.move_right_n(n).rows == t.rows,
    decreases n,
{
    if n > 0 {
        lemma_run_right(t, c, (n - 1) as nat);
        lemma_move_right_n(t, (n - 1) as nat);
        let m = t.move_right_n((n - 1) as nat);
        assert(m.row()[m.graphemes] == c);
        assert(n * cell_width(c) == (n - 1) * cell_width(c) + cell_width(c)) by (nonlinear_arith);
    } else {
        assert(0 * cell_width(c) == 0);
    }
}

/// Undo acts on the text, the undo stack and the cursor's position alone:
/// two states that agree on these agree on them after undo.
pub proof fn lemma_undo_same_content(a: State, b: State)
    requires
        a.wf(),
        b.wf(),
        a.mode == Mode::Normal,
        b.mode == Mode::Normal,
        a.same_content(b),
    ensures
        a.undo().wf(),
        b.undo().wf(),
        a.undo().mode == Mode::Normal,
        b.undo().mode == Mode::Normal,
        a.undo().same_content(b.undo()),
{
    if a.undo.len() > 0 {
        lemma_undone(a);
        lemma_undone(b);
        lemma_here(a.undone());
        lemma_here(b.undone());
    }
}

/// `n` times undo on two states that agree on text, undo stack and cursor
/// position.
pub proof fn lemma_undo_n_same_content(a: State, b: State, n: nat)
    requires
        a.wf(),
        b.wf(),
        a.mode == Mode::Normal,
        b.mode == Mode::Normal,
        a.same_content(b),
    ensures
        a.undo_n(n).wf(),
        b.undo_n(n).wf(),
        a.undo_n(n).same_content(b.undo_n(n)),
    decreases n,
{
    if n > 0 {
        lemma_undo_same_content(a, b);
        lemma_undo_n_same_content(a.undo(), b.undo(), (n - 1) as nat);
    }
}

/// Edits in a row keep the invariant.
pub proof fn lemma_edits(s: State, es: Seq<Edit>)
    requires
        s.wf(),
        s.mode == Mode::Normal,
        s.admits_all(es),
    ensures
        s.edits(es).wf(),
        s.edits(es).mode == Mode::Normal,
    decreases es.len(),
{
    if es.len() > 0 {
        lemma_edits(s, es.drop_last());
        lemma_edit(s.edits(es.drop_last()), es.last());
    }
}

/// The undo of an edit that has just been made gives back the text, the
/// undo stack and the cursor position from before the edit.
pub proof fn lemma_undo_of_edit(s: State, e: Edit)
    requires
        s.wf(),
        s.mode == Mode::Normal,
        s.admits(e),
        s.records(e),
    ensures
        s.edit(e).undo().wf(),
        s.edit(e).undo().mode == Mode::Normal,
        s.edit(e).undo().same_content(s),
{
    let t = s.edit(e);
    lemma_edit(s, e);
    lemma_undone(t);
    lemma_here(t.undone());
    lemma_here(s);
    assert(t.undo.drop_last() =~= s.undo);
}

/// Round trip. After any sequence of typed characters, tabs, line breaks and
/// backward deletions, one undo for each event that was recorded gives back
/// the text, the undo stack and the cursor position from before the
/// sequence.
pub proof fn law_undo_round_trip(s: State, es: Seq<Edit>)
    requires
        s.wf(),
        s.mode == Mode::Normal,
        s.admits_all(es),
    ensures
        s.edits(es).undo_n(s.recorded(es)).wf(),
        s.edits(es).undo_n(s.recorded(es)).same_content(s),
    decreases es.len(),
{
    if es.len() > 0 {
        let init = es.drop_last();
        let e = es.last();
        let m = s.edits(init);
        lemma_edits(s, init);
        law_undo_round_trip(s, init);
        if m.records(e) {
            lemma_undo_of_edit(m, e);
            lemma_undo_n_same_content(m.edit(e).undo(), m, s.recorded(init));
        } else {
            lemma_edit(m, e);
        }
    }
}

/// Redo after undo. Undo followed at once by redo gives back the text and
/// both stacks, and leaves the cursor where the edit had left it.
pub proof fn law_redo_after_undo(s: State)
    requires
        s.wf(),
        s.mode == Mode::Normal,
        s.undo.len() > 0,
    ensures
        s.undo().redo().wf(),
        s.undo().redo().rows == s.rows,
        s.undo().redo().undo == s.undo,
        s.undo().redo().redo == s.redo,
        (s.undo().redo().x(), s.undo().redo().y()) == landing(
            backward(s.rows, s.undo.last()),
            s.undo.last(),
        ),
{
    let ev = s.undo.last();
    lemma_undone(s);
    lemma_revert_then_apply(s.rows, ev);
    let u = s.undo();
    assert(u.redo.last() == ev);
    lemma_redone(u);
    assert(s.undo.drop_last().push(ev) =~= s.undo);
    assert(s.redo.push(ev).drop_last() =~= s.redo);
}

/// Redo after undo, with the cursor. Where the cursor stands where the
/// latest edit left it, as it does after an edit or after a redo, undo
/// followed at once by redo gives back text, stacks and cursor.
pub proof fn law_redo_after_undo_keeps_cursor(s: State)
    requires
        s.wf(),
        s.mode == Mode::Normal,
        s.undo.len() > 0,
        (s.x(), s.y()) == landing(backward(s.rows, s.undo.last()), s.undo.last()),
    ensures
        s.undo().redo().wf(),
        s.undo().redo().same_content(s),
        s.undo().redo().redo == s.redo,
{
    law_redo_after_undo(s);
    lemma_here(s);
    lemma_here(s.undo().redo());
}

/// Redo after the undo of an edit. Where the state is the one an edit has
/// just left, undo followed at once by redo gives back that state: text,
/// stacks and cursor.
pub proof fn law_redo_after_undo_of_edit(s: State, e: Edit)
    requires
        s.wf(),
        s.mode == Mode::Normal,
        s.admits(e),
        s.records(e),
    ensures
        s.edit(e).undo().redo().wf(),
        s.edit(e).undo().redo().same_content(s.edit(e)),
        s.edit(e).undo().redo().redo == s.edit(e).redo,
{
    lemma_edit(s, e);
    law_redo_after_undo_keeps_cursor(s.edit(e));
}

/// Redo invalidation. An edit that changes the document leaves the redo
/// stack empty, whatever it held; redo then changes nothing but the command
/// line, which reports the empty stack as an error.
pub proof fn law_edit_clears_redo(s: State, e: Edit)
    requires
        s.wf(),
        s.mode == Mode::Normal,
        s.admits(e),
        s.records(e),
    ensures
        s.edit(e).redo.len() == 0,
        s.edit(e).redo() == s.edit(e).say(Severity::Error, "Empty Redo Stack"@),
{
    lemma_edit(s, e);
}

/// Undo on an empty stack changes nothing but the command line, which
/// reports the empty stack as an error.
pub proof fn law_undo_on_empty_stack(s: State)
    requires
        s.undo.len() == 0,
    ensures
        s.undo() == s.say(Severity::Error, "Empty Undo Stack"@),
{
}

/// Wide characters. A move to the right steps over the cell at the cursor:
/// the column grows by the width of that cell, which is two for a
/// double-width character, and the cell index by one.
pub proof fn law_right_steps_over_cell(s: State)
    requires
        s.wf(),
        s.graphemes < s.row().len(),
    ensures
        s.moved(Key::Right).x() == s.x() + cell_width(s.row()[s.graphemes]),
        s.moved(Key::Right).graphemes == s.graphemes + 1,
        s.moved(Key::Right).y() == s.y(),
        cell_width(s.row()[s.graphemes]) == 2 ==> s.moved(Key::Right).x() == s.x() + 2,
{
}

/// A move to the left steps back over the cell before the cursor.
pub proof fn law_left_steps_over_cell(s: State)
    requires
        s.wf(),
        s.graphemes > 0,
    ensures
        s.moved(Key::Left).x() + cell_width(s.row()[s.graphemes - 1]) == s.x(),
        s.moved(Key::Left).graphemes == s.graphemes - 1,
        s.moved(Key::Left).y() == s.y(),
{
    assert(width_to(s.row(), s.graphemes) == width_to(s.row(), s.graphemes - 1) + cell_width(
        s.row()[s.graphemes - 1],
    ));
}

/// Boundaries. After a move or a leap, vertical ones included, the cursor's
/// column is one at which a cell of its row starts, or the end of the row,
/// and the cell index is the index of that cell.
pub proof fn law_cursor_on_boundary(s: State, key: Key)
    requires
        s.wf(),
    ensures
        on_boundary(s.moved(key).row(), s.moved(key).x()),
        s.moved(key).graphemes == index_at(s.moved(key).row(), s.moved(key).x()),
        on_boundary(s.leaped(key).row(), s.leaped(key).x()),
        s.leaped(key).graphemes == index_at(s.leaped(key).row(), s.leaped(key).x()),
{
    lemma_moved(s, key);
    lemma_leaped(s, key);
    lemma_here(s.moved(key));
    lemma_here(s.leaped(key));
}

/// Viewport clamp. The cursor's screen row never exceeds the height of the
/// terminal less three, before or after a move or a leap; a move down from
/// that row scrolls the window by one row and leaves the cursor's screen row
/// alone.
pub proof fn law_viewport_clamp(s: State, key: Key)
    requires
        s.wf(),
    ensures
        s.cursor.y <= s.max_y(),
        s.height >= 3 ==> s.max_y() == s.height - 3,
        s.moved(key).cursor.y <= s.max_y(),
        s.leaped(key).cursor.y <= s.max_y(),
        s.cursor.y == s.max_y() && s.y() + 1 < s.rows.len() ==> s.moved(Key::Down).cursor.y
            == s.cursor.y && s.moved(Key::Down).offset.y == s.offset.y + 1,
        s.cursor.y < s.max_y() && s.y() + 1 < s.rows.len() ==> s.moved(Key::Down).cursor.y
            == s.cursor.y + 1 && s.moved(Key::Down).offset.y == s.offset.y,
{
    lemma_moved(s, key);
    lemma_leaped(s, key);
    if s.y() + 1 < s.rows.len() {
        if s.cursor.y >= s.max_y() {
            crate::cursor::lemma_settle(s.to_row(s.cursor.y, s.offset.y + 1));
        } else {
            crate::cursor::lemma_settle(s.to_row(s.cursor.y + 1, s.offset.y));
        }
    }
}

/// Stacks. Undo moves the latest event from the undo stack to the redo
/// stack, and redo moves it back, the event unchanged.
pub proof fn law_event_changes_stack(s: State)
    requires
        s.wf(),
        s.mode == Mode::Normal,
    ensures
        s.undo.len() > 0 ==> s.undo().undo == s.undo.drop_last() && s.undo().redo == s.redo.push(
            s.undo.last(),
        ),
        s.redo.len() > 0 ==> s.redo().redo == s.redo.drop_last() && s.redo().undo == s.undo.push(
            s.redo.last(),
        ),
{
    if s.undo.len() > 0 {
        lemma_undone(s);
    }
    if s.redo.len() > 0 {
        lemma_redone(s);
    }
}

/// Undo and redo keep the invariant, with or without an event to move.
proof fn lemma_undo_redo(s: State)
    requires
        s.wf(),
        s.mode == Mode::Normal,
    ensures
        s.undo().wf(),
        s.redo().wf(),
{
    lemma_here(s);
    if s.undo.len() > 0 {
        lemma_undone(s);
    }
    if s.redo.len() > 0 {
        lemma_redone(s);
    }
}

/// An action that discards the document keeps the invariant, performed or
/// held back.
proof fn lemma_attempt(s: State, subject: Subject)
    requires
        s.wf(),
        s.mode == Mode::Normal,
    ensures
        s.attempt(subject).wf(),
{
    lemma_here(s);
    lemma_perform(s, subject);
}

/// A command keeps the invariant.
proof fn lemma_command(s: State, c: char)
    requires
        s.wf(),
        s.mode == Mode::Normal,
    ensures
        s.normal_key(Key::Ctrl(c)).wf(),
{
    if c == 'q' {
        lemma_attempt(s, Subject::Quit);
    } else if c == 'w' {
        lemma_prompt(s, PromptKind::SaveAs);
    } else if c == 'n' {
        lemma_attempt(s, Subject::New);
    } else if c == 'o' {
        lemma_attempt(s, Subject::Open);
    } else if c == 'f' {
        lemma_prompt(s, PromptKind::Search);
    } else if c == 'u' || c == 'y' {
        lemma_undo_redo(s);
    }
}

/// A typed character or a backward deletion keeps the invariant, made or
/// refused.
proof fn lemma_edit_key(s: State, e: Edit)
    requires
        s.wf(),
        s.mode == Mode::Normal,
    ensures
        e matches Edit::Type(c) ==> s.normal_key(Key::Char(c)).wf(),
        e is Backspace ==> s.normal_key(Key::Backspace).wf(),
{
    lemma_here(s);
    if s.admits(e) {
        lemma_edit(s, e);
    }
}

/// A key handled by the editor itself keeps the invariant.
proof fn lemma_normal_key(s: State, key: Key)
    requires
        s.wf(),
        s.mode == Mode::Normal,
    ensures
        s.normal_key(key).wf(),
{
    match key {
        Key::Char(c) => lemma_edit_key(s, Edit::Type(c)),
        Key::Backspace => lemma_edit_key(s, Edit::Backspace),
        Key::Ctrl(c) => lemma_command(s, c),
        Key::Left => lemma_moved(s, key),
        Key::Right => lemma_moved(s, key),
        Key::Up => lemma_moved(s, key),
        Key::Down => lemma_moved(s, key),
        Key::PageUp => lemma_leaped(s, key),
        Key::PageDown => lemma_leaped(s, key),
        Key::Home => lemma_leaped(s, key),
        Key::End => lemma_leaped(s, key),
        _ => {},
    }
}

/// The answer to the warning about unsaved changes keeps the invariant.
proof fn lemma_confirm(s: State, subject: Subject, key: Key)
    requires
        s.wf(),
        s.mode == Mode::Confirm(subject),
    ensures
        s.confirm(subject, key).wf(),
{
    lemma_here(s);
    lemma_perform(State { mode: Mode::Normal, ..s }, subject);
}

/// The invariant. Whatever the key and whoever has the keys, the state
/// after the key is well formed: the cursor is inside the window, on a row
/// of the document and on a boundary of that row.
pub proof fn law_step_keeps_invariant(s: State, key: Key)
    requires
        s.wf(),
    ensures
        s.step(key).wf(),
{
    match s.mode {
        Mode::Normal => lemma_normal_key(s, key),
        Mode::Confirm(subject) => lemma_confirm(s, subject, key),
        Mode::Prompt(kind) => lemma_prompt_key(s, kind, key),
    }
}

/// The invariant holds after any run of keys.
pub proof fn law_run_keeps_invariant(s: State, keys: Seq<Key>, from: int)
    requires
        s.wf(),
    ensures
        s.run(keys, from).0.wf(),
    decreases keys.len() - from,
{
    if !(s.quit || from < 0 || from >= keys.len()) {
        law_step_keeps_invariant(s, keys[from]);
        if s.request(keys[from]) == Request::Nothing {
            law_run_keeps_invariant(s.step(keys[from]), keys, from + 1);
        }
    }
}

/// Reading a text up to `n` depends on its first `n` characters only.
proof fn lemma_lines_fold_prefix(s: Seq<char>, t: Seq<char>, n: int)
    requires
        0 <= n <= s.len(),
        n <= t.len(),
        forall|k: int| 0 <= k < n ==> s[k] == t[k],
    ensures
        lines_fold(s, n) == lines_fold(t, n),
    decreases n,
{
    if n > 0 {
        lemma_lines_fold_prefix(s, t, n - 1);
    }
}

/// Reading on through a row without line feed, from a point where no line is
/// open, leaves the closed lines alone and opens the row as far as it was
/// read.
proof fn lemma_lines_fold_row(s: Seq<char>, base: int, row: Seq<char>, k: int)
    requires
        0 <= base,
        0 <= k <= row.len(),
        base + row.len() <= s.len(),
        forall|j: int| 0 <= j < row.len() ==> s[base + j] == row[j],
        plain(row),
        lines_fold(s, base).1 == Seq::<char>::empty(),
    ensures
        lines_fold(s, base + k) == (lines_fold(s, base).0, row.take(k)),
    decreases k,
{
    if k > 0 {
        lemma_lines_fold_row(s, base, row, k - 1);
        assert(s[base + k - 1] == row[k - 1]);
        assert(row.take(k - 1).push(row[k - 1]) =~= row.take(k));
    } else {
        assert(row.take(0) =~= Seq::<char>::empty());
    }
}

/// Reading the first `n` rows as they are written gives those rows, all of
/// them closed.
proof fn lemma_joined_reads_back(rows: Seq<Seq<char>>, n: int)
    requires
        0 <= n <= rows.len(),
        forall|i: int| 0 <= i < rows.len() ==> plain(#[trigger] rows[i]),
    ensures
        lines_fold(joined(rows, n), joined(rows, n).len() as int) == (
            rows.take(n),
            Seq::<char>::empty(),
        ),
    decreases n,
{
    if n > 0 {
        let before = joined(rows, n - 1);
        let row = rows[n - 1];
        let text = joined(rows, n);
        let base = before.len() as int;
        lemma_joined_reads_back(rows, n - 1);
        lemma_lines_fold_prefix(before, text, base);
        lemma_lines_fold_row(text, base, row, row.len() as int);
        assert(row.take(row.len() as int) =~= row);
        assert(text[base + row.len()] == '\n');
        assert(rows.take(n - 1).push(row) =~= rows.take(n));
    } else {
        assert(rows.take(0) =~= Seq::<Seq<char>>::empty());
    }
}

/// Files. The text that is written for a document reads back as the rows of
/// that document.
pub proof fn law_written_text_reads_back(rows: Seq<Seq<char>>)
    requires
        rows_ok(rows),
    ensures
        lines_of(joined(rows, rows.len() as int)) == rows,
{
    lemma_joined_reads_back(rows, rows.len() as int);
    assert(rows.take(rows.len() as int) =~= rows);
}

impl State {
    /// The state after the keys, all given to the prompt that is open.
    pub open spec fn typing(self, kind: PromptKind, keys: Seq<Key>) -> State
        decreases keys.len(),
    {
        if keys.len() == 0 {
            self
        } else {
            self.typing(kind, keys.drop_last()).prompt_key(kind, keys.last())
        }
    }

    /// Whether two states have the same document, stacks and flags
    /// included, the same window and the same place to return to from a
    /// search.
    pub open spec fn same_search(self, other: State) -> bool {
        &&& self.rows == other.rows
        &&& self.undo == other.undo
        &&& self.redo == other.redo
        &&& self.name == other.name
        &&& self.path == other.path
        &&& self.dirty == other.dirty
        &&& self.show_welcome == other.show_welcome
        &&& self.quit == other.quit
        &&& self.width == other.width
        &&& self.height == other.height
        &&& self.gutter == other.gutter
        &&& self.mode == other.mode
        &&& self.saved_cursor == other.saved_cursor
        &&& self.saved_offset == other.saved_offset
    }
}

/// Whether none of the keys ends a prompt.
pub open spec fn staying(keys: Seq<Key>) -> bool {
    forall|i: int|
        0 <= i < keys.len() ==> #[trigger] keys[i] != Key::Char('\n') && keys[i] != Key::Esc
}

/// A key that does not end the search leaves the text of the document, the
/// window and the place to return to as they are.
proof fn lemma_search_key(s: State, key: Key)
    requires
        s.wf(),
        s.mode == Mode::Prompt(PromptKind::Search),
        key != Key::Char('\n'),
        key != Key::Esc,
    ensures
        s.prompt_key(PromptKind::Search, key).wf(),
        s.same_search(s.prompt_key(PromptKind::Search, key)),
{
    let kind = PromptKind::Search;
    match key {
        Key::Char(c) => {
            let a = State { input: s.input.push(c), ..s };
            assert(a.wf());
            lemma_search_echoed(a, PromptEvent::CharPress);
        },
        Key::Backspace => {
            let a = State {
                input: if s.input.len() > 0 {
                    s.input.drop_last()
                } else {
                    s.input
                },
                ..s
            };
            assert(a.wf());
            lemma_search_echoed(a, PromptEvent::CharPress);
        },
        _ => {
            lemma_search_echoed(s, PromptEvent::KeyPress(key));
        },
    }
}

/// What follows a keystroke in a search leaves the text of the document, the
/// window and the place to return to as they are.
proof fn lemma_search_echoed(s: State, event: PromptEvent)
    requires
        s.wf(),
        s.mode == Mode::Prompt(PromptKind::Search),
    ensures
        s.echoed(PromptKind::Search, event).wf(),
        s.same_search(s.echoed(PromptKind::Search, event)),
{
    let kind = PromptKind::Search;
    lemma_search_react(s, event);
    let a = s.react(kind, event).redraw(kind);
    assert(a.wf());
    lemma_search_react(a, PromptEvent::Update);
}

/// Keys that do not end the search leave the text of the document, the
/// window and the place to return to as they are.
proof fn lemma_search_keys(s: State, keys: Seq<Key>)
    requires
        s.wf(),
        s.mode == Mode::Prompt(PromptKind::Search),
        staying(keys),
    ensures
        s.typing(PromptKind::Search, keys).wf(),
        s.same_search(s.typing(PromptKind::Search, keys)),
    decreases keys.len(),
{
    if keys.len() > 0 {
        assert(staying(keys.drop_last()));
        lemma_search_keys(s, keys.drop_last());
        lemma_search_key(s.typing(PromptKind::Search, keys.drop_last()), keys.last());
    }
}

/// Search. However the search moved the cursor, Escape puts the cursor and
/// the scroll origin back exactly where they were when the search began, and
/// gives the keys back to the editor. The document is as it was: its rows,
/// both stacks, its name and path, and the flag for unsaved changes.
pub proof fn law_escape_ends_search_where_it_began(s: State, keys: Seq<Key>)
    requires
        s.wf(),
        staying(keys),
    ensures
        ({
            let end = s.prompt(PromptKind::Search).typing(PromptKind::Search, keys).prompt_key(
                PromptKind::Search,
                Key::Esc,
            );
            &&& end.wf()
            &&& end.cursor == s.cursor
            &&& end.offset == s.offset
            &&& end.graphemes == s.graphemes
            &&& end.rows == s.rows
            &&& end.undo == s.undo
            &&& end.redo == s.redo
            &&& end.dirty == s.dirty
            &&& end.name == s.name
            &&& end.path == s.path
            &&& end.show_welcome == s.show_welcome
            &&& end.quit == s.quit
            &&& end.mode == Mode::Normal
        }),
{
    let kind = PromptKind::Search;
    let begun = s.prompt(kind);
    lemma_prompt(s, kind);
    lemma_search_keys(begun, keys);
    let last = begun.typing(kind, keys);
    lemma_restored(last);
    lemma_search_react(last, PromptEvent::KeyPress(Key::Esc));
    lemma_here(s);
}

/// Unsaved changes. Where nothing is unsaved, an action that discards the
/// document is performed at once, without a question; quitting then sets
/// the quit flag and leaves the keys with the editor.
pub proof fn law_clean_document_passes(s: State, subject: Subject)
    requires
        !s.dirty,
    ensures
        s.attempt(subject) == s.perform(subject),
        s.dirty_prompt(subject) == s,
        s.attempt(Subject::Quit).quit,
        s.attempt(Subject::Quit).mode == s.mode,
{
}

/// Where something is unsaved, the action waits: nothing changes but the
/// command line, which warns, and the receiver of the next key, which is
/// the question.
pub proof fn law_dirty_document_asks(s: State, subject: Subject)
    requires
        s.dirty,
    ensures
        s.attempt(subject) == s.dirty_prompt(subject),
        s.attempt(subject).mode == Mode::Confirm(subject),
        s.attempt(subject).severity == Severity::Warning,
        s.attempt(subject).message == subject.warning(),
        s.attempt(subject).quit == s.quit,
        s.attempt(subject).rows == s.rows,
        s.attempt(subject).dirty,
{
}

/// An edit that changes the document marks it as changed and ends the
/// welcome screen; undo and redo that move an event mark it as changed too.
pub proof fn law_changes_make_dirty(s: State, e: Edit)
    requires
        s.wf(),
        s.mode == Mode::Normal,
    ensures
        s.admits(e) && s.records(e) ==> s.edit(e).dirty && !s.edit(e).show_welcome,
        s.undo.len() > 0 ==> s.undo().dirty,
        s.redo.len() > 0 ==> s.redo().dirty,
{
    if s.admits(e) && s.records(e) {
        lemma_edit(s, e);
    }
}

/// Resize. After the terminal changed its size the invariant holds for the
/// new size. The cursor's screen row is the old one or, where that lies
/// below it, the last text row of the new height; the scroll origin keeps
/// its row; rows and stacks are as they were.
pub proof fn law_resize_clamps_screen_row(s: State, width: nat, height: nat)
    requires
        s.wf(),
    ensures
        s.resize(width, height).wf(),
        s.resize(width, height).cursor.y == if s.cursor.y > s.resize(width, height).max_y() {
            s.resize(width, height).max_y()
        } else {
            s.cursor.y
        },
        s.resize(width, height).offset.y == s.offset.y,
        s.resize(width, height).rows == s.rows,
        s.resize(width, height).undo == s.undo,
        s.resize(width, height).redo == s.redo,
        s.resize(width, height).dirty == s.dirty,
        s.resize(width, height).mode == s.mode,
        s.resize(s.width, s.height) == s,
{
    lemma_here(s);
    lemma_clamp(State { width, height, ..s });
    lemma_clamp(s);
}

/// Typing clears the redo stack. Whatever the redo stack held, after an
/// undo or otherwise, it is empty after a character was typed, be it a
/// printable one, a tab or a line break, and redo then only reports the
/// empty stack.
pub proof fn law_typing_clears_redo(s: State, c: char)
    requires
        s.wf(),
        s.mode == Mode::Normal,
        s.has_room(c),
    ensures
        s.character(c).redo.len() == 0,
        s.character(c).undo.len() == s.undo.len() + 1,
        s.character(c).redo() == s.character(c).say(Severity::Error, "Empty Redo Stack"@),
{
    lemma_edit(s, Edit::Type(c));
}

/// Deleting backwards clears the redo stack. Whatever the redo stack held,
/// it is empty after a backward deletion anywhere but at the start of the
/// document, and redo then only reports the empty stack.
pub proof fn law_backspace_clears_redo(s: State)
    requires
        s.wf(),
        s.mode == Mode::Normal,
        s.can_backspace(),
        s.x() > 0 || s.y() > 0,
    ensures
        s.backspace().redo.len() == 0,
        s.backspace().undo.len() == s.undo.len() + 1,
        s.backspace().redo() == s.backspace().say(Severity::Error, "Empty Redo Stack"@),
{
    lemma_edit(s, Edit::Backspace);
}

} // verus!
