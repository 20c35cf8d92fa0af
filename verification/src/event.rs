//! Edit events: what the undo log records of each edit, and what applying
//! and reverting an event does to the rows of a document.
use vstd::prelude::*;
use crate::editor::Position;
use crate::row::MAX_CELLS;
use crate::style::TAB_WIDTH;
use crate::text::repeated;
use crate::width::cell_width;
use crate::width::index_at;
use crate::width::lemma_boundary;
use crate::width::lemma_index_of_start;
use crate::width::lemma_width_concat;
use crate::width::lemma_width_insert;
use crate::width::lemma_width_remove;
use crate::width::lemma_width_run;
use crate::width::lemma_width_take;
use crate::width::on_boundary;
use crate::width::total_width;
use crate::width::width_to;

verus! {

/// One edit, with the document position of the cursor before the edit and
/// what is needed to revert it.
#[derive(Clone, Copy, Debug, PartialEq, Eq, Structural)]
pub enum Event {
    /// A tab stop of blanks was inserted at the position.
    InsertTab(Position),
    /// The character was inserted at the position.
    InsertChar(Position, char),
    /// The character that ended at the position was deleted.
    DeleteChar(Position, char),
    /// An empty row was opened above the row of the position, whose column is
    /// zero.
    SplitAtStart(Position),
    /// An empty row was opened below the row of the position, which is the end
    /// of that row.
    SplitAtEnd(Position),
    /// The row was split at the position; the breakpoint is the number of
    /// cells that stayed in the upper row.
    SplitAtMiddle(Position, usize),
    /// The row of the position, whose column is zero, was appended to the row
    /// above; the breakpoint is the number of cells the upper row had.
    MergeRows(Position, usize),
}

impl Event {
    /// Where the cursor stood, in the document, before the edit.
    pub open spec fn position(self) -> Position {
        match self {
            Event::InsertTab(p) => p,
            Event::InsertChar(p, _) => p,
            Event::DeleteChar(p, _) => p,
            Event::SplitAtStart(p) => p,
            Event::SplitAtEnd(p) => p,
            Event::SplitAtMiddle(p, _) => p,
            Event::MergeRows(p, _) => p,
        }
    }

    /// The name of the kind of edit.
    pub open spec fn label(self) -> Seq<char> {
        match self {
            Event::InsertTab(_) => "InsertTab"@,
            Event::InsertChar(_, _) => "InsertChar"@,
            Event::DeleteChar(_, _) => "DeleteChar"@,
            Event::SplitAtStart(_) => "SplitAtStart"@,
            Event::SplitAtEnd(_) => "SplitAtEnd"@,
            Event::SplitAtMiddle(_, _) => "SplitAtMiddle"@,
            Event::MergeRows(_, _) => "MergeRows"@,
        }
    }

    /// Where the cursor stood before the edit.
    pub fn origin(&self) -> (p: Position)
        ensures
            p == self.position(),
    {
        match self {
            Event::InsertTab(p) => *p,
            Event::InsertChar(p, _) => *p,
            Event::DeleteChar(p, _) => *p,
            Event::SplitAtStart(p) => *p,
            Event::SplitAtEnd(p) => *p,
            Event::SplitAtMiddle(p, _) => *p,
            Event::MergeRows(p, _) => *p,
        }
    }

    /// The name of the kind of edit, for the command line.
    pub fn name(&self) -> (s: &'static str)
        ensures
            s@ == self.label(),
    {
        match self {
            Event::InsertTab(_) => "InsertTab",
            Event::InsertChar(_, _) => "InsertChar",
            Event::DeleteChar(_, _) => "DeleteChar",
            Event::SplitAtStart(_) => "SplitAtStart",
            Event::SplitAtEnd(_) => "SplitAtEnd",
            Event::SplitAtMiddle(_, _) => "SplitAtMiddle",
            Event::MergeRows(_, _) => "MergeRows",
        }
    }
}

/// Whether `s` holds no line feed.
pub open spec fn plain(s: Seq<char>) -> bool {
    forall|j: int| 0 <= j < s.len() ==> #[trigger] s[j] != '\n'
}

/// The rows of a document: at least one, each within the size limit and
/// without a line feed.
pub open spec fn rows_ok(rows: Seq<Seq<char>>) -> bool {
    &&& 1 <= rows.len() <= usize::MAX
    &&& forall|i: int| 0 <= i < rows.len() ==> (#[trigger] rows[i]).len() <= MAX_CELLS
    &&& forall|i: int| 0 <= i < rows.len() ==> plain(#[trigger] rows[i])
}

/// Whether `p` addresses a row of the document and a column at which a cell
/// of that row starts, or at which the row ends.
pub open spec fn valid_position(rows: Seq<Seq<char>>, p: Position) -> bool {
    &&& p.y < rows.len()
    &&& on_boundary(rows[p.y as int], p.x as int)
}

/// `s` with `n` copies of `c` put in before cell `g`.
pub open spec fn with_run(s: Seq<char>, g: int, c: char, n: nat) -> Seq<char> {
    s.take(g) + repeated(c, n) + s.skip(g)
}

/// `s` without the `n` cells from `g` on.
pub open spec fn without_run(s: Seq<char>, g: int, n: nat) -> Seq<char> {
    s.take(g) + s.skip(g + n)
}

/// Whether the edit that `ev` records can be made on `rows`.
pub open spec fn applies(rows: Seq<Seq<char>>, ev: Event) -> bool {
    let p = ev.position();
    &&& valid_position(rows, p)
    &&& match ev {
        Event::InsertTab(_) => rows[p.y as int].len() + TAB_WIDTH <= MAX_CELLS,
        Event::InsertChar(_, c) => c != '\n' && rows[p.y as int].len() < MAX_CELLS,
        Event::DeleteChar(_, c) => {
            let g = index_at(rows[p.y as int], p.x as int);
            g >= 1 && rows[p.y as int][g - 1] == c
        },
        Event::SplitAtStart(_) => p.x == 0 && rows.len() < usize::MAX,
        Event::SplitAtEnd(_) => p.x > 0 && p.x == total_width(rows[p.y as int]) && rows.len()
            < usize::MAX,
        Event::SplitAtMiddle(_, b) => 0 < b < rows[p.y as int].len() && index_at(
            rows[p.y as int],
            p.x as int,
        ) == b && rows.len() < usize::MAX,
        Event::MergeRows(_, b) => p.x == 0 && p.y >= 1 && b == rows[p.y - 1].len() && rows[p.y
            - 1].len() + rows[p.y as int].len() <= MAX_CELLS,
    }
}

/// The rows after the edit that `ev` records.
pub open spec fn forward(rows: Seq<Seq<char>>, ev: Event) -> Seq<Seq<char>> {
    let p = ev.position();
    let y = p.y as int;
    let row = rows[y];
    let g = index_at(row, p.x as int);
    match ev {
        Event::InsertTab(_) => rows.update(y, with_run(row, g, ' ', TAB_WIDTH as nat)),
        Event::InsertChar(_, c) => rows.update(y, row.insert(g, c)),
        Event::DeleteChar(_, _) => rows.update(y, row.remove(g - 1)),
        Event::SplitAtStart(_) => rows.insert(y, Seq::empty()),
        Event::SplitAtEnd(_) => rows.insert(y + 1, Seq::empty()),
        Event::SplitAtMiddle(_, b) => rows.update(y, row.take(b as int)).insert(
            y + 1,
            row.skip(b as int),
        ),
        Event::MergeRows(_, _) => rows.update(y - 1, rows[y - 1] + row).remove(y),
    }
}

/// Where the cursor stands, in the document, after the edit that `ev`
/// records was made on `rows`.
pub open spec fn landing(rows: Seq<Seq<char>>, ev: Event) -> (int, int) {
    let p = ev.position();
    match ev {
        Event::InsertTab(_) => (p.x + TAB_WIDTH * cell_width(' '), p.y as int),
        Event::InsertChar(_, c) => (p.x + cell_width(c), p.y as int),
        Event::DeleteChar(_, c) => (p.x - cell_width(c), p.y as int),
        Event::SplitAtStart(_) => (0, p.y + 1),
        Event::SplitAtEnd(_) => (0, p.y + 1),
        Event::SplitAtMiddle(_, _) => (0, p.y + 1),
        Event::MergeRows(_, _) => (total_width(rows[p.y - 1]) as int, p.y - 1),
    }
}

/// Whether `rows` can be the rows after the edit that `ev` records, so that
/// the edit can be reverted.
pub open spec fn reverts(rows: Seq<Seq<char>>, ev: Event) -> bool {
    let p = ev.position();
    let y = p.y as int;
    match ev {
        Event::InsertTab(_) => {
            let g = index_at(rows[y], p.x as int);
            &&& valid_position(rows, p)
            &&& g + TAB_WIDTH <= rows[y].len()
            &&& rows[y].subrange(g, g + TAB_WIDTH) == repeated(' ', TAB_WIDTH as nat)
        },
        Event::InsertChar(_, c) => {
            let g = index_at(rows[y], p.x as int);
            &&& valid_position(rows, p)
            &&& g < rows[y].len()
            &&& rows[y][g] == c
        },
        Event::DeleteChar(_, c) => {
            &&& c != '\n'
            &&& y < rows.len()
            &&& p.x >= cell_width(c)
            &&& on_boundary(rows[y], p.x - cell_width(c))
            &&& rows[y].len() < MAX_CELLS
        },
        Event::SplitAtStart(_) => {
            &&& p.x == 0
            &&& y + 1 < rows.len()
            &&& rows[y].len() == 0
        },
        Event::SplitAtEnd(_) => {
            &&& p.x > 0
            &&& y + 1 < rows.len()
            &&& rows[y + 1].len() == 0
            &&& p.x == total_width(rows[y])
        },
        Event::SplitAtMiddle(_, b) => {
            &&& y + 1 < rows.len()
            &&& b > 0
            &&& rows[y].len() == b
            &&& rows[y + 1].len() > 0
            &&& p.x == total_width(rows[y])
            &&& rows[y].len() + rows[y + 1].len() <= MAX_CELLS
        },
        Event::MergeRows(_, b) => {
            &&& p.x == 0
            &&& 1 <= y <= rows.len()
            &&& b <= rows[y - 1].len()
            &&& rows.len() < usize::MAX
        },
    }
}

/// The rows before the edit that `ev` records, from the rows after it.
pub open spec fn backward(rows: Seq<Seq<char>>, ev: Event) -> Seq<Seq<char>> {
    let p = ev.position();
    let y = p.y as int;
    match ev {
        Event::InsertTab(_) => {
            let g = index_at(rows[y], p.x as int);
            rows.update(y, without_run(rows[y], g, TAB_WIDTH as nat))
        },
        Event::InsertChar(_, _) => {
            let g = index_at(rows[y], p.x as int);
            rows.update(y, rows[y].remove(g))
        },
        Event::DeleteChar(_, c) => {
            let g = index_at(rows[y], p.x - cell_width(c));
            rows.update(y, rows[y].insert(g, c))
        },
        Event::SplitAtStart(_) => rows.remove(y),
        Event::SplitAtEnd(_) => rows.remove(y + 1),
        Event::SplitAtMiddle(_, _) => rows.update(y, rows[y] + rows[y + 1]).remove(y + 1),
        Event::MergeRows(_, b) => rows.update(y - 1, rows[y - 1].take(b as int)).insert(
            y,
            rows[y - 1].skip(b as int),
        ),
    }
}

/// Whether the events of an undo stack, from the top down, can be reverted
/// one after the other, starting from `rows`.
pub open spec fn history_ok(rows: Seq<Seq<char>>, undo: Seq<Event>) -> bool
    decreases undo.len(),
{
    undo.len() > 0 ==> {
        &&& reverts(rows, undo.last())
        &&& history_ok(backward(rows, undo.last()), undo.drop_last())
    }
}

/// Whether the events of a redo stack, from the top down, can be applied one
/// after the other, starting from `rows`.
pub open spec fn future_ok(rows: Seq<Seq<char>>, redo: Seq<Event>) -> bool
    decreases redo.len(),
{
    redo.len() > 0 ==> {
        &&& applies(rows, redo.last())
        &&& future_ok(forward(rows, redo.last()), redo.drop_last())
    }
}

/// Column zero is a boundary of every row.
pub proof fn lemma_origin_valid(rows: Seq<Seq<char>>, y: int)
    requires
        0 <= y < rows.len(),
        y <= usize::MAX,
    ensures
        valid_position(rows, Position { x: 0, y: y as usize }),
        index_at(rows[y], 0) == 0,
{
    lemma_index_of_start(rows[y], 0);
}

/// Whether the edit that `ev` records, made on `rows`, can be reverted and
/// reverting it gives back `rows`.
pub open spec fn there_and_back(rows: Seq<Seq<char>>, ev: Event) -> bool {
    &&& rows_ok(forward(rows, ev))
    &&& reverts(forward(rows, ev), ev)
    &&& backward(forward(rows, ev), ev) == rows
}

/// Whether the edit that `ev` records, reverted on `rows`, can be made again
/// and making it gives back `rows`.
pub open spec fn back_and_there(rows: Seq<Seq<char>>, ev: Event) -> bool {
    &&& rows_ok(backward(rows, ev))
    &&& applies(backward(rows, ev), ev)
    &&& forward(backward(rows, ev), ev) == rows
}

/// A tab stop that went in can be taken out again.
proof fn lemma_insert_tab_there(rows: Seq<Seq<char>>, p: Position)
    requires
        rows_ok(rows),
        applies(rows, Event::InsertTab(p)),
    ensures
        there_and_back(rows, Event::InsertTab(p)),
{
    let ev = Event::InsertTab(p);
    let row = rows[p.y as int];
    let g = index_at(row, p.x as int);
    let n = TAB_WIDTH as nat;
    let grown = with_run(row, g, ' ', n);
    lemma_boundary(row, p.x as int);
    lemma_width_take(row, g, g);
    lemma_width_concat(row.take(g), repeated(' ', n) + row.skip(g), g);
    assert(grown =~= row.take(g) + (repeated(' ', n) + row.skip(g)));
    lemma_index_of_start(grown, g);
    assert(grown.subrange(g, g + TAB_WIDTH) =~= repeated(' ', n));
    assert(without_run(grown, g, n) =~= row);
    assert(backward(forward(rows, ev), ev) =~= rows);
}

/// A character that went in can be taken out again.
proof fn lemma_insert_char_there(rows: Seq<Seq<char>>, p: Position, c: char)
    requires
        rows_ok(rows),
        applies(rows, Event::InsertChar(p, c)),
    ensures
        there_and_back(rows, Event::InsertChar(p, c)),
{
    let ev = Event::InsertChar(p, c);
    let row = rows[p.y as int];
    let g = index_at(row, p.x as int);
    let grown = row.insert(g, c);
    lemma_boundary(row, p.x as int);
    lemma_width_insert(row, g, c, g);
    lemma_index_of_start(grown, g);
    assert(grown.remove(g) =~= row);
    assert(backward(forward(rows, ev), ev) =~= rows);
}

/// A character that was deleted can be put back.
proof fn lemma_delete_char_there(rows: Seq<Seq<char>>, p: Position, c: char)
    requires
        rows_ok(rows),
        applies(rows, Event::DeleteChar(p, c)),
    ensures
        there_and_back(rows, Event::DeleteChar(p, c)),
{
    let ev = Event::DeleteChar(p, c);
    let row = rows[p.y as int];
    let g = index_at(row, p.x as int);
    let cut = row.remove(g - 1);
    lemma_boundary(row, p.x as int);
    lemma_width_remove(row, g - 1, g - 1);
    lemma_index_of_start(cut, g - 1);
    assert(width_to(row, g) == width_to(row, g - 1) + cell_width(row[g - 1]));
    assert(cut.insert(g - 1, c) =~= row);
    assert(backward(forward(rows, ev), ev) =~= rows);
}

/// A row that was opened above can be closed again.
proof fn lemma_split_at_start_there(rows: Seq<Seq<char>>, p: Position)
    requires
        rows_ok(rows),
        applies(rows, Event::SplitAtStart(p)),
    ensures
        there_and_back(rows, Event::SplitAtStart(p)),
{
    let ev = Event::SplitAtStart(p);
    assert(backward(forward(rows, ev), ev) =~= rows);
}

/// A row that was opened below can be closed again.
proof fn lemma_split_at_end_there(rows: Seq<Seq<char>>, p: Position)
    requires
        rows_ok(rows),
        applies(rows, Event::SplitAtEnd(p)),
    ensures
        there_and_back(rows, Event::SplitAtEnd(p)),
{
    let ev = Event::SplitAtEnd(p);
    assert(backward(forward(rows, ev), ev) =~= rows);
}

/// A row that was split can be joined again.
proof fn lemma_split_at_middle_there(rows: Seq<Seq<char>>, p: Position, b: usize)
    requires
        rows_ok(rows),
        applies(rows, Event::SplitAtMiddle(p, b)),
    ensures
        there_and_back(rows, Event::SplitAtMiddle(p, b)),
{
    let ev = Event::SplitAtMiddle(p, b);
    let y = p.y as int;
    let row = rows[y];
    let after = forward(rows, ev);
    lemma_boundary(row, p.x as int);
    lemma_width_take(row, b as int, b as int);
    assert(row.take(b as int) + row.skip(b as int) =~= row);
    assert(after[y] == row.take(b as int));
    assert(after[y + 1] == row.skip(b as int));
    assert(backward(after, ev) =~= rows);
}

/// Rows that were joined can be split again.
proof fn lemma_merge_rows_there(rows: Seq<Seq<char>>, p: Position, b: usize)
    requires
        rows_ok(rows),
        applies(rows, Event::MergeRows(p, b)),
    ensures
        there_and_back(rows, Event::MergeRows(p, b)),
{
    let ev = Event::MergeRows(p, b);
    let y = p.y as int;
    let joined = rows[y - 1] + rows[y];
    let after = forward(rows, ev);
    assert(joined.take(b as int) =~= rows[y - 1]);
    assert(joined.skip(b as int) =~= rows[y]);
    assert(after[y - 1] == joined);
    assert(backward(after, ev) =~= rows);
}

/// A tab stop that was taken out can go in again.
proof fn lemma_insert_tab_back(rows: Seq<Seq<char>>, p: Position)
    requires
        rows_ok(rows),
        reverts(rows, Event::InsertTab(p)),
    ensures
        back_and_there(rows, Event::InsertTab(p)),
{
    let ev = Event::InsertTab(p);
    let row = rows[p.y as int];
    let g = index_at(row, p.x as int);
    let n = TAB_WIDTH as nat;
    let cut = without_run(row, g, n);
    lemma_boundary(row, p.x as int);
    lemma_width_take(row, g, g);
    lemma_width_concat(row.take(g), row.skip(g + n), g);
    lemma_index_of_start(cut, g);
    assert forall|i: int| 0 <= i < row.len() implies with_run(cut, g, ' ', n)[i] == row[i] by {
        if g <= i < g + n {
            assert(row.subrange(g, g + TAB_WIDTH)[i - g] == row[i]);
        }
    }
    assert(with_run(cut, g, ' ', n) =~= row);
    assert(forward(backward(rows, ev), ev) =~= rows);
}

/// A character that was taken out can go in again.
proof fn lemma_insert_char_back(rows: Seq<Seq<char>>, p: Position, c: char)
    requires
        rows_ok(rows),
        reverts(rows, Event::InsertChar(p, c)),
    ensures
        back_and_there(rows, Event::InsertChar(p, c)),
{
    let ev = Event::InsertChar(p, c);
    let row = rows[p.y as int];
    let g = index_at(row, p.x as int);
    let cut = row.remove(g);
    lemma_boundary(row, p.x as int);
    lemma_width_remove(row, g, g);
    lemma_index_of_start(cut, g);
    assert(cut.insert(g, c) =~= row);
    assert(forward(backward(rows, ev), ev) =~= rows);
}

/// A character that was put back can be deleted again.
proof fn lemma_delete_char_back(rows: Seq<Seq<char>>, p: Position, c: char)
    requires
        rows_ok(rows),
        reverts(rows, Event::DeleteChar(p, c)),
    ensures
        back_and_there(rows, Event::DeleteChar(p, c)),
{
    let ev = Event::DeleteChar(p, c);
    let row = rows[p.y as int];
    let x = p.x - cell_width(c);
    let g = index_at(row, x);
    let grown = row.insert(g, c);
    lemma_boundary(row, x);
    lemma_width_insert(row, g, c, g + 1);
    lemma_index_of_start(grown, g + 1);
    assert(grown.remove(g) =~= row);
    assert(forward(backward(rows, ev), ev) =~= rows);
}

/// A row that was closed can be opened above again.
proof fn lemma_split_at_start_back(rows: Seq<Seq<char>>, p: Position)
    requires
        rows_ok(rows),
        reverts(rows, Event::SplitAtStart(p)),
    ensures
        back_and_there(rows, Event::SplitAtStart(p)),
{
    let ev = Event::SplitAtStart(p);
    let y = p.y as int;
    lemma_origin_valid(backward(rows, ev), y);
    assert(rows[y] =~= Seq::<char>::empty());
    assert(forward(backward(rows, ev), ev) =~= rows);
}

/// A row that was closed can be opened below again.
proof fn lemma_split_at_end_back(rows: Seq<Seq<char>>, p: Position)
    requires
        rows_ok(rows),
        reverts(rows, Event::SplitAtEnd(p)),
    ensures
        back_and_there(rows, Event::SplitAtEnd(p)),
{
    let ev = Event::SplitAtEnd(p);
    let y = p.y as int;
    lemma_index_of_start(rows[y], rows[y].len() as int);
    assert(rows[y + 1] =~= Seq::<char>::empty());
    assert(forward(backward(rows, ev), ev) =~= rows);
}

/// A row that was joined can be split again.
proof fn lemma_split_at_middle_back(rows: Seq<Seq<char>>, p: Position, b: usize)
    requires
        rows_ok(rows),
        reverts(rows, Event::SplitAtMiddle(p, b)),
    ensures
        back_and_there(rows, Event::SplitAtMiddle(p, b)),
{
    let ev = Event::SplitAtMiddle(p, b);
    let y = p.y as int;
    let joined = rows[y] + rows[y + 1];
    let before = backward(rows, ev);
    lemma_width_concat(rows[y], rows[y + 1], b as int);
    lemma_index_of_start(joined, b as int);
    assert(joined.take(b as int) =~= rows[y]);
    assert(joined.skip(b as int) =~= rows[y + 1]);
    assert(before[y] == joined);
    assert(forward(before, ev) =~= rows);
}

/// Rows that were split can be joined again.
proof fn lemma_merge_rows_back(rows: Seq<Seq<char>>, p: Position, b: usize)
    requires
        rows_ok(rows),
        reverts(rows, Event::MergeRows(p, b)),
    ensures
        back_and_there(rows, Event::MergeRows(p, b)),
{
    let ev = Event::MergeRows(p, b);
    let y = p.y as int;
    let row = rows[y - 1];
    let before = backward(rows, ev);
    assert(row.take(b as int) + row.skip(b as int) =~= row);
    lemma_origin_valid(before, y);
    assert(before[y - 1] == row.take(b as int));
    assert(before[y] == row.skip(b as int));
    assert(forward(before, ev) =~= rows);
}

/// An edit that was made can be reverted, and reverting it gives back the rows
/// it was made on.
pub proof fn lemma_apply_then_revert(rows: Seq<Seq<char>>, ev: Event)
    requires
        rows_ok(rows),
        applies(rows, ev),
    ensures
        rows_ok(forward(rows, ev)),
        reverts(forward(rows, ev), ev),
        backward(forward(rows, ev), ev) == rows,
{
    match ev {
        Event::InsertTab(p) => lemma_insert_tab_there(rows, p),
        Event::InsertChar(p, c) => lemma_insert_char_there(rows, p, c),
        Event::DeleteChar(p, c) => lemma_delete_char_there(rows, p, c),
        Event::SplitAtStart(p) => lemma_split_at_start_there(rows, p),
        Event::SplitAtEnd(p) => lemma_split_at_end_there(rows, p),
        Event::SplitAtMiddle(p, b) => lemma_split_at_middle_there(rows, p, b),
        Event::MergeRows(p, b) => lemma_merge_rows_there(rows, p, b),
    }
}

/// An edit that was reverted can be made again, and making it gives back the
/// rows it was reverted from.
pub proof fn lemma_revert_then_apply(rows: Seq<Seq<char>>, ev: Event)
    requires
        rows_ok(rows),
        reverts(rows, ev),
    ensures
        rows_ok(backward(rows, ev)),
        applies(backward(rows, ev), ev),
        forward(backward(rows, ev), ev) == rows,
{
    match ev {
        Event::InsertTab(p) => lemma_insert_tab_back(rows, p),
        Event::InsertChar(p, c) => lemma_insert_char_back(rows, p, c),
        Event::DeleteChar(p, c) => lemma_delete_char_back(rows, p, c),
        Event::SplitAtStart(p) => lemma_split_at_start_back(rows, p),
        Event::SplitAtEnd(p) => lemma_split_at_end_back(rows, p),
        Event::SplitAtMiddle(p, b) => lemma_split_at_middle_back(rows, p, b),
        Event::MergeRows(p, b) => lemma_merge_rows_back(rows, p, b),
    }
}

/// After an edit the cursor stands at a position of the new rows.
pub proof fn lemma_landing_valid(rows: Seq<Seq<char>>, ev: Event)
    requires
        rows_ok(rows),
        applies(rows, ev),
    ensures
        0 <= landing(rows, ev).0 <= usize::MAX,
        0 <= landing(rows, ev).1 < forward(rows, ev).len(),
        on_boundary(forward(rows, ev)[landing(rows, ev).1], landing(rows, ev).0),
{
    let p = ev.position();
    let y = p.y as int;
    let row = rows[y];
    let g = index_at(row, p.x as int);
    let after = forward(rows, ev);
    lemma_boundary(row, p.x as int);
    lemma_apply_then_revert(rows, ev);
    match ev {
        Event::InsertTab(_) => {
            let n = TAB_WIDTH as nat;
            let grown = with_run(row, g, ' ', n);
            lemma_width_take(row, g, g);
            lemma_width_concat(row.take(g), repeated(' ', n) + row.skip(g), g);
            assert(grown =~= row.take(g) + (repeated(' ', n) + row.skip(g)));
            lemma_width_run(grown, g, ' ', TAB_WIDTH as int);
            lemma_index_of_start(grown, g + TAB_WIDTH);
            lemma_boundary(grown, landing(rows, ev).0);
            crate::row::lemma_columns_fit(grown, grown.len() as int);
        },
        Event::InsertChar(_, c) => {
            let grown = row.insert(g, c);
            lemma_width_insert(row, g, c, g + 1);
            lemma_index_of_start(grown, g + 1);
            lemma_boundary(grown, landing(rows, ev).0);
            crate::row::lemma_columns_fit(grown, grown.len() as int);
        },
        Event::DeleteChar(_, c) => {
            let cut = row.remove(g - 1);
            lemma_width_remove(row, g - 1, g - 1);
            lemma_index_of_start(cut, g - 1);
        },
        Event::SplitAtStart(_) => {
            lemma_origin_valid(after, y + 1);
        },
        Event::SplitAtEnd(_) => {
            lemma_origin_valid(after, y + 1);
        },
        Event::SplitAtMiddle(_, _) => {
            lemma_origin_valid(after, y + 1);
        },
        Event::MergeRows(_, _) => {
            let joined = rows[y - 1] + row;
            lemma_width_concat(rows[y - 1], row, rows[y - 1].len() as int);
            lemma_index_of_start(joined, rows[y - 1].len() as int);
            assert(after[y - 1] == joined);
            crate::row::lemma_columns_fit(rows[y - 1], rows[y - 1].len() as int);
        },
    }
}

} // verus!
