//! The cursor and the viewport: how the screen position, the scroll origin
//! and the cell index move together.
use vstd::prelude::*;
use crate::editor::Editor;
use crate::editor::Key;
use crate::editor::Point;
use crate::editor::Position;
use crate::editor::State;
use crate::event::valid_position;
use crate::row::lemma_columns_fit;
use crate::width::cell_columns;
use crate::width::cell_width;
use crate::width::index_at;
use crate::width::lemma_boundary;
use crate::width::lemma_index_at;
use crate::width::lemma_index_of_start;
use crate::width::lemma_width_monotonic;
use crate::width::on_boundary;
use crate::width::total_width;
use crate::width::width_to;

verus! {

impl State {
    /// The state with the cursor's column replaced.
    pub open spec fn at(self, cursor_x: int, offset_x: int, graphemes: int) -> State {
        State {
            cursor: Point { x: cursor_x, y: self.cursor.y },
            offset: Point { x: offset_x, y: self.offset.y },
            graphemes,
            ..self
        }
    }

    /// The state with the cursor's row replaced.
    pub open spec fn to_row(self, cursor_y: int, offset_y: int) -> State {
        State {
            cursor: Point { x: self.cursor.x, y: cursor_y },
            offset: Point { x: self.offset.x, y: offset_y },
            ..self
        }
    }

    /// Whether two states differ in nothing but the cursor, the scroll
    /// origin and the cell index.
    pub open spec fn same_but_cursor(self, other: State) -> bool {
        other == State {
            cursor: other.cursor,
            offset: other.offset,
            graphemes: other.graphemes,
            ..self
        }
    }

    /// Home: the start of the row, unscrolled.
    pub open spec fn home(self) -> State {
        self.at(0, 0, 0)
    }

    /// End: the end of the row. A row that fits the window is shown
    /// unscrolled; a longer one is scrolled so that its last cell is in
    /// view, with the cursor behind it.
    pub open spec fn end(self) -> State {
        let row = self.row();
        let length = total_width(row) as int;
        let columns = self.columns();
        if length > columns {
            let jump = cell_width(row.last()) as int;
            let x = if columns >= jump {
                columns - jump
            } else {
                0
            };
            self.at(x, length - x, row.len() as int)
        } else {
            self.at(length, 0, row.len() as int)
        }
    }

    /// Snap to line: a column beyond the end of the row becomes the end of
    /// the row, by Home and then End.
    pub open spec fn snap(self) -> State {
        if self.x() > total_width(self.row()) {
            self.home().end()
        } else {
            self
        }
    }

    /// The column moved back by `d`: on screen where the cursor has the
    /// room, else by scrolling.
    pub open spec fn retreat(self, d: int) -> State {
        if self.cursor.x >= d {
            self.at(self.cursor.x - d, self.offset.x, self.graphemes)
        } else if self.offset.x >= d {
            self.at(self.cursor.x, self.offset.x - d, self.graphemes)
        } else {
            self.at(self.x() - d, 0, self.graphemes)
        }
    }

    /// Boundary fix: a column inside a cell moves back to where the cell
    /// starts.
    pub open spec fn fix(self) -> State {
        let row = self.row();
        let x = self.x();
        if x < total_width(row) && !on_boundary(row, x) {
            let g = index_at(row, x) - 1;
            let back = self.retreat(x - width_to(row, g));
            State { graphemes: g, ..back }
        } else {
            self
        }
    }

    /// The cell index made to agree with the column.
    pub open spec fn recalc(self) -> State {
        State { graphemes: index_at(self.row(), self.x()), ..self }
    }

    /// What follows every change of row: snap, boundary fix, and a new cell
    /// index.
    #[verifier::opaque]
    pub open spec fn settle(self) -> State {
        self.snap().fix().recalc()
    }

    /// Right: over the cell at the cursor, by its width; the window scrolls
    /// where the cursor would leave it.
    pub open spec fn move_right(self) -> State {
        let g = self.graphemes;
        if g < self.row().len() {
            let jump = cell_width(self.row()[g]) as int;
            if self.cursor.x + jump > self.columns() {
                self.at(self.cursor.x, self.offset.x + jump, g + 1)
            } else {
                self.at(self.cursor.x + jump, self.offset.x, g + 1)
            }
        } else {
            self
        }
    }

    /// Left: over the cell before the cursor, by its width.
    pub open spec fn move_left(self) -> State {
        let g = self.graphemes;
        if g > 0 {
            let back = self.retreat(cell_width(self.row()[g - 1]) as int);
            State { graphemes: g - 1, ..back }
        } else {
            self
        }
    }

    /// Down: to the next row, if there is one; the window scrolls where the
    /// cursor is on its last row.
    pub open spec fn move_down(self) -> State {
        if self.y() + 1 < self.rows.len() {
            if self.cursor.y >= self.max_y() {
                self.to_row(self.cursor.y, self.offset.y + 1).settle()
            } else {
                self.to_row(self.cursor.y + 1, self.offset.y).settle()
            }
        } else {
            self
        }
    }

    /// Up: to the row before; the window scrolls where the cursor is on its
    /// first row.
    pub open spec fn move_up(self) -> State {
        if self.cursor.y == 0 {
            self.to_row(
                0,
                if self.offset.y > 0 {
                    self.offset.y - 1
                } else {
                    0
                },
            ).settle()
        } else {
            self.to_row(self.cursor.y - 1, self.offset.y).settle()
        }
    }

    /// Page up: to the first row of the window.
    pub open spec fn page_up(self) -> State {
        self.to_row(0, self.offset.y).settle()
    }

    /// Page down: to the last row of the window, or to the last row of the
    /// document where that comes first.
    pub open spec fn page_down(self) -> State {
        let last = self.rows.len() - 1 - self.offset.y;
        self.to_row(
            if last < self.max_y() {
                last
            } else {
                self.max_y()
            },
            self.offset.y,
        ).settle()
    }

    /// The state after an arrow key; other keys move nothing.
    pub open spec fn moved(self, key: Key) -> State {
        match key {
            Key::Down => self.move_down(),
            Key::Up => self.move_up(),
            Key::Right => self.move_right(),
            Key::Left => self.move_left(),
            _ => self,
        }
    }

    /// The state after a leap key; other keys move nothing.
    pub open spec fn leaped(self, key: Key) -> State {
        match key {
            Key::PageUp => self.page_up(),
            Key::PageDown => self.page_down(),
            Key::Home => self.home(),
            Key::End => self.end(),
            _ => self,
        }
    }

    /// Whether the document position is inside the text window.
    pub open spec fn shows(self, x: int, y: int) -> bool {
        &&& self.offset.y <= y <= self.offset.y + self.max_y()
        &&& self.offset.x <= x <= self.offset.x + self.columns()
    }

    /// The cursor put on a document position, with the cell index that
    /// belongs to it and this scroll origin.
    pub open spec fn put(self, x: int, y: int, offset_x: int, offset_y: int) -> State {
        State {
            cursor: Point { x: x - offset_x, y: y - offset_y },
            offset: Point { x: offset_x, y: offset_y },
            graphemes: index_at(self.rows[y], x),
            ..self
        }
    }

    /// The cursor put on a document position with as little scrolling as
    /// shows it: none where the window holds the position already, else up to
    /// the nearer edge of the window.
    pub open spec fn seek(self, x: int, y: int) -> State {
        let offset_y = if y < self.offset.y {
            y
        } else if y > self.offset.y + self.max_y() {
            y - self.max_y()
        } else {
            self.offset.y
        };
        let offset_x = if x < self.offset.x {
            x
        } else if x > self.offset.x + self.columns() {
            x - self.columns()
        } else {
            self.offset.x
        };
        self.put(x, y, offset_x, offset_y)
    }

    /// The cursor brought back into the text window with the document
    /// position kept: what the cursor stands beyond the window is scrolled.
    /// This is for a gutter that has grown wider and for the way back from
    /// a search.
    pub open spec fn refit(self) -> State {
        let cursor_x = if self.cursor.x > self.columns() {
            self.columns()
        } else {
            self.cursor.x
        };
        let cursor_y = if self.cursor.y > self.max_y() {
            self.max_y()
        } else {
            self.cursor.y
        };
        State {
            cursor: Point { x: cursor_x, y: cursor_y },
            offset: Point { x: self.x() - cursor_x, y: self.y() - cursor_y },
            ..self
        }
    }

    /// The cursor brought back into a window that has shrunk. Its screen row
    /// is cut to the last text row while the scroll origin stays, so the
    /// cursor may come to stand on a row further up in the document. Its
    /// screen column is cut to the window and the difference is scrolled,
    /// so the column in the document stays. Then the column settles on the
    /// row that is now addressed.
    pub open spec fn clamp(self) -> State {
        let cursor_x = if self.cursor.x > self.columns() {
            self.columns()
        } else {
            self.cursor.x
        };
        let cursor_y = if self.cursor.y > self.max_y() {
            self.max_y()
        } else {
            self.cursor.y
        };
        State {
            cursor: Point { x: cursor_x, y: cursor_y },
            offset: Point { x: self.x() - cursor_x, y: self.offset.y },
            ..self
        }.settle()
    }

    /// The scroll origin that brings column `x` into view when the window
    /// has to scroll to a search match: none for a column of the first
    /// window, else the column itself.
    pub open spec fn match_offset_x(self, x: int) -> int {
        if x > self.columns() {
            x
        } else {
            0
        }
    }

    /// Jump to a match ahead: a position inside the window takes the cursor
    /// without scrolling; otherwise the window scrolls so that the position
    /// is on its last row.
    pub open spec fn goto_ahead(self, p: Position) -> State {
        if self.shows(p.x as int, p.y as int) {
            self.put(p.x as int, p.y as int, self.offset.x, self.offset.y)
        } else {
            let cursor_y = if p.y < self.max_y() {
                p.y as int
            } else {
                self.max_y()
            };
            self.put(p.x as int, p.y as int, self.match_offset_x(p.x as int), p.y - cursor_y)
        }
    }

    /// Jump to a match behind: a position inside the window takes the cursor
    /// without scrolling; otherwise the window scrolls so that the position
    /// is on its first row, or not at all where the position is in the first
    /// window of the document.
    pub open spec fn goto_behind(self, p: Position) -> State {
        if self.shows(p.x as int, p.y as int) {
            self.put(p.x as int, p.y as int, self.offset.x, self.offset.y)
        } else {
            let offset_y = if p.y < self.max_y() {
                0
            } else {
                p.y as int
            };
            self.put(p.x as int, p.y as int, self.match_offset_x(p.x as int), offset_y)
        }
    }
}

/// Snap to line leaves the cursor in the window, on its row, and at or
/// before the end of the row.
pub proof fn lemma_snap(s: State)
    requires
        s.framed(),
    ensures
        s.snap().framed(),
        s.same_but_cursor(s.snap()),
        s.snap().cursor.y == s.cursor.y,
        s.snap().offset.y == s.offset.y,
        s.snap().x() <= total_width(s.row()),
        s.snap().x() <= s.x(),
{
    lemma_columns_fit(s.row(), s.row().len() as int);
}

/// The boundary fix leaves the cursor in the window and on its row, and a
/// column within the row on a boundary.
pub proof fn lemma_fix(s: State)
    requires
        s.framed(),
    ensures
        s.fix().framed(),
        s.same_but_cursor(s.fix()),
        s.fix().cursor.y == s.cursor.y,
        s.fix().offset.y == s.offset.y,
        s.fix().x() <= s.x(),
        s.x() <= total_width(s.row()) ==> on_boundary(s.row(), s.fix().x()),
{
    let row = s.row();
    let x = s.x();
    lemma_index_at(row, x);
    if x < total_width(row) && !on_boundary(row, x) {
        let g = index_at(row, x);
        if g == 0 {
            lemma_index_of_start(row, 0);
        }
        lemma_index_of_start(row, g - 1);
    } else if x == total_width(row) {
        lemma_index_of_start(row, row.len() as int);
    }
}

/// On a boundary, the cell index that belongs to the column makes the state
/// well formed.
pub proof fn lemma_recalc(s: State)
    requires
        s.framed(),
        on_boundary(s.row(), s.x()),
    ensures
        s.recalc().wf(),
        s.same_but_cursor(s.recalc()),
{
    lemma_boundary(s.row(), s.x());
}

/// Settling a framed state gives a well-formed one: after a change of row
/// the cursor is on a boundary of the new row.
pub proof fn lemma_settle(s: State)
    requires
        s.framed(),
    ensures
        s.settle().wf(),
        s.same_but_cursor(s.settle()),
        s.settle().cursor.y == s.cursor.y,
        s.settle().offset.y == s.offset.y,
        s.settle().x() <= s.x(),
{
    reveal(State::settle);
    lemma_snap(s);
    lemma_fix(s.snap());
    lemma_recalc(s.snap().fix());
}

/// A move down keeps the invariant.
pub proof fn lemma_move_down(s: State)
    requires
        s.wf(),
    ensures
        s.move_down().wf(),
        s.same_but_cursor(s.move_down()),
{
    if s.y() + 1 < s.rows.len() {
        if s.cursor.y >= s.max_y() {
            lemma_settle(s.to_row(s.cursor.y, s.offset.y + 1));
        } else {
            lemma_settle(s.to_row(s.cursor.y + 1, s.offset.y));
        }
    }
}

/// A move up keeps the invariant.
pub proof fn lemma_move_up(s: State)
    requires
        s.wf(),
    ensures
        s.move_up().wf(),
        s.same_but_cursor(s.move_up()),
{
    if s.cursor.y == 0 {
        lemma_settle(
            s.to_row(
                0,
                if s.offset.y > 0 {
                    s.offset.y - 1
                } else {
                    0
                },
            ),
        );
    } else {
        lemma_settle(s.to_row(s.cursor.y - 1, s.offset.y));
    }
}

/// A move to the right keeps the invariant.
pub proof fn lemma_move_right(s: State)
    requires
        s.wf(),
    ensures
        s.move_right().wf(),
        s.same_but_cursor(s.move_right()),
{
    let row = s.row();
    let g = s.graphemes;
    lemma_columns_fit(row, row.len() as int);
    if g < row.len() {
        lemma_width_monotonic(row, g + 1, row.len() as int);
    }
}

/// A move to the left keeps the invariant.
pub proof fn lemma_move_left(s: State)
    requires
        s.wf(),
    ensures
        s.move_left().wf(),
        s.same_but_cursor(s.move_left()),
{
    let row = s.row();
    let g = s.graphemes;
    if g > 0 {
        assert(width_to(row, g) == width_to(row, g - 1) + cell_width(row[g - 1]));
    }
}

/// The moves of the cursor keep the invariant and touch nothing but the
/// cursor.
pub proof fn lemma_moved(s: State, key: Key)
    requires
        s.wf(),
    ensures
        s.moved(key).wf(),
        s.same_but_cursor(s.moved(key)),
{
    match key {
        Key::Down => lemma_move_down(s),
        Key::Up => lemma_move_up(s),
        Key::Right => lemma_move_right(s),
        Key::Left => lemma_move_left(s),
        _ => {},
    }
}

/// The leaps of the cursor lead from a framed state to a well-formed one
/// and touch nothing but the cursor.
pub proof fn lemma_leaped(s: State, key: Key)
    requires
        s.framed(),
        !(key is PageUp || key is PageDown || key is Home || key is End) ==> s.wf(),
    ensures
        s.leaped(key).wf(),
        s.same_but_cursor(s.leaped(key)),
{
    let row = s.row();
    lemma_columns_fit(row, row.len() as int);
    match key {
        Key::PageUp => {
            lemma_settle(s.to_row(0, s.offset.y));
        },
        Key::PageDown => {
            let last = s.rows.len() - 1 - s.offset.y;
            lemma_settle(
                s.to_row(
                    if last < s.max_y() {
                        last
                    } else {
                        s.max_y()
                    },
                    s.offset.y,
                ),
            );
        },
        Key::Home => {},
        Key::End => {},
        _ => {},
    }
}

/// Putting the cursor on a position of the document that the chosen scroll
/// origin shows gives a well-formed state on that position.
pub proof fn lemma_put(s: State, x: int, y: int, offset_x: int, offset_y: int)
    requires
        s.grounded(),
        s.addresses(x, y),
        0 <= offset_y <= y <= offset_y + s.max_y(),
        0 <= offset_x <= x <= offset_x + s.columns(),
    ensures
        s.put(x, y, offset_x, offset_y).wf(),
        s.put(x, y, offset_x, offset_y).x() == x,
        s.put(x, y, offset_x, offset_y).y() == y,
        s.same_but_cursor(s.put(x, y, offset_x, offset_y)),
{
    lemma_boundary(s.rows[y], x);
    lemma_columns_fit(s.rows[y], s.rows[y].len() as int);
}

/// Seeking a position of the document gives a well-formed state on that
/// position.
pub proof fn lemma_seek(s: State, x: int, y: int)
    requires
        s.grounded(),
        s.addresses(x, y),
        0 <= s.offset.x,
        0 <= s.offset.y,
    ensures
        s.seek(x, y).wf(),
        s.seek(x, y).x() == x,
        s.seek(x, y).y() == y,
        s.same_but_cursor(s.seek(x, y)),
        s.shows(x, y) ==> s.seek(x, y).offset == s.offset,
{
    lemma_boundary(s.rows[y], x);
    let offset_y = if y < s.offset.y {
        y
    } else if y > s.offset.y + s.max_y() {
        y - s.max_y()
    } else {
        s.offset.y
    };
    let offset_x = if x < s.offset.x {
        x
    } else if x > s.offset.x + s.columns() {
        x - s.columns()
    } else {
        s.offset.x
    };
    lemma_put(s, x, y, offset_x, offset_y);
}

/// Refitting keeps the document position and brings the cursor into the
/// window.
pub proof fn lemma_refit(s: State)
    requires
        s.grounded(),
        s.addresses(s.x(), s.y()),
        0 <= s.cursor.x,
        0 <= s.cursor.y,
        0 <= s.offset.x,
        0 <= s.offset.y,
        s.graphemes == index_at(s.row(), s.x()),
    ensures
        s.refit().wf(),
        s.refit().x() == s.x(),
        s.refit().y() == s.y(),
        s.same_but_cursor(s.refit()),
        s.cursor.x <= s.columns() && s.cursor.y <= s.max_y() ==> s.refit() == s,
{
    lemma_boundary(s.row(), s.x());
    lemma_columns_fit(s.row(), s.row().len() as int);
}

/// Clamping brings the cursor into the window and onto a boundary of the
/// row it then addresses; the scroll origin keeps its row, and nothing but
/// the cursor changes.
pub proof fn lemma_clamp(s: State)
    requires
        s.grounded(),
        0 <= s.cursor.x,
        0 <= s.cursor.y,
        0 <= s.offset.x,
        0 <= s.offset.y,
        s.y() < s.rows.len(),
        s.x() <= usize::MAX,
    ensures
        s.clamp().wf(),
        s.same_but_cursor(s.clamp()),
        s.clamp().offset.y == s.offset.y,
        s.clamp().cursor.y == if s.cursor.y > s.max_y() {
            s.max_y()
        } else {
            s.cursor.y
        },
        s.clamp().x() <= s.x(),
        s.cursor.x <= s.columns() && s.cursor.y <= s.max_y() && s.wf() ==> s.clamp() == s,
{
    let cursor_x = if s.cursor.x > s.columns() {
        s.columns()
    } else {
        s.cursor.x
    };
    let cursor_y = if s.cursor.y > s.max_y() {
        s.max_y()
    } else {
        s.cursor.y
    };
    let cut = State {
        cursor: Point { x: cursor_x, y: cursor_y },
        offset: Point { x: s.x() - cursor_x, y: s.offset.y },
        ..s
    };
    lemma_settle(cut);
    if s.cursor.x <= s.columns() && s.cursor.y <= s.max_y() && s.wf() {
        assert(cut == s);
        lemma_settle_fixed(s);
    }
}

/// Settling changes nothing where the state is well formed already.
pub proof fn lemma_settle_fixed(s: State)
    requires
        s.wf(),
    ensures
        s.settle() == s,
{
    reveal(State::settle);
    let row = s.row();
    lemma_width_monotonic(row, s.graphemes, row.len() as int);
    lemma_index_of_start(row, s.graphemes);
}

/// The jumps to a search match give a well-formed state on the match.
pub proof fn lemma_goto(s: State, p: Position)
    requires
        s.grounded(),
        valid_position(s.rows, p),
        0 <= s.offset.x,
        0 <= s.offset.y,
    ensures
        s.goto_ahead(p).wf(),
        s.goto_ahead(p).x() == p.x,
        s.goto_ahead(p).y() == p.y,
        s.same_but_cursor(s.goto_ahead(p)),
        s.goto_behind(p).wf(),
        s.goto_behind(p).x() == p.x,
        s.goto_behind(p).y() == p.y,
        s.same_but_cursor(s.goto_behind(p)),
{
    let x = p.x as int;
    let y = p.y as int;
    if s.shows(x, y) {
        lemma_put(s, x, y, s.offset.x, s.offset.y);
    } else {
        let cursor_y = if p.y < s.max_y() {
            y
        } else {
            s.max_y()
        };
        lemma_put(s, x, y, s.match_offset_x(x), y - cursor_y);
        let offset_y = if p.y < s.max_y() {
            0
        } else {
            y
        };
        lemma_put(s, x, y, s.match_offset_x(x), offset_y);
    }
}

impl Editor {
    /// Columns of the text window.
    pub fn columns(&self) -> (n: usize)
        ensures
            n == self@.columns(),
    {
        let width = self.term.width as usize;
        if width >= self.doc.line_offset {
            width - self.doc.line_offset
        } else {
            0
        }
    }

    /// The last screen row the cursor may stand on.
    pub fn max_y(&self) -> (n: usize)
        ensures
            n == self@.max_y(),
    {
        if self.term.height >= 3 {
            (self.term.height - 3) as usize
        } else {
            0
        }
    }

    /// Home: the start of the row, unscrolled.
    pub(crate) fn home(&mut self)
        ensures
            final(self)@ == old(self)@.home(),
    {
        self.offset.x = 0;
        self.cursor.x = 0;
        self.graphemes = 0;
    }

    /// End: the end of the row, scrolled into view.
    fn end(&mut self)
        requires
            old(self)@.framed(),
        ensures
            final(self)@ == old(self)@.end(),
    {
        let row = &self.doc.rows[self.cursor.y + self.offset.y];
        let length = row.length();
        let columns = self.columns();
        let n = row.len();
        if length > columns {
            let jump = cell_columns(row.get(n - 1));
            let x = if columns >= jump {
                columns - jump
            } else {
                0
            };
            self.cursor.x = x;
            self.offset.x = length - x;
        } else {
            self.cursor.x = length;
            self.offset.x = 0;
        }
        self.graphemes = n;
    }

    /// Moves the column back by `d`: on screen where the cursor has the
    /// room, else by scrolling.
    fn retreat(&mut self, d: usize)
        requires
            d <= old(self)@.x() <= usize::MAX,
        ensures
            final(self)@ == old(self)@.retreat(d as int),
    {
        if self.cursor.x >= d {
            self.cursor.x = self.cursor.x - d;
        } else if self.offset.x >= d {
            self.offset.x = self.offset.x - d;
        } else {
            self.cursor.x = self.cursor.x + self.offset.x - d;
            self.offset.x = 0;
        }
    }

    /// Snap to line: where the cursor's column lies beyond the end of its
    /// row, the cursor goes to the end of the row.
    pub fn snap_cursor(&mut self)
        requires
            old(self)@.framed(),
        ensures
            final(self)@ == old(self)@.snap(),
            final(self)@.framed(),
            final(self)@.x() <= total_width(final(self)@.row()),
    {
        proof {
            lemma_snap(self@);
        }
        let x = self.cursor.x + self.offset.x;
        let length = self.doc.rows[self.cursor.y + self.offset.y].length();
        if x > length {
            self.home();
            self.end();
        }
    }

    /// Boundary fix: where the cursor's column lies inside a cell, the
    /// cursor goes back to the start of that cell.
    pub fn prevent_unicode_hell(&mut self)
        requires
            old(self)@.framed(),
        ensures
            final(self)@ == old(self)@.fix(),
            final(self)@.framed(),
            old(self)@.x() <= total_width(old(self)@.row()) ==> on_boundary(
                final(self)@.row(),
                final(self)@.x(),
            ),
    {
        proof {
            lemma_fix(self@);
        }
        let x = self.cursor.x + self.offset.x;
        let row = &self.doc.rows[self.cursor.y + self.offset.y];
        if x < row.length() {
            let g = row.index_at(x);
            proof {
                lemma_index_at(row@, x as int);
            }
            if row.width_to(g) != x {
                let start = row.width_to(g - 1);
                self.retreat(x - start);
                self.graphemes = g - 1;
            }
        }
    }

    /// Sets the cell index to the one that belongs to the cursor's column:
    /// the first cell of the row that starts at the column or later.
    pub fn recalculate_graphemes(&mut self)
        requires
            old(self)@.framed(),
        ensures
            final(self)@ == old(self)@.recalc(),
            on_boundary(old(self)@.row(), old(self)@.x()) ==> final(self)@.wf(),
    {
        proof {
            if on_boundary(self@.row(), self@.x()) {
                lemma_recalc(self@);
            }
        }
        let x = self.cursor.x + self.offset.x;
        self.graphemes = self.doc.rows[self.cursor.y + self.offset.y].index_at(x);
    }

    /// Settles the column after a change of row: snap, boundary fix, and a
    /// new cell index.
    fn settle(&mut self)
        requires
            old(self)@.framed(),
        ensures
            final(self)@ == old(self)@.settle(),
            final(self)@.wf(),
    {
        proof {
            reveal(State::settle);
            lemma_settle(self@);
        }
        self.snap_cursor();
        self.prevent_unicode_hell();
        self.recalculate_graphemes();
    }

    /// Down: to the next row, if there is one.
    fn move_down(&mut self)
        requires
            old(self)@.wf(),
        ensures
            final(self)@ == old(self)@.move_down(),
            final(self)@.wf(),
    {
        proof {
            lemma_move_down(self@);
        }
        if self.cursor.y + self.offset.y < self.doc.rows.len() - 1 {
            if self.cursor.y >= self.max_y() {
                self.offset.y = self.offset.y + 1;
            } else {
                self.cursor.y = self.cursor.y + 1;
            }
            self.settle();
        }
    }

    /// Up: to the row before, if there is one.
    fn move_up(&mut self)
        requires
            old(self)@.wf(),
        ensures
            final(self)@ == old(self)@.move_up(),
            final(self)@.wf(),
    {
        proof {
            lemma_move_up(self@);
        }
        if self.cursor.y == 0 {
            if self.offset.y > 0 {
                self.offset.y = self.offset.y - 1;
            }
        } else {
            self.cursor.y = self.cursor.y - 1;
        }
        self.settle();
    }

    /// Right: over the cell at the cursor.
    fn move_right(&mut self)
        requires
            old(self)@.wf(),
        ensures
            final(self)@ == old(self)@.move_right(),
            final(self)@.wf(),
    {
        proof {
            lemma_move_right(self@);
            lemma_columns_fit(self@.row(), self@.row().len() as int);
        }
        let row = &self.doc.rows[self.cursor.y + self.offset.y];
        if self.graphemes < row.len() {
            let jump = cell_columns(row.get(self.graphemes));
            proof {
                lemma_width_monotonic(row@, self.graphemes + 1, row@.len() as int);
            }
            if jump > self.columns() - self.cursor.x {
                self.offset.x = self.offset.x + jump;
            } else {
                self.cursor.x = self.cursor.x + jump;
            }
            self.graphemes = self.graphemes + 1;
        }
    }

    /// Left: over the cell before the cursor.
    fn move_left(&mut self)
        requires
            old(self)@.wf(),
        ensures
            final(self)@ == old(self)@.move_left(),
            final(self)@.wf(),
    {
        proof {
            lemma_move_left(self@);
            lemma_columns_fit(self@.row(), self@.row().len() as int);
        }
        if self.graphemes > 0 {
            let row = &self.doc.rows[self.cursor.y + self.offset.y];
            let jump = cell_columns(row.get(self.graphemes - 1));
            proof {
                let g = self@.graphemes;
                assert(width_to(row@, g) == width_to(row@, g - 1) + cell_width(row@[g - 1]));
            }
            self.retreat(jump);
            self.graphemes = self.graphemes - 1;
        }
    }

    /// Moves the cursor by one cell or one row for an arrow key, and not at
    /// all for another key.
    pub fn move_cursor(&mut self, direction: Key)
        requires
            old(self)@.wf(),
        ensures
            final(self)@ == old(self)@.moved(direction),
            final(self)@.wf(),
    {
        match direction {
            Key::Down => self.move_down(),
            Key::Up => self.move_up(),
            Key::Right => self.move_right(),
            Key::Left => self.move_left(),
            _ => {},
        }
    }

    /// Moves the cursor for a leap key: to the first or last row of the
    /// window, or to the start or end of the row; not at all for another
    /// key.
    pub fn leap_cursor(&mut self, action: Key)
        requires
            old(self)@.framed(),
        ensures
            final(self)@ == old(self)@.leaped(action),
            action is PageUp || action is PageDown || action is Home || action is End || old(
                self,
            )@.wf() ==> final(self)@.wf(),
    {
        proof {
            if action is PageUp || action is PageDown || action is Home || action is End
                || self@.wf() {
                lemma_leaped(self@, action);
            }
        }
        match action {
            Key::PageUp => {
                self.cursor.y = 0;
                self.settle();
            },
            Key::PageDown => {
                let last = self.doc.rows.len() - 1 - self.offset.y;
                let max_y = self.max_y();
                self.cursor.y = if last < max_y {
                    last
                } else {
                    max_y
                };
                self.settle();
            },
            Key::Home => {
                self.home();
            },
            Key::End => {
                self.end();
            },
            _ => {},
        }
    }

    /// Puts the cursor on a position of the document that the given scroll
    /// origin shows.
    fn put(&mut self, p: Position, offset_x: usize, offset_y: usize)
        requires
            old(self)@.grounded(),
            valid_position(old(self)@.rows, p),
            offset_y <= p.y <= offset_y + old(self)@.max_y(),
            offset_x <= p.x <= offset_x + old(self)@.columns(),
        ensures
            final(self)@ == old(self)@.put(
                p.x as int,
                p.y as int,
                offset_x as int,
                offset_y as int,
            ),
            final(self)@.wf(),
    {
        proof {
            lemma_put(self@, p.x as int, p.y as int, offset_x as int, offset_y as int);
        }
        self.cursor.x = p.x - offset_x;
        self.cursor.y = p.y - offset_y;
        self.offset.x = offset_x;
        self.offset.y = offset_y;
        self.graphemes = self.doc.rows[p.y].index_at(p.x);
    }

    /// Whether the position is inside the text window.
    fn shows(&self, p: Position) -> (b: bool)
        ensures
            b == self@.shows(p.x as int, p.y as int),
    {
        self.offset.y <= p.y && p.y - self.offset.y <= self.max_y() && self.offset.x <= p.x && p.x
            - self.offset.x <= self.columns()
    }

    /// Puts the cursor on a position of the document, scrolling no more than
    /// it takes to show the position.
    pub fn seek(&mut self, p: Position)
        requires
            old(self)@.grounded(),
            valid_position(old(self)@.rows, p),
        ensures
            final(self)@ == old(self)@.seek(p.x as int, p.y as int),
            final(self)@.wf(),
    {
        let max_y = self.max_y();
        let columns = self.columns();
        let offset_y = if p.y < self.offset.y {
            p.y
        } else if p.y - self.offset.y > max_y {
            p.y - max_y
        } else {
            self.offset.y
        };
        let offset_x = if p.x < self.offset.x {
            p.x
        } else if p.x - self.offset.x > columns {
            p.x - columns
        } else {
            self.offset.x
        };
        self.put(p, offset_x, offset_y);
    }

    /// Brings the cursor back into a window that has shrunk: the screen row
    /// is cut to the last text row with the scroll origin left alone, the
    /// screen column is cut to the window with the column in the document
    /// kept, and the column settles on the row that is then addressed.
    pub(crate) fn clamp(&mut self)
        requires
            old(self)@.grounded(),
            old(self)@.y() < old(self)@.rows.len(),
            old(self)@.x() <= usize::MAX,
        ensures
            final(self)@ == old(self)@.clamp(),
            final(self)@.wf(),
    {
        proof {
            lemma_clamp(self@);
        }
        let max_y = self.max_y();
        let columns = self.columns();
        if self.cursor.y > max_y {
            self.cursor.y = max_y;
        }
        if self.cursor.x > columns {
            self.offset.x = self.offset.x + (self.cursor.x - columns);
            self.cursor.x = columns;
        }
        self.settle();
    }

    /// Brings the cursor back into the text window by scrolling; the
    /// document position stays.
    pub fn refit(&mut self)
        requires
            old(self)@.grounded(),
            old(self)@.addresses(old(self)@.x(), old(self)@.y()),
            old(self)@.graphemes == index_at(old(self)@.row(), old(self)@.x()),
        ensures
            final(self)@ == old(self)@.refit(),
            final(self)@.wf(),
    {
        proof {
            lemma_refit(self@);
            lemma_boundary(self@.row(), self@.x());
            lemma_columns_fit(self@.row(), self@.row().len() as int);
        }
        let max_y = self.max_y();
        let columns = self.columns();
        if self.cursor.x > columns {
            self.offset.x = self.offset.x + (self.cursor.x - columns);
            self.cursor.x = columns;
        }
        if self.cursor.y > max_y {
            self.offset.y = self.offset.y + (self.cursor.y - max_y);
            self.cursor.y = max_y;
        }
    }

    /// Jumps to a search match behind the cursor: without scrolling where
    /// the window shows the match, else with the match on the first row of
    /// the window.
    pub fn goto_behind(&mut self, position: &Position)
        requires
            old(self)@.grounded(),
            valid_position(old(self)@.rows, *position),
        ensures
            final(self)@ == old(self)@.goto_behind(*position),
            final(self)@.wf(),
    {
        let p = *position;
        proof {
            lemma_goto(self@, p);
            lemma_boundary(self@.rows[p.y as int], p.x as int);
        }
        if self.shows(p) {
            self.put(p, self.offset.x, self.offset.y);
        } else {
            let offset_x = if p.x > self.columns() {
                p.x
            } else {
                0
            };
            let offset_y = if p.y < self.max_y() {
                0
            } else {
                p.y
            };
            self.put(p, offset_x, offset_y);
        }
    }

    /// Jumps to a search match ahead of the cursor: without scrolling where
    /// the window shows the match, else with the match on the last row of
    /// the window.
    pub fn goto_ahead(&mut self, position: &Position)
        requires
            old(self)@.grounded(),
            valid_position(old(self)@.rows, *position),
        ensures
            final(self)@ == old(self)@.goto_ahead(*position),
            final(self)@.wf(),
    {
        let p = *position;
        proof {
            lemma_goto(self@, p);
            lemma_boundary(self@.rows[p.y as int], p.x as int);
        }
        if self.shows(p) {
            self.put(p, self.offset.x, self.offset.y);
        } else {
            let offset_x = if p.x > self.columns() {
                p.x
            } else {
                0
            };
            let max_y = self.max_y();
            let cursor_y = if p.y < max_y {
                p.y
            } else {
                max_y
            };
            self.put(p, offset_x, p.y - cursor_y);
        }
    }
}

} // verus!
