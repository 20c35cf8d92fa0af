//! One line of text: a sequence of cells with the operations the editor
//! needs, each addressed by cell index or by screen column.
use vstd::prelude::*;
use crate::style::line_number_fg_code;
use crate::style::Paint;
use crate::style::push_paint;
use crate::style::reset_fg_code;
use crate::text::chars_of;
use crate::text::count_digits;
use crate::text::decimal_digits;
use crate::text::lemma_digit_count;
use crate::text::push_decimal;
use crate::text::push_repeated;
use crate::text::repeated;
use crate::text::string_of;
use crate::width::cell_columns;
use crate::width::cell_width;
use crate::width::glyph;
use crate::width::has_glyph;
use crate::width::index_at;
use crate::width::lemma_index_at_unique;
use crate::width::lemma_width_bounds;
use crate::width::lemma_width_monotonic;
use crate::width::total_width;
use crate::width::width_to;

verus! {

/// The most cells a row may hold: with it every column of a row fits a
/// `usize`.
pub const MAX_CELLS: usize = usize::MAX / 3;

/// Drawn in place of a character that has no glyph of its own.
pub const PLACEHOLDER: char = '\u{fffd}';

/// A line of the document.
pub struct Row {
    pub(crate) cells: Vec<char>,
}

impl View for Row {
    type V = Seq<char>;

    open(crate) spec fn view(&self) -> Seq<char> {
        self.cells@
    }
}

/// Whether `needle` stands in `s` from cell `g` on.
pub open spec fn matches_at(s: Seq<char>, needle: Seq<char>, g: int) -> bool {
    &&& 0 <= g
    &&& g + needle.len() <= s.len()
    &&& s.subrange(g, g + needle.len()) == needle
}

/// Columns that the span from `start` to `end` shares with the window from
/// `lo` to `hi`.
pub open spec fn overlap(start: int, end: int, lo: int, hi: int) -> nat {
    let a = if start > lo { start } else { lo };
    let b = if end < hi { end } else { hi };
    if b > a {
        (b - a) as nat
    } else {
        0
    }
}

/// What one cell contributes to a rendered row. A cell that lies inside the
/// window is drawn, as itself or as the placeholder; a cell cut by an edge of
/// the window leaves a blank for each of its columns inside.
pub open spec fn cell_piece(c: char, start: int, lo: int, hi: int) -> Seq<char> {
    let end = start + cell_width(c);
    if lo <= start && end <= hi {
        seq![if has_glyph(c) { c } else { PLACEHOLDER }]
    } else {
        repeated(' ', overlap(start, end, lo, hi))
    }
}

/// The first `n` cells of `s` as drawn in the window of columns from `lo` to
/// `hi`.
pub open spec fn visible_text(s: Seq<char>, n: int, lo: int, hi: int) -> Seq<char>
    decreases n,
{
    if n <= 0 {
        Seq::empty()
    } else {
        visible_text(s, n - 1, lo, hi) + cell_piece(s[n - 1], width_to(s, n - 1) as int, lo, hi)
    }
}

/// The gutter of row `row_number` (counted from zero): its number counted from
/// one, right-aligned so that a blank closes a gutter of `gutter` columns.
pub open spec fn line_number(row_number: nat, gutter: nat) -> Seq<char> {
    let digits = decimal_digits(row_number + 1);
    let pad = if gutter >= digits.len() + 1 {
        (gutter - digits.len() - 1) as nat
    } else {
        0
    };
    repeated(' ', pad) + digits + seq![' ']
}

/// Text columns of a terminal `width` wide beside a gutter of `gutter`.
pub open spec fn text_columns(width: nat, gutter: nat) -> nat {
    if width >= gutter {
        (width - gutter) as nat
    } else {
        0
    }
}

/// A row as it is drawn: the coloured gutter, then the cells in the window
/// that starts at column `offset_x`.
pub open spec fn rendered(
    s: Seq<char>,
    offset_x: nat,
    width: nat,
    row_number: nat,
    gutter: nat,
) -> Seq<char> {
    line_number_fg_code() + line_number(row_number, gutter) + reset_fg_code() + visible_text(
        s,
        s.len() as int,
        offset_x as int,
        (offset_x + text_columns(width, gutter)) as int,
    )
}

/// Columns of the row's text that fall into the window from `lo` to `hi`.
pub open spec fn visible_columns(s: Seq<char>, lo: int, hi: int) -> nat {
    overlap(0, total_width(s) as int, lo, hi)
}

/// A row within the size limit has all its columns within `usize`.
pub proof fn lemma_columns_fit(s: Seq<char>, n: int)
    requires
        s.len() <= MAX_CELLS,
        0 <= n <= s.len(),
    ensures
        width_to(s, n) <= total_width(s) <= usize::MAX,
{
    lemma_width_bounds(s, s.len() as int);
    lemma_width_monotonic(s, n, s.len() as int);
}

impl Row {
    /// A row is well formed when it is within the size limit.
    pub open spec fn wf(&self) -> bool {
        self@.len() <= MAX_CELLS
    }

    /// The empty row.
    pub fn new() -> (row: Row)
        ensures
            row@ == Seq::<char>::empty(),
            row.wf(),
    {
        Row { cells: Vec::new() }
    }

    /// The row that holds `cells`.
    pub fn from_cells(cells: Vec<char>) -> (row: Row)
        requires
            cells@.len() <= MAX_CELLS,
        ensures
            row@ == cells@,
            row.wf(),
    {
        Row { cells }
    }

    /// The row that holds the characters of `text`.
    pub fn from(text: &str) -> (row: Row)
        requires
            text@.len() <= MAX_CELLS,
        ensures
            row@ == text@,
            row.wf(),
    {
        Row { cells: chars_of(text) }
    }

    /// Number of cells.
    pub fn len(&self) -> (n: usize)
        ensures
            n == self@.len(),
    {
        self.cells.len()
    }

    /// The character of cell `g`.
    pub fn get(&self, g: usize) -> (c: char)
        requires
            g < self@.len(),
        ensures
            c == self@[g as int],
    {
        self.cells[g]
    }

    /// The cells, one character each.
    pub fn chars(&self) -> (cells: Vec<char>)
        ensures
            cells@ == self@,
    {
        let mut cells: Vec<char> = Vec::new();
        let mut i: usize = 0;
        while i < self.cells.len()
            invariant
                i <= self.cells.len(),
                cells@ == self.cells@.subrange(0, i as int),
            decreases self.cells.len() - i,
        {
            cells.push(self.cells[i]);
            i += 1;
            assert(cells@ =~= self.cells@.subrange(0, i as int));
        }
        assert(self.cells@.subrange(0, self.cells.len() as int) =~= self.cells@);
        cells
    }

    /// The text of the row.
    pub fn string(&self) -> (s: String)
        ensures
            s@ == self@,
    {
        string_of(&self.cells)
    }

    /// A copy of the row.
    pub fn duplicate(&self) -> (row: Row)
        ensures
            row@ == self@,
    {
        Row { cells: self.chars() }
    }

    /// The column at which cell `g` starts; for `g == len`, where the row ends.
    pub fn width_to(&self, g: usize) -> (x: usize)
        requires
            self.wf(),
            g <= self@.len(),
        ensures
            x == width_to(self@, g as int),
    {
        let mut x: usize = 0;
        let mut i: usize = 0;
        while i < g
            invariant
                self.wf(),
                i <= g <= self@.len(),
                x == width_to(self@, i as int),
            decreases g - i,
        {
            proof {
                lemma_columns_fit(self@, i + 1);
            }
            x = x + cell_columns(self.cells[i]);
            i += 1;
        }
        x
    }

    /// Width of the row in columns.
    pub fn length(&self) -> (x: usize)
        requires
            self.wf(),
        ensures
            x == total_width(self@),
    {
        self.width_to(self.cells.len())
    }

    /// The cell index that belongs to column `x`: the first cell that starts
    /// at `x` or later, or the number of cells where the row ends before `x`.
    pub fn index_at(&self, x: usize) -> (g: usize)
        requires
            self.wf(),
        ensures
            g == index_at(self@, x as int),
            g <= self@.len(),
    {
        let mut col: usize = 0;
        let mut g: usize = 0;
        while g < self.cells.len() && col < x
            invariant
                self.wf(),
                g <= self@.len(),
                col == width_to(self@, g as int),
                g > 0 ==> width_to(self@, g - 1) < x,
            decreases self@.len() - g,
        {
            proof {
                lemma_columns_fit(self@, g + 1);
            }
            col = col + cell_columns(self.cells[g]);
            g += 1;
        }
        proof {
            lemma_index_at_unique(self@, x as int, g as int);
        }
        g
    }

    /// The display width of each cell, in order.
    pub fn get_jumps(&self) -> (jumps: Vec<usize>)
        ensures
            jumps@.len() == self@.len(),
            forall|i: int| 0 <= i < self@.len() ==> jumps@[i] == cell_width(#[trigger] self@[i]),
    {
        let mut jumps: Vec<usize> = Vec::new();
        let mut i: usize = 0;
        while i < self.cells.len()
            invariant
                i <= self.cells.len(),
                jumps@.len() == i,
                forall|k: int| 0 <= k < i ==> jumps@[k] == cell_width(#[trigger] self@[k]),
            decreases self.cells.len() - i,
        {
            jumps.push(cell_columns(self.cells[i]));
            i += 1;
        }
        jumps
    }

    /// The columns at which the cursor may stand: the start of each cell, and
    /// the end of the row.
    pub fn boundaries(&self) -> (columns: Vec<usize>)
        requires
            self.wf(),
        ensures
            columns@.len() == self@.len() + 1,
            forall|g: int| 0 <= g <= self@.len() ==> #[trigger] columns@[g] == width_to(self@, g),
    {
        let mut columns: Vec<usize> = Vec::new();
        let mut x: usize = 0;
        columns.push(x);
        let mut i: usize = 0;
        while i < self.cells.len()
            invariant
                self.wf(),
                i <= self.cells.len(),
                columns@.len() == i + 1,
                x == width_to(self@, i as int),
                forall|g: int| 0 <= g <= i ==> #[trigger] columns@[g] == width_to(self@, g),
            decreases self.cells.len() - i,
        {
            proof {
                lemma_columns_fit(self@, i + 1);
            }
            x = x + cell_columns(self.cells[i]);
            columns.push(x);
            i += 1;
        }
        columns
    }

    /// Puts `ch` in as cell `g`; the cells from `g` on move up by one.
    pub fn insert(&mut self, ch: char, g: usize)
        requires
            g <= old(self)@.len(),
            old(self)@.len() < MAX_CELLS,
        ensures
            final(self)@ == old(self)@.insert(g as int, ch),
            final(self).wf(),
    {
        self.cells.insert(g, ch);
    }

    /// Takes cell `g` out and returns its character; `None`, and no change,
    /// where the row has no such cell.
    pub fn delete(&mut self, g: usize) -> (removed: Option<char>)
        ensures
            g < old(self)@.len() ==> removed == Some(old(self)@[g as int]) && final(self)@ == old(
                self,
            )@.remove(g as int),
            g >= old(self)@.len() ==> removed is None && final(self)@ == old(self)@,
    {
        if g < self.cells.len() {
            Some(self.cells.remove(g))
        } else {
            None
        }
    }

    /// The cells before `g` and the cells from `g` on, as two rows.
    pub fn split(&self, g: usize) -> (parts: (Row, Row))
        requires
            g <= self@.len(),
        ensures
            parts.0@ == self@.take(g as int),
            parts.1@ == self@.skip(g as int),
    {
        let mut before: Vec<char> = Vec::new();
        let mut after: Vec<char> = Vec::new();
        let mut i: usize = 0;
        while i < self.cells.len()
            invariant
                i <= self.cells.len(),
                g <= self.cells.len(),
                before@ == self.cells@.take(if i < g { i as int } else { g as int }),
                after@ == self.cells@.subrange(g as int, if i < g { g as int } else { i as int }),
            decreases self.cells.len() - i,
        {
            if i < g {
                before.push(self.cells[i]);
                assert(before@ =~= self.cells@.take(i + 1));
            } else {
                after.push(self.cells[i]);
                assert(after@ =~= self.cells@.subrange(g as int, i + 1));
            }
            i += 1;
        }
        assert(self.cells@.subrange(g as int, self.cells.len() as int) =~= self.cells@.skip(
            g as int,
        ));
        (Row { cells: before }, Row { cells: after })
    }

    /// This row followed by `other`.
    pub fn join(&self, other: &Row) -> (row: Row)
        ensures
            row@ == self@ + other@,
    {
        let mut cells = self.chars();
        let mut i: usize = 0;
        while i < other.cells.len()
            invariant
                i <= other.cells.len(),
                cells@ == self@ + other@.subrange(0, i as int),
            decreases other.cells.len() - i,
        {
            cells.push(other.cells[i]);
            i += 1;
            assert(cells@ =~= self@ + other@.subrange(0, i as int));
        }
        assert(other@.subrange(0, other.cells.len() as int) =~= other@);
        Row { cells }
    }

    /// Whether `needle` stands in the row from cell `g` on.
    pub fn matches(&self, needle: &Vec<char>, g: usize) -> (found: bool)
        ensures
            found == matches_at(self@, needle@, g as int),
    {
        let n = needle.len();
        if g > self.cells.len() || n > self.cells.len() - g {
            return false;
        }
        let mut i: usize = 0;
        while i < n
            invariant
                i <= n,
                n == needle@.len(),
                g + n <= self.cells.len(),
                forall|k: int| 0 <= k < i ==> self@[g + k] == needle@[k],
            decreases n - i,
        {
            if self.cells[g + i] != needle[i] {
                assert(self@.subrange(g as int, g + n)[i as int] != needle@[i as int]);
                return false;
            }
            i += 1;
        }
        assert(self@.subrange(g as int, g + n) =~= needle@);
        true
    }

    /// Columns of the row's text that show in a window `columns` wide that
    /// starts at column `offset_x`.
    pub fn visible_columns(&self, offset_x: usize, columns: usize) -> (n: usize)
        requires
            self.wf(),
        ensures
            n == visible_columns(self@, offset_x as int, offset_x + columns),
            n <= columns,
    {
        let total = self.length();
        if total <= offset_x {
            0
        } else if total - offset_x < columns {
            total - offset_x
        } else {
            columns
        }
    }

    /// Draws the row for a terminal `width` columns wide: the gutter with the
    /// row's number, then the cells that show when the text is scrolled to
    /// column `offset_x`.
    pub fn render(
        &self,
        offset_x: usize,
        width: usize,
        row_number: usize,
        gutter_width: usize,
    ) -> (out: String)
        requires
            self.wf(),
            row_number < usize::MAX,
        ensures
            out@ == rendered(
                self@,
                offset_x as nat,
                width as nat,
                row_number as nat,
                gutter_width as nat,
            ),
    {
        let mut out = String::new();
        push_paint(&mut out, Paint::LineNumberFg);
        let digits = count_digits(row_number + 1);
        proof {
            lemma_digit_count((row_number + 1) as nat);
        }
        let pad = if gutter_width > digits {
            gutter_width - digits - 1
        } else {
            0
        };
        push_repeated(&mut out, ' ', pad);
        push_decimal(&mut out, row_number + 1);
        out.push(' ');
        assert(out@ =~= line_number_fg_code() + line_number(
            row_number as nat,
            gutter_width as nat,
        ));
        push_paint(&mut out, Paint::ResetFg);
        let columns = if width >= gutter_width {
            width - gutter_width
        } else {
            0
        };
        let lo = offset_x;
        let hi = if columns <= usize::MAX - offset_x {
            offset_x + columns
        } else {
            usize::MAX
        };
        let ghost head = out@;
        let ghost top: int = offset_x + text_columns(width as nat, gutter_width as nat);
        let mut col: usize = 0;
        let mut i: usize = 0;
        assert(out@ =~= head + visible_text(self@, 0, lo as int, top));
        while i < self.cells.len()
            invariant
                self.wf(),
                i <= self.cells.len(),
                col == width_to(self@, i as int),
                hi <= top,
                hi < top ==> hi == usize::MAX,
                out@ == head + visible_text(self@, i as int, lo as int, top),
            decreases self.cells.len() - i,
        {
            let c = self.cells[i];
            proof {
                lemma_columns_fit(self@, i + 1);
            }
            let end = col + cell_columns(c);
            if lo <= col && end <= hi {
                out.push(if glyph(c) { c } else { PLACEHOLDER });
            } else {
                let a = if col > lo { col } else { lo };
                let b = if end < hi { end } else { hi };
                let n = if b > a { b - a } else { 0 };
                push_repeated(&mut out, ' ', n);
            }
            assert(out@ =~= head + visible_text(self@, i + 1, lo as int, top));
            col = end;
            i += 1;
        }
        out
    }
}

} // verus!
