//! Display widths of characters and the column arithmetic of a row.
//!
//! A row is a sequence of cells, one character each. A cell takes between one
//! and three terminal columns, so every cell is a place the cursor can stand
//! before, and the columns at which cells start grow strictly along the row.
use vstd::prelude::*;
use unicode_width::UnicodeWidthChar;

verus! {

/// The widest cell, in columns.
pub const MAX_CELL_WIDTH: usize = 3;

/// What `unicode_width` reports for a character: its width in columns, or
/// `None` for a control character.
pub uninterp spec fn unicode_width_of(c: char) -> Option<usize>;

/// Columns of a cell whose character was measured as `measured`. A
/// character without a width of its own (a control character, a combining
/// mark) takes one column, and no cell is wider than `MAX_CELL_WIDTH`.
pub open spec fn columns_of(measured: Option<usize>) -> nat {
    match measured {
        Some(w) => if w == 0 {
            1
        } else if w > MAX_CELL_WIDTH {
            MAX_CELL_WIDTH as nat
        } else {
            w as nat
        },
        None => 1,
    }
}

/// Whether a character that was measured as `measured` is drawn as itself:
/// it has a width of its own.
pub open spec fn glyph_of(measured: Option<usize>) -> bool {
    measured matches Some(w) && w > 0
}

/// Columns that a character takes in a row.
pub open spec fn cell_width(c: char) -> nat {
    columns_of(unicode_width_of(c))
}

/// Whether a character is drawn as itself rather than as a placeholder.
pub open spec fn has_glyph(c: char) -> bool {
    glyph_of(unicode_width_of(c))
}

/// Column at which cell `n` of `s` starts: the widths of the cells before it.
pub open spec fn width_to(s: Seq<char>, n: int) -> nat
    decreases n,
{
    if n <= 0 {
        0
    } else {
        width_to(s, n - 1) + cell_width(s[n - 1])
    }
}

/// Columns taken by the whole of `s`.
pub open spec fn total_width(s: Seq<char>) -> nat {
    width_to(s, s.len() as int)
}

/// Least cell index at or after `g` whose start column is `x` or more; the
/// number of cells where there is none.
pub open spec fn index_from(s: Seq<char>, x: int, g: int) -> int
    decreases s.len() - g,
{
    if g >= s.len() || width_to(s, g) >= x {
        g
    } else {
        index_from(s, x, g + 1)
    }
}

/// The cell index that belongs to column `x`: the least index whose start
/// column reaches or passes `x`.
pub open spec fn index_at(s: Seq<char>, x: int) -> int {
    index_from(s, x, 0)
}

/// Whether a cell of `s` starts at column `x`, or `s` ends there.
pub open spec fn on_boundary(s: Seq<char>, x: int) -> bool {
    width_to(s, index_at(s, x)) == x
}

/// Calls `UnicodeWidthChar::width` on `c`. The contract only names the result:
/// the same character always has the same width.
#[verifier::external_body]
fn measure(c: char) -> (w: Option<usize>)
    ensures
        w == unicode_width_of(c),
{
    UnicodeWidthChar::width(c)
}

/// Columns of a cell whose character was measured as `measured`.
pub fn columns_from(measured: Option<usize>) -> (w: usize)
    ensures
        w == columns_of(measured),
        1 <= w <= MAX_CELL_WIDTH,
{
    match measured {
        Some(w) => if w == 0 {
            1
        } else if w > MAX_CELL_WIDTH {
            MAX_CELL_WIDTH
        } else {
            w
        },
        None => 1,
    }
}

/// Whether a character that was measured as `measured` is drawn as itself.
pub fn glyph_from(measured: Option<usize>) -> (b: bool)
    ensures
        b == glyph_of(measured),
{
    match measured {
        Some(w) => w > 0,
        None => false,
    }
}

/// Columns that `c` takes in a row.
pub fn cell_columns(c: char) -> (w: usize)
    ensures
        w == cell_width(c),
        1 <= w <= MAX_CELL_WIDTH,
{
    columns_from(measure(c))
}

/// Whether `c` is drawn as itself rather than as a placeholder.
pub fn glyph(c: char) -> (b: bool)
    ensures
        b == has_glyph(c),
{
    glyph_from(measure(c))
}

/// Every cell takes at least one and at most three columns.
pub proof fn lemma_width_bounds(s: Seq<char>, n: int)
    requires
        0 <= n,
    ensures
        n <= width_to(s, n) <= MAX_CELL_WIDTH * n,
    decreases n,
{
    if n > 0 {
        lemma_width_bounds(s, n - 1);
    }
}

/// Start columns grow by at least one per cell.
pub proof fn lemma_width_monotonic(s: Seq<char>, i: int, j: int)
    requires
        0 <= i <= j,
    ensures
        width_to(s, i) + (j - i) <= width_to(s, j),
        width_to(s, j) <= width_to(s, i) + MAX_CELL_WIDTH * (j - i),
    decreases j - i,
{
    if i < j {
        lemma_width_monotonic(s, i, j - 1);
    }
}

/// The start column of cell `n` depends on the cells before it only.
pub proof fn lemma_width_prefix(s: Seq<char>, t: Seq<char>, n: int)
    requires
        forall|k: int| 0 <= k < n ==> s[k] == t[k],
    ensures
        width_to(s, n) == width_to(t, n),
    decreases n,
{
    if n > 0 {
        lemma_width_prefix(s, t, n - 1);
    }
}

/// Where `t` from `k` on holds the cells of `s` from `k + d` on, distances
/// between start columns agree.
pub proof fn lemma_width_shift(s: Seq<char>, t: Seq<char>, k: int, d: int, n: int)
    requires
        0 <= k <= n,
        0 <= k + d,
        forall|j: int| k <= j < n ==> t[j] == s[j + d],
    ensures
        width_to(t, n) - width_to(t, k) == width_to(s, n + d) - width_to(s, k + d),
    decreases n - k,
{
    if k < n {
        lemma_width_shift(s, t, k, d, n - 1);
    }
}

/// `index_from` stays within the row and finds the least index that reaches
/// the column.
pub proof fn lemma_index_from(s: Seq<char>, x: int, g: int)
    requires
        0 <= g <= s.len(),
    ensures
        g <= index_from(s, x, g) <= s.len(),
        index_from(s, x, g) < s.len() ==> width_to(s, index_from(s, x, g)) >= x,
        forall|j: int| g <= j < index_from(s, x, g) ==> width_to(s, j) < x,
    decreases s.len() - g,
{
    if !(g >= s.len() || width_to(s, g) >= x) {
        lemma_index_from(s, x, g + 1);
    }
}

/// What `index_at` returns: an index of the row, the first whose start column
/// is not below `x`.
pub proof fn lemma_index_at(s: Seq<char>, x: int)
    ensures
        0 <= index_at(s, x) <= s.len(),
        index_at(s, x) < s.len() ==> width_to(s, index_at(s, x)) >= x,
        forall|j: int| 0 <= j < index_at(s, x) ==> width_to(s, j) < x,
{
    lemma_index_from(s, x, 0);
}

/// An index with the two defining properties is the one `index_at` returns.
pub proof fn lemma_index_at_unique(s: Seq<char>, x: int, g: int)
    requires
        0 <= g <= s.len(),
        g < s.len() ==> width_to(s, g) >= x,
        g > 0 ==> width_to(s, g - 1) < x,
    ensures
        index_at(s, x) == g,
{
    lemma_index_at(s, x);
    let h = index_at(s, x);
    if h < g {
        lemma_width_monotonic(s, h, g - 1);
    } else if g < h {
        assert(width_to(s, g) < x);
    }
}

/// The start column of a cell is a boundary, and `index_at` leads back to the
/// cell.
pub proof fn lemma_index_of_start(s: Seq<char>, g: int)
    requires
        0 <= g <= s.len(),
    ensures
        index_at(s, width_to(s, g) as int) == g,
        on_boundary(s, width_to(s, g) as int),
{
    if g > 0 {
        lemma_width_monotonic(s, g - 1, g);
    }
    lemma_index_at_unique(s, width_to(s, g) as int, g);
}

/// Start columns in a row with one cell more: unchanged up to the new cell,
/// and later by its width beyond it.
pub proof fn lemma_width_insert(s: Seq<char>, g: int, c: char, n: int)
    requires
        0 <= g <= s.len(),
        0 <= n <= s.len() + 1,
    ensures
        n <= g ==> width_to(s.insert(g, c), n) == width_to(s, n),
        n > g ==> width_to(s.insert(g, c), n) == width_to(s, n - 1) + cell_width(c),
{
    let t = s.insert(g, c);
    if n <= g {
        lemma_width_prefix(s, t, n);
    } else {
        lemma_width_prefix(s, t, g);
        assert(t[g] == c);
        assert(width_to(t, g + 1) == width_to(t, g) + cell_width(t[g]));
        lemma_width_shift(s, t, g + 1, -1, n);
    }
}

/// Start columns in a row with one cell less.
pub proof fn lemma_width_remove(s: Seq<char>, g: int, n: int)
    requires
        0 <= g < s.len(),
        0 <= n <= s.len() - 1,
    ensures
        n <= g ==> width_to(s.remove(g), n) == width_to(s, n),
        n > g ==> width_to(s.remove(g), n) + cell_width(s[g]) == width_to(s, n + 1),
{
    let t = s.remove(g);
    assert(t.insert(g, s[g]) =~= s);
    lemma_width_insert(t, g, s[g], n);
    lemma_width_insert(t, g, s[g], n + 1);
}

/// Start columns in two rows put together.
pub proof fn lemma_width_concat(a: Seq<char>, b: Seq<char>, n: int)
    requires
        0 <= n <= a.len() + b.len(),
    ensures
        n <= a.len() ==> width_to(a + b, n) == width_to(a, n),
        n >= a.len() ==> width_to(a + b, n) == total_width(a) + width_to(b, n - a.len()),
{
    let t = a + b;
    if n <= a.len() {
        lemma_width_prefix(a, t, n);
    }
    if n >= a.len() {
        lemma_width_prefix(a, t, a.len() as int);
        lemma_width_shift(b, t, a.len() as int, -(a.len() as int), n);
    }
}

/// Start columns in the first cells of a row taken alone.
pub proof fn lemma_width_take(s: Seq<char>, g: int, n: int)
    requires
        0 <= n <= g <= s.len(),
    ensures
        width_to(s.take(g), n) == width_to(s, n),
{
    lemma_width_prefix(s, s.take(g), n);
}

/// Columns of a run of equal characters.
pub proof fn lemma_width_run(s: Seq<char>, g: int, c: char, k: int)
    requires
        0 <= g,
        0 <= k,
        forall|j: int| g <= j < g + k ==> s[j] == c,
    ensures
        width_to(s, g + k) == width_to(s, g) + k * cell_width(c),
    decreases k,
{
    if k > 0 {
        lemma_width_run(s, g, c, k - 1);
        assert(s[g + k - 1] == c);
        assert(width_to(s, g + k) == width_to(s, g + k - 1) + cell_width(c));
        assert(k * cell_width(c) == (k - 1) * cell_width(c) + cell_width(c)) by (nonlinear_arith);
    } else {
        assert(0 * cell_width(c) == 0);
    }
}

/// A boundary column is the start column of the cell that `index_at` gives.
pub proof fn lemma_boundary(s: Seq<char>, x: int)
    requires
        on_boundary(s, x),
    ensures
        0 <= index_at(s, x) <= s.len(),
        width_to(s, index_at(s, x)) == x,
        0 <= x <= total_width(s),
{
    lemma_index_at(s, x);
    lemma_width_monotonic(s, index_at(s, x), s.len() as int);
}

} // verus!
