//! The document: its rows, the undo and redo stacks, and what is known of
//! the file behind it.
use vstd::prelude::*;
use vstd::string::StringExecFns;
use crate::editor::Position;
use crate::event::applies;
use crate::event::backward;
use crate::event::Event;
use crate::event::forward;
use crate::event::future_ok;
use crate::event::history_ok;
use crate::event::landing;
use crate::event::lemma_landing_valid;
use crate::event::plain;
use crate::event::reverts;
use crate::event::rows_ok;
use crate::event::valid_position;
use crate::event::with_run;
use crate::event::without_run;
use crate::row::lemma_columns_fit;
use crate::row::matches_at;
use crate::row::MAX_CELLS;
use crate::row::Row;
use crate::style::TAB_WIDTH;
use crate::text::chars_of;
use crate::text::count_digits;
use crate::text::digit_count;
use crate::text::push_chars;
use crate::text::spells;
use crate::width::cell_columns;
use crate::width::index_at;
use crate::width::lemma_boundary;
use crate::width::lemma_index_of_start;
use crate::width::lemma_width_monotonic;
use crate::width::width_to;

verus! {

/// The document of an editor.
pub struct Document {
    pub(crate) rows: Vec<Row>,
    pub(crate) undo_stack: Vec<Event>,
    pub(crate) redo_stack: Vec<Event>,
    pub(crate) name: String,
    pub(crate) path: String,
    pub(crate) line_offset: usize,
}

/// The cells of each row.
pub open spec fn rows_view(rows: Seq<Row>) -> Seq<Seq<char>> {
    Seq::new(rows.len(), |i: int| rows[i]@)
}

/// Width of the gutter for a document of `rows` rows: a blank, the digits of
/// the largest line number, and a blank.
pub open spec fn gutter_for(rows: nat) -> nat {
    digit_count(rows) + 2
}

/// The text read so far: the lines that a line feed has closed, and the line
/// that is still open, after the first `n` characters of `s`.
pub open spec fn lines_fold(s: Seq<char>, n: int) -> (Seq<Seq<char>>, Seq<char>)
    decreases n,
{
    if n <= 0 {
        (Seq::empty(), Seq::empty())
    } else {
        let (done, open) = lines_fold(s, n - 1);
        if s[n - 1] == '\n' {
            (done.push(open), Seq::empty())
        } else {
            (done, open.push(s[n - 1]))
        }
    }
}

/// The lines of a text. A line feed ends a line; what follows the last line
/// feed is a line if it is not empty; a text without lines has one empty
/// line.
pub open spec fn lines_of(s: Seq<char>) -> Seq<Seq<char>> {
    let (done, open) = lines_fold(s, s.len() as int);
    let all = if open.len() > 0 {
        done.push(open)
    } else {
        done
    };
    if all.len() == 0 {
        seq![Seq::empty()]
    } else {
        all
    }
}

/// The first `n` rows as text, each closed by a line feed.
pub open spec fn joined(rows: Seq<Seq<char>>, n: int) -> Seq<char>
    decreases n,
{
    if n <= 0 {
        Seq::empty()
    } else {
        joined(rows, n - 1) + rows[n - 1].push('\n')
    }
}

/// Index of the last full stop among the first `n` characters of `s`, or
/// -1 where there is none.
pub open spec fn last_dot(s: Seq<char>, n: int) -> int
    decreases n,
{
    if n <= 0 {
        -1
    } else if s[n - 1] == '.' {
        n - 1
    } else {
        last_dot(s, n - 1)
    }
}

/// What follows the last full stop of a name; the whole name where it has
/// none.
pub open spec fn extension(name: Seq<char>) -> Seq<char> {
    name.skip(last_dot(name, name.len() as int) + 1)
}

/// The kind of file that a name stands for, by its extension.
pub open spec fn file_type(name: Seq<char>) -> Seq<char> {
    let ext = extension(name);
    if ext == "rs"@ {
        "Rust"@
    } else if ext == "py"@ {
        "Python"@
    } else if ext == "c"@ {
        "C"@
    } else if ext == "h"@ {
        "C Header"@
    } else if ext == "cpp"@ {
        "C++"@
    } else if ext == "js"@ {
        "JavaScript"@
    } else if ext == "html"@ {
        "HTML"@
    } else if ext == "css"@ {
        "CSS"@
    } else if ext == "md"@ {
        "Markdown"@
    } else if ext == "toml"@ {
        "TOML"@
    } else if ext == "json"@ {
        "JSON"@
    } else if ext == "sh"@ {
        "Shell"@
    } else if ext == "txt"@ {
        "Plain Text"@
    } else {
        "Unknown"@
    }
}

/// Whether `needle` stands in the document from position `p` on.
pub open spec fn match_point(rows: Seq<Seq<char>>, needle: Seq<char>, p: Position) -> bool {
    &&& valid_position(rows, p)
    &&& matches_at(rows[p.y as int], needle, index_at(rows[p.y as int], p.x as int))
}

/// Whether `a` comes before `b` in the document.
pub open spec fn precedes(a: Position, b: Position) -> bool {
    a.y < b.y || (a.y == b.y && a.x < b.x)
}

/// No line is longer than the text it was cut from, and no line holds a
/// line feed.
pub proof fn lemma_lines_fold_bounds(s: Seq<char>, n: int)
    requires
        0 <= n <= s.len(),
    ensures
        lines_fold(s, n).1.len() <= n,
        lines_fold(s, n).0.len() <= n,
        plain(lines_fold(s, n).1),
        forall|i: int|
            0 <= i < lines_fold(s, n).0.len() ==> (#[trigger] lines_fold(s, n).0[i]).len() <= n
                && plain(lines_fold(s, n).0[i]),
    decreases n,
{
    if n > 0 {
        lemma_lines_fold_bounds(s, n - 1);
    }
}

impl Document {
    /// The cells of each row.
    pub open(crate) spec fn text(&self) -> Seq<Seq<char>> {
        rows_view(self.rows@)
    }

    /// The undo stack, the latest edit last.
    pub open(crate) spec fn undo_events(&self) -> Seq<Event> {
        self.undo_stack@
    }

    /// The redo stack, the next edit to make again last.
    pub open(crate) spec fn redo_events(&self) -> Seq<Event> {
        self.redo_stack@
    }

    /// The name shown in the status line.
    pub open(crate) spec fn name_view(&self) -> Seq<char> {
        self.name@
    }

    /// The path the document is saved to.
    pub open(crate) spec fn path_view(&self) -> Seq<char> {
        self.path@
    }

    /// The gutter width in use.
    pub open(crate) spec fn gutter(&self) -> nat {
        self.line_offset as nat
    }

    /// A document is well formed when it has a row, every row is within the
    /// size limit and holds no line feed, every event of the undo stack can
    /// be reverted in turn and every event of the redo stack can be applied
    /// in turn.
    pub open spec fn wf(&self) -> bool {
        &&& rows_ok(self.text())
        &&& history_ok(self.text(), self.undo_events())
        &&& future_ok(self.text(), self.redo_events())
    }

    /// A new document: one empty row, no history, no file.
    pub fn new() -> (doc: Document)
        ensures
            doc.wf(),
            doc.text() == seq![Seq::<char>::empty()],
            doc.undo_events().len() == 0,
            doc.redo_events().len() == 0,
            doc.name_view() == "[No name]"@,
            doc.path_view() == Seq::<char>::empty(),
            doc.gutter() == gutter_for(1),
    {
        let mut rows: Vec<Row> = Vec::new();
        rows.push(Row::new());
        let doc = Document {
            rows,
            undo_stack: Vec::new(),
            redo_stack: Vec::new(),
            name: String::from_str("[No name]"),
            path: String::new(),
            line_offset: 3,
        };
        assert(doc.text() =~= seq![Seq::<char>::empty()]);
        assert(digit_count(1) == 1);
        doc
    }

    /// The document of a file: its rows are the lines of `content`, its name
    /// and path are `path`, and it has no history.
    pub fn from(path: &str, content: &str) -> (doc: Document)
        requires
            content@.len() <= MAX_CELLS,
        ensures
            doc.wf(),
            doc.text() == lines_of(content@),
            doc.undo_events().len() == 0,
            doc.redo_events().len() == 0,
            doc.name_view() == path@,
            doc.path_view() == path@,
            doc.gutter() == gutter_for(doc.text().len()),
    {
        let cells = chars_of(content);
        let mut rows: Vec<Row> = Vec::new();
        let mut open: Vec<char> = Vec::new();
        let mut i: usize = 0;
        while i < cells.len()
            invariant
                i <= cells.len(),
                cells@ == content@,
                cells@.len() <= MAX_CELLS,
                rows_view(rows@) == lines_fold(cells@, i as int).0,
                open@ == lines_fold(cells@, i as int).1,
            decreases cells.len() - i,
        {
            proof {
                lemma_lines_fold_bounds(cells@, i as int);
            }
            if cells[i] == '\n' {
                let ghost before = rows_view(rows@);
                rows.push(Row::from_cells(open));
                open = Vec::new();
                assert(rows_view(rows@) =~= before.push(lines_fold(cells@, i as int).1));
            } else {
                open.push(cells[i]);
            }
            i += 1;
        }
        proof {
            lemma_lines_fold_bounds(cells@, cells@.len() as int);
        }
        if open.len() > 0 {
            let ghost before = rows_view(rows@);
            let ghost last = open@;
            rows.push(Row::from_cells(open));
            assert(rows_view(rows@) =~= before.push(last));
        }
        if rows.len() == 0 {
            rows.push(Row::new());
            assert(rows_view(rows@) =~= seq![Seq::<char>::empty()]);
        }
        let line_offset = count_digits(rows.len()) + 2;
        let doc = Document {
            rows,
            undo_stack: Vec::new(),
            redo_stack: Vec::new(),
            name: String::from_str(path),
            path: String::from_str(path),
            line_offset,
        };
        doc
    }

    /// Number of rows.
    pub fn len(&self) -> (n: usize)
        ensures
            n == self.text().len(),
    {
        self.rows.len()
    }

    /// Row `y`.
    pub fn row(&self, y: usize) -> (row: &Row)
        requires
            y < self.text().len(),
        ensures
            row@ == self.text()[y as int],
    {
        &self.rows[y]
    }

    /// The name shown in the status line.
    pub fn name(&self) -> (s: &String)
        ensures
            s@ == self.name_view(),
    {
        &self.name
    }

    /// The path the document is saved to.
    pub fn path(&self) -> (s: &String)
        ensures
            s@ == self.path_view(),
    {
        &self.path
    }

    /// Number of events that can be undone.
    pub fn undo_len(&self) -> (n: usize)
        ensures
            n == self.undo_events().len(),
    {
        self.undo_stack.len()
    }

    /// Number of events that can be made again.
    pub fn redo_len(&self) -> (n: usize)
        ensures
            n == self.redo_events().len(),
    {
        self.redo_stack.len()
    }

    /// The text to write to the file: every row, each closed by a line feed.
    pub fn contents(&self) -> (s: String)
        ensures
            s@ == joined(self.text(), self.text().len() as int),
    {
        let mut s = String::new();
        let mut i: usize = 0;
        while i < self.rows.len()
            invariant
                i <= self.rows.len(),
                s@ == joined(self.text(), i as int),
            decreases self.rows.len() - i,
        {
            push_chars(&mut s, &self.rows[i].cells);
            s.push('\n');
            assert(s@ =~= joined(self.text(), i as int) + self.text()[i as int].push('\n'));
            i += 1;
        }
        s
    }

    /// Sets the gutter width to fit the number of the last row, and returns
    /// it.
    pub fn recalculate_offset(&mut self) -> (gutter: usize)
        ensures
            gutter == gutter_for(old(self).text().len()),
            final(self).gutter() == gutter,
            final(self).text() == old(self).text(),
            final(self).undo_events() == old(self).undo_events(),
            final(self).redo_events() == old(self).redo_events(),
            final(self).name_view() == old(self).name_view(),
            final(self).path_view() == old(self).path_view(),
    {
        self.line_offset = count_digits(self.rows.len()) + 2;
        self.line_offset
    }

    /// Whether everything but the rows is the same in both documents.
    pub open spec fn same_but_rows(&self, other: &Document) -> bool {
        &&& self.undo_events() == other.undo_events()
        &&& self.redo_events() == other.redo_events()
        &&& self.name_view() == other.name_view()
        &&& self.path_view() == other.path_view()
        &&& self.gutter() == other.gutter()
    }

    /// Makes the edit that `ev` records on the rows. The stacks are left
    /// alone.
    pub fn apply(&mut self, ev: Event)
        requires
            rows_ok(old(self).text()),
            applies(old(self).text(), ev),
        ensures
            final(self).text() == forward(old(self).text(), ev),
            final(self).same_but_rows(old(self)),
    {
        let ghost before = self.text();
        let p = ev.origin();
        let y = p.y;
        proof {
            lemma_boundary(before[y as int], p.x as int);
        }
        match ev {
            Event::InsertTab(_) => {
                let g = self.rows[y].index_at(p.x);
                let ghost cells = before[y as int];
                let mut k: usize = 0;
                assert(with_run(cells, g as int, ' ', 0) =~= cells);
                while k < TAB_WIDTH
                    invariant
                        k <= TAB_WIDTH,
                        y < self.rows.len(),
                        y < before.len(),
                        cells == before[y as int],
                        g <= cells.len(),
                        cells.len() + TAB_WIDTH <= MAX_CELLS,
                        self.text() == before.update(
                            y as int,
                            with_run(cells, g as int, ' ', k as nat),
                        ),
                        self.same_but_rows(old(self)),
                    decreases TAB_WIDTH - k,
                {
                    let ghost was = self.text();
                    assert(self.rows@[y as int]@ == was[y as int]);
                    self.rows[y].insert(' ', g);
                    k += 1;
                    assert(self.text() =~= was.update(
                        y as int,
                        was[y as int].insert(g as int, ' '),
                    ));
                    assert(with_run(cells, g as int, ' ', (k - 1) as nat).insert(g as int, ' ')
                        =~= with_run(cells, g as int, ' ', k as nat));
                    assert(self.text() =~= before.update(
                        y as int,
                        with_run(cells, g as int, ' ', k as nat),
                    ));
                }
            },
            Event::InsertChar(_, c) => {
                let g = self.rows[y].index_at(p.x);
                self.rows[y].insert(c, g);
            },
            Event::DeleteChar(_, _) => {
                let g = self.rows[y].index_at(p.x);
                self.rows[y].delete(g - 1);
            },
            Event::SplitAtStart(_) => {
                self.rows.insert(y, Row::new());
            },
            Event::SplitAtEnd(_) => {
                self.rows.insert(y + 1, Row::new());
            },
            Event::SplitAtMiddle(_, b) => {
                let (upper, lower) = self.rows[y].split(b);
                self.rows[y] = upper;
                self.rows.insert(y + 1, lower);
            },
            Event::MergeRows(_, _) => {
                let merged = self.rows[y - 1].join(&self.rows[y]);
                self.rows[y - 1] = merged;
                self.rows.remove(y);
            },
        }
        assert(self.text() =~= forward(before, ev));
    }

    /// Reverts the edit that `ev` records on the rows. The stacks are left
    /// alone. A tab stop goes cell by cell.
    pub fn revert(&mut self, ev: Event)
        requires
            rows_ok(old(self).text()),
            reverts(old(self).text(), ev),
        ensures
            final(self).text() == backward(old(self).text(), ev),
            final(self).same_but_rows(old(self)),
    {
        let ghost before = self.text();
        let p = ev.origin();
        let y = p.y;
        match ev {
            Event::InsertTab(_) => {
                proof {
                    lemma_boundary(before[y as int], p.x as int);
                }
                let g = self.rows[y].index_at(p.x);
                let ghost cells = before[y as int];
                let mut k: usize = 0;
                assert(without_run(cells, g as int, 0) =~= cells);
                while k < TAB_WIDTH
                    invariant
                        k <= TAB_WIDTH,
                        y < self.rows.len(),
                        y < before.len(),
                        cells == before[y as int],
                        g + TAB_WIDTH <= cells.len(),
                        self.text() == before.update(
                            y as int,
                            without_run(cells, g as int, k as nat),
                        ),
                        self.same_but_rows(old(self)),
                    decreases TAB_WIDTH - k,
                {
                    let ghost was = self.text();
                    assert(self.rows@[y as int]@ == was[y as int]);
                    self.rows[y].delete(g);
                    k += 1;
                    assert(self.text() =~= was.update(y as int, was[y as int].remove(g as int)));
                    assert(without_run(cells, g as int, (k - 1) as nat).remove(g as int)
                        =~= without_run(cells, g as int, k as nat));
                    assert(self.text() =~= before.update(
                        y as int,
                        without_run(cells, g as int, k as nat),
                    ));
                }
            },
            Event::InsertChar(_, _) => {
                proof {
                    lemma_boundary(before[y as int], p.x as int);
                }
                let g = self.rows[y].index_at(p.x);
                self.rows[y].delete(g);
            },
            Event::DeleteChar(_, c) => {
                let w = cell_columns(c);
                proof {
                    lemma_boundary(before[y as int], p.x - w);
                }
                let g = self.rows[y].index_at(p.x - w);
                self.rows[y].insert(c, g);
            },
            Event::SplitAtStart(_) => {
                self.rows.remove(y);
            },
            Event::SplitAtEnd(_) => {
                self.rows.remove(y + 1);
            },
            Event::SplitAtMiddle(_, _) => {
                let merged = self.rows[y].join(&self.rows[y + 1]);
                self.rows[y] = merged;
                self.rows.remove(y + 1);
            },
            Event::MergeRows(_, b) => {
                let (upper, lower) = self.rows[y - 1].split(b);
                self.rows[y - 1] = upper;
                self.rows.insert(y, lower);
            },
        }
        assert(self.text() =~= backward(before, ev));
    }

    /// Where the cursor stands after the edit that `ev` records is made on
    /// the rows as they are.
    pub fn landing(&self, ev: Event) -> (p: Position)
        requires
            rows_ok(self.text()),
            applies(self.text(), ev),
        ensures
            (p.x as int, p.y as int) == landing(self.text(), ev),
    {
        proof {
            lemma_landing_valid(self.text(), ev);
        }
        let p = ev.origin();
        match ev {
            Event::InsertTab(_) => Position { x: p.x + TAB_WIDTH * cell_columns(' '), y: p.y },
            Event::InsertChar(_, c) => Position { x: p.x + cell_columns(c), y: p.y },
            Event::DeleteChar(_, c) => Position { x: p.x - cell_columns(c), y: p.y },
            Event::SplitAtStart(_) => Position { x: 0, y: p.y + 1 },
            Event::SplitAtEnd(_) => Position { x: 0, y: p.y + 1 },
            Event::SplitAtMiddle(_, _) => Position { x: 0, y: p.y + 1 },
            Event::MergeRows(_, _) => Position { x: self.rows[p.y - 1].length(), y: p.y - 1 },
        }
    }

    /// Every place where `needle` stands in the document, in document order.
    pub fn scan(&self, needle: &Vec<char>) -> (points: Vec<Position>)
        requires
            self.wf(),
        ensures
            forall|i: int|
                0 <= i < points@.len() ==> match_point(self.text(), needle@, #[trigger] points@[i]),
            forall|p: Position| match_point(self.text(), needle@, p) ==> points@.contains(p),
            forall|i: int, j: int|
                0 <= i < j < points@.len() ==> precedes(
                    #[trigger] points@[i],
                    #[trigger] points@[j],
                ),
    {
        let mut points: Vec<Position> = Vec::new();
        let mut y: usize = 0;
        while y < self.rows.len()
            invariant
                y <= self.rows.len(),
                self.wf(),
                forall|i: int|
                    0 <= i < points@.len() ==> match_point(
                        self.text(),
                        needle@,
                        #[trigger] points@[i],
                    ) && points@[i].y < y,
                forall|p: Position|
                    match_point(self.text(), needle@, p) && p.y < y ==> points@.contains(p),
                forall|i: int, j: int|
                    0 <= i < j < points@.len() ==> precedes(
                        #[trigger] points@[i],
                        #[trigger] points@[j],
                    ),
            decreases self.rows.len() - y,
        {
            let row = &self.rows[y];
            let ghost cells = row@;
            assert(cells == self.text()[y as int]);
            let n = row.len();
            let mut g: usize = 0;
            let mut col: usize = 0;
            while g <= n
                invariant
                    y < self.rows.len(),
                    self.wf(),
                    cells == self.text()[y as int],
                    cells == row@,
                    n == cells.len(),
                    n <= MAX_CELLS,
                    g <= n + 1,
                    col == width_to(cells, if g <= n { g as int } else { n as int }),
                    forall|i: int|
                        0 <= i < points@.len() ==> match_point(
                            self.text(),
                            needle@,
                            #[trigger] points@[i],
                        ) && (points@[i].y < y || (points@[i].y == y && index_at(
                            cells,
                            points@[i].x as int,
                        ) < g)),
                    forall|p: Position|
                        match_point(self.text(), needle@, p) && (p.y < y || (p.y == y && index_at(
                            cells,
                            p.x as int,
                        ) < g)) ==> points@.contains(p),
                    forall|i: int, j: int|
                        0 <= i < j < points@.len() ==> precedes(
                            #[trigger] points@[i],
                            #[trigger] points@[j],
                        ),
                decreases n + 1 - g,
            {
                let ghost before = points@;
                proof {
                    lemma_index_of_start(cells, g as int);
                }
                let found = row.matches(needle, g);
                if found {
                    let q = Position { x: col, y };
                    proof {
                        assert forall|i: int| 0 <= i < before.len() implies precedes(
                            #[trigger] before[i],
                            q,
                        ) by {
                            let a = before[i];
                            if a.y == y {
                                lemma_boundary(cells, a.x as int);
                                lemma_width_monotonic(cells, index_at(cells, a.x as int), g - 1);
                                lemma_width_monotonic(cells, g - 1, g as int);
                            }
                        }
                    }
                    points.push(q);
                    assert(points@[before.len() as int] == q);
                    assert forall|p: Position| before.contains(p) implies points@.contains(p) by {
                        let i = choose|i: int| 0 <= i < before.len() && before[i] == p;
                        assert(points@[i] == p);
                    }
                }
                proof {
                    assert forall|p: Position|
                        match_point(self.text(), needle@, p) && (p.y < y || (p.y == y && index_at(
                            cells,
                            p.x as int,
                        ) < g + 1)) implies points@.contains(p) by {
                        if p.y == y && index_at(cells, p.x as int) == g {
                            lemma_boundary(cells, p.x as int);
                            assert(p == Position { x: col, y });
                            assert(points@[before.len() as int] == p);
                        } else {
                            assert(before.contains(p));
                        }
                    }
                }
                if g < n {
                    proof {
                        lemma_columns_fit(cells, g + 1);
                    }
                    col = col + cell_columns(row.get(g));
                }
                g += 1;
            }
            proof {
                assert forall|p: Position|
                    match_point(self.text(), needle@, p) && p.y < y + 1 implies points@.contains(
                    p,
                ) by {
                    if p.y == y {
                        lemma_boundary(cells, p.x as int);
                    }
                }
            }
            y += 1;
        }
        points
    }

    /// The kind of file, by the extension of the document's name.
    pub fn identify(&self) -> (label: &'static str)
        ensures
            label@ == file_type(self.name_view()),
    {
        let name = chars_of(self.name.as_str());
        let mut n: usize = name.len();
        while n > 0 && name[n - 1] != '.'
            invariant
                n <= name.len(),
                last_dot(name@, name@.len() as int) == last_dot(name@, n as int),
            decreases n,
        {
            n -= 1;
        }
        let mut ext: Vec<char> = Vec::new();
        let mut i: usize = n;
        while i < name.len()
            invariant
                n <= i <= name.len(),
                ext@ == name@.subrange(n as int, i as int),
            decreases name.len() - i,
        {
            ext.push(name[i]);
            i += 1;
            assert(ext@ =~= name@.subrange(n as int, i as int));
        }
        assert(ext@ =~= extension(name@));
        if spells(&ext, "rs") {
            "Rust"
        } else if spells(&ext, "py") {
            "Python"
        } else if spells(&ext, "c") {
            "C"
        } else if spells(&ext, "h") {
            "C Header"
        } else if spells(&ext, "cpp") {
            "C++"
        } else if spells(&ext, "js") {
            "JavaScript"
        } else if spells(&ext, "html") {
            "HTML"
        } else if spells(&ext, "css") {
            "CSS"
        } else if spells(&ext, "md") {
            "Markdown"
        } else if spells(&ext, "toml") {
            "TOML"
        } else if spells(&ext, "json") {
            "JSON"
        } else if spells(&ext, "sh") {
            "Shell"
        } else if spells(&ext, "txt") {
            "Plain Text"
        } else {
            "Unknown"
        }
    }
}

} // verus!
