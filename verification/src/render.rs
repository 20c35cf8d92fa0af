//! The frame: what the terminal shows of a state, line by line.
use vstd::prelude::*;
use vstd::string::StringExecFns;
use crate::cursor::lemma_refit;
use crate::document::file_type;
use crate::document::gutter_for;
use crate::edit::lemma_here;
use crate::editor::Editor;
use crate::editor::Position;
use crate::editor::Severity;
use crate::editor::State;
use crate::row::line_number;
use crate::row::rendered;
use crate::row::visible_columns;
use crate::style::Paint;
use crate::style::push_paint;
use crate::style::VERSION;
use crate::text::count_digits;
use crate::text::decimal_digits;
use crate::text::lemma_digit_count;
use crate::text::push_decimal;
use crate::text::push_repeated;
use crate::text::repeated;
use crate::width::cell_columns;
use crate::width::lemma_width_monotonic;
use crate::width::total_width;
use crate::width::width_to;

verus! {

/// One frame: the lines of the screen from the top, and where the hardware
/// cursor goes, counted from the top left cell.
pub struct Frame {
    pub lines: Vec<String>,
    pub cursor: Position,
}

/// The characters of each line.
pub open spec fn lines_view(lines: Seq<String>) -> Seq<Seq<char>> {
    Seq::new(lines.len(), |i: int| lines[i]@)
}

/// The smaller of two numbers.
pub open spec fn least(a: int, b: int) -> int {
    if a < b {
        a
    } else {
        b
    }
}

/// `a - b`, or zero where `b` is the larger.
pub open spec fn minus(a: int, b: int) -> nat {
    if a > b {
        (a - b) as nat
    } else {
        0
    }
}

/// Blanks that fill a line of `width` columns of which `used` are taken.
pub open spec fn filling(width: nat, used: nat) -> Seq<char> {
    repeated(' ', minus(width as int, used as int))
}

/// A line on the background of the text area: the background, the text,
/// blanks up to the width of the terminal, and the background reset.
pub open spec fn on_background(text: Seq<char>, columns: nat, width: nat) -> Seq<char> {
    Paint::Bg.code() + text + filling(width, columns) + Paint::ResetBg.code()
}

/// A line of the welcome screen: the filler mark, then the text in its
/// colour, centred.
pub open spec fn welcome_line(text: Seq<char>, colour: Paint, width: nat) -> Seq<char> {
    let pad = minus(width as int / 2, text.len() as int / 2);
    let pad_right = minus(minus(width as int, 1) as int, (text.len() + pad) as int);
    Paint::Bg.code() + Paint::LineNumberFg.code() + "~"@ + Paint::ResetFg.code() + repeated(
        ' ',
        pad,
    ) + colour.code() + text + Paint::ResetFg.code() + repeated(' ', pad_right)
        + Paint::ResetBg.code()
}

/// The line of a screen row that shows no row of the document.
pub open spec fn filler_line(width: nat) -> Seq<char> {
    Paint::LineNumberFg.code() + on_background("~"@, total_width("~"@), width)
        + Paint::ResetFg.code()
}

impl State {
    /// The left part of the status line: the name of the document, a mark
    /// for unsaved changes, and the kind of file.
    pub open spec fn status_left(self) -> Seq<char> {
        " "@ + self.name + (if self.dirty {
            "[+] \u{fb12} "@
        } else {
            " \u{f723} "@
        }) + " \u{2502} "@ + file_type(self.name)
    }

    /// The right part of the status line: the cursor's row out of the
    /// number of rows, and the cursor's place on screen.
    pub open spec fn status_right(self) -> Seq<char> {
        "\u{fa70} "@ + decimal_digits((self.y() + 1) as nat) + " / "@ + decimal_digits(
            self.rows.len(),
        ) + " \u{2502} \u{fae6}("@ + decimal_digits(self.cursor.x as nat) + ", "@
            + decimal_digits(self.cursor.y as nat) + ") "@
    }

    /// The status line: the left part, the right part against the right
    /// edge of the terminal, blanks between them.
    pub open spec fn status_line(self) -> Seq<char> {
        let left = self.status_left();
        let right = self.status_right();
        Paint::Bold.code() + Paint::StatusFg.code() + Paint::StatusBg.code() + left + filling(
            self.width,
            total_width(left) + total_width(right),
        ) + right + Paint::ResetBg.code() + Paint::ResetFg.code() + Paint::ResetStyle.code()
    }

    /// The message on the text area's background.
    pub open spec fn message_line(self) -> Seq<char> {
        on_background(self.message, total_width(self.message), self.width)
    }

    /// The command line: the message, bold and red for an error, bold and
    /// yellow for a warning, plain for information.
    pub open spec fn command_line(self) -> Seq<char> {
        match self.severity {
            Severity::Error => Paint::Bold.code() + Paint::Red.code() + self.message_line()
                + Paint::ResetFg.code() + Paint::ResetStyle.code(),
            Severity::Warning => Paint::Bold.code() + Paint::Yellow.code() + self.message_line()
                + Paint::ResetFg.code() + Paint::ResetStyle.code(),
            Severity::Info => self.message_line(),
        }
    }

    /// The line that shows row `y` of the document.
    pub open spec fn text_line(self, y: int) -> Seq<char> {
        let cells = self.rows[y];
        let columns = line_number(y as nat, self.gutter).len() + visible_columns(
            cells,
            self.offset.x,
            self.offset.x + self.columns(),
        );
        on_background(
            rendered(cells, self.offset.x as nat, self.width, y as nat, self.gutter),
            columns,
            self.width,
        )
    }

    /// Line `row` of the frame, counted from the top. The last line is the
    /// command line and the one above it the status line. While the welcome
    /// screen is shown, five lines from a quarter of the height on belong to
    /// it. Every other line shows the row of the document that scrolling
    /// brings there, or the filler where the document has ended.
    pub open spec fn frame_line(self, row: int) -> Seq<char> {
        let quarter = self.height as int / 4;
        if row == self.height - 1 {
            self.command_line()
        } else if row == self.height - 2 {
            self.status_line()
        } else if row == quarter && self.show_welcome {
            welcome_line("Ox editor  v"@ + VERSION@, Paint::Fg, self.width)
        } else if row == quarter + 1 && self.show_welcome {
            welcome_line("A Rust powered editor by Luke"@, Paint::Fg, self.width)
        } else if row == quarter + 3 && self.show_welcome {
            welcome_line("Ctrl + Q: Exit   "@, Paint::StatusFg, self.width)
        } else if row == quarter + 4 && self.show_welcome {
            welcome_line("Ctrl + S: Save   "@, Paint::StatusFg, self.width)
        } else if row == quarter + 5 && self.show_welcome {
            welcome_line("Ctrl + W: Save as"@, Paint::StatusFg, self.width)
        } else if self.offset.y + row < self.rows.len() {
            self.text_line(self.offset.y + row)
        } else {
            filler_line(self.width)
        }
    }

    /// The frame: as many lines as the terminal has rows.
    pub open spec fn frame(self) -> Seq<Seq<char>> {
        Seq::new(self.height, |row: int| self.frame_line(row))
    }

    /// The state at the start of an update cycle: the gutter fits the
    /// number of rows, and the cursor is inside the window that is left.
    pub open spec fn updated(self) -> State {
        State { gutter: gutter_for(self.rows.len()), ..self }.refit()
    }
}

/// Columns of `text`, counted no further than `cap`.
pub fn columns_up_to(text: &str, cap: usize) -> (n: usize)
    ensures
        n == least(total_width(text@) as int, cap as int),
{
    let cells = crate::text::chars_of(text);
    let mut n: usize = 0;
    let mut i: usize = 0;
    while i < cells.len() && n < cap
        invariant
            i <= cells.len(),
            cells@ == text@,
            n == least(width_to(cells@, i as int) as int, cap as int),
        decreases cells.len() - i,
    {
        let w = cell_columns(cells[i]);
        n = if w < cap - n {
            n + w
        } else {
            cap
        };
        i += 1;
    }
    proof {
        lemma_width_monotonic(cells@, i as int, cells@.len() as int);
    }
    n
}

impl Editor {
    /// Appends the blanks that fill a line of which `used` columns are
    /// taken.
    fn push_filling(&self, out: &mut String, used: usize)
        ensures
            final(out)@ == old(out)@ + filling(self@.width, used as nat),
    {
        let width = self.term.width as usize;
        let n = if width > used {
            width - used
        } else {
            0
        };
        push_repeated(out, ' ', n);
    }

    /// Puts `text`, which takes `columns` columns, on the background.
    fn paint_line(&self, text: &str, columns: usize) -> (line: String)
        ensures
            line@ == on_background(text@, columns as nat, self@.width),
    {
        let mut line = String::new();
        push_paint(&mut line, Paint::Bg);
        line.append(text);
        self.push_filling(&mut line, columns);
        push_paint(&mut line, Paint::ResetBg);
        assert(line@ =~= on_background(text@, columns as nat, self@.width));
        line
    }

    /// Puts `text` on the background of the text area, filled with blanks
    /// up to the width of the terminal.
    pub fn add_background(&self, text: &str) -> (line: String)
        ensures
            line@ == on_background(text@, total_width(text@), self@.width),
    {
        let width = self.term.width as usize;
        let columns = columns_up_to(text, width);
        let mut line = String::new();
        push_paint(&mut line, Paint::Bg);
        line.append(text);
        self.push_filling(&mut line, columns);
        push_paint(&mut line, Paint::ResetBg);
        assert(line@ =~= on_background(text@, total_width(text@), self@.width));
        line
    }

    /// A line of the welcome screen: `text` in its colour, centred.
    pub fn welcome_message(&self, text: &str, colour: Paint) -> (line: String)
        ensures
            line@ == welcome_line(text@, colour, self@.width),
    {
        let width = self.term.width as usize;
        let len = crate::text::chars_of(text).len();
        let pad = if width / 2 > len / 2 {
            width / 2 - len / 2
        } else {
            0
        };
        let rest = if width > 1 {
            width - 1
        } else {
            0
        };
        let pad_right = if rest > pad && rest - pad > len {
            rest - pad - len
        } else {
            0
        };
        let mut line = String::new();
        push_paint(&mut line, Paint::Bg);
        push_paint(&mut line, Paint::LineNumberFg);
        line.append("~");
        push_paint(&mut line, Paint::ResetFg);
        push_repeated(&mut line, ' ', pad);
        push_paint(&mut line, colour);
        line.append(text);
        push_paint(&mut line, Paint::ResetFg);
        push_repeated(&mut line, ' ', pad_right);
        push_paint(&mut line, Paint::ResetBg);
        assert(line@ =~= welcome_line(text@, colour, self@.width));
        line
    }

    /// The status line.
    pub fn status_line(&self) -> (line: String)
        requires
            self@.wf(),
        ensures
            line@ == self@.status_line(),
    {
        let mut left = String::from_str(" ");
        left.append(self.doc.name.as_str());
        if self.dirty {
            left.append("[+] \u{fb12} ");
        } else {
            left.append(" \u{f723} ");
        }
        left.append(" \u{2502} ");
        left.append(self.doc.identify());
        assert(left@ =~= self@.status_left());
        let mut right = String::from_str("\u{fa70} ");
        push_decimal(&mut right, self.cursor.y + self.offset.y + 1);
        right.append(" / ");
        push_decimal(&mut right, self.doc.rows.len());
        right.append(" \u{2502} \u{fae6}(");
        push_decimal(&mut right, self.cursor.x);
        right.append(", ");
        push_decimal(&mut right, self.cursor.y);
        right.append(") ");
        assert(right@ =~= self@.status_right());
        let width = self.term.width as usize;
        let used_left = columns_up_to(left.as_str(), width);
        let used_right = columns_up_to(right.as_str(), width - used_left);
        let mut line = String::new();
        push_paint(&mut line, Paint::Bold);
        push_paint(&mut line, Paint::StatusFg);
        push_paint(&mut line, Paint::StatusBg);
        line.append(left.as_str());
        self.push_filling(&mut line, used_left + used_right);
        line.append(right.as_str());
        push_paint(&mut line, Paint::ResetBg);
        push_paint(&mut line, Paint::ResetFg);
        push_paint(&mut line, Paint::ResetStyle);
        assert(filling(self@.width, (used_left + used_right) as nat) == filling(
            self@.width,
            total_width(left@) + total_width(right@),
        ));
        assert(line@ =~= self@.status_line());
        line
    }

    /// The command line.
    pub fn command_line(&self) -> (line: String)
        ensures
            line@ == self@.command_line(),
    {
        let message = self.add_background(self.command_line.text.as_str());
        match self.command_line.msg {
            Severity::Error => {
                let mut line = String::new();
                push_paint(&mut line, Paint::Bold);
                push_paint(&mut line, Paint::Red);
                line.append(message.as_str());
                push_paint(&mut line, Paint::ResetFg);
                push_paint(&mut line, Paint::ResetStyle);
                assert(line@ =~= self@.command_line());
                line
            },
            Severity::Warning => {
                let mut line = String::new();
                push_paint(&mut line, Paint::Bold);
                push_paint(&mut line, Paint::Yellow);
                line.append(message.as_str());
                push_paint(&mut line, Paint::ResetFg);
                push_paint(&mut line, Paint::ResetStyle);
                assert(line@ =~= self@.command_line());
                line
            },
            Severity::Info => message,
        }
    }

    /// The line that shows row `y` of the document.
    fn text_line(&self, y: usize) -> (line: String)
        requires
            self@.wf(),
            y < self@.rows.len(),
        ensures
            line@ == self@.text_line(y as int),
    {
        let row = &self.doc.rows[y];
        assert(row@ == self@.rows[y as int]);
        let width = self.term.width as usize;
        let gutter = self.doc.line_offset;
        let text = row.render(self.offset.x, width, y, gutter);
        let digits = count_digits(y + 1);
        proof {
            lemma_digit_count((y + 1) as nat);
        }
        let gutter_columns = if gutter > digits {
            gutter
        } else {
            digits + 1
        };
        let columns = gutter_columns + row.visible_columns(self.offset.x, self.columns());
        assert(gutter_columns == line_number(y as nat, gutter as nat).len());
        self.paint_line(text.as_str(), columns)
    }

    /// The line of a screen row below the end of the document.
    fn filler_line(&self) -> (line: String)
        ensures
            line@ == filler_line(self@.width),
    {
        let mut line = String::new();
        push_paint(&mut line, Paint::LineNumberFg);
        let mark = self.add_background("~");
        line.append(mark.as_str());
        push_paint(&mut line, Paint::ResetFg);
        line
    }

    /// Line `row` of the frame.
    fn frame_line(&self, row: u16) -> (line: String)
        requires
            self@.wf(),
            row < self@.height,
        ensures
            line@ == self@.frame_line(row as int),
    {
        let height = self.term.height;
        let quarter = height / 4;
        if row == height - 1 {
            self.command_line()
        } else if row == height - 2 {
            self.status_line()
        } else if row == quarter && self.show_welcome {
            let mut title = String::from_str("Ox editor  v");
            title.append(VERSION);
            self.welcome_message(title.as_str(), Paint::Fg)
        } else if row > quarter && row - quarter == 1 && self.show_welcome {
            self.welcome_message("A Rust powered editor by Luke", Paint::Fg)
        } else if row > quarter && row - quarter == 3 && self.show_welcome {
            self.welcome_message("Ctrl + Q: Exit   ", Paint::StatusFg)
        } else if row > quarter && row - quarter == 4 && self.show_welcome {
            self.welcome_message("Ctrl + S: Save   ", Paint::StatusFg)
        } else if row > quarter && row - quarter == 5 && self.show_welcome {
            self.welcome_message("Ctrl + W: Save as", Paint::StatusFg)
        } else if (row as usize) < self.doc.rows.len() - self.offset.y {
            self.text_line(self.offset.y + row as usize)
        } else {
            self.filler_line()
        }
    }

    /// Draws the frame: one line for each row of the terminal.
    pub fn render(&self) -> (lines: Vec<String>)
        requires
            self@.wf(),
        ensures
            lines_view(lines@) == self@.frame(),
    {
        let mut lines: Vec<String> = Vec::new();
        let mut row: u16 = 0;
        while row < self.term.height
            invariant
                self@.wf(),
                row <= self.term.height,
                lines@.len() == row,
                forall|i: int| 0 <= i < row ==> (#[trigger] lines@[i])@ == self@.frame_line(i),
            decreases self.term.height - row,
        {
            let line = self.frame_line(row);
            lines.push(line);
            row += 1;
        }
        assert(lines_view(lines@) =~= self@.frame());
        lines
    }

    /// One update cycle: the gutter is set to fit the number of rows, the
    /// cursor is brought into the window that is left, and the frame is
    /// drawn. The hardware cursor goes behind the gutter, on the cursor's
    /// column and row. The cursor and the scroll origin stay as they are
    /// unless a gutter that has grown leaves the cursor outside the window;
    /// then the window scrolls sideways by the difference. The document is
    /// left alone.
    pub fn update(&mut self) -> (frame: Frame)
        requires
            old(self)@.wf(),
        ensures
            final(self)@ == old(self)@.updated(),
            final(self)@.wf(),
            lines_view(frame.lines@) == final(self)@.frame(),
            frame.cursor.x == final(self)@.cursor.x + final(self)@.gutter,
            frame.cursor.y == final(self)@.cursor.y,
            final(self)@.gutter == gutter_for(old(self)@.rows.len()),
            final(self)@.rows == old(self)@.rows,
            final(self)@.x() == old(self)@.x(),
            final(self)@.y() == old(self)@.y(),
            final(self)@.cursor.y == old(self)@.cursor.y,
            final(self)@.offset.y == old(self)@.offset.y,
            final(self)@.graphemes == old(self)@.graphemes,
            old(self)@.cursor.x <= final(self)@.columns()
                ==> final(self)@.cursor == old(self)@.cursor,
            old(self)@.cursor.x <= final(self)@.columns()
                ==> final(self)@.offset == old(self)@.offset,
    {
        proof {
            lemma_here(self@);
            lemma_refit(State { gutter: gutter_for(self@.rows.len()), ..self@ });
        }
        self.doc.recalculate_offset();
        self.refit();
        let lines = self.render();
        Frame {
            lines,
            cursor: Position { x: self.cursor.x + self.doc.line_offset, y: self.cursor.y },
        }
    }
}

} // verus!
