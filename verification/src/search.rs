//! Search: the matches of the prompt's text nearest to the cursor, and the
//! reaction of the search prompt to each keystroke.
use vstd::prelude::*;
use crate::cursor::lemma_goto;
use crate::cursor::lemma_refit;
use crate::document::match_point;
use crate::document::precedes;
use crate::editor::Editor;
use crate::editor::Key;
use crate::editor::Mode;
use crate::editor::Position;
use crate::editor::PromptEvent;
use crate::editor::PromptKind;
use crate::editor::State;
use crate::width::index_at;
use crate::width::lemma_boundary;

verus! {

/// Whether `p` is the match of `needle` nearest after `here`: a match
/// strictly after `here` with no other match between the two.
pub open spec fn next_match(
    rows: Seq<Seq<char>>,
    needle: Seq<char>,
    here: Position,
    p: Position,
) -> bool {
    &&& match_point(rows, needle, p)
    &&& precedes(here, p)
    &&& forall|q: Position| #[trigger]
        match_point(rows, needle, q) && precedes(here, q) ==> !precedes(q, p)
}

/// Whether `p` is the match of `needle` nearest before `here`.
pub open spec fn previous_match(
    rows: Seq<Seq<char>>,
    needle: Seq<char>,
    here: Position,
    p: Position,
) -> bool {
    &&& match_point(rows, needle, p)
    &&& precedes(p, here)
    &&& forall|q: Position| #[trigger]
        match_point(rows, needle, q) && precedes(q, here) ==> !precedes(p, q)
}

/// There is at most one nearest match after a position.
pub proof fn lemma_next_match_unique(
    rows: Seq<Seq<char>>,
    needle: Seq<char>,
    here: Position,
    p: Position,
    q: Position,
)
    requires
        next_match(rows, needle, here, p),
        next_match(rows, needle, here, q),
    ensures
        p == q,
{
}

/// There is at most one nearest match before a position.
pub proof fn lemma_previous_match_unique(
    rows: Seq<Seq<char>>,
    needle: Seq<char>,
    here: Position,
    p: Position,
    q: Position,
)
    requires
        previous_match(rows, needle, here, p),
        previous_match(rows, needle, here, q),
    ensures
        p == q,
{
}

impl State {
    /// The cursor and the scroll origin as they were when the search began,
    /// brought into the window as it is now.
    pub open spec fn restored(self) -> State {
        let x = self.saved_cursor.x + self.saved_offset.x;
        let y = self.saved_cursor.y + self.saved_offset.y;
        State {
            cursor: self.saved_cursor,
            offset: self.saved_offset,
            graphemes: index_at(self.rows[y], x),
            ..self
        }.refit()
    }

    /// The cursor on the nearest match of the prompt's text after it, where
    /// there is one.
    #[verifier::opaque]
    pub open spec fn to_next_match(self) -> State {
        if exists|p: Position| next_match(self.rows, self.input, self.here(), p) {
            self.goto_ahead(choose|p: Position| next_match(self.rows, self.input, self.here(), p))
        } else {
            self
        }
    }

    /// The cursor on the nearest match of the prompt's text before it, where
    /// there is one.
    #[verifier::opaque]
    pub open spec fn to_previous_match(self) -> State {
        if exists|p: Position| previous_match(self.rows, self.input, self.here(), p) {
            self.goto_behind(
                choose|p: Position| previous_match(self.rows, self.input, self.here(), p),
            )
        } else {
            self
        }
    }

    /// What the search prompt does on an event. Left and Up jump to the
    /// nearest match before the cursor, Right and Down to the nearest after
    /// it. Escape puts the cursor back where the search began. A change of
    /// the text starts over from there and, unless the text is empty, jumps
    /// to the nearest match after it.
    pub open spec fn search_react(self, event: PromptEvent) -> State {
        match event {
            PromptEvent::KeyPress(Key::Left) => self.to_previous_match(),
            PromptEvent::KeyPress(Key::Up) => self.to_previous_match(),
            PromptEvent::KeyPress(Key::Right) => self.to_next_match(),
            PromptEvent::KeyPress(Key::Down) => self.to_next_match(),
            PromptEvent::KeyPress(Key::Esc) => self.restored(),
            PromptEvent::KeyPress(_) => self,
            PromptEvent::CharPress => if self.input.len() > 0 {
                self.restored().to_next_match()
            } else {
                self.restored()
            },
            PromptEvent::Update => self,
        }
    }
}

/// Going back to where the search began keeps the invariant, and is exact
/// while the saved cursor is inside the window.
pub proof fn lemma_restored(s: State)
    requires
        s.grounded(),
        s.mode == Mode::Prompt(PromptKind::Search),
    ensures
        s.restored().wf(),
        s.same_but_cursor(s.restored()),
        s.restored().x() == s.saved_cursor.x + s.saved_offset.x,
        s.restored().y() == s.saved_cursor.y + s.saved_offset.y,
        s.saved_cursor.x <= s.columns() && s.saved_cursor.y <= s.max_y() ==> s.restored().cursor
            == s.saved_cursor && s.restored().offset == s.saved_offset,
{
    let x = s.saved_cursor.x + s.saved_offset.x;
    let y = s.saved_cursor.y + s.saved_offset.y;
    let t = State {
        cursor: s.saved_cursor,
        offset: s.saved_offset,
        graphemes: index_at(s.rows[y], x),
        ..s
    };
    lemma_refit(t);
}

/// The first of `points` strictly after `here`.
fn first_after(points: &Vec<Position>, here: Position) -> (found: Option<Position>)
    ensures
        match found {
            Some(p) => exists|i: int|
                0 <= i < points@.len() && points@[i] == p && precedes(here, p) && forall|j: int|
                    0 <= j < i ==> !precedes(here, #[trigger] points@[j]),
            None => forall|j: int|
                0 <= j < points@.len() ==> !precedes(here, #[trigger] points@[j]),
        },
{
    let mut i: usize = 0;
    while i < points.len()
        invariant
            i <= points.len(),
            forall|j: int| 0 <= j < i ==> !precedes(here, #[trigger] points@[j]),
        decreases points.len() - i,
    {
        let p = points[i];
        if p.y > here.y || (p.y == here.y && p.x > here.x) {
            return Some(p);
        }
        i += 1;
    }
    None
}

/// The last of `points` strictly before `here`.
fn last_before(points: &Vec<Position>, here: Position) -> (found: Option<Position>)
    ensures
        match found {
            Some(p) => exists|i: int|
                0 <= i < points@.len() && points@[i] == p && precedes(p, here) && forall|j: int|
                    i < j < points@.len() ==> !precedes(#[trigger] points@[j], here),
            None => forall|j: int|
                0 <= j < points@.len() ==> !precedes(#[trigger] points@[j], here),
        },
{
    let mut i: usize = points.len();
    while i > 0
        invariant
            i <= points.len(),
            forall|j: int| i <= j < points@.len() ==> !precedes(#[trigger] points@[j], here),
        decreases i,
    {
        let p = points[i - 1];
        if p.y < here.y || (p.y == here.y && p.x < here.x) {
            return Some(p);
        }
        i -= 1;
    }
    None
}

impl Editor {
    /// Puts the cursor and the scroll origin back to where the search began.
    fn restore(&mut self)
        requires
            old(self)@.grounded(),
            old(self)@.mode == Mode::Prompt(PromptKind::Search),
        ensures
            final(self)@ == old(self)@.restored(),
            final(self)@.wf(),
    {
        proof {
            lemma_restored(self@);
            let x = self@.saved_cursor.x + self@.saved_offset.x;
            let y = self@.saved_cursor.y + self@.saved_offset.y;
            lemma_boundary(self@.rows[y], x);
            crate::row::lemma_columns_fit(self@.rows[y], self@.rows[y].len() as int);
        }
        self.cursor = self.saved_cursor;
        self.offset = self.saved_offset;
        self.graphemes = self.doc.rows[self.cursor.y + self.offset.y].index_at(
            self.cursor.x + self.offset.x,
        );
        self.refit();
    }

    /// Jumps to the nearest match of the prompt's text after the cursor,
    /// where there is one.
    fn jump_ahead(&mut self)
        requires
            old(self)@.wf(),
        ensures
            final(self)@ == old(self)@.to_next_match(),
            final(self)@.wf(),
    {
        proof {
            reveal(State::to_next_match);
        }
        let points = self.doc.scan(&self.input);
        let here = self.here();
        let ghost rows = self@.rows;
        let ghost needle = self@.input;
        match first_after(&points, here) {
            Some(p) => {
                proof {
                    assert forall|q: Position| #[trigger]
                        match_point(rows, needle, q) && precedes(here, q) implies !precedes(
                        q,
                        p,
                    ) by {
                        assert(points@.contains(q));
                    }
                    assert(next_match(rows, needle, here, p));
                    let c = choose|c: Position| next_match(rows, needle, here, c);
                    lemma_next_match_unique(rows, needle, here, p, c);
                    lemma_goto(self@, p);
                }
                self.goto_ahead(&p);
            },
            None => {
                proof {
                    assert forall|q: Position| !next_match(rows, needle, here, q) by {
                        if next_match(rows, needle, here, q) {
                            assert(points@.contains(q));
                        }
                    }
                }
            },
        }
    }

    /// Jumps to the nearest match of the prompt's text before the cursor,
    /// where there is one.
    fn jump_behind(&mut self)
        requires
            old(self)@.wf(),
        ensures
            final(self)@ == old(self)@.to_previous_match(),
            final(self)@.wf(),
    {
        proof {
            reveal(State::to_previous_match);
        }
        let points = self.doc.scan(&self.input);
        let here = self.here();
        let ghost rows = self@.rows;
        let ghost needle = self@.input;
        match last_before(&points, here) {
            Some(p) => {
                proof {
                    assert forall|q: Position| #[trigger]
                        match_point(rows, needle, q) && precedes(q, here) implies !precedes(
                        p,
                        q,
                    ) by {
                        assert(points@.contains(q));
                    }
                    assert(previous_match(rows, needle, here, p));
                    let c = choose|c: Position| previous_match(rows, needle, here, c);
                    lemma_previous_match_unique(rows, needle, here, p, c);
                    lemma_goto(self@, p);
                }
                self.goto_behind(&p);
            },
            None => {
                proof {
                    assert forall|q: Position| !previous_match(rows, needle, here, q) by {
                        if previous_match(rows, needle, here, q) {
                            assert(points@.contains(q));
                        }
                    }
                }
            },
        }
    }

    /// The reaction of the search prompt to an event.
    pub fn search_react(&mut self, event: PromptEvent)
        requires
            old(self)@.wf(),
            old(self)@.mode == Mode::Prompt(PromptKind::Search),
        ensures
            final(self)@ == old(self)@.search_react(event),
            final(self)@.wf(),
            final(self)@.same_but_cursor(old(self)@),
    {
        proof {
            lemma_search_react(self@, event);
        }
        match event {
            PromptEvent::KeyPress(k) => match k {
                Key::Left => self.jump_behind(),
                Key::Up => self.jump_behind(),
                Key::Right => self.jump_ahead(),
                Key::Down => self.jump_ahead(),
                Key::Esc => self.restore(),
                _ => {},
            },
            PromptEvent::CharPress => {
                self.restore();
                if self.input.len() > 0 {
                    self.jump_ahead();
                }
            },
            PromptEvent::Update => {},
        }
    }
}

/// The jumps of a search keep the invariant and touch nothing but the
/// cursor.
pub proof fn lemma_jump(s: State)
    requires
        s.wf(),
    ensures
        s.to_next_match().wf(),
        s.same_but_cursor(s.to_next_match()),
        s.to_previous_match().wf(),
        s.same_but_cursor(s.to_previous_match()),
{
    reveal(State::to_next_match);
    reveal(State::to_previous_match);
    if exists|p: Position| next_match(s.rows, s.input, s.here(), p) {
        lemma_goto(s, choose|p: Position| next_match(s.rows, s.input, s.here(), p));
    }
    if exists|p: Position| previous_match(s.rows, s.input, s.here(), p) {
        lemma_goto(s, choose|p: Position| previous_match(s.rows, s.input, s.here(), p));
    }
}

/// The reaction of the search prompt keeps the invariant and touches
/// nothing but the cursor.
pub proof fn lemma_search_react(s: State, event: PromptEvent)
    requires
        s.wf(),
        s.mode == Mode::Prompt(PromptKind::Search),
    ensures
        s.search_react(event).wf(),
        s.same_but_cursor(s.search_react(event)),
{
    lemma_jump(s);
    lemma_restored(s);
    lemma_jump(s.restored());
}

} // verus!
