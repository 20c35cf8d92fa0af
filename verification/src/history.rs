//! Undo and redo: each takes the latest event off one stack, reverts or
//! makes its edit from the event alone, and puts the same event on the other
//! stack.
use vstd::prelude::*;
use vstd::string::StringExecFns;
use crate::cursor::lemma_seek;
use crate::editor::Editor;
use crate::editor::Mode;
use crate::editor::Severity;
use crate::editor::State;
use crate::event::applies;
use crate::event::backward;
use crate::event::forward;
use crate::event::landing;
use crate::event::lemma_apply_then_revert;
use crate::event::lemma_landing_valid;
use crate::event::lemma_revert_then_apply;
use crate::event::reverts;

verus! {

impl State {
    /// The state after the latest event was taken off the undo stack and
    /// reverted: the rows are those before the edit, the event is on the
    /// redo stack, and the cursor is where it was before the edit.
    pub open spec fn undone(self) -> State {
        let ev = self.undo.last();
        State {
            rows: backward(self.rows, ev),
            undo: self.undo.drop_last(),
            redo: self.redo.push(ev),
            dirty: true,
            ..self
        }.seek(ev.position().x as int, ev.position().y as int)
    }

    /// Undo. On an empty stack nothing changes but the command line, which
    /// reports it.
    pub open spec fn undo(self) -> State {
        if self.undo.len() == 0 {
            self.say(Severity::Error, "Empty Undo Stack"@)
        } else {
            self.undone().say(Severity::Info, self.undo.last().label())
        }
    }

    /// The state after the latest event was taken off the redo stack and
    /// made again: the rows are those after the edit, the event is on the
    /// undo stack, and the cursor is where the edit left it.
    pub open spec fn redone(self) -> State {
        let ev = self.redo.last();
        State {
            rows: forward(self.rows, ev),
            undo: self.undo.push(ev),
            redo: self.redo.drop_last(),
            dirty: true,
            ..self
        }.seek(landing(self.rows, ev).0, landing(self.rows, ev).1)
    }

    /// Redo. On an empty stack nothing changes but the command line, which
    /// reports it.
    pub open spec fn redo(self) -> State {
        if self.redo.len() == 0 {
            self.say(Severity::Error, "Empty Redo Stack"@)
        } else {
            self.redone().say(Severity::Info, self.redo.last().label())
        }
    }
}

/// Undo keeps the invariant, and the event it reverted can be made again.
pub proof fn lemma_undone(s: State)
    requires
        s.wf(),
        s.mode == Mode::Normal,
        s.undo.len() > 0,
    ensures
        reverts(s.rows, s.undo.last()),
        s.undone().wf(),
        s.undone().rows == backward(s.rows, s.undo.last()),
        s.undone().undo == s.undo.drop_last(),
        s.undone().redo == s.redo.push(s.undo.last()),
        s.undone().x() == s.undo.last().position().x,
        s.undone().y() == s.undo.last().position().y,
        s.undone().mode == s.mode,
{
    let ev = s.undo.last();
    lemma_revert_then_apply(s.rows, ev);
    assert(s.redo.push(ev).drop_last() =~= s.redo);
    let t = State {
        rows: backward(s.rows, ev),
        undo: s.undo.drop_last(),
        redo: s.redo.push(ev),
        dirty: true,
        ..s
    };
    assert(t.grounded());
    lemma_seek(t, ev.position().x as int, ev.position().y as int);
}

/// Redo keeps the invariant, and the event it made can be reverted.
pub proof fn lemma_redone(s: State)
    requires
        s.wf(),
        s.mode == Mode::Normal,
        s.redo.len() > 0,
    ensures
        applies(s.rows, s.redo.last()),
        s.redone().wf(),
        s.redone().rows == forward(s.rows, s.redo.last()),
        s.redone().undo == s.undo.push(s.redo.last()),
        s.redone().redo == s.redo.drop_last(),
        s.redone().x() == landing(s.rows, s.redo.last()).0,
        s.redone().y() == landing(s.rows, s.redo.last()).1,
        s.redone().mode == s.mode,
{
    let ev = s.redo.last();
    lemma_apply_then_revert(s.rows, ev);
    lemma_landing_valid(s.rows, ev);
    assert(s.undo.push(ev).drop_last() =~= s.undo);
    let t = State {
        rows: forward(s.rows, ev),
        undo: s.undo.push(ev),
        redo: s.redo.drop_last(),
        dirty: true,
        ..s
    };
    assert(t.grounded());
    lemma_seek(t, landing(s.rows, ev).0, landing(s.rows, ev).1);
}

impl Editor {
    /// Reverts the latest edit. The event moves from the undo stack to the
    /// redo stack, the cursor goes to where it was before the edit, and the
    /// command line names the kind of edit. With nothing to undo, the
    /// command line says so and nothing else changes.
    pub fn undo(&mut self)
        requires
            old(self)@.wf(),
            old(self)@.mode == Mode::Normal,
        ensures
            final(self)@ == old(self)@.undo(),
            final(self)@.wf(),
    {
        if self.doc.undo_stack.len() == 0 {
            self.set_command_line(String::from_str("Empty Undo Stack"), Severity::Error);
        } else {
            proof {
                lemma_undone(self@);
                lemma_revert_then_apply(self@.rows, self@.undo.last());
            }
            let ev = self.doc.undo_stack[self.doc.undo_stack.len() - 1];
            self.doc.undo_stack.pop();
            self.doc.revert(ev);
            self.doc.redo_stack.push(ev);
            self.dirty = true;
            assert(self@.redo.drop_last() =~= old(self)@.redo);
            self.seek(ev.origin());
            self.set_command_line(String::from_str(ev.name()), Severity::Info);
        }
    }

    /// Makes the latest reverted edit again. The event moves from the redo
    /// stack to the undo stack, the cursor goes to where the edit left it,
    /// and the command line names the kind of edit. With nothing to redo,
    /// the command line says so and nothing else changes.
    pub fn redo(&mut self)
        requires
            old(self)@.wf(),
            old(self)@.mode == Mode::Normal,
        ensures
            final(self)@ == old(self)@.redo(),
            final(self)@.wf(),
    {
        if self.doc.redo_stack.len() == 0 {
            self.set_command_line(String::from_str("Empty Redo Stack"), Severity::Error);
        } else {
            proof {
                lemma_redone(self@);
                lemma_apply_then_revert(self@.rows, self@.redo.last());
                lemma_landing_valid(self@.rows, self@.redo.last());
            }
            let ev = self.doc.redo_stack[self.doc.redo_stack.len() - 1];
            self.doc.redo_stack.pop();
            let target = self.doc.landing(ev);
            self.doc.apply(ev);
            self.doc.undo_stack.push(ev);
            self.dirty = true;
            assert(self@.undo.drop_last() =~= old(self)@.undo);
            self.seek(target);
            self.set_command_line(String::from_str(ev.name()), Severity::Info);
        }
    }
}

} // verus!
