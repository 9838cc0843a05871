//! The library's laws: properties that hold across several operations,
//! each proved from the specifications the operations carry.

use vstd::prelude::*;
use crate::editor::{keep, step, wf, Key, ModeView, SessionView};
use crate::tasks::{toggled, TaskView};
use crate::text::blank;

verus! {

/// One list-level operation of the batch interface.
pub enum ListOp {
    Add(TaskView),
    Toggle(int),
    Delete(int),
}

/// Whether each operation of `ops` addresses a task that exists when it
/// runs, starting from a list of length `len0`.
pub open spec fn valid_ops(len0: int, ops: Seq<ListOp>) -> bool
    decreases ops.len(),
{
    if ops.len() == 0 {
        true
    } else {
        match ops[0] {
            ListOp::Add(t) => valid_ops(len0 + 1, ops.drop_first()),
            ListOp::Toggle(i) => 0 <= i < len0 && valid_ops(len0, ops.drop_first()),
            ListOp::Delete(i) => 0 <= i < len0 && valid_ops(len0 - 1, ops.drop_first()),
        }
    }
}

/// The list after running `ops` in order.
pub open spec fn apply_ops(ts: Seq<TaskView>, ops: Seq<ListOp>) -> Seq<TaskView>
    decreases ops.len(),
{
    if ops.len() == 0 {
        ts
    } else {
        match ops[0] {
            ListOp::Add(t) => apply_ops(ts.push(t), ops.drop_first()),
            ListOp::Toggle(i) => apply_ops(toggled(ts, i), ops.drop_first()),
            ListOp::Delete(i) => apply_ops(ts.remove(i), ops.drop_first()),
        }
    }
}

/// How many of `ops` add a task.
pub open spec fn count_adds(ops: Seq<ListOp>) -> int
    decreases ops.len(),
{
    if ops.len() == 0 {
        0
    } else {
        (if ops[0] is Add {
            1int
        } else {
            0int
        }) + count_adds(ops.drop_first())
    }
}

/// How many of `ops` delete a task.
pub open spec fn count_deletes(ops: Seq<ListOp>) -> int
    decreases ops.len(),
{
    if ops.len() == 0 {
        0
    } else {
        (if ops[0] is Delete {
            1int
        } else {
            0int
        }) + count_deletes(ops.drop_first())
    }
}

/// After any valid sequence of add, toggle and delete operations the list
/// length is the starting length plus the adds minus the deletes — and,
/// being a length, that sum is never negative.
pub proof fn lemma_length_after_ops(ts: Seq<TaskView>, ops: Seq<ListOp>)
    requires
        valid_ops(ts.len() as int, ops),
    ensures
        apply_ops(ts, ops).len() == ts.len() + count_adds(ops) - count_deletes(ops),
        ts.len() + count_adds(ops) - count_deletes(ops) >= 0,
    decreases ops.len(),
{
    if ops.len() > 0 {
        match ops[0] {
            ListOp::Add(t) => {
                lemma_length_after_ops(ts.push(t), ops.drop_first());
            },
            ListOp::Toggle(i) => {
                lemma_length_after_ops(toggled(ts, i), ops.drop_first());
            },
            ListOp::Delete(i) => {
                lemma_length_after_ops(ts.remove(i), ops.drop_first());
            },
        }
    }
}

/// The session after feeding the keys to the state machine in order.
pub open spec fn run_keys(s: SessionView, keys: Seq<(Key, bool)>) -> SessionView
    decreases keys.len(),
{
    if keys.len() == 0 {
        s
    } else {
        run_keys(step(s, keys[0].0, keys[0].1).state, keys.drop_first())
    }
}

/// Any sequence of keys leaves a well-formed session well-formed: the
/// cursor stays in bounds and each composing draft keeps mirroring the
/// selected task.
pub proof fn lemma_run_keys_wf(s: SessionView, keys: Seq<(Key, bool)>)
    requires
        wf(s),
    ensures
        wf(run_keys(s, keys)),
    decreases keys.len(),
{
    if keys.len() > 0 {
        crate::editor::lemma_step_wf(s, keys[0].0, keys[0].1);
        lemma_run_keys_wf(step(s, keys[0].0, keys[0].1).state, keys.drop_first());
    }
}

/// A key that does not commit a composing session.
pub open spec fn non_commit(key: Key) -> bool {
    !(key is Enter || key is Esc)
}

/// While a title is being composed for an adding session, keys that do
/// not commit keep the session adding and the list length fixed.
proof fn lemma_adding_keeps_length(s: SessionView, keys: Seq<(Key, bool)>)
    requires
        wf(s),
        s.mode is Adding,
        forall|i: int| 0 <= i < keys.len() ==> non_commit((#[trigger] keys[i]).0),
    ensures
        wf(run_keys(s, keys)),
        run_keys(s, keys).mode is Adding,
        run_keys(s, keys).tasks.len() == s.tasks.len(),
    decreases keys.len(),
{
    if keys.len() > 0 {
        let s2 = step(s, keys[0].0, keys[0].1).state;
        crate::editor::lemma_step_wf(s, keys[0].0, keys[0].1);
        lemma_adding_keeps_length(s2, keys.drop_first());
    }
}

/// Canceling an adding session whose draft is blank leaves the list
/// length exactly what it was before the session began: the add key
/// appends one task, composing keys neither add nor remove, and the
/// commit removes the blank-titled task again.
pub proof fn lemma_cancel_adding_length(
    s: SessionView,
    keys: Seq<(Key, bool)>,
    commit: Key,
    commit_shift: bool,
)
    requires
        wf(s),
        s.mode is Normal,
        forall|i: int| 0 <= i < keys.len() ==> non_commit((#[trigger] keys[i]).0),
        commit is Enter || commit is Esc,
        ({
            let after = run_keys(step(s, Key::Char('a'), false).state, keys);
            after.mode matches ModeView::Adding(d) && blank(d)
        }),
    ensures
        ({
            let after = run_keys(step(s, Key::Char('a'), false).state, keys);
            step(after, commit, commit_shift).state.tasks.len() == s.tasks.len()
        }),
{
    let s1 = step(s, Key::Char('a'), false).state;
    crate::editor::lemma_step_wf(s, Key::Char('a'), false);
    lemma_adding_keeps_length(s1, keys);
}

/// A committed title-composing session never leaves a blank title
/// behind: the commit either removes the drafted task (blank draft) or
/// keeps the list as it stands, with the selected title the non-blank
/// draft.
pub proof fn lemma_commit_leaves_no_blank_title(
    s: SessionView,
    d: Seq<char>,
    key: Key,
    shift: bool,
)
    requires
        wf(s),
        s.mode == ModeView::Adding(d) || s.mode == ModeView::Editing(d),
        key is Enter || key is Esc,
    ensures
        step(s, key, shift).state.mode is Normal,
        blank(d) ==> step(s, key, shift).state.tasks.len() == s.tasks.len() - 1,
        !blank(d) ==> step(s, key, shift).state.tasks == s.tasks && !blank(
            step(s, key, shift).state.tasks[s.cursor].title,
        ),
{
}

/// Toggling the same task's completion twice restores the list.
pub proof fn lemma_toggle_twice(ts: Seq<TaskView>, i: int)
    requires
        0 <= i < ts.len(),
    ensures
        toggled(toggled(ts, i), i) == ts,
{
    assert(toggled(toggled(ts, i), i) =~~= ts);
}

/// Moving the first task up, or the last task down, is a no-op: the
/// whole step leaves the session as it was and asks for nothing.
pub proof fn lemma_move_at_boundary(s: SessionView)
    requires
        wf(s),
        s.mode is Normal,
    ensures
        s.cursor == 0 ==> step(s, Key::Char('K'), true) == keep(s),
        s.cursor == s.tasks.len() - 1 ==> step(s, Key::Char('J'), true) == keep(s),
{
}

/// Backspacing the last character of a comment leaves the comment absent
/// — not present and empty.
pub proof fn lemma_backspace_clears_comment(s: SessionView)
    requires
        wf(s),
        (s.mode matches ModeView::Commenting(d) && d.len() == 1),
    ensures
        ({
            let s2 = step(s, Key::Backspace, false).state;
            &&& s2.tasks[s.cursor].comment is None
            &&& (s2.mode matches ModeView::Commenting(d2) && d2.len() == 0)
        }),
{
}

} // verus!
