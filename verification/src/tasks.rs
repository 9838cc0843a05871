//! The task data model and the verified operations on the ordered task list.

use vstd::prelude::*;

verus! {

/// One to-do entry: a title, a completion flag, and an optional comment.
/// An absent comment means "no comment"; the editor collapses an emptied
/// comment back to absent rather than storing an empty string.
pub struct Task {
    pub title: String,
    pub completed: bool,
    pub comment: Option<String>,
}

/// The mathematical value of a `Task`: its texts as character sequences.
#[verifier::ext_equal]
pub struct TaskView {
    pub title: Seq<char>,
    pub completed: bool,
    pub comment: Option<Seq<char>>,
}

impl View for Task {
    type V = TaskView;

    open spec fn view(&self) -> TaskView {
        TaskView {
            title: self.title@,
            completed: self.completed,
            comment: match self.comment {
                Some(c) => Some(c@),
                None => None,
            },
        }
    }
}

impl DeepView for Task {
    type V = TaskView;

    open spec fn deep_view(&self) -> TaskView {
        self.view()
    }
}

impl Clone for Task {
    fn clone(&self) -> (r: Self)
        ensures
            r@ == self@,
    {
        Task {
            title: self.title.clone(),
            completed: self.completed,
            comment: clone_comment(&self.comment),
        }
    }
}

/// Clones an optional comment, preserving presence and content.
pub fn clone_comment(c: &Option<String>) -> (r: Option<String>)
    ensures
        (match r {
            Some(s) => c matches Some(cs) && s@ == cs@,
            None => c is None,
        }),
{
    match c {
        Some(s) => Some(s.clone()),
        None => None,
    }
}

/// The value of a whole task list: one `TaskView` per entry, in order.
pub open spec fn list_view(ts: Seq<Task>) -> Seq<TaskView> {
    ts.map_values(|t: Task| t@)
}

/// The view a freshly added task has: the given title, not completed,
/// no comment.
pub open spec fn fresh_task(title: Seq<char>) -> TaskView {
    TaskView { title, completed: false, comment: None }
}

/// Appends a new incomplete task with the given title and no comment.
pub fn add_task(tasks: &mut Vec<Task>, title: String)
    ensures
        list_view(final(tasks)@) == list_view(old(tasks)@).push(fresh_task(title@)),
{
    let ghost t0 = tasks@;
    let ghost tv = title@;
    tasks.push(Task { title, completed: false, comment: None });
    proof {
        assert(list_view(tasks@) =~= list_view(t0).push(fresh_task(tv)));
    }
}

/// Removes and returns the task at index `i`; the rest keep their order.
pub fn remove_task(tasks: &mut Vec<Task>, i: usize) -> (r: Task)
    requires
        i < old(tasks)@.len(),
    ensures
        r@ == list_view(old(tasks)@)[i as int],
        list_view(final(tasks)@) == list_view(old(tasks)@).remove(i as int),
{
    let ghost t0 = tasks@;
    let r = tasks.remove(i);
    proof {
        assert(list_view(tasks@) =~= list_view(t0).remove(i as int));
    }
    r
}

/// The view of a list after flipping the completion flag at index `i`.
pub open spec fn toggled(ts: Seq<TaskView>, i: int) -> Seq<TaskView>
    recommends
        0 <= i < ts.len(),
{
    ts.update(i, TaskView { completed: !ts[i].completed, ..ts[i] })
}

/// Flips the completion flag of the task at index `i`; out-of-range
/// indices leave the list unchanged.
pub fn toggle_task(tasks: &mut Vec<Task>, i: usize)
    ensures
        i < old(tasks)@.len() ==> list_view(final(tasks)@) == toggled(
            list_view(old(tasks)@),
            i as int,
        ),
        i >= old(tasks)@.len() ==> final(tasks)@ == old(tasks)@,
{
    let ghost t0 = tasks@;
    if i < tasks.len() {
        let c = tasks[i].completed;
        tasks[i].completed = !c;
        proof {
            assert(list_view(tasks@) =~= toggled(list_view(t0), i as int));
        }
    }
}

/// Takes the task at `from` out of the list and reinserts it at `to`
/// (`to` addresses a slot of the shortened list, as the command-line
/// `move` command does).
pub fn move_task(tasks: &mut Vec<Task>, from: usize, to: usize)
    requires
        from < old(tasks)@.len(),
        to < old(tasks)@.len(),
    ensures
        list_view(final(tasks)@) == list_view(old(tasks)@).remove(from as int).insert(
            to as int,
            list_view(old(tasks)@)[from as int],
        ),
{
    let ghost t0 = tasks@;
    let t = tasks.remove(from);
    tasks.insert(to, t);
    proof {
        assert(list_view(tasks@) =~= list_view(t0).remove(from as int).insert(
            to as int,
            list_view(t0)[from as int],
        ));
    }
}

/// The view of a list after swapping the entries at `i` and `i + 1`.
pub open spec fn swapped(ts: Seq<TaskView>, i: int) -> Seq<TaskView>
    recommends
        0 <= i && i + 1 < ts.len(),
{
    ts.update(i, ts[i + 1]).update(i + 1, ts[i])
}

/// Swaps the tasks at adjacent indices `i` and `i + 1`.
pub fn swap_with_next(tasks: &mut Vec<Task>, i: usize)
    requires
        i + 1 < old(tasks)@.len(),
    ensures
        list_view(final(tasks)@) == swapped(list_view(old(tasks)@), i as int),
{
    let ghost t0 = tasks@;
    let n = tasks.len();
    let t = tasks.remove(i);
    tasks.insert(i + 1, t);
    proof {
        assert(i + 1 < n);
    }
    proof {
        assert(list_view(tasks@) =~= swapped(list_view(t0), i as int));
    }
}

/// Replaces the title of the task at index `i`.
pub fn set_title(tasks: &mut Vec<Task>, i: usize, title: String)
    requires
        i < old(tasks)@.len(),
    ensures
        list_view(final(tasks)@) == list_view(old(tasks)@).update(
            i as int,
            TaskView { title: title@, ..list_view(old(tasks)@)[i as int] },
        ),
{
    let ghost t0 = tasks@;
    let ghost tv = title@;
    tasks[i].title = title;
    proof {
        assert(list_view(tasks@) =~= list_view(t0).update(
            i as int,
            TaskView { title: tv, ..list_view(t0)[i as int] },
        ));
    }
}

/// Replaces the comment of the task at index `i` (`None` clears it).
pub fn set_comment(tasks: &mut Vec<Task>, i: usize, comment: Option<String>)
    requires
        i < old(tasks)@.len(),
    ensures
        list_view(final(tasks)@) == list_view(old(tasks)@).update(
            i as int,
            TaskView {
                comment: match comment {
                    Some(c) => Some(c@),
                    None => None,
                },
                ..list_view(old(tasks)@)[i as int]
            },
        ),
{
    let ghost t0 = tasks@;
    let ghost cv: Option<Seq<char>> = match &comment {
        Some(c) => Some(c@),
        None => None,
    };
    tasks[i].comment = comment;
    proof {
        assert(list_view(tasks@) =~= list_view(t0).update(
            i as int,
            TaskView { comment: cv, ..list_view(t0)[i as int] },
        ));
    }
}

/// The incomplete tasks of `ts` from index `i` on, in their list order.
pub open spec fn incomplete_from(ts: Seq<TaskView>, i: int) -> Seq<TaskView>
    decreases ts.len() - i,
{
    if i < 0 || i >= ts.len() {
        Seq::empty()
    } else if ts[i].completed {
        incomplete_from(ts, i + 1)
    } else {
        seq![ts[i]] + incomplete_from(ts, i + 1)
    }
}

/// Removes every completed task, keeping the incomplete ones in order.
pub fn clear_completed(tasks: &mut Vec<Task>)
    ensures
        list_view(final(tasks)@) == incomplete_from(list_view(old(tasks)@), 0),
{
    let ghost lv = list_view(tasks@);
    let mut kept: Vec<Task> = Vec::new();
    let mut i: usize = 0;
    while i < tasks.len()
        invariant
            i <= tasks@.len(),
            lv == list_view(tasks@),
            list_view(kept@) + incomplete_from(lv, i as int) == incomplete_from(lv, 0),
        decreases tasks@.len() - i,
    {
        if !tasks[i].completed {
            let t = tasks[i].clone();
            let ghost k0 = kept@;
            kept.push(t);
            proof {
                assert(list_view(kept@) =~= list_view(k0) + seq![lv[i as int]]);
                assert(list_view(kept@) + incomplete_from(lv, i + 1) =~= list_view(k0) + (seq![
                    lv[i as int],
                ] + incomplete_from(lv, i + 1)));
            }
        }
        i += 1;
    }
    proof {
        assert(incomplete_from(lv, lv.len() as int) =~= Seq::<TaskView>::empty());
        assert(list_view(kept@) =~= list_view(kept@) + incomplete_from(lv, lv.len() as int));
    }
    *tasks = kept;
}

} // verus!
