//! The render pipeline's data: what one frame of the two-pane display
//! shows, as plain text. The event loop draws this model with its widget
//! toolkit; everything textual is computed and specified here.

use vstd::prelude::*;
use crate::editor::{wf, ModeView, Session, SessionView};
use crate::tasks::TaskView;

verus! {

/// One frame: the prompt shown over an empty list, or the two panes —
/// one row per task, the index of the highlighted row, and the selected
/// task's detail text.
pub enum Frame {
    Prompt(String),
    Panes { rows: Vec<String>, selected: usize, detail: String },
}

/// The completion glyph of a row.
pub open spec fn glyph(completed: bool) -> Seq<char> {
    if completed {
        "✓"@
    } else {
        " "@
    }
}

/// Whether a title is being composed (so its row carries the caret).
pub open spec fn composing_title(m: ModeView) -> bool {
    m is Adding || m is Editing
}

/// One list row: the bracketed glyph, the title, and a trailing caret on
/// the row under composition.
pub open spec fn row_text(t: TaskView, composing: bool) -> Seq<char> {
    "["@ + glyph(t.completed) + "] "@ + t.title + (if composing {
        "_"@
    } else {
        Seq::empty()
    })
}

/// The detail pane's text: the selected task's title and its comment, or
/// an explicit placeholder when it has none.
pub open spec fn detail_text(t: TaskView) -> Seq<char> {
    "Task: "@ + t.title + "\n\n"@ + (match t.comment {
        Some(c) => "Comment: "@ + c,
        None => "No Comment"@,
    })
}

/// The prompt shown when the list is empty.
pub open spec fn empty_prompt() -> Seq<char> {
    "Press 'a' to start adding tasks"@
}

/// What a frame must show for a session: the prompt exactly on an empty
/// list; otherwise one row per task in order, the caret exactly on the
/// selected row while a title is composed, the selection mark on the
/// cursor, and the detail text of the selected task.
pub open spec fn frame_shows(s: SessionView, f: Frame) -> bool {
    match f {
        Frame::Prompt(p) => s.tasks.len() == 0 && p@ == empty_prompt(),
        Frame::Panes { rows, selected, detail } => {
            &&& s.tasks.len() > 0
            &&& rows@.len() == s.tasks.len()
            &&& forall|i: int|
                0 <= i < rows@.len() ==> rows@[i]@ == row_text(
                    s.tasks[i],
                    i == s.cursor && composing_title(s.mode),
                )
            &&& selected as int == s.cursor
            &&& detail@ == detail_text(s.tasks[s.cursor])
        },
    }
}

/// Builds one row's text.
fn build_row(t: &crate::tasks::Task, composing: bool) -> (r: String)
    ensures
        r@ == row_text(t@, composing),
{
    let mut row = "[".to_owned();
    if t.completed {
        row.append("✓");
    } else {
        row.append(" ");
    }
    row.append("] ");
    row.append(t.title.as_str());
    if composing {
        row.append("_");
    }
    proof {
        assert(row@ =~= row_text(t@, composing));
    }
    row
}

/// Projects the session into the frame it renders to.
pub fn render_frame(s: &Session) -> (f: Frame)
    requires
        wf(s@),
    ensures
        frame_shows(s@, f),
{
    let n = s.tasks.len();
    if n == 0 {
        return Frame::Prompt("Press 'a' to start adding tasks".to_owned());
    }
    let composing = match &s.mode {
        crate::editor::Mode::Adding(_) => true,
        crate::editor::Mode::Editing(_) => true,
        _ => false,
    };
    let mut rows: Vec<String> = Vec::new();
    let mut i: usize = 0;
    while i < n
        invariant
            i <= n,
            n == s.tasks@.len(),
            composing == composing_title(s.mode@),
            rows@.len() == i,
            forall|k: int|
                0 <= k < i ==> rows@[k]@ == row_text(
                    s@.tasks[k],
                    k == s@.cursor && composing_title(s@.mode),
                ),
        decreases n - i,
    {
        let row = build_row(&s.tasks[i], composing && i == s.cursor);
        rows.push(row);
        i += 1;
    }
    let t = &s.tasks[s.cursor];
    let mut detail = "Task: ".to_owned();
    detail.append(t.title.as_str());
    detail.append("\n\n");
    match &t.comment {
        Some(c) => {
            detail.append("Comment: ");
            detail.append(c.as_str());
        },
        None => {
            detail.append("No Comment");
        },
    }
    proof {
        assert(detail@ =~= detail_text(s@.tasks[s@.cursor]));
    }
    Frame::Panes { rows, selected: s.cursor, detail }
}

} // verus!
