//! The modal editor: the session state (task list, selection cursor,
//! input mode) and the state machine that interprets one key press at a
//! time. The surrounding event loop renders, waits for a key, hands it to
//! [`Session::handle_key`], and then performs the returned effect: saving
//! the list through the persistence codec, or ending the session.

use vstd::prelude::*;
use crate::cursor::{advance, advanced, clamp_after_removal, clamped_back, last_or_zero, retreat,
    retreated};
use crate::tasks::{add_task, fresh_task, list_view, remove_task, set_comment, set_title,
    swap_with_next, swapped, toggle_task, toggled, Task, TaskView};
use crate::text::{blank, is_blank};

verus! {

/// One key press, reduced to what the editor distinguishes.
#[derive(Clone, Copy)]
pub enum Key {
    Char(char),
    Backspace,
    Enter,
    Esc,
    Up,
    Down,
    Tab,
    Other,
}

/// The input mode: either navigating, or composing text into the selected
/// task's title (while adding or editing) or into its comment. The
/// composing modes carry the draft buffer.
pub enum Mode {
    Normal,
    Adding(String),
    Editing(String),
    Commenting(String),
}

/// The mathematical value of a `Mode`.
#[verifier::ext_equal]
pub enum ModeView {
    Normal,
    Adding(Seq<char>),
    Editing(Seq<char>),
    Commenting(Seq<char>),
}

impl View for Mode {
    type V = ModeView;

    open spec fn view(&self) -> ModeView {
        match self {
            Mode::Normal => ModeView::Normal,
            Mode::Adding(d) => ModeView::Adding(d@),
            Mode::Editing(d) => ModeView::Editing(d@),
            Mode::Commenting(d) => ModeView::Commenting(d@),
        }
    }
}

/// One interactive session: the list it owns, the selection cursor, and
/// the current input mode.
pub struct Session {
    pub tasks: Vec<Task>,
    pub cursor: usize,
    pub mode: Mode,
}

/// The mathematical value of a `Session`.
#[verifier::ext_equal]
pub struct SessionView {
    pub tasks: Seq<TaskView>,
    pub cursor: int,
    pub mode: ModeView,
}

impl View for Session {
    type V = SessionView;

    open spec fn view(&self) -> SessionView {
        SessionView {
            tasks: list_view(self.tasks@),
            cursor: self.cursor as int,
            mode: self.mode@,
        }
    }
}

/// What the event loop must do after a key was handled: write the list
/// through the persistence codec, end the session, or neither.
pub struct Effect {
    pub save: bool,
    pub quit: bool,
}

/// A step of the state machine: the state it leaves behind and the effect
/// it asks of the event loop.
#[verifier::ext_equal]
pub struct Step {
    pub state: SessionView,
    pub save: bool,
    pub quit: bool,
}

/// The cursor is parked at zero on an empty list and in bounds otherwise.
pub open spec fn cursor_ok(s: SessionView) -> bool {
    if s.tasks.len() == 0 {
        s.cursor == 0
    } else {
        0 <= s.cursor < s.tasks.len()
    }
}

/// The draft buffer of a composing mode mirrors the selected task: while
/// adding or editing, the selected title equals the draft (and an adding
/// session composes the freshly appended last task); while commenting,
/// the selected comment is the draft when that is non-empty and absent
/// when the draft is empty.
pub open spec fn mode_ok(s: SessionView) -> bool {
    match s.mode {
        ModeView::Normal => true,
        ModeView::Adding(d) => s.tasks.len() > 0 && s.cursor == s.tasks.len() - 1
            && s.tasks[s.cursor].title == d,
        ModeView::Editing(d) => s.tasks.len() > 0 && s.tasks[s.cursor].title == d,
        ModeView::Commenting(d) => s.tasks.len() > 0 && (if d.len() == 0 {
            s.tasks[s.cursor].comment is None
        } else {
            s.tasks[s.cursor].comment == Some(d)
        }),
    }
}

/// A well-formed session: cursor in bounds and mode mirroring the list.
pub open spec fn wf(s: SessionView) -> bool {
    cursor_ok(s) && mode_ok(s)
}

/// A step that changes nothing but the state and asks for no effect.
pub open spec fn keep(s: SessionView) -> Step {
    Step { state: s, save: false, quit: false }
}

/// A step that asks the event loop to save the list.
pub open spec fn and_save(s: SessionView) -> Step {
    Step { state: s, save: true, quit: false }
}

/// The draft of the composing mode that `adding` selects.
pub open spec fn compose_mode(adding: bool, d: Seq<char>) -> ModeView {
    if adding {
        ModeView::Adding(d)
    } else {
        ModeView::Editing(d)
    }
}

/// Entering the commenting mode: the draft is seeded with the selected
/// task's comment (empty if absent), and a present-but-empty comment is
/// collapsed to absent on entry.
pub open spec fn begin_commenting(s: SessionView) -> Step {
    if s.tasks.len() == 0 {
        keep(s)
    } else {
        let d = match s.tasks[s.cursor].comment {
            Some(c) => c,
            None => Seq::empty(),
        };
        let t2 = if d.len() == 0 {
            s.tasks.update(s.cursor, TaskView { comment: None, ..s.tasks[s.cursor] })
        } else {
            s.tasks
        };
        keep(SessionView { tasks: t2, mode: ModeView::Commenting(d), ..s })
    }
}

/// One step taken from the navigating mode.
pub open spec fn step_normal(s: SessionView, key: Key, shift: bool) -> Step {
    let n = s.tasks.len() as int;
    match key {
        Key::Char(c) => if c == 'q' {
            Step { state: s, save: false, quit: true }
        } else if c == 'j' {
            keep(SessionView { cursor: advanced(s.cursor, n), ..s })
        } else if c == 'k' {
            keep(SessionView { cursor: retreated(s.cursor, n), ..s })
        } else if c == 'J' && shift {
            if s.cursor + 1 < n {
                and_save(
                    SessionView { tasks: swapped(s.tasks, s.cursor), cursor: s.cursor + 1, ..s },
                )
            } else {
                keep(s)
            }
        } else if c == 'K' && shift {
            if n > 0 && s.cursor > 0 {
                and_save(
                    SessionView {
                        tasks: swapped(s.tasks, s.cursor - 1),
                        cursor: s.cursor - 1,
                        ..s
                    },
                )
            } else {
                keep(s)
            }
        } else if c == ' ' {
            if n > 0 {
                and_save(SessionView { tasks: toggled(s.tasks, s.cursor), ..s })
            } else {
                keep(s)
            }
        } else if c == 'a' {
            keep(
                SessionView {
                    tasks: s.tasks.push(fresh_task(Seq::empty())),
                    cursor: n,
                    mode: ModeView::Adding(Seq::empty()),
                },
            )
        } else if c == 'e' {
            if n > 0 {
                keep(SessionView { mode: ModeView::Editing(s.tasks[s.cursor].title), ..s })
            } else {
                keep(s)
            }
        } else if c == 'd' {
            if n > 0 {
                and_save(
                    SessionView {
                        tasks: s.tasks.remove(s.cursor),
                        cursor: clamped_back(s.cursor),
                        ..s
                    },
                )
            } else {
                keep(s)
            }
        } else if c == 'c' {
            begin_commenting(s)
        } else {
            keep(s)
        },
        Key::Esc => Step { state: s, save: false, quit: true },
        Key::Down => keep(SessionView { cursor: advanced(s.cursor, n), ..s }),
        Key::Up => keep(SessionView { cursor: retreated(s.cursor, n), ..s }),
        Key::Tab => begin_commenting(s),
        _ => keep(s),
    }
}

/// One step taken while composing a title (adding or editing). Characters
/// and backspace edit the draft and mirror it into the selected title; a
/// commit (enter or escape) with a blank draft discards the task and
/// parks the cursor on the last remaining entry, and with a non-blank
/// draft keeps it and asks for a save.
pub open spec fn step_compose(s: SessionView, d: Seq<char>, adding: bool, key: Key) -> Step {
    match key {
        Key::Char(c) => {
            let d2 = d.push(c);
            keep(
                SessionView {
                    tasks: s.tasks.update(
                        s.cursor,
                        TaskView { title: d2, ..s.tasks[s.cursor] },
                    ),
                    mode: compose_mode(adding, d2),
                    ..s
                },
            )
        },
        Key::Backspace => {
            let d2 = if d.len() > 0 {
                d.drop_last()
            } else {
                d
            };
            keep(
                SessionView {
                    tasks: s.tasks.update(
                        s.cursor,
                        TaskView { title: d2, ..s.tasks[s.cursor] },
                    ),
                    mode: compose_mode(adding, d2),
                    ..s
                },
            )
        },
        Key::Enter | Key::Esc => {
            if blank(d) {
                keep(
                    SessionView {
                        tasks: s.tasks.remove(s.cursor),
                        cursor: last_or_zero(s.tasks.len() - 1),
                        mode: ModeView::Normal,
                    },
                )
            } else {
                and_save(SessionView { mode: ModeView::Normal, ..s })
            }
        },
        _ => keep(s),
    }
}

/// One step taken while composing a comment. Characters and enter (a
/// literal newline) extend the draft and store it as the comment;
/// backspace shortens it, clearing the comment to absent when the draft
/// empties; escape commits, collapsing a blank draft to an absent
/// comment, and asks for a save.
pub open spec fn step_comment(s: SessionView, d: Seq<char>, key: Key) -> Step {
    match key {
        Key::Char(c) => {
            let d2 = d.push(c);
            keep(
                SessionView {
                    tasks: s.tasks.update(
                        s.cursor,
                        TaskView { comment: Some(d2), ..s.tasks[s.cursor] },
                    ),
                    mode: ModeView::Commenting(d2),
                    ..s
                },
            )
        },
        Key::Enter => {
            let d2 = d.push('\n');
            keep(
                SessionView {
                    tasks: s.tasks.update(
                        s.cursor,
                        TaskView { comment: Some(d2), ..s.tasks[s.cursor] },
                    ),
                    mode: ModeView::Commenting(d2),
                    ..s
                },
            )
        },
        Key::Backspace => {
            let d2 = if d.len() > 0 {
                d.drop_last()
            } else {
                d
            };
            let c2 = if d2.len() == 0 {
                None
            } else {
                Some(d2)
            };
            keep(
                SessionView {
                    tasks: s.tasks.update(
                        s.cursor,
                        TaskView { comment: c2, ..s.tasks[s.cursor] },
                    ),
                    mode: ModeView::Commenting(d2),
                    ..s
                },
            )
        },
        Key::Esc => {
            let t2 = if blank(d) {
                s.tasks.update(s.cursor, TaskView { comment: None, ..s.tasks[s.cursor] })
            } else {
                s.tasks
            };
            and_save(SessionView { tasks: t2, mode: ModeView::Normal, ..s })
        },
        _ => keep(s),
    }
}

/// One step of the whole state machine.
pub open spec fn step(s: SessionView, key: Key, shift: bool) -> Step {
    match s.mode {
        ModeView::Normal => step_normal(s, key, shift),
        ModeView::Adding(d) => step_compose(s, d, true, key),
        ModeView::Editing(d) => step_compose(s, d, false, key),
        ModeView::Commenting(d) => step_comment(s, d, key),
    }
}

/// Every step leaves a well-formed session behind.
pub proof fn lemma_step_wf(s: SessionView, key: Key, shift: bool)
    requires
        wf(s),
    ensures
        wf(step(s, key, shift).state),
{
}

impl Session {
    /// Opens a session on an already-loaded list: cursor on the first
    /// task (parked at zero when there is none), navigating.
    pub fn new(tasks: Vec<Task>) -> (r: Session)
        ensures
            r@ == (SessionView {
                tasks: list_view(tasks@),
                cursor: 0,
                mode: ModeView::Normal,
            }),
            wf(r@),
    {
        Session { tasks, cursor: 0, mode: Mode::Normal }
    }

    /// Decides well-formedness at run time, for callers outside the
    /// verified library: `Session::new` establishes it and `handle_key`
    /// preserves it, so this only ever guards against sessions assembled
    /// by hand.
    pub fn is_wf(&self) -> (r: bool)
        ensures
            r == wf(self@),
    {
        let n = self.tasks.len();
        let cursor_fine = if n == 0 {
            self.cursor == 0
        } else {
            self.cursor < n
        };
        if !cursor_fine {
            return false;
        }
        match &self.mode {
            Mode::Normal => true,
            Mode::Adding(d) => n > 0 && self.cursor == n - 1 && self.tasks[self.cursor].title.eq(
                d,
            ),
            Mode::Editing(d) => n > 0 && self.tasks[self.cursor].title.eq(d),
            Mode::Commenting(d) => n > 0 && (if d.as_str().unicode_len() == 0 {
                self.tasks[self.cursor].comment.is_none()
            } else {
                match &self.tasks[self.cursor].comment {
                    Some(c) => c.eq(d),
                    None => false,
                }
            }),
        }
    }

    /// Handles one key press: mutates the session exactly as the state
    /// machine `step` prescribes and returns the effect the event loop
    /// must perform.
    pub fn handle_key(&mut self, key: Key, shift: bool) -> (r: Effect)
        requires
            wf(old(self)@),
        ensures
            ({
                let st = step(old(self)@, key, shift);
                &&& final(self)@ == st.state
                &&& wf(final(self)@)
                &&& r.save == st.save
                &&& r.quit == st.quit
            }),
    {
        let ghost pre = self@;
        proof {
            lemma_step_wf(pre, key, shift);
        }
        let mut m = Mode::Normal;
        core::mem::swap(&mut m, &mut self.mode);
        match m {
            Mode::Normal => {
                proof {
                    assert(self@ =~= pre);
                }
                self.normal_key(key, shift)
            },
            Mode::Adding(d) => {
                let (m2, c2, eff) = compose_key(&mut self.tasks, self.cursor, d, true, key);
                self.mode = m2;
                self.cursor = c2;
                proof {
                    assert(self@ =~= step(pre, key, shift).state);
                }
                eff
            },
            Mode::Editing(d) => {
                let (m2, c2, eff) = compose_key(&mut self.tasks, self.cursor, d, false, key);
                self.mode = m2;
                self.cursor = c2;
                proof {
                    assert(self@ =~= step(pre, key, shift).state);
                }
                eff
            },
            Mode::Commenting(d) => {
                let (m2, c2, eff) = comment_key(&mut self.tasks, self.cursor, d, key);
                self.mode = m2;
                self.cursor = c2;
                proof {
                    assert(self@ =~= step(pre, key, shift).state);
                }
                eff
            },
        }
    }

    /// Handles one key in the navigating mode.
    fn normal_key(&mut self, key: Key, shift: bool) -> (r: Effect)
        requires
            wf(old(self)@),
            old(self)@.mode is Normal,
        ensures
            ({
                let st = step_normal(old(self)@, key, shift);
                &&& final(self)@ == st.state
                &&& r.save == st.save
                &&& r.quit == st.quit
            }),
    {
        let ghost pre = self@;
        match key {
            Key::Char(c) => {
                if c == 'q' {
                    Effect { save: false, quit: true }
                } else if c == 'j' {
                    self.cursor = advance(self.cursor, self.tasks.len());
                    proof {
                        assert(self@ =~= step_normal(pre, key, shift).state);
                    }
                    Effect { save: false, quit: false }
                } else if c == 'k' {
                    self.cursor = retreat(self.cursor, self.tasks.len());
                    proof {
                        assert(self@ =~= step_normal(pre, key, shift).state);
                    }
                    Effect { save: false, quit: false }
                } else if c == 'J' && shift {
                    let n = self.tasks.len();
                    if self.cursor + 1 < n {
                        swap_with_next(&mut self.tasks, self.cursor);
                        self.cursor = self.cursor + 1;
                        proof {
                            assert(self@ =~= step_normal(pre, key, shift).state);
                        }
                        Effect { save: true, quit: false }
                    } else {
                        Effect { save: false, quit: false }
                    }
                } else if c == 'K' && shift {
                    if self.tasks.len() > 0 && self.cursor > 0 {
                        swap_with_next(&mut self.tasks, self.cursor - 1);
                        self.cursor = self.cursor - 1;
                        proof {
                            assert(self@ =~= step_normal(pre, key, shift).state);
                        }
                        Effect { save: true, quit: false }
                    } else {
                        Effect { save: false, quit: false }
                    }
                } else if c == ' ' {
                    if self.tasks.len() > 0 {
                        toggle_task(&mut self.tasks, self.cursor);
                        proof {
                            assert(self@ =~= step_normal(pre, key, shift).state);
                        }
                        Effect { save: true, quit: false }
                    } else {
                        Effect { save: false, quit: false }
                    }
                } else if c == 'a' {
                    add_task(&mut self.tasks, String::new());
                    proof {
                        assert(self.tasks@.len() == list_view(self.tasks@).len());
                    }
                    self.cursor = self.tasks.len() - 1;
                    self.mode = Mode::Adding(String::new());
                    proof {
                        assert(self@ =~= step_normal(pre, key, shift).state);
                    }
                    Effect { save: false, quit: false }
                } else if c == 'e' {
                    if self.tasks.len() > 0 {
                        let seed = self.tasks[self.cursor].title.clone();
                        self.mode = Mode::Editing(seed);
                        proof {
                            assert(self@ =~= step_normal(pre, key, shift).state);
                        }
                    }
                    Effect { save: false, quit: false }
                } else if c == 'd' {
                    if self.tasks.len() > 0 {
                        remove_task(&mut self.tasks, self.cursor);
                        self.cursor = clamp_after_removal(self.cursor, self.cursor);
                        proof {
                            assert(self@ =~= step_normal(pre, key, shift).state);
                        }
                        Effect { save: true, quit: false }
                    } else {
                        Effect { save: false, quit: false }
                    }
                } else if c == 'c' {
                    self.enter_commenting();
                    Effect { save: false, quit: false }
                } else {
                    Effect { save: false, quit: false }
                }
            },
            Key::Esc => Effect { save: false, quit: true },
            Key::Down => {
                self.cursor = advance(self.cursor, self.tasks.len());
                proof {
                    assert(self@ =~= step_normal(pre, key, shift).state);
                }
                Effect { save: false, quit: false }
            },
            Key::Up => {
                self.cursor = retreat(self.cursor, self.tasks.len());
                proof {
                    assert(self@ =~= step_normal(pre, key, shift).state);
                }
                Effect { save: false, quit: false }
            },
            Key::Tab => {
                self.enter_commenting();
                Effect { save: false, quit: false }
            },
            _ => Effect { save: false, quit: false },
        }
    }

    /// Switches into the commenting mode as `begin_commenting` prescribes.
    fn enter_commenting(&mut self)
        requires
            wf(old(self)@),
            old(self)@.mode is Normal,
        ensures
            final(self)@ == begin_commenting(old(self)@).state,
    {
        let ghost pre = self@;
        if self.tasks.len() > 0 {
            let seed = match &self.tasks[self.cursor].comment {
                Some(c) => c.clone(),
                None => String::new(),
            };
            if seed.as_str().unicode_len() == 0 {
                set_comment(&mut self.tasks, self.cursor, None);
            }
            self.mode = Mode::Commenting(seed);
            proof {
                assert(self@ =~= begin_commenting(pre).state);
            }
        }
    }
}

/// The composing mode that `adding` selects, carrying the given draft.
fn make_compose_mode(adding: bool, d: String) -> (r: Mode)
    ensures
        r@ == compose_mode(adding, d@),
{
    if adding {
        Mode::Adding(d)
    } else {
        Mode::Editing(d)
    }
}

/// Handles one key while composing a title; returns the next mode, the
/// next cursor and the effect.
fn compose_key(tasks: &mut Vec<Task>, cursor: usize, d: String, adding: bool, key: Key) -> (r: (
    Mode,
    usize,
    Effect,
))
    requires
        wf(
            (SessionView {
                tasks: list_view(old(tasks)@),
                cursor: cursor as int,
                mode: compose_mode(adding, d@),
            }),
        ),
    ensures
        ({
            let pre = SessionView {
                tasks: list_view(old(tasks)@),
                cursor: cursor as int,
                mode: compose_mode(adding, d@),
            };
            let st = step_compose(pre, d@, adding, key);
            &&& list_view(final(tasks)@) == st.state.tasks
            &&& r.0@ == st.state.mode
            &&& r.1 as int == st.state.cursor
            &&& r.2.save == st.save
            &&& r.2.quit == st.quit
        }),
{
    let ghost pre = SessionView {
        tasks: list_view(tasks@),
        cursor: cursor as int,
        mode: compose_mode(adding, d@),
    };
    let ghost d0 = d@;
    match key {
        Key::Char(c) => {
            let mut d2 = d;
            d2.push(c);
            set_title(tasks, cursor, d2.clone());
            proof {
                assert(list_view(tasks@) =~= step_compose(pre, d0, adding, key).state.tasks);
            }
            (make_compose_mode(adding, d2), cursor, Effect { save: false, quit: false })
        },
        Key::Backspace => {
            let mut d2 = d;
            d2.pop();
            set_title(tasks, cursor, d2.clone());
            proof {
                assert(list_view(tasks@) =~= step_compose(pre, d0, adding, key).state.tasks);
            }
            (make_compose_mode(adding, d2), cursor, Effect { save: false, quit: false })
        },
        Key::Enter | Key::Esc => {
            if is_blank(&d) {
                remove_task(tasks, cursor);
                proof {
                    assert(list_view(tasks@) =~= step_compose(pre, d0, adding, key).state.tasks);
                    assert(tasks@.len() == list_view(tasks@).len());
                }
                let n = tasks.len();
                let c2 = if n > 0 {
                    n - 1
                } else {
                    0
                };
                (Mode::Normal, c2, Effect { save: false, quit: false })
            } else {
                (Mode::Normal, cursor, Effect { save: true, quit: false })
            }
        },
        _ => (make_compose_mode(adding, d), cursor, Effect { save: false, quit: false }),
    }
}

/// Handles one key while composing a comment; returns the next mode, the
/// next cursor and the effect.
fn comment_key(tasks: &mut Vec<Task>, cursor: usize, d: String, key: Key) -> (r: (
    Mode,
    usize,
    Effect,
))
    requires
        wf(
            (SessionView {
                tasks: list_view(old(tasks)@),
                cursor: cursor as int,
                mode: ModeView::Commenting(d@),
            }),
        ),
    ensures
        ({
            let pre = SessionView {
                tasks: list_view(old(tasks)@),
                cursor: cursor as int,
                mode: ModeView::Commenting(d@),
            };
            let st = step_comment(pre, d@, key);
            &&& list_view(final(tasks)@) == st.state.tasks
            &&& r.0@ == st.state.mode
            &&& r.1 as int == st.state.cursor
            &&& r.2.save == st.save
            &&& r.2.quit == st.quit
        }),
{
    match key {
        Key::Char(c) => {
            let mut d2 = d;
            d2.push(c);
            set_comment(tasks, cursor, Some(d2.clone()));
            (Mode::Commenting(d2), cursor, Effect { save: false, quit: false })
        },
        Key::Enter => {
            let mut d2 = d;
            d2.push('\n');
            set_comment(tasks, cursor, Some(d2.clone()));
            (Mode::Commenting(d2), cursor, Effect { save: false, quit: false })
        },
        Key::Backspace => {
            let mut d2 = d;
            d2.pop();
            if d2.as_str().unicode_len() == 0 {
                set_comment(tasks, cursor, None);
            } else {
                set_comment(tasks, cursor, Some(d2.clone()));
            }
            (Mode::Commenting(d2), cursor, Effect { save: false, quit: false })
        },
        Key::Esc => {
            if is_blank(&d) {
                set_comment(tasks, cursor, None);
            }
            (Mode::Normal, cursor, Effect { save: true, quit: false })
        },
        _ => (Mode::Commenting(d), cursor, Effect { save: false, quit: false }),
    }
}

} // verus!
