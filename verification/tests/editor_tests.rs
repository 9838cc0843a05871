use rustdo::editor::{Key, Mode, Session};
use rustdo::tasks::Task;

fn plain_task(title: &str) -> Task {
    Task { title: title.to_string(), completed: false, comment: None }
}

fn commented_task(title: &str, comment: &str) -> Task {
    Task { title: title.to_string(), completed: false, comment: Some(comment.to_string()) }
}

#[test]
fn add_first_task_scenario() {
    let mut s = Session::new(Vec::new());
    let eff = s.handle_key(Key::Char('a'), false);
    assert!(!eff.save && !eff.quit);
    assert!(matches!(s.mode, Mode::Adding(_)));
    for c in "Buy milk".chars() {
        let _ = s.handle_key(Key::Char(c), false);
    }
    let eff = s.handle_key(Key::Enter, false);
    assert!(eff.save && !eff.quit);
    assert_eq!(s.tasks.len(), 1);
    assert_eq!(s.tasks[0].title, "Buy milk");
    assert!(!s.tasks[0].completed);
    assert!(s.tasks[0].comment.is_none());
    assert!(matches!(s.mode, Mode::Normal));
}

#[test]
fn toggle_and_swap_down_scenario() {
    let mut s = Session::new(vec![plain_task("A"), plain_task("B")]);
    let eff = s.handle_key(Key::Char(' '), false);
    assert!(eff.save);
    let eff = s.handle_key(Key::Char('J'), true);
    assert!(eff.save);
    assert_eq!(s.tasks[0].title, "B");
    assert!(!s.tasks[0].completed);
    assert_eq!(s.tasks[1].title, "A");
    assert!(s.tasks[1].completed);
    assert_eq!(s.cursor, 1);
}

#[test]
fn edit_to_empty_removes_task() {
    let mut s = Session::new(vec![plain_task("A")]);
    let _ = s.handle_key(Key::Char('e'), false);
    assert!(matches!(&s.mode, Mode::Editing(d) if d == "A"));
    for _ in 0..3 {
        let _ = s.handle_key(Key::Backspace, false);
    }
    let _ = s.handle_key(Key::Enter, false);
    assert!(s.tasks.is_empty());
    assert_eq!(s.cursor, 0);
    assert!(matches!(s.mode, Mode::Normal));
}

#[test]
fn cancel_adding_blank_draft_keeps_length() {
    let mut s = Session::new(vec![plain_task("keep me")]);
    let _ = s.handle_key(Key::Char('a'), false);
    assert_eq!(s.tasks.len(), 2);
    for c in "   ".chars() {
        let _ = s.handle_key(Key::Char(c), false);
    }
    let eff = s.handle_key(Key::Esc, false);
    assert!(!eff.save);
    assert_eq!(s.tasks.len(), 1);
    assert_eq!(s.tasks[0].title, "keep me");
    assert_eq!(s.cursor, 0);
    assert!(matches!(s.mode, Mode::Normal));
}

#[test]
fn blank_covers_unicode_whitespace() {
    assert!(rustdo::text::is_blank(&"\u{a0}\u{3000}\t \u{2028}".to_string()));
    assert!(rustdo::text::is_blank(&"".to_string()));
    assert!(!rustdo::text::is_blank(&" x ".to_string()));
}

#[test]
fn cancel_adding_unicode_whitespace_draft() {
    let mut s = Session::new(Vec::new());
    let _ = s.handle_key(Key::Char('a'), false);
    let _ = s.handle_key(Key::Char('\u{a0}'), false);
    let _ = s.handle_key(Key::Char('\u{2009}'), false);
    let _ = s.handle_key(Key::Enter, false);
    assert!(s.tasks.is_empty());
    assert!(matches!(s.mode, Mode::Normal));
}

#[test]
fn edit_to_blank_removes_task_too() {
    let mut s = Session::new(vec![plain_task("first"), plain_task("second")]);
    let _ = s.handle_key(Key::Char('e'), false);
    for _ in 0..5 {
        let _ = s.handle_key(Key::Backspace, false);
    }
    let _ = s.handle_key(Key::Char(' '), false);
    let _ = s.handle_key(Key::Esc, false);
    assert_eq!(s.tasks.len(), 1);
    assert_eq!(s.tasks[0].title, "second");
    assert_eq!(s.cursor, 0);
}

#[test]
fn toggle_twice_restores_flag() {
    let mut s = Session::new(vec![plain_task("A")]);
    let _ = s.handle_key(Key::Char(' '), false);
    assert!(s.tasks[0].completed);
    let _ = s.handle_key(Key::Char(' '), false);
    assert!(!s.tasks[0].completed);
}

#[test]
fn move_first_up_is_noop() {
    let mut s = Session::new(vec![plain_task("A"), plain_task("B")]);
    let eff = s.handle_key(Key::Char('K'), true);
    assert!(!eff.save);
    assert_eq!(s.tasks[0].title, "A");
    assert_eq!(s.tasks[1].title, "B");
    assert_eq!(s.cursor, 0);
}

#[test]
fn move_last_down_is_noop() {
    let mut s = Session::new(vec![plain_task("A"), plain_task("B")]);
    let _ = s.handle_key(Key::Char('j'), false);
    assert_eq!(s.cursor, 1);
    let eff = s.handle_key(Key::Char('J'), true);
    assert!(!eff.save);
    assert_eq!(s.tasks[0].title, "A");
    assert_eq!(s.tasks[1].title, "B");
    assert_eq!(s.cursor, 1);
}

#[test]
fn navigation_wraps_both_ways() {
    let mut s = Session::new(vec![plain_task("A"), plain_task("B"), plain_task("C")]);
    let _ = s.handle_key(Key::Char('k'), false);
    assert_eq!(s.cursor, 2);
    let _ = s.handle_key(Key::Char('j'), false);
    assert_eq!(s.cursor, 0);
    let _ = s.handle_key(Key::Down, false);
    assert_eq!(s.cursor, 1);
    let _ = s.handle_key(Key::Up, false);
    assert_eq!(s.cursor, 0);
}

#[test]
fn navigation_on_empty_list_is_noop() {
    let mut s = Session::new(Vec::new());
    let _ = s.handle_key(Key::Char('j'), false);
    assert_eq!(s.cursor, 0);
    let _ = s.handle_key(Key::Char('k'), false);
    assert_eq!(s.cursor, 0);
    assert!(matches!(s.mode, Mode::Normal));
}

#[test]
fn delete_clamps_cursor() {
    let mut s = Session::new(vec![plain_task("A"), plain_task("B")]);
    let _ = s.handle_key(Key::Char('j'), false);
    assert_eq!(s.cursor, 1);
    let eff = s.handle_key(Key::Char('d'), false);
    assert!(eff.save);
    assert_eq!(s.tasks.len(), 1);
    assert_eq!(s.tasks[0].title, "A");
    assert_eq!(s.cursor, 0);
}

#[test]
fn backspace_clears_comment_to_absent() {
    let mut s = Session::new(vec![commented_task("A", "x")]);
    let _ = s.handle_key(Key::Char('c'), false);
    assert!(matches!(&s.mode, Mode::Commenting(d) if d == "x"));
    let _ = s.handle_key(Key::Backspace, false);
    assert!(s.tasks[0].comment.is_none());
    let _ = s.handle_key(Key::Esc, false);
    assert!(s.tasks[0].comment.is_none());
    assert!(matches!(s.mode, Mode::Normal));
}

#[test]
fn comment_newline_and_commit() {
    let mut s = Session::new(vec![plain_task("A")]);
    let _ = s.handle_key(Key::Tab, false);
    for c in "line1".chars() {
        let _ = s.handle_key(Key::Char(c), false);
    }
    let _ = s.handle_key(Key::Enter, false);
    for c in "line2".chars() {
        let _ = s.handle_key(Key::Char(c), false);
    }
    let eff = s.handle_key(Key::Esc, false);
    assert!(eff.save);
    assert_eq!(s.tasks[0].comment.as_deref(), Some("line1\nline2"));
}

#[test]
fn commenting_blank_draft_clears_on_escape() {
    let mut s = Session::new(vec![plain_task("A")]);
    let _ = s.handle_key(Key::Char('c'), false);
    let _ = s.handle_key(Key::Char(' '), false);
    assert_eq!(s.tasks[0].comment.as_deref(), Some(" "));
    let eff = s.handle_key(Key::Esc, false);
    assert!(eff.save);
    assert!(s.tasks[0].comment.is_none());
}

#[test]
fn quit_keys_only_in_normal_mode() {
    let mut s = Session::new(vec![plain_task("A")]);
    let eff = s.handle_key(Key::Char('q'), false);
    assert!(eff.quit);
    let eff = s.handle_key(Key::Esc, false);
    assert!(eff.quit);
    let _ = s.handle_key(Key::Char('e'), false);
    let eff = s.handle_key(Key::Char('q'), false);
    assert!(!eff.quit);
    assert!(matches!(&s.mode, Mode::Editing(d) if d == "Aq"));
}

#[test]
fn adding_mirrors_draft_into_list() {
    let mut s = Session::new(Vec::new());
    let _ = s.handle_key(Key::Char('a'), false);
    let _ = s.handle_key(Key::Char('h'), false);
    let _ = s.handle_key(Key::Char('i'), false);
    assert_eq!(s.tasks[0].title, "hi");
    let _ = s.handle_key(Key::Backspace, false);
    assert_eq!(s.tasks[0].title, "h");
}

#[test]
fn session_is_wf_through_keys() {
    let mut s = Session::new(vec![plain_task("A")]);
    assert!(s.is_wf());
    let _ = s.handle_key(Key::Char('e'), false);
    assert!(s.is_wf());
    let broken = Session { tasks: Vec::new(), cursor: 3, mode: Mode::Normal };
    assert!(!broken.is_wf());
}
