use rustdo::editor::{Key, Session};
use rustdo::render::{render_frame, Frame};
use rustdo::tasks::Task;

fn shown_task(title: &str, completed: bool, comment: Option<&str>) -> Task {
    Task { title: title.to_string(), completed, comment: comment.map(|c| c.to_string()) }
}

#[test]
fn empty_list_renders_prompt() {
    let s = Session::new(Vec::new());
    match render_frame(&s) {
        Frame::Prompt(p) => assert_eq!(p, "Press 'a' to start adding tasks"),
        Frame::Panes { .. } => panic!("an empty list must render the prompt"),
    }
}

#[test]
fn rows_show_glyph_and_title() {
    let s = Session::new(vec![
        shown_task("done thing", true, None),
        shown_task("open thing", false, None),
    ]);
    match render_frame(&s) {
        Frame::Panes { rows, selected, detail } => {
            assert_eq!(rows.len(), 2);
            assert_eq!(rows[0], "[\u{2713}] done thing");
            assert_eq!(rows[1], "[ ] open thing");
            assert_eq!(selected, 0);
            assert_eq!(detail, "Task: done thing\n\nNo Comment");
        },
        Frame::Prompt(_) => panic!("a non-empty list must render panes"),
    }
}

#[test]
fn detail_shows_comment() {
    let s = Session::new(vec![shown_task("a", false, Some("remember"))]);
    match render_frame(&s) {
        Frame::Panes { detail, .. } => {
            assert_eq!(detail, "Task: a\n\nComment: remember");
        },
        Frame::Prompt(_) => panic!("a non-empty list must render panes"),
    }
}

#[test]
fn composing_row_carries_caret() {
    let mut s = Session::new(Vec::new());
    let _ = s.handle_key(Key::Char('a'), false);
    let _ = s.handle_key(Key::Char('a'), false);
    let _ = s.handle_key(Key::Char('b'), false);
    match render_frame(&s) {
        Frame::Panes { rows, selected, .. } => {
            assert_eq!(rows[0], "[ ] ab_");
            assert_eq!(selected, 0);
        },
        Frame::Prompt(_) => panic!("a non-empty list must render panes"),
    }
}

#[test]
fn caret_only_on_selected_row() {
    let mut s = Session::new(vec![shown_task("first", false, None), shown_task("second", false, None)]);
    let _ = s.handle_key(Key::Char('j'), false);
    let _ = s.handle_key(Key::Char('e'), false);
    match render_frame(&s) {
        Frame::Panes { rows, selected, .. } => {
            assert_eq!(rows[0], "[ ] first");
            assert_eq!(rows[1], "[ ] second_");
            assert_eq!(selected, 1);
        },
        Frame::Prompt(_) => panic!("a non-empty list must render panes"),
    }
}
