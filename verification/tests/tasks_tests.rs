use rustdo::tasks::{add_task, clear_completed, move_task, remove_task, swap_with_next,
    toggle_task, Task};

fn list_task(title: &str, completed: bool) -> Task {
    Task { title: title.to_string(), completed, comment: None }
}

fn titles(tasks: &[Task]) -> Vec<String> {
    tasks.iter().map(|t| t.title.clone()).collect()
}

#[test]
fn add_appends_fresh_task() {
    let mut tasks = vec![list_task("a", true)];
    add_task(&mut tasks, "b".to_string());
    assert_eq!(tasks.len(), 2);
    assert_eq!(tasks[1].title, "b");
    assert!(!tasks[1].completed);
    assert!(tasks[1].comment.is_none());
}

#[test]
fn remove_returns_and_shifts() {
    let mut tasks = vec![list_task("a", false), list_task("b", true), list_task("c", false)];
    let gone = remove_task(&mut tasks, 1);
    assert_eq!(gone.title, "b");
    assert_eq!(titles(&tasks), vec!["a".to_string(), "c".to_string()]);
}

#[test]
fn toggle_flips_only_the_target() {
    let mut tasks = vec![list_task("a", false), list_task("b", false)];
    toggle_task(&mut tasks, 1);
    assert!(!tasks[0].completed);
    assert!(tasks[1].completed);
    toggle_task(&mut tasks, 1);
    assert!(!tasks[1].completed);
}

#[test]
fn toggle_out_of_range_is_noop() {
    let mut tasks = vec![list_task("a", false)];
    toggle_task(&mut tasks, 5);
    assert_eq!(tasks.len(), 1);
    assert!(!tasks[0].completed);
}

#[test]
fn move_reinserts_at_target() {
    let mut tasks = vec![list_task("a", false), list_task("b", false), list_task("c", false)];
    move_task(&mut tasks, 0, 2);
    assert_eq!(
        titles(&tasks),
        vec!["b".to_string(), "c".to_string(), "a".to_string()]
    );
}

#[test]
fn swap_exchanges_neighbours() {
    let mut tasks = vec![list_task("a", false), list_task("b", true)];
    swap_with_next(&mut tasks, 0);
    assert_eq!(titles(&tasks), vec!["b".to_string(), "a".to_string()]);
    assert!(tasks[0].completed);
}

#[test]
fn clear_keeps_incomplete_in_order() {
    let mut tasks = vec![
        list_task("a", true),
        list_task("b", false),
        list_task("c", true),
        list_task("d", false),
    ];
    clear_completed(&mut tasks);
    assert_eq!(titles(&tasks), vec!["b".to_string(), "d".to_string()]);
}

#[test]
fn clear_on_all_completed_empties() {
    let mut tasks = vec![list_task("a", true)];
    clear_completed(&mut tasks);
    assert!(tasks.is_empty());
}
