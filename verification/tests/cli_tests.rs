use rustdo::cli::{get_task_index, parse_number};
use rustdo::tasks::Task;

fn cli_task(title: &str) -> Task {
    Task { title: title.to_string(), completed: false, comment: None }
}

fn args_of(parts: &[&str]) -> Vec<String> {
    parts.iter().map(|p| p.to_string()).collect()
}

#[test]
fn parse_number_reads_digits() {
    assert_eq!(parse_number("0"), Some(0));
    assert_eq!(parse_number("42"), Some(42));
    assert_eq!(parse_number("007"), Some(7));
}

#[test]
fn parse_number_accepts_leading_plus() {
    assert_eq!(parse_number("+2"), Some(2));
    assert_eq!(parse_number("+0"), Some(0));
}

#[test]
fn parse_number_rejects_non_digits() {
    assert_eq!(parse_number(""), None);
    assert_eq!(parse_number("12a"), None);
    assert_eq!(parse_number("-3"), None);
    assert_eq!(parse_number(" 1"), None);
    assert_eq!(parse_number("+"), None);
    assert_eq!(parse_number("++1"), None);
    assert_eq!(parse_number("1+2"), None);
}

#[test]
fn parse_number_rejects_overflow() {
    assert_eq!(parse_number("99999999999999999999999999999999"), None);
}

#[test]
fn task_index_needs_an_argument() {
    let todos = vec![cli_task("a")];
    let r = get_task_index(&args_of(&["todo", "remove"]), &todos);
    assert_eq!(r, Err("Please provide a task number".to_string()));
}

#[test]
fn task_index_needs_a_number() {
    let todos = vec![cli_task("a")];
    let r = get_task_index(&args_of(&["todo", "remove", "first"]), &todos);
    assert_eq!(r, Err("Please provide a valid task number.".to_string()));
}

#[test]
fn task_index_rejects_out_of_range() {
    let todos = vec![cli_task("a"), cli_task("b")];
    let message = "Invalid task number. use 'list' to see available tasks.";
    let r = get_task_index(&args_of(&["todo", "done", "0"]), &todos);
    assert_eq!(r, Err(message.to_string()));
    let r = get_task_index(&args_of(&["todo", "done", "3"]), &todos);
    assert_eq!(r, Err(message.to_string()));
}

#[test]
fn task_index_is_zero_based() {
    let todos = vec![cli_task("a"), cli_task("b")];
    assert_eq!(get_task_index(&args_of(&["todo", "done", "1"]), &todos), Ok(0));
    assert_eq!(get_task_index(&args_of(&["todo", "done", "2"]), &todos), Ok(1));
}

#[test]
fn task_index_accepts_signed_numeral() {
    let todos = vec![cli_task("a"), cli_task("b"), cli_task("c")];
    assert_eq!(get_task_index(&args_of(&["todo", "done", "+2"]), &todos), Ok(1));
}
