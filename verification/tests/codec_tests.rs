use rustdo::codec::{parse_tasks, render_tasks};
use rustdo::tasks::Task;

fn codec_task(title: &str, completed: bool, comment: Option<&str>) -> Task {
    Task { title: title.to_string(), completed, comment: comment.map(|c| c.to_string()) }
}

fn assert_same_tasks(a: &[Task], b: &[Task]) {
    assert_eq!(a.len(), b.len());
    for (x, y) in a.iter().zip(b.iter()) {
        assert_eq!(x.title, y.title);
        assert_eq!(x.completed, y.completed);
        assert_eq!(x.comment, y.comment);
    }
}

#[test]
fn render_empty_list() {
    let tasks: Vec<Task> = Vec::new();
    assert_eq!(render_tasks(&tasks), "[]");
}

#[test]
fn render_exact_text() {
    let tasks = vec![codec_task("Buy milk", false, None)];
    assert_eq!(render_tasks(&tasks), "[{\"title\":\"Buy milk\",\"completed\":false}]");
}

#[test]
fn render_with_comment_and_flag() {
    let tasks = vec![codec_task("x", true, Some("see notes"))];
    assert_eq!(
        render_tasks(&tasks),
        "[{\"title\":\"x\",\"completed\":true,\"comment\":\"see notes\"}]"
    );
}

#[test]
fn render_escapes_quotes_and_backslashes() {
    let tasks = vec![codec_task("a\"b\\c", false, None)];
    assert_eq!(render_tasks(&tasks), "[{\"title\":\"a\\\"b\\\\c\",\"completed\":false}]");
}

#[test]
fn parse_empty_list() {
    let parsed = parse_tasks("[]").expect("empty list should parse");
    assert!(parsed.is_empty());
}

#[test]
fn parse_exact_text() {
    let parsed = parse_tasks("[{\"title\":\"a\",\"completed\":true},{\"title\":\"b\",\"completed\":false,\"comment\":\"c\"}]")
        .expect("list should parse");
    assert_same_tasks(
        &parsed,
        &[codec_task("a", true, None), codec_task("b", false, Some("c"))],
    );
}

#[test]
fn round_trip_plain() {
    let tasks = vec![
        codec_task("first", false, None),
        codec_task("second", true, Some("why not")),
        codec_task("third", false, Some("")),
    ];
    let text = render_tasks(&tasks);
    let parsed = parse_tasks(&text).expect("rendered list should parse");
    assert_same_tasks(&parsed, &tasks);
}

#[test]
fn round_trip_special_characters() {
    let tasks = vec![
        codec_task("say \"hi\"", false, Some("a\\b")),
        codec_task("multi", true, Some("line one\nline two")),
        codec_task("brackets [,] {}", false, None),
    ];
    let text = render_tasks(&tasks);
    let parsed = parse_tasks(&text).expect("rendered list should parse");
    assert_same_tasks(&parsed, &tasks);
}

#[test]
fn round_trip_keeps_comment_presence() {
    let tasks = vec![codec_task("no comment", false, None)];
    let parsed = parse_tasks(&render_tasks(&tasks)).expect("should parse");
    assert!(parsed[0].comment.is_none());
}

#[test]
fn parse_rejects_malformed_text() {
    assert!(parse_tasks("").is_none());
    assert!(parse_tasks("not a list").is_none());
    assert!(parse_tasks("[").is_none());
    assert!(parse_tasks("[]trailing").is_none());
    assert!(parse_tasks("[{\"title\":\"a\",\"completed\":false}").is_none());
    assert!(parse_tasks("[{\"title\":\"a\",\"completed\":maybe}]").is_none());
    assert!(parse_tasks("[{\"title\":\"a\"}]").is_none());
    assert!(parse_tasks("[{\"title\":\"unterminated,\"completed\":false}]").is_none());
}
