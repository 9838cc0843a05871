use rustdo::cursor::{advance, clamp_after_removal, retreat};

#[test]
fn advance_steps_and_wraps() {
    assert_eq!(advance(0, 3), 1);
    assert_eq!(advance(1, 3), 2);
    assert_eq!(advance(2, 3), 0);
    assert_eq!(advance(0, 1), 0);
}

#[test]
fn retreat_steps_and_wraps() {
    assert_eq!(retreat(2, 3), 1);
    assert_eq!(retreat(1, 3), 0);
    assert_eq!(retreat(0, 3), 2);
    assert_eq!(retreat(0, 1), 0);
}

#[test]
fn empty_list_parks_cursor() {
    assert_eq!(advance(0, 0), 0);
    assert_eq!(retreat(0, 0), 0);
}

#[test]
fn clamp_steps_back_when_removal_was_at_or_before() {
    assert_eq!(clamp_after_removal(2, 2), 1);
    assert_eq!(clamp_after_removal(2, 0), 1);
    assert_eq!(clamp_after_removal(0, 0), 0);
    assert_eq!(clamp_after_removal(1, 2), 1);
}
