use task_manager::domain::entity::task::{Task, TaskBody, TaskId, TaskStatus};
use task_manager::domain::error::DomainError;

fn validation_text<T>(outcome: Result<T, DomainError>) -> String {
    match outcome {
        Err(DomainError::Validation(text)) => text,
        Err(other) => panic!("expected a validation failure, got {:?}", other),
        Ok(_) => panic!("expected a validation failure, got a value"),
    }
}

#[test]
fn id_round_trips_through_as_str() {
    let id = TaskId::new(String::from("task-1")).unwrap();
    assert_eq!(id.as_str(), "task-1");
}

#[test]
fn id_round_trips_through_into_string() {
    let id = TaskId::new(String::from("task 1")).unwrap();
    assert_eq!(id.into_string(), String::from("task 1"));
}

#[test]
fn id_keeps_surrounding_white_space() {
    let id = TaskId::new(String::from("  a ")).unwrap();
    assert_eq!(id.as_str(), "  a ");
}

#[test]
fn id_of_one_character_is_accepted() {
    assert_eq!(TaskId::new(String::from("x")).unwrap().as_str(), "x");
}

#[test]
fn empty_id_is_rejected() {
    let text = validation_text(TaskId::new(String::new()));
    assert!(text.starts_with("value: Validation error: blank ["));
    assert!(text.contains("\"min\": Number(1)"));
    assert!(text.contains("\"value\": String(\"\")"));
}

#[test]
fn id_of_spaces_is_rejected() {
    validation_text(TaskId::new(String::from("   ")));
}

#[test]
fn id_of_tabs_and_line_breaks_is_rejected() {
    validation_text(TaskId::new(String::from("\t\n\r\u{b}\u{c}")));
}

#[test]
fn id_of_unicode_white_space_is_rejected() {
    let blanks = "\u{85}\u{a0}\u{1680}\u{2000}\u{2005}\u{200a}\u{2028}\u{2029}\u{202f}\u{205f}\u{3000}";
    validation_text(TaskId::new(String::from(blanks)));
}

#[test]
fn white_space_rule_agrees_with_the_standard_library() {
    let mut code: u32 = 0;
    while code <= 0x10FFFF {
        if let Some(c) = char::from_u32(code) {
            let accepted = TaskId::new(c.to_string()).is_ok();
            assert_eq!(accepted, !c.is_whitespace(), "U+{:04X}", code);
        }
        code += 1;
    }
}

#[test]
fn zero_width_space_is_a_visible_character() {
    assert!(TaskId::new(String::from("\u{200b}")).is_ok());
}

#[test]
fn body_accepts_any_text() {
    assert_eq!(TaskBody::new(String::new()).unwrap().as_str(), "");
    assert_eq!(TaskBody::new(String::from("description")).unwrap().as_str(), "description");
    let long = "x".repeat(10_000);
    assert_eq!(TaskBody::new(long.clone()).unwrap().into_string(), long);
}

#[test]
fn status_of_two_characters_is_accepted() {
    let status = TaskStatus::new(String::from("05")).unwrap();
    assert_eq!(status.as_str(), "05");
    assert_eq!(status.into_string(), String::from("05"));
}

#[test]
fn status_of_one_character_is_accepted() {
    assert_eq!(TaskStatus::new(String::from("1")).unwrap().as_str(), "1");
}

#[test]
fn empty_status_is_accepted() {
    assert_eq!(TaskStatus::new(String::new()).unwrap().as_str(), "");
}

#[test]
fn status_of_three_characters_is_rejected() {
    let text = validation_text(TaskStatus::new(String::from("abc")));
    assert!(text.starts_with("value: Validation error: length ["));
    assert!(text.contains("\"max\": Number(2)"));
    assert!(text.contains("\"value\": String(\"abc\")"));
}

#[test]
fn long_status_is_rejected() {
    validation_text(TaskStatus::new(String::from("in progress")));
}

#[test]
fn status_length_counts_characters_not_bytes() {
    let two = String::from("日本");
    assert_eq!(two.len(), 6);
    assert_eq!(TaskStatus::new(two).unwrap().as_str(), "日本");
    validation_text(TaskStatus::new(String::from("日本語")));
}

#[test]
fn status_limit_is_two() {
    assert_eq!(TaskStatus::MAX_LENGTH, 2);
}

#[test]
fn task_keeps_its_parts() {
    let id = TaskId::new(String::from("task 1")).unwrap();
    let body = TaskBody::new(String::from("description")).unwrap();
    let status = TaskStatus::new(String::from("05")).unwrap();
    let task = Task::new(id.clone(), body.clone(), status.clone());
    assert_eq!(task.id, id);
    assert_eq!(task.body, body);
    assert_eq!(task.status, status);
}

#[test]
fn clone_is_equal_to_the_task_cloned() {
    let id = TaskId::new(String::from("task 1")).unwrap();
    let body = TaskBody::new(String::from("description")).unwrap();
    let status = TaskStatus::new(String::from("05")).unwrap();
    let task = Task::new(id, body, status);
    assert_eq!(task.clone(), task);
}

#[test]
fn identifiers_are_ordered_character_by_character() {
    let id = |text: &str| TaskId::new(String::from(text)).unwrap();
    assert!(id("a").precedes(&id("b")));
    assert!(!id("b").precedes(&id("a")));
    assert!(id("a").precedes(&id("ab")));
    assert!(!id("ab").precedes(&id("a")));
    assert!(!id("ab").precedes(&id("ab")));
    assert!(id("task-1").precedes(&id("task-2")));
    assert!(id("task-10").precedes(&id("task-2")));
    assert!(id("Z").precedes(&id("a")));
    assert!(id("z").precedes(&id("é")));
    assert!(id("\u{ffff}").precedes(&id("\u{10000}")));
}

#[test]
fn identifier_order_agrees_with_string_order() {
    let texts = ["a", "ab", "abc", "b", "B", "task 1", "task-1", "é", "日本", "\u{10000}", "~"];
    for left in texts {
        for right in texts {
            let l = TaskId::new(String::from(left)).unwrap();
            let r = TaskId::new(String::from(right)).unwrap();
            assert_eq!(l.precedes(&r), left < right, "{:?} before {:?}", left, right);
            assert_eq!(l.same(&r), left == right);
        }
    }
}
