use todo_core::collection::{Collection, CompleteOutcome, DeleteOutcome, ValidationError};
use todo_core::dispatch::{dispatch, Command, Output};
use todo_core::store::{load, save_doc};
use todo_core::types::{Priority, Timestamp};

fn ts(minute: u32) -> Timestamp {
    Timestamp { year: 2024, month: 1, day: 15, hour: 10, minute, second: 0 }
}

fn fresh() -> Collection {
    load(None, String::from("todos.json"))
}

#[test]
fn add_then_list_shows_the_item() {
    let mut c = fresh();
    let r = c.add(String::from("Learn"), None, None, Vec::new(), ts(0));
    assert_eq!(r, Ok(1));
    assert_eq!(c.items.len(), 1);
    assert_eq!(c.items[0].id, 1);
    assert_eq!(c.items[0].title, "Learn");
    assert!(!c.items[0].completed);
    assert_eq!(c.items[0].priority, Priority::Low);
    let listed = c.list(false, None, None);
    assert_eq!(listed.len(), 1);
    assert_eq!(listed[0].id, 1);
    assert_eq!(listed[0].title, "Learn");
}

#[test]
fn add_with_priority_due_and_tags() {
    let mut c = fresh();
    let prio = String::from("high");
    let due = String::from("2024-02-01");
    let tags = vec![String::from("work"), String::from("oss")];
    let r = c.add(String::from("Urgent"), Some(&prio), Some(&due), tags, ts(0));
    assert_eq!(r, Ok(1));
    let it = &c.items[0];
    assert_eq!(it.priority, Priority::High);
    let d = it.due_date.unwrap();
    assert_eq!((d.year, d.month, d.day), (2024, 2, 1));
    assert_eq!(it.categories, vec![String::from("work"), String::from("oss")]);
}

#[test]
fn complete_then_list_completed() {
    let mut c = fresh();
    c.add(String::from("A"), None, None, Vec::new(), ts(0)).unwrap();
    c.add(String::from("B"), None, None, Vec::new(), ts(1)).unwrap();
    let out = c.complete(1, ts(2));
    match out {
        CompleteOutcome::Completed { title } => assert_eq!(title, "A"),
        _ => panic!("expected completion"),
    }
    let done = c.list(true, None, None);
    assert_eq!(done.len(), 1);
    assert_eq!(done[0].id, 1);
    assert_eq!(done[0].title, "A");
    let stamp = done[0].completed_at.unwrap();
    assert_eq!((stamp.year, stamp.month, stamp.day), (2024, 1, 15));
    assert_eq!((stamp.hour, stamp.minute, stamp.second), (10, 2, 0));
}

#[test]
fn delete_does_not_reuse_ids() {
    let mut c = fresh();
    c.add(String::from("A"), None, None, Vec::new(), ts(0)).unwrap();
    c.add(String::from("B"), None, None, Vec::new(), ts(1)).unwrap();
    let out = c.delete(1);
    match out {
        DeleteOutcome::Deleted { title } => assert_eq!(title, "A"),
        _ => panic!("expected deletion"),
    }
    c.add(String::from("C"), None, None, Vec::new(), ts(3)).unwrap();
    let listed = c.list(false, None, None);
    assert_eq!(listed.len(), 2);
    assert_eq!((listed[0].id, listed[0].title.as_str()), (2, "B"));
    assert_eq!((listed[1].id, listed[1].title.as_str()), (3, "C"));
}

#[test]
fn search_is_case_insensitive() {
    let mut c = fresh();
    c.add(String::from("Read rust book"), None, None, Vec::new(), ts(0)).unwrap();
    let found = c.search("RUST");
    assert_eq!(found.len(), 1);
    assert_eq!(found[0].title, "Read rust book");
}

#[test]
fn complete_unknown_id_reports_not_found_and_keeps_file() {
    let mut c = fresh();
    c.add(String::from("A"), None, None, Vec::new(), ts(0)).unwrap();
    let before = save_doc(&c);
    let (out, save) = dispatch(&mut c, Command::Complete { id: 99 }, ts(1));
    assert!(matches!(out, Output::NotFound { id: 99 }));
    assert!(save.is_none());
    assert_eq!(save_doc(&c), before);
}

#[test]
fn unknown_priority_degrades_to_low() {
    let mut c = fresh();
    let prio = String::from("urgent");
    c.add(String::from("A"), Some(&prio), None, Vec::new(), ts(0)).unwrap();
    assert_eq!(c.items[0].priority, Priority::Low);
    let mixed = String::from("HiGh");
    c.add(String::from("B"), Some(&mixed), None, Vec::new(), ts(1)).unwrap();
    assert_eq!(c.items[1].priority, Priority::High);
}

#[test]
fn malformed_due_date_is_dropped_without_failure() {
    let mut c = fresh();
    let bad = String::from("02/01/2024");
    let r = c.add(String::from("A"), None, Some(&bad), Vec::new(), ts(0));
    assert_eq!(r, Ok(1));
    assert!(c.items[0].due_date.is_none());
    let bad2 = String::from("2024-13-40");
    let r2 = c.add(String::from("B"), None, Some(&bad2), Vec::new(), ts(1));
    assert_eq!(r2, Ok(2));
    assert!(c.items[1].due_date.is_none());
}

#[test]
fn empty_search_returns_everything_in_order() {
    let mut c = fresh();
    c.add(String::from("A"), None, None, Vec::new(), ts(0)).unwrap();
    c.add(String::from("B"), None, None, Vec::new(), ts(1)).unwrap();
    c.add(String::from("C"), None, None, Vec::new(), ts(2)).unwrap();
    let found = c.search("");
    assert_eq!(found.len(), 3);
    assert_eq!(found[0].title, "A");
    assert_eq!(found[1].title, "B");
    assert_eq!(found[2].title, "C");
}

#[test]
fn list_applies_priority_and_tag_filters_together() {
    let mut c = fresh();
    let high = String::from("high");
    let work = vec![String::from("work")];
    let home = vec![String::from("home")];
    c.add(String::from("A"), Some(&high), None, work.clone(), ts(0)).unwrap();
    c.add(String::from("B"), Some(&high), None, home, ts(1)).unwrap();
    c.add(String::from("C"), None, None, work, ts(2)).unwrap();
    let tag = String::from("work");
    let both = c.list(false, Some(&high), Some(&tag));
    assert_eq!(both.len(), 1);
    assert_eq!(both[0].title, "A");
}

#[test]
fn completing_twice_is_a_no_op_and_writes_nothing() {
    let mut c = fresh();
    c.add(String::from("A"), None, None, Vec::new(), ts(0)).unwrap();
    let (out1, save1) = dispatch(&mut c, Command::Complete { id: 1 }, ts(1));
    assert!(matches!(out1, Output::Completed { .. }));
    assert!(save1.is_some());
    let before = save_doc(&c);
    let (out2, save2) = dispatch(&mut c, Command::Complete { id: 1 }, ts(2));
    assert!(matches!(out2, Output::AlreadyCompleted { id: 1 }));
    assert!(save2.is_none());
    assert_eq!(save_doc(&c), before);
    let stamp = c.items[0].completed_at.unwrap();
    assert_eq!(stamp.minute, 1);
}

#[test]
fn empty_title_is_rejected() {
    let mut c = fresh();
    let r = c.add(String::new(), None, None, Vec::new(), ts(0));
    assert_eq!(r, Err(ValidationError::EmptyTitle));
    assert_eq!(c.items.len(), 0);
}

#[test]
fn ids_count_up_from_one() {
    let mut c = fresh();
    for k in 0..5u32 {
        c.add(format!("task {}", k), None, None, Vec::new(), ts(k)).unwrap();
    }
    for k in 0..5usize {
        assert_eq!(c.items[k].id, (k + 1) as u32);
    }
}

#[test]
fn search_folds_beyond_ascii() {
    let mut c = fresh();
    c.add(String::from("CAF\u{c9} run"), None, None, Vec::new(), ts(0)).unwrap();
    let found = c.search("caf\u{e9}");
    assert_eq!(found.len(), 1);
    assert_eq!(found[0].title, "CAF\u{c9} run");
    assert_eq!(c.search("tea").len(), 0);
}
