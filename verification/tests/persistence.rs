use todo_core::collection::Collection;
use todo_core::render::{format_main_line, format_item_lines};
use todo_core::store::{load, save_doc};
use todo_core::types::{parse_date, parse_priority, Date, Item, Priority, Timestamp};

fn ts(minute: u32) -> Timestamp {
    Timestamp { year: 2024, month: 1, day: 15, hour: 10, minute, second: 0 }
}

fn item(id: u32, title: &str) -> Item {
    Item {
        id,
        title: String::from(title),
        completed: false,
        created_at: ts(0),
        completed_at: None,
        priority: Priority::Low,
        due_date: None,
        categories: Vec::new(),
    }
}

#[test]
fn empty_collection_saves_as_empty_array() {
    let c = load(None, String::from("todos.json"));
    assert_eq!(save_doc(&c), "[]");
}

#[test]
fn one_item_document_is_pretty_printed() {
    let c = Collection { items: vec![item(1, "Learn")], path: String::from("todos.json") };
    let expected = "[\n  {\n    \"id\": 1,\n    \"title\": \"Learn\",\n    \"completed\": false,\n    \"created_at\": \"2024-01-15T10:00:00\",\n    \"completed_at\": null,\n    \"priority\": \"Low\",\n    \"due_date\": null,\n    \"categories\": []\n  }\n]";
    assert_eq!(save_doc(&c), expected);
}

#[test]
fn saved_document_is_valid_json() {
    let mut it = item(1, "Urgent \"quoted\" \\ back");
    it.priority = Priority::High;
    it.due_date = Some(Date { year: 2024, month: 2, day: 1 });
    it.categories = vec![String::from("work"), String::from("oss")];
    let c = Collection { items: vec![it, item(2, "plain")], path: String::from("t.json") };
    let doc = save_doc(&c);
    let parsed: serde_json::Value = serde_json::from_str(&doc).expect("valid JSON");
    let arr = parsed.as_array().expect("an array");
    assert_eq!(arr.len(), 2);
    assert_eq!(arr[0]["title"], "Urgent \"quoted\" \\ back");
    assert_eq!(arr[0]["priority"], "High");
    assert_eq!(arr[0]["due_date"], "2024-02-01");
    assert_eq!(arr[1]["completed"], false);
}

#[test]
fn save_then_load_restores_every_field() {
    let mut c = load(None, String::from("todos.json"));
    let high = String::from("high");
    let due = String::from("2024-02-01");
    c.add(String::from("Urgent"), Some(&high), Some(&due),
        vec![String::from("work"), String::from("oss")], ts(0)).unwrap();
    c.add(String::from("line\nbreak \"and\" tab\t!"), None, None, Vec::new(), ts(1)).unwrap();
    c.complete(2, ts(2));
    let doc = save_doc(&c);
    let c2 = load(Some(&doc), String::from("todos.json"));
    assert_eq!(c2.items.len(), c.items.len());
    for k in 0..c.items.len() {
        let a = &c.items[k];
        let b = &c2.items[k];
        assert_eq!(a.id, b.id);
        assert_eq!(a.title, b.title);
        assert_eq!(a.completed, b.completed);
        assert_eq!(a.created_at, b.created_at);
        assert_eq!(a.completed_at, b.completed_at);
        assert_eq!(a.priority, b.priority);
        assert_eq!(a.due_date, b.due_date);
        assert_eq!(a.categories, b.categories);
    }
}

#[test]
fn corrupt_document_is_salvaged_as_empty() {
    let c = load(Some("{ not a list"), String::from("todos.json"));
    assert_eq!(c.items.len(), 0);
    let c2 = load(Some("[\n  {\n    \"id\": oops\n  }\n]"), String::from("todos.json"));
    assert_eq!(c2.items.len(), 0);
}

#[test]
fn parse_date_accepts_only_real_days() {
    assert_eq!(parse_date("2024-02-01"), Some(Date { year: 2024, month: 2, day: 1 }));
    assert_eq!(parse_date("2024-02-29"), Some(Date { year: 2024, month: 2, day: 29 }));
    assert_eq!(parse_date("2023-02-29"), None);
    assert_eq!(parse_date("2024-13-01"), None);
    assert_eq!(parse_date("2024-00-10"), None);
    assert_eq!(parse_date("2024-04-31"), None);
    assert_eq!(parse_date("20240201"), None);
    assert_eq!(parse_date("not a date"), None);
}

#[test]
fn parse_priority_accepts_names_ignoring_case() {
    let h = String::from("HIGH");
    let m = String::from("Medium");
    let l = String::from("low");
    let x = String::from("urgent");
    assert_eq!(parse_priority(Some(&h)), Priority::High);
    assert_eq!(parse_priority(Some(&m)), Priority::Medium);
    assert_eq!(parse_priority(Some(&l)), Priority::Low);
    assert_eq!(parse_priority(Some(&x)), Priority::Low);
    assert_eq!(parse_priority(None), Priority::Low);
}

#[test]
fn main_line_shows_id_title_and_time() {
    let it = item(1, "Learn");
    assert_eq!(format_main_line(&it), "o [1] Learn LOW (created: 2024-01-15 10:00)");
}

#[test]
fn item_lines_show_tags_due_and_completion() {
    let mut it = item(7, "Urgent");
    it.priority = Priority::High;
    it.completed = true;
    it.completed_at = Some(ts(30));
    it.due_date = Some(Date { year: 2024, month: 2, day: 1 });
    it.categories = vec![String::from("work"), String::from("oss")];
    let lines = format_item_lines(&it);
    assert_eq!(lines.len(), 4);
    assert_eq!(lines[0], "x [7] Urgent HIGH (created: 2024-01-15 10:00)");
    assert_eq!(lines[1], "categories: work, oss");
    assert_eq!(lines[2], "due: 2024-02-01");
    assert_eq!(lines[3], "completed: 2024-01-15 10:30");
}

#[test]
fn control_characters_round_trip_through_the_document() {
    let mut c = load(None, String::from("todos.json"));
    c.add(String::from("bell \u{7} and \u{1f} escape"), None, None, Vec::new(), ts(0)).unwrap();
    let doc = save_doc(&c);
    let c2 = load(Some(&doc), String::from("todos.json"));
    assert_eq!(c2.items[0].title, "bell \u{7} and \u{1f} escape");
    let parsed: serde_json::Value = serde_json::from_str(&doc).expect("valid JSON");
    assert_eq!(parsed[0]["title"], "bell \u{7} and \u{1f} escape");
}
