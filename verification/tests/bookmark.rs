use rust_prec::bookmark::{bookmarks_from_json, BookmarkError, Bookmarks};
use rust_prec::json::{parse_json, InvalidJson, JsonValue};

const EVENTS: &str = r#"{"events": [
    {"name": "Bookmark", "value": "General", "tick": 1200},
    {"name": "Killstreak", "value": "3", "tick": 1300},
    {"name": "Bookmark", "value": "General", "tick": 4500},
    {"name": "Bookmark", "value": "General", "tick": "x"},
    {"name": 5, "tick": 10},
    {"name": "Bookmark", "tick": 2.5}
]}"#;

fn ticks(b: &Bookmarks) -> Vec<i64> {
    b.bookmarks.iter().map(|b| b.tick).collect()
}

#[test]
fn bookmarks_are_the_bookmark_events_with_integer_ticks() {
    assert_eq!(ticks(&Bookmarks::new(EVENTS)), vec![1200, 4500]);
}

#[test]
fn a_document_without_events_has_no_bookmarks() {
    assert!(Bookmarks::new(r#"{"other": 1}"#).bookmarks.is_empty());
    assert!(Bookmarks::new("[1, 2]").bookmarks.is_empty());
}

#[test]
fn get_bookmarks_appends() {
    let mut b = Bookmarks::new(EVENTS);
    b.get_bookmarks(r#"{"events": [{"name": "Bookmark", "tick": -3}]}"#);
    assert_eq!(ticks(&b), vec![1200, 4500, -3]);
}

#[test]
fn read_reports_what_cannot_be_read() {
    assert_eq!(Bookmarks::read("{not json").unwrap_err(), BookmarkError::InvalidJson);
    assert_eq!(Bookmarks::read(r#"{"events": {"a": 1}}"#).unwrap_err(), BookmarkError::EventsNotArray);
    assert_eq!(ticks(&Bookmarks::read(EVENTS).unwrap()), vec![1200, 4500]);
}

#[test]
fn json_values_from_serde_json() {
    assert_eq!(parse_json("{").unwrap_err(), InvalidJson);
    let v = parse_json(r#"{"a": [1, "x", null, true, 1.5, 18446744073709551615]}"#).unwrap();
    let a = v.get("a").unwrap();
    match a {
        JsonValue::Array(items) => {
            assert_eq!(items.len(), 6);
            assert_eq!(items[0].as_i64(), Some(1));
            assert_eq!(items[1].as_str().map(|s| s.as_str()), Some("x"));
            assert!(matches!(items[2], JsonValue::Null));
            assert!(matches!(items[3], JsonValue::Bool(true)));
            assert_eq!(items[4].as_i64(), None);
            assert_eq!(items[5].as_i64(), None);
        }
        _ => panic!("not an array"),
    }
    assert!(v.get("b").is_none());
    let root = parse_json(EVENTS).unwrap();
    let found: Vec<i64> = bookmarks_from_json(&root).iter().map(|b| b.tick).collect();
    assert_eq!(found, vec![1200, 4500]);
}
