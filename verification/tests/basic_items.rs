use bson::Document;
use minit::{BasicItemAction, BasicItemsRun};

fn item(id: Option<&str>) -> Document {
    let mut d = Document::new();
    if let Some(i) = id {
        d.insert("id", i);
    }
    d.insert("name", "x");
    d
}

#[test]
fn no_items_finish_at_once() {
    let items: Vec<Document> = vec![];
    let (run, action) = BasicItemsRun::start(&items, "id");
    assert_eq!(action, BasicItemAction::Finish { total: 0 });
    assert!(run.is_done());
}

#[test]
fn existing_items_are_passed_over_and_new_ones_inserted() {
    let items = vec![item(Some("a")), item(Some("b")), item(Some("c"))];
    let (run, action) = BasicItemsRun::start(&items, "id");
    assert_eq!(action, BasicItemAction::CheckExists { index: 0, id: "a".to_string() });
    // "a" exists
    let (run, action) = run.advance(&items, "id", true);
    assert_eq!(action, BasicItemAction::CheckExists { index: 1, id: "b".to_string() });
    // "b" does not
    let (run, action) = run.advance(&items, "id", false);
    assert_eq!(action, BasicItemAction::Insert { index: 1 });
    // insertion failed: go on anyway
    let (run, action) = run.advance(&items, "id", false);
    assert_eq!(action, BasicItemAction::CheckExists { index: 2, id: "c".to_string() });
    let (run, action) = run.advance(&items, "id", false);
    assert_eq!(action, BasicItemAction::Insert { index: 2 });
    let (run, action) = run.advance(&items, "id", true);
    assert_eq!(action, BasicItemAction::Finish { total: 3 });
    assert!(run.is_done());
}

#[test]
fn item_without_id_stops_the_run() {
    let items = vec![item(Some("a")), item(None), item(Some("c"))];
    let (run, _) = BasicItemsRun::start(&items, "id");
    let (run, action) = run.advance(&items, "id", true);
    assert_eq!(action, BasicItemAction::MissingId { index: 1 });
    assert!(run.is_done());
    let (_, action) = run.advance(&items, "id", false);
    assert_eq!(action, BasicItemAction::MissingId { index: 1 });
}

#[test]
fn id_must_be_a_string() {
    let mut d = Document::new();
    d.insert("id", 5i64);
    let items = vec![d];
    let (_, action) = BasicItemsRun::start(&items, "id");
    assert_eq!(action, BasicItemAction::MissingId { index: 0 });
}
