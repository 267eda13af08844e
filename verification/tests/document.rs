use serde_json::Value;
use waverider::document::{merge, Envelope, FieldValue, MergedDocument};
use waverider::record::NewAccount;

fn envelope() -> Envelope {
    Envelope {
        account: "4wBqpZM9xaSheZzJSMawUKKwhdpChKbZ5eu5ky4Vigw".to_string(),
        owner: "11111111111111111111111111111111".to_string(),
        data: vec![1, 2, 3],
        executable: false,
    }
}

#[test]
fn new_document_is_empty() {
    let document = MergedDocument::new();
    assert_eq!(document.len(), 0);
    assert_eq!(document.get("account"), None);
    assert_eq!(document.render_object(), "{}");
}

#[test]
fn insert_adds_new_names_at_the_end() {
    let mut document = MergedDocument::new();
    document.insert("b".to_string(), FieldValue::Number(1));
    document.insert("a".to_string(), FieldValue::Flag(true));
    document.insert("c".to_string(), FieldValue::Text("x".to_string()));
    assert_eq!(document.len(), 3);
    assert_eq!(document.render_object(), "{\"b\":1,\"a\":true,\"c\":\"x\"}");
    assert_eq!(document.get("a"), Some(&Value::Bool(true)));
    assert_eq!(document.get("b"), Some(&Value::from(1u32)));
    assert_eq!(document.get("c"), Some(&Value::String("x".to_string())));
    assert_eq!(document.get("d"), None);
}

#[test]
fn insert_overwrites_in_place() {
    let mut document = MergedDocument::new();
    document.insert("a".to_string(), FieldValue::Number(1));
    document.insert("b".to_string(), FieldValue::Number(2));
    document.insert("a".to_string(), FieldValue::Bytes(vec![9]));
    assert_eq!(document.len(), 2);
    assert_eq!(document.render_object(), "{\"a\":[9],\"b\":2}");
    assert_eq!(document.get("a"), Some(&Value::from(vec![9u8])));
    assert_eq!(document.get("b"), Some(&Value::from(2u32)));
}

#[test]
fn names_are_compared_exactly() {
    let mut document = MergedDocument::new();
    document.insert("age".to_string(), FieldValue::Number(1));
    document.insert("Age".to_string(), FieldValue::Number(2));
    document.insert("age ".to_string(), FieldValue::Number(3));
    document.insert("".to_string(), FieldValue::Number(4));
    assert_eq!(document.len(), 4);
    assert_eq!(document.get("age"), Some(&Value::from(1u32)));
    assert_eq!(document.get(""), Some(&Value::from(4u32)));
    assert_eq!(document.render_object(), "{\"age\":1,\"Age\":2,\"age \":3,\"\":4}");
}

#[test]
fn overlay_lets_the_later_fields_win() {
    let mut base = MergedDocument::new();
    base.insert("account".to_string(), FieldValue::Text("abc".to_string()));
    base.insert("age".to_string(), FieldValue::Text("unknown".to_string()));
    base.insert("owner".to_string(), FieldValue::Text("def".to_string()));
    let mut extra = MergedDocument::new();
    extra.insert("name".to_string(), FieldValue::Text("Ada".to_string()));
    extra.insert("age".to_string(), FieldValue::Number(30));
    base.overlay(&extra);
    assert_eq!(
        base.render_object(),
        "{\"account\":\"abc\",\"age\":30,\"owner\":\"def\",\"name\":\"Ada\"}"
    );
    assert_eq!(base.len(), 4);
    assert_eq!(extra.len(), 2);
    assert_eq!(extra.render_object(), "{\"name\":\"Ada\",\"age\":30}");
}

#[test]
fn overlay_of_nothing_changes_nothing() {
    let mut document = envelope().into_document();
    document.overlay(&MergedDocument::new());
    assert_eq!(document.render_object(), envelope().into_document().render_object());
}

#[test]
fn overlay_twice_is_overlay_once() {
    let mut once = envelope().into_document();
    let record = NewAccount::new(30, "Ada".to_string(), "UK".to_string()).to_document();
    once.overlay(&record);
    let mut twice = envelope().into_document();
    twice.overlay(&record);
    twice.overlay(&record);
    assert_eq!(once.render_object(), twice.render_object());
    assert_eq!(once, twice);
}

#[test]
fn envelope_document_has_four_fields_in_order() {
    let document = envelope().into_document();
    assert_eq!(document.len(), 4);
    assert_eq!(
        document.render_object(),
        "{\"account\":\"4wBqpZM9xaSheZzJSMawUKKwhdpChKbZ5eu5ky4Vigw\",\
         \"owner\":\"11111111111111111111111111111111\",\
         \"data\":[1,2,3],\"executable\":false}"
    );
    assert_eq!(document.get("data"), Some(&Value::from(vec![1u8, 2, 3])));
    assert_eq!(document.get("executable"), Some(&Value::Bool(false)));
}

#[test]
fn record_document_has_three_fields_in_order() {
    let document = NewAccount::new(30, "Ada".to_string(), "UK".to_string()).to_document();
    assert_eq!(document.len(), 3);
    assert_eq!(document.render_object(), "{\"age\":30,\"name\":\"Ada\",\"country\":\"UK\"}");
    assert_eq!(document.get("age"), Some(&Value::from(30u32)));
    assert_eq!(document.get("name"), Some(&Value::String("Ada".to_string())));
    assert_eq!(document.get("country"), Some(&Value::String("UK".to_string())));
}

#[test]
fn merge_without_record_is_the_envelope() {
    let document = merge(envelope(), None);
    assert_eq!(document.render_object(), envelope().into_document().render_object());
    assert_eq!(document.len(), 4);
}

#[test]
fn merge_puts_the_record_behind_the_envelope() {
    let record = NewAccount::new(30, "Ada".to_string(), "UK".to_string());
    let document = merge(envelope(), Some(record));
    assert_eq!(document.len(), 7);
    assert_eq!(
        document.render_object(),
        "{\"account\":\"4wBqpZM9xaSheZzJSMawUKKwhdpChKbZ5eu5ky4Vigw\",\
         \"owner\":\"11111111111111111111111111111111\",\
         \"data\":[1,2,3],\"executable\":false,\
         \"age\":30,\"name\":\"Ada\",\"country\":\"UK\"}"
    );
    assert_eq!(document.get("age"), Some(&Value::from(30u32)));
    assert_eq!(document.get("owner"), Some(&Value::String("1".repeat(32))));
}

#[test]
fn merge_of_the_same_inputs_is_the_same_document() {
    let record = NewAccount::new(30, "Ada".to_string(), "UK".to_string());
    let first = merge(envelope(), Some(record.clone()));
    let second = merge(envelope(), Some(record));
    assert_eq!(first.render_rows(), second.render_rows());
    assert_eq!(first, second);
}
