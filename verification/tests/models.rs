use single_table::mem::MemoryDB;
use single_table::models::{
    found, model_key_of, read, submodel_key_of, ProgramError, Timestamp,
};
use single_table::record::{AttributeValue, Record};
use single_table::traits::{
    exists_check_step, make_key, text_of, write_step, Database, Key, TransactionalOperations,
};
use single_table::types::{
    ConditionCheck, DatabaseError, GetItemOutput, Put, TransactWriteItem,
};
use single_table::{Model, SubModel};

fn s(text: &str) -> AttributeValue {
    AttributeValue::string(text.to_string())
}

fn pair(a: &str, b: &str) -> (String, String) {
    (a.to_string(), b.to_string())
}

const THEN: Timestamp = Timestamp { secs: 1_600_000_000, nanos: 123_456_789 };

#[test]
fn test_key_formats() {
    assert_eq!(model_key_of("foo"), "model#foo");
    assert_eq!(model_key_of(""), "model#");
    assert_eq!(submodel_key_of("foo", "bar"), "model#foo#submodel#bar");
    assert_eq!(submodel_key_of("foo", ""), "model#foo#submodel#");
}

#[test]
fn test_model_fields() {
    let foo = Model::at("foo", 7, THEN);
    assert_eq!(foo.name(), "foo");
    assert_eq!(foo.value(), 7);
    assert_eq!(foo.created_at(), THEN);
    assert_eq!(foo.pk(), "model#foo");
    assert_eq!(foo.sk(), "model#foo");
    assert_eq!(foo.model(), "model");
    assert_eq!(foo.key(), pair("model#foo", "model#foo"));
    assert_eq!(foo.model_key(), pair("model", "model#foo"));
    assert_eq!(foo.clone(), foo);
}

#[test]
fn test_model_new_is_made_now() {
    let foo = Model::new("foo", 1);
    assert_eq!(foo.name(), "foo");
    assert_eq!(foo.value(), 1);
    assert_eq!(foo.pk(), "model#foo");
    assert_eq!(foo.sk(), "model#foo");
    assert_eq!(foo.model(), "model");
    // After the start of 2020, and within the second.
    assert!(foo.created_at().secs > 1_577_836_800);
    assert!(foo.created_at().nanos < 1_000_000_000);
    let bar = SubModel::new("bar", foo.clone());
    assert!(bar.created_at().secs >= foo.created_at().secs);
    assert!(bar.created_at().nanos < 1_000_000_000);
}

#[test]
fn test_submodel_fields() {
    let foo = Model::at("foo", 7, THEN);
    let bar = SubModel::at("bar", foo, THEN);
    assert_eq!(bar.name(), "bar");
    assert_eq!(bar.parent(), "model#foo");
    assert_eq!(bar.created_at(), THEN);
    assert_eq!(bar.pk(), "model#foo");
    assert_eq!(bar.sk(), "model#foo#submodel#bar");
    assert_eq!(bar.model(), "submodel");
    assert_eq!(bar.key(), pair("model#foo", "model#foo#submodel#bar"));
    assert_eq!(bar.model_key(), pair("submodel", "model#foo#submodel#bar"));
}

#[test]
fn test_from_parts_keeps_what_was_stored() {
    let model = Model::from_parts(
        "n".to_string(),
        -3,
        THEN,
        "p".to_string(),
        "s".to_string(),
        "m".to_string(),
    );
    assert_eq!(model.name(), "n");
    assert_eq!(model.value(), -3);
    assert_eq!(model.key(), pair("p", "s"));
    assert_eq!(model.model_key(), pair("m", "s"));
    let submodel = SubModel::from_parts(
        "n".to_string(),
        "q".to_string(),
        THEN,
        "p".to_string(),
        "s".to_string(),
        "m".to_string(),
    );
    assert_eq!(submodel.name(), "n");
    assert_eq!(submodel.parent(), "q");
    assert_eq!(submodel.key(), pair("p", "s"));
    assert_eq!(submodel.model_key(), pair("m", "s"));
}

#[test]
fn test_make_key() {
    let key = make_key("model#foo", "model#foo#submodel#bar");
    assert_eq!(key.len(), 2);
    assert_eq!(key.get("pk"), Some(&s("model#foo")));
    assert_eq!(key.get("sk"), Some(&s("model#foo#submodel#bar")));
    assert_eq!(key.key(), pair("model#foo", "model#foo#submodel#bar"));
    assert_eq!(key.model_key(), pair("", "model#foo#submodel#bar"));
}

#[test]
fn test_record_keys() {
    let mut record = make_key("p", "s");
    record.insert("model".to_string(), s("m"));
    assert_eq!(record.key(), pair("p", "s"));
    assert_eq!(record.model_key(), pair("m", "s"));
    assert_eq!(text_of(&record, "pk"), "p");
    assert_eq!(text_of(&record, "missing"), "");

    // What is not a string counts as missing.
    record.insert("pk".to_string(), AttributeValue::number("1".to_string()));
    assert_eq!(record.key(), pair("", "s"));
    assert_eq!(Record::new().key(), pair("", ""));
    assert_eq!(Record::new().model_key(), pair("", ""));
}

#[test]
fn test_condition_check_exists() {
    let db = MemoryDB::new("t".to_string());
    let step = db.condition_check_exists("model#foo", "model#foo", "model");
    let mut values = Record::new();
    values.insert(":model".to_string(), s("model"));
    assert_eq!(
        step,
        TransactWriteItem {
            condition_check: Some(ConditionCheck {
                table_name: "t".to_string(),
                key: make_key("model#foo", "model#foo"),
                condition_expression: "model = :model".to_string(),
                expression_attribute_values: Some(values),
            }),
            put: None,
        }
    );
    assert_eq!(step, exists_check_step("t".to_string(), "model#foo", "model#foo", "model"));
}

#[test]
fn test_put_step() {
    let db = MemoryDB::new("t".to_string());
    let step = db.put(make_key("a", "b"));
    assert_eq!(
        step,
        TransactWriteItem {
            condition_check: None,
            put: Some(Put { table_name: "t".to_string(), item: make_key("a", "b") }),
        }
    );
    assert_eq!(step, write_step("t".to_string(), make_key("a", "b")));
}

#[test]
fn test_submodel_steps() {
    let db = MemoryDB::new("t".to_string());
    let foo = Model::at("foo", 1, THEN);
    let bar = SubModel::at("bar", foo, THEN);
    let steps = bar.steps(&db, make_key("a", "b"));
    assert_eq!(
        steps,
        vec![
            db.condition_check_exists("model#foo", "model#foo", "model"),
            db.put(make_key("a", "b")),
        ]
    );
    assert_eq!(bar.steps_for("t", make_key("a", "b")), steps);
}

#[test]
fn test_found_and_read() {
    assert_eq!(found("foo", Some(make_key("a", "b"))), Ok(make_key("a", "b")));
    assert_eq!(found("foo", None), Err(ProgramError::GetNone("foo".to_string())));
    assert_eq!(
        read("foo", Ok(GetItemOutput { item: Some(make_key("a", "b")) })),
        Ok(make_key("a", "b"))
    );
    assert_eq!(
        read("foo", Ok(GetItemOutput { item: None })),
        Err(ProgramError::GetNone("foo".to_string()))
    );
    assert_eq!(
        read("foo", Err(DatabaseError::Service("down".to_string()))),
        Err(ProgramError::Database(DatabaseError::Service("down".to_string())))
    );
}

#[test]
fn test_error_messages() {
    assert_eq!(ProgramError::GetNone("foo".to_string()).message(), "item not found: foo");
    assert_eq!(ProgramError::Database(DatabaseError::Conflict).message(), DatabaseError::Conflict.message());
    assert_eq!(DatabaseError::NotFound.message(), "not found");
    assert_eq!(DatabaseError::Conflict.message(), "a condition of the write does not hold");
    assert_eq!(DatabaseError::Unsupported.message(), "the request is not supported");
    assert_eq!(DatabaseError::Service("down".to_string()).message(), "down");
}
