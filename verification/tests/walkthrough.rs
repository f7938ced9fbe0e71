use single_table::mem::memorydb;
use single_table::record::{AttributeValue, Record};
use single_table::traits::{Database, TransactionalOperations};
use single_table::types::DatabaseError;

fn record(name: &str, pk: &str, sk: &str, model: &str) -> Record {
    let mut record = Record::new();
    record.insert("name".to_string(), AttributeValue::string(name.to_string()));
    record.insert("pk".to_string(), AttributeValue::string(pk.to_string()));
    record.insert("sk".to_string(), AttributeValue::string(sk.to_string()));
    record.insert("model".to_string(), AttributeValue::string(model.to_string()));
    record
}

#[test]
fn test_models_and_submodels() {
    let mut db = memorydb();
    db.create_table().unwrap();
    let foo = record("foo", "model#foo", "model#foo", "model");
    let bar = record("bar", "model#foo", "model#foo#submodel#bar", "submodel");
    let baz = record("baz", "model#foo", "model#foo#submodel#baz", "submodel");
    db.put_item(foo.clone()).unwrap();
    db.put_item(bar.clone()).unwrap();
    db.put_item(baz.clone()).unwrap();

    let submodels = db.query(None, "model#foo", "model#foo#submodel#").unwrap();
    assert_eq!(submodels.items, Some(vec![bar.clone(), baz.clone()]));
    assert_eq!(submodels.count, Some(2));

    let models = db.query(Some("model"), "model", "model#foo").unwrap();
    assert_eq!(models.items, Some(vec![foo.clone()]));
    assert_eq!(models.count, Some(1));

    let all = db.scan(None, None).unwrap();
    assert_eq!(all.items, Some(vec![foo, bar, baz]));
    assert_eq!(all.count, Some(3));
    assert_eq!(all.scanned_count, Some(3));
}

#[test]
fn test_transactional_write() {
    let mut db = memorydb();
    db.create_table().unwrap();
    let foo = record("foo", "model#foo", "model#foo", "model");
    let bar = record("bar", "model#foo", "model#foo#submodel#bar", "submodel");
    db.put_item(foo).unwrap();

    let steps = vec![
        db.condition_check_exists("model#foo", "model#foo", "model"),
        db.put(bar.clone()),
    ];
    assert!(db.transact_write_items(steps).is_ok());
    assert_eq!(db.get_item("model#foo", "model#foo#submodel#bar").unwrap().item, Some(bar));
}

#[test]
fn test_transactional_write_without_the_parent() {
    let mut db = memorydb();
    db.create_table().unwrap();
    let bar = record("bar", "model#foo", "model#foo#submodel#bar", "submodel");

    let steps = vec![
        db.condition_check_exists("model#foo", "model#foo", "model"),
        db.put(bar),
    ];
    assert_eq!(db.transact_write_items(steps), Err(DatabaseError::Conflict));
    assert_eq!(db.get_item("model#foo", "model#foo#submodel#bar").unwrap().item, None);
    assert_eq!(db.scan(None, None).unwrap().count, Some(0));
    assert_eq!(db.scan(Some("model"), None).unwrap().count, Some(0));
}
