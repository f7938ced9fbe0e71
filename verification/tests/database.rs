use single_table::mem::{memorydb, MemoryDB};
use single_table::models::ProgramError;
use single_table::record::{AttributeValue, Record};
use single_table::traits::{make_key, Database, TransactionalOperations};
use single_table::types::DatabaseError;
use single_table::{Model, SubModel};

fn record_of(name: &str, pk: &str, sk: &str, model: &str) -> Record {
    let mut record = make_key(pk, sk);
    record.insert("model".to_string(), AttributeValue::string(model.to_string()));
    record.insert("name".to_string(), AttributeValue::string(name.to_string()));
    record
}

fn of_model(model: &Model) -> Record {
    let mut record = record_of(model.name(), &model.pk(), &model.sk(), &model.model());
    record.insert("a_number".to_string(), AttributeValue::number(model.value().to_string()));
    record
}

fn of_submodel(submodel: &SubModel) -> Record {
    let mut record =
        record_of(&submodel.name(), &submodel.pk(), &submodel.sk(), &submodel.model());
    record.insert("parent".to_string(), AttributeValue::string(submodel.parent()));
    record
}

fn name_of(record: &Record) -> String {
    record.get("name").and_then(|value| value.s.clone()).unwrap_or_default()
}

fn fresh() -> MemoryDB {
    let mut db = memorydb();
    db.sync_create_table();
    db
}

fn insert_models(db: &mut MemoryDB) {
    let foo: Model = Model::new("foo", 1);
    let bar: SubModel = SubModel::new("bar", foo.clone());
    let baz: SubModel = SubModel::new("baz", foo.clone());

    // Written out of key order: the table puts them in order.
    db.put_item(of_submodel(&baz)).unwrap();
    db.put_item(of_model(&foo)).unwrap();
    db.put_item(of_submodel(&bar)).unwrap();
}

#[test]
fn test_get_none() {
    let db = fresh();
    let get_item_output = db.get_item("model#foo", "model#foo").unwrap();
    assert_eq!(get_item_output.item, None);
}

#[test]
fn test_put_get_some() {
    let mut db = fresh();
    let model = Model::new("foo", 1);

    let put_item_output = db.put_item(of_model(&model)).unwrap();
    assert_eq!(put_item_output.attributes, None);

    let get_item_output = db.get_item("model#foo", "model#foo").unwrap();
    let item = get_item_output.item.unwrap_or_else(Record::new);

    assert_eq!(name_of(&item), "foo");
    assert_eq!(item.get("a_number").unwrap().n, Some("1".to_string()));
    assert_eq!(item, of_model(&model));
}

#[test]
fn test_query_submodels() {
    let mut db = fresh();
    insert_models(&mut db);

    let items = db.query(None, "model#foo", "model#foo#submodel#").unwrap();
    assert_eq!(items.count, Some(2));

    let submodels: Vec<String> = items.items.unwrap().iter().map(name_of).collect();
    assert_eq!(submodels.len(), 2);
    assert_eq!(submodels[0], "bar");
    assert_eq!(submodels[1], "baz");
}

#[test]
fn test_query_index_model() {
    let mut db = fresh();
    insert_models(&mut db);

    let items = db.query(Some("model"), "model", "model#foo").unwrap();
    assert_eq!(items.count, Some(1));

    let models: Vec<String> = items.items.unwrap().iter().map(name_of).collect();
    assert_eq!(models.len(), 1);
    assert_eq!(models[0], "foo");
}

#[test]
fn test_query_index_submodel() {
    let mut db = fresh();
    insert_models(&mut db);

    let items = db.query(Some("model"), "submodel", "model#foo#submodel#bar").unwrap();
    assert_eq!(items.count, Some(1));

    let submodels: Vec<String> = items.items.unwrap().iter().map(name_of).collect();
    assert_eq!(submodels.len(), 1);
    assert_eq!(submodels[0], "bar");
}

#[test]
fn test_query_unknown_index_is_empty() {
    let mut db = fresh();
    insert_models(&mut db);

    let items = db.query(Some("other"), "model#foo", "").unwrap();
    assert_eq!(items.count, Some(0));
    assert_eq!(items.items, Some(vec![]));

    let scanned = db.scan(Some("other"), None).unwrap();
    assert_eq!(scanned.count, Some(0));
    assert_eq!(scanned.items, Some(vec![]));
}

#[test]
fn test_query_empty_prefix_returns_partition_in_order() {
    let mut db = fresh();
    insert_models(&mut db);
    db.put_item(record_of("other", "model#zed", "model#zed", "model")).unwrap();

    let items = db.query(None, "model#foo", "").unwrap();
    assert_eq!(items.count, Some(3));
    let names: Vec<String> = items.items.unwrap().iter().map(name_of).collect();
    assert_eq!(names, vec!["foo", "bar", "baz"]);
}

#[test]
fn test_query_prefix_is_byte_wise() {
    let mut db = fresh();
    db.put_item(record_of("e-acute", "p", "caf\u{e9}", "m")).unwrap();
    db.put_item(record_of("plain", "p", "cafe", "m")).unwrap();
    db.put_item(record_of("upper", "p", "Cafe", "m")).unwrap();
    db.put_item(record_of("longer", "p", "cafeteria", "m")).unwrap();

    let items = db.query(None, "p", "caf").unwrap();
    let names: Vec<String> = items.items.unwrap().iter().map(name_of).collect();
    // Bytes order: "cafe" < "cafeteria" < "caf\u{c3}\u{a9}".
    assert_eq!(names, vec!["plain", "longer", "e-acute"]);

    let items = db.query(None, "p", "cafe").unwrap();
    let names: Vec<String> = items.items.unwrap().iter().map(name_of).collect();
    assert_eq!(names, vec!["plain", "longer"]);

    let all = db.scan(None, None).unwrap();
    let names: Vec<String> = all.items.unwrap().iter().map(name_of).collect();
    assert_eq!(names, vec!["upper", "plain", "longer", "e-acute"]);
}

#[test]
fn test_scan() {
    let mut db = fresh();
    insert_models(&mut db);

    let items = db.scan(None, None).unwrap();
    assert_eq!(items.count, Some(3));
    assert_eq!(items.scanned_count, Some(3));
    let names: Vec<String> = items.items.unwrap().iter().map(name_of).collect();
    assert_eq!(names, vec!["foo", "bar", "baz"]);
}

#[test]
fn test_scan_index() {
    let mut db = fresh();
    insert_models(&mut db);

    let items = db.scan(Some("model"), None).unwrap();
    assert_eq!(items.count, Some(3));
    assert_eq!(items.scanned_count, Some(3));
    // In the index the model stands under "model", the submodels under "submodel".
    let names: Vec<String> = items.items.unwrap().iter().map(name_of).collect();
    assert_eq!(names, vec!["foo", "bar", "baz"]);
}

#[test]
fn test_scan_limit() {
    let mut db = fresh();
    insert_models(&mut db);

    let items = db.scan(None, Some(1)).unwrap();
    assert_eq!(items.count, Some(1));
    assert_eq!(items.scanned_count, Some(1));
    assert_eq!(items.items.unwrap().len(), 1);

    let items = db.scan(None, Some(2)).unwrap();
    assert_eq!(items.count, Some(2));
    let names: Vec<String> = items.items.unwrap().iter().map(name_of).collect();
    assert_eq!(names, vec!["foo", "bar"]);

    let items = db.scan(None, Some(10)).unwrap();
    assert_eq!(items.count, Some(3));
    assert_eq!(items.scanned_count, Some(3));
}

#[test]
fn test_scan_limit_below_one() {
    let mut db = fresh();
    insert_models(&mut db);

    let items = db.scan(None, Some(0)).unwrap();
    assert_eq!(items.count, Some(0));
    assert_eq!(items.items, Some(vec![]));

    let items = db.scan(None, Some(-3)).unwrap();
    assert_eq!(items.count, Some(0));
    assert_eq!(items.scanned_count, Some(0));
}

#[test]
fn test_transact_write_items() {
    let mut db = fresh();
    let described = db.describe_table().unwrap();
    assert!(described.table.is_some());
    assert_eq!(described.table.unwrap().table_name, Some(db.table_name()));

    let foo: Model = Model::new("foo", 1);
    let bar: SubModel = SubModel::new("bar", foo.clone());

    db.put_item(of_model(&foo)).unwrap();
    let steps = vec![
        db.condition_check_exists(&foo.pk(), &foo.sk(), &foo.model()),
        db.put(of_submodel(&bar)),
    ];
    db.transact_write_items(steps).unwrap();

    let res = SubModel::get(&db, "foo", "bar").unwrap();
    assert_eq!(name_of(&res), "bar");
    assert_eq!(res, of_submodel(&bar));
    let direct = db.get_item("model#foo", "model#foo#submodel#bar").unwrap();
    assert_eq!(direct.item, Some(of_submodel(&bar)));
}

#[test]
fn test_transact_without_parent_conflicts() {
    let mut db = fresh();
    let foo: Model = Model::new("foo", 1);
    let bar: SubModel = SubModel::new("bar", foo.clone());

    let steps = bar.steps(&db, of_submodel(&bar));
    let saved = db.transact_write_items(steps);
    assert_eq!(saved, Err(DatabaseError::Conflict));
    assert_eq!(db.scan(None, None).unwrap().count, Some(0));
    assert_eq!(db.scan(Some("model"), None).unwrap().count, Some(0));
    assert_eq!(db.get_item("model#foo", "model#foo#submodel#bar").unwrap().item, None);
}

#[test]
fn test_transact_checks_the_model_attribute() {
    let mut db = fresh();
    // The parent key is there, but as another kind of record.
    db.put_item(record_of("foo", "model#foo", "model#foo", "submodel")).unwrap();
    let foo: Model = Model::new("foo", 1);
    let bar: SubModel = SubModel::new("bar", foo.clone());
    let steps = bar.steps_for(&db.table_name(), of_submodel(&bar));
    assert_eq!(db.transact_write_items(steps), Err(DatabaseError::Conflict));
    assert_eq!(db.scan(None, None).unwrap().count, Some(1));
}

#[test]
fn test_transact_is_all_or_nothing() {
    let mut db = fresh();
    let first = record_of("one", "a", "1", "m");
    let second = record_of("two", "a", "2", "m");
    let steps = vec![
        db.put(first),
        db.condition_check_exists("missing", "missing", "m"),
        db.put(second),
    ];
    assert_eq!(db.transact_write_items(steps), Err(DatabaseError::Conflict));
    assert_eq!(db.scan(None, None).unwrap().count, Some(0));

    // A check sees the table as it stood before the batch.
    let steps = vec![
        db.put(record_of("one", "a", "1", "m")),
        db.condition_check_exists("a", "1", "m"),
    ];
    assert_eq!(db.transact_write_items(steps), Err(DatabaseError::Conflict));

    db.put_item(record_of("one", "a", "1", "m")).unwrap();
    let steps = vec![
        db.condition_check_exists("a", "1", "m"),
        db.put(record_of("two", "a", "2", "m")),
        db.put(record_of("three", "a", "3", "m")),
    ];
    assert!(db.transact_write_items(steps).is_ok());
    assert_eq!(db.scan(None, None).unwrap().count, Some(3));
}

#[test]
fn test_transact_unsupported_condition() {
    let mut db = fresh();
    db.put_item(record_of("one", "a", "1", "m")).unwrap();
    let mut step = db.condition_check_exists("a", "1", "m");
    if let Some(check) = step.condition_check.as_mut() {
        check.condition_expression = "attribute_exists(pk)".to_string();
    }
    let steps = vec![step, db.put(record_of("two", "a", "2", "m"))];
    assert_eq!(db.transact_write_items(steps), Err(DatabaseError::Unsupported));
    assert_eq!(db.scan(None, None).unwrap().count, Some(1));

    let mut step = db.condition_check_exists("a", "1", "m");
    if let Some(check) = step.condition_check.as_mut() {
        check.expression_attribute_values = None;
    }
    assert_eq!(db.transact_write_items(vec![step]), Err(DatabaseError::Unsupported));
}

#[test]
fn test_put_overwrites() {
    let mut db = fresh();
    db.put_item(record_of("first", "a", "1", "m")).unwrap();
    db.put_item(record_of("second", "a", "1", "m")).unwrap();
    let item = db.get_item("a", "1").unwrap().item.unwrap();
    assert_eq!(name_of(&item), "second");
    assert_eq!(db.scan(None, None).unwrap().count, Some(1));
    assert_eq!(db.scan(Some("model"), None).unwrap().count, Some(1));
}

#[test]
fn test_get_is_exact() {
    let mut db = fresh();
    db.put_item(record_of("one", "a", "12", "m")).unwrap();
    assert_eq!(db.get_item("a", "1").unwrap().item, None);
    assert_eq!(db.get_item("a", "123").unwrap().item, None);
    assert_eq!(db.get_item("", "").unwrap().item, None);
    assert!(db.get_item("a", "12").unwrap().item.is_some());
}

#[test]
fn test_records_without_keys_go_under_empty_keys() {
    let mut db = fresh();
    let mut record = Record::new();
    record.insert("name".to_string(), AttributeValue::string("nameless".to_string()));
    db.put_item(record).unwrap();
    let found = db.get_item("", "").unwrap().item.unwrap();
    assert_eq!(name_of(&found), "nameless");
    // A number under `pk` is no string: the key is empty.
    let mut record = Record::new();
    record.insert("pk".to_string(), AttributeValue::number("7".to_string()));
    record.insert("sk".to_string(), AttributeValue::string("s".to_string()));
    db.put_item(record).unwrap();
    assert!(db.get_item("", "s").unwrap().item.is_some());
    assert_eq!(db.get_item("7", "s").unwrap().item, None);
}

#[test]
fn test_create_table_twice() {
    let mut db = memorydb();
    assert!(db.create_table().is_ok());
    assert!(db.create_table().is_ok());
    assert_eq!(db.scan(None, None).unwrap().count, Some(0));
    assert_eq!(db.scan(Some("model"), None).unwrap().count, Some(0));
    assert_eq!(db, MemoryDB::new(db.table_name()));
}

#[test]
fn test_delete_table_clears_both_stores() {
    let mut db = fresh();
    insert_models(&mut db);
    let name = db.table_name();
    assert!(db.delete_table().is_ok());
    assert_eq!(db.get_item("model#foo", "model#foo").unwrap().item, None);
    assert_eq!(db.scan(None, None).unwrap().count, Some(0));
    assert_eq!(db.scan(Some("model"), None).unwrap().count, Some(0));
    assert_eq!(db.table_name(), name);
}

#[test]
fn test_table_name_is_fresh() {
    let a = memorydb().table_name();
    let b = memorydb().table_name();
    assert_ne!(a, b);
    assert_eq!(a.len(), 49);
    assert!(a.starts_with("single-table-"));
    let id = &a["single-table-".len()..];
    for (i, c) in id.chars().enumerate() {
        if i == 8 || i == 13 || i == 18 || i == 23 {
            assert_eq!(c, '-');
        } else {
            assert!(c.is_ascii_digit() || ('a'..='f').contains(&c));
        }
    }
}

#[test]
fn test_model_get_none() {
    let db = fresh();
    let res = Model::get(&db, "foo");
    assert_eq!(res, Err(ProgramError::GetNone("foo".to_string())));
    assert_eq!(res.unwrap_err().message(), "item not found: foo");
    let res = SubModel::get(&db, "foo", "bar");
    assert_eq!(res, Err(ProgramError::GetNone("bar".to_string())));
}

#[test]
fn test_model_put_then_get() {
    let mut db = fresh();
    let foo = Model::new("foo", 7);
    db.put_item(of_model(&foo)).unwrap();
    let found = Model::get(&db, "foo").unwrap();
    assert_eq!(found, of_model(&foo));
    assert_eq!(found.get("a_number").unwrap().n, Some("7".to_string()));
}
