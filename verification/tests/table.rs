use single_table::mem::MemoryDB;
use single_table::record::{AttributeValue, Record};
use single_table::traits::{make_key, Database};

fn item(pk: &str, sk: &str, model: &str, payload: &str) -> Record {
    let mut record = make_key(pk, sk);
    record.insert("model".to_string(), AttributeValue::string(model.to_string()));
    record.insert("payload".to_string(), AttributeValue::string(payload.to_string()));
    record
}

fn sort_keys(records: &[Record]) -> Vec<String> {
    records.iter().map(|r| r.get("sk").unwrap().s.clone().unwrap()).collect()
}

#[test]
fn test_put_then_get_returns_the_record() {
    let mut db = MemoryDB::new("t".to_string());
    let records = [
        item("a", "1", "m", "x"),
        item("a", "2", "m", "y"),
        item("b", "1", "n", "z"),
        item("\u{e9}", "\u{10348}", "m", "w"),
    ];
    for record in &records {
        db.put_item(record.clone()).unwrap();
        let (pk, sk) = (record.get("pk").unwrap(), record.get("sk").unwrap());
        let got = db
            .get_item(pk.s.as_deref().unwrap(), sk.s.as_deref().unwrap())
            .unwrap();
        assert_eq!(got.item.as_ref(), Some(record));
    }
    // The earlier records are still there.
    assert_eq!(db.get_item("a", "1").unwrap().item, Some(records[0].clone()));
    assert_eq!(db.query(Some("model"), "n", "1").unwrap().items, Some(vec![records[2].clone()]));
}

#[test]
fn test_get_of_a_key_never_written() {
    let mut db = MemoryDB::new("t".to_string());
    db.put_item(item("a", "1", "m", "x")).unwrap();
    db.put_item(item("a", "3", "m", "y")).unwrap();
    for (pk, sk) in [("a", "2"), ("a", ""), ("", "1"), ("b", "1"), ("a1", ""), ("a", "11")] {
        assert_eq!(db.get_item(pk, sk).unwrap().item, None);
    }
    db.delete_table().unwrap();
    assert_eq!(db.get_item("a", "1").unwrap().item, None);
    assert_eq!(db.get_item("a", "3").unwrap().item, None);
}

#[test]
fn test_query_returns_the_partition_in_sort_key_order() {
    let mut db = MemoryDB::new("t".to_string());
    let sorts = ["delta", "alpha", "charlie", "bravo", "alpha2", "Zulu", ""];
    for sort in sorts {
        db.put_item(item("p", sort, "m", sort)).unwrap();
        db.put_item(item("q", sort, "m", "other")).unwrap();
    }
    let out = db.query(None, "p", "").unwrap();
    let found = out.items.unwrap();
    assert_eq!(out.count, Some(7));
    assert_eq!(sort_keys(&found), vec!["", "Zulu", "alpha", "alpha2", "bravo", "charlie", "delta"]);
    for record in &found {
        assert_eq!(record.get("pk").unwrap().s.as_deref(), Some("p"));
        assert_eq!(record.get("payload").unwrap().s, record.get("sk").unwrap().s);
    }
}

#[test]
fn test_query_with_a_prefix_returns_only_matches() {
    let mut db = MemoryDB::new("t".to_string());
    for sort in ["alpha", "alpha2", "alp", "al", "beta", "Alpha", "alpine"] {
        db.put_item(item("p", sort, "m", sort)).unwrap();
    }
    db.put_item(item("q", "alpha", "m", "other")).unwrap();

    let out = db.query(None, "p", "alp").unwrap();
    assert_eq!(out.count, Some(4));
    assert_eq!(sort_keys(&out.items.unwrap()), vec!["alp", "alpha", "alpha2", "alpine"]);

    let out = db.query(None, "p", "alpha2").unwrap();
    assert_eq!(sort_keys(&out.items.unwrap()), vec!["alpha2"]);

    let out = db.query(None, "p", "gamma").unwrap();
    assert_eq!(out.count, Some(0));
    assert_eq!(out.items, Some(vec![]));

    let out = db.query(None, "p", "").unwrap();
    assert_eq!(out.count, Some(7));

    let out = db.query(None, "r", "").unwrap();
    assert_eq!(out.count, Some(0));
}

#[test]
fn test_scan_returns_at_most_the_limit() {
    let mut db = MemoryDB::new("t".to_string());
    for sort in ["5", "3", "1", "4", "2"] {
        db.put_item(item("p", sort, "m", sort)).unwrap();
    }
    for limit in 0..8 {
        let out = db.scan(None, Some(limit)).unwrap();
        let found = out.items.unwrap();
        let expected = std::cmp::min(limit, 5);
        assert_eq!(found.len() as i64, expected);
        assert_eq!(out.count, Some(expected));
        assert_eq!(out.scanned_count, Some(expected));
        let all = ["1", "2", "3", "4", "5"];
        assert_eq!(sort_keys(&found), all[..expected as usize].to_vec());
    }
    let out = db.scan(None, None).unwrap();
    assert_eq!(out.count, Some(5));
    assert_eq!(out.scanned_count, Some(5));
    let out = db.scan(None, Some(i64::MAX)).unwrap();
    assert_eq!(out.count, Some(5));
    let out = db.scan(None, Some(i64::MIN)).unwrap();
    assert_eq!(out.count, Some(0));
}

#[test]
fn test_index_follows_every_write() {
    let mut db = MemoryDB::new("t".to_string());
    db.put_item(item("a", "1", "m", "first")).unwrap();
    db.put_item(item("b", "1", "m", "second")).unwrap();
    // Both records have the index key ("m", "1"): the later one is in the index.
    let table = db.scan(None, None).unwrap();
    assert_eq!(table.count, Some(2));
    let index = db.scan(Some("model"), None).unwrap();
    assert_eq!(index.count, Some(1));
    assert_eq!(index.items, Some(vec![item("b", "1", "m", "second")]));
    assert_eq!(
        db.query(Some("model"), "m", "").unwrap().items,
        Some(vec![item("b", "1", "m", "second")])
    );
    // A record without `model` goes under the empty index partition.
    db.put_item(make_key("c", "9")).unwrap();
    assert_eq!(db.query(Some("model"), "", "9").unwrap().items, Some(vec![make_key("c", "9")]));
}

#[test]
fn test_create_table_is_idempotent() {
    let mut once = MemoryDB::new("t".to_string());
    once.create_table().unwrap();
    let mut twice = MemoryDB::new("t".to_string());
    twice.create_table().unwrap();
    twice.create_table().unwrap();
    assert_eq!(once, twice);
    assert_eq!(twice.scan(None, None).unwrap().items, Some(vec![]));
    assert_eq!(twice.scan(Some("model"), None).unwrap().items, Some(vec![]));

    // Creating the table sets its stores up empty.
    twice.put_item(item("a", "1", "m", "x")).unwrap();
    twice.create_table().unwrap();
    assert_eq!(once, twice);
}
