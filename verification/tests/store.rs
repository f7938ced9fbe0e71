use single_table::record::{AttributeValue, Record};
use single_table::store::Store;

fn named(name: &str) -> Record {
    let mut record = Record::new();
    record.insert("name".to_string(), AttributeValue::string(name.to_string()));
    record
}

fn keys(store: &Store) -> Vec<(String, String)> {
    let mut keys = vec![];
    let mut i = 0;
    while let Some(entry) = store.entry(i) {
        keys.push((entry.partition.clone(), entry.sort.clone()));
        i += 1;
    }
    keys
}

fn pair(a: &str, b: &str) -> (String, String) {
    (a.to_string(), b.to_string())
}

#[test]
fn test_store_starts_empty() {
    let store = Store::new();
    assert_eq!(store.len(), 0);
    assert!(store.entry(0).is_none());
    assert!(store.get("a", "b").is_none());
}

#[test]
fn test_store_keeps_key_order() {
    let mut store = Store::new();
    store.put("b".to_string(), "1".to_string(), named("b1"));
    store.put("a".to_string(), "2".to_string(), named("a2"));
    store.put("c".to_string(), "".to_string(), named("c"));
    store.put("a".to_string(), "1".to_string(), named("a1"));
    store.put("a".to_string(), "10".to_string(), named("a10"));
    store.put("".to_string(), "z".to_string(), named("z"));
    assert_eq!(store.len(), 6);
    assert_eq!(
        keys(&store),
        vec![pair("", "z"), pair("a", "1"), pair("a", "10"), pair("a", "2"), pair("b", "1"), pair("c", "")]
    );
    assert!(store.entry(6).is_none());
    assert_eq!(store.entry(2).unwrap().item, named("a10"));
}

#[test]
fn test_store_orders_by_partition_first() {
    let mut store = Store::new();
    // As one string "ab" + "c" and "a" + "bc" would be the same: the parts count.
    store.put("ab".to_string(), "c".to_string(), named("second"));
    store.put("a".to_string(), "bc".to_string(), named("first"));
    store.put("a".to_string(), "z".to_string(), named("middle"));
    assert_eq!(keys(&store), vec![pair("a", "bc"), pair("a", "z"), pair("ab", "c")]);
}

#[test]
fn test_store_put_replaces_on_equal_key() {
    let mut store = Store::new();
    store.put("a".to_string(), "1".to_string(), named("old"));
    store.put("a".to_string(), "2".to_string(), named("other"));
    store.put("a".to_string(), "1".to_string(), named("new"));
    assert_eq!(store.len(), 2);
    assert_eq!(store.get("a", "1"), Some(&named("new")));
    assert_eq!(store.get("a", "2"), Some(&named("other")));
    assert_eq!(keys(&store), vec![pair("a", "1"), pair("a", "2")]);
}

#[test]
fn test_store_get_is_exact() {
    let mut store = Store::new();
    for sort in ["1", "3", "5", "7", "9"] {
        store.put("p".to_string(), sort.to_string(), named(sort));
    }
    for sort in ["1", "3", "5", "7", "9"] {
        assert_eq!(store.get("p", sort), Some(&named(sort)));
    }
    for sort in ["", "0", "2", "4", "6", "8", "91", "a"] {
        assert_eq!(store.get("p", sort), None);
    }
    assert_eq!(store.get("", "1"), None);
    assert_eq!(store.get("q", "1"), None);
    assert_eq!(store.get("o", "9"), None);
}

#[test]
fn test_store_clear() {
    let mut store = Store::new();
    store.put("a".to_string(), "1".to_string(), named("x"));
    store.clear();
    assert_eq!(store.len(), 0);
    assert_eq!(store.get("a", "1"), None);
    assert_eq!(store, Store::new());
}
