use single_table::text::{compare, same, starts_with, Order};

fn expected(a: &str, b: &str) -> Order {
    if a < b {
        Order::Less
    } else if a == b {
        Order::Equal
    } else {
        Order::Greater
    }
}

const SAMPLES: [&str; 12] = [
    "",
    "a",
    "A",
    "ab",
    "abc",
    "abd",
    "b",
    "model#foo",
    "model#foo#submodel#bar",
    "caf\u{e9}",
    "\u{10348}",
    "\u{7f}",
];

#[test]
fn test_compare_is_the_order_of_strings() {
    for a in SAMPLES {
        for b in SAMPLES {
            assert_eq!(compare(a, b), expected(a, b), "{:?} against {:?}", a, b);
        }
    }
}

#[test]
fn test_compare_examples() {
    assert_eq!(compare("", ""), Order::Equal);
    assert_eq!(compare("", "a"), Order::Less);
    assert_eq!(compare("a", ""), Order::Greater);
    assert_eq!(compare("abc", "abd"), Order::Less);
    assert_eq!(compare("abd", "abc"), Order::Greater);
    assert_eq!(compare("ab", "abc"), Order::Less);
    assert_eq!(compare("B", "a"), Order::Less);
    // By bytes: 'z' is 0x7a, the first byte of 'é' is 0xc3.
    assert_eq!(compare("z", "\u{e9}"), Order::Less);
}

#[test]
fn test_same_is_equality() {
    for a in SAMPLES {
        for b in SAMPLES {
            assert_eq!(same(a, b), a == b);
        }
    }
    assert!(same("model", "model"));
    assert!(!same("model", "models"));
    assert!(!same("model", "modem"));
}

#[test]
fn test_starts_with_is_the_prefix_test_of_strings() {
    for a in SAMPLES {
        for b in SAMPLES {
            assert_eq!(starts_with(a, b), a.starts_with(b), "{:?} starts with {:?}", a, b);
        }
    }
}

#[test]
fn test_starts_with_examples() {
    assert!(starts_with("model#foo#submodel#bar", "model#foo#submodel#"));
    assert!(starts_with("model#foo", "model#foo"));
    assert!(!starts_with("model#foo", "model#foo#"));
    assert!(!starts_with("model#foo", "Model"));
    assert!(starts_with("anything", ""));
    assert!(starts_with("", ""));
    assert!(!starts_with("", "a"));
}
