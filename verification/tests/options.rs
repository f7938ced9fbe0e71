use single_table::args::QueryOpts;
use single_table::env::{default_var_step, resolve_region, Lookup, RegionChoice, VarStep};

fn opts(pk: &str, sk: Option<&str>, index: Option<&str>) -> QueryOpts {
    QueryOpts {
        pk: pk.to_string(),
        sk: sk.map(str::to_string),
        index: index.map(str::to_string),
    }
}

fn pair(a: &str, b: &str) -> (String, String) {
    (a.to_string(), b.to_string())
}

#[test]
fn test_query_keys_on_the_table() {
    assert_eq!(opts("foo", None, None).keys(), pair("model#foo", "model#foo"));
    assert_eq!(
        opts("foo", Some("bar"), None).keys(),
        pair("model#foo", "model#foo#submodel#bar")
    );
    assert_eq!(opts("foo", Some(""), None).keys(), pair("model#foo", "model#foo#submodel#"));
}

#[test]
fn test_query_keys_on_the_index() {
    assert_eq!(opts("foo", None, Some("model")).keys(), pair("model", "model#foo"));
    assert_eq!(
        opts("foo", Some("bar"), Some("model")).keys(),
        pair("submodel", "model#foo#submodel#bar")
    );
}

#[test]
fn test_query_keys_on_another_index() {
    assert_eq!(opts("foo", None, Some("other")).keys(), pair("model#foo", "model#foo"));
    assert_eq!(
        opts("foo", Some("bar"), Some("models")).keys(),
        pair("model#foo", "model#foo#submodel#bar")
    );
}

#[test]
fn test_resolve_region() {
    let both = resolve_region(Some("eu-east-3".to_string()), Some("http://localhost:8000".to_string()));
    assert_eq!(
        both.region,
        RegionChoice::Custom {
            name: "eu-east-3".to_string(),
            endpoint: "http://localhost:8000".to_string()
        }
    );
    assert!(!both.local_credentials);

    let named = resolve_region(Some("us-east-1".to_string()), None);
    assert_eq!(named.region, RegionChoice::Named("us-east-1".to_string()));
    assert!(!named.local_credentials);

    let local = resolve_region(None, Some("http://localhost:2000".to_string()));
    assert_eq!(
        local.region,
        RegionChoice::Custom {
            name: "local".to_string(),
            endpoint: "http://localhost:2000".to_string()
        }
    );
    assert!(local.local_credentials);

    let neither = resolve_region(None, None);
    assert_eq!(neither.region, RegionChoice::Default);
    assert!(!neither.local_credentials);
}

#[test]
fn test_default_var_step() {
    assert_eq!(
        default_var_step(Lookup::Present("mine".to_string()), "local"),
        VarStep::Keep("mine".to_string())
    );
    assert_eq!(default_var_step(Lookup::NotPresent, "local"), VarStep::Assign("local".to_string()));
    assert_eq!(default_var_step(Lookup::NotUnicode, "local"), VarStep::Fail);
}
