use single_table::ddb::{
    create_table_input, query_input, AttributeDefinition, GlobalSecondaryIndex, KeySchemaElement,
    Projection, ProvisionedThroughput,
};
use single_table::record::AttributeValue;

fn key(name: &str, key_type: &str) -> KeySchemaElement {
    KeySchemaElement { attribute_name: name.to_string(), key_type: key_type.to_string() }
}

fn string_attribute(name: &str) -> AttributeDefinition {
    AttributeDefinition { attribute_name: name.to_string(), attribute_type: "S".to_string() }
}

fn pair(a: &str, b: &str) -> (String, String) {
    (a.to_string(), b.to_string())
}

#[test]
fn test_create_table_input() {
    let input = create_table_input("single-table".to_string());
    let unit = ProvisionedThroughput { read_capacity_units: 1, write_capacity_units: 1 };
    assert_eq!(input.table_name, "single-table");
    assert_eq!(input.key_schema, vec![key("pk", "HASH"), key("sk", "RANGE")]);
    assert_eq!(
        input.attribute_definitions,
        vec![string_attribute("pk"), string_attribute("sk"), string_attribute("model")]
    );
    assert_eq!(
        input.global_secondary_indexes,
        Some(vec![GlobalSecondaryIndex {
            index_name: "model".to_string(),
            key_schema: vec![key("model", "HASH"), key("sk", "RANGE")],
            projection: Projection { projection_type: Some("ALL".to_string()) },
            provisioned_throughput: Some(unit),
        }])
    );
    assert_eq!(input.provisioned_throughput, Some(unit));
}

#[test]
fn test_query_input_on_the_table() {
    let input = query_input("t".to_string(), None, "model#foo", "model#foo#submodel#");
    assert_eq!(input.table_name, "t");
    assert_eq!(input.index_name, None);
    assert_eq!(
        input.key_condition_expression,
        Some("#pk = :pk AND begins_with(#sk, :sk)".to_string())
    );
    assert_eq!(
        input.expression_attribute_names,
        Some(vec![pair("#pk", "pk"), pair("#sk", "sk")])
    );
    let values = input.expression_attribute_values.unwrap();
    assert_eq!(values.len(), 2);
    assert_eq!(values.get(":pk"), Some(&AttributeValue::string("model#foo".to_string())));
    assert_eq!(
        values.get(":sk"),
        Some(&AttributeValue::string("model#foo#submodel#".to_string()))
    );
}

#[test]
fn test_query_input_on_the_index() {
    let input = query_input("t".to_string(), Some("model"), "submodel", "model#foo");
    assert_eq!(input.index_name, Some("model".to_string()));
    assert_eq!(
        input.expression_attribute_names,
        Some(vec![pair("#pk", "model"), pair("#sk", "sk")])
    );
    let values = input.expression_attribute_values.unwrap();
    assert_eq!(values.get(":pk"), Some(&AttributeValue::string("submodel".to_string())));
    assert_eq!(values.get(":sk"), Some(&AttributeValue::string("model#foo".to_string())));
}

#[test]
fn test_query_input_on_another_index() {
    let input = query_input("t".to_string(), Some("other"), "a", "b");
    assert_eq!(input.index_name, Some("other".to_string()));
    assert_eq!(input.expression_attribute_names, None);
    assert_eq!(
        input.key_condition_expression,
        Some("#pk = :pk AND begins_with(#sk, :sk)".to_string())
    );
    assert!(input.expression_attribute_values.is_some());
}
