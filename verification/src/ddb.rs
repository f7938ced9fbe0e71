//! What is asked of a remote database service: the schema that the table
//! is created with, and the request that a query is sent as. Sending them
//! is left to the caller.

use vstd::prelude::*;
use vstd::string::*;
use crate::record::{
    opt_text, string_value, AttributeValue, AttributeValueView, Record, RecordView,
};
use crate::text::{opt_name, same};
use crate::types::opt_record;

verus! {

/// One attribute of a key, with its role in the key.
#[derive(Debug, PartialEq, Eq)]
pub struct KeySchemaElement {
    pub attribute_name: String,
    pub key_type: String,
}

/// One attribute that a key uses, with its type.
#[derive(Debug, PartialEq, Eq)]
pub struct AttributeDefinition {
    pub attribute_name: String,
    pub attribute_type: String,
}

/// The capacity that a table or an index is given.
#[derive(Clone, Copy, Debug, PartialEq, Eq, Structural)]
pub struct ProvisionedThroughput {
    pub read_capacity_units: i64,
    pub write_capacity_units: i64,
}

/// Which attributes an index holds of each record.
#[derive(Debug, PartialEq, Eq)]
pub struct Projection {
    pub projection_type: Option<String>,
}

/// A secondary index.
#[derive(Debug, PartialEq, Eq)]
pub struct GlobalSecondaryIndex {
    pub index_name: String,
    pub key_schema: Vec<KeySchemaElement>,
    pub projection: Projection,
    pub provisioned_throughput: Option<ProvisionedThroughput>,
}

/// The request that creates a table.
#[derive(Debug, PartialEq, Eq)]
pub struct CreateTableInput {
    pub table_name: String,
    pub key_schema: Vec<KeySchemaElement>,
    pub attribute_definitions: Vec<AttributeDefinition>,
    pub global_secondary_indexes: Option<Vec<GlobalSecondaryIndex>>,
    pub provisioned_throughput: Option<ProvisionedThroughput>,
}

/// The request that a query is sent as.
#[derive(Debug, PartialEq, Eq)]
pub struct QueryInput {
    pub table_name: String,
    pub index_name: Option<String>,
    pub key_condition_expression: Option<String>,
    /// The attribute that each name of the condition stands for.
    pub expression_attribute_names: Option<Vec<(String, String)>>,
    /// The value that each `:name` of the condition stands for.
    pub expression_attribute_values: Option<Record>,
}

/// A pair of texts.
pub type TextPair = (Seq<char>, Seq<char>);

/// What a list of key attributes holds: the name and the role of each.
pub open spec fn key_schema_view(s: Seq<KeySchemaElement>) -> Seq<TextPair> {
    s.map_values(|e: KeySchemaElement| (e.attribute_name@, e.key_type@))
}

/// What a list of attribute definitions holds: the name and the type of
/// each.
pub open spec fn definitions_view(s: Seq<AttributeDefinition>) -> Seq<TextPair> {
    s.map_values(|e: AttributeDefinition| (e.attribute_name@, e.attribute_type@))
}

/// What a list of pairs of strings holds.
pub open spec fn pairs_view(s: Seq<(String, String)>) -> Seq<TextPair> {
    s.map_values(|p: (String, String)| (p.0@, p.1@))
}

/// What a secondary index holds.
pub struct GlobalSecondaryIndexView {
    pub index_name: Seq<char>,
    pub key_schema: Seq<TextPair>,
    pub projection_type: Option<Seq<char>>,
    pub provisioned_throughput: Option<ProvisionedThroughput>,
}

impl View for GlobalSecondaryIndex {
    type V = GlobalSecondaryIndexView;

    open spec fn view(&self) -> GlobalSecondaryIndexView {
        GlobalSecondaryIndexView {
            index_name: self.index_name@,
            key_schema: key_schema_view(self.key_schema@),
            projection_type: opt_text(self.projection.projection_type),
            provisioned_throughput: self.provisioned_throughput,
        }
    }
}

/// What a request to create a table holds.
pub struct CreateTableInputView {
    pub table_name: Seq<char>,
    pub key_schema: Seq<TextPair>,
    pub attribute_definitions: Seq<TextPair>,
    pub global_secondary_indexes: Option<Seq<GlobalSecondaryIndexView>>,
    pub provisioned_throughput: Option<ProvisionedThroughput>,
}

impl View for CreateTableInput {
    type V = CreateTableInputView;

    open spec fn view(&self) -> CreateTableInputView {
        CreateTableInputView {
            table_name: self.table_name@,
            key_schema: key_schema_view(self.key_schema@),
            attribute_definitions: definitions_view(self.attribute_definitions@),
            global_secondary_indexes: match self.global_secondary_indexes {
                Some(indexes) => Some(indexes@.map_values(|i: GlobalSecondaryIndex| i@)),
                None => None,
            },
            provisioned_throughput: self.provisioned_throughput,
        }
    }
}

/// What a query request holds.
pub struct QueryInputView {
    pub table_name: Seq<char>,
    pub index_name: Option<Seq<char>>,
    pub key_condition_expression: Option<Seq<char>>,
    pub expression_attribute_names: Option<Seq<TextPair>>,
    pub expression_attribute_values: Option<RecordView>,
}

impl View for QueryInput {
    type V = QueryInputView;

    open spec fn view(&self) -> QueryInputView {
        QueryInputView {
            table_name: self.table_name@,
            index_name: opt_text(self.index_name),
            key_condition_expression: opt_text(self.key_condition_expression),
            expression_attribute_names: match self.expression_attribute_names {
                Some(names) => Some(pairs_view(names@)),
                None => None,
            },
            expression_attribute_values: opt_record(
                self.expression_attribute_values,
            ),
        }
    }
}

/// One read and one write unit: the capacity of the table and its index.
pub open spec fn unit_throughput() -> ProvisionedThroughput {
    ProvisionedThroughput { read_capacity_units: 1, write_capacity_units: 1 }
}

/// The schema of the table called `table_name`: the primary key is `pk`
/// as the hash key and `sk` as the range key; the one secondary index,
/// called `model`, has `model` as the hash key and `sk` as the range key
/// and holds every attribute; the three key attributes are strings; the
/// table and the index have one read and one write unit each.
pub open spec fn table_schema(table_name: Seq<char>) -> CreateTableInputView {
    CreateTableInputView {
        table_name,
        key_schema: seq![("pk"@, "HASH"@), ("sk"@, "RANGE"@)],
        attribute_definitions: seq![("pk"@, "S"@), ("sk"@, "S"@), ("model"@, "S"@)],
        global_secondary_indexes: Some(
            seq![
                GlobalSecondaryIndexView {
                    index_name: "model"@,
                    key_schema: seq![("model"@, "HASH"@), ("sk"@, "RANGE"@)],
                    projection_type: Some("ALL"@),
                    provisioned_throughput: Some(unit_throughput()),
                },
            ],
        ),
        provisioned_throughput: Some(unit_throughput()),
    }
}

/// The condition of every query: the partition key is the one asked for,
/// and the sort key begins with the prefix asked for.
pub open spec fn key_condition() -> Seq<char> {
    "#pk = :pk AND begins_with(#sk, :sk)"@
}

/// The attributes that the names of the key condition stand for: on the
/// table, `pk` and `sk`; on the index `model`, `model` and `sk`; on an
/// index of another name, none.
pub open spec fn condition_names(index: Option<Seq<char>>) -> Option<Seq<TextPair>> {
    match index {
        None => Some(seq![("#pk"@, "pk"@), ("#sk"@, "sk"@)]),
        Some(name) => if name == "model"@ {
            Some(seq![("#pk"@, "model"@), ("#sk"@, "sk"@)])
        } else {
            None
        },
    }
}

/// The values that `:pk` and `:sk` of the key condition stand for.
pub open spec fn condition_values(pk: Seq<char>, sk: Seq<char>) -> RecordView {
    Map::<Seq<char>, AttributeValueView>::empty().insert(":pk"@, string_value(pk)).insert(
        ":sk"@,
        string_value(sk),
    )
}

/// The request of a query of the table `table_name`, or of its index
/// `index`, for the partition `pk` and the sort key prefix `sk`.
pub open spec fn query_request(
    table_name: Seq<char>,
    index: Option<Seq<char>>,
    pk: Seq<char>,
    sk: Seq<char>,
) -> QueryInputView {
    QueryInputView {
        table_name,
        index_name: index,
        key_condition_expression: Some(key_condition()),
        expression_attribute_names: condition_names(index),
        expression_attribute_values: Some(condition_values(pk, sk)),
    }
}

fn key_element(name: &str, key_type: &str) -> (r: KeySchemaElement)
    ensures
        r.attribute_name@ == name@,
        r.key_type@ == key_type@,
{
    KeySchemaElement {
        attribute_name: String::from_str(name),
        key_type: String::from_str(key_type),
    }
}

fn string_attribute(name: &str) -> (r: AttributeDefinition)
    ensures
        r.attribute_name@ == name@,
        r.attribute_type@ == "S"@,
{
    AttributeDefinition {
        attribute_name: String::from_str(name),
        attribute_type: String::from_str("S"),
    }
}

fn key_of(hash: &str, range: &str) -> (r: Vec<KeySchemaElement>)
    ensures
        key_schema_view(r@) == seq![(hash@, "HASH"@), (range@, "RANGE"@)],
{
    let mut key: Vec<KeySchemaElement> = Vec::new();
    key.push(key_element(hash, "HASH"));
    key.push(key_element(range, "RANGE"));
    key
}

/// The request that creates the table called `table_name`.
pub fn create_table_input(table_name: String) -> (r: CreateTableInput)
    ensures
        r@ == table_schema(table_name@),
{
    let throughput = ProvisionedThroughput { read_capacity_units: 1, write_capacity_units: 1 };
    let mut attribute_definitions: Vec<AttributeDefinition> = Vec::new();
    attribute_definitions.push(string_attribute("pk"));
    attribute_definitions.push(string_attribute("sk"));
    attribute_definitions.push(string_attribute("model"));
    assert(definitions_view(attribute_definitions@) =~= seq![
        ("pk"@, "S"@),
        ("sk"@, "S"@),
        ("model"@, "S"@),
    ]);
    let mut indexes: Vec<GlobalSecondaryIndex> = Vec::new();
    indexes.push(
        GlobalSecondaryIndex {
            index_name: String::from_str("model"),
            key_schema: key_of("model", "sk"),
            projection: Projection { projection_type: Some(String::from_str("ALL")) },
            provisioned_throughput: Some(throughput),
        },
    );
    assert(indexes@.map_values(|i: GlobalSecondaryIndex| i@)
        =~= table_schema(table_name@).global_secondary_indexes->0);
    CreateTableInput {
        table_name,
        key_schema: key_of("pk", "sk"),
        attribute_definitions,
        global_secondary_indexes: Some(indexes),
        provisioned_throughput: Some(throughput),
    }
}

fn names_for(hash: &str) -> (r: Vec<(String, String)>)
    ensures
        pairs_view(r@) == seq![("#pk"@, hash@), ("#sk"@, "sk"@)],
{
    let mut names: Vec<(String, String)> = Vec::new();
    names.push((String::from_str("#pk"), String::from_str(hash)));
    names.push((String::from_str("#sk"), String::from_str("sk")));
    names
}

/// The request of a query of the table `table_name`, or of its index
/// `index`, for the partition `pk` and the sort key prefix `sk`.
pub fn query_input(table_name: String, index: Option<&str>, pk: &str, sk: &str) -> (r:
    QueryInput)
    ensures
        r@ == query_request(table_name@, opt_name(index), pk@, sk@),
{
    let mut values = Record::new();
    values.insert(String::from_str(":pk"), AttributeValue::string(String::from_str(pk)));
    values.insert(String::from_str(":sk"), AttributeValue::string(String::from_str(sk)));
    let expression_attribute_names = match index {
        None => Some(names_for("pk")),
        Some(name) => if same(name, "model") {
            Some(names_for("model"))
        } else {
            None
        },
    };
    let index_name = match index {
        Some(name) => Some(String::from_str(name)),
        None => None,
    };
    QueryInput {
        table_name,
        index_name,
        key_condition_expression: Some(String::from_str("#pk = :pk AND begins_with(#sk, :sk)")),
        expression_attribute_names,
        expression_attribute_values: Some(values),
    }
}

} // verus!
