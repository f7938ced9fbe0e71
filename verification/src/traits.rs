//! The interfaces of the library: what a database offers, how the steps of
//! a batched write are made, and how a record's keys are read.

use vstd::prelude::*;
use vstd::string::*;
use crate::record::{string_value, AttributeValue, AttributeValueView, Record, RecordView};
use crate::state::{
    attr_text, index_key, model_condition, model_name, model_value_name, pk_name, primary_key,
    sk_name,
};
use crate::types::{
    ConditionCheck, ConditionCheckView, CreateTableOutput, DatabaseError, DeleteTableOutput,
    DescribeTableOutput, GetCallerIdentityResponse, GetItemOutput, Put, PutItemOutput, PutView,
    QueryOutput, ScanOutput, TransactWriteItem, TransactWriteItemView, TransactWriteItemsOutput,
};

verus! {

/// A database: one table of records with one secondary index.
pub trait Database {
    /// The name of the table.
    spec fn name(&self) -> Seq<char>;

    /// The name of the table.
    fn table_name(&self) -> (r: String)
        ensures
            r@ == self.name(),
    ;

    /// Creates the table, and gives up what creating it returned.
    fn sync_create_table(&mut self);

    /// Deletes the table, and gives up what deleting it returned.
    fn sync_delete_table(&mut self);

    /// Creates the table.
    fn create_table(&mut self) -> Result<CreateTableOutput, DatabaseError>;

    /// Deletes the table with all its records.
    fn delete_table(&mut self) -> Result<DeleteTableOutput, DatabaseError>;

    /// Describes the table.
    fn describe_table(&self) -> Result<DescribeTableOutput, DatabaseError>;

    /// Reads records in key order, from the table or from the index named,
    /// up to `limit` of them.
    fn scan(&self, index: Option<&str>, limit: Option<i64>) -> Result<ScanOutput, DatabaseError>;

    /// Reads the record under exactly the primary key (`pk`, `sk`).
    fn get_item(&self, pk: &str, sk: &str) -> Result<GetItemOutput, DatabaseError>;

    /// Writes a record under its keys.
    fn put_item(&mut self, item: Record) -> Result<PutItemOutput, DatabaseError>;

    /// Reads the records of the partition `pk` whose sort key starts with
    /// `sk`, from the table or from the index named.
    fn query(&self, index: Option<&str>, pk: &str, sk: &str) -> Result<QueryOutput, DatabaseError>;

    /// Makes a list of write steps as one unit.
    fn transact_write_items(&mut self, transact_items: Vec<TransactWriteItem>) -> Result<
        TransactWriteItemsOutput,
        DatabaseError,
    >;
}

/// The record that stands for the key (`pk`, `sk`): the two strings under
/// the names of the key attributes.
pub open spec fn key_record(pk: Seq<char>, sk: Seq<char>) -> RecordView {
    Map::<Seq<char>, AttributeValueView>::empty().insert(
        pk_name(),
        string_value(pk),
    ).insert(sk_name(), string_value(sk))
}

/// The values of a condition on `model`: the string asked for, under the
/// name that the condition uses for it.
pub open spec fn model_values(model: Seq<char>) -> RecordView {
    Map::<Seq<char>, AttributeValueView>::empty().insert(
        model_value_name(),
        string_value(model),
    )
}

/// The step that asks that the table `table_name` hold a record under
/// (`pk`, `sk`) whose `model` is `model`.
pub open spec fn exists_check(
    table_name: Seq<char>,
    pk: Seq<char>,
    sk: Seq<char>,
    model: Seq<char>,
) -> TransactWriteItemView {
    TransactWriteItemView {
        condition_check: Some(
            ConditionCheckView {
                table_name,
                key: key_record(pk, sk),
                condition_expression: model_condition(),
                expression_attribute_values: Some(model_values(model)),
            },
        ),
        put: None,
    }
}

/// The step that writes `item` to the table `table_name`.
pub open spec fn put_step(table_name: Seq<char>, item: RecordView) -> TransactWriteItemView {
    TransactWriteItemView { condition_check: None, put: Some(PutView { table_name, item }) }
}

/// The names of the key attributes differ from each other.
pub proof fn lemma_attribute_names()
    ensures
        pk_name() != sk_name(),
        pk_name() != model_name(),
        sk_name() != model_name(),
{
    reveal_strlit("pk");
    reveal_strlit("sk");
    reveal_strlit("model");
    assert(pk_name()[0] != sk_name()[0]);
}

/// The key record of (`pk`, `sk`) has that primary key.
pub proof fn lemma_key_record(pk: Seq<char>, sk: Seq<char>)
    ensures
        primary_key(key_record(pk, sk)) == (pk, sk),
{
    lemma_attribute_names();
}

/// Builds the record that stands for the key (`pk`, `sk`).
pub fn make_key(pk: &str, sk: &str) -> (key: Record)
    ensures
        key@ == key_record(pk@, sk@),
        primary_key(key@) == (pk@, sk@),
{
    let mut key = Record::new();
    key.insert(String::from_str("pk"), AttributeValue::string(String::from_str(pk)));
    key.insert(String::from_str("sk"), AttributeValue::string(String::from_str(sk)));
    proof {
        lemma_key_record(pk@, sk@);
    }
    key
}

/// Makes the step that asks that the table `table_name` hold a record
/// under (`pk`, `sk`) whose `model` is `model`.
pub fn exists_check_step(table_name: String, pk: &str, sk: &str, model: &str) -> (r:
    TransactWriteItem)
    ensures
        r@ == exists_check(table_name@, pk@, sk@, model@),
{
    let key = make_key(pk, sk);
    let condition_expression = String::from_str("model = :model");
    let mut values = Record::new();
    values.insert(String::from_str(":model"), AttributeValue::string(String::from_str(model)));
    TransactWriteItem {
        condition_check: Some(
            ConditionCheck {
                table_name,
                key,
                condition_expression,
                expression_attribute_values: Some(values),
            },
        ),
        put: None,
    }
}

/// Makes the step that writes `item` to the table `table_name`.
pub fn write_step(table_name: String, item: Record) -> (r: TransactWriteItem)
    ensures
        r@ == put_step(table_name@, item@),
{
    TransactWriteItem { condition_check: None, put: Some(Put { table_name, item }) }
}

/// How the steps of a batched write are made.
pub trait TransactionalOperations {
    /// The name of the table that the steps are for.
    spec fn target(&self) -> Seq<char>;

    /// The step that asks that a record exist under (`pk`, `sk`) with the
    /// given `model`.
    fn condition_check_exists(&self, pk: &str, sk: &str, model: &str) -> (r: TransactWriteItem)
        ensures
            r@ == exists_check(self.target(), pk@, sk@, model@),
    ;

    /// The step that writes `hashmap`.
    fn put(&self, hashmap: Record) -> (r: TransactWriteItem)
        ensures
            r@ == put_step(self.target(), hashmap@),
    ;
}

impl<T: Database> TransactionalOperations for T {
    open spec fn target(&self) -> Seq<char> {
        self.name()
    }

    fn condition_check_exists(&self, pk: &str, sk: &str, model: &str) -> (r: TransactWriteItem) {
        exists_check_step(self.table_name(), pk, sk, model)
    }

    fn put(&self, hashmap: Record) -> (r: TransactWriteItem) {
        write_step(self.table_name(), hashmap)
    }
}

/// A service that says whose credentials are in use.
pub trait SecurityTokens {
    /// Asks the service whose credentials are in use.
    fn get_caller_identity(&self) -> Result<GetCallerIdentityResponse, DatabaseError>;
}

/// How a value's keys are read.
pub trait Key {
    /// The primary key of the value.
    spec fn key_spec(&self) -> (Seq<char>, Seq<char>);

    /// The index key of the value.
    spec fn model_key_spec(&self) -> (Seq<char>, Seq<char>);

    /// The primary key: the partition key and the sort key.
    fn key(&self) -> (r: (String, String))
        ensures
            (r.0@, r.1@) == self.key_spec(),
    ;

    /// The index key: the model and the sort key.
    fn model_key(&self) -> (r: (String, String))
        ensures
            (r.0@, r.1@) == self.model_key_spec(),
    ;
}

/// The string that `item` holds under `name`, or the empty string.
pub fn text_of(item: &Record, name: &str) -> (r: String)
    ensures
        r@ == attr_text(item@, name@),
{
    match item.get(name) {
        Some(value) => match &value.s {
            Some(text) => text.clone(),
            None => String::new(),
        },
        None => String::new(),
    }
}

impl Key for Record {
    open spec fn key_spec(&self) -> (Seq<char>, Seq<char>) {
        primary_key(self@)
    }

    open spec fn model_key_spec(&self) -> (Seq<char>, Seq<char>) {
        index_key(self@)
    }

    fn key(&self) -> (r: (String, String)) {
        (text_of(self, "pk"), text_of(self, "sk"))
    }

    fn model_key(&self) -> (r: (String, String)) {
        (text_of(self, "model"), text_of(self, "sk"))
    }
}

} // verus!
