//! What the operations of a database take and give: the outputs of each
//! operation, the steps of a batched write, and the errors.

use vstd::prelude::*;
use vstd::string::*;
use crate::record::{Record, RecordView};

verus! {

/// A description of a table.
#[derive(Debug, PartialEq, Eq)]
pub struct TableDescription {
    pub table_name: Option<String>,
}

/// What creating a table gives.
#[derive(Debug, PartialEq, Eq)]
pub struct CreateTableOutput {
    pub table_description: Option<TableDescription>,
}

/// What deleting a table gives.
#[derive(Debug, PartialEq, Eq)]
pub struct DeleteTableOutput {
    pub table_description: Option<TableDescription>,
}

/// What describing a table gives.
#[derive(Debug, PartialEq, Eq)]
pub struct DescribeTableOutput {
    pub table: Option<TableDescription>,
}

/// What reading one record gives: the record, or `None` where there is
/// none under the key.
#[derive(Debug, PartialEq, Eq)]
pub struct GetItemOutput {
    pub item: Option<Record>,
}

/// What writing one record gives.
#[derive(Debug, PartialEq, Eq)]
pub struct PutItemOutput {
    pub attributes: Option<Record>,
}

/// What a query gives: the matching records in key order, and how many
/// they are.
#[derive(Debug, PartialEq, Eq)]
pub struct QueryOutput {
    pub items: Option<Vec<Record>>,
    pub count: Option<i64>,
}

/// What a scan gives: the records in key order, how many they are, and
/// how many were looked at.
#[derive(Debug, PartialEq, Eq)]
pub struct ScanOutput {
    pub items: Option<Vec<Record>>,
    pub count: Option<i64>,
    pub scanned_count: Option<i64>,
}

/// What a batched write gives.
#[derive(Debug, PartialEq, Eq)]
pub struct TransactWriteItemsOutput {}

/// Whose credentials are in use.
#[derive(Debug, PartialEq, Eq)]
pub struct GetCallerIdentityResponse {
    pub account: Option<String>,
    pub arn: Option<String>,
    pub user_id: Option<String>,
}

/// Why an operation failed.
#[derive(Debug, PartialEq, Eq)]
pub enum DatabaseError {
    /// What was asked for is not there.
    NotFound,
    /// A condition of a batched write does not hold.
    Conflict,
    /// The request is in a form that the database does not evaluate.
    Unsupported,
    /// The service behind the database failed, with its message.
    Service(String),
}

impl DatabaseError {
    /// The error in words: for a failure of the service its message, for
    /// the others a fixed text.
    pub open spec fn text(&self) -> Seq<char> {
        match self {
            DatabaseError::NotFound => "not found"@,
            DatabaseError::Conflict => "a condition of the write does not hold"@,
            DatabaseError::Unsupported => "the request is not supported"@,
            DatabaseError::Service(m) => m@,
        }
    }

    /// The error in words.
    pub fn message(&self) -> (r: String)
        ensures
            r@ == self.text(),
    {
        match self {
            DatabaseError::NotFound => String::from_str("not found"),
            DatabaseError::Conflict => String::from_str("a condition of the write does not hold"),
            DatabaseError::Unsupported => String::from_str("the request is not supported"),
            DatabaseError::Service(m) => m.clone(),
        }
    }
}

/// A step of a batched write that asks that a condition hold of the record
/// under a key.
#[derive(Debug, PartialEq, Eq)]
pub struct ConditionCheck {
    pub table_name: String,
    /// The key of the record, as a record of its own.
    pub key: Record,
    /// The condition.
    pub condition_expression: String,
    /// The values that the condition names.
    pub expression_attribute_values: Option<Record>,
}

/// A step of a batched write that writes a record.
#[derive(Debug, PartialEq, Eq)]
pub struct Put {
    pub table_name: String,
    pub item: Record,
}

/// One step of a batched write: a condition check, a put, or both.
#[derive(Debug, PartialEq, Eq)]
pub struct TransactWriteItem {
    pub condition_check: Option<ConditionCheck>,
    pub put: Option<Put>,
}

/// What a [`ConditionCheck`] holds.
pub struct ConditionCheckView {
    pub table_name: Seq<char>,
    pub key: RecordView,
    pub condition_expression: Seq<char>,
    pub expression_attribute_values: Option<RecordView>,
}

/// What a [`Put`] holds.
pub struct PutView {
    pub table_name: Seq<char>,
    pub item: RecordView,
}

/// What a [`TransactWriteItem`] holds.
pub struct TransactWriteItemView {
    pub condition_check: Option<ConditionCheckView>,
    pub put: Option<PutView>,
}

/// What an optional record holds.
pub open spec fn opt_record(o: Option<Record>) -> Option<RecordView> {
    match o {
        Some(r) => Some(r@),
        None => None,
    }
}

impl View for ConditionCheck {
    type V = ConditionCheckView;

    open spec fn view(&self) -> ConditionCheckView {
        ConditionCheckView {
            table_name: self.table_name@,
            key: self.key@,
            condition_expression: self.condition_expression@,
            expression_attribute_values: opt_record(self.expression_attribute_values),
        }
    }
}

impl View for Put {
    type V = PutView;

    open spec fn view(&self) -> PutView {
        PutView { table_name: self.table_name@, item: self.item@ }
    }
}

impl View for TransactWriteItem {
    type V = TransactWriteItemView;

    open spec fn view(&self) -> TransactWriteItemView {
        TransactWriteItemView {
            condition_check: match self.condition_check {
                Some(c) => Some(c@),
                None => None,
            },
            put: match self.put {
                Some(p) => Some(p@),
                None => None,
            },
        }
    }
}

/// What a list of records holds.
pub open spec fn record_views(s: Seq<Record>) -> Seq<RecordView> {
    s.map_values(|r: Record| r@)
}

/// What a list of steps holds.
pub open spec fn step_views(s: Seq<TransactWriteItem>) -> Seq<TransactWriteItemView> {
    s.map_values(|t: TransactWriteItem| t@)
}

} // verus!
