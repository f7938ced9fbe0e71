//! The options of the command line, and the keys that a query asked for on
//! the command line goes by.

use vstd::prelude::*;
use vstd::string::*;
use crate::models::{
    model_key_of, model_key_text, model_kind, submodel_key_of, submodel_key_text, submodel_kind,
};
use crate::record::opt_text;
use crate::text::same;

verus! {

/// The options of the program.
#[derive(Debug, PartialEq, Eq)]
pub struct Opts {
    pub aws_endpoint_url: Option<String>,
    pub aws_region: Option<String>,
    /// The name of the table.
    pub table_name: String,
    pub commands: Commands,
}

/// What the program is asked to do.
#[derive(Debug, PartialEq, Eq)]
pub enum Commands {
    /// Create the table.
    Create,
    /// Describe the table.
    Describe,
    /// Scan for all records of the table or of an index.
    Scan(ScanOpts),
    /// Put a model into the table.
    PutModel(PutModelOpts),
    /// Put a submodel into the table.
    PutSubModel(PutSubModelOpts),
    /// Get a model by its name.
    GetModel(GetModelOpts),
    /// Get a submodel by its parent's name and its own.
    GetSubModel(GetSubModelOpts),
    /// Query for records by partition key and, if given, sort key.
    Query(QueryOpts),
    /// Say whose credentials are in use.
    WhoAmI,
}

#[derive(Debug, PartialEq, Eq)]
pub struct ScanOpts {
    pub index: Option<String>,
    pub limit: Option<i64>,
}

#[derive(Debug, PartialEq, Eq)]
pub struct GetModelOpts {
    pub name: String,
}

#[derive(Debug, PartialEq, Eq)]
pub struct GetSubModelOpts {
    pub parent: String,
    pub name: String,
}

#[derive(Debug, PartialEq, Eq)]
pub struct QueryOpts {
    pub pk: String,
    pub sk: Option<String>,
    pub index: Option<String>,
}

#[derive(Debug, PartialEq, Eq)]
pub struct PutModelOpts {
    pub name: String,
    pub a_version: i32,
}

#[derive(Debug, PartialEq, Eq)]
pub struct PutSubModelOpts {
    pub name: String,
    pub parent: String,
}

/// The partition key and the sort key prefix that a query for the model
/// `pk` goes by. On the index, a query with `sk` looks among the submodels
/// for the submodel `sk` of the model, and one without looks among the
/// models for the model. On the table, or with the name of no index, the
/// query looks in the partition of the model, for the submodel `sk` or for
/// the model itself.
pub open spec fn query_keys(pk: Seq<char>, sk: Option<Seq<char>>, index: Option<Seq<char>>) -> (
    Seq<char>,
    Seq<char>,
) {
    let sort = match sk {
        Some(sub) => submodel_key_text(pk, sub),
        None => model_key_text(pk),
    };
    if index == Some(model_kind()) {
        match sk {
            Some(_) => (submodel_kind(), sort),
            None => (model_kind(), sort),
        }
    } else {
        (model_key_text(pk), sort)
    }
}

impl QueryOpts {
    /// The partition key and the sort key prefix that the query goes by.
    pub fn keys(&self) -> (r: (String, String))
        ensures
            (r.0@, r.1@) == query_keys(self.pk@, opt_text(self.sk), opt_text(self.index)),
    {
        let sort = match &self.sk {
            Some(sub) => submodel_key_of(self.pk.as_str(), sub.as_str()),
            None => model_key_of(self.pk.as_str()),
        };
        let on_index = match &self.index {
            Some(index) => same(index.as_str(), "model"),
            None => false,
        };
        if on_index {
            match &self.sk {
                Some(_) => (String::from_str("submodel"), sort),
                None => (String::from_str("model"), sort),
            }
        } else {
            (model_key_of(self.pk.as_str()), sort)
        }
    }
}

} // verus!
