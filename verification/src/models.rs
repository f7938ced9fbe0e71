//! The two kinds of record that the table is used for: models, and
//! submodels that belong to a model. Each formats its own keys.

use vstd::prelude::*;
use vstd::string::*;
use crate::record::{Record, RecordView};
use crate::traits::{
    exists_check, exists_check_step, put_step, write_step, Database, Key,
    TransactionalOperations,
};
use crate::types::{
    step_views, DatabaseError, GetItemOutput, TransactWriteItem, TransactWriteItemView,
};

verus! {

/// A point in time: whole seconds since the start of 1970 in UTC, and the
/// nanoseconds since the last whole second.
#[derive(Clone, Copy, Debug, PartialEq, Eq, Structural)]
pub struct Timestamp {
    pub secs: i64,
    pub nanos: u32,
}

/// The current time.
///
/// Calls `chrono::Utc::now`, and reads the result with `timestamp` and
/// `timestamp_subsec_nanos`. Assumed of them: the nanoseconds are below one
/// thousand million, as `now` builds its result from the system clock's
/// nanoseconds within the second. Which time comes is left open. `now`
/// panics where the system clock stands before 1970.
#[verifier::external_body]
fn now() -> (r: Timestamp)
    ensures
        r.nanos < 1_000_000_000,
{
    let t = chrono::Utc::now();
    Timestamp { secs: t.timestamp(), nanos: t.timestamp_subsec_nanos() }
}

/// Both keys of the model called `name`: `model#` and the name.
pub open spec fn model_key_text(name: Seq<char>) -> Seq<char> {
    "model#"@ + name
}

/// The sort key of the submodel called `name` of the model called
/// `parent`: the model's key, `#submodel#`, and the name.
pub open spec fn submodel_key_text(parent: Seq<char>, name: Seq<char>) -> Seq<char> {
    "model#"@ + parent + "#submodel#"@ + name
}

/// What models have under `model`.
pub open spec fn model_kind() -> Seq<char> {
    "model"@
}

/// What submodels have under `model`.
pub open spec fn submodel_kind() -> Seq<char> {
    "submodel"@
}

/// Formats both keys of the model called `name`.
pub fn model_key_of(name: &str) -> (r: String)
    ensures
        r@ == model_key_text(name@),
{
    let mut key = String::from_str("model#");
    key.append(name);
    key
}

/// Formats the sort key of the submodel `name` of the model `parent`.
pub fn submodel_key_of(parent: &str, name: &str) -> (r: String)
    ensures
        r@ == submodel_key_text(parent@, name@),
{
    let mut key = String::from_str("model#");
    key.append(parent);
    key.append("#submodel#");
    key.append(name);
    key
}

/// Why a model or submodel could not be read.
#[derive(Debug, PartialEq, Eq)]
pub enum ProgramError {
    /// The table has no record for the name.
    GetNone(String),
    /// The database failed.
    Database(DatabaseError),
}

impl ProgramError {
    /// The error in words: for a missing record `item not found: ` and the
    /// name, for a failure of the database its words.
    pub open spec fn text(&self) -> Seq<char> {
        match self {
            ProgramError::GetNone(name) => "item not found: "@ + name@,
            ProgramError::Database(e) => e.text(),
        }
    }

    /// The error in words.
    pub fn message(&self) -> (r: String)
        ensures
            r@ == self.text(),
    {
        match self {
            ProgramError::GetNone(name) => {
                let mut text = String::from_str("item not found: ");
                text.append(name.as_str());
                text
            },
            ProgramError::Database(e) => e.message(),
        }
    }
}

/// `r` is what reading the record called `name` comes to where the
/// database found `item`: the record, or the error that says that there is
/// none, with the name.
pub open spec fn found_as(name: Seq<char>, item: Option<Record>, r: Result<Record, ProgramError>)
    -> bool {
    match item {
        Some(record) => r == Ok::<Record, ProgramError>(record),
        None => r matches Err(ProgramError::GetNone(missing)) && missing@ == name,
    }
}

/// `r` is what reading the record called `name` comes to where the
/// database answered `answer`: what was found, or the error of the
/// database.
pub open spec fn read_as(
    name: Seq<char>,
    answer: Result<GetItemOutput, DatabaseError>,
    r: Result<Record, ProgramError>,
) -> bool {
    match answer {
        Ok(out) => found_as(name, out.item, r),
        Err(e) => r == Err::<Record, ProgramError>(ProgramError::Database(e)),
    }
}

/// What reading the record called `name` comes to, given what the database
/// found: the record, or the error that says that there is none.
pub fn found(name: &str, item: Option<Record>) -> (r: Result<Record, ProgramError>)
    ensures
        found_as(name@, item, r),
{
    match item {
        Some(record) => Ok(record),
        None => Err(ProgramError::GetNone(String::from_str(name))),
    }
}

/// What reading the record called `name` comes to, given what the database
/// answered.
pub fn read(name: &str, answer: Result<GetItemOutput, DatabaseError>) -> (r: Result<
    Record,
    ProgramError,
>)
    ensures
        read_as(name@, answer, r),
{
    match answer {
        Ok(out) => found(name, out.item),
        Err(e) => Err(ProgramError::Database(e)),
    }
}

/// A model: a named value.
#[derive(Debug, PartialEq, Eq)]
pub struct Model {
    name: String,
    a_number: i32,
    created_at: Timestamp,
    pk: String,
    sk: String,
    model: String,
}

/// What a [`Model`] holds.
pub struct ModelView {
    pub name: Seq<char>,
    pub a_number: i32,
    pub created_at: Timestamp,
    pub pk: Seq<char>,
    pub sk: Seq<char>,
    pub model: Seq<char>,
}

impl View for Model {
    type V = ModelView;

    closed spec fn view(&self) -> ModelView {
        ModelView {
            name: self.name@,
            a_number: self.a_number,
            created_at: self.created_at,
            pk: self.pk@,
            sk: self.sk@,
            model: self.model@,
        }
    }
}

/// The model called `name` with the value `a_number`, made at
/// `created_at`.
pub open spec fn new_model(name: Seq<char>, a_number: i32, created_at: Timestamp) -> ModelView {
    ModelView {
        name,
        a_number,
        created_at,
        pk: model_key_text(name),
        sk: model_key_text(name),
        model: model_kind(),
    }
}

impl Clone for Model {
    fn clone(&self) -> (r: Self)
        ensures
            r@ == self@,
    {
        Model {
            name: self.name.clone(),
            a_number: self.a_number,
            created_at: self.created_at,
            pk: self.pk.clone(),
            sk: self.sk.clone(),
            model: self.model.clone(),
        }
    }
}

impl Model {
    /// A new model, made now.
    pub fn new(name: &str, a_number: i32) -> (r: Self)
        ensures
            r@ == new_model(name@, a_number, r@.created_at),
            r@.created_at.nanos < 1_000_000_000,
    {
        Model::at(name, a_number, now())
    }

    /// A new model, made at `created_at`.
    pub fn at(name: &str, a_number: i32, created_at: Timestamp) -> (r: Self)
        ensures
            r@ == new_model(name@, a_number, created_at),
    {
        Model {
            name: String::from_str(name),
            a_number,
            created_at,
            pk: model_key_of(name),
            sk: model_key_of(name),
            model: String::from_str("model"),
        }
    }

    /// A model with the given fields, as they were stored.
    pub fn from_parts(
        name: String,
        a_number: i32,
        created_at: Timestamp,
        pk: String,
        sk: String,
        model: String,
    ) -> (r: Self)
        ensures
            r@ == (ModelView {
                name: name@,
                a_number,
                created_at,
                pk: pk@,
                sk: sk@,
                model: model@,
            }),
    {
        Model { name, a_number, created_at, pk, sk, model }
    }

    /// Reads the record of the model called `name` from `db`: the record
    /// under the model's keys, or the error that says that there is none,
    /// or the error of the database.
    pub fn get<DB: Database>(db: &DB, name: &str) -> (r: Result<Record, ProgramError>)
        ensures
            exists|key: &str, answer: Result<GetItemOutput, DatabaseError>|
                key@ == model_key_text(name@) && call_ensures(DB::get_item, (db, key, key), answer)
                    && read_as(name@, answer, r),
    {
        let key = model_key_of(name);
        let key = key.as_str();
        read(name, db.get_item(key, key))
    }

    /// The name of the model.
    pub fn name(&self) -> (r: &str)
        ensures
            r@ == self@.name,
    {
        self.name.as_str()
    }

    /// The value of the model.
    pub fn value(&self) -> (r: i32)
        ensures
            r == self@.a_number,
    {
        self.a_number
    }

    /// When it was made.
    pub fn created_at(&self) -> (r: Timestamp)
        ensures
            r == self@.created_at,
    {
        self.created_at
    }

    /// The partition key.
    pub fn pk(&self) -> (r: String)
        ensures
            r@ == self@.pk,
    {
        self.pk.clone()
    }

    /// The sort key.
    pub fn sk(&self) -> (r: String)
        ensures
            r@ == self@.sk,
    {
        self.sk.clone()
    }

    /// The kind of record: the partition key of the index.
    pub fn model(&self) -> (r: String)
        ensures
            r@ == self@.model,
    {
        self.model.clone()
    }
}

impl Key for Model {
    open spec fn key_spec(&self) -> (Seq<char>, Seq<char>) {
        (self@.pk, self@.sk)
    }

    open spec fn model_key_spec(&self) -> (Seq<char>, Seq<char>) {
        (self@.model, self@.sk)
    }

    fn key(&self) -> (r: (String, String)) {
        (self.pk(), self.sk())
    }

    fn model_key(&self) -> (r: (String, String)) {
        (self.model(), self.sk())
    }
}

/// A submodel: a named part of a model.
#[derive(Debug, PartialEq, Eq)]
pub struct SubModel {
    name: String,
    parent: String,
    created_at: Timestamp,
    pk: String,
    sk: String,
    model: String,
}

/// What a [`SubModel`] holds.
pub struct SubModelView {
    pub name: Seq<char>,
    pub parent: Seq<char>,
    pub created_at: Timestamp,
    pub pk: Seq<char>,
    pub sk: Seq<char>,
    pub model: Seq<char>,
}

impl View for SubModel {
    type V = SubModelView;

    closed spec fn view(&self) -> SubModelView {
        SubModelView {
            name: self.name@,
            parent: self.parent@,
            created_at: self.created_at,
            pk: self.pk@,
            sk: self.sk@,
            model: self.model@,
        }
    }
}

/// The submodel called `name` of the model `parent`, made at `created_at`:
/// it shares the partition of its parent, its sort key goes on from the
/// parent's, and it keeps the parent's sort key.
pub open spec fn new_submodel(name: Seq<char>, parent: ModelView, created_at: Timestamp)
    -> SubModelView {
    SubModelView {
        name,
        parent: parent.sk,
        created_at,
        pk: model_key_text(parent.name),
        sk: submodel_key_text(parent.name, name),
        model: submodel_kind(),
    }
}

/// The steps that save the submodel record `encoded` to the table
/// `table_name`: a check that the parent is there as a model, then the put.
pub open spec fn save_steps(table_name: Seq<char>, parent: Seq<char>, encoded: RecordView) -> Seq<
    TransactWriteItemView,
> {
    seq![
        exists_check(table_name, parent, parent, model_kind()),
        put_step(table_name, encoded),
    ]
}

impl SubModel {
    /// A new submodel of `parent`, made now.
    pub fn new(name: &str, parent: Model) -> (r: Self)
        ensures
            r@ == new_submodel(name@, parent@, r@.created_at),
            r@.created_at.nanos < 1_000_000_000,
    {
        SubModel::at(name, parent, now())
    }

    /// A new submodel of `parent`, made at `created_at`.
    pub fn at(name: &str, parent: Model, created_at: Timestamp) -> (r: Self)
        ensures
            r@ == new_submodel(name@, parent@, created_at),
    {
        SubModel {
            name: String::from_str(name),
            parent: parent.sk(),
            created_at,
            pk: model_key_of(parent.name()),
            sk: submodel_key_of(parent.name(), name),
            model: String::from_str("submodel"),
        }
    }

    /// A submodel with the given fields, as they were stored.
    pub fn from_parts(
        name: String,
        parent: String,
        created_at: Timestamp,
        pk: String,
        sk: String,
        model: String,
    ) -> (r: Self)
        ensures
            r@ == (SubModelView {
                name: name@,
                parent: parent@,
                created_at,
                pk: pk@,
                sk: sk@,
                model: model@,
            }),
    {
        SubModel { name, parent, created_at, pk, sk, model }
    }

    /// Reads the record of the submodel `name` of the model `parent` from
    /// `db`: the record under the submodel's keys, or the error that says
    /// that there is none, or the error of the database.
    pub fn get<DB: Database>(db: &DB, parent: &str, name: &str) -> (r: Result<
        Record,
        ProgramError,
    >)
        ensures
            exists|pk: &str, sk: &str, answer: Result<GetItemOutput, DatabaseError>|
                pk@ == model_key_text(parent@) && sk@ == submodel_key_text(parent@, name@)
                    && call_ensures(DB::get_item, (db, pk, sk), answer) && read_as(
                    name@,
                    answer,
                    r,
                ),
    {
        let pk = model_key_of(parent);
        let sk = submodel_key_of(parent, name);
        let pk = pk.as_str();
        let sk = sk.as_str();
        read(name, db.get_item(pk, sk))
    }

    /// The steps that save this submodel with the record `encoded` to the
    /// table called `table_name`.
    pub fn steps_for(&self, table_name: &str, encoded: Record) -> (r: Vec<TransactWriteItem>)
        ensures
            step_views(r@) == save_steps(table_name@, self@.parent, encoded@),
    {
        let check = exists_check_step(
            String::from_str(table_name),
            self.parent.as_str(),
            self.parent.as_str(),
            "model",
        );
        let put = write_step(String::from_str(table_name), encoded);
        let mut steps: Vec<TransactWriteItem> = Vec::new();
        steps.push(check);
        steps.push(put);
        steps
    }

    /// The steps that save this submodel with the record `encoded` to the
    /// table of `db`.
    pub fn steps<DB: Database>(&self, db: &DB, encoded: Record) -> (r: Vec<TransactWriteItem>)
        ensures
            step_views(r@) == save_steps(db.name(), self@.parent, encoded@),
    {
        let check = db.condition_check_exists(
            self.parent.as_str(),
            self.parent.as_str(),
            "model",
        );
        let put = db.put(encoded);
        let mut steps: Vec<TransactWriteItem> = Vec::new();
        steps.push(check);
        steps.push(put);
        steps
    }

    /// The name of the submodel.
    pub fn name(&self) -> (r: String)
        ensures
            r@ == self@.name,
    {
        self.name.clone()
    }

    /// The sort key of the model that the submodel belongs to.
    pub fn parent(&self) -> (r: String)
        ensures
            r@ == self@.parent,
    {
        self.parent.clone()
    }

    /// When it was made.
    pub fn created_at(&self) -> (r: Timestamp)
        ensures
            r == self@.created_at,
    {
        self.created_at
    }

    /// The partition key.
    pub fn pk(&self) -> (r: String)
        ensures
            r@ == self@.pk,
    {
        self.pk.clone()
    }

    /// The sort key.
    pub fn sk(&self) -> (r: String)
        ensures
            r@ == self@.sk,
    {
        self.sk.clone()
    }

    /// The kind of record: the partition key of the index.
    pub fn model(&self) -> (r: String)
        ensures
            r@ == self@.model,
    {
        self.model.clone()
    }
}

impl Key for SubModel {
    open spec fn key_spec(&self) -> (Seq<char>, Seq<char>) {
        (self@.pk, self@.sk)
    }

    open spec fn model_key_spec(&self) -> (Seq<char>, Seq<char>) {
        (self@.model, self@.sk)
    }

    fn key(&self) -> (r: (String, String)) {
        (self.pk(), self.sk())
    }

    fn model_key(&self) -> (r: (String, String)) {
        (self.model(), self.sk())
    }
}

} // verus!
