//! The table held in memory: a store of records under their primary keys
//! and a second store, the index, that every write keeps in step.

use vstd::prelude::*;
use vstd::string::*;
use crate::record::Record;
use crate::state::{
    all_hold, all_supported, attr_string, capped, check_holds, check_supported,
    lemma_with_item_valid, matching, scan_bound, Table,
};
use crate::store::{items, EntryView, Store};
use crate::text::{opt_name, same, starts_with};
use crate::traits::{Database, Key};
use crate::types::{
    opt_record, record_views, step_views, ConditionCheck, CreateTableOutput, DatabaseError,
    DeleteTableOutput, DescribeTableOutput, GetItemOutput, PutItemOutput, QueryOutput,
    ScanOutput, TableDescription, TransactWriteItem, TransactWriteItemsOutput,
};

verus! {

/// A table in memory.
#[derive(Debug, PartialEq, Eq)]
pub struct MemoryDB {
    table_name: String,
    table: Store,
    index: Store,
}

impl View for MemoryDB {
    type V = Table;

    closed spec fn view(&self) -> Table {
        Table { table_name: self.table_name@, table: self.table@, index: self.index@ }
    }
}

/// The character is a decimal digit or one of the letters `a` to `f`.
pub open spec fn is_lower_hex(c: char) -> bool {
    ('0' <= c && c <= '9') || ('a' <= c && c <= 'f')
}

/// The text is a hyphenated identifier: 36 characters, hyphens at the
/// places 8, 13, 18 and 23, and lower-case hexadecimal digits elsewhere.
pub open spec fn is_hyphenated_id(s: Seq<char>) -> bool {
    &&& s.len() == 36
    &&& forall|i: int|
        0 <= i < 36 ==> if i == 8 || i == 13 || i == 18 || i == 23 {
            s[i] == '-'
        } else {
            is_lower_hex(#[trigger] s[i])
        }
}

/// What the name of a table made by [`memorydb`] starts with.
pub open spec fn table_name_prefix() -> Seq<char> {
    "single-table-"@
}

/// A fresh random identifier in hyphenated form.
///
/// Calls `uuid::Uuid::new_v4`, then `hyphenated` and `to_string` on the
/// result. Assumed of them: the text has the 36 characters of the
/// hyphenated form, lower-case hexadecimal digits in groups of 8, 4, 4, 4
/// and 12 with a hyphen between the groups. Which digits come is left
/// open. `new_v4` panics where the system has no random bytes to give.
#[verifier::external_body]
fn random_id() -> (r: String)
    ensures
        is_hyphenated_id(r@),
{
    uuid::Uuid::new_v4().hyphenated().to_string()
}

/// A new empty table in memory, under a name made of `single-table-` and a
/// fresh random identifier in hyphenated form.
pub fn memorydb() -> (r: MemoryDB)
    ensures
        r@.valid(),
        exists|id: Seq<char>|
            #[trigger] is_hyphenated_id(id) && r@ == Table::empty(table_name_prefix() + id),
{
    let id = random_id();
    MemoryDB::new(table_name_for(id.as_str()))
}

/// The name of the table with the identifier `id`.
pub fn table_name_for(id: &str) -> (r: String)
    ensures
        r@ == table_name_prefix() + id@,
{
    let mut name = String::from_str("single-table-");
    name.append(id);
    name
}

/// The string that `item` holds under `name`, if it holds a string there.
fn string_of<'a>(item: &'a Record, name: &str) -> (r: Option<&'a String>)
    ensures
        match r {
            Some(text) => attr_string(item@, name@) == Some(text@),
            None => attr_string(item@, name@).is_none(),
        },
{
    match item.get(name) {
        Some(value) => match &value.s {
            Some(text) => Some(text),
            None => None,
        },
        None => None,
    }
}

/// Whether a condition check is in the form that the table evaluates.
fn is_supported(check: &ConditionCheck) -> (r: bool)
    ensures
        r == check_supported(check@),
{
    if !same(check.condition_expression.as_str(), "model = :model") {
        return false;
    }
    match &check.expression_attribute_values {
        Some(values) => string_of(values, ":model").is_some(),
        None => false,
    }
}

/// Whether a supported condition check holds of the table.
fn holds(table: &Store, check: &ConditionCheck) -> (r: bool)
    requires
        check_supported(check@),
    ensures
        r == check_holds(table@, check@),
{
    let (pk, sk) = check.key.key();
    let asked = match &check.expression_attribute_values {
        Some(values) => string_of(values, ":model"),
        None => None,
    };
    match table.get(pk.as_str(), sk.as_str()) {
        Some(found) => match (string_of(found, "model"), asked) {
            (Some(has), Some(wants)) => same(has.as_str(), wants.as_str()),
            _ => false,
        },
        None => false,
    }
}

/// Whether every condition check among the steps is in the form that the
/// table evaluates.
fn every_check_supported(steps: &Vec<TransactWriteItem>) -> (r: bool)
    ensures
        r == all_supported(step_views(steps@)),
{
    let ghost views = step_views(steps@);
    let mut i: usize = 0;
    while i < steps.len()
        invariant
            views == step_views(steps@),
            i <= steps@.len(),
            forall|j: int|
                0 <= j < i && (#[trigger] views[j]).condition_check is Some ==> check_supported(
                    views[j].condition_check->0,
                ),
        decreases steps.len() - i,
    {
        if let Some(check) = &steps[i].condition_check {
            if !is_supported(check) {
                assert(views[i as int].condition_check == Some(check@));
                return false;
            }
        }
        i += 1;
    }
    true
}

/// Whether every condition check among the steps, all of them in the
/// supported form, holds of the table.
fn every_check_holds(table: &Store, steps: &Vec<TransactWriteItem>) -> (r: bool)
    requires
        all_supported(step_views(steps@)),
    ensures
        r == all_hold(table@, step_views(steps@)),
{
    let ghost views = step_views(steps@);
    let mut i: usize = 0;
    while i < steps.len()
        invariant
            views == step_views(steps@),
            all_supported(views),
            i <= steps@.len(),
            forall|j: int|
                0 <= j < i && (#[trigger] views[j]).condition_check is Some ==> check_holds(
                    table@,
                    views[j].condition_check->0,
                ),
        decreases steps.len() - i,
    {
        if let Some(check) = &steps[i].condition_check {
            assert(views[i as int].condition_check == Some(check@));
            if !holds(table, check) {
                return false;
            }
        }
        i += 1;
    }
    true
}

/// A list of records that holds the records of `entries` holds, with the
/// record of one more entry, the records of the longer list of entries.
proof fn lemma_push_item(had: Seq<Record>, record: Record, entries: Seq<EntryView>, e: EntryView)
    requires
        record_views(had) == items(entries),
        record@ == e.item,
    ensures
        record_views(had.push(record)) == items(entries.push(e)),
{
    assert(record_views(had).len() == had.len());
    assert(items(entries).len() == entries.len());
    assert forall|j: int| 0 <= j < had.len() + 1 implies record_views(had.push(record))[j]
        == items(entries.push(e))[j] by {
        if j < had.len() {
            assert(record_views(had)[j] == had[j]@);
            assert(items(entries)[j] == entries[j].item);
        }
    }
    assert(record_views(had.push(record)) =~= items(entries.push(e)));
}

/// The records of `store` that a query for the partition `partition` and
/// the sort key prefix `prefix` returns, and their number.
fn select(store: &Store, partition: &str, prefix: &str) -> (r: (Vec<Record>, i64))
    ensures
        record_views(r.0@) == capped(
            items(store@.filter(matching(partition@, prefix@))),
            i64::MAX as int,
        ),
        r.1 == r.0@.len(),
{
    let ghost s = store@;
    let ghost pred = matching(partition@, prefix@);
    let n = store.len();
    let mut out: Vec<Record> = Vec::new();
    let mut count: i64 = 0;
    let mut i: usize = 0;
    proof {
        reveal(Seq::filter);
    }
    loop
        invariant
            s == store@,
            pred == matching(partition@, prefix@),
            n == s.len(),
            i <= n,
            count == out@.len(),
            record_views(out@) == items(s.take(i as int).filter(pred)),
        ensures
            count == out@.len(),
            record_views(out@) == capped(items(s.filter(pred)), i64::MAX as int),
        decreases n - i,
    {
        let ghost before = s.take(i as int).filter(pred);
        let e = match store.entry(i) {
            Some(e) => e,
            None => {
                proof {
                    assert(s.take(i as int) =~= s);
                }
                break ;
            },
        };
        proof {
            reveal(Seq::filter);
            assert(s.take(i as int + 1).drop_last() =~= s.take(i as int));
        }
        if same(e.partition.as_str(), partition) && starts_with(e.sort.as_str(), prefix) {
            if count == i64::MAX {
                proof {
                    let rest = s.skip(i as int + 1);
                    assert(s =~= s.take(i as int + 1) + rest);
                    Seq::filter_distributes_over_add(s.take(i as int + 1), rest, pred);
                    assert(items(before).len() == before.len());
                }
                break ;
            }
            proof {
                lemma_push_item(out@, e.item, before, s[i as int]);
            }
            out.push(e.item.clone());
            count = count + 1;
        }
        i += 1;
    }
    (out, count)
}

/// The first records of `store`, up to the limit, and their number.
fn first(store: &Store, limit: Option<i64>) -> (r: (Vec<Record>, i64))
    ensures
        record_views(r.0@) == capped(items(store@), scan_bound(limit)),
        r.1 == r.0@.len(),
{
    let ghost s = store@;
    let bound: i64 = match limit {
        None => i64::MAX,
        Some(n) => if n < 0 {
            0
        } else {
            n
        },
    };
    let n = store.len();
    let mut out: Vec<Record> = Vec::new();
    let mut count: i64 = 0;
    let mut i: usize = 0;
    loop
        invariant
            s == store@,
            bound == scan_bound(limit),
            n == s.len(),
            i <= n,
            count == i,
            count <= bound,
            count == out@.len(),
            record_views(out@) == items(s.take(i as int)),
        ensures
            count == out@.len(),
            record_views(out@) == capped(items(s), bound as int),
        decreases n - i,
    {
        if count >= bound {
            break ;
        }
        let e = match store.entry(i) {
            Some(e) => e,
            None => {
                break ;
            },
        };
        proof {
            lemma_push_item(out@, e.item, s.take(i as int), s[i as int]);
            assert(s.take(i as int).push(s[i as int]) =~= s.take(i as int + 1));
        }
        out.push(e.item.clone());
        count = count + 1;
        i += 1;
    }
    (out, count)
}

impl MemoryDB {
    #[verifier::type_invariant]
    spec fn well_formed(self) -> bool {
        self@.valid()
    }

    /// A new empty table under the name `table_name`.
    pub fn new(table_name: String) -> (r: Self)
        ensures
            r@ == Table::empty(table_name@),
            r@.valid(),
    {
        MemoryDB { table_name, table: Store::new(), index: Store::new() }
    }

    /// The store that a read with the index name `index` goes to, if any.
    fn source(&self, index: Option<&str>) -> (r: Option<&Store>)
        ensures
            match r {
                Some(store) => store@ == self@.source(opt_name(index)),
                None => self@.source(opt_name(index)) =~= Seq::<EntryView>::empty(),
            },
    {
        match index {
            None => Some(&self.table),
            Some(name) => if same(name, "model") {
                Some(&self.index)
            } else {
                None
            },
        }
    }

    /// Empties both stores.
    fn delete_all(&mut self)
        ensures
            final(self)@ == old(self)@.cleared(),
            final(self)@.valid(),
    {
        let mut taken = MemoryDB::new(String::new());
        core::mem::swap(self, &mut taken);
        let MemoryDB { table_name, table: _, index: _ } = taken;
        *self = MemoryDB::new(table_name);
    }
}

impl Database for MemoryDB {
    open spec fn name(&self) -> Seq<char> {
        self@.table_name
    }

    fn table_name(&self) -> (r: String)
        ensures
            r@ == self@.table_name,
            self@.valid(),
    {
        proof {
            use_type_invariant(self);
        }
        self.table_name.clone()
    }

    /// Clears both stores. Never fails.
    fn delete_table(&mut self) -> (r: Result<DeleteTableOutput, DatabaseError>)
        ensures
            final(self)@ == old(self)@.cleared(),
            final(self)@.valid(),
            r == Ok::<DeleteTableOutput, DatabaseError>(
                DeleteTableOutput { table_description: None },
            ),
    {
        self.delete_all();
        Ok(DeleteTableOutput { table_description: None })
    }

    fn sync_delete_table(&mut self)
        ensures
            final(self)@ == old(self)@.cleared(),
            final(self)@.valid(),
    {
        let _ = self.delete_table();
    }

    /// Sets both stores up empty. Never fails, however often it is called.
    fn create_table(&mut self) -> (r: Result<CreateTableOutput, DatabaseError>)
        ensures
            final(self)@ == old(self)@.cleared(),
            final(self)@.valid(),
            r == Ok::<CreateTableOutput, DatabaseError>(
                CreateTableOutput { table_description: None },
            ),
    {
        self.delete_all();
        Ok(CreateTableOutput { table_description: None })
    }

    fn sync_create_table(&mut self)
        ensures
            final(self)@ == old(self)@.cleared(),
            final(self)@.valid(),
    {
        let _ = self.create_table();
    }

    /// Gives the table's name. Never fails.
    fn describe_table(&self) -> (r: Result<DescribeTableOutput, DatabaseError>)
        ensures
            r matches Ok(out) && out.table matches Some(description)
                && description.table_name matches Some(name) && name@ == self@.table_name,
            self@.valid(),
    {
        proof {
            use_type_invariant(self);
        }
        Ok(
            DescribeTableOutput {
                table: Some(TableDescription { table_name: Some(self.table_name.clone()) }),
            },
        )
    }

    /// The first records in key order, of the table where `index` is
    /// `None` and of the index where it names the index, up to `limit`
    /// where one is given; none for a limit below 1 or another index name.
    /// Both counts are the number of records returned. Never fails.
    fn scan(&self, index: Option<&str>, limit: Option<i64>) -> (r: Result<
        ScanOutput,
        DatabaseError,
    >)
        ensures
            r matches Ok(out) && out.items matches Some(found) && record_views(found@)
                == self@.scan(opt_name(index), limit) && out.count == Some(found@.len() as i64)
                && out.scanned_count == out.count && found@.len() <= scan_bound(limit),
            self@.valid(),
    {
        proof {
            use_type_invariant(self);
        }
        let (found, count) = match self.source(index) {
            Some(store) => first(store, limit),
            None => {
                let found: Vec<Record> = Vec::new();
                (found, 0)
            },
        };
        Ok(ScanOutput { items: Some(found), count: Some(count), scanned_count: Some(count) })
    }

    /// The record under exactly the primary key, or `None`. Never fails.
    fn get_item(&self, pk: &str, sk: &str) -> (r: Result<GetItemOutput, DatabaseError>)
        ensures
            r matches Ok(out) && opt_record(out.item) == self@.item_at(pk@, sk@),
            self@.valid(),
    {
        proof {
            use_type_invariant(self);
        }
        let item = match self.table.get(pk, sk) {
            Some(found) => Some(found.clone()),
            None => None,
        };
        Ok(GetItemOutput { item })
    }

    /// Writes the record to the table under its primary key and to the
    /// index under its index key, each in place of what was there. Never
    /// fails.
    fn put_item(&mut self, item: Record) -> (r: Result<PutItemOutput, DatabaseError>)
        ensures
            final(self)@ == old(self)@.with_item(item@),
            r == Ok::<PutItemOutput, DatabaseError>(PutItemOutput { attributes: None }),
            old(self)@.valid(),
            final(self)@.valid(),
    {
        proof {
            use_type_invariant(&*self);
            lemma_with_item_valid(self@, item@);
        }
        let (pk, sk) = item.key();
        let (model, model_sk) = item.model_key();
        let copy = item.clone();
        let mut taken = MemoryDB::new(String::new());
        core::mem::swap(self, &mut taken);
        let MemoryDB { table_name, mut table, mut index } = taken;
        table.put(pk, sk, item);
        index.put(model, model_sk, copy);
        *self = MemoryDB { table_name, table, index };
        Ok(PutItemOutput { attributes: None })
    }

    /// The records of the partition `pk` whose sort key starts with `sk`,
    /// in key order: of the table where `index` is `None`, of the index
    /// where it names the index, none for another name. Never fails.
    fn query(&self, index: Option<&str>, pk: &str, sk: &str) -> (r: Result<
        QueryOutput,
        DatabaseError,
    >)
        ensures
            r matches Ok(out) && out.items matches Some(found) && record_views(found@)
                == self@.query(opt_name(index), pk@, sk@) && out.count == Some(
                found@.len() as i64,
            ),
            self@.valid(),
    {
        proof {
            use_type_invariant(self);
        }
        let (found, count) = match self.source(index) {
            Some(store) => select(store, pk, sk),
            None => {
                let found: Vec<Record> = Vec::new();
                proof {
                    reveal(Seq::filter);
                }
                (found, 0)
            },
        };
        Ok(QueryOutput { items: Some(found), count: Some(count) })
    }

    /// Makes the steps as one unit. Where a condition check is in a form
    /// that the table does not evaluate, nothing is written and the error
    /// is `Unsupported`. Else, where a condition check does not hold of the
    /// table as it stands before the batch, nothing is written and the
    /// error is `Conflict`. Else every put is made, in the order of the
    /// steps. The table names that the steps carry are not looked at: there
    /// is one table.
    fn transact_write_items(&mut self, transact_items: Vec<TransactWriteItem>) -> (r: Result<
        TransactWriteItemsOutput,
        DatabaseError,
    >)
        ensures
            old(self)@.valid(),
            final(self)@.valid(),
            match r {
                Ok(_) => all_hold(old(self)@.table, step_views(transact_items@)) && final(self)@
                    == old(self)@.with_puts(step_views(transact_items@)),
                Err(e) => final(self)@ == old(self)@ && if all_supported(
                    step_views(transact_items@),
                ) {
                    e == DatabaseError::Conflict && !all_hold(
                        old(self)@.table,
                        step_views(transact_items@),
                    )
                } else {
                    e == DatabaseError::Unsupported
                },
            },
    {
        proof {
            use_type_invariant(&*self);
        }
        if !every_check_supported(&transact_items) {
            return Err(DatabaseError::Unsupported);
        }
        if !every_check_holds(&self.table, &transact_items) {
            return Err(DatabaseError::Conflict);
        }
        let ghost steps = step_views(transact_items@);
        let ghost start = self@;
        let mut i: usize = 0;
        while i < transact_items.len()
            invariant
                steps == step_views(transact_items@),
                i <= steps.len(),
                self@ == start.with_puts(steps.take(i as int)),
                self@.valid(),
            decreases transact_items.len() - i,
        {
            proof {
                assert(steps.take(i as int + 1).drop_last() =~= steps.take(i as int));
            }
            if let Some(step) = &transact_items[i].put {
                let _ = self.put_item(step.item.clone());
            }
            i += 1;
        }
        proof {
            assert(steps.take(i as int) =~= steps);
        }
        Ok(TransactWriteItemsOutput {})
    }
}

} // verus!
