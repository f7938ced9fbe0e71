//! The table as a mathematical value: what it holds, and what each
//! operation makes of it.

use vstd::prelude::*;
use crate::record::RecordView;
use crate::store::{
    ascending, has_key, items, lemma_put_entries, lemma_put_lookup, lookup, put, EntryView, KeyView,
};
use crate::text::str_starts_with;
use crate::types::{ConditionCheckView, TransactWriteItemView};

verus! {

/// The name of the attribute that holds the partition part of the primary
/// key.
pub open spec fn pk_name() -> Seq<char> {
    "pk"@
}

/// The name of the attribute that holds the sort part of both keys.
pub open spec fn sk_name() -> Seq<char> {
    "sk"@
}

/// The name of the attribute that holds the partition part of the index
/// key. The secondary index goes by the same name.
pub open spec fn model_name() -> Seq<char> {
    "model"@
}

/// The condition that a batched write can ask for: that the record's
/// `model` attribute equal a given value.
pub open spec fn model_condition() -> Seq<char> {
    "model = :model"@
}

/// The name under which a condition's values hold the `model` asked for.
pub open spec fn model_value_name() -> Seq<char> {
    ":model"@
}

/// The string that `item` holds under `name`, if it holds a string there.
pub open spec fn attr_string(item: RecordView, name: Seq<char>) -> Option<Seq<char>> {
    if item.contains_key(name) {
        item[name].s
    } else {
        None
    }
}

/// The string that `item` holds under `name`; the empty string where it
/// holds none.
pub open spec fn attr_text(item: RecordView, name: Seq<char>) -> Seq<char> {
    match attr_string(item, name) {
        Some(text) => text,
        None => Seq::empty(),
    }
}

/// The primary key of a record: its `pk` and `sk`.
pub open spec fn primary_key(item: RecordView) -> KeyView {
    (attr_text(item, pk_name()), attr_text(item, sk_name()))
}

/// The index key of a record: its `model` and `sk`.
pub open spec fn index_key(item: RecordView) -> KeyView {
    (attr_text(item, model_name()), attr_text(item, sk_name()))
}

/// The entry that the table holds for `item`.
pub open spec fn table_entry(item: RecordView) -> EntryView {
    EntryView { partition: primary_key(item).0, sort: primary_key(item).1, item }
}

/// The entry that the index holds for `item`.
pub open spec fn index_entry(item: RecordView) -> EntryView {
    EntryView { partition: index_key(item).0, sort: index_key(item).1, item }
}

/// The entries of the partition `partition` whose sort key starts with
/// `prefix`.
pub open spec fn matching(partition: Seq<char>, prefix: Seq<char>) -> spec_fn(EntryView) -> bool {
    |e: EntryView| e.partition == partition && str_starts_with(e.sort, prefix)
}

/// The first `cap` elements of `s`, or all of `s` where it has no more.
pub open spec fn capped<A>(s: Seq<A>, cap: int) -> Seq<A> {
    if s.len() <= cap {
        s
    } else {
        s.take(cap)
    }
}

/// How many records a scan with the limit `limit` returns at most.
pub open spec fn scan_bound(limit: Option<i64>) -> int {
    match limit {
        None => i64::MAX as int,
        Some(n) => if n < 0 {
            0
        } else {
            n as int
        },
    }
}

/// A condition check is in the form that the table evaluates: the
/// condition on `model`, with a string given for it.
pub open spec fn check_supported(c: ConditionCheckView) -> bool {
    &&& c.condition_expression == model_condition()
    &&& c.expression_attribute_values matches Some(values)
    &&& attr_string(values, model_value_name()) is Some
}

/// A supported condition check holds of `table`: the table has a record
/// under the key, and its `model` is the string asked for.
pub open spec fn check_holds(table: Seq<EntryView>, c: ConditionCheckView) -> bool {
    &&& check_supported(c)
    &&& lookup(table, primary_key(c.key)) matches Some(found)
    &&& attr_string(found, model_name()) == attr_string(
        c.expression_attribute_values->0,
        model_value_name(),
    )
}

/// Every condition check among `steps` is in the supported form.
pub open spec fn all_supported(steps: Seq<TransactWriteItemView>) -> bool {
    forall|i: int|
        0 <= i < steps.len() && (#[trigger] steps[i]).condition_check is Some ==> check_supported(
            steps[i].condition_check->0,
        )
}

/// Every condition check among `steps` holds of `table`.
pub open spec fn all_hold(table: Seq<EntryView>, steps: Seq<TransactWriteItemView>) -> bool {
    forall|i: int|
        0 <= i < steps.len() && (#[trigger] steps[i]).condition_check is Some ==> check_holds(
            table,
            steps[i].condition_check->0,
        )
}

/// A table with its index.
pub struct Table {
    pub table_name: Seq<char>,
    /// The records under their primary keys, in ascending key order.
    pub table: Seq<EntryView>,
    /// The records under their index keys, in ascending key order.
    pub index: Seq<EntryView>,
}

impl Table {
    /// The table called `table_name` with nothing in it.
    pub open spec fn empty(table_name: Seq<char>) -> Table {
        Table { table_name, table: Seq::empty(), index: Seq::empty() }
    }

    /// Both stores are in ascending key order, each record is stored under
    /// its own keys, and the two stores cover each other: a record of the
    /// table has its index key in the index, and a record of the index has
    /// its primary key in the table.
    pub open spec fn valid(self) -> bool {
        &&& ascending(self.table)
        &&& ascending(self.index)
        &&& forall|i: int|
            0 <= i < self.table.len() ==> (#[trigger] self.table[i]).key() == primary_key(
                self.table[i].item,
            )
        &&& forall|i: int|
            0 <= i < self.index.len() ==> (#[trigger] self.index[i]).key() == index_key(
                self.index[i].item,
            )
        &&& forall|i: int|
            0 <= i < self.table.len() ==> has_key(
                self.index,
                index_key((#[trigger] self.table[i]).item),
            )
        &&& forall|i: int|
            0 <= i < self.index.len() ==> has_key(
                self.table,
                primary_key((#[trigger] self.index[i]).item),
            )
    }

    /// The table after it is created or deleted: both stores are empty.
    pub open spec fn cleared(self) -> Table {
        Table::empty(self.table_name)
    }

    /// The table after `item` is written: to the table under its primary
    /// key, and to the index under its index key.
    pub open spec fn with_item(self, item: RecordView) -> Table {
        Table {
            table_name: self.table_name,
            table: put(self.table, table_entry(item)),
            index: put(self.index, index_entry(item)),
        }
    }

    /// The record under exactly the primary key (`pk`, `sk`), if any.
    pub open spec fn item_at(self, pk: Seq<char>, sk: Seq<char>) -> Option<RecordView> {
        lookup(self.table, (pk, sk))
    }

    /// The store that a read with the index name `index` goes to: the table
    /// where no index is named, the index where it is named, and nothing
    /// where another name is given.
    pub open spec fn source(self, index: Option<Seq<char>>) -> Seq<EntryView> {
        match index {
            None => self.table,
            Some(name) => if name == model_name() {
                self.index
            } else {
                Seq::empty()
            },
        }
    }

    /// The entries that a query selects, in key order.
    pub open spec fn selected(
        self,
        index: Option<Seq<char>>,
        partition: Seq<char>,
        prefix: Seq<char>,
    ) -> Seq<EntryView> {
        self.source(index).filter(matching(partition, prefix))
    }

    /// The records that a query returns: those selected, in key order, as
    /// far as their number fits the count.
    pub open spec fn query(
        self,
        index: Option<Seq<char>>,
        partition: Seq<char>,
        prefix: Seq<char>,
    ) -> Seq<RecordView> {
        capped(items(self.selected(index, partition, prefix)), i64::MAX as int)
    }

    /// The records that a scan returns: the first of the store, in key
    /// order, up to the limit.
    pub open spec fn scan(self, index: Option<Seq<char>>, limit: Option<i64>) -> Seq<RecordView> {
        capped(items(self.source(index)), scan_bound(limit))
    }

    /// The table after the records `records` are written, in their order.
    pub open spec fn with_items(self, records: Seq<RecordView>) -> Table
        decreases records.len(),
    {
        if records.len() == 0 {
            self
        } else {
            self.with_items(records.drop_last()).with_item(records.last())
        }
    }

    /// The table after the puts among `steps` are made, in their order.
    pub open spec fn with_puts(self, steps: Seq<TransactWriteItemView>) -> Table
        decreases steps.len(),
    {
        if steps.len() == 0 {
            self
        } else {
            let before = self.with_puts(steps.drop_last());
            match steps.last().put {
                Some(p) => before.with_item(p.item),
                None => before,
            }
        }
    }
}

/// Writing a record keeps the table valid: both stores stay in key order,
/// hold each record under its own keys, and cover each other.
pub proof fn lemma_with_item_valid(t: Table, item: RecordView)
    requires
        t.valid(),
    ensures
        t.with_item(item).valid(),
{
    let r = t.with_item(item);
    let te = table_entry(item);
    let ie = index_entry(item);
    lemma_put_lookup(t.table, te, te.key());
    lemma_put_lookup(t.index, ie, ie.key());
    assert forall|i: int| 0 <= i < r.table.len() implies (#[trigger] r.table[i]).key()
        == primary_key(r.table[i].item) && has_key(r.index, index_key(r.table[i].item)) by {
        lemma_put_entries(t.table, te, i);
        if r.table[i] != te {
            let j = choose|j: int| 0 <= j < t.table.len() && t.table[j] == r.table[i];
            assert(has_key(t.index, index_key(t.table[j].item)));
        }
        lemma_put_lookup(t.index, ie, index_key(r.table[i].item));
    }
    assert forall|i: int| 0 <= i < r.index.len() implies (#[trigger] r.index[i]).key()
        == index_key(r.index[i].item) && has_key(r.table, primary_key(r.index[i].item)) by {
        lemma_put_entries(t.index, ie, i);
        if r.index[i] != ie {
            let j = choose|j: int| 0 <= j < t.index.len() && t.index[j] == r.index[i];
            assert(has_key(t.table, primary_key(t.index[j].item)));
        }
        lemma_put_lookup(t.table, te, primary_key(r.index[i].item));
    }
}

/// Making the puts of a list of steps keeps the table valid.
pub proof fn lemma_with_puts_valid(t: Table, steps: Seq<TransactWriteItemView>)
    requires
        t.valid(),
    ensures
        t.with_puts(steps).valid(),
        t.with_puts(steps).table_name == t.table_name,
    decreases steps.len(),
{
    if steps.len() > 0 {
        lemma_with_puts_valid(t, steps.drop_last());
        if let Some(p) = steps.last().put {
            lemma_with_item_valid(t.with_puts(steps.drop_last()), p.item);
        }
    }
}

} // verus!
