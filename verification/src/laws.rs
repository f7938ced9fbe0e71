//! What holds of the table whatever it holds: the laws that relate
//! writing, reading, querying and scanning.

use vstd::prelude::*;
use vstd::utf8::*;
use crate::record::RecordView;
use crate::state::{
    attr_string, attr_text, check_holds, check_supported, index_entry, index_key, lemma_with_item_valid,
    lemma_with_puts_valid, matching, model_name, pk_name, primary_key, scan_bound, sk_name,
    table_entry, Table,
};
use crate::store::{
    ascending, items, key_lt, lemma_filter_ascending, lemma_filter_front, lemma_put_at,
    lemma_put_lookup, lemma_split_exists, lookup, put, EntryView,
};
use crate::text::{lemma_str_order_trichotomy, str_lt, str_starts_with};
use crate::traits::{exists_check, lemma_key_record};
use crate::types::TransactWriteItemView;

verus! {

/// A record that was written is read back as it was written, under its
/// primary key, and the index holds it under its index key.
pub proof fn law_put_then_get(t: Table, item: RecordView)
    requires
        t.valid(),
    ensures
        t.with_item(item).valid(),
        t.with_item(item).item_at(primary_key(item).0, primary_key(item).1) == Some(item),
        lookup(t.with_item(item).index, index_key(item)) == Some(item),
{
    lemma_with_item_valid(t, item);
    lemma_put_lookup(t.table, table_entry(item), primary_key(item));
    lemma_put_lookup(t.index, index_entry(item), index_key(item));
}

/// A write changes what is read under no other primary key.
pub proof fn law_put_keeps_other_keys(t: Table, item: RecordView, pk: Seq<char>, sk: Seq<char>)
    requires
        t.valid(),
        (pk, sk) != primary_key(item),
    ensures
        t.with_item(item).item_at(pk, sk) == t.item_at(pk, sk),
{
    lemma_put_lookup(t.table, table_entry(item), (pk, sk));
}

/// A later write under the same primary key wins.
pub proof fn law_last_write_wins(t: Table, first: RecordView, second: RecordView)
    requires
        t.valid(),
        primary_key(first) == primary_key(second),
    ensures
        t.with_item(first).with_item(second).item_at(
            primary_key(first).0,
            primary_key(first).1,
        ) == Some(second),
{
    lemma_with_item_valid(t, first);
    law_put_then_get(t.with_item(first), second);
}

/// After a batch of steps was made, the record of its last put is read
/// back under its primary key.
pub proof fn law_transact_then_get(t: Table, steps: Seq<TransactWriteItemView>)
    requires
        t.valid(),
        steps.len() > 0,
        steps.last().put is Some,
    ensures
        t.with_puts(steps).valid(),
        t.with_puts(steps).item_at(
            primary_key(steps.last().put->0.item).0,
            primary_key(steps.last().put->0.item).1,
        ) == Some(steps.last().put->0.item),
{
    lemma_with_puts_valid(t, steps.drop_last());
    law_put_then_get(t.with_puts(steps.drop_last()), steps.last().put->0.item);
}

/// A table that was created or deleted is valid and empty: nothing is read
/// from it, under any key.
pub proof fn law_get_after_delete(t: Table, pk: Seq<char>, sk: Seq<char>)
    ensures
        t.cleared().valid(),
        t.cleared().item_at(pk, sk).is_none(),
{
}

/// Creating a table twice in a row leaves it as creating it once does:
/// empty, under its name.
pub proof fn law_create_twice(t: Table)
    ensures
        t.cleared().cleared() == t.cleared(),
        t.cleared() == Table::empty(t.table_name),
{
}

/// Nothing is read under a key that no write was for.
pub proof fn law_get_never_written(
    t: Table,
    written: Seq<RecordView>,
    pk: Seq<char>,
    sk: Seq<char>,
)
    requires
        t.valid(),
        t.item_at(pk, sk).is_none(),
        forall|i: int| 0 <= i < written.len() ==> primary_key(#[trigger] written[i]) != (pk, sk),
    ensures
        t.with_items(written).valid(),
        t.with_items(written).item_at(pk, sk).is_none(),
    decreases written.len(),
{
    if written.len() > 0 {
        let before = written.drop_last();
        assert forall|i: int| 0 <= i < before.len() implies primary_key(#[trigger] before[i]) != (
            pk,
            sk,
        ) by {
            assert(before[i] == written[i]);
        }
        law_get_never_written(t, before, pk, sk);
        lemma_with_item_valid(t.with_items(before), written.last());
        assert(primary_key(written[written.len() - 1]) != (pk, sk));
        law_put_keeps_other_keys(t.with_items(before), written.last(), pk, sk);
    }
}

/// Every string starts with the empty string.
pub proof fn law_empty_prefix(s: Seq<char>)
    ensures
        str_starts_with(s, Seq::<char>::empty()),
{
    assert(encode_utf8(Seq::<char>::empty()) =~= Seq::<u8>::empty());
}

/// The entry behind the record at `i` of a query's result.
proof fn lemma_query_entry(
    t: Table,
    index: Option<Seq<char>>,
    pk: Seq<char>,
    prefix: Seq<char>,
    i: int,
) -> (e: EntryView)
    requires
        t.valid(),
        0 <= i < t.query(index, pk, prefix).len(),
    ensures
        e == t.selected(index, pk, prefix)[i],
        0 <= i < t.selected(index, pk, prefix).len(),
        e.item == t.query(index, pk, prefix)[i],
        e.partition == pk,
        str_starts_with(e.sort, prefix),
        t.source(index).contains(e),
        e.sort == attr_text(e.item, sk_name()),
        index is None ==> e.partition == attr_text(e.item, pk_name()),
        index == Some(model_name()) ==> e.partition == attr_text(e.item, model_name()),
{
    let src = t.source(index);
    let pred = matching(pk, prefix);
    let sel = t.selected(index, pk, prefix);
    assert(items(sel).len() == sel.len());
    let e = sel[i];
    assert(items(sel)[i] == e.item);
    src.lemma_filter_pred(pred, i);
    assert(sel.contains(e));
    src.lemma_filter_contains_rev(pred, e);
    let k = choose|k: int| 0 <= k < src.len() && src[k] == e;
    if index is None {
        assert(t.table[k].key() == primary_key(t.table[k].item));
    } else if index == Some(model_name()) {
        assert(t.index[k].key() == index_key(t.index[k].item));
    }
    e
}

/// A query returns only records of the partition asked for whose sort key
/// starts with the prefix asked for.
pub proof fn law_query_matches(
    t: Table,
    index: Option<Seq<char>>,
    pk: Seq<char>,
    prefix: Seq<char>,
    i: int,
)
    requires
        t.valid(),
        0 <= i < t.query(index, pk, prefix).len(),
    ensures
        str_starts_with(attr_text(t.query(index, pk, prefix)[i], sk_name()), prefix),
        index is None ==> attr_text(t.query(index, pk, prefix)[i], pk_name()) == pk,
        index == Some(model_name()) ==> attr_text(t.query(index, pk, prefix)[i], model_name())
            == pk,
{
    let e = lemma_query_entry(t, index, pk, prefix, i);
}

/// A query returns its records in ascending order of their sort keys.
pub proof fn law_query_ascending(
    t: Table,
    index: Option<Seq<char>>,
    pk: Seq<char>,
    prefix: Seq<char>,
    i: int,
    j: int,
)
    requires
        t.valid(),
        0 <= i < j < t.query(index, pk, prefix).len(),
    ensures
        str_lt(
            attr_text(t.query(index, pk, prefix)[i], sk_name()),
            attr_text(t.query(index, pk, prefix)[j], sk_name()),
        ),
{
    let a = lemma_query_entry(t, index, pk, prefix, i);
    let b = lemma_query_entry(t, index, pk, prefix, j);
    assert(ascending(t.source(index)));
    lemma_filter_ascending(t.source(index), matching(pk, prefix));
    assert(key_lt(a.key(), b.key()));
    lemma_str_order_trichotomy(a.partition, b.partition);
}

/// With the empty prefix a query returns every record of the partition, as
/// far as their number fits the count.
pub proof fn law_query_whole_partition(t: Table, index: Option<Seq<char>>, pk: Seq<char>, i: int)
    requires
        t.selected(index, pk, Seq::<char>::empty()).len() <= i64::MAX,
        0 <= i < t.source(index).len(),
        t.source(index)[i].partition == pk,
    ensures
        t.query(index, pk, Seq::<char>::empty()).contains(t.source(index)[i].item),
{
    let src = t.source(index);
    let pred = matching(pk, Seq::<char>::empty());
    let sel = t.selected(index, pk, Seq::<char>::empty());
    law_empty_prefix(src[i].sort);
    src.lemma_filter_contains(pred, i);
    let k = choose|k: int| 0 <= k < sel.len() && sel[k] == src[i];
    assert(items(sel)[k] == src[i].item);
}

/// The entries that the table holds for the records `written`.
pub open spec fn entries_of(written: Seq<RecordView>) -> Seq<EntryView> {
    written.map_values(|item: RecordView| table_entry(item))
}

/// The store holds one entry for each of the records `written`, and no
/// other entry.
pub open spec fn holds_exactly(store: Seq<EntryView>, written: Seq<RecordView>) -> bool {
    &&& store.len() == written.len()
    &&& forall|e: EntryView|
        #![trigger store.contains(e)]
        #![trigger entries_of(written).contains(e)]
        store.contains(e) <==> entries_of(written).contains(e)
}

/// A store that holds exactly the records `written` gives exactly those
/// records.
proof fn lemma_items_of_written(store: Seq<EntryView>, written: Seq<RecordView>)
    requires
        holds_exactly(store, written),
    ensures
        items(store).len() == written.len(),
        forall|i: int| 0 <= i < written.len() ==> items(store).contains(#[trigger] written[i]),
        forall|k: int| 0 <= k < store.len() ==> written.contains(#[trigger] items(store)[k]),
{
    let entries = entries_of(written);
    assert forall|i: int| 0 <= i < written.len() implies items(store).contains(
        #[trigger] written[i],
    ) by {
        assert(entries[i] == table_entry(written[i]));
        assert(entries.contains(entries[i]));
        assert(store.contains(entries[i]));
        let k = choose|k: int| 0 <= k < store.len() && store[k] == entries[i];
        assert(items(store)[k] == written[i]);
    }
    assert forall|k: int| 0 <= k < store.len() implies written.contains(
        #[trigger] items(store)[k],
    ) by {
        assert(store.contains(store[k]));
        let i = choose|i: int| 0 <= i < entries.len() && entries[i] == store[k];
        assert(written[i] == items(store)[k]);
    }
}

/// The record that the entry at `k` of a store that holds exactly the
/// records `written` is the entry of.
proof fn lemma_entry_of_written(store: Seq<EntryView>, written: Seq<RecordView>, k: int) -> (i:
    int)
    requires
        holds_exactly(store, written),
        0 <= k < store.len(),
    ensures
        0 <= i < written.len(),
        store[k] == table_entry(written[i]),
{
    let entries = entries_of(written);
    assert(store.contains(store[k]));
    let i = choose|i: int| 0 <= i < entries.len() && entries[i] == store[k];
    assert(entries[i] == table_entry(written[i]));
    i
}

/// What a sequence holds after one more element is put in at `n`.
proof fn lemma_insert_contains(s: Seq<EntryView>, n: int, e: EntryView, x: EntryView)
    requires
        0 <= n <= s.len(),
    ensures
        s.insert(n, e).contains(x) <==> s.contains(x) || x == e,
{
    let r = s.insert(n, e);
    if r.contains(x) {
        let k = choose|k: int| 0 <= k < r.len() && r[k] == x;
        if k < n {
            assert(s[k] == x);
        } else if k > n {
            assert(s[k - 1] == x);
        }
    }
    if s.contains(x) {
        let k = choose|k: int| 0 <= k < s.len() && s[k] == x;
        if k < n {
            assert(r[k] == x);
        } else {
            assert(r[k + 1] == x);
        }
    }
    if x == e {
        assert(r[n] == x);
    }
}

/// What a sequence holds after one more element is added at its end.
proof fn lemma_push_contains(s: Seq<EntryView>, e: EntryView, x: EntryView)
    ensures
        s.push(e).contains(x) <==> s.contains(x) || x == e,
{
    let r = s.push(e);
    if r.contains(x) {
        let k = choose|k: int| 0 <= k < r.len() && r[k] == x;
        if k < s.len() {
            assert(s[k] == x);
        }
    }
    if s.contains(x) {
        let k = choose|k: int| 0 <= k < s.len() && s[k] == x;
        assert(r[k] == x);
    }
    if x == e {
        assert(r[s.len() as int] == x);
    }
}

/// Writing a record whose primary key no entry has adds one entry to the
/// table's store.
proof fn lemma_put_adds(store: Seq<EntryView>, written: Seq<RecordView>, item: RecordView)
    requires
        ascending(store),
        holds_exactly(store, written),
        forall|i: int|
            0 <= i < written.len() ==> primary_key(#[trigger] written[i]) != primary_key(item),
    ensures
        holds_exactly(put(store, table_entry(item)), written.push(item)),
{
    let e = table_entry(item);
    let n = lemma_split_exists(store, e.key());
    lemma_put_at(store, e, n);
    if n < store.len() && store[n].key() == e.key() {
        assert(store.contains(store[n]));
        let i = choose|i: int|
            0 <= i < entries_of(written).len() && entries_of(written)[i] == store[n];
        assert(primary_key(written[i]) != primary_key(item));
    }
    let after = put(store, e);
    assert(after == store.insert(n, e));
    assert(entries_of(written.push(item)) =~= entries_of(written).push(e));
    assert forall|x: EntryView| after.contains(x) <==> entries_of(written.push(item)).contains(
        x,
    ) by {
        lemma_insert_contains(store, n, e, x);
        lemma_push_contains(entries_of(written), e, x);
    }
}

/// What the table holds after the records `written`, each with a primary
/// key of its own, were written to a new table: one entry for each record.
proof fn lemma_written_table(name: Seq<char>, written: Seq<RecordView>)
    requires
        forall|i: int, j: int|
            0 <= i < j < written.len() ==> primary_key(written[i]) != primary_key(written[j]),
    ensures
        Table::empty(name).with_items(written).valid(),
        holds_exactly(Table::empty(name).with_items(written).table, written),
    decreases written.len(),
{
    if written.len() > 0 {
        let before = written.drop_last();
        let last = written.last();
        assert forall|i: int, j: int| 0 <= i < j < before.len() implies primary_key(before[i])
            != primary_key(before[j]) by {
            assert(before[i] == written[i] && before[j] == written[j]);
        }
        lemma_written_table(name, before);
        let was = Table::empty(name).with_items(before);
        lemma_with_item_valid(was, last);
        assert forall|i: int| 0 <= i < before.len() implies primary_key(#[trigger] before[i])
            != primary_key(last) by {
            assert(before[i] == written[i]);
            assert(last == written[written.len() - 1]);
        }
        lemma_put_adds(was.table, before, last);
        assert(before.push(last) =~= written);
    } else {
        let store = Table::empty(name).table;
        assert forall|e: EntryView| store.contains(e) <==> entries_of(written).contains(e) by {
            if store.contains(e) {
                let k = choose|k: int| 0 <= k < store.len() && store[k] == e;
            }
            if entries_of(written).contains(e) {
                let k = choose|k: int|
                    0 <= k < entries_of(written).len() && entries_of(written)[k] == e;
            }
        }
    }
}

/// After records of one partition, each with a sort key of its own, were
/// written to a new table, a query of the partition with the empty prefix
/// returns exactly those records, in ascending order of their sort keys.
pub proof fn law_query_returns_written(name: Seq<char>, written: Seq<RecordView>, pk: Seq<char>)
    requires
        written.len() <= i64::MAX,
        forall|i: int| 0 <= i < written.len() ==> attr_text(#[trigger] written[i], pk_name()) == pk,
        forall|i: int, j: int|
            0 <= i < j < written.len() ==> attr_text(written[i], sk_name()) != attr_text(
                written[j],
                sk_name(),
            ),
    ensures
        ({
            let found = Table::empty(name).with_items(written).query(
                None,
                pk,
                Seq::<char>::empty(),
            );
            &&& found.len() == written.len()
            &&& forall|i: int| 0 <= i < written.len() ==> found.contains(#[trigger] written[i])
            &&& forall|k: int| 0 <= k < found.len() ==> written.contains(#[trigger] found[k])
            &&& forall|i: int, j: int|
                0 <= i < j < found.len() ==> str_lt(
                    attr_text(found[i], sk_name()),
                    attr_text(found[j], sk_name()),
                )
        }),
{
    let t = Table::empty(name).with_items(written);
    let pred = matching(pk, Seq::<char>::empty());
    let found = t.query(None, pk, Seq::<char>::empty());
    assert forall|i: int, j: int| 0 <= i < j < written.len() implies primary_key(written[i])
        != primary_key(written[j]) by {
        assert(attr_text(written[i], sk_name()) != attr_text(written[j], sk_name()));
    }
    lemma_written_table(name, written);
    lemma_items_of_written(t.table, written);
    assert forall|k: int| 0 <= k < t.table.len() implies pred(#[trigger] t.table[k]) by {
        let i = lemma_entry_of_written(t.table, written, k);
        assert(attr_text(written[i], pk_name()) == pk);
        law_empty_prefix(t.table[k].sort);
    }
    lemma_filter_front(t.table, pred, t.table.len() as int);
    assert(t.table.take(t.table.len() as int) =~= t.table);
    assert(found == items(t.table));
    assert forall|i: int, j: int| 0 <= i < j < found.len() implies str_lt(
        attr_text(found[i], sk_name()),
        attr_text(found[j], sk_name()),
    ) by {
        law_query_ascending(t, None, pk, Seq::<char>::empty(), i, j);
    }
}

/// A scan returns the first records of the store in key order, no more
/// than the limit, and all where the limit allows: the store's records
/// from the start up to the smaller of its length and the limit.
pub proof fn law_scan_bounded(t: Table, index: Option<Seq<char>>, limit: Option<i64>)
    ensures
        t.scan(index, limit).len() <= scan_bound(limit),
        t.scan(index, limit).len() <= t.source(index).len(),
        t.scan(index, limit).len() == scan_bound(limit) || t.scan(index, limit).len()
            == t.source(index).len(),
        forall|i: int|
            0 <= i < t.scan(index, limit).len() ==> (#[trigger] t.scan(index, limit)[i])
                == t.source(index)[i].item,
{
    assert(items(t.source(index)).len() == t.source(index).len());
}

/// The check made by [`exists_check`] is in the form that the table
/// evaluates, and it holds of a table exactly if the table has a record
/// under the key whose `model` is the string asked for.
pub proof fn law_exists_check(
    table: Seq<EntryView>,
    table_name: Seq<char>,
    pk: Seq<char>,
    sk: Seq<char>,
    model: Seq<char>,
)
    ensures
        check_supported(exists_check(table_name, pk, sk, model).condition_check->0),
        check_holds(table, exists_check(table_name, pk, sk, model).condition_check->0) <==> (
        lookup(table, (pk, sk)) matches Some(found) && attr_string(found, model_name()) == Some(
            model,
        )),
{
    lemma_key_record(pk, sk);
}

} // verus!
