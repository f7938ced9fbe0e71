//! The ordered store: records under a two-part key, kept in ascending key
//! order. The table and its index are one store each.

use vstd::prelude::*;
use crate::record::{Record, RecordView};
use crate::text::{
    compare, lemma_str_lt_transitive, lemma_str_order_trichotomy, str_lt, Order,
};

verus! {

/// A two-part key: the partition part, then the sort part.
pub type KeyView = (Seq<char>, Seq<char>);

/// One stored record with the key it is stored under.
#[derive(Debug, PartialEq, Eq)]
pub struct Entry {
    pub partition: String,
    pub sort: String,
    pub item: Record,
}

/// What an [`Entry`] holds.
pub struct EntryView {
    pub partition: Seq<char>,
    pub sort: Seq<char>,
    pub item: RecordView,
}

impl EntryView {
    /// The key of the entry.
    pub open spec fn key(self) -> KeyView {
        (self.partition, self.sort)
    }
}

impl View for Entry {
    type V = EntryView;

    open spec fn view(&self) -> EntryView {
        EntryView { partition: self.partition@, sort: self.sort@, item: self.item@ }
    }
}

/// The order of keys: by the partition part, and within one partition by
/// the sort part, each part in byte-wise lexicographic order.
pub open spec fn key_lt(a: KeyView, b: KeyView) -> bool {
    str_lt(a.0, b.0) || (a.0 == b.0 && str_lt(a.1, b.1))
}

/// The entries stand in strictly ascending key order, so no key occurs
/// twice.
pub open spec fn ascending(s: Seq<EntryView>) -> bool {
    forall|i: int, j: int| 0 <= i < j < s.len() ==> key_lt(s[i].key(), s[j].key())
}

/// The entries whose key is below `key`.
pub open spec fn below(key: KeyView) -> spec_fn(EntryView) -> bool {
    |e: EntryView| key_lt(e.key(), key)
}

/// The entries whose key is above `key`.
pub open spec fn above(key: KeyView) -> spec_fn(EntryView) -> bool {
    |e: EntryView| key_lt(key, e.key())
}

/// The store after `e` is written to `s`: the entries below the key of `e`,
/// then `e`, then the entries above it. An entry that `s` had under the
/// same key is gone.
pub open spec fn put(s: Seq<EntryView>, e: EntryView) -> Seq<EntryView> {
    s.filter(below(e.key())) + seq![e] + s.filter(above(e.key()))
}

/// Some entry of `s` has the key `key`.
pub open spec fn has_key(s: Seq<EntryView>, key: KeyView) -> bool {
    exists|i: int| 0 <= i < s.len() && #[trigger] s[i].key() == key
}

/// The record that `s` holds under exactly the key `key`, if any.
pub open spec fn lookup(s: Seq<EntryView>, key: KeyView) -> Option<RecordView> {
    if has_key(s, key) {
        Some(s[choose|i: int| 0 <= i < s.len() && #[trigger] s[i].key() == key].item)
    } else {
        None
    }
}

/// The records of the entries, in their order.
pub open spec fn items(s: Seq<EntryView>) -> Seq<RecordView> {
    s.map_values(|e: EntryView| e.item)
}

/// The key order is strict and total: of two keys exactly one of below,
/// equal and above holds.
pub proof fn lemma_key_order_trichotomy(a: KeyView, b: KeyView)
    ensures
        key_lt(a, b) || a == b || key_lt(b, a),
        !(key_lt(a, b) && a == b),
        !(key_lt(b, a) && a == b),
        !(key_lt(a, b) && key_lt(b, a)),
{
    lemma_str_order_trichotomy(a.0, b.0);
    lemma_str_order_trichotomy(a.1, b.1);
}

/// The key order is transitive.
pub proof fn lemma_key_lt_transitive(a: KeyView, b: KeyView, c: KeyView)
    requires
        key_lt(a, b),
        key_lt(b, c),
    ensures
        key_lt(a, c),
{
    lemma_str_order_trichotomy(a.0, b.0);
    lemma_str_order_trichotomy(b.0, c.0);
    if str_lt(a.0, b.0) && str_lt(b.0, c.0) {
        lemma_str_lt_transitive(a.0, b.0, c.0);
    }
    if a.0 == b.0 && b.0 == c.0 {
        lemma_str_lt_transitive(a.1, b.1, c.1);
    }
}

/// In an ascending store a key occurs at one index at most.
pub proof fn lemma_key_unique(s: Seq<EntryView>, i: int, j: int)
    requires
        ascending(s),
        0 <= i < s.len(),
        0 <= j < s.len(),
        s[i].key() == s[j].key(),
    ensures
        i == j,
{
    if i < j {
        lemma_key_order_trichotomy(s[i].key(), s[j].key());
    } else if j < i {
        lemma_key_order_trichotomy(s[j].key(), s[i].key());
    }
}

/// In an ascending store, the record found under the key of the entry at
/// `i` is that entry's record.
pub proof fn lemma_lookup_at(s: Seq<EntryView>, i: int)
    requires
        ascending(s),
        0 <= i < s.len(),
    ensures
        lookup(s, s[i].key()) == Some(s[i].item),
{
    let key = s[i].key();
    let j = choose|j: int| 0 <= j < s.len() && #[trigger] s[j].key() == key;
    lemma_key_unique(s, i, j);
}

/// `n` says where `key` belongs in `s`: the entries before `n` are below
/// `key`, and no entry from `n` on is.
pub open spec fn splits_at(s: Seq<EntryView>, key: KeyView, n: int) -> bool {
    &&& 0 <= n <= s.len()
    &&& forall|j: int| 0 <= j < n ==> key_lt(#[trigger] s[j].key(), key)
    &&& forall|j: int| n <= j < s.len() ==> !key_lt(#[trigger] s[j].key(), key)
}

/// A filter that holds of the first `n` entries and of no other keeps
/// exactly the first `n`.
pub proof fn lemma_filter_front(s: Seq<EntryView>, pred: spec_fn(EntryView) -> bool, n: int)
    requires
        0 <= n <= s.len(),
        forall|j: int| 0 <= j < n ==> pred(#[trigger] s[j]),
        forall|j: int| n <= j < s.len() ==> !pred(#[trigger] s[j]),
    ensures
        s.filter(pred) == s.take(n),
    decreases s.len(),
{
    reveal(Seq::filter);
    if s.len() > 0 {
        let kept = if n == s.len() {
            n - 1
        } else {
            n
        };
        lemma_filter_front(s.drop_last(), pred, kept);
    }
}

/// A filter that holds of the entries from `n` on and of no other keeps
/// exactly those.
pub proof fn lemma_filter_back(s: Seq<EntryView>, pred: spec_fn(EntryView) -> bool, n: int)
    requires
        0 <= n <= s.len(),
        forall|j: int| 0 <= j < n ==> !pred(#[trigger] s[j]),
        forall|j: int| n <= j < s.len() ==> pred(#[trigger] s[j]),
    ensures
        s.filter(pred) == s.skip(n),
    decreases s.len(),
{
    reveal(Seq::filter);
    if s.len() > 0 {
        let dropped = if n == s.len() {
            n - 1
        } else {
            n
        };
        lemma_filter_back(s.drop_last(), pred, dropped);
    }
}

/// What a filter keeps of an ascending store is ascending.
pub proof fn lemma_filter_ascending(s: Seq<EntryView>, pred: spec_fn(EntryView) -> bool)
    requires
        ascending(s),
    ensures
        ascending(s.filter(pred)),
    decreases s.len(),
{
    reveal(Seq::filter);
    if s.len() > 0 {
        let t = s.drop_last();
        lemma_filter_ascending(t, pred);
        let f = t.filter(pred);
        if pred(s.last()) {
            let r = f.push(s.last());
            assert forall|i: int, j: int| 0 <= i < j < r.len() implies key_lt(
                r[i].key(),
                r[j].key(),
            ) by {
                if j == f.len() {
                    t.lemma_filter_contains_rev(pred, f[i]);
                }
            }
        }
    }
}

/// Writing to an ascending store where `n` splits it: the first `n`
/// entries stay, the new entry follows, and the entries after it stay,
/// but for one with the same key.
pub proof fn lemma_put_at(s: Seq<EntryView>, e: EntryView, n: int)
    requires
        ascending(s),
        splits_at(s, e.key(), n),
    ensures
        n < s.len() && s[n].key() == e.key() ==> put(s, e) == s.update(n, e),
        !(n < s.len() && s[n].key() == e.key()) ==> put(s, e) == s.insert(n, e),
        ascending(put(s, e)),
{
    let key = e.key();
    assert forall|j: int| 0 <= j < s.len() implies (below(key))(#[trigger] s[j]) == (j < n) by {}
    lemma_filter_front(s, below(key), n);
    let same = n < s.len() && s[n].key() == key;
    let m = if same { n + 1 } else { n };
    assert forall|j: int| 0 <= j < s.len() implies (above(key))(#[trigger] s[j]) == (m <= j) by {
        lemma_key_order_trichotomy(s[j].key(), key);
    }
    lemma_filter_back(s, above(key), m);
    assert(put(s, e) =~= s.take(n) + seq![e] + s.skip(m));
}

/// In an ascending store every key has a place.
pub proof fn lemma_split_exists(s: Seq<EntryView>, key: KeyView) -> (n: int)
    requires
        ascending(s),
    ensures
        splits_at(s, key, n),
    decreases s.len(),
{
    if s.len() == 0 {
        0
    } else {
        let t = s.drop_last();
        let m = lemma_split_exists(t, key);
        if key_lt(s.last().key(), key) {
            assert forall|j: int| 0 <= j < s.len() implies key_lt(#[trigger] s[j].key(), key) by {
                if j < s.len() - 1 {
                    lemma_key_lt_transitive(s[j].key(), s.last().key(), key);
                }
            }
            s.len() as int
        } else {
            assert forall|j: int| m <= j < s.len() implies !key_lt(#[trigger] s[j].key(), key) by {
                if j < s.len() - 1 {
                    assert(t[j] == s[j]);
                }
            }
            assert forall|j: int| 0 <= j < m implies key_lt(#[trigger] s[j].key(), key) by {
                assert(t[j] == s[j]);
            }
            m
        }
    }
}

/// What a write changes: under the written key the store holds the new
/// record, and under every other key what it held before.
pub proof fn lemma_put_lookup(s: Seq<EntryView>, e: EntryView, key: KeyView)
    requires
        ascending(s),
    ensures
        ascending(put(s, e)),
        has_key(put(s, e), key) <==> key == e.key() || has_key(s, key),
        lookup(put(s, e), key) == if key == e.key() {
            Some(e.item)
        } else {
            lookup(s, key)
        },
{
    let n = lemma_split_exists(s, e.key());
    lemma_put_at(s, e, n);
    let r = put(s, e);
    let same = n < s.len() && s[n].key() == e.key();
    if key == e.key() {
        lemma_lookup_at(r, n);
    } else {
        if has_key(s, key) {
            let j = choose|j: int| 0 <= j < s.len() && #[trigger] s[j].key() == key;
            let k = if same || j < n {
                j
            } else {
                j + 1
            };
            lemma_lookup_at(r, k);
            lemma_lookup_at(s, j);
        }
        if has_key(r, key) {
            let k = choose|k: int| 0 <= k < r.len() && #[trigger] r[k].key() == key;
            let j = if same || k < n {
                k
            } else {
                k - 1
            };
            assert(s[j].key() == key);
        }
    }
}

/// A write adds no entry but the written one: every entry of the store
/// after it is the written entry or an entry that the store had.
pub proof fn lemma_put_entries(s: Seq<EntryView>, e: EntryView, i: int)
    requires
        ascending(s),
        0 <= i < put(s, e).len(),
    ensures
        put(s, e)[i] == e || exists|j: int| 0 <= j < s.len() && s[j] == put(s, e)[i],
{
    let n = lemma_split_exists(s, e.key());
    lemma_put_at(s, e, n);
    let r = put(s, e);
    let same = n < s.len() && s[n].key() == e.key();
    if i != n {
        let j = if same || i < n {
            i
        } else {
            i - 1
        };
        assert(s[j] == r[i]);
    }
}

/// The ordered store.
#[derive(Debug, PartialEq, Eq)]
pub struct Store {
    entries: Vec<Entry>,
}

/// What a list of entries holds.
pub open spec fn entry_views(s: Seq<Entry>) -> Seq<EntryView> {
    s.map_values(|e: Entry| e@)
}

impl View for Store {
    type V = Seq<EntryView>;

    closed spec fn view(&self) -> Seq<EntryView> {
        entry_views(self.entries@)
    }
}

/// Where `key` belongs among `entries`, and whether an entry there has it.
fn find(entries: &Vec<Entry>, partition: &str, sort: &str) -> (r: (usize, bool))
    requires
        ascending(entry_views(entries@)),
    ensures
        splits_at(entry_views(entries@), (partition@, sort@), r.0 as int),
        r.1 == (r.0 < entries@.len() && entry_views(entries@)[r.0 as int].key() == (
            partition@,
            sort@,
        )),
        r.1 == has_key(entry_views(entries@), (partition@, sort@)),
{
    let ghost s = entry_views(entries@);
    let ghost key = (partition@, sort@);
    let mut lo: usize = 0;
    let mut hi: usize = entries.len();
    while lo < hi
        invariant
            s == entry_views(entries@),
            key == (partition@, sort@),
            ascending(s),
            lo <= hi <= entries@.len(),
            forall|j: int| 0 <= j < lo ==> key_lt(#[trigger] s[j].key(), key),
            forall|j: int| hi <= j < s.len() ==> !key_lt(#[trigger] s[j].key(), key),
        decreases hi - lo,
    {
        let mid = lo + (hi - lo) / 2;
        let e = &entries[mid];
        let first = compare(e.partition.as_str(), partition);
        let is_below = match first {
            Order::Less => true,
            Order::Greater => false,
            Order::Equal => match compare(e.sort.as_str(), sort) {
                Order::Less => true,
                _ => false,
            },
        };
        proof {
            lemma_str_order_trichotomy(e.partition@, partition@);
            lemma_str_order_trichotomy(e.sort@, sort@);
        }
        if is_below {
            assert forall|j: int| 0 <= j < mid + 1 implies key_lt(#[trigger] s[j].key(), key) by {
                if j < mid {
                    lemma_key_lt_transitive(s[j].key(), s[mid as int].key(), key);
                }
            }
            lo = mid + 1;
        } else {
            assert forall|j: int| mid <= j < s.len() implies !key_lt(#[trigger] s[j].key(), key) by {
                if mid < j && key_lt(s[j].key(), key) {
                    lemma_key_lt_transitive(s[mid as int].key(), s[j].key(), key);
                }
            }
            hi = mid;
        }
    }
    let found = if lo < entries.len() {
        let e = &entries[lo];
        match compare(e.partition.as_str(), partition) {
            Order::Equal => match compare(e.sort.as_str(), sort) {
                Order::Equal => true,
                _ => false,
            },
            _ => false,
        }
    } else {
        false
    };
    proof {
        if has_key(s, key) {
            let j = choose|j: int| 0 <= j < s.len() && #[trigger] s[j].key() == key;
            lemma_key_order_trichotomy(s[j].key(), key);
            if lo < j {
                lemma_key_order_trichotomy(s[lo as int].key(), key);
            }
        }
    }
    (lo, found)
}

impl Store {
    #[verifier::type_invariant]
    spec fn well_formed(self) -> bool {
        ascending(entry_views(self.entries@))
    }

    /// The empty store.
    pub fn new() -> (r: Self)
        ensures
            r@ == Seq::<EntryView>::empty(),
    {
        Store { entries: Vec::new() }
    }

    /// The number of entries.
    pub fn len(&self) -> (r: usize)
        ensures
            r == self@.len(),
            ascending(self@),
    {
        proof {
            use_type_invariant(self);
        }
        self.entries.len()
    }

    /// The entry at `i` in ascending key order, or `None` where the store
    /// has no more than `i` entries.
    pub fn entry(&self, i: usize) -> (r: Option<&Entry>)
        ensures
            match r {
                Some(e) => i < self@.len() && e@ == self@[i as int],
                None => i >= self@.len(),
            },
    {
        if i < self.entries.len() {
            Some(&self.entries[i])
        } else {
            None
        }
    }

    /// Removes every entry.
    pub fn clear(&mut self)
        ensures
            final(self)@ == Seq::<EntryView>::empty(),
    {
        self.entries = Vec::new();
    }

    /// The record under exactly the key (`partition`, `sort`), if any.
    pub fn get(&self, partition: &str, sort: &str) -> (r: Option<&Record>)
        ensures
            ascending(self@),
            match r {
                Some(item) => lookup(self@, (partition@, sort@)) == Some(item@),
                None => lookup(self@, (partition@, sort@)).is_none(),
            },
    {
        proof {
            use_type_invariant(self);
        }
        let (n, found) = find(&self.entries, partition, sort);
        if found {
            proof {
                lemma_lookup_at(self@, n as int);
            }
            Some(&self.entries[n].item)
        } else {
            None
        }
    }

    /// Writes `item` under the key (`partition`, `sort`), in place of the
    /// record that was under that key, if any.
    pub fn put(&mut self, partition: String, sort: String, item: Record)
        ensures
            final(self)@ == put(
                old(self)@,
                EntryView { partition: partition@, sort: sort@, item: item@ },
            ),
            ascending(old(self)@),
            ascending(final(self)@),
    {
        proof {
            use_type_invariant(&*self);
        }
        let ghost before = self@;
        let ghost e = EntryView { partition: partition@, sort: sort@, item: item@ };
        let mut entries: Vec<Entry> = Vec::new();
        core::mem::swap(&mut self.entries, &mut entries);
        let (n, found) = find(&entries, partition.as_str(), sort.as_str());
        proof {
            lemma_put_at(before, e, n as int);
        }
        if found {
            entries.push(Entry { partition, sort, item });
            let _ = entries.swap_remove(n);
            assert(entry_views(entries@) =~= before.update(n as int, e));
        } else {
            entries.insert(n, Entry { partition, sort, item });
            assert(entry_views(entries@) =~= before.insert(n as int, e));
        }
        self.entries = entries;
    }
}

} // verus!
