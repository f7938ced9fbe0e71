//! Records: what the table stores. A record maps attribute names to typed
//! scalar values.

use vstd::prelude::*;
use vstd::std_specs::cmp::PartialEqSpecImpl;
use crate::text::same;

verus! {

/// One scalar value of a record. Each field stands for one type of value;
/// a field that is `None` says that the value is not of that type. Two
/// values are equal where they hold the same.
#[derive(Debug, Eq)]
pub struct AttributeValue {
    /// A string.
    pub s: Option<String>,
    /// A number, in its decimal text.
    pub n: Option<String>,
    /// Binary data.
    pub b: Option<Vec<u8>>,
    /// A boolean.
    pub boolean: Option<bool>,
    /// The null marker.
    pub null: Option<bool>,
}

/// What an [`AttributeValue`] holds.
pub struct AttributeValueView {
    pub s: Option<Seq<char>>,
    pub n: Option<Seq<char>>,
    pub b: Option<Seq<u8>>,
    pub boolean: Option<bool>,
    pub null: Option<bool>,
}

/// What an optional string holds.
pub open spec fn opt_text(o: Option<String>) -> Option<Seq<char>> {
    match o {
        Some(x) => Some(x@),
        None => None,
    }
}

/// What an optional byte vector holds.
pub open spec fn opt_bytes(o: Option<Vec<u8>>) -> Option<Seq<u8>> {
    match o {
        Some(x) => Some(x@),
        None => None,
    }
}

impl View for AttributeValue {
    type V = AttributeValueView;

    open spec fn view(&self) -> AttributeValueView {
        AttributeValueView {
            s: opt_text(self.s),
            n: opt_text(self.n),
            b: opt_bytes(self.b),
            boolean: self.boolean,
            null: self.null,
        }
    }
}

/// The value of no type: every field is `None`.
pub open spec fn no_value() -> AttributeValueView {
    AttributeValueView { s: None, n: None, b: None, boolean: None, null: None }
}

/// The string value `text`.
pub open spec fn string_value(text: Seq<char>) -> AttributeValueView {
    AttributeValueView { s: Some(text), n: None, b: None, boolean: None, null: None }
}

/// The number value with the decimal text `text`.
pub open spec fn number_value(text: Seq<char>) -> AttributeValueView {
    AttributeValueView { s: None, n: Some(text), b: None, boolean: None, null: None }
}

fn clone_text(o: &Option<String>) -> (r: Option<String>)
    ensures
        opt_text(r) == opt_text(*o),
{
    match o {
        Some(x) => Some(x.clone()),
        None => None,
    }
}

fn clone_bytes(o: &Option<Vec<u8>>) -> (r: Option<Vec<u8>>)
    ensures
        opt_bytes(r) == opt_bytes(*o),
{
    match o {
        Some(x) => {
            let mut v: Vec<u8> = Vec::new();
            let mut i: usize = 0;
            while i < x.len()
                invariant
                    i <= x.len(),
                    v@ == x@.subrange(0, i as int),
                decreases x.len() - i,
            {
                v.push(x[i]);
                i += 1;
            }
            assert(v@ =~= x@);
            Some(v)
        },
        None => None,
    }
}

impl Clone for AttributeValue {
    fn clone(&self) -> (r: Self)
        ensures
            r@ == self@,
    {
        AttributeValue {
            s: clone_text(&self.s),
            n: clone_text(&self.n),
            b: clone_bytes(&self.b),
            boolean: self.boolean,
            null: self.null,
        }
    }
}

impl Default for AttributeValue {
    fn default() -> (r: Self)
        ensures
            r@ == no_value(),
    {
        AttributeValue { s: None, n: None, b: None, boolean: None, null: None }
    }
}

fn same_text(a: &Option<String>, b: &Option<String>) -> (r: bool)
    ensures
        r == (opt_text(*a) == opt_text(*b)),
{
    match (a, b) {
        (Some(x), Some(y)) => same(x.as_str(), y.as_str()),
        (None, None) => true,
        _ => false,
    }
}

fn equal_bytes(x: &Vec<u8>, y: &Vec<u8>) -> (r: bool)
    ensures
        r == (x@ == y@),
{
    if x.len() != y.len() {
        return false;
    }
    let mut i: usize = 0;
    while i < x.len()
        invariant
            x@.len() == y@.len(),
            i <= x@.len(),
            forall|j: int| 0 <= j < i ==> x@[j] == y@[j],
        decreases x.len() - i,
    {
        if x[i] != y[i] {
            assert(x@[i as int] != y@[i as int]);
            return false;
        }
        i += 1;
    }
    assert(x@ =~= y@);
    true
}

fn same_bytes(a: &Option<Vec<u8>>, b: &Option<Vec<u8>>) -> (r: bool)
    ensures
        r == (opt_bytes(*a) == opt_bytes(*b)),
{
    match (a, b) {
        (Some(x), Some(y)) => equal_bytes(x, y),
        (None, None) => true,
        _ => false,
    }
}

fn same_flag(a: Option<bool>, b: Option<bool>) -> (r: bool)
    ensures
        r == (a == b),
{
    match (a, b) {
        (Some(x), Some(y)) => x == y,
        (None, None) => true,
        _ => false,
    }
}

impl PartialEq for AttributeValue {
    fn eq(&self, other: &Self) -> (r: bool) {
        same_text(&self.s, &other.s) && same_text(&self.n, &other.n) && same_bytes(
            &self.b,
            &other.b,
        ) && same_flag(self.boolean, other.boolean) && same_flag(self.null, other.null)
    }
}

impl PartialEqSpecImpl for AttributeValue {
    open spec fn obeys_eq_spec() -> bool {
        true
    }

    open spec fn eq_spec(&self, other: &Self) -> bool {
        self@ == other@
    }
}

impl AttributeValue {
    /// A string value.
    pub fn string(text: String) -> (r: Self)
        ensures
            r@ == string_value(text@),
    {
        AttributeValue { s: Some(text), n: None, b: None, boolean: None, null: None }
    }

    /// A number value, from its decimal text.
    pub fn number(text: String) -> (r: Self)
        ensures
            r@ == number_value(text@),
    {
        AttributeValue { s: None, n: Some(text), b: None, boolean: None, null: None }
    }
}

/// One named value of a record.
#[derive(Debug, PartialEq, Eq)]
pub struct Attribute {
    pub name: String,
    pub value: AttributeValue,
}

impl Clone for Attribute {
    fn clone(&self) -> (r: Self)
        ensures
            r.name@ == self.name@,
            r.value@ == self.value@,
    {
        Attribute { name: self.name.clone(), value: self.value.clone() }
    }
}

/// What a record holds: a value for each of its attribute names.
pub type RecordView = Map<Seq<char>, AttributeValueView>;

/// No two attributes of `s` have the same name.
pub open spec fn distinct_names(s: Seq<Attribute>) -> bool {
    forall|i: int, j: int| 0 <= i < j < s.len() ==> s[i].name@ != s[j].name@
}

/// The mapping that a list of attributes stands for. Where a name occurs
/// twice, the later attribute counts.
pub open spec fn attrs_map(s: Seq<Attribute>) -> RecordView
    decreases s.len(),
{
    if s.len() == 0 {
        Map::empty()
    } else {
        attrs_map(s.drop_last()).insert(s.last().name@, s.last().value@)
    }
}

/// A name is in the mapping exactly if some attribute has it.
pub proof fn lemma_attrs_map_dom(s: Seq<Attribute>, k: Seq<char>)
    ensures
        attrs_map(s).contains_key(k) <==> exists|i: int| 0 <= i < s.len() && s[i].name@ == k,
    decreases s.len(),
{
    if s.len() > 0 {
        let t = s.drop_last();
        lemma_attrs_map_dom(t, k);
        if attrs_map(s).contains_key(k) {
            if s.last().name@ == k {
                assert(s[s.len() - 1].name@ == k);
            } else {
                let i = choose|i: int| 0 <= i < t.len() && t[i].name@ == k;
                assert(s[i].name@ == k);
            }
        }
        if exists|i: int| 0 <= i < s.len() && s[i].name@ == k {
            let i = choose|i: int| 0 <= i < s.len() && s[i].name@ == k;
            if i < s.len() - 1 {
                assert(t[i].name@ == k);
            }
        }
    }
}

/// With distinct names, each attribute's name maps to its value.
pub proof fn lemma_attrs_map_at(s: Seq<Attribute>, i: int)
    requires
        distinct_names(s),
        0 <= i < s.len(),
    ensures
        attrs_map(s).contains_key(s[i].name@),
        attrs_map(s)[s[i].name@] == s[i].value@,
    decreases s.len(),
{
    let t = s.drop_last();
    if i < s.len() - 1 {
        assert(distinct_names(t)) by {
            assert forall|a: int, b: int| 0 <= a < b < t.len() implies t[a].name@ != t[b].name@ by {
                assert(s[a].name@ != s[b].name@);
            }
        }
        lemma_attrs_map_at(t, i);
        assert(t[i] == s[i]);
        assert(s[i].name@ != s[s.len() - 1].name@);
    }
}

/// With distinct names, the mapping has as many names as the list has
/// attributes.
pub proof fn lemma_attrs_map_len(s: Seq<Attribute>)
    requires
        distinct_names(s),
    ensures
        attrs_map(s).dom().finite(),
        attrs_map(s).len() == s.len(),
    decreases s.len(),
{
    if s.len() > 0 {
        let t = s.drop_last();
        assert(distinct_names(t)) by {
            assert forall|a: int, b: int| 0 <= a < b < t.len() implies t[a].name@ != t[b].name@ by {
                assert(s[a].name@ != s[b].name@);
            }
        }
        lemma_attrs_map_len(t);
        lemma_attrs_map_dom(t, s.last().name@);
        if attrs_map(t).contains_key(s.last().name@) {
            let i = choose|i: int| 0 <= i < t.len() && t[i].name@ == s.last().name@;
            assert(s[i].name@ != s[s.len() - 1].name@);
        }
        assert(attrs_map(s).dom() =~= attrs_map(t).dom().insert(s.last().name@));
    }
}

/// The index of the attribute called `name`, if there is one.
fn position(attrs: &Vec<Attribute>, name: &str) -> (r: Option<usize>)
    ensures
        match r {
            Some(i) => i < attrs@.len() && attrs@[i as int].name@ == name@,
            None => forall|j: int| 0 <= j < attrs@.len() ==> attrs@[j].name@ != name@,
        },
{
    let mut i: usize = 0;
    while i < attrs.len()
        invariant
            i <= attrs@.len(),
            forall|j: int| 0 <= j < i ==> attrs@[j].name@ != name@,
        decreases attrs.len() - i,
    {
        if same(attrs[i].name.as_str(), name) {
            return Some(i);
        }
        i += 1;
    }
    None
}

/// A record: a value for each of a set of attribute names. Two records
/// are equal where they give the same names the same values, in whatever
/// order the names came.
#[derive(Debug, Eq)]
pub struct Record {
    attrs: Vec<Attribute>,
}

impl View for Record {
    type V = RecordView;

    closed spec fn view(&self) -> RecordView {
        attrs_map(self.attrs@)
    }
}

impl Record {
    #[verifier::type_invariant]
    spec fn well_formed(self) -> bool {
        distinct_names(self.attrs@)
    }

    /// The empty record.
    pub fn new() -> (r: Self)
        ensures
            r@ == Map::<Seq<char>, AttributeValueView>::empty(),
    {
        Record { attrs: Vec::new() }
    }

    /// The value of the attribute called `name`, if the record has one.
    pub fn get(&self, name: &str) -> (r: Option<&AttributeValue>)
        ensures
            match r {
                Some(v) => self@.contains_key(name@) && self@[name@] == v@,
                None => !self@.contains_key(name@),
            },
    {
        proof {
            use_type_invariant(self);
            lemma_attrs_map_dom(self.attrs@, name@);
        }
        match position(&self.attrs, name) {
            Some(i) => {
                proof {
                    lemma_attrs_map_at(self.attrs@, i as int);
                }
                Some(&self.attrs[i].value)
            },
            None => None,
        }
    }

    /// Whether the record has an attribute called `name`.
    pub fn contains_key(&self, name: &str) -> (r: bool)
        ensures
            r == self@.contains_key(name@),
    {
        self.get(name).is_some()
    }

    /// Gives the attribute called `name` the value `value`, in place of the
    /// value it had, if any, which is returned.
    pub fn insert(&mut self, name: String, value: AttributeValue) -> (r: Option<AttributeValue>)
        ensures
            final(self)@ == old(self)@.insert(name@, value@),
            match r {
                Some(v) => old(self)@.contains_key(name@) && old(self)@[name@] == v@,
                None => !old(self)@.contains_key(name@),
            },
    {
        proof {
            use_type_invariant(&*self);
            lemma_attrs_map_dom(self.attrs@, name@);
        }
        let ghost before = self.attrs@;
        let ghost added = Attribute { name, value };
        let mut attrs: Vec<Attribute> = Vec::new();
        core::mem::swap(&mut self.attrs, &mut attrs);
        let found = position(&attrs, name.as_str());
        attrs.push(Attribute { name, value });
        let previous = match found {
            Some(i) => {
                let replaced = attrs.swap_remove(i);
                proof {
                    lemma_attrs_map_at(before, i as int);
                    lemma_replace(before, i as int, added);
                    assert(attrs@ =~= before.update(i as int, added));
                }
                Some(replaced.value)
            },
            None => {
                proof {
                    assert(attrs@.drop_last() =~= before);
                    assert forall|x: int, y: int| 0 <= x < y < attrs@.len() implies attrs@[x].name@
                        != attrs@[y].name@ by {
                        if y < before.len() {
                            assert(before[x].name@ != before[y].name@);
                        }
                    }
                }
                None
            },
        };
        self.attrs = attrs;
        previous
    }

    /// The number of attributes.
    pub fn len(&self) -> (r: usize)
        ensures
            self@.dom().finite(),
            r == self@.len(),
    {
        proof {
            use_type_invariant(self);
            lemma_attrs_map_len(self.attrs@);
        }
        self.attrs.len()
    }

    /// The attributes one by one, each name once, with the record given
    /// up.
    pub fn into_attributes(self) -> (r: Vec<Attribute>)
        ensures
            distinct_names(r@),
            attrs_map(r@) == self@,
    {
        proof {
            use_type_invariant(&self);
        }
        self.attrs
    }

    /// The attributes one by one, each name once, in the order in which
    /// the names were first given a value.
    pub fn attributes(&self) -> (r: &Vec<Attribute>)
        ensures
            distinct_names(r@),
            attrs_map(r@) == self@,
    {
        proof {
            use_type_invariant(self);
        }
        &self.attrs
    }
}

/// Every name of `a` has the same value in `b`.
pub open spec fn covered(a: RecordView, b: RecordView) -> bool {
    forall|k: Seq<char>| #[trigger] a.contains_key(k) ==> b.contains_key(k) && b[k] == a[k]
}

fn covers(a: &Record, b: &Record) -> (r: bool)
    ensures
        r == covered(a@, b@),
{
    let attrs = a.attributes();
    let mut i: usize = 0;
    while i < attrs.len()
        invariant
            distinct_names(attrs@),
            attrs_map(attrs@) == a@,
            i <= attrs@.len(),
            forall|j: int|
                0 <= j < i ==> b@.contains_key(#[trigger] attrs@[j].name@) && b@[attrs@[j].name@]
                    == attrs@[j].value@,
        decreases attrs.len() - i,
    {
        proof {
            lemma_attrs_map_at(attrs@, i as int);
        }
        let same_there = match b.get(attrs[i].name.as_str()) {
            Some(value) => *value == attrs[i].value,
            None => false,
        };
        if !same_there {
            return false;
        }
        i += 1;
    }
    proof {
        assert forall|k: Seq<char>| #[trigger] a@.contains_key(k) implies b@.contains_key(k)
            && b@[k] == a@[k] by {
            lemma_attrs_map_dom(attrs@, k);
            let j = choose|j: int| 0 <= j < attrs@.len() && attrs@[j].name@ == k;
            lemma_attrs_map_at(attrs@, j);
        }
    }
    true
}

impl PartialEq for Record {
    fn eq(&self, other: &Self) -> (r: bool) {
        let r = covers(self, other) && covers(other, self);
        proof {
            if r {
                assert forall|k: Seq<char>| self@.contains_key(k) == other@.contains_key(k) by {
                    if self@.contains_key(k) {
                        assert(other@.contains_key(k));
                    }
                    if other@.contains_key(k) {
                        assert(self@.contains_key(k));
                    }
                }
                assert(self@ =~= other@);
            }
        }
        r
    }
}

impl PartialEqSpecImpl for Record {
    open spec fn obeys_eq_spec() -> bool {
        true
    }

    open spec fn eq_spec(&self, other: &Self) -> bool {
        self@ == other@
    }
}

/// Replacing the value of the attribute at `i`, under the same name, is
/// an insert on the mapping.
proof fn lemma_replace(s: Seq<Attribute>, i: int, a: Attribute)
    requires
        distinct_names(s),
        0 <= i < s.len(),
        s[i].name@ == a.name@,
    ensures
        distinct_names(s.update(i, a)),
        attrs_map(s.update(i, a)) == attrs_map(s).insert(a.name@, a.value@),
{
    let t = s.update(i, a);
    assert(distinct_names(t)) by {
        assert forall|x: int, y: int| 0 <= x < y < t.len() implies t[x].name@ != t[y].name@ by {
            assert(s[x].name@ != s[y].name@);
        }
    }
    let m1 = attrs_map(t);
    let m2 = attrs_map(s).insert(a.name@, a.value@);
    assert forall|k: Seq<char>| m1.contains_key(k) <==> m2.contains_key(k) by {
        lemma_attrs_map_dom(t, k);
        lemma_attrs_map_dom(s, k);
        if m1.contains_key(k) {
            let j = choose|j: int| 0 <= j < t.len() && t[j].name@ == k;
            assert(s[j].name@ == k);
        }
        if m2.contains_key(k) && k != a.name@ {
            let j = choose|j: int| 0 <= j < s.len() && s[j].name@ == k;
            assert(t[j].name@ == k);
        }
        if k == a.name@ {
            assert(t[i].name@ == k);
        }
    }
    assert forall|k: Seq<char>| m1.contains_key(k) implies m1[k] == m2[k] by {
        lemma_attrs_map_dom(t, k);
        let j = choose|j: int| 0 <= j < t.len() && t[j].name@ == k;
        lemma_attrs_map_at(t, j);
        if j != i {
            lemma_attrs_map_at(s, j);
        }
    }
    assert(m1 =~= m2);
}

impl Clone for Record {
    fn clone(&self) -> (r: Self)
        ensures
            r@ == self@,
    {
        proof {
            use_type_invariant(self);
        }
        let mut attrs: Vec<Attribute> = Vec::new();
        let mut i: usize = 0;
        while i < self.attrs.len()
            invariant
                i <= self.attrs@.len(),
                attrs@.len() == i,
                forall|j: int| 0 <= j < i ==> attrs@[j].name@ == self.attrs@[j].name@
                    && attrs@[j].value@ == self.attrs@[j].value@,
            decreases self.attrs.len() - i,
        {
            attrs.push(self.attrs[i].clone());
            i += 1;
        }
        proof {
            lemma_same_attributes(attrs@, self.attrs@);
        }
        Record { attrs }
    }
}

/// Two lists with the same names and values in the same places stand for
/// the same mapping.
proof fn lemma_same_attributes(s: Seq<Attribute>, t: Seq<Attribute>)
    requires
        s.len() == t.len(),
        forall|j: int| 0 <= j < s.len() ==> s[j].name@ == t[j].name@ && s[j].value@ == t[j].value@,
    ensures
        attrs_map(s) == attrs_map(t),
        distinct_names(t) ==> distinct_names(s),
    decreases s.len(),
{
    if s.len() > 0 {
        lemma_same_attributes(s.drop_last(), t.drop_last());
    }
    if distinct_names(t) {
        assert forall|x: int, y: int| 0 <= x < y < s.len() implies s[x].name@ != s[y].name@ by {
            assert(t[x].name@ != t[y].name@);
        }
    }
}

} // verus!
