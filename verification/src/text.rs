//! Byte-wise comparison of strings: equality, lexicographic order and
//! prefix tests over the UTF-8 bytes that a string is stored as.

use vstd::prelude::*;
use vstd::utf8::*;
use vstd::string::*;

verus! {

/// How one string stands to another in byte-wise lexicographic order.
#[derive(Clone, Copy, Debug, PartialEq, Eq, Structural)]
pub enum Order {
    Less,
    Equal,
    Greater,
}

/// The bytes that a string is stored as.
pub open spec fn bytes_of(s: Seq<char>) -> Seq<u8> {
    encode_utf8(s)
}

/// `a` and `b` hold the same bytes at every index below `k`.
pub open spec fn agree_below(a: Seq<u8>, b: Seq<u8>, k: int) -> bool {
    &&& 0 <= k <= a.len()
    &&& k <= b.len()
    &&& forall|j: int| 0 <= j < k ==> a[j] == b[j]
}

/// `a` and `b` agree below `k`, and at `k` either `a` ends while `b` goes
/// on, or `a` holds the smaller byte.
pub open spec fn less_at(a: Seq<u8>, b: Seq<u8>, k: int) -> bool {
    &&& agree_below(a, b, k)
    &&& k < b.len()
    &&& k < a.len() ==> a[k] < b[k]
}

/// Strict lexicographic order on byte sequences.
pub open spec fn bytes_lt(a: Seq<u8>, b: Seq<u8>) -> bool {
    exists|k: int| less_at(a, b, k)
}

/// Strict byte-wise lexicographic order on strings.
pub open spec fn str_lt(a: Seq<char>, b: Seq<char>) -> bool {
    bytes_lt(bytes_of(a), bytes_of(b))
}

/// `p` is a byte-wise prefix of `s`. The empty string is a prefix of every
/// string. By [`lemma_starts_with_chars`] this is the same as `p` being a
/// prefix of `s` character by character.
pub open spec fn str_starts_with(s: Seq<char>, p: Seq<char>) -> bool {
    bytes_of(p).is_prefix_of(bytes_of(s))
}

/// What an optional string slice holds.
pub open spec fn opt_name(o: Option<&str>) -> Option<Seq<char>> {
    match o {
        Some(name) => Some(name@),
        None => None,
    }
}

/// Where `a` stands to `b` in byte-wise lexicographic order.
pub open spec fn str_order(a: Seq<char>, b: Seq<char>) -> Order {
    if a == b {
        Order::Equal
    } else if str_lt(a, b) {
        Order::Less
    } else {
        Order::Greater
    }
}

/// No byte sequence is below itself.
pub proof fn lemma_bytes_lt_irreflexive(a: Seq<u8>)
    ensures
        !bytes_lt(a, a),
{
}

/// The order is asymmetric.
pub proof fn lemma_bytes_lt_asymmetric(a: Seq<u8>, b: Seq<u8>)
    requires
        bytes_lt(a, b),
    ensures
        !bytes_lt(b, a),
{
    let k1 = choose|k: int| less_at(a, b, k);
    if bytes_lt(b, a) {
        let k2 = choose|k: int| less_at(b, a, k);
        if k1 < k2 {
            assert(b[k1] == a[k1]);
        } else if k2 < k1 {
            assert(a[k2] == b[k2]);
        }
    }
}

/// The order is transitive.
pub proof fn lemma_bytes_lt_transitive(a: Seq<u8>, b: Seq<u8>, c: Seq<u8>)
    requires
        bytes_lt(a, b),
        bytes_lt(b, c),
    ensures
        bytes_lt(a, c),
{
    let k1 = choose|k: int| less_at(a, b, k);
    let k2 = choose|k: int| less_at(b, c, k);
    let k = if k1 <= k2 { k1 } else { k2 };
    assert forall|j: int| 0 <= j < k implies a[j] == c[j] by {
        assert(a[j] == b[j]);
        assert(b[j] == c[j]);
    }
    if k1 < k2 {
        assert(b[k1] == c[k1]);
    } else if k2 < k1 {
        assert(a[k2] == b[k2]);
    }
    assert(less_at(a, c, k));
}

/// Of two different byte sequences one is below the other.
pub proof fn lemma_bytes_lt_total(a: Seq<u8>, b: Seq<u8>)
    ensures
        a == b || bytes_lt(a, b) || bytes_lt(b, a),
    decreases a.len(),
{
    if a.len() == 0 {
        if b.len() == 0 {
            assert(a =~= b);
        } else {
            assert(less_at(a, b, 0));
        }
    } else if b.len() == 0 {
        assert(less_at(b, a, 0));
    } else if a[0] < b[0] {
        assert(less_at(a, b, 0));
    } else if b[0] < a[0] {
        assert(less_at(b, a, 0));
    } else {
        let x = a.drop_first();
        let y = b.drop_first();
        lemma_bytes_lt_total(x, y);
        if x == y {
            assert(a =~= seq![a[0]] + x);
            assert(b =~= seq![b[0]] + y);
        } else if bytes_lt(x, y) {
            let k = choose|k: int| less_at(x, y, k);
            assert forall|j: int| 0 <= j < k + 1 implies a[j] == b[j] by {
                if j > 0 {
                    assert(x[j - 1] == y[j - 1]);
                }
            }
            assert(k < x.len() ==> x[k] == a[k + 1]);
            assert(y[k] == b[k + 1]);
            assert(less_at(a, b, k + 1));
        } else {
            let k = choose|k: int| less_at(y, x, k);
            assert forall|j: int| 0 <= j < k + 1 implies b[j] == a[j] by {
                if j > 0 {
                    assert(y[j - 1] == x[j - 1]);
                }
            }
            assert(k < y.len() ==> y[k] == b[k + 1]);
            assert(x[k] == a[k + 1]);
            assert(less_at(b, a, k + 1));
        }
    }
}

/// Two strings with the same bytes are the same string.
pub proof fn lemma_bytes_of_injective(a: Seq<char>, b: Seq<char>)
    requires
        bytes_of(a) == bytes_of(b),
    ensures
        a == b,
{
    encode_utf8_decode_utf8(a);
    encode_utf8_decode_utf8(b);
}

/// The bytes of two strings one after the other are the bytes of the
/// first, then the bytes of the second.
pub proof fn lemma_bytes_of_concat(a: Seq<char>, b: Seq<char>)
    ensures
        bytes_of(a + b) == bytes_of(a) + bytes_of(b),
    decreases a.len(),
{
    if a.len() == 0 {
        assert(a + b =~= b);
        assert(bytes_of(a) + bytes_of(b) =~= bytes_of(b));
    } else {
        assert((a + b).drop_first() =~= a.drop_first() + b);
        lemma_bytes_of_concat(a.drop_first(), b);
        assert(bytes_of(a + b) =~= bytes_of(a) + bytes_of(b));
    }
}

/// A string starts with another byte by byte exactly if it starts with it
/// character by character.
pub proof fn lemma_starts_with_chars(s: Seq<char>, p: Seq<char>)
    ensures
        str_starts_with(s, p) <==> p.is_prefix_of(s),
    decreases p.len(),
{
    let bs = bytes_of(s);
    let bp = bytes_of(p);
    if p.is_prefix_of(s) {
        assert(s =~= p + s.skip(p.len() as int));
        lemma_bytes_of_concat(p, s.skip(p.len() as int));
    }
    if str_starts_with(s, p) && p.len() > 0 {
        encode_utf8_first_scalar(p);
        let width = length_of_first_scalar(bp);
        assert(bs[0] == bp[0]);
        assert(s.len() > 0);
        encode_utf8_first_scalar(s);
        assert(forall|j: int| 0 <= j < width ==> bs[j] == bp[j]);
        assert(decode_first_scalar(bs) == decode_first_scalar(bp));
        char_u32_cast(p[0], decode_first_scalar(bp));
        char_u32_cast(s[0], decode_first_scalar(bs));
        assert(bytes_of(p.drop_first()) =~= bp.skip(width));
        assert(bytes_of(s.drop_first()) =~= bs.skip(width));
        assert(bytes_of(p.drop_first()).is_prefix_of(bytes_of(s.drop_first())));
        lemma_starts_with_chars(s.drop_first(), p.drop_first());
        assert(p =~= seq![p[0]] + p.drop_first());
        assert(s =~= seq![s[0]] + s.drop_first());
    }
}

/// The order on strings is a strict total order: exactly one of `a` below
/// `b`, `a` equal to `b`, and `b` below `a` holds.
pub proof fn lemma_str_order_trichotomy(a: Seq<char>, b: Seq<char>)
    ensures
        str_lt(a, b) || a == b || str_lt(b, a),
        !(str_lt(a, b) && a == b),
        !(str_lt(b, a) && a == b),
        !(str_lt(a, b) && str_lt(b, a)),
{
    lemma_bytes_lt_total(bytes_of(a), bytes_of(b));
    if bytes_of(a) == bytes_of(b) {
        lemma_bytes_of_injective(a, b);
    }
    lemma_bytes_lt_irreflexive(bytes_of(a));
    if str_lt(a, b) {
        lemma_bytes_lt_asymmetric(bytes_of(a), bytes_of(b));
    }
}

/// The order on strings is transitive.
pub proof fn lemma_str_lt_transitive(a: Seq<char>, b: Seq<char>, c: Seq<char>)
    requires
        str_lt(a, b),
        str_lt(b, c),
    ensures
        str_lt(a, c),
{
    lemma_bytes_lt_transitive(bytes_of(a), bytes_of(b), bytes_of(c));
}

/// Compares two strings byte by byte.
pub fn compare(a: &str, b: &str) -> (r: Order)
    ensures
        r == str_order(a@, b@),
        r == Order::Equal <==> a@ == b@,
        r == Order::Less <==> str_lt(a@, b@),
        r == Order::Greater <==> str_lt(b@, a@),
{
    let x = a.as_bytes();
    let y = b.as_bytes();
    proof {
        lemma_str_order_trichotomy(a@, b@);
    }
    let mut i: usize = 0;
    while i < x.len() && i < y.len()
        invariant
            x@ == bytes_of(a@),
            y@ == bytes_of(b@),
            agree_below(x@, y@, i as int),
        decreases x.len() - i,
    {
        if x[i] < y[i] {
            assert(less_at(x@, y@, i as int));
            return Order::Less;
        }
        if y[i] < x[i] {
            assert(less_at(y@, x@, i as int));
            return Order::Greater;
        }
        i += 1;
    }
    if i < y.len() {
        assert(less_at(x@, y@, i as int));
        Order::Less
    } else if i < x.len() {
        assert(less_at(y@, x@, i as int));
        Order::Greater
    } else {
        assert(x@ =~= y@);
        proof {
            lemma_bytes_of_injective(a@, b@);
        }
        Order::Equal
    }
}

/// Whether two strings are equal.
pub fn same(a: &str, b: &str) -> (r: bool)
    ensures
        r == (a@ == b@),
{
    let x = a.as_bytes();
    let y = b.as_bytes();
    if x.len() != y.len() {
        return false;
    }
    let mut i: usize = 0;
    while i < x.len()
        invariant
            x@ == bytes_of(a@),
            y@ == bytes_of(b@),
            x@.len() == y@.len(),
            agree_below(x@, y@, i as int),
        decreases x.len() - i,
    {
        if x[i] != y[i] {
            return false;
        }
        i += 1;
    }
    assert(x@ =~= y@);
    proof {
        lemma_bytes_of_injective(a@, b@);
    }
    true
}

/// Whether `s` starts with `prefix`, byte by byte.
pub fn starts_with(s: &str, prefix: &str) -> (r: bool)
    ensures
        r == str_starts_with(s@, prefix@),
{
    let x = s.as_bytes();
    let p = prefix.as_bytes();
    if p.len() > x.len() {
        return false;
    }
    let mut i: usize = 0;
    while i < p.len()
        invariant
            x@ == bytes_of(s@),
            p@ == bytes_of(prefix@),
            p@.len() <= x@.len(),
            agree_below(p@, x@, i as int),
        decreases p.len() - i,
    {
        if p[i] != x[i] {
            assert(p@[i as int] != x@.subrange(0, p@.len() as int)[i as int]);
            return false;
        }
        i += 1;
    }
    assert(p@ =~= x@.subrange(0, p@.len() as int));
    true
}

} // verus!
