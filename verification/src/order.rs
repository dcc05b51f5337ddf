//! The lexicographic order on byte strings.

use vstd::prelude::*;
use crate::ascii::{lowercased, to_lower};
use std::cmp::Ordering;

verus! {

/// How one value stands to another in an order.
#[derive(Clone, Copy, Debug, PartialEq, Eq, Structural)]
pub enum Order {
    Less,
    Equal,
    Greater,
}

impl Order {
    /// The same relation as a value of the standard library.
    pub open spec fn ordering(self) -> Ordering {
        match self {
            Order::Less => Ordering::Less,
            Order::Equal => Ordering::Equal,
            Order::Greater => Ordering::Greater,
        }
    }

    /// Converts to the standard library's ordering.
    pub fn to_ordering(self) -> (r: Ordering)
        ensures
            r == self.ordering(),
    {
        match self {
            Order::Less => Ordering::Less,
            Order::Equal => Ordering::Equal,
            Order::Greater => Ordering::Greater,
        }
    }
}

/// `a` and `b` hold the same bytes at every index below `k`.
pub open spec fn agree_below(a: Seq<u8>, b: Seq<u8>, k: int) -> bool {
    forall|j: int| 0 <= j < k ==> a[j] == b[j]
}

/// Index `k` decides that `a` sorts before `b`: the two agree below `k`, and
/// there `a` either ends while `b` goes on, or holds the smaller byte.
pub open spec fn precedes_at(a: Seq<u8>, b: Seq<u8>, k: int) -> bool {
    &&& 0 <= k <= a.len()
    &&& k < b.len()
    &&& agree_below(a, b, k)
    &&& k < a.len() ==> a[k] < b[k]
}

/// `a` sorts strictly before `b`: the first unequal pair of bytes decides, and a
/// proper prefix sorts before what it is a prefix of.
pub open spec fn precedes(a: Seq<u8>, b: Seq<u8>) -> bool {
    exists|k: int| precedes_at(a, b, k)
}

/// The three-way comparison that `precedes` induces.
pub open spec fn order_of(a: Seq<u8>, b: Seq<u8>) -> Order {
    if precedes(a, b) {
        Order::Less
    } else if precedes(b, a) {
        Order::Greater
    } else {
        Order::Equal
    }
}

/// No byte string sorts before itself.
pub proof fn lemma_precedes_irreflexive(a: Seq<u8>)
    ensures
        !precedes(a, a),
{
    assert forall|k: int| !precedes_at(a, a, k) by {}
}

/// Two byte strings never sort before each other.
pub proof fn lemma_precedes_asymmetric(a: Seq<u8>, b: Seq<u8>)
    ensures
        !(precedes(a, b) && precedes(b, a)),
{
    if precedes(a, b) && precedes(b, a) {
        let k1 = choose|k: int| precedes_at(a, b, k);
        let k2 = choose|k: int| precedes_at(b, a, k);
        if k1 < k2 {
            assert(b[k1] == a[k1]);
        } else if k2 < k1 {
            assert(a[k2] == b[k2]);
        }
    }
}

/// Sorting before is transitive.
pub proof fn lemma_precedes_transitive(a: Seq<u8>, b: Seq<u8>, c: Seq<u8>)
    requires
        precedes(a, b),
        precedes(b, c),
    ensures
        precedes(a, c),
{
    let k1 = choose|k: int| precedes_at(a, b, k);
    let k2 = choose|k: int| precedes_at(b, c, k);
    let k = if k1 <= k2 { k1 } else { k2 };
    assert forall|j: int| 0 <= j < k implies a[j] == c[j] by {
        assert(a[j] == b[j]);
        assert(b[j] == c[j]);
    }
    if k1 < k2 {
        assert(b[k1] == c[k1]);
    } else if k2 < k1 {
        assert(a[k2] == b[k2]);
    }
    assert(precedes_at(a, c, k));
}

/// Two byte strings that agree below `k` are equal, or one sorts before the other.
proof fn lemma_connected_from(a: Seq<u8>, b: Seq<u8>, k: int)
    requires
        0 <= k <= a.len(),
        k <= b.len(),
        agree_below(a, b, k),
    ensures
        a == b || precedes(a, b) || precedes(b, a),
    decreases a.len() - k,
{
    if k == a.len() {
        if k == b.len() {
            assert(a =~= b);
        } else {
            assert(precedes_at(a, b, k));
        }
    } else if k == b.len() {
        assert(agree_below(b, a, k));
        assert(precedes_at(b, a, k));
    } else if a[k] < b[k] {
        assert(precedes_at(a, b, k));
    } else if b[k] < a[k] {
        assert(agree_below(b, a, k));
        assert(precedes_at(b, a, k));
    } else {
        lemma_connected_from(a, b, k + 1);
    }
}

/// Of two different byte strings one sorts before the other.
pub proof fn lemma_precedes_total(a: Seq<u8>, b: Seq<u8>)
    ensures
        a == b || precedes(a, b) || precedes(b, a),
{
    lemma_connected_from(a, b, 0);
}

/// Exactly one of "before", "equal" and "after" holds of two byte strings, and
/// `order_of` names it.
pub proof fn lemma_order_of(a: Seq<u8>, b: Seq<u8>)
    ensures
        order_of(a, b) == Order::Less <==> precedes(a, b),
        order_of(a, b) == Order::Equal <==> a == b,
        order_of(a, b) == Order::Greater <==> precedes(b, a),
{
    lemma_precedes_total(a, b);
    lemma_precedes_asymmetric(a, b);
    lemma_precedes_irreflexive(a);
}

/// What a comparison looks at: the bytes themselves, or their lower-case form
/// where case is ignored.
pub open spec fn compared_form(s: Seq<u8>, ignore_case: bool) -> Seq<u8> {
    if ignore_case {
        lowercased(s)
    } else {
        s
    }
}

/// Compares two byte strings lexicographically, byte by byte over their common
/// length and then by length; with `ignore_case`, each byte is lower-cased first.
pub fn compare(a: &[u8], b: &[u8], ignore_case: bool) -> (r: Order)
    ensures
        r == order_of(compared_form(a@, ignore_case), compared_form(b@, ignore_case)),
{
    let ghost fa = compared_form(a@, ignore_case);
    let ghost fb = compared_form(b@, ignore_case);
    proof {
        lemma_order_of(fa, fb);
    }
    let len = if a.len() <= b.len() { a.len() } else { b.len() };
    let mut i: usize = 0;
    while i < len
        invariant
            i <= len,
            len <= a.len(),
            len <= b.len(),
            fa == compared_form(a@, ignore_case),
            fb == compared_form(b@, ignore_case),
            agree_below(fa, fb, i as int),
        decreases len - i,
    {
        let x = if ignore_case { to_lower(a[i]) } else { a[i] };
        let y = if ignore_case { to_lower(b[i]) } else { b[i] };
        assert(x == fa[i as int] && y == fb[i as int]);
        if x < y {
            assert(precedes_at(fa, fb, i as int));
            return Order::Less;
        }
        if x > y {
            assert(agree_below(fb, fa, i as int));
            assert(precedes_at(fb, fa, i as int));
            return Order::Greater;
        }
        i += 1;
    }
    if a.len() < b.len() {
        assert(precedes_at(fa, fb, len as int));
        Order::Less
    } else if a.len() > b.len() {
        assert(agree_below(fb, fa, len as int));
        assert(precedes_at(fb, fa, len as int));
        Order::Greater
    } else {
        assert(fa =~= fb);
        Order::Equal
    }
}

} // verus!
