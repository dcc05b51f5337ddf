//! What holds of the equality and the order of header names.

use crate::ascii::{bytes_of, differ_only_in_case, lemma_case_variants};
use crate::name::HeaderName;
use crate::order::{lemma_order_of, lemma_precedes_transitive, order_of, Order};
use std::cmp::Ordering;
use vstd::prelude::*;
use vstd::std_specs::cmp::{PartialEqSpec, PartialOrdSpec};

verus! {

/// Names that differ in the case of letters only are one name: they are equal,
/// they have the same key, which is all that is hashed of them, and each
/// compares to any third name as the other does, from either side.
pub proof fn lemma_case_insensitive(a: HeaderName, b: HeaderName, c: HeaderName)
    requires
        differ_only_in_case(bytes_of(a@), bytes_of(b@)),
    ensures
        a.eq_spec(&b),
        a.key() == b.key(),
        order_of(a.key(), c.key()) == order_of(b.key(), c.key()),
        order_of(c.key(), a.key()) == order_of(c.key(), b.key()),
        a.partial_cmp_spec(&c) == b.partial_cmp_spec(&c),
        c.partial_cmp_spec(&a) == c.partial_cmp_spec(&b),
        a.eq_spec(&c) == b.eq_spec(&c),
{
    lemma_case_variants(bytes_of(a@), bytes_of(b@));
}

/// Equality of names is that of their keys, and agrees with their order: two
/// names are equal exactly when neither sorts before the other.
pub proof fn lemma_eq_agrees_with_order(a: HeaderName, b: HeaderName)
    ensures
        a.eq_spec(&b) <==> order_of(a.key(), b.key()) == Order::Equal,
        a.eq_spec(&b) <==> a.partial_cmp_spec(&b) == Some(Ordering::Equal),
{
    lemma_order_of(a.key(), b.key());
}

/// The order of names is transitive.
pub proof fn lemma_order_transitive(a: HeaderName, b: HeaderName, c: HeaderName)
    requires
        a.partial_cmp_spec(&b) == Some(Ordering::Less),
        b.partial_cmp_spec(&c) == Some(Ordering::Less),
    ensures
        a.partial_cmp_spec(&c) == Some(Ordering::Less),
{
    lemma_order_of(a.key(), b.key());
    lemma_order_of(b.key(), c.key());
    lemma_order_of(a.key(), c.key());
    lemma_precedes_transitive(a.key(), b.key(), c.key());
}

/// Turning two names round turns their order round.
pub proof fn lemma_order_antisymmetric(a: HeaderName, b: HeaderName)
    ensures
        a.partial_cmp_spec(&b) == Some(Ordering::Less) <==> b.partial_cmp_spec(&a) == Some(
            Ordering::Greater,
        ),
        a.partial_cmp_spec(&b) == Some(Ordering::Equal) <==> b.partial_cmp_spec(&a) == Some(
            Ordering::Equal,
        ),
{
    lemma_order_of(a.key(), b.key());
    lemma_order_of(b.key(), a.key());
}

} // verus!
