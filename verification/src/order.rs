//! The comparisons the heaps rely on, named once so that every contract
//! speaks of the same two relations.

use core::cmp::Ordering;
use vstd::prelude::*;
use vstd::std_specs::cmp::PartialOrdSpec;

verus! {

/// Whether comparisons on `T` return what the type's specification says.
pub open spec fn obeys_order<T: PartialOrd>() -> bool {
    T::obeys_partial_cmp_spec()
}

/// `a` is strictly less than `b`.
pub open spec fn below<T: PartialOrd>(a: T, b: T) -> bool {
    a.partial_cmp_spec(&b) == Some(Ordering::Less)
}

/// `a` is strictly greater than `b`.
pub open spec fn above<T: PartialOrd>(a: T, b: T) -> bool {
    a.partial_cmp_spec(&b) == Some(Ordering::Greater)
}

/// The order of `T` ranks its values: comparisons obey their specification,
/// "greater" is "less" read backwards, no two values are each less than the
/// other, and "not less than" carries over from one pair to the next.
/// Values that are neither less nor greater than one another share a rank.
pub open spec fn strict_weak_order<T: PartialOrd>() -> bool {
    &&& obeys_order::<T>()
    &&& forall|a: T, b: T| #[trigger] above(a, b) <==> below(b, a)
    &&& forall|a: T, b: T| !(#[trigger] below(a, b) && below(b, a))
    &&& forall|a: T, b: T, c: T|
        #![trigger below(b, a), below(c, b)]
        !below(b, a) && !below(c, b) ==> !below(c, a)
}

/// In a ranking order, "not less than" is transitive: when `b` is not below
/// `a` and `c` is not below `b`, then `c` is not below `a`.
pub proof fn lemma_rank_chain<T: PartialOrd>(a: T, b: T, c: T)
    requires
        strict_weak_order::<T>(),
        !below(b, a),
        !below(c, b),
    ensures
        !below(c, a),
{
}

/// Decides `a < b`.
pub fn is_below<T: PartialOrd>(a: &T, b: &T) -> (less: bool)
    ensures
        obeys_order::<T>() ==> less == below(*a, *b),
{
    *a < *b
}

/// Decides `a > b`.
pub fn is_above<T: PartialOrd>(a: &T, b: &T) -> (greater: bool)
    ensures
        obeys_order::<T>() ==> greater == above(*a, *b),
{
    *a > *b
}

/// The signed 32-bit integers are ranked by their usual order.
pub proof fn lemma_i32_strict_weak_order()
    ensures
        strict_weak_order::<i32>(),
        forall|a: i32, b: i32| #[trigger] below(a, b) <==> a < b,
{
}

/// The signed 64-bit integers are ranked by their usual order.
pub proof fn lemma_i64_strict_weak_order()
    ensures
        strict_weak_order::<i64>(),
        forall|a: i64, b: i64| #[trigger] below(a, b) <==> a < b,
{
}

/// The unsigned 32-bit integers are ranked by their usual order.
pub proof fn lemma_u32_strict_weak_order()
    ensures
        strict_weak_order::<u32>(),
        forall|a: u32, b: u32| #[trigger] below(a, b) <==> a < b,
{
}

/// The unsigned 64-bit integers are ranked by their usual order.
pub proof fn lemma_u64_strict_weak_order()
    ensures
        strict_weak_order::<u64>(),
        forall|a: u64, b: u64| #[trigger] below(a, b) <==> a < b,
{
}

/// The pointer-sized unsigned integers are ranked by their usual order.
pub proof fn lemma_usize_strict_weak_order()
    ensures
        strict_weak_order::<usize>(),
        forall|a: usize, b: usize| #[trigger] below(a, b) <==> a < b,
{
}

} // verus!
