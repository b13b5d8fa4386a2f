//! A value stored together with the weight that ranks it.

use core::cmp::Ordering;
use vstd::prelude::*;
use vstd::std_specs::cmp::PartialEqSpec;
use vstd::std_specs::cmp::PartialEqSpecImpl;
use vstd::std_specs::cmp::PartialOrdSpec;
use vstd::std_specs::cmp::PartialOrdSpecImpl;
use crate::order::above;
use crate::order::below;
use crate::order::obeys_order;
use crate::order::strict_weak_order;

verus! {

/// A value and its weight. Entries are compared by weight alone; the value
/// takes no part in any comparison.
pub struct WeighedEntry<DataType, WeightType> {
    pub weight: WeightType,
    pub value: DataType,
}

impl<DataType, WeightType: PartialOrd> PartialEq for WeighedEntry<DataType, WeightType> {
    fn eq(&self, other: &Self) -> (equal: bool) {
        self.weight == other.weight
    }
}

impl<DataType, WeightType: PartialOrd> PartialEqSpecImpl for WeighedEntry<DataType, WeightType> {
    open spec fn obeys_eq_spec() -> bool {
        WeightType::obeys_eq_spec()
    }

    open spec fn eq_spec(&self, other: &Self) -> bool {
        self.weight.eq_spec(&other.weight)
    }
}

impl<DataType, WeightType: PartialOrd> PartialOrd for WeighedEntry<DataType, WeightType> {
    fn partial_cmp(&self, other: &Self) -> (order: Option<Ordering>) {
        self.weight.partial_cmp(&other.weight)
    }

    fn lt(&self, other: &Self) -> (less: bool) {
        self.weight < other.weight
    }

    fn gt(&self, other: &Self) -> (greater: bool) {
        self.weight > other.weight
    }
}

impl<DataType, WeightType: PartialOrd> PartialOrdSpecImpl for WeighedEntry<DataType, WeightType> {
    open spec fn obeys_partial_cmp_spec() -> bool {
        WeightType::obeys_partial_cmp_spec()
    }

    open spec fn partial_cmp_spec(&self, other: &Self) -> Option<Ordering> {
        self.weight.partial_cmp_spec(&other.weight)
    }
}

/// Entries are ranked as their weights are.
pub proof fn lemma_entries_ranked_by_weight<DataType, WeightType: PartialOrd>()
    ensures
        obeys_order::<WeighedEntry<DataType, WeightType>>() == obeys_order::<WeightType>(),
        forall|a: WeighedEntry<DataType, WeightType>, b: WeighedEntry<DataType, WeightType>|
            #[trigger] below(a, b) == below(a.weight, b.weight),
        forall|a: WeighedEntry<DataType, WeightType>, b: WeighedEntry<DataType, WeightType>|
            #[trigger] above(a, b) == above(a.weight, b.weight),
        strict_weak_order::<WeightType>() ==> strict_weak_order::<
            WeighedEntry<DataType, WeightType>,
        >(),
{
    if strict_weak_order::<WeightType>() {
        assert forall|
            a: WeighedEntry<DataType, WeightType>,
            b: WeighedEntry<DataType, WeightType>,
        | #[trigger] above(a, b) <==> below(b, a) by {
            assert(above(a.weight, b.weight) <==> below(b.weight, a.weight));
        }
        assert forall|
            a: WeighedEntry<DataType, WeightType>,
            b: WeighedEntry<DataType, WeightType>,
        | !(#[trigger] below(a, b) && below(b, a)) by {
            assert(!(below(a.weight, b.weight) && below(b.weight, a.weight)));
        }
        assert forall|
            a: WeighedEntry<DataType, WeightType>,
            b: WeighedEntry<DataType, WeightType>,
            c: WeighedEntry<DataType, WeightType>,
        |
            #![trigger below(b, a), below(c, b)]
            !below(b, a) && !below(c, b) implies !below(c, a) by {
            assert(!below(b.weight, a.weight));
            assert(!below(c.weight, b.weight));
        }
    }
}

} // verus!
