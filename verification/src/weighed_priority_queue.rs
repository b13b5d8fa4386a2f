//! A priority queue ordered by a weight that a function derives from each
//! stored value.

use vstd::prelude::*;
use crate::laws::lemma_extracted_is_heap;
use crate::laws::lemma_inserted_all_entries;
use crate::laws::lemma_inserted_all_is_heap;
use crate::laws::lemma_inserted_entries;
use crate::laws::lemma_root_is_least;
use crate::one_or_many::OneOrMany;
use crate::order::below;
use crate::order::obeys_order;
use crate::order::strict_weak_order;
use crate::sift::extracted;
use crate::sift::inserted_all;
use crate::sift::is_heap;
use crate::sift::left_child;
use crate::sift::lemma_root_replaced_entries;
use crate::sift::parent;
use crate::sift::right_child;
use crate::sift::sift_down;
use crate::sift::sift_up;
use crate::weighed_entry::lemma_entries_ranked_by_weight;
use crate::weighed_entry::WeighedEntry;

verus! {

/// The entries made of `weights` and `values`, position by position.
pub open spec fn weighed<DataType, WeightType>(
    weights: Seq<WeightType>,
    values: Seq<DataType>,
) -> Seq<WeighedEntry<DataType, WeightType>> {
    Seq::new(values.len(), |i: int| WeighedEntry { weight: weights[i], value: values[i] })
}

/// A binary min-heap of values ranked by weight. The weight of a value is
/// computed once, when the value is pushed, and kept beside it.
pub struct WeighedPriorityQueue<
    WeightType: PartialOrd,
    DataType,
    WeightFunction = fn(&DataType) -> WeightType,
> {
    data: Vec<WeighedEntry<DataType, WeightType>>,
    weight_function: WeightFunction,
}

impl<WeightType: PartialOrd, DataType, WeightFunction> View for WeighedPriorityQueue<
    WeightType,
    DataType,
    WeightFunction,
> {
    type V = Seq<WeighedEntry<DataType, WeightType>>;

    /// The stored entries in their positions in the tree: the root first, the
    /// children of position `i` at `2 * i + 1` and `2 * i + 2`.
    closed spec fn view(&self) -> Seq<WeighedEntry<DataType, WeightType>> {
        self.data@
    }
}

impl<WeightType: PartialOrd, DataType, WeightFunction> WeighedPriorityQueue<
    WeightType,
    DataType,
    WeightFunction,
> {
    /// Where the order of the weights ranks them, the entries are in heap
    /// order.
    #[verifier::type_invariant]
    spec fn heap_ordered(self) -> bool {
        strict_weak_order::<WeightType>() ==> is_heap(self.data@)
    }
}

impl<
    WeightType: PartialOrd,
    DataType,
    WeightFunction: Fn(&DataType) -> WeightType,
> WeighedPriorityQueue<WeightType, DataType, WeightFunction> {
    /// The function that weighs the values of this queue.
    pub closed spec fn weigher(&self) -> WeightFunction {
        self.weight_function
    }

    /// Creates an empty queue whose values are weighed by `weight_function`.
    pub fn new(weight_function: WeightFunction) -> (queue: Self)
        ensures
            queue@ == Seq::<WeighedEntry<DataType, WeightType>>::empty(),
            queue.weigher() == weight_function,
            is_heap(queue@),
    {
        WeighedPriorityQueue { data: Vec::new(), weight_function }
    }

    /// The number of stored values.
    pub fn len(&self) -> (count: usize)
        ensures
            count == self@.len(),
    {
        self.data.len()
    }

    /// Whether the queue holds no value.
    pub fn is_empty(&self) -> (empty: bool)
        ensures
            empty == (self@.len() == 0),
    {
        self.data.is_empty()
    }

    /// Weighs the given value, or each of the given values from first to
    /// last, inserts it with its weight and moves it up to its place. The
    /// weight function is called once for each value.
    pub fn push<U: OneOrMany<DataType>>(&mut self, values: U)
        requires
            forall|i: int|
                0 <= i < values.as_seq().len() ==> call_requires(
                    old(self).weigher(),
                    (&#[trigger] values.as_seq()[i],),
                ),
        ensures
            final(self).weigher() == old(self).weigher(),
            final(self)@.len() == old(self)@.len() + values.as_seq().len(),
            exists|weights: Seq<WeightType>|
                {
                    &&& weights.len() == values.as_seq().len()
                    &&& forall|i: int|
                        0 <= i < weights.len() ==> call_ensures(
                            old(self).weigher(),
                            (&values.as_seq()[i],),
                            #[trigger] weights[i],
                        )
                    &&& final(self)@.to_multiset() == old(self)@.to_multiset().add(
                        weighed(weights, values.as_seq()).to_multiset(),
                    )
                    &&& obeys_order::<WeightType>() ==> final(self)@ == inserted_all(
                        old(self)@,
                        weighed(weights, values.as_seq()),
                    )
                },
            strict_weak_order::<WeightType>() ==> is_heap(final(self)@),
    {
        let list: Vec<DataType> = values.as_list();
        let ghost all: Seq<DataType> = list@;
        let ghost mut weights: Seq<WeightType> = Seq::empty();
        proof {
            use_type_invariant(&*self);
            lemma_entries_ranked_by_weight::<DataType, WeightType>();
            let none = weighed(weights, all.take(0));
            assert(none =~= Seq::empty());
            lemma_inserted_all_entries(self@, none);
        }
        // The entries leave the queue while they are rearranged, so that the
        // queue itself never holds them out of order.
        let mut data: Vec<WeighedEntry<DataType, WeightType>> = Vec::new();
        core::mem::swap(&mut self.data, &mut data);
        for value in iter: list
            invariant
                iter.seq() == all,
                self.weigher() == old(self).weigher(),
                forall|i: int|
                    0 <= i < all.len() ==> call_requires(self.weigher(), (&#[trigger] all[i],)),
                weights.len() == iter.index(),
                forall|i: int|
                    0 <= i < weights.len() ==> call_ensures(
                        self.weigher(),
                        (&all[i],),
                        #[trigger] weights[i],
                    ),
                data@.len() == old(self)@.len() + iter.index(),
                data@.to_multiset() == old(self)@.to_multiset().add(
                    weighed(weights, all.take(iter.index() as int)).to_multiset(),
                ),
                obeys_order::<WeightType>() ==> data@ == inserted_all(
                    old(self)@,
                    weighed(weights, all.take(iter.index() as int)),
                ),
        {
            let weight: WeightType = (self.weight_function)(&value);
            let entry = WeighedEntry { weight, value };
            proof {
                let done = weighed(weights, all.take(iter.index() as int));
                let next = weighed(weights.push(weight), all.take(iter.index() + 1));
                assert(next.drop_last() =~= done);
                assert(next.last() == entry);
                assert(next =~= done.push(entry));
                lemma_inserted_entries(data@, entry);
                vstd::seq_lib::to_multiset_build(done, entry);
                vstd::seq_lib::to_multiset_build(data@, entry);
                assert(old(self)@.to_multiset().add(done.to_multiset()).insert(entry)
                    =~= old(self)@.to_multiset().add(next.to_multiset())) by {
                    broadcast use vstd::multiset::group_multiset_axioms;

                }
                weights = weights.push(weight);
            }
            let index: usize = data.len();
            data.push(entry);
            sift_up(&mut data, index);
        }
        proof {
            assert(all.take(all.len() as int) =~= all);
            if strict_weak_order::<WeightType>() {
                lemma_inserted_all_is_heap(old(self)@, weighed(weights, all));
            }
        }
        core::mem::swap(&mut self.data, &mut data);
    }

    /// Takes out a value of least weight, or returns `None` when the queue is
    /// empty.
    pub fn pop(&mut self) -> (least: Option<DataType>)
        ensures
            final(self).weigher() == old(self).weigher(),
            old(self)@.len() == 0 ==> least.is_none() && final(self)@ == old(self)@,
            old(self)@.len() > 0 ==> least == Some(old(self)@[0].value),
            old(self)@.len() > 0 ==> final(self)@.len() == old(self)@.len() - 1,
            old(self)@.len() > 0 ==> final(self)@.to_multiset() == old(self)@.to_multiset().remove(
                old(self)@[0],
            ),
            old(self)@.len() > 0 && obeys_order::<WeightType>() ==> final(self)@ == extracted(
                old(self)@,
            ),
            strict_weak_order::<WeightType>() ==> is_heap(final(self)@),
            strict_weak_order::<WeightType>() ==> forall|i: int|
                0 <= i < old(self)@.len() ==> !below(
                    (#[trigger] old(self)@[i]).weight,
                    old(self)@[0].weight,
                ),
    {
        proof {
            use_type_invariant(&*self);
            lemma_entries_ranked_by_weight::<DataType, WeightType>();
            if strict_weak_order::<WeightType>() {
                assert forall|i: int| 0 <= i < self.data@.len() implies !below(
                    (#[trigger] self.data@[i]).weight,
                    self.data@[0].weight,
                ) by {
                    lemma_root_is_least(self.data@, i);
                }
            }
        }
        if self.data.is_empty() {
            return None;
        }
        proof {
            lemma_root_replaced_entries(self.data@);
            if strict_weak_order::<WeightType>() {
                lemma_extracted_is_heap(self.data@);
            }
        }
        // The entries leave the queue while they are rearranged, so that the
        // queue itself never holds them out of order.
        let mut data: Vec<WeighedEntry<DataType, WeightType>> = Vec::new();
        core::mem::swap(&mut self.data, &mut data);
        let top: WeighedEntry<DataType, WeightType> = data.swap_remove(0);
        sift_down(&mut data, 0);
        core::mem::swap(&mut self.data, &mut data);
        Some(top.value)
    }

    /// Position of the parent of the entry at `node_index`.
    pub fn parent_of_index(node_index: usize) -> (parent_index: usize)
        requires
            node_index > 0,
        ensures
            parent_index == parent(node_index as int),
    {
        crate::sift::parent_of_index(node_index)
    }

    /// Positions of the left and the right child of the entry at
    /// `node_index`.
    pub fn direct_children_of_index(node_index: usize) -> (children: [usize; 2])
        requires
            right_child(node_index as int) <= usize::MAX,
        ensures
            children[0] == left_child(node_index as int),
            children[1] == right_child(node_index as int),
    {
        crate::sift::direct_children_of_index(node_index)
    }
}

} // verus!
