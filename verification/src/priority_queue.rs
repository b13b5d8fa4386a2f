//! A priority queue ordered by the stored values themselves.

use vstd::prelude::*;
use crate::laws::lemma_extracted_is_heap;
use crate::laws::lemma_inserted_all_entries;
use crate::laws::lemma_inserted_all_is_heap;
use crate::laws::lemma_inserted_entries;
use crate::laws::lemma_root_is_least;
use crate::one_or_many::OneOrMany;
use crate::order::below;
use crate::order::obeys_order;
use crate::order::strict_weak_order;
use crate::sift::extracted;
use crate::sift::inserted_all;
use crate::sift::is_heap;
use crate::sift::lemma_root_replaced_entries;
use crate::sift::sift_down;
use crate::sift::sift_up;

verus! {

/// A binary min-heap kept in one vector. `pop` hands out a least value.
#[derive(Debug)]
pub struct PriorityQueue<T: PartialOrd> {
    data: Vec<T>,
}

impl<T: PartialOrd> View for PriorityQueue<T> {
    type V = Seq<T>;

    /// The stored values in their positions in the tree: the root first, the
    /// children of position `i` at `2 * i + 1` and `2 * i + 2`.
    closed spec fn view(&self) -> Seq<T> {
        self.data@
    }
}

impl<T: PartialOrd> PriorityQueue<T> {
    /// Where the order of `T` ranks its values, the entries are in heap order.
    #[verifier::type_invariant]
    spec fn heap_ordered(self) -> bool {
        strict_weak_order::<T>() ==> is_heap(self.data@)
    }

    /// Creates an empty queue.
    pub fn new() -> (queue: PriorityQueue<T>)
        ensures
            queue@ == Seq::<T>::empty(),
            is_heap(queue@),
    {
        PriorityQueue { data: Vec::new() }
    }

    /// The number of stored values.
    pub fn len(&self) -> (count: usize)
        ensures
            count == self@.len(),
    {
        self.data.len()
    }

    /// Whether the queue holds no value.
    pub fn is_empty(&self) -> (empty: bool)
        ensures
            empty == (self@.len() == 0),
    {
        self.data.len() == 0
    }

    /// Inserts the given value, or each of the given values from first to
    /// last, and moves it up to its place.
    pub fn push<U: OneOrMany<T>>(&mut self, values: U)
        ensures
            final(self)@.len() == old(self)@.len() + values.as_seq().len(),
            final(self)@.to_multiset() == old(self)@.to_multiset().add(
                values.as_seq().to_multiset(),
            ),
            obeys_order::<T>() ==> final(self)@ == inserted_all(old(self)@, values.as_seq()),
            strict_weak_order::<T>() ==> is_heap(final(self)@),
    {
        let list: Vec<T> = values.as_list();
        let ghost all: Seq<T> = list@;
        proof {
            use_type_invariant(&*self);
            lemma_inserted_all_entries(old(self)@, all);
            vstd::seq_lib::to_multiset_len(all.take(0));
            assert(old(self)@.to_multiset().add(all.take(0).to_multiset())
                =~= old(self)@.to_multiset()) by {
                broadcast use vstd::multiset::group_multiset_axioms;

            }
            if strict_weak_order::<T>() {
                lemma_inserted_all_is_heap(old(self)@, all);
            }
        }
        // The entries leave the queue while they are rearranged, so that the
        // queue itself never holds them out of order.
        let mut data: Vec<T> = Vec::new();
        core::mem::swap(&mut self.data, &mut data);
        for value in iter: list
            invariant
                iter.seq() == all,
                data@.len() == old(self)@.len() + iter.index(),
                data@.to_multiset() == old(self)@.to_multiset().add(
                    all.take(iter.index() as int).to_multiset(),
                ),
                obeys_order::<T>() ==> data@ == inserted_all(
                    old(self)@,
                    all.take(iter.index() as int),
                ),
        {
            proof {
                let done = all.take(iter.index() as int);
                let next = all.take(iter.index() + 1);
                assert(next.drop_last() =~= done);
                assert(next.last() == value);
                assert(next =~= done.push(value));
                lemma_inserted_entries(data@, value);
                vstd::seq_lib::to_multiset_build(done, value);
                vstd::seq_lib::to_multiset_build(data@, value);
                assert(old(self)@.to_multiset().add(done.to_multiset()).insert(value)
                    =~= old(self)@.to_multiset().add(next.to_multiset())) by {
                    broadcast use vstd::multiset::group_multiset_axioms;

                }
            }
            let index: usize = data.len();
            data.push(value);
            sift_up(&mut data, index);
        }
        proof {
            assert(all.take(all.len() as int) =~= all);
        }
        core::mem::swap(&mut self.data, &mut data);
    }

    /// Inserts the given value or values; another name for `push`.
    pub fn add<U: OneOrMany<T>>(&mut self, values: U)
        ensures
            final(self)@.len() == old(self)@.len() + values.as_seq().len(),
            final(self)@.to_multiset() == old(self)@.to_multiset().add(
                values.as_seq().to_multiset(),
            ),
            obeys_order::<T>() ==> final(self)@ == inserted_all(old(self)@, values.as_seq()),
            strict_weak_order::<T>() ==> is_heap(final(self)@),
    {
        self.push(values)
    }

    /// Takes out a least value, or returns `None` when the queue is empty.
    pub fn pop(&mut self) -> (least: Option<T>)
        ensures
            old(self)@.len() == 0 ==> least.is_none() && final(self)@ == old(self)@,
            old(self)@.len() > 0 ==> least == Some(old(self)@[0]),
            old(self)@.len() > 0 ==> final(self)@.len() == old(self)@.len() - 1,
            old(self)@.len() > 0 ==> final(self)@.to_multiset() == old(self)@.to_multiset().remove(
                old(self)@[0],
            ),
            old(self)@.len() > 0 && obeys_order::<T>() ==> final(self)@ == extracted(old(self)@),
            strict_weak_order::<T>() ==> is_heap(final(self)@),
            strict_weak_order::<T>() ==> forall|i: int|
                0 <= i < old(self)@.len() ==> !below(#[trigger] old(self)@[i], old(self)@[0]),
    {
        proof {
            use_type_invariant(&*self);
            if strict_weak_order::<T>() {
                assert forall|i: int| 0 <= i < self.data@.len() implies !below(
                    #[trigger] self.data@[i],
                    self.data@[0],
                ) by {
                    lemma_root_is_least(self.data@, i);
                }
            }
        }
        if self.data.len() == 0 {
            return None;
        }
        proof {
            lemma_root_replaced_entries(self.data@);
            if strict_weak_order::<T>() {
                lemma_extracted_is_heap(self.data@);
            }
        }
        // The entries leave the queue while they are rearranged, so that the
        // queue itself never holds them out of order.
        let mut data: Vec<T> = Vec::new();
        core::mem::swap(&mut self.data, &mut data);
        let top: T = data.swap_remove(0);
        sift_down(&mut data, 0);
        core::mem::swap(&mut self.data, &mut data);
        Some(top)
    }
}

} // verus!
