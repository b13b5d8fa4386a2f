//! What the repair steps guarantee: they keep the entries, restore the heap
//! order, and make repeated extraction yield the entries in ascending order.

use vstd::prelude::*;
use crate::order::above;
use crate::order::below;
use crate::order::lemma_rank_chain;
use crate::order::strict_weak_order;
use crate::sift::descent;
use crate::sift::extracted;
use crate::sift::inserted;
use crate::sift::inserted_all;
use crate::sift::is_heap;
use crate::sift::left_child;
use crate::sift::lemma_root_replaced_entries;
use crate::sift::lemma_swapped_keeps_entries;
use crate::sift::parent;
use crate::sift::right_child;
use crate::sift::root_replaced;
use crate::sift::sifted_down;
use crate::sift::sifted_up;
use crate::sift::swapped;

verus! {

/// The heap order holds everywhere except, possibly, between the entry at
/// position `i` and its parent; the children of `i` already respect the
/// parent of `i`.
pub open spec fn heap_but_up<T: PartialOrd>(s: Seq<T>, i: int) -> bool {
    &&& forall|j: int| 0 < j < s.len() && j != i ==> !below(#[trigger] s[j], s[parent(j)])
    &&& i > 0 ==> forall|j: int|
        0 < j < s.len() && parent(j) == i ==> !below(#[trigger] s[j], s[parent(i)])
}

/// The heap order holds everywhere except, possibly, between the entry at
/// position `i` and its children; the children of `i` already respect the
/// parent of `i`.
pub open spec fn heap_but_down<T: PartialOrd>(s: Seq<T>, i: int) -> bool {
    &&& forall|j: int|
        0 < j < s.len() && parent(j) != i ==> !below(#[trigger] s[j], s[parent(j)])
    &&& i > 0 ==> forall|j: int|
        0 < j < s.len() && parent(j) == i ==> !below(#[trigger] s[j], s[parent(i)])
}

/// Moving an entry up changes neither the length nor the collection of
/// entries.
pub proof fn lemma_sifted_up_keeps_entries<T: PartialOrd>(s: Seq<T>, i: int)
    ensures
        sifted_up(s, i).len() == s.len(),
        sifted_up(s, i).to_multiset() == s.to_multiset(),
    decreases i,
{
    if 0 < i < s.len() && above(s[parent(i)], s[i]) {
        lemma_swapped_keeps_entries(s, i, parent(i));
        lemma_sifted_up_keeps_entries(swapped(s, i, parent(i)), parent(i));
    }
}

/// Moving an entry down changes neither the length nor the collection of
/// entries.
pub proof fn lemma_sifted_down_keeps_entries<T: PartialOrd>(s: Seq<T>, i: int)
    ensures
        sifted_down(s, i).len() == s.len(),
        sifted_down(s, i).to_multiset() == s.to_multiset(),
    decreases s.len() - i,
{
    match descent(s, i) {
        Some(child) => {
            lemma_swapped_keeps_entries(s, i, child);
            lemma_sifted_down_keeps_entries(swapped(s, i, child), child);
        },
        None => {},
    }
}

/// Moving the one misplaced entry up restores the heap order.
pub proof fn lemma_sifted_up_restores_heap<T: PartialOrd>(s: Seq<T>, i: int)
    requires
        strict_weak_order::<T>(),
        0 <= i < s.len(),
        heap_but_up(s, i),
    ensures
        is_heap(sifted_up(s, i)),
    decreases i,
{
    if 0 < i && above(s[parent(i)], s[i]) {
        let p = parent(i);
        let t = swapped(s, i, p);
        assert(below(s[i], s[p]));
        assert(!below(s[p], s[i]));
        assert forall|j: int| 0 < j < t.len() && j != p implies !below(
            #[trigger] t[j],
            t[parent(j)],
        ) by {
            if j == i {
            } else if parent(j) == i {
                assert(!below(s[j], s[p]));
            } else if parent(j) == p {
                assert(!below(s[j], s[p]));
                lemma_rank_chain(s[i], s[p], s[j]);
            } else {
                assert(!below(s[j], s[parent(j)]));
            }
        }
        if p > 0 {
            let pp = parent(p);
            assert forall|j: int| 0 < j < t.len() && parent(j) == p implies !below(
                #[trigger] t[j],
                t[pp],
            ) by {
                assert(!below(s[p], s[pp]));
                if j != i {
                    assert(!below(s[j], s[p]));
                    lemma_rank_chain(s[pp], s[p], s[j]);
                }
            }
        }
        lemma_sifted_up_restores_heap(t, p);
    } else {
        assert forall|j: int| 0 < j < s.len() implies !below(#[trigger] s[j], s[parent(j)]) by {
            if j == i {
                assert(!above(s[parent(i)], s[i]));
            }
        }
    }
}

/// Moving the one misplaced entry down restores the heap order.
pub proof fn lemma_sifted_down_restores_heap<T: PartialOrd>(s: Seq<T>, i: int)
    requires
        strict_weak_order::<T>(),
        0 <= i,
        heap_but_down(s, i),
    ensures
        is_heap(sifted_down(s, i)),
    decreases s.len() - i,
{
    let left = left_child(i);
    let right = right_child(i);
    match descent(s, i) {
        Some(child) => {
            let other = if child == left {
                right
            } else {
                left
            };
            let t = swapped(s, i, child);
            assert(below(s[child], s[i]));
            assert(!below(s[i], s[child]));
            assert(other < s.len() ==> !below(s[other], s[child])) by {
                if other < s.len() {
                    if !below(s[other], s[i]) {
                        lemma_rank_chain(s[child], s[i], s[other]);
                    }
                }
            }
            assert forall|j: int| 0 < j < t.len() && parent(j) != child implies !below(
                #[trigger] t[j],
                t[parent(j)],
            ) by {
                if j == child {
                } else if j == other {
                } else if j == i {
                    assert(!below(s[child], s[parent(i)]));
                } else {
                    assert(parent(j) != i);
                    assert(!below(s[j], s[parent(j)]));
                }
            }
            assert forall|j: int| 0 < j < t.len() && parent(j) == child implies !below(
                #[trigger] t[j],
                t[parent(child)],
            ) by {
                assert(!below(s[j], s[parent(j)]));
            }
            lemma_sifted_down_restores_heap(t, child);
        },
        None => {
            assert forall|j: int| 0 < j < s.len() implies !below(
                #[trigger] s[j],
                s[parent(j)],
            ) by {
                if parent(j) == i {
                    assert(j == left || j == right);
                }
            }
        },
    }
}

/// Inserting a value adds exactly that value.
pub proof fn lemma_inserted_entries<T: PartialOrd>(s: Seq<T>, value: T)
    ensures
        inserted(s, value).len() == s.len() + 1,
        inserted(s, value).to_multiset() == s.to_multiset().insert(value),
{
    lemma_sifted_up_keeps_entries(s.push(value), s.len() as int);
    vstd::seq_lib::to_multiset_build(s, value);
}

/// Inserting a value into a heap gives a heap.
pub proof fn lemma_inserted_is_heap<T: PartialOrd>(s: Seq<T>, value: T)
    requires
        strict_weak_order::<T>(),
        is_heap(s),
    ensures
        is_heap(inserted(s, value)),
{
    let t = s.push(value);
    let n = s.len() as int;
    assert forall|j: int| 0 < j < t.len() && j != n implies !below(
        #[trigger] t[j],
        t[parent(j)],
    ) by {
        assert(!below(s[j], s[parent(j)]));
    }
    lemma_sifted_up_restores_heap(t, n);
}

/// Inserting several values adds exactly those values.
pub proof fn lemma_inserted_all_entries<T: PartialOrd>(s: Seq<T>, values: Seq<T>)
    ensures
        inserted_all(s, values).len() == s.len() + values.len(),
        inserted_all(s, values).to_multiset() == s.to_multiset().add(values.to_multiset()),
    decreases values.len(),
{
    broadcast use vstd::multiset::group_multiset_axioms;

    if values.len() == 0 {
        assert(values.to_multiset() =~= vstd::multiset::Multiset::<T>::empty()) by {
            vstd::seq_lib::to_multiset_len(values);
        }
        assert(s.to_multiset().add(values.to_multiset()) =~= s.to_multiset());
    } else {
        let front = values.drop_last();
        lemma_inserted_all_entries(s, front);
        lemma_inserted_entries(inserted_all(s, front), values.last());
        assert(front.push(values.last()) =~= values);
        vstd::seq_lib::to_multiset_build(front, values.last());
        assert(s.to_multiset().add(front.to_multiset()).insert(values.last())
            =~= s.to_multiset().add(values.to_multiset()));
    }
}

/// Inserting several values into a heap gives a heap.
pub proof fn lemma_inserted_all_is_heap<T: PartialOrd>(s: Seq<T>, values: Seq<T>)
    requires
        strict_weak_order::<T>(),
        is_heap(s),
    ensures
        is_heap(inserted_all(s, values)),
    decreases values.len(),
{
    if values.len() > 0 {
        lemma_inserted_all_is_heap(s, values.drop_last());
        lemma_inserted_is_heap(inserted_all(s, values.drop_last()), values.last());
    }
}

/// Taking the root out of a non-empty heap removes exactly the root.
pub proof fn lemma_extracted_entries<T: PartialOrd>(s: Seq<T>)
    requires
        s.len() > 0,
    ensures
        extracted(s).len() == s.len() - 1,
        extracted(s).to_multiset() == s.to_multiset().remove(s[0]),
{
    lemma_root_replaced_entries(s);
    lemma_sifted_down_keeps_entries(root_replaced(s), 0);
}

/// Taking the root out of a non-empty heap leaves a heap.
pub proof fn lemma_extracted_is_heap<T: PartialOrd>(s: Seq<T>)
    requires
        strict_weak_order::<T>(),
        is_heap(s),
        s.len() > 0,
    ensures
        is_heap(extracted(s)),
{
    let rest = root_replaced(s);
    assert forall|j: int| 0 < j < rest.len() && parent(j) != 0 implies !below(
        #[trigger] rest[j],
        rest[parent(j)],
    ) by {
        assert(!below(s[j], s[parent(j)]));
    }
    lemma_sifted_down_restores_heap(rest, 0);
}

/// In a heap no entry is strictly less than the root.
pub proof fn lemma_root_is_least<T: PartialOrd>(s: Seq<T>, i: int)
    requires
        strict_weak_order::<T>(),
        is_heap(s),
        0 <= i < s.len(),
    ensures
        !below(s[i], s[0]),
    decreases i,
{
    if i > 0 {
        lemma_root_is_least(s, parent(i));
        assert(!below(s[i], s[parent(i)]));
        lemma_rank_chain(s[0], s[parent(i)], s[i]);
    }
}

/// The roots that the first `count` extractions take from `s`, in the order
/// in which they are taken.
pub open spec fn drained_first<T: PartialOrd>(s: Seq<T>, count: nat) -> Seq<T>
    decreases count,
{
    if count == 0 || s.len() == 0 {
        Seq::empty()
    } else {
        seq![s[0]] + drained_first(extracted(s), (count - 1) as nat)
    }
}

/// The roots taken from `s` by extracting until nothing is left.
pub open spec fn drained<T: PartialOrd>(s: Seq<T>) -> Seq<T> {
    drained_first(s, s.len())
}

/// No entry is strictly less than an earlier one.
pub open spec fn ascending<T: PartialOrd>(s: Seq<T>) -> bool {
    forall|i: int, j: int| 0 <= i < j < s.len() ==> !below(#[trigger] s[j], #[trigger] s[i])
}

/// Extracting from a heap until it is empty yields every entry of the heap,
/// each as often as the heap held it, in ascending order.
pub proof fn lemma_drained_is_sorted<T: PartialOrd>(s: Seq<T>)
    requires
        strict_weak_order::<T>(),
        is_heap(s),
    ensures
        drained(s).len() == s.len(),
        drained(s).to_multiset() == s.to_multiset(),
        ascending(drained(s)),
    decreases s.len(),
{
    broadcast use vstd::multiset::group_multiset_axioms;

    if s.len() == 0 {
        assert(drained(s).to_multiset() =~= s.to_multiset()) by {
            vstd::seq_lib::to_multiset_len(s);
            vstd::seq_lib::to_multiset_len(drained(s));
        }
    } else {
        let rest = extracted(s);
        lemma_extracted_entries(s);
        lemma_extracted_is_heap(s);
        lemma_drained_is_sorted(rest);
        let tail = drained(rest);
        let all = seq![s[0]] + tail;
        assert(drained(s) == all);
        vstd::seq_lib::lemma_multiset_commutative(seq![s[0]], tail);
        assert(seq![s[0]] =~= Seq::<T>::empty().push(s[0]));
        vstd::seq_lib::to_multiset_build(Seq::<T>::empty(), s[0]);
        vstd::seq_lib::to_multiset_len(Seq::<T>::empty());
        vstd::seq_lib::to_multiset_contains(s, s[0]);
        assert(s.contains(s[0]));
        assert(all.to_multiset() =~= s.to_multiset());
        assert forall|i: int, j: int| 0 <= i < j < all.len() implies !below(
            #[trigger] all[j],
            #[trigger] all[i],
        ) by {
            if i == 0 {
                let x = all[j];
                assert(tail[j - 1] == x);
                assert(tail.contains(x));
                vstd::seq_lib::to_multiset_contains(tail, x);
                vstd::seq_lib::to_multiset_contains(s, x);
                assert(s.contains(x));
                let k = choose|k: int| 0 <= k < s.len() && s[k] == x;
                lemma_root_is_least(s, k);
            } else {
                assert(!below(tail[j - 1], tail[i - 1]));
            }
        }
    }
}

/// Inserting any values into an empty heap and then extracting until it is
/// empty yields those values, each as often as it was inserted, in ascending
/// order.
pub proof fn lemma_insert_then_drain_sorts<T: PartialOrd>(values: Seq<T>)
    requires
        strict_weak_order::<T>(),
    ensures
        drained(inserted_all(Seq::empty(), values)).len() == values.len(),
        drained(inserted_all(Seq::empty(), values)).to_multiset() == values.to_multiset(),
        ascending(drained(inserted_all(Seq::empty(), values))),
{
    broadcast use vstd::multiset::group_multiset_axioms;

    let none = Seq::<T>::empty();
    lemma_inserted_all_entries(none, values);
    lemma_inserted_all_is_heap(none, values);
    lemma_drained_is_sorted(inserted_all(none, values));
    vstd::seq_lib::to_multiset_len(none);
    assert(none.to_multiset().add(values.to_multiset()) =~= values.to_multiset());
}

/// One call made on a queue: a push of the given values, or a pop.
pub enum Step<T> {
    Push(Seq<T>),
    Pop,
}

/// The heap `s` after one step. A pop from an empty heap changes nothing.
pub open spec fn stepped<T: PartialOrd>(s: Seq<T>, step: Step<T>) -> Seq<T> {
    match step {
        Step::Push(values) => inserted_all(s, values),
        Step::Pop => if s.len() == 0 {
            s
        } else {
            extracted(s)
        },
    }
}

/// The heap that the given steps, made first to last, build from nothing.
pub open spec fn replayed<T: PartialOrd>(steps: Seq<Step<T>>) -> Seq<T>
    decreases steps.len(),
{
    if steps.len() == 0 {
        Seq::empty()
    } else {
        stepped(replayed(steps.drop_last()), steps.last())
    }
}

/// Whatever pushes and pops are made on a queue that started empty, and in
/// whatever order, the entries are in heap order afterwards.
pub proof fn lemma_every_history_is_heap<T: PartialOrd>(steps: Seq<Step<T>>)
    requires
        strict_weak_order::<T>(),
    ensures
        is_heap(replayed(steps)),
    decreases steps.len(),
{
    if steps.len() > 0 {
        let before = replayed(steps.drop_last());
        lemma_every_history_is_heap(steps.drop_last());
        match steps.last() {
            Step::Push(values) => {
                lemma_inserted_all_is_heap(before, values);
            },
            Step::Pop => {
                if before.len() > 0 {
                    lemma_extracted_is_heap(before);
                }
            },
        }
    }
}

/// Where the order of `T` is the order of the keys `key` read backwards,
/// inserting any values and extracting until nothing is left yields them with
/// descending keys: no value comes after one with a strictly lesser key.
pub proof fn lemma_reversed_order_drains_descending<T: PartialOrd, K: PartialOrd>(
    values: Seq<T>,
    key: spec_fn(T) -> K,
)
    requires
        strict_weak_order::<T>(),
        forall|a: T, b: T| #[trigger] below(a, b) == below(key(b), key(a)),
    ensures
        forall|i: int, j: int|
            0 <= i < j < values.len() ==> !below(
                key(#[trigger] drained(inserted_all(Seq::empty(), values))[i]),
                key(#[trigger] drained(inserted_all(Seq::empty(), values))[j]),
            ),
{
    lemma_insert_then_drain_sorts(values);
    let out = drained(inserted_all(Seq::empty(), values));
    assert forall|i: int, j: int| 0 <= i < j < values.len() implies !below(
        key(#[trigger] out[i]),
        key(#[trigger] out[j]),
    ) by {
        assert(!below(out[j], out[i]));
    }
}

} // verus!
