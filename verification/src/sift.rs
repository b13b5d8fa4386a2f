//! A sequence read as a complete binary tree, and the two repair steps that
//! restore the heap order after an entry was appended or the root replaced.

use vstd::prelude::*;
use crate::order::above;
use crate::order::below;
use crate::order::is_above;
use crate::order::is_below;
use crate::order::obeys_order;

verus! {

/// Position of the parent of the entry at position `i`, for `i > 0`.
pub open spec fn parent(i: int) -> int {
    (i - 1) / 2
}

/// Position of the left child of the entry at position `i`.
pub open spec fn left_child(i: int) -> int {
    2 * i + 1
}

/// Position of the right child of the entry at position `i`.
pub open spec fn right_child(i: int) -> int {
    2 * i + 2
}

/// `s` with the entries at positions `a` and `b` exchanged.
pub open spec fn swapped<T>(s: Seq<T>, a: int, b: int) -> Seq<T> {
    s.update(a, s[b]).update(b, s[a])
}

/// The heap order: no entry is strictly less than its parent.
pub open spec fn is_heap<T: PartialOrd>(s: Seq<T>) -> bool {
    forall|i: int| 0 < i < s.len() ==> !below(#[trigger] s[i], s[parent(i)])
}

/// The entry at position `i` moved towards the root: it changes places with
/// its parent for as long as the parent is strictly greater.
pub open spec fn sifted_up<T: PartialOrd>(s: Seq<T>, i: int) -> Seq<T>
    decreases i,
{
    if 0 < i < s.len() && above(s[parent(i)], s[i]) {
        sifted_up(swapped(s, i, parent(i)), parent(i))
    } else {
        s
    }
}

/// The child that the entry at position `i` changes places with on its way
/// to the leaves, if any. A child qualifies when it is strictly less than the
/// entry; of two qualifying children the left one is taken only when it is
/// strictly less than the right one, and the right one otherwise.
pub open spec fn descent<T: PartialOrd>(s: Seq<T>, i: int) -> Option<int> {
    let left = left_child(i);
    let right = right_child(i);
    let right_fits = right < s.len() && below(s[right], s[i]);
    let left_fits = left < s.len() && below(s[left], s[i]) && (!right_fits || below(
        s[left],
        s[right],
    ));
    if i < 0 {
        None
    } else if left_fits {
        Some(left)
    } else if right_fits {
        Some(right)
    } else {
        None
    }
}

/// The entry at position `i` moved towards the leaves: it changes places with
/// the child that `descent` names until no child qualifies.
pub open spec fn sifted_down<T: PartialOrd>(s: Seq<T>, i: int) -> Seq<T>
    decreases s.len() - i,
{
    match descent(s, i) {
        Some(child) => sifted_down(swapped(s, i, child), child),
        None => s,
    }
}

/// The heap `s` after `value` was appended and moved up to its place.
pub open spec fn inserted<T: PartialOrd>(s: Seq<T>, value: T) -> Seq<T> {
    sifted_up(s.push(value), s.len() as int)
}

/// The heap `s` after each of `values` was inserted, first to last.
pub open spec fn inserted_all<T: PartialOrd>(s: Seq<T>, values: Seq<T>) -> Seq<T>
    decreases values.len(),
{
    if values.len() == 0 {
        s
    } else {
        inserted(inserted_all(s, values.drop_last()), values.last())
    }
}

/// The non-empty sequence `s` with its last entry put in the place of its
/// first, one entry shorter.
pub open spec fn root_replaced<T>(s: Seq<T>) -> Seq<T> {
    s.update(0, s.last()).drop_last()
}

/// The non-empty heap `s` after its root was taken out: the last entry takes
/// the root's place and is moved down to its own.
pub open spec fn extracted<T: PartialOrd>(s: Seq<T>) -> Seq<T> {
    sifted_down(root_replaced(s), 0)
}

/// Position of the parent of the entry at `node_index`.
pub fn parent_of_index(node_index: usize) -> (parent_index: usize)
    requires
        node_index > 0,
    ensures
        parent_index == parent(node_index as int),
        parent_index < node_index,
{
    (node_index - 1) / 2
}

/// Positions of the left and the right child of the entry at `node_index`.
pub fn direct_children_of_index(node_index: usize) -> (children: [usize; 2])
    requires
        right_child(node_index as int) <= usize::MAX,
    ensures
        children[0] == left_child(node_index as int),
        children[1] == right_child(node_index as int),
{
    let left: usize = 1 + node_index * 2;
    [left, left + 1]
}

/// Exchanges the entries at `a` and `b` by calling the slice method `swap` of
/// the standard library. Taken on trust: afterwards each of the two positions
/// holds what the other held, and every other position is untouched. The
/// standard method panics when an index is out of bounds, which the
/// precondition rules out.
#[verifier::external_body]
pub(crate) fn swap_entries<T>(data: &mut Vec<T>, a: usize, b: usize)
    requires
        a < old(data)@.len(),
        b < old(data)@.len(),
    ensures
        final(data)@ == swapped(old(data)@, a as int, b as int),
{
    data.swap(a, b)
}

/// Exchanging two entries keeps the length and the collection of entries.
pub proof fn lemma_swapped_keeps_entries<T>(s: Seq<T>, a: int, b: int)
    requires
        0 <= a < s.len(),
        0 <= b < s.len(),
    ensures
        swapped(s, a, b).len() == s.len(),
        swapped(s, a, b).to_multiset() == s.to_multiset(),
{
    broadcast use vstd::multiset::group_multiset_axioms;

    let once = s.update(a, s[b]);
    vstd::seq_lib::to_multiset_update(s, a, s[b]);
    vstd::seq_lib::to_multiset_update(once, b, s[a]);
    vstd::seq_lib::to_multiset_contains(s, s[a]);
    vstd::seq_lib::to_multiset_contains(s, s[b]);
    assert(s.contains(s[a]));
    assert(s.contains(s[b]));
    assert(swapped(s, a, b).to_multiset() =~= s.to_multiset());
}

/// Putting the last entry in the root's place removes exactly the root.
pub proof fn lemma_root_replaced_entries<T>(s: Seq<T>)
    requires
        s.len() > 0,
    ensures
        root_replaced(s).len() == s.len() - 1,
        root_replaced(s).to_multiset() == s.to_multiset().remove(s[0]),
{
    broadcast use vstd::multiset::group_multiset_axioms;

    let rest = root_replaced(s);
    lemma_swapped_keeps_entries(s, 0, s.len() - 1);
    assert(rest.push(s[0]) =~= swapped(s, 0, s.len() - 1));
    vstd::seq_lib::to_multiset_build(rest, s[0]);
    assert(rest.to_multiset() =~= s.to_multiset().remove(s[0]));
}

/// Moves the entry at `index` up to its place.
pub fn sift_up<T: PartialOrd>(data: &mut Vec<T>, index: usize)
    requires
        index < old(data)@.len(),
    ensures
        final(data)@.len() == old(data)@.len(),
        final(data)@.to_multiset() == old(data)@.to_multiset(),
        obeys_order::<T>() ==> final(data)@ == sifted_up(old(data)@, index as int),
{
    let mut node: usize = index;
    while node != 0
        invariant
            node < data@.len(),
            data@.len() == old(data)@.len(),
            data@.to_multiset() == old(data)@.to_multiset(),
            obeys_order::<T>() ==> sifted_up(data@, node as int) == sifted_up(
                old(data)@,
                index as int,
            ),
        ensures
            data@.len() == old(data)@.len(),
            data@.to_multiset() == old(data)@.to_multiset(),
            obeys_order::<T>() ==> data@ == sifted_up(old(data)@, index as int),
        decreases node,
    {
        let parent_index: usize = parent_of_index(node);
        if !is_above(&data[parent_index], &data[node]) {
            break ;
        }
        proof {
            lemma_swapped_keeps_entries(data@, node as int, parent_index as int);
        }
        swap_entries(data, node, parent_index);
        node = parent_index;
    }
}

/// Moves the entry at `index` down to its place.
pub fn sift_down<T: PartialOrd>(data: &mut Vec<T>, index: usize)
    ensures
        final(data)@.len() == old(data)@.len(),
        final(data)@.to_multiset() == old(data)@.to_multiset(),
        obeys_order::<T>() ==> final(data)@ == sifted_down(old(data)@, index as int),
{
    let len: usize = data.len();
    let mut node: usize = index;
    while node < len / 2
        invariant
            len == data@.len(),
            data@.len() == old(data)@.len(),
            data@.to_multiset() == old(data)@.to_multiset(),
            obeys_order::<T>() ==> sifted_down(data@, node as int) == sifted_down(
                old(data)@,
                index as int,
            ),
        ensures
            data@.len() == old(data)@.len(),
            data@.to_multiset() == old(data)@.to_multiset(),
            obeys_order::<T>() ==> data@ == sifted_down(old(data)@, index as int),
        decreases len - node,
    {
        let children: [usize; 2] = direct_children_of_index(node);
        let left: usize = children[0];
        let right: usize = children[1];
        let switch_right: bool = right < len && is_below(&data[right], &data[node]);
        let switch_left: bool = left < len && is_below(&data[left], &data[node]) && (!switch_right
            || is_below(&data[left], &data[right]));
        if switch_left {
            proof {
                lemma_swapped_keeps_entries(data@, node as int, left as int);
            }
            swap_entries(data, node, left);
            node = left;
        } else if switch_right {
            proof {
                lemma_swapped_keeps_entries(data@, node as int, right as int);
            }
            swap_entries(data, node, right);
            node = right;
        } else {
            break ;
        }
    }
}

} // verus!
