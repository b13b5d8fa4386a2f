use priority_queues::order::is_above;
use priority_queues::order::is_below;
use priority_queues::sift::direct_children_of_index;
use priority_queues::sift::parent_of_index;
use priority_queues::sift::sift_down;
use priority_queues::sift::sift_up;
use priority_queues::OneOrMany;
use priority_queues::PriorityQueue;
use priority_queues::WeighedEntry;
use priority_queues::WeighedPriorityQueue;

fn drain(q: &mut PriorityQueue<i32>) -> Vec<i32> {
	let mut out: Vec<i32> = Vec::new();
	while let Some(v) = q.pop() {
		out.push(v);
	}
	out
}

fn drain_weighed(q: &mut WeighedPriorityQueue<i32, i32>) -> Vec<i32> {
	let mut out: Vec<i32> = Vec::new();
	while let Some(v) = q.pop() {
		out.push(v);
	}
	out
}

#[test]
fn comparisons_are_strict() {
	assert!(is_below(&1, &2));
	assert!(!is_below(&2, &2));
	assert!(!is_below(&3, &2));
	assert!(is_above(&3, &2));
	assert!(!is_above(&2, &2));
	assert!(!is_above(&1, &2));
}

#[test]
fn parent_index_is_half_of_predecessor() {
	assert_eq!(parent_of_index(1), 0);
	assert_eq!(parent_of_index(2), 0);
	assert_eq!(parent_of_index(3), 1);
	assert_eq!(parent_of_index(4), 1);
	assert_eq!(parent_of_index(5), 2);
	assert_eq!(parent_of_index(6), 2);
	assert_eq!(parent_of_index(9_999), 4_999);
	assert_eq!(WeighedPriorityQueue::<i32, i32>::parent_of_index(7), 3);
	assert_eq!(WeighedPriorityQueue::<i32, i32>::parent_of_index(8), 3);
}

#[test]
fn children_indices_follow_the_parent() {
	assert_eq!(direct_children_of_index(0), [1, 2]);
	assert_eq!(direct_children_of_index(1), [3, 4]);
	assert_eq!(direct_children_of_index(2), [5, 6]);
	assert_eq!(direct_children_of_index(4_999), [9_999, 10_000]);
	assert_eq!(WeighedPriorityQueue::<i32, i32>::direct_children_of_index(3), [7, 8]);
}

#[test]
fn children_and_parent_are_inverse() {
	for index in 0..1_000usize {
		let [left, right] = direct_children_of_index(index);
		assert_eq!(parent_of_index(left), index);
		assert_eq!(parent_of_index(right), index);
	}
}

#[test]
fn sift_up_moves_past_every_greater_ancestor() {
	let mut data: Vec<i32> = vec![1, 3, 2, 7, 0];
	sift_up(&mut data, 4);
	assert_eq!(data, vec![0, 1, 2, 7, 3]);
}

#[test]
fn sift_up_stops_at_an_equal_parent() {
	let mut data: Vec<i32> = vec![1, 3, 2, 7, 3];
	sift_up(&mut data, 4);
	assert_eq!(data, vec![1, 3, 2, 7, 3]);
}

#[test]
fn sift_up_at_the_root_changes_nothing() {
	let mut data: Vec<i32> = vec![4, 1];
	sift_up(&mut data, 0);
	assert_eq!(data, vec![4, 1]);
}

#[test]
fn sift_down_takes_the_smaller_child() {
	let mut data: Vec<i32> = vec![9, 3, 2, 5, 6, 7, 8];
	sift_down(&mut data, 0);
	assert_eq!(data, vec![2, 3, 7, 5, 6, 9, 8]);

	let mut data: Vec<i32> = vec![9, 2, 3, 5, 6, 1, 8];
	sift_down(&mut data, 0);
	assert_eq!(data, vec![2, 5, 3, 9, 6, 1, 8]);
}

#[test]
fn sift_down_takes_the_right_child_of_two_equal_ones() {
	let mut data: Vec<i32> = vec![9, 2, 2, 5, 6, 7, 8];
	sift_down(&mut data, 0);
	assert_eq!(data, vec![2, 2, 7, 5, 6, 9, 8]);
}

#[test]
fn sift_down_with_only_a_left_child() {
	let mut data: Vec<i32> = vec![5, 4];
	sift_down(&mut data, 0);
	assert_eq!(data, vec![4, 5]);

	let mut data: Vec<i32> = vec![4, 4];
	sift_down(&mut data, 0);
	assert_eq!(data, vec![4, 4]);
}

#[test]
fn sift_down_from_an_inner_position() {
	let mut data: Vec<i32> = vec![1, 9, 3, 5, 6];
	sift_down(&mut data, 1);
	assert_eq!(data, vec![1, 5, 3, 9, 6]);
}

#[test]
fn sift_down_on_nothing_or_a_leaf_changes_nothing() {
	let mut data: Vec<i32> = Vec::new();
	sift_down(&mut data, 0);
	assert!(data.is_empty());

	let mut data: Vec<i32> = vec![1, 2, 3];
	sift_down(&mut data, 2);
	assert_eq!(data, vec![1, 2, 3]);
	sift_down(&mut data, 7);
	assert_eq!(data, vec![1, 2, 3]);
}

#[test]
fn one_value_is_a_list_of_one() {
	assert_eq!(OneOrMany::<i32>::as_list(7), vec![7]);
}

#[test]
fn many_values_keep_their_order() {
	assert_eq!(OneOrMany::<i32>::as_list(vec![3, 1, 2]), vec![3, 1, 2]);
	assert_eq!(OneOrMany::<i32>::as_list(Vec::<i32>::new()), Vec::<i32>::new());
}

#[test]
fn push_accepts_a_collection() {
	let mut q: PriorityQueue<i32> = PriorityQueue::new();
	q.push(vec![5, 1, 4]);
	q.push(Vec::<i32>::new());
	q.push(3);
	assert_eq!(q.len(), 4);
	assert_eq!(drain(&mut q), vec![1, 3, 4, 5]);
}

#[test]
fn add_is_push() {
	let mut q: PriorityQueue<i32> = PriorityQueue::new();
	q.add(9);
	q.add(vec![2, 7]);
	assert_eq!(q.len(), 3);
	assert_eq!(drain(&mut q), vec![2, 7, 9]);
}

#[test]
fn a_new_least_value_rises_through_several_levels() {
	let mut q: PriorityQueue<i32> = PriorityQueue::new();
	q.push(vec![5, 6, 7, 8, 1]);
	assert_eq!(q.pop(), Some(1));
	assert_eq!(drain(&mut q), vec![5, 6, 7, 8]);

	let mut q: PriorityQueue<i32> = PriorityQueue::new();
	q.push(vec![9, 8, 7, 6, 5, 4, 3, 2, 1]);
	assert_eq!(drain(&mut q), vec![1, 2, 3, 4, 5, 6, 7, 8, 9]);
}

#[test]
fn extraction_is_sorted_and_keeps_every_value() {
	let values: Vec<i32> = (0..2_000).map(|index| (index * 83 - 6) % 1569).collect();
	let mut q: PriorityQueue<i32> = PriorityQueue::new();
	q.push(values.clone());
	assert_eq!(q.len(), values.len());
	let popped: Vec<i32> = drain(&mut q);
	let mut sorted: Vec<i32> = values;
	sorted.sort();
	assert_eq!(popped, sorted);
}

#[test]
fn len_follows_every_push_and_pop() {
	let mut q: PriorityQueue<i32> = PriorityQueue::new();
	assert!(q.is_empty());
	for count in 1..=20usize {
		q.push(100 - count as i32);
		assert_eq!(q.len(), count);
		assert!(!q.is_empty());
	}
	for count in (0..20usize).rev() {
		assert!(q.pop().is_some());
		assert_eq!(q.len(), count);
		assert_eq!(q.is_empty(), count == 0);
	}
}

#[test]
fn pop_on_empty_leaves_the_queue_usable() {
	let mut q: PriorityQueue<i32> = PriorityQueue::new();
	assert_eq!(q.pop(), None);
	assert_eq!(q.len(), 0);
	q.push(2);
	assert_eq!(q.pop(), Some(2));
	assert_eq!(q.pop(), None);
	assert_eq!(q.pop(), None);
	assert_eq!(q.len(), 0);
	assert!(q.is_empty());
	q.push(1);
	assert_eq!(q.len(), 1);
	assert_eq!(q.pop(), Some(1));
}

#[test]
fn entries_compare_by_weight_alone() {
	let light: WeighedEntry<i32, i32> = WeighedEntry { weight: 1, value: 50 };
	let heavy: WeighedEntry<i32, i32> = WeighedEntry { weight: 2, value: 10 };
	let twin: WeighedEntry<i32, i32> = WeighedEntry { weight: 1, value: 99 };
	assert!(light < heavy);
	assert!(heavy > light);
	assert!(!(heavy < light));
	assert!(!(light < twin));
	assert!(!(light > twin));
	assert!(light == twin);
	assert!(light != heavy);
	assert_eq!(light.partial_cmp(&heavy), Some(std::cmp::Ordering::Less));
	assert_eq!(heavy.partial_cmp(&light), Some(std::cmp::Ordering::Greater));
	assert_eq!(light.partial_cmp(&twin), Some(std::cmp::Ordering::Equal));
}

#[test]
fn a_queue_of_entries_pops_by_weight() {
	let mut q: PriorityQueue<WeighedEntry<i32, i32>> = PriorityQueue::new();
	q.push(WeighedEntry { weight: 3, value: 30 });
	q.push(WeighedEntry { weight: 1, value: 10 });
	q.push(WeighedEntry { weight: 2, value: 20 });
	assert_eq!(q.pop().map(|entry| (entry.weight, entry.value)), Some((1, 10)));
	assert_eq!(q.pop().map(|entry| (entry.weight, entry.value)), Some((2, 20)));
	assert_eq!(q.pop().map(|entry| (entry.weight, entry.value)), Some((3, 30)));
	assert!(q.pop().is_none());
}

#[test]
fn weighed_push_accepts_a_collection() {
	let mut q: WeighedPriorityQueue<i32, i32> = WeighedPriorityQueue::<i32, i32>::new(|value| -*value);
	q.push(vec![1, 5, 3]);
	q.push(4);
	assert_eq!(q.len(), 4);
	assert!(!q.is_empty());
	assert_eq!(drain_weighed(&mut q), vec![5, 4, 3, 1]);
	assert!(q.is_empty());
}

#[test]
fn equal_weights_come_out_in_the_order_the_tree_gives() {
	let mut q: WeighedPriorityQueue<i32, i32> = WeighedPriorityQueue::<i32, i32>::new(|value| *value % 10);
	q.push(vec![10, 20, 30, 11, 21, 31, 12, 22, 32]);
	assert_eq!(drain_weighed(&mut q), vec![10, 30, 20, 31, 21, 11, 32, 12, 22]);

	let mut q: WeighedPriorityQueue<i32, i32> = WeighedPriorityQueue::<i32, i32>::new(|value| *value % 10);
	q.push(vec![3, 13, 23, 33, 43]);
	assert_eq!(drain_weighed(&mut q), vec![3, 43, 33, 23, 13]);
}

#[test]
fn the_weight_is_computed_once_for_each_value() {
	let calls = std::rc::Rc::new(std::cell::Cell::new(0usize));
	let counter = calls.clone();
	let mut q = WeighedPriorityQueue::new(move |value: &i32| {
		counter.set(counter.get() + 1);
		*value
	});
	q.push(vec![4, 2, 9, 1]);
	q.push(3);
	assert_eq!(calls.get(), 5);
	assert_eq!(q.pop(), Some(1));
	assert_eq!(q.pop(), Some(2));
	assert_eq!(q.pop(), Some(3));
	assert_eq!(q.pop(), Some(4));
	assert_eq!(q.pop(), Some(9));
	assert_eq!(q.pop(), None);
	assert_eq!(calls.get(), 5);
}

#[test]
fn weighed_extraction_is_sorted_by_weight() {
	let values: Vec<i32> = (0..2_000).map(|index| (index * 83 - 6) % 1569).collect();
	let mut q: WeighedPriorityQueue<i32, i32> = WeighedPriorityQueue::<i32, i32>::new(|value| *value % 100);
	q.push(values.clone());
	let popped: Vec<i32> = drain_weighed(&mut q);
	assert_eq!(popped.len(), values.len());
	for pair in popped.windows(2) {
		assert!(pair[0] % 100 <= pair[1] % 100);
	}
	let mut left: Vec<i32> = popped;
	let mut right: Vec<i32> = values;
	left.sort();
	right.sort();
	assert_eq!(left, right);
}
