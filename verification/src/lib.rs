//! Array-backed binary min-heaps: one ordered by the stored values themselves,
//! one ordered by a weight derived from each stored value.

pub mod laws;
pub mod one_or_many;
pub mod order;
pub mod priority_queue;
pub mod sift;
pub mod weighed_entry;
pub mod weighed_priority_queue;

pub use crate::one_or_many::OneOrMany;
pub use crate::priority_queue::PriorityQueue;
pub use crate::weighed_entry::WeighedEntry;
pub use crate::weighed_priority_queue::WeighedPriorityQueue;
