//! Arguments that stand for one value or for several.

use vstd::prelude::*;

verus! {

/// Something that can be handed over as an ordered list of values: a single
/// value, or a vector of them.
pub trait OneOrMany<T> {
    /// The values, in the order in which they are handed over.
    spec fn as_seq(self) -> Seq<T>;

    /// Turns the argument into the list of its values.
    fn as_list(self) -> (list: Vec<T>)
        ensures
            list@ == self.as_seq(),
    ;
}

impl<T> OneOrMany<T> for T {
    open spec fn as_seq(self) -> Seq<T> {
        seq![self]
    }

    fn as_list(self) -> (list: Vec<T>) {
        vec![self]
    }
}

impl<T> OneOrMany<T> for Vec<T> {
    open spec fn as_seq(self) -> Seq<T> {
        self@
    }

    fn as_list(self) -> (list: Vec<T>) {
        self
    }
}

} // verus!
