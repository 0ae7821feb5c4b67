//! What an objective function may return.
use crate::pareto::copy_of;
use vstd::prelude::*;

verus! {

/// The return value of an objective function: anything that stands for a
/// vector of objectives, each an `i64` rank, smaller being better. A single
/// `i64` is a fitness with one objective; a `Vec<i64>` is one with as many
/// objectives as it has elements.
pub trait Fitness {
    /// The objectives that this value stands for. Left open unless
    /// overridden.
    open spec fn spec_objectives(&self) -> Seq<i64> {
        arbitrary()
    }

    /// The objectives that this value stands for.
    fn objectives(&self) -> (ys: Vec<i64>)
        ensures
            ys@ == self.spec_objectives(),
    ;
}

impl Fitness for i64 {
    open spec fn spec_objectives(&self) -> Seq<i64> {
        seq![*self]
    }

    fn objectives(&self) -> (ys: Vec<i64>) {
        let mut ys: Vec<i64> = Vec::new();
        ys.push(*self);
        proof {
            assert(ys@ =~= seq![*self]);
        }
        ys
    }
}

impl Fitness for Vec<i64> {
    open spec fn spec_objectives(&self) -> Seq<i64> {
        self@
    }

    fn objectives(&self) -> (ys: Vec<i64>) {
        copy_of(self)
    }
}

} // verus!
