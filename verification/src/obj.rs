//! The objective interface: what a problem must provide to be optimised.
use crate::fitness::Fitness;
use vstd::prelude::*;

verus! {

/// Every dimension's lower bound is at most its upper bound.
pub open spec fn valid_bound(bound: Seq<(i64, i64)>) -> bool {
    forall|s: int| 0 <= s < bound.len() ==> (#[trigger] bound[s]).0 <= bound[s].1
}

/// `xs` has one coordinate per dimension, each inside its bounds.
pub open spec fn within(xs: Seq<i64>, bound: Seq<(i64, i64)>) -> bool {
    &&& xs.len() == bound.len()
    &&& forall|s: int| 0 <= s < xs.len() ==> bound[s].0 <= #[trigger] xs[s] <= bound[s].1
}

/// The projection of `v` into `[lo, hi]`: a value outside is moved to the
/// nearest bound.
pub open spec fn clip(v: i64, lo: i64, hi: i64) -> i64 {
    if v < lo {
        lo
    } else if v > hi {
        hi
    } else {
        v
    }
}

/// `xs` with every coordinate projected into its dimension's bounds.
pub open spec fn clip_all(xs: Seq<i64>, bound: Seq<(i64, i64)>) -> Seq<i64> {
    Seq::new(xs.len(), |s: int| clip(xs[s], bound[s].0, bound[s].1))
}

/// Projecting into valid bounds yields a vector inside them, and leaves a
/// vector that is already inside unchanged.
pub proof fn lemma_clip_all_within(xs: Seq<i64>, bound: Seq<(i64, i64)>)
    requires
        xs.len() == bound.len(),
        valid_bound(bound),
    ensures
        within(clip_all(xs, bound), bound),
        within(xs, bound) ==> clip_all(xs, bound) == xs,
{
    if within(xs, bound) {
        assert(clip_all(xs, bound) =~= xs);
    }
}

/// A problem to be minimised. The engine shares one instance, read-only, for
/// a whole run, and only ever evaluates vectors that lie inside the bounds.
pub trait ObjFunc {
    /// What the objective function returns.
    type Ys: Fitness;

    /// What a solution means in the problem's own terms.
    type Product;

    /// The `(lower, upper)` pair of every dimension. Like the other
    /// functions of the model it is left open here: an implementation that
    /// is to be reasoned about defines it.
    open spec fn spec_bound(&self) -> Seq<(i64, i64)> {
        arbitrary()
    }

    /// The number of objectives.
    open spec fn spec_arity(&self) -> usize {
        arbitrary()
    }

    /// The fitness of a parameter vector, as its vector of objectives.
    open spec fn spec_fitness(&self, xs: Seq<i64>) -> Seq<i64> {
        arbitrary()
    }

    /// What a parameter vector means in the problem's own terms.
    open spec fn spec_result(&self, xs: Seq<i64>) -> Self::Product {
        arbitrary()
    }

    /// The `(lower, upper)` pair of every dimension.
    fn bound(&self) -> (bound: Vec<(i64, i64)>)
        ensures
            bound@ == self.spec_bound(),
    ;

    /// The number of objectives; one for a single-objective problem.
    fn arity(&self) -> (arity: usize)
        ensures
            arity == self.spec_arity(),
    ;

    /// Evaluates a parameter vector. Smaller is better in every objective.
    fn fitness(&self, xs: &Vec<i64>) -> (ys: Self::Ys)
        requires
            within(xs@, self.spec_bound()),
        ensures
            ys.spec_objectives() == self.spec_fitness(xs@),
    ;

    /// Interprets a parameter vector in the problem's own terms.
    fn result(&self, xs: &Vec<i64>) -> (product: Self::Product)
        requires
            within(xs@, self.spec_bound()),
        ensures
            product == self.spec_result(xs@),
    ;

    /// The number of dimensions.
    fn dim(&self) -> (dim: usize)
        ensures
            dim == self.spec_bound().len(),
    {
        self.bound().len()
    }
}

/// Projects `v` into `[lo, hi]`.
pub fn clip_to(v: i64, lo: i64, hi: i64) -> (out: i64)
    ensures
        out == clip(v, lo, hi),
{
    if v < lo {
        lo
    } else if v > hi {
        hi
    } else {
        v
    }
}

/// Projects every coordinate of `xs` into its dimension's bounds.
pub fn clip_row(bound: &Vec<(i64, i64)>, xs: &Vec<i64>) -> (out: Vec<i64>)
    requires
        xs@.len() == bound@.len(),
    ensures
        out@ == clip_all(xs@, bound@),
{
    let mut out: Vec<i64> = Vec::new();
    let mut s: usize = 0;
    while s < xs.len()
        invariant
            s <= xs.len(),
            xs@.len() == bound@.len(),
            out@.len() == s,
            forall|t: int| 0 <= t < s ==> out@[t] == clip(xs@[t], bound@[t].0, bound@[t].1),
        decreases xs.len() - s,
    {
        out.push(clip_to(xs[s], bound[s].0, bound[s].1));
        s += 1;
    }
    proof {
        assert(out@ =~= clip_all(xs@, bound@));
    }
    out
}

/// Evaluates every candidate, in order. The result has one fitness per
/// candidate, at the candidate's index.
pub fn evaluate_all<F: ObjFunc>(func: &F, candidates: &Vec<Vec<i64>>) -> (out: Vec<Vec<i64>>)
    requires
        forall|i: int| 0 <= i < candidates@.len() ==> within(
            (#[trigger] candidates@[i])@,
            func.spec_bound(),
        ),
    ensures
        out@.len() == candidates@.len(),
        forall|i: int| 0 <= i < out@.len() ==> (#[trigger] out@[i])@ == func.spec_fitness(
            candidates@[i]@,
        ),
{
    let mut out: Vec<Vec<i64>> = Vec::new();
    let mut i: usize = 0;
    while i < candidates.len()
        invariant
            i <= candidates.len(),
            out@.len() == i,
            forall|j: int| 0 <= j < candidates@.len() ==> within(
                (#[trigger] candidates@[j])@,
                func.spec_bound(),
            ),
            forall|j: int| 0 <= j < i ==> (#[trigger] out@[j])@ == func.spec_fitness(
                candidates@[j]@,
            ),
        decreases candidates.len() - i,
    {
        out.push(func.fitness(&candidates[i]).objectives());
        i += 1;
    }
    out
}

} // verus!
