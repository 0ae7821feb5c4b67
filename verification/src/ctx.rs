//! The population context: the pool, its fitness values, the tracked best
//! and the generation counter.
use crate::obj::clip;
use crate::obj::clip_all;
use crate::obj::clip_row;
use crate::obj::clip_to;
use crate::obj::evaluate_all;
use crate::obj::lemma_clip_all_within;
use crate::obj::valid_bound;
use crate::obj::within;
use crate::obj::ObjFunc;
use crate::pareto::considered;
use crate::pareto::copy_of;
use crate::pareto::is_front;
use crate::pareto::lemma_survivors;
use crate::pareto::rejects;
use crate::pareto::survivors;
use crate::pareto::Entry;
use crate::pareto::Pareto;
use vstd::prelude::*;

verus! {

/// The rows of a stored table as mathematical sequences.
pub open spec fn rows(table: Seq<Vec<i64>>) -> Seq<Seq<i64>> {
    Seq::new(table.len(), |i: int| table[i]@)
}

/// The front after the first `n` individuals of the pool have been
/// considered, in index order.
pub open spec fn refreshed(
    front: Seq<Entry>,
    single: bool,
    limit: nat,
    pool: Seq<Seq<i64>>,
    fitness: Seq<Seq<i64>>,
    n: nat,
) -> Seq<Entry>
    decreases n,
{
    if n == 0 {
        front
    } else {
        considered(
            refreshed(front, single, limit, pool, fitness, (n - 1) as nat),
            single,
            limit,
            (pool[n - 1], fitness[n - 1]),
        )
    }
}

/// The context that a run starts from: the pool projected into the bounds,
/// every individual evaluated, and the best established by considering the
/// individuals in index order. A problem with one objective tracks a single
/// best; otherwise the front holds up to `pareto_limit` members.
pub open spec fn started<F: ObjFunc>(func: F, pareto_limit: nat, pool: Seq<Seq<i64>>) -> CtxView {
    let bound = func.spec_bound();
    let single = func.spec_arity() == 1;
    let limit = if single {
        1
    } else {
        pareto_limit
    };
    let clipped = Seq::new(pool.len(), |i: int| clip_all(pool[i], bound));
    let fitness = Seq::new(pool.len(), |i: int| func.spec_fitness(clip_all(pool[i], bound)));
    CtxView {
        bound,
        pool: clipped,
        fitness,
        front: refreshed(Seq::empty(), single, limit, clipped, fitness, pool.len()),
        single,
        limit,
        gen: 0,
    }
}

/// Every member's parameters lie inside the bounds.
pub open spec fn front_within(front: Seq<Entry>, bound: Seq<(i64, i64)>) -> bool {
    forall|k: int| 0 <= k < front.len() ==> within((#[trigger] front[k]).0, bound)
}

/// What a context is, mathematically.
pub struct CtxView {
    /// The `(lower, upper)` pair of every dimension.
    pub bound: Seq<(i64, i64)>,
    /// The individuals; an individual is known by its index for a whole run.
    pub pool: Seq<Seq<i64>>,
    /// The fitness of each individual, at the individual's index.
    pub fitness: Seq<Seq<i64>>,
    /// The tracked best: a single individual or a front.
    pub front: Seq<Entry>,
    /// Whether a single best is tracked.
    pub single: bool,
    /// The most members the front will hold.
    pub limit: nat,
    /// The generation counter.
    pub gen: u64,
}

impl CtxView {
    /// The invariant of a context: bounds are ordered, every individual has
    /// a fitness and lies inside the bounds, and the tracked best is a front
    /// of individuals inside the bounds.
    pub open spec fn wf(self) -> bool {
        &&& valid_bound(self.bound)
        &&& self.pool.len() == self.fitness.len()
        &&& forall|i: int| 0 <= i < self.pool.len() ==> within(#[trigger] self.pool[i], self.bound)
        &&& is_front(self.front, self.single, self.limit)
        &&& front_within(self.front, self.bound)
    }

    /// `self` is a later state of the run that `earlier` belongs to: same
    /// bounds, same population size, same way of tracking the best.
    pub open spec fn continues(self, earlier: CtxView) -> bool {
        &&& self.bound == earlier.bound
        &&& self.pool.len() == earlier.pool.len()
        &&& self.single == earlier.single
        &&& self.limit == earlier.limit
    }

    /// The tracked single best of `self` is that of `earlier` or dominates
    /// it.
    pub open spec fn no_worse_than(self, earlier: CtxView) -> bool {
        self.single && earlier.front.len() == 1 ==> self.front.len() == 1 && (self.front[0]
            == earlier.front[0] || crate::pareto::dominates(self.front[0].1, earlier.front[0].1))
    }
}

/// The members of a front after a candidate was considered are the
/// candidate or members of the old front.
pub proof fn lemma_considered_members(front: Seq<Entry>, single: bool, limit: nat, cand: Entry)
    ensures
        forall|k: int|
            0 <= k < considered(front, single, limit, cand).len() ==> {
                ||| (#[trigger] considered(front, single, limit, cand)[k]) == cand
                ||| front.contains(considered(front, single, limit, cand)[k])
            },
{
    let out = considered(front, single, limit, cand);
    if rejects(front, single, cand.1) {
        assert forall|k: int| 0 <= k < out.len() implies front.contains(#[trigger] out[k]) by {
            assert(front[k] == out[k]);
        }
    } else {
        lemma_survivors(front, cand.1);
        let kept = survivors(front, cand.1);
        let grown = kept.push(cand);
        assert forall|k: int| 0 <= k < out.len() implies (#[trigger] out[k]) == cand
            || front.contains(out[k]) by {
            let d: int = if grown.len() > limit {
                grown.len() - limit
            } else {
                0
            };
            assert(out[k] == grown[k + d]);
            if k + d < kept.len() {
                assert(grown[k + d] == kept[k + d]);
            }
        }
    }
}

/// Considering a candidate that lies inside the bounds keeps every member
/// of the front inside them.
pub proof fn lemma_considered_within(
    front: Seq<Entry>,
    single: bool,
    limit: nat,
    cand: Entry,
    bound: Seq<(i64, i64)>,
)
    requires
        front_within(front, bound),
        within(cand.0, bound),
    ensures
        front_within(considered(front, single, limit, cand), bound),
{
    lemma_considered_members(front, single, limit, cand);
    let out = considered(front, single, limit, cand);
    assert forall|k: int| 0 <= k < out.len() implies within((#[trigger] out[k]).0, bound) by {
        if out[k] != cand {
            let p = choose|p: int| 0 <= p < front.len() && front[p] == out[k];
            assert(within(front[p].0, bound));
        }
    }
}

/// Across any number of steps the tracked single best never gets worse:
/// the relation composes.
pub proof fn lemma_no_worse_chain(a: CtxView, b: CtxView, c: CtxView)
    requires
        b.continues(a),
        c.continues(b),
        b.no_worse_than(a),
        c.no_worse_than(b),
    ensures
        c.continues(a),
        c.no_worse_than(a),
{
    if c.single && a.front.len() == 1 {
        if c.front[0] != b.front[0] && b.front[0] != a.front[0] {
            crate::pareto::lemma_dominates_transitive(c.front[0].1, b.front[0].1, a.front[0].1);
        }
    }
}

/// The shared optimisation state of one run.
pub struct Ctx<F: ObjFunc> {
    func: F,
    bound: Vec<(i64, i64)>,
    pool: Vec<Vec<i64>>,
    pool_y: Vec<Vec<i64>>,
    best: Pareto,
    gen: u64,
}

impl<F: ObjFunc> Ctx<F> {
    pub closed spec fn view(&self) -> CtxView {
        CtxView {
            bound: self.bound@,
            pool: rows(self.pool@),
            fitness: rows(self.pool_y@),
            front: self.best@,
            single: self.best.spec_single(),
            limit: self.best.spec_limit() as nat,
            gen: self.gen,
        }
    }

    /// The objective that this context optimises.
    pub closed spec fn spec_func(&self) -> F {
        self.func
    }

    /// The context's invariant; the bounds are the objective's.
    pub open spec fn wf(&self) -> bool {
        &&& self@.wf()
        &&& self@.bound == self.spec_func().spec_bound()
    }

    /// `self` is a later state of the run that `earlier` belongs to.
    pub open spec fn continues(&self, earlier: &Ctx<F>) -> bool {
        &&& self@.continues(earlier@)
        &&& self.spec_func() == earlier.spec_func()
    }

    /// Builds the context of a run from an initial pool. Every coordinate is
    /// projected into its bounds, every individual is evaluated, and the
    /// best is established by considering the individuals in index order. A
    /// problem with one objective tracks a single best; otherwise the front
    /// holds up to `pareto_limit` members.
    pub fn new(func: F, pareto_limit: usize, pool: Vec<Vec<i64>>) -> (ctx: Ctx<F>)
        requires
            valid_bound(func.spec_bound()),
            forall|i: int|
                0 <= i < pool@.len() ==> (#[trigger] pool@[i])@.len() == func.spec_bound().len(),
        ensures
            ctx.wf(),
            ctx.spec_func() == func,
            ctx@ == started(func, pareto_limit as nat, rows(pool@)),
    {
        let bound = func.bound();
        let single = func.arity() == 1;
        let limit: usize = if single {
            1
        } else {
            pareto_limit
        };
        let mut clipped: Vec<Vec<i64>> = Vec::new();
        let mut i: usize = 0;
        while i < pool.len()
            invariant
                i <= pool.len(),
                clipped@.len() == i,
                bound@ == func.spec_bound(),
                valid_bound(bound@),
                forall|j: int|
                    0 <= j < pool@.len() ==> (#[trigger] pool@[j])@.len() == bound@.len(),
                forall|j: int|
                    0 <= j < i ==> (#[trigger] clipped@[j])@ == clip_all(pool@[j]@, bound@),
                forall|j: int| 0 <= j < i ==> within((#[trigger] clipped@[j])@, bound@),
            decreases pool.len() - i,
        {
            let row = clip_row(&bound, &pool[i]);
            proof {
                lemma_clip_all_within(pool@[i as int]@, bound@);
            }
            clipped.push(row);
            i += 1;
        }
        let pool_y = evaluate_all(&func, &clipped);
        let mut ctx = Ctx { func, bound, pool: clipped, pool_y, best: Pareto::new(limit, single), gen: 0 };
        proof {
            assert(ctx@.wf());
        }
        ctx.refresh_best();
        proof {
            let model = started(func, pareto_limit as nat, rows(pool@));
            assert(ctx@.pool =~= model.pool);
            assert(ctx@.fitness =~= model.fitness);
        }
        ctx
    }

    /// The population size.
    pub fn pop_num(&self) -> (n: usize)
        ensures
            n == self@.pool.len(),
    {
        self.pool.len()
    }

    /// The number of dimensions.
    pub fn dim(&self) -> (n: usize)
        ensures
            n == self@.bound.len(),
    {
        self.bound.len()
    }

    /// The generation counter: the number of generations run so far.
    pub fn gen(&self) -> (gen: u64)
        ensures
            gen == self@.gen,
    {
        self.gen
    }

    /// The objective.
    pub fn func(&self) -> (func: &F)
        ensures
            *func == self.spec_func(),
    {
        &self.func
    }

    /// The lower bound of dimension `s`.
    pub fn lb(&self, s: usize) -> (lo: i64)
        requires
            s < self@.bound.len(),
        ensures
            lo == self@.bound[s as int].0,
    {
        self.bound[s].0
    }

    /// The upper bound of dimension `s`.
    pub fn ub(&self, s: usize) -> (hi: i64)
        requires
            s < self@.bound.len(),
        ensures
            hi == self@.bound[s as int].1,
    {
        self.bound[s].1
    }

    /// Projects `v` into the bounds of dimension `s`.
    pub fn clamp(&self, s: usize, v: i64) -> (out: i64)
        requires
            s < self@.bound.len(),
        ensures
            out == clip(v, self@.bound[s as int].0, self@.bound[s as int].1),
    {
        clip_to(v, self.bound[s].0, self.bound[s].1)
    }

    /// Projects every coordinate of `xs` into its dimension's bounds.
    pub fn project(&self, xs: &Vec<i64>) -> (out: Vec<i64>)
        requires
            xs@.len() == self@.bound.len(),
        ensures
            out@ == clip_all(xs@, self@.bound),
    {
        clip_row(&self.bound, xs)
    }

    /// The parameters of individual `index`.
    pub fn individual(&self, index: usize) -> (xs: &Vec<i64>)
        requires
            index < self@.pool.len(),
        ensures
            xs@ == self@.pool[index as int],
    {
        &self.pool[index]
    }

    /// The fitness of individual `index`.
    pub fn fitness(&self, index: usize) -> (ys: &Vec<i64>)
        requires
            self@.pool.len() == self@.fitness.len(),
            index < self@.pool.len(),
        ensures
            ys@ == self@.fitness[index as int],
    {
        &self.pool_y[index]
    }

    /// The tracked best.
    pub fn best(&self) -> (best: &Pareto)
        ensures
            best@ == self@.front,
            best.spec_single() == self@.single,
            best.spec_limit() == self@.limit,
    {
        &self.best
    }

    /// Replaces individual `index` by `xs`, projected into the bounds, with
    /// fitness `ys`, and offers the new individual to the tracked best.
    pub fn assign(&mut self, index: usize, xs: Vec<i64>, ys: Vec<i64>)
        requires
            old(self).wf(),
            index < old(self)@.pool.len(),
            xs@.len() == old(self)@.bound.len(),
        ensures
            final(self).wf(),
            final(self).continues(old(self)),
            final(self)@.no_worse_than(old(self)@),
            final(self)@.gen == old(self)@.gen,
            final(self)@.pool == old(self)@.pool.update(
                index as int,
                clip_all(xs@, old(self)@.bound),
            ),
            final(self)@.fitness == old(self)@.fitness.update(index as int, ys@),
            final(self)@.front == considered(
                old(self)@.front,
                old(self)@.single,
                old(self)@.limit,
                (clip_all(xs@, old(self)@.bound), ys@),
            ),
    {
        let row = clip_row(&self.bound, &xs);
        proof {
            lemma_clip_all_within(xs@, self.bound@);
            lemma_considered_within(
                self.best@,
                self.best.spec_single(),
                self.best.spec_limit() as nat,
                (row@, ys@),
                self.bound@,
            );
            if self.best.spec_single() && self.best@.len() == 1 {
                crate::pareto::lemma_best_never_worsens(
                    self.best@,
                    self.best.spec_limit() as nat,
                    (row@, ys@),
                );
            }
        }
        let _ = self.best.consider(copy_of(&row), copy_of(&ys));
        self.pool.set(index, row);
        self.pool_y.set(index, ys);
        proof {
            assert(self@.pool =~= old(self)@.pool.update(
                index as int,
                clip_all(xs@, old(self)@.bound),
            ));
            assert(self@.fitness =~= old(self)@.fitness.update(index as int, ys@));
        }
    }

    /// Replaces individual `index` by `xs`, projected into the bounds, with
    /// fitness `ys`, and leaves the tracked best as it is. After a series
    /// of such changes `refresh_best` brings the tracked best up to date.
    pub fn replace(&mut self, index: usize, xs: Vec<i64>, ys: Vec<i64>)
        requires
            old(self).wf(),
            index < old(self)@.pool.len(),
            xs@.len() == old(self)@.bound.len(),
        ensures
            final(self).wf(),
            final(self).spec_func() == old(self).spec_func(),
            final(self)@ == (CtxView {
                pool: old(self)@.pool.update(index as int, clip_all(xs@, old(self)@.bound)),
                fitness: old(self)@.fitness.update(index as int, ys@),
                ..old(self)@
            }),
    {
        let row = clip_row(&self.bound, &xs);
        proof {
            lemma_clip_all_within(xs@, self.bound@);
        }
        self.pool.set(index, row);
        self.pool_y.set(index, ys);
        proof {
            assert(self@.pool =~= old(self)@.pool.update(
                index as int,
                clip_all(xs@, old(self)@.bound),
            ));
            assert(self@.fitness =~= old(self)@.fitness.update(index as int, ys@));
        }
    }

    /// Offers every individual to the tracked best, in index order. For use
    /// after the pool has been changed without `assign`.
    pub fn refresh_best(&mut self)
        requires
            old(self).wf(),
        ensures
            final(self).wf(),
            final(self).continues(old(self)),
            final(self)@.no_worse_than(old(self)@),
            final(self)@.gen == old(self)@.gen,
            final(self)@.pool == old(self)@.pool,
            final(self)@.fitness == old(self)@.fitness,
            final(self)@.front == refreshed(
                old(self)@.front,
                old(self)@.single,
                old(self)@.limit,
                old(self)@.pool,
                old(self)@.fitness,
                old(self)@.pool.len(),
            ),
    {
        let n = self.pool.len();
        let mut i: usize = 0;
        while i < n
            invariant
                i <= n,
                n == self@.pool.len(),
                self.wf(),
                old(self).wf(),
                self.continues(old(self)),
                self@.no_worse_than(old(self)@),
                self@.gen == old(self)@.gen,
                self@.pool == old(self)@.pool,
                self@.fitness == old(self)@.fitness,
                self@.front == refreshed(
                    old(self)@.front,
                    old(self)@.single,
                    old(self)@.limit,
                    old(self)@.pool,
                    old(self)@.fitness,
                    i as nat,
                ),
            decreases n - i,
        {
            let xs = copy_of(&self.pool[i]);
            let ys = copy_of(&self.pool_y[i]);
            proof {
                assert(self@.pool[i as int] == xs@);
                assert(self@.fitness[i as int] == ys@);
                lemma_considered_within(
                    self.best@,
                    self.best.spec_single(),
                    self.best.spec_limit() as nat,
                    (xs@, ys@),
                    self.bound@,
                );
                if self.best.spec_single() && self.best@.len() == 1 {
                    crate::pareto::lemma_best_never_worsens(
                        self.best@,
                        self.best.spec_limit() as nat,
                        (xs@, ys@),
                    );
                }
            }
            let _ = self.best.consider(xs, ys);
            i += 1;
        }
    }

    /// Counts one more generation. The counter stops at its largest value.
    pub(crate) fn advance(&mut self)
        requires
            old(self).wf(),
        ensures
            final(self).wf(),
            final(self).continues(old(self)),
            final(self)@.no_worse_than(old(self)@),
            final(self)@.pool == old(self)@.pool,
            final(self)@.fitness == old(self)@.fitness,
            final(self)@.front == old(self)@.front,
            final(self)@.gen == if old(self)@.gen < u64::MAX {
                (old(self)@.gen + 1) as u64
            } else {
                u64::MAX
            },
    {
        if self.gen < u64::MAX {
            self.gen = self.gen + 1;
        }
    }
}

} // verus!
