//! The firefly strategy: every individual is drawn towards each individual
//! that is strictly better, and a move is kept only if it improves.
use crate::algorithm::Algorithm;
use crate::ctx::lemma_no_worse_chain;
use crate::ctx::refreshed;
use crate::ctx::Ctx;
use crate::ctx::CtxView;
use crate::fitness::Fitness;
use crate::obj::clip_all;
use crate::obj::lemma_clip_all_within;
use crate::obj::ObjFunc;
use crate::pareto::considered;
use crate::pareto::copy_of;
use crate::pareto::dominates;
use crate::pareto::is_dominating;
use crate::random::seeded_word;
use crate::random::Rng;
use crate::random::RngView;
use vstd::prelude::*;

verus! {

/// The context after the raw proposal `raw` for individual `index` has been
/// settled: replaced, if the projected proposal has one coordinate per
/// dimension and its fitness dominates the individual's; else unchanged.
pub open spec fn settled<F: ObjFunc>(ctx: CtxView, func: F, index: int, raw: Seq<i64>) -> CtxView {
    let cand = clip_all(raw, ctx.bound);
    let ys = func.spec_fitness(cand);
    if raw.len() == ctx.bound.len() && dominates(ys, ctx.fitness[index]) {
        CtxView {
            pool: ctx.pool.update(index, cand),
            fitness: ctx.fitness.update(index, ys),
            front: considered(ctx.front, ctx.single, ctx.limit, (cand, ys)),
            ..ctx
        }
    } else {
        ctx
    }
}

/// No individual's fitness has got worse: each is what it was, or
/// dominates what it was.
pub open spec fn none_worse(now: Seq<Seq<i64>>, before: Seq<Seq<i64>>) -> bool {
    &&& now.len() == before.len()
    &&& forall|i: int|
        0 <= i < now.len() ==> #[trigger] now[i] == before[i] || dominates(now[i], before[i])
}

/// Greedy acceptance composes: over any number of moves no individual's
/// fitness gets worse.
pub proof fn lemma_none_worse_chain(a: Seq<Seq<i64>>, b: Seq<Seq<i64>>, c: Seq<Seq<i64>>)
    requires
        none_worse(b, a),
        none_worse(c, b),
    ensures
        none_worse(c, a),
{
    assert forall|i: int| 0 <= i < c.len() implies #[trigger] c[i] == a[i] || dominates(
        c[i],
        a[i],
    ) by {
        assert(b[i] == a[i] || dominates(b[i], a[i]));
        if c[i] != b[i] && b[i] != a[i] {
            crate::pareto::lemma_dominates_transitive(c[i], b[i], a[i]);
        }
    }
}

/// The next `n` words of a source.
pub open spec fn next_words(rng: RngView, n: nat) -> Seq<u64> {
    Seq::new(n, |k: int| seeded_word(rng.seed, rng.drawn + k as nat))
}

/// A source after `n` further draws.
pub open spec fn drawn_on(rng: RngView, n: nat) -> RngView {
    RngView { seed: rng.seed, drawn: rng.drawn + n }
}

/// Greedy acceptance. The raw proposal for individual `index` is projected
/// into the bounds and evaluated; it replaces the individual exactly when
/// it has one coordinate per dimension and its fitness dominates the
/// individual's. Otherwise the context is left as it was.
pub fn settle<F: ObjFunc>(ctx: &mut Ctx<F>, index: usize, raw: Vec<i64>) -> (accepted: bool)
    requires
        old(ctx).wf(),
        index < old(ctx)@.pool.len(),
    ensures
        final(ctx).wf(),
        final(ctx).continues(old(ctx)),
        final(ctx)@.no_worse_than(old(ctx)@),
        final(ctx)@ == settled(old(ctx)@, old(ctx).spec_func(), index as int, raw@),
        accepted == (raw@.len() == old(ctx)@.bound.len() && dominates(
            old(ctx).spec_func().spec_fitness(clip_all(raw@, old(ctx)@.bound)),
            old(ctx)@.fitness[index as int],
        )),
{
    if raw.len() != ctx.dim() {
        return false;
    }
    let cand = ctx.project(&raw);
    proof {
        lemma_clip_all_within(raw@, ctx@.bound);
        lemma_clip_all_within(cand@, ctx@.bound);
    }
    let ys = ctx.func().fitness(&cand).objectives();
    if !is_dominating(&ys, ctx.fitness(index)) {
        return false;
    }
    ctx.assign(index, cand, ys);
    true
}

/// The firefly strategy. `attract` is the move rule: given an individual,
/// the one that attracts it and one raw random word per dimension, it
/// returns the raw proposal for the individual's new parameters. Called
/// with an individual as its own attractor it yields a pure perturbation.
pub struct Method<B> {
    attract: B,
}

impl<B: Fn(&Vec<i64>, &Vec<i64>, &Vec<u64>) -> Vec<i64>> Method<B> {
    /// The move rule of this strategy.
    pub closed spec fn spec_attract(&self) -> B {
        self.attract
    }

    /// The move rule accepts every pair of vectors of one length with one
    /// random word per coordinate.
    pub open spec fn callable(&self) -> bool {
        forall|me: &Vec<i64>, she: &Vec<i64>, noise: &Vec<u64>|
            me@.len() == she@.len() && me@.len() == noise@.len() ==> call_requires(
                self.spec_attract(),
                (me, she, noise),
            )
    }

    /// The move rule is a function: what it returns depends on the contents
    /// of its arguments alone.
    pub open spec fn functional(&self) -> bool {
        forall|
            m1: &Vec<i64>,
            s1: &Vec<i64>,
            n1: &Vec<u64>,
            r1: Vec<i64>,
            m2: &Vec<i64>,
            s2: &Vec<i64>,
            n2: &Vec<u64>,
            r2: Vec<i64>,
        |
            m1@ == m2@ && s1@ == s2@ && n1@ == n2@ && #[trigger] call_ensures(
                self.spec_attract(),
                (m1, s1, n1),
                r1,
            ) && #[trigger] call_ensures(self.spec_attract(), (m2, s2, n2), r2) ==> r1@ == r2@
    }

    /// What the move rule returns, as a function of contents.
    pub open spec fn rule(&self, me: Seq<i64>, she: Seq<i64>, noise: Seq<u64>) -> Seq<i64> {
        let (m, s, n, r) = choose|m: &Vec<i64>, s: &Vec<i64>, n: &Vec<u64>, r: Vec<i64>|
            m@ == me && s@ == she && n@ == noise && #[trigger] call_ensures(
                self.spec_attract(),
                (m, s, n),
                r,
            );
        r@
    }

    /// A result of a functional move rule is what `rule` says.
    pub proof fn lemma_rule(&self, me: &Vec<i64>, she: &Vec<i64>, noise: &Vec<u64>, raw: Vec<i64>)
        requires
            self.functional(),
            call_ensures(self.spec_attract(), (me, she, noise), raw),
        ensures
            raw@ == self.rule(me@, she@, noise@),
    {
        let (m, s, n, r) = choose|m: &Vec<i64>, s: &Vec<i64>, n: &Vec<u64>, r: Vec<i64>|
            m@ == me@ && s@ == she@ && n@ == noise@ && #[trigger] call_ensures(
                self.spec_attract(),
                (m, s, n),
                r,
            );
        assert(r@ == raw@);
    }

    /// The model of one move of `me` towards `she`.
    pub open spec fn moved<F: ObjFunc>(
        &self,
        ctx: CtxView,
        func: F,
        rng: RngView,
        me: int,
        she: int,
    ) -> (CtxView, RngView) {
        let noise = next_words(rng, ctx.bound.len());
        (
            settled(ctx, func, me, self.rule(ctx.pool[me], ctx.pool[she], noise)),
            drawn_on(rng, ctx.bound.len()),
        )
    }

    /// The model of the scan of individual `me` from attractor `she` on:
    /// it moves towards each attractor whose fitness dominates its own.
    /// The flag tells whether it has moved at all.
    pub open spec fn scanned<F: ObjFunc>(
        &self,
        ctx: CtxView,
        func: F,
        rng: RngView,
        me: int,
        she: int,
        n: int,
        any: bool,
    ) -> (CtxView, RngView, bool)
        decreases n - she,
    {
        if she >= n {
            (ctx, rng, any)
        } else if dominates(ctx.fitness[she], ctx.fitness[me]) {
            let (c, r) = self.moved(ctx, func, rng, me, she);
            self.scanned(c, func, r, me, she + 1, n, true)
        } else {
            self.scanned(ctx, func, rng, me, she + 1, n, any)
        }
    }

    /// The model of one pass from individual `me` on: each individual is
    /// scanned, and one that nothing attracted is moved towards itself.
    pub open spec fn passed<F: ObjFunc>(
        &self,
        ctx: CtxView,
        func: F,
        rng: RngView,
        me: int,
        n: int,
    ) -> (CtxView, RngView)
        decreases n - me,
    {
        if me >= n {
            (ctx, rng)
        } else {
            let (c, r, any) = self.scanned(ctx, func, rng, me, 0, n, false);
            if any {
                self.passed(c, func, r, me + 1, n)
            } else {
                let (c2, r2) = self.moved(c, func, r, me, me);
                self.passed(c2, func, r2, me + 1, n)
            }
        }
    }

    /// A firefly strategy with the given move rule.
    pub fn new(attract: B) -> (method: Method<B>)
        ensures
            method.spec_attract() == attract,
    {
        Method { attract }
    }

    /// Moves individual `me` towards individual `she` and settles the
    /// proposal greedily. Draws one word per dimension.
    pub fn move_firefly<F: ObjFunc>(
        &self,
        ctx: &mut Ctx<F>,
        rng: &mut Rng,
        me: usize,
        she: usize,
    ) -> (accepted: bool)
        requires
            self.callable(),
            old(ctx).wf(),
            old(rng).wf(),
            me < old(ctx)@.pool.len(),
            she < old(ctx)@.pool.len(),
        ensures
            final(ctx).wf(),
            final(rng).wf(),
            final(ctx).continues(old(ctx)),
            final(ctx)@.no_worse_than(old(ctx)@),
            final(ctx)@.gen == old(ctx)@.gen,
            final(rng)@ == drawn_on(old(rng)@, old(ctx)@.bound.len()),
            !accepted ==> final(ctx)@ == old(ctx)@,
            accepted ==> dominates(final(ctx)@.fitness[me as int], old(ctx)@.fitness[me as int]),
            none_worse(final(ctx)@.fitness, old(ctx)@.fitness),
            forall|i: int|
                0 <= i < old(ctx)@.pool.len() && i != me ==> final(ctx)@.pool[i] == old(ctx)@.pool[i]
                    && final(ctx)@.fitness[i] == old(ctx)@.fitness[i],
            self.functional() ==> (final(ctx)@, final(rng)@) == self.moved(
                old(ctx)@,
                old(ctx).spec_func(),
                old(rng)@,
                me as int,
                she as int,
            ),
    {
        let noise = rng.words(ctx.dim());
        let mine = copy_of(ctx.individual(me));
        let hers = copy_of(ctx.individual(she));
        proof {
            assert(self.spec_attract() == self.attract);
            assert(mine@.len() == ctx@.bound.len() && hers@.len() == ctx@.bound.len());
        }
        let raw = (self.attract)(&mine, &hers, &noise);
        proof {
            assert(noise@ =~= next_words(old(rng)@, ctx@.bound.len()));
            if self.functional() {
                self.lemma_rule(&mine, &hers, &noise, raw);
            }
        }
        settle(ctx, me, raw)
    }

    /// One pass over all ordered pairs: every individual moves towards each
    /// individual whose fitness dominates its own, and an individual that
    /// nothing attracts is perturbed around itself.
    pub fn move_fireflies<F: ObjFunc>(&self, ctx: &mut Ctx<F>, rng: &mut Rng)
        requires
            self.callable(),
            old(ctx).wf(),
            old(rng).wf(),
        ensures
            final(ctx).wf(),
            final(rng).wf(),
            final(ctx).continues(old(ctx)),
            final(ctx)@.no_worse_than(old(ctx)@),
            final(ctx)@.gen == old(ctx)@.gen,
            final(rng)@.seed == old(rng)@.seed,
            none_worse(final(ctx)@.fitness, old(ctx)@.fitness),
            self.functional() ==> (final(ctx)@, final(rng)@) == self.passed(
                old(ctx)@,
                old(ctx).spec_func(),
                old(rng)@,
                0,
                old(ctx)@.pool.len() as int,
            ),
    {
        let n = ctx.pop_num();
        let ghost func = ctx.spec_func();
        let mut i: usize = 0;
        while i < n
            invariant
                i <= n,
                self.callable(),
                ctx.wf(),
                rng.wf(),
                n == ctx@.pool.len(),
                func == ctx.spec_func(),
                ctx.continues(old(ctx)),
                ctx@.no_worse_than(old(ctx)@),
                ctx@.gen == old(ctx)@.gen,
                rng@.seed == old(rng)@.seed,
                none_worse(ctx@.fitness, old(ctx)@.fitness),
                self.functional() ==> self.passed(ctx@, func, rng@, i as int, n as int)
                    == self.passed(old(ctx)@, func, old(rng)@, 0, n as int),
            decreases n - i,
        {
            let ghost row_ctx = ctx@;
            let ghost row_rng = rng@;
            let mut moved = false;
            let mut j: usize = 0;
            while j < n
                invariant
                    i < n,
                    j <= n,
                    self.callable(),
                    ctx.wf(),
                    rng.wf(),
                    n == ctx@.pool.len(),
                    func == ctx.spec_func(),
                    ctx.continues(old(ctx)),
                    ctx@.no_worse_than(old(ctx)@),
                    ctx@.gen == old(ctx)@.gen,
                    rng@.seed == old(rng)@.seed,
                    none_worse(ctx@.fitness, old(ctx)@.fitness),
                    self.functional() ==> self.scanned(
                        ctx@,
                        func,
                        rng@,
                        i as int,
                        j as int,
                        n as int,
                        moved,
                    ) == self.scanned(row_ctx, func, row_rng, i as int, 0, n as int, false),
                decreases n - j,
            {
                if is_dominating(ctx.fitness(j), ctx.fitness(i)) {
                    let ghost mid = ctx@;
                    let _ = self.move_firefly(ctx, rng, i, j);
                    proof {
                        lemma_no_worse_chain(old(ctx)@, mid, ctx@);
                        lemma_none_worse_chain(old(ctx)@.fitness, mid.fitness, ctx@.fitness);
                    }
                    moved = true;
                }
                j += 1;
            }
            if !moved {
                let ghost mid = ctx@;
                let _ = self.move_firefly(ctx, rng, i, i);
                proof {
                    lemma_no_worse_chain(old(ctx)@, mid, ctx@);
                    lemma_none_worse_chain(old(ctx)@.fitness, mid.fitness, ctx@.fitness);
                }
            }
            i += 1;
        }
    }
}

impl<F: ObjFunc, B: Fn(&Vec<i64>, &Vec<i64>, &Vec<u64>) -> Vec<i64>> Algorithm<F> for Method<B> {
    open spec fn ready(&self) -> bool {
        self.callable()
    }

    open spec fn lawful(&self) -> bool {
        self.functional()
    }

    open spec fn spec_generation(&self, ctx: CtxView, func: F, rng: RngView) -> (
        Self,
        CtxView,
        RngView,
    ) {
        let (c, r) = self.passed(ctx, func, rng, 0, ctx.pool.len() as int);
        (
            *self,
            CtxView {
                front: refreshed(c.front, c.single, c.limit, c.pool, c.fitness, c.pool.len()),
                ..c
            },
            r,
        )
    }

    fn generation(&mut self, ctx: &mut Ctx<F>, rng: &mut Rng)
        ensures
            none_worse(final(ctx)@.fitness, old(ctx)@.fitness),
    {
        self.move_fireflies(ctx, rng);
        let ghost mid = ctx@;
        ctx.refresh_best();
        proof {
            lemma_no_worse_chain(old(ctx)@, mid, ctx@);
        }
    }
}

} // verus!
