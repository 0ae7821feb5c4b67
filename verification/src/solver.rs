//! The solver: configuration, validation, and the result of a run.
use crate::algorithm::Algorithm;
use crate::ctx::lemma_no_worse_chain;
use crate::ctx::rows;
use crate::ctx::started;
use crate::ctx::Ctx;
use crate::ctx::CtxView;
use crate::engine::logged;
use crate::engine::ran;
use crate::engine::repeatable;
use crate::engine::run;
use crate::engine::steady;
use crate::obj::valid_bound;
use crate::obj::within;
use crate::obj::ObjFunc;
use crate::pareto::Individual;
use crate::pool::accept_all;
use crate::pool::accepts_all;
use crate::pool::collected;
use crate::pool::decisive;
use crate::pool::draw_pool;
use crate::pool::single_valued;
use crate::pool::uniform_pool;
use crate::pool::Pool;
use crate::random::fold_into;
use crate::random::Rng;
use crate::random::RngView;
use crate::random::SeedOpt;
use vstd::prelude::*;

verus! {

/// The population size used unless a setting or the caller says otherwise.
pub const DEFAULT_POP_NUM: usize = 200;

/// The front limit used for a multi-objective problem unless the caller
/// says otherwise.
pub const DEFAULT_PARETO_LIMIT: usize = 20;

/// The generation at which the default termination condition stops.
pub const DEFAULT_MAX_GEN: u64 = 200;

/// Why a configuration was refused. A refusal comes before any objective
/// evaluation and before any random word is drawn, with one exception:
/// `PoolExhausted`.
#[derive(Clone, Copy, Debug, PartialEq, Eq, Structural)]
pub enum ConfigError {
    /// Some dimension's lower bound exceeds its upper bound.
    InvertedBound,
    /// A front limit was requested for a problem with a single objective.
    ParetoLimit,
    /// The ready-made pool does not have `pop_num` individuals.
    PoolSize,
    /// Some individual of the ready-made pool has the wrong dimension.
    PoolDimension,
    /// The validity predicate turned away every attempt the engine had.
    PoolExhausted,
}

impl ConfigError {
    /// A sentence for the user.
    pub fn message(&self) -> (text: &'static str)
        ensures
            text@ == match self {
                ConfigError::InvertedBound => "lower bound should not exceed upper bound"@,
                ConfigError::ParetoLimit => "a single-objective problem has no front limit"@,
                ConfigError::PoolSize => "pool size mismatched"@,
                ConfigError::PoolDimension => "pool dimension mismatched"@,
                ConfigError::PoolExhausted => "no valid pool could be collected"@,
            },
    {
        match self {
            ConfigError::InvertedBound => "lower bound should not exceed upper bound",
            ConfigError::ParetoLimit => "a single-objective problem has no front limit",
            ConfigError::PoolSize => "pool size mismatched",
            ConfigError::PoolDimension => "pool dimension mismatched",
            ConfigError::PoolExhausted => "no valid pool could be collected",
        }
    }
}

/// A stock termination condition.
#[derive(Clone, Copy, Debug, PartialEq, Eq, Structural)]
pub enum Task {
    /// Stop once this many generations have run.
    MaxGen(u64),
    /// Stop once the first objective of the tracked best is at most this.
    MinFit(i64),
}

impl Task {
    /// Whether a context in state `ctx` has met the condition.
    pub open spec fn met(self, ctx: crate::ctx::CtxView) -> bool {
        match self {
            Task::MaxGen(limit) => ctx.gen >= limit,
            Task::MinFit(level) => ctx.front.len() > 0 && ctx.front[0].1.len() > 0
                && ctx.front[0].1[0] <= level,
        }
    }

    /// Decides whether the loop should stop.
    pub fn reached<F: ObjFunc>(&self, ctx: &Ctx<F>) -> (stop: bool)
        ensures
            stop == self.met(ctx@),
    {
        match self {
            Task::MaxGen(limit) => ctx.gen() >= *limit,
            Task::MinFit(level) => {
                let best = ctx.best();
                if best.len() == 0 {
                    false
                } else {
                    let ys = &best.member(0).ys;
                    ys.len() > 0 && ys[0] <= *level
                }
            },
        }
    }
}

/// A strategy's settings: they build the strategy and may suggest a
/// population size.
pub trait Setting<F: ObjFunc> {
    /// The strategy that these settings build.
    type Algorithm: Algorithm<F>;

    /// The strategy that these settings build. Left open unless
    /// overridden.
    open spec fn spec_algorithm(&self) -> Self::Algorithm {
        arbitrary()
    }

    /// Builds the strategy.
    fn algorithm(self) -> (algorithm: Self::Algorithm)
        ensures
            algorithm.ready(),
            algorithm == self.spec_algorithm(),
    ;

    /// The population size to use unless the caller sets one.
    fn default_pop() -> (pop_num: usize)
        ensures
            pop_num == Self::POP_NUM,
    {
        Self::POP_NUM
    }

    /// The population size that these settings suggest. Settings that say
    /// nothing suggest `DEFAULT_POP_NUM`.
    const POP_NUM: usize = DEFAULT_POP_NUM;
}

/// The default termination condition: stop at generation 200.
pub fn default_task<F: ObjFunc>(ctx: &Ctx<F>) -> (stop: bool)
    ensures
        stop == (ctx@.gen >= DEFAULT_MAX_GEN),
{
    ctx.gen() >= DEFAULT_MAX_GEN
}

/// The default callback: does nothing.
pub fn no_callback<F: ObjFunc>(ctx: &Ctx<F>) {
}

/// The default record: the generation number.
pub fn record_gen<F: ObjFunc>(ctx: &Ctx<F>) -> (gen: u64)
    ensures
        gen == ctx@.gen,
{
    ctx.gen()
}

/// Whether every dimension's lower bound is at most its upper bound.
pub fn bound_ordered(bound: &Vec<(i64, i64)>) -> (ok: bool)
    ensures
        ok == valid_bound(bound@),
{
    let mut s: usize = 0;
    while s < bound.len()
        invariant
            s <= bound.len(),
            forall|t: int| 0 <= t < s ==> (#[trigger] bound@[t]).0 <= bound@[t].1,
        decreases bound.len() - s,
    {
        if bound[s].0 > bound[s].1 {
            return false;
        }
        s += 1;
    }
    true
}

/// Every individual of `pool` has `dim` coordinates.
pub open spec fn uniform_dim(pool: Seq<Vec<i64>>, dim: nat) -> bool {
    forall|i: int| 0 <= i < pool.len() ==> (#[trigger] pool[i])@.len() == dim
}

/// Whether every individual of `pool` has `dim` coordinates.
pub fn has_dim(pool: &Vec<Vec<i64>>, dim: usize) -> (ok: bool)
    ensures
        ok == uniform_dim(pool@, dim as nat),
{
    let mut i: usize = 0;
    while i < pool.len()
        invariant
            i <= pool.len(),
            forall|j: int| 0 <= j < i ==> (#[trigger] pool@[j])@.len() == dim,
        decreases pool.len() - i,
    {
        if pool[i].len() != dim {
            return false;
        }
        i += 1;
    }
    true
}

/// The fault of a configuration, if it has one. Faults are looked for in
/// this order: bounds, front limit, pool size, pool dimension.
pub open spec fn config_fault(
    bound: Seq<(i64, i64)>,
    arity: nat,
    pareto_limit: Option<usize>,
    pop_num: usize,
    pool: Pool,
) -> Option<ConfigError> {
    if !valid_bound(bound) {
        Some(ConfigError::InvertedBound)
    } else if pareto_limit is Some && arity == 1 {
        Some(ConfigError::ParetoLimit)
    } else if pool matches Pool::Ready(ready) && ready@.len() != pop_num {
        Some(ConfigError::PoolSize)
    } else if pool matches Pool::Ready(ready) && !uniform_dim(ready@, bound.len()) {
        Some(ConfigError::PoolDimension)
    } else {
        None
    }
}

/// Looks for the fault of a configuration.
pub fn find_fault(
    bound: &Vec<(i64, i64)>,
    arity: usize,
    pareto_limit: Option<usize>,
    pop_num: usize,
    pool: &Pool,
) -> (fault: Option<ConfigError>)
    ensures
        fault == config_fault(bound@, arity as nat, pareto_limit, pop_num, *pool),
{
    if !bound_ordered(bound) {
        return Some(ConfigError::InvertedBound);
    }
    if pareto_limit.is_some() && arity == 1 {
        return Some(ConfigError::ParetoLimit);
    }
    match pool {
        Pool::Ready(ready) => {
            if ready.len() != pop_num {
                Some(ConfigError::PoolSize)
            } else if !has_dim(ready, bound.len()) {
                Some(ConfigError::PoolDimension)
            } else {
                None
            }
        },
        Pool::Sampled => None,
    }
}

/// The outcome of a run.
pub struct Solver<F: ObjFunc, H> {
    ctx: Ctx<F>,
    seed: u64,
    report: Vec<H>,
}

impl<F: ObjFunc, H> Solver<F, H> {
    /// The final context.
    pub closed spec fn spec_ctx(&self) -> Ctx<F> {
        self.ctx
    }

    /// The seed that the run's random source started from.
    pub closed spec fn spec_seed(&self) -> u64 {
        self.seed
    }

    /// The history: one entry per generation run.
    pub closed spec fn spec_report(&self) -> Seq<H> {
        self.report@
    }

    pub open spec fn wf(&self) -> bool {
        self.spec_ctx().wf()
    }

    /// The objective.
    pub fn func(&self) -> (func: &F)
        ensures
            *func == self.spec_ctx().spec_func(),
    {
        self.ctx.func()
    }

    /// The final context.
    pub fn ctx(&self) -> (ctx: &Ctx<F>)
        ensures
            *ctx == self.spec_ctx(),
    {
        &self.ctx
    }

    /// The history: one entry per generation run.
    pub fn report(&self) -> (report: &[H])
        ensures
            report@ == self.spec_report(),
    {
        self.report.as_slice()
    }

    /// The seed for an exact replay of the run.
    pub fn seed(&self) -> (seed: u64)
        ensures
            seed == self.spec_seed(),
    {
        self.seed
    }

    /// The number of generations run.
    pub fn generation(&self) -> (gen: u64)
        ensures
            gen == self.spec_ctx()@.gen,
    {
        self.ctx.gen()
    }

    /// The tracked best: its first member when a front is tracked. `None`
    /// when nothing is tracked, as with an empty population.
    pub fn best(&self) -> (best: Option<&Individual>)
        ensures
            best is Some <==> self.spec_ctx()@.front.len() > 0,
            best matches Some(m) ==> m@ == self.spec_ctx()@.front[0],
    {
        let front = self.ctx.best();
        if front.len() == 0 {
            None
        } else {
            Some(front.member(0))
        }
    }

    /// The parameters of the tracked best.
    pub fn best_parameters(&self) -> (xs: Option<&Vec<i64>>)
        ensures
            xs is Some <==> self.spec_ctx()@.front.len() > 0,
            xs matches Some(v) ==> v@ == self.spec_ctx()@.front[0].0,
    {
        match self.best() {
            Some(m) => Some(&m.xs),
            None => None,
        }
    }

    /// The fitness of the tracked best.
    pub fn best_fitness(&self) -> (ys: Option<&Vec<i64>>)
        ensures
            ys is Some <==> self.spec_ctx()@.front.len() > 0,
            ys matches Some(v) ==> v@ == self.spec_ctx()@.front[0].1,
    {
        match self.best() {
            Some(m) => Some(&m.ys),
            None => None,
        }
    }

    /// The front, in insertion order, each member as parameters and fitness.
    pub fn pareto_front(&self) -> (out: Vec<(Vec<i64>, Vec<i64>)>)
        ensures
            out@.len() == self.spec_ctx()@.front.len(),
            forall|i: int|
                0 <= i < out@.len() ==> (#[trigger] out@[i]).0@ == self.spec_ctx()@.front[i].0
                    && out@[i].1@ == self.spec_ctx()@.front[i].1,
    {
        self.ctx.best().front()
    }

    /// The objective's own reading of the tracked best. `None` when nothing
    /// is tracked.
    pub fn result(&self) -> (product: Option<F::Product>)
        requires
            self.wf(),
        ensures
            product is Some <==> self.spec_ctx()@.front.len() > 0,
            product matches Some(p) ==> p == self.spec_ctx().spec_func().spec_result(
                self.spec_ctx()@.front[0].0,
            ),
    {
        match self.best_parameters() {
            Some(xs) => {
                proof {
                    assert(within(self.spec_ctx()@.front[0].0, self.spec_ctx()@.bound));
                }
                Some(self.ctx.func().result(xs))
            },
            None => None,
        }
    }
}

/// The configuration of a run. `Solver::build` fills in the defaults; the
/// methods replace one setting each; `solve` validates and runs.
pub struct SolverBuilder<F: ObjFunc, A, S, V, T, C, R> {
    /// The objective.
    pub func: F,
    /// The strategy.
    pub algorithm: A,
    /// The population size.
    pub pop_num: usize,
    /// The front limit, if the caller asked for one.
    pub pareto_limit: Option<usize>,
    /// Where the seed comes from.
    pub seed: SeedOpt,
    /// Where the initial pool comes from.
    pub pool: Pool,
    /// Makes a coordinate of `(dimension, lower, upper, raw word)`.
    pub sampler: S,
    /// Says whether a sampled individual is valid.
    pub filter: V,
    /// How many individuals may be sampled in all while the pool is
    /// collected.
    pub attempts: u64,
    /// Says when the loop should stop.
    pub task: T,
    /// Invoked once per round, before the termination condition.
    pub callback: C,
    /// Makes a history entry after each generation.
    pub record: R,
}

impl<F: ObjFunc, A, S, V, T, C, R> SolverBuilder<F, A, S, V, T, C, R> {
    /// Sets the population size.
    pub fn pop_num(self, pop_num: usize) -> (b: Self)
        ensures
            b == (SolverBuilder { pop_num, ..self }),
    {
        SolverBuilder { pop_num, ..self }
    }

    /// Asks for a front of at most `limit` members. Only a problem with
    /// several objectives can have one.
    pub fn pareto_limit(self, limit: usize) -> (b: Self)
        ensures
            b == (SolverBuilder { pareto_limit: Some(limit), ..self }),
    {
        SolverBuilder { pareto_limit: Some(limit), ..self }
    }

    /// Sets where the seed comes from.
    pub fn seed(self, seed: SeedOpt) -> (b: Self)
        ensures
            b == (SolverBuilder { seed, ..self }),
    {
        SolverBuilder { seed, ..self }
    }

    /// Sets how many individuals may be sampled in all while the pool is
    /// collected.
    pub fn attempts(self, attempts: u64) -> (b: Self)
        ensures
            b == (SolverBuilder { attempts, ..self }),
    {
        SolverBuilder { attempts, ..self }
    }

    /// Sets where the initial pool comes from.
    pub fn init_pool(self, pool: Pool) -> (b: Self)
        ensures
            b == (SolverBuilder { pool, ..self }),
    {
        SolverBuilder { pool, ..self }
    }

    /// Replaces the sampler of the initial pool.
    pub fn sampler<S2>(self, sampler: S2) -> (b: SolverBuilder<F, A, S2, V, T, C, R>)
        ensures
            b.sampler == sampler,
            b.func == self.func,
            b.algorithm == self.algorithm,
            b.pop_num == self.pop_num,
            b.pareto_limit == self.pareto_limit,
            b.seed == self.seed,
            b.pool == self.pool,
            b.filter == self.filter,
            b.attempts == self.attempts,
            b.task == self.task,
            b.callback == self.callback,
            b.record == self.record,
    {
        SolverBuilder {
            func: self.func,
            algorithm: self.algorithm,
            pop_num: self.pop_num,
            pareto_limit: self.pareto_limit,
            seed: self.seed,
            pool: self.pool,
            sampler,
            filter: self.filter,
            attempts: self.attempts,
            task: self.task,
            callback: self.callback,
            record: self.record,
        }
    }

    /// Replaces the validity predicate of the initial pool.
    pub fn filter<V2>(self, filter: V2) -> (b: SolverBuilder<F, A, S, V2, T, C, R>)
        ensures
            b.filter == filter,
            b.attempts == self.attempts,
            b.func == self.func,
            b.algorithm == self.algorithm,
            b.pop_num == self.pop_num,
            b.pareto_limit == self.pareto_limit,
            b.seed == self.seed,
            b.pool == self.pool,
            b.sampler == self.sampler,
            b.task == self.task,
            b.callback == self.callback,
            b.record == self.record,
    {
        SolverBuilder {
            func: self.func,
            algorithm: self.algorithm,
            pop_num: self.pop_num,
            pareto_limit: self.pareto_limit,
            seed: self.seed,
            pool: self.pool,
            sampler: self.sampler,
            filter,
            attempts: self.attempts,
            task: self.task,
            callback: self.callback,
            record: self.record,
        }
    }

    /// Replaces the termination condition.
    pub fn task<T2>(self, task: T2) -> (b: SolverBuilder<F, A, S, V, T2, C, R>)
        ensures
            b.task == task,
            b.func == self.func,
            b.algorithm == self.algorithm,
            b.pop_num == self.pop_num,
            b.pareto_limit == self.pareto_limit,
            b.seed == self.seed,
            b.pool == self.pool,
            b.sampler == self.sampler,
            b.filter == self.filter,
            b.attempts == self.attempts,
            b.callback == self.callback,
            b.record == self.record,
    {
        SolverBuilder {
            func: self.func,
            algorithm: self.algorithm,
            pop_num: self.pop_num,
            pareto_limit: self.pareto_limit,
            seed: self.seed,
            pool: self.pool,
            sampler: self.sampler,
            filter: self.filter,
            attempts: self.attempts,
            task,
            callback: self.callback,
            record: self.record,
        }
    }

    /// Replaces the callback.
    pub fn callback<C2>(self, callback: C2) -> (b: SolverBuilder<F, A, S, V, T, C2, R>)
        ensures
            b.callback == callback,
            b.func == self.func,
            b.algorithm == self.algorithm,
            b.pop_num == self.pop_num,
            b.pareto_limit == self.pareto_limit,
            b.seed == self.seed,
            b.pool == self.pool,
            b.sampler == self.sampler,
            b.filter == self.filter,
            b.attempts == self.attempts,
            b.task == self.task,
            b.record == self.record,
    {
        SolverBuilder {
            func: self.func,
            algorithm: self.algorithm,
            pop_num: self.pop_num,
            pareto_limit: self.pareto_limit,
            seed: self.seed,
            pool: self.pool,
            sampler: self.sampler,
            filter: self.filter,
            attempts: self.attempts,
            task: self.task,
            callback,
            record: self.record,
        }
    }

    /// Replaces the record function.
    pub fn record<R2>(self, record: R2) -> (b: SolverBuilder<F, A, S, V, T, C, R2>)
        ensures
            b.record == record,
            b.func == self.func,
            b.algorithm == self.algorithm,
            b.pop_num == self.pop_num,
            b.pareto_limit == self.pareto_limit,
            b.seed == self.seed,
            b.pool == self.pool,
            b.sampler == self.sampler,
            b.filter == self.filter,
            b.attempts == self.attempts,
            b.task == self.task,
            b.callback == self.callback,
    {
        SolverBuilder {
            func: self.func,
            algorithm: self.algorithm,
            pop_num: self.pop_num,
            pareto_limit: self.pareto_limit,
            seed: self.seed,
            pool: self.pool,
            sampler: self.sampler,
            filter: self.filter,
            attempts: self.attempts,
            task: self.task,
            callback: self.callback,
            record,
        }
    }
}

impl<F, A, S, V, T, C, R, H> SolverBuilder<F, A, S, V, T, C, R> where
    F: ObjFunc,
    A: Algorithm<F>,
    S: Fn(usize, i64, i64, u64) -> i64,
    V: Fn(&Vec<i64>) -> bool,
    T: Fn(&Ctx<F>) -> bool,
    C: Fn(&Ctx<F>),
    R: Fn(&Ctx<F>) -> H,
 {
    /// The strategy is ready and every function of the configuration
    /// accepts whatever the engine may hand it.
    pub open spec fn ready(&self) -> bool {
        &&& self.algorithm.ready()
        &&& forall|s: usize, lo: i64, hi: i64, w: u64|
            call_requires(self.sampler, (s, lo, hi, w))
        &&& forall|xs: &Vec<i64>|
            within(xs@, self.func.spec_bound()) ==> call_requires(self.filter, (xs,))
        &&& forall|c: &Ctx<F>| c.wf() ==> call_requires(self.task, (c,))
        &&& forall|c: &Ctx<F>| c.wf() ==> call_requires(self.callback, (c,))
        &&& forall|c: &Ctx<F>| c.wf() ==> call_requires(self.record, (c,))
    }

    /// The fault of this configuration, if it has one.
    pub open spec fn fault(&self) -> Option<ConfigError> {
        config_fault(
            self.func.spec_bound(),
            self.func.spec_arity() as nat,
            self.pareto_limit,
            self.pop_num,
            self.pool,
        )
    }

    /// Whether a run of this configuration is reproducible: the strategy
    /// follows its model, the termination condition is a function of the
    /// state, and a sampled pool comes from a sampler and a validity
    /// predicate that are functions.
    pub open spec fn reproducible(&self) -> bool {
        &&& self.algorithm.lawful()
        &&& repeatable(self.task)
        &&& self.pool is Sampled ==> single_valued(self.sampler) && decisive(self.filter)
    }

    /// The front limit that a run of this configuration is started with.
    pub open spec fn limit(&self) -> nat {
        match self.pareto_limit {
            Some(limit) => limit as nat,
            None => DEFAULT_PARETO_LIMIT as nat,
        }
    }

    /// The state in which a run of this configuration from `seed` ends.
    pub open spec fn outcome(&self, seed: u64) -> CtxView {
        let (start, rng) = self.outset(seed);
        ran(self.algorithm, start, self.func, rng, self.task).1
    }

    /// The history that a run of this configuration from `seed` records.
    pub open spec fn history(&self, seed: u64) -> Seq<H> {
        let (start, rng) = self.outset(seed);
        logged(self.algorithm, start, self.func, rng, self.task, self.record)
    }

    /// The state and the random source with which the generation loop of a
    /// run from `seed` begins.
    pub open spec fn outset(&self, seed: u64) -> (CtxView, RngView) {
        let bound = self.func.spec_bound();
        let (pool, rng) = match self.pool {
            Pool::Ready(ready) => (rows(ready@), RngView { seed, drawn: 0 }),
            Pool::Sampled => {
                let (pool, rng) = collected(
                    bound,
                    self.pop_num as nat,
                    self.sampler,
                    self.filter,
                    RngView { seed, drawn: 0 },
                    Seq::empty(),
                    self.attempts as nat,
                );
                (pool->0, rng)
            },
        };
        (started(self.func, self.limit(), pool), rng)
    }

    /// `solver` is a result of this configuration: it reports the seed it
    /// ran from, which is the configured seed if there is one, and it ended
    /// in the state that is the outcome of that seed.
    pub open spec fn yields(&self, solver: Solver<F, H>) -> bool {
        &&& self.seed matches SeedOpt::Seed(seed) ==> solver.spec_seed() == seed
        &&& solver.spec_ctx()@ == self.outcome(solver.spec_seed())
        &&& steady(self.record) ==> solver.spec_report() == self.history(solver.spec_seed())
    }

    /// Determinism: two results of one configuration with a fixed seed have
    /// ended in the same state.
    pub proof fn lemma_same_seed_same_outcome(&self, a: Solver<F, H>, b: Solver<F, H>)
        requires
            self.seed is Seed,
            self.yields(a),
            self.yields(b),
        ensures
            a.spec_seed() == b.spec_seed(),
            a.spec_ctx()@ == b.spec_ctx()@,
            steady(self.record) ==> a.spec_report() == b.spec_report(),
    {
    }

    /// Replay: a result of the same configuration with the seed that an
    /// earlier result reports has ended in the state of the earlier one.
    pub proof fn lemma_reported_seed_replays(
        &self,
        first: Solver<F, H>,
        replay: SolverBuilder<F, A, S, V, T, C, R>,
        again: Solver<F, H>,
    )
        requires
            self.yields(first),
            replay == (SolverBuilder { seed: SeedOpt::Seed(first.spec_seed()), ..*self }),
            replay.yields(again),
        ensures
            again.spec_seed() == first.spec_seed(),
            again.spec_ctx()@ == first.spec_ctx()@,
            steady(self.record) ==> again.spec_report() == first.spec_report(),
    {
    }

    /// Validates the configuration, builds the random source and the
    /// context, lets the strategy set itself up, and runs the generation
    /// loop to its end.
    pub fn solve(self) -> (out: Result<Solver<F, H>, ConfigError>)
        requires
            self.ready(),
        ensures
            match out {
                Ok(solver) => {
                    &&& self.fault() is None
                    &&& solver.wf()
                    &&& solver.spec_ctx().spec_func() == self.func
                    &&& solver.spec_ctx()@.pool.len() == self.pop_num
                    &&& solver.spec_ctx()@.single == (self.func.spec_arity() == 1)
                    &&& solver.spec_ctx()@.limit == if self.func.spec_arity() == 1 {
                        1
                    } else {
                        self.limit()
                    }
                    &&& self.reproducible() ==> self.yields(solver)
                    &&& self.pool matches Pool::Ready(ready) ==> solver.spec_ctx()@.no_worse_than(
                        started(self.func, self.limit(), rows(ready@)),
                    )
                    &&& self.seed matches SeedOpt::Seed(seed) ==> solver.spec_seed() == seed
                    &&& call_ensures(self.task, (&solver.spec_ctx(),), true)
                        || solver.spec_ctx()@.gen == u64::MAX
                    &&& solver.spec_report().len() == solver.spec_ctx()@.gen
                },
                Err(e) => if e == ConfigError::PoolExhausted {
                    self.fault() is None && self.pool is Sampled && (!accepts_all(self.filter)
                        || self.attempts < self.pop_num)
                } else {
                    self.fault() == Some(e)
                },
            },
            self.seed matches SeedOpt::Seed(seed) ==> (self.fault() is None && self.pool is Sampled
                && single_valued(self.sampler) && decisive(self.filter) ==> (out is Err <==> collected(
                self.func.spec_bound(),
                self.pop_num as nat,
                self.sampler,
                self.filter,
                RngView { seed, drawn: 0 },
                Seq::empty(),
                self.attempts as nat,
            ).0 is None)),
    {
        let SolverBuilder {
            func,
            algorithm,
            pop_num,
            pareto_limit,
            seed,
            pool,
            sampler,
            filter,
            attempts,
            task,
            callback,
            record,
        } = self;
        let mut algorithm = algorithm;
        let bound = func.bound();
        match find_fault(&bound, func.arity(), pareto_limit, pop_num, &pool) {
            Some(e) => {
                return Err(e);
            },
            None => {},
        }
        let mut rng = Rng::new(seed);
        let pool = match pool {
            Pool::Ready(ready) => ready,
            Pool::Sampled => match draw_pool(&bound, pop_num, &mut rng, &sampler, &filter, attempts) {
                Some(drawn) => drawn,
                None => {
                    return Err(ConfigError::PoolExhausted);
                },
            },
        };
        let limit = match pareto_limit {
            Some(limit) => limit,
            None => DEFAULT_PARETO_LIMIT,
        };
        let mut ctx = Ctx::new(func, limit, pool);
        let ghost start = ctx@;
        algorithm.init(&mut ctx, &mut rng);
        let ghost ready = ctx@;
        let report = run(&mut ctx, &mut rng, &mut algorithm, &task, &callback, &record);
        proof {
            lemma_no_worse_chain(start, ready, ctx@);
        }
        Ok(Solver { ctx, seed: rng.seed(), report })
    }
}

impl<F: ObjFunc> Solver<F, u64> {
    /// Starts a configuration from a strategy's settings and an objective,
    /// with every other setting at its default: the population size that the
    /// settings suggest, no front limit asked for, a seed from the operating
    /// system, a uniformly sampled pool with as many attempts as can be
    /// counted, a stop at generation 200, no callback, and a history of
    /// generation numbers. With a lawful strategy such a configuration is
    /// reproducible.
    pub fn build<St: Setting<F>>(setting: St, func: F) -> (b: SolverBuilder<
        F,
        St::Algorithm,
        impl Fn(usize, i64, i64, u64) -> i64,
        impl Fn(&Vec<i64>) -> bool,
        impl Fn(&Ctx<F>) -> bool,
        impl Fn(&Ctx<F>),
        impl Fn(&Ctx<F>) -> u64,
    >)
        ensures
            b.ready(),
            b.func == func,
            b.algorithm == setting.spec_algorithm(),
            b.pop_num == St::POP_NUM,
            b.pareto_limit is None,
            b.seed == SeedOpt::Auto,
            b.pool is Sampled,
            b.attempts == u64::MAX,
            accepts_all(b.filter),
            forall|c: &Ctx<F>, stop: bool|
                call_ensures(b.task, (c,), stop) ==> stop == (c@.gen >= DEFAULT_MAX_GEN),
            forall|c: &Ctx<F>, gen: u64| call_ensures(b.record, (c,), gen) ==> gen == c@.gen,
            forall|s: usize, lo: i64, hi: i64, w: u64, v: i64|
                call_ensures(b.sampler, (s, lo, hi, w), v) && lo <= hi ==> v == fold_into(
                    w,
                    lo,
                    hi,
                ),
            b.algorithm.lawful() ==> b.reproducible(),
            steady(b.record),
    {
        let task = |ctx: &Ctx<F>| -> (stop: bool)
            ensures
                stop == (ctx@.gen >= DEFAULT_MAX_GEN),
            { default_task(ctx) };
        let callback = |ctx: &Ctx<F>| { no_callback(ctx) };
        let record = |ctx: &Ctx<F>| -> (gen: u64)
            ensures
                gen == ctx@.gen,
            { record_gen(ctx) };
        SolverBuilder {
            func,
            algorithm: setting.algorithm(),
            pop_num: St::default_pop(),
            pareto_limit: None,
            seed: SeedOpt::Auto,
            pool: Pool::Sampled,
            sampler: uniform_pool,
            filter: accept_all,
            attempts: u64::MAX,
            task,
            callback,
            record,
        }
    }
}

} // verus!
