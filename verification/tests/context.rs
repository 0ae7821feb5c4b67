use metaheuristics_nature::ctx::Ctx;
use metaheuristics_nature::fitness::Fitness;
use metaheuristics_nature::obj::clip_row;
use metaheuristics_nature::obj::clip_to;
use metaheuristics_nature::obj::evaluate_all;
use metaheuristics_nature::obj::ObjFunc;
use metaheuristics_nature::random::Rng;
use metaheuristics_nature::random::SeedOpt;
use metaheuristics_nature::pool::accept_all;
use metaheuristics_nature::solver::bound_ordered;
use metaheuristics_nature::pool::draw_pool;
use metaheuristics_nature::solver::find_fault;
use metaheuristics_nature::solver::has_dim;
use metaheuristics_nature::pool::sample_row;
use metaheuristics_nature::pool::uniform_pool;
use metaheuristics_nature::solver::ConfigError;
use metaheuristics_nature::pool::Pool;
use metaheuristics_nature::solver::Setting;
use metaheuristics_nature::solver::Solver;
use metaheuristics_nature::solver::Task;
use metaheuristics_nature::algorithm::Algorithm;

/// Sum of absolute values, or, with two objectives, the pair
/// (sum of absolute values, distance of the first coordinate from 10).
struct Grid {
    bound: Vec<(i64, i64)>,
    arity: usize,
}

impl Grid {
    fn single() -> Self {
        Grid { bound: vec![(-10, 10), (0, 20)], arity: 1 }
    }

    fn double() -> Self {
        Grid { bound: vec![(-10, 10), (0, 20)], arity: 2 }
    }
}

impl ObjFunc for Grid {
    type Ys = Vec<i64>;
    type Product = i64;

    fn bound(&self) -> Vec<(i64, i64)> {
        self.bound.clone()
    }

    fn arity(&self) -> usize {
        self.arity
    }

    fn fitness(&self, xs: &Vec<i64>) -> Vec<i64> {
        let total: i64 = xs.iter().map(|v| v.abs()).sum();
        if self.arity == 1 {
            vec![total]
        } else {
            vec![total, (xs[0] - 10).abs()]
        }
    }

    fn result(&self, xs: &Vec<i64>) -> i64 {
        xs.iter().sum()
    }
}

/// A strategy that steps every coordinate one towards zero.
struct Descend;

impl Algorithm<Grid> for Descend {
    fn generation(&mut self, ctx: &mut Ctx<Grid>, _rng: &mut Rng) {
        for i in 0..ctx.pop_num() {
            let raw: Vec<i64> = ctx.individual(i).iter().map(|v| v - v.signum()).collect();
            let xs = ctx.project(&raw);
            let ys = ctx.func().fitness(&xs);
            ctx.assign(i, xs, ys);
        }
    }
}

impl Setting<Grid> for Descend {
    type Algorithm = Descend;

    fn algorithm(self) -> Descend {
        Descend
    }
}

#[test]
fn clip_projects_to_the_nearest_bound() {
    assert_eq!(clip_to(5, 0, 10), 5);
    assert_eq!(clip_to(-5, 0, 10), 0);
    assert_eq!(clip_to(15, 0, 10), 10);
    assert_eq!(clip_to(0, 0, 10), 0);
    assert_eq!(clip_to(10, 0, 10), 10);
    assert_eq!(clip_to(i64::MIN, -1, 1), -1);
    assert_eq!(clip_row(&vec![(0, 1), (5, 6)], &vec![9, 0]), vec![1, 5]);
}

#[test]
fn evaluate_all_keeps_order() {
    let grid = Grid::single();
    let out = evaluate_all(&grid, &vec![vec![1, 2], vec![-3, 0], vec![0, 0]]);
    assert_eq!(out, vec![vec![3], vec![3], vec![0]]);
    assert_eq!(evaluate_all(&grid, &vec![]), Vec::<Vec<i64>>::new());
}

#[test]
fn new_context_clamps_evaluates_and_finds_best() {
    let ctx = Ctx::new(Grid::single(), 20, vec![vec![-50, 50], vec![3, 4], vec![7, -7]]);
    assert_eq!(ctx.pop_num(), 3);
    assert_eq!(ctx.dim(), 2);
    assert_eq!(ctx.gen(), 0);
    assert_eq!(ctx.individual(0), &vec![-10, 20]);
    assert_eq!(ctx.individual(2), &vec![7, 0]);
    assert_eq!(ctx.fitness(0), &vec![30]);
    assert_eq!(ctx.fitness(1), &vec![7]);
    assert_eq!(ctx.fitness(2), &vec![7]);
    // Single objective: the first of two equal individuals stays the best.
    assert_eq!(ctx.best().front(), vec![(vec![3, 4], vec![7])]);
    assert!(ctx.best().single());
    assert_eq!(ctx.best().limit(), 1);
    assert_eq!(ctx.lb(0), -10);
    assert_eq!(ctx.ub(1), 20);
    assert_eq!(ctx.clamp(1, -4), 0);
    assert_eq!(ctx.clamp(0, -4), -4);
    assert_eq!(ctx.clamp(0, 11), 10);
    assert_eq!(ctx.project(&vec![99, -99]), vec![10, 0]);
    assert_eq!(ctx.func().arity(), 1);
}

#[test]
fn new_context_with_two_objectives_tracks_a_front() {
    let ctx = Ctx::new(Grid::double(), 2, vec![vec![10, 0], vec![0, 0], vec![5, 0], vec![5, 1]]);
    assert!(!ctx.best().single());
    assert_eq!(ctx.best().limit(), 2);
    // (10,0)->[10,0]; (0,0)->[0,10]; (5,0)->[5,5]; (5,1)->[6,5] is dominated.
    // The limit of two evicts the earliest member.
    assert_eq!(ctx.best().front(), vec![(vec![0, 0], vec![0, 10]), (vec![5, 0], vec![5, 5])]);
}

#[test]
fn assign_replaces_clamped_and_updates_best() {
    let mut ctx = Ctx::new(Grid::single(), 20, vec![vec![5, 5], vec![3, 4]]);
    ctx.assign(0, vec![-20, 1], vec![11]);
    assert_eq!(ctx.individual(0), &vec![-10, 1]);
    assert_eq!(ctx.fitness(0), &vec![11]);
    assert_eq!(ctx.individual(1), &vec![3, 4]);
    assert_eq!(ctx.best().front(), vec![(vec![3, 4], vec![7])]);
    ctx.assign(1, vec![1, 1], vec![2]);
    assert_eq!(ctx.best().front(), vec![(vec![1, 1], vec![2])]);
    // A worse replacement changes the pool and leaves the best alone.
    ctx.assign(1, vec![9, 9], vec![18]);
    assert_eq!(ctx.individual(1), &vec![9, 9]);
    assert_eq!(ctx.best().front(), vec![(vec![1, 1], vec![2])]);
    ctx.refresh_best();
    assert_eq!(ctx.best().front(), vec![(vec![1, 1], vec![2])]);
    assert_eq!(ctx.pop_num(), 2);
    assert_eq!(ctx.gen(), 0);
}

#[test]
fn bounds_and_dimensions_are_checked() {
    assert!(bound_ordered(&vec![(0, 0), (-1, 1)]));
    assert!(!bound_ordered(&vec![(0, 0), (1, -1)]));
    assert!(bound_ordered(&vec![]));
    assert!(has_dim(&vec![vec![1, 2], vec![3, 4]], 2));
    assert!(!has_dim(&vec![vec![1, 2], vec![3]], 2));
    assert!(has_dim(&vec![], 7));
}

#[test]
fn faults_come_in_order() {
    let good = vec![(0, 1), (0, 1)];
    let bad = vec![(0, 1), (2, 1)];
    let pool = Pool::Ready(vec![vec![0, 0], vec![1]]);
    assert_eq!(find_fault(&bad, 1, Some(3), 5, &pool), Some(ConfigError::InvertedBound));
    assert_eq!(find_fault(&good, 1, Some(3), 5, &pool), Some(ConfigError::ParetoLimit));
    assert_eq!(find_fault(&good, 2, Some(3), 5, &pool), Some(ConfigError::PoolSize));
    assert_eq!(find_fault(&good, 1, None, 2, &pool), Some(ConfigError::PoolDimension));
    assert_eq!(find_fault(&good, 1, None, 2, &Pool::Ready(vec![vec![0, 0], vec![1, 1]])), None);
    assert_eq!(find_fault(&good, 2, Some(0), 9, &Pool::Sampled), None);
}

#[test]
fn solve_refuses_inverted_bounds() {
    let grid = Grid { bound: vec![(1, 0)], arity: 1 };
    let out = Solver::build(Descend, grid).seed(SeedOpt::Seed(0)).solve();
    assert_eq!(out.err(), Some(ConfigError::InvertedBound));
}

#[test]
fn solve_refuses_front_limit_for_single_objective() {
    let out = Solver::build(Descend, Grid::single()).pareto_limit(5).solve();
    assert_eq!(out.err(), Some(ConfigError::ParetoLimit));
}

#[test]
fn solve_refuses_pool_of_wrong_size() {
    let out = Solver::build(Descend, Grid::single()).pop_num(3).init_pool(Pool::Ready(vec![vec![0, 0]])).solve();
    assert_eq!(out.err(), Some(ConfigError::PoolSize));
}

#[test]
fn solve_refuses_pool_of_wrong_dimension() {
    let out = Solver::build(Descend, Grid::single())
        .pop_num(2)
        .init_pool(Pool::Ready(vec![vec![0, 0], vec![0, 0, 0]]))
        .solve();
    assert_eq!(out.err(), Some(ConfigError::PoolDimension));
    assert_eq!(ConfigError::PoolDimension.message(), "pool dimension mismatched");
    assert_eq!(ConfigError::PoolSize.message(), "pool size mismatched");
}

#[test]
fn solve_with_ready_pool_descends_to_the_origin() {
    let s = Solver::build(Descend, Grid::single())
        .pop_num(2)
        .seed(SeedOpt::Seed(4))
        .init_pool(Pool::Ready(vec![vec![5, 9], vec![-3, 30]]))
        .task(|ctx: &Ctx<Grid>| Task::MinFit(0).reached(ctx))
        .solve()
        .unwrap();
    // The second individual starts at (-3, 20) after clamping.
    assert_eq!(s.generation(), 9);
    assert_eq!(s.best_parameters(), Some(&vec![0, 0]));
    assert_eq!(s.best_fitness(), Some(&vec![0]));
    assert_eq!(s.result(), Some(0));
    assert_eq!(s.seed(), 4);
    assert_eq!(s.report(), &[1, 2, 3, 4, 5, 6, 7, 8, 9]);
    assert_eq!(s.func().arity(), 1);
}

#[test]
fn callback_runs_once_per_round_before_the_task() {
    let rounds = std::cell::Cell::new(0u64);
    let s = Solver::build(Descend, Grid::single())
        .pop_num(1)
        .seed(SeedOpt::Seed(4))
        .task(|ctx: &Ctx<Grid>| Task::MaxGen(5).reached(ctx))
        .callback(|ctx: &Ctx<Grid>| {
            assert_eq!(ctx.gen(), rounds.get());
            rounds.set(rounds.get() + 1);
        })
        .solve()
        .unwrap();
    assert_eq!(s.generation(), 5);
    assert_eq!(rounds.get(), 6);
}

#[test]
fn multi_objective_front_respects_requested_limit() {
    let s = Solver::build(Descend, Grid::double())
        .pop_num(30)
        .pareto_limit(3)
        .seed(SeedOpt::Seed(8))
        .task(|ctx: &Ctx<Grid>| Task::MaxGen(5).reached(ctx))
        .solve()
        .unwrap();
    let front = s.pareto_front();
    assert!(front.len() <= 3);
    assert!(!front.is_empty());
    assert_eq!(s.ctx().best().limit(), 3);
}

#[test]
fn uniform_pool_folds_word_into_range() {
    assert_eq!(uniform_pool(0, 0, 9, 1234), 4);
    assert_eq!(uniform_pool(3, -5, 5, 22), -5);
    assert_eq!(uniform_pool(0, 7, 7, 99), 7);
    assert_eq!(uniform_pool(0, 8, 7, 99), 8);
    assert_eq!(uniform_pool(0, i64::MIN, i64::MAX, u64::MAX), i64::MAX);
    assert!(accept_all(&vec![1, 2, 3]));
}

#[test]
fn sample_row_clamps_what_the_sampler_returns() {
    let bound = vec![(0, 9), (-5, 5)];
    let row = sample_row(&bound, &vec![1234, 22], &uniform_pool);
    assert_eq!(row, vec![4, -5]);
    let wild = |s: usize, _lo: i64, _hi: i64, w: u64| w as i64 * if s == 0 { 1 } else { -1 };
    assert_eq!(sample_row(&bound, &vec![100, 100], &wild), vec![9, -5]);
}

#[test]
fn draw_pool_is_row_major_over_the_stream() {
    let bound = vec![(0, 9), (-5, 5), (100, 100)];
    let mut rng = Rng::new(SeedOpt::Seed(77));
    let mut twin = Rng::new(SeedOpt::Seed(77));
    let pool = draw_pool(&bound, 4, &mut rng, &uniform_pool, &accept_all, 4).unwrap();
    assert_eq!(pool.len(), 4);
    for row in &pool {
        let words = twin.words(3);
        assert_eq!(row, &vec![(words[0] % 10) as i64, -5 + (words[1] % 11) as i64, 100]);
    }
    assert_eq!(rng.word(), twin.word());
}

#[test]
fn draw_pool_retries_until_valid() {
    let bound = vec![(0, 9), (0, 9)];
    let mut rng = Rng::new(SeedOpt::Seed(5));
    let even = |xs: &Vec<i64>| (xs[0] + xs[1]) % 2 == 0;
    let pool = draw_pool(&bound, 25, &mut rng, &uniform_pool, &even, 1000).unwrap();
    assert_eq!(pool.len(), 25);
    for row in &pool {
        assert_eq!((row[0] + row[1]) % 2, 0);
        assert!(row.iter().all(|v| (0..=9).contains(v)));
    }
}

#[test]
fn solve_with_filter_and_sampler() {
    let s = Solver::build(Descend, Grid::single())
        .pop_num(6)
        .seed(SeedOpt::Seed(2))
        .sampler(|s: usize, lo: i64, hi: i64, w: u64| if s == 0 { lo } else { uniform_pool(s, lo, hi, w) })
        .filter(|xs: &Vec<i64>| xs[1] >= 10)
        .task(|ctx: &Ctx<Grid>| Task::MaxGen(0).reached(ctx))
        .solve()
        .unwrap();
    assert_eq!(s.generation(), 0);
    assert!(s.report().is_empty());
    for i in 0..6 {
        assert_eq!(s.ctx().individual(i)[0], -10);
        assert!(s.ctx().individual(i)[1] >= 10);
    }
}

#[test]
fn task_conditions() {
    let ctx = Ctx::new(Grid::single(), 20, vec![vec![1, 2]]);
    assert!(Task::MaxGen(0).reached(&ctx));
    assert!(!Task::MaxGen(1).reached(&ctx));
    assert!(Task::MinFit(3).reached(&ctx));
    assert!(!Task::MinFit(2).reached(&ctx));
    let empty = Ctx::new(Grid::single(), 20, vec![]);
    assert!(!Task::MinFit(i64::MAX).reached(&empty));
}

#[test]
fn draw_pool_gives_up_when_attempts_run_out() {
    let bound = vec![(0, 9), (0, 9)];
    let mut rng = Rng::new(SeedOpt::Seed(5));
    let mut twin = Rng::new(SeedOpt::Seed(5));
    let never = |_: &Vec<i64>| false;
    assert_eq!(draw_pool(&bound, 3, &mut rng, &uniform_pool, &never, 10), None);
    // Ten individuals of two coordinates were drawn and dropped.
    let _ = twin.words(20);
    assert_eq!(rng.word(), twin.word());
    // Too few attempts for the pool, whatever the predicate.
    assert_eq!(draw_pool(&bound, 3, &mut rng, &uniform_pool, &accept_all, 2), None);
    assert_eq!(draw_pool(&bound, 0, &mut rng, &uniform_pool, &never, 0), Some(vec![]));
}

#[test]
fn solve_reports_exhausted_pool() {
    let out = Solver::build(Descend, Grid::single())
        .pop_num(3)
        .attempts(50)
        .filter(|_: &Vec<i64>| false)
        .solve();
    assert_eq!(out.err(), Some(ConfigError::PoolExhausted));
    assert_eq!(ConfigError::PoolExhausted.message(), "no valid pool could be collected");
    assert_eq!(ConfigError::InvertedBound.message(), "lower bound should not exceed upper bound");
    assert_eq!(ConfigError::ParetoLimit.message(), "a single-objective problem has no front limit");
}

#[test]
fn sampled_pool_replays_with_filter() {
    let run = || {
        Solver::build(Descend, Grid::single())
            .pop_num(8)
            .seed(SeedOpt::Seed(21))
            .filter(|xs: &Vec<i64>| xs[0] % 2 == 0)
            .task(|ctx: &Ctx<Grid>| Task::MaxGen(3).reached(ctx))
            .record(|ctx: &Ctx<Grid>| (0..ctx.pop_num()).map(|i| ctx.individual(i).clone()).collect::<Vec<_>>())
            .solve()
            .unwrap()
    };
    let a = run();
    let b = run();
    assert_eq!(a.report(), b.report());
    assert_eq!(a.report().len(), 3);
    assert_eq!(a.pareto_front(), b.pareto_front());
}

#[test]
fn replace_leaves_best_until_refreshed() {
    let mut ctx = Ctx::new(Grid::single(), 20, vec![vec![5, 5], vec![3, 4]]);
    ctx.replace(0, vec![0, -1], vec![0]);
    ctx.replace(1, vec![99, 1], vec![11]);
    assert_eq!(ctx.individual(0), &vec![0, 0]);
    assert_eq!(ctx.individual(1), &vec![10, 1]);
    assert_eq!(ctx.fitness(0), &vec![0]);
    assert_eq!(ctx.best().front(), vec![(vec![3, 4], vec![7])]);
    ctx.refresh_best();
    assert_eq!(ctx.best().front(), vec![(vec![0, 0], vec![0])]);
}

#[test]
fn fitness_values_stand_for_objectives() {
    assert_eq!(7i64.objectives(), vec![7]);
    assert_eq!(i64::MIN.objectives(), vec![i64::MIN]);
    assert_eq!(vec![3i64, -1].objectives(), vec![3, -1]);
    assert_eq!(Vec::<i64>::new().objectives(), Vec::<i64>::new());
}

#[test]
fn defaults_of_a_fresh_configuration() {
    let s = Solver::build(Descend, Grid::double())
        .seed(SeedOpt::Seed(1))
        .task(|ctx: &Ctx<Grid>| Task::MaxGen(0).reached(ctx))
        .solve()
        .unwrap();
    assert_eq!(s.ctx().pop_num(), 200);
    assert_eq!(s.ctx().best().limit(), 20);
    assert!(!s.ctx().best().single());
    assert_eq!(s.generation(), 0);
    for i in 0..200 {
        let xs = s.ctx().individual(i);
        assert!((-10..=10).contains(&xs[0]) && (0..=20).contains(&xs[1]));
        assert_eq!(s.ctx().fitness(i), &Grid::double().fitness(xs));
    }
}

#[test]
fn degenerate_bounds_pin_every_coordinate() {
    let grid = Grid { bound: vec![(4, 4), (-2, -2)], arity: 1 };
    let s = Solver::build(Descend, grid)
        .pop_num(5)
        .seed(SeedOpt::Seed(1))
        .task(|ctx: &Ctx<Grid>| Task::MaxGen(4).reached(ctx))
        .solve()
        .unwrap();
    for i in 0..5 {
        assert_eq!(s.ctx().individual(i), &vec![4, -2]);
    }
    assert_eq!(s.best_fitness(), Some(&vec![6]));
}

#[test]
fn settings_that_say_nothing_suggest_the_general_population_size() {
    assert_eq!(<Descend as Setting<Grid>>::default_pop(), 200);
    assert_eq!(<Descend as Setting<Grid>>::POP_NUM, 200);
}
