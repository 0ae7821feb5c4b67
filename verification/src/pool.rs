//! The initial pool: where it comes from and how it is sampled.
//!
//! A sampled pool consumes the random source in a fixed order: individual
//! by individual, and within an individual dimension by dimension, one raw
//! word per coordinate.
use crate::ctx::rows;
use crate::obj::clip;
use crate::obj::clip_to;
use crate::obj::valid_bound;
use crate::obj::within;
use crate::random::fold_into;
use crate::random::fold_word;
use crate::random::seeded_word;
use crate::random::Rng;
use crate::random::RngView;
use vstd::prelude::*;

verus! {

/// Where the initial pool comes from.
pub enum Pool {
    /// The engine samples it: every coordinate is what the sampler makes of
    /// one raw word, and an individual that the validity predicate turns
    /// away is drawn again.
    Sampled,
    /// The caller supplies it. It must have `pop_num` individuals with one
    /// coordinate per dimension; coordinates outside the bounds are
    /// projected into them.
    Ready(Vec<Vec<i64>>),
}

/// The default sampler: folds the raw word uniformly into `[lo, hi]`.
pub fn uniform_pool(s: usize, lo: i64, hi: i64, word: u64) -> (value: i64)
    ensures
        lo <= hi ==> value == fold_into(word, lo, hi),
        lo <= hi ==> lo <= value <= hi,
        lo > hi ==> value == lo,
{
    if lo > hi {
        lo
    } else {
        fold_word(word, lo, hi)
    }
}

/// The default validity predicate: every individual is valid.
pub fn accept_all(xs: &Vec<i64>) -> (valid: bool)
    ensures
        valid,
{
    true
}

/// `value` is what the sampler can make of `word` for dimension `s`,
/// projected into `[lo, hi]`.
pub open spec fn sampled<S: Fn(usize, i64, i64, u64) -> i64>(
    sampler: S,
    s: usize,
    lo: i64,
    hi: i64,
    word: u64,
    value: i64,
) -> bool {
    exists|raw: i64| #[trigger] call_ensures(sampler, (s, lo, hi, word), raw) && value == clip(raw, lo, hi)
}

/// Builds one individual from one raw word per dimension: coordinate `s` is
/// what the sampler makes of word `s`, projected into the bounds.
pub fn sample_row<S: Fn(usize, i64, i64, u64) -> i64>(
    bound: &Vec<(i64, i64)>,
    words: &Vec<u64>,
    sampler: &S,
) -> (row: Vec<i64>)
    requires
        words@.len() == bound@.len(),
        forall|s: usize, lo: i64, hi: i64, w: u64| call_requires(*sampler, (s, lo, hi, w)),
    ensures
        row@.len() == bound@.len(),
        forall|s: int|
            0 <= s < row@.len() ==> sampled(
                *sampler,
                s as usize,
                bound@[s].0,
                bound@[s].1,
                words@[s],
                #[trigger] row@[s],
            ),
        valid_bound(bound@) ==> within(row@, bound@),
        single_valued(*sampler) ==> forall|s: int|
            0 <= s < row@.len() ==> #[trigger] row@[s] == clip(
                made(*sampler, s as usize, bound@[s].0, bound@[s].1, words@[s]),
                bound@[s].0,
                bound@[s].1,
            ),
{
    let mut row: Vec<i64> = Vec::new();
    let mut s: usize = 0;
    while s < bound.len()
        invariant
            s <= bound.len(),
            words@.len() == bound@.len(),
            row@.len() == s,
            forall|s: usize, lo: i64, hi: i64, w: u64| call_requires(*sampler, (s, lo, hi, w)),
            forall|t: int|
                0 <= t < s ==> sampled(
                    *sampler,
                    t as usize,
                    bound@[t].0,
                    bound@[t].1,
                    words@[t],
                    #[trigger] row@[t],
                ),
            valid_bound(bound@) ==> forall|t: int|
                0 <= t < s ==> bound@[t].0 <= #[trigger] row@[t] <= bound@[t].1,
            single_valued(*sampler) ==> forall|t: int|
                0 <= t < s ==> #[trigger] row@[t] == clip(
                    made(*sampler, t as usize, bound@[t].0, bound@[t].1, words@[t]),
                    bound@[t].0,
                    bound@[t].1,
                ),
        decreases bound.len() - s,
    {
        let raw = sampler(s, bound[s].0, bound[s].1, words[s]);
        let value = clip_to(raw, bound[s].0, bound[s].1);
        proof {
            assert(call_ensures(*sampler, (s, bound@[s as int].0, bound@[s as int].1, words@[s as int]), raw));
            assert(sampled(
                *sampler,
                s,
                bound@[s as int].0,
                bound@[s as int].1,
                words@[s as int],
                value,
            ));
            if single_valued(*sampler) {
                lemma_made(
                    *sampler,
                    s,
                    bound@[s as int].0,
                    bound@[s as int].1,
                    words@[s as int],
                    raw,
                );
            }
        }
        row.push(value);
        s += 1;
    }
    row
}

/// The validity predicate never turns an individual away.
pub open spec fn accepts_all<V: Fn(&Vec<i64>) -> bool>(filter: V) -> bool {
    forall|xs: &Vec<i64>, valid: bool| call_ensures(filter, (xs,), valid) ==> valid
}

/// The sampler is a function: what it returns depends on its arguments
/// alone.
pub open spec fn single_valued<S: Fn(usize, i64, i64, u64) -> i64>(sampler: S) -> bool {
    forall|s: usize, lo: i64, hi: i64, w: u64, r1: i64, r2: i64|
        #[trigger] call_ensures(sampler, (s, lo, hi, w), r1) && #[trigger] call_ensures(
            sampler,
            (s, lo, hi, w),
            r2,
        ) ==> r1 == r2
}

/// What the sampler returns, as a function of its arguments.
pub open spec fn made<S: Fn(usize, i64, i64, u64) -> i64>(
    sampler: S,
    s: usize,
    lo: i64,
    hi: i64,
    word: u64,
) -> i64 {
    choose|raw: i64| call_ensures(sampler, (s, lo, hi, word), raw)
}

/// A result of a single-valued sampler is what `made` says.
pub proof fn lemma_made<S: Fn(usize, i64, i64, u64) -> i64>(
    sampler: S,
    s: usize,
    lo: i64,
    hi: i64,
    word: u64,
    raw: i64,
)
    requires
        single_valued(sampler),
        call_ensures(sampler, (s, lo, hi, word), raw),
    ensures
        raw == made(sampler, s, lo, hi, word),
{
}

/// The validity predicate is a function: what it answers depends on the
/// contents of the individual alone.
pub open spec fn decisive<V: Fn(&Vec<i64>) -> bool>(filter: V) -> bool {
    forall|x1: &Vec<i64>, x2: &Vec<i64>, b1: bool, b2: bool|
        x1@ == x2@ && #[trigger] call_ensures(filter, (x1,), b1) && #[trigger] call_ensures(
            filter,
            (x2,),
            b2,
        ) ==> b1 == b2
}

/// What the validity predicate answers, as a function of contents.
pub open spec fn valid<V: Fn(&Vec<i64>) -> bool>(filter: V, xs: Seq<i64>) -> bool {
    let (x, b) = choose|x: &Vec<i64>, b: bool| x@ == xs && #[trigger] call_ensures(filter, (x,), b);
    b
}

/// An answer of a decisive validity predicate is what `valid` says.
pub proof fn lemma_valid<V: Fn(&Vec<i64>) -> bool>(filter: V, xs: &Vec<i64>, answer: bool)
    requires
        decisive(filter),
        call_ensures(filter, (xs,), answer),
    ensures
        answer == valid(filter, xs@),
{
    let (x, b) = choose|x: &Vec<i64>, b: bool|
        x@ == xs@ && #[trigger] call_ensures(filter, (x,), b);
    assert(b == answer);
}

/// The individual that a single-valued sampler makes of the words at
/// positions `at`, `at + 1`, ... of a seed's stream: coordinate `s` comes
/// from the word at `at + s`.
pub open spec fn sampled_row<S: Fn(usize, i64, i64, u64) -> i64>(
    bound: Seq<(i64, i64)>,
    sampler: S,
    seed: u64,
    at: nat,
) -> Seq<i64> {
    Seq::new(
        bound.len(),
        |s: int|
            clip(
                made(sampler, s as usize, bound[s].0, bound[s].1, seeded_word(seed, at + s as nat)),
                bound[s].0,
                bound[s].1,
            ),
    )
}

/// The model of pool collection: while individuals are missing and
/// attempts are left, the next individual is sampled from the next words;
/// it joins the pool if it is valid and is dropped if not. Gives the pool,
/// if it was completed, and the source as it is left.
pub open spec fn collected<S: Fn(usize, i64, i64, u64) -> i64, V: Fn(&Vec<i64>) -> bool>(
    bound: Seq<(i64, i64)>,
    pop_num: nat,
    sampler: S,
    filter: V,
    rng: RngView,
    pool: Seq<Seq<i64>>,
    budget: nat,
) -> (Option<Seq<Seq<i64>>>, RngView)
    decreases budget,
{
    if pool.len() >= pop_num {
        (Some(pool), rng)
    } else if budget == 0 {
        (None, rng)
    } else {
        let row = sampled_row(bound, sampler, rng.seed, rng.drawn);
        let next = RngView { seed: rng.seed, drawn: rng.drawn + bound.len() };
        if valid(filter, row) {
            collected(bound, pop_num, sampler, filter, next, pool.push(row), (budget - 1) as nat)
        } else {
            collected(bound, pop_num, sampler, filter, next, pool, (budget - 1) as nat)
        }
    }
}

/// Collects an initial pool of `pop_num` valid individuals, drawing one
/// word per coordinate, individual by individual and dimension by
/// dimension. An individual that the validity predicate turns away is
/// discarded and drawn again, as long as attempts are left: `budget` is the
/// number of individuals that may be drawn in all. `None` when the attempts
/// run out first, which cannot happen with a predicate that accepts
/// everything and a budget of at least `pop_num`.
pub fn draw_pool<S: Fn(usize, i64, i64, u64) -> i64, V: Fn(&Vec<i64>) -> bool>(
    bound: &Vec<(i64, i64)>,
    pop_num: usize,
    rng: &mut Rng,
    sampler: &S,
    filter: &V,
    budget: u64,
) -> (out: Option<Vec<Vec<i64>>>)
    requires
        old(rng).wf(),
        valid_bound(bound@),
        forall|s: usize, lo: i64, hi: i64, w: u64| call_requires(*sampler, (s, lo, hi, w)),
        forall|xs: &Vec<i64>| within(xs@, bound@) ==> call_requires(*filter, (xs,)),
    ensures
        final(rng).wf(),
        final(rng)@.seed == old(rng)@.seed,
        accepts_all(*filter) && budget >= pop_num ==> out is Some,
        accepts_all(*filter) && budget >= pop_num ==> final(rng)@.drawn == old(rng)@.drawn + pop_num
            * bound@.len(),
        out matches Some(pool) ==> {
            &&& pool@.len() == pop_num
            &&& forall|i: int|
                0 <= i < pool@.len() ==> within((#[trigger] pool@[i])@, bound@) && call_ensures(
                    *filter,
                    (&pool@[i],),
                    true,
                )
        },
        single_valued(*sampler) && decisive(*filter) ==> (
            match out {
                Some(pool) => Some(rows(pool@)),
                None => None,
            },
            final(rng)@,
        ) == collected(
            bound@,
            pop_num as nat,
            *sampler,
            *filter,
            old(rng)@,
            Seq::empty(),
            budget as nat,
        ),
{
    let mut pool: Vec<Vec<i64>> = Vec::new();
    let ghost allowed = budget;
    let mut budget = budget;
    proof {
        assert(rows(pool@) =~= Seq::<Seq<i64>>::empty());
    }
    while pool.len() < pop_num && budget > 0
        invariant
            rng.wf(),
            rng@.seed == old(rng)@.seed,
            valid_bound(bound@),
            pool@.len() <= pop_num,
            forall|s: usize, lo: i64, hi: i64, w: u64| call_requires(*sampler, (s, lo, hi, w)),
            forall|xs: &Vec<i64>| within(xs@, bound@) ==> call_requires(*filter, (xs,)),
            accepts_all(*filter) ==> pool@.len() + budget == allowed,
            accepts_all(*filter) ==> rng@.drawn == old(rng)@.drawn + pool@.len() * bound@.len(),
            single_valued(*sampler) && decisive(*filter) ==> collected(
                bound@,
                pop_num as nat,
                *sampler,
                *filter,
                rng@,
                rows(pool@),
                budget as nat,
            ) == collected(
                bound@,
                pop_num as nat,
                *sampler,
                *filter,
                old(rng)@,
                Seq::empty(),
                allowed as nat,
            ),
            forall|i: int|
                0 <= i < pool@.len() ==> within((#[trigger] pool@[i])@, bound@) && call_ensures(
                    *filter,
                    (&pool@[i],),
                    true,
                ),
        decreases budget,
    {
        let ghost at = rng@;
        let ghost before = pool@;
        budget = budget - 1;
        let words = rng.words(bound.len());
        let row = sample_row(bound, &words, sampler);
        let valid = filter(&row);
        proof {
            if single_valued(*sampler) && decisive(*filter) {
                assert(row@ =~= sampled_row(bound@, *sampler, at.seed, at.drawn));
                lemma_valid(*filter, &row, valid);
            }
            let n = before.len() as int;
            let d = bound@.len() as int;
            assert((n + 1) * d == n * d + d) by (nonlinear_arith);
        }
        if valid {
            pool.push(row);
            proof {
                assert(rows(pool@) =~= rows(before).push(row@));
            }
        }
    }
    if pool.len() < pop_num {
        None
    } else {
        Some(pool)
    }
}

} // verus!
