//! The generation loop and its model.
use crate::algorithm::Algorithm;
use crate::ctx::lemma_no_worse_chain;
use crate::ctx::Ctx;
use crate::ctx::CtxView;
use crate::obj::ObjFunc;
use crate::random::Rng;
use crate::random::RngView;
use vstd::prelude::*;

verus! {

/// The termination condition is a function: what it answers depends on the
/// state of the context and on the objective alone.
pub open spec fn repeatable<F: ObjFunc, T: Fn(&Ctx<F>) -> bool>(task: T) -> bool {
    forall|c1: &Ctx<F>, c2: &Ctx<F>, b1: bool, b2: bool|
        c1@ == c2@ && c1.spec_func() == c2.spec_func() && #[trigger] call_ensures(task, (c1,), b1)
            && #[trigger] call_ensures(task, (c2,), b2) ==> b1 == b2
}

/// What the termination condition answers, as a function of the state.
pub open spec fn stops<F: ObjFunc, T: Fn(&Ctx<F>) -> bool>(task: T, ctx: CtxView, func: F) -> bool {
    let (c, b) = choose|c: &Ctx<F>, b: bool|
        c@ == ctx && c.spec_func() == func && #[trigger] call_ensures(task, (c,), b);
    b
}

/// An answer of a repeatable termination condition is what `stops` says.
pub proof fn lemma_stops<F: ObjFunc, T: Fn(&Ctx<F>) -> bool>(task: T, ctx: &Ctx<F>, stop: bool)
    requires
        repeatable(task),
        call_ensures(task, (ctx,), stop),
    ensures
        stop == stops(task, ctx@, ctx.spec_func()),
{
    let (c, b) = choose|c: &Ctx<F>, b: bool|
        c@ == ctx@ && c.spec_func() == ctx.spec_func() && #[trigger] call_ensures(task, (c,), b);
    assert(b == stop);
}

/// The model of the generation loop: from a state on, generations are run
/// until the termination condition says stop or the counter can count no
/// further.
pub open spec fn ran<F: ObjFunc, A: Algorithm<F>, T: Fn(&Ctx<F>) -> bool>(
    algorithm: A,
    ctx: CtxView,
    func: F,
    rng: RngView,
    task: T,
) -> (A, CtxView, RngView)
    decreases u64::MAX - ctx.gen,
{
    if stops(task, ctx, func) || ctx.gen == u64::MAX {
        (algorithm, ctx, rng)
    } else {
        let next = CtxView { gen: (ctx.gen + 1) as u64, ..ctx };
        let (a, c, r) = algorithm.spec_generation(next, func, rng);
        if c.gen == next.gen {
            ran(a, c, func, r, task)
        } else {
            (algorithm, ctx, rng)
        }
    }
}

/// The record function is a function: what it returns depends on the state
/// of the context and on the objective alone.
pub open spec fn steady<F: ObjFunc, H, R: Fn(&Ctx<F>) -> H>(record: R) -> bool {
    forall|c1: &Ctx<F>, c2: &Ctx<F>, h1: H, h2: H|
        c1@ == c2@ && c1.spec_func() == c2.spec_func() && #[trigger] call_ensures(
            record,
            (c1,),
            h1,
        ) && #[trigger] call_ensures(record, (c2,), h2) ==> h1 == h2
}

/// What the record function returns, as a function of the state.
pub open spec fn noted<F: ObjFunc, H, R: Fn(&Ctx<F>) -> H>(record: R, ctx: CtxView, func: F) -> H {
    let (c, h) = choose|c: &Ctx<F>, h: H|
        c@ == ctx && c.spec_func() == func && #[trigger] call_ensures(record, (c,), h);
    h
}

/// An entry made by a steady record function is what `noted` says.
pub proof fn lemma_noted<F: ObjFunc, H, R: Fn(&Ctx<F>) -> H>(record: R, ctx: &Ctx<F>, entry: H)
    requires
        steady(record),
        call_ensures(record, (ctx,), entry),
    ensures
        entry == noted(record, ctx@, ctx.spec_func()),
{
    let (c, h) = choose|c: &Ctx<F>, h: H|
        c@ == ctx@ && c.spec_func() == ctx.spec_func() && #[trigger] call_ensures(record, (c,), h);
    assert(h == entry);
}

/// The model of the history: the entries that the generation loop records
/// from a state on, one after each generation.
pub open spec fn logged<F: ObjFunc, A: Algorithm<F>, T: Fn(&Ctx<F>) -> bool, H, R: Fn(&Ctx<F>) -> H>(
    algorithm: A,
    ctx: CtxView,
    func: F,
    rng: RngView,
    task: T,
    record: R,
) -> Seq<H>
    decreases u64::MAX - ctx.gen,
{
    if stops(task, ctx, func) || ctx.gen == u64::MAX {
        Seq::empty()
    } else {
        let next = CtxView { gen: (ctx.gen + 1) as u64, ..ctx };
        let (a, c, r) = algorithm.spec_generation(next, func, rng);
        if c.gen == next.gen {
            seq![noted(record, c, func)] + logged(a, c, func, r, task, record)
        } else {
            Seq::empty()
        }
    }
}

/// `entry` is what the record function returned for some valid context of
/// the run that `start` began, at generation `gen`.
pub open spec fn recorded<F: ObjFunc, H, R: Fn(&Ctx<F>) -> H>(
    record: R,
    start: Ctx<F>,
    gen: int,
    entry: H,
) -> bool {
    exists|c: Ctx<F>|
        c.wf() && c.continues(&start) && c@.gen == gen && #[trigger] call_ensures(
            record,
            (&c,),
            entry,
        )
}

/// The generation loop. Each round invokes the callback, then asks the
/// termination condition; unless it says stop, the generation counter
/// advances, the strategy runs one generation and the record function adds
/// an entry to the history. The loop also stops when the counter can count
/// no further. Returns the history.
pub fn run<F, A, T, C, R, H>(
    ctx: &mut Ctx<F>,
    rng: &mut Rng,
    algorithm: &mut A,
    task: &T,
    callback: &C,
    record: &R,
) -> (report: Vec<H>) where
    F: ObjFunc,
    A: Algorithm<F>,
    T: Fn(&Ctx<F>) -> bool,
    C: Fn(&Ctx<F>),
    R: Fn(&Ctx<F>) -> H,

    requires
        old(ctx).wf(),
        old(rng).wf(),
        old(algorithm).ready(),
        forall|c: &Ctx<F>| c.wf() ==> call_requires(*task, (c,)),
        forall|c: &Ctx<F>| c.wf() ==> call_requires(*callback, (c,)),
        forall|c: &Ctx<F>| c.wf() ==> call_requires(*record, (c,)),
    ensures
        final(ctx).wf(),
        final(rng).wf(),
        final(algorithm).ready(),
        final(ctx).continues(old(ctx)),
        final(ctx)@.no_worse_than(old(ctx)@),
        final(rng)@.seed == old(rng)@.seed,
        call_ensures(*task, (final(ctx),), true) || final(ctx)@.gen == u64::MAX,
        final(ctx)@.gen == old(ctx)@.gen + report@.len(),
        forall|k: int|
            0 <= k < report@.len() ==> recorded(
                *record,
                *old(ctx),
                old(ctx)@.gen + k + 1,
                #[trigger] report@[k],
            ),
        old(algorithm).lawful() && repeatable(*task) ==> (
            *final(algorithm),
            final(ctx)@,
            final(rng)@,
        ) == ran(*old(algorithm), old(ctx)@, old(ctx).spec_func(), old(rng)@, *task),
        old(algorithm).lawful() && repeatable(*task) && steady(*record) ==> report@ == logged(
            *old(algorithm),
            old(ctx)@,
            old(ctx).spec_func(),
            old(rng)@,
            *task,
            *record,
        ),
{
    let mut report: Vec<H> = Vec::new();
    let mut done = false;
    let ghost func = ctx.spec_func();
    let ghost goal = ran(*algorithm, ctx@, func, rng@, *task);
    let ghost modelled = algorithm.lawful() && repeatable(*task);
    let ghost history = logged(*algorithm, ctx@, func, rng@, *task, *record);
    while !done
        invariant
            ctx.wf(),
            rng.wf(),
            algorithm.ready(),
            old(ctx).wf(),
            forall|c: &Ctx<F>| c.wf() ==> call_requires(*task, (c,)),
            forall|c: &Ctx<F>| c.wf() ==> call_requires(*callback, (c,)),
            forall|c: &Ctx<F>| c.wf() ==> call_requires(*record, (c,)),
            ctx.continues(old(ctx)),
            ctx@.no_worse_than(old(ctx)@),
            rng@.seed == old(rng)@.seed,
            done ==> call_ensures(*task, (&*ctx,), true) || ctx@.gen == u64::MAX,
            ctx@.gen == old(ctx)@.gen + report@.len(),
            forall|k: int|
                0 <= k < report@.len() ==> recorded(
                    *record,
                    *old(ctx),
                    old(ctx)@.gen + k + 1,
                    #[trigger] report@[k],
                ),
            func == ctx.spec_func(),
            modelled == (old(algorithm).lawful() && repeatable(*task)),
            goal == ran(*old(algorithm), old(ctx)@, func, old(rng)@, *task),
            modelled ==> algorithm.lawful(),
            modelled && done ==> (*algorithm, ctx@, rng@) == goal,
            modelled && !done ==> ran(*algorithm, ctx@, func, rng@, *task) == goal,
            history == logged(*old(algorithm), old(ctx)@, func, old(rng)@, *task, *record),
            modelled && steady(*record) && done ==> report@ == history,
            modelled && steady(*record) && !done ==> report@ + logged(
                *algorithm,
                ctx@,
                func,
                rng@,
                *task,
                *record,
            ) == history,
        decreases
                u64::MAX - ctx@.gen + if done {
                    0int
                } else {
                    1int
                },
    {
        callback(&*ctx);
        let stop = task(&*ctx);
        proof {
            if modelled {
                lemma_stops(*task, &*ctx, stop);
            }
        }
        if stop || ctx.gen() == u64::MAX {
            done = true;
            proof {
                if modelled && steady(*record) {
                    assert(report@ + Seq::<H>::empty() =~= report@);
                }
            }
        } else {
            let ghost rest = logged(*algorithm, ctx@, func, rng@, *task, *record);
            let ghost so_far = report@;
            let ghost before = ctx@;
            ctx.advance();
            let ghost mid = ctx@;
            proof {
                lemma_no_worse_chain(old(ctx)@, before, mid);
                assert(mid == CtxView { gen: (before.gen + 1) as u64, ..before });
            }
            algorithm.generation(ctx, rng);
            proof {
                lemma_no_worse_chain(old(ctx)@, mid, ctx@);
            }
            let entry = record(&*ctx);
            proof {
                assert(call_ensures(*record, (&*ctx,), entry));
                assert(recorded(*record, *old(ctx), old(ctx)@.gen + report@.len() + 1, entry));
            }
            report.push(entry);
            proof {
                if modelled && steady(*record) {
                    lemma_noted(*record, &*ctx, entry);
                    let tail = logged(*algorithm, ctx@, func, rng@, *task, *record);
                    assert(rest == seq![entry] + tail);
                    assert(report@ + tail =~= so_far + (seq![entry] + tail));
                }
            }
        }
    }
    report
}

} // verus!
