//! The strategy interface: the plug-in that updates the population.
use crate::ctx::Ctx;
use crate::ctx::CtxView;
use crate::obj::ObjFunc;
use crate::random::Rng;
use crate::random::RngView;
use vstd::prelude::*;

verus! {

/// An update strategy. The engine calls `init` once before the first
/// generation and `generation` once per generation. A strategy changes the
/// context only through the context's own operations, and leaves the
/// generation counter alone: the engine owns it.
///
/// A strategy may come with a model: `spec_generation` says, as a function,
/// what one generation does to the strategy, the context and the random
/// source. A strategy that is `lawful` follows its model and does nothing in
/// `init`; a run with a lawful strategy is reproducible.
pub trait Algorithm<F: ObjFunc>: Sized {
    /// What the strategy needs to hold of itself between calls. Nothing,
    /// unless overridden.
    open spec fn ready(&self) -> bool {
        true
    }

    /// Whether the strategy follows its model. It does not, unless
    /// overridden.
    open spec fn lawful(&self) -> bool {
        false
    }

    /// The model of `generation`. Left open unless overridden.
    open spec fn spec_generation(&self, ctx: CtxView, func: F, rng: RngView) -> (
        Self,
        CtxView,
        RngView,
    ) {
        arbitrary()
    }

    /// One-time setup before the loop begins. Does nothing unless overridden.
    fn init(&mut self, ctx: &mut Ctx<F>, rng: &mut Rng)
        requires
            old(self).ready(),
            old(ctx).wf(),
            old(rng).wf(),
        ensures
            final(self).ready(),
            final(ctx).wf(),
            final(rng).wf(),
            final(ctx).continues(old(ctx)),
            final(ctx)@.no_worse_than(old(ctx)@),
            final(ctx)@.gen == old(ctx)@.gen,
            final(rng)@.seed == old(rng)@.seed,
            old(self).lawful() ==> final(self).lawful() && *final(self) == *old(self),
            old(self).lawful() ==> final(ctx)@ == old(ctx)@ && final(rng)@ == old(rng)@,
    {
    }

    /// One generation's worth of population update. On return the tracked
    /// best reflects the new population.
    fn generation(&mut self, ctx: &mut Ctx<F>, rng: &mut Rng)
        requires
            old(self).ready(),
            old(ctx).wf(),
            old(rng).wf(),
        ensures
            final(self).ready(),
            final(ctx).wf(),
            final(rng).wf(),
            final(ctx).continues(old(ctx)),
            final(ctx)@.no_worse_than(old(ctx)@),
            final(ctx)@.gen == old(ctx)@.gen,
            final(rng)@.seed == old(rng)@.seed,
            old(self).lawful() ==> final(self).lawful() && (*final(self), final(ctx)@, final(rng)@)
                == old(self).spec_generation(old(ctx)@, old(ctx).spec_func(), old(rng)@),
    ;
}

} // verus!
