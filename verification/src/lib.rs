//! A framework for population-based metaheuristic optimisation.
//!
//! Every scalar the framework touches, a coordinate or an objective value, is
//! an `i64` rank: the framework only ever compares, clamps and copies such
//! values, so any totally ordered domain can be embedded by an
//! order-preserving encoding. Arithmetic on decoded values is the business of
//! the strategy plug-in and of the objective function.
//!
//! A run is configured with a [`solver::SolverBuilder`] and started with
//! `solve`. The engine owns the population ([`ctx::Ctx`]), the tracked best
//! ([`pareto::Pareto`]), the generation counter and the random source
//! ([`random::Rng`]); the objective ([`obj::ObjFunc`]) and the strategy
//! ([`algorithm::Algorithm`]) plug in. Whatever a strategy does, every
//! individual stays inside the bounds, no member of the front dominates
//! another, and a tracked single best never gets worse. A run whose
//! plug-ins are functions is a function of its configuration and its seed.
pub mod algorithm;
pub mod ctx;
pub mod engine;
pub mod fa;
pub mod fitness;
pub mod obj;
pub mod pareto;
pub mod pool;
pub mod random;
pub mod solver;
