//! A prisoner's-dilemma population simulation.
//!
//! A population of agents ("bugsters") wanders a bounded 2D arena. Each agent
//! plays one of two strategies, Cooperative or Greedy. Whenever an agent's
//! contact timer elapses it resolves every active contact with a neighbour:
//! a fixed payoff table keyed by the two strategies yields a signed health
//! delta, losses are clamped at the agent's current health, a repulsion
//! impulse is requested, and two per-strategy population totals are kept up
//! to date. An agent whose health reaches zero is removed for good. An
//! agent's render scale is recomputed from its health after every pass.
//!
//! The simulation itself is pure bookkeeping over plain integers: time is
//! counted in milliseconds, positions, speeds and scales in thousandths of a
//! world unit. The host owns the spatial world (physics, overlap queries,
//! rendering) and drives the simulation tick by tick: it feeds in elapsed
//! time and contact query results, and carries out the [`game::Action`]s the
//! simulation hands back (impulses, size changes, deregistrations, total
//! notifications).

pub mod bugster;
pub mod game;
pub mod rng;
pub mod sizing;
pub mod strategy;
