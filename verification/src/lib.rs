//! Core simulation of a player-directed light-beam mechanic: a bounce tracer
//! over a static collision scene, a frame-to-frame diff engine that turns the
//! traced path into exactly-once hit/unhit events, a pooled segment
//! presentation cache, and the puzzle layer (light sensors charging a meter
//! and crystal groups toggled by sensor events).
//!
//! All geometry is exact: positions are integer coordinates, beam directions
//! are the eight compass directions, and colliders are axis-aligned boxes, so
//! every contract below is a precise statement about the returned values.
//!
//! The central guarantees, each a proved statement in its module:
//! - tracing is a pure function of the source's stored parameters and the
//!   scene ([`beam::lemma_trace_deterministic`]), its contact count respects
//!   the color's bounce allowance and the hard segment cap
//!   ([`beam::lemma_bounce_cap`]), its cumulative times never decrease and
//!   are strictly increasing whenever the bounce chain advances
//!   ([`beam::lemma_monotonic_cumulative_time`]), and a growing travel
//!   budget only extends the path
//!   ([`beam::lemma_growing_budget_extends_path`]);
//! - the frame diff is silent under a stable world
//!   ([`segments::lemma_diff_idempotent`]) and otherwise emits each
//!   hit/unhit transition exactly once, by construction of
//!   [`segments::spec_diff`];
//! - a light sensor fires exactly one toggle event per latch flip, however
//!   long its meter is held at a bound
//!   ([`sensor::lemma_toggles_equal_latch_flips`]);
//! - a level reset restores every crystal to its spawn state, whatever was
//!   toggled in between (the contract of [`crystal::reset_crystals`]).

pub mod beam;
pub mod color;
pub mod crystal;
pub mod geom;
pub mod inventory;
pub mod scene;
pub mod segments;
pub mod sensor;
