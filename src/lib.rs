//! Authoritative simulation of a top-down arcade match server.
//!
//! Players rotate in place, charge and release snowballs, and bump into each
//! other, a ball and the static objects of a map; one of several game modes
//! turns what happens in each tick into points. All arithmetic is fixed
//! point: lengths are thousandths of a map unit, velocities thousandths of a
//! map unit per second, masses and fractions thousandths, durations ticks of
//! a 60 Hz clock (or nanoseconds for the match clock), rotations whole
//! degrees.
//!
//! - `geom`, `physics`, `collide`, `terrain`: vectors, the mass-weighted
//!   circle resolver and bounces off map objects;
//! - `model`, `mask`: map descriptors, physics settings, collision masks;
//! - `world`, `shot`, `sim`, `contact`: the world record, firing, motion and
//!   the collision passes of a tick;
//! - `rules`: the per-mode scoring rules;
//! - `timer`, `server`, `session`: the match clock, the tick, and the
//!   handling of client messages;
//! - `outbox`: the coalescing outbound channel of one client.

use vstd::prelude::*;

pub mod collide;
pub mod contact;
pub mod geom;
pub mod mask;
pub mod model;
pub mod outbox;
pub mod physics;
pub mod rules;
pub mod server;
pub mod session;
pub mod shot;
pub mod sim;
pub mod terrain;
pub mod text;
pub mod timer;
pub mod world;

verus! {

} // verus!
