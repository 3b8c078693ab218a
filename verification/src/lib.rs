//! Core logic of a "merge-ball" falling-disc puzzle game.
//!
//! Falling discs collide inside a cup; two touching discs of equal rank fuse
//! into a single disc of the next rank. The library holds the verified core:
//! the rank ladder, the collision classifier, the merge resolver, the
//! post-merge overlap corrector, the activity gate with its bounded
//! fast-forward scheduler, the score accumulator and the loss-state machine.
//! Rendering, input reading and the rigid-body physics engine are external
//! collaborators that drive this core through plain values: positions are
//! fixed-point integers (256 units per pixel) and body identities are arena
//! indices.

pub mod body;
pub mod classify;
pub mod consts;
pub mod cursor;
pub mod game;
pub mod geom;
pub mod merge;
pub mod overlap;
pub mod rank;
pub mod scheduler;
