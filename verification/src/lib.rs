//! Movement and collision resolution for a first-person maze walker.
//!
//! Positions, extents and displacements are fixed-point values: one world
//! unit is `SCALE` micro-units, held in an `i64`. Each frame runs a strict
//! three-stage pipeline: the intent resolver turns held keys and the current
//! orientation into a proposed position, the collision tester checks that
//! proposal against every static obstacle, and the motion committer either
//! commits the proposal or nudges the mover back toward where it stood.

pub mod fixed;
pub mod collision;
pub mod commit;
pub mod geom;
pub mod intent;
pub mod pipeline;
