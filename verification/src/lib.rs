//! Simulation core of a rail-riding arcade game: a procedurally extended
//! branching track graph, an agent that advances along it point by point,
//! and player-controlled junction switching.
//!
//! Geometry is exact fixed-point integer arithmetic: one world unit is
//! `COORD_SCALE` ticks, and headings are integer multiples of a sixteenth
//! of a half turn (`N_HEADINGS` per full turn). The presentation layer
//! converts to floating point only when drawing.

pub mod geometry;
pub mod preset;
pub mod sim;
pub mod state;
pub mod track;
