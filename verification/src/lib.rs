//! The simulation core of a side-scrolling runner game for a 128 x 64
//! monochrome display: a runner that jumps, obstacles that scroll in from the
//! right, a ground strip that wraps, and the frame-by-frame rules that tie them
//! together. Nothing here touches hardware; the embedding program feeds in the
//! button state and draws what the simulation reports.

pub mod collision;
pub mod game;
pub mod geometry;
pub mod queue;
pub mod rng;
pub mod sprites;
