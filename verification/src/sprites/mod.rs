//! The things that move on the screen, and the numbers that place them.

pub mod ground;
pub mod obstacle;
pub mod trex;

pub use self::ground::Ground;
pub use self::obstacle::{Obstacle, Obstacles, Shape};
pub use self::trex::{Trex, TrexState};

use vstd::prelude::*;

verus! {

/// How many obstacles can be on their way at once.
pub const BUFF_SIZE: usize = 4;

/// Width of the display in pixels.
pub const OLED_WIDTH: i32 = 128;

/// Length of the ground strip in pixels. The strip is drawn to tile: the
/// scroll offset wraps before the strip's right end comes into view, and the
/// seam cannot be seen.
pub const GROUND_X_LENGTH: i32 = 1200;

/// Row at which the ground strip is drawn.
pub const GROUND_Y: i32 = 54;

/// Scroll offset of the ground at the start of a session and after each wrap.
pub const GROUND_X_START: i32 = 0;

/// Column of the runner, which never changes: the world scrolls instead.
pub const TREX_X: i32 = 10;

/// Row of the runner while it stands on the ground.
pub const TREX_GROUND_Y: i32 = 29;

/// Highest row that the runner reaches in a jump.
pub const TREX_MIN_Y: i32 = 3;

/// Row at which every obstacle is drawn.
pub const CACTUS_Y: i32 = 35;

/// Change of the runner's row per frame while it rises.
pub const TREX_VELOCITY: i32 = -10;

/// Change of the runner's row per frame while it falls.
pub const GRAVITY: i32 = 6;

/// Change of each obstacle's column per frame.
pub const OBSTACLE_VELOCITY: i32 = -14;

/// Distance between the right edge of the display and a freshly spawned obstacle.
pub const OBSTACLE_GAP: i32 = 100;

} // verus!
