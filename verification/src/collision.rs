//! When the runner hits an obstacle.

use crate::geometry::{Point, Rectangle, Size};
use crate::rng::Rng;
use crate::sprites::obstacle::{Obstacle, Obstacles, Shape};
use crate::sprites::trex::Trex;
use crate::sprites::CACTUS_Y;
use vstd::prelude::*;

verus! {

/// The extents of the bitmaps that take part in collisions. The bitmaps
/// themselves belong to whoever draws them; the simulation needs their sizes.
#[derive(Debug, Clone, Copy, PartialEq, Eq, Structural)]
pub struct SpriteSheet {
    pub trex: Size,
    pub cactus1: Size,
    pub cactus2: Size,
    pub cactus3: Size,
}

impl SpriteSheet {
    /// The extent of the bitmap for `shape`.
    pub open spec fn extent(self, shape: Shape) -> Size {
        match shape {
            Shape::Cactus1 => self.cactus1,
            Shape::Cactus2 => self.cactus2,
            Shape::Cactus3 => self.cactus3,
        }
    }

    /// The box that the runner covers.
    pub open spec fn trex_box(self, trex: Trex) -> Rectangle {
        Rectangle { top_left: trex.position, size: self.trex }
    }

    /// The box that an obstacle covers.
    pub open spec fn obstacle_box(self, obstacle: Obstacle) -> Rectangle {
        Rectangle {
            top_left: Point { x: obstacle.x, y: CACTUS_Y },
            size: self.extent(obstacle.shape),
        }
    }

    /// The runner collides when its box shares a pixel with the box of at
    /// least one obstacle. Boxes that only abut share none.
    pub open spec fn collides(self, trex: Trex, obstacles: Seq<Obstacle>) -> bool {
        exists|i: int|
            0 <= i < obstacles.len() && self.trex_box(trex).overlaps(
                self.obstacle_box(#[trigger] obstacles[i]),
            )
    }

    /// The extent of the bitmap for `shape`.
    pub fn size_of(&self, shape: Shape) -> (size: Size)
        ensures
            size == self.extent(shape),
    {
        match shape {
            Shape::Cactus1 => self.cactus1,
            Shape::Cactus2 => self.cactus2,
            Shape::Cactus3 => self.cactus3,
        }
    }

    /// Tests the runner against every obstacle on its way, and stops at the
    /// first hit.
    pub fn check<R: Rng>(&self, trex: &Trex, obstacles: &Obstacles<R>) -> (hit: bool)
        ensures
            hit == self.collides(*trex, obstacles@),
    {
        let trex_box = trex.bounding_box(self.trex);
        let len = obstacles.len();
        let mut index: usize = 0;
        while index < len
            invariant
                index <= len,
                len == obstacles@.len(),
                trex_box == self.trex_box(*trex),
                forall|i: int|
                    0 <= i < index ==> !trex_box.overlaps(
                        self.obstacle_box(#[trigger] obstacles@[i]),
                    ),
            decreases len - index,
        {
            let obstacle = obstacles.get(index);
            let obstacle_box = obstacle.bounding_box(self.size_of(obstacle.shape));
            if trex_box.intersects(&obstacle_box) {
                return true;
            }
            index += 1;
        }
        false
    }
}

} // verus!
