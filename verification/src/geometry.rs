//! Pixel geometry: points, sizes and axis-aligned boxes.

use vstd::prelude::*;

verus! {

/// A pixel position on the screen. `x` grows to the right, `y` grows downwards.
#[derive(Debug, Clone, Copy, PartialEq, Eq, Structural)]
pub struct Point {
    pub x: i32,
    pub y: i32,
}

impl Point {
    pub fn new(x: i32, y: i32) -> (point: Self)
        ensures
            point == (Point { x, y }),
    {
        Point { x, y }
    }
}

/// The extent of a bitmap in pixels.
#[derive(Debug, Clone, Copy, PartialEq, Eq, Structural)]
pub struct Size {
    pub width: u32,
    pub height: u32,
}

impl Size {
    pub fn new(width: u32, height: u32) -> (size: Self)
        ensures
            size == (Size { width, height }),
    {
        Size { width, height }
    }
}

/// An axis-aligned box of pixels: the columns `top_left.x .. top_left.x + width`
/// and the rows `top_left.y .. top_left.y + height`, upper ends excluded.
#[derive(Debug, Clone, Copy, PartialEq, Eq, Structural)]
pub struct Rectangle {
    pub top_left: Point,
    pub size: Size,
}

impl Rectangle {
    pub fn new(top_left: Point, size: Size) -> (rectangle: Self)
        ensures
            rectangle == (Rectangle { top_left, size }),
    {
        Rectangle { top_left, size }
    }

    /// The column just past the right edge.
    pub open spec fn right(self) -> int {
        self.top_left.x + self.size.width
    }

    /// The row just past the bottom edge.
    pub open spec fn bottom(self) -> int {
        self.top_left.y + self.size.height
    }

    /// Whether the pixel in column `x`, row `y` belongs to the box.
    pub open spec fn contains(self, x: int, y: int) -> bool {
        &&& self.top_left.x <= x < self.right()
        &&& self.top_left.y <= y < self.bottom()
    }

    /// Two boxes overlap when at least one pixel belongs to both.
    pub open spec fn overlaps(self, other: Rectangle) -> bool {
        exists|x: int, y: int| #[trigger] self.contains(x, y) && other.contains(x, y)
    }

    /// Tests whether the two boxes share a pixel.
    pub fn intersects(&self, other: &Rectangle) -> (hit: bool)
        ensures
            hit == self.overlaps(*other),
    {
        let left: i64 = if self.top_left.x >= other.top_left.x {
            self.top_left.x as i64
        } else {
            other.top_left.x as i64
        };
        let top: i64 = if self.top_left.y >= other.top_left.y {
            self.top_left.y as i64
        } else {
            other.top_left.y as i64
        };
        let self_right: i64 = self.top_left.x as i64 + self.size.width as i64;
        let other_right: i64 = other.top_left.x as i64 + other.size.width as i64;
        let self_bottom: i64 = self.top_left.y as i64 + self.size.height as i64;
        let other_bottom: i64 = other.top_left.y as i64 + other.size.height as i64;
        let right: i64 = if self_right <= other_right {
            self_right
        } else {
            other_right
        };
        let bottom: i64 = if self_bottom <= other_bottom {
            self_bottom
        } else {
            other_bottom
        };
        let hit = left < right && top < bottom;
        proof {
            if hit {
                assert(self.contains(left as int, top as int));
                assert(other.contains(left as int, top as int));
            }
        }
        hit
    }
}

/// Boxes that merely abut do not overlap: when one box ends in the column
/// just before the other begins, no pixel belongs to both, whatever their rows.
pub proof fn lemma_abutting_boxes_do_not_overlap(a: Rectangle, b: Rectangle)
    requires
        a.right() == b.top_left.x || a.bottom() == b.top_left.y,
    ensures
        !a.overlaps(b),
        !b.overlaps(a),
{
}

/// Boxes that share their edge column and at least one row overlap: if the
/// last column of `a` is the first column of `b`, and some row lies in both,
/// the boxes collide.
pub proof fn lemma_shared_edge_overlaps(a: Rectangle, b: Rectangle, row: int)
    requires
        a.size.width > 0,
        b.size.width > 0,
        a.right() - 1 == b.top_left.x,
        a.top_left.y <= row < a.bottom(),
        b.top_left.y <= row < b.bottom(),
    ensures
        a.overlaps(b),
        b.overlaps(a),
{
    assert(a.contains(b.top_left.x as int, row) && b.contains(b.top_left.x as int, row));
}

/// Overlap does not depend on which box is asked.
pub proof fn lemma_overlap_is_symmetric(a: Rectangle, b: Rectangle)
    ensures
        a.overlaps(b) == b.overlaps(a),
{
    if a.overlaps(b) {
        let (x, y) = choose|x: int, y: int| #[trigger] a.contains(x, y) && b.contains(x, y);
        assert(b.contains(x, y) && a.contains(x, y));
    }
    if b.overlaps(a) {
        let (x, y) = choose|x: int, y: int| #[trigger] b.contains(x, y) && a.contains(x, y);
        assert(a.contains(x, y) && b.contains(x, y));
    }
}

} // verus!
