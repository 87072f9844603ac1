//! The ground: one long strip that scrolls to the left and wraps.

use crate::geometry::Point;
use crate::sprites::{GROUND_X_LENGTH, GROUND_X_START, GROUND_Y, OLED_WIDTH};
use vstd::prelude::*;

verus! {

/// The scroll offset one frame after `x` at the speed `velocity`: the strip
/// moves, and jumps back to the start as soon as its right end would come
/// into view.
pub open spec fn scrolled(x: int, velocity: int) -> int {
    if x + velocity < OLED_WIDTH - GROUND_X_LENGTH {
        GROUND_X_START as int
    } else {
        x + velocity
    }
}

/// The scroll offset `frames` frames after `x` at the constant speed `velocity`.
pub open spec fn scrolled_by(x: int, velocity: int, frames: nat) -> int
    decreases frames,
{
    if frames == 0 {
        x
    } else {
        scrolled(scrolled_by(x, velocity, (frames - 1) as nat), velocity)
    }
}

/// The number of frames after which a strip that starts at offset 0 and moves
/// left at `velocity` is back at offset 0.
pub open spec fn wrap_period(velocity: int) -> int {
    ((GROUND_X_LENGTH - OLED_WIDTH) as int) / (-velocity) + 1
}

/// The ground strip.
#[derive(Debug, Clone, Copy, PartialEq, Eq, Structural)]
pub struct Ground {
    /// Where the strip's bitmap is drawn: its top-left pixel.
    pub img: Point,
    /// Where the strip is: its scroll offset and its row.
    pub position: Point,
}

impl Default for Ground {
    /// The strip at its start, in the ground's row.
    fn default() -> (ground: Self)
        ensures
            ground == Ground::spec_default(),
    {
        let position = Point::new(GROUND_X_START, GROUND_Y);
        Ground { img: position, position }
    }
}

impl Ground {
    /// The strip at its start, in the ground's row.
    pub open spec fn spec_default() -> Ground {
        Ground {
            img: Point { x: GROUND_X_START, y: GROUND_Y },
            position: Point { x: GROUND_X_START, y: GROUND_Y },
        }
    }

    /// The scroll offset lies between the point of wrapping and the start,
    /// the strip is in the ground's row, and its bitmap is drawn where it is.
    pub open spec fn wf(self) -> bool {
        &&& OLED_WIDTH - GROUND_X_LENGTH <= self.position.x <= GROUND_X_START
        &&& self.position.y == GROUND_Y
        &&& self.img == self.position
    }

    /// Whether a move by `velocity` keeps the scroll offset within `i32`.
    pub open spec fn can_move(self, velocity: i32) -> bool {
        i32::MIN <= self.position.x + velocity <= i32::MAX
    }

    /// The strip after one frame at the speed `velocity`.
    pub open spec fn moved(self, velocity: i32) -> Ground {
        let position = Point {
            x: scrolled(self.position.x as int, velocity as int) as i32,
            y: self.position.y,
        };
        Ground { img: position, position }
    }

    /// Scrolls the strip by `velocity` columns, to the left if it is
    /// negative, and wraps it to the start once a whole strip has passed.
    pub fn move_by_velocity(&mut self, velocity: i32)
        requires
            old(self).can_move(velocity),
        ensures
            *final(self) == old(self).moved(velocity),
            final(self).position.x == scrolled(old(self).position.x as int, velocity as int),
            old(self).wf() && velocity <= 0 ==> final(self).wf(),
    {
        self.position.x += velocity;
        if self.position.x < (OLED_WIDTH - GROUND_X_LENGTH) {
            self.position.x = GROUND_X_START;
        }
        self.img = self.position;
    }
}

/// Floor division brackets the dividend: `d * (n / d) <= n < d * (n / d + 1)`.
proof fn lemma_quotient_brackets(n: int, d: int)
    by (nonlinear_arith)
    requires
        0 <= n,
        0 < d,
    ensures
        0 <= n / d,
        d * (n / d) <= n < d * (n / d + 1),
{
}

/// One frame for a strip that is `steps` steps to the left of the start and
/// has not wrapped yet: one step more, or back to the start if the period is over.
proof fn lemma_one_more_step(velocity: int, steps: int)
    requires
        velocity < 0,
        0 <= steps < wrap_period(velocity),
    ensures
        scrolled(steps * velocity, velocity) == if steps + 1 < wrap_period(velocity) {
            (steps + 1) * velocity
        } else {
            0
        },
{
    let length = (GROUND_X_LENGTH - OLED_WIDTH) as int;
    let quotient = length / (-velocity);
    lemma_quotient_brackets(length, -velocity);
    assert(steps * velocity + velocity == (steps + 1) * velocity) by (nonlinear_arith);
    if steps + 1 < wrap_period(velocity) {
        assert((steps + 1) * velocity >= -length) by (nonlinear_arith)
            requires
                velocity < 0,
                0 <= steps + 1 <= quotient,
                (-velocity) * quotient <= length,
        ;
    } else {
        assert((steps + 1) * velocity < -length) by (nonlinear_arith)
            requires
                velocity < 0,
                steps == quotient,
                length < (-velocity) * (quotient + 1),
        ;
    }
}

/// Counting frames modulo the period: one frame more is one step more, or
/// zero steps when the period is over.
proof fn lemma_next_remainder(frames: int, period: int)
    by (nonlinear_arith)
    requires
        0 <= frames,
        0 < period,
    ensures
        0 <= frames % period < period,
        (frames + 1) % period == if frames % period + 1 < period {
            frames % period + 1
        } else {
            0
        },
{
}

/// A strip that starts at offset 0 and moves left at a constant speed is back
/// at offset 0 after every `wrap_period(velocity)` frames, and at no frame in
/// between: after `frames` frames it is `frames % wrap_period(velocity)` steps
/// to the left of the start.
pub proof fn lemma_ground_revisits_start(velocity: int, frames: nat)
    requires
        velocity < 0,
    ensures
        wrap_period(velocity) > 0,
        scrolled_by(0, velocity, frames) == ((frames as int) % wrap_period(velocity)) * velocity,
        scrolled_by(0, velocity, frames) == 0 <==> (frames as int) % wrap_period(velocity) == 0,
    decreases frames,
{
    let length = (GROUND_X_LENGTH - OLED_WIDTH) as int;
    let period = wrap_period(velocity);
    lemma_quotient_brackets(length, -velocity);
    let steps = (frames as int) % period;
    assert(steps * velocity == 0 <==> steps == 0) by (nonlinear_arith)
        requires
            velocity < 0,
    ;
    if frames == 0 {
        assert(0int % period == 0) by (nonlinear_arith)
            requires
                period > 0,
        ;
    } else {
        let before = (frames - 1) as nat;
        lemma_ground_revisits_start(velocity, before);
        lemma_next_remainder(before as int, period);
        lemma_one_more_step(velocity, (before as int) % period);
        assert(0 * velocity == 0) by (nonlinear_arith);
    }
}

/// Where the period of the wrap equals the length of the strip divided by the
/// speed, the strip is back at offset 0 exactly every
/// `GROUND_X_LENGTH / |velocity|` frames. The wrap comes when the right end
/// of the strip would enter the display, a display's width before a whole
/// strip has passed, so the two numbers agree for some speeds only.
pub proof fn lemma_ground_revisits_start_every_strip_over_speed(velocity: int, frames: nat)
    requires
        velocity < 0,
        (GROUND_X_LENGTH as int) / (-velocity) == wrap_period(velocity),
    ensures
        scrolled_by(0, velocity, frames) == 0 <==> (frames as int) % ((GROUND_X_LENGTH as int) / (
        -velocity)) == 0,
{
    lemma_ground_revisits_start(velocity, frames);
}

/// Moving left never takes a strip out of its range: from any offset between
/// the point of wrapping and the start, a frame leads to such an offset again.
pub proof fn lemma_scrolled_stays_in_range(x: int, velocity: int)
    requires
        OLED_WIDTH - GROUND_X_LENGTH <= x <= GROUND_X_START,
        velocity <= 0,
    ensures
        OLED_WIDTH - GROUND_X_LENGTH <= scrolled(x, velocity) <= GROUND_X_START,
{
}

} // verus!
