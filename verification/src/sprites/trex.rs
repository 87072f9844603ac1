//! The runner: a three-state machine that moves only vertically.

use crate::geometry::{Point, Rectangle, Size};
use crate::sprites::{GRAVITY, TREX_GROUND_Y, TREX_MIN_Y, TREX_VELOCITY};
use vstd::prelude::*;

verus! {

/// What the runner is doing.
#[derive(Debug, Clone, Copy, PartialEq, Eq, Structural)]
pub enum TrexState {
    Running,
    Jumping,
    Falling,
}

/// The runner.
#[derive(Debug, Clone, Copy, PartialEq, Eq, Structural)]
pub struct Trex {
    /// Where the runner's bitmap is drawn: its top-left pixel.
    pub img: Point,
    /// Where the runner is.
    pub position: Point,
    pub state: TrexState,
}

impl Trex {
    /// A runner at (`x`, `y`), running.
    pub open spec fn spec_new(x: i32, y: i32) -> Trex {
        Trex { img: Point { x, y }, position: Point { x, y }, state: TrexState::Running }
    }

    /// A runner at (`x`, `y`), running.
    pub fn new(x: i32, y: i32) -> (trex: Self)
        ensures
            trex == Trex::spec_new(x, y),
    {
        let position = Point::new(x, y);
        Trex { img: position, state: TrexState::Running, position }
    }

    /// The runner stays between the top of its jump and the ground, and its
    /// bitmap is drawn where the runner is.
    pub open spec fn wf(self) -> bool {
        &&& TREX_MIN_Y <= self.position.y <= TREX_GROUND_Y
        &&& self.img == self.position
    }

    /// Moves the bitmap to (`x`, `y`); the runner itself stays where it is.
    pub fn update_posistion(&mut self, x: i32, y: i32)
        ensures
            *final(self) == (Trex { img: Point { x, y }, ..*old(self) }),
    {
        self.img = Point::new(x, y);
    }

    /// The runner after a jump request: a running runner takes off, any other
    /// ignores the request.
    pub open spec fn jumped(self) -> Trex {
        if self.state == TrexState::Running {
            Trex { state: TrexState::Jumping, ..self }
        } else {
            self
        }
    }

    /// Asks the runner to jump. Only a running runner obeys, so there is no
    /// second jump in mid-air.
    pub fn jump(&mut self)
        ensures
            *final(self) == old(self).jumped(),
    {
        if self.state == TrexState::Running {
            self.state = TrexState::Jumping;
        }
    }

    /// Whether one more frame keeps the runner's row within `i32`.
    pub open spec fn can_update(self) -> bool {
        match self.state {
            TrexState::Running => true,
            TrexState::Jumping => self.position.y + TREX_VELOCITY >= i32::MIN,
            TrexState::Falling => self.position.y + GRAVITY <= i32::MAX,
        }
    }

    /// The runner one frame later.
    ///
    /// Rising, it climbs by `TREX_VELOCITY` and turns to falling in the frame
    /// in which it reaches `TREX_MIN_Y`, where it is held. Falling, it drops by
    /// `GRAVITY` and turns to running in the frame in which it reaches
    /// `TREX_GROUND_Y`, where it is held. Running, nothing changes.
    pub open spec fn updated(self) -> Trex {
        match self.state {
            TrexState::Running => self,
            TrexState::Jumping => {
                let y = self.position.y + TREX_VELOCITY;
                if y <= TREX_MIN_Y {
                    let position = Point { x: self.position.x, y: TREX_MIN_Y };
                    Trex { img: position, position, state: TrexState::Falling }
                } else {
                    let position = Point { x: self.position.x, y: y as i32 };
                    Trex { img: position, position, state: TrexState::Jumping }
                }
            },
            TrexState::Falling => {
                let y = self.position.y + GRAVITY;
                if y >= TREX_GROUND_Y {
                    let position = Point { x: self.position.x, y: TREX_GROUND_Y };
                    Trex { img: position, position, state: TrexState::Running }
                } else {
                    let position = Point { x: self.position.x, y: y as i32 };
                    Trex { img: position, position, state: TrexState::Falling }
                }
            },
        }
    }

    /// The runner `frames` frames later.
    pub open spec fn updated_by(self, frames: nat) -> Trex
        decreases frames,
    {
        if frames == 0 {
            self
        } else {
            self.updated_by((frames - 1) as nat).updated()
        }
    }

    /// Advances the runner by one frame.
    pub fn update_state(&mut self)
        requires
            old(self).can_update(),
        ensures
            *final(self) == old(self).updated(),
            old(self).state == TrexState::Jumping ==> final(self).position.y >= TREX_MIN_Y,
            old(self).state == TrexState::Falling ==> final(self).position.y <= TREX_GROUND_Y,
            old(self).wf() ==> final(self).wf(),
    {
        match self.state {
            TrexState::Jumping => {
                self.position.y += TREX_VELOCITY;
                if self.position.y <= TREX_MIN_Y {
                    self.position.y = TREX_MIN_Y;
                    self.state = TrexState::Falling;
                }
                self.update_posistion(self.position.x, self.position.y);
            },
            TrexState::Falling => {
                self.position.y += GRAVITY;
                if self.position.y >= TREX_GROUND_Y {
                    self.position.y = TREX_GROUND_Y;
                    self.state = TrexState::Running;
                }
                self.update_posistion(self.position.x, self.position.y);
            },
            _ => (),
        };
    }

    /// The box that the runner covers when its bitmap has the extent `size`:
    /// it begins where the runner is.
    pub fn bounding_box(&self, size: Size) -> (area: Rectangle)
        ensures
            area == (Rectangle { top_left: self.position, size }),
    {
        Rectangle::new(self.position, size)
    }
}

/// A frame never takes the runner out of its range: rising, it is held at
/// `TREX_MIN_Y`; falling, it is held at `TREX_GROUND_Y`.
pub proof fn lemma_update_clamps(trex: Trex)
    ensures
        trex.state == TrexState::Jumping ==> trex.updated().position.y >= TREX_MIN_Y,
        trex.state == TrexState::Falling ==> trex.updated().position.y <= TREX_GROUND_Y,
        trex.wf() ==> trex.updated().wf(),
        trex.wf() ==> trex.jumped().wf(),
{
}

/// The runner's states follow one another in one order only.
///
/// Running ends with a jump request and with nothing else: a frame leaves a
/// running runner as it is. In the air a jump request is ignored. Rising
/// ends in the frame that reaches `TREX_MIN_Y`, always in falling and never
/// in running. Falling ends in the frame that reaches `TREX_GROUND_Y`,
/// always in running and never in rising.
pub proof fn lemma_state_machine(trex: Trex)
    ensures
        trex.state == TrexState::Running ==> trex.updated() == trex,
        trex.state == TrexState::Running ==> trex.jumped().state == TrexState::Jumping,
        trex.state != TrexState::Running ==> trex.jumped() == trex,
        trex.jumped().position == trex.position,
        trex.state == TrexState::Jumping ==> trex.updated().state == (if trex.position.y
            + TREX_VELOCITY <= TREX_MIN_Y {
            TrexState::Falling
        } else {
            TrexState::Jumping
        }),
        trex.state == TrexState::Jumping && trex.updated().state == TrexState::Falling
            ==> trex.updated().position.y == TREX_MIN_Y,
        trex.state == TrexState::Falling ==> trex.updated().state == (if trex.position.y + GRAVITY
            >= TREX_GROUND_Y {
            TrexState::Running
        } else {
            TrexState::Falling
        }),
        trex.state == TrexState::Falling && trex.updated().state == TrexState::Running
            ==> trex.updated().position.y == TREX_GROUND_Y,
{
}

/// A jump is over in time: a runner that rises from within its range is
/// falling, at `TREX_MIN_Y`, after three frames at most, and has been rising
/// in every frame before.
pub proof fn lemma_rise_ends_in_falling(trex: Trex)
    requires
        trex.wf(),
        trex.state == TrexState::Jumping,
    ensures
        exists|frames: nat|
            {
                &&& 1 <= frames <= 3
                &&& (#[trigger] trex.updated_by(frames)).state == TrexState::Falling
                &&& trex.updated_by(frames).position.y == TREX_MIN_Y
                &&& trex.updated_by((frames - 1) as nat).state == TrexState::Jumping
            },
{
    reveal_with_fuel(Trex::updated_by, 4);
    if trex.position.y + TREX_VELOCITY <= TREX_MIN_Y {
        assert(trex.updated_by(1).state == TrexState::Falling);
    } else if trex.position.y + 2 * TREX_VELOCITY <= TREX_MIN_Y {
        assert(trex.updated_by(2).state == TrexState::Falling);
    } else {
        assert(trex.updated_by(3).state == TrexState::Falling);
    }
}

/// A fall is over in time: a runner that falls from within its range is
/// running, at `TREX_GROUND_Y`, after five frames at most, and has been
/// falling in every frame before.
pub proof fn lemma_fall_ends_in_running(trex: Trex)
    requires
        trex.wf(),
        trex.state == TrexState::Falling,
    ensures
        exists|frames: nat|
            {
                &&& 1 <= frames <= 5
                &&& (#[trigger] trex.updated_by(frames)).state == TrexState::Running
                &&& trex.updated_by(frames).position.y == TREX_GROUND_Y
                &&& trex.updated_by((frames - 1) as nat).state == TrexState::Falling
            },
{
    reveal_with_fuel(Trex::updated_by, 6);
    if trex.position.y + GRAVITY >= TREX_GROUND_Y {
        assert(trex.updated_by(1).state == TrexState::Running);
    } else if trex.position.y + 2 * GRAVITY >= TREX_GROUND_Y {
        assert(trex.updated_by(2).state == TrexState::Running);
    } else if trex.position.y + 3 * GRAVITY >= TREX_GROUND_Y {
        assert(trex.updated_by(3).state == TrexState::Running);
    } else if trex.position.y + 4 * GRAVITY >= TREX_GROUND_Y {
        assert(trex.updated_by(4).state == TrexState::Running);
    } else {
        assert(trex.updated_by(5).state == TrexState::Running);
    }
}

} // verus!
