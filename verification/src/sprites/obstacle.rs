//! The obstacles, and the manager that scrolls and recycles them.

use crate::geometry::{Point, Rectangle, Size};
use crate::queue::{
    queue_dequeue, queue_enqueue, queue_get, queue_items, queue_len, queue_new, queue_peek,
    queue_set, SLOTS,
};
use crate::rng::{bounded, Rng};
use crate::sprites::{BUFF_SIZE, CACTUS_Y, OBSTACLE_GAP, OBSTACLE_VELOCITY, OLED_WIDTH};
use heapless::spsc::Queue;
use vstd::prelude::*;

verus! {

/// Which of the three obstacle bitmaps an obstacle shows.
#[derive(Debug, Clone, Copy, PartialEq, Eq, Structural)]
pub enum Shape {
    Cactus1,
    Cactus2,
    Cactus3,
}

impl Shape {
    /// The shape with the number `id`: 0, 1 or 2.
    pub open spec fn of(id: int) -> Shape {
        if id == 0 {
            Shape::Cactus1
        } else if id == 1 {
            Shape::Cactus2
        } else {
            Shape::Cactus3
        }
    }

    /// The number of the shape.
    pub open spec fn number(self) -> int {
        match self {
            Shape::Cactus1 => 0,
            Shape::Cactus2 => 1,
            Shape::Cactus3 => 2,
        }
    }

    /// The shape with the number `id`.
    pub fn from_id(id: u32) -> (shape: Self)
        requires
            id < 3,
        ensures
            shape == Shape::of(id as int),
            shape.number() == id,
    {
        if id == 0 {
            Shape::Cactus1
        } else if id == 1 {
            Shape::Cactus2
        } else {
            Shape::Cactus3
        }
    }
}

/// One obstacle on its way from right to left.
#[derive(Debug, Clone, Copy, PartialEq, Eq, Structural)]
pub struct Obstacle {
    /// Which bitmap is drawn.
    pub shape: Shape,
    /// Where the bitmap is drawn: its top-left pixel.
    pub img: Point,
    /// Column of the obstacle's left edge.
    pub x: i32,
}

impl Obstacle {
    /// An obstacle of the given shape with its top-left pixel at (`x`, `y`).
    pub open spec fn spec_new(shape: Shape, x: i32, y: i32) -> Obstacle {
        Obstacle { shape, img: Point { x, y }, x }
    }

    /// An obstacle of the given shape with its top-left pixel at (`x`, `y`).
    pub fn new(shape: Shape, x: i32, y: i32) -> (obstacle: Self)
        ensures
            obstacle == Obstacle::spec_new(shape, x, y),
    {
        let img = Point::new(x, y);
        Obstacle { shape, img, x }
    }

    /// The bitmap is drawn at the obstacle's column, in the obstacles' row.
    pub open spec fn wf(self) -> bool {
        &&& self.img.x == self.x
        &&& self.img.y == CACTUS_Y
    }

    /// Whether a move by `velocity` keeps the columns within `i32`.
    pub open spec fn can_move(self, velocity: i32) -> bool {
        &&& i32::MIN <= self.x + velocity <= i32::MAX
        &&& i32::MIN <= self.img.x + velocity <= i32::MAX
    }

    /// The obstacle after a move by `velocity` columns.
    pub open spec fn moved(self, velocity: i32) -> Obstacle {
        Obstacle {
            shape: self.shape,
            img: Point { x: (self.img.x + velocity) as i32, y: self.img.y },
            x: (self.x + velocity) as i32,
        }
    }

    /// Moves the obstacle by `velocity` columns: to the left if it is negative.
    pub fn move_by_velocity(&mut self, velocity: i32)
        requires
            old(self).can_move(velocity),
        ensures
            *final(self) == old(self).moved(velocity),
            final(self).x == old(self).x + velocity,
            old(self).wf() ==> final(self).wf(),
    {
        self.x += velocity;
        self.img = Point::new(self.img.x + velocity, self.img.y);
    }

    /// The box that the obstacle covers when its bitmap has the extent
    /// `size`: it begins at the obstacle's column, in the obstacles' row.
    pub fn bounding_box(&self, size: Size) -> (area: Rectangle)
        ensures
            area == (Rectangle { top_left: Point { x: self.x, y: CACTUS_Y }, size }),
    {
        Rectangle::new(Point::new(self.x, CACTUS_Y), size)
    }
}

/// Every obstacle moved by `velocity` columns, in the same order.
pub open spec fn shifted(items: Seq<Obstacle>, velocity: i32) -> Seq<Obstacle> {
    Seq::new(items.len(), |i: int| items[i].moved(velocity))
}

/// Whether the oldest obstacle has left the display on the left.
pub open spec fn head_off_screen(items: Seq<Obstacle>) -> bool {
    items.len() > 0 && items[0].x < 0
}

/// The obstacle that a recycle brings in for the raw draw `raw`: the shape
/// is the remainder of the draw by three, the place is always `OBSTACLE_GAP`
/// columns past the right edge of the display, wherever the others are.
pub open spec fn spawn_for(raw: u32) -> Obstacle {
    Obstacle::spec_new(Shape::of((raw % 3) as int), (OLED_WIDTH + OBSTACLE_GAP) as i32, CACTUS_Y)
}

/// The queue after an attempt to append `obstacle`: a full queue stays as it is.
pub open spec fn spawned(items: Seq<Obstacle>, obstacle: Obstacle) -> Seq<Obstacle> {
    if items.len() < BUFF_SIZE {
        items.push(obstacle)
    } else {
        items
    }
}

/// The queue after a recycle with the raw draw `raw`: the oldest obstacle
/// leaves, a new one joins at the back.
pub open spec fn recycled(items: Seq<Obstacle>, raw: u32) -> Seq<Obstacle> {
    if items.len() > 0 {
        spawned(items.drop_first(), spawn_for(raw))
    } else {
        spawned(items, spawn_for(raw))
    }
}

/// The queue one frame later: every obstacle moves, and if that takes the
/// oldest one off the display, it is recycled with the raw draw `raw`.
pub open spec fn advanced(items: Seq<Obstacle>, velocity: i32, raw: u32) -> Seq<Obstacle> {
    let moved = shifted(items, velocity);
    if head_off_screen(moved) {
        recycled(moved, raw)
    } else {
        moved
    }
}

/// The queue after one frame for each of `steps`, in turn. A step is a
/// speed and the raw draw for the case that the frame recycles.
pub open spec fn advanced_each(items: Seq<Obstacle>, steps: Seq<(i32, u32)>) -> Seq<Obstacle>
    decreases steps.len(),
{
    if steps.len() == 0 {
        items
    } else {
        advanced(advanced_each(items, steps.drop_last()), steps.last().0, steps.last().1)
    }
}

/// The two obstacles that a session begins with.
pub open spec fn seeded() -> Seq<Obstacle> {
    seq![
        Obstacle::spec_new(Shape::Cactus1, OLED_WIDTH, CACTUS_Y),
        Obstacle::spec_new(Shape::Cactus2, (OLED_WIDTH + OBSTACLE_GAP) as i32, CACTUS_Y),
    ]
}

/// Queue order is screen order: no obstacle is to the left of an older one.
pub open spec fn ordered(items: Seq<Obstacle>) -> bool {
    forall|i: int, j: int| 0 <= i <= j < items.len() ==> items[i].x <= items[j].x
}

/// What holds of the queue between frames: it has two to `BUFF_SIZE`
/// obstacles, each drawn where it is and none to the right of the spawn
/// column, and queue order is screen order.
pub open spec fn in_bounds(items: Seq<Obstacle>) -> bool {
    &&& 2 <= items.len() <= BUFF_SIZE
    &&& forall|i: int|
        0 <= i < items.len() ==> (#[trigger] items[i]).wf() && items[i].x <= OLED_WIDTH
            + OBSTACLE_GAP
    &&& ordered(items)
}

/// What holds of the queue between frames at the usual speed: besides
/// `in_bounds`, no obstacle lags further to the left of the display than
/// the frames that it may still have to wait for its recycling.
pub open spec fn on_pace(items: Seq<Obstacle>) -> bool {
    &&& in_bounds(items)
    &&& forall|i: int|
        0 <= i < items.len() ==> (#[trigger] items[i]).x >= OBSTACLE_VELOCITY * (items.len() - i)
}

/// A frame keeps the number of obstacles: a recycle takes one out and puts
/// one in.
pub proof fn lemma_advance_keeps_length(items: Seq<Obstacle>, velocity: i32, raw: u32)
    requires
        items.len() <= BUFF_SIZE,
    ensures
        advanced(items, velocity, raw).len() == items.len(),
{
}

/// A frame at a speed to the left keeps the queue in bounds: its length
/// stays between two and `BUFF_SIZE`, and queue order remains screen order,
/// also across a recycle, since the newcomer is placed at the spawn column,
/// which nothing has passed.
pub proof fn lemma_advance_keeps_bounds(items: Seq<Obstacle>, velocity: i32, raw: u32)
    requires
        in_bounds(items),
        velocity <= 0,
        forall|i: int| 0 <= i < items.len() ==> (#[trigger] items[i]).can_move(velocity),
    ensures
        in_bounds(advanced(items, velocity, raw)),
{
    let moved = shifted(items, velocity);
    assert forall|i: int| 0 <= i < moved.len() implies (#[trigger] moved[i]).wf() && moved[i].x
        <= OLED_WIDTH + OBSTACLE_GAP by {
        assert(items[i].wf() && items[i].can_move(velocity));
    }
    assert(ordered(moved)) by {
        assert forall|i: int, j: int| 0 <= i <= j < moved.len() implies moved[i].x
            <= moved[j].x by {
            assert(items[i].can_move(velocity) && items[j].can_move(velocity));
        }
    }
    if head_off_screen(moved) {
        let rest = moved.drop_first();
        let next = recycled(moved, raw);
        assert(next == rest.push(spawn_for(raw)));
        assert forall|i: int| 0 <= i < next.len() implies (#[trigger] next[i]).wf() && next[i].x
            <= OLED_WIDTH + OBSTACLE_GAP by {
            if i < rest.len() {
                assert(next[i] == moved[i + 1]);
            }
        }
        assert forall|i: int, j: int| 0 <= i <= j < next.len() implies next[i].x
            <= next[j].x by {
            if i < rest.len() {
                assert(next[i] == moved[i + 1]);
            }
            if j < rest.len() {
                assert(next[j] == moved[j + 1]);
            }
        }
    }
}

/// A frame at the usual speed keeps the queue on pace, and a queue on pace
/// can always be moved at the usual speed.
pub proof fn lemma_advance_keeps_pace(items: Seq<Obstacle>, raw: u32)
    requires
        on_pace(items),
    ensures
        forall|i: int| 0 <= i < items.len() ==> (#[trigger] items[i]).can_move(OBSTACLE_VELOCITY),
        on_pace(advanced(items, OBSTACLE_VELOCITY, raw)),
{
    assert forall|i: int| 0 <= i < items.len() implies (#[trigger] items[i]).can_move(
        OBSTACLE_VELOCITY,
    ) by {
        assert(items[i].wf());
    }
    lemma_advance_keeps_bounds(items, OBSTACLE_VELOCITY, raw);
    let moved = shifted(items, OBSTACLE_VELOCITY);
    let next = advanced(items, OBSTACLE_VELOCITY, raw);
    assert forall|i: int| 0 <= i < moved.len() implies (#[trigger] moved[i]).x == items[i].x
        + OBSTACLE_VELOCITY by {
        assert(items[i].can_move(OBSTACLE_VELOCITY));
    }
    if head_off_screen(moved) {
        assert(next == moved.drop_first().push(spawn_for(raw)));
        assert forall|i: int| 0 <= i < next.len() implies (#[trigger] next[i]).x
            >= OBSTACLE_VELOCITY * (next.len() - i) by {
            if i < next.len() - 1 {
                assert(next[i] == moved[i + 1]);
                assert(items[i + 1].x >= OBSTACLE_VELOCITY * (items.len() - (i + 1)));
            }
        }
    } else {
        assert forall|i: int| 0 <= i < next.len() implies (#[trigger] next[i]).x
            >= OBSTACLE_VELOCITY * (next.len() - i) by {
            assert(ordered(moved));
            assert(moved[0].x <= moved[i].x);
        }
    }
}

/// However many frames pass, at whatever speeds and with whatever draws,
/// the queue keeps its length: what begins with two to `BUFF_SIZE`
/// obstacles never has fewer or more.
pub proof fn lemma_length_is_kept(items: Seq<Obstacle>, steps: Seq<(i32, u32)>)
    requires
        items.len() <= BUFF_SIZE,
    ensures
        advanced_each(items, steps).len() == items.len(),
    decreases steps.len(),
{
    if steps.len() > 0 {
        lemma_length_is_kept(items, steps.drop_last());
        lemma_advance_keeps_length(
            advanced_each(items, steps.drop_last()),
            steps.last().0,
            steps.last().1,
        );
    }
}

/// However many frames are played at the usual speed, and whatever is drawn,
/// the queue that a session begins with stays on pace: it keeps its two
/// obstacles, and queue order stays screen order.
pub proof fn lemma_session_stays_on_pace(steps: Seq<(i32, u32)>)
    requires
        forall|k: int| 0 <= k < steps.len() ==> (#[trigger] steps[k]).0 == OBSTACLE_VELOCITY,
    ensures
        on_pace(advanced_each(seeded(), steps)),
        advanced_each(seeded(), steps).len() == 2,
    decreases steps.len(),
{
    if steps.len() == 0 {
        assert(ordered(seeded()));
    } else {
        let before = steps.drop_last();
        assert forall|k: int| 0 <= k < before.len() implies (#[trigger] before[k]).0
            == OBSTACLE_VELOCITY by {
            assert(before[k] == steps[k]);
        }
        lemma_session_stays_on_pace(before);
        assert(steps.last() == steps[steps.len() - 1]);
        lemma_advance_keeps_pace(advanced_each(seeded(), before), steps.last().1);
        lemma_length_is_kept(seeded(), steps);
    }
}

/// The obstacles that are on their way, oldest first, and the source of
/// randomness that picks the shape of each newcomer.
pub struct Obstacles<R> where R: Rng {
    pub buffer: Queue<Obstacle, SLOTS>,
    pub rng: R,
}

impl<R> View for Obstacles<R> where R: Rng {
    type V = Seq<Obstacle>;

    /// The obstacles, oldest first.
    open spec fn view(&self) -> Seq<Obstacle> {
        queue_items(self.buffer)
    }
}

impl<R> Obstacles<R> where R: Rng {
    /// What holds of the obstacles between the frames of a session.
    pub open spec fn wf(self) -> bool {
        on_pace(self@)
    }

    /// Whether every obstacle can move by `velocity` within `i32`.
    pub open spec fn can_shift(self, velocity: i32) -> bool {
        forall|i: int| 0 <= i < self@.len() ==> (#[trigger] self@[i]).can_move(velocity)
    }

    /// Two obstacles to begin with: one at the right edge of the display, one
    /// `OBSTACLE_GAP` columns further.
    pub fn new(rng: R) -> (obstacles: Self)
        ensures
            obstacles@ == seeded(),
            obstacles.wf(),
            obstacles.rng == rng,
    {
        let mut buffer = queue_new();
        let _ = queue_enqueue(&mut buffer, Obstacle::new(Shape::Cactus1, OLED_WIDTH, CACTUS_Y));
        let _ = queue_enqueue(
            &mut buffer,
            Obstacle::new(Shape::Cactus2, OLED_WIDTH + OBSTACLE_GAP, CACTUS_Y),
        );
        proof {
            assert(queue_items(buffer) =~= seeded());
            assert(ordered(seeded()));
        }
        Obstacles { rng, buffer }
    }

    /// The queue itself, for whoever wants to walk it.
    pub fn get_current(&self) -> (queue: &Queue<Obstacle, SLOTS>)
        ensures
            queue_items(*queue) == self@,
    {
        &self.buffer
    }

    /// The number of obstacles on their way.
    pub fn len(&self) -> (len: usize)
        ensures
            len == self@.len(),
            len <= BUFF_SIZE,
    {
        queue_len(&self.buffer)
    }

    /// The obstacle that has `index` older ones before it.
    pub fn get(&self, index: usize) -> (obstacle: Obstacle)
        requires
            index < self@.len(),
        ensures
            obstacle == self@[index as int],
    {
        queue_get(&self.buffer, index)
    }

    /// Moves every obstacle by `velocity` columns.
    pub fn shift(&mut self, velocity: i32)
        requires
            old(self).can_shift(velocity),
        ensures
            final(self)@ == shifted(old(self)@, velocity),
            final(self)@.len() <= BUFF_SIZE,
            final(self).rng == old(self).rng,
    {
        let len = queue_len(&self.buffer);
        let mut index: usize = 0;
        while index < len
            invariant
                index <= len,
                len == old(self)@.len(),
                self@.len() == len,
                self.rng == old(self).rng,
                old(self).can_shift(velocity),
                forall|i: int| 0 <= i < index ==> self@[i] == old(self)@[i].moved(velocity),
                forall|i: int| index <= i < len ==> self@[i] == old(self)@[i],
            decreases len - index,
        {
            let mut obstacle = queue_get(&self.buffer, index);
            obstacle.move_by_velocity(velocity);
            queue_set(&mut self.buffer, index, obstacle);
            index += 1;
        }
        assert(self@ =~= shifted(old(self)@, velocity));
    }

    /// Whether the oldest obstacle has left the display on the left.
    pub fn head_off_screen(&self) -> (off: bool)
        ensures
            off == head_off_screen(self@),
    {
        match queue_peek(&self.buffer) {
            Some(first) => first.x < 0,
            None => false,
        }
    }

    /// Appends `obstacle` if there is room, and does nothing if there is
    /// none: a spawn that finds the queue full is dropped without a trace.
    pub fn spawn(&mut self, obstacle: Obstacle)
        ensures
            final(self)@ == spawned(old(self)@, obstacle),
            final(self).rng == old(self).rng,
    {
        let _ = queue_enqueue(&mut self.buffer, obstacle);
    }

    /// Replaces the oldest obstacle by a new one whose shape the raw draw
    /// `raw` decides.
    pub fn recycle(&mut self, raw: u32)
        ensures
            final(self)@ == recycled(old(self)@, raw),
            final(self).rng == old(self).rng,
    {
        let _ = queue_dequeue(&mut self.buffer);
        let shape = Shape::from_id(bounded(raw, 3));
        self.spawn(Obstacle::new(shape, OLED_WIDTH + OBSTACLE_GAP, CACTUS_Y));
    }

    /// Advances the obstacles by one frame at the speed `velocity` and says
    /// whether one was recycled. The source of randomness is asked only in
    /// that case, and then exactly once.
    pub fn advance(&mut self, velocity: i32) -> (new_cactus: bool)
        requires
            old(self).can_shift(velocity),
        ensures
            new_cactus == head_off_screen(shifted(old(self)@, velocity)),
            exists|raw: u32| final(self)@ == #[trigger] advanced(old(self)@, velocity, raw),
            !new_cactus ==> final(self).rng == old(self).rng,
            final(self)@.len() == old(self)@.len(),
            in_bounds(old(self)@) && velocity <= 0 ==> in_bounds(final(self)@),
    {
        self.shift(velocity);
        let mut new_cactus = false;
        if self.head_off_screen() {
            new_cactus = true;
            let raw = self.rng.random_u32();
            self.recycle(raw);
            assert(self@ == advanced(old(self)@, velocity, raw));
            proof {
                if in_bounds(old(self)@) && velocity <= 0 {
                    lemma_advance_keeps_bounds(old(self)@, velocity, raw);
                }
            }
        } else {
            assert(self@ == advanced(old(self)@, velocity, 0));
            proof {
                if in_bounds(old(self)@) && velocity <= 0 {
                    lemma_advance_keeps_bounds(old(self)@, velocity, 0);
                }
            }
        }
        new_cactus
    }

    /// Advances the obstacles by one frame at their usual speed,
    /// `OBSTACLE_VELOCITY`, and says whether one was recycled.
    pub fn update_state(&mut self) -> (new_cactus: bool)
        requires
            old(self).can_shift(OBSTACLE_VELOCITY),
        ensures
            new_cactus == head_off_screen(shifted(old(self)@, OBSTACLE_VELOCITY)),
            exists|raw: u32|
                final(self)@ == #[trigger] advanced(old(self)@, OBSTACLE_VELOCITY, raw),
            !new_cactus ==> final(self).rng == old(self).rng,
            final(self)@.len() == old(self)@.len(),
            old(self).wf() ==> final(self).wf(),
    {
        let new_cactus = self.advance(OBSTACLE_VELOCITY);
        proof {
            if old(self).wf() {
                let raw = choose|raw: u32|
                    self@ == #[trigger] advanced(old(self)@, OBSTACLE_VELOCITY, raw);
                lemma_advance_keeps_pace(old(self)@, raw);
            }
        }
        new_cactus
    }
}

} // verus!
