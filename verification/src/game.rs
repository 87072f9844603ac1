//! One session of the game: the runner, the obstacles and the ground, moved
//! frame by frame, and the rule that ends a session and starts the next.
//!
//! The embedding program owns the button, the display and the clock. Once per
//! pass of its loop it samples the button, hands the sample to [`Game::tick`],
//! and does what the returned [`FrameAction`] says.

use crate::collision::SpriteSheet;
use crate::rng::Rng;
use crate::sprites::ground::Ground;
use crate::sprites::obstacle::{
    advanced, head_off_screen, lemma_advance_keeps_pace, on_pace, ordered, seeded, shifted,
    Obstacle, Obstacles,
};
use crate::sprites::trex::{lemma_update_clamps, Trex};
use crate::sprites::{OBSTACLE_VELOCITY, TREX_GROUND_Y, TREX_X};
use vstd::prelude::*;

verus! {

/// Pause after a frame of play, in milliseconds.
pub const FRAME_DELAY_MS: u32 = 5;

/// Pause between two looks at the button while the game is over, in milliseconds.
pub const IDLE_DELAY_MS: u32 = 50;

/// Pause after the frame in which the runner hit an obstacle, in milliseconds.
pub const GAME_OVER_DELAY_MS: u32 = 500;

/// Pause after a restart, in milliseconds.
pub const RESTART_DELAY_MS: u32 = 500;

/// A restart comes with the first pressed sample that takes the count of
/// pressed samples since the game was over beyond this number.
pub const RESTART_THRESHOLD: u32 = 2;

/// Whether a session is being played or has ended.
#[derive(Debug, Clone, Copy, PartialEq, Eq, Structural)]
pub enum GameState {
    Playing,
    GameOver,
}

/// What the embedding program has to do after a frame.
#[derive(Debug, Clone, Copy, PartialEq, Eq, Structural)]
pub enum FrameAction {
    /// Draw the frame and present it.
    Draw,
    /// Draw the frame with the game-over banner and present it: the runner
    /// has just hit an obstacle.
    DrawGameOver,
    /// Draw nothing: the game is over and waits for the button.
    Idle,
    /// Draw nothing: a new session has just begun.
    Restarted,
}

impl FrameAction {
    /// How long to pause after the action, in milliseconds.
    pub open spec fn pause(self) -> int {
        match self {
            FrameAction::Draw => FRAME_DELAY_MS as int,
            FrameAction::DrawGameOver => GAME_OVER_DELAY_MS as int,
            FrameAction::Idle => IDLE_DELAY_MS as int,
            FrameAction::Restarted => RESTART_DELAY_MS + IDLE_DELAY_MS,
        }
    }

    /// How long to pause after the action, in milliseconds. A restart is
    /// followed by its own pause and then by the pause of an idle pass.
    pub fn delay_ms(&self) -> (ms: u32)
        ensures
            ms == self.pause(),
    {
        match self {
            FrameAction::Draw => FRAME_DELAY_MS,
            FrameAction::DrawGameOver => GAME_OVER_DELAY_MS,
            FrameAction::Idle => IDLE_DELAY_MS,
            FrameAction::Restarted => RESTART_DELAY_MS + IDLE_DELAY_MS,
        }
    }
}

/// A session as the rules see it: everything but the source of randomness.
pub struct GameView {
    pub trex: Trex,
    pub obstacles: Seq<Obstacle>,
    pub ground: Ground,
    pub state: GameState,
    /// Obstacles recycled in this session.
    pub score: u32,
    /// Pressed samples seen since the game was over.
    pub clicked_count: u32,
    pub sheet: SpriteSheet,
}

impl GameView {
    /// The start of a session: the runner on the ground, two obstacles beyond
    /// the right edge, the ground at its start, nothing scored.
    pub open spec fn fresh(sheet: SpriteSheet) -> GameView {
        GameView {
            trex: Trex::spec_new(TREX_X, TREX_GROUND_Y),
            obstacles: seeded(),
            ground: Ground::spec_default(),
            state: GameState::Playing,
            score: 0,
            clicked_count: 0,
            sheet,
        }
    }

    /// What holds of every session at every frame: the runner is between the
    /// top of its jump and the ground, the ground within its strip, the
    /// obstacles within the queue's bounds, in screen order and on pace; the
    /// count of pressed samples has not passed the threshold, and is zero
    /// during play.
    pub open spec fn wf(self) -> bool {
        &&& self.trex.wf()
        &&& on_pace(self.obstacles)
        &&& self.ground.wf()
        &&& self.clicked_count <= RESTART_THRESHOLD
        &&& self.state == GameState::Playing ==> self.clicked_count == 0
    }

    /// The session after a jump request.
    pub open spec fn jumped(self) -> GameView {
        GameView { trex: self.trex.jumped(), ..self }
    }

    /// The score after a frame.
    pub open spec fn scored(self, new_cactus: bool) -> u32 {
        if new_cactus && self.score < u32::MAX {
            (self.score + 1) as u32
        } else {
            self.score
        }
    }

    /// The session after the world has moved by one frame: first the ground,
    /// then the obstacles, with the raw draw `raw` in case one is recycled,
    /// then the runner. Each recycled obstacle scores.
    pub open spec fn world_moved(self, raw: u32) -> GameView {
        GameView {
            trex: self.trex.updated(),
            obstacles: advanced(self.obstacles, OBSTACLE_VELOCITY, raw),
            ground: self.ground.moved(OBSTACLE_VELOCITY),
            score: self.scored(head_off_screen(shifted(self.obstacles, OBSTACLE_VELOCITY))),
            ..self
        }
    }

    /// Whether the runner is in collision with an obstacle.
    pub open spec fn collided(self) -> bool {
        self.sheet.collides(self.trex, self.obstacles)
    }

    /// The session with the game over.
    pub open spec fn ended(self) -> GameView {
        GameView { state: GameState::GameOver, ..self }
    }

    /// A frame of play: the jump request if the button is pressed, the world's
    /// move, and the end of the game if the runner then collides.
    pub open spec fn played(self, pressed: bool, raw: u32) -> GameView {
        let requested = if pressed {
            self.jumped()
        } else {
            self
        };
        let moved = requested.world_moved(raw);
        if moved.collided() {
            moved.ended()
        } else {
            moved
        }
    }

    /// The count of pressed samples after one more sample.
    pub open spec fn counted(self, pressed: bool) -> int {
        if pressed {
            self.clicked_count + 1
        } else {
            self.clicked_count as int
        }
    }

    /// A pass while the game is over: nothing moves. Each pressed sample is
    /// counted, released ones in between do not reset the count, and the
    /// sample that takes the count beyond `RESTART_THRESHOLD` begins a new
    /// session.
    pub open spec fn idled(self, pressed: bool) -> GameView {
        if self.counted(pressed) > RESTART_THRESHOLD {
            GameView::fresh(self.sheet)
        } else {
            GameView { clicked_count: self.counted(pressed) as u32, ..self }
        }
    }

    /// The session after one pass for each of `samples`, in turn, all of
    /// them while the game is over.
    pub open spec fn idled_each(self, samples: Seq<bool>) -> GameView
        decreases samples.len(),
    {
        if samples.len() == 0 {
            self
        } else {
            self.idled_each(samples.drop_last()).idled(samples.last())
        }
    }
}

/// One session of the game.
pub struct Game<R> where R: Rng {
    trex: Trex,
    obstacles: Obstacles<R>,
    ground: Ground,
    state: GameState,
    score: u32,
    clicked_count: u32,
    sheet: SpriteSheet,
}

impl<R> View for Game<R> where R: Rng {
    type V = GameView;

    closed spec fn view(&self) -> GameView {
        GameView {
            trex: self.trex,
            obstacles: self.obstacles@,
            ground: self.ground,
            state: self.state,
            score: self.score,
            clicked_count: self.clicked_count,
            sheet: self.sheet,
        }
    }
}

impl<R> Game<R> where R: Rng {
    #[verifier::type_invariant]
    spec fn inv(self) -> bool {
        self@.wf()
    }

    /// The source of randomness that the session holds.
    pub closed spec fn rng(self) -> R {
        self.obstacles.rng
    }

    /// A new session that draws from `rng` and collides by the extents in `sheet`.
    pub fn new(rng: R, sheet: SpriteSheet) -> (game: Self)
        ensures
            game@ == GameView::fresh(sheet),
            game@.wf(),
            game.rng() == rng,
    {
        Game {
            trex: Trex::new(TREX_X, TREX_GROUND_Y),
            obstacles: Obstacles::new(rng),
            ground: Ground::default(),
            state: GameState::Playing,
            score: 0,
            clicked_count: 0,
            sheet,
        }
    }

    /// Whether the session is being played or has ended.
    pub fn state(&self) -> (state: GameState)
        ensures
            state == self@.state,
    {
        self.state
    }

    /// Obstacles recycled in this session.
    pub fn score(&self) -> (score: u32)
        ensures
            score == self@.score,
    {
        self.score
    }

    /// The runner, for drawing.
    pub fn trex(&self) -> (trex: &Trex)
        ensures
            *trex == self@.trex,
            trex.wf(),
    {
        proof {
            use_type_invariant(self);
        }
        &self.trex
    }

    /// The ground, for drawing.
    pub fn ground(&self) -> (ground: &Ground)
        ensures
            *ground == self@.ground,
            ground.wf(),
    {
        proof {
            use_type_invariant(self);
        }
        &self.ground
    }

    /// The obstacles, for drawing.
    pub fn obstacles(&self) -> (obstacles: &Obstacles<R>)
        ensures
            obstacles@ == self@.obstacles,
            obstacles.rng == self.rng(),
            obstacles.wf(),
    {
        proof {
            use_type_invariant(self);
        }
        &self.obstacles
    }

    /// The extents by which the session collides.
    pub fn sheet(&self) -> (sheet: SpriteSheet)
        ensures
            sheet == self@.sheet,
    {
        self.sheet
    }

    /// Passes a jump request on to the runner.
    pub fn trex_jump(self) -> (next: Self)
        ensures
            next@ == self@.jumped(),
            next.rng() == self.rng(),
    {
        proof {
            use_type_invariant(&self);
        }
        let Game { trex, obstacles, ground, state, score, clicked_count, sheet } = self;
        let mut trex = trex;
        trex.jump();
        Game { trex, obstacles, ground, state, score, clicked_count, sheet }
    }

    /// Moves the world by one frame: the ground, the obstacles, the runner.
    /// The source of randomness is asked only if an obstacle is recycled.
    pub fn move_world(self) -> (next: Self)
        ensures
            exists|raw: u32| next@ == #[trigger] self@.world_moved(raw),
            !head_off_screen(shifted(self@.obstacles, OBSTACLE_VELOCITY)) ==> next.rng()
                == self.rng(),
    {
        proof {
            use_type_invariant(&self);
        }
        let Game { trex, obstacles, ground, state, score, clicked_count, sheet } = self;
        let mut trex = trex;
        let mut obstacles = obstacles;
        let mut ground = ground;
        let mut score = score;
        proof {
            lemma_advance_keeps_pace(obstacles@, 0);
        }
        ground.move_by_velocity(OBSTACLE_VELOCITY);
        let new_cactus = obstacles.update_state();
        if new_cactus && score < u32::MAX {
            score += 1;
        }
        trex.update_state();
        let next = Game { trex, obstacles, ground, state, score, clicked_count, sheet };
        proof {
            let raw = choose|raw: u32|
                obstacles@ == #[trigger] advanced(self@.obstacles, OBSTACLE_VELOCITY, raw);
            assert(next@ == self@.world_moved(raw));
        }
        next
    }

    /// Whether the runner is in collision with an obstacle.
    pub fn check_collison(&self) -> (hit: bool)
        ensures
            hit == self@.collided(),
    {
        self.sheet.check(&self.trex, &self.obstacles)
    }

    /// Ends the session.
    pub fn game_over(self) -> (next: Self)
        ensures
            next@ == self@.ended(),
            next.rng() == self.rng(),
    {
        proof {
            use_type_invariant(&self);
        }
        let Game { trex, obstacles, ground, state: _, score, clicked_count, sheet } = self;
        Game { trex, obstacles, ground, state: GameState::GameOver, score, clicked_count, sheet }
    }

    /// Begins a new session with the same source of randomness, which goes
    /// on from where it was: nothing about it is reset.
    pub fn restart(self) -> (next: Self)
        ensures
            next@ == GameView::fresh(self@.sheet),
            next.rng() == self.rng(),
    {
        let Game { trex: _, obstacles, ground: _, state: _, score: _, clicked_count: _, sheet } = self;
        let Obstacles { buffer: _, rng } = obstacles;
        Game::new(rng, sheet)
    }

    /// One pass of the embedding program's loop, for the button sample
    /// `pressed`.
    ///
    /// During play this is a frame: jump request, the world's move,
    /// collision test. Once the game is over nothing moves, and the pass only
    /// counts the pressed samples until they call for a restart.
    pub fn tick(self, pressed: bool) -> (next: (Self, FrameAction))
        ensures
            next.0@.wf(),
            self@.state == GameState::GameOver ==> {
                &&& next.0@ == self@.idled(pressed)
                &&& next.0.rng() == self.rng()
                &&& next.1 == if self@.counted(pressed) > RESTART_THRESHOLD {
                    FrameAction::Restarted
                } else {
                    FrameAction::Idle
                }
            },
            self@.state == GameState::Playing ==> {
                &&& exists|raw: u32| next.0@ == #[trigger] self@.played(pressed, raw)
                &&& next.1 == if next.0@.state == GameState::GameOver {
                    FrameAction::DrawGameOver
                } else {
                    FrameAction::Draw
                }
                &&& !head_off_screen(shifted(self@.obstacles, OBSTACLE_VELOCITY)) ==> next.0.rng()
                    == self.rng()
            },
    {
        proof {
            use_type_invariant(&self);
        }
        match self.state {
            GameState::GameOver => {
                let count = if pressed {
                    self.clicked_count + 1
                } else {
                    self.clicked_count
                };
                if count > RESTART_THRESHOLD {
                    (self.restart(), FrameAction::Restarted)
                } else {
                    let Game { trex, obstacles, ground, state, score, clicked_count: _, sheet } = self;
                    (
                        Game { trex, obstacles, ground, state, score, clicked_count: count, sheet },
                        FrameAction::Idle,
                    )
                }
            },
            GameState::Playing => {
                let requested = if pressed {
                    self.trex_jump()
                } else {
                    self
                };
                let moved = requested.move_world();
                let ghost raw = choose|raw: u32| moved@ == #[trigger] requested@.world_moved(raw);
                if moved.check_collison() {
                    let ended = moved.game_over();
                    proof {
                        use_type_invariant(&ended);
                        assert(ended@ == self@.played(pressed, raw));
                    }
                    (ended, FrameAction::DrawGameOver)
                } else {
                    proof {
                        use_type_invariant(&moved);
                        assert(moved@ == self@.played(pressed, raw));
                    }
                    (moved, FrameAction::Draw)
                }
            },
        }
    }
}

/// A session begins well-formed, and every pass of the loop keeps it so,
/// whatever the button does and whatever is drawn.
pub proof fn lemma_frames_keep_wf(view: GameView, pressed: bool, raw: u32)
    requires
        view.wf(),
    ensures
        GameView::fresh(view.sheet).wf(),
        view.state == GameState::Playing ==> view.played(pressed, raw).wf(),
        view.state == GameState::GameOver ==> view.idled(pressed).wf(),
{
    assert(ordered(seeded()));
    lemma_advance_keeps_pace(view.obstacles, raw);
    lemma_update_clamps(view.trex);
    lemma_update_clamps(view.trex.jumped());
}

/// The number of pressed samples among `samples`.
pub open spec fn presses(samples: Seq<bool>) -> nat
    decreases samples.len(),
{
    if samples.len() == 0 {
        0
    } else if samples.last() {
        presses(samples.drop_last()) + 1
    } else {
        presses(samples.drop_last())
    }
}

/// While the game is over the simulation is frozen, and only pressed samples
/// count towards the restart.
///
/// From the end of a game on, as long as no more than `RESTART_THRESHOLD`
/// samples were pressed, nothing has changed but the count, which is the
/// number of pressed samples, however many released ones lie between them.
/// The next pressed sample after `RESTART_THRESHOLD` of them begins a new
/// session.
pub proof fn lemma_restart_counts_presses(view: GameView, samples: Seq<bool>)
    requires
        view.state == GameState::GameOver,
        view.clicked_count == 0,
        presses(samples) <= RESTART_THRESHOLD,
    ensures
        view.idled_each(samples) == (GameView { clicked_count: presses(samples) as u32, ..view }),
        presses(samples) == RESTART_THRESHOLD ==> view.idled_each(samples).idled(true)
            == GameView::fresh(view.sheet),
        view.idled_each(samples).idled(false) == view.idled_each(samples),
    decreases samples.len(),
{
    if samples.len() > 0 {
        lemma_restart_counts_presses(view, samples.drop_last());
    }
}

/// A frame of play ends the game exactly when the runner collides after the
/// world has moved: what is still being played is free of collision.
pub proof fn lemma_play_ends_on_collision(view: GameView, pressed: bool, raw: u32)
    requires
        view.state == GameState::Playing,
    ensures
        view.played(pressed, raw).state == GameState::GameOver <==> view.played(
            pressed,
            raw,
        ).collided(),
{
}

} // verus!
