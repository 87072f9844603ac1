use esp32_rex::geometry::{Point, Rectangle, Size};
use esp32_rex::sprites::{
    Trex, TrexState, GRAVITY, TREX_GROUND_Y, TREX_MIN_Y, TREX_VELOCITY, TREX_X,
};

#[test]
fn new_trex_runs_where_it_is_put() {
    let trex = Trex::new(TREX_X, TREX_GROUND_Y);
    assert_eq!(trex.state, TrexState::Running);
    assert_eq!(trex.position, Point { x: 10, y: 29 });
    assert_eq!(trex.img, Point { x: 10, y: 29 });
}

#[test]
fn constants_of_the_jump() {
    assert_eq!(TREX_VELOCITY, -10);
    assert_eq!(GRAVITY, 6);
    assert_eq!(TREX_MIN_Y, 3);
    assert_eq!(TREX_GROUND_Y, 29);
}

#[test]
fn jump_rises_to_the_top_and_turns_to_falling() {
    let mut trex = Trex::new(TREX_X, TREX_GROUND_Y);
    trex.jump();
    assert_eq!(trex.state, TrexState::Jumping);
    assert_eq!(trex.position.y, 29);
    trex.update_state();
    assert_eq!((trex.position.y, trex.state), (19, TrexState::Jumping));
    trex.update_state();
    assert_eq!((trex.position.y, trex.state), (9, TrexState::Jumping));
    trex.update_state();
    assert_eq!((trex.position.y, trex.state), (3, TrexState::Falling));
    assert_eq!(trex.img, trex.position);
}

#[test]
fn fall_lands_on_the_ground_and_turns_to_running() {
    let mut trex = Trex::new(TREX_X, TREX_MIN_Y);
    trex.state = TrexState::Falling;
    let mut rows = Vec::new();
    while trex.state == TrexState::Falling {
        trex.update_state();
        rows.push(trex.position.y);
    }
    assert_eq!(rows, vec![9, 15, 21, 27, 29]);
    assert_eq!(trex.state, TrexState::Running);
    assert_eq!(trex.img, Point { x: 10, y: 29 });
}

#[test]
fn whole_jump_takes_eight_frames_and_stays_in_range() {
    let mut trex = Trex::new(TREX_X, TREX_GROUND_Y);
    trex.jump();
    let mut frames = 0;
    while trex.state != TrexState::Running {
        trex.update_state();
        frames += 1;
        assert!(TREX_MIN_Y <= trex.position.y && trex.position.y <= TREX_GROUND_Y);
        assert_eq!(trex.position.x, TREX_X);
    }
    assert_eq!(frames, 8);
    assert_eq!(trex.position.y, TREX_GROUND_Y);
}

#[test]
fn running_trex_is_left_alone_by_a_frame() {
    let mut trex = Trex::new(TREX_X, TREX_GROUND_Y);
    for _ in 0..5 {
        trex.update_state();
    }
    assert_eq!(trex, Trex::new(TREX_X, TREX_GROUND_Y));
}

#[test]
fn jump_is_ignored_in_the_air() {
    let mut rising = Trex::new(TREX_X, 19);
    rising.state = TrexState::Jumping;
    let before = rising;
    rising.jump();
    assert_eq!(rising, before);

    let mut falling = Trex::new(TREX_X, 15);
    falling.state = TrexState::Falling;
    let before = falling;
    falling.jump();
    assert_eq!(falling, before);
}

#[test]
fn rise_that_lands_exactly_on_the_top_turns_to_falling() {
    let mut trex = Trex::new(TREX_X, 13);
    trex.state = TrexState::Jumping;
    trex.update_state();
    assert_eq!((trex.position.y, trex.state), (3, TrexState::Falling));
}

#[test]
fn rise_just_short_of_the_top_keeps_rising() {
    let mut trex = Trex::new(TREX_X, 14);
    trex.state = TrexState::Jumping;
    trex.update_state();
    assert_eq!((trex.position.y, trex.state), (4, TrexState::Jumping));
}

#[test]
fn fall_that_lands_exactly_on_the_ground_turns_to_running() {
    let mut trex = Trex::new(TREX_X, 23);
    trex.state = TrexState::Falling;
    trex.update_state();
    assert_eq!((trex.position.y, trex.state), (29, TrexState::Running));
}

#[test]
fn fall_just_short_of_the_ground_keeps_falling() {
    let mut trex = Trex::new(TREX_X, 22);
    trex.state = TrexState::Falling;
    trex.update_state();
    assert_eq!((trex.position.y, trex.state), (28, TrexState::Falling));
}

#[test]
fn update_posistion_moves_the_bitmap_only() {
    let mut trex = Trex::new(TREX_X, TREX_GROUND_Y);
    trex.update_posistion(40, 7);
    assert_eq!(trex.img, Point { x: 40, y: 7 });
    assert_eq!(trex.position, Point { x: 10, y: 29 });
    assert_eq!(trex.state, TrexState::Running);
}

#[test]
fn frame_in_the_air_draws_the_bitmap_where_the_trex_is() {
    let mut trex = Trex::new(TREX_X, TREX_GROUND_Y);
    trex.update_posistion(40, 7);
    trex.jump();
    trex.update_state();
    assert_eq!(trex.img, Point { x: 10, y: 19 });
}

#[test]
fn trex_box_begins_at_its_position() {
    let mut trex = Trex::new(TREX_X, TREX_GROUND_Y);
    trex.update_posistion(40, 7);
    let area = trex.bounding_box(Size::new(25, 26));
    assert_eq!(
        area,
        Rectangle { top_left: Point { x: 10, y: 29 }, size: Size { width: 25, height: 26 } }
    );
}
