use esp32_rex::geometry::Point;
use esp32_rex::rng::Rng;
use esp32_rex::sprites::{
    Obstacle, Obstacles, Shape, BUFF_SIZE, CACTUS_Y, OBSTACLE_GAP, OBSTACLE_VELOCITY, OLED_WIDTH,
};

struct Script {
    values: Vec<u32>,
    asked: usize,
}

impl Script {
    fn of(values: &[u32]) -> Self {
        Script { values: values.to_vec(), asked: 0 }
    }
}

impl Rng for Script {
    fn random_u32(&mut self) -> u32 {
        let value = self.values[self.asked % self.values.len()];
        self.asked += 1;
        value
    }
}

fn columns(obstacles: &Obstacles<Script>) -> Vec<i32> {
    obstacles.get_current().iter().map(|obstacle| obstacle.x).collect()
}

fn shapes(obstacles: &Obstacles<Script>) -> Vec<Shape> {
    obstacles.get_current().iter().map(|obstacle| obstacle.shape).collect()
}

fn items(obstacles: &Obstacles<Script>) -> Vec<Obstacle> {
    obstacles.get_current().iter().copied().collect()
}

fn cactus(shape: Shape, x: i32) -> Obstacle {
    Obstacle::new(shape, x, CACTUS_Y)
}

#[test]
fn shape_numbers() {
    assert_eq!(Shape::from_id(0), Shape::Cactus1);
    assert_eq!(Shape::from_id(1), Shape::Cactus2);
    assert_eq!(Shape::from_id(2), Shape::Cactus3);
}

#[test]
fn new_obstacle_is_drawn_where_it_is() {
    let obstacle = Obstacle::new(Shape::Cactus3, 77, 35);
    assert_eq!(obstacle.x, 77);
    assert_eq!(obstacle.img, Point { x: 77, y: 35 });
    assert_eq!(obstacle.shape, Shape::Cactus3);
}

#[test]
fn obstacle_moves_with_its_bitmap() {
    let mut obstacle = Obstacle::new(Shape::Cactus1, 128, CACTUS_Y);
    obstacle.move_by_velocity(-14);
    assert_eq!(obstacle.x, 114);
    assert_eq!(obstacle.img, Point { x: 114, y: 35 });
    assert_eq!(obstacle.shape, Shape::Cactus1);
    obstacle.move_by_velocity(20);
    assert_eq!(obstacle.x, 134);
    assert_eq!(obstacle.img.x, 134);
}

#[test]
fn manager_begins_with_two_obstacles() {
    let obstacles = Obstacles::new(Script::of(&[0]));
    assert_eq!(OLED_WIDTH, 128);
    assert_eq!(OBSTACLE_GAP, 100);
    assert_eq!(obstacles.len(), 2);
    assert_eq!(
        items(&obstacles),
        vec![cactus(Shape::Cactus1, 128), cactus(Shape::Cactus2, 228)]
    );
    assert_eq!(obstacles.get(0), cactus(Shape::Cactus1, 128));
    assert_eq!(obstacles.get(1), cactus(Shape::Cactus2, 228));
    assert_eq!(obstacles.rng.asked, 0);
}

#[test]
fn shift_moves_every_obstacle_in_place() {
    let mut obstacles = Obstacles::new(Script::of(&[0]));
    obstacles.shift(-14);
    assert_eq!(columns(&obstacles), vec![114, 214]);
    assert_eq!(shapes(&obstacles), vec![Shape::Cactus1, Shape::Cactus2]);
    assert_eq!(obstacles.get_current().iter().map(|o| o.img.x).collect::<Vec<_>>(), vec![114, 214]);
    obstacles.shift(-200);
    assert_eq!(columns(&obstacles), vec![-86, 14]);
    assert_eq!(obstacles.rng.asked, 0);
}

#[test]
fn head_is_off_screen_once_its_column_is_negative() {
    let mut obstacles = Obstacles::new(Script::of(&[0]));
    assert!(!obstacles.head_off_screen());
    obstacles.shift(-128);
    assert_eq!(columns(&obstacles), vec![0, 100]);
    assert!(!obstacles.head_off_screen());
    obstacles.shift(-1);
    assert!(obstacles.head_off_screen());
}

#[test]
fn head_of_an_empty_queue_is_not_off_screen() {
    let mut obstacles = Obstacles::new(Script::of(&[0]));
    obstacles.buffer.dequeue();
    obstacles.buffer.dequeue();
    assert_eq!(obstacles.len(), 0);
    assert!(!obstacles.head_off_screen());
    assert!(!obstacles.advance(-14));
    assert_eq!(obstacles.len(), 0);
    assert_eq!(obstacles.rng.asked, 0);
}

#[test]
fn recycle_takes_the_oldest_out_and_appends_by_the_draw() {
    let mut obstacles = Obstacles::new(Script::of(&[0]));
    obstacles.recycle(7);
    assert_eq!(
        items(&obstacles),
        vec![cactus(Shape::Cactus2, 228), cactus(Shape::Cactus2, 228)]
    );
    obstacles.recycle(2);
    assert_eq!(
        items(&obstacles),
        vec![cactus(Shape::Cactus2, 228), cactus(Shape::Cactus3, 228)]
    );
    obstacles.recycle(9);
    assert_eq!(
        items(&obstacles),
        vec![cactus(Shape::Cactus3, 228), cactus(Shape::Cactus1, 228)]
    );
    assert_eq!(obstacles.rng.asked, 0);
}

#[test]
fn spawn_appends_while_there_is_room_and_is_dropped_when_there_is_none() {
    let mut obstacles = Obstacles::new(Script::of(&[0]));
    assert_eq!(BUFF_SIZE, 4);
    obstacles.spawn(cactus(Shape::Cactus3, 300));
    assert_eq!(columns(&obstacles), vec![128, 228, 300]);
    obstacles.spawn(cactus(Shape::Cactus1, 400));
    assert_eq!(columns(&obstacles), vec![128, 228, 300, 400]);
    assert_eq!(obstacles.len(), 4);
    obstacles.spawn(cactus(Shape::Cactus2, 500));
    assert_eq!(columns(&obstacles), vec![128, 228, 300, 400]);
    assert_eq!(shapes(&obstacles), vec![Shape::Cactus1, Shape::Cactus2, Shape::Cactus3, Shape::Cactus1]);
    assert_eq!(obstacles.len(), 4);
}

#[test]
fn recycle_of_a_full_queue_makes_room_first() {
    let mut obstacles = Obstacles::new(Script::of(&[0]));
    obstacles.spawn(cactus(Shape::Cactus3, 300));
    obstacles.spawn(cactus(Shape::Cactus1, 400));
    obstacles.recycle(5);
    assert_eq!(columns(&obstacles), vec![228, 300, 400, 228]);
    assert_eq!(obstacles.get(3), cactus(Shape::Cactus3, 228));
}

#[test]
fn seeded_manager_recycles_in_the_tenth_frame() {
    let mut obstacles = Obstacles::new(Script::of(&[7, 2, 11]));
    assert_eq!(OBSTACLE_VELOCITY, -14);
    for frame in 1..=9 {
        assert!(!obstacles.advance(-14));
        assert_eq!(columns(&obstacles), vec![128 - 14 * frame, 228 - 14 * frame]);
        assert_eq!(obstacles.rng.asked, 0);
    }
    assert_eq!(columns(&obstacles), vec![2, 102]);
    assert!(obstacles.advance(-14));
    assert_eq!(obstacles.len(), 2);
    assert_eq!(
        items(&obstacles),
        vec![cactus(Shape::Cactus2, 88), cactus(Shape::Cactus2, 228)]
    );
    assert_eq!(obstacles.rng.asked, 1);
}

#[test]
fn update_state_moves_at_the_usual_speed() {
    let mut obstacles = Obstacles::new(Script::of(&[7, 2, 11]));
    assert!(!obstacles.update_state());
    assert_eq!(columns(&obstacles), vec![114, 214]);
    for _ in 0..8 {
        assert!(!obstacles.update_state());
    }
    assert!(obstacles.update_state());
    assert_eq!(columns(&obstacles), vec![88, 228]);
}

#[test]
fn shapes_follow_the_draws_in_order() {
    let mut obstacles = Obstacles::new(Script::of(&[7, 2, 11]));
    let mut newcomers = Vec::new();
    for _ in 0..40 {
        if obstacles.update_state() {
            newcomers.push(obstacles.get(obstacles.len() - 1).shape);
        }
    }
    assert_eq!(newcomers, vec![Shape::Cactus2, Shape::Cactus3, Shape::Cactus3, Shape::Cactus2]);
    assert_eq!(obstacles.rng.asked, 4);
}

#[test]
fn long_run_keeps_two_obstacles_in_screen_order() {
    let mut obstacles = Obstacles::new(Script::of(&[3, 1, 4, 1, 5, 9, 2, 6]));
    let mut recycles = 0;
    for _ in 0..1000 {
        if obstacles.update_state() {
            recycles += 1;
        }
        let columns = columns(&obstacles);
        assert_eq!(columns.len(), 2);
        assert!(columns[0] <= columns[1]);
        assert!(columns[0] >= -14);
        assert!(columns[1] <= 228);
        for obstacle in obstacles.get_current().iter() {
            assert_eq!(obstacle.img, Point { x: obstacle.x, y: CACTUS_Y });
        }
    }
    assert_eq!(obstacles.rng.asked, recycles);
    assert!(recycles > 100);
}

#[test]
fn newcomer_is_placed_at_the_spawn_column_wherever_the_others_are() {
    let mut obstacles = Obstacles::new(Script::of(&[0]));
    obstacles.buffer.dequeue();
    obstacles.buffer.dequeue();
    obstacles.buffer.enqueue(cactus(Shape::Cactus1, 5)).unwrap();
    obstacles.buffer.enqueue(cactus(Shape::Cactus2, 8)).unwrap();
    obstacles.buffer.enqueue(cactus(Shape::Cactus3, 220)).unwrap();
    assert!(obstacles.advance(-14));
    assert_eq!(columns(&obstacles), vec![-6, 206, 228]);
    assert!(obstacles.advance(-14));
    assert_eq!(columns(&obstacles), vec![192, 214, 228]);
    assert!(!obstacles.advance(-14));
    assert_eq!(columns(&obstacles), vec![178, 200, 214]);
}

#[test]
fn only_the_head_is_looked_at() {
    let mut obstacles = Obstacles::new(Script::of(&[0]));
    obstacles.buffer.dequeue();
    obstacles.buffer.dequeue();
    obstacles.buffer.enqueue(cactus(Shape::Cactus1, 50)).unwrap();
    obstacles.buffer.enqueue(cactus(Shape::Cactus2, 3)).unwrap();
    assert!(!obstacles.advance(-14));
    assert_eq!(columns(&obstacles), vec![36, -11]);
    assert_eq!(obstacles.rng.asked, 0);
}
