use movement_core::components::{Direction, Position, Velocity};
use movement_core::geometry::Point;
use movement_core::physics::Physics;

fn at(x: i32, y: i32) -> Position {
    Position(Point::new(x, y))
}

fn going(speed: i32, direction: Direction) -> Velocity {
    Velocity { speed, direction }
}

#[test]
fn step_moves_along_the_heading() {
    assert_eq!(Physics::step(at(10, 20), going(5, Direction::Left)), at(5, 20));
    assert_eq!(Physics::step(at(10, 20), going(5, Direction::Right)), at(15, 20));
    assert_eq!(Physics::step(at(10, 20), going(5, Direction::Up)), at(10, 15));
    assert_eq!(Physics::step(at(10, 20), going(5, Direction::Down)), at(10, 25));
}

#[test]
fn step_at_speed_zero_changes_nothing() {
    for d in [Direction::Up, Direction::Down, Direction::Left, Direction::Right] {
        assert_eq!(Physics::step(at(-3, 8), going(0, d)), at(-3, 8));
        let wild = Position(Point { x: i32::MAX, y: i32::MIN });
        assert_eq!(Physics::step(wild, going(0, d)), wild);
    }
}

#[test]
fn step_with_negative_speed_moves_backwards() {
    assert_eq!(Physics::step(at(10, 20), going(-5, Direction::Right)), at(5, 20));
    assert_eq!(Physics::step(at(10, 20), going(-5, Direction::Up)), at(10, 25));
}

#[test]
fn step_stops_at_the_edge_of_the_coordinate_range() {
    assert_eq!(Physics::step(at(1073741820, 0), going(5, Direction::Right)), at(1073741823, 0));
    assert_eq!(Physics::step(at(-1073741820, 0), going(5, Direction::Left)), at(-1073741824, 0));
    assert_eq!(Physics::step(at(0, -1073741824), going(1, Direction::Up)), at(0, -1073741824));
    assert_eq!(Physics::step(at(0, 1073741823), going(1, Direction::Down)), at(0, 1073741823));
}

#[test]
fn step_with_extreme_speed_does_not_overflow() {
    assert_eq!(Physics::step(at(0, 0), going(i32::MIN, Direction::Left)), at(1073741823, 0));
    assert_eq!(Physics::step(at(0, 0), going(i32::MIN, Direction::Right)), at(-1073741824, 0));
    assert_eq!(Physics::step(at(0, 0), going(i32::MAX, Direction::Up)), at(0, -1073741824));
    assert_eq!(Physics::step(at(0, 0), going(i32::MAX, Direction::Down)), at(0, 1073741823));
    let wild = Position(Point { x: i32::MIN, y: 7 });
    assert_eq!(Physics::step(wild, going(i32::MIN, Direction::Left)), at(0, 7));
}

#[test]
fn step_leaves_the_other_axis_alone() {
    let wild = Position(Point { x: 5, y: i32::MAX });
    assert_eq!(Physics::step(wild, going(2, Direction::Right)), Position(Point { x: 7, y: i32::MAX }));
}

#[test]
fn steady_motion_adds_up_over_ticks() {
    let speed = 5;
    let ticks = 1000;
    let mut pos = at(-12, 34);
    for _ in 0..ticks {
        pos = Physics::step(pos, going(speed, Direction::Right));
    }
    assert_eq!(pos, at(-12 + ticks * speed, 34));
    for _ in 0..ticks {
        pos = Physics::step(pos, going(speed, Direction::Up));
    }
    assert_eq!(pos, at(-12 + ticks * speed, 34 - ticks * speed));
}

#[test]
fn ticks_with_different_headings_commute() {
    let a = going(5, Direction::Right);
    let b = going(3, Direction::Down);
    let start = at(1, 2);
    assert_eq!(Physics::step(Physics::step(start, a), b), Physics::step(Physics::step(start, b), a));
    assert_eq!(Physics::step(Physics::step(start, a), b), at(6, 5));
}

#[test]
fn run_moves_entities_that_have_both_components() {
    let mut positions = vec![Some(at(0, 0)), None, Some(at(5, 5)), Some(at(9, 9)), Some(at(1, 1))];
    let velocities = vec![
        Some(going(5, Direction::Right)),
        Some(going(5, Direction::Right)),
        None,
        Some(going(0, Direction::Left)),
        Some(going(2, Direction::Up)),
    ];
    let mut physics = Physics;
    physics.run(&mut positions, &velocities);
    assert_eq!(positions, vec![Some(at(5, 0)), None, Some(at(5, 5)), Some(at(9, 9)), Some(at(1, -1))]);
}

#[test]
fn run_with_tables_of_different_length() {
    let mut positions = vec![Some(at(0, 0)), Some(at(1, 1)), Some(at(2, 2))];
    let velocities = vec![Some(going(1, Direction::Down))];
    let mut physics = Physics;
    physics.run(&mut positions, &velocities);
    assert_eq!(positions, vec![Some(at(0, 1)), Some(at(1, 1)), Some(at(2, 2))]);

    let mut few = vec![Some(at(0, 0))];
    let many = vec![Some(going(1, Direction::Down)), Some(going(1, Direction::Down))];
    physics.run(&mut few, &many);
    assert_eq!(few, vec![Some(at(0, 1))]);

    let mut none: Vec<Option<Position>> = Vec::new();
    physics.run(&mut none, &many);
    assert!(none.is_empty());
}
