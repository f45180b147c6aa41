use snake_core::grid::{Direction, GridConfig, GridPos};

#[test]
fn opposite_pairs() {
    assert_eq!(Direction::Left.opposite(), Direction::Right);
    assert_eq!(Direction::Right.opposite(), Direction::Left);
    assert_eq!(Direction::Up.opposite(), Direction::Down);
    assert_eq!(Direction::Down.opposite(), Direction::Up);
}

#[test]
fn opposite_twice_is_identity() {
    for d in [Direction::Left, Direction::Right, Direction::Up, Direction::Down] {
        assert_eq!(d.opposite().opposite(), d);
    }
}

#[test]
fn step_moves_one_cell() {
    let c = GridConfig::new(20, 15);
    let p = GridPos { x: 5, y: 7 };
    assert_eq!(p.step(Direction::Left, &c), Some(GridPos { x: 4, y: 7 }));
    assert_eq!(p.step(Direction::Right, &c), Some(GridPos { x: 6, y: 7 }));
    assert_eq!(p.step(Direction::Up, &c), Some(GridPos { x: 5, y: 6 }));
    assert_eq!(p.step(Direction::Down, &c), Some(GridPos { x: 5, y: 8 }));
}

#[test]
fn step_off_grid_is_none() {
    let c = GridConfig::new(20, 15);
    assert_eq!(GridPos { x: 0, y: 5 }.step(Direction::Left, &c), None);
    assert_eq!(GridPos { x: 19, y: 5 }.step(Direction::Right, &c), None);
    assert_eq!(GridPos { x: 5, y: 0 }.step(Direction::Up, &c), None);
    assert_eq!(GridPos { x: 5, y: 14 }.step(Direction::Down, &c), None);
}
