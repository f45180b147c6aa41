use snake_core::grid::{Direction, EntityKind, GridConfig, GridPos};
use snake_core::occupancy::OccupancyMap;
use snake_core::snake::{MoveResult, Snake};

/// A snake with the given head and body, registered coherently in a fresh
/// 10 x 10 occupancy map (body cells listed oldest first).
fn setup(head: GridPos, direction: Direction, body: Vec<GridPos>) -> (Snake, OccupancyMap) {
    let c = GridConfig::new(10, 10);
    let mut map = OccupancyMap::new(c);
    map.insert(head, EntityKind::SnakeHead);
    for p in &body {
        map.insert(*p, EntityKind::SnakeSegment);
    }
    (Snake { head, direction, body }, map)
}

#[test]
fn set_direction_opposite_is_ignored() {
    for d in [Direction::Left, Direction::Right, Direction::Up, Direction::Down] {
        let (mut snake, _map) = setup(GridPos { x: 5, y: 5 }, d, vec![]);
        snake.set_direction(&d.opposite());
        assert_eq!(snake.direction, d);
    }
}

#[test]
fn set_direction_non_opposite_is_taken() {
    for d in [Direction::Left, Direction::Right, Direction::Up, Direction::Down] {
        for requested in [Direction::Left, Direction::Right, Direction::Up, Direction::Down] {
            if requested == d.opposite() {
                continue;
            }
            let (mut snake, _map) = setup(GridPos { x: 5, y: 5 }, d, vec![]);
            snake.set_direction(&requested);
            assert_eq!(snake.direction, requested);
        }
    }
}

#[test]
fn move_into_empty_cell_conserves_length() {
    let (mut snake, mut map) = setup(
        GridPos { x: 5, y: 5 },
        Direction::Up,
        vec![GridPos { x: 5, y: 7 }, GridPos { x: 5, y: 6 }],
    );
    let r = snake.move_forward(&mut map);
    assert_eq!(r, MoveResult::Moving);
    assert_eq!(snake.head, GridPos { x: 5, y: 4 });
    assert_eq!(snake.body, vec![GridPos { x: 5, y: 6 }, GridPos { x: 5, y: 5 }]);
    // the old tail cell is gone from the map, the new head cell is the head
    assert!(!map.contains(GridPos { x: 5, y: 7 }));
    assert_eq!(map.get(GridPos { x: 5, y: 4 }), Some(EntityKind::SnakeHead));
    assert_eq!(map.get(GridPos { x: 5, y: 5 }), Some(EntityKind::SnakeSegment));
    assert_eq!(map.get(GridPos { x: 5, y: 6 }), Some(EntityKind::SnakeSegment));
}

#[test]
fn move_into_food_grows() {
    // grid 10 x 10, head at (5,5), direction Up, empty body, food at (5,4)
    let (mut snake, mut map) = setup(GridPos { x: 5, y: 5 }, Direction::Up, vec![]);
    map.insert(GridPos { x: 5, y: 4 }, EntityKind::Food);
    let r = snake.move_forward(&mut map);
    assert_eq!(r, MoveResult::AteFood);
    assert_eq!(snake.head, GridPos { x: 5, y: 4 });
    assert_eq!(snake.body, vec![GridPos { x: 5, y: 5 }]);
    assert_eq!(map.get(GridPos { x: 5, y: 4 }), Some(EntityKind::SnakeHead));
    assert_eq!(map.get(GridPos { x: 5, y: 5 }), Some(EntityKind::SnakeSegment));
}

#[test]
fn eating_removes_no_tail() {
    let (mut snake, mut map) = setup(
        GridPos { x: 5, y: 5 },
        Direction::Up,
        vec![GridPos { x: 5, y: 7 }, GridPos { x: 5, y: 6 }],
    );
    map.insert(GridPos { x: 5, y: 4 }, EntityKind::Food);
    let before = map.iterate().len();
    let r = snake.move_forward(&mut map);
    assert_eq!(r, MoveResult::AteFood);
    assert_eq!(snake.body.len(), 3);
    // the eaten cell became the head; every previously occupied cell remains
    assert_eq!(map.iterate().len(), before);
    assert_eq!(map.get(GridPos { x: 5, y: 7 }), Some(EntityKind::SnakeSegment));
}

#[test]
fn move_past_boundary_dies() {
    // head at (0,5), direction Left: x would leave the grid
    let (mut snake, mut map) = setup(GridPos { x: 0, y: 5 }, Direction::Left, vec![]);
    let r = snake.move_forward(&mut map);
    assert_eq!(r, MoveResult::Died);
    // the map keeps the pre-death occupancy: nothing was cleared
    assert_eq!(map.get(GridPos { x: 0, y: 5 }), Some(EntityKind::SnakeSegment));
    assert_eq!(map.iterate().len(), 1);
    assert_eq!(snake.head, GridPos { x: 0, y: 5 });
}

#[test]
fn move_into_own_segment_dies() {
    let (mut snake, mut map) = setup(
        GridPos { x: 5, y: 5 },
        Direction::Up,
        vec![GridPos { x: 5, y: 4 }],
    );
    let r = snake.move_forward(&mut map);
    assert_eq!(r, MoveResult::Died);
    // frozen pre-death occupancy: both cells still present
    assert_eq!(map.get(GridPos { x: 5, y: 4 }), Some(EntityKind::SnakeSegment));
    assert_eq!(map.get(GridPos { x: 5, y: 5 }), Some(EntityKind::SnakeSegment));
}

#[test]
fn consecutive_moves_keep_occupancy_count() {
    let (mut snake, mut map) = setup(
        GridPos { x: 5, y: 5 },
        Direction::Up,
        vec![GridPos { x: 5, y: 7 }, GridPos { x: 5, y: 6 }],
    );
    // initial body length + 1 for the head
    assert_eq!(map.iterate().len(), 3);
    for _ in 0..4 {
        let r = snake.move_forward(&mut map);
        assert_eq!(r, MoveResult::Moving);
        assert_eq!(map.iterate().len(), 3);
        assert_eq!(snake.body.len(), 2);
    }
}

#[test]
fn new_snake_starts_at_center_facing_up() {
    let c = GridConfig::new(20, 15);
    let mut map = OccupancyMap::new(c);
    let snake = Snake::new(c, &mut map);
    assert_eq!(snake.head, GridPos { x: 10, y: 7 });
    assert_eq!(snake.direction, Direction::Up);
    assert!(snake.body.is_empty());
    assert_eq!(map.get(snake.head), Some(EntityKind::SnakeHead));
    assert_eq!(map.iterate().len(), 1);
}
