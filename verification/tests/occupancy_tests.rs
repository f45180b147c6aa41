use snake_core::grid::{EntityKind, GridConfig, GridPos};
use snake_core::occupancy::OccupancyMap;

fn small_map() -> OccupancyMap {
    OccupancyMap::new(GridConfig::new(4, 3))
}

#[test]
fn new_map_is_empty() {
    let m = small_map();
    for y in 0..3 {
        for x in 0..4 {
            let p = GridPos { x, y };
            assert!(!m.contains(p));
            assert_eq!(m.get(p), None);
        }
    }
    assert_eq!(m.iterate().len(), 0);
}

#[test]
fn insert_then_get() {
    let mut m = small_map();
    let p = GridPos { x: 2, y: 1 };
    m.insert(p, EntityKind::Food);
    assert!(m.contains(p));
    assert_eq!(m.get(p), Some(EntityKind::Food));
}

#[test]
fn insert_overwrites() {
    let mut m = small_map();
    let p = GridPos { x: 0, y: 0 };
    m.insert(p, EntityKind::Food);
    m.insert(p, EntityKind::SnakeHead);
    assert_eq!(m.get(p), Some(EntityKind::SnakeHead));
    assert_eq!(m.iterate().len(), 1);
}

#[test]
fn remove_clears_cell() {
    let mut m = small_map();
    let p = GridPos { x: 3, y: 2 };
    m.insert(p, EntityKind::SnakeSegment);
    m.remove(p);
    assert!(!m.contains(p));
    assert_eq!(m.get(p), None);
}

#[test]
fn remove_of_empty_cell_is_noop() {
    let mut m = small_map();
    let p = GridPos { x: 1, y: 1 };
    m.remove(p);
    assert!(!m.contains(p));
    assert_eq!(m.iterate().len(), 0);
}

#[test]
fn clear_empties_map() {
    let mut m = small_map();
    m.insert(GridPos { x: 0, y: 0 }, EntityKind::Food);
    m.insert(GridPos { x: 2, y: 2 }, EntityKind::SnakeHead);
    m.clear();
    assert_eq!(m.iterate().len(), 0);
    assert!(!m.contains(GridPos { x: 0, y: 0 }));
}

#[test]
fn iterate_is_row_major_and_deterministic() {
    let mut m = small_map();
    m.insert(GridPos { x: 3, y: 2 }, EntityKind::Food);
    m.insert(GridPos { x: 1, y: 0 }, EntityKind::SnakeHead);
    m.insert(GridPos { x: 0, y: 1 }, EntityKind::SnakeSegment);
    let entries = m.iterate();
    assert_eq!(
        entries,
        vec![
            (GridPos { x: 1, y: 0 }, EntityKind::SnakeHead),
            (GridPos { x: 0, y: 1 }, EntityKind::SnakeSegment),
            (GridPos { x: 3, y: 2 }, EntityKind::Food),
        ]
    );
    // the same contents enumerate identically, whatever the insertion order
    let mut m2 = small_map();
    m2.insert(GridPos { x: 0, y: 1 }, EntityKind::SnakeSegment);
    m2.insert(GridPos { x: 1, y: 0 }, EntityKind::SnakeHead);
    m2.insert(GridPos { x: 3, y: 2 }, EntityKind::Food);
    assert_eq!(m2.iterate(), entries);
}
