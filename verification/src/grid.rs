//! Grid geometry: the play-area configuration, cell positions, the four
//! movement directions, and the kinds of entity that can occupy a cell.

use vstd::prelude::*;

verus! {

/// Dimensions of the bounded play area. A position (x, y) is in bounds when
/// 0 <= x < width and 0 <= y < height.
#[derive(Clone, Copy, PartialEq, Eq, Structural, Debug)]
pub struct GridConfig {
    pub width: usize,
    pub height: usize,
}

impl GridConfig {
    /// A usable configuration: both sides positive, and the cell count
    /// representable, so that every cell has a distinct `usize` index.
    pub open spec fn valid(self) -> bool {
        &&& self.width >= 1
        &&& self.height >= 1
        &&& self.width * self.height <= usize::MAX
    }

    pub open spec fn cell_count(self) -> int {
        self.width * self.height
    }

    pub fn new(width: usize, height: usize) -> (c: GridConfig)
        requires
            width >= 1,
            height >= 1,
            width * height <= usize::MAX,
        ensures
            c.width == width,
            c.height == height,
            c.valid(),
    {
        GridConfig { width, height }
    }
}

/// One cell coordinate of the grid.
#[derive(Clone, Copy, PartialEq, Eq, Structural, Debug, Hash)]
pub struct GridPos {
    pub x: usize,
    pub y: usize,
}

impl GridPos {
    pub open spec fn in_bounds(self, c: GridConfig) -> bool {
        self.x < c.width && self.y < c.height
    }

    /// Row-major index of an in-bounds position.
    pub open spec fn index(self, c: GridConfig) -> int {
        self.y * c.width + self.x
    }

    /// The cell one step away in direction `dir`, or `None` when that step
    /// leaves the grid (Left: x-1, Right: x+1, Up: y-1, Down: y+1).
    pub open spec fn step_spec(self, dir: Direction, c: GridConfig) -> Option<GridPos> {
        match dir {
            Direction::Left => if self.x >= 1 {
                Some(GridPos { x: (self.x - 1) as usize, y: self.y })
            } else {
                None
            },
            Direction::Right => if self.x + 1 < c.width {
                Some(GridPos { x: (self.x + 1) as usize, y: self.y })
            } else {
                None
            },
            Direction::Up => if self.y >= 1 {
                Some(GridPos { x: self.x, y: (self.y - 1) as usize })
            } else {
                None
            },
            Direction::Down => if self.y + 1 < c.height {
                Some(GridPos { x: self.x, y: (self.y + 1) as usize })
            } else {
                None
            },
        }
    }

    pub fn step(self, dir: Direction, c: &GridConfig) -> (r: Option<GridPos>)
        requires
            self.in_bounds(*c),
        ensures
            r == self.step_spec(dir, *c),
            r is Some ==> r.unwrap().in_bounds(*c),
    {
        match dir {
            Direction::Left => if self.x >= 1 {
                Some(GridPos { x: self.x - 1, y: self.y })
            } else {
                None
            },
            Direction::Right => if self.x + 1 < c.width {
                Some(GridPos { x: self.x + 1, y: self.y })
            } else {
                None
            },
            Direction::Up => if self.y >= 1 {
                Some(GridPos { x: self.x, y: self.y - 1 })
            } else {
                None
            },
            Direction::Down => if self.y + 1 < c.height {
                Some(GridPos { x: self.x, y: self.y + 1 })
            } else {
                None
            },
        }
    }
}

/// Within one grid, the row-major index identifies the position.
pub proof fn lemma_index_injective(c: GridConfig, p: GridPos, q: GridPos)
    requires
        c.valid(),
        p.in_bounds(c),
        q.in_bounds(c),
        p.index(c) == q.index(c),
    ensures
        p == q,
{
    assert(p.x == q.x && p.y == q.y) by (nonlinear_arith)
        requires
            p.x < c.width,
            q.x < c.width,
            p.y * c.width + p.x == q.y * c.width + q.x,
    {
    }
}

/// The row-major index of an in-bounds position lies below the cell count.
pub proof fn lemma_index_in_range(c: GridConfig, p: GridPos)
    requires
        c.valid(),
        p.in_bounds(c),
    ensures
        0 <= p.index(c) < c.cell_count(),
{
    assert(p.y * c.width + p.x < c.width * c.height) by (nonlinear_arith)
        requires
            p.x < c.width,
            p.y < c.height,
    {
    }
}

/// A movement direction on the grid.
#[derive(Clone, Copy, PartialEq, Eq, Structural, Debug)]
pub enum Direction {
    Left,
    Right,
    Up,
    Down,
}

impl Direction {
    /// Each direction has a unique opposite: Left and Right, Up and Down.
    pub open spec fn opposite_spec(self) -> Direction {
        match self {
            Direction::Left => Direction::Right,
            Direction::Right => Direction::Left,
            Direction::Up => Direction::Down,
            Direction::Down => Direction::Up,
        }
    }

    pub fn opposite(self) -> (r: Direction)
        ensures
            r == self.opposite_spec(),
    {
        match self {
            Direction::Left => Direction::Right,
            Direction::Right => Direction::Left,
            Direction::Up => Direction::Down,
            Direction::Down => Direction::Up,
        }
    }
}

/// Taking the opposite twice returns to the starting direction.
pub proof fn lemma_opposite_involutive(d: Direction)
    ensures
        d.opposite_spec().opposite_spec() == d,
{
}

/// What can occupy a grid cell.
#[derive(Clone, Copy, PartialEq, Eq, Structural, Debug)]
pub enum EntityKind {
    Food,
    SnakeHead,
    SnakeSegment,
}

} // verus!
