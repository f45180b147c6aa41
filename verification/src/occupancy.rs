//! The spatial occupancy map: which grid cell is occupied by which entity.
//!
//! The map is stored densely, one slot per grid cell in row-major order, so
//! that every operation is a single array access. Its mathematical view is a
//! `Map<GridPos, EntityKind>` whose domain is the set of occupied cells.

use vstd::prelude::*;
use vstd::map::*;

use crate::grid::{EntityKind, GridConfig, GridPos};
use crate::grid::{lemma_index_in_range, lemma_index_injective};

verus! {

broadcast use vstd::set::group_set_axioms;

pub struct OccupancyMap {
    config: GridConfig,
    cells: Vec<Option<EntityKind>>,
}

impl View for OccupancyMap {
    type V = Map<GridPos, EntityKind>;

    /// The cell-to-entity mapping: a position is in the domain exactly when
    /// it is in bounds and its slot is filled.
    closed spec fn view(&self) -> Map<GridPos, EntityKind> {
        Map::new(
            |p: GridPos| p.in_bounds(self.config) && self.cells@[p.index(self.config)] is Some,
            |p: GridPos| self.cells@[p.index(self.config)]->Some_0,
        )
    }
}

impl OccupancyMap {
    /// The grid this map was created for.
    pub closed spec fn grid(self) -> GridConfig {
        self.config
    }

    /// Well-formed: one slot per cell of a valid grid.
    pub closed spec fn wf(self) -> bool {
        &&& self.config.valid()
        &&& self.cells@.len() == self.config.cell_count()
        &&& self@.dom().finite()
    }

    /// What well-formedness guarantees to callers: the grid is valid, the
    /// set of occupied cells is finite, and every occupied cell is in bounds.
    pub proof fn lemma_wf(self)
        requires
            self.wf(),
        ensures
            self.grid().valid(),
            self@.dom().finite(),
            forall|p: GridPos| self@.dom().contains(p) ==> p.in_bounds(self.grid()),
    {
    }

    pub fn config(&self) -> (c: GridConfig)
        ensures
            c == self.grid(),
    {
        self.config
    }

    /// An empty map over the given grid.
    pub fn new(c: GridConfig) -> (m: OccupancyMap)
        requires
            c.valid(),
        ensures
            m.wf(),
            m.grid() == c,
            m@ == Map::<GridPos, EntityKind>::empty(),
    {
        let cells = blank_cells(c);
        let m = OccupancyMap { config: c, cells };
        proof {
            lemma_blank_is_empty(m);
        }
        m
    }

    /// Sets the entity at `pos` to `kind`, overwriting whatever was there.
    pub fn insert(&mut self, pos: GridPos, kind: EntityKind)
        requires
            old(self).wf(),
            pos.in_bounds(old(self).grid()),
        ensures
            final(self).wf(),
            final(self).grid() == old(self).grid(),
            final(self)@ == old(self)@.insert(pos, kind),
    {
        proof {
            lemma_index_in_range(self.config, pos);
        }
        let idx = pos.y * self.config.width + pos.x;
        self.cells.set(idx, Some(kind));
        proof {
            let c = self.config;
            assert_maps_equal!(self@, old(self)@.insert(pos, kind), q => {
                if q.in_bounds(c) {
                    lemma_index_in_range(c, q);
                    if q.index(c) == pos.index(c) {
                        lemma_index_injective(c, q, pos);
                    }
                }
            });
        }
    }

    /// Clears any entity at `pos`; a no-op if the cell was already empty
    /// (or out of bounds, where nothing can be stored).
    pub fn remove(&mut self, pos: GridPos)
        requires
            old(self).wf(),
        ensures
            final(self).wf(),
            final(self).grid() == old(self).grid(),
            final(self)@ == old(self)@.remove(pos),
    {
        if pos.x < self.config.width && pos.y < self.config.height {
            proof {
                lemma_index_in_range(self.config, pos);
            }
            let idx = pos.y * self.config.width + pos.x;
            self.cells.set(idx, None);
            proof {
                let c = self.config;
                assert_maps_equal!(self@, old(self)@.remove(pos), q => {
                    if q.in_bounds(c) {
                        lemma_index_in_range(c, q);
                        if q.index(c) == pos.index(c) {
                            lemma_index_injective(c, q, pos);
                        }
                    }
                });
            }
        } else {
            proof {
                assert_maps_equal!(self@, old(self)@.remove(pos), q => {});
            }
        }
    }

    /// True when any entity occupies the cell.
    pub fn contains(&self, pos: GridPos) -> (r: bool)
        requires
            self.wf(),
        ensures
            r == self@.dom().contains(pos),
    {
        if pos.x < self.config.width && pos.y < self.config.height {
            proof {
                lemma_index_in_range(self.config, pos);
            }
            let idx = pos.y * self.config.width + pos.x;
            self.cells[idx].is_some()
        } else {
            false
        }
    }

    /// The entity kind at the cell, if any.
    pub fn get(&self, pos: GridPos) -> (r: Option<EntityKind>)
        requires
            self.wf(),
        ensures
            r == (if self@.dom().contains(pos) {
                Some(self@[pos])
            } else {
                None::<EntityKind>
            }),
    {
        if pos.x < self.config.width && pos.y < self.config.height {
            proof {
                lemma_index_in_range(self.config, pos);
            }
            let idx = pos.y * self.config.width + pos.x;
            self.cells[idx]
        } else {
            None
        }
    }

    /// Empties the map entirely (used on death and reset).
    pub fn clear(&mut self)
        requires
            old(self).wf(),
        ensures
            final(self).wf(),
            final(self).grid() == old(self).grid(),
            final(self)@ == Map::<GridPos, EntityKind>::empty(),
    {
        let cells = blank_cells(self.config);
        self.cells = cells;
        proof {
            lemma_blank_is_empty(*self);
        }
    }

    /// All occupied cells with their entity kinds, in row-major order.
    /// The order is fixed by the grid alone, so two maps with the same
    /// contents enumerate identically.
    #[verifier::loop_isolation(false)]
    pub fn iterate(&self) -> (r: Vec<(GridPos, EntityKind)>)
        requires
            self.wf(),
        ensures
            forall|i: int|
                0 <= i < r@.len() ==> (#[trigger] r@[i]).0.in_bounds(self.grid())
                    && self@.dom().contains(r@[i].0) && self@[r@[i].0] == r@[i].1,
            forall|p: GridPos|
                #[trigger] self@.dom().contains(p) ==> exists|i: int|
                    0 <= i < r@.len() && (#[trigger] r@[i]).0 == p,
            forall|i: int, j: int|
                0 <= i < j < r@.len() ==> (#[trigger] r@[i]).0.index(self.grid())
                    < (#[trigger] r@[j]).0.index(self.grid()),
    {
        let c = self.config;
        let mut r: Vec<(GridPos, EntityKind)> = Vec::new();
        let mut y: usize = 0;
        while y < c.height
            invariant
                y <= c.height,
                forall|i: int|
                    0 <= i < r@.len() ==> (#[trigger] r@[i]).0.in_bounds(c)
                        && self@.dom().contains(r@[i].0) && self@[r@[i].0] == r@[i].1,
                forall|i: int| 0 <= i < r@.len() ==> (#[trigger] r@[i]).0.y < y,
                forall|p: GridPos|
                    #[trigger] self@.dom().contains(p) && p.y < y ==> exists|i: int|
                        0 <= i < r@.len() && (#[trigger] r@[i]).0 == p,
                forall|i: int, j: int|
                    0 <= i < j < r@.len() ==> (#[trigger] r@[i]).0.index(c)
                        < (#[trigger] r@[j]).0.index(c),
            decreases c.height - y,
        {
            let mut x: usize = 0;
            while x < c.width
                invariant
                    x <= c.width,
                    y < c.height,
                    forall|i: int|
                        0 <= i < r@.len() ==> (#[trigger] r@[i]).0.in_bounds(c)
                            && self@.dom().contains(r@[i].0) && self@[r@[i].0] == r@[i].1,
                    forall|i: int|
                        0 <= i < r@.len() ==> (#[trigger] r@[i]).0.y < y
                            || ((#[trigger] r@[i]).0.y == y && r@[i].0.x < x),
                    forall|p: GridPos|
                        #[trigger] self@.dom().contains(p)
                            && (p.y < y || (p.y == y && p.x < x)) ==> exists|i: int|
                            0 <= i < r@.len() && (#[trigger] r@[i]).0 == p,
                    forall|i: int, j: int|
                        0 <= i < j < r@.len() ==> (#[trigger] r@[i]).0.index(c)
                            < (#[trigger] r@[j]).0.index(c),
                decreases c.width - x,
            {
                let p = GridPos { x, y };
                proof {
                    lemma_index_in_range(c, p);
                }
                let idx = y * c.width + x;
                let ghost r0 = r@;
                match self.cells[idx] {
                    Some(kind) => {
                        proof {
                            assert forall|i: int|
                                0 <= i < r@.len() implies (#[trigger] r@[i]).0.index(c)
                                    < p.index(c) by {
                                lemma_lex_index(c, r@[i].0, p);
                            }
                        }
                        r.push((p, kind));
                    },
                    None => {
                        proof {
                            assert(!self@.dom().contains(p));
                        }
                    },
                }
                proof {
                    assert forall|p2: GridPos|
                        #[trigger] self@.dom().contains(p2)
                            && (p2.y < y || (p2.y == y && p2.x < x + 1)) implies exists|i: int|
                            0 <= i < r@.len() && (#[trigger] r@[i]).0 == p2 by {
                        if p2.y == y && p2.x == x {
                            assert(p2 == p);
                            assert(r@[r@.len() - 1].0 == p2);
                        } else {
                            let i0 = choose|i: int| 0 <= i < r0.len() && (#[trigger] r0[i]).0 == p2;
                            assert(r@[i0].0 == p2);
                        }
                    }
                }
                x = x + 1;
            }
            y = y + 1;
        }
        r
    }
}

/// One empty slot per cell of the grid.
fn blank_cells(c: GridConfig) -> (v: Vec<Option<EntityKind>>)
    requires
        c.valid(),
    ensures
        v@.len() == c.cell_count(),
        forall|j: int| 0 <= j < v@.len() ==> v@[j] is None,
{
    let n = c.width * c.height;
    let mut v: Vec<Option<EntityKind>> = Vec::new();
    let mut i: usize = 0;
    while i < n
        invariant
            i <= n,
            v@.len() == i,
            forall|j: int| 0 <= j < v@.len() ==> v@[j] is None,
        decreases n - i,
    {
        v.push(None);
        i = i + 1;
    }
    v
}

/// A map whose every slot is empty views as the empty mapping.
proof fn lemma_blank_is_empty(m: OccupancyMap)
    requires
        m.grid().valid(),
        m.cells@.len() == m.grid().cell_count(),
        forall|j: int| 0 <= j < m.cells@.len() ==> m.cells@[j] is None,
    ensures
        m@ == Map::<GridPos, EntityKind>::empty(),
        m.wf(),
{
    assert forall|p: GridPos| !(#[trigger] m@.dom().contains(p)) by {
        if p.in_bounds(m.grid()) {
            lemma_index_in_range(m.grid(), p);
        }
    }
    assert(m@ =~= Map::<GridPos, EntityKind>::empty());
}

/// Row-major order agrees with the (y, x) lexicographic order.
proof fn lemma_lex_index(c: GridConfig, p: GridPos, q: GridPos)
    requires
        c.valid(),
        p.in_bounds(c),
        q.in_bounds(c),
        p.y < q.y || (p.y == q.y && p.x < q.x),
    ensures
        p.index(c) < q.index(c),
{
    assert(p.y * c.width + p.x < q.y * c.width + q.x) by (nonlinear_arith)
        requires
            p.x < c.width,
            q.x < c.width,
            p.y < q.y || (p.y == q.y && p.x < q.x),
    {
    }
}

} // verus!
