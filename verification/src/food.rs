//! Food placement: rejection-sample a uniformly chosen in-bounds cell and
//! occupy the first free one with Food. The sampling phase is bounded so the
//! procedure provably terminates; after the attempt budget a deterministic
//! row-major scan takes over, and only a fully occupied grid (the theoretical
//! max-length win) yields no placement.

use vstd::prelude::*;

use crate::grid::{EntityKind, GridConfig, GridPos};
use crate::occupancy::OccupancyMap;
use crate::rng::SeededRng;

verus! {

/// One uniformly pseudo-random in-bounds cell.
fn sample_cell(rng: &mut SeededRng, c: GridConfig) -> (p: GridPos)
    requires
        c.valid(),
    ensures
        p.in_bounds(c),
{
    proof {
        assert(c.width * c.height >= 1) by (nonlinear_arith)
            requires
                c.width >= 1,
                c.height >= 1,
        {
        }
    }
    let n = c.width * c.height;
    let idx = rng.next_below(n);
    let x = idx % c.width;
    let y = idx / c.width;
    proof {
        assert(x < c.width && y < c.height) by (nonlinear_arith)
            requires
                c.width >= 1,
                c.height >= 1,
                idx < c.width * c.height,
                x == idx % c.width,
                y == idx / c.width,
        {
        }
    }
    GridPos { x, y }
}

/// Places one Food entity on a cell that is free at the time of the call,
/// never on an occupied one, and changes nothing else. Returns the chosen
/// cell, or `None`, with the map untouched, only when every in-bounds cell
/// is already occupied.
#[verifier::loop_isolation(false)]
pub fn place_food(map: &mut OccupancyMap, rng: &mut SeededRng) -> (r: Option<GridPos>)
    requires
        old(map).wf(),
    ensures
        final(map).wf(),
        final(map).grid() == old(map).grid(),
        match r {
            Some(pos) => pos.in_bounds(old(map).grid()) && !old(map)@.dom().contains(pos)
                && final(map)@ == old(map)@.insert(pos, EntityKind::Food),
            None => final(map)@ == old(map)@ && forall|p: GridPos|
                p.in_bounds(old(map).grid()) ==> old(map)@.dom().contains(p),
        },
{
    proof {
        map.lemma_wf();
    }
    let c = map.config();
    let mut attempts: usize = 0;
    while attempts < 64
        invariant
            map.wf(),
            map.grid() == c,
            map@ == old(map)@,
        decreases 64 - attempts,
    {
        let pos = sample_cell(rng, c);
        if !map.contains(pos) {
            map.insert(pos, EntityKind::Food);
            return Some(pos);
        }
        attempts = attempts + 1;
    }
    let mut y: usize = 0;
    while y < c.height
        invariant
            y <= c.height,
            map.wf(),
            map.grid() == c,
            map@ == old(map)@,
            forall|p: GridPos| p.in_bounds(c) && p.y < y ==> map@.dom().contains(p),
        decreases c.height - y,
    {
        let mut x: usize = 0;
        while x < c.width
            invariant
                x <= c.width,
                y < c.height,
                map.wf(),
                map.grid() == c,
                map@ == old(map)@,
                forall|p: GridPos|
                    p.in_bounds(c) && (p.y < y || (p.y == y && p.x < x)) ==> map@.dom().contains(
                        p,
                    ),
            decreases c.width - x,
        {
            let pos = GridPos { x, y };
            if !map.contains(pos) {
                map.insert(pos, EntityKind::Food);
                return Some(pos);
            }
            proof {
                assert forall|p: GridPos|
                    p.in_bounds(c) && (p.y < y || (p.y == y && p.x < x + 1)) implies map@.dom().contains(
                    p,
                ) by {
                    if p.y == y && p.x == x {
                        assert(p == pos);
                    }
                }
            }
            x = x + 1;
        }
        y = y + 1;
    }
    None
}

} // verus!
