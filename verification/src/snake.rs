//! The snake state machine: direction changes and the single per-tick
//! forward move, with growth on food and self/boundary collision detection
//! against the occupancy map.

use vstd::prelude::*;

use crate::grid::{Direction, EntityKind, GridConfig, GridPos};
use crate::occupancy::OccupancyMap;

verus! {

broadcast use vstd::set::group_set_axioms;

/// Outcome of one forward move.
#[derive(Clone, Copy, PartialEq, Eq, Structural, Debug)]
pub enum MoveResult {
    Moving,
    AteFood,
    Died,
}

/// The snake: its head cell, its current direction, and the ordered body,
/// oldest segment first, newest (the most recently vacated head cell) last.
pub struct Snake {
    pub head: GridPos,
    pub direction: Direction,
    pub body: Vec<GridPos>,
}

/// The snake and the occupancy map agree: the head cell is marked SnakeHead,
/// exactly the body cells are marked SnakeSegment, all snake cells are in
/// bounds and pairwise distinct. Cells of other kinds (Food) are unconstrained.
pub open spec fn snake_map_coherent(
    c: GridConfig,
    head: GridPos,
    body: Seq<GridPos>,
    m: Map<GridPos, EntityKind>,
) -> bool {
    &&& head.in_bounds(c)
    &&& forall|i: int| 0 <= i < body.len() ==> (#[trigger] body[i]).in_bounds(c)
    &&& body.no_duplicates()
    &&& !body.contains(head)
    &&& m.dom().contains(head)
    &&& m[head] == EntityKind::SnakeHead
    &&& forall|i: int|
        0 <= i < body.len() ==> m.dom().contains(#[trigger] body[i])
            && m[body[i]] == EntityKind::SnakeSegment
    &&& forall|p: GridPos|
        #[trigger] m.dom().contains(p) && m[p] == EntityKind::SnakeHead ==> p == head
    &&& forall|p: GridPos|
        #[trigger] m.dom().contains(p) && m[p] == EntityKind::SnakeSegment ==> body.contains(p)
}

impl Snake {
    pub open spec fn coherent(self, c: GridConfig, m: Map<GridPos, EntityKind>) -> bool {
        snake_map_coherent(c, self.head, self.body@, m)
    }

    /// A fresh snake at round start: head at the grid center, direction Up,
    /// empty body, registered as the only entity of the (empty) map.
    pub fn new(c: GridConfig, map: &mut OccupancyMap) -> (s: Snake)
        requires
            old(map).wf(),
            old(map).grid() == c,
            old(map)@ == Map::<GridPos, EntityKind>::empty(),
        ensures
            s.head == (GridPos { x: c.width / 2, y: c.height / 2 }),
            s.direction == Direction::Up,
            s.body@ == Seq::<GridPos>::empty(),
            final(map).wf(),
            final(map).grid() == c,
            final(map)@ == old(map)@.insert(s.head, EntityKind::SnakeHead),
            s.coherent(c, final(map)@),
    {
        let head = GridPos { x: c.width / 2, y: c.height / 2 };
        proof {
            map.lemma_wf();
            assert(c.width / 2 < c.width && c.height / 2 < c.height) by (nonlinear_arith)
                requires
                    c.width >= 1,
                    c.height >= 1,
            {
            }
        }
        map.insert(head, EntityKind::SnakeHead);
        let s = Snake { head, direction: Direction::Up, body: Vec::new() };
        s
    }

    /// Requests a direction change. A request for the exact opposite of the
    /// current direction is silently ignored; any other request is taken.
    pub fn set_direction(&mut self, dir: &Direction)
        ensures
            final(self).head == old(self).head,
            final(self).body == old(self).body,
            final(self).direction == (if *dir == old(self).direction.opposite_spec() {
                old(self).direction
            } else {
                *dir
            }),
    {
        let opposite_dir = self.direction.opposite();
        if opposite_dir != *dir {
            self.direction = *dir;
        }
    }

    /// The single per-tick transition. In order: the vacated head cell is
    /// pushed onto the body and marked SnakeSegment; the head steps one cell
    /// in the current direction; stepping off the grid or into an occupied
    /// non-food cell returns Died, leaving the pushed state frozen for the
    /// caller to clear; a Food cell becomes the new head and the body keeps
    /// its extra cell (growth); an empty cell becomes the new head and the
    /// oldest body cell is vacated, conserving length.
    pub fn move_forward(&mut self, map: &mut OccupancyMap) -> (r: MoveResult)
        requires
            old(map).wf(),
            old(self).coherent(old(map).grid(), old(map)@),
        ensures
            final(map).wf(),
            final(map).grid() == old(map).grid(),
            final(self).direction == old(self).direction,
            ({
                let c = old(map).grid();
                let oh = old(self).head;
                let pushed = old(self).body@.push(oh);
                let m1 = old(map)@.insert(oh, EntityKind::SnakeSegment);
                match oh.step_spec(old(self).direction, c) {
                    None => {
                        &&& r == MoveResult::Died
                        &&& final(self).head == oh
                        &&& final(self).body@ == pushed
                        &&& final(map)@ == m1
                    },
                    Some(new_pos) => {
                        if old(map)@.dom().contains(new_pos) && old(map)@[new_pos]
                            == EntityKind::Food {
                            &&& r == MoveResult::AteFood
                            &&& final(self).head == new_pos
                            &&& final(self).body@ == pushed
                            &&& final(map)@ == m1.insert(new_pos, EntityKind::SnakeHead)
                        } else if old(map)@.dom().contains(new_pos) {
                            &&& r == MoveResult::Died
                            &&& final(self).head == oh
                            &&& final(self).body@ == pushed
                            &&& final(map)@ == m1
                        } else {
                            &&& r == MoveResult::Moving
                            &&& final(self).head == new_pos
                            &&& final(self).body@ == pushed.drop_first()
                            &&& final(map)@ == m1.insert(new_pos, EntityKind::SnakeHead).remove(
                                pushed[0],
                            )
                        }
                    },
                }
            }),
            r == MoveResult::Moving ==> final(self).body@.len() == old(self).body@.len()
                && final(self).coherent(old(map).grid(), final(map)@)
                && final(map)@.dom().len() == old(map)@.dom().len(),
            r == MoveResult::AteFood ==> final(self).body@.len() == old(self).body@.len() + 1
                && final(self).coherent(old(map).grid(), final(map)@)
                && final(map)@.dom().len() == old(map)@.dom().len(),
    {
        let c = map.config();
        let old_head = self.head;
        self.body.push(old_head);
        map.insert(old_head, EntityKind::SnakeSegment);
        let stepped = old_head.step(self.direction, &c);
        match stepped {
            None => MoveResult::Died,
            Some(new_pos) => {
                proof {
                    assert(new_pos != old_head);
                }
                match map.get(new_pos) {
                    Some(EntityKind::Food) => {
                        map.insert(new_pos, EntityKind::SnakeHead);
                        self.head = new_pos;
                        proof {
                            old(map).lemma_wf();
                            lemma_grow_coherent(
                                c,
                                old_head,
                                old(self).body@,
                                old(map)@,
                                new_pos,
                            );
                        }
                        MoveResult::AteFood
                    },
                    Some(_) => MoveResult::Died,
                    None => {
                        map.insert(new_pos, EntityKind::SnakeHead);
                        let tail = self.body.remove(0);
                        map.remove(tail);
                        self.head = new_pos;
                        proof {
                            old(map).lemma_wf();
                            let pushed = old(self).body@.push(old_head);
                            assert(self.body@ =~= pushed.drop_first());
                            lemma_slide_coherent(
                                c,
                                old_head,
                                old(self).body@,
                                old(map)@,
                                new_pos,
                            );
                        }
                        MoveResult::Moving
                    },
                }
            },
        }
    }
}

/// Moving into a Food cell: marking the vacated head as a segment and the
/// food cell as the head keeps the snake coherent with one more body cell,
/// and leaves the number of occupied cells unchanged.
proof fn lemma_grow_coherent(
    c: GridConfig,
    head: GridPos,
    body: Seq<GridPos>,
    m: Map<GridPos, EntityKind>,
    new_pos: GridPos,
)
    requires
        snake_map_coherent(c, head, body, m),
        m.dom().finite(),
        new_pos.in_bounds(c),
        m.dom().contains(new_pos),
        m[new_pos] == EntityKind::Food,
    ensures
        ({
            let pushed = body.push(head);
            let m2 = m.insert(head, EntityKind::SnakeSegment).insert(
                new_pos,
                EntityKind::SnakeHead,
            );
            &&& snake_map_coherent(c, new_pos, pushed, m2)
            &&& m2.dom().finite()
            &&& m2.dom().len() == m.dom().len()
        }),
{
    let pushed = body.push(head);
    let m2 = m.insert(head, EntityKind::SnakeSegment).insert(new_pos, EntityKind::SnakeHead);
    assert(new_pos != head);
    lemma_pushed_body(c, head, body, m);
    assert forall|i: int| 0 <= i < pushed.len() implies #[trigger] pushed[i] != new_pos by {
        if i < body.len() {
            assert(m[pushed[i]] == EntityKind::SnakeSegment);
        } else {
            assert(pushed[i] == head);
        }
    }
    assert(!pushed.contains(new_pos));
    assert forall|i: int|
        0 <= i < pushed.len() implies m2.dom().contains(#[trigger] pushed[i]) && m2[pushed[i]]
            == EntityKind::SnakeSegment by {
        if i < body.len() {
            assert(m[pushed[i]] == EntityKind::SnakeSegment);
        }
    }
    assert forall|p: GridPos|
        #[trigger] m2.dom().contains(p) && m2[p] == EntityKind::SnakeSegment implies pushed.contains(
        p,
    ) by {
        if p == head {
            assert(pushed[pushed.len() - 1] == head);
        } else {
            assert(m[p] == EntityKind::SnakeSegment);
            assert(body.contains(p));
            let i = choose|i: int| 0 <= i < body.len() && body[i] == p;
            assert(pushed[i] == p);
        }
    }
    assert(m2.dom() =~= m.dom());
}

/// Moving into an empty cell: marking the vacated head as a segment, the
/// empty cell as the head, and vacating the oldest body cell keeps the snake
/// coherent with the same body length, and leaves the number of occupied
/// cells unchanged.
proof fn lemma_slide_coherent(
    c: GridConfig,
    head: GridPos,
    body: Seq<GridPos>,
    m: Map<GridPos, EntityKind>,
    new_pos: GridPos,
)
    requires
        snake_map_coherent(c, head, body, m),
        m.dom().finite(),
        new_pos.in_bounds(c),
        !m.dom().contains(new_pos),
    ensures
        ({
            let pushed = body.push(head);
            let m2 = m.insert(head, EntityKind::SnakeSegment).insert(
                new_pos,
                EntityKind::SnakeHead,
            ).remove(pushed[0]);
            &&& snake_map_coherent(c, new_pos, pushed.drop_first(), m2)
            &&& m2.dom().finite()
            &&& m2.dom().len() == m.dom().len()
        }),
{
    let pushed = body.push(head);
    let tail = pushed[0];
    let rest = pushed.drop_first();
    let m2 = m.insert(head, EntityKind::SnakeSegment).insert(new_pos, EntityKind::SnakeHead).remove(
        tail,
    );
    lemma_pushed_body(c, head, body, m);
    // every snake cell is occupied in m, so none of them is new_pos
    assert forall|i: int| 0 <= i < pushed.len() implies #[trigger] pushed[i] != new_pos by {
        assert(m.dom().contains(pushed[i]));
    }
    assert(head != new_pos);
    assert(tail != new_pos) by {
        assert(m.dom().contains(pushed[0]));
    }
    // the remaining body cells: rest[i] == pushed[i + 1]
    assert forall|i: int| 0 <= i < rest.len() implies (#[trigger] rest[i]).in_bounds(c) by {
        assert(rest[i] == pushed[i + 1]);
    }
    assert(rest.no_duplicates()) by {
        assert forall|i: int, j: int|
            0 <= i < rest.len() && 0 <= j < rest.len() && i != j implies rest[i] != rest[j] by {
            assert(rest[i] == pushed[i + 1]);
            assert(rest[j] == pushed[j + 1]);
        }
    }
    assert(!rest.contains(new_pos)) by {
        assert forall|i: int| 0 <= i < rest.len() implies rest[i] != new_pos by {
            assert(rest[i] == pushed[i + 1]);
        }
    }
    // each remaining body cell keeps its SnakeSegment marking in m2
    assert forall|i: int|
        0 <= i < rest.len() implies m2.dom().contains(#[trigger] rest[i]) && m2[rest[i]]
            == EntityKind::SnakeSegment by {
        assert(rest[i] == pushed[i + 1]);
        assert(pushed[i + 1] != pushed[0]);
        if i + 1 < body.len() {
            assert(m[rest[i]] == EntityKind::SnakeSegment);
        } else {
            assert(rest[i] == head);
        }
    }
    // the head is the only SnakeHead of m2
    assert forall|p: GridPos|
        #[trigger] m2.dom().contains(p) && m2[p] == EntityKind::SnakeHead implies p == new_pos by {
        if p != new_pos && p != head {
            assert(m[p] == EntityKind::SnakeHead);
        }
    }
    // every SnakeSegment of m2 is a remaining body cell
    assert forall|p: GridPos|
        #[trigger] m2.dom().contains(p) && m2[p] == EntityKind::SnakeSegment implies rest.contains(
        p,
    ) by {
        assert(p != tail);
        if p == head {
            assert(rest[rest.len() - 1] == pushed[pushed.len() - 1]);
            assert(rest[rest.len() - 1] == head);
        } else {
            assert(m[p] == EntityKind::SnakeSegment);
            assert(body.contains(p));
            let i = choose|i: int| 0 <= i < body.len() && body[i] == p;
            assert(pushed[i] == p);
            assert(i != 0);
            assert(rest[i - 1] == p);
        }
    }
    // occupied-cell count: head was already occupied, new_pos adds one,
    // vacating the tail takes one away
    assert(m.dom().contains(tail)) by {
        if body.len() > 0 {
            assert(m.dom().contains(pushed[0]));
        }
    }
    let d1 = m.insert(head, EntityKind::SnakeSegment).dom();
    assert(d1 =~= m.dom());
    let d2 = m.insert(head, EntityKind::SnakeSegment).insert(new_pos, EntityKind::SnakeHead).dom();
    assert(d2 =~= d1.insert(new_pos));
    assert(m2.dom() =~= d2.remove(tail));
    assert(d2.contains(tail));
}

/// Placing Food on a cell that is free never disturbs the snake: the snake
/// and the map stay coherent, so an orchestration loop may interleave food
/// placement with moves.
pub proof fn lemma_food_keeps_coherence(
    c: GridConfig,
    head: GridPos,
    body: Seq<GridPos>,
    m: Map<GridPos, EntityKind>,
    q: GridPos,
)
    requires
        snake_map_coherent(c, head, body, m),
        !m.dom().contains(q),
    ensures
        snake_map_coherent(c, head, body, m.insert(q, EntityKind::Food)),
{
    let m2 = m.insert(q, EntityKind::Food);
    assert forall|i: int|
        0 <= i < body.len() implies m2.dom().contains(#[trigger] body[i]) && m2[body[i]]
            == EntityKind::SnakeSegment by {
        assert(m.dom().contains(body[i]));
    }
}

/// While no food is on the grid, the occupied cells are exactly the snake's:
/// their number is the body length plus one for the head. Together with
/// `move_forward`'s guarantee that a Moving result keeps both the body length
/// and the occupied-cell count, any run of consecutive non-food, non-death
/// moves keeps the occupied-cell count at its initial value.
pub proof fn lemma_occupied_cells_count(
    c: GridConfig,
    head: GridPos,
    body: Seq<GridPos>,
    m: Map<GridPos, EntityKind>,
)
    requires
        snake_map_coherent(c, head, body, m),
        m.dom().finite(),
        forall|p: GridPos| #[trigger] m.dom().contains(p) ==> m[p] != EntityKind::Food,
    ensures
        m.dom().len() == body.len() + 1,
{
    broadcast use vstd::seq_lib::seq_to_set_is_finite;

    assert forall|p: GridPos| #[trigger] m.dom().contains(p) implies body.to_set().insert(
        head,
    ).contains(p) by {
        if m[p] == EntityKind::SnakeSegment {
            assert(body.contains(p));
        }
    }
    assert forall|p: GridPos|
        body.to_set().insert(head).contains(p) implies #[trigger] m.dom().contains(p) by {
        if p != head {
            assert(body.contains(p));
            let i = choose|i: int| 0 <= i < body.len() && body[i] == p;
            assert(m.dom().contains(body[i]));
        }
    }
    assert(m.dom() =~= body.to_set().insert(head));
    body.unique_seq_to_set();
    assert(!body.to_set().contains(head));
}

/// The body with the vacated head cell appended is made of distinct,
/// in-bounds cells and does not contain the new head; each of its cells is
/// occupied in the pre-move map.
proof fn lemma_pushed_body(c: GridConfig, head: GridPos, body: Seq<GridPos>, m: Map<
    GridPos,
    EntityKind,
>)
    requires
        snake_map_coherent(c, head, body, m),
    ensures
        ({
            let pushed = body.push(head);
            &&& pushed.no_duplicates()
            &&& forall|i: int| 0 <= i < pushed.len() ==> (#[trigger] pushed[i]).in_bounds(c)
            &&& forall|i: int| 0 <= i < pushed.len() ==> m.dom().contains(#[trigger] pushed[i])
        }),
{
    let pushed = body.push(head);
    assert forall|i: int, j: int|
        0 <= i < pushed.len() && 0 <= j < pushed.len() && i != j implies pushed[i] != pushed[j] by {
        if i < body.len() && j < body.len() {
            assert(body[i] != body[j]);
        } else if i < body.len() {
            assert(pushed[j] == head);
            assert(!body.contains(head));
            assert(body[i] != head);
        } else {
            assert(pushed[i] == head);
            assert(!body.contains(head));
            assert(body[j] != head);
        }
    }
    assert forall|i: int| 0 <= i < pushed.len() implies (#[trigger] pushed[i]).in_bounds(c)
        && m.dom().contains(pushed[i]) by {
        if i < body.len() {
            assert(body[i].in_bounds(c));
        } else {
            assert(pushed[i] == head);
        }
    }
}

} // verus!
