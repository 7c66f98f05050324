use vstd::prelude::*;

use crate::cost::{spec_tile_cost, tile_cost, ActorKind};
use crate::gridmap::{Tilemap, MAX_DIM};
use crate::tiles::TilePos;

verus! {

pub open spec fn dist1(a: int, b: int) -> int {
    if a >= b {
        a - b
    } else {
        b - a
    }
}

/// Manhattan distance between two cells.
pub open spec fn spec_manhattan(a: TilePos, b: TilePos) -> int {
    dist1(a.x as int, b.x as int) + dist1(a.y as int, b.y as int)
}

/// Two cells are adjacent when exactly one orthogonal step apart.
pub open spec fn spec_adjacent(a: TilePos, b: TilePos) -> bool {
    spec_manhattan(a, b) == 1
}

/// One legal move of `actor`: to an adjacent cell it may enter.
pub open spec fn step_ok(m: Tilemap, actor: ActorKind, a: TilePos, b: TilePos) -> bool {
    spec_adjacent(a, b) && spec_tile_cost(m, actor, b.x as int, b.y as int) is Some
}

/// What `actor` pays for the move onto `b`.
pub open spec fn step_cost(m: Tilemap, actor: ActorKind, b: TilePos) -> int {
    spec_tile_cost(m, actor, b.x as int, b.y as int)->Some_0 as int
}

/// A walk every move of which is legal for `actor`; a single cell is a walk
/// of no moves.
pub open spec fn is_path(m: Tilemap, actor: ActorKind, p: Seq<TilePos>) -> bool
    decreases p.len(),
{
    if p.len() < 1 {
        false
    } else if p.len() == 1 {
        true
    } else {
        step_ok(m, actor, p[0], p[1]) && is_path(m, actor, p.drop_first())
    }
}

/// The summed cost of a walk: each cell after the first is paid for on entry.
pub open spec fn path_cost(m: Tilemap, actor: ActorKind, p: Seq<TilePos>) -> int
    decreases p.len(),
{
    if p.len() <= 1 {
        0
    } else {
        step_cost(m, actor, p[1]) + path_cost(m, actor, p.drop_first())
    }
}

/// A walk that leads `actor` from `start` to one of the `goals`.
pub open spec fn valid_route(
    m: Tilemap,
    actor: ActorKind,
    start: TilePos,
    goals: Seq<TilePos>,
    p: Seq<TilePos>,
) -> bool {
    &&& is_path(m, actor, p)
    &&& p[0] == start
    &&& goals.contains(p.last())
}

/// There is some walk from `start` to one of the `goals`.
pub open spec fn route_exists(m: Tilemap, actor: ActorKind, start: TilePos, goals: Seq<TilePos>) -> bool {
    exists|p: Seq<TilePos>| valid_route(m, actor, start, goals, p)
}

/// Manhattan distance; exact for cells inside any well-formed map.
pub fn heuristic(a: TilePos, b: TilePos) -> (r: u32)
    requires
        a.x <= MAX_DIM,
        a.y <= MAX_DIM,
        b.x <= MAX_DIM,
        b.y <= MAX_DIM,
    ensures
        r == spec_manhattan(a, b),
{
    let dx: usize = if a.x >= b.x {
        a.x - b.x
    } else {
        b.x - a.x
    };
    let dy: usize = if a.y >= b.y {
        a.y - b.y
    } else {
        b.y - a.y
    };
    (dx + dy) as u32
}

/// The neighbour entry one candidate cell contributes: itself and its entry
/// cost where passable, nothing where not.
pub open spec fn nb_entry(m: Tilemap, actor: ActorKind, x: int, y: int) -> Seq<(TilePos, u32)> {
    match spec_tile_cost(m, actor, x, y) {
        Some(c) => seq![(TilePos { x: x as usize, y: y as usize }, c)],
        None => Seq::empty(),
    }
}

/// The passable orthogonal neighbours of `pos`, with entry costs, in the
/// fixed order +x, -x, +y, -y.
pub open spec fn spec_neighbors(m: Tilemap, actor: ActorKind, pos: TilePos) -> Seq<(TilePos, u32)> {
    nb_entry(m, actor, pos.x + 1, pos.y as int) + nb_entry(m, actor, pos.x - 1, pos.y as int)
        + nb_entry(m, actor, pos.x as int, pos.y + 1) + nb_entry(
        m,
        actor,
        pos.x as int,
        pos.y - 1,
    )
}

/// Enumerate the up-to-four passable orthogonal neighbours of `pos` for
/// `actor`, in the order +x, -x, +y, -y, skipping impassable ones.
pub fn neighbors_costs(m: &Tilemap, actor: ActorKind, pos: TilePos) -> (r: Vec<(TilePos, u32)>)
    requires
        m.wf(),
    ensures
        r@ == spec_neighbors(*m, actor, pos),
{
    let mut r: Vec<(TilePos, u32)> = Vec::new();
    if pos.x < usize::MAX {
        let np = TilePos { x: pos.x + 1, y: pos.y };
        match tile_cost(m, actor, np) {
            Some(c) => r.push((np, c)),
            None => (),
        }
    }
    assert(r@ =~= nb_entry(*m, actor, pos.x + 1, pos.y as int));
    if pos.x > 0 {
        let np = TilePos { x: pos.x - 1, y: pos.y };
        match tile_cost(m, actor, np) {
            Some(c) => r.push((np, c)),
            None => (),
        }
    }
    assert(r@ =~= nb_entry(*m, actor, pos.x + 1, pos.y as int) + nb_entry(
        *m,
        actor,
        pos.x - 1,
        pos.y as int,
    ));
    if pos.y < usize::MAX {
        let np = TilePos { x: pos.x, y: pos.y + 1 };
        match tile_cost(m, actor, np) {
            Some(c) => r.push((np, c)),
            None => (),
        }
    }
    if pos.y > 0 {
        let np = TilePos { x: pos.x, y: pos.y - 1 };
        match tile_cost(m, actor, np) {
            Some(c) => r.push((np, c)),
            None => (),
        }
    }
    assert(r@ =~= spec_neighbors(*m, actor, pos));
    r
}

/// Whether at least one side of `pos` can be stood on by `actor`: the cheap
/// reachability pre-filter run before any search is spent on a cell.
pub fn has_passable_neighbor(m: &Tilemap, actor: ActorKind, pos: TilePos) -> (r: bool)
    requires
        m.wf(),
    ensures
        r == (spec_neighbors(*m, actor, pos).len() > 0),
{
    let n = neighbors_costs(m, actor, pos);
    n.len() > 0
}

/// The least Manhattan distance from `pos` to any of `goals`; 0 with no goals.
pub open spec fn spec_min_goal_dist(goals: Seq<TilePos>, pos: TilePos) -> int
    decreases goals.len(),
{
    if goals.len() == 0 {
        0
    } else {
        let d = spec_manhattan(goals[0], pos);
        let rest = spec_min_goal_dist(goals.drop_first(), pos);
        if goals.len() == 1 || d <= rest {
            d
        } else {
            rest
        }
    }
}

fn min_goal_distance(goals: &Vec<TilePos>, pos: TilePos) -> (r: u32)
    requires
        pos.x <= MAX_DIM,
        pos.y <= MAX_DIM,
        forall|i: int|
            0 <= i < goals@.len() ==> (#[trigger] goals@[i]).x <= MAX_DIM && goals@[i].y <= MAX_DIM,
    ensures
        r == spec_min_goal_dist(goals@, pos),
{
    if goals.len() == 0 {
        return 0;
    }
    let mut best: u32 = heuristic(goals[0], pos);
    proof {
        lemma_min_goal_dist_extend(goals@, pos, 0);
        assert(best == spec_min_goal_dist(goals@.subrange(0, 1), pos));
    }
    let mut i: usize = 1;
    while i < goals.len()
        invariant
            1 <= i <= goals@.len(),
            pos.x <= MAX_DIM,
            pos.y <= MAX_DIM,
            forall|j: int|
                0 <= j < goals@.len() ==> (#[trigger] goals@[j]).x <= MAX_DIM && goals@[j].y
                    <= MAX_DIM,
            best == spec_min_goal_dist(goals@.subrange(0, i as int), pos),
        decreases goals@.len() - i,
    {
        let d = heuristic(goals[i], pos);
        proof {
            lemma_min_goal_dist_extend(goals@, pos, i as int);
        }
        if d < best {
            best = d;
        }
        i = i + 1;
    }
    proof {
        assert(goals@.subrange(0, goals@.len() as int) =~= goals@);
    }
    best
}

/// Appending one more goal to a prefix takes the running minimum to the
/// minimum over the longer prefix.
proof fn lemma_min_goal_dist_extend(goals: Seq<TilePos>, pos: TilePos, i: int)
    requires
        0 <= i < goals.len(),
    ensures
        spec_min_goal_dist(goals.subrange(0, i + 1), pos) == if i == 0 || spec_manhattan(
            goals[i],
            pos,
        ) < spec_min_goal_dist(goals.subrange(0, i), pos) {
            spec_manhattan(goals[i], pos)
        } else {
            spec_min_goal_dist(goals.subrange(0, i), pos)
        },
    decreases i,
{
    if i == 0 {
        assert(goals.subrange(0, 1) =~= seq![goals[0]]);
        reveal_with_fuel(spec_min_goal_dist, 2);
    } else {
        lemma_min_prefix(goals.subrange(0, i + 1), pos);
        lemma_min_prefix_full(goals.subrange(0, i), pos, goals.subrange(0, i + 1), goals[i]);
    }
}

/// Helper: the minimum over a sequence is the smaller of the minimum over all
/// but the last element and the last element's distance.
proof fn lemma_min_prefix(s: Seq<TilePos>, pos: TilePos)
    requires
        s.len() >= 2,
    ensures
        spec_min_goal_dist(s, pos) == if spec_manhattan(s.last(), pos) < spec_min_goal_dist(
            s.drop_last(),
            pos,
        ) {
            spec_manhattan(s.last(), pos)
        } else {
            spec_min_goal_dist(s.drop_last(), pos)
        },
    decreases s.len(),
{
    if s.len() == 2 {
        assert(s.drop_first() =~= seq![s[1]]);
        assert(s.drop_last() =~= seq![s[0]]);
        reveal_with_fuel(spec_min_goal_dist, 3);
    } else {
        lemma_min_prefix(s.drop_first(), pos);
        assert(s.drop_first().drop_last() =~= s.drop_last().drop_first());
        assert(s.drop_first().last() == s.last());
        assert(s.drop_last()[0] == s[0]);
    }
}

/// Helper: phrase `lemma_min_prefix` for a prefix-plus-one-element shape.
proof fn lemma_min_prefix_full(shorter: Seq<TilePos>, pos: TilePos, longer: Seq<TilePos>, added: TilePos)
    requires
        longer.len() == shorter.len() + 1,
        longer.drop_last() =~= shorter,
        longer.last() == added,
        shorter.len() >= 1,
    ensures
        spec_min_goal_dist(longer, pos) == if spec_manhattan(added, pos) < spec_min_goal_dist(
            shorter,
            pos,
        ) {
            spec_manhattan(added, pos)
        } else {
            spec_min_goal_dist(shorter, pos)
        },
{
    lemma_min_prefix(longer, pos);
}

/// Whether `p` is one of the `goals`: the goal test handed to the search.
pub fn contains_pos(goals: &Vec<TilePos>, p: TilePos) -> (r: bool)
    ensures
        r == goals@.contains(p),
{
    let mut i: usize = 0;
    while i < goals.len()
        invariant
            0 <= i <= goals@.len(),
            forall|j: int| 0 <= j < i ==> goals@[j] != p,
        decreases goals@.len() - i,
    {
        if goals[i].x == p.x && goals[i].y == p.y {
            assert(goals@[i as int] == p);
            return true;
        }
        i = i + 1;
    }
    false
}

/// Relies on pathfinding::prelude::astar: it returns a shortest path from
/// `start` to a node satisfying the goal test, together with that path's
/// summed cost, or None when no such path exists. Its documentation asks that
/// the heuristic never overestimate the true remaining cost; the heuristic
/// handed here is the least Manhattan distance to a goal, which
/// `lemma_manhattan_admissible` shows never overestimates under this cost
/// model. The successor, heuristic and goal closures only call this library's
/// verified functions.
#[verifier::external_body]
fn astar_search(m: &Tilemap, actor: ActorKind, start: TilePos, goals: &Vec<TilePos>) -> (r: Option<
    (Vec<TilePos>, u32),
>)
    requires
        m.wf(),
        m.spec_in_bounds(start.x as int, start.y as int),
        forall|i: int|
            0 <= i < goals@.len() ==> m.spec_in_bounds(
                (#[trigger] goals@[i]).x as int,
                goals@[i].y as int,
            ),
    ensures
        r matches Some(pc) ==> {
            &&& valid_route(*m, actor, start, goals@, pc.0@)
            &&& pc.0@.no_duplicates()
            &&& pc.1 as int == path_cost(*m, actor, pc.0@)
            &&& forall|q: Seq<TilePos>|
                valid_route(*m, actor, start, goals@, q) ==> path_cost(*m, actor, pc.0@)
                    <= path_cost(*m, actor, q)
        },
        r is None ==> !route_exists(*m, actor, start, goals@),
{
    pathfinding::prelude::astar(
        &start,
        |p: &TilePos| neighbors_costs(m, actor, *p),
        |p: &TilePos| min_goal_distance(goals, *p),
        |p: &TilePos| contains_pos(goals, *p),
    )
}

/// Search for a cheapest route for `actor` from `start` to any of `goals`.
/// Some path is returned exactly when one exists; the returned path starts at
/// `start`, ends on a goal, takes only legal steps, never repeats a cell, and
/// no legal route is cheaper.
pub fn find_path(m: &Tilemap, actor: ActorKind, start: TilePos, goals: &Vec<TilePos>) -> (r:
    Option<(Vec<TilePos>, u32)>)
    requires
        m.wf(),
        m.spec_in_bounds(start.x as int, start.y as int),
        forall|i: int|
            0 <= i < goals@.len() ==> m.spec_in_bounds(
                (#[trigger] goals@[i]).x as int,
                goals@[i].y as int,
            ),
    ensures
        r matches Some(pc) ==> {
            &&& valid_route(*m, actor, start, goals@, pc.0@)
            &&& pc.0@.no_duplicates()
            &&& pc.1 as int == path_cost(*m, actor, pc.0@)
            &&& forall|q: Seq<TilePos>|
                valid_route(*m, actor, start, goals@, q) ==> path_cost(*m, actor, pc.0@)
                    <= path_cost(*m, actor, q)
        },
        r is Some <==> route_exists(*m, actor, start, goals@),
{
    let r = astar_search(m, actor, start, goals);
    proof {
        if r is Some {
            let pc = r->Some_0;
            assert(valid_route(*m, actor, start, goals@, pc.0@));
        }
    }
    r
}

/// The Manhattan heuristic is admissible: along any legal walk, the distance
/// between the endpoints never exceeds the walk's summed cost, because every
/// step moves one cell and costs at least 1.
pub proof fn lemma_manhattan_admissible(m: Tilemap, actor: ActorKind, p: Seq<TilePos>)
    requires
        is_path(m, actor, p),
    ensures
        spec_manhattan(p[0], p.last()) <= path_cost(m, actor, p),
    decreases p.len(),
{
    if p.len() <= 1 {
    } else {
        let rest = p.drop_first();
        assert(step_ok(m, actor, p[0], p[1]));
        lemma_manhattan_admissible(m, actor, rest);
        crate::cost::lemma_cost_at_least_one(m.tile_at(p[1].x as int, p[1].y as int), actor);
        assert(rest[0] == p[1]);
        assert(rest.last() == p.last());
        assert(step_cost(m, actor, p[1]) >= 1);
    }
}

} // verus!
