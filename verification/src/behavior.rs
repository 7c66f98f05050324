use vstd::prelude::*;

use crate::cost::{spec_tile_cost, tile_cost, ActorKind, CritterKind, EnemyKind};
use crate::gridmap::{Tilemap, MAX_DIM};
use crate::hit_points::HitPoints;
use crate::motion::PathState;
use crate::path::{
    dist1, find_path, is_path, nb_entry, neighbors_costs, path_cost, route_exists, spec_manhattan,
    spec_neighbors, step_ok, valid_route,
};
use crate::tiles::TilePos;

verus! {

#[verifier::external_type_specification]
#[verifier::external_body]
pub struct ExSmallRng(rand::rngs::SmallRng);

/// Relies on rand::SeedableRng::try_from_os_rng for SmallRng: a fresh
/// generator seeded from the operating system, or None when the entropy
/// source fails; this call never panics. Nothing can be promised of the
/// generator itself.
#[verifier::external_body]
pub fn rng_new() -> Option<rand::rngs::SmallRng> {
    <rand::rngs::SmallRng as rand::SeedableRng>::try_from_os_rng().ok()
}

/// Relies on rand::Rng::random_range over `0..n`: some value below `n`; which
/// one depends on the generator's state, so no more is claimed.
#[verifier::external_body]
pub fn rand_below(rng: &mut rand::rngs::SmallRng, n: usize) -> (r: usize)
    requires
        n > 0,
    ensures
        r < n,
{
    rand::Rng::random_range(rng, 0..n)
}

/// A ground enemy either marches on a home or stands beside one attacking.
#[derive(Clone, Copy, PartialEq, Eq, Structural, Debug)]
pub enum EnemyBehavior {
    SeekHome,
    Attack,
}

/// What the attack step found for an enemy standing at `pos`.
#[derive(Clone, Copy, PartialEq, Eq, Structural, Debug)]
pub enum AttackOutcome {
    /// No home stands on an adjacent cell.
    NoAdjacentHome,
    /// The adjacent home is already razed: seek another.
    HomeDead(usize),
    /// One hit landed on the adjacent home.
    Attacked(usize),
}

/// Land one enemy hit on the first home adjacent to `pos`, if any: a razed
/// home sends the enemy seeking instead.
pub fn attack_home(homes: &mut Vec<(TilePos, HitPoints)>, pos: TilePos) -> (r: AttackOutcome)
    requires
        pos.x <= MAX_DIM,
        pos.y <= MAX_DIM,
        forall|i: int|
            0 <= i < old(homes)@.len() ==> (#[trigger] old(homes)@[i]).0.x <= MAX_DIM && old(
                homes,
            )@[i].0.y <= MAX_DIM,
    ensures
        r is NoAdjacentHome ==> final(homes)@ == old(homes)@ && forall|i: int|
            0 <= i < old(homes)@.len() ==> spec_manhattan((#[trigger] old(homes)@[i]).0, pos) != 1,
        r matches AttackOutcome::HomeDead(i) ==> {
            &&& final(homes)@ == old(homes)@
            &&& 0 <= i < old(homes)@.len()
            &&& spec_manhattan(old(homes)@[i as int].0, pos) == 1
            &&& old(homes)@[i as int].1.current == 0
            &&& forall|j: int| 0 <= j < i ==> spec_manhattan((#[trigger] old(homes)@[j]).0, pos) != 1
        },
        r matches AttackOutcome::Attacked(i) ==> {
            &&& 0 <= i < old(homes)@.len()
            &&& spec_manhattan(old(homes)@[i as int].0, pos) == 1
            &&& old(homes)@[i as int].1.current > 0
            &&& forall|j: int| 0 <= j < i ==> spec_manhattan((#[trigger] old(homes)@[j]).0, pos) != 1
            &&& final(homes)@ == old(homes)@.update(
                i as int,
                (
                    old(homes)@[i as int].0,
                    HitPoints {
                        current: (old(homes)@[i as int].1.current - 1) as u32,
                        max: old(homes)@[i as int].1.max,
                    },
                ),
            )
        },
{
    let mut i: usize = 0;
    while i < homes.len()
        invariant
            i <= homes@.len(),
            pos.x <= MAX_DIM,
            pos.y <= MAX_DIM,
            homes@ == old(homes)@,
            forall|j: int|
                0 <= j < homes@.len() ==> (#[trigger] homes@[j]).0.x <= MAX_DIM && homes@[j].0.y
                    <= MAX_DIM,
            forall|j: int| 0 <= j < i ==> spec_manhattan((#[trigger] homes@[j]).0, pos) != 1,
        decreases homes@.len() - i,
    {
        let hpos = homes[i].0;
        if crate::path::heuristic(hpos, pos) == 1 {
            let hp = homes[i].1;
            if hp.current == 0 {
                return AttackOutcome::HomeDead(i);
            }
            let updated = (hpos, HitPoints { current: hp.current - 1, max: hp.max });
            homes.set(i, updated);
            return AttackOutcome::Attacked(i);
        }
        i = i + 1;
    }
    AttackOutcome::NoAdjacentHome
}

/// The arrival cells around a home for an enemy of the given kind.
pub open spec fn enemy_goal_cells(m: Tilemap, kind: EnemyKind, home: TilePos) -> Seq<TilePos> {
    spec_neighbors(m, ActorKind::Enemy(kind), home).map_values(|e: (TilePos, u32)| e.0)
}

/// Some home in the list stands at `p` with hit points left.
pub open spec fn live_home(homes: Seq<(TilePos, HitPoints)>, p: TilePos) -> bool {
    exists|hi: int| 0 <= hi < homes.len() && (#[trigger] homes[hi]).1.current > 0 && homes[hi].0 == p
}

/// The condition under which seeking is owed a route, whatever the random
/// draws pick: some home is live, every live home has a standable side, and
/// every arrival cell of every live home can be walked to from `pos`.
pub open spec fn seek_must_succeed(
    m: Tilemap,
    kind: EnemyKind,
    pos: TilePos,
    homes: Seq<(TilePos, HitPoints)>,
) -> bool {
    &&& exists|p: TilePos| #[trigger] live_home(homes, p)
    &&& forall|p: TilePos|
        #[trigger] live_home(homes, p) ==> enemy_goal_cells(m, kind, p).len() > 0
    &&& forall|p: TilePos, g: TilePos|
        live_home(homes, p) && #[trigger] enemy_goal_cells(m, kind, p).contains(g)
            ==> route_exists(m, ActorKind::Enemy(kind), pos, seq![g])
}

/// Choose a route for a freshly spawned or re-seeking enemy: a random live
/// home is picked, then a random passable cell beside it, and a cheapest path
/// there is searched. Some path means: it starts at the enemy, takes only
/// legal enemy steps, ends beside a live home, and no legal route to that end
/// cell is cheaper. With every home dead, None is owed; with a live home
/// whose every arrival cell is reachable (whichever the draws pick), Some is
/// owed; in between, None recovers by waiting: the picked home may be walled
/// in or unreachable.
pub fn enemy_seek(
    m: &Tilemap,
    rng: &mut rand::rngs::SmallRng,
    kind: EnemyKind,
    pos: TilePos,
    homes: &Vec<(TilePos, HitPoints)>,
) -> (r: Option<PathState>)
    requires
        m.wf(),
        m.spec_in_bounds(pos.x as int, pos.y as int),
    ensures
        r matches Some(ps) ==> {
            &&& ps.wf()
            &&& ps.index == 0
            &&& ps.path@[0] == pos
            &&& is_path(*m, ActorKind::Enemy(kind), ps.path@)
            &&& exists|p: TilePos|
                #[trigger] live_home(homes@, p) && enemy_goal_cells(*m, kind, p).contains(
                    ps.path@.last(),
                )
            &&& forall|q: Seq<TilePos>|
                valid_route(*m, ActorKind::Enemy(kind), pos, seq![ps.path@.last()], q)
                    ==> path_cost(*m, ActorKind::Enemy(kind), ps.path@) <= path_cost(
                    *m,
                    ActorKind::Enemy(kind),
                    q,
                )
        },
        (forall|i: int| 0 <= i < homes@.len() ==> (#[trigger] homes@[i]).1.current == 0) ==> r
            is None,
        seek_must_succeed(*m, kind, pos, homes@) ==> r is Some,
{
    let mut live: Vec<TilePos> = Vec::new();
    let mut i: usize = 0;
    while i < homes.len()
        invariant
            i <= homes@.len(),
            forall|j: int| 0 <= j < live@.len() ==> live_home(homes@, #[trigger] live@[j]),
            live@.len() == 0 ==> forall|hi: int|
                0 <= hi < i ==> (#[trigger] homes@[hi]).1.current == 0,
        decreases homes@.len() - i,
    {
        if homes[i].1.current > 0 {
            let ghost hi = i as int;
            live.push(homes[i].0);
            proof {
                assert(homes@[hi].1.current > 0 && homes@[hi].0 == live@[live@.len() - 1]);
                assert(live_home(homes@, live@[live@.len() - 1]));
            }
        }
        i = i + 1;
    }
    if live.len() == 0 {
        proof {
            assert(!(exists|p: TilePos| #[trigger] live_home(homes@, p))) by {
                if exists|p: TilePos| #[trigger] live_home(homes@, p) {
                    let p = choose|p: TilePos| live_home(homes@, p);
                    let hi = choose|hi: int|
                        0 <= hi < homes@.len() && (#[trigger] homes@[hi]).1.current > 0
                            && homes@[hi].0 == p;
                    assert(homes@[hi].1.current == 0);
                }
            }
        }
        return None;
    }
    let pick = rand_below(rng, live.len());
    let home = live[pick];
    proof {
        assert(live_home(homes@, live@[pick as int]));
    }
    let nbs = neighbors_costs(m, ActorKind::Enemy(kind), home);
    if nbs.len() == 0 {
        proof {
            // A live home with no standable side refutes the success premise.
            assert(enemy_goal_cells(*m, kind, home).len() == 0);
        }
        return None;
    }
    proof {
        crate::worker::lemma_neighbors_in_bounds(*m, ActorKind::Enemy(kind), home);
    }
    let npick = rand_below(rng, nbs.len());
    let goal_pair = nbs[npick];
    let goal = goal_pair.0;
    let mut goals: Vec<TilePos> = Vec::new();
    goals.push(goal);
    proof {
        assert(enemy_goal_cells(*m, kind, home)[npick as int] == goal);
        assert(enemy_goal_cells(*m, kind, home).contains(goal));
    }
    match find_path(m, ActorKind::Enemy(kind), pos, &goals) {
        Some(path_and_cost) => {
            let (path, _cost) = path_and_cost;
            let ps = PathState::from_path(path);
            proof {
                assert(goals@ =~= seq![goal]);
                assert(ps.path@.last() == goal);
                assert(seq![ps.path@.last()] =~= goals@);
            }
            Some(ps)
        },
        None => {
            proof {
                // A live home with an unreachable arrival cell refutes the
                // success premise.
                assert(goals@ =~= seq![goal]);
            }
            None
        },
    }
}

/// An enemy standing where no side can be entered can reach no arrival cell
/// of any live home: a walk of one or more moves would enter a passable
/// neighbour, and there is none; a walk of no moves would need the enemy's
/// own cell to be such an arrival cell, which the premises rule out (with a
/// live home directly beside the walled-in cell, a route of no moves is
/// legitimately found). Together with `enemy_seek`'s guarantees on any
/// returned route, this forces its result to be None.
pub proof fn lemma_walled_in_enemy_has_no_route(
    m: Tilemap,
    kind: EnemyKind,
    pos: TilePos,
    homes: Seq<(TilePos, HitPoints)>,
)
    requires
        m.wf(),
        spec_neighbors(m, ActorKind::Enemy(kind), pos).len() == 0,
        forall|p: TilePos|
            #[trigger] live_home(homes, p) ==> !enemy_goal_cells(m, kind, p).contains(pos),
    ensures
        forall|p: TilePos, g: TilePos|
            live_home(homes, p) && #[trigger] enemy_goal_cells(m, kind, p).contains(g)
                ==> !route_exists(m, ActorKind::Enemy(kind), pos, seq![g]),
{
    let actor = ActorKind::Enemy(kind);
    assert forall|p: TilePos, g: TilePos|
        live_home(homes, p) && #[trigger] enemy_goal_cells(m, kind, p).contains(g)
            implies !route_exists(m, actor, pos, seq![g]) by {
        if route_exists(m, actor, pos, seq![g]) {
            let q = choose|q: Seq<TilePos>| valid_route(m, actor, pos, seq![g], q);
            assert(valid_route(m, actor, pos, seq![g], q));
            assert(q.last() == g);
            if q.len() == 1 {
                assert(g == pos);
                assert(!enemy_goal_cells(m, kind, p).contains(pos));
            } else {
                assert(step_ok(m, actor, q[0], q[1]));
                let b = q[1];
                let x = pos.x as int;
                let y = pos.y as int;
                let bx = b.x as int;
                let by = b.y as int;
                assert(dist1(bx, x) + dist1(by, y) == 1);
                if bx == x + 1 && by == y {
                    assert(nb_entry(m, actor, x + 1, y).len() == 1);
                } else if bx == x - 1 && by == y {
                    assert(nb_entry(m, actor, x - 1, y).len() == 1);
                } else if bx == x && by == y + 1 {
                    assert(nb_entry(m, actor, x, y + 1).len() == 1);
                } else {
                    assert(bx == x && by == y - 1);
                    assert(nb_entry(m, actor, x, y - 1).len() == 1);
                }
                assert(spec_neighbors(m, actor, pos).len() >= 1);
            }
        }
    }
}

/// A cell within the square of the given radius around `pos` that the critter
/// can stand on.
pub open spec fn wander_cell(
    m: Tilemap,
    kind: CritterKind,
    pos: TilePos,
    radius: int,
    x: int,
    y: int,
) -> bool {
    &&& m.spec_in_bounds(x, y)
    &&& spec_tile_cost(m, ActorKind::Critter(kind), x, y) is Some
    &&& dist1(x, pos.x as int) <= radius
    &&& dist1(y, pos.y as int) <= radius
}

/// Every passable cell in the square window of the given radius around `pos`,
/// for a critter of the given kind.
pub fn wander_candidates(m: &Tilemap, kind: CritterKind, pos: TilePos, radius: usize) -> (r: Vec<
    TilePos,
>)
    requires
        m.wf(),
        m.spec_in_bounds(pos.x as int, pos.y as int),
        radius <= 16,
    ensures
        forall|i: int|
            0 <= i < r@.len() ==> wander_cell(
                *m,
                kind,
                pos,
                radius as int,
                (#[trigger] r@[i]).x as int,
                r@[i].y as int,
            ),
        forall|x: int, y: int|
            wander_cell(*m, kind, pos, radius as int, x, y) ==> r@.contains(
                TilePos { x: x as usize, y: y as usize },
            ),
{
    let mut r: Vec<TilePos> = Vec::new();
    let side = 2 * radius + 1;
    let mut dy: usize = 0;
    while dy < side
        invariant
            m.wf(),
            m.spec_in_bounds(pos.x as int, pos.y as int),
            radius <= 16,
            side == 2 * radius + 1,
            dy <= side,
            forall|i: int|
                0 <= i < r@.len() ==> wander_cell(
                    *m,
                    kind,
                    pos,
                    radius as int,
                    (#[trigger] r@[i]).x as int,
                    r@[i].y as int,
                ),
            forall|x: int, y: int|
                wander_cell(*m, kind, pos, radius as int, x, y) && y < pos.y - radius + dy
                    ==> r@.contains(TilePos { x: x as usize, y: y as usize }),
        decreases side - dy,
    {
        let cy_ok = pos.y + dy >= radius && pos.y + dy - radius < m.rows();
        if cy_ok {
            let cy = pos.y + dy - radius;
            let mut dx: usize = 0;
            while dx < side
                invariant
                    m.wf(),
                    m.spec_in_bounds(pos.x as int, pos.y as int),
                    radius <= 16,
                    side == 2 * radius + 1,
                    dy < side,
                    dx <= side,
                    cy == pos.y + dy - radius,
                    0 <= cy < m.spec_rows(),
                    forall|i: int|
                        0 <= i < r@.len() ==> wander_cell(
                            *m,
                            kind,
                            pos,
                            radius as int,
                            (#[trigger] r@[i]).x as int,
                            r@[i].y as int,
                        ),
                    forall|x: int, y: int|
                        wander_cell(*m, kind, pos, radius as int, x, y) && y < pos.y - radius + dy
                            ==> r@.contains(TilePos { x: x as usize, y: y as usize }),
                    forall|x: int|
                        wander_cell(*m, kind, pos, radius as int, x, cy as int) && x < pos.x
                            - radius + dx ==> r@.contains(
                            TilePos { x: x as usize, y: cy },
                        ),
                decreases side - dx,
            {
                let ghost r_old = r@;
                let ghost xcur = pos.x - radius + dx;
                if pos.x + dx >= radius && pos.x + dx - radius < m.cols() {
                    let cx = pos.x + dx - radius;
                    let p = TilePos { x: cx, y: cy };
                    match tile_cost(m, ActorKind::Critter(kind), p) {
                        Some(_) => {
                            r.push(p);
                        },
                        None => (),
                    }
                }
                proof {
                    assert forall|q: TilePos| r_old.contains(q) implies r@.contains(q) by {
                        let k = choose|k: int| 0 <= k < r_old.len() && r_old[k] == q;
                        assert(r@[k] == q);
                    }
                    if wander_cell(*m, kind, pos, radius as int, xcur, cy as int) {
                        assert(r@[r@.len() - 1] == (TilePos {
                            x: xcur as usize,
                            y: cy as usize,
                        }));
                        assert(r@.contains(TilePos { x: xcur as usize, y: cy as usize }));
                    }
                    assert forall|x: int|
                        wander_cell(*m, kind, pos, radius as int, x, cy as int) && x < pos.x
                            - radius + (dx + 1) implies r@.contains(
                        TilePos { x: x as usize, y: cy },
                    ) by {
                        if x < xcur {
                            assert(r_old.contains(TilePos { x: x as usize, y: cy as usize }));
                        }
                    }
                }
                dx = dx + 1;
            }
        }
        dy = dy + 1;
    }
    r
}

/// Choose a short random walk for a restless critter: a random standable cell
/// within the wander radius is picked and a cheapest path there searched.
/// Some path starts at the critter, takes only legal critter steps, ends on a
/// standable cell within the radius, and no legal route to that cell is
/// cheaper. With no standable cell in the window, None is owed; with every
/// standable cell in the window reachable (whichever the draw picks), Some is
/// owed; in between, None means the picked cell was unreachable this tick.
pub fn critter_wander(
    m: &Tilemap,
    rng: &mut rand::rngs::SmallRng,
    kind: CritterKind,
    pos: TilePos,
    radius: usize,
) -> (r: Option<PathState>)
    requires
        m.wf(),
        m.spec_in_bounds(pos.x as int, pos.y as int),
        radius <= 16,
    ensures
        r matches Some(ps) ==> {
            &&& ps.wf()
            &&& ps.index == 0
            &&& ps.path@[0] == pos
            &&& is_path(*m, ActorKind::Critter(kind), ps.path@)
            &&& wander_cell(
                *m,
                kind,
                pos,
                radius as int,
                ps.path@.last().x as int,
                ps.path@.last().y as int,
            )
            &&& forall|q: Seq<TilePos>|
                valid_route(*m, ActorKind::Critter(kind), pos, seq![ps.path@.last()], q)
                    ==> path_cost(*m, ActorKind::Critter(kind), ps.path@) <= path_cost(
                    *m,
                    ActorKind::Critter(kind),
                    q,
                )
        },
        !(exists|x: int, y: int| wander_cell(*m, kind, pos, radius as int, x, y)) ==> r is None,
        (exists|x: int, y: int| wander_cell(*m, kind, pos, radius as int, x, y)) && (forall|
            x: int,
            y: int,
        |
            #[trigger] wander_cell(*m, kind, pos, radius as int, x, y) ==> route_exists(
                *m,
                ActorKind::Critter(kind),
                pos,
                seq![TilePos { x: x as usize, y: y as usize }],
            )) ==> r is Some,
{
    let cands = wander_candidates(m, kind, pos, radius);
    if cands.len() == 0 {
        proof {
            // An empty candidate list means no cell of the window is
            // standable: any such cell would have been collected.
            assert(!(exists|x: int, y: int| wander_cell(*m, kind, pos, radius as int, x, y)))
                by {
                if exists|x: int, y: int| wander_cell(*m, kind, pos, radius as int, x, y) {
                    let (x, y) = choose|x: int, y: int|
                        wander_cell(*m, kind, pos, radius as int, x, y);
                    assert(cands@.contains(TilePos { x: x as usize, y: y as usize }));
                }
            }
        }
        return None;
    }
    let pick = rand_below(rng, cands.len());
    let goal = cands[pick];
    proof {
        assert(wander_cell(*m, kind, pos, radius as int, goal.x as int, goal.y as int));
    }
    let mut goals: Vec<TilePos> = Vec::new();
    goals.push(goal);
    match find_path(m, ActorKind::Critter(kind), pos, &goals) {
        Some(path_and_cost) => {
            let (path, _cost) = path_and_cost;
            let ps = PathState::from_path(path);
            proof {
                assert(goals@ =~= seq![goal]);
                assert(ps.path@.last() == goal);
                assert(seq![ps.path@.last()] =~= goals@);
            }
            Some(ps)
        },
        None => {
            proof {
                // A standable cell with no route refutes the success premise.
                assert(goals@ =~= seq![goal]);
                assert(TilePos { x: goal.x as int as usize, y: goal.y as int as usize } == goal);
            }
            None
        },
    }
}

} // verus!
