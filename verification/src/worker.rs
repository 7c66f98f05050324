use vstd::prelude::*;

use crate::cost::ActorKind;
use crate::gridmap::{Tilemap, MAX_DIM};
use crate::hit_points::HitPoints;
use crate::ledger::{
    key_index, spec_get, Designation, DesignationKind, DesignationLedger,
    MAX_WORKERS_PER_DESIGNATION,
};
use crate::path::{
    find_path, has_passable_neighbor, heuristic, nb_entry, neighbors_costs, path_cost,
    route_exists, spec_manhattan, spec_neighbors, valid_route,
};
use crate::tiles::TilePos;

verus! {

/// The work item a worker is actively executing, derived from a designation.
pub enum Job {
    Dig(TilePos),
    Build { hit_points: HitPoints, pos: TilePos },
}

/// How much construction work a tower takes before it stands.
pub const TOWER_BUILD_HIT_POINTS: u32 = 10;

/// What one successful scheduling tick hands back: which idle worker leaves
/// idleness, for which designated cell, with which job and along which route.
pub struct Assignment {
    pub worker: usize,
    pub target: TilePos,
    pub kind: DesignationKind,
    pub job: Option<Job>,
    pub path: Vec<TilePos>,
    pub cost: u32,
}

/// A designation a worker could still be sent to: below the worker cap and
/// with at least one side a worker can stand on.
pub open spec fn open_candidate(m: Tilemap, e: (TilePos, Designation)) -> bool {
    e.1.workers < MAX_WORKERS_PER_DESIGNATION && spec_neighbors(m, ActorKind::Worker, e.0).len()
        > 0
}

/// The cells a worker may arrive at to serve a designation at `target`: the
/// passable neighbours of the designated cell.
pub open spec fn goal_cells(m: Tilemap, target: TilePos) -> Seq<TilePos> {
    spec_neighbors(m, ActorKind::Worker, target).map_values(|e: (TilePos, u32)| e.0)
}

/// Strict priority order between two candidate jobs seen from a worker at
/// `w`: an unclaimed tower build beats everything else; within one tier the
/// nearer job (by Manhattan distance) wins.
pub open spec fn spec_better(w: TilePos, a: (TilePos, Designation), b: (TilePos, Designation)) -> bool {
    let at = a.1.kind is BuildTower && a.1.workers == 0;
    let bt = b.1.kind is BuildTower && b.1.workers == 0;
    (at && !bt) || (at == bt && spec_manhattan(a.0, w) < spec_manhattan(b.0, w))
}

/// The index of the best candidate for a worker at `w`; on ties the later
/// entry in candidate-list order wins.
pub open spec fn best_index(c: Seq<(TilePos, Designation)>, w: TilePos) -> int
    decreases c.len(),
{
    if c.len() <= 1 {
        0
    } else {
        let b = best_index(c.drop_last(), w);
        if spec_better(w, c[b], c.last()) {
            b
        } else {
            c.len() - 1
        }
    }
}

/// The chosen index is in range and no candidate strictly beats it.
pub proof fn lemma_best_index(c: Seq<(TilePos, Designation)>, w: TilePos)
    requires
        c.len() >= 1,
    ensures
        0 <= best_index(c, w) < c.len(),
        forall|j: int| 0 <= j < c.len() ==> !spec_better(w, #[trigger] c[j], c[best_index(c, w)]),
    decreases c.len(),
{
    if c.len() > 1 {
        lemma_best_index(c.drop_last(), w);
        let b = best_index(c.drop_last(), w);
        assert forall|j: int| 0 <= j < c.len() implies !spec_better(
            w,
            #[trigger] c[j],
            c[best_index(c, w)],
        ) by {
            if j < c.len() - 1 {
                assert(c.drop_last()[j] == c[j]);
                assert(c.drop_last()[b] == c[b]);
            }
        }
    }
}

/// Where the assignment loop lands: workers are taken in order; each in turn
/// looks at the best remaining candidate; the first worker from which a route
/// to its choice exists is assigned `(worker, target, kind)`; a worker whose
/// choice is unreachable drops that candidate for the rest of the tick.
pub open spec fn spec_assign(
    m: Tilemap,
    cands: Seq<(TilePos, Designation)>,
    workers: Seq<TilePos>,
    w: int,
) -> Option<(int, TilePos, DesignationKind)>
    decreases workers.len() - w,
{
    if w < 0 || w >= workers.len() || cands.len() == 0 {
        None
    } else {
        let b = best_index(cands, workers[w]);
        let target = cands[b].0;
        if route_exists(m, ActorKind::Worker, workers[w], goal_cells(m, target)) {
            Some((w, target, cands[b].1.kind))
        } else {
            spec_assign(m, cands.remove(b), workers, w + 1)
        }
    }
}

/// A passable neighbour entry names an in-bounds cell no further than one
/// step from the queried coordinates.
proof fn lemma_nb_entry_bounds(m: Tilemap, actor: ActorKind, x: int, y: int)
    requires
        m.wf(),
    ensures
        forall|i: int|
            0 <= i < nb_entry(m, actor, x, y).len() ==> {
                let p = (#[trigger] nb_entry(m, actor, x, y)[i]).0;
                &&& m.spec_in_bounds(p.x as int, p.y as int)
                &&& p.x == x
                &&& p.y == y
            },
{
    assert forall|i: int| 0 <= i < nb_entry(m, actor, x, y).len() implies {
        let p = (#[trigger] nb_entry(m, actor, x, y)[i]).0;
        &&& m.spec_in_bounds(p.x as int, p.y as int)
        &&& p.x == x
        &&& p.y == y
    } by {
        assert(crate::cost::spec_tile_cost(m, actor, x, y) is Some);
        assert(m.spec_in_bounds(x, y));
        assert(nb_entry(m, actor, x, y)[i].0 == (TilePos { x: x as usize, y: y as usize }));
    }
}

/// Every enumerated neighbour is an in-bounds cell adjacent to `pos`.
pub proof fn lemma_neighbors_in_bounds(m: Tilemap, actor: ActorKind, pos: TilePos)
    requires
        m.wf(),
    ensures
        forall|i: int|
            0 <= i < spec_neighbors(m, actor, pos).len() ==> {
                let p = (#[trigger] spec_neighbors(m, actor, pos)[i]).0;
                m.spec_in_bounds(p.x as int, p.y as int)
            },
        spec_neighbors(m, actor, pos).len() > 0 ==> pos.x <= MAX_DIM && pos.y <= MAX_DIM,
{
    let s1 = nb_entry(m, actor, pos.x + 1, pos.y as int);
    let s2 = nb_entry(m, actor, pos.x - 1, pos.y as int);
    let s3 = nb_entry(m, actor, pos.x as int, pos.y + 1);
    let s4 = nb_entry(m, actor, pos.x as int, pos.y - 1);
    lemma_nb_entry_bounds(m, actor, pos.x + 1, pos.y as int);
    lemma_nb_entry_bounds(m, actor, pos.x - 1, pos.y as int);
    lemma_nb_entry_bounds(m, actor, pos.x as int, pos.y + 1);
    lemma_nb_entry_bounds(m, actor, pos.x as int, pos.y - 1);
    assert forall|i: int| 0 <= i < spec_neighbors(m, actor, pos).len() implies {
        let p = (#[trigger] spec_neighbors(m, actor, pos)[i]).0;
        m.spec_in_bounds(p.x as int, p.y as int)
    } by {
        let s = spec_neighbors(m, actor, pos);
        if i < s1.len() {
            assert(s[i] == s1[i]);
        } else if i < s1.len() + s2.len() {
            assert(s[i] == s2[i - s1.len()]);
        } else if i < s1.len() + s2.len() + s3.len() {
            assert(s[i] == s3[i - s1.len() - s2.len()]);
        } else {
            assert(s[i] == s4[i - s1.len() - s2.len() - s3.len()]);
        }
    }
    if spec_neighbors(m, actor, pos).len() > 0 {
        let s = spec_neighbors(m, actor, pos);
        let p = s[0].0;
        if 0 < s1.len() {
            assert(s[0] == s1[0]);
        } else if 0 < s1.len() + s2.len() {
            assert(s[0] == s2[0]);
        } else if 0 < s1.len() + s2.len() + s3.len() {
            assert(s[0] == s3[0]);
        } else {
            assert(s[0] == s4[0]);
        }
    }
}

/// The worker-arrival cells for `target`, as a vector: the passable
/// neighbours of the designated cell, every one in bounds.
fn goal_positions(m: &Tilemap, target: TilePos) -> (r: Vec<TilePos>)
    requires
        m.wf(),
    ensures
        r@ == goal_cells(*m, target),
        forall|i: int|
            0 <= i < r@.len() ==> m.spec_in_bounds(
                (#[trigger] r@[i]).x as int,
                r@[i].y as int,
            ),
{
    let n = neighbors_costs(m, ActorKind::Worker, target);
    let mut r: Vec<TilePos> = Vec::new();
    let mut i: usize = 0;
    while i < n.len()
        invariant
            i <= n@.len(),
            n@ == spec_neighbors(*m, ActorKind::Worker, target),
            r@ == n@.subrange(0, i as int).map_values(|e: (TilePos, u32)| e.0),
        decreases n@.len() - i,
    {
        let e = n[i];
        r.push(e.0);
        proof {
            assert(n@.subrange(0, i + 1 as int).drop_last() =~= n@.subrange(0, i as int));
            assert(n@.subrange(0, i + 1 as int).map_values(|e: (TilePos, u32)| e.0) =~= n@.subrange(
                0,
                i as int,
            ).map_values(|e: (TilePos, u32)| e.0).push(n@[i as int].0));
        }
        i = i + 1;
    }
    proof {
        assert(n@.subrange(0, n@.len() as int) =~= n@);
        lemma_neighbors_in_bounds(*m, ActorKind::Worker, target);
    }
    r
}

fn better(w: TilePos, a: &(TilePos, Designation), b: &(TilePos, Designation)) -> (r: bool)
    requires
        w.x <= MAX_DIM,
        w.y <= MAX_DIM,
        a.0.x <= MAX_DIM,
        a.0.y <= MAX_DIM,
        b.0.x <= MAX_DIM,
        b.0.y <= MAX_DIM,
    ensures
        r == spec_better(w, *a, *b),
{
    let at = matches!(a.1.kind, DesignationKind::BuildTower) && a.1.workers == 0;
    let bt = matches!(b.1.kind, DesignationKind::BuildTower) && b.1.workers == 0;
    (at && !bt) || (at == bt && heuristic(a.0, w) < heuristic(b.0, w))
}

/// Pick the best remaining candidate for a worker at `w`; ties go to the
/// later list entry.
fn best_of(cands: &Vec<(TilePos, Designation)>, w: TilePos) -> (r: usize)
    requires
        cands@.len() >= 1,
        w.x <= MAX_DIM,
        w.y <= MAX_DIM,
        forall|i: int|
            0 <= i < cands@.len() ==> (#[trigger] cands@[i]).0.x <= MAX_DIM && cands@[i].0.y
                <= MAX_DIM,
    ensures
        r as int == best_index(cands@, w),
{
    let mut best: usize = 0;
    let mut i: usize = 1;
    while i < cands.len()
        invariant
            1 <= i <= cands@.len(),
            best < i,
            w.x <= MAX_DIM,
            w.y <= MAX_DIM,
            forall|j: int|
                0 <= j < cands@.len() ==> (#[trigger] cands@[j]).0.x <= MAX_DIM && cands@[j].0.y
                    <= MAX_DIM,
            best as int == best_index(cands@.subrange(0, i as int), w),
        decreases cands@.len() - i,
    {
        proof {
            let pre = cands@.subrange(0, i + 1 as int);
            assert(pre.drop_last() =~= cands@.subrange(0, i as int));
            lemma_best_index(cands@.subrange(0, i as int), w);
        }
        if !better(w, &cands[best], &cands[i]) {
            best = i;
        }
        i = i + 1;
    }
    proof {
        assert(cands@.subrange(0, cands@.len() as int) =~= cands@);
    }
    best
}

/// The open, plausibly-reachable designations among `s`, in order.
pub open spec fn candidates_of(m: Tilemap, s: Seq<(TilePos, Designation)>) -> Seq<(TilePos, Designation)>
    decreases s.len(),
{
    if s.len() == 0 {
        Seq::empty()
    } else {
        let rest = candidates_of(m, s.drop_last());
        if open_candidate(m, s.last()) {
            rest.push(s.last())
        } else {
            rest
        }
    }
}

/// Every candidate is one of the filtered entries and is open.
pub proof fn lemma_candidates_subset(m: Tilemap, s: Seq<(TilePos, Designation)>)
    ensures
        forall|i: int|
            0 <= i < candidates_of(m, s).len() ==> s.contains(#[trigger] candidates_of(m, s)[i])
                && open_candidate(m, candidates_of(m, s)[i]),
    decreases s.len(),
{
    if s.len() > 0 {
        lemma_candidates_subset(m, s.drop_last());
        let c = candidates_of(m, s);
        let rest = candidates_of(m, s.drop_last());
        assert forall|i: int| 0 <= i < c.len() implies s.contains(#[trigger] c[i])
            && open_candidate(m, c[i]) by {
            if i < rest.len() {
                assert(c[i] == rest[i]);
                assert(s.drop_last().contains(rest[i]));
                let j = choose|j: int| 0 <= j < s.drop_last().len() && s.drop_last()[j] == rest[i];
                assert(s[j] == rest[i]);
            } else {
                assert(c[i] == s.last());
                assert(s[s.len() - 1] == s.last());
            }
        }
    }
}

impl DesignationLedger {
    /// The designations still worth offering to a worker this tick.
    pub open spec fn spec_candidates(self, m: Tilemap) -> Seq<(TilePos, Designation)> {
        candidates_of(m, self.entries@)
    }
}

/// Collect the open, plausibly-reachable designations in ledger order.
fn collect_candidates(m: &Tilemap, ledger: &DesignationLedger) -> (r: Vec<(TilePos, Designation)>)
    requires
        m.wf(),
    ensures
        r@ == ledger.spec_candidates(*m),
{
    let mut r: Vec<(TilePos, Designation)> = Vec::new();
    let mut k: usize = 0;
    while k < ledger.len()
        invariant
            k <= ledger.entries@.len(),
            m.wf(),
            r@ == candidates_of(*m, ledger.entries@.subrange(0, k as int)),
        decreases ledger.entries@.len() - k,
    {
        let e = ledger.entry_at(k);
        proof {
            let pre = ledger.entries@.subrange(0, k + 1 as int);
            assert(pre.drop_last() =~= ledger.entries@.subrange(0, k as int));
            assert(pre.last() == ledger.entries@[k as int]);
        }
        if e.1.workers < MAX_WORKERS_PER_DESIGNATION && has_passable_neighbor(
            m,
            ActorKind::Worker,
            e.0,
        ) {
            r.push(e);
        }
        k = k + 1;
    }
    proof {
        assert(ledger.entries@.subrange(0, ledger.entries@.len() as int) =~= ledger.entries@);
    }
    r
}

/// Match one idle worker to one open designation this tick. Candidates are
/// the designations below the worker cap with a standable side; each worker
/// in list order looks at its best candidate (unclaimed tower builds first,
/// then nearest); the first worker with a route to its choice is assigned and
/// the designation's worker count rises by one. At most one assignment is
/// made per call: that is the per-tick pathfinding budget.
pub fn find_job(m: &Tilemap, ledger: &mut DesignationLedger, idle_workers: &Vec<TilePos>) -> (r:
    Option<Assignment>)
    requires
        m.wf(),
        old(ledger).wf(),
        forall|i: int|
            0 <= i < idle_workers@.len() ==> m.spec_in_bounds(
                (#[trigger] idle_workers@[i]).x as int,
                idle_workers@[i].y as int,
            ),
    ensures
        final(ledger).wf(),
        r is Some <==> spec_assign(
            *m,
            old(ledger).spec_candidates(*m),
            idle_workers@,
            0,
        ) is Some,
        r matches Some(asg) ==> {
            &&& spec_assign(*m, old(ledger).spec_candidates(*m), idle_workers@, 0) == Some(
                (asg.worker as int, asg.target, asg.kind),
            )
            &&& asg.worker < idle_workers@.len()
            &&& valid_route(
                *m,
                ActorKind::Worker,
                idle_workers@[asg.worker as int],
                goal_cells(*m, asg.target),
                asg.path@,
            )
            &&& asg.cost as int == path_cost(*m, ActorKind::Worker, asg.path@)
            &&& forall|q: Seq<TilePos>|
                valid_route(
                    *m,
                    ActorKind::Worker,
                    idle_workers@[asg.worker as int],
                    goal_cells(*m, asg.target),
                    q,
                ) ==> path_cost(*m, ActorKind::Worker, asg.path@) <= path_cost(
                    *m,
                    ActorKind::Worker,
                    q,
                )
            &&& (spec_get(old(ledger).entries@, asg.target) matches Some(d) && d.workers
                < MAX_WORKERS_PER_DESIGNATION && final(ledger).entries@ == old(
                ledger,
            ).entries@.update(
                key_index(old(ledger).entries@, asg.target),
                (
                    asg.target,
                    Designation {
                        kind: d.kind,
                        indicator: d.indicator,
                        workers: (d.workers + 1) as u32,
                    },
                ),
            ))
            &&& (asg.kind is Dig ==> (asg.job matches Some(j) && (j matches Job::Dig(p) && p
                == asg.target)))
            &&& (asg.kind is BuildTower ==> (asg.job matches Some(j) && (j matches Job::Build {
                hit_points,
                pos,
            } && pos == asg.target && hit_points.current == TOWER_BUILD_HIT_POINTS)))
            &&& (asg.kind is Dance ==> asg.job is None)
        },
        r is None ==> final(ledger).entries@ == old(ledger).entries@,
    {
        let ghost cands0 = old(ledger).spec_candidates(*m);
        let mut cands = collect_candidates(m, ledger);
        proof {
            lemma_candidates_subset(*m, old(ledger).entries@);
        }
        assert(forall|i: int|
            0 <= i < cands@.len() ==> old(ledger).entries@.contains(#[trigger] cands@[i])
                && open_candidate(*m, cands@[i]));
        let mut w: usize = 0;
        while w < idle_workers.len()
            invariant
                m.wf(),
                ledger.wf(),
                cands0 == old(ledger).spec_candidates(*m),
                ledger.entries@ == old(ledger).entries@,
                w <= idle_workers@.len(),
                forall|i: int|
                    0 <= i < idle_workers@.len() ==> m.spec_in_bounds(
                        (#[trigger] idle_workers@[i]).x as int,
                        idle_workers@[i].y as int,
                    ),
                forall|i: int|
                    0 <= i < cands@.len() ==> old(ledger).entries@.contains(#[trigger] cands@[i])
                        && open_candidate(*m, cands@[i]),
                spec_assign(*m, cands0, idle_workers@, 0) == spec_assign(
                    *m,
                    cands@,
                    idle_workers@,
                    w as int,
                ),
            decreases idle_workers@.len() - w,
        {
            if cands.len() == 0 {
                proof {
                    assert(spec_assign(*m, cands@, idle_workers@, w as int) is None);
                }
                return None;
            }
            let wpos = idle_workers[w];
            proof {
                assert forall|i: int| 0 <= i < cands@.len() implies (#[trigger] cands@[i]).0.x
                    <= MAX_DIM && cands@[i].0.y <= MAX_DIM by {
                    lemma_neighbors_in_bounds(*m, ActorKind::Worker, cands@[i].0);
                }
            }
            let b = best_of(&cands, wpos);
            proof {
                lemma_best_index(cands@, wpos);
            }
            let target = cands[b].0;
            let ghost chosen = cands@[b as int];
            let goals = goal_positions(m, target);
            match find_path(m, ActorKind::Worker, wpos, &goals) {
                Some(path_and_cost) => {
                    let (path, cost) = path_and_cost;
                    proof {
                        assert(route_exists(
                            *m,
                            ActorKind::Worker,
                            wpos,
                            goal_cells(*m, target),
                        ));
                        assert(spec_assign(*m, cands@, idle_workers@, w as int) == Some(
                            (w as int, target, chosen.1.kind),
                        ));
                        // The chosen candidate is a live ledger entry below the cap.
                        let j = choose|j: int|
                            0 <= j < old(ledger).entries@.len() && old(ledger).entries@[j]
                                == chosen;
                        assert(old(ledger).entries@.contains(chosen));
                        assert(old(ledger).entries@[j] == chosen);
                        DesignationLedger::lemma_found_index(
                            old(ledger).entries@,
                            target,
                            j,
                        );
                    }
                    let kind = cands[b].1.kind;
                    let ok = ledger.increment_workers(target);
                    assert(ok);
                    let job = match kind {
                        DesignationKind::Dig => Some(Job::Dig(target)),
                        DesignationKind::BuildTower => Some(
                            Job::Build { hit_points: HitPoints::full(TOWER_BUILD_HIT_POINTS), pos: target },
                        ),
                        DesignationKind::Dance => None,
                    };
                    return Some(Assignment { worker: w, target, kind, job, path, cost });
                },
                None => {
                    proof {
                        assert(!route_exists(*m, ActorKind::Worker, wpos, goal_cells(*m, target)));
                        assert(spec_assign(*m, cands@, idle_workers@, w as int) == spec_assign(
                            *m,
                            cands@.remove(b as int),
                            idle_workers@,
                            w as int + 1,
                        ));
                        cands@.remove_ensures(b as int);
                        assert forall|i: int|
                            0 <= i < cands@.remove(b as int).len() implies old(
                            ledger,
                        ).entries@.contains(#[trigger] cands@.remove(b as int)[i])
                            && open_candidate(*m, cands@.remove(b as int)[i]) by {
                            let i0: int = if i < b as int {
                                i
                            } else {
                                i + 1
                            };
                            assert(cands@.remove(b as int)[i] == cands@[i0]);
                        }
                    }
                    cands.remove(b);
                    w = w + 1;
                },
            }
        }
        None
    }

/// With at least one idle worker, at least one open candidate, and every
/// candidate reachable from the first worker, the tick assigns exactly one
/// worker: the first one, to its best candidate.
pub proof fn lemma_one_assignment_per_tick(
    m: Tilemap,
    cands: Seq<(TilePos, Designation)>,
    workers: Seq<TilePos>,
)
    requires
        workers.len() > 0,
        cands.len() > 0,
        forall|i: int|
            0 <= i < cands.len() ==> route_exists(
                m,
                ActorKind::Worker,
                workers[0],
                goal_cells(m, (#[trigger] cands[i]).0),
            ),
    ensures
        spec_assign(m, cands, workers, 0) matches Some(a) && a.0 == 0,
{
    lemma_best_index(cands, workers[0]);
    let b = best_index(cands, workers[0]);
    assert(route_exists(m, ActorKind::Worker, workers[0], goal_cells(m, cands[b].0)));
}

} // verus!
