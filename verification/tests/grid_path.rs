use tile_nav::cost::{cost, tile_cost, ActorKind, CritterKind, EnemyKind};
use tile_nav::gridmap::Tilemap;
use tile_nav::hit_points::HitPoints;
use tile_nav::motion::{PathState, PROGRESS_ONE};
use tile_nav::path::{find_path, has_passable_neighbor, heuristic, neighbors_costs};
use tile_nav::tiles::{TileKind, TilePos};

fn pos(x: usize, y: usize) -> TilePos {
    TilePos { x, y }
}

/// A small map whose every cell is the given kind.
fn uniform_map(rows: usize, cols: usize, kind: TileKind) -> Tilemap {
    let mut m = Tilemap::new(rows, cols);
    for y in 0..rows {
        for x in 0..cols {
            m.set(pos(x, y), kind);
        }
    }
    m
}

#[test]
fn hit_points_saturate_at_zero() {
    let mut hp = HitPoints::full(3);
    assert_eq!(hp.current, 3);
    assert_eq!(hp.max, 3);
    assert!(!hp.is_zero());
    hp.sub(2);
    assert_eq!(hp.current, 1);
    hp.sub(5);
    assert_eq!(hp.current, 0);
    assert_eq!(hp.max, 3);
    assert!(hp.is_zero());
}

#[test]
fn color_key_maps_known_colors() {
    assert_eq!(TileKind::try_from_rgb(255, 255, 255), Some(TileKind::Stone));
    assert_eq!(TileKind::try_from_rgb(10, 10, 10), Some(TileKind::Dirt));
    assert_eq!(TileKind::try_from_rgb(0, 255, 255), Some(TileKind::Spawn));
    assert_eq!(TileKind::try_from_rgb(235, 235, 235), Some(TileKind::CrystalHidden));
    assert_eq!(TileKind::try_from_rgb(255, 180, 120), Some(TileKind::DirtPathNSEW));
    assert_eq!(TileKind::try_from_rgb(1, 2, 3), None);
}

#[test]
fn diggable_and_buildable_follow_kind() {
    assert!(TileKind::Stone.diggable());
    assert!(TileKind::CrystalHidden.diggable());
    assert!(!TileKind::Dirt.diggable());
    assert!(TileKind::Dirt.buildable());
    assert!(!TileKind::Stone.buildable());
}

#[test]
fn map_lookups_are_bounds_checked() {
    let mut m = Tilemap::new(4, 5);
    assert_eq!(m.rows(), 4);
    assert_eq!(m.cols(), 5);
    assert_eq!(m.get(pos(0, 0)), Some(TileKind::Empty));
    assert_eq!(m.get(pos(5, 0)), None);
    assert_eq!(m.get(pos(0, 4)), None);
    m.set(pos(2, 3), TileKind::Road);
    assert_eq!(m.get(pos(2, 3)), Some(TileKind::Road));
    assert_eq!(m.get(pos(3, 2)), Some(TileKind::Empty));
}

#[test]
fn cost_model_matches_profiles() {
    let skeleton = ActorKind::Enemy(EnemyKind::Skeleton);
    let ent = ActorKind::Enemy(EnemyKind::Ent);
    assert_eq!(cost(TileKind::Dirt, skeleton), Some(5));
    assert_eq!(cost(TileKind::Road, skeleton), Some(1));
    assert_eq!(cost(TileKind::Spawn, skeleton), Some(1));
    assert_eq!(cost(TileKind::Forest, skeleton), None);
    assert_eq!(cost(TileKind::Forest, ent), Some(1));
    assert_eq!(cost(TileKind::Stone, skeleton), None);

    assert_eq!(cost(TileKind::Dirt, ActorKind::Worker), Some(1));
    assert_eq!(cost(TileKind::StoneTunnel, ActorKind::Worker), Some(1));
    assert_eq!(cost(TileKind::Road, ActorKind::Worker), Some(5));
    assert_eq!(cost(TileKind::Tower, ActorKind::Worker), Some(5));
    assert_eq!(cost(TileKind::Stone, ActorKind::Worker), None);

    assert_eq!(cost(TileKind::River, ActorKind::Critter(CritterKind::Whale)), Some(1));
    assert_eq!(cost(TileKind::GrassA, ActorKind::Critter(CritterKind::Whale)), None);
    assert_eq!(cost(TileKind::GrassA, ActorKind::Critter(CritterKind::Llama)), Some(1));
    assert_eq!(cost(TileKind::Forest, ActorKind::Critter(CritterKind::Snake)), Some(1));
    assert_eq!(cost(TileKind::Forest, ActorKind::Critter(CritterKind::Llama)), None);
}

#[test]
fn out_of_bounds_is_impassable() {
    let m = uniform_map(3, 3, TileKind::Dirt);
    assert_eq!(tile_cost(&m, ActorKind::Worker, pos(1, 1)), Some(1));
    assert_eq!(tile_cost(&m, ActorKind::Worker, pos(3, 1)), None);
    assert_eq!(tile_cost(&m, ActorKind::Worker, pos(1, 7)), None);
}

#[test]
fn neighbors_come_in_fixed_order() {
    // Dirt everywhere except a stone wall to the east of the centre.
    let mut m = uniform_map(3, 3, TileKind::Dirt);
    m.set(pos(2, 1), TileKind::Stone);
    let n = neighbors_costs(&m, ActorKind::Worker, pos(1, 1));
    // Order is +x, -x, +y, -y; +x is impassable stone and drops out.
    assert_eq!(
        n,
        vec![(pos(0, 1), 1), (pos(1, 2), 1), (pos(1, 0), 1)]
    );
    // A corner cell keeps only its in-bounds sides.
    let c = neighbors_costs(&m, ActorKind::Worker, pos(0, 0));
    assert_eq!(c, vec![(pos(1, 0), 1), (pos(0, 1), 1)]);
    assert!(has_passable_neighbor(&m, ActorKind::Worker, pos(1, 1)));
}

#[test]
fn walled_in_cell_has_no_passable_neighbor() {
    let mut m = uniform_map(3, 3, TileKind::Stone);
    m.set(pos(1, 1), TileKind::Dirt);
    assert!(!has_passable_neighbor(&m, ActorKind::Worker, pos(1, 1)));
    assert_eq!(neighbors_costs(&m, ActorKind::Worker, pos(1, 1)), vec![]);
}

#[test]
fn heuristic_is_manhattan() {
    assert_eq!(heuristic(pos(0, 0), pos(3, 4)), 7);
    assert_eq!(heuristic(pos(3, 4), pos(0, 0)), 7);
    assert_eq!(heuristic(pos(2, 2), pos(2, 2)), 0);
    assert_eq!(heuristic(pos(5, 1), pos(4, 1)), 1);
}

#[test]
fn shortest_path_on_uniform_strip() {
    let m = uniform_map(1, 6, TileKind::Dirt);
    let goals = vec![pos(5, 0)];
    let (path, cost) = find_path(&m, ActorKind::Worker, pos(0, 0), &goals).unwrap();
    assert_eq!(cost, 5);
    // The Manhattan heuristic never overestimates the true cost.
    assert!(heuristic(pos(0, 0), pos(5, 0)) <= cost);
    assert_eq!(path.len(), 6);
    assert_eq!(path[0], pos(0, 0));
    assert_eq!(path[5], pos(5, 0));
}

#[test]
fn search_prefers_cheap_detour_over_expensive_lane() {
    // A 3x3 field: the middle row is road (cost 5 for workers), the top row
    // dirt (cost 1). Going straight along the road from (0,1) to (2,1) costs
    // 10; climbing onto dirt and back down costs 1+1+1+5 = 8.
    let mut m = uniform_map(3, 3, TileKind::Dirt);
    m.set(pos(0, 0), TileKind::Stone);
    m.set(pos(1, 0), TileKind::Stone);
    m.set(pos(2, 0), TileKind::Stone);
    m.set(pos(0, 1), TileKind::Road);
    m.set(pos(1, 1), TileKind::Road);
    m.set(pos(2, 1), TileKind::Road);
    let goals = vec![pos(2, 1)];
    let (path, cost) = find_path(&m, ActorKind::Worker, pos(0, 1), &goals).unwrap();
    assert_eq!(cost, 8);
    assert!(heuristic(pos(0, 1), pos(2, 1)) <= cost);
    assert_eq!(path, vec![pos(0, 1), pos(0, 2), pos(1, 2), pos(2, 2), pos(2, 1)]);
}

#[test]
fn no_route_yields_none() {
    let mut m = uniform_map(1, 5, TileKind::Dirt);
    m.set(pos(2, 0), TileKind::Stone);
    let goals = vec![pos(4, 0)];
    assert!(find_path(&m, ActorKind::Worker, pos(0, 0), &goals).is_none());
    assert!(find_path(&m, ActorKind::Worker, pos(0, 0), &vec![]).is_none());
}

#[test]
fn search_reaches_nearest_of_several_goals() {
    let m = uniform_map(1, 9, TileKind::Dirt);
    let goals = vec![pos(7, 0), pos(3, 0)];
    let (path, cost) = find_path(&m, ActorKind::Worker, pos(1, 0), &goals).unwrap();
    assert_eq!(cost, 2);
    assert_eq!(*path.last().unwrap(), pos(3, 0));
}

#[test]
fn path_progress_is_monotonic_and_clamped() {
    let waypoints = vec![pos(0, 0), pos(1, 0), pos(2, 0), pos(3, 0)];
    let mut ps = PathState::from_path(waypoints);
    let mut progress: u32 = 0;
    assert!(!ps.finished());

    // A zero-length tick changes nothing.
    let out = ps.advance(&mut progress, 0);
    assert_eq!(ps.index, 0);
    assert_eq!(progress, 0);
    assert!(!out.finished);
    assert_eq!(out.at, pos(0, 0));

    // Half a segment: still on the first segment.
    let out = ps.advance(&mut progress, PROGRESS_ONE / 2);
    assert_eq!(ps.index, 0);
    assert_eq!(progress, PROGRESS_ONE / 2);
    assert_eq!(out.at, pos(0, 0));
    assert_eq!(out.from, pos(0, 0));
    assert_eq!(out.to, pos(1, 0));

    // One more whole segment: the index advances once.
    let out = ps.advance(&mut progress, PROGRESS_ONE);
    assert_eq!(ps.index, 1);
    assert_eq!(progress, PROGRESS_ONE / 2);
    assert_eq!(out.at, pos(1, 0));

    // A huge tick runs to the end and clamps.
    let out = ps.advance(&mut progress, 10 * PROGRESS_ONE);
    assert_eq!(ps.index, 3);
    assert_eq!(progress, PROGRESS_ONE);
    assert!(out.finished);
    assert_eq!(out.at, pos(3, 0));
    assert!(ps.finished());
}

#[test]
fn tiny_ticks_never_rewind() {
    let waypoints = vec![pos(0, 0), pos(0, 1), pos(0, 2)];
    let mut ps = PathState::from_path(waypoints);
    let mut progress: u32 = 0;
    let mut last_index = 0;
    for _ in 0..50 {
        if ps.finished() {
            break;
        }
        ps.advance(&mut progress, PROGRESS_ONE / 10);
        assert!(ps.index >= last_index);
        assert!(progress <= PROGRESS_ONE);
        last_index = ps.index;
    }
    assert!(ps.finished());
}

#[test]
fn whole_segment_advances_at_the_boundary() {
    // Exactly one whole segment of pending progress consumes the segment at
    // once: mid-route progress stays strictly below one segment.
    let waypoints = vec![pos(0, 0), pos(1, 0), pos(2, 0)];
    let mut ps = PathState::from_path(waypoints);
    let mut progress: u32 = 0;
    let out = ps.advance(&mut progress, PROGRESS_ONE);
    assert_eq!(ps.index, 1);
    assert_eq!(progress, 0);
    assert!(!out.finished);
    assert_eq!(out.at, pos(1, 0));
    // The same whole step on the final segment finishes and clamps to one.
    let out = ps.advance(&mut progress, PROGRESS_ONE);
    assert!(out.finished);
    assert_eq!(progress, PROGRESS_ONE);
    assert_eq!(out.at, pos(2, 0));
}
