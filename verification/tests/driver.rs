use tile_nav::behavior::{
    attack_home, critter_wander, enemy_seek, rand_below, rng_new, wander_candidates, AttackOutcome,
};
use tile_nav::cost::{CritterKind, EnemyKind};
use tile_nav::currency::Currency;
use tile_nav::gridmap::Tilemap;
use tile_nav::hit_points::HitPoints;
use tile_nav::maploader::{from_pixels, parse_map, spawner_positions};
use tile_nav::spawner::{
    advance_on_exhaustion, check_loss, check_win, scaled_hp, update_spawning_pause,
    DifficultySetting, Spawn, SpawnerState, SpawnerStates, Wave, Waves,
};
use image::ImageEncoder;
use tile_nav::tiles::{TileKind, TilePos};

fn pos(x: usize, y: usize) -> TilePos {
    TilePos { x, y }
}

fn uniform_map(rows: usize, cols: usize, kind: TileKind) -> Tilemap {
    let mut m = Tilemap::new(rows, cols);
    for y in 0..rows {
        for x in 0..cols {
            m.set(pos(x, y), kind);
        }
    }
    m
}

fn spawn_line(spawner: usize, num: usize, delay_ms: u64, interval_ms: u64) -> Spawn {
    Spawn { spawner, num, delay_ms, interval_ms, hp: 5, kind: EnemyKind::Skeleton }
}

#[test]
fn spawner_waits_out_delay_then_fires_on_interval() {
    let mut st = SpawnerState::from_spawn(spawn_line(0, 2, 1000, 500));
    assert!(!st.tick(999));
    assert_eq!(st.remaining, 2);
    // The tick that finishes the delay finds the interval timer ripe, and
    // that tick's one millisecond already counts toward the next interval.
    assert!(st.tick(1));
    assert_eq!(st.remaining, 1);
    assert!(!st.tick(498));
    assert!(st.tick(1));
    assert_eq!(st.remaining, 0);
    // Exhausted: nothing more comes.
    assert!(!st.tick(10_000));
    assert_eq!(st.remaining, 0);
}

#[test]
fn spawner_keeps_interval_remainder() {
    let mut st = SpawnerState::from_spawn(spawn_line(0, 3, 0, 500));
    assert!(st.tick(100));
    // 100 of the next interval already elapsed inside the first tick's
    // remainder arithmetic: 400 more completes it.
    assert!(!st.tick(399));
    assert!(st.tick(1));
    assert_eq!(st.remaining, 1);
}

#[test]
fn tick_all_places_enemies_on_their_spawners() {
    let spawns = vec![spawn_line(0, 1, 0, 100), spawn_line(1, 1, 5000, 100)];
    let mut states = SpawnerStates::from_spawns(&spawns);
    let positions = vec![pos(2, 0), pos(7, 3)];
    let msgs = states.tick_all(50, &positions);
    assert_eq!(msgs.len(), 1);
    assert_eq!(msgs[0].pos, pos(2, 0));
    assert_eq!(msgs[0].hp, 5);
    assert!(!states.all_exhausted());
    let msgs = states.tick_all(5000, &positions);
    assert_eq!(msgs.len(), 1);
    assert_eq!(msgs[0].pos, pos(7, 3));
    assert!(states.all_exhausted());
}

#[test]
fn waves_advance_in_order_and_reset() {
    let waves_cfg = vec![
        Wave { spawns: vec![spawn_line(0, 1, 0, 100)] },
        Wave { spawns: vec![spawn_line(0, 1, 0, 100), spawn_line(1, 1, 0, 100)] },
    ];
    let mut waves = Waves::from_waves(waves_cfg);
    assert_eq!(waves.current().unwrap().spawns.len(), 1);
    assert!(waves.advance());
    assert_eq!(waves.current().unwrap().spawns.len(), 2);
    assert!(!waves.advance());
    assert!(waves.current().is_none());
    waves.reset();
    assert_eq!(waves.current().unwrap().spawns.len(), 1);
}

#[test]
fn win_needs_exhausted_waves_and_empty_field() {
    let mut waves = Waves::from_waves(vec![Wave { spawns: vec![spawn_line(0, 1, 0, 100)] }]);
    let mut states = SpawnerStates::from_spawns(&waves.current().unwrap().spawns.clone());
    let positions = vec![pos(0, 0)];
    assert!(!check_win(&waves, &states, 0));
    let msgs = states.tick_all(100, &positions);
    assert_eq!(msgs.len(), 1);
    assert!(states.all_exhausted());
    waves.advance();
    assert!(!check_win(&waves, &states, 1));
    assert!(check_win(&waves, &states, 0));
}

#[test]
fn loss_needs_every_home_razed() {
    let live = HitPoints::full(30);
    let dead = HitPoints { current: 0, max: 30 };
    assert!(!check_loss(&vec![live, dead]));
    assert!(check_loss(&vec![dead, dead]));
}

#[test]
fn unreachable_spawn_gets_no_path_and_no_crash() {
    // An enemy spawned on a tile whose every neighbour is impassable receives
    // no path, on this tick or later ones.
    let mut m = uniform_map(3, 3, TileKind::Stone);
    m.set(pos(1, 1), TileKind::Spawn);
    let mut rng = rng_new().unwrap();
    let homes = vec![(pos(0, 0), HitPoints::full(30))];
    for _ in 0..3 {
        assert!(enemy_seek(&m, &mut rng, EnemyKind::Skeleton, pos(1, 1), &homes).is_none());
    }
}

#[test]
fn enemy_path_ends_beside_a_live_home() {
    // A road ring around a home lets the enemy walk up to it.
    let mut m = uniform_map(5, 5, TileKind::Road);
    m.set(pos(2, 2), TileKind::Home);
    let mut rng = rng_new().unwrap();
    let homes = vec![(pos(2, 2), HitPoints::full(30))];
    let ps = enemy_seek(&m, &mut rng, EnemyKind::Skeleton, pos(0, 0), &homes).unwrap();
    assert_eq!(ps.path[0], pos(0, 0));
    let last = *ps.path.last().unwrap();
    let dist = (last.x as i64 - 2).abs() + (last.y as i64 - 2).abs();
    assert_eq!(dist, 1);
}

#[test]
fn dead_homes_attract_no_enemies() {
    let mut m = uniform_map(5, 5, TileKind::Road);
    m.set(pos(2, 2), TileKind::Home);
    let mut rng = rng_new().unwrap();
    let homes = vec![(pos(2, 2), HitPoints { current: 0, max: 30 })];
    assert!(enemy_seek(&m, &mut rng, EnemyKind::Skeleton, pos(0, 0), &homes).is_none());
}

#[test]
fn adjacent_enemy_lands_hits_until_the_home_falls() {
    let mut homes = vec![(pos(2, 2), HitPoints::full(2)), (pos(4, 4), HitPoints::full(2))];
    assert_eq!(attack_home(&mut homes, pos(0, 0)), AttackOutcome::NoAdjacentHome);
    assert_eq!(attack_home(&mut homes, pos(2, 1)), AttackOutcome::Attacked(0));
    assert_eq!(homes[0].1.current, 1);
    assert_eq!(homes[1].1.current, 2);
    assert_eq!(attack_home(&mut homes, pos(2, 1)), AttackOutcome::Attacked(0));
    assert_eq!(attack_home(&mut homes, pos(2, 1)), AttackOutcome::HomeDead(0));
    assert_eq!(homes[0].1.current, 0);
}

#[test]
fn critters_wander_only_their_terrain() {
    let mut m = uniform_map(5, 5, TileKind::GrassA);
    m.set(pos(0, 0), TileKind::River);
    let cands = wander_candidates(&m, CritterKind::Llama, pos(2, 2), 2);
    // Every grass cell within the radius-2 square except the river corner.
    assert_eq!(cands.len(), 24);
    assert!(!cands.contains(&pos(0, 0)));
    let mut rng = rng_new().unwrap();
    let ps = critter_wander(&m, &mut rng, CritterKind::Llama, pos(2, 2), 2).unwrap();
    assert_eq!(ps.path[0], pos(2, 2));
    let last = ps.path.last().unwrap();
    assert_ne!(m.get(*last), Some(TileKind::River));

    // A whale on grass is stuck.
    assert!(critter_wander(&m, &mut rng, CritterKind::Whale, pos(2, 2), 2).is_none());
}

#[test]
fn random_picks_stay_in_range() {
    let mut rng = rng_new().unwrap();
    for n in 1..20usize {
        for _ in 0..10 {
            assert!(rand_below(&mut rng, n) < n);
        }
    }
}

#[test]
fn pixels_build_a_bottom_up_map() {
    // A 2x2 image: top row stone then dirt, bottom row river then spawn.
    // Map row 0 is the bottom image row.
    let rgb: Vec<u8> = vec![
        255, 255, 255, // stone
        10, 10, 10, // dirt
        0, 0, 255, // river
        0, 255, 255, // spawn
    ];
    let m = from_pixels(2, 2, &rgb).unwrap();
    assert_eq!(m.rows(), 2);
    assert_eq!(m.cols(), 2);
    assert_eq!(m.get(pos(0, 0)), Some(TileKind::River));
    assert_eq!(m.get(pos(1, 0)), Some(TileKind::Spawn));
    assert_eq!(m.get(pos(0, 1)), Some(TileKind::Stone));
    assert_eq!(m.get(pos(1, 1)), Some(TileKind::Dirt));
}

#[test]
fn unmapped_colors_leave_cells_empty() {
    let rgb: Vec<u8> = vec![9, 9, 9, 255, 255, 255];
    let m = from_pixels(2, 1, &rgb).unwrap();
    assert_eq!(m.get(pos(0, 0)), Some(TileKind::Empty));
    assert_eq!(m.get(pos(1, 0)), Some(TileKind::Stone));
}

#[test]
fn mismatched_pixel_count_is_refused() {
    let rgb: Vec<u8> = vec![0, 0, 0];
    assert!(from_pixels(2, 2, &rgb).is_none());
    assert!(from_pixels(0, 2, &vec![]).is_none());
}

#[test]
fn png_roundtrip_recovers_the_terrain() {
    // Encode a small image with the image crate, then parse it back.
    let width = 3u32;
    let height = 2u32;
    let rgb: Vec<u8> = vec![
        255, 255, 255, 10, 10, 10, 0, 255, 255, // top row
        0, 0, 255, 0, 255, 0, 255, 200, 0, // bottom row
    ];
    let img: image::RgbImage = image::ImageBuffer::from_raw(width, height, rgb).unwrap();
    let mut bytes: Vec<u8> = Vec::new();
    {
        let encoder = image::codecs::png::PngEncoder::new(&mut bytes);
        encoder
            .write_image(img.as_raw(), width, height, image::ExtendedColorType::Rgb8)
            .unwrap();
    }
    let m = parse_map(&bytes).unwrap();
    assert_eq!(m.cols(), 3);
    assert_eq!(m.rows(), 2);
    // Bottom image row becomes map row 0.
    assert_eq!(m.get(pos(0, 0)), Some(TileKind::River));
    assert_eq!(m.get(pos(1, 0)), Some(TileKind::Forest));
    assert_eq!(m.get(pos(2, 0)), Some(TileKind::Road));
    assert_eq!(m.get(pos(0, 1)), Some(TileKind::Stone));
    assert_eq!(m.get(pos(1, 1)), Some(TileKind::Dirt));
    assert_eq!(m.get(pos(2, 1)), Some(TileKind::Spawn));
}

#[test]
fn malformed_png_is_refused() {
    let bytes: Vec<u8> = vec![1, 2, 3, 4];
    assert!(parse_map(&bytes).is_none());
}

#[test]
fn spawner_indices_follow_column_major_order() {
    let mut m = uniform_map(3, 3, TileKind::Dirt);
    m.set(pos(0, 2), TileKind::Spawn);
    m.set(pos(2, 0), TileKind::Spawn);
    m.set(pos(0, 0), TileKind::Spawn);
    let sp = spawner_positions(&m);
    // Columns left to right, each bottom to top.
    assert_eq!(sp, vec![pos(0, 0), pos(0, 2), pos(2, 0)]);
}

#[test]
fn difficulty_scales_spawned_hit_points() {
    assert_eq!(scaled_hp(8, DifficultySetting::Hard), 8);
    assert_eq!(scaled_hp(8, DifficultySetting::Normal), 6);
    assert_eq!(scaled_hp(8, DifficultySetting::Impossible), 10);
    // Scaling never drops an enemy below one hit point.
    assert_eq!(scaled_hp(1, DifficultySetting::Normal), 1);
    assert_eq!(scaled_hp(0, DifficultySetting::Impossible), 1);
}

#[test]
fn wave_advances_exactly_on_exhaustion() {
    let mut waves = Waves::from_waves(vec![
        Wave { spawns: vec![spawn_line(0, 1, 0, 100)] },
        Wave { spawns: vec![spawn_line(0, 1, 0, 100)] },
    ]);
    let mut states = SpawnerStates::from_spawns(&waves.current().unwrap().spawns.clone());
    let positions = vec![pos(0, 0)];
    // Not yet exhausted: no advance.
    assert!(!advance_on_exhaustion(&mut waves, &states));
    assert_eq!(waves.current, 0);
    states.tick_all(100, &positions);
    assert!(advance_on_exhaustion(&mut waves, &states));
    assert_eq!(waves.current, 1);
    // An unarmed spawner set advances nothing, however "exhausted" it reads.
    let empty = SpawnerStates::from_spawns(&vec![]);
    assert!(!advance_on_exhaustion(&mut waves, &empty));
    assert_eq!(waves.current, 1);
}

#[test]
fn spawning_unpauses_on_mining_yield() {
    let mut paused = true;
    update_spawning_pause(&mut paused, &Currency { metal: 0, crystal: 0, stone: 4 });
    assert!(paused);
    update_spawning_pause(&mut paused, &Currency { metal: 0, crystal: 0, stone: 5 });
    assert!(!paused);
    let mut also_paused = true;
    update_spawning_pause(&mut also_paused, &Currency { metal: 1, crystal: 0, stone: 0 });
    assert!(!also_paused);
}
