use tile_nav::currency::Currency;
use tile_nav::gridmap::Tilemap;
use tile_nav::hit_points::HitPoints;
use tile_nav::ledger::{DesignateError, DesignationKind, DesignationLedger};
use tile_nav::tiles::{TileKind, TilePos};
use tile_nav::tilestate::TileHealth;
use tile_nav::work::{build_tower, do_job_step, hit_tile, JobStepOutcome, WorkCooldown};
use tile_nav::worker::{find_job, Job};

fn pos(x: usize, y: usize) -> TilePos {
    TilePos { x, y }
}

fn uniform_map(rows: usize, cols: usize, kind: TileKind) -> Tilemap {
    let mut m = Tilemap::new(rows, cols);
    for y in 0..rows {
        for x in 0..cols {
            m.set(pos(x, y), kind);
        }
    }
    m
}

fn rich() -> Currency {
    let mut c = Currency::zero();
    c.add(&Currency { metal: 100, crystal: 100, stone: 100 });
    c
}

#[test]
fn currency_has_and_try_sub_are_atomic() {
    let mut c = Currency { metal: 2, crystal: 0, stone: 20 };
    let price = Currency { metal: 1, crystal: 0, stone: 15 };
    assert!(c.has(&price));
    assert!(c.try_sub(&price).is_ok());
    assert_eq!(c, Currency { metal: 1, crystal: 0, stone: 5 });
    // Not enough stone: nothing changes.
    assert!(!c.has(&price));
    assert!(c.try_sub(&price).is_err());
    assert_eq!(c, Currency { metal: 1, crystal: 0, stone: 5 });
    c.add(&Currency::stone(10));
    assert_eq!(c.stone, 15);
    assert_eq!(Currency::metal(3).metal, 3);
    assert_eq!(Currency::crytal(4).crystal, 4);
}

#[test]
fn dig_designation_on_stone_is_free() {
    let m = uniform_map(3, 3, TileKind::Stone);
    let mut ledger = DesignationLedger::new();
    let mut c = rich();
    let before = c;
    assert!(ledger.create(&m, &mut c, DesignationKind::Dig, pos(1, 1), 7).is_ok());
    assert_eq!(c, before);
    let d = ledger.get(pos(1, 1)).unwrap();
    assert_eq!(d.workers, 0);
    assert_eq!(d.indicator, 7);
}

#[test]
fn tower_designation_debits_its_price() {
    let m = uniform_map(3, 3, TileKind::Dirt);
    let mut ledger = DesignationLedger::new();
    let mut c = rich();
    assert!(ledger.create(&m, &mut c, DesignationKind::BuildTower, pos(0, 0), 1).is_ok());
    assert_eq!(c, Currency { metal: 99, crystal: 100, stone: 85 });
}

#[test]
fn blocked_build_is_rejected_without_debit() {
    // Creating a tower designation on stone must not change anything.
    let m = uniform_map(3, 3, TileKind::Stone);
    let mut ledger = DesignationLedger::new();
    let mut c = rich();
    let before = c;
    let r = ledger.create(&m, &mut c, DesignationKind::BuildTower, pos(1, 1), 1);
    assert_eq!(r, Err(DesignateError::TerrainMismatch));
    assert_eq!(c, before);
    assert_eq!(ledger.len(), 0);
    assert!(!ledger.contains(pos(1, 1)));
}

#[test]
fn create_rejections_cover_all_causes() {
    let m = uniform_map(3, 3, TileKind::Dirt);
    let mut ledger = DesignationLedger::new();
    let mut c = rich();
    assert_eq!(
        ledger.create(&m, &mut c, DesignationKind::Dig, pos(0, 0), 1),
        Err(DesignateError::TerrainMismatch)
    );
    assert_eq!(
        ledger.create(&m, &mut c, DesignationKind::BuildTower, pos(9, 0), 1),
        Err(DesignateError::OutOfBounds)
    );
    assert!(ledger.create(&m, &mut c, DesignationKind::BuildTower, pos(0, 0), 1).is_ok());
    assert_eq!(
        ledger.create(&m, &mut c, DesignationKind::BuildTower, pos(0, 0), 2),
        Err(DesignateError::AlreadyDesignated)
    );
    let mut poor = Currency::zero();
    assert_eq!(
        ledger.create(&m, &mut poor, DesignationKind::BuildTower, pos(1, 1), 3),
        Err(DesignateError::NotEnoughCurrency)
    );
    assert_eq!(ledger.len(), 1);
}

#[test]
fn player_removal_refunds_and_completion_does_not() {
    let m = uniform_map(3, 3, TileKind::Dirt);
    let mut ledger = DesignationLedger::new();
    let mut c = rich();
    let funded = c;

    // Removal refunds: the balance is restored exactly.
    ledger.create(&m, &mut c, DesignationKind::BuildTower, pos(0, 0), 5).unwrap();
    assert_eq!(ledger.remove(&mut c, pos(0, 0)), Ok(5));
    assert_eq!(c, funded);
    assert!(!ledger.contains(pos(0, 0)));

    // Completion never refunds: the price stays spent.
    ledger.create(&m, &mut c, DesignationKind::BuildTower, pos(1, 1), 6).unwrap();
    let debited = c;
    assert_eq!(ledger.complete(pos(1, 1)), Some(6));
    assert_eq!(c, debited);
    assert!(!ledger.contains(pos(1, 1)));

    // Removing what is not there is refused.
    assert_eq!(ledger.remove(&mut c, pos(2, 2)), Err(DesignateError::NoDesignation));
}

#[test]
fn removal_is_refused_while_workers_are_assigned() {
    let m = uniform_map(3, 3, TileKind::Dirt);
    let mut ledger = DesignationLedger::new();
    let mut c = rich();
    ledger.create(&m, &mut c, DesignationKind::BuildTower, pos(0, 0), 5).unwrap();
    assert!(ledger.increment_workers(pos(0, 0)));
    let held = c;
    assert_eq!(ledger.remove(&mut c, pos(0, 0)), Err(DesignateError::WorkersAssigned));
    assert_eq!(c, held);
    assert!(ledger.contains(pos(0, 0)));
}

#[test]
fn worker_count_is_capped_at_four() {
    let m = uniform_map(3, 3, TileKind::Stone);
    let mut ledger = DesignationLedger::new();
    let mut c = rich();
    ledger.create(&m, &mut c, DesignationKind::Dig, pos(1, 1), 1).unwrap();
    for _ in 0..4 {
        assert!(ledger.increment_workers(pos(1, 1)));
    }
    assert_eq!(ledger.get(pos(1, 1)).unwrap().workers, 4);
    // The fifth is refused: no designation ever exceeds the cap.
    assert!(!ledger.increment_workers(pos(1, 1)));
    assert_eq!(ledger.get(pos(1, 1)).unwrap().workers, 4);
}

/// A dirt field with a stone block at the east end, diggable from the dirt.
fn dig_field() -> Tilemap {
    let mut m = uniform_map(5, 5, TileKind::Dirt);
    m.set(pos(4, 2), TileKind::Stone);
    m
}

#[test]
fn one_assignment_per_tick() {
    // Two idle workers, three open reachable jobs: exactly one assignment.
    let mut m = uniform_map(5, 5, TileKind::Dirt);
    m.set(pos(4, 0), TileKind::Stone);
    m.set(pos(4, 2), TileKind::Stone);
    m.set(pos(4, 4), TileKind::Stone);
    let mut ledger = DesignationLedger::new();
    let mut c = rich();
    for p in [pos(4, 0), pos(4, 2), pos(4, 4)] {
        ledger.create(&m, &mut c, DesignationKind::Dig, p, 0).unwrap();
    }
    let idle = vec![pos(0, 0), pos(0, 4)];
    let asg = find_job(&m, &mut ledger, &idle).unwrap();
    assert_eq!(asg.worker, 0);
    let mut assigned = 0;
    for p in [pos(4, 0), pos(4, 2), pos(4, 4)] {
        assigned += ledger.get(p).unwrap().workers;
    }
    assert_eq!(assigned, 1);
}

#[test]
fn nearest_job_wins_within_a_tier() {
    let mut m = uniform_map(5, 5, TileKind::Dirt);
    m.set(pos(4, 0), TileKind::Stone);
    m.set(pos(4, 4), TileKind::Stone);
    let mut ledger = DesignationLedger::new();
    let mut c = rich();
    ledger.create(&m, &mut c, DesignationKind::Dig, pos(4, 0), 0).unwrap();
    ledger.create(&m, &mut c, DesignationKind::Dig, pos(4, 4), 0).unwrap();
    let idle = vec![pos(0, 4)];
    let asg = find_job(&m, &mut ledger, &idle).unwrap();
    assert_eq!(asg.target, pos(4, 4));
    assert!(matches!(asg.job, Some(Job::Dig(p)) if p == pos(4, 4)));
}

#[test]
fn unclaimed_tower_build_outranks_nearer_dig() {
    let mut m = uniform_map(5, 5, TileKind::Dirt);
    m.set(pos(1, 0), TileKind::Stone);
    let mut ledger = DesignationLedger::new();
    let mut c = rich();
    // The dig is right beside the worker; the tower build is far away.
    ledger.create(&m, &mut c, DesignationKind::Dig, pos(1, 0), 0).unwrap();
    ledger.create(&m, &mut c, DesignationKind::BuildTower, pos(4, 4), 0).unwrap();
    let idle = vec![pos(0, 0)];
    let asg = find_job(&m, &mut ledger, &idle).unwrap();
    assert_eq!(asg.target, pos(4, 4));
    match asg.job {
        Some(Job::Build { hit_points, pos: p }) => {
            assert_eq!(p, pos(4, 4));
            assert_eq!(hit_points.current, 10);
        },
        other => panic!("expected a build job, got {:?}", matches!(other, None)),
    }
}

#[test]
fn full_or_unreachable_designations_are_skipped() {
    let mut m = uniform_map(5, 5, TileKind::Dirt);
    m.set(pos(4, 2), TileKind::Stone);
    // Wall the second stone in completely.
    let mut ledger = DesignationLedger::new();
    let mut c = rich();
    ledger.create(&m, &mut c, DesignationKind::Dig, pos(4, 2), 0).unwrap();
    for _ in 0..4 {
        ledger.increment_workers(pos(4, 2));
    }
    let idle = vec![pos(0, 0)];
    assert!(find_job(&m, &mut ledger, &idle).is_none());
    assert_eq!(ledger.get(pos(4, 2)).unwrap().workers, 4);
}

#[test]
fn dig_to_dirt_after_eight_hits() {
    // A stone tile with 8 hit points, hit 8 times through the do-work step,
    // becomes dirt; the designation is removed and stone currency rises by 1.
    let mut m = dig_field();
    let mut health = TileHealth::from_map(&m);
    let mut ledger = DesignationLedger::new();
    let mut c = rich();
    let target = pos(4, 2);
    ledger.create(&m, &mut c, DesignationKind::Dig, target, 42).unwrap();
    ledger.increment_workers(target);
    let stone_before = c.stone;

    let mut job = Job::Dig(target);
    let mut cooldown = WorkCooldown::new();
    let mut hits = 0;
    let mut ticks = 0;
    loop {
        ticks += 1;
        assert!(ticks < 100, "the job should finish");
        cooldown.tick(250);
        match do_job_step(&mut job, &mut cooldown, &m, &health) {
            JobStepOutcome::Dig(p) => {
                assert_eq!(p, target);
                let out = hit_tile(&mut m, &mut health, &mut ledger, &mut c, p, 1).unwrap();
                hits += 1;
                if out.destroyed {
                    break;
                }
            },
            JobStepOutcome::Cooling => {},
            other => panic!("unexpected job step {:?}", other),
        }
    }
    assert_eq!(hits, 8);
    assert_eq!(m.get(target), Some(TileKind::Dirt));
    assert!(!ledger.contains(target));
    assert_eq!(c.stone, stone_before + 1);
    // The next step finds the target gone and reverts the worker to idle.
    cooldown.tick(WorkCooldown::new().remaining_ms + 1000);
    assert_eq!(do_job_step(&mut job, &mut cooldown, &m, &health), JobStepOutcome::Done);
}

#[test]
fn stone_kind_follows_its_health_ladder() {
    let mut m = dig_field();
    let mut health = TileHealth::from_map(&m);
    let mut ledger = DesignationLedger::new();
    let mut c = rich();
    let target = pos(4, 2);
    hit_tile(&mut m, &mut health, &mut ledger, &mut c, target, 1).unwrap();
    assert_eq!(m.get(target), Some(TileKind::StoneHurt));
    hit_tile(&mut m, &mut health, &mut ledger, &mut c, target, 5).unwrap();
    // 2 of 8 left: a quarter or less is dying.
    assert_eq!(m.get(target), Some(TileKind::StoneDying));
}

#[test]
fn depletion_reveals_hidden_ore_next_door() {
    let mut m = dig_field();
    m.set(pos(4, 1), TileKind::CrystalHidden);
    m.set(pos(4, 3), TileKind::MetalHidden);
    let mut health = TileHealth::from_map(&m);
    let mut ledger = DesignationLedger::new();
    let mut c = rich();
    let target = pos(4, 2);
    let out = hit_tile(&mut m, &mut health, &mut ledger, &mut c, target, 8).unwrap();
    assert!(out.destroyed);
    assert_eq!(out.new_kind, TileKind::Dirt);
    assert_eq!(out.revealed, vec![pos(4, 3), pos(4, 1)]);
    assert_eq!(m.get(pos(4, 1)), Some(TileKind::Crystal));
    assert_eq!(m.get(pos(4, 3)), Some(TileKind::Metal));
    // Hidden ore pays stone while unrevealed rock is dug... the dug tile
    // itself was plain stone, so the stone counter rose.
    assert_eq!(c.stone, 101);
}

#[test]
fn depleted_crystal_pays_crystal() {
    let mut m = uniform_map(3, 3, TileKind::Dirt);
    m.set(pos(1, 1), TileKind::CrystalHidden);
    let mut health = TileHealth::from_map(&m);
    let mut ledger = DesignationLedger::new();
    let mut c = rich();
    let out = hit_tile(&mut m, &mut health, &mut ledger, &mut c, pos(1, 1), 40).unwrap();
    assert!(out.destroyed);
    assert_eq!(m.get(pos(1, 1)), Some(TileKind::Dirt));
    assert_eq!(c.crystal, 101);
    assert_eq!(c.stone, 100);
}

#[test]
fn hits_on_empty_or_depleted_cells_do_nothing() {
    let mut m = dig_field();
    let mut health = TileHealth::from_map(&m);
    let mut ledger = DesignationLedger::new();
    let mut c = rich();
    // Dirt carries no hit points.
    assert!(hit_tile(&mut m, &mut health, &mut ledger, &mut c, pos(0, 0), 1).is_none());
    // Out of bounds is answered, not crashed on.
    assert!(hit_tile(&mut m, &mut health, &mut ledger, &mut c, pos(9, 9), 1).is_none());
    // Deplete, then hit again: no double payout.
    hit_tile(&mut m, &mut health, &mut ledger, &mut c, pos(4, 2), 8).unwrap();
    assert!(hit_tile(&mut m, &mut health, &mut ledger, &mut c, pos(4, 2), 1).is_none());
    assert_eq!(c.stone, 101);
}

#[test]
fn build_job_raises_a_tower() {
    let mut m = uniform_map(3, 3, TileKind::Dirt);
    let mut health = TileHealth::from_map(&m);
    let mut ledger = DesignationLedger::new();
    let mut c = rich();
    let site = pos(1, 1);
    ledger.create(&m, &mut c, DesignationKind::BuildTower, site, 9).unwrap();
    let mut job = Job::Build { hit_points: HitPoints::full(2), pos: site };
    let mut cooldown = WorkCooldown::new();
    assert_eq!(do_job_step(&mut job, &mut cooldown, &m, &health), JobStepOutcome::Building);
    // The cooldown now gates the next unit of work.
    assert_eq!(do_job_step(&mut job, &mut cooldown, &m, &health), JobStepOutcome::Cooling);
    cooldown.tick(1000);
    assert_eq!(do_job_step(&mut job, &mut cooldown, &m, &health), JobStepOutcome::Built(site));
    let ind = build_tower(&mut m, &mut health, &mut ledger, site).unwrap();
    assert_eq!(ind, Some(9));
    assert_eq!(m.get(site), Some(TileKind::Tower));
    assert!(!ledger.contains(site));
}

#[test]
fn build_refused_off_dirt() {
    let mut m = uniform_map(3, 3, TileKind::Stone);
    let mut health = TileHealth::from_map(&m);
    let mut ledger = DesignationLedger::new();
    assert!(build_tower(&mut m, &mut health, &mut ledger, pos(1, 1)).is_none());
    assert_eq!(m.get(pos(1, 1)), Some(TileKind::Stone));
    // A build job whose site stopped being dirt reverts the worker.
    let mut job = Job::Build { hit_points: HitPoints::full(10), pos: pos(1, 1) };
    let mut cooldown = WorkCooldown::new();
    assert_eq!(do_job_step(&mut job, &mut cooldown, &m, &health), JobStepOutcome::Invalid);
}
