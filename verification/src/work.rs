use vstd::prelude::*;

use crate::currency::Currency;
use crate::gridmap::Tilemap;
use crate::hit_points::HitPoints;
use crate::ledger::{has_key, key_index, spec_get, DesignationLedger};
use crate::path::dist1;
use crate::tiles::{TileKind, TilePos};
use crate::tilestate::TileHealth;
use crate::worker::Job;

verus! {

/// How a damaged tile reads against its remaining hit points.
#[derive(Clone, Copy, PartialEq, Eq, Structural, Debug)]
pub enum StoneHealth {
    Full,
    Hurt,
    Dying,
    Dead,
}

/// Classify remaining hit points: none left is dead, a quarter or less is
/// dying, anything below full is hurt.
pub open spec fn spec_stone_health(hp: HitPoints) -> StoneHealth {
    if hp.current == 0 {
        StoneHealth::Dead
    } else if 4 * hp.current <= hp.max {
        StoneHealth::Dying
    } else if hp.current < hp.max {
        StoneHealth::Hurt
    } else {
        StoneHealth::Full
    }
}

pub fn stone_health(hp: &HitPoints) -> (r: StoneHealth)
    ensures
        r == spec_stone_health(*hp),
{
    if hp.current == 0 {
        StoneHealth::Dead
    } else if hp.current <= u32::MAX / 4 && 4 * hp.current <= hp.max {
        StoneHealth::Dying
    } else if hp.current < hp.max {
        StoneHealth::Hurt
    } else {
        StoneHealth::Full
    }
}

pub open spec fn crystal_family(k: TileKind) -> bool {
    matches!(
        k,
        TileKind::CrystalHidden | TileKind::Crystal | TileKind::CrystalHurt | TileKind::CrystalDying
    )
}

pub open spec fn metal_family(k: TileKind) -> bool {
    matches!(k, TileKind::MetalHidden | TileKind::Metal | TileKind::MetalHurt | TileKind::MetalDying)
}

/// The tile kind a hit leaves behind, given the kind being hit and the hit
/// points that remain: depleted rock of any family turns to dirt; otherwise
/// the kind tracks its family's health ladder.
pub open spec fn spec_hit_kind(k: TileKind, hp: HitPoints) -> TileKind {
    let h = spec_stone_health(hp);
    if crystal_family(k) {
        match h {
            StoneHealth::Dead => TileKind::Dirt,
            StoneHealth::Hurt => TileKind::CrystalHurt,
            StoneHealth::Dying => TileKind::CrystalDying,
            StoneHealth::Full => TileKind::Crystal,
        }
    } else if metal_family(k) {
        match h {
            StoneHealth::Dead => TileKind::Dirt,
            StoneHealth::Hurt => TileKind::MetalHurt,
            StoneHealth::Dying => TileKind::MetalDying,
            StoneHealth::Full => TileKind::Metal,
        }
    } else {
        match h {
            StoneHealth::Dead => TileKind::Dirt,
            StoneHealth::Hurt => TileKind::StoneHurt,
            StoneHealth::Dying => TileKind::StoneDying,
            StoneHealth::Full => TileKind::Stone,
        }
    }
}

fn hit_kind(k: TileKind, hp: &HitPoints) -> (r: TileKind)
    ensures
        r == spec_hit_kind(k, *hp),
{
    let h = stone_health(hp);
    let crystal = matches!(
        k,
        TileKind::CrystalHidden | TileKind::Crystal | TileKind::CrystalHurt | TileKind::CrystalDying
    );
    let metal = matches!(
        k,
        TileKind::MetalHidden | TileKind::Metal | TileKind::MetalHurt | TileKind::MetalDying
    );
    if crystal {
        match h {
            StoneHealth::Dead => TileKind::Dirt,
            StoneHealth::Hurt => TileKind::CrystalHurt,
            StoneHealth::Dying => TileKind::CrystalDying,
            StoneHealth::Full => TileKind::Crystal,
        }
    } else if metal {
        match h {
            StoneHealth::Dead => TileKind::Dirt,
            StoneHealth::Hurt => TileKind::MetalHurt,
            StoneHealth::Dying => TileKind::MetalDying,
            StoneHealth::Full => TileKind::Metal,
        }
    } else {
        match h {
            StoneHealth::Dead => TileKind::Dirt,
            StoneHealth::Hurt => TileKind::StoneHurt,
            StoneHealth::Dying => TileKind::StoneDying,
            StoneHealth::Full => TileKind::Stone,
        }
    }
}

/// What a hidden-ore tile shows once an adjacent cell is fully excavated.
pub open spec fn spec_revealed(k: TileKind) -> TileKind {
    if k is CrystalHidden {
        TileKind::Crystal
    } else if k is MetalHidden {
        TileKind::Metal
    } else {
        k
    }
}

/// The counters a depleted tile pays out: one unit of its family's resource.
pub open spec fn spec_mined_currency(c: Currency, k: TileKind) -> Currency {
    if crystal_family(k) {
        Currency { metal: c.metal, crystal: (c.crystal + 1) as u32, stone: c.stone }
    } else if metal_family(k) {
        Currency { metal: (c.metal + 1) as u32, crystal: c.crystal, stone: c.stone }
    } else {
        Currency { metal: c.metal, crystal: c.crystal, stone: (c.stone + 1) as u32 }
    }
}

/// The tile kind at (x, y) after a hit at `pos` turned that cell into `nk`:
/// the hit cell changes; if the hit depleted the cell, each orthogonal
/// neighbour sheds its hidden-ore veil; everything else stands.
pub open spec fn spec_hit_map_at(
    m0: Tilemap,
    pos: TilePos,
    nk: TileKind,
    destroyed: bool,
    x: int,
    y: int,
) -> TileKind {
    if x == pos.x as int && y == pos.y as int {
        nk
    } else if destroyed && dist1(x, pos.x as int) + dist1(y, pos.y as int) == 1 {
        spec_revealed(m0.tile_at(x, y))
    } else {
        m0.tile_at(x, y)
    }
}

/// The reveal record one neighbour candidate contributes.
pub open spec fn reveal_entry(m0: Tilemap, x: int, y: int) -> Seq<TilePos> {
    if m0.spec_in_bounds(x, y) && (m0.tile_at(x, y) is CrystalHidden || m0.tile_at(
        x,
        y,
    ) is MetalHidden) {
        seq![TilePos { x: x as usize, y: y as usize }]
    } else {
        Seq::empty()
    }
}

/// Everything one resolved hit reports back.
pub struct HitOutcome {
    pub destroyed: bool,
    pub new_kind: TileKind,
    pub removed_indicator: Option<u64>,
    pub revealed: Vec<TilePos>,
}

/// Shed the hidden-ore veil of one cell, if it is an in-bounds hidden-ore
/// cell; report whether anything changed.
fn reveal_cell(m: &mut Tilemap, p: TilePos) -> (r: bool)
    requires
        old(m).wf(),
    ensures
        final(m).wf(),
        final(m).spec_rows() == old(m).spec_rows(),
        final(m).spec_cols() == old(m).spec_cols(),
        r == (old(m).spec_in_bounds(p.x as int, p.y as int) && (old(m).tile_at(
            p.x as int,
            p.y as int,
        ) is CrystalHidden || old(m).tile_at(p.x as int, p.y as int) is MetalHidden)),
        r ==> final(m).cells() == old(m).cells().insert(
            (p.y as int, p.x as int),
            spec_revealed(old(m).tile_at(p.x as int, p.y as int)),
        ),
        !r ==> final(m).cells() == old(m).cells(),
{
    match m.get(p) {
        Some(TileKind::CrystalHidden) => {
            m.set(p, TileKind::Crystal);
            true
        },
        Some(TileKind::MetalHidden) => {
            m.set(p, TileKind::Metal);
            true
        },
        _ => false,
    }
}

/// Resolve one unit of damage dealt to the tile at `pos`, as the dig step
/// does: the tile's hit points fall (saturating), its kind follows its
/// family's health ladder, and on depletion the cell turns to dirt, the
/// family's resource counter rises by one, any designation there is completed
/// (removed, never refunded), and hidden ore on orthogonal neighbours is
/// revealed. Returns None, changing nothing, when `pos` is off the map or
/// carries no live hit points.
pub fn hit_tile(
    m: &mut Tilemap,
    health: &mut TileHealth,
    ledger: &mut DesignationLedger,
    currency: &mut Currency,
    pos: TilePos,
    damage: u32,
) -> (r: Option<HitOutcome>)
    requires
        old(m).wf(),
        old(health).wf(),
        old(ledger).wf(),
        old(health).rows == old(m).spec_rows(),
        old(health).cols == old(m).spec_cols(),
        old(currency).metal < u32::MAX,
        old(currency).crystal < u32::MAX,
        old(currency).stone < u32::MAX,
    ensures
        final(m).wf(),
        final(health).wf(),
        final(ledger).wf(),
        final(m).spec_rows() == old(m).spec_rows(),
        final(m).spec_cols() == old(m).spec_cols(),
        final(health).rows == old(health).rows,
        final(health).cols == old(health).cols,
        r is None <==> {
            ||| !old(m).spec_in_bounds(pos.x as int, pos.y as int)
            ||| old(health).hp_at(pos.x as int, pos.y as int) is None
            ||| (old(health).hp_at(pos.x as int, pos.y as int) matches Some(h) && h.current == 0)
        },
        r is None ==> {
            &&& final(m).cells() == old(m).cells()
            &&& final(health).hp@ == old(health).hp@
            &&& final(ledger).entries@ == old(ledger).entries@
            &&& *final(currency) == *old(currency)
        },
        r matches Some(out) ==> {
            let h0 = old(health).hp_at(pos.x as int, pos.y as int)->Some_0;
            let h1 = HitPoints {
                current: if h0.current >= damage {
                    (h0.current - damage) as u32
                } else {
                    0
                },
                max: h0.max,
            };
            let k0 = old(m).tile_at(pos.x as int, pos.y as int);
            &&& out.destroyed == (h1.current == 0)
            &&& out.new_kind == spec_hit_kind(k0, h1)
            &&& final(health).hp_at(pos.x as int, pos.y as int) == Some(h1)
            &&& forall|x: int, y: int|
                final(health).spec_in_bounds(x, y) && !(x == pos.x as int && y == pos.y as int)
                    ==> #[trigger] final(health).hp_at(x, y) == old(health).hp_at(x, y)
            &&& forall|x: int, y: int|
                final(m).spec_in_bounds(x, y) ==> #[trigger] final(m).tile_at(x, y)
                    == spec_hit_map_at(*old(m), pos, out.new_kind, out.destroyed, x, y)
            &&& (out.destroyed ==> *final(currency) == spec_mined_currency(*old(currency), k0))
            &&& (!out.destroyed ==> *final(currency) == *old(currency))
            &&& (out.destroyed ==> {
                &&& (out.removed_indicator is Some <==> has_key(old(ledger).entries@, pos))
                &&& (out.removed_indicator matches Some(ind) ==> (spec_get(
                    old(ledger).entries@,
                    pos,
                ) matches Some(d) && ind == d.indicator && final(ledger).entries@ == old(
                    ledger,
                ).entries@.remove(key_index(old(ledger).entries@, pos))))
                &&& (out.removed_indicator is None ==> final(ledger).entries@ == old(
                    ledger,
                ).entries@)
            })
            &&& (!out.destroyed ==> final(ledger).entries@ == old(ledger).entries@
                && out.removed_indicator is None)
            &&& (out.destroyed ==> out.revealed@ == reveal_entry(*old(m), pos.x + 1, pos.y as int)
                + reveal_entry(*old(m), pos.x - 1, pos.y as int) + reveal_entry(
                *old(m),
                pos.x as int,
                pos.y + 1,
            ) + reveal_entry(*old(m), pos.x as int, pos.y - 1))
            &&& (!out.destroyed ==> out.revealed@ == Seq::<TilePos>::empty())
        },
{
    let ghost m0 = *m;
    if !m.in_bounds(pos) {
        return None;
    }
    let hp0 = match health.get(pos) {
        Some(h) => h,
        None => {
            return None;
        },
    };
    if hp0.current == 0 {
        return None;
    }
    let k0 = match m.get(pos) {
        Some(k) => k,
        None => {
            return None;
        },
    };
    let mut hp1 = hp0;
    hp1.sub(damage);
    health.set(pos, Some(hp1));
    let new_kind = hit_kind(k0, &hp1);
    m.set(pos, new_kind);
    let destroyed = hp1.current == 0;
    if !destroyed {
        return Some(
            HitOutcome { destroyed: false, new_kind, removed_indicator: None, revealed: Vec::new() },
        );
    }
    // The cell is depleted: pay out its resource, complete any designation
    // there, and reveal hidden ore on its orthogonal sides.
    let crystal = matches!(
        k0,
        TileKind::CrystalHidden | TileKind::Crystal | TileKind::CrystalHurt | TileKind::CrystalDying
    );
    let metal = matches!(
        k0,
        TileKind::MetalHidden | TileKind::Metal | TileKind::MetalHurt | TileKind::MetalDying
    );
    if crystal {
        currency.crystal = currency.crystal + 1;
    } else if metal {
        currency.metal = currency.metal + 1;
    } else {
        currency.stone = currency.stone + 1;
    }
    let removed_indicator = ledger.complete(pos);
    let mut revealed: Vec<TilePos> = Vec::new();
    let c1 = TilePos { x: pos.x + 1, y: pos.y };
    if reveal_cell(m, c1) {
        revealed.push(c1);
    }
    assert(revealed@ =~= reveal_entry(m0, pos.x + 1, pos.y as int));
    if pos.x > 0 {
        let c2 = TilePos { x: pos.x - 1, y: pos.y };
        if reveal_cell(m, c2) {
            revealed.push(c2);
        }
    }
    assert(revealed@ =~= reveal_entry(m0, pos.x + 1, pos.y as int) + reveal_entry(
        m0,
        pos.x - 1,
        pos.y as int,
    ));
    let c3 = TilePos { x: pos.x, y: pos.y + 1 };
    if reveal_cell(m, c3) {
        revealed.push(c3);
    }
    if pos.y > 0 {
        let c4 = TilePos { x: pos.x, y: pos.y - 1 };
        if reveal_cell(m, c4) {
            revealed.push(c4);
        }
    }
    assert(revealed@ =~= reveal_entry(m0, pos.x + 1, pos.y as int) + reveal_entry(
        m0,
        pos.x - 1,
        pos.y as int,
    ) + reveal_entry(m0, pos.x as int, pos.y + 1) + reveal_entry(m0, pos.x as int, pos.y - 1));
    proof {
        assert forall|x: int, y: int| m.spec_in_bounds(x, y) implies #[trigger] m.tile_at(x, y)
            == spec_hit_map_at(m0, pos, new_kind, true, x, y) by {}
    }
    Some(HitOutcome { destroyed: true, new_kind, removed_indicator, revealed })
}

/// Raise a tower on the dirt cell at `pos`, completing any designation there
/// (never refunding). Refused, changing nothing, when the cell is off the map
/// or not buildable.
pub fn build_tower(m: &mut Tilemap, health: &mut TileHealth, ledger: &mut DesignationLedger, pos: TilePos) -> (r:
    Option<Option<u64>>)
    requires
        old(m).wf(),
        old(health).wf(),
        old(ledger).wf(),
        old(health).rows == old(m).spec_rows(),
        old(health).cols == old(m).spec_cols(),
    ensures
        final(m).wf(),
        final(health).wf(),
        final(ledger).wf(),
        final(m).spec_rows() == old(m).spec_rows(),
        final(m).spec_cols() == old(m).spec_cols(),
        final(health).rows == old(health).rows,
        final(health).cols == old(health).cols,
        r is Some <==> (old(m).spec_in_bounds(pos.x as int, pos.y as int) && old(m).tile_at(
            pos.x as int,
            pos.y as int,
        ).spec_buildable()),
        r is None ==> {
            &&& final(m).cells() == old(m).cells()
            &&& final(health).hp@ == old(health).hp@
            &&& final(ledger).entries@ == old(ledger).entries@
        },
        r matches Some(ind) ==> {
            &&& final(m).cells() == old(m).cells().insert(
                (pos.y as int, pos.x as int),
                TileKind::Tower,
            )
            &&& final(health).hp_at(pos.x as int, pos.y as int) is None
            &&& forall|x: int, y: int|
                final(health).spec_in_bounds(x, y) && !(x == pos.x as int && y == pos.y as int)
                    ==> #[trigger] final(health).hp_at(x, y) == old(health).hp_at(x, y)
            &&& (ind is Some <==> has_key(old(ledger).entries@, pos))
            &&& (ind matches Some(i) ==> (spec_get(old(ledger).entries@, pos) matches Some(d) && i
                == d.indicator && final(ledger).entries@ == old(ledger).entries@.remove(
                key_index(old(ledger).entries@, pos),
            )))
            &&& (ind is None ==> final(ledger).entries@ == old(ledger).entries@)
        },
{
    let buildable = match m.get(pos) {
        Some(k) => k.buildable(),
        None => false,
    };
    if !buildable {
        return None;
    }
    m.set(pos, TileKind::Tower);
    health.set(pos, None);
    let ind = ledger.complete(pos);
    Some(ind)
}

/// The per-worker cooldown between two units of applied work.
pub struct WorkCooldown {
    pub remaining_ms: u32,
}

/// How long a worker rests between two swings.
pub const WORK_COOLDOWN_MS: u32 = 1000;

impl WorkCooldown {
    /// A fresh cooldown starts ready: the first swing is immediate.
    pub fn new() -> (r: WorkCooldown)
        ensures
            r.remaining_ms == 0,
    {
        WorkCooldown { remaining_ms: 0 }
    }

    pub fn tick(&mut self, dt_ms: u32)
        ensures
            final(self).remaining_ms == if old(self).remaining_ms >= dt_ms {
                old(self).remaining_ms - dt_ms
            } else {
                0
            },
    {
        self.remaining_ms = self.remaining_ms.saturating_sub(dt_ms);
    }

    pub fn finished(&self) -> (r: bool)
        ensures
            r == (self.remaining_ms == 0),
    {
        self.remaining_ms == 0
    }

    pub fn reset(&mut self)
        ensures
            final(self).remaining_ms == WORK_COOLDOWN_MS,
    {
        self.remaining_ms = WORK_COOLDOWN_MS;
    }
}

/// What the do-work step decided for one arrived worker this tick.
#[derive(Clone, Copy, PartialEq, Eq, Structural, Debug)]
pub enum JobStepOutcome {
    /// The job's target vanished or became unworkable: revert to idle.
    Invalid,
    /// The target needs no more work: revert to idle.
    Done,
    /// Still waiting out the cooldown.
    Cooling,
    /// Swing once at the dig target (the caller applies `hit_tile`).
    Dig(TilePos),
    /// One unit of construction applied; the build goes on.
    Building,
    /// Construction reached completion (the caller raises the tower).
    Built(TilePos),
}

/// What the dig step decides, given the target's recorded hit points and
/// the worker's cooldown.
pub open spec fn spec_dig_step(pos: TilePos, health: TileHealth, cd: WorkCooldown) -> JobStepOutcome {
    if !(health.spec_in_bounds(pos.x as int, pos.y as int) && health.hp_at(
        pos.x as int,
        pos.y as int,
    ) is Some) {
        JobStepOutcome::Invalid
    } else if health.hp_at(pos.x as int, pos.y as int)->Some_0.current == 0 {
        JobStepOutcome::Done
    } else if cd.remaining_ms > 0 {
        JobStepOutcome::Cooling
    } else {
        JobStepOutcome::Dig(pos)
    }
}

/// What the build step decides, given the job's remaining construction work,
/// the terrain under it and the worker's cooldown.
pub open spec fn spec_build_step(pos: TilePos, hp0: HitPoints, m: Tilemap, cd: WorkCooldown) -> JobStepOutcome {
    if !(m.spec_in_bounds(pos.x as int, pos.y as int) && m.tile_at(
        pos.x as int,
        pos.y as int,
    ).spec_buildable()) {
        JobStepOutcome::Invalid
    } else if hp0.current == 0 {
        JobStepOutcome::Done
    } else if cd.remaining_ms > 0 {
        JobStepOutcome::Cooling
    } else if hp0.current == 1 {
        JobStepOutcome::Built(pos)
    } else {
        JobStepOutcome::Building
    }
}

/// Decide and apply one tick of work for a worker that has arrived at its
/// job: digs swing at the target through the caller; builds consume the job's
/// own construction hit points and announce completion. A vanished or
/// unworkable target reverts the worker to idle; a pending cooldown defers.
/// The cooldown is reset exactly when a unit of work happens.
pub fn do_job_step(
    job: &mut Job,
    cooldown: &mut WorkCooldown,
    m: &Tilemap,
    health: &TileHealth,
) -> (r: JobStepOutcome)
    requires
        m.wf(),
        health.wf(),
        health.rows == m.spec_rows(),
        health.cols == m.spec_cols(),
    ensures
        *old(job) matches Job::Dig(pos) ==> {
            &&& r == spec_dig_step(pos, *health, *old(cooldown))
            &&& *final(job) == *old(job)
            &&& (r is Dig ==> final(cooldown).remaining_ms == WORK_COOLDOWN_MS)
            &&& (!(r is Dig) ==> *final(cooldown) == *old(cooldown))
        },
        *old(job) matches Job::Build { hit_points: hp0, pos } ==> {
            &&& r == spec_build_step(pos, hp0, *m, *old(cooldown))
            &&& ((r is Building || r is Built) ==> *final(job) == (Job::Build {
                hit_points: HitPoints { current: (hp0.current - 1) as u32, max: hp0.max },
                pos,
            }) && final(cooldown).remaining_ms == WORK_COOLDOWN_MS)
            &&& (!(r is Building || r is Built) ==> *final(job) == *old(job) && *final(cooldown)
                == *old(cooldown))
        },
{
    match job {
        Job::Dig(pos) => {
            let p = *pos;
            match health.get(p) {
                None => JobStepOutcome::Invalid,
                Some(h) => {
                    if h.current == 0 {
                        JobStepOutcome::Done
                    } else if !cooldown.finished() {
                        JobStepOutcome::Cooling
                    } else {
                        cooldown.reset();
                        JobStepOutcome::Dig(p)
                    }
                },
            }
        },
        Job::Build { hit_points, pos } => {
            let p = *pos;
            let workable = match m.get(p) {
                Some(k) => k.buildable(),
                None => false,
            };
            if !workable {
                JobStepOutcome::Invalid
            } else if hit_points.current == 0 {
                JobStepOutcome::Done
            } else if !cooldown.finished() {
                JobStepOutcome::Cooling
            } else {
                hit_points.sub(1);
                cooldown.reset();
                if hit_points.current == 0 {
                    JobStepOutcome::Built(p)
                } else {
                    JobStepOutcome::Building
                }
            }
        },
    }
}

} // verus!
