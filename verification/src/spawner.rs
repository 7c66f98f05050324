use vstd::prelude::*;

use crate::cost::EnemyKind;
use crate::currency::Currency;
use crate::hit_points::HitPoints;
use crate::tiles::TilePos;

verus! {

/// Ceiling on a spawner's repeat interval, leaving ample headroom in u64
/// arithmetic for any tick length.
pub const MAX_INTERVAL_MS: u64 = 0x1000000000000;

/// Ceiling on one tick's elapsed time.
pub const MAX_TICK_MS: u64 = 0x100000000;

/// One configured spawner line of a wave: which spawn tile, how many enemies,
/// the initial delay and repeat interval, and what to spawn.
#[derive(Clone, Copy, PartialEq, Eq, Structural, Debug)]
pub struct Spawn {
    pub spawner: usize,
    pub num: usize,
    pub delay_ms: u64,
    pub interval_ms: u64,
    pub hp: u32,
    pub kind: EnemyKind,
}

/// An enemy to be placed on the field.
#[derive(Clone, Copy, PartialEq, Eq, Structural, Debug)]
pub struct SpawnEnemyMessage {
    pub pos: TilePos,
    pub kind: EnemyKind,
    pub hp: u32,
}

/// The live state of one spawner: waiting out its delay, then spawning on a
/// repeating interval until its count is used up.
#[derive(Clone, Copy, PartialEq, Eq, Structural, Debug)]
pub struct SpawnerState {
    pub delay_remaining_ms: u64,
    pub interval_elapsed_ms: u64,
    pub remaining: usize,
    pub spawn: Spawn,
}

impl SpawnerState {
    pub open spec fn wf(self) -> bool {
        &&& self.interval_elapsed_ms <= self.spawn.interval_ms
        &&& self.spawn.interval_ms <= MAX_INTERVAL_MS
    }

    /// Arm a configured spawner: the full delay is pending, and the interval
    /// timer starts ripe so that the first spawn follows the delay at once.
    pub fn from_spawn(spawn: Spawn) -> (r: SpawnerState)
        requires
            spawn.interval_ms <= MAX_INTERVAL_MS,
        ensures
            r.wf(),
            r == (SpawnerState {
                delay_remaining_ms: spawn.delay_ms,
                interval_elapsed_ms: spawn.interval_ms,
                remaining: spawn.num,
                spawn,
            }),
    {
        SpawnerState {
            delay_remaining_ms: spawn.delay_ms,
            interval_elapsed_ms: spawn.interval_ms,
            remaining: spawn.num,
            spawn,
        }
    }

    /// Where one tick of `dt` milliseconds takes a spawner, and whether it
    /// spawns: an exhausted spawner rests; the delay is waited out first; once
    /// it is gone the interval timer accumulates, and each time it fills, one
    /// enemy spawns and the timer keeps its remainder.
    pub open spec fn spec_tick(self, dt: u64) -> (SpawnerState, bool) {
        if self.remaining == 0 {
            (self, false)
        } else {
            let d = if self.delay_remaining_ms >= dt {
                (self.delay_remaining_ms - dt) as u64
            } else {
                0u64
            };
            if d > 0 {
                (SpawnerState { delay_remaining_ms: d, ..self }, false)
            } else {
                let e = self.interval_elapsed_ms + dt;
                if e >= self.spawn.interval_ms {
                    let wrapped = if self.spawn.interval_ms > 0 {
                        e % self.spawn.interval_ms as int
                    } else {
                        0int
                    };
                    (
                        SpawnerState {
                            delay_remaining_ms: 0,
                            interval_elapsed_ms: wrapped as u64,
                            remaining: (self.remaining - 1) as usize,
                            spawn: self.spawn,
                        },
                        true,
                    )
                } else {
                    (
                        SpawnerState {
                            delay_remaining_ms: 0,
                            interval_elapsed_ms: e as u64,
                            ..self
                        },
                        false,
                    )
                }
            }
        }
    }

    /// Advance this spawner by `dt` milliseconds; true exactly when an enemy
    /// spawns this tick.
    pub fn tick(&mut self, dt: u64) -> (r: bool)
        requires
            old(self).wf(),
            dt <= MAX_TICK_MS,
        ensures
            final(self).wf(),
            (*final(self), r) == old(self).spec_tick(dt),
    {
        if self.remaining == 0 {
            return false;
        }
        self.delay_remaining_ms = self.delay_remaining_ms.saturating_sub(dt);
        if self.delay_remaining_ms > 0 {
            return false;
        }
        let e = self.interval_elapsed_ms + dt;
        if e >= self.spawn.interval_ms {
            self.interval_elapsed_ms = if self.spawn.interval_ms > 0 {
                e % self.spawn.interval_ms
            } else {
                0
            };
            self.remaining = self.remaining - 1;
            true
        } else {
            self.interval_elapsed_ms = e;
            false
        }
    }
}

/// The collected spawners of the running wave.
pub struct SpawnerStates {
    pub states: Vec<SpawnerState>,
}

/// The messages one tick of the whole spawner set emits, in spawner order.
pub open spec fn spec_tick_msgs(states: Seq<SpawnerState>, dt: u64, positions: Seq<TilePos>) -> Seq<
    SpawnEnemyMessage,
>
    decreases states.len(),
{
    if states.len() == 0 {
        Seq::empty()
    } else {
        let rest = spec_tick_msgs(states.drop_last(), dt, positions);
        let s = states.last();
        if s.spec_tick(dt).1 {
            rest.push(
                SpawnEnemyMessage {
                    pos: positions[s.spawn.spawner as int],
                    kind: s.spawn.kind,
                    hp: s.spawn.hp,
                },
            )
        } else {
            rest
        }
    }
}

impl SpawnerStates {
    pub open spec fn wf(self) -> bool {
        forall|i: int| 0 <= i < self.states@.len() ==> (#[trigger] self.states@[i]).wf()
    }

    pub open spec fn all_exhausted_spec(self) -> bool {
        forall|i: int| 0 <= i < self.states@.len() ==> (#[trigger] self.states@[i]).remaining == 0
    }

    /// Arm one state per configured spawner line.
    pub fn from_spawns(spawns: &Vec<Spawn>) -> (r: SpawnerStates)
        requires
            forall|i: int|
                0 <= i < spawns@.len() ==> (#[trigger] spawns@[i]).interval_ms <= MAX_INTERVAL_MS,
        ensures
            r.wf(),
            r.states@.len() == spawns@.len(),
            forall|i: int|
                0 <= i < spawns@.len() ==> #[trigger] r.states@[i] == SpawnerState::from_spawn_spec(
                    spawns@[i],
                ),
    {
        let mut states: Vec<SpawnerState> = Vec::new();
        let mut i: usize = 0;
        while i < spawns.len()
            invariant
                i <= spawns@.len(),
                states@.len() == i,
                forall|j: int|
                    0 <= j < spawns@.len() ==> (#[trigger] spawns@[j]).interval_ms
                        <= MAX_INTERVAL_MS,
                forall|j: int|
                    0 <= j < i ==> #[trigger] states@[j] == SpawnerState::from_spawn_spec(
                        spawns@[j],
                    ),
            decreases spawns@.len() - i,
        {
            let s = spawns[i];
            states.push(SpawnerState::from_spawn(s));
            i = i + 1;
        }
        SpawnerStates { states }
    }

    pub fn all_exhausted(&self) -> (r: bool)
        ensures
            r == self.all_exhausted_spec(),
    {
        let mut i: usize = 0;
        while i < self.states.len()
            invariant
                i <= self.states@.len(),
                forall|j: int| 0 <= j < i ==> (#[trigger] self.states@[j]).remaining == 0,
            decreases self.states@.len() - i,
        {
            if self.states[i].remaining != 0 {
                return false;
            }
            i = i + 1;
        }
        true
    }

    /// Advance every spawner by `dt` and collect the enemies to place, each
    /// at its spawner's tile. The wave configuration is taken as validated:
    /// every spawner index points into `positions`.
    pub fn tick_all(&mut self, dt: u64, positions: &Vec<TilePos>) -> (r: Vec<SpawnEnemyMessage>)
        requires
            old(self).wf(),
            dt <= MAX_TICK_MS,
            forall|i: int|
                0 <= i < old(self).states@.len() ==> (#[trigger] old(
                    self,
                ).states@[i]).spawn.spawner < positions@.len(),
        ensures
            final(self).wf(),
            final(self).states@.len() == old(self).states@.len(),
            forall|i: int|
                0 <= i < old(self).states@.len() ==> #[trigger] final(self).states@[i] == old(
                    self,
                ).states@[i].spec_tick(dt).0,
            r@ == spec_tick_msgs(old(self).states@, dt, positions@),
    {
        let mut msgs: Vec<SpawnEnemyMessage> = Vec::new();
        let mut i: usize = 0;
        while i < self.states.len()
            invariant
                i <= self.states@.len(),
                dt <= MAX_TICK_MS,
                self.states@.len() == old(self).states@.len(),
                forall|j: int|
                    0 <= j < old(self).states@.len() ==> (#[trigger] old(
                        self,
                    ).states@[j]).spawn.spawner < positions@.len(),
                forall|j: int| i <= j < self.states@.len() ==> #[trigger] self.states@[j] == old(
                    self,
                ).states@[j],
                forall|j: int| i <= j < self.states@.len() ==> (#[trigger] self.states@[j]).wf(),
                forall|j: int|
                    0 <= j < i ==> #[trigger] self.states@[j] == old(self).states@[j].spec_tick(
                        dt,
                    ).0,
                forall|j: int| 0 <= j < i ==> (#[trigger] self.states@[j]).wf(),
                msgs@ == spec_tick_msgs(old(self).states@.subrange(0, i as int), dt, positions@),
            decreases self.states@.len() - i,
        {
            let ghost pre = old(self).states@.subrange(0, i + 1 as int);
            proof {
                assert(pre.drop_last() =~= old(self).states@.subrange(0, i as int));
                assert(pre.last() == old(self).states@[i as int]);
            }
            let spawner_idx = self.states[i].spawn.spawner;
            let kind = self.states[i].spawn.kind;
            let hp = self.states[i].spawn.hp;
            let mut st = self.states[i];
            let spawned = st.tick(dt);
            self.states.set(i, st);
            if spawned {
                let pos = positions[spawner_idx];
                msgs.push(SpawnEnemyMessage { pos, kind, hp });
            }
            i = i + 1;
        }
        proof {
            assert(old(self).states@.subrange(0, old(self).states@.len() as int) =~= old(
                self,
            ).states@);
        }
        msgs
    }
}

impl SpawnerState {
    /// The armed state `from_spawn` builds, as a spec value.
    pub open spec fn from_spawn_spec(spawn: Spawn) -> SpawnerState {
        SpawnerState {
            delay_remaining_ms: spawn.delay_ms,
            interval_elapsed_ms: spawn.interval_ms,
            remaining: spawn.num,
            spawn,
        }
    }
}

/// How hard the session is set to be: scales spawned enemies' hit points.
#[derive(Clone, Copy, PartialEq, Eq, Structural, Debug)]
pub enum DifficultySetting {
    Normal,
    Hard,
    Impossible,
}

/// The hit points an enemy actually spawns with: the configured value on
/// hard, three quarters of it on normal, five quarters on impossible, never
/// below one.
pub open spec fn spec_scaled_hp(hp: u32, difficulty: DifficultySetting) -> u32 {
    match difficulty {
        DifficultySetting::Hard => hp,
        DifficultySetting::Normal => {
            let scaled = hp * 3 / 4;
            if scaled < 1 {
                1u32
            } else {
                scaled as u32
            }
        },
        DifficultySetting::Impossible => {
            let scaled = hp * 5 / 4;
            if scaled < 1 {
                1u32
            } else {
                scaled as u32
            }
        },
    }
}

pub fn scaled_hp(hp: u32, difficulty: DifficultySetting) -> (r: u32)
    requires
        hp <= 0x10000000,
    ensures
        r == spec_scaled_hp(hp, difficulty),
{
    match difficulty {
        DifficultySetting::Hard => hp,
        DifficultySetting::Normal => {
            let scaled = hp * 3 / 4;
            if scaled < 1 {
                1
            } else {
                scaled
            }
        },
        DifficultySetting::Impossible => {
            let scaled = hp * 5 / 4;
            if scaled < 1 {
                1
            } else {
                scaled
            }
        },
    }
}

/// One configured wave: an ordered list of spawner lines.
pub struct Wave {
    pub spawns: Vec<Spawn>,
}

/// The ordered wave list and which wave is running.
pub struct Waves {
    pub current: usize,
    pub waves: Vec<Wave>,
}

impl Waves {
    pub fn from_waves(waves: Vec<Wave>) -> (r: Waves)
        ensures
            r.current == 0,
            r.waves@ == waves@,
    {
        Waves { current: 0, waves }
    }

    /// The running wave, if any is left.
    pub fn current(&self) -> (r: Option<&Wave>)
        ensures
            self.current < self.waves@.len() ==> (r matches Some(w) && *w == self.waves@[self.current as int]),
            self.current >= self.waves@.len() ==> r is None,
    {
        if self.current < self.waves.len() {
            Some(&self.waves[self.current])
        } else {
            None
        }
    }

    /// Move on to the next configured wave; true while one is left.
    pub fn advance(&mut self) -> (r: bool)
        requires
            old(self).current < old(self).waves@.len(),
        ensures
            final(self).current == old(self).current + 1,
            final(self).waves@ == old(self).waves@,
            r == (final(self).current < final(self).waves@.len()),
    {
        let n = self.waves.len();
        self.current = self.current + 1;
        self.current < n
    }

    /// Back to the first wave, for a session restart.
    pub fn reset(&mut self)
        ensures
            final(self).current == 0,
            final(self).waves@ == old(self).waves@,
    {
        self.current = 0;
    }
}

/// Advance to the next wave exactly when a wave is running and every spawner
/// armed for it is exhausted: the wave is complete. An unarmed spawner set
/// advances nothing, and neither does a finished wave list. True when a wave
/// completed; the caller then arms the next wave's spawners, if one is left.
pub fn advance_on_exhaustion(waves: &mut Waves, states: &SpawnerStates) -> (r: bool)
    requires
        old(waves).current <= old(waves).waves@.len(),
    ensures
        r == (states.states@.len() > 0 && states.all_exhausted_spec() && old(waves).current < old(
            waves,
        ).waves@.len()),
        r ==> final(waves).current == old(waves).current + 1,
        !r ==> final(waves).current == old(waves).current,
        final(waves).waves@ == old(waves).waves@,
{
    if states.states.len() > 0 && states.all_exhausted() && waves.current < waves.waves.len() {
        waves.advance();
        true
    } else {
        false
    }
}

/// The pre-wave grace gate: spawning starts paused and is unpaused, when a
/// depleted tile pays out, once mining has yielded any metal or more than
/// four stone. Pausing is never re-entered here.
pub fn update_spawning_pause(paused: &mut bool, currency: &Currency)
    ensures
        *final(paused) == (*old(paused) && !(currency.metal > 0 || currency.stone > 4)),
{
    if *paused && (currency.metal > 0 || currency.stone > 4) {
        *paused = false;
    }
}

/// The field is won when no wave is left to run, every spawner of the last
/// one is exhausted, and no enemy stands.
pub fn check_win(waves: &Waves, states: &SpawnerStates, enemies_alive: usize) -> (r: bool)
    ensures
        r == (waves.current >= waves.waves@.len() && states.all_exhausted_spec() && enemies_alive
            == 0),
{
    if waves.current < waves.waves.len() {
        return false;
    }
    if !states.all_exhausted() {
        return false;
    }
    enemies_alive == 0
}

/// The field is lost when every home has been beaten down to zero.
pub fn check_loss(home_hps: &Vec<HitPoints>) -> (r: bool)
    ensures
        r == forall|i: int| 0 <= i < home_hps@.len() ==> (#[trigger] home_hps@[i]).current == 0,
{
    let mut i: usize = 0;
    while i < home_hps.len()
        invariant
            i <= home_hps@.len(),
            forall|j: int| 0 <= j < i ==> (#[trigger] home_hps@[j]).current == 0,
        decreases home_hps@.len() - i,
    {
        if home_hps[i].current != 0 {
            return false;
        }
        i = i + 1;
    }
    true
}

} // verus!
