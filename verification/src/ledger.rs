use vstd::prelude::*;

use crate::currency::Currency;
use crate::gridmap::Tilemap;
use crate::tiles::{TileKind, TilePos};

verus! {

/// Hard cap on how many workers one designation may have assigned at once.
pub const MAX_WORKERS_PER_DESIGNATION: u32 = 4;

/// The kinds of work a player can designate on a cell.
#[derive(Clone, Copy, PartialEq, Eq, Structural, Debug)]
pub enum DesignationKind {
    Dig,
    BuildTower,
    Dance,
}

impl DesignationKind {
    /// What issuing this designation costs.
    pub open spec fn spec_price(self) -> Currency {
        match self {
            DesignationKind::BuildTower => Currency { metal: 1, crystal: 0, stone: 15 },
            _ => Currency { metal: 0, crystal: 0, stone: 0 },
        }
    }

    pub fn price(&self) -> (r: Currency)
        ensures
            r == self.spec_price(),
    {
        match self {
            DesignationKind::BuildTower => Currency { metal: 1, crystal: 0, stone: 15 },
            _ => Currency { metal: 0, crystal: 0, stone: 0 },
        }
    }

    /// The terrain this designation may be issued on: dig on diggable rock,
    /// build and dance on bare dirt.
    pub open spec fn spec_allowed_on(self, kind: TileKind) -> bool {
        match self {
            DesignationKind::Dig => kind.spec_diggable(),
            DesignationKind::BuildTower => kind.spec_buildable(),
            DesignationKind::Dance => kind.spec_buildable(),
        }
    }

    pub fn allowed_on(&self, kind: TileKind) -> (r: bool)
        ensures
            r == self.spec_allowed_on(kind),
    {
        match self {
            DesignationKind::Dig => kind.diggable(),
            DesignationKind::BuildTower => kind.buildable(),
            DesignationKind::Dance => kind.buildable(),
        }
    }
}

/// One ledger entry: the designated work, the handle of its decorative
/// indicator (owned by the caller's rendering layer), and how many workers
/// are assigned to it.
#[derive(Clone, Copy, PartialEq, Eq, Structural, Debug)]
pub struct Designation {
    pub kind: DesignationKind,
    pub indicator: u64,
    pub workers: u32,
}

/// Why a ledger request was refused.
#[derive(Clone, Copy, PartialEq, Eq, Structural, Debug)]
pub enum DesignateError {
    AlreadyDesignated,
    OutOfBounds,
    TerrainMismatch,
    NotEnoughCurrency,
    WorkersAssigned,
    NoDesignation,
}

/// Whether some entry carries the key `pos`.
pub open spec fn has_key(s: Seq<(TilePos, Designation)>, pos: TilePos) -> bool {
    exists|i: int| 0 <= i < s.len() && (#[trigger] s[i]).0 == pos
}

/// The index of the entry keyed `pos` (unique under `wf`).
pub open spec fn key_index(s: Seq<(TilePos, Designation)>, pos: TilePos) -> int {
    choose|i: int| 0 <= i < s.len() && (#[trigger] s[i]).0 == pos
}

/// The entry keyed `pos`, if any.
pub open spec fn spec_get(s: Seq<(TilePos, Designation)>, pos: TilePos) -> Option<Designation> {
    if has_key(s, pos) {
        Some(s[key_index(s, pos)].1)
    } else {
        None
    }
}

/// The combined price of all entries, per counter: (metal, crystal, stone).
pub open spec fn price_sum(s: Seq<(TilePos, Designation)>) -> (int, int, int)
    decreases s.len(),
{
    if s.len() == 0 {
        (0, 0, 0)
    } else {
        let rest = price_sum(s.drop_first());
        let p = s[0].1.kind.spec_price();
        (p.metal + rest.0, p.crystal + rest.1, p.stone + rest.2)
    }
}

/// The player's balance plus everything currently sunk into ledger entries.
/// Creation debits exactly what it records and player removal refunds exactly
/// what it deletes, so this quantity is conserved by both.
pub open spec fn wealth(c: Currency, s: Seq<(TilePos, Designation)>) -> (int, int, int) {
    (c.metal + price_sum(s).0, c.crystal + price_sum(s).1, c.stone + price_sum(s).2)
}

/// The per-cell record of player-issued work orders. At most one designation
/// exists per cell, and none ever has more than the capped number of workers.
pub struct DesignationLedger {
    pub entries: Vec<(TilePos, Designation)>,
}

impl DesignationLedger {
    pub open spec fn view_entries(self) -> Seq<(TilePos, Designation)> {
        self.entries@
    }

    pub open spec fn wf(self) -> bool {
        &&& forall|i: int, j: int|
            0 <= i < j < self.entries@.len() ==> (#[trigger] self.entries@[i]).0 != (
            #[trigger] self.entries@[j]).0
        &&& forall|i: int|
            0 <= i < self.entries@.len() ==> (#[trigger] self.entries@[i]).1.workers
                <= MAX_WORKERS_PER_DESIGNATION
    }

    pub fn new() -> (r: DesignationLedger)
        ensures
            r.wf(),
            r.entries@ =~= Seq::<(TilePos, Designation)>::empty(),
    {
        DesignationLedger { entries: Vec::new() }
    }

    pub fn len(&self) -> (r: usize)
        ensures
            r == self.entries@.len(),
    {
        self.entries.len()
    }

    /// The entry at list position `i`, for iteration in insertion order.
    pub fn entry_at(&self, i: usize) -> (r: (TilePos, Designation))
        requires
            i < self.entries@.len(),
        ensures
            r == self.entries@[i as int],
    {
        let e = self.entries[i];
        e
    }

    fn index_of(&self, pos: TilePos) -> (r: Option<usize>)
        ensures
            match r {
                Some(i) => i < self.entries@.len() && self.entries@[i as int].0 == pos,
                None => !has_key(self.entries@, pos),
            },
    {
        let mut i: usize = 0;
        while i < self.entries.len()
            invariant
                i <= self.entries@.len(),
                forall|j: int| 0 <= j < i ==> (#[trigger] self.entries@[j]).0 != pos,
            decreases self.entries@.len() - i,
        {
            let e = self.entries[i];
            if e.0.x == pos.x && e.0.y == pos.y {
                assert(self.entries@[i as int].0 == pos);
                return Some(i);
            }
            i = i + 1;
        }
        None
    }

    /// Under uniqueness, a found index is the key's index.
    pub proof fn lemma_found_index(s: Seq<(TilePos, Designation)>, pos: TilePos, i: int)
        requires
            forall|a: int, b: int|
                0 <= a < b < s.len() ==> (#[trigger] s[a]).0 != (#[trigger] s[b]).0,
            0 <= i < s.len(),
            s[i].0 == pos,
        ensures
            has_key(s, pos),
            key_index(s, pos) == i,
            spec_get(s, pos) == Some(s[i].1),
    {
        assert(has_key(s, pos));
        let j = key_index(s, pos);
        if i < j {
            assert(s[i].0 != s[j].0);
        } else if j < i {
            assert(s[j].0 != s[i].0);
        }
    }

    /// The designation at `pos`, if any.
    pub fn get(&self, pos: TilePos) -> (r: Option<Designation>)
        requires
            self.wf(),
        ensures
            r == spec_get(self.entries@, pos),
    {
        match self.index_of(pos) {
            Some(i) => {
                proof {
                    Self::lemma_found_index(self.entries@, pos, i as int);
                }
                let e = self.entries[i];
                Some(e.1)
            },
            None => None,
        }
    }

    pub fn contains(&self, pos: TilePos) -> (r: bool)
        requires
            self.wf(),
        ensures
            r == has_key(self.entries@, pos),
    {
        match self.index_of(pos) {
            Some(_) => true,
            None => false,
        }
    }

    /// Issue a designation at `pos`. It succeeds only when the cell is not
    /// yet designated, lies on the map, carries terrain the kind allows, and
    /// the balance covers the kind's price; the price is debited atomically
    /// with the insertion. On any refusal nothing changes.
    pub fn create(
        &mut self,
        map: &Tilemap,
        currency: &mut Currency,
        kind: DesignationKind,
        pos: TilePos,
        indicator: u64,
    ) -> (r: Result<(), DesignateError>)
        requires
            old(self).wf(),
            map.wf(),
        ensures
            final(self).wf(),
            r is Ok <==> {
                &&& !has_key(old(self).entries@, pos)
                &&& map.spec_in_bounds(pos.x as int, pos.y as int)
                &&& kind.spec_allowed_on(map.tile_at(pos.x as int, pos.y as int))
                &&& old(currency).spec_has(kind.spec_price())
            },
            r is Ok ==> {
                &&& final(self).entries@ == old(self).entries@.push(
                    (pos, Designation { kind, indicator, workers: 0 }),
                )
                &&& *final(currency) == (Currency {
                    metal: (old(currency).metal - kind.spec_price().metal) as u32,
                    crystal: (old(currency).crystal - kind.spec_price().crystal) as u32,
                    stone: (old(currency).stone - kind.spec_price().stone) as u32,
                })
            },
            r matches Err(e) ==> {
                &&& final(self).entries@ == old(self).entries@
                &&& *final(currency) == *old(currency)
                &&& (e is AlreadyDesignated <==> has_key(old(self).entries@, pos))
                &&& (e is OutOfBounds <==> !has_key(old(self).entries@, pos)
                    && !map.spec_in_bounds(pos.x as int, pos.y as int))
                &&& (e is TerrainMismatch <==> !has_key(old(self).entries@, pos)
                    && map.spec_in_bounds(pos.x as int, pos.y as int) && !kind.spec_allowed_on(
                    map.tile_at(pos.x as int, pos.y as int),
                ))
                &&& (e is NotEnoughCurrency <==> !has_key(old(self).entries@, pos)
                    && map.spec_in_bounds(pos.x as int, pos.y as int) && kind.spec_allowed_on(
                    map.tile_at(pos.x as int, pos.y as int),
                ) && !old(currency).spec_has(kind.spec_price()))
            },
            wealth(*final(currency), final(self).entries@) == wealth(
                *old(currency),
                old(self).entries@,
            ),
            model_of(*final(self), *final(currency)) == apply_op(
                *map,
                model_of(*old(self), *old(currency)),
                LedgerOp::Create(kind, pos, indicator),
            ),
    {
        let ghost s0 = self.entries@;
        if self.contains(pos) {
            return Err(DesignateError::AlreadyDesignated);
        }
        let tile = match map.get(pos) {
            Some(t) => t,
            None => {
                return Err(DesignateError::OutOfBounds);
            },
        };
        if !kind.allowed_on(tile) {
            return Err(DesignateError::TerrainMismatch);
        }
        let price = kind.price();
        match currency.try_sub(&price) {
            Ok(_) => {},
            Err(_) => {
                return Err(DesignateError::NotEnoughCurrency);
            },
        }
        let d = Designation { kind, indicator, workers: 0 };
        self.entries.push((pos, d));
        proof {
            assert forall|i: int, j: int|
                0 <= i < j < self.entries@.len() implies (#[trigger] self.entries@[i]).0 != (
            #[trigger] self.entries@[j]).0 by {
                if j == self.entries@.len() - 1 {
                    assert(!has_key(s0, pos));
                    assert(s0[i].0 != pos);
                }
            }
            lemma_price_sum_push(s0, (pos, d));
        }
        Ok(())
    }

    /// Player-initiated removal at `pos`. Refused while workers are assigned;
    /// otherwise the entry is deleted, its price refunded, and its indicator
    /// handle handed back for despawning.
    pub fn remove(&mut self, currency: &mut Currency, pos: TilePos) -> (r: Result<
        u64,
        DesignateError,
    >)
        requires
            old(self).wf(),
            spec_get(old(self).entries@, pos) matches Some(d) ==> {
                &&& old(currency).metal + d.kind.spec_price().metal <= u32::MAX
                &&& old(currency).crystal + d.kind.spec_price().crystal <= u32::MAX
                &&& old(currency).stone + d.kind.spec_price().stone <= u32::MAX
            },
        ensures
            final(self).wf(),
            r is Ok <==> (spec_get(old(self).entries@, pos) matches Some(d) && d.workers == 0),
            r matches Ok(ind) ==> {
                &&& spec_get(old(self).entries@, pos) matches Some(d) && ind == d.indicator
                    && final(self).entries@ == old(self).entries@.remove(
                    key_index(old(self).entries@, pos),
                ) && *final(currency) == (Currency {
                    metal: (old(currency).metal + d.kind.spec_price().metal) as u32,
                    crystal: (old(currency).crystal + d.kind.spec_price().crystal) as u32,
                    stone: (old(currency).stone + d.kind.spec_price().stone) as u32,
                })
            },
            r matches Err(e) ==> {
                &&& final(self).entries@ == old(self).entries@
                &&& *final(currency) == *old(currency)
                &&& (e is NoDesignation <==> !has_key(old(self).entries@, pos))
                &&& (e is WorkersAssigned <==> (spec_get(old(self).entries@, pos) matches Some(d)
                    && d.workers > 0))
            },
            wealth(*final(currency), final(self).entries@) == wealth(
                *old(currency),
                old(self).entries@,
            ),
            forall|m: Tilemap|
                #[trigger] apply_op(
                    m,
                    model_of(*old(self), *old(currency)),
                    LedgerOp::Remove(pos),
                ) == model_of(*final(self), *final(currency)),
    {
        let ghost s0 = self.entries@;
        match self.index_of(pos) {
            Some(i) => {
                proof {
                    Self::lemma_found_index(s0, pos, i as int);
                }
                let e = self.entries[i];
                if e.1.workers != 0 {
                    return Err(DesignateError::WorkersAssigned);
                }
                let removed = self.entries.remove(i);
                let price = removed.1.kind.price();
                currency.add(&price);
                proof {
                    lemma_price_sum_remove(s0, i as int);
                    assert forall|a: int, b: int|
                        0 <= a < b < self.entries@.len() implies (#[trigger] self.entries@[a]).0
                        != (#[trigger] self.entries@[b]).0 by {
                        s0.remove_ensures(i as int);
                        let a0: int = if a < i { a } else { a + 1 };
                        let b0: int = if b < i { b } else { b + 1 };
                        assert(self.entries@[a] == s0[a0]);
                        assert(self.entries@[b] == s0[b0]);
                    }
                    assert forall|a: int|
                        0 <= a < self.entries@.len() implies (#[trigger] self.entries@[a]).1.workers
                        <= MAX_WORKERS_PER_DESIGNATION by {
                        s0.remove_ensures(i as int);
                        let a0: int = if a < i { a } else { a + 1 };
                        assert(self.entries@[a] == s0[a0]);
                    }
                }
                Ok(removed.1.indicator)
            },
            None => Err(DesignateError::NoDesignation),
        }
    }

    /// Completion-triggered deletion at `pos`: the work is done, the entry
    /// goes regardless of assigned workers, and nothing is refunded. Hands
    /// back the indicator handle if an entry was there.
    pub fn complete(&mut self, pos: TilePos) -> (r: Option<u64>)
        requires
            old(self).wf(),
        ensures
            final(self).wf(),
            r is Some <==> has_key(old(self).entries@, pos),
            r matches Some(ind) ==> {
                &&& spec_get(old(self).entries@, pos) matches Some(d) && ind == d.indicator
                &&& final(self).entries@ == old(self).entries@.remove(
                    key_index(old(self).entries@, pos),
                )
            },
            r is None ==> final(self).entries@ == old(self).entries@,
            !has_key(final(self).entries@, pos),
    {
        let ghost s0 = self.entries@;
        match self.index_of(pos) {
            Some(i) => {
                proof {
                    Self::lemma_found_index(s0, pos, i as int);
                }
                let removed = self.entries.remove(i);
                proof {
                    lemma_wf_after_remove(s0, i as int, self.entries@);
                    assert forall|a: int| 0 <= a < self.entries@.len() implies (
                    #[trigger] self.entries@[a]).0 != pos by {
                        s0.remove_ensures(i as int);
                        let a0: int = if a < i { a } else { a + 1 };
                        assert(self.entries@[a] == s0[a0]);
                        if a0 != i {
                            if a0 < i {
                                assert(s0[a0].0 != s0[i as int].0);
                            } else {
                                assert(s0[i as int].0 != s0[a0].0);
                            }
                        }
                    }
                }
                Some(removed.1.indicator)
            },
            None => None,
        }
    }

    /// Record one more assigned worker at `pos`; refused (changing nothing)
    /// when no entry is there or the cap is already reached.
    pub fn increment_workers(&mut self, pos: TilePos) -> (r: bool)
        requires
            old(self).wf(),
        ensures
            final(self).wf(),
            r <==> (spec_get(old(self).entries@, pos) matches Some(d) && d.workers
                < MAX_WORKERS_PER_DESIGNATION),
            r ==> (spec_get(old(self).entries@, pos) matches Some(d) && final(self).entries@ == old(
                self,
            ).entries@.update(
                key_index(old(self).entries@, pos),
                (pos, Designation { kind: d.kind, indicator: d.indicator, workers: (d.workers + 1) as u32 }),
            )),
            !r ==> final(self).entries@ == old(self).entries@,
            price_sum(final(self).entries@) == price_sum(old(self).entries@),
    {
        let ghost s0 = self.entries@;
        match self.index_of(pos) {
            Some(i) => {
                proof {
                    Self::lemma_found_index(s0, pos, i as int);
                }
                let e = self.entries[i];
                if e.1.workers < MAX_WORKERS_PER_DESIGNATION {
                    let d = Designation {
                        kind: e.1.kind,
                        indicator: e.1.indicator,
                        workers: e.1.workers + 1,
                    };
                    self.entries.set(i, (pos, d));
                    proof {
                        lemma_price_sum_update(s0, i as int, (pos, d));
                        assert forall|a: int, b: int|
                            0 <= a < b < self.entries@.len() implies (
                        #[trigger] self.entries@[a]).0 != (#[trigger] self.entries@[b]).0 by {
                            assert(s0[a].0 != s0[b].0);
                        }
                    }
                    true
                } else {
                    false
                }
            },
            None => false,
        }
    }
}

/// Appending an entry adds exactly its price to the ledger's price sum.
pub proof fn lemma_price_sum_push(s: Seq<(TilePos, Designation)>, e: (TilePos, Designation))
    ensures
        price_sum(s.push(e)).0 == price_sum(s).0 + e.1.kind.spec_price().metal,
        price_sum(s.push(e)).1 == price_sum(s).1 + e.1.kind.spec_price().crystal,
        price_sum(s.push(e)).2 == price_sum(s).2 + e.1.kind.spec_price().stone,
    decreases s.len(),
{
    if s.len() == 0 {
        assert(s.push(e)[0] == e);
        assert(s.push(e).drop_first() =~= Seq::<(TilePos, Designation)>::empty());
        assert(price_sum(Seq::<(TilePos, Designation)>::empty()) == (0int, 0int, 0int));
    } else {
        assert(s.push(e)[0] == s[0]);
        assert(s.push(e).drop_first() =~= s.drop_first().push(e));
        lemma_price_sum_push(s.drop_first(), e);
    }
}

/// Deleting an entry takes exactly its price out of the ledger's price sum.
pub proof fn lemma_price_sum_remove(s: Seq<(TilePos, Designation)>, i: int)
    requires
        0 <= i < s.len(),
    ensures
        price_sum(s.remove(i)).0 == price_sum(s).0 - s[i].1.kind.spec_price().metal,
        price_sum(s.remove(i)).1 == price_sum(s).1 - s[i].1.kind.spec_price().crystal,
        price_sum(s.remove(i)).2 == price_sum(s).2 - s[i].1.kind.spec_price().stone,
    decreases s.len(),
{
    if i == 0 {
        assert(s.remove(0) =~= s.drop_first());
    } else {
        assert(s.remove(i).drop_first() =~= s.drop_first().remove(i - 1));
        lemma_price_sum_remove(s.drop_first(), i - 1);
        assert(s.remove(i)[0] == s[0]);
    }
}

/// No designation ever records more workers than the cap: every operation of
/// the ledger preserves its well-formedness, of which this is one half.
pub proof fn lemma_worker_cap(l: DesignationLedger)
    requires
        l.wf(),
    ensures
        forall|i: int|
            0 <= i < l.entries@.len() ==> (#[trigger] l.entries@[i]).1.workers
                <= MAX_WORKERS_PER_DESIGNATION,
{
}

/// One player request against the ledger.
pub enum LedgerOp {
    Create(DesignationKind, TilePos, u64),
    Remove(TilePos),
}

/// The ledger and balance as one mathematical state, with unbounded counters.
pub struct LedgerModel {
    pub entries: Seq<(TilePos, Designation)>,
    pub metal: int,
    pub crystal: int,
    pub stone: int,
}

pub open spec fn model_of(l: DesignationLedger, c: Currency) -> LedgerModel {
    LedgerModel {
        entries: l.entries@,
        metal: c.metal as int,
        crystal: c.crystal as int,
        stone: c.stone as int,
    }
}

pub open spec fn model_wealth(st: LedgerModel) -> (int, int, int) {
    (
        st.metal + price_sum(st.entries).0,
        st.crystal + price_sum(st.entries).1,
        st.stone + price_sum(st.entries).2,
    )
}

/// What one request does to the state: exactly what `create` and `remove` do,
/// with every refusal leaving the state unchanged.
pub open spec fn apply_op(m: Tilemap, st: LedgerModel, op: LedgerOp) -> LedgerModel {
    match op {
        LedgerOp::Create(kind, pos, indicator) => {
            let p = kind.spec_price();
            if !has_key(st.entries, pos) && m.spec_in_bounds(pos.x as int, pos.y as int)
                && kind.spec_allowed_on(m.tile_at(pos.x as int, pos.y as int)) && st.metal
                >= p.metal && st.crystal >= p.crystal && st.stone >= p.stone {
                LedgerModel {
                    entries: st.entries.push((pos, Designation { kind, indicator, workers: 0 })),
                    metal: st.metal - p.metal,
                    crystal: st.crystal - p.crystal,
                    stone: st.stone - p.stone,
                }
            } else {
                st
            }
        },
        LedgerOp::Remove(pos) => {
            if spec_get(st.entries, pos) matches Some(d) && d.workers == 0 {
                let p = spec_get(st.entries, pos)->Some_0.kind.spec_price();
                LedgerModel {
                    entries: st.entries.remove(key_index(st.entries, pos)),
                    metal: st.metal + p.metal,
                    crystal: st.crystal + p.crystal,
                    stone: st.stone + p.stone,
                }
            } else {
                st
            }
        },
    }
}

pub open spec fn apply_ops(m: Tilemap, st: LedgerModel, ops: Seq<LedgerOp>) -> LedgerModel
    decreases ops.len(),
{
    if ops.len() == 0 {
        st
    } else {
        apply_ops(m, apply_op(m, st, ops[0]), ops.drop_first())
    }
}

/// One create or remove conserves wealth: what creation debits it records,
/// and what removal deletes it refunds.
pub proof fn lemma_op_preserves_wealth(m: Tilemap, st: LedgerModel, op: LedgerOp)
    ensures
        model_wealth(apply_op(m, st, op)) == model_wealth(st),
{
    match op {
        LedgerOp::Create(kind, pos, indicator) => {
            let p = kind.spec_price();
            if !has_key(st.entries, pos) && m.spec_in_bounds(pos.x as int, pos.y as int)
                && kind.spec_allowed_on(m.tile_at(pos.x as int, pos.y as int)) && st.metal
                >= p.metal && st.crystal >= p.crystal && st.stone >= p.stone {
                lemma_price_sum_push(
                    st.entries,
                    (pos, Designation { kind, indicator, workers: 0 }),
                );
            }
        },
        LedgerOp::Remove(pos) => {
            if spec_get(st.entries, pos) matches Some(d) && d.workers == 0 {
                lemma_price_sum_remove(st.entries, key_index(st.entries, pos));
            }
        },
    }
}

/// Over any sequence of create and remove requests, successful or refused,
/// the balance plus the prices recorded in the ledger never changes.
pub proof fn lemma_wealth_conserved(m: Tilemap, st: LedgerModel, ops: Seq<LedgerOp>)
    ensures
        model_wealth(apply_ops(m, st, ops)) == model_wealth(st),
    decreases ops.len(),
{
    if ops.len() > 0 {
        lemma_op_preserves_wealth(m, st, ops[0]);
        lemma_wealth_conserved(m, apply_op(m, st, ops[0]), ops.drop_first());
    }
}

/// Overwriting an entry with one of the same kind keeps the price sum.
pub proof fn lemma_price_sum_update(s: Seq<(TilePos, Designation)>, i: int, e: (TilePos, Designation))
    requires
        0 <= i < s.len(),
        e.1.kind == s[i].1.kind,
    ensures
        price_sum(s.update(i, e)) == price_sum(s),
    decreases s.len(),
{
    if i == 0 {
        assert(s.update(0, e).drop_first() =~= s.drop_first());
    } else {
        assert(s.update(i, e).drop_first() =~= s.drop_first().update(i - 1, e));
        lemma_price_sum_update(s.drop_first(), i - 1, e);
        assert(s.update(i, e)[0] == s[0]);
    }
}

/// Uniqueness of keys survives deleting an entry.
proof fn lemma_wf_after_remove(s: Seq<(TilePos, Designation)>, i: int, out: Seq<(TilePos, Designation)>)
    requires
        0 <= i < s.len(),
        out == s.remove(i),
        forall|a: int, b: int| 0 <= a < b < s.len() ==> (#[trigger] s[a]).0 != (#[trigger] s[b]).0,
        forall|a: int| 0 <= a < s.len() ==> (#[trigger] s[a]).1.workers <= MAX_WORKERS_PER_DESIGNATION,
    ensures
        forall|a: int, b: int|
            0 <= a < b < out.len() ==> (#[trigger] out[a]).0 != (#[trigger] out[b]).0,
        forall|a: int| 0 <= a < out.len() ==> (#[trigger] out[a]).1.workers <= MAX_WORKERS_PER_DESIGNATION,
{
    s.remove_ensures(i);
    assert forall|a: int, b: int|
        0 <= a < b < out.len() implies (#[trigger] out[a]).0 != (#[trigger] out[b]).0 by {
        let a0: int = if a < i { a } else { a + 1 };
        let b0: int = if b < i { b } else { b + 1 };
        assert(out[a] == s[a0]);
        assert(out[b] == s[b0]);
    }
    assert forall|a: int| 0 <= a < out.len() implies (#[trigger] out[a]).1.workers
        <= MAX_WORKERS_PER_DESIGNATION by {
        let a0: int = if a < i { a } else { a + 1 };
        assert(out[a] == s[a0]);
    }
}

} // verus!
