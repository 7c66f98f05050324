use vstd::prelude::*;

use crate::gridmap::Tilemap;
use crate::tiles::{TileKind, TilePos};

verus! {

#[derive(Clone, Copy, PartialEq, Eq, Structural, Debug)]
pub enum EnemyKind {
    Skeleton,
    SkeletonTwo,
    SkeletonThree,
    SkeletonFour,
    Ent,
    EntTwo,
    EntThree,
    EntFour,
}

#[derive(Clone, Copy, PartialEq, Eq, Structural, Debug)]
pub enum CritterKind {
    Llama,
    Snake,
    Whale,
}

/// Which traversal-cost profile an actor moves under.
#[derive(Clone, Copy, PartialEq, Eq, Structural, Debug)]
pub enum ActorKind {
    Enemy(EnemyKind),
    Worker,
    Critter(CritterKind),
}

impl EnemyKind {
    /// The tree-like enemy variants, which may also cross forest.
    pub open spec fn spec_forest_capable(self) -> bool {
        matches!(self, EnemyKind::Ent | EnemyKind::EntTwo | EnemyKind::EntThree | EnemyKind::EntFour)
    }

    pub fn forest_capable(&self) -> (r: bool)
        ensures
            r == self.spec_forest_capable(),
    {
        matches!(self, EnemyKind::Ent | EnemyKind::EntTwo | EnemyKind::EntThree | EnemyKind::EntFour)
    }
}

impl TileKind {
    /// The prepared-lane tiles that are cheap for ground enemies.
    pub open spec fn spec_enemy_lane(self) -> bool {
        matches!(
            self,
            TileKind::Road
                | TileKind::Bridge
                | TileKind::Spawn
                | TileKind::DirtPathNSA
                | TileKind::DirtPathNSB
                | TileKind::DirtPathEWA
                | TileKind::DirtPathEWB
                | TileKind::DirtPathSW
                | TileKind::DirtPathNW
                | TileKind::DirtPathSE
                | TileKind::DirtPathNE
                | TileKind::DirtPathNSW
                | TileKind::DirtPathSEW
                | TileKind::DirtPathNSE
                | TileKind::DirtPathNEW
                | TileKind::DirtPathNSEW
        )
    }

    /// The dirt-path tiles that are a worker's natural medium besides dirt
    /// and tunnels.
    pub open spec fn spec_dirt_path(self) -> bool {
        matches!(
            self,
            TileKind::DirtPathNSA
                | TileKind::DirtPathNSB
                | TileKind::DirtPathEWA
                | TileKind::DirtPathEWB
                | TileKind::DirtPathSW
                | TileKind::DirtPathNW
                | TileKind::DirtPathSE
                | TileKind::DirtPathNE
                | TileKind::DirtPathNSW
                | TileKind::DirtPathSEW
                | TileKind::DirtPathNSE
                | TileKind::DirtPathNEW
                | TileKind::DirtPathNSEW
        )
    }
}

/// The pure cost model: what one actor pays to enter one tile, or None where
/// the tile is impassable to it. Every finite cost is 1 or 5, so the minimum
/// step cost is 1.
pub open spec fn spec_cost(kind: TileKind, actor: ActorKind) -> Option<u32> {
    match actor {
        ActorKind::Enemy(enemy) => {
            if kind is Dirt {
                Some(5u32)
            } else if kind is Forest && enemy.spec_forest_capable() {
                Some(1u32)
            } else if kind.spec_enemy_lane() {
                Some(1u32)
            } else {
                None
            }
        },
        ActorKind::Worker => {
            if kind is Dirt || kind is StoneTunnel || kind.spec_dirt_path() {
                Some(1u32)
            } else if matches!(
                kind,
                TileKind::Road
                    | TileKind::Bridge
                    | TileKind::Home
                    | TileKind::HomeTwo
                    | TileKind::HomeDead
                    | TileKind::Tower
            ) {
                Some(5u32)
            } else {
                None
            }
        },
        ActorKind::Critter(critter) => {
            match critter {
                CritterKind::Snake => {
                    if matches!(kind, TileKind::Forest | TileKind::GrassA | TileKind::GrassB) {
                        Some(1u32)
                    } else {
                        None
                    }
                },
                CritterKind::Whale => if kind is River {
                    Some(1u32)
                } else {
                    None
                },
                CritterKind::Llama => {
                    if matches!(kind, TileKind::GrassA | TileKind::GrassB) {
                        Some(1u32)
                    } else {
                        None
                    }
                },
            }
        },
    }
}

/// What `actor` pays to enter a tile of kind `kind`; None where impassable.
pub fn cost(kind: TileKind, actor: ActorKind) -> (r: Option<u32>)
    ensures
        r == spec_cost(kind, actor),
{
    match actor {
        ActorKind::Enemy(enemy) => {
            if matches!(kind, TileKind::Dirt) {
                Some(5)
            } else if matches!(kind, TileKind::Forest) && enemy.forest_capable() {
                Some(1)
            } else if matches!(
                kind,
                TileKind::Road
                    | TileKind::Bridge
                    | TileKind::Spawn
                    | TileKind::DirtPathNSA
                    | TileKind::DirtPathNSB
                    | TileKind::DirtPathEWA
                    | TileKind::DirtPathEWB
                    | TileKind::DirtPathSW
                    | TileKind::DirtPathNW
                    | TileKind::DirtPathSE
                    | TileKind::DirtPathNE
                    | TileKind::DirtPathNSW
                    | TileKind::DirtPathSEW
                    | TileKind::DirtPathNSE
                    | TileKind::DirtPathNEW
                    | TileKind::DirtPathNSEW
            ) {
                Some(1)
            } else {
                None
            }
        },
        ActorKind::Worker => {
            if matches!(
                kind,
                TileKind::Dirt
                    | TileKind::StoneTunnel
                    | TileKind::DirtPathNSA
                    | TileKind::DirtPathNSB
                    | TileKind::DirtPathEWA
                    | TileKind::DirtPathEWB
                    | TileKind::DirtPathSW
                    | TileKind::DirtPathNW
                    | TileKind::DirtPathSE
                    | TileKind::DirtPathNE
                    | TileKind::DirtPathNSW
                    | TileKind::DirtPathSEW
                    | TileKind::DirtPathNSE
                    | TileKind::DirtPathNEW
                    | TileKind::DirtPathNSEW
            ) {
                Some(1)
            } else if matches!(
                kind,
                TileKind::Road
                    | TileKind::Bridge
                    | TileKind::Home
                    | TileKind::HomeTwo
                    | TileKind::HomeDead
                    | TileKind::Tower
            ) {
                Some(5)
            } else {
                None
            }
        },
        ActorKind::Critter(critter) => {
            match critter {
                CritterKind::Snake => {
                    if matches!(kind, TileKind::Forest | TileKind::GrassA | TileKind::GrassB) {
                        Some(1)
                    } else {
                        None
                    }
                },
                CritterKind::Whale => {
                    if matches!(kind, TileKind::River) {
                        Some(1)
                    } else {
                        None
                    }
                },
                CritterKind::Llama => {
                    if matches!(kind, TileKind::GrassA | TileKind::GrassB) {
                        Some(1)
                    } else {
                        None
                    }
                },
            }
        },
    }
}

/// The cost model over a map position: impassable outside the map.
pub open spec fn spec_tile_cost(m: Tilemap, actor: ActorKind, x: int, y: int) -> Option<u32> {
    if m.spec_in_bounds(x, y) {
        spec_cost(m.tile_at(x, y), actor)
    } else {
        None
    }
}

/// What `actor` pays to enter the cell at `pos`; None outside the map or
/// where the terrain is impassable to it.
pub fn tile_cost(m: &Tilemap, actor: ActorKind, pos: TilePos) -> (r: Option<u32>)
    requires
        m.wf(),
    ensures
        r == spec_tile_cost(*m, actor, pos.x as int, pos.y as int),
{
    match m.get(pos) {
        Some(kind) => cost(kind, actor),
        None => None,
    }
}

/// Every finite cost of the model is at least 1: the fact that makes the
/// Manhattan heuristic admissible.
pub proof fn lemma_cost_at_least_one(kind: TileKind, actor: ActorKind)
    ensures
        spec_cost(kind, actor) matches Some(c) ==> 1 <= c <= 5,
{
}

} // verus!
