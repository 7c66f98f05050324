use vstd::prelude::*;

use crate::gridmap::{Tilemap, MAX_DIM};
use crate::hit_points::HitPoints;
use crate::tiles::{TileKind, TilePos};

verus! {

/// The hit points a freshly loaded tile starts with: plain stone takes a few
/// hits, hidden ore takes many, homes can absorb a siege; everything else
/// carries none.
pub open spec fn spec_initial_hp(kind: TileKind) -> Option<HitPoints> {
    if kind is Stone {
        Some(HitPoints { current: 8, max: 8 })
    } else if kind is CrystalHidden || kind is MetalHidden {
        Some(HitPoints { current: 40, max: 40 })
    } else if kind is Home || kind is HomeTwo {
        Some(HitPoints { current: 30, max: 30 })
    } else {
        None
    }
}

pub fn initial_hp(kind: TileKind) -> (r: Option<HitPoints>)
    ensures
        r == spec_initial_hp(kind),
{
    match kind {
        TileKind::Stone => Some(HitPoints::full(8)),
        TileKind::CrystalHidden | TileKind::MetalHidden => Some(HitPoints::full(40)),
        TileKind::Home | TileKind::HomeTwo => Some(HitPoints::full(30)),
        _ => None,
    }
}

/// A row-major cell index stays inside the grid.
pub proof fn lemma_rc_bound(x: int, y: int, cols: int, rows: int)
    by (nonlinear_arith)
    requires
        0 <= x < cols,
        0 <= y < rows,
        cols <= MAX_DIM,
        rows <= MAX_DIM,
    ensures
        0 <= y * cols + x < rows * cols,
        y * cols + x < 0x1000000,
{
}

/// Distinct cells have distinct row-major indices.
pub proof fn lemma_rc_injective(x1: int, y1: int, x2: int, y2: int, cols: int)
    by (nonlinear_arith)
    requires
        0 <= x1 < cols,
        0 <= x2 < cols,
        0 <= y1,
        0 <= y2,
        y1 * cols + x1 == y2 * cols + x2,
    ensures
        x1 == x2,
        y1 == y2,
{
}

/// The per-cell mutable state parallel to the terrain grid: the hit points
/// left in each diggable or attackable tile, stored row-major.
pub struct TileHealth {
    pub hp: Vec<Option<HitPoints>>,
    pub rows: usize,
    pub cols: usize,
}

impl TileHealth {
    pub open spec fn wf(self) -> bool {
        &&& self.hp@.len() == self.rows * self.cols
        &&& 1 <= self.rows <= MAX_DIM
        &&& 1 <= self.cols <= MAX_DIM
    }

    pub open spec fn spec_in_bounds(self, x: int, y: int) -> bool {
        0 <= x < self.cols && 0 <= y < self.rows
    }

    /// The hit points recorded for the cell at column `x`, row `y`.
    pub open spec fn hp_at(self, x: int, y: int) -> Option<HitPoints> {
        self.hp@[y * self.cols + x]
    }

    /// Matches a map: same size, and every cell carries the hit points its
    /// terrain starts with.
    pub open spec fn matches_initial(self, m: Tilemap) -> bool {
        &&& self.rows == m.spec_rows()
        &&& self.cols == m.spec_cols()
        &&& forall|x: int, y: int|
            m.spec_in_bounds(x, y) ==> #[trigger] self.hp_at(x, y) == spec_initial_hp(
                m.tile_at(x, y),
            )
    }

    /// Walk a freshly loaded map and record each tile's starting hit points.
    pub fn from_map(m: &Tilemap) -> (r: TileHealth)
        requires
            m.wf(),
        ensures
            r.wf(),
            r.matches_initial(*m),
    {
        let rows = m.rows();
        let cols = m.cols();
        let mut hp: Vec<Option<HitPoints>> = Vec::new();
        let mut y: usize = 0;
        while y < rows
            invariant
                m.wf(),
                rows == m.spec_rows(),
                cols == m.spec_cols(),
                y <= rows,
                hp@.len() == y * cols,
                forall|xx: int, yy: int|
                    0 <= xx < cols && 0 <= yy < y ==> hp@[yy * cols + xx]
                        == spec_initial_hp(#[trigger] m.tile_at(xx, yy)),
            decreases rows - y,
        {
            let mut x: usize = 0;
            proof {
                lemma_rc_bound(0, y as int, cols as int, rows as int);
            }
            while x < cols
                invariant
                    m.wf(),
                    rows == m.spec_rows(),
                    cols == m.spec_cols(),
                    y < rows,
                    x <= cols,
                    hp@.len() == y * cols + x,
                    forall|xx: int, yy: int|
                        0 <= xx < cols && 0 <= yy < y ==> hp@[yy * cols + xx]
                            == spec_initial_hp(#[trigger] m.tile_at(xx, yy)),
                    forall|xx: int|
                        0 <= xx < x ==> hp@[y * cols + xx] == spec_initial_hp(
                            #[trigger] m.tile_at(xx, y as int),
                        ),
                decreases cols - x,
        {
                let kind = match m.get(TilePos { x, y }) {
                    Some(k) => k,
                    None => TileKind::Empty,
                };
                hp.push(initial_hp(kind));
                proof {
                    assert forall|xx: int, yy: int|
                        0 <= xx < cols && 0 <= yy < y implies hp@[yy * cols + xx]
                        == spec_initial_hp(#[trigger] m.tile_at(xx, yy)) by {
                        lemma_rc_bound(xx, yy, cols as int, y as int);
                        assert(yy * cols + xx < y * cols) by (nonlinear_arith)
                            requires
                                0 <= xx < cols,
                                0 <= yy,
                                yy < y,
                        ;
                    }
                }
                x = x + 1;
            }
            proof {
                assert(y * cols + cols == (y + 1) * cols) by (nonlinear_arith);
            }
            y = y + 1;
        }
        proof {
            assert forall|x: int, yy: int|
                0 <= x < cols && 0 <= yy < rows implies hp@[yy * cols + x] == spec_initial_hp(
                #[trigger] m.tile_at(x, yy),
            ) by {
            }
        }
        TileHealth { hp, rows, cols }
    }

    pub fn in_bounds(&self, pos: TilePos) -> (r: bool)
        ensures
            r == self.spec_in_bounds(pos.x as int, pos.y as int),
    {
        pos.x < self.cols && pos.y < self.rows
    }

    /// The hit points of the cell at `pos`; None outside the grid or where
    /// the tile carries none.
    pub fn get(&self, pos: TilePos) -> (r: Option<HitPoints>)
        requires
            self.wf(),
        ensures
            r == if self.spec_in_bounds(pos.x as int, pos.y as int) {
                self.hp_at(pos.x as int, pos.y as int)
            } else {
                None::<HitPoints>
            },
    {
        if pos.x < self.cols && pos.y < self.rows {
            proof {
                lemma_rc_bound(pos.x as int, pos.y as int, self.cols as int, self.rows as int);
            }
            let i = pos.y * self.cols + pos.x;
            self.hp[i]
        } else {
            None
        }
    }

    /// Overwrite the hit points of one in-bounds cell; every other cell keeps
    /// its value.
    pub fn set(&mut self, pos: TilePos, v: Option<HitPoints>)
        requires
            old(self).wf(),
            old(self).spec_in_bounds(pos.x as int, pos.y as int),
        ensures
            final(self).wf(),
            final(self).rows == old(self).rows,
            final(self).cols == old(self).cols,
            final(self).hp_at(pos.x as int, pos.y as int) == v,
            forall|x: int, y: int|
                final(self).spec_in_bounds(x, y) && !(x == pos.x as int && y == pos.y as int)
                    ==> #[trigger] final(self).hp_at(x, y) == old(self).hp_at(x, y),
    {
        proof {
            lemma_rc_bound(pos.x as int, pos.y as int, self.cols as int, self.rows as int);
        }
        let i = pos.y * self.cols + pos.x;
        self.hp.set(i, v);
        proof {
            assert forall|x: int, y: int|
                self.spec_in_bounds(x, y) && !(x == pos.x as int && y == pos.y as int)
                    implies #[trigger] self.hp_at(x, y) == old(self).hp_at(x, y) by {
                lemma_rc_bound(x, y, self.cols as int, self.rows as int);
                if y * self.cols + x == pos.y as int * self.cols + pos.x as int {
                    lemma_rc_injective(
                        x,
                        y,
                        pos.x as int,
                        pos.y as int,
                        self.cols as int,
                    );
                }
            }
        }
    }
}

} // verus!
