use vstd::prelude::*;

verus! {

/// Terrain, resource and structure classification of one grid cell.
#[derive(Clone, Copy, PartialEq, Eq, Structural, Debug)]
pub enum TileKind {
    Empty,
    Stone,
    StoneTunnel,
    StoneHurt,
    StoneDying,
    CrystalHidden,
    CrystalHurt,
    CrystalDying,
    Crystal,
    MetalHidden,
    MetalHurt,
    MetalDying,
    Metal,
    Wall,
    Mountain,
    Peak,
    Volcano,
    River,
    Forest,
    GrassA,
    GrassB,
    Home,
    HomeTwo,
    Dirt,
    Bridge,
    Road,
    Spawn,
    Tower,
    TowerBlueprint,
    White,
    WhitePickaxe,
    WhiteCircleNo,
    DirtPathNSA,
    DirtPathNSB,
    DirtPathEWA,
    DirtPathEWB,
    DirtPathSW,
    DirtPathNW,
    DirtPathSE,
    DirtPathNE,
    DirtPathNSW,
    DirtPathSEW,
    DirtPathNSE,
    DirtPathNEW,
    DirtPathNSEW,
    Stump,
    HomeDead,
    BonesA,
    BonesB,
    BonesC,
    BonesD,
}

/// Integer coordinate of one grid cell; `x` counts columns, `y` counts rows.
#[derive(Clone, Copy, PartialEq, Eq, Structural, Hash, Debug)]
pub struct TilePos {
    pub x: usize,
    pub y: usize,
}

impl TileKind {
    /// A cell a worker may be sent to dig out.
    pub open spec fn spec_diggable(self) -> bool {
        matches!(
            self,
            TileKind::Stone
                | TileKind::StoneDying
                | TileKind::StoneHurt
                | TileKind::Crystal
                | TileKind::CrystalHidden
                | TileKind::CrystalHurt
                | TileKind::CrystalDying
                | TileKind::Metal
                | TileKind::MetalHidden
                | TileKind::MetalHurt
                | TileKind::MetalDying
        )
    }

    pub fn diggable(&self) -> (r: bool)
        ensures
            r == self.spec_diggable(),
    {
        matches!(
            self,
            TileKind::Stone
                | TileKind::StoneDying
                | TileKind::StoneHurt
                | TileKind::Crystal
                | TileKind::CrystalHidden
                | TileKind::CrystalHurt
                | TileKind::CrystalDying
                | TileKind::Metal
                | TileKind::MetalHidden
                | TileKind::MetalHurt
                | TileKind::MetalDying
        )
    }

    /// A cell a structure may be raised on.
    pub open spec fn spec_buildable(self) -> bool {
        self is Dirt
    }

    pub fn buildable(&self) -> (r: bool)
        ensures
            r == self.spec_buildable(),
    {
        matches!(self, TileKind::Dirt)
    }

    /// The fixed colour key used by terrain maps: which tile a map pixel denotes.
    pub open spec fn spec_from_color(r: u8, g: u8, b: u8) -> Option<TileKind> {
        match (r, g, b) {
            (0u8, 0u8, 0u8) => Some(TileKind::Empty),
            (10u8, 10u8, 10u8) => Some(TileKind::Dirt),
            (255u8, 255u8, 255u8) => Some(TileKind::Stone),
            (235u8, 235u8, 235u8) => Some(TileKind::CrystalHidden),
            (225u8, 225u8, 225u8) => Some(TileKind::MetalHidden),
            (200u8, 0u8, 0u8) => Some(TileKind::Mountain),
            (255u8, 0u8, 0u8) => Some(TileKind::Peak),
            (150u8, 0u8, 0u8) => Some(TileKind::Volcano),
            (0u8, 255u8, 0u8) => Some(TileKind::Forest),
            (0u8, 200u8, 0u8) => Some(TileKind::GrassA),
            (0u8, 180u8, 0u8) => Some(TileKind::GrassB),
            (0u8, 0u8, 255u8) => Some(TileKind::River),
            (255u8, 0u8, 255u8) => Some(TileKind::StoneTunnel),
            (255u8, 155u8, 0u8) => Some(TileKind::Home),
            (255u8, 156u8, 0u8) => Some(TileKind::HomeTwo),
            (255u8, 255u8, 0u8) => Some(TileKind::Bridge),
            (255u8, 200u8, 0u8) => Some(TileKind::Road),
            (0u8, 255u8, 255u8) => Some(TileKind::Spawn),
            (255u8, 180u8, 0u8) => Some(TileKind::DirtPathNSA),
            (255u8, 180u8, 10u8) => Some(TileKind::DirtPathNSB),
            (255u8, 180u8, 20u8) => Some(TileKind::DirtPathEWA),
            (255u8, 180u8, 30u8) => Some(TileKind::DirtPathEWB),
            (255u8, 180u8, 40u8) => Some(TileKind::DirtPathSW),
            (255u8, 180u8, 50u8) => Some(TileKind::DirtPathNW),
            (255u8, 180u8, 60u8) => Some(TileKind::DirtPathSE),
            (255u8, 180u8, 70u8) => Some(TileKind::DirtPathNE),
            (255u8, 180u8, 80u8) => Some(TileKind::DirtPathNSW),
            (255u8, 180u8, 90u8) => Some(TileKind::DirtPathSEW),
            (255u8, 180u8, 100u8) => Some(TileKind::DirtPathNSE),
            (255u8, 180u8, 110u8) => Some(TileKind::DirtPathNEW),
            (255u8, 180u8, 120u8) => Some(TileKind::DirtPathNSEW),
            (100u8, 100u8, 50u8) => Some(TileKind::Stump),
            (255u8, 100u8, 0u8) => Some(TileKind::BonesA),
            (255u8, 110u8, 0u8) => Some(TileKind::BonesB),
            (255u8, 120u8, 0u8) => Some(TileKind::BonesC),
            (255u8, 130u8, 0u8) => Some(TileKind::BonesD),
            _ => None,
        }
    }

    /// Decode one terrain-map pixel; colours outside the key are not mapped.
    pub fn try_from_rgb(r: u8, g: u8, b: u8) -> (kind: Option<TileKind>)
        ensures
            kind == TileKind::spec_from_color(r, g, b),
    {
        match (r, g, b) {
            (0u8, 0u8, 0u8) => Some(TileKind::Empty),
            (10u8, 10u8, 10u8) => Some(TileKind::Dirt),
            (255u8, 255u8, 255u8) => Some(TileKind::Stone),
            (235u8, 235u8, 235u8) => Some(TileKind::CrystalHidden),
            (225u8, 225u8, 225u8) => Some(TileKind::MetalHidden),
            (200u8, 0u8, 0u8) => Some(TileKind::Mountain),
            (255u8, 0u8, 0u8) => Some(TileKind::Peak),
            (150u8, 0u8, 0u8) => Some(TileKind::Volcano),
            (0u8, 255u8, 0u8) => Some(TileKind::Forest),
            (0u8, 200u8, 0u8) => Some(TileKind::GrassA),
            (0u8, 180u8, 0u8) => Some(TileKind::GrassB),
            (0u8, 0u8, 255u8) => Some(TileKind::River),
            (255u8, 0u8, 255u8) => Some(TileKind::StoneTunnel),
            (255u8, 155u8, 0u8) => Some(TileKind::Home),
            (255u8, 156u8, 0u8) => Some(TileKind::HomeTwo),
            (255u8, 255u8, 0u8) => Some(TileKind::Bridge),
            (255u8, 200u8, 0u8) => Some(TileKind::Road),
            (0u8, 255u8, 255u8) => Some(TileKind::Spawn),
            (255u8, 180u8, 0u8) => Some(TileKind::DirtPathNSA),
            (255u8, 180u8, 10u8) => Some(TileKind::DirtPathNSB),
            (255u8, 180u8, 20u8) => Some(TileKind::DirtPathEWA),
            (255u8, 180u8, 30u8) => Some(TileKind::DirtPathEWB),
            (255u8, 180u8, 40u8) => Some(TileKind::DirtPathSW),
            (255u8, 180u8, 50u8) => Some(TileKind::DirtPathNW),
            (255u8, 180u8, 60u8) => Some(TileKind::DirtPathSE),
            (255u8, 180u8, 70u8) => Some(TileKind::DirtPathNE),
            (255u8, 180u8, 80u8) => Some(TileKind::DirtPathNSW),
            (255u8, 180u8, 90u8) => Some(TileKind::DirtPathSEW),
            (255u8, 180u8, 100u8) => Some(TileKind::DirtPathNSE),
            (255u8, 180u8, 110u8) => Some(TileKind::DirtPathNEW),
            (255u8, 180u8, 120u8) => Some(TileKind::DirtPathNSEW),
            (100u8, 100u8, 50u8) => Some(TileKind::Stump),
            (255u8, 100u8, 0u8) => Some(TileKind::BonesA),
            (255u8, 110u8, 0u8) => Some(TileKind::BonesB),
            (255u8, 120u8, 0u8) => Some(TileKind::BonesC),
            (255u8, 130u8, 0u8) => Some(TileKind::BonesD),
            _ => None,
        }
    }
}

} // verus!
