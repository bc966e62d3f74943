use vstd::prelude::*;

verus! {

/// The kinds of tile a map cell can hold.
#[derive(PartialEq, Eq, Structural, Copy, Clone, Debug, Hash)]
pub enum TileType {
    Wall,
    Stalactite,
    Stalagmite,
    Floor,
    DownStairs,
    Road,
    Grass,
    ShallowWater,
    DeepWater,
    WoodFloor,
    Bridge,
    Gravel,
    UpStairs,
}

/// Tiles that an entity can stand on.
pub open spec fn spec_tile_walkable(tt: TileType) -> bool {
    match tt {
        TileType::Floor | TileType::DownStairs | TileType::Road | TileType::Grass
        | TileType::ShallowWater | TileType::WoodFloor | TileType::Bridge | TileType::Gravel
        | TileType::UpStairs => true,
        _ => false,
    }
}

/// Tiles that block line of sight.
pub open spec fn spec_tile_opaque(tt: TileType) -> bool {
    match tt {
        TileType::Wall | TileType::Stalactite | TileType::Stalagmite => true,
        _ => false,
    }
}

/// Whether an entity can stand on a tile of this kind.
pub fn tile_walkable(tt: TileType) -> (r: bool)
    ensures
        r == spec_tile_walkable(tt),
{
    match tt {
        TileType::Floor | TileType::DownStairs | TileType::Road | TileType::Grass
        | TileType::ShallowWater | TileType::WoodFloor | TileType::Bridge | TileType::Gravel
        | TileType::UpStairs => true,
        _ => false,
    }
}

/// Whether a tile of this kind blocks line of sight.
pub fn tile_opaque(tt: TileType) -> (r: bool)
    ensures
        r == spec_tile_opaque(tt),
{
    match tt {
        TileType::Wall | TileType::Stalactite | TileType::Stalagmite => true,
        _ => false,
    }
}

} // verus!
