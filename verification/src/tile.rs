//! Tile vocabulary and its two fixed classifications.
//!
//! Every tile kind has a solidity (does it block movement?) and a
//! transparency (does it let sight through?). Both are total over the
//! vocabulary: no variant is left unclassified.

use vstd::prelude::*;

verus! {

/// One cell of the dungeon grid.
#[derive(PartialEq, Eq, Structural, Copy, Clone, Debug)]
pub enum TileType {
    Wall,
    DamagedWall,
    WeakWall,
    Floor,
    Exit,
    Potion,
    Coin,
    BearTrap,
    BearTrapActived,
    BloodStain,
    Door,
    Chest,
}

/// Display colors are plain red/green/blue triples; the renderer maps them
/// to whatever the terminal supports.
pub type Rgb = (u8, u8, u8);

/// Whether a tile blocks movement (and pathing).
pub open spec fn spec_tile_solid(t: TileType) -> bool {
    match t {
        TileType::Wall => true,
        TileType::DamagedWall => true,
        TileType::WeakWall => true,
        TileType::Door => true,
        _ => false,
    }
}

/// Whether a tile lets sight through.
pub open spec fn spec_tile_transparent(t: TileType) -> bool {
    match t {
        TileType::Floor => true,
        TileType::BearTrap => true,
        TileType::BearTrapActived => true,
        TileType::BloodStain => true,
        TileType::Potion => true,
        TileType::Exit => true,
        TileType::Coin => true,
        TileType::Chest => true,
        _ => false,
    }
}

/// Solidity of a tile: walls of all three strengths and closed doors block
/// movement; everything else is walkable.
pub fn tile_is_solid(t: TileType) -> (b: bool)
    ensures
        b == spec_tile_solid(t),
{
    matches!(t, TileType::Wall | TileType::DamagedWall | TileType::WeakWall | TileType::Door)
}

/// Transparency of a tile: every walkable tile can be seen through; the
/// walls and doors are opaque.
pub fn tile_is_transparent(t: TileType) -> (b: bool)
    ensures
        b == spec_tile_transparent(t),
{
    !matches!(t, TileType::Wall | TileType::DamagedWall | TileType::WeakWall | TileType::Door)
}

/// Classification totality: every tile kind has a definite solidity and a
/// definite transparency, and on this vocabulary the two are exact
/// complements (a tile blocks sight exactly when it blocks movement).
pub proof fn lemma_tile_classification_total()
    ensures
        forall|t: TileType| #[trigger] spec_tile_transparent(t) == !spec_tile_solid(t),
        spec_tile_solid(TileType::Wall),
        spec_tile_solid(TileType::DamagedWall),
        spec_tile_solid(TileType::WeakWall),
        spec_tile_solid(TileType::Door),
        !spec_tile_solid(TileType::Floor),
        !spec_tile_solid(TileType::Exit),
        !spec_tile_solid(TileType::Potion),
        !spec_tile_solid(TileType::Coin),
        !spec_tile_solid(TileType::BearTrap),
        !spec_tile_solid(TileType::BearTrapActived),
        !spec_tile_solid(TileType::BloodStain),
        !spec_tile_solid(TileType::Chest),
{
}

/// Component-wise color equality.
pub fn rgb_eq(a: Rgb, b: Rgb) -> (r: bool)
    ensures
        r == (a == b),
{
    a.0 == b.0 && a.1 == b.1 && a.2 == b.2
}

// Named display colors (the classic terminal palette values).
pub const GRAY: Rgb = (190, 190, 190);
pub const WHITE: Rgb = (255, 255, 255);
pub const WHITESMOKE: Rgb = (245, 245, 245);
pub const RED: Rgb = (255, 0, 0);
pub const SANDY_BROWN: Rgb = (244, 164, 96);
pub const ROSY_BROWN: Rgb = (188, 143, 143);
pub const BRIGHT_GRAY: Rgb = (255, 255, 255);
pub const YELLOWGREEN: Rgb = (154, 205, 50);
pub const YELLOW3: Rgb = (205, 205, 0);
pub const GREEN3: Rgb = (0, 205, 0);
pub const PINK: Rgb = (255, 192, 203);
pub const ORANGE_RED: Rgb = (255, 69, 0);
pub const TOMATO: Rgb = (255, 99, 71);
pub const LIGHT_BLUE: Rgb = (173, 216, 230);
pub const ALICE_BLUE: Rgb = (240, 248, 255);
pub const CYAN: Rgb = (0, 255, 255);
pub const HOT_PINK: Rgb = (255, 105, 180);
pub const GOLD: Rgb = (255, 215, 0);

} // verus!
