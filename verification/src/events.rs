//! Structured outcomes of one tick.
//!
//! Every interaction of the player or a creature resolves to one of these
//! events; the event log shown on screen is their textual rendering.

use vstd::prelude::*;

use crate::entity::EntityType;
use crate::player::{Material, Size, WeaponType};
use crate::tile::Rgb;

verus! {

/// What a single resolved action reports back.
#[derive(PartialEq, Copy, Clone, Debug)]
pub enum Event {
    /// No action occurred, or it had nothing to tell.
    Nothing,
    /// The player stepped onto the exit; the caller must build the next
    /// floor.
    Descend,
    /// A creature hit the player.
    EnemyHit { attacker: EntityType, damage: i32, critical: bool },
    /// A creature's blow missed a lightly loaded player.
    Evaded { attacker: EntityType },
    /// The player struck a creature.
    PlayerHit { target: EntityType, damage: i32, critical: bool, killed: bool },
    /// A locked door gave way.
    DoorBroken,
    /// Coins picked up from the floor.
    CoinsFound { count: i32 },
    /// A pink potion drunk on the spot, permanently raising max health.
    MaxHealthBoost { gain: i32 },
    /// A potion stashed into the inventory.
    PotionTaken { color: Rgb },
    /// A pickup refused: carrying more would break the weight or count
    /// limit. Reports the player's current weight, in tenths of a
    /// kilogram.
    CannotCarry { weight: i32 },
    /// A bear trap snapped shut and wounded the player.
    TrapSprung { damage: i32 },
    /// A bear trap snapped shut but failed to wound.
    TrapResisted,
    /// A chest yielded a weapon and a potion.
    ChestLooted { weapon: WeaponType, material: Material, size: Size },
    /// A chest's contents would not fit; reports the carry limit, in
    /// tenths of a kilogram.
    ChestTooHeavy { max_weight: i32 },
    /// A potion from the inventory was drunk.
    PotionDrunk { size: Size, heal: i32 },
    /// A weapon was equipped, possibly swapping out the previous one.
    Equipped {
        weapon: WeaponType,
        material: Material,
        damage_delta: i32,
        previous: Option<(WeaponType, Material)>,
    },
}

} // verus!
