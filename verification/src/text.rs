//! Textual rendering of events: the exact log lines the game shows.
//!
//! Numbers are printed in decimal; weights, carried in tenths of a
//! kilogram, print with one decimal place. Every renderer here carries a
//! contract pinning the produced characters exactly.

use vstd::prelude::*;
use vstd::string::StringExecFns;

use crate::entity::EntityType;
use crate::events::Event;
use crate::player::{Material, Player, Size, WeaponType};

verus! {

/// The character of one decimal digit.
pub open spec fn spec_digit(d: int) -> Seq<char> {
    if d == 0 {
        "0"@
    } else if d == 1 {
        "1"@
    } else if d == 2 {
        "2"@
    } else if d == 3 {
        "3"@
    } else if d == 4 {
        "4"@
    } else if d == 5 {
        "5"@
    } else if d == 6 {
        "6"@
    } else if d == 7 {
        "7"@
    } else if d == 8 {
        "8"@
    } else {
        "9"@
    }
}

/// Decimal notation of a nonnegative number.
pub open spec fn spec_decimal(n: int) -> Seq<char>
    decreases n,
{
    if n < 10 {
        spec_digit(n)
    } else {
        spec_decimal(n / 10) + spec_digit(n % 10)
    }
}

/// Decimal notation with a sign for negative numbers.
pub open spec fn spec_signed(n: int) -> Seq<char> {
    if n < 0 {
        "-"@ + spec_decimal(-n)
    } else {
        spec_decimal(n)
    }
}

/// A weight in tenths of a kilogram, printed with one decimal place.
pub open spec fn spec_tenths(n: int) -> Seq<char> {
    if n < 0 {
        "-"@ + spec_decimal(-n / 10) + "."@ + spec_digit((-n) % 10)
    } else {
        spec_decimal(n / 10) + "."@ + spec_digit(n % 10)
    }
}

/// One digit as a string slice.
fn digit_str(d: u64) -> (s: &'static str)
    requires
        d <= 9,
    ensures
        s@ == spec_digit(d as int),
{
    match d {
        0 => "0",
        1 => "1",
        2 => "2",
        3 => "3",
        4 => "4",
        5 => "5",
        6 => "6",
        7 => "7",
        8 => "8",
        _ => "9",
    }
}

/// Decimal notation of a number.
pub fn decimal_string(n: u64) -> (s: String)
    ensures
        s@ == spec_decimal(n as int),
    decreases n,
{
    if n < 10 {
        String::from_str(digit_str(n))
    } else {
        let mut s = decimal_string(n / 10);
        s.append(digit_str(n % 10));
        s
    }
}

/// Decimal notation of a signed number.
pub fn signed_string(n: i32) -> (s: String)
    ensures
        s@ == spec_signed(n as int),
{
    if n >= 0 {
        decimal_string(n as u64)
    } else {
        let m = -(n as i64);
        let mut s = String::from_str("-");
        let d = decimal_string(m as u64);
        s.append(d.as_str());
        s
    }
}

/// A weight in tenths of a kilogram, with one decimal place.
pub fn tenths_string(n: i32) -> (s: String)
    ensures
        s@ == spec_tenths(n as int),
{
    if n >= 0 {
        let mut s = decimal_string((n as u64) / 10);
        s.append(".");
        s.append(digit_str((n as u64) % 10));
        s
    } else {
        let m = (-(n as i64)) as u64;
        let mut s = String::from_str("-");
        let d = decimal_string(m / 10);
        s.append(d.as_str());
        s.append(".");
        s.append(digit_str(m % 10));
        s
    }
}

/// Display name of a creature kind.
pub open spec fn spec_kind_name(t: EntityType) -> Seq<char> {
    match t {
        EntityType::Zombie => "Zombie"@,
        EntityType::Skeleton => "Skeleton"@,
        EntityType::Orc => "Orc"@,
        EntityType::Cyclops => "Cyclops"@,
        EntityType::Goblin => "Goblin"@,
    }
}

/// Display name of a creature kind.
pub fn kind_name(t: EntityType) -> (s: String)
    ensures
        s@ == spec_kind_name(t),
{
    match t {
        EntityType::Zombie => String::from_str("Zombie"),
        EntityType::Skeleton => String::from_str("Skeleton"),
        EntityType::Orc => String::from_str("Orc"),
        EntityType::Cyclops => String::from_str("Cyclops"),
        EntityType::Goblin => String::from_str("Goblin"),
    }
}

/// Lower-case name of a weapon kind.
pub open spec fn spec_weapon_name(t: WeaponType) -> Seq<char> {
    match t {
        WeaponType::Sword => "sword"@,
        WeaponType::Axe => "axe"@,
        WeaponType::Dagger => "dagger"@,
    }
}

/// Lower-case name of a weapon kind.
pub fn weapon_name(t: WeaponType) -> (s: String)
    ensures
        s@ == spec_weapon_name(t),
{
    match t {
        WeaponType::Sword => String::from_str("sword"),
        WeaponType::Axe => String::from_str("axe"),
        WeaponType::Dagger => String::from_str("dagger"),
    }
}

/// Lower-case name of a material.
pub open spec fn spec_material_name(m: Material) -> Seq<char> {
    match m {
        Material::Bronze => "bronze"@,
        Material::Silver => "silver"@,
    }
}

/// Lower-case name of a material.
pub fn material_name(m: Material) -> (s: String)
    ensures
        s@ == spec_material_name(m),
{
    match m {
        Material::Bronze => String::from_str("bronze"),
        Material::Silver => String::from_str("silver"),
    }
}

/// Lower-case name of a potion size.
pub open spec fn spec_size_name(s: Size) -> Seq<char> {
    match s {
        Size::Small => "small"@,
        Size::Average => "average"@,
        Size::Large => "large"@,
    }
}

/// Lower-case name of a potion size.
pub fn size_name(s: Size) -> (r: String)
    ensures
        r@ == spec_size_name(s),
{
    match s {
        Size::Small => String::from_str("small"),
        Size::Average => String::from_str("average"),
        Size::Large => String::from_str("large"),
    }
}

/// The log line for an event, character for character.
pub open spec fn spec_event_text(e: Event) -> Seq<char> {
    match e {
        Event::Nothing => ""@,
        Event::Descend => "You go down to the floor below..."@,
        Event::EnemyHit { attacker, damage, critical } => {
            if critical {
                spec_kind_name(attacker) + " critically hits player, for "@ + spec_signed(
                    damage as int,
                ) + "HP"@
            } else {
                spec_kind_name(attacker) + " hits player, for "@ + spec_signed(damage as int)
                    + "HP"@
            }
        },
        Event::Evaded { attacker } => "Player evades from "@ + spec_kind_name(attacker) + " hit"@,
        Event::PlayerHit { target, damage, critical, killed } => {
            let base = if critical {
                "Player critically hits "@ + spec_kind_name(target) + ", for "@ + spec_signed(
                    damage as int,
                ) + "HP"@
            } else {
                "Player hits "@ + spec_kind_name(target) + ", for "@ + spec_signed(damage as int)
                    + "HP"@
            };
            if killed {
                base + " and kills "@ + spec_kind_name(target) + " +5EXP"@
            } else {
                base
            }
        },
        Event::DoorBroken => "You broke down the door"@,
        Event::CoinsFound { count } => "You pick up "@ + spec_signed(count as int) + " coins"@,
        Event::MaxHealthBoost { gain } => "You drink pink potion, +"@ + spec_signed(gain as int)
            + "HP!"@,
        Event::PotionTaken { color } => "You pick up small "@ + Player::spec_color_name(color)
            + " potion +0.7kg"@,
        Event::CannotCarry { weight } => "You can't carry more than "@ + spec_tenths(weight as int)
            + "kg and more than 25 items"@,
        Event::TrapSprung { damage } => "You fall into a trap and you bleed out for 5 moves, -"@
            + spec_signed(damage as int) + "HP"@,
        Event::TrapResisted => "Trap doesn't work so you don't fall into a trap"@,
        Event::ChestLooted { weapon, material, size } => "You pick up "@ + spec_material_name(
            material,
        ) + " "@ + spec_weapon_name(weapon) + " and "@ + spec_size_name(size)
            + " red potion from chest"@,
        Event::ChestTooHeavy { max_weight } => "You can't carry more than "@ + spec_tenths(
            max_weight as int,
        ) + "kg and more than 25 items"@,
        Event::PotionDrunk { size, heal } => "You drink "@ + spec_size_name(size)
            + " red potion, +"@ + spec_signed(heal as int) + "HP!"@,
        Event::Equipped { weapon, material, damage_delta, previous } => {
            match previous {
                Some((ow, om)) => "You equip "@ + spec_material_name(material) + " "@
                    + spec_weapon_name(weapon) + " instead of "@ + spec_material_name(om) + " "@
                    + spec_weapon_name(ow) + " "@ + (if damage_delta > 0 {
                    "+"@ + spec_signed(damage_delta as int)
                } else {
                    spec_signed(damage_delta as int)
                }) + " damage"@,
                None => "You equip "@ + spec_material_name(material) + " "@ + spec_weapon_name(
                    weapon,
                ) + " +"@ + spec_signed(damage_delta as int) + " damage"@,
            }
        },
    }
}

/// Render an event to its log line.
pub fn event_text(e: &Event) -> (s: String)
    ensures
        s@ == spec_event_text(*e),
{
    match *e {
        Event::Nothing => String::from_str(""),
        Event::Descend => String::from_str("You go down to the floor below..."),
        Event::EnemyHit { attacker, damage, critical } => {
            let mut s = kind_name(attacker);
            if critical {
                s.append(" critically hits player, for ");
            } else {
                s.append(" hits player, for ");
            }
            let d = signed_string(damage);
            s.append(d.as_str());
            s.append("HP");
            s
        },
        Event::Evaded { attacker } => {
            let mut s = String::from_str("Player evades from ");
            let n = kind_name(attacker);
            s.append(n.as_str());
            s.append(" hit");
            s
        },
        Event::PlayerHit { target, damage, critical, killed } => {
            let mut s = if critical {
                String::from_str("Player critically hits ")
            } else {
                String::from_str("Player hits ")
            };
            let n = kind_name(target);
            s.append(n.as_str());
            s.append(", for ");
            let d = signed_string(damage);
            s.append(d.as_str());
            s.append("HP");
            if killed {
                s.append(" and kills ");
                let n2 = kind_name(target);
                s.append(n2.as_str());
                s.append(" +5EXP");
            }
            s
        },
        Event::DoorBroken => String::from_str("You broke down the door"),
        Event::CoinsFound { count } => {
            let mut s = String::from_str("You pick up ");
            let d = signed_string(count);
            s.append(d.as_str());
            s.append(" coins");
            s
        },
        Event::MaxHealthBoost { gain } => {
            let mut s = String::from_str("You drink pink potion, +");
            let d = signed_string(gain);
            s.append(d.as_str());
            s.append("HP!");
            s
        },
        Event::PotionTaken { color } => {
            let mut s = String::from_str("You pick up small ");
            let c = Player::color_to_str(color);
            s.append(c.as_str());
            s.append(" potion +0.7kg");
            s
        },
        Event::CannotCarry { weight } => {
            let mut s = String::from_str("You can't carry more than ");
            let d = tenths_string(weight);
            s.append(d.as_str());
            s.append("kg and more than 25 items");
            s
        },
        Event::TrapSprung { damage } => {
            let mut s = String::from_str("You fall into a trap and you bleed out for 5 moves, -");
            let d = signed_string(damage);
            s.append(d.as_str());
            s.append("HP");
            s
        },
        Event::TrapResisted => String::from_str("Trap doesn't work so you don't fall into a trap"),
        Event::ChestLooted { weapon, material, size } => {
            let mut s = String::from_str("You pick up ");
            let m = material_name(material);
            s.append(m.as_str());
            s.append(" ");
            let wnm = weapon_name(weapon);
            s.append(wnm.as_str());
            s.append(" and ");
            let sz = size_name(size);
            s.append(sz.as_str());
            s.append(" red potion from chest");
            s
        },
        Event::ChestTooHeavy { max_weight } => {
            let mut s = String::from_str("You can't carry more than ");
            let d = tenths_string(max_weight);
            s.append(d.as_str());
            s.append("kg and more than 25 items");
            s
        },
        Event::PotionDrunk { size, heal } => {
            let mut s = String::from_str("You drink ");
            let sz = size_name(size);
            s.append(sz.as_str());
            s.append(" red potion, +");
            let d = signed_string(heal);
            s.append(d.as_str());
            s.append("HP!");
            s
        },
        Event::Equipped { weapon, material, damage_delta, previous } => {
            let mut s = String::from_str("You equip ");
            let m = material_name(material);
            s.append(m.as_str());
            s.append(" ");
            let wnm = weapon_name(weapon);
            s.append(wnm.as_str());
            match previous {
                Some((ow, om)) => {
                    s.append(" instead of ");
                    let om2 = material_name(om);
                    s.append(om2.as_str());
                    s.append(" ");
                    let ow2 = weapon_name(ow);
                    s.append(ow2.as_str());
                    s.append(" ");
                    if damage_delta > 0 {
                        s.append("+");
                    }
                    let d = signed_string(damage_delta);
                    s.append(d.as_str());
                    s.append(" damage");
                },
                None => {
                    s.append(" +");
                    let d = signed_string(damage_delta);
                    s.append(d.as_str());
                    s.append(" damage");
                },
            }
            s
        },
    }
}

} // verus!
