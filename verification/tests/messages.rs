//! Exact log lines for events, including the number formatting.

use shellter::entity::{Entity, EntityType};
use shellter::events::Event;
use shellter::player::{Material, Size, WeaponType};
use shellter::text::{decimal_string, event_text, signed_string, tenths_string};

#[test]
fn numbers_print_in_decimal() {
    assert_eq!(decimal_string(0).as_str(), "0");
    assert_eq!(decimal_string(7).as_str(), "7");
    assert_eq!(decimal_string(240).as_str(), "240");
    assert_eq!(decimal_string(100500).as_str(), "100500");
    assert_eq!(signed_string(-13).as_str(), "-13");
    assert_eq!(signed_string(0).as_str(), "0");
    assert_eq!(tenths_string(7).as_str(), "0.7");
    assert_eq!(tenths_string(235).as_str(), "23.5");
    assert_eq!(tenths_string(320).as_str(), "32.0");
}

#[test]
fn event_lines_match_the_log_format() {
    assert_eq!(event_text(&Event::Nothing).as_str(), "");
    assert_eq!(
        event_text(&Event::Descend).as_str(),
        "You go down to the floor below..."
    );
    assert_eq!(
        event_text(&Event::EnemyHit { attacker: EntityType::Zombie, damage: 3, critical: false })
            .as_str(),
        "Zombie hits player, for 3HP"
    );
    assert_eq!(
        event_text(&Event::EnemyHit { attacker: EntityType::Cyclops, damage: 8, critical: true })
            .as_str(),
        "Cyclops critically hits player, for 8HP"
    );
    assert_eq!(
        event_text(&Event::Evaded { attacker: EntityType::Goblin }).as_str(),
        "Player evades from Goblin hit"
    );
    assert_eq!(
        event_text(
            &Event::PlayerHit { target: EntityType::Orc, damage: 5, critical: false, killed: false }
        )
        .as_str(),
        "Player hits Orc, for 5HP"
    );
    assert_eq!(
        event_text(
            &Event::PlayerHit { target: EntityType::Orc, damage: 10, critical: true, killed: true }
        )
        .as_str(),
        "Player critically hits Orc, for 10HP and kills Orc +5EXP"
    );
    assert_eq!(
        event_text(&Event::DoorBroken).as_str(),
        "You broke down the door"
    );
    assert_eq!(
        event_text(&Event::CoinsFound { count: 2 }).as_str(),
        "You pick up 2 coins"
    );
    assert_eq!(
        event_text(&Event::MaxHealthBoost { gain: 1 }).as_str(),
        "You drink pink potion, +1HP!"
    );
    assert_eq!(
        event_text(&Event::PotionTaken { color: (255, 69, 0) }).as_str(),
        "You pick up small red potion +0.7kg"
    );
    assert_eq!(
        event_text(&Event::CannotCarry { weight: 315 }).as_str(),
        "You can't carry more than 31.5kg and more than 25 items"
    );
    assert_eq!(
        event_text(&Event::TrapSprung { damage: 5 }).as_str(),
        "You fall into a trap and you bleed out for 5 moves, -5HP"
    );
    assert_eq!(
        event_text(&Event::TrapResisted).as_str(),
        "Trap doesn't work so you don't fall into a trap"
    );
    assert_eq!(
        event_text(
            &Event::ChestLooted {
                weapon: WeaponType::Sword,
                material: Material::Bronze,
                size: Size::Large,
            }
        )
        .as_str(),
        "You pick up bronze sword and large red potion from chest"
    );
    assert_eq!(
        event_text(&Event::ChestTooHeavy { max_weight: 320 }).as_str(),
        "You can't carry more than 32.0kg and more than 25 items"
    );
    assert_eq!(
        event_text(&Event::PotionDrunk { size: Size::Small, heal: 2 }).as_str(),
        "You drink small red potion, +2HP!"
    );
    assert_eq!(
        event_text(
            &Event::Equipped {
                weapon: WeaponType::Sword,
                material: Material::Bronze,
                damage_delta: 3,
                previous: None,
            }
        )
        .as_str(),
        "You equip bronze sword +3 damage"
    );
    assert_eq!(
        event_text(
            &Event::Equipped {
                weapon: WeaponType::Axe,
                material: Material::Silver,
                damage_delta: -2,
                previous: Some((WeaponType::Sword, Material::Bronze)),
            }
        )
        .as_str(),
        "You equip silver axe instead of bronze sword -2 damage"
    );
    assert_eq!(
        event_text(
            &Event::Equipped {
                weapon: WeaponType::Axe,
                material: Material::Silver,
                damage_delta: 5,
                previous: Some((WeaponType::Sword, Material::Bronze)),
            }
        )
        .as_str(),
        "You equip silver axe instead of bronze sword +5 damage"
    );
}

#[test]
fn creature_names_render() {
    let e = Entity::new(1, 1, EntityType::Skeleton, 0);
    assert_eq!(e.name().as_str(), "Skeleton");
    assert_eq!(e.health, 12);
    assert_eq!(e.damage, 1);
    assert_eq!(e.hits_max, 3);
    // Depth scaling: experience multiplies base health.
    let deep = Entity::new(1, 1, EntityType::Skeleton, 250);
    assert_eq!(deep.health, 12 * 3);
}
