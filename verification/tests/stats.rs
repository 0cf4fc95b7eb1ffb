//! Derived character stats and room geometry formulas.

use shellter::player::{Material, Player, Size, WeaponType};
use shellter::room::Room;

#[test]
fn derived_stats_follow_the_attribute_formulas() {
    let p = Player::new(3, 4, 10, 5, 4, 3, 2);
    assert_eq!(p.pos, (3, 4));
    assert_eq!(p.coins, 2 + 5 / 2);
    assert_eq!(p.health, 20 + 4 * 2 + 2 / 2);
    assert_eq!(p.max_health, 29);
    assert_eq!(p.damage, 5 + 4 / 2 + 2 / 2);
    assert_eq!(p.kchance, 1 + 5 / 2);
    assert_eq!(p.lockpick, 2 + 2 * 2 + 3 / 2);
    assert_eq!(p.max_weight, (20 + 4 * 2 + 5 / 2) * 10);
    assert_eq!(p.weight, 0);
    assert_eq!(p.exp, 0);
    assert!(p.weapon.is_none());
    assert!(p.inventory.is_empty());
}

#[test]
fn item_weights_are_fixed_by_kind() {
    assert_eq!(Player::weight_by_size(Size::Small), 7);
    assert_eq!(Player::weight_by_size(Size::Average), 14);
    assert_eq!(Player::weight_by_size(Size::Large), 21);
    assert_eq!(Player::weight_by_weapon(WeaponType::Sword, Material::Bronze), 12);
    assert_eq!(Player::weight_by_weapon(WeaponType::Axe, Material::Bronze), 22);
    assert_eq!(Player::weight_by_weapon(WeaponType::Dagger, Material::Silver), 5);
}

#[test]
fn potion_color_names() {
    assert_eq!(Player::color_to_str((255, 69, 0)).as_str(), "red");
    assert_eq!(Player::color_to_str((1, 2, 3)).as_str(), "");
}

#[test]
fn rooms_intersect_by_closed_rectangles() {
    let a = Room::new(0, 0, 6, 6);
    assert_eq!((a.x1, a.y1, a.x2, a.y2), (0, 0, 6, 6));
    let b = Room::new(6, 6, 6, 6);
    // Touching corners count as intersecting.
    assert!(a.intersect(&b));
    let c = Room::new(7, 7, 6, 6);
    assert!(!a.intersect(&c));
    assert_eq!(a.center(), (3, 3));
    assert_eq!(c.center(), (10, 10));
    let odd = Room::new(2, 2, 7, 5);
    assert_eq!(odd.center(), ((2 + 9) / 2, (2 + 7) / 2));
}
