//! Player and creature behaviour scenarios on hand-built floors.

use bracket_lib::random::RandomNumberGenerator;
use shellter::entity::{Entity, EntityType};
use shellter::events::Event;
use shellter::grid::xy_idx;
use shellter::location::WorldLocation;
use shellter::player::{Direction, ItemType, Material, Player, Size, WeaponType};
use shellter::tile::{TileType, ORANGE_RED, WHITESMOKE};

/// A walled 16 by 16 floor of plain floor cells, with no creatures.
fn small_floor() -> WorldLocation {
    let w = 16;
    let h = 16;
    let mut source = vec![TileType::Floor; (w * h) as usize];
    for x in 0..w {
        source[xy_idx(x, 0, w)] = TileType::Wall;
        source[xy_idx(x, h - 1, w)] = TileType::Wall;
    }
    for y in 0..h {
        source[xy_idx(0, y, w)] = TileType::Wall;
        source[xy_idx(w - 1, y, w)] = TileType::Wall;
    }
    WorldLocation {
        source,
        entities: Vec::new(),
        colors: vec![(190, 190, 190); (w * h) as usize],
        width: w,
        height: h,
        start_x: 1,
        start_y: 1,
        exit_x: 14,
        exit_y: 14,
    }
}

#[test]
fn stepping_on_plain_floor_does_nothing() {
    let mut map = small_floor();
    let mut p = Player::new(5, 5, 10, 0, 0, 0, 0);
    let mut rng = RandomNumberGenerator::seeded(1);
    let before_health = p.health;
    let before_coins = p.coins;
    let ev = p.action(Direction::Right, &mut map, &mut rng);
    assert!(matches!(ev, Event::Nothing));
    assert_eq!(p.pos, (6, 5));
    assert_eq!(p.health, before_health);
    assert_eq!(p.coins, before_coins);
    assert!(p.inventory.is_empty());
    // And staying put on the floor re-triggers nothing either.
    let ev2 = p.action(Direction::Stay, &mut map, &mut rng);
    assert!(matches!(ev2, Event::Nothing));
}

#[test]
fn bear_trap_springs_once_and_stays_spent() {
    let mut map = small_floor();
    map.source[xy_idx(5, 6, 16)] = TileType::BearTrap;
    let mut p = Player::new(5, 5, 10, 0, 0, 0, 0);
    let mut rng = RandomNumberGenerator::seeded(3);
    let ev = p.action(Direction::Down, &mut map, &mut rng);
    // The trap converts whether or not the wound roll lands.
    assert!(matches!(ev, Event::TrapSprung { .. } | Event::TrapResisted));
    assert!(matches!(
        map.source[xy_idx(5, 6, 16)],
        TileType::BearTrapActived
    ));
    assert_eq!(p.pos, (5, 6));
    // Stepping on the spent trap again does nothing further.
    let health_after = p.health;
    let blood_after = p.blood;
    let ev2 = p.action(Direction::Stay, &mut map, &mut rng);
    assert!(matches!(ev2, Event::Nothing));
    assert!(matches!(
        map.source[xy_idx(5, 6, 16)],
        TileType::BearTrapActived
    ));
    // Only an ongoing bleed may tick health down, never the trap again.
    if blood_after == 0 {
        assert_eq!(p.health, health_after);
    }
}

#[test]
fn trap_wound_bleeds_for_five_moves() {
    // Walk onto traps with fresh seeds until one springs.
    let mut sprung = false;
    for seed in 0..64 {
        let mut map = small_floor();
        map.source[xy_idx(5, 6, 16)] = TileType::BearTrap;
        let mut p = Player::new(5, 5, 10, 0, 0, 0, 0);
        let mut rng = RandomNumberGenerator::seeded(seed);
        let ev = p.action(Direction::Down, &mut map, &mut rng);
        if let Event::TrapSprung { damage } = ev {
            assert_eq!(damage, p.max_health / 4);
            assert_eq!(p.blood, 5);
            assert_eq!(p.health, p.max_health - damage);
            sprung = true;
            break;
        }
    }
    assert!(sprung, "no seed sprang the trap");
}

#[test]
fn pickup_respects_inventory_count_cap() {
    let mut map = small_floor();
    map.source[xy_idx(5, 6, 16)] = TileType::Potion;
    map.colors[xy_idx(5, 6, 16)] = (0, 0, 255);
    let mut p = Player::new(5, 5, 10, 0, 5, 0, 0);
    for _ in 0..25 {
        p.inventory.push(ItemType::Potion(Size::Small, (0, 0, 255)));
    }
    let mut rng = RandomNumberGenerator::seeded(1);
    let before_weight = p.weight;
    let ev = p.action(Direction::Down, &mut map, &mut rng);
    assert!(matches!(ev, Event::CannotCarry { .. }));
    assert_eq!(p.inventory.len(), 25);
    assert_eq!(p.weight, before_weight);
    assert!(p.weight <= p.max_weight);
    // The move still happened and the potion is spent.
    assert_eq!(p.pos, (5, 6));
    assert!(matches!(map.source[xy_idx(5, 6, 16)], TileType::Floor));
}

#[test]
fn pickup_respects_weight_cap() {
    let mut map = small_floor();
    map.source[xy_idx(5, 6, 16)] = TileType::Potion;
    map.colors[xy_idx(5, 6, 16)] = (0, 0, 255);
    let mut p = Player::new(5, 5, 10, 0, 0, 0, 0);
    p.weight = p.max_weight;
    let mut rng = RandomNumberGenerator::seeded(1);
    let ev = p.action(Direction::Down, &mut map, &mut rng);
    assert!(matches!(ev, Event::CannotCarry { .. }));
    assert!(p.weight <= p.max_weight);
    assert!(p.inventory.is_empty());
}

#[test]
fn successful_pickup_stays_within_limits() {
    let mut map = small_floor();
    map.source[xy_idx(5, 6, 16)] = TileType::Potion;
    map.colors[xy_idx(5, 6, 16)] = ORANGE_RED;
    let mut p = Player::new(5, 5, 10, 0, 0, 0, 0);
    let mut rng = RandomNumberGenerator::seeded(1);
    let ev = p.action(Direction::Down, &mut map, &mut rng);
    assert!(matches!(ev, Event::PotionTaken { color } if color == ORANGE_RED));
    assert_eq!(p.inventory.len(), 1);
    assert_eq!(p.weight, 7);
    assert!(p.weight <= p.max_weight);
    assert!(matches!(map.source[xy_idx(5, 6, 16)], TileType::Floor));
}

#[test]
fn small_red_potion_heals_a_tenth_capped_at_max() {
    let mut p = Player::new(5, 5, 10, 0, 0, 0, 0);
    assert_eq!(p.max_health, 20);
    p.health = 10;
    p.inventory.push(ItemType::Potion(Size::Small, ORANGE_RED));
    p.weight = 7;
    let ev = p.use_inventory(0);
    assert!(matches!(ev, Event::PotionDrunk { size: Size::Small, heal: 2 }));
    assert_eq!(p.health, 12);
    assert!(p.inventory.is_empty());
    assert_eq!(p.weight, 0);
    // Near the cap the same potion heals only up to max health.
    let mut q = Player::new(5, 5, 10, 0, 0, 0, 0);
    q.health = 19;
    q.inventory.push(ItemType::Potion(Size::Small, ORANGE_RED));
    q.weight = 7;
    let ev2 = q.use_inventory(0);
    assert!(matches!(ev2, Event::PotionDrunk { size: Size::Small, heal: 2 }));
    assert_eq!(q.health, 20);
}

#[test]
fn equipping_swaps_the_previous_weapon() {
    let mut p = Player::new(5, 5, 10, 0, 0, 0, 0);
    let base = p.damage;
    p.inventory.push(ItemType::Weapon(WeaponType::Sword, Material::Bronze, 3));
    let ev = p.use_inventory(0);
    assert!(matches!(
        ev,
        Event::Equipped { weapon: WeaponType::Sword, material: Material::Bronze, damage_delta: 3, previous: None }
    ));
    assert_eq!(p.damage, base + 3);
    assert!(p.inventory.is_empty());
    p.inventory.push(ItemType::Weapon(WeaponType::Axe, Material::Silver, 8));
    let ev2 = p.use_inventory(0);
    assert!(matches!(
        ev2,
        Event::Equipped {
            weapon: WeaponType::Axe,
            material: Material::Silver,
            damage_delta: 5,
            previous: Some((WeaponType::Sword, Material::Bronze)),
        }
    ));
    assert_eq!(p.damage, base + 8);
    // The old sword went back into the pack.
    assert_eq!(p.inventory.len(), 1);
    assert!(matches!(
        p.inventory[0],
        ItemType::Weapon(WeaponType::Sword, Material::Bronze, 3)
    ));
    // An index off the pack is silently ignored.
    let ev3 = p.use_inventory(7);
    assert!(matches!(ev3, Event::Nothing));
    let ev4 = p.use_inventory(-1);
    assert!(matches!(ev4, Event::Nothing));
}

#[test]
fn rest_gate_cycles_after_an_attack() {
    // A creature with a one-tick rest window, adjacent to the player for
    // three consecutive ticks: it attacks, rests silently, and attacks
    // again. With zero luck and agility the player can never evade.
    let mut map = small_floor();
    map.entities.push(Entity::new(5, 6, EntityType::Orc, 0));
    let mut p = Player::new(5, 5, 10, 0, 0, 0, 0);
    let mut rng = RandomNumberGenerator::seeded(5);
    let h0 = p.health;
    let ev1 = map.update_entity(0, &mut p, &mut rng);
    assert!(matches!(ev1, Event::EnemyHit { .. }));
    assert_eq!(map.entities[0].hits, 1);
    assert!(p.health < h0);
    let h1 = p.health;
    let ev2 = map.update_entity(0, &mut p, &mut rng);
    assert!(matches!(ev2, Event::Nothing));
    assert_eq!(map.entities[0].hits, 0);
    assert_eq!(p.health, h1);
    assert_eq!(map.entities[0].x, 5);
    assert_eq!(map.entities[0].y, 6);
    let ev3 = map.update_entity(0, &mut p, &mut rng);
    assert!(matches!(ev3, Event::EnemyHit { .. }));
    assert!(p.health < h1);
    assert_eq!(map.entities[0].hits, 1);
}

#[test]
fn dead_creature_is_a_tombstone() {
    let mut map = small_floor();
    let mut orc = Entity::new(5, 6, EntityType::Orc, 0);
    orc.health = 0;
    map.entities.push(orc);
    let mut p = Player::new(5, 5, 10, 0, 0, 0, 0);
    let mut rng = RandomNumberGenerator::seeded(5);
    let h0 = p.health;
    let ev = map.update_entity(0, &mut p, &mut rng);
    assert!(matches!(ev, Event::Nothing));
    assert_eq!(p.health, h0);
    assert_eq!(map.entities[0].x, 5);
    assert_eq!(map.entities[0].y, 6);
    assert_eq!(map.entities[0].hits, 0);
    // A dead creature no longer blocks the way: the player walks in.
    let ev2 = p.action(Direction::Down, &mut map, &mut rng);
    assert!(matches!(ev2, Event::Nothing));
    assert_eq!(p.pos, (5, 6));
}

#[test]
fn creature_steps_toward_the_player() {
    let mut map = small_floor();
    map.entities.push(Entity::new(5, 9, EntityType::Zombie, 0));
    let mut p = Player::new(5, 5, 10, 0, 0, 0, 0);
    let mut rng = RandomNumberGenerator::seeded(5);
    let ev = map.update_entity(0, &mut p, &mut rng);
    // Too far to attack: it closes in by exactly one orthogonal step.
    assert!(matches!(ev, Event::Nothing));
    let e = &map.entities[0];
    assert_eq!(
        (e.x - 5).abs() + (e.y - 9).abs(),
        1,
        "creature should step once"
    );
    assert_eq!(e.hits, 0);
}

#[test]
fn fighting_a_creature_wears_it_down() {
    let mut map = small_floor();
    map.entities.push(Entity::new(5, 6, EntityType::Orc, 0));
    let mut p = Player::new(5, 5, 10, 0, 0, 0, 0);
    let mut rng = RandomNumberGenerator::seeded(5);
    let h0 = map.entities[0].health;
    let ev = p.action(Direction::Down, &mut map, &mut rng);
    assert!(matches!(ev, Event::PlayerHit { target: EntityType::Orc, .. }));
    assert!(map.entities[0].health < h0);
    // The player did not move: the creature blocked the cell.
    assert_eq!(p.pos, (5, 5));
    // Keep striking until the kill reports and awards experience.
    let mut killed = false;
    for _ in 0..64 {
        let ev = p.action(Direction::Down, &mut map, &mut rng);
        if let Event::PlayerHit { killed: k, .. } = ev {
            if k {
                killed = true;
                break;
            }
        }
    }
    assert!(killed);
    assert_eq!(p.exp, 5);
    assert!(map.entities[0].health <= 0);
}

#[test]
fn forcing_a_pale_door_can_open_it() {
    // A door keeps its pale color until an attempt fails; with a high
    // enough lockpick roll window some seed forces it open.
    let mut opened = false;
    for seed in 0..64 {
        let mut map = small_floor();
        map.source[xy_idx(5, 6, 16)] = TileType::Door;
        map.colors[xy_idx(5, 6, 16)] = WHITESMOKE;
        let mut p = Player::new(5, 5, 10, 0, 0, 5, 5);
        let mut rng = RandomNumberGenerator::seeded(seed);
        let ev = p.action(Direction::Down, &mut map, &mut rng);
        match ev {
            Event::DoorBroken => {
                assert!(matches!(map.source[xy_idx(5, 6, 16)], TileType::Floor));
                opened = true;
                break;
            },
            Event::Nothing => {
                // The failed attempt marks the door plainly white.
                assert!(matches!(map.source[xy_idx(5, 6, 16)], TileType::Door));
                assert_eq!(map.colors[xy_idx(5, 6, 16)], (255, 255, 255));
            },
            other => panic!("unexpected event {:?}", other),
        }
    }
    assert!(opened, "no seed forced the door");
}

#[test]
fn visibility_set_lookup() {
    let mut p = Player::new(5, 5, 10, 0, 0, 0, 0);
    p.set_visibility(vec![(5, 5), (5, 6)], vec![(5, 5), (5, 6), (5, 7)]);
    assert!(p.is_visible((5, 6)));
    assert!(!p.is_visible((5, 7)));
}

#[test]
fn coins_come_in_ones_to_threes() {
    for seed in 0..16 {
        let mut map = small_floor();
        map.source[xy_idx(5, 6, 16)] = TileType::Coin;
        let mut p = Player::new(5, 5, 10, 0, 0, 0, 0);
        let before = p.coins;
        let mut rng = RandomNumberGenerator::seeded(seed);
        let ev = p.action(Direction::Down, &mut map, &mut rng);
        match ev {
            Event::CoinsFound { count } => {
                assert!((1..=3).contains(&count));
                assert_eq!(p.coins, before + count);
            },
            other => panic!("unexpected event {:?}", other),
        }
        assert!(matches!(map.source[xy_idx(5, 6, 16)], TileType::Floor));
    }
}

#[test]
fn stepping_onto_the_exit_signals_descent() {
    let mut map = small_floor();
    map.source[xy_idx(5, 6, 16)] = TileType::Exit;
    let mut p = Player::new(5, 5, 10, 0, 0, 0, 0);
    let mut rng = RandomNumberGenerator::seeded(1);
    let ev = p.action(Direction::Down, &mut map, &mut rng);
    assert!(matches!(ev, Event::Descend));
    assert_eq!(p.pos, (5, 6));
}

#[test]
fn event_log_keeps_lines_in_order_and_drops_silence() {
    let mut log = shellter::log::EventLog::new();
    log.record(&Event::Nothing);
    assert_eq!(log.len(), 0);
    log.record(&Event::CoinsFound { count: 2 });
    log.record(&Event::DoorBroken);
    assert_eq!(log.len(), 2);
    assert_eq!(log.get(0).unwrap().as_str(), "You pick up 2 coins");
    assert_eq!(log.get(1).unwrap().as_str(), "You broke down the door");
    assert!(log.get(2).is_none());
}
