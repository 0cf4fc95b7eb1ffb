//! The player: derived stats, inventory, and the movement/interaction
//! engine that resolves one intended step per tick into a move, a fight,
//! a pickup, a trap, or a door attempt.
//!
//! Weights are carried in tenths of a kilogram, so the carry arithmetic
//! stays exact in integers (a small potion weighs 7, that is 0.7 kg).

use vstd::prelude::*;
use vstd::string::StringExecFns;

use crate::entity::EntityType;
use crate::events::Event;
use crate::grid::spec_xy_idx;
use crate::location::{lemma_cell_idx, WorldLocation};
use crate::rng::rng_range;
use crate::tile::{Rgb, TileType, HOT_PINK, ORANGE_RED, RED, WHITE, WHITESMOKE};

verus! {

/// Kinds of weapon a chest can yield.
#[derive(PartialEq, Eq, Structural, Copy, Clone, Debug)]
pub enum WeaponType {
    Sword,
    Axe,
    Dagger,
}

/// Potion sizes; the size fixes both the weight and the healing divisor.
#[derive(PartialEq, Eq, Structural, Copy, Clone, Debug)]
pub enum Size {
    Small,
    Average,
    Large,
}

/// Weapon materials.
#[derive(PartialEq, Eq, Structural, Copy, Clone, Debug)]
pub enum Material {
    Bronze,
    Silver,
}

/// An inventory item: a potion of some size and color, or a weapon with
/// its damage bonus.
#[derive(PartialEq, Copy, Clone, Debug)]
pub enum ItemType {
    Potion(Size, Rgb),
    Weapon(WeaponType, Material, i32),
}

/// Weight of a small potion, in tenths of a kilogram.
pub const SMALL_POTION_WEIGHT: i32 = 7;

/// Most items the inventory can hold.
pub const INVENTORY_CAP: usize = 25;

/// Experience saturates here, keeping every damage formula far from
/// overflow.
pub const EXP_CAP: i32 = 1_000_000;

/// Max health saturates here.
pub const HEALTH_CAP: i32 = 1_000_000;

/// An item the engine may carry: weapon bonuses stay in a sane band.
pub open spec fn item_wf(item: ItemType) -> bool {
    match item {
        ItemType::Weapon(_, _, d) => 0 <= d <= 1000,
        ItemType::Potion(_, _) => true,
    }
}

/// Subtraction on `i32` that floors at the type's minimum instead of
/// wrapping; health and similar counters shrink through this.
pub fn sat_sub(a: i32, d: i32) -> (r: i32)
    requires
        0 <= d,
    ensures
        a - d >= i32::MIN ==> r == a - d,
        a - d < i32::MIN ==> r == i32::MIN,
        r <= a,
{
    if a >= i32::MIN + d {
        a - d
    } else {
        i32::MIN
    }
}

/// The player.
pub struct Player {
    pub pos: (i32, i32),
    pub health: i32,
    pub max_health: i32,
    pub coins: i32,
    pub exp: i32,
    /// Short-range visibility: where the player can act and creatures
    /// notice them. Recomputed from outside after every move.
    pub visible_tiles: Vec<(i32, i32)>,
    /// Long-range visibility: what the renderer may draw.
    pub visible_tiles_far: Vec<(i32, i32)>,
    pub damage: i32,
    pub weapon: Option<ItemType>,
    pub inventory: Vec<ItemType>,
    /// Critical-hit chance, percent.
    pub kchance: i32,
    /// Door-forcing chance, percent.
    pub lockpick: i32,
    pub luck: i32,
    pub strength: i32,
    pub intelligence: i32,
    pub agility: i32,
    pub fov_range: i32,
    /// Carried weight, in tenths of a kilogram.
    pub weight: i32,
    /// Carry limit, in tenths of a kilogram.
    pub max_weight: i32,
    /// Remaining bleed ticks after a trap wound.
    pub blood: i32,
}

impl Player {
    /// Damage bonus of the equipped weapon, if any.
    pub open spec fn spec_weapon_damage(self) -> int {
        match self.weapon {
            Some(ItemType::Weapon(_, _, d)) => d as int,
            _ => 0,
        }
    }

    /// Structural well-formedness: attributes in their creation band,
    /// derived stats in range, the carry limits respected, and every
    /// carried item sane. Every engine entry point preserves this.
    pub open spec fn wf(self) -> bool {
        &&& 0 <= self.luck <= 5
        &&& 0 <= self.strength <= 5
        &&& 0 <= self.intelligence <= 5
        &&& 0 <= self.agility <= 5
        &&& 0 <= self.exp <= EXP_CAP
        &&& 0 <= self.coins <= 1_000_000_000
        &&& 1 <= self.max_health <= HEALTH_CAP
        &&& self.health <= self.max_health
        &&& self.weight <= self.max_weight
        &&& 0 < self.max_weight <= 400
        &&& self.inventory@.len() <= INVENTORY_CAP
        &&& forall|i: int| 0 <= i < self.inventory@.len() ==> item_wf(#[trigger] self.inventory@[i])
        &&& (self.weapon matches Some(it) ==> item_wf(it) && (it matches ItemType::Weapon(_, _, _)))
        &&& 5 <= self.damage - self.spec_weapon_damage() <= 10
        &&& 0 <= self.kchance <= 100
        &&& 0 <= self.lockpick <= 100
        &&& 0 <= self.blood <= 1_000_000_000
    }

    /// A fresh character: every derived stat is a pure function of the
    /// four base attributes.
    pub fn new(
        x: i32,
        y: i32,
        fov_range: i32,
        luck: i32,
        strength: i32,
        intelligence: i32,
        agility: i32,
    ) -> (p: Player)
        requires
            0 <= luck <= 5,
            0 <= strength <= 5,
            0 <= intelligence <= 5,
            0 <= agility <= 5,
        ensures
            p.wf(),
            p.pos == (x, y),
            p.fov_range == fov_range,
            p.coins == 2 + luck / 2,
            p.exp == 0,
            p.health == 20 + strength * 2 + agility / 2,
            p.max_health == 20 + strength * 2 + agility / 2,
            p.damage == 5 + strength / 2 + agility / 2,
            p.kchance == 1 + luck / 2,
            p.lockpick == 2 + agility * 2 + intelligence / 2,
            p.luck == luck,
            p.strength == strength,
            p.intelligence == intelligence,
            p.agility == agility,
            p.weight == 0,
            p.max_weight == (20 + strength * 2 + luck / 2) * 10,
            p.weapon is None,
            p.inventory@.len() == 0,
            p.visible_tiles@.len() == 0,
            p.visible_tiles_far@.len() == 0,
            p.blood == 0,
    {
        Player {
            pos: (x, y),
            visible_tiles: Vec::new(),
            visible_tiles_far: Vec::new(),
            fov_range,
            coins: 2 + luck / 2,
            exp: 0,
            health: 20 + strength * 2 + agility / 2,
            max_health: 20 + strength * 2 + agility / 2,
            damage: 5 + strength / 2 + agility / 2,
            kchance: 1 + luck / 2,
            inventory: Vec::new(),
            lockpick: 2 + agility * 2 + intelligence / 2,
            luck,
            strength,
            intelligence,
            agility,
            weight: 0,
            weapon: None,
            max_weight: (20 + strength * 2 + luck / 2) * 10,
            blood: 0,
        }
    }

    /// The point is in the given visibility sequence.
    pub open spec fn spec_point_in(s: Seq<(i32, i32)>, x: i32, y: i32) -> bool {
        exists|j: int| 0 <= j < s.len() && s[j] == (x, y)
    }

    /// Whether the player currently sees the cell (short range).
    pub fn is_visible(&self, xy: (i32, i32)) -> (r: bool)
        ensures
            r == Self::spec_point_in(self.visible_tiles@, xy.0, xy.1),
    {
        let mut j: usize = 0;
        while j < self.visible_tiles.len()
            invariant
                j <= self.visible_tiles@.len(),
                forall|k: int| 0 <= k < j ==> self.visible_tiles@[k] != (xy.0, xy.1),
            decreases self.visible_tiles@.len() - j,
        {
            let p = self.visible_tiles[j];
            if p.0 == xy.0 && p.1 == xy.1 {
                proof {
                    assert(self.visible_tiles@[j as int] == (xy.0, xy.1));
                }
                return true;
            }
            j += 1;
        }
        false
    }

    /// Replace both visibility sets; the surrounding shell recomputes
    /// them from the field of view after every successful move.
    pub fn set_visibility(&mut self, near: Vec<(i32, i32)>, far: Vec<(i32, i32)>)
        ensures
            final(self).visible_tiles == near,
            final(self).visible_tiles_far == far,
            *final(self) == (Player { visible_tiles: near, visible_tiles_far: far, ..*old(self) }),
    {
        self.visible_tiles = near;
        self.visible_tiles_far = far;
    }

    /// Weight of a potion of the given size, in tenths of a kilogram.
    pub open spec fn spec_weight_by_size(size: Size) -> int {
        match size {
            Size::Small => 7,
            Size::Average => 14,
            Size::Large => 21,
        }
    }

    /// Weight of a potion of the given size, in tenths of a kilogram.
    pub fn weight_by_size(size: Size) -> (r: i32)
        ensures
            r == Self::spec_weight_by_size(size),
    {
        match size {
            Size::Small => SMALL_POTION_WEIGHT,
            Size::Average => SMALL_POTION_WEIGHT * 2,
            Size::Large => SMALL_POTION_WEIGHT * 3,
        }
    }

    /// Weight of a weapon, in tenths of a kilogram: half a kilogram base,
    /// heavier for bronze, swords and axes.
    pub open spec fn spec_weight_by_weapon(weapon_type: WeaponType, material: Material) -> int {
        (match material {
            Material::Bronze => 7int,
            Material::Silver => 5int,
        }) + (match weapon_type {
            WeaponType::Sword => 5int,
            WeaponType::Axe => 15int,
            WeaponType::Dagger => 0int,
        })
    }

    /// Weight of a weapon, in tenths of a kilogram.
    pub fn weight_by_weapon(weapon_type: WeaponType, material: Material) -> (r: i32)
        ensures
            r == Self::spec_weight_by_weapon(weapon_type, material),
    {
        let base: i32 = match material {
            Material::Bronze => 7,
            Material::Silver => 5,
        };
        base + match weapon_type {
            WeaponType::Sword => 5,
            WeaponType::Axe => 15,
            WeaponType::Dagger => 0,
        }
    }

    /// Display name of a potion color: only the red healing potion has
    /// one.
    pub open spec fn spec_color_name(color: Rgb) -> Seq<char> {
        if color == ORANGE_RED {
            "red"@
        } else {
            ""@
        }
    }

    /// Display name of a potion color.
    pub fn color_to_str(color: Rgb) -> (s: String)
        ensures
            s@ == Self::spec_color_name(color),
    {
        if crate::tile::rgb_eq(color, ORANGE_RED) {
            String::from_str("red")
        } else {
            String::from_str("")
        }
    }
}

/// Capacity invariant: a well-formed player — and every engine entry
/// point returns one — never carries more than the weight limit nor more
/// than the inventory cap, so no pickup can ever breach either.
pub proof fn lemma_capacity_invariant(p: Player)
    requires
        p.wf(),
    ensures
        p.weight <= p.max_weight,
        p.inventory@.len() <= 25,
{
}

/// The creature lists agree on everything but health, which may only
/// drop: combat never moves, retypes, adds or removes a creature.
pub open spec fn entities_frozen_except_health(
    a: Seq<crate::entity::Entity>,
    b: Seq<crate::entity::Entity>,
) -> bool {
    &&& a.len() == b.len()
    &&& forall|i: int|
        0 <= i < a.len() ==> (#[trigger] b[i]).x == a[i].x && b[i].y == a[i].y && b[i].entity_type
            == a[i].entity_type && b[i].hits == a[i].hits && b[i].hits_max == a[i].hits_max
            && b[i].health <= a[i].health && b[i].wf() == a[i].wf()
}

/// No creature (alive or dead) stands at `(x, y)`.
pub open spec fn no_entity_at(entities: Seq<crate::entity::Entity>, x: int, y: int) -> bool {
    forall|i: int|
        0 <= i < entities.len() ==> !((#[trigger] entities[i]).x == x && entities[i].y == y)
}

/// The player after the bleed tick that opens a step while wounded: one
/// bleed charge is spent and the wound costs `1 + max_health / 50`
/// health (flooring only at the numeric minimum). Without an open wound
/// the player is untouched.
pub open spec fn spec_bled_player(p: Player) -> Player {
    if p.blood > 0 {
        Player {
            health: (if p.health - (1 + p.max_health / 50) >= i32::MIN {
                p.health - (1 + p.max_health / 50)
            } else {
                i32::MIN as int
            }) as i32,
            blood: (p.blood - 1) as i32,
            ..p
        }
    } else {
        p
    }
}

/// The whole outcome of resolving the tile under the player's feet:
/// `t0`/`c0` are the tile and color there before the event, `t1` the
/// tile afterwards (the event never touches colors or other cells), and
/// `p0`/`p1` the player before and after.
pub open spec fn spec_tile_event_outcome(
    p0: Player,
    t0: TileType,
    c0: Rgb,
    p1: Player,
    t1: TileType,
    e: Event,
) -> bool {
    match t0 {
        // Already-spent tiles never re-trigger anything.
        TileType::Floor | TileType::BloodStain | TileType::BearTrapActived => e == Event::Nothing
            && p1 == p0 && t1 == t0,
        // The exit only signals; the caller rebuilds the floor.
        TileType::Exit => e == Event::Descend && p1 == p0 && t1 == TileType::Floor,
        // One to three coins, and nothing else moves.
        TileType::Coin => t1 == TileType::Floor && (e matches Event::CoinsFound { count } && 1
            <= count <= 3 && p1 == (Player { coins: p1.coins, ..p0 }) && (p1.coins == if p0.coins
            + count <= 1_000_000_000 {
            p0.coins + count
        } else {
            p0.coins as int
        })),
        TileType::Potion => t1 == TileType::Floor && (if c0 == HOT_PINK {
            // A pink potion is drunk on the spot for a permanent boost.
            e is MaxHealthBoost && p1 == (Player { max_health: p1.max_health, ..p0 }) && (
            p1.max_health == if p0.max_health + p0.max_health / 50 + 1 <= HEALTH_CAP {
                p0.max_health + p0.max_health / 50 + 1
            } else {
                p0.max_health as int
            })
        } else if p0.weight + SMALL_POTION_WEIGHT <= p0.max_weight && p0.inventory@.len() + 1
            <= INVENTORY_CAP {
            // Any other potion goes into the pack if the limits allow.
            e == (Event::PotionTaken { color: c0 }) && p1 == (Player {
                weight: p1.weight,
                inventory: p1.inventory,
                ..p0
            }) && p1.weight == p0.weight + SMALL_POTION_WEIGHT && p1.inventory@
                == p0.inventory@.push(ItemType::Potion(Size::Small, c0))
        } else {
            // Refused, but the tile is spent either way.
            e == (Event::CannotCarry { weight: p0.weight }) && p1 == p0
        }),
        // A bear trap converts to its spent state no matter how the
        // wound roll comes out.
        TileType::BearTrap => t1 == TileType::BearTrapActived && (((e matches Event::TrapSprung {
            damage,
        } && damage == p0.max_health / 4) && p1 == (Player {
            health: p1.health,
            blood: p1.blood,
            ..p0
        }) && (p1.health == if p0.health - p0.max_health / 4 >= i32::MIN {
            p0.health - p0.max_health / 4
        } else {
            i32::MIN as int
        }) && (p1.blood == if p0.blood + 5 <= 1_000_000_000 {
            p0.blood + 5
        } else {
            p0.blood as int
        })) || (e == Event::TrapResisted && p1 == p0)),
        // A chest yields the reported weapon and a red potion of the
        // reported size, exactly when they fit; a chest whose heaviest
        // possible haul fits is always looted.
        TileType::Chest => ((e matches Event::ChestLooted { weapon, material, size } && t1
            == TileType::Floor && p1 == (Player {
            weight: p1.weight,
            inventory: p1.inventory,
            ..p0
        }) && p1.weight == p0.weight + Player::spec_weight_by_weapon(weapon, material)
            + Player::spec_weight_by_size(size) && p1.weight <= p0.max_weight && p1.inventory@.len()
            == p0.inventory@.len() + 2 && (exists|d: i32|
            1 <= d <= 8 && p1.inventory@ == (#[trigger] p0.inventory@.push(
                ItemType::Weapon(weapon, material, d),
            )).push(ItemType::Potion(size, ORANGE_RED)))) || (e == (Event::ChestTooHeavy {
            max_weight: p0.max_weight,
        }) && p1 == p0 && t1 == t0)) && (p0.weight + 43 <= p0.max_weight && p0.inventory@.len() + 2
            <= INVENTORY_CAP ==> e is ChestLooted),
        // Solid tiles cannot be under the player's feet.
        TileType::Wall | TileType::DamagedWall | TileType::WeakWall | TileType::Door => e
            == Event::Nothing && p1 == p0 && t1 == t0,
    }
}

/// The whole outcome of the melee/door interaction with the blocked cell
/// `xy`: the first creature standing there takes the blow, or a door is
/// forced; `t0`/`c0` and `t1`/`c1` are that cell's tile and color before
/// and after, and nothing else of the grid changes.
pub open spec fn spec_fight_outcome(
    p0: Player,
    ents0: Seq<crate::entity::Entity>,
    t0: TileType,
    c0: Rgb,
    xy: (int, int),
    p1: Player,
    ents1: Seq<crate::entity::Entity>,
    t1: TileType,
    c1: Rgb,
    e: Event,
) -> bool {
    &&& ents1.len() == ents0.len()
    &&& p1 == (Player { exp: p1.exp, ..p0 })
    &&& if no_entity_at(ents0, xy.0, xy.1) {
        &&& ents1 == ents0
        &&& p1 == p0
        &&& if t0 == TileType::Door {
            // Only a door still carrying its pale color can give way; a
            // failed attempt marks it plainly white.
            (e == Event::DoorBroken && c0 == WHITESMOKE && t1 == TileType::Floor && c1 == c0) || (e
                == Event::Nothing && t1 == TileType::Door && c1 == WHITE)
        } else {
            e == Event::Nothing && t1 == t0 && c1 == c0
        }
    } else {
        &&& t1 == t0
        &&& c1 == c0
        &&& exists|i: int|
            0 <= i < ents0.len() && (#[trigger] ents0[i]).x == xy.0 && ents0[i].y == xy.1 && (
            e matches Event::PlayerHit { target, damage, critical, killed } && target
                == ents0[i].entity_type && (critical ==> damage == p0.damage * 2) && (!critical
                ==> damage == p0.damage) && (ents0[i].health > 0 ==> ents1[i].health as int == (
            if ents0[i].health - damage >= i32::MIN {
                ents0[i].health - damage
            } else {
                i32::MIN as int
            })) && (ents0[i].health <= 0 ==> ents1[i] == ents0[i]) && (killed <==> ents1[i].health
                <= 0) && (killed ==> p1.exp == (if p0.exp <= EXP_CAP - 5 {
                p0.exp + 5
            } else {
                p0.exp as int
            })) && (!killed ==> p1.exp == p0.exp)) && ents1[i].x == ents0[i].x && ents1[i].y
                == ents0[i].y && ents1[i].entity_type == ents0[i].entity_type && ents1[i].hits
                == ents0[i].hits && ents1[i].hits_max == ents0[i].hits_max && (forall|j: int|
                0 <= j < ents0.len() && j != i ==> ents1[j] == ents0[j])
    }
}

/// The whole outcome of one intended step `(dx, dy)`: the bleed tick
/// first (spending a charge, costing health, staining a floor cell under
/// the player), then — against that intermediate state — a move plus
/// tile event when the target is walkable, the melee/door interaction
/// when it is blocked, or nothing at all when it is off the grid.
pub open spec fn spec_step_outcome(
    p0: Player,
    m0: WorldLocation,
    dx: int,
    dy: int,
    p1: Player,
    m1: WorldLocation,
    e: Event,
) -> bool {
    let w = m0.width as int;
    let opx = p0.pos.0 as int;
    let opy = p0.pos.1 as int;
    let oidx = spec_xy_idx(opx, opy, w);
    let pb = spec_bled_player(p0);
    let stained = p0.blood > 0 && m0.source@[oidx] == TileType::Floor;
    let msrc = if stained {
        m0.source@.update(oidx, TileType::BloodStain)
    } else {
        m0.source@
    };
    let mcol = if stained {
        m0.colors@.update(oidx, RED)
    } else {
        m0.colors@
    };
    let tx = opx + dx;
    let ty = opy + dy;
    let tidx = spec_xy_idx(tx, ty, w);
    &&& m1.width == m0.width
    &&& m1.height == m0.height
    &&& m1.source@.len() == m0.source@.len()
    &&& m1.colors@.len() == m0.colors@.len()
    &&& if !(0 <= tx < m0.width && 0 <= ty < m0.height) {
        &&& e == Event::Nothing
        &&& p1 == pb
        &&& m1.source@ == msrc
        &&& m1.colors@ == mcol
        &&& m1.entities@ == m0.entities@
    } else if !m0.spec_solid_at(tx, ty) {
        &&& p1.pos == ((tx as i32), (ty as i32))
        &&& m1.entities@ == m0.entities@
        &&& m1.colors@ == mcol
        &&& forall|i: int| 0 <= i < m0.source@.len() && i != tidx ==> m1.source@[i] == msrc[i]
        &&& spec_tile_event_outcome(
            (Player { pos: ((tx as i32), (ty as i32)), ..pb }),
            msrc[tidx],
            mcol[tidx],
            p1,
            m1.source@[tidx],
            e,
        )
    } else {
        &&& forall|i: int|
            0 <= i < m0.source@.len() && i != tidx ==> m1.source@[i] == msrc[i] && m1.colors@[i]
                == mcol[i]
        &&& spec_fight_outcome(
            pb,
            m0.entities@,
            msrc[tidx],
            mcol[tidx],
            (tx, ty),
            p1,
            m1.entities@,
            m1.source@[tidx],
            m1.colors@[tidx],
            e,
        )
    }
}

/// An intended step, as the input layer hands it over.
#[derive(PartialEq, Eq, Structural, Copy, Clone, Debug)]
pub enum Direction {
    Left,
    Right,
    Up,
    Down,
    Stay,
}

impl Player {
    /// Melee interaction with the blocking cell `xy`: strike the first
    /// creature standing there (critical hits double the damage; a kill
    /// awards experience), or try to force a locked door — only a door
    /// still carrying its original pale color can ever give way, and a
    /// failed attempt marks it plainly white.
    fn fight(
        &mut self,
        xy: (i32, i32),
        map: &mut WorldLocation,
        rng: &mut bracket_lib::random::RandomNumberGenerator,
    ) -> (e: Event)
        requires
            old(self).wf(),
            old(map).wf(),
            0 <= xy.0 < old(map).width,
            0 <= xy.1 < old(map).height,
        ensures
            final(self).wf(),
            final(map).wf(),
            final(map).width == old(map).width,
            final(map).height == old(map).height,
            final(map).source@.len() == old(map).source@.len(),
            final(map).colors@.len() == old(map).colors@.len(),
            // Only the struck cell's tile and color can change.
            forall|i: int|
                0 <= i < old(map).source@.len() && i != spec_xy_idx(
                    xy.0 as int,
                    xy.1 as int,
                    old(map).width as int,
                ) ==> final(map).source@[i] == old(map).source@[i] && final(map).colors@[i] == old(
                    map,
                ).colors@[i],
            // The full melee/door case analysis at the struck cell.
            spec_fight_outcome(
                *old(self),
                old(map).entities@,
                old(map).spec_tile_at(xy.0 as int, xy.1 as int),
                old(map).spec_color_at(xy.0 as int, xy.1 as int),
                (xy.0 as int, xy.1 as int),
                *final(self),
                final(map).entities@,
                final(map).spec_tile_at(xy.0 as int, xy.1 as int),
                final(map).spec_color_at(xy.0 as int, xy.1 as int),
                e,
            ),
    {
        let ghost w = old(map).width as int;
        let ghost h = old(map).height as int;
        let mut i: usize = 0;
        let n = map.entities.len();
        while i < n
            invariant
                old(self).wf(),
                old(map).wf(),
                0 <= xy.0 < old(map).width,
                0 <= xy.1 < old(map).height,
                *self == *old(self),
                *map == *old(map),
                n == old(map).entities@.len(),
                i <= n,
                forall|j: int|
                    0 <= j < i ==> !((#[trigger] old(map).entities@[j]).x == xy.0 && old(map).entities@[j].y == xy.1),
            decreases n - i,
        {
            let ent = map.entities[i];
            if ent.x == xy.0 && ent.y == xy.1 {
                let mut e2 = ent;
                let mut critical = false;
                if ent.health > 0 {
                    if rng_range(rng, 1, 101) <= self.kchance {
                        e2.health = sat_sub(ent.health, self.damage * 2);
                        critical = true;
                    } else {
                        e2.health = sat_sub(ent.health, self.damage);
                    }
                }
                map.entities.set(i, e2);
                proof {
                    assert(map.entities@[i as int] == e2);
                    assert(entities_frozen_except_health(old(map).entities@, map.entities@));
                    assert(!no_entity_at(old(map).entities@, xy.0 as int, xy.1 as int));
                }
                if e2.health <= 0 {
                    if self.exp <= EXP_CAP - 5 {
                        self.exp = self.exp + 5;
                    }
                    return Event::PlayerHit {
                        target: ent.entity_type,
                        damage: if critical {
                            self.damage * 2
                        } else {
                            self.damage
                        },
                        critical,
                        killed: true,
                    };
                }
                return Event::PlayerHit {
                    target: ent.entity_type,
                    damage: if critical {
                        self.damage * 2
                    } else {
                        self.damage
                    },
                    critical,
                    killed: false,
                };
            }
            i += 1;
        }
        proof {
            lemma_cell_idx(w, h, xy.0 as int, xy.1 as int);
        }
        let idx = crate::grid::xy_idx(xy.0, xy.1, map.width);
        if matches!(map.source[idx], TileType::Door) {
            if rng_range(rng, 1, 101) <= self.lockpick && crate::tile::rgb_eq(
                map.colors[idx],
                WHITESMOKE,
            ) {
                map.source.set(idx, TileType::Floor);
                return Event::DoorBroken;
            } else {
                map.colors.set(idx, WHITE);
                return Event::Nothing;
            }
        }
        Event::Nothing
    }

    /// Resolve the tile event at the player's own cell after a move:
    /// pick up coins or potions, descend at the exit, spring a bear trap
    /// (the trap converts to its spent state whether or not the wound
    /// roll lands, and a spent trap never triggers again), or loot a
    /// chest. Every consumable branch leaves the tile in a terminal
    /// state, and stepping on a plain floor never re-triggers anything.
    pub fn resolve_tile_event(
        &mut self,
        map: &mut WorldLocation,
        rng: &mut bracket_lib::random::RandomNumberGenerator,
    ) -> (e: Event)
        requires
            old(self).wf(),
            old(map).wf(),
            0 <= old(self).pos.0 < old(map).width,
            0 <= old(self).pos.1 < old(map).height,
            !crate::tile::spec_tile_solid(
                old(map).spec_tile_at(old(self).pos.0 as int, old(self).pos.1 as int),
            ),
        ensures
            final(self).wf(),
            final(map).wf(),
            final(map).width == old(map).width,
            final(map).height == old(map).height,
            final(map).source@.len() == old(map).source@.len(),
            final(map).entities@ == old(map).entities@,
            final(map).colors@ == old(map).colors@,
            // Only the player's own cell can change.
            forall|i: int|
                0 <= i < old(map).source@.len() && i != spec_xy_idx(
                    old(self).pos.0 as int,
                    old(self).pos.1 as int,
                    old(map).width as int,
                ) ==> final(map).source@[i] == old(map).source@[i],
            // The full case analysis over the tile underfoot.
            spec_tile_event_outcome(
                *old(self),
                old(map).spec_tile_at(old(self).pos.0 as int, old(self).pos.1 as int),
                old(map).spec_color_at(old(self).pos.0 as int, old(self).pos.1 as int),
                *final(self),
                final(map).spec_tile_at(old(self).pos.0 as int, old(self).pos.1 as int),
                e,
            ),
    {
        let ghost w = old(map).width as int;
        let ghost h = old(map).height as int;
        let px = self.pos.0;
        let py = self.pos.1;
        proof {
            lemma_cell_idx(w, h, px as int, py as int);
        }
        let idx = crate::grid::xy_idx(px, py, map.width);
        let tile = map.source[idx];
        match tile {
            TileType::Coin => {
                let c = rng_range(rng, 1, 4);
                // The purse saturates at its cap by skipping the gain;
                // unreachable in play, it only guards the arithmetic.
                if self.coins + c <= 1_000_000_000 {
                    self.coins = self.coins + c;
                }
                map.source.set(idx, TileType::Floor);
                Event::CoinsFound { count: c }
            },
            TileType::Potion => {
                let color = map.colors[idx];
                map.source.set(idx, TileType::Floor);
                if crate::tile::rgb_eq(color, HOT_PINK) {
                    let gain = self.max_health / 50 + 1;
                    if self.max_health + gain <= HEALTH_CAP {
                        self.max_health = self.max_health + gain;
                        Event::MaxHealthBoost { gain }
                    } else {
                        Event::MaxHealthBoost { gain: 0 }
                    }
                } else {
                    if self.weight + SMALL_POTION_WEIGHT <= self.max_weight
                        && self.inventory.len() + 1 <= INVENTORY_CAP {
                        self.weight = self.weight + SMALL_POTION_WEIGHT;
                        self.inventory.push(ItemType::Potion(Size::Small, color));
                        Event::PotionTaken { color }
                    } else {
                        Event::CannotCarry { weight: self.weight }
                    }
                }
            },
            TileType::Exit => {
                map.source.set(idx, TileType::Floor);
                Event::Descend
            },
            TileType::BearTrap => {
                map.source.set(idx, TileType::BearTrapActived);
                if rng_range(rng, 1, 101) <= 50 - self.agility * 2 + self.weight / 20 {
                    let dmg = self.max_health / 4;
                    self.health = sat_sub(self.health, dmg);
                    if self.blood + 5 <= 1_000_000_000 {
                        self.blood = self.blood + 5;
                    }
                    Event::TrapSprung { damage: dmg }
                } else {
                    Event::TrapResisted
                }
            },
            TileType::Chest => {
                let mut dmg: i32 = 1;
                let material = if rng_range(rng, 1, 11) <= 8 {
                    Material::Bronze
                } else {
                    dmg = dmg * 2;
                    Material::Silver
                };
                let roll_weapon = rng_range(rng, 1, 11);
                let weapon_type = if roll_weapon <= 5 {
                    dmg = dmg * 3;
                    WeaponType::Sword
                } else if roll_weapon <= 7 {
                    dmg = dmg * 4;
                    WeaponType::Axe
                } else {
                    WeaponType::Dagger
                };
                let roll_size = rng_range(rng, 1, 11);
                let size = if roll_size <= 6 {
                    Size::Small
                } else if roll_size <= 8 {
                    Size::Average
                } else {
                    Size::Large
                };
                let extra = Self::weight_by_weapon(weapon_type, material) + Self::weight_by_size(
                    size,
                );
                if self.weight + extra <= self.max_weight && self.inventory.len() + 2
                    <= INVENTORY_CAP {
                    self.inventory.push(ItemType::Weapon(weapon_type, material, dmg));
                    self.inventory.push(ItemType::Potion(size, ORANGE_RED));
                    self.weight = self.weight + extra;
                    map.source.set(idx, TileType::Floor);
                    Event::ChestLooted { weapon: weapon_type, material, size }
                } else {
                    Event::ChestTooHeavy { max_weight: self.max_weight }
                }
            },
            _ => Event::Nothing,
        }
    }

    /// Resolve one intended step. A bleeding player first takes the
    /// wound tick and stains the floor. Then: a walkable target cell
    /// means a move followed by the tile event there; a blocked cell
    /// means combat or a door attempt; a cell off the grid means nothing
    /// at all. The player's own cell always stays walkable.
    pub fn try_move(
        &mut self,
        map: &mut WorldLocation,
        rng: &mut bracket_lib::random::RandomNumberGenerator,
        delta_x: i32,
        delta_y: i32,
    ) -> (e: Event)
        requires
            old(self).wf(),
            old(map).wf(),
            0 <= old(self).pos.0 < old(map).width,
            0 <= old(self).pos.1 < old(map).height,
            -1 <= delta_x <= 1,
            -1 <= delta_y <= 1,
            !crate::tile::spec_tile_solid(
                old(map).spec_tile_at(old(self).pos.0 as int, old(self).pos.1 as int),
            ),
        ensures
            final(self).wf(),
            final(map).wf(),
            spec_step_outcome(
                *old(self),
                *old(map),
                delta_x as int,
                delta_y as int,
                *final(self),
                *final(map),
                e,
            ),
            0 <= final(self).pos.0 < final(map).width,
            0 <= final(self).pos.1 < final(map).height,
            !crate::tile::spec_tile_solid(
                final(map).spec_tile_at(final(self).pos.0 as int, final(self).pos.1 as int),
            ),
    {
        let ghost w = old(map).width as int;
        let ghost h = old(map).height as int;
        let ghost opx = old(self).pos.0 as int;
        let ghost opy = old(self).pos.1 as int;
        let ghost oidx = spec_xy_idx(opx, opy, w);
        if self.blood > 0 {
            self.health = sat_sub(self.health, 1 + self.max_health / 50);
            proof {
                lemma_cell_idx(w, h, self.pos.0 as int, self.pos.1 as int);
            }
            let pidx = crate::grid::xy_idx(self.pos.0, self.pos.1, map.width);
            if matches!(map.source[pidx], TileType::Floor) {
                map.source.set(pidx, TileType::BloodStain);
                map.colors.set(pidx, RED);
            }
            self.blood = self.blood - 1;
        }
        let ghost stained = old(self).blood > 0 && old(map).source@[oidx] == TileType::Floor;
        proof {
            lemma_cell_idx(w, h, opx, opy);
            // The bleed tick leaves exactly the intermediate state the
            // step outcome is phrased over.
            assert(*self == spec_bled_player(*old(self)));
            assert(map.source@ == if stained {
                old(map).source@.update(oidx, TileType::BloodStain)
            } else {
                old(map).source@
            });
            assert(map.colors@ == if stained {
                old(map).colors@.update(oidx, RED)
            } else {
                old(map).colors@
            });
            // The stain turns a floor cell into a blood stain; both are
            // walkable and sight-through, so no cell's solidity moved.
            assert forall|x: int, y: int| 0 <= x < map.width && 0 <= y < map.height implies
                map.spec_solid_at(x, y) == old(map).spec_solid_at(x, y) && (map.spec_tile_at(x, y)
                == old(map).spec_tile_at(x, y) || (old(map).spec_tile_at(x, y) == TileType::Floor
                && map.spec_tile_at(x, y) == TileType::BloodStain)) by {
                lemma_cell_idx(w, h, x, y);
                crate::location::lemma_entity_blocks_same(*map, *old(map), x, y);
                if spec_xy_idx(x, y, w) != oidx {
                    assert(map.source@[spec_xy_idx(x, y, w)] == old(map).source@[spec_xy_idx(
                        x,
                        y,
                        w,
                    )]);
                }
            }
            assert(!crate::tile::spec_tile_solid(map.spec_tile_at(opx, opy)));
        }
        let ghost mid = *map;
        let ghost pb = *self;
        let tx = self.pos.0 + delta_x;
        let ty = self.pos.1 + delta_y;
        if tx >= 0 && tx < map.width && ty >= 0 && ty < map.height {
            proof {
                lemma_cell_idx(w, h, tx as int, ty as int);
            }
            if !map.is_solid((tx, ty)) {
                self.pos = (tx, ty);
                proof {
                    assert(*self == (Player { pos: (tx, ty), ..pb }));
                    assert(mid.spec_tile_at(tx as int, ty as int) == mid.source@[spec_xy_idx(
                        tx as int,
                        ty as int,
                        w,
                    )]);
                }
                let ev = self.resolve_tile_event(map, rng);
                proof {
                    assert forall|i: int|
                        0 <= i < old(map).source@.len() && i != spec_xy_idx(
                            tx as int,
                            ty as int,
                            w,
                        ) implies map.source@[i] == mid.source@[i] by {}
                }
                return ev;
            } else {
                let ev = self.fight((tx, ty), map, rng);
                proof {
                    // The fight can only alter the struck cell, and a
                    // cell it shares with the player was not a door; the
                    // player's own tile therefore stays walkable.
                    if spec_xy_idx(opx, opy, w) == spec_xy_idx(tx as int, ty as int, w) {
                        crate::grid::lemma_xy_idx_injective(opx, opy, tx as int, ty as int, w, h);
                        assert(mid.spec_tile_at(tx as int, ty as int) != TileType::Door);
                    } else {
                        assert(map.source@[spec_xy_idx(opx, opy, w)] == mid.source@[spec_xy_idx(
                            opx,
                            opy,
                            w,
                        )]);
                    }
                }
                return ev;
            }
        }
        Event::Nothing
    }

    /// Horizontal component of an intended step.
    pub open spec fn spec_dir_dx(dir: Direction) -> int {
        match dir {
            Direction::Left => -1,
            Direction::Right => 1,
            _ => 0,
        }
    }

    /// Vertical component of an intended step.
    pub open spec fn spec_dir_dy(dir: Direction) -> int {
        match dir {
            Direction::Up => -1,
            Direction::Down => 1,
            _ => 0,
        }
    }

    /// Resolve one tick of input: the intended direction becomes a step
    /// attempt; `Stay` re-triggers the tile event underfoot.
    pub fn action(
        &mut self,
        dir: Direction,
        map: &mut WorldLocation,
        rng: &mut bracket_lib::random::RandomNumberGenerator,
    ) -> (e: Event)
        requires
            old(self).wf(),
            old(map).wf(),
            0 <= old(self).pos.0 < old(map).width,
            0 <= old(self).pos.1 < old(map).height,
            !crate::tile::spec_tile_solid(
                old(map).spec_tile_at(old(self).pos.0 as int, old(self).pos.1 as int),
            ),
        ensures
            final(self).wf(),
            final(map).wf(),
            spec_step_outcome(
                *old(self),
                *old(map),
                Self::spec_dir_dx(dir),
                Self::spec_dir_dy(dir),
                *final(self),
                *final(map),
                e,
            ),
            0 <= final(self).pos.0 < final(map).width,
            0 <= final(self).pos.1 < final(map).height,
            !crate::tile::spec_tile_solid(
                final(map).spec_tile_at(final(self).pos.0 as int, final(self).pos.1 as int),
            ),
    {
        match dir {
            Direction::Left => self.try_move(map, rng, -1, 0),
            Direction::Right => self.try_move(map, rng, 1, 0),
            Direction::Up => self.try_move(map, rng, 0, -1),
            Direction::Down => self.try_move(map, rng, 0, 1),
            Direction::Stay => self.try_move(map, rng, 0, 0),
        }
    }

    /// Use the inventory item at `i`: drink a red potion (healing a
    /// size-dependent share of max health, capped there), equip a weapon
    /// (swapping any previous one back into the pack), or discard a
    /// potion of an unknown color. An index off the pack does nothing.
    pub fn use_inventory(&mut self, i: i32) -> (e: Event)
        requires
            old(self).wf(),
        ensures
            final(self).wf(),
            final(self).pos == old(self).pos,
            final(self).exp == old(self).exp,
            final(self).max_health == old(self).max_health,
            (i < 0 || i >= old(self).inventory@.len()) ==> *final(self) == *old(self) && e
                == Event::Nothing,
            (0 <= i < old(self).inventory@.len()) ==> match old(self).inventory@[i as int] {
                ItemType::Potion(size, color) => {
                    if color == ORANGE_RED {
                        &&& (e matches Event::PotionDrunk { size: s2, heal } && s2 == size && heal
                            == old(self).max_health as int / Self::spec_heal_divisor(size))
                        &&& final(self).health == (if old(self).health + old(self).max_health as int
                            / Self::spec_heal_divisor(size) >= old(self).max_health {
                            old(self).max_health as int
                        } else {
                            old(self).health + old(self).max_health as int / Self::spec_heal_divisor(size)
                        })
                        &&& final(self).weight == (if old(self).weight - Self::spec_weight_by_size(
                            size,
                        ) >= i32::MIN {
                            old(self).weight - Self::spec_weight_by_size(size)
                        } else {
                            i32::MIN as int
                        })
                        &&& final(self).inventory@ == old(self).inventory@.remove(i as int)
                        &&& final(self).damage == old(self).damage
                        &&& final(self).weapon == old(self).weapon
                    } else {
                        &&& e == Event::Nothing
                        &&& final(self).inventory@ == old(self).inventory@.remove(i as int)
                        &&& final(self).health == old(self).health
                        &&& final(self).weight == old(self).weight
                        &&& final(self).damage == old(self).damage
                        &&& final(self).weapon == old(self).weapon
                    }
                },
                ItemType::Weapon(wt, mat, dam) => {
                    &&& final(self).weapon == Some(ItemType::Weapon(wt, mat, dam))
                    &&& final(self).damage == old(self).damage - old(self).spec_weapon_damage()
                        + dam
                    &&& final(self).health == old(self).health
                    &&& (match old(self).weapon {
                        Some(ItemType::Weapon(owt, omat, od)) => e == (Event::Equipped {
                            weapon: wt,
                            material: mat,
                            damage_delta: ((dam - od) as i32),
                            previous: Some((owt, omat)),
                        }) && final(self).inventory@ == old(self).inventory@.push(
                            ItemType::Weapon(owt, omat, od),
                        ).remove(i as int),
                        _ => e == (Event::Equipped {
                            weapon: wt,
                            material: mat,
                            damage_delta: dam,
                            previous: None,
                        }) && final(self).inventory@ == old(self).inventory@.remove(i as int),
                    })
                },
            },
    {
        if i < 0 || i >= self.inventory.len() as i32 {
            return Event::Nothing;
        }
        let idx = i as usize;
        let item = self.inventory[idx];
        match item {
            ItemType::Potion(size, color) => {
                self.inventory.remove(idx);
                if crate::tile::rgb_eq(color, ORANGE_RED) {
                    let k = Self::heal_divisor(size);
                    let heal = self.max_health / k;
                    if self.health + heal >= self.max_health {
                        self.health = self.max_health;
                    } else {
                        self.health = self.health + heal;
                    }
                    // The potion's weight comes off unconditionally, as
                    // the original bookkeeping does; the subtraction can
                    // only floor at the numeric minimum itself.
                    let wbs = Self::weight_by_size(size);
                    self.weight = sat_sub(self.weight, wbs);
                    Event::PotionDrunk { size, heal }
                } else {
                    Event::Nothing
                }
            },
            ItemType::Weapon(wt, mat, dam) => {
                proof {
                    assert(item_wf(old(self).inventory@[i as int]));
                }
                match self.weapon {
                    Some(ItemType::Weapon(owt, omat, od)) => {
                        self.damage = self.damage - od + dam;
                        self.inventory.push(ItemType::Weapon(owt, omat, od));
                        self.weapon = Some(ItemType::Weapon(wt, mat, dam));
                        self.inventory.remove(idx);
                        Event::Equipped {
                            weapon: wt,
                            material: mat,
                            damage_delta: dam - od,
                            previous: Some((owt, omat)),
                        }
                    },
                    _ => {
                        self.damage = self.damage + dam;
                        self.weapon = Some(ItemType::Weapon(wt, mat, dam));
                        self.inventory.remove(idx);
                        Event::Equipped { weapon: wt, material: mat, damage_delta: dam, previous: None }
                    },
                }
            },
        }
    }

    /// Healing divisor of a potion size: a small potion restores a tenth
    /// of max health, an average one a quarter, a large one half.
    pub open spec fn spec_heal_divisor(size: Size) -> int {
        match size {
            Size::Small => 10,
            Size::Average => 4,
            Size::Large => 2,
        }
    }

    /// Healing divisor of a potion size.
    pub fn heal_divisor(size: Size) -> (k: i32)
        ensures
            k == Self::spec_heal_divisor(size),
    {
        match size {
            Size::Small => 10,
            Size::Average => 4,
            Size::Large => 2,
        }
    }
}

} // verus!
