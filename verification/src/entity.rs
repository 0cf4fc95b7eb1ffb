//! Creatures: their stat tables and the per-tick behaviour state machine.
//!
//! A creature is never removed from its floor's list: one whose health has
//! dropped to zero or below stays as a tombstone that still renders and can
//! be inspected, but never moves or attacks again.

use vstd::prelude::*;
use vstd::string::StringExecFns;

use crate::events::Event;
use crate::location::WorldLocation;
use crate::path::{spec_is_path, spec_is_shortest_path};
use crate::player::{sat_sub, Player};
use crate::rng::rng_range;

verus! {

/// The creature vocabulary of the dungeon.
#[derive(PartialEq, Eq, Structural, Copy, Clone, Debug)]
pub enum EntityType {
    Zombie,
    Skeleton,
    Orc,
    Cyclops,
    Goblin,
}

/// One creature: position, combat stats, and the rest-after-attack gate.
///
/// `hits` is the rest counter: it is `0` when the creature may act, is set
/// to `1` by an attack, and then advances once per tick until it has
/// reached `hits_max` and wrapped back to `0`.
#[derive(Copy, Clone, Debug)]
pub struct Entity {
    pub x: i32,
    pub y: i32,
    pub health: i32,
    pub damage: i32,
    pub entity_type: EntityType,
    pub hits: u8,
    pub hits_max: u8,
}

/// Base damage for each creature kind.
pub open spec fn spec_base_damage(t: EntityType) -> int {
    match t {
        EntityType::Skeleton => 1,
        EntityType::Zombie => 1,
        EntityType::Orc => 3,
        EntityType::Cyclops => 4,
        EntityType::Goblin => 2,
    }
}

/// Length of the rest window for each creature kind.
pub open spec fn spec_hits_max(t: EntityType) -> int {
    match t {
        EntityType::Skeleton => 3,
        EntityType::Zombie => 5,
        EntityType::Orc => 1,
        EntityType::Cyclops => 1,
        EntityType::Goblin => 2,
    }
}

/// Base health for each creature kind, before the depth scaling.
pub open spec fn spec_base_health(t: EntityType) -> int {
    match t {
        EntityType::Skeleton => 12,
        EntityType::Zombie => 15,
        EntityType::Orc => 20,
        EntityType::Cyclops => 25,
        EntityType::Goblin => 15,
    }
}

impl Entity {
    /// The creature stands inside the given grid.
    pub open spec fn in_bounds(self, width: int, height: int) -> bool {
        0 <= self.x < width && 0 <= self.y < height
    }

    /// The rest counter never runs past its bound, and the base damage
    /// stays in the stat table's band.
    pub open spec fn wf(self) -> bool {
        self.hits <= self.hits_max && 1 <= self.hits_max <= 100 && 1 <= self.damage <= 4
    }

    /// A fresh creature of the given kind at `(x, y)`; health scales up
    /// with the player's experience so that deeper floors stay dangerous.
    pub fn new(x: i32, y: i32, t: EntityType, exp: i32) -> (e: Entity)
        requires
            0 <= exp <= 1_000_000,
        ensures
            e.x == x,
            e.y == y,
            e.entity_type == t,
            e.damage == spec_base_damage(t),
            e.hits == 0,
            e.hits_max == spec_hits_max(t),
            e.health == spec_base_health(t) * (1 + exp / 100),
            0 < e.health,
            e.wf(),
    {
        let (damage, max_hits, health): (i32, u8, i32) = match t {
            EntityType::Skeleton => (1, 3, 12),
            EntityType::Zombie => (1, 5, 15),
            EntityType::Orc => (3, 1, 20),
            EntityType::Cyclops => (4, 1, 25),
            EntityType::Goblin => (2, 2, 15),
        };
        proof {
            assert(health * (1 + exp / 100) >= 12) by (nonlinear_arith)
                requires 12 <= health <= 25 && 1 <= 1 + exp / 100;
        }
        let health = health * (1 + exp / 100);
        Entity { x, y, entity_type: t, damage, hits: 0, hits_max: max_hits, health }
    }

    /// The display name of the creature's kind.
    pub open spec fn spec_name(self) -> Seq<char> {
        match self.entity_type {
            EntityType::Zombie => "Zombie"@,
            EntityType::Skeleton => "Skeleton"@,
            EntityType::Orc => "Orc"@,
            EntityType::Cyclops => "Cyclops"@,
            EntityType::Goblin => "Goblin"@,
        }
    }

    /// Name of the creature, as shown in event messages.
    pub fn name(&self) -> (s: String)
        ensures
            s@ == self.spec_name(),
    {
        match self.entity_type {
            EntityType::Zombie => String::from_str("Zombie"),
            EntityType::Skeleton => String::from_str("Skeleton"),
            EntityType::Orc => String::from_str("Orc"),
            EntityType::Cyclops => String::from_str("Cyclops"),
            EntityType::Goblin => String::from_str("Goblin"),
        }
    }
}

/// Damage of one creature blow before any critical doubling: the base
/// damage, scaled by the luck factor of the roll and the player's
/// experience tier.
pub open spec fn spec_attack_damage(base: int, luck_factor: int, exp: int) -> int {
    (base * luck_factor) * (1 + exp / 50)
}

/// The rest counter's advance while the creature is in its rest window.
pub open spec fn spec_rest_step(hits: int, hits_max: int) -> int {
    if hits >= hits_max {
        0
    } else {
        hits + 1
    }
}

/// The rest counter after `t` consecutive rest ticks from `h`.
pub open spec fn spec_rest_after(h: int, hits_max: int, t: nat) -> int
    decreases t,
{
    if t == 0 {
        h
    } else {
        spec_rest_step(spec_rest_after(h, hits_max, (t - 1) as nat), hits_max)
    }
}

/// Rest-gate correctness: a creature that has just attacked (its counter
/// at one) cannot act again until the counter has climbed to `hits_max`
/// and wrapped back to zero — for `hits_max == n` that takes exactly `n`
/// further non-acting ticks, with the counter positive through every one
/// of them and zero immediately after.
pub proof fn lemma_rest_gate(hits_max: int, t: int)
    requires
        1 <= hits_max,
        0 <= t,
    ensures
        t < hits_max ==> spec_rest_after(1, hits_max, t as nat) == t + 1,
        t < hits_max ==> spec_rest_after(1, hits_max, t as nat) > 0,
        t == hits_max ==> spec_rest_after(1, hits_max, t as nat) == 0,
    decreases t,
{
    if t > 0 {
        lemma_rest_gate(hits_max, t - 1);
    }
}

/// Two cells are in melee range of each other: the same cell or an
/// orthogonal neighbour (a unit of straight-line distance).
pub open spec fn spec_melee_range(a: (int, int), b: (int, int)) -> bool {
    (a.0 == b.0 && (a.1 == b.1 || a.1 == b.1 + 1 || a.1 == b.1 - 1)) || (a.1 == b.1 && (a.0 == b.0
        + 1 || a.0 == b.0 - 1))
}

/// Everything one creature tick guarantees, as a relation between the
/// floor and player before (`m0`, `p0`) and after (`m1`, `p1`) creature
/// `k` acts, with its reported event; `update_entity` ensures exactly
/// this, and the whole-pass contract of `tick_entities` chains it.
pub open spec fn spec_entity_tick(
    m0: WorldLocation,
    p0: Player,
    k: int,
    m1: WorldLocation,
    p1: Player,
    ev: Event,
) -> bool {
    &&& m1.wf()
    &&& p1.wf()
    &&& (m1.width == m0.width)
    &&& (m1.height == m0.height)
    &&& (m1.source@ == m0.source@)
    &&& (m1.colors@ == m0.colors@)
    &&& (m1.entities@.len() == m0.entities@.len())
    &&& (forall|j: int|
                0 <= j < m0.entities@.len() && j != k ==> m1.entities@[j] == m0.entities@[j])
    &&& (m1.entities@[k].entity_type == m0.entities@[k].entity_type)
    &&& (m1.entities@[k].hits_max == m0.entities@[k].hits_max)
    &&& (m1.entities@[k].damage == m0.entities@[k].damage)
    &&& (m1.entities@[k].health == m0.entities@[k].health)
    &&& (p1.pos == p0.pos)
    &&& (p1.exp == p0.exp)
    &&& (// A tombstone does nothing.
            m0.entities@[k].health <= 0 ==> m1.entities@[k] == m0.entities@[k] && p1 == p0 && ev == Event::Nothing)
    &&& (// In the rest window the counter advances and nothing else
            // happens: no step, no attack.
            (m0.entities@[k].health > 0 && m0.entities@[k].hits > 0)
                ==> p1 == p0 && ev == Event::Nothing && m1.entities@[k].x == m0.entities@[k].x && m1.entities@[k].y == m0.entities@[k].y && m1.entities@[k].hits == spec_rest_step(
                m0.entities@[k].hits as int,
                m0.entities@[k].hits_max as int,
            ))
    &&& (// A ready creature steps only along a valid route cell that
            // is not the player's, then attacks exactly when in range.
            (m0.entities@[k].health > 0 && m0.entities@[k].hits == 0)
                ==> ((m1.entities@[k].x == m0.entities@[k].x && m1.entities@[k].y == m0.entities@[k].y) || (crate::path::spec_step_ok(
                m0,
                (m0.entities@[k].x as int, m0.entities@[k].y as int),
                (m1.entities@[k].x as int, m1.entities@[k].y as int),
            ) && (m1.entities@[k].x, m1.entities@[k].y) != p0.pos)) && (if spec_melee_range(
                (m1.entities@[k].x as int, m1.entities@[k].y as int),
                (p0.pos.0 as int, p0.pos.1 as int),
            ) {
                m1.entities@[k].hits == 1 && ((ev matches Event::EnemyHit {
                    attacker,
                    damage,
                    critical,
                } && attacker == m0.entities@[k].entity_type && damage >= 1 && (
                exists|lf: int|
                    1 <= lf <= 3 && (p0.exp < 100 ==> lf == 1) && damage as int == (if critical {
                        2int
                    } else {
                        1int
                    }) * #[trigger] spec_attack_damage(
                        m0.entities@[k].damage as int,
                        lf,
                        p0.exp as int,
                    )) && (p1.health == if p0.health - damage
                    >= i32::MIN {
                    p0.health - damage
                } else {
                    i32::MIN as int
                }) && p1 == (Player { health: p1.health, ..p0 }))
                    || (ev == (Event::Evaded {
                    attacker: m0.entities@[k].entity_type,
                }) && p1 == p0 && p0.weight <= p0.max_weight / 2 && p0.luck * p0.agility * 4 - 5
                    > 1) || (ev == Event::Nothing && p1 == p0 && p0.luck * p0.agility * 4 - 5 > 1))
            } else {
                m1.entities@[k].hits == 0 && ev == Event::Nothing && p1
                    == p0
            }))
    &&& (// The chase is compelled: a ready creature whose player is
            // reachable, with every walkable route at least three cells
            // long (it is neither on nor next to the player along any
            // route), steps onto the second cell of a shortest route.
            (m0.entities@[k].health > 0 && m0.entities@[k].hits == 0
                && (exists|p: Seq<(int, int)>|
                spec_is_path(
                    m0,
                    p,
                    (m0.entities@[k].x as int, m0.entities@[k].y as int),
                    (p0.pos.0 as int, p0.pos.1 as int),
                )) && (forall|q: Seq<(int, int)>|
                spec_is_path(
                    m0,
                    q,
                    (m0.entities@[k].x as int, m0.entities@[k].y as int),
                    (p0.pos.0 as int, p0.pos.1 as int),
                ) ==> q.len() >= 3)) ==> exists|p: Seq<(int, int)>|
                spec_is_shortest_path(
                    m0,
                    p,
                    (m0.entities@[k].x as int, m0.entities@[k].y as int),
                    (p0.pos.0 as int, p0.pos.1 as int),
                ) && p.len() >= 3 && (
                m1.entities@[k].x as int,
                m1.entities@[k].y as int,
            ) == p[1])
    &&& (// Standing right next to the player along a walkable route, a
            // ready creature holds its ground rather than sidestep.
            (m0.entities@[k].health > 0 && m0.entities@[k].hits == 0
                && (m0.entities@[k].x as int, m0.entities@[k].y as int) != (
            p0.pos.0 as int,
            p0.pos.1 as int,
            ) && (exists|q: Seq<(int, int)>|
                spec_is_path(
                    m0,
                    q,
                    (m0.entities@[k].x as int, m0.entities@[k].y as int),
                    (p0.pos.0 as int, p0.pos.1 as int),
                ) && q.len() == 2)) ==> m1.entities@[k].x == m0.entities@[k].x
                && m1.entities@[k].y == m0.entities@[k].y)
}

impl WorldLocation {
    /// One tick of behaviour for the creature at index `k`.
    ///
    /// A dead creature does nothing at all (a tombstone). A creature in
    /// its rest window only advances the counter: no move, no attack. A
    /// ready creature (`hits == 0`) takes one step along a shortest route
    /// toward the player unless that step is blocked or is the player's
    /// own cell; if it then stands in melee range it attacks — a hit or
    /// critical hit wounds the player, a lightly loaded player may evade
    /// — and the attack restarts the rest window (`hits` becomes 1).
    pub fn update_entity(
        &mut self,
        k: usize,
        player: &mut Player,
        rng: &mut bracket_lib::random::RandomNumberGenerator,
    ) -> (ev: Event)
        requires
            old(self).wf(),
            k < old(self).entities@.len(),
            old(player).wf(),
            0 <= old(player).pos.0 < old(self).width,
            0 <= old(player).pos.1 < old(self).height,
        ensures
            spec_entity_tick(*old(self), *old(player), k as int, *final(self), *final(player), ev),
    {
        let e0 = self.entities[k];
        if e0.health <= 0 {
            return Event::Nothing;
        }
        if e0.hits > 0 {
            let mut e1 = e0;
            e1.hits = if e0.hits >= e0.hits_max {
                0
            } else {
                e0.hits + 1
            };
            self.entities.set(k, e1);
            return Event::Nothing;
        }
        // Ready: walk one step of a shortest route toward the player.
        let mut e1 = e0;
        let ghost epos: (int, int) = (e0.x as int, e0.y as int);
        let ghost ppos: (int, int) = (player.pos.0 as int, player.pos.1 as int);
        proof {
            assert(old(self).entities@[k as int].in_bounds(
                old(self).width as int,
                old(self).height as int,
            ));
        }
        match crate::path::find_path(self, (e0.x, e0.y), player.pos) {
            Some(p) => {
                if p.len() > 1 {
                    let step = p[1];
                    proof {
                        let pv = crate::path::path_view(p@);
                        assert(crate::path::spec_step_ok(*self, pv[0], pv[1]));
                        assert(pv[0] == epos);
                        assert(pv[1] == (step.0 as int, step.1 as int));
                    }
                    if !self.is_solid((step.0, step.1)) && !(step.0 == player.pos.0 && step.1
                        == player.pos.1) {
                        e1.x = step.0;
                        e1.y = step.1;
                    }
                    proof {
                        // Under a three-cell route minimum the second
                        // route cell is not the player's (the first two
                        // cells alone would be a two-cell route), so the
                        // step above was taken.
                        if forall|q: Seq<(int, int)>|
                            spec_is_path(*old(self), q, epos, ppos) ==> q.len() >= 3 {
                            let pv = crate::path::path_view(p@);
                            assert(spec_is_path(*old(self), pv, epos, ppos));
                            assert(pv.len() >= 3);
                            if pv[1] == ppos {
                                let two = seq![pv[0], pv[1]];
                                assert(two.len() == 2 && two[0] == epos && two[1] == ppos);
                                assert(crate::path::spec_step_ok(*old(self), two[0], two[1]));
                                assert(spec_is_path(*old(self), two, epos, ppos));
                                assert(false);
                            }
                            assert(!old(self).spec_solid_at(pv[1].0, pv[1].1));
                            assert((e1.x as int, e1.y as int) == pv[1]);
                            assert(spec_is_shortest_path(*old(self), pv, epos, ppos));
                            assert(exists|q: Seq<(int, int)>|
                                spec_is_shortest_path(*old(self), q, epos, ppos) && q.len() >= 3
                                    && (e1.x as int, e1.y as int) == q[1]);
                        }
                    }
                } else {
                    proof {
                        // A route of fewer than three cells exists.
                        let pv = crate::path::path_view(p@);
                        assert(spec_is_path(*old(self), pv, epos, ppos) && pv.len() < 3);
                        assert(exists|q: Seq<(int, int)>|
                            spec_is_path(*old(self), q, epos, ppos) && q.len() < 3);
                    }
                }
            },
            None => {
                proof {
                    assert(forall|q: Seq<(int, int)>| !spec_is_path(*old(self), q, epos, ppos));
                }
            },
        }
        // In melee range the creature attacks; the rest window restarts.
        let dx = player.pos.0 - e1.x;
        let dy = player.pos.1 - e1.y;
        let melee = (dx == 0 && (dy == 0 || dy == 1 || dy == -1)) || (dy == 0 && (dx == 1 || dx
            == -1));
        let mut ev = Event::Nothing;
        if melee {
            e1.hits = 1;
            let luck_factor = if player.exp >= 100 {
                rng_range(rng, 1, 4)
            } else {
                1
            };
            proof {
                assert(1 <= e0.damage <= 4);
                assert(e0.damage * luck_factor <= 12 && 1 <= e0.damage * luck_factor)
                    by (nonlinear_arith)
                    requires 1 <= e0.damage <= 4 && 1 <= luck_factor <= 3;
                assert((e0.damage * luck_factor) * (1 + player.exp / 50) <= 12 * 20_001 && 1 <= (
                e0.damage * luck_factor) * (1 + player.exp / 50)) by (nonlinear_arith)
                    requires 1 <= e0.damage * luck_factor <= 12 && 1 <= 1 + player.exp / 50
                        <= 20_001;
            }
            let dmg = e0.damage * luck_factor * (1 + player.exp / 50);
            proof {
                assert(0 <= player.luck * player.agility <= 25) by (nonlinear_arith)
                    requires 0 <= player.luck <= 5 && 0 <= player.agility <= 5;
            }
            if rng_range(rng, 1, 101) >= player.luck * player.agility * 4 - 5 {
                proof {
                    assert(dmg == spec_attack_damage(
                        e0.damage as int,
                        luck_factor as int,
                        player.exp as int,
                    ));
                }
                if rng_range(rng, 0, 11) <= 2 {
                    player.health = sat_sub(player.health, dmg * 2);
                    ev = Event::EnemyHit {
                        attacker: e0.entity_type,
                        damage: dmg * 2,
                        critical: true,
                    };
                } else {
                    player.health = sat_sub(player.health, dmg);
                    ev = Event::EnemyHit { attacker: e0.entity_type, damage: dmg, critical: false };
                }
            } else if player.weight <= player.max_weight / 2 {
                ev = Event::Evaded { attacker: e0.entity_type };
            }
        }
        self.entities.set(k, e1);
        ev
    }

    /// One full creature pass: every living creature inside the player's
    /// short-range visibility acts once, in list order; the events worth
    /// reporting come back in that order.
    /// One full creature pass: every creature inside the player's
    /// short-range visibility acts once, in list order, against the live
    /// floor; a skipped (unseen) creature changes nothing. The result
    /// holds one event per creature, in that order — `Nothing` for the
    /// skipped and the silent — so the log keeps the deterministic
    /// tie-break order.
    pub fn tick_entities(
        &mut self,
        player: &mut Player,
        rng: &mut bracket_lib::random::RandomNumberGenerator,
    ) -> (evs: Vec<Event>)
        requires
            old(self).wf(),
            old(player).wf(),
            0 <= old(player).pos.0 < old(self).width,
            0 <= old(player).pos.1 < old(self).height,
        ensures
            final(self).wf(),
            final(player).wf(),
            final(self).width == old(self).width,
            final(self).height == old(self).height,
            final(self).source@ == old(self).source@,
            final(self).colors@ == old(self).colors@,
            final(self).entities@.len() == old(self).entities@.len(),
            final(player).pos == old(player).pos,
            final(player).exp == old(player).exp,
            evs@.len() == old(self).entities@.len(),
            // The pass is the chain of single-creature ticks, in list
            // order: some sequence of intermediate states starts at the
            // entry state, ends at the exit state, and advances at index
            // `j` by the creature-`j` tick when that creature stands in
            // the player's sight, else not at all.
            exists|ms: Seq<WorldLocation>, ps: Seq<Player>|
                #![trigger ms.len(), ps.len()]
                {
                    &&& ms.len() == old(self).entities@.len() + 1
                    &&& ps.len() == old(self).entities@.len() + 1
                    &&& ms[0] == *old(self)
                    &&& ps[0] == *old(player)
                    &&& ms[ms.len() - 1] == *final(self)
                    &&& ps[ps.len() - 1] == *final(player)
                    &&& forall|j: int|
                        0 <= j < old(self).entities@.len() ==> (if Player::spec_point_in(
                            ps[j].visible_tiles@,
                            ms[j].entities@[j].x,
                            ms[j].entities@[j].y,
                        ) {
                            spec_entity_tick(ms[j], ps[j], j, ms[j + 1], ps[j + 1], #[trigger] evs@[j])
                        } else {
                            ms[j + 1] == ms[j] && ps[j + 1] == ps[j] && evs@[j] == Event::Nothing
                        })
                },
    {
        let mut evs: Vec<Event> = Vec::new();
        let mut k: usize = 0;
        let n = self.entities.len();
        let ghost mut ms: Seq<WorldLocation> = seq![*old(self)];
        let ghost mut ps: Seq<Player> = seq![*old(player)];
        while k < n
            invariant
                self.wf(),
                player.wf(),
                n == old(self).entities@.len(),
                k <= n,
                self.width == old(self).width,
                self.height == old(self).height,
                self.source@ == old(self).source@,
                self.colors@ == old(self).colors@,
                self.entities@.len() == old(self).entities@.len(),
                forall|j: int|
                    0 <= j < old(self).entities@.len() ==> (#[trigger] self.entities@[j]).entity_type
                        == old(self).entities@[j].entity_type && self.entities@[j].hits_max == old(self).entities@[j].hits_max && self.entities@[j].health == old(self).entities@[j].health,
                player.pos == old(player).pos,
                player.exp == old(player).exp,
                0 <= player.pos.0 < self.width,
                0 <= player.pos.1 < self.height,
                evs@.len() == k,
                ms.len() == k + 1,
                ps.len() == k + 1,
                ms[0] == *old(self),
                ps[0] == *old(player),
                ms[k as int] == *self,
                ps[k as int] == *player,
                forall|j: int|
                    0 <= j < k ==> (if Player::spec_point_in(
                        ps[j].visible_tiles@,
                        ms[j].entities@[j].x,
                        ms[j].entities@[j].y,
                    ) {
                        spec_entity_tick(ms[j], ps[j], j, ms[j + 1], ps[j + 1], #[trigger] evs@[j])
                    } else {
                        ms[j + 1] == ms[j] && ps[j + 1] == ps[j] && evs@[j] == Event::Nothing
                    }),
            decreases n - k,
        {
            let e = self.entities[k];
            let ev = if player.is_visible((e.x, e.y)) {
                self.update_entity(k, player, rng)
            } else {
                Event::Nothing
            };
            evs.push(ev);
            proof {
                ms = ms.push(*self);
                ps = ps.push(*player);
            }
            k += 1;
        }
        evs
    }
}

} // verus!
