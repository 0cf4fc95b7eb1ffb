//! Procedural floor generation.
//!
//! A floor is built from a seed in one pass: a weighted wall fill and a
//! color wash, room placement with an overlap test, L-shaped corridors
//! between consecutive rooms (each corridor cell may become a door at a
//! choke point or, rarely, a bear trap), loot scattered inside the rooms,
//! creatures at room centers, a post-pass demoting cosmetic doors, and a
//! final connectivity validation: the whole attempt is discarded and
//! retried with a fresh seed unless the shortest walkable route from the
//! start to the exit is longer than the configured minimum.

use vstd::prelude::*;

use crate::entity::{Entity, EntityType};
use crate::grid::{lemma_idx_to_xy, lemma_xy_idx_injective, spec_xy_idx, xy_idx};
use crate::location::{lemma_cell_idx, WorldLocation, MAX_DIM};
use crate::path::{find_path, spec_is_path};
use crate::rng::{rng_range, rng_range_u64, rng_roll_dice, rng_seeded};
use crate::room::Room;
use crate::tile::{
    tile_is_solid, Rgb, TileType, ALICE_BLUE, BRIGHT_GRAY, CYAN, GOLD, GRAY, GREEN3, HOT_PINK,
    LIGHT_BLUE, ORANGE_RED, PINK, ROSY_BROWN, SANDY_BROWN, TOMATO, WHITE, WHITESMOKE, YELLOW3,
    YELLOWGREEN,
};

verus! {

/// Room placement trials per attempt.
pub const MAX_ROOMS: i32 = 100000;

/// Smallest and one-past-largest random room extent.
pub const MIN_SIZE: i32 = 6;

pub const MAX_SIZE: i32 = 15;

/// A route from start to exit must have more cells than this, or the
/// whole floor is regenerated.
pub const MIN_PATH_CELLS: usize = 50;

/// Attempts before generation gives up.
pub const MAX_ATTEMPTS: u32 = 40;

/// Generation could not produce a valid floor.
#[derive(PartialEq, Eq, Structural, Copy, Clone, Debug)]
pub enum GenError {
    /// Every attempt produced a layout whose start and exit were not far
    /// enough apart, or had fewer than two rooms.
    RetriesExhausted,
}

/// Endpoints of a corridor span, in either order.
pub open spec fn span_lo(a: int, b: int) -> int {
    if a <= b {
        a
    } else {
        b
    }
}

pub open spec fn span_hi(a: int, b: int) -> int {
    if a <= b {
        b
    } else {
        a
    }
}

/// Flat index `i` lies in the rectangle `[x1, x2] x [y1, y2]` of a grid
/// of the given width.
pub open spec fn idx_in_rect(i: int, width: int, x1: int, y1: int, x2: int, y2: int) -> bool {
    x1 <= i % width <= x2 && y1 <= i / width <= y2
}

impl WorldLocation {
    /// Carve the interior of a room (all but its first row and column) to
    /// floor; nothing outside the interior changes.
    pub fn apply_room_to_map(
        room: &Room,
        map: &mut Vec<TileType>,
        width: i32,
        height: i32,
    )
        requires
            3 <= width <= MAX_DIM,
            3 <= height <= MAX_DIM,
            old(map)@.len() == width * height,
            room.wf(),
            room.x2 <= width - 2,
            room.y2 <= height - 2,
        ensures
            final(map)@.len() == old(map)@.len(),
            forall|i: int|
                0 <= i < old(map)@.len() && !idx_in_rect(
                    i,
                    width as int,
                    room.x1 + 1,
                    room.y1 + 1,
                    room.x2 as int,
                    room.y2 as int,
                ) ==> final(map)@[i] == old(map)@[i],
            forall|a: int, b: int|
                room.x1 < a <= room.x2 && room.y1 < b <= room.y2 ==> final(map)@[spec_xy_idx(
                    a,
                    b,
                    width as int,
                )] == TileType::Floor,
    {
        let ghost w = width as int;
        let ghost h = height as int;
        let ghost len = map@.len() as int;
        let ghost map0 = map@;
        let mut y = room.y1 + 1;
        while y <= room.y2
            invariant
                3 <= width <= MAX_DIM,
                3 <= height <= MAX_DIM,
                w == width as int,
                h == height as int,
                room.wf(),
                room.x2 <= width - 2,
                room.y2 <= height - 2,
                room.y1 + 1 <= y <= room.y2 + 1,
                map@.len() == map0.len() == len == width * height,
                forall|i: int|
                    0 <= i < len && !idx_in_rect(i, w, room.x1 + 1, room.y1 + 1, room.x2 as int, room.y2 as int)
                        ==> map@[i] == map0[i],
                forall|a: int, b: int|
                    room.x1 < a <= room.x2 && room.y1 < b < y ==> map@[spec_xy_idx(a, b, w)]
                        == TileType::Floor,
            decreases room.y2 + 1 - y,
        {
            let mut x = room.x1 + 1;
            while x <= room.x2
                invariant
                    3 <= width <= MAX_DIM,
                    3 <= height <= MAX_DIM,
                    w == width as int,
                    h == height as int,
                    room.wf(),
                    room.x2 <= width - 2,
                    room.y2 <= height - 2,
                    room.y1 < y <= room.y2,
                    room.x1 + 1 <= x <= room.x2 + 1,
                    map@.len() == map0.len() == len == width * height,
                    forall|i: int|
                        0 <= i < len && !idx_in_rect(i, w, room.x1 + 1, room.y1 + 1, room.x2 as int, room.y2 as int)
                            ==> map@[i] == map0[i],
                    forall|a: int, b: int|
                        room.x1 < a <= room.x2 && room.y1 < b < y ==> map@[spec_xy_idx(a, b, w)]
                            == TileType::Floor,
                    forall|a: int| room.x1 < a < x ==> map@[spec_xy_idx(a, y as int, w)] == TileType::Floor,
                decreases room.x2 + 1 - x,
            {
                proof {
                    lemma_cell_idx(w, h, x as int, y as int);
                }
                let idx = xy_idx(x, y, width);
                let ghost pre = map@;
                map.set(idx, TileType::Floor);
                proof {
                    let ix = idx as int;
                    crate::grid::lemma_xy_idx_bijective(x as int, y as int, w, h);
                    assert(ix % w == x as int && ix / w == y as int);
                    assert forall|i: int|
                        0 <= i < len && !idx_in_rect(i, w, room.x1 + 1, room.y1 + 1, room.x2 as int, room.y2 as int)
                            implies map@[i] == map0[i] by {
                        if i != ix {
                            assert(map@[i] == pre[i]);
                        }
                    }
                    assert forall|a: int, b: int|
                        room.x1 < a <= room.x2 && room.y1 < b < y implies map@[spec_xy_idx(a, b, w)]
                            == TileType::Floor by {
                        lemma_cell_idx(w, h, a, b);
                        if spec_xy_idx(a, b, w) == ix {
                            lemma_xy_idx_injective(a, b, x as int, y as int, w, h);
                        }
                    }
                    assert forall|a: int| room.x1 < a < x + 1 implies map@[spec_xy_idx(a, y as int, w)]
                        == TileType::Floor by {
                        lemma_cell_idx(w, h, a, y as int);
                        if spec_xy_idx(a, y as int, w) == ix {
                            lemma_xy_idx_injective(a, y as int, x as int, y as int, w, h);
                        }
                    }
                }
                x += 1;
            }
            y += 1;
        }
    }
}

/// A room accepted during generation: nonnegative, at least the minimum
/// extent in both axes, and two cells clear of the far grid edge.
pub open spec fn room_ok(r: Room, width: int, height: int) -> bool {
    &&& r.wf()
    &&& r.x1 + 6 <= r.x2 <= width - 2
    &&& r.y1 + 6 <= r.y2 <= height - 2
}

/// What the generator guarantees of every floor it hands out: a
/// well-formed grid of the requested size whose start and exit differ,
/// carry the right tiles, and are joined by a walkable route; moreover
/// every walkable route between them (so in particular the shortest) has
/// more than `MIN_PATH_CELLS` cells. The exit tile is unique in the
/// grid, and every spawned creature starts alive on a plain floor cell.
pub open spec fn spec_generated(loc: WorldLocation, width: int, height: int) -> bool {
    &&& loc.wf()
    &&& loc.width == width
    &&& loc.height == height
    &&& (loc.start_x as int, loc.start_y as int) != (loc.exit_x as int, loc.exit_y as int)
    &&& loc.spec_tile_at(loc.start_x as int, loc.start_y as int) == TileType::Floor
    &&& loc.spec_tile_at(loc.exit_x as int, loc.exit_y as int) == TileType::Exit
    &&& exists|p: Seq<(int, int)>|
        spec_is_path(
            loc,
            p,
            (loc.start_x as int, loc.start_y as int),
            (loc.exit_x as int, loc.exit_y as int),
        ) && p.len() > MIN_PATH_CELLS
    &&& forall|p: Seq<(int, int)>|
        spec_is_path(
            loc,
            p,
            (loc.start_x as int, loc.start_y as int),
            (loc.exit_x as int, loc.exit_y as int),
        ) ==> p.len() > MIN_PATH_CELLS
    &&& forall|i: int|
        0 <= i < loc.source@.len() && i != spec_xy_idx(
            loc.exit_x as int,
            loc.exit_y as int,
            loc.width as int,
        ) ==> loc.source@[i] != TileType::Exit
    &&& forall|k: int|
        0 <= k < loc.entities@.len() ==> (#[trigger] loc.entities@[k]).health > 0
            && loc.spec_tile_at(loc.entities@[k].x as int, loc.entities@[k].y as int)
            == TileType::Floor
}

/// The cell `(x, y)` is a genuine choke point: both neighbours on at
/// least one perpendicular axis are solid, so the cell is the sole
/// passage there.
pub open spec fn spec_choke(map: Seq<TileType>, width: int, x: int, y: int) -> bool {
    (crate::tile::spec_tile_solid(map[spec_xy_idx(x + 1, y, width)])
        && crate::tile::spec_tile_solid(map[spec_xy_idx(x - 1, y, width)])) || (
    crate::tile::spec_tile_solid(map[spec_xy_idx(x, y + 1, width)])
        && crate::tile::spec_tile_solid(map[spec_xy_idx(x, y - 1, width)]))
}

/// Choke-point test; doors are only meaningful here.
fn is_choke_point(map: &Vec<TileType>, width: i32, height: i32, x: i32, y: i32) -> (r: bool)
    requires
        3 <= width <= MAX_DIM,
        3 <= height <= MAX_DIM,
        map@.len() == width * height,
        1 <= x <= width - 2,
        1 <= y <= height - 2,
    ensures
        r == spec_choke(map@, width as int, x as int, y as int),
{
    proof {
        lemma_cell_idx(width as int, height as int, (x + 1) as int, y as int);
        lemma_cell_idx(width as int, height as int, (x - 1) as int, y as int);
        lemma_cell_idx(width as int, height as int, x as int, (y + 1) as int);
        lemma_cell_idx(width as int, height as int, x as int, (y - 1) as int);
    }
    (tile_is_solid(map[xy_idx(x + 1, y, width)]) && tile_is_solid(map[xy_idx(x - 1, y, width)]))
        || (tile_is_solid(map[xy_idx(x, y + 1, width)]) && tile_is_solid(
        map[xy_idx(x, y - 1, width)],
    ))
}

/// Carve one corridor cell: rarely a bear trap, sometimes a door where
/// the corridor passes a choke point, otherwise plain floor. `have` says
/// a special tile already went into this corridor run, and at most one
/// ever does: with `have` set the cell is plain floor, and the result
/// reports whether this cell became the run's special tile. Only this
/// cell changes, and a door appears only at a genuine choke point.
fn generate_tunnel(
    map: &mut Vec<TileType>,
    colors: &mut Vec<Rgb>,
    width: i32,
    height: i32,
    x: i32,
    y: i32,
    rng: &mut bracket_lib::random::RandomNumberGenerator,
    have: bool,
) -> (placed: bool)
    requires
        3 <= width <= MAX_DIM,
        3 <= height <= MAX_DIM,
        old(map)@.len() == width * height,
        old(colors)@.len() == width * height,
        1 <= x <= width - 2,
        1 <= y <= height - 2,
    ensures
        final(map)@.len() == old(map)@.len(),
        final(colors)@.len() == old(colors)@.len(),
        forall|i: int|
            0 <= i < old(map)@.len() && i != spec_xy_idx(x as int, y as int, width as int)
                ==> final(map)@[i] == old(map)@[i] && final(colors)@[i] == old(colors)@[i],
        final(map)@[spec_xy_idx(x as int, y as int, width as int)] == TileType::Floor
            || final(map)@[spec_xy_idx(x as int, y as int, width as int)] == TileType::Door
            || final(map)@[spec_xy_idx(x as int, y as int, width as int)] == TileType::BearTrap,
        placed == (final(map)@[spec_xy_idx(x as int, y as int, width as int)] != TileType::Floor),
        have ==> final(map)@[spec_xy_idx(x as int, y as int, width as int)] == TileType::Floor,
        final(map)@[spec_xy_idx(x as int, y as int, width as int)] == TileType::Door ==> spec_choke(
            old(map)@,
            width as int,
            x as int,
            y as int,
        ),
{
    proof {
        lemma_cell_idx(width as int, height as int, x as int, y as int);
    }
    let idx = xy_idx(x, y, width);
    let chance = rng_range(rng, 1, 101);
    if chance <= 2 && !have {
        map.set(idx, TileType::BearTrap);
        colors.set(idx, WHITESMOKE);
        return true;
    } else if chance <= 7 && !have && is_choke_point(map, width, height, x, y) {
        colors.set(idx, WHITESMOKE);
        map.set(idx, TileType::Door);
        return true;
    } else {
        map.set(idx, TileType::Floor);
    }
    false
}

/// Carve a horizontal corridor along row `y` between the two columns;
/// cells outside the row span never change.
fn apply_horizontal_tunnel(
    map: &mut Vec<TileType>,
    colors: &mut Vec<Rgb>,
    x1: i32,
    x2: i32,
    y: i32,
    width: i32,
    height: i32,
    rng: &mut bracket_lib::random::RandomNumberGenerator,
)
    requires
        3 <= width <= MAX_DIM,
        3 <= height <= MAX_DIM,
        old(map)@.len() == width * height,
        old(colors)@.len() == width * height,
        1 <= x1 <= width - 2,
        1 <= x2 <= width - 2,
        1 <= y <= height - 2,
    ensures
        final(map)@.len() == old(map)@.len(),
        final(colors)@.len() == old(colors)@.len(),
        forall|i: int|
            0 <= i < old(map)@.len() && !(i / (width as int) == y as int && (if x1 <= x2 {
                x1 as int
            } else {
                x2 as int
            }) <= i % (width as int) <= (if x1 <= x2 {
                x2 as int
            } else {
                x1 as int
            })) ==> final(map)@[i] == old(map)@[i] && final(colors)@[i] == old(colors)@[i],
        // Every span cell was carved: plain floor, a door, or a trap —
        // and at most one span cell became anything but floor.
        forall|a: int|
            span_lo(x1 as int, x2 as int) <= a <= span_hi(x1 as int, x2 as int)
                ==> final(map)@[spec_xy_idx(a, y as int, width as int)] == TileType::Floor || final(map)@[spec_xy_idx(a, y as int, width as int)] == TileType::Door || final(map)@[spec_xy_idx(
                a,
                y as int,
                width as int,
            )] == TileType::BearTrap,
        forall|a: int, b: int|
            span_lo(x1 as int, x2 as int) <= a < b <= span_hi(x1 as int, x2 as int) && final(map)@[spec_xy_idx(a, y as int, width as int)] != TileType::Floor ==> final(map)@[spec_xy_idx(b, y as int, width as int)] == TileType::Floor,
{
    let ghost w = width as int;
    let ghost h = height as int;
    let ghost map0 = map@;
    let ghost colors0 = colors@;
    let lo = if x1 <= x2 {
        x1
    } else {
        x2
    };
    let hi = if x1 <= x2 {
        x2
    } else {
        x1
    };
    let mut have = false;
    let mut x = lo;
    while x <= hi
        invariant
            3 <= width <= MAX_DIM,
            3 <= height <= MAX_DIM,
            w == width as int,
            h == height as int,
            1 <= lo <= hi <= width - 2,
            1 <= y <= height - 2,
            lo <= x <= hi + 1,
            map@.len() == map0.len() == width * height,
            colors@.len() == colors0.len() == width * height,
            forall|i: int|
                0 <= i < map0.len() && !(i / w == y as int && lo as int <= i % w <= hi as int)
                    ==> map@[i] == map0[i] && colors@[i] == colors0[i],
            forall|a: int|
                lo as int <= a < x ==> map@[spec_xy_idx(a, y as int, w)] == TileType::Floor
                    || map@[spec_xy_idx(a, y as int, w)] == TileType::Door || map@[spec_xy_idx(
                    a,
                    y as int,
                    w,
                )] == TileType::BearTrap,
            !have ==> forall|a: int|
                lo as int <= a < x ==> map@[spec_xy_idx(a, y as int, w)] == TileType::Floor,
            forall|a: int, b: int|
                lo as int <= a < b < x && map@[spec_xy_idx(a, y as int, w)] != TileType::Floor
                    ==> map@[spec_xy_idx(b, y as int, w)] == TileType::Floor,
        decreases hi + 1 - x,
    {
        let ghost pre_map = map@;
        let ghost pre_colors = colors@;
        let ghost had = have;
        let placed = generate_tunnel(map, colors, width, height, x, y, rng, have);
        have = have || placed;
        proof {
            crate::grid::lemma_xy_idx_bijective(x as int, y as int, w, h);
            assert forall|i: int|
                0 <= i < map0.len() && !(i / w == y as int && lo as int <= i % w <= hi as int)
                    implies map@[i] == map0[i] && colors@[i] == colors0[i] by {
                assert(i != spec_xy_idx(x as int, y as int, w));
                assert(map@[i] == pre_map[i] && colors@[i] == pre_colors[i]);
            }
            // Earlier span cells kept their carved tiles.
            assert forall|a: int| lo as int <= a < x implies map@[spec_xy_idx(a, y as int, w)]
                == pre_map[spec_xy_idx(a, y as int, w)] by {
                lemma_cell_idx(w, h, a, y as int);
                if spec_xy_idx(a, y as int, w) == spec_xy_idx(x as int, y as int, w) {
                    lemma_xy_idx_injective(a, y as int, x as int, y as int, w, h);
                }
            }
        }
        x += 1;
    }
}

/// Carve a vertical corridor along column `x` between the two rows;
/// cells outside the column span never change.
fn apply_vertical_tunnel(
    map: &mut Vec<TileType>,
    colors: &mut Vec<Rgb>,
    y1: i32,
    y2: i32,
    x: i32,
    width: i32,
    height: i32,
    rng: &mut bracket_lib::random::RandomNumberGenerator,
)
    requires
        3 <= width <= MAX_DIM,
        3 <= height <= MAX_DIM,
        old(map)@.len() == width * height,
        old(colors)@.len() == width * height,
        1 <= y1 <= height - 2,
        1 <= y2 <= height - 2,
        1 <= x <= width - 2,
    ensures
        final(map)@.len() == old(map)@.len(),
        final(colors)@.len() == old(colors)@.len(),
        forall|i: int|
            0 <= i < old(map)@.len() && !(i % (width as int) == x as int && (if y1 <= y2 {
                y1 as int
            } else {
                y2 as int
            }) <= i / (width as int) <= (if y1 <= y2 {
                y2 as int
            } else {
                y1 as int
            })) ==> final(map)@[i] == old(map)@[i] && final(colors)@[i] == old(colors)@[i],
        // Every span cell was carved: plain floor, a door, or a trap —
        // and at most one span cell became anything but floor.
        forall|b: int|
            span_lo(y1 as int, y2 as int) <= b <= span_hi(y1 as int, y2 as int)
                ==> final(map)@[spec_xy_idx(x as int, b, width as int)] == TileType::Floor || final(map)@[spec_xy_idx(x as int, b, width as int)] == TileType::Door || final(map)@[spec_xy_idx(
                x as int,
                b,
                width as int,
            )] == TileType::BearTrap,
        forall|a: int, b: int|
            span_lo(y1 as int, y2 as int) <= a < b <= span_hi(y1 as int, y2 as int) && final(map)@[spec_xy_idx(x as int, a, width as int)] != TileType::Floor ==> final(map)@[spec_xy_idx(
                x as int,
                b,
                width as int,
            )] == TileType::Floor,
{
    let ghost w = width as int;
    let ghost h = height as int;
    let ghost map0 = map@;
    let ghost colors0 = colors@;
    let lo = if y1 <= y2 {
        y1
    } else {
        y2
    };
    let hi = if y1 <= y2 {
        y2
    } else {
        y1
    };
    let mut have = false;
    let mut y = lo;
    while y <= hi
        invariant
            3 <= width <= MAX_DIM,
            3 <= height <= MAX_DIM,
            w == width as int,
            h == height as int,
            1 <= lo <= hi <= height - 2,
            1 <= x <= width - 2,
            lo <= y <= hi + 1,
            map@.len() == map0.len() == width * height,
            colors@.len() == colors0.len() == width * height,
            forall|i: int|
                0 <= i < map0.len() && !(i % w == x as int && lo as int <= i / w <= hi as int)
                    ==> map@[i] == map0[i] && colors@[i] == colors0[i],
            forall|b: int|
                lo as int <= b < y ==> map@[spec_xy_idx(x as int, b, w)] == TileType::Floor
                    || map@[spec_xy_idx(x as int, b, w)] == TileType::Door || map@[spec_xy_idx(
                    x as int,
                    b,
                    w,
                )] == TileType::BearTrap,
            !have ==> forall|b: int|
                lo as int <= b < y ==> map@[spec_xy_idx(x as int, b, w)] == TileType::Floor,
            forall|a: int, b: int|
                lo as int <= a < b < y && map@[spec_xy_idx(x as int, a, w)] != TileType::Floor
                    ==> map@[spec_xy_idx(x as int, b, w)] == TileType::Floor,
        decreases hi + 1 - y,
    {
        let ghost pre_map = map@;
        let ghost pre_colors = colors@;
        let placed = generate_tunnel(map, colors, width, height, x, y, rng, have);
        have = have || placed;
        proof {
            crate::grid::lemma_xy_idx_bijective(x as int, y as int, w, h);
            assert forall|i: int|
                0 <= i < map0.len() && !(i % w == x as int && lo as int <= i / w <= hi as int)
                    implies map@[i] == map0[i] && colors@[i] == colors0[i] by {
                assert(i != spec_xy_idx(x as int, y as int, w));
                assert(map@[i] == pre_map[i] && colors@[i] == pre_colors[i]);
            }
            // Earlier span cells kept their carved tiles.
            assert forall|b: int| lo as int <= b < y implies map@[spec_xy_idx(x as int, b, w)]
                == pre_map[spec_xy_idx(x as int, b, w)] by {
                lemma_cell_idx(w, h, x as int, b);
                if spec_xy_idx(x as int, b, w) == spec_xy_idx(x as int, y as int, w) {
                    lemma_xy_idx_injective(x as int, b, x as int, y as int, w, h);
                }
            }
        }
        y += 1;
    }
}

/// Scatter loot inside a room: at most one potion, and coins and chests
/// with depth-adjusted probabilities. Only cells strictly inside the
/// room's interior (a two-cell margin from its corners) can change.
fn generate_at_room(
    map: &mut Vec<TileType>,
    colors: &mut Vec<Rgb>,
    first: (i32, i32),
    second: (i32, i32),
    width: i32,
    height: i32,
    rng: &mut bracket_lib::random::RandomNumberGenerator,
    floor: i32,
)
    requires
        3 <= width <= MAX_DIM,
        3 <= height <= MAX_DIM,
        old(map)@.len() == width * height,
        old(colors)@.len() == width * height,
        0 <= first.0,
        0 <= first.1,
        first.0 + 5 <= second.0 <= width - 2,
        first.1 + 5 <= second.1 <= height - 2,
        0 <= floor <= 1000,
    ensures
        final(map)@.len() == old(map)@.len(),
        final(colors)@.len() == old(colors)@.len(),
        forall|i: int|
            0 <= i < old(map)@.len() && !idx_in_rect(
                i,
                width as int,
                first.0 + 2,
                first.1 + 2,
                second.0 - 3,
                second.1 - 3,
            ) ==> final(map)@[i] == old(map)@[i] && final(colors)@[i] == old(colors)@[i],
        // Whatever the rolls, a touched cell holds a potion (pink for
        // the rare permanent boost, else red), a gold coin pile, or a
        // pale chest — and at most one cell became a potion.
        forall|i: int|
            0 <= i < old(map)@.len() && (final(map)@[i] != old(map)@[i] || final(colors)@[i]
                != old(colors)@[i]) ==> (final(map)@[i] == TileType::Potion && (final(colors)@[i]
                == HOT_PINK || final(colors)@[i] == ORANGE_RED)) || (final(map)@[i]
                == TileType::Coin && final(colors)@[i] == GOLD) || (final(map)@[i]
                == TileType::Chest && final(colors)@[i] == WHITESMOKE),
        forall|i: int, j: int|
            0 <= i < old(map)@.len() && 0 <= j < old(map)@.len() && i != j && (final(map)@[i]
                != old(map)@[i] || final(colors)@[i] != old(colors)@[i]) && final(map)@[i]
                == TileType::Potion && (final(map)@[j] != old(map)@[j] || final(colors)@[j]
                != old(colors)@[j]) ==> final(map)@[j] != TileType::Potion,
{
    let ghost w = width as int;
    let ghost h = height as int;
    let ghost map0 = map@;
    let ghost colors0 = colors@;
    let mut potion = false;
    proof {
        assert((second.1 - first.1) * (second.0 - first.0) <= 0x100_0000) by (nonlinear_arith)
            requires 0 < second.1 - first.1 <= 4096 && 0 < second.0 - first.0 <= 4096;
        assert((second.1 - first.1) * (second.0 - first.0) >= 0) by (nonlinear_arith)
            requires 0 < second.1 - first.1 && 0 < second.0 - first.0;
    }
    let count = ((second.1 - first.1) * (second.0 - first.0)) / 30 + 5;
    let mut trial: i32 = 0;
    while trial < count
        invariant
            3 <= width <= MAX_DIM,
            3 <= height <= MAX_DIM,
            w == width as int,
            h == height as int,
            0 <= first.0,
            0 <= first.1,
            first.0 + 5 <= second.0 <= width - 2,
            first.1 + 5 <= second.1 <= height - 2,
            0 <= floor <= 1000,
            map@.len() == map0.len() == width * height,
            colors@.len() == colors0.len() == width * height,
            forall|i: int|
                0 <= i < map0.len() && !idx_in_rect(
                    i,
                    w,
                    first.0 + 2,
                    first.1 + 2,
                    second.0 - 3,
                    second.1 - 3,
                ) ==> map@[i] == map0[i] && colors@[i] == colors0[i],
            forall|i: int|
                0 <= i < map0.len() && (map@[i] != map0[i] || colors@[i] != colors0[i]) ==> (
                map@[i] == TileType::Potion && (colors@[i] == HOT_PINK || colors@[i]
                    == ORANGE_RED)) || (map@[i] == TileType::Coin && colors@[i] == GOLD) || (
                map@[i] == TileType::Chest && colors@[i] == WHITESMOKE),
            !potion ==> forall|i: int|
                0 <= i < map0.len() && (map@[i] != map0[i] || colors@[i] != colors0[i])
                    ==> map@[i] != TileType::Potion,
            forall|i: int, j: int|
                0 <= i < map0.len() && 0 <= j < map0.len() && i != j && (map@[i] != map0[i]
                    || colors@[i] != colors0[i]) && map@[i] == TileType::Potion && (map@[j]
                    != map0[j] || colors@[j] != colors0[j]) ==> map@[j] != TileType::Potion,
        decreases count - trial,
    {
        let x = rng_range(rng, first.0 + 2, second.0 - 2);
        let y = rng_range(rng, first.1 + 2, second.1 - 2);
        proof {
            lemma_cell_idx(w, h, x as int, y as int);
            crate::grid::lemma_xy_idx_bijective(x as int, y as int, w, h);
        }
        let idx = xy_idx(x, y, width);
        let ghost pre_map = map@;
        let ghost pre_colors = colors@;
        let chance = rng_range(rng, 1, 101);
        if chance <= 15 + floor && !potion {
            if rng_range(rng, 1, 101) >= 85 {
                colors.set(idx, HOT_PINK);
            } else {
                colors.set(idx, ORANGE_RED);
            }
            map.set(idx, TileType::Potion);
            potion = true;
        } else if chance == 16 + floor {
            colors.set(idx, GOLD);
            map.set(idx, TileType::Coin);
        } else if chance >= 98 {
            colors.set(idx, WHITESMOKE);
            map.set(idx, TileType::Chest);
        }
        proof {
            assert forall|i: int|
                0 <= i < map0.len() && !idx_in_rect(
                    i,
                    w,
                    first.0 + 2,
                    first.1 + 2,
                    second.0 - 3,
                    second.1 - 3,
                ) implies map@[i] == map0[i] && colors@[i] == colors0[i] by {
                assert(i != spec_xy_idx(x as int, y as int, w));
                assert(map@[i] == pre_map[i] && colors@[i] == pre_colors[i]);
            }
        }
        trial += 1;
    }
}

impl WorldLocation {
    /// One generation attempt with the given random stream; `None` when
    /// the layout came out invalid (fewer than two rooms, or the route
    /// from start to exit missing or too short) and must be retried.
    #[verifier::rlimit(100)]
    fn try_generate(
        width: i32,
        height: i32,
        depth: i32,
        exp: i32,
        rng: &mut bracket_lib::random::RandomNumberGenerator,
    ) -> (r: Option<WorldLocation>)
        requires
            16 <= width <= MAX_DIM,
            16 <= height <= MAX_DIM,
            0 <= depth <= 1000,
            0 <= exp <= 1_000_000,
        ensures
            r matches Some(loc) ==> spec_generated(loc, width as int, height as int),
    {
        let ghost w = width as int;
        let ghost h = height as int;
        proof {
            lemma_cell_idx(w, h, 0, 0);
        }
        let n: usize = (width as usize) * (height as usize);
        // Weighted wall fill: a center-weighted two-dice roll favours the
        // common wall, the tails give the damaged and weak variants.
        let mut map: Vec<TileType> = Vec::new();
        while map.len() < n
            invariant
                map@.len() <= n,
                forall|i: int| 0 <= i < map@.len() ==> map@[i] != TileType::Exit,
            decreases n - map@.len(),
        {
            let roll = rng_roll_dice(rng, 2, 6);
            if roll <= 7 {
                map.push(TileType::Wall);
            } else if roll <= 9 {
                map.push(TileType::DamagedWall);
            } else {
                map.push(TileType::WeakWall);
            }
        }
        // Depth-dependent four-color palette; the deepest floors flip a
        // coin between two themes.
        let palette: (Rgb, Rgb, Rgb, Rgb) = if depth <= 5 {
            (SANDY_BROWN, ROSY_BROWN, BRIGHT_GRAY, BRIGHT_GRAY)
        } else if depth <= 8 {
            (YELLOWGREEN, YELLOW3, GREEN3, PINK)
        } else if rng_range(rng, 1, 101) <= 50 {
            (BRIGHT_GRAY, GRAY, ORANGE_RED, TOMATO)
        } else {
            (LIGHT_BLUE, ALICE_BLUE, CYAN, BRIGHT_GRAY)
        };
        // Color wash over the same triangular distribution.
        let mut colors: Vec<Rgb> = Vec::new();
        while colors.len() < n
            invariant
                colors@.len() <= n,
            decreases n - colors@.len(),
        {
            let roll = rng_roll_dice(rng, 2, 6);
            if roll <= 6 {
                colors.push(palette.0);
            } else if roll <= 9 {
                colors.push(palette.1);
            } else if roll == 10 {
                colors.push(palette.2);
            } else {
                colors.push(palette.3);
            }
        }
        // Room placement trials: sample a rectangle, reject on overlap,
        // carve, connect to the previous room, furnish, maybe spawn a
        // creature.
        let mut rooms: Vec<Room> = Vec::new();
        let mut entities: Vec<Entity> = Vec::new();
        let mut trial: i32 = 0;
        while trial < MAX_ROOMS
            invariant
                16 <= width <= MAX_DIM,
                16 <= height <= MAX_DIM,
                0 <= depth <= 1000,
                0 <= exp <= 1_000_000,
                w == width as int,
                h == height as int,
                n == width * height,
                map@.len() == n,
                colors@.len() == n,
                forall|k: int| 0 <= k < rooms@.len() ==> room_ok(#[trigger] rooms@[k], w, h),
                forall|j: int, k: int|
                    0 <= j < k < rooms@.len() ==> !(#[trigger] rooms@[j]).spec_intersect(
                        #[trigger] rooms@[k],
                    ),
                forall|k: int|
                    0 <= k < entities@.len() ==> (#[trigger] entities@[k]).in_bounds(w, h)
                        && entities@[k].wf() && entities@[k].health > 0,
                forall|i: int| 0 <= i < map@.len() ==> map@[i] != TileType::Exit,
                // Creatures spawn only once the start and exit rooms
                // stand, and never on the exit room's center.
                rooms@.len() < 3 ==> entities@.len() == 0,
                forall|k: int|
                    0 <= k < entities@.len() && rooms@.len() >= 2 ==> ((
                    #[trigger] entities@[k]).x as int, entities@[k].y as int)
                        != rooms@[1].spec_center(),
            decreases MAX_ROOMS - trial,
        {
            let rw = rng_range(rng, MIN_SIZE, MAX_SIZE);
            let rh = rng_range(rng, MIN_SIZE, MAX_SIZE);
            let x = rng_roll_dice(rng, 1, width - rw - 1) - 1;
            let y = rng_roll_dice(rng, 1, height - rh - 1) - 1;
            let new_room = Room::new(x, y, rw, rh);
            let mut ok = true;
            let mut k: usize = 0;
            while k < rooms.len()
                invariant
                    k <= rooms@.len(),
                    ok ==> forall|j: int|
                        0 <= j < k ==> !new_room.spec_intersect(#[trigger] rooms@[j]),
                decreases rooms@.len() - k,
            {
                if new_room.intersect(&rooms[k]) {
                    ok = false;
                }
                k += 1;
            }
            if ok {
                proof {
                    assert(room_ok(new_room, w, h));
                }
                WorldLocation::apply_room_to_map(&new_room, &mut map, width, height);
                proof {
                    assert forall|i: int| 0 <= i < map@.len() implies map@[i] != TileType::Exit by {
                        lemma_idx_to_xy(i, w, h);
                        if idx_in_rect(
                            i,
                            w,
                            new_room.x1 + 1,
                            new_room.y1 + 1,
                            new_room.x2 as int,
                            new_room.y2 as int,
                        ) {
                            assert(map@[spec_xy_idx(i % w, i / w, w)] == TileType::Floor);
                        }
                    }
                }
                let c = new_room.center();
                if rooms.len() > 0 {
                    let prev = rooms[rooms.len() - 1].center();
                    proof {
                        assert(room_ok(rooms@[rooms@.len() - 1], w, h));
                    }
                    connect_rooms(&mut map, &mut colors, prev, c, width, height, rng);
                }
                generate_at_room(
                    &mut map,
                    &mut colors,
                    (new_room.x1, new_room.y1),
                    (new_room.x2, new_room.y2),
                    width,
                    height,
                    rng,
                    depth,
                );
                proof {
                    assert(forall|i: int| 0 <= i < map@.len() ==> map@[i] != TileType::Exit);
                }
                let ghost rooms0 = rooms@;
                rooms.push(new_room);
                proof {
                    assert forall|j: int, kk: int| 0 <= j < kk < rooms@.len() implies !(
                    #[trigger] rooms@[j]).spec_intersect(#[trigger] rooms@[kk]) by {
                        if kk < rooms@.len() - 1 {
                            assert(!rooms0[j].spec_intersect(rooms0[kk]));
                        } else {
                            assert(!new_room.spec_intersect(rooms0[j]));
                            assert(rooms0[j].spec_intersect(new_room)
                                == new_room.spec_intersect(rooms0[j]));
                        }
                    }
                }
                // Creature theme follows the dominant palette color.
                let t: EntityType = if crate::tile::rgb_eq(palette.0, BRIGHT_GRAY) {
                    if rng_range(rng, 1, 101) <= 50 {
                        EntityType::Cyclops
                    } else {
                        EntityType::Orc
                    }
                } else if crate::tile::rgb_eq(palette.0, SANDY_BROWN) {
                    if rng_range(rng, 1, 101) <= 50 {
                        EntityType::Skeleton
                    } else {
                        EntityType::Zombie
                    }
                } else {
                    EntityType::Goblin
                };
                // The first two rooms are reserved for start and exit.
                if rng_range(rng, 1, 101) <= depth + 35 {
                    if rooms.len() > 2 {
                        proof {
                            // The accepted room is disjoint from the exit
                            // room, so its center — the spawn cell — is
                            // not the exit room's center.
                            assert(rooms@[1] == rooms0[1]);
                            assert(!new_room.spec_intersect(rooms@[1]));
                            crate::room::lemma_disjoint_rooms_distinct_centers(
                                new_room,
                                rooms@[1],
                            );
                            assert((c.0 as int, c.1 as int) != rooms@[1].spec_center());
                        }
                        entities.push(Entity::new(c.0, c.1, t, exp));
                    }
                }
            }
            trial += 1;
        }
        finalize_floor(map, colors, entities, &rooms, width, height)
    }

    /// Build a floor from a seed, deterministically; a zero seed asks for
    /// a fresh random one. The effective seed is reported back for
    /// reproducibility. Invalid layouts are discarded and retried with a
    /// seed drawn from the failed attempt's stream, up to `MAX_ATTEMPTS`;
    /// only exhaustion of that budget fails.
    pub fn generate(width: i32, height: i32, seed: u64, depth: i32, exp: i32) -> (r: Result<
        (WorldLocation, u64),
        GenError,
    >)
        requires
            16 <= width <= MAX_DIM,
            16 <= height <= MAX_DIM,
            0 <= depth <= 1000,
            0 <= exp <= 1_000_000,
        ensures
            r matches Ok(pair) ==> spec_generated(pair.0, width as int, height as int),
            r is Err ==> r == Result::<(WorldLocation, u64), GenError>::Err(
                GenError::RetriesExhausted,
            ),
    {
        let mut s = seed;
        if s == 0 {
            let mut entropy = crate::rng::rng_from_entropy();
            s = rng_range_u64(&mut entropy, 1, u64::MAX);
        }
        let mut attempt: u32 = 0;
        while attempt < MAX_ATTEMPTS
            invariant
                16 <= width <= MAX_DIM,
                16 <= height <= MAX_DIM,
                0 <= depth <= 1000,
                0 <= exp <= 1_000_000,
            decreases MAX_ATTEMPTS - attempt,
        {
            let mut rng = rng_seeded(s);
            match WorldLocation::try_generate(width, height, depth, exp, &mut rng) {
                Some(loc) => {
                    return Ok((loc, s));
                },
                None => {
                    s = rng_range_u64(&mut rng, 1, u64::MAX);
                },
            }
            attempt += 1;
        }
        Err(GenError::RetriesExhausted)
    }
}

/// Carve the L-shaped corridor joining the previous room's center to
/// the newly accepted one's, choosing the leg order at random; corridor
/// carving never writes an exit tile.
fn connect_rooms(
    map: &mut Vec<TileType>,
    colors: &mut Vec<Rgb>,
    prev: (i32, i32),
    c: (i32, i32),
    width: i32,
    height: i32,
    rng: &mut bracket_lib::random::RandomNumberGenerator,
)
    requires
        3 <= width <= MAX_DIM,
        3 <= height <= MAX_DIM,
        old(map)@.len() == width * height,
        old(colors)@.len() == width * height,
        1 <= prev.0 <= width - 2,
        1 <= prev.1 <= height - 2,
        1 <= c.0 <= width - 2,
        1 <= c.1 <= height - 2,
        forall|i: int| 0 <= i < old(map)@.len() ==> old(map)@[i] != TileType::Exit,
    ensures
        final(map)@.len() == old(map)@.len(),
        final(colors)@.len() == old(colors)@.len(),
        forall|i: int| 0 <= i < final(map)@.len() ==> final(map)@[i] != TileType::Exit,
{
    let ghost w = width as int;
    let ghost h = height as int;
            if rng_range(rng, 1, 3) == 1 {
                apply_horizontal_tunnel(
                    map,
                    colors,
                    prev.0,
                    c.0,
                    prev.1,
                    width,
                    height,
                    rng,
                );
            proof {
                assert forall|i: int| 0 <= i < map@.len() implies map@[i]
                    != TileType::Exit by {
                    lemma_idx_to_xy(i, w, h);
                    if i / w == prev.1 as int && span_lo((prev.0 as int, c.0 as int).0, (prev.0 as int, c.0 as int).1) <= i % w <= span_hi(
                        (prev.0 as int, c.0 as int).0,
                        (prev.0 as int, c.0 as int).1,
                    ) {
                        assert(spec_xy_idx(i % w, prev.1 as int, w) == i);
                        assert(map@[spec_xy_idx(i % w, prev.1 as int, w)] == TileType::Floor
                            || map@[spec_xy_idx(i % w, prev.1 as int, w)] == TileType::Door
                            || map@[spec_xy_idx(i % w, prev.1 as int, w)]
                            == TileType::BearTrap);
                    }
                }
            }
                apply_vertical_tunnel(
                    map,
                    colors,
                    prev.1,
                    c.1,
                    c.0,
                    width,
                    height,
                    rng,
                );
            proof {
                assert forall|i: int| 0 <= i < map@.len() implies map@[i]
                    != TileType::Exit by {
                    lemma_idx_to_xy(i, w, h);
                    if i % w == c.0 as int && span_lo((prev.1 as int, c.1 as int).0, (prev.1 as int, c.1 as int).1) <= i / w <= span_hi(
                        (prev.1 as int, c.1 as int).0,
                        (prev.1 as int, c.1 as int).1,
                    ) {
                        assert(spec_xy_idx(c.0 as int, i / w, w) == i);
                        assert(map@[spec_xy_idx(c.0 as int, i / w, w)] == TileType::Floor
                            || map@[spec_xy_idx(c.0 as int, i / w, w)] == TileType::Door
                            || map@[spec_xy_idx(c.0 as int, i / w, w)]
                            == TileType::BearTrap);
                    }
                }
            }
            } else {
                apply_vertical_tunnel(
                    map,
                    colors,
                    prev.1,
                    c.1,
                    prev.0,
                    width,
                    height,
                    rng,
                );
            proof {
                assert forall|i: int| 0 <= i < map@.len() implies map@[i]
                    != TileType::Exit by {
                    lemma_idx_to_xy(i, w, h);
                    if i % w == prev.0 as int && span_lo((prev.1 as int, c.1 as int).0, (prev.1 as int, c.1 as int).1) <= i / w <= span_hi(
                        (prev.1 as int, c.1 as int).0,
                        (prev.1 as int, c.1 as int).1,
                    ) {
                        assert(spec_xy_idx(prev.0 as int, i / w, w) == i);
                        assert(map@[spec_xy_idx(prev.0 as int, i / w, w)] == TileType::Floor
                            || map@[spec_xy_idx(prev.0 as int, i / w, w)] == TileType::Door
                            || map@[spec_xy_idx(prev.0 as int, i / w, w)]
                            == TileType::BearTrap);
                    }
                }
            }
                apply_horizontal_tunnel(
                    map,
                    colors,
                    prev.0,
                    c.0,
                    c.1,
                    width,
                    height,
                    rng,
                );
            proof {
                assert forall|i: int| 0 <= i < map@.len() implies map@[i]
                    != TileType::Exit by {
                    lemma_idx_to_xy(i, w, h);
                    if i / w == c.1 as int && span_lo((prev.0 as int, c.0 as int).0, (prev.0 as int, c.0 as int).1) <= i % w <= span_hi(
                        (prev.0 as int, c.0 as int).0,
                        (prev.0 as int, c.0 as int).1,
                    ) {
                        assert(spec_xy_idx(i % w, c.1 as int, w) == i);
                        assert(map@[spec_xy_idx(i % w, c.1 as int, w)] == TileType::Floor
                            || map@[spec_xy_idx(i % w, c.1 as int, w)] == TileType::Door
                            || map@[spec_xy_idx(i % w, c.1 as int, w)]
                            == TileType::BearTrap);
                    }
                }
            }
            }
}


/// Stamp floor under every creature, demote cosmetic doors, mark the
/// start and exit cells, and validate connectivity; `None` discards the
/// attempt. On success the floor satisfies the whole generation
/// guarantee.
#[verifier::rlimit(100)]
fn finalize_floor(
    map: Vec<TileType>,
    colors: Vec<Rgb>,
    entities: Vec<Entity>,
    rooms: &Vec<Room>,
    width: i32,
    height: i32,
) -> (r: Option<WorldLocation>)
    requires
        16 <= width <= MAX_DIM,
        16 <= height <= MAX_DIM,
        map@.len() == width * height,
        colors@.len() == width * height,
        forall|k: int|
            0 <= k < rooms@.len() ==> room_ok(#[trigger] rooms@[k], width as int, height as int),
        forall|j: int, k: int|
            0 <= j < k < rooms@.len() ==> !(#[trigger] rooms@[j]).spec_intersect(
                #[trigger] rooms@[k],
            ),
        forall|k: int|
            0 <= k < entities@.len() ==> (#[trigger] entities@[k]).in_bounds(
                width as int,
                height as int,
            ) && entities@[k].wf() && entities@[k].health > 0,
        forall|i: int| 0 <= i < map@.len() ==> map@[i] != TileType::Exit,
        rooms@.len() < 3 ==> entities@.len() == 0,
        forall|k: int|
            0 <= k < entities@.len() && rooms@.len() >= 2 ==> ((#[trigger] entities@[k]).x as int,
            entities@[k].y as int) != rooms@[1].spec_center(),
    ensures
        r matches Some(loc) ==> spec_generated(loc, width as int, height as int),
{
    let ghost w = width as int;
    let ghost h = height as int;
    let mut map = map;
    let mut colors = colors;
    // Creatures must not stand embedded in a loot or trap tile.
    let mut k: usize = 0;
    while k < entities.len()
        invariant
            16 <= width <= MAX_DIM,
            16 <= height <= MAX_DIM,
            w == width as int,
            h == height as int,
            map@.len() == width * height,
            k <= entities@.len(),
            forall|j: int|
                0 <= j < entities@.len() ==> (#[trigger] entities@[j]).in_bounds(w, h)
                    && entities@[j].wf(),
            forall|i: int| 0 <= i < map@.len() ==> map@[i] != TileType::Exit,
            forall|j: int|
                0 <= j < k ==> map@[spec_xy_idx(
                    (#[trigger] entities@[j]).x as int,
                    entities@[j].y as int,
                    w,
                )] == TileType::Floor,
        decreases entities@.len() - k,
    {
        let e = &entities[k];
        proof {
            lemma_cell_idx(w, h, e.x as int, e.y as int);
        }
        let idx = xy_idx(e.x, e.y, width);
        map.set(idx, TileType::Floor);
        proof {
            assert forall|j: int| 0 <= j < k + 1 implies map@[spec_xy_idx(
                (#[trigger] entities@[j]).x as int,
                entities@[j].y as int,
                w,
            )] == TileType::Floor by {
                lemma_cell_idx(w, h, entities@[j].x as int, entities@[j].y as int);
            }
        }
        k += 1;
    }
    // Doors that are not real barriers go back to floor.
    demote_doors(&mut map, width, height);
    proof {
        // Demotion only turns doors to floor: the creatures' floor cells
        // and the absence of exits both survive.
        assert forall|j: int| 0 <= j < entities@.len() implies map@[spec_xy_idx(
            (#[trigger] entities@[j]).x as int,
            entities@[j].y as int,
            w,
        )] == TileType::Floor by {
            lemma_cell_idx(w, h, entities@[j].x as int, entities@[j].y as int);
        }
        assert(forall|i: int| 0 <= i < map@.len() ==> map@[i] != TileType::Exit);
    }
    if rooms.len() < 2 {
        return None;
    }
    let start = rooms[0].center();
    let exit = rooms[1].center();
    proof {
        assert(room_ok(rooms@[0], w, h));
        assert(room_ok(rooms@[1], w, h));
        assert(!rooms@[0].spec_intersect(rooms@[1]));
        crate::room::lemma_disjoint_rooms_distinct_centers(rooms@[0], rooms@[1]);
        lemma_cell_idx(w, h, start.0 as int, start.1 as int);
        lemma_cell_idx(w, h, exit.0 as int, exit.1 as int);
        if spec_xy_idx(start.0 as int, start.1 as int, w) == spec_xy_idx(
            exit.0 as int,
            exit.1 as int,
            w,
        ) {
            lemma_xy_idx_injective(
                start.0 as int,
                start.1 as int,
                exit.0 as int,
                exit.1 as int,
                w,
                h,
            );
        }
    }
    map.set(xy_idx(start.0, start.1, width), TileType::Floor);
    colors.set(xy_idx(exit.0, exit.1, width), WHITE);
    map.set(xy_idx(exit.0, exit.1, width), TileType::Exit);
    let ghost eidx = spec_xy_idx(exit.0 as int, exit.1 as int, w);
    proof {
        // The exit tile is unique, and no creature stands on it: every
        // creature's cell misses the exit room's center.
        assert(forall|i: int| 0 <= i < map@.len() && i != eidx ==> map@[i] != TileType::Exit);
        assert forall|j: int| 0 <= j < entities@.len() implies map@[spec_xy_idx(
            (#[trigger] entities@[j]).x as int,
            entities@[j].y as int,
            w,
        )] == TileType::Floor by {
            lemma_cell_idx(w, h, entities@[j].x as int, entities@[j].y as int);
            assert((entities@[j].x as int, entities@[j].y as int) != rooms@[1].spec_center());
            assert((exit.0 as int, exit.1 as int) == rooms@[1].spec_center());
            if spec_xy_idx(entities@[j].x as int, entities@[j].y as int, w) == eidx {
                lemma_xy_idx_injective(
                    entities@[j].x as int,
                    entities@[j].y as int,
                    exit.0 as int,
                    exit.1 as int,
                    w,
                    h,
                );
            }
        }
    }
    let result = WorldLocation {
        source: map,
        entities,
        colors,
        width,
        height,
        start_x: start.0,
        start_y: start.1,
        exit_x: exit.0,
        exit_y: exit.1,
    };
    proof {
        assert(result.wf());
        assert(result.spec_tile_at(start.0 as int, start.1 as int) == TileType::Floor);
        assert(result.spec_tile_at(exit.0 as int, exit.1 as int) == TileType::Exit);
    }
    // Connectivity validation: the floor only stands if the shortest
    // route from start to exit is long enough to be interesting.
    match crate::path::find_path(&result, (start.0, start.1), (exit.0, exit.1)) {
        Some(p) => {
            if p.len() > MIN_PATH_CELLS {
                proof {
                    let pv = crate::path::path_view(p@);
                    assert(spec_is_path(
                        result,
                        pv,
                        (start.0 as int, start.1 as int),
                        (exit.0 as int, exit.1 as int),
                    ) && pv.len() > MIN_PATH_CELLS);
                }
                Some(result)
            } else {
                None
            }
        },
        None => None,
    }
}

/// Demote cosmetic doors: a door that does not sit at a genuine choke
/// point (as the grid stands when the pass reaches it) becomes floor.
/// Nothing else changes: every cell either keeps its tile or turns from
/// door to floor.
fn demote_doors(map: &mut Vec<TileType>, width: i32, height: i32)
    requires
        3 <= width <= MAX_DIM,
        3 <= height <= MAX_DIM,
        old(map)@.len() == width * height,
    ensures
        final(map)@.len() == old(map)@.len(),
        forall|i: int|
            0 <= i < old(map)@.len() ==> final(map)@[i] == old(map)@[i] || (old(map)@[i]
                == TileType::Door && final(map)@[i] == TileType::Floor),
        // A surviving door sits away from the border, at a cell that was
        // a genuine choke point of the grid as the pass began (the pass
        // only ever removes solidity, so a choke seen mid-pass was one
        // at the start too).
        forall|i: int|
            0 <= i < old(map)@.len() && final(map)@[i] == TileType::Door ==> old(map)@[i]
                == TileType::Door && 1 <= i % (width as int) <= width - 2 && 1 <= i / (
            width as int) <= height - 2 && spec_choke(
                old(map)@,
                width as int,
                i % (width as int),
                i / (width as int),
            ),
{
    let ghost w = width as int;
    let ghost h = height as int;
    let ghost map0 = map@;
    proof {
        lemma_cell_idx(w, h, 0, 0);
    }
    let mut i: usize = 0;
    while i < map.len()
        invariant
            3 <= width <= MAX_DIM,
            3 <= height <= MAX_DIM,
            w == width as int,
            h == height as int,
            map@.len() == map0.len() == width * height,
            i <= map@.len(),
            forall|j: int|
                0 <= j < map0.len() ==> map@[j] == map0[j] || (map0[j] == TileType::Door && map@[j]
                    == TileType::Floor),
            forall|j: int| i <= j < map0.len() ==> map@[j] == map0[j],
            forall|j: int|
                0 <= j < i && map@[j] == TileType::Door ==> 1 <= j % w <= width - 2 && 1 <= j / w
                    <= height - 2 && spec_choke(map0, w, j % w, j / w),
        decreases map@.len() - i,
    {
        if matches!(map[i], TileType::Door) {
            proof {
                lemma_cell_idx(w, h, 0, 0);
                assert(map0.len() <= 0x100_0000);
            }
            let xi = (i as i32) % width;
            let yi = (i as i32) / width;
            proof {
                lemma_idx_to_xy(i as int, w, h);
                assert(xi as int == (i as int) % w && yi as int == (i as int) / w);
                assert(spec_xy_idx(xi as int, yi as int, w) == i as int);
            }
            if xi < 1 || xi > width - 2 || yi < 1 || yi > height - 2 {
                map.set(i, TileType::Floor);
            } else if !is_choke_point(map, width, height, xi, yi) {
                map.set(i, TileType::Floor);
            } else {
                proof {
                    // The kept door sits at a choke of the grid as the
                    // pass sees it now; demotions only removed solidity,
                    // so the choke held at the start of the pass too.
                    lemma_cell_idx(w, h, xi as int + 1, yi as int);
                    lemma_cell_idx(w, h, xi as int - 1, yi as int);
                    lemma_cell_idx(w, h, xi as int, yi as int + 1);
                    lemma_cell_idx(w, h, xi as int, yi as int - 1);
                    assert(spec_choke(map@, w, xi as int, yi as int));
                    assert(crate::tile::spec_tile_solid(map@[spec_xy_idx(xi as int + 1, yi as int, w)])
                        ==> crate::tile::spec_tile_solid(
                        map0[spec_xy_idx(xi as int + 1, yi as int, w)],
                    ));
                    assert(crate::tile::spec_tile_solid(map@[spec_xy_idx(xi as int - 1, yi as int, w)])
                        ==> crate::tile::spec_tile_solid(
                        map0[spec_xy_idx(xi as int - 1, yi as int, w)],
                    ));
                    assert(crate::tile::spec_tile_solid(map@[spec_xy_idx(xi as int, yi as int + 1, w)])
                        ==> crate::tile::spec_tile_solid(
                        map0[spec_xy_idx(xi as int, yi as int + 1, w)],
                    ));
                    assert(crate::tile::spec_tile_solid(map@[spec_xy_idx(xi as int, yi as int - 1, w)])
                        ==> crate::tile::spec_tile_solid(
                        map0[spec_xy_idx(xi as int, yi as int - 1, w)],
                    ));
                    assert(spec_choke(map0, w, xi as int, yi as int));
                }
            }
        }
        i += 1;
    }
}

} // verus!

