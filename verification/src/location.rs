//! One generated dungeon floor: the tile grid, its color layer, the live
//! creature list, and the start/exit cells.
//!
//! A floor is built once by the generator and then mutated in place for its
//! whole lifetime (tile pickups, door breaking, trap activation, creature
//! health); it is replaced wholesale on a floor transition.

use vstd::prelude::*;

use crate::entity::Entity;
use crate::grid::{lemma_xy_idx_bounds, spec_xy_idx, xy_idx};
use crate::tile::{spec_tile_solid, tile_is_solid, Rgb, TileType};

verus! {

/// Upper bound on either grid dimension; keeps every index far below
/// `usize::MAX` and every coordinate sum inside `i32`.
pub const MAX_DIM: i32 = 4096;

/// A dungeon floor.
#[derive(Clone)]
pub struct WorldLocation {
    /// The tile grid, row-major, length `width * height`.
    pub source: Vec<TileType>,
    /// The creatures of the floor, in spawn order; the dead stay listed.
    pub entities: Vec<Entity>,
    /// Display color of each cell, same addressing as `source`.
    pub colors: Vec<Rgb>,
    pub width: i32,
    pub height: i32,
    /// Cell where the player enters the floor.
    pub start_x: i32,
    pub start_y: i32,
    /// Cell of the ladder down to the next floor.
    pub exit_x: i32,
    pub exit_y: i32,
}

/// Inside a well-formed grid every cell index stays tiny, far below
/// `usize::MAX`.
pub proof fn lemma_cell_idx(width: int, height: int, x: int, y: int)
    requires
        0 < width <= MAX_DIM,
        0 < height <= MAX_DIM,
        0 <= x < width,
        0 <= y < height,
    ensures
        0 <= spec_xy_idx(x, y, width) < width * height,
        width * height <= 0x100_0000,
{
    lemma_xy_idx_bounds(x, y, width, height);
    assert(width * height <= 0x100_0000) by (nonlinear_arith)
        requires 0 < width <= 4096 && 0 < height <= 4096;
}

/// Two floors with the same creature list agree on which cells a living
/// creature blocks.
pub proof fn lemma_entity_blocks_same(a: WorldLocation, b: WorldLocation, x: int, y: int)
    requires
        a.entities@ == b.entities@,
    ensures
        a.spec_entity_blocks(x, y) == b.spec_entity_blocks(x, y),
{
    if a.spec_entity_blocks(x, y) {
        let i = choose|i: int|
            0 <= i < a.entities@.len() && (#[trigger] a.entities@[i]).x == x && a.entities@[i].y
                == y && a.entities@[i].health > 0;
        assert(b.entities@[i].x == x && b.entities@[i].y == y && b.entities@[i].health > 0);
    }
    if b.spec_entity_blocks(x, y) {
        let i = choose|i: int|
            0 <= i < b.entities@.len() && (#[trigger] b.entities@[i]).x == x && b.entities@[i].y
                == y && b.entities@[i].health > 0;
        assert(a.entities@[i].x == x && a.entities@[i].y == y && a.entities@[i].health > 0);
    }
}

impl WorldLocation {
    /// Structural well-formedness: both layers span the grid exactly, the
    /// start and exit cells are in bounds, and every creature stands on
    /// the grid with a sane rest counter.
    pub open spec fn wf(self) -> bool {
        &&& 3 <= self.width <= MAX_DIM
        &&& 3 <= self.height <= MAX_DIM
        &&& self.source@.len() == self.width * self.height
        &&& self.colors@.len() == self.width * self.height
        &&& 0 <= self.start_x < self.width
        &&& 0 <= self.start_y < self.height
        &&& 0 <= self.exit_x < self.width
        &&& 0 <= self.exit_y < self.height
        &&& forall|i: int|
            0 <= i < self.entities@.len() ==> (#[trigger] self.entities@[i]).in_bounds(
                self.width as int,
                self.height as int,
            ) && self.entities@[i].wf()
    }

    /// The tile at `(x, y)`.
    pub open spec fn spec_tile_at(self, x: int, y: int) -> TileType {
        self.source@[spec_xy_idx(x, y, self.width as int)]
    }

    /// The display color at `(x, y)`.
    pub open spec fn spec_color_at(self, x: int, y: int) -> Rgb {
        self.colors@[spec_xy_idx(x, y, self.width as int)]
    }

    /// A living creature stands at `(x, y)`.
    pub open spec fn spec_entity_blocks(self, x: int, y: int) -> bool {
        exists|i: int|
            0 <= i < self.entities@.len() && (#[trigger] self.entities@[i]).x == x
                && self.entities@[i].y == y && self.entities@[i].health > 0
    }

    /// The cell blocks movement: a solid tile, or a living creature.
    pub open spec fn spec_solid_at(self, x: int, y: int) -> bool {
        self.spec_entity_blocks(x, y) || spec_tile_solid(self.spec_tile_at(x, y))
    }

    /// A step may land on `(x, y)`: inside the playfield border, not
    /// blocked, and not an armed bear trap (pathing never chooses to walk
    /// into a trap that is still set).
    pub open spec fn spec_exit_valid(self, x: int, y: int) -> bool {
        &&& 1 <= x <= self.width - 1
        &&& 1 <= y <= self.height - 1
        &&& !self.spec_solid_at(x, y)
        &&& self.spec_tile_at(x, y) != TileType::BearTrap
    }

    /// The tile at `(x, y)`, or `None` outside the grid.
    pub fn tile_at(&self, x: i32, y: i32) -> (t: Option<TileType>)
        requires
            self.wf(),
        ensures
            t matches Some(tt) ==> 0 <= x < self.width && 0 <= y < self.height && tt
                == self.spec_tile_at(x as int, y as int),
            t is None <==> !(0 <= x < self.width && 0 <= y < self.height),
    {
        if 0 <= x && x < self.width && 0 <= y && y < self.height {
            proof {
                lemma_cell_idx(self.width as int, self.height as int, x as int, y as int);
            }
            Some(self.source[xy_idx(x, y, self.width)])
        } else {
            None
        }
    }

    /// The display color at `(x, y)`, or `None` outside the grid.
    pub fn color_at(&self, x: i32, y: i32) -> (c: Option<Rgb>)
        requires
            self.wf(),
        ensures
            c matches Some(cc) ==> 0 <= x < self.width && 0 <= y < self.height && cc
                == self.spec_color_at(x as int, y as int),
            c is None <==> !(0 <= x < self.width && 0 <= y < self.height),
    {
        if 0 <= x && x < self.width && 0 <= y && y < self.height {
            proof {
                lemma_cell_idx(self.width as int, self.height as int, x as int, y as int);
            }
            Some(self.colors[xy_idx(x, y, self.width)])
        } else {
            None
        }
    }

    /// Whether the in-bounds cell `(x, y)` blocks movement: a living
    /// creature stands there, or its tile is solid.
    pub fn is_solid(&self, xy: (i32, i32)) -> (r: bool)
        requires
            self.wf(),
            0 <= xy.0 < self.width,
            0 <= xy.1 < self.height,
        ensures
            r == self.spec_solid_at(xy.0 as int, xy.1 as int),
    {
        let x = xy.0;
        let y = xy.1;
        let mut i: usize = 0;
        while i < self.entities.len()
            invariant
                self.wf(),
                x == xy.0,
                y == xy.1,
                0 <= x < self.width,
                0 <= y < self.height,
                i <= self.entities@.len(),
                forall|j: int|
                    0 <= j < i ==> !((#[trigger] self.entities@[j]).x == x && self.entities@[j].y
                        == y && self.entities@[j].health > 0),
            decreases self.entities@.len() - i,
        {
            let e = &self.entities[i];
            if e.x == x && e.y == y && e.health > 0 {
                proof {
                    assert(self.entities@[i as int].x == x && self.entities@[i as int].y == y
                        && self.entities@[i as int].health > 0);
                }
                return true;
            }
            i += 1;
        }
        proof {
            lemma_cell_idx(self.width as int, self.height as int, x as int, y as int);
        }
        tile_is_solid(self.source[xy_idx(x, y, self.width)])
    }

    /// Total variant of the solidity query: cells outside the grid count
    /// as blocked, so any coordinate may be asked about.
    pub fn is_blocked(&self, x: i32, y: i32) -> (r: bool)
        requires
            self.wf(),
        ensures
            r == if 0 <= x < self.width && 0 <= y < self.height {
                self.spec_solid_at(x as int, y as int)
            } else {
                true
            },
    {
        if 0 <= x && x < self.width && 0 <= y && y < self.height {
            self.is_solid((x, y))
        } else {
            true
        }
    }

    /// Whether a path step may land on `(x, y)`; see `spec_exit_valid`.
    pub fn is_exit_valid(&self, x: i32, y: i32) -> (r: bool)
        requires
            self.wf(),
        ensures
            r == self.spec_exit_valid(x as int, y as int),
    {
        if x < 1 || x > self.width - 1 || y < 1 || y > self.height - 1 {
            return false;
        }
        proof {
            lemma_cell_idx(self.width as int, self.height as int, x as int, y as int);
        }
        !self.is_solid((x, y)) && !matches!(
            self.source[xy_idx(x, y, self.width)],
            TileType::BearTrap
        )
    }

    /// Whether the in-bounds cell `(x, y)` lets sight through, with the
    /// overlay used by the long-range pass: when `treat_doors_transparent`
    /// is set, closed doors are counted as see-through so the renderer can
    /// preview the corridor beyond them. The overlay is a parameter, never
    /// stored state.
    pub fn is_transparent_at(&self, x: i32, y: i32, treat_doors_transparent: bool) -> (r: bool)
        requires
            self.wf(),
            0 <= x < self.width,
            0 <= y < self.height,
        ensures
            r == (crate::tile::spec_tile_transparent(self.spec_tile_at(x as int, y as int)) || (
            treat_doors_transparent && self.spec_tile_at(x as int, y as int) == TileType::Door)),
    {
        proof {
            lemma_cell_idx(self.width as int, self.height as int, x as int, y as int);
        }
        let t = self.source[xy_idx(x, y, self.width)];
        crate::tile::tile_is_transparent(t) || (treat_doors_transparent && matches!(
            t,
            TileType::Door
        ))
    }
}

} // verus!
