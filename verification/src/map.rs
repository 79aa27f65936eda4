//! The generated map: a flat, row-major buffer of typed tiles, queryable by
//! coordinate.
//!
//! A map of width `w` and height `h` uses the same inclusive-bound convention
//! as `Rect`: it spans the columns `0 ..= w` and the rows `0 ..= h`, so the
//! buffer holds `(w + 1) * (h + 1)` tiles and the cell `(x, y)` sits at index
//! `y * (w + 1) + x`.

use vstd::prelude::*;
use vstd::pervasive::VecAdditionalExecFns;

use crate::geometry::Coords;
use crate::tile::{Rgb, Tile, TileType};

verus! {

pub struct TileMap {
    tiles: Vec<Tile>,
    width: i32,
    height: i32,
}

impl TileMap {
    pub closed spec fn spec_width(self) -> int {
        self.width as int
    }

    pub closed spec fn spec_height(self) -> int {
        self.height as int
    }

    /// The whole tile buffer, row-major.
    pub closed spec fn spec_tiles(self) -> Seq<Tile> {
        self.tiles@
    }

    /// Whether `(x, y)` lies on the map (inclusive bounds).
    pub open spec fn in_bounds(self, x: int, y: int) -> bool {
        0 <= x <= self.spec_width() && 0 <= y <= self.spec_height()
    }

    /// The tile stored for the cell `(x, y)`.
    pub closed spec fn spec_tile_at(self, x: int, y: int) -> Tile {
        self.tiles@[y * (self.spec_width() + 1) + x]
    }

    /// The kind of the tile stored for the cell `(x, y)`.
    pub open spec fn spec_tile_type_at(self, x: int, y: int) -> TileType {
        self.spec_tile_at(x, y).tile_type
    }

    /// A well-formed map has non-negative dimensions whose cell count fits in
    /// `i32`, a buffer of exactly that many tiles, and each tile's recorded
    /// position agrees with the index it is stored at.
    pub closed spec fn wf(self) -> bool {
        &&& 0 <= self.width < i32::MAX
        &&& 0 <= self.height < i32::MAX
        &&& (self.width + 1) * (self.height + 1) <= i32::MAX
        &&& self.tiles@.len() == (self.width + 1) * (self.height + 1)
        &&& forall|i: int|
            0 <= i < self.tiles@.len() ==> (#[trigger] self.tiles@[i]).pos == (Coords {
                x: (i % (self.spec_width() + 1)) as i32,
                y: (i / (self.spec_width() + 1)) as i32,
            })
    }

    /// A fresh map of the given dimensions, every cell `Empty` and untinted.
    pub fn new(width: i32, height: i32) -> (m: TileMap)
        requires
            0 <= width < i32::MAX,
            0 <= height < i32::MAX,
            (width + 1) * (height + 1) <= i32::MAX,
        ensures
            m.wf(),
            m.spec_width() == width,
            m.spec_height() == height,
            forall|x: int, y: int|
                m.in_bounds(x, y) ==> #[trigger] m.spec_tile_at(x, y) == (Tile {
                    pos: Coords { x: x as i32, y: y as i32 },
                    tile_type: TileType::Empty,
                    color: None,
                }),
    {
        let mut tiles: Vec<Tile> = Vec::new();
        let mut y: i32 = 0;
        while y <= height
            invariant
                0 <= width < i32::MAX,
                0 <= height < i32::MAX,
                (width + 1) * (height + 1) <= i32::MAX,
                0 <= y <= height + 1,
                tiles@.len() == y * (width + 1),
                forall|i: int|
                    0 <= i < tiles@.len() ==> #[trigger] tiles@[i] == (Tile {
                        pos: Coords {
                            x: (i % (width + 1)) as i32,
                            y: (i / (width + 1)) as i32,
                        },
                        tile_type: TileType::Empty,
                        color: None,
                    }),
            decreases height + 1 - y,
        {
            let mut x: i32 = 0;
            while x <= width
                invariant
                    0 <= width < i32::MAX,
                    0 <= height < i32::MAX,
                    (width + 1) * (height + 1) <= i32::MAX,
                    0 <= y <= height,
                    0 <= x <= width + 1,
                    tiles@.len() == y * (width + 1) + x,
                    forall|i: int|
                        0 <= i < tiles@.len() ==> #[trigger] tiles@[i] == (Tile {
                            pos: Coords {
                                x: (i % (width + 1)) as i32,
                                y: (i / (width + 1)) as i32,
                            },
                            tile_type: TileType::Empty,
                            color: None,
                        }),
                decreases width + 1 - x,
            {
                proof {
                    lemma_row_major_index(width + 1, y as int, x as int);
                }
                tiles.push(Tile { pos: Coords { x, y }, tile_type: TileType::Empty, color: None });
                x = x + 1;
            }
            proof {
                assert((y + 1) * (width + 1) == y * (width + 1) + (width + 1)) by (nonlinear_arith);
            }
            y = y + 1;
        }
        proof {
            assert((height + 1) * (width + 1) == (width + 1) * (height + 1)) by (nonlinear_arith);
        }
        let m = TileMap { tiles, width, height };
        proof {
            assert forall|x: int, y: int| m.in_bounds(x, y) implies #[trigger] m.spec_tile_at(x, y)
                == (Tile {
                pos: Coords { x: x as i32, y: y as i32 },
                tile_type: TileType::Empty,
                color: None,
            }) by {
                lemma_cell_in_range(width as int, height as int, x, y);
                lemma_row_major_index(width + 1, y, x);
            }
        }
        m
    }

    pub fn width(&self) -> (r: i32)
        ensures
            r as int == self.spec_width(),
    {
        self.width
    }

    pub fn height(&self) -> (r: i32)
        ensures
            r as int == self.spec_height(),
    {
        self.height
    }

    /// All tiles in row-major order, for iteration by a renderer.
    pub fn tiles(&self) -> (r: &Vec<Tile>)
        ensures
            r@ == self.spec_tiles(),
    {
        &self.tiles
    }

    /// A well-formed map's flat buffer holds exactly one tile per cell:
    /// `(width + 1) * (height + 1)` of them.
    pub proof fn lemma_buffer_len(&self)
        requires
            self.wf(),
        ensures
            self.spec_tiles().len() == (self.spec_width() + 1) * (self.spec_height() + 1),
    {
    }

    /// In a well-formed map, the tile stored for a cell records that very
    /// cell as its position.
    pub proof fn lemma_tile_pos(&self, x: int, y: int)
        requires
            self.wf(),
            self.in_bounds(x, y),
        ensures
            self.spec_tile_at(x, y).pos == (Coords { x: x as i32, y: y as i32 }),
    {
        lemma_cell_in_range(self.spec_width(), self.spec_height(), x, y);
        lemma_row_major_index(self.spec_width() + 1, y, x);
    }

    /// A well-formed map's dimensions are strictly below `i32::MAX`, so
    /// stepping one cell past any in-bounds coordinate cannot overflow.
    pub proof fn lemma_wf_bounds(&self)
        requires
            self.wf(),
        ensures
            0 <= self.spec_width() < i32::MAX,
            0 <= self.spec_height() < i32::MAX,
    {
    }

    /// Connects the coordinate view with the flat buffer: the cell `(x, y)`
    /// is the buffer entry at its row-major index.
    pub proof fn lemma_tile_at_index(&self, x: int, y: int)
        requires
            self.wf(),
            self.in_bounds(x, y),
        ensures
            0 <= y * (self.spec_width() + 1) + x < self.spec_tiles().len(),
            self.spec_tile_at(x, y) == self.spec_tiles()[y * (self.spec_width() + 1) + x],
    {
        lemma_cell_in_range(self.spec_width(), self.spec_height(), x, y);
    }

    /// The first still-empty cell in scan order (x-major, y-minor), or `None`
    /// when no cell of the map is empty.
    pub fn first_empty(&self) -> (r: Option<Coords>)
        requires
            self.wf(),
        ensures
            r is None ==> forall|x: int, y: int|
                self.in_bounds(x, y) ==> #[trigger] self.spec_tile_type_at(x, y)
                    != TileType::Empty,
            r matches Some(c) ==> self.in_bounds(c.x as int, c.y as int)
                && self.spec_tile_type_at(c.x as int, c.y as int) == TileType::Empty,
            r matches Some(c) ==> forall|x2: int, y2: int|
                self.in_bounds(x2, y2) && (x2 < c.x || (x2 == c.x && y2 < c.y))
                    ==> #[trigger] self.spec_tile_type_at(x2, y2) != TileType::Empty,
    {
        let mut x: i32 = 0;
        while x <= self.width
            invariant
                self.wf(),
                0 <= x <= self.spec_width() + 1,
                forall|x2: int, y2: int|
                    0 <= x2 < x && 0 <= y2 <= self.spec_height()
                        ==> #[trigger] self.spec_tile_type_at(x2, y2) != TileType::Empty,
            decreases self.spec_width() + 1 - x,
        {
            let mut y: i32 = 0;
            while y <= self.height
                invariant
                    self.wf(),
                    0 <= x <= self.spec_width(),
                    0 <= y <= self.spec_height() + 1,
                    forall|x2: int, y2: int|
                        0 <= x2 < x && 0 <= y2 <= self.spec_height()
                            ==> #[trigger] self.spec_tile_type_at(x2, y2) != TileType::Empty,
                    forall|y2: int|
                        0 <= y2 < y ==> #[trigger] self.spec_tile_type_at(x as int, y2)
                            != TileType::Empty,
                decreases self.spec_height() + 1 - y,
            {
                proof {
                    lemma_cell_in_range(self.spec_width(), self.spec_height(), x as int, y as int);
                }
                let idx: usize = (y as usize) * ((self.width + 1) as usize) + (x as usize);
                let t = self.tiles[idx];
                if t.tile_type.is_empty() {
                    return Some(Coords { x, y });
                }
                y = y + 1;
            }
            x = x + 1;
        }
        None
    }

    /// The tile at the given coordinates, or `None` when they fall outside
    /// the map.
    pub fn tile_at(&self, coords: Coords) -> (r: Option<Tile>)
        requires
            self.wf(),
        ensures
            self.in_bounds(coords.x as int, coords.y as int) ==> r == Some(
                self.spec_tile_at(coords.x as int, coords.y as int),
            ),
            !self.in_bounds(coords.x as int, coords.y as int) ==> r is None,
    {
        if coords.x < 0 || coords.x > self.width || coords.y < 0 || coords.y > self.height {
            None
        } else {
            proof {
                lemma_cell_in_range(
                    self.spec_width(),
                    self.spec_height(),
                    coords.x as int,
                    coords.y as int,
                );
            }
            let idx: usize = (coords.y as usize) * ((self.width + 1) as usize) + (coords.x as usize);
            Some(self.tiles[idx])
        }
    }

    /// Overwrites the cell `(x, y)` with the given kind and tint; every other
    /// cell and the dimensions are untouched.
    pub fn set_tile(&mut self, x: i32, y: i32, tile_type: TileType, color: Option<Rgb>)
        requires
            old(self).wf(),
            old(self).in_bounds(x as int, y as int),
        ensures
            final(self).wf(),
            final(self).spec_width() == old(self).spec_width(),
            final(self).spec_height() == old(self).spec_height(),
            final(self).spec_tiles() == old(self).spec_tiles().update(
                y * (old(self).spec_width() + 1) + x,
                Tile { pos: Coords { x, y }, tile_type, color },
            ),
            final(self).spec_tile_at(x as int, y as int) == (Tile {
                pos: Coords { x, y },
                tile_type,
                color,
            }),
            forall|x2: int, y2: int|
                final(self).in_bounds(x2, y2) && (x2 != x as int || y2 != y as int)
                    ==> #[trigger] final(self).spec_tile_at(x2, y2) == old(self).spec_tile_at(
                    x2,
                    y2,
                ),
    {
        proof {
            lemma_cell_in_range(self.spec_width(), self.spec_height(), x as int, y as int);
        }
        let idx: usize = (y as usize) * ((self.width + 1) as usize) + (x as usize);
        self.tiles.set(idx, Tile { pos: Coords { x, y }, tile_type, color });
        proof {
            lemma_row_major_index(self.spec_width() + 1, y as int, x as int);
            assert forall|x2: int, y2: int|
                self.in_bounds(x2, y2) && (x2 != x as int || y2 != y as int)
                    implies #[trigger] self.spec_tile_at(x2, y2) == old(self).spec_tile_at(
                x2,
                y2,
            ) by {
                lemma_cell_in_range(self.spec_width(), self.spec_height(), x2, y2);
                lemma_row_major_index(self.spec_width() + 1, y2, x2);
            }
        }
    }
}

/// A cell's row-major index is within the buffer: for `0 <= x <= w` and
/// `0 <= y <= h`, `y * (w + 1) + x < (w + 1) * (h + 1)`.
proof fn lemma_cell_in_range(w: int, h: int, x: int, y: int)
    requires
        0 <= x <= w,
        0 <= y <= h,
    ensures
        0 <= y * (w + 1) + x < (w + 1) * (h + 1),
{
    assert(0 <= y * (w + 1) + x < (w + 1) * (h + 1)) by (nonlinear_arith)
        requires
            0 <= x <= w,
            0 <= y <= h,
    ;
}

/// The row-major index `y * w1 + x` decomposes back into its row and column.
proof fn lemma_row_major_index(w1: int, y: int, x: int)
    requires
        0 < w1,
        0 <= y,
        0 <= x < w1,
    ensures
        (y * w1 + x) / w1 == y,
        (y * w1 + x) % w1 == x,
{
    vstd::arithmetic::div_mod::lemma_fundamental_div_mod_converse(y * w1 + x, w1, y, x);
}

} // verus!
