//! Tile types, tiles, and the rasterization of a room rectangle into tiles.

use vstd::prelude::*;

use crate::geometry::{Coords, Rect};
use crate::rng::GenRng;

verus! {

/// A cosmetic RGB tint attached to some tiles. It has no effect on
/// generation logic or walkability.
#[derive(Debug, Clone, Copy, PartialEq, Eq, Structural)]
pub struct Rgb {
    pub r: u8,
    pub g: u8,
    pub b: u8,
}

/// The green tint given to grass tiles.
pub open spec fn grass_tint() -> Rgb {
    Rgb { r: 0, g: 127, b: 0 }
}

/// The dark tint given to pathway tiles.
pub open spec fn pathway_tint() -> Rgb {
    Rgb { r: 20, g: 20, b: 20 }
}

/// The kind of a map cell.
#[derive(Debug, Clone, Copy, PartialEq, Eq, Structural)]
pub enum TileType {
    Empty,
    BlankRoomFloor,
    Grass,
    HeavyScatterRoomFloor,
    LightScatterRoomFloor,
    Pathway,
    Wall,
    Door,
}

impl TileType {
    /// Room tiles are the cells a room rasterizes: its floors and its walls.
    pub open spec fn spec_is_room_tile(self) -> bool {
        self == TileType::BlankRoomFloor || self == TileType::HeavyScatterRoomFloor
            || self == TileType::LightScatterRoomFloor || self == TileType::Grass
            || self == TileType::Wall
    }

    /// Walkable tiles are the cells a mobile agent may occupy: room floors,
    /// pathways and doors, but neither walls nor empty space.
    pub open spec fn spec_is_walkable_tile(self) -> bool {
        self == TileType::BlankRoomFloor || self == TileType::HeavyScatterRoomFloor
            || self == TileType::LightScatterRoomFloor || self == TileType::Grass
            || self == TileType::Pathway || self == TileType::Door
    }

    pub open spec fn spec_is_empty(self) -> bool {
        self == TileType::Empty
    }

    /// The floor variants a room interior is filled with.
    pub open spec fn spec_is_room_floor(self) -> bool {
        self == TileType::BlankRoomFloor || self == TileType::HeavyScatterRoomFloor
            || self == TileType::LightScatterRoomFloor || self == TileType::Grass
    }

    pub fn is_room_tile(&self) -> (r: bool)
        ensures
            r == self.spec_is_room_tile(),
    {
        match self {
            TileType::BlankRoomFloor
            | TileType::HeavyScatterRoomFloor
            | TileType::LightScatterRoomFloor
            | TileType::Grass
            | TileType::Wall => true,
            _ => false,
        }
    }

    pub fn is_walkable_tile(&self) -> (r: bool)
        ensures
            r == self.spec_is_walkable_tile(),
    {
        match self {
            TileType::BlankRoomFloor
            | TileType::HeavyScatterRoomFloor
            | TileType::LightScatterRoomFloor
            | TileType::Grass
            | TileType::Pathway
            | TileType::Door => true,
            _ => false,
        }
    }

    pub fn is_empty(&self) -> (r: bool)
        ensures
            r == self.spec_is_empty(),
    {
        match self {
            TileType::Empty => true,
            _ => false,
        }
    }

    /// What `name` returns for each variant: the tile-sheet name a renderer
    /// looks the cell up under.
    pub open spec fn spec_name(self) -> Seq<char> {
        match self {
            TileType::Empty => " "@,
            TileType::BlankRoomFloor => " "@,
            TileType::Grass => "grass"@,
            TileType::HeavyScatterRoomFloor => "floor_scatter_heavy"@,
            TileType::LightScatterRoomFloor => "floor_scatter_light"@,
            TileType::Pathway => "path"@,
            TileType::Wall => "wall"@,
            TileType::Door => "door"@,
        }
    }

    pub fn name(&self) -> (r: &'static str)
        ensures
            r@ == self.spec_name(),
    {
        match self {
            TileType::Empty => " ",
            TileType::BlankRoomFloor => " ",
            TileType::Grass => "grass",
            TileType::HeavyScatterRoomFloor => "floor_scatter_heavy",
            TileType::LightScatterRoomFloor => "floor_scatter_light",
            TileType::Pathway => "path",
            TileType::Wall => "wall",
            TileType::Door => "door",
        }
    }
}

/// One entry of a renderer's tile sheet: a name and the sheet coordinates it
/// is found at.
#[derive(Debug, Clone, Copy)]
pub struct TileDecl {
    pub name: &'static str,
    pub x: u32,
    pub y: u32,
}

/// One map cell: its position, its kind, and an optional cosmetic tint.
#[derive(Debug, Clone, Copy)]
pub struct Tile {
    pub pos: Coords,
    pub tile_type: TileType,
    pub color: Option<Rgb>,
}

impl Tile {
    pub fn new(tile_type: TileType, pos: Coords, color: Option<Rgb>) -> (t: Tile)
        ensures
            t == (Tile { pos, tile_type, color }),
    {
        Tile { pos, tile_type, color }
    }

    /// Rasterizes a room: every cell of the rectangle (inclusive bounds, so
    /// `width + 1` by `height + 1` cells), column by column, border cells as
    /// walls and interior cells as a weighted random choice of floor.
    ///
    /// The result lists cells x-major: the cell at offset `(dx, dy)` from the
    /// room's top-left corner sits at index `dx * (height + 1) + dy`.
    pub fn from_room_rect(room: Rect, rng: &mut GenRng) -> (tiles: Vec<Tile>)
        requires
            room.wf(),
            room.width < i32::MAX,
            room.height < i32::MAX,
        ensures
            tiles@.len() == (room.width + 1) * (room.height + 1),
            forall|i: int| 0 <= i < tiles@.len() ==> room_cell_ok(room, tiles@, i),
    {
        let mut tiles: Vec<Tile> = Vec::new();
        let mut dx: i32 = 0;
        while dx <= room.width
            invariant
                room.wf(),
                room.width < i32::MAX,
                room.height < i32::MAX,
                0 <= dx <= room.width + 1,
                tiles@.len() == dx * (room.height + 1),
                forall|i: int| 0 <= i < tiles@.len() ==> room_cell_ok(room, tiles@, i),
            decreases room.width + 1 - dx,
        {
            let mut dy: i32 = 0;
            while dy <= room.height
                invariant
                    room.wf(),
                    room.width < i32::MAX,
                    room.height < i32::MAX,
                    0 <= dx <= room.width,
                    0 <= dy <= room.height + 1,
                    tiles@.len() == dx * (room.height + 1) + dy,
                    forall|i: int| 0 <= i < tiles@.len() ==> room_cell_ok(room, tiles@, i),
                decreases room.height + 1 - dy,
            {
                let x = room.x + dx;
                let y = room.y + dy;
                let tile: Tile = if dx == 0 || dx == room.width || dy == 0 || dy == room.height {
                    Tile::new(TileType::Wall, Coords { x, y }, None)
                } else {
                    let (tt, color) = pick_floor_tile(rng);
                    Tile::new(tt, Coords { x, y }, color)
                };
                proof {
                    lemma_cell_index(room.height + 1, dx as int, dy as int);
                }
                let ghost prev = tiles@;
                tiles.push(tile);
                proof {
                    assert forall|i: int| 0 <= i < tiles@.len() implies room_cell_ok(
                        room,
                        tiles@,
                        i,
                    ) by {
                        if i < prev.len() {
                            assert(room_cell_ok(room, prev, i));
                            assert(tiles@[i] == prev[i]);
                        } else {
                            assert(i == dx * (room.height + 1) + dy);
                        }
                    }
                }
                dy = dy + 1;
            }
            proof {
                assert((dx + 1) * (room.height + 1) == dx * (room.height + 1) + (room.height + 1))
                    by (nonlinear_arith);
            }
            dx = dx + 1;
        }
        tiles
    }
}

/// What holds of entry `i` of a rasterized room: its position is the cell at
/// x-major offset `i`, border cells are walls, interior cells are floors, and
/// exactly the grass cells carry the grass tint.
pub open spec fn room_cell_ok(room: Rect, tiles: Seq<Tile>, i: int) -> bool {
    let dx = i / (room.height + 1);
    let dy = i % (room.height + 1);
    let t = tiles[i];
    &&& t.pos == (Coords { x: (room.x + dx) as i32, y: (room.y + dy) as i32 })
    &&& t.tile_type.spec_is_room_tile()
    &&& (dx == 0 || dx == room.width || dy == 0 || dy == room.height) <==> t.tile_type
        == TileType::Wall
    &&& t.tile_type != TileType::Wall ==> t.tile_type.spec_is_room_floor()
    &&& t.tile_type == TileType::Grass <==> t.color == Some(grass_tint())
    &&& (t.tile_type != TileType::Grass ==> t.color is None)
}

/// For a fresh cell pushed at x-major offset `(dx, dy)`, the flat index
/// `dx * h1 + dy` decomposes back into `dx` and `dy`.
proof fn lemma_cell_index(h1: int, dx: int, dy: int)
    requires
        0 < h1,
        0 <= dx,
        0 <= dy < h1,
    ensures
        (dx * h1 + dy) / h1 == dx,
        (dx * h1 + dy) % h1 == dy,
{
    vstd::arithmetic::div_mod::lemma_fundamental_div_mod_converse(dx * h1 + dy, h1, dx, dy);
}

/// One weighted draw of a room-floor tile: grass 2/16, light scatter 4/16,
/// heavy scatter 2/16, blank 8/16; grass alone is tinted.
fn pick_floor_tile(rng: &mut GenRng) -> (r: (TileType, Option<Rgb>))
    ensures
        r.0.spec_is_room_floor(),
        r.0 == TileType::Grass <==> r.1 == Some(grass_tint()),
        r.0 != TileType::Grass ==> r.1 is None,
{
    let w = rng.sample_range(0, 16);
    if w < 2 {
        (TileType::Grass, Some(Rgb { r: 0, g: 127, b: 0 }))
    } else if w < 6 {
        (TileType::LightScatterRoomFloor, None)
    } else if w < 8 {
        (TileType::HeavyScatterRoomFloor, None)
    } else {
        (TileType::BlankRoomFloor, None)
    }
}

} // verus!
