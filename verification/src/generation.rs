//! Map generation: configuration, the generator variants, and the single
//! entry point that dispatches to one of them.

use vstd::prelude::*;

use crate::geometry::{Coords, Rect};
use crate::map::TileMap;
use crate::maze::carve_maze;
use crate::pathfinding::{ortho_star, spec_adjacent};
use crate::rng::GenRng;
use crate::rooms::{place_rooms, room_in_field, StopPolicy};
use crate::tile::{grass_tint, Rgb, Tile, TileType};
use core::ops::Range;

verus! {

/// Configuration for one generation run. Room widths and heights are drawn
/// from the given half-open ranges; `outside_buffer` is the margin kept
/// between any room and the map edge, and `room_buffer` the padding kept
/// between any two rooms.
#[derive(Debug)]
pub struct MapGenOptions {
    pub map_width: i32,
    pub map_height: i32,
    pub room_width: Range<i32>,
    pub room_height: Range<i32>,
    pub outside_buffer: i32,
    pub room_buffer: i32,
}

impl MapGenOptions {
    /// A configuration is valid when all quantities are non-negative, the
    /// room ranges are non-empty, the map leaves a non-empty sampling domain
    /// for room corners even at maximal room size, and the cell count and
    /// buffered room sizes fit the machine integers.
    pub open spec fn valid(self) -> bool {
        &&& 0 <= self.outside_buffer
        &&& 0 <= self.room_buffer
        &&& 0 <= self.room_width.start < self.room_width.end
        &&& 0 <= self.room_height.start < self.room_height.end
        &&& self.outside_buffer < self.map_width - self.outside_buffer - self.room_width.end
        &&& self.outside_buffer < self.map_height - self.outside_buffer - self.room_height.end
        &&& self.room_width.end + self.room_buffer <= i32::MAX
        &&& self.room_height.end + self.room_buffer <= i32::MAX
        &&& 0 <= self.map_width < i32::MAX
        &&& 0 <= self.map_height < i32::MAX
        &&& (self.map_width + 1) * (self.map_height + 1) <= i32::MAX
    }

    /// Checks `valid` on any input, free of overflow.
    pub fn validate(&self) -> (r: bool)
        ensures
            r == self.valid(),
    {
        let mw = self.map_width as i64;
        let mh = self.map_height as i64;
        let ob = self.outside_buffer as i64;
        let rb = self.room_buffer as i64;
        let ws = self.room_width.start as i64;
        let we = self.room_width.end as i64;
        let hs = self.room_height.start as i64;
        let he = self.room_height.end as i64;
        let max = i32::MAX as i64;
        let basic = 0 <= ob && 0 <= rb && 0 <= ws && ws < we && 0 <= hs && hs < he && ob < mw - ob
            - we && ob < mh - ob - he && we + rb <= max && he + rb <= max && 0 <= mw && mw < max
            && 0 <= mh && mh < max;
        if !basic {
            return false;
        }
        proof {
            assert((mw + 1) * (mh + 1) <= i64::MAX) by (nonlinear_arith)
                requires
                    0 <= mw < 0x8000_0000i64,
                    0 <= mh < 0x8000_0000i64,
            ;
        }
        (mw + 1) * (mh + 1) <= max
    }
}

impl Clone for MapGenOptions {
    /// An exact copy, field for field.
    fn clone(&self) -> (r: Self)
        ensures
            r.map_width == self.map_width,
            r.map_height == self.map_height,
            r.room_width.start == self.room_width.start,
            r.room_width.end == self.room_width.end,
            r.room_height.start == self.room_height.start,
            r.room_height.end == self.room_height.end,
            r.outside_buffer == self.outside_buffer,
            r.room_buffer == self.room_buffer,
    {
        MapGenOptions {
            map_width: self.map_width,
            map_height: self.map_height,
            room_width: self.room_width.start..self.room_width.end,
            room_height: self.room_height.start..self.room_height.end,
            outside_buffer: self.outside_buffer,
            room_buffer: self.room_buffer,
        }
    }
}

/// Why a generation request was refused.
#[derive(Debug, Clone, Copy, PartialEq, Eq, Structural)]
pub enum MapGenError {
    /// The options fail `MapGenOptions::valid`: a room range is empty, the
    /// map is too small for the buffers and maximal room size, or a size
    /// exceeds the machine limits.
    InvalidConfiguration,
}

/// Whether the cell lies within the rectangle (inclusive bounds).
pub open spec fn in_rect(r: Rect, x: int, y: int) -> bool {
    r.spec_left() <= x <= r.spec_right() && r.spec_top() <= y <= r.spec_bottom()
}

/// The untouched tile a fresh map holds at a cell.
pub open spec fn empty_tile(x: int, y: int) -> Tile {
    Tile { pos: Coords { x: x as i32, y: y as i32 }, tile_type: TileType::Empty, color: None }
}

/// Whether one of the first `n` rooms covers the cell.
pub open spec fn in_room_prefix(rooms: Seq<Rect>, n: int, x: int, y: int) -> bool {
    exists|i: int| 0 <= i < n && in_rect(#[trigger] rooms[i], x, y)
}

/// Whether any accepted room covers the cell.
pub open spec fn in_some_room(rooms: Seq<Rect>, x: int, y: int) -> bool {
    in_room_prefix(rooms, rooms.len() as int, x, y)
}

/// The x-major offset of a covered cell within its room.
spec fn cell_idx(room: Rect, x: int, y: int) -> int {
    (x - room.x) * (room.height + 1) + (y - room.y)
}

/// What a rasterized room guarantees of every cell it covers: border cells
/// are walls, interior cells are floors, and exactly the grass cells carry
/// the grass tint.
pub open spec fn room_cell_on_map(room: Rect, m: TileMap, x: int, y: int) -> bool {
    let t = m.spec_tile_at(x, y);
    &&& t.tile_type.spec_is_room_tile()
    &&& ((x == room.spec_left() || x == room.spec_right() || y == room.spec_top() || y
        == room.spec_bottom()) <==> t.tile_type == TileType::Wall)
    &&& (t.tile_type != TileType::Wall ==> t.tile_type.spec_is_room_floor())
    &&& (t.tile_type == TileType::Grass <==> t.color == Some(grass_tint()))
    &&& (t.tile_type != TileType::Grass ==> t.color is None)
}

/// The x-major offset of a covered cell is a valid tile-list index and
/// determines the cell.
proof fn lemma_cell_idx(room: Rect, x: int, y: int)
    requires
        room.wf(),
        in_rect(room, x, y),
    ensures
        0 <= cell_idx(room, x, y) < (room.width + 1) * (room.height + 1),
        cell_idx(room, x, y) / (room.height + 1) == x - room.x,
        cell_idx(room, x, y) % (room.height + 1) == y - room.y,
{
    let dx = x - room.x;
    let dy = y - room.y;
    let h1 = room.height + 1;
    vstd::arithmetic::div_mod::lemma_fundamental_div_mod_converse(dx * h1 + dy, h1, dx, dy);
    assert(0 <= dx * h1 + dy < (room.width + 1) * h1) by (nonlinear_arith)
        requires
            0 <= dx <= room.width,
            0 <= dy < h1,
            0 < h1,
    ;
}

/// Distinct covered cells have distinct offsets.
proof fn lemma_cell_idx_injective(room: Rect, x1: int, y1: int, x2: int, y2: int)
    requires
        room.wf(),
        in_rect(room, x1, y1),
        in_rect(room, x2, y2),
        x1 != x2 || y1 != y2,
    ensures
        cell_idx(room, x1, y1) != cell_idx(room, x2, y2),
{
    lemma_cell_idx(room, x1, y1);
    lemma_cell_idx(room, x2, y2);
}

/// A tile-list index decomposes into in-room offsets whose cell has that
/// very index.
proof fn lemma_offsets(room: Rect, i: int)
    requires
        room.wf(),
        0 <= i < (room.width + 1) * (room.height + 1),
    ensures
        0 <= i / (room.height + 1) <= room.width,
        0 <= i % (room.height + 1) <= room.height,
        cell_idx(room, room.x + i / (room.height + 1), room.y + i % (room.height + 1)) == i,
{
    let h1 = room.height + 1;
    let q = i / h1;
    let r2 = i % h1;
    vstd::arithmetic::div_mod::lemma_fundamental_div_mod(i, h1);
    vstd::arithmetic::div_mod::lemma_mod_division_less_than_divisor(i, h1);
    vstd::arithmetic::div_mod::lemma_div_pos_is_pos(i, h1);
    assert(q <= room.width) by (nonlinear_arith)
        requires
            i == h1 * q + r2,
            0 <= r2 < h1,
            0 < h1,
            i < (room.width + 1) * h1,
    ;
    assert(q * h1 == h1 * q) by (nonlinear_arith);
}

/// A point covered by one of two rectangles kept buffered-disjoint is not
/// covered by the other.
proof fn lemma_separated(a: Rect, b: Rect, n: int, x: int, y: int)
    requires
        a.wf(),
        b.wf(),
        0 <= n,
        a.width + n <= i32::MAX,
        a.height + n <= i32::MAX,
        b.width + n <= i32::MAX,
        b.height + n <= i32::MAX,
        !a.spec_intersects_with_buffer(b, n),
        in_rect(a, x, y),
    ensures
        !in_rect(b, x, y),
{
    let ab = a.spec_buffer(n);
    let bb = b.spec_buffer(n);
    assert(ab.spec_left() <= a.spec_left() && ab.spec_right() >= a.spec_right());
    assert(ab.spec_top() <= a.spec_top() && ab.spec_bottom() >= a.spec_bottom());
    assert(bb.spec_left() <= b.spec_left() && bb.spec_right() >= b.spec_right());
    assert(bb.spec_top() <= b.spec_top() && bb.spec_bottom() >= b.spec_bottom());
}

/// Rasterizes one room into the map: border cells become walls, interior
/// cells a weighted choice of floor; every cell outside the room's rectangle
/// is untouched.
pub fn rasterize_room(map: &mut TileMap, room: Rect, rng: &mut GenRng)
    requires
        old(map).wf(),
        room.wf(),
        room.spec_right() <= old(map).spec_width(),
        room.spec_bottom() <= old(map).spec_height(),
    ensures
        final(map).wf(),
        final(map).spec_width() == old(map).spec_width(),
        final(map).spec_height() == old(map).spec_height(),
        forall|x: int, y: int|
            final(map).in_bounds(x, y) && in_rect(room, x, y) ==> room_cell_on_map(
                room,
                *final(map),
                x,
                y,
            ),
        forall|x: int, y: int|
            final(map).in_bounds(x, y) && !in_rect(room, x, y)
                ==> #[trigger] final(map).spec_tile_at(x, y) == old(map).spec_tile_at(x, y),
{
    proof {
        map.lemma_wf_bounds();
    }
    let tiles = Tile::from_room_rect(room, rng);
    let mut ti: usize = 0;
    while ti < tiles.len()
        invariant
            map.wf(),
            map.spec_width() == old(map).spec_width(),
            map.spec_height() == old(map).spec_height(),
            room.wf(),
            room.spec_right() <= map.spec_width(),
            room.spec_bottom() <= map.spec_height(),
            tiles@.len() == (room.width + 1) * (room.height + 1),
            forall|i: int| 0 <= i < tiles@.len() ==> crate::tile::room_cell_ok(room, tiles@, i),
            0 <= ti <= tiles@.len(),
            forall|x: int, y: int|
                map.in_bounds(x, y) && in_rect(room, x, y) && cell_idx(room, x, y) < ti
                    ==> room_cell_on_map(room, *map, x, y),
            forall|x: int, y: int|
                map.in_bounds(x, y) && (!in_rect(room, x, y) || cell_idx(room, x, y) >= ti)
                    ==> #[trigger] map.spec_tile_at(x, y) == old(map).spec_tile_at(x, y),
        decreases tiles@.len() - ti,
    {
        let t = tiles[ti];
        proof {
            assert(crate::tile::room_cell_ok(room, tiles@, ti as int));
            lemma_offsets(room, ti as int);
        }
        let ghost px = t.pos.x as int;
        let ghost py = t.pos.y as int;
        proof {
            assert(in_rect(room, px, py));
            assert(cell_idx(room, px, py) == ti);
        }
        map.set_tile(t.pos.x, t.pos.y, t.tile_type, t.color);
        proof {
            assert(map.spec_tile_at(px, py) == (Tile {
                pos: Coords { x: px as i32, y: py as i32 },
                tile_type: t.tile_type,
                color: t.color,
            }));
            assert(room_cell_on_map(room, *map, px, py));
            assert forall|x: int, y: int|
                map.in_bounds(x, y) && in_rect(room, x, y) && cell_idx(room, x, y) < ti
                    + 1 implies room_cell_on_map(room, *map, x, y) by {
                if x == px && y == py {
                } else {
                    lemma_cell_idx_injective(room, x, y, px, py);
                }
            }
            assert forall|x: int, y: int|
                map.in_bounds(x, y) && (!in_rect(room, x, y) || cell_idx(room, x, y) >= ti
                    + 1) implies #[trigger] map.spec_tile_at(x, y) == old(map).spec_tile_at(
                x,
                y,
            ) by {
                if x == px && y == py {
                    assert(in_rect(room, x, y) && cell_idx(room, x, y) == ti);
                    assert(false);
                }
            }
        }
        ti = ti + 1;
    }
    proof {
        assert forall|x: int, y: int|
            map.in_bounds(x, y) && in_rect(room, x, y) implies room_cell_on_map(
            room,
            *map,
            x,
            y,
        ) by {
            lemma_cell_idx(room, x, y);
        }
    }
}

/// Whether the vector holds the coordinates `(x, y)`.
fn coords_contain(s: &Vec<Coords>, x: i32, y: i32) -> (r: bool)
    ensures
        r == exists|j: int| 0 <= j < s@.len() && s@[j] == (Coords { x, y }),
{
    let mut i: usize = 0;
    while i < s.len()
        invariant
            0 <= i <= s@.len(),
            forall|j: int| 0 <= j < i ==> s@[j] != (Coords { x, y }),
        decreases s@.len() - i,
    {
        let c = s[i];
        if c.x == x && c.y == y {
            assert(s@[i as int] == (Coords { x, y }));
            return true;
        }
        i = i + 1;
    }
    false
}

/// Whether `d` is one of the four edge midpoints of the room: the midpoint
/// of its top, bottom, left or right wall. Every such cell lies on the
/// room's border ring.
pub open spec fn is_edge_midpoint(room: Rect, d: Coords) -> bool {
    let cx = (room.x + room.width as int / 2) as i32;
    let cy = (room.y + room.height as int / 2) as i32;
    ||| d == (Coords { x: cx, y: room.y })
    ||| d == (Coords { x: cx, y: (room.y + room.height) as i32 })
    ||| d == (Coords { x: room.x, y: cy })
    ||| d == (Coords { x: (room.x + room.width) as i32, y: cy })
}

/// Chooses one of the four edge midpoints of the room, uniformly at random.
fn choose_door(room: Rect, rng: &mut GenRng) -> (d: Coords)
    requires
        room.wf(),
    ensures
        in_rect(room, d.x as int, d.y as int),
        is_edge_midpoint(room, d),
{
    proof {
        vstd::arithmetic::div_mod::lemma_div_pos_is_pos(room.width as int, 2);
        vstd::arithmetic::div_mod::lemma_div_nonincreasing(room.width as int, 2);
        vstd::arithmetic::div_mod::lemma_div_pos_is_pos(room.height as int, 2);
        vstd::arithmetic::div_mod::lemma_div_nonincreasing(room.height as int, 2);
    }
    let cx = room.x + room.width / 2;
    let cy = room.y + room.height / 2;
    let side = rng.sample_range(0, 4);
    if side == 0 {
        Coords { x: cx, y: room.y }
    } else if side == 1 {
        Coords { x: cx, y: room.y + room.height }
    } else if side == 2 {
        Coords { x: room.x, y: cy }
    } else {
        Coords { x: room.x + room.width, y: cy }
    }
}

/// Whether some computed corridor passes through the cell.
pub open spec fn on_some_corridor(corridors: Seq<Option<Vec<(i32, i32)>>>, x: int, y: int) -> bool {
    exists|k: int|
        #![trigger corridors[k]]
        {
            &&& 0 <= k < corridors.len()
            &&& corridors[k] matches Some(c) && exists|i: int|
                0 <= i < c@.len() && (#[trigger] c@[i]).0 == x && c@[i].1 == y
        }
}

/// What `simple_gen` produces: the finished map, the accepted rooms and the
/// door punched into each room's wall (one per room, in placement order), and
/// for each consecutive door pair the corridor that joins them, or `None`
/// where the search found no route.
pub struct SimpleMap {
    pub map: TileMap,
    pub rooms: Vec<Rect>,
    pub doors: Vec<Coords>,
    pub corridors: Vec<Option<Vec<(i32, i32)>>>,
}

/// What holds of a corridor joining door `d1` to door `d2` on the finished
/// map: it runs from `d2` back to `d1`, consecutive cells are adjacent on
/// exactly one axis, and every cell holds a pathway or a door tile — an
/// unbroken walkable chain.
pub open spec fn corridor_ok(m: TileMap, d1: Coords, d2: Coords, c: Option<Vec<(i32, i32)>>) -> bool {
    match c {
        Some(path) => {
            &&& path@.len() >= 1
            &&& path@[0] == ((d2.x, d2.y))
            &&& path@[path@.len() - 1] == ((d1.x, d1.y))
            &&& (forall|i: int|
                0 <= i < path@.len() - 1 ==> spec_adjacent(#[trigger] path@[i], path@[i + 1]))
            &&& (forall|i: int|
                0 <= i < path@.len() ==> m.in_bounds((#[trigger] path@[i]).0 as int, path@[i].1 as int)
                    && (m.spec_tile_type_at(path@[i].0 as int, path@[i].1 as int)
                    == TileType::Pathway || m.spec_tile_type_at(path@[i].0 as int, path@[i].1 as int)
                    == TileType::Door))
        },
        None => true,
    }
}

/// Generates a room-and-corridor map: rooms by rejection sampling over a
/// fixed budget of 101 attempts, one door per room at a random edge midpoint,
/// then corridors connecting the doors consecutively in placement order with
/// A* restricted to non-room cells. Door pairs with no such route are left
/// unconnected. Every door coordinate holds a door tile; every other cell of
/// a room is exactly as rasterized, so corridors never cut through a room;
/// and every found corridor is an unbroken chain of pathway and door tiles
/// between its two doors.
pub fn simple_gen(options: &MapGenOptions, rng: &mut GenRng) -> (r: SimpleMap)
    requires
        options.valid(),
    ensures
        r.map.wf(),
        r.map.spec_width() == options.map_width as int,
        r.map.spec_height() == options.map_height as int,
        r.rooms@.len() >= 1,
        r.rooms@.len() <= 101,
        r.doors@.len() == r.rooms@.len(),
        r.doors@.len() > 1 ==> r.corridors@.len() == r.doors@.len() - 1,
        r.doors@.len() <= 1 ==> r.corridors@.len() == 0,
        forall|i: int| 0 <= i < r.rooms@.len() ==> room_in_field(*options, #[trigger] r.rooms@[i]),
        forall|i: int, j: int|
            0 <= i < r.rooms@.len() && 0 <= j < r.rooms@.len() && i != j ==> !(
            #[trigger] r.rooms@[i]).spec_intersects_with_buffer(
                #[trigger] r.rooms@[j],
                options.room_buffer as int,
            ),
        forall|d: int|
            0 <= d < r.doors@.len() ==> in_rect(
                r.rooms@[d],
                (#[trigger] r.doors@[d]).x as int,
                r.doors@[d].y as int,
            ),
        forall|d: int|
            0 <= d < r.doors@.len() ==> is_edge_midpoint(r.rooms@[d], #[trigger] r.doors@[d]),
        forall|d: int|
            0 <= d < r.doors@.len() ==> r.map.in_bounds(
                (#[trigger] r.doors@[d]).x as int,
                r.doors@[d].y as int,
            ) && r.map.spec_tile_type_at(r.doors@[d].x as int, r.doors@[d].y as int)
                == TileType::Door,
        forall|i: int, x: int, y: int|
            0 <= i < r.rooms@.len() && #[trigger] in_rect(r.rooms@[i], x, y) && (x
                != r.doors@[i].x as int || y != r.doors@[i].y as int) ==> room_cell_on_map(
                r.rooms@[i],
                r.map,
                x,
                y,
            ),
        forall|k: int|
            0 <= k < r.corridors@.len() ==> corridor_ok(
                r.map,
                r.doors@[k],
                r.doors@[k + 1],
                #[trigger] r.corridors@[k],
            ),
        forall|x: int, y: int|
            r.map.in_bounds(x, y) && !in_some_room(r.rooms@, x, y) && !on_some_corridor(
                r.corridors@,
                x,
                y,
            ) ==> #[trigger] r.map.spec_tile_at(x, y) == empty_tile(x, y),
{
    let rooms = place_rooms(options, StopPolicy::TotalAttempts(101), rng);
    let mut map = TileMap::new(options.map_width, options.map_height);
    let mut doors: Vec<Coords> = Vec::new();
    let mut ri: usize = 0;
    while ri < rooms.len()
        invariant
            options.valid(),
            map.wf(),
            map.spec_width() == options.map_width as int,
            map.spec_height() == options.map_height as int,
            forall|i: int| 0 <= i < rooms@.len() ==> room_in_field(*options, #[trigger] rooms@[i]),
            forall|i: int, j: int|
                0 <= i < rooms@.len() && 0 <= j < rooms@.len() && i != j ==> !(
                #[trigger] rooms@[i]).spec_intersects_with_buffer(
                    #[trigger] rooms@[j],
                    options.room_buffer as int,
                ),
            0 <= ri <= rooms@.len(),
            doors@.len() == ri,
            forall|d: int|
                0 <= d < doors@.len() ==> in_rect(
                    rooms@[d],
                    (#[trigger] doors@[d]).x as int,
                    doors@[d].y as int,
                ),
            forall|d: int|
                0 <= d < doors@.len() ==> is_edge_midpoint(rooms@[d], #[trigger] doors@[d]),
            forall|d: int|
                0 <= d < doors@.len() ==> map.in_bounds(
                    (#[trigger] doors@[d]).x as int,
                    doors@[d].y as int,
                ) && map.spec_tile_type_at(doors@[d].x as int, doors@[d].y as int)
                    == TileType::Door,
            forall|i: int, x: int, y: int|
                0 <= i < ri && #[trigger] in_rect(rooms@[i], x, y) && (x != doors@[i].x as int || y
                    != doors@[i].y as int) ==> room_cell_on_map(rooms@[i], map, x, y),
            forall|x: int, y: int|
                map.in_bounds(x, y) && !in_room_prefix(rooms@, ri as int, x, y)
                    ==> #[trigger] map.spec_tile_at(x, y) == empty_tile(x, y),
        decreases rooms@.len() - ri,
    {
        let room = rooms[ri];
        rasterize_room(&mut map, room, rng);
        proof {
            assert forall|d: int| 0 <= d < doors@.len() implies map.in_bounds(
                (#[trigger] doors@[d]).x as int,
                doors@[d].y as int,
            ) && map.spec_tile_type_at(doors@[d].x as int, doors@[d].y as int)
                == TileType::Door by {
                lemma_separated(
                    rooms@[d],
                    room,
                    options.room_buffer as int,
                    doors@[d].x as int,
                    doors@[d].y as int,
                );
            }
            assert forall|i: int, x: int, y: int|
                0 <= i < ri && #[trigger] in_rect(rooms@[i], x, y) && (x != doors@[i].x as int || y
                    != doors@[i].y as int) implies room_cell_on_map(rooms@[i], map, x, y) by {
                lemma_room_cells_in_bounds(*options, map, rooms@[i], x, y);
                lemma_separated(rooms@[i], room, options.room_buffer as int, x, y);
            }
            assert forall|x: int, y: int|
                map.in_bounds(x, y) && !in_room_prefix(rooms@, ri + 1, x, y)
                    implies #[trigger] map.spec_tile_at(x, y) == empty_tile(x, y) by {
                assert(!in_rect(rooms@[ri as int], x, y));
                assert(!in_room_prefix(rooms@, ri as int, x, y));
            }
        }
        let door = choose_door(room, rng);
        map.set_tile(door.x, door.y, TileType::Door, None);
        proof {
            assert forall|d: int| 0 <= d < doors@.len() implies map.in_bounds(
                (#[trigger] doors@[d]).x as int,
                doors@[d].y as int,
            ) && map.spec_tile_type_at(doors@[d].x as int, doors@[d].y as int)
                == TileType::Door by {
                lemma_separated(
                    rooms@[d],
                    room,
                    options.room_buffer as int,
                    doors@[d].x as int,
                    doors@[d].y as int,
                );
            }
        }
        proof {
            assert forall|x: int, y: int|
                map.in_bounds(x, y) && !in_room_prefix(rooms@, ri + 1, x, y)
                    implies #[trigger] map.spec_tile_at(x, y) == empty_tile(x, y) by {
                // the fresh door lies in this room, so the cell differs from it
                assert(in_rect(rooms@[ri as int], door.x as int, door.y as int));
                assert(!in_rect(rooms@[ri as int], x, y));
            }
        }
        doors.push(door);
        proof {
            assert forall|i: int, x: int, y: int|
                0 <= i < ri + 1 && #[trigger] in_rect(rooms@[i], x, y) && (x != doors@[i].x as int
                    || y != doors@[i].y as int) implies room_cell_on_map(rooms@[i], map, x, y) by {
                lemma_room_cells_in_bounds(*options, map, rooms@[i], x, y);
                if i < ri {
                    // the fresh door lies in this room, away from room `i`
                    lemma_separated(
                        room,
                        rooms@[i],
                        options.room_buffer as int,
                        door.x as int,
                        door.y as int,
                    );
                }
            }
        }
        ri = ri + 1;
    }
    let mut corridors: Vec<Option<Vec<(i32, i32)>>> = Vec::new();
    if doors.len() > 1 {
        let mut di: usize = 0;
        while di < doors.len() - 1
            invariant
                options.valid(),
                map.wf(),
                map.spec_width() == options.map_width as int,
                map.spec_height() == options.map_height as int,
                doors@.len() > 1,
                doors@.len() == rooms@.len(),
                0 <= di <= doors@.len() - 1,
                corridors@.len() == di,
                forall|i: int|
                    0 <= i < rooms@.len() ==> room_in_field(*options, #[trigger] rooms@[i]),
                forall|d: int|
                    0 <= d < doors@.len() ==> map.in_bounds(
                        (#[trigger] doors@[d]).x as int,
                        doors@[d].y as int,
                    ) && map.spec_tile_type_at(doors@[d].x as int, doors@[d].y as int)
                        == TileType::Door,
                forall|i: int, x: int, y: int|
                    0 <= i < rooms@.len() && #[trigger] in_rect(rooms@[i], x, y) && (x
                        != doors@[i].x as int || y != doors@[i].y as int) ==> room_cell_on_map(
                        rooms@[i],
                        map,
                        x,
                        y,
                    ),
                forall|k: int|
                    0 <= k < corridors@.len() ==> corridor_ok(
                        map,
                        doors@[k],
                        doors@[k + 1],
                        #[trigger] corridors@[k],
                    ),
                forall|x: int, y: int|
                    map.in_bounds(x, y) && !in_some_room(rooms@, x, y) && !on_some_corridor(
                        corridors@,
                        x,
                        y,
                    ) ==> #[trigger] map.spec_tile_at(x, y) == empty_tile(x, y),
            decreases doors@.len() - 1 - di,
        {
            let d1 = doors[di];
            let d2 = doors[di + 1];
            let ghost map0 = map;
            let path_opt = {
                let mref = &map;
                let walk = |wx: i32, wy: i32| -> (b: bool)
                    ensures
                        b == (mref.in_bounds(wx as int, wy as int) && !mref.spec_tile_at(
                            wx as int,
                            wy as int,
                        ).tile_type.spec_is_room_tile()),
                    {
                        match mref.tile_at(Coords { x: wx, y: wy }) {
                            Some(t) => !t.tile_type.is_room_tile(),
                            None => false,
                        }
                    };
                let cost = |_ca: (i32, i32), _cb: (i32, i32)| -> (c: u32) { 1 };
                ortho_star((d1.x, d1.y), (d2.x, d2.y), walk, cost)
            };
            match path_opt {
                Some(path) => {
                    proof {
                        assert forall|i: int| 0 <= i < path@.len() - 1 implies map0.in_bounds(
                            (#[trigger] path@[i]).0 as int,
                            path@[i].1 as int,
                        ) && !map0.spec_tile_at(
                            path@[i].0 as int,
                            path@[i].1 as int,
                        ).tile_type.spec_is_room_tile() by {
                        }
                    }
                    let mut pi: usize = 0;
                    while pi < path.len()
                        invariant
                            options.valid(),
                            map.wf(),
                            map.spec_width() == map0.spec_width(),
                            map.spec_height() == map0.spec_height(),
                            map0.spec_width() == options.map_width as int,
                            map0.spec_height() == options.map_height as int,
                            0 <= pi <= path@.len(),
                            path@.len() >= 1,
                            path@[0] == ((d2.x, d2.y)),
                            path@[path@.len() - 1] == ((d1.x, d1.y)),
                            0 <= di < doors@.len() - 1,
                            doors@[di as int] == d1,
                            doors@[di as int + 1] == d2,
                            doors@.len() == rooms@.len(),
                            corridors@.len() == di,
                            forall|i: int|
                                0 <= i < path@.len() - 1 ==> spec_adjacent(
                                    #[trigger] path@[i],
                                    path@[i + 1],
                                ),
                            forall|i: int|
                                0 <= i < rooms@.len() ==> room_in_field(
                                    *options,
                                    #[trigger] rooms@[i],
                                ),
                            forall|i: int|
                                0 <= i < path@.len() - 1 ==> map0.in_bounds(
                                    (#[trigger] path@[i]).0 as int,
                                    path@[i].1 as int,
                                ) && !map0.spec_tile_at(
                                    path@[i].0 as int,
                                    path@[i].1 as int,
                                ).tile_type.spec_is_room_tile(),
                            forall|i: int, x: int, y: int|
                                0 <= i < rooms@.len() && #[trigger] in_rect(rooms@[i], x, y) && (x
                                    != doors@[i].x as int || y != doors@[i].y as int)
                                    ==> room_cell_on_map(rooms@[i], map0, x, y),
                            forall|d: int|
                                0 <= d < doors@.len() ==> map.in_bounds(
                                    (#[trigger] doors@[d]).x as int,
                                    doors@[d].y as int,
                                ) && map.spec_tile_type_at(doors@[d].x as int, doors@[d].y as int)
                                    == TileType::Door,
                            forall|i: int, x: int, y: int|
                                0 <= i < rooms@.len() && #[trigger] in_rect(rooms@[i], x, y) && (x
                                    != doors@[i].x as int || y != doors@[i].y as int)
                                    ==> room_cell_on_map(rooms@[i], map, x, y),
                            forall|k: int|
                                0 <= k < corridors@.len() ==> corridor_ok(
                                    map,
                                    doors@[k],
                                    doors@[k + 1],
                                    #[trigger] corridors@[k],
                                ),
                            forall|i: int|
                                0 <= i < pi ==> map.in_bounds(
                                    (#[trigger] path@[i]).0 as int,
                                    path@[i].1 as int,
                                ) && (map.spec_tile_type_at(path@[i].0 as int, path@[i].1 as int)
                                    == TileType::Pathway || map.spec_tile_type_at(
                                    path@[i].0 as int,
                                    path@[i].1 as int,
                                ) == TileType::Door),
                            forall|x: int, y: int|
                                map.in_bounds(x, y) && !in_some_room(rooms@, x, y)
                                    && !on_some_corridor(corridors@, x, y) && (forall|i: int|
                                    0 <= i < pi ==> (#[trigger] path@[i]).0 as int != x || path@[i].1 as int != y)
                                    ==> #[trigger] map.spec_tile_at(x, y) == empty_tile(x, y),
                        decreases path@.len() - pi,
                    {
                        let (px, py) = path[pi];
                        if !coords_contain(&doors, px, py) {
                            proof {
                                if pi == path.len() - 1 {
                                    assert(doors@[di as int] == (Coords { x: px, y: py }));
                                    assert(false);
                                }
                            }
                            let ghost mpre = map;
                            map.set_tile(
                                px,
                                py,
                                TileType::Pathway,
                                Some(Rgb { r: 20, g: 20, b: 20 }),
                            );
                            proof {
                                assert forall|i: int, x: int, y: int|
                                    0 <= i < rooms@.len() && #[trigger] in_rect(rooms@[i], x, y)
                                        && (x != doors@[i].x as int || y != doors@[i].y as int)
                                        implies room_cell_on_map(rooms@[i], map, x, y) by {
                                    lemma_room_cells_in_bounds(*options, map, rooms@[i], x, y);
                                    if x == px as int && y == py as int {
                                        // the written cell was not a room cell
                                        // on the snapshot the route was
                                        // searched on
                                        assert(room_cell_on_map(rooms@[i], map0, x, y));
                                        assert(false);
                                    }
                                }
                                assert forall|k: int| 0 <= k < corridors@.len() implies corridor_ok(
                                    map,
                                    doors@[k],
                                    doors@[k + 1],
                                    #[trigger] corridors@[k],
                                ) by {
                                    assert(corridor_ok(mpre, doors@[k], doors@[k + 1], corridors@[k]));
                                    match corridors@[k] {
                                        Some(c) => {
                                            assert forall|i: int| 0 <= i < c@.len() implies map.in_bounds(
                                                (#[trigger] c@[i]).0 as int,
                                                c@[i].1 as int,
                                            ) && (map.spec_tile_type_at(
                                                c@[i].0 as int,
                                                c@[i].1 as int,
                                            ) == TileType::Pathway || map.spec_tile_type_at(
                                                c@[i].0 as int,
                                                c@[i].1 as int,
                                            ) == TileType::Door) by {
                                                if c@[i].0 == px && c@[i].1 == py {
                                                } else {
                                                }
                                            }
                                        },
                                        None => {},
                                    }
                                }
                                assert forall|i: int| 0 <= i < pi + 1 implies map.in_bounds(
                                    (#[trigger] path@[i]).0 as int,
                                    path@[i].1 as int,
                                ) && (map.spec_tile_type_at(path@[i].0 as int, path@[i].1 as int)
                                    == TileType::Pathway || map.spec_tile_type_at(
                                    path@[i].0 as int,
                                    path@[i].1 as int,
                                ) == TileType::Door) by {
                                    if i < pi && !(path@[i].0 == px && path@[i].1 == py) {
                                        assert(mpre.in_bounds(path@[i].0 as int, path@[i].1 as int));
                                    }
                                }
                                assert forall|x: int, y: int|
                                    map.in_bounds(x, y) && !in_some_room(rooms@, x, y)
                                        && !on_some_corridor(corridors@, x, y) && (forall|i: int|
                                        0 <= i < pi + 1 ==> (#[trigger] path@[i]).0 as int != x
                                            || path@[i].1 as int != y)
                                        implies #[trigger] map.spec_tile_at(x, y) == empty_tile(
                                        x,
                                        y,
                                    ) by {
                                        // the freshly written cell is the path cell `pi`,
                                        // which the hypothesis excludes
                                        assert(path@[pi as int].0 as int != x || path@[pi as int].1
                                            as int != y);
                                        assert(mpre.spec_tile_at(x, y) == empty_tile(x, y));
                                    }
                            }
                        } else {
                            proof {
                                // a door cell on the route keeps its door tile
                                let j = choose|j: int|
                                    0 <= j < doors@.len() && doors@[j] == (Coords {
                                        x: px,
                                        y: py,
                                    });
                                assert(map.spec_tile_type_at(px as int, py as int)
                                    == TileType::Door);
                            }
                        }
                        pi = pi + 1;
                    }
                    let ghost old_corridors = corridors@;
                    corridors.push(Some(path));
                    proof {
                        assert forall|x: int, y: int|
                            map.in_bounds(x, y) && !in_some_room(rooms@, x, y)
                                && !on_some_corridor(corridors@, x, y)
                                implies #[trigger] map.spec_tile_at(x, y) == empty_tile(x, y) by {
                            assert(corridors@[di as int] == Some(path));
                            // the new corridor covers every path cell, so the
                            // hypothesis excludes them all, and the old
                            // corridors are still among the new ones
                            assert forall|i: int|
                                0 <= i < path@.len() implies (#[trigger] path@[i]).0 as int != x
                                    || path@[i].1 as int != y by {
                                if path@[i].0 as int == x && path@[i].1 as int == y {
                                    assert(on_some_corridor(corridors@, x, y));
                                }
                            }
                            if on_some_corridor(old_corridors, x, y) {
                                let k = choose|k: int|
                                    #![trigger old_corridors[k]]
                                    {
                                        &&& 0 <= k < old_corridors.len()
                                        &&& old_corridors[k] matches Some(c) && exists|i: int|
                                            0 <= i < c@.len() && (#[trigger] c@[i]).0 == x
                                                && c@[i].1 == y
                                    };
                                assert(corridors@[k] == old_corridors[k]);
                                assert(on_some_corridor(corridors@, x, y));
                            }
                        }
                    }
                },
                None => {
                    let ghost old_corridors = corridors@;
                    corridors.push(None);
                    proof {
                        assert forall|x: int, y: int|
                            map.in_bounds(x, y) && !in_some_room(rooms@, x, y)
                                && !on_some_corridor(corridors@, x, y)
                                implies #[trigger] map.spec_tile_at(x, y) == empty_tile(x, y) by {
                            if on_some_corridor(old_corridors, x, y) {
                                let k = choose|k: int|
                                    #![trigger old_corridors[k]]
                                    {
                                        &&& 0 <= k < old_corridors.len()
                                        &&& old_corridors[k] matches Some(c) && exists|i: int|
                                            0 <= i < c@.len() && (#[trigger] c@[i]).0 == x
                                                && c@[i].1 == y
                                    };
                                assert(corridors@[k] == old_corridors[k]);
                                assert(on_some_corridor(corridors@, x, y));
                            }
                        }
                    }
                },
            }
            di = di + 1;
        }
    }
    SimpleMap { map, rooms, doors, corridors }
}

/// Generates a maze-carved map: rooms by rejection sampling until two hundred
/// consecutive rejections, then a randomized depth-first carve of every
/// remaining empty cell. The finished map holds no empty tile, and the carve
/// leaves every room's cells exactly as rasterized. Returns the map and the
/// placed rooms.
pub fn nystrom_gen(options: &MapGenOptions, rng: &mut GenRng) -> (r: (TileMap, Vec<Rect>))
    requires
        options.valid(),
    ensures
        r.0.wf(),
        r.0.spec_width() == options.map_width as int,
        r.0.spec_height() == options.map_height as int,
        r.1@.len() >= 1,
        forall|x: int, y: int|
            r.0.in_bounds(x, y) ==> #[trigger] r.0.spec_tile_type_at(x, y) != TileType::Empty,
        forall|i: int| 0 <= i < r.1@.len() ==> room_in_field(*options, #[trigger] r.1@[i]),
        forall|i: int, j: int|
            0 <= i < r.1@.len() && 0 <= j < r.1@.len() && i != j ==> !(
            #[trigger] r.1@[i]).spec_intersects_with_buffer(
                #[trigger] r.1@[j],
                options.room_buffer as int,
            ),
        forall|i: int, x: int, y: int|
            0 <= i < r.1@.len() && #[trigger] in_rect(r.1@[i], x, y) ==> room_cell_on_map(
                r.1@[i],
                r.0,
                x,
                y,
            ),
        forall|x: int, y: int|
            r.0.in_bounds(x, y) && !in_some_room(r.1@, x, y)
                ==> #[trigger] r.0.spec_tile_at(x, y) == crate::maze::carved_tile(x, y),
{
    let rooms = place_rooms(options, StopPolicy::ConsecutiveFailures(200), rng);
    let mut map = TileMap::new(options.map_width, options.map_height);
    let mut ri: usize = 0;
    while ri < rooms.len()
        invariant
            options.valid(),
            map.wf(),
            map.spec_width() == options.map_width as int,
            map.spec_height() == options.map_height as int,
            forall|i: int| 0 <= i < rooms@.len() ==> room_in_field(*options, #[trigger] rooms@[i]),
            forall|i: int, j: int|
                0 <= i < rooms@.len() && 0 <= j < rooms@.len() && i != j ==> !(
                #[trigger] rooms@[i]).spec_intersects_with_buffer(
                    #[trigger] rooms@[j],
                    options.room_buffer as int,
                ),
            0 <= ri <= rooms@.len(),
            forall|i: int, x: int, y: int|
                0 <= i < ri && #[trigger] in_rect(rooms@[i], x, y) ==> room_cell_on_map(
                    rooms@[i],
                    map,
                    x,
                    y,
                ),
            forall|x: int, y: int|
                map.in_bounds(x, y) && !in_room_prefix(rooms@, ri as int, x, y)
                    ==> #[trigger] map.spec_tile_at(x, y) == empty_tile(x, y),
        decreases rooms@.len() - ri,
    {
        let room = rooms[ri];
        rasterize_room(&mut map, room, rng);
        proof {
            assert forall|i: int, x: int, y: int|
                0 <= i < ri + 1 && #[trigger] in_rect(rooms@[i], x, y) implies room_cell_on_map(
                rooms@[i],
                map,
                x,
                y,
            ) by {
                lemma_room_cells_in_bounds(*options, map, rooms@[i], x, y);
                if i < ri {
                    lemma_separated(rooms@[i], room, options.room_buffer as int, x, y);
                }
            }
            assert forall|x: int, y: int|
                map.in_bounds(x, y) && !in_room_prefix(rooms@, ri + 1, x, y)
                    implies #[trigger] map.spec_tile_at(x, y) == empty_tile(x, y) by {
                assert(!in_rect(rooms@[ri as int], x, y));
                assert(!in_room_prefix(rooms@, ri as int, x, y));
            }
        }
        ri = ri + 1;
    }
    proof {
        assert forall|i: int, x: int, y: int|
            0 <= i < rooms@.len() && #[trigger] in_rect(rooms@[i], x, y) implies map.in_bounds(
            x,
            y,
        ) && map.spec_tile_type_at(x, y) != TileType::Empty by {
            lemma_room_cells_in_bounds(*options, map, rooms@[i], x, y);
        }
    }
    carve_maze(&mut map, rng);
    proof {
        assert forall|i: int, x: int, y: int|
            0 <= i < rooms@.len() && #[trigger] in_rect(rooms@[i], x, y) implies room_cell_on_map(
            rooms@[i],
            map,
            x,
            y,
        ) by {
            lemma_room_cells_in_bounds(*options, map, rooms@[i], x, y);
        }
        assert forall|x: int, y: int|
            map.in_bounds(x, y) && !in_some_room(rooms@, x, y)
                implies #[trigger] map.spec_tile_at(x, y) == crate::maze::carved_tile(x, y) by {
        }
    }
    (map, rooms)
}

/// A cell covered by a room that keeps the outside buffer lies on the map.
proof fn lemma_room_cells_in_bounds(
    options: MapGenOptions,
    m: TileMap,
    room: Rect,
    x: int,
    y: int,
)
    requires
        options.valid(),
        m.spec_width() == options.map_width as int,
        m.spec_height() == options.map_height as int,
        room_in_field(options, room),
        in_rect(room, x, y),
    ensures
        m.in_bounds(x, y),
{
}

/// Whether every room tile of the map keeps the outside buffer to each map
/// edge: room tiles appear only where accepted rooms were placed.
pub open spec fn room_tiles_in_margins(options: MapGenOptions, m: TileMap) -> bool {
    forall|x: int, y: int|
        m.in_bounds(x, y) && (#[trigger] m.spec_tile_type_at(x, y)).spec_is_room_tile()
            ==> options.outside_buffer <= x <= options.map_width - options.outside_buffer
                && options.outside_buffer <= y <= options.map_height - options.outside_buffer
}

/// Map-level guarantee of the room-and-corridor strategy: at least one door
/// tile exists, and room and door tiles keep the outside buffer to each edge.
pub open spec fn simple_map_post(options: MapGenOptions, m: TileMap) -> bool {
    &&& exists|x: int, y: int|
        m.in_bounds(x, y) && #[trigger] m.spec_tile_type_at(x, y) == TileType::Door
    &&& room_tiles_in_margins(options, m)
}

/// Map-level guarantee of the maze-carving strategy: no cell is left empty,
/// and room tiles keep the outside buffer to each edge.
pub open spec fn nystrom_map_post(options: MapGenOptions, m: TileMap) -> bool {
    &&& forall|x: int, y: int|
        m.in_bounds(x, y) ==> #[trigger] m.spec_tile_type_at(x, y) != TileType::Empty
    &&& room_tiles_in_margins(options, m)
}

/// A strategy for filling a map from the options.
pub trait MapGen {
    /// What this strategy guarantees of a finished map, beyond
    /// well-formedness and the configured dimensions.
    spec fn strategy_post(options: MapGenOptions, m: TileMap) -> bool;

    /// Generates a map of the configured dimensions that satisfies the
    /// strategy's guarantee.
    fn gen(options: &MapGenOptions, rng: &mut GenRng) -> (m: TileMap)
        requires
            options.valid(),
        ensures
            m.wf(),
            m.spec_width() == options.map_width as int,
            m.spec_height() == options.map_height as int,
            Self::strategy_post(*options, m),
    ;
}

/// The room-and-corridor strategy: doors punched into room walls, connected
/// pairwise in placement order by A* corridors.
pub struct Simple;

impl MapGen for Simple {
    open spec fn strategy_post(options: MapGenOptions, m: TileMap) -> bool {
        simple_map_post(options, m)
    }

    fn gen(options: &MapGenOptions, rng: &mut GenRng) -> (m: TileMap) {
        let generated = simple_gen(options, rng);
        proof {
            lemma_simple_map_post(*options, &generated);
        }
        generated.map
    }
}

/// The maze-carving strategy: every cell left empty after room placement is
/// carved into a winding pathway.
pub struct Nystrom;

impl MapGen for Nystrom {
    open spec fn strategy_post(options: MapGenOptions, m: TileMap) -> bool {
        nystrom_map_post(options, m)
    }

    fn gen(options: &MapGenOptions, rng: &mut GenRng) -> (m: TileMap) {
        let (map, rooms) = nystrom_gen(options, rng);
        proof {
            assert forall|x: int, y: int|
                map.in_bounds(x, y) && (#[trigger] map.spec_tile_type_at(x, y)).spec_is_room_tile()
                    implies options.outside_buffer <= x <= options.map_width
                    - options.outside_buffer && options.outside_buffer <= y <= options.map_height
                    - options.outside_buffer by {
                // outside every room the cell is a carved pathway, so a room
                // or door tile can only lie inside a placed room
                if in_some_room(rooms@, x, y) {
                    let i = choose|i: int|
                        0 <= i < rooms@.len() && in_rect(#[trigger] rooms@[i], x, y);
                    assert(room_in_field(*options, rooms@[i]));
                }
            }
        }
        map
    }
}

/// What `simple_gen` proves implies the strategy's map-level guarantee.
proof fn lemma_simple_map_post(options: MapGenOptions, generated: &SimpleMap)
    requires
        generated.map.wf(),
        generated.rooms@.len() >= 1,
        generated.doors@.len() == generated.rooms@.len(),
        forall|i: int|
            0 <= i < generated.rooms@.len() ==> room_in_field(
                options,
                #[trigger] generated.rooms@[i],
            ),
        forall|d: int|
            0 <= d < generated.doors@.len() ==> in_rect(
                generated.rooms@[d],
                (#[trigger] generated.doors@[d]).x as int,
                generated.doors@[d].y as int,
            ),
        forall|d: int|
            0 <= d < generated.doors@.len() ==> generated.map.in_bounds(
                (#[trigger] generated.doors@[d]).x as int,
                generated.doors@[d].y as int,
            ) && generated.map.spec_tile_type_at(
                generated.doors@[d].x as int,
                generated.doors@[d].y as int,
            ) == TileType::Door,
        forall|k: int|
            0 <= k < generated.corridors@.len() ==> corridor_ok(
                generated.map,
                generated.doors@[k],
                generated.doors@[k + 1],
                #[trigger] generated.corridors@[k],
            ),
        forall|x: int, y: int|
            generated.map.in_bounds(x, y) && !in_some_room(generated.rooms@, x, y)
                && !on_some_corridor(generated.corridors@, x, y)
                ==> #[trigger] generated.map.spec_tile_at(x, y) == empty_tile(x, y),
    ensures
        simple_map_post(options, generated.map),
{
    let m = generated.map;
    let d0 = generated.doors@[0];
    assert(m.in_bounds(d0.x as int, d0.y as int) && m.spec_tile_type_at(d0.x as int, d0.y as int)
        == TileType::Door);
    assert forall|x: int, y: int|
        m.in_bounds(x, y) && (#[trigger] m.spec_tile_type_at(x, y)).spec_is_room_tile()
            implies options.outside_buffer <= x <= options.map_width - options.outside_buffer
        && options.outside_buffer <= y <= options.map_height - options.outside_buffer by {
        if in_some_room(generated.rooms@, x, y) {
            let i = choose|i: int|
                0 <= i < generated.rooms@.len() && in_rect(#[trigger] generated.rooms@[i], x, y);
            assert(room_in_field(options, generated.rooms@[i]));
        } else if on_some_corridor(generated.corridors@, x, y) {
            // a corridor cell off every room is a pathway or a door; if it is
            // a door it is one of the recorded doors, which lie inside rooms
            let k = choose|k: int|
                #![trigger generated.corridors@[k]]
                {
                    &&& 0 <= k < generated.corridors@.len()
                    &&& generated.corridors@[k] matches Some(c) && exists|i: int|
                        0 <= i < c@.len() && (#[trigger] c@[i]).0 == x && c@[i].1 == y
                };
            match generated.corridors@[k] {
                Some(c) => {
                    let i = choose|i: int|
                        0 <= i < c@.len() && (#[trigger] c@[i]).0 == x && c@[i].1 == y;
                    assert(corridor_ok(
                        m,
                        generated.doors@[k],
                        generated.doors@[k + 1],
                        generated.corridors@[k],
                    ));
                    assert(m.spec_tile_type_at(c@[i].0 as int, c@[i].1 as int) == TileType::Pathway
                        || m.spec_tile_type_at(c@[i].0 as int, c@[i].1 as int) == TileType::Door);
                    assert(false);
                },
                None => {
                    assert(false);
                },
            }
        } else {
            assert(m.spec_tile_at(x, y) == empty_tile(x, y));
            assert(false);
        }
    }
}

/// Generates a map with the chosen strategy, after validating the options:
/// invalid options are reported as an error rather than risking undefined
/// arithmetic. The returned map carries the strategy's own guarantee.
pub fn generate_map<T: MapGen>(options: &MapGenOptions, rng: &mut GenRng) -> (r: Result<
    TileMap,
    MapGenError,
>)
    ensures
        options.valid() <==> r is Ok,
        !options.valid() ==> r == Result::<TileMap, MapGenError>::Err(
            MapGenError::InvalidConfiguration,
        ),
        r matches Ok(m) ==> m.wf() && m.spec_width() == options.map_width as int
            && m.spec_height() == options.map_height as int && T::strategy_post(*options, m),
{
    if options.validate() {
        Ok(T::gen(options, rng))
    } else {
        Err(MapGenError::InvalidConfiguration)
    }
}

} // verus!
