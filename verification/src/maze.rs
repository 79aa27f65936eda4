//! The maze carver: a randomized depth-first walk with a directional bias
//! that converts every empty cell into a pathway, rescanning for fresh seeds
//! until no empty cell is left.

use vstd::prelude::*;

use crate::geometry::Coords;
use crate::map::TileMap;
use crate::rng::GenRng;
use crate::tile::{pathway_tint, Rgb, Tile, TileType};

verus! {

/// What a carved cell holds: a pathway tile at its own position, darkly
/// tinted.
pub open spec fn carved_tile(x: int, y: int) -> Tile {
    Tile {
        pos: Coords { x: x as i32, y: y as i32 },
        tile_type: TileType::Pathway,
        color: Some(pathway_tint()),
    }
}

/// The carver's frame invariant: dimensions unchanged, and every cell either
/// untouched or carved from an empty cell into a pathway.
pub open spec fn carve_preserves(orig: TileMap, m: TileMap) -> bool {
    &&& m.spec_width() == orig.spec_width()
    &&& m.spec_height() == orig.spec_height()
    &&& forall|x: int, y: int|
        m.in_bounds(x, y) ==> (#[trigger] m.spec_tile_at(x, y) == orig.spec_tile_at(x, y) || (
        orig.spec_tile_type_at(x, y) == TileType::Empty && m.spec_tile_at(x, y) == carved_tile(
            x,
            y,
        )))
}

/// How many tiles of the buffer are empty; the carver's work measure.
spec fn count_empty(tiles: Seq<Tile>) -> nat
    decreases tiles.len(),
{
    if tiles.len() == 0 {
        0
    } else {
        count_empty(tiles.drop_last()) + if tiles.last().tile_type == TileType::Empty {
            1nat
        } else {
            0nat
        }
    }
}

/// Overwriting an empty tile with a non-empty one strictly shrinks the count
/// of empty tiles.
proof fn lemma_count_empty_update(s: Seq<Tile>, i: int, t: Tile)
    requires
        0 <= i < s.len(),
        s[i].tile_type == TileType::Empty,
        t.tile_type != TileType::Empty,
    ensures
        count_empty(s.update(i, t)) < count_empty(s),
    decreases s.len(),
{
    let s2 = s.update(i, t);
    if i == s.len() - 1 {
        assert(s2.drop_last() =~= s.drop_last());
        assert(s2.last() == t);
        assert(s.last() == s[i]);
    } else {
        assert(s2.drop_last() =~= s.drop_last().update(i, t));
        assert(s2.last() == s.last());
        lemma_count_empty_update(s.drop_last(), i, t);
    }
}

/// The cell one step from `c` in direction `d` (north, east, south, west in
/// cyclic order).
spec fn spec_step(c: Coords, d: int) -> (int, int) {
    if d == 0 {
        (c.x as int, c.y - 1)
    } else if d == 1 {
        (c.x + 1, c.y as int)
    } else if d == 2 {
        (c.x as int, c.y + 1)
    } else {
        (c.x - 1, c.y as int)
    }
}

/// Whether the direction vector holds `d`.
fn dirs_contain(s: &Vec<i32>, d: i32) -> (r: bool)
    ensures
        r == s@.contains(d),
{
    let mut i: usize = 0;
    while i < s.len()
        invariant
            0 <= i <= s@.len(),
            forall|j: int| 0 <= j < i ==> s@[j] != d,
        decreases s@.len() - i,
    {
        if s[i] == d {
            assert(s@[i as int] == d);
            return true;
        }
        i = i + 1;
    }
    false
}

/// Carves every empty cell of the map into a pathway.
///
/// Repeatedly: scan for the first still-empty cell and walk from it, carving
/// the current cell, preferring to continue straight with a one-in-four
/// chance of turning clockwise, choosing uniformly among the empty neighbors
/// when the current direction is blocked, and backtracking over an explicit
/// stack when no empty neighbor is left. The walk only ever turns empty cells
/// into pathways, so when no empty cell remains the map is fully carved.
pub fn carve_maze(map: &mut TileMap, rng: &mut GenRng)
    requires
        old(map).wf(),
    ensures
        final(map).wf(),
        carve_preserves(*old(map), *final(map)),
        forall|x: int, y: int|
            final(map).in_bounds(x, y) ==> (#[trigger] final(map).spec_tile_at(x, y)) == (
            if old(map).spec_tile_type_at(x, y) == TileType::Empty {
                carved_tile(x, y)
            } else {
                old(map).spec_tile_at(x, y)
            }),
        forall|x: int, y: int|
            final(map).in_bounds(x, y) ==> #[trigger] final(map).spec_tile_type_at(x, y)
                != TileType::Empty,
{
    let mut done = false;
    while !done
        invariant
            map.wf(),
            carve_preserves(*old(map), *map),
            done ==> forall|x: int, y: int|
                map.in_bounds(x, y) ==> #[trigger] map.spec_tile_type_at(x, y) != TileType::Empty,
        decreases count_empty(map.spec_tiles()), (if done {
            0int
        } else {
            1int
        }),
    {
        let ghost count0 = count_empty(map.spec_tiles());
        match map.first_empty() {
            None => {
                done = true;
            },
            Some(seed) => {
                carve_cell(map, seed.x, seed.y);
                let ghost count1 = count_empty(map.spec_tiles());
                proof {
                    assert(count1 < count0);
                }
                let mut stack: Vec<Coords> = Vec::new();
                stack.push(seed);
                let mut dir: i32 = rng.sample_range(0, 4);
                while stack.len() > 0
                    invariant
                        map.wf(),
                        carve_preserves(*old(map), *map),
                        map.spec_width() == old(map).spec_width(),
                        map.spec_height() == old(map).spec_height(),
                        count_empty(map.spec_tiles()) <= count1,
                        0 <= dir < 4,
                        forall|j: int|
                            0 <= j < stack@.len() ==> map.in_bounds(
                                (#[trigger] stack@[j]).x as int,
                                stack@[j].y as int,
                            ),
                    decreases count_empty(map.spec_tiles()), stack@.len(),
                {
                    let cur = stack[stack.len() - 1];
                    proof {
                        map.lemma_wf_bounds();
                    }
                    // which of the four directions lead to a still-empty cell
                    let mut cands: Vec<i32> = Vec::new();
                    let mut d: i32 = 0;
                    while d < 4
                        invariant
                            map.wf(),
                            map.in_bounds(cur.x as int, cur.y as int),
                            0 <= d <= 4,
                            cands@.len() <= d,
                            forall|k: int|
                                0 <= k < cands@.len() ==> 0 <= #[trigger] cands@[k] < 4
                                    && map.in_bounds(
                                    spec_step(cur, cands@[k] as int).0,
                                    spec_step(cur, cands@[k] as int).1,
                                ) && map.spec_tile_type_at(
                                    spec_step(cur, cands@[k] as int).0,
                                    spec_step(cur, cands@[k] as int).1,
                                ) == TileType::Empty,
                        decreases 4 - d,
                    {
                        proof {
                            map.lemma_wf_bounds();
                        }
                        let nx: i32 = if d == 1 {
                            cur.x + 1
                        } else if d == 3 {
                            cur.x - 1
                        } else {
                            cur.x
                        };
                        let ny: i32 = if d == 0 {
                            cur.y - 1
                        } else if d == 2 {
                            cur.y + 1
                        } else {
                            cur.y
                        };
                        match map.tile_at(Coords { x: nx, y: ny }) {
                            Some(t) => {
                                if t.tile_type.is_empty() {
                                    cands.push(d);
                                }
                            },
                            None => {},
                        }
                        d = d + 1;
                    }
                    if cands.len() == 0 {
                        let _ = stack.pop();
                    } else {
                        if dirs_contain(&cands, dir) {
                            // straight ahead is open: keep going, with a
                            // one-in-four chance of a clockwise turn
                            let roll = rng.sample_range(0, 4);
                            if roll == 0 {
                                let turned: i32 = if dir == 3 {
                                    0
                                } else {
                                    dir + 1
                                };
                                if dirs_contain(&cands, turned) {
                                    dir = turned;
                                }
                            }
                        } else {
                            // otherwise pick uniformly among the open ones
                            let pick = rng.sample_range(0, cands.len() as i32);
                            dir = cands[pick as usize];
                        }
                        assert(cands@.contains(dir));
                        proof {
                            let k = choose|k: int| 0 <= k < cands@.len() && cands@[k] == dir;
                        }
                        let nx: i32 = if dir == 1 {
                            cur.x + 1
                        } else if dir == 3 {
                            cur.x - 1
                        } else {
                            cur.x
                        };
                        let ny: i32 = if dir == 0 {
                            cur.y - 1
                        } else if dir == 2 {
                            cur.y + 1
                        } else {
                            cur.y
                        };
                        carve_cell(map, nx, ny);
                        stack.push(Coords { x: nx, y: ny });
                    }
                }
            },
        }
    }
    proof {
        assert forall|x: int, y: int| map.in_bounds(x, y) implies (#[trigger] map.spec_tile_at(
            x,
            y,
        )) == (if old(map).spec_tile_type_at(x, y) == TileType::Empty {
            carved_tile(x, y)
        } else {
            old(map).spec_tile_at(x, y)
        }) by {
            assert(map.spec_tile_type_at(x, y) != TileType::Empty);
            assert(map.spec_tile_at(x, y) == old(map).spec_tile_at(x, y) || (old(
                map,
            ).spec_tile_type_at(x, y) == TileType::Empty && map.spec_tile_at(x, y) == carved_tile(
                x,
                y,
            )));
        }
    }
}

/// Carves one currently-empty cell into a pathway; the count of empty tiles
/// strictly shrinks and the frame invariant is kept.
fn carve_cell(map: &mut TileMap, x: i32, y: i32)
    requires
        old(map).wf(),
        old(map).in_bounds(x as int, y as int),
        old(map).spec_tile_type_at(x as int, y as int) == TileType::Empty,
    ensures
        final(map).wf(),
        final(map).spec_width() == old(map).spec_width(),
        final(map).spec_height() == old(map).spec_height(),
        final(map).spec_tile_at(x as int, y as int) == carved_tile(x as int, y as int),
        forall|x2: int, y2: int|
            final(map).in_bounds(x2, y2) && (x2 != x as int || y2 != y as int)
                ==> #[trigger] final(map).spec_tile_at(x2, y2) == old(map).spec_tile_at(x2, y2),
        count_empty(final(map).spec_tiles()) < count_empty(old(map).spec_tiles()),
{
    proof {
        map.lemma_tile_at_index(x as int, y as int);
    }
    map.set_tile(x, y, TileType::Pathway, Some(Rgb { r: 20, g: 20, b: 20 }));
    proof {
        lemma_count_empty_update(
            old(map).spec_tiles(),
            y * (old(map).spec_width() + 1) + x,
            Tile {
                pos: Coords { x, y },
                tile_type: TileType::Pathway,
                color: Some(Rgb { r: 20, g: 20, b: 20 }),
            },
        );
    }
}

} // verus!
