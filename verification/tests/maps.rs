use dungeon_gen::{
    carve_maze, generate_map, nystrom_gen, ortho_star, simple_gen, Coords, GenRng, MapGenError,
    MapGenOptions, Nystrom, Rgb, Simple, TileMap, TileType,
};

fn options() -> MapGenOptions {
    MapGenOptions {
        map_width: 52,
        map_height: 42,
        room_width: 4..8,
        room_height: 4..8,
        outside_buffer: 2,
        room_buffer: 2,
    }
}

#[test]
fn fresh_map_is_empty_and_bounds_checked() {
    let m = TileMap::new(10, 8);
    assert_eq!(m.width(), 10);
    assert_eq!(m.height(), 8);
    assert_eq!(m.tiles().len(), 11 * 9);
    let t = m.tile_at(Coords::new(3, 4)).expect("in bounds");
    assert_eq!(t.tile_type, TileType::Empty);
    assert_eq!(t.pos.x, 3);
    assert_eq!(t.pos.y, 4);
    assert_eq!(t.color, None);
    // inclusive bounds: (10, 8) is the last cell
    assert!(m.tile_at(Coords::new(10, 8)).is_some());
    assert!(m.tile_at(Coords::new(11, 0)).is_none());
    assert!(m.tile_at(Coords::new(0, 9)).is_none());
    assert!(m.tile_at(Coords::new(-1, 0)).is_none());
    assert!(m.tile_at(Coords::new(0, -1)).is_none());
}

#[test]
fn smallest_map_is_one_cell() {
    let m = TileMap::new(0, 0);
    assert_eq!(m.tiles().len(), 1);
    assert!(m.tile_at(Coords::new(0, 0)).is_some());
    assert!(m.tile_at(Coords::new(1, 0)).is_none());
    assert!(m.tile_at(Coords::new(0, 1)).is_none());
}

#[test]
fn set_tile_overwrites_one_cell() {
    let mut m = TileMap::new(6, 6);
    m.set_tile(2, 3, TileType::Door, None);
    let t = m.tile_at(Coords::new(2, 3)).unwrap();
    assert_eq!(t.tile_type, TileType::Door);
    assert_eq!(t.pos.x, 2);
    assert_eq!(t.pos.y, 3);
    let other = m.tile_at(Coords::new(3, 2)).unwrap();
    assert_eq!(other.tile_type, TileType::Empty);
}

#[test]
fn first_empty_scans_x_major() {
    let mut m = TileMap::new(3, 3);
    // fill column x == 0 and the top of column x == 1
    for y in 0..=3 {
        m.set_tile(0, y, TileType::Wall, None);
    }
    m.set_tile(1, 0, TileType::Wall, None);
    let c = m.first_empty().expect("empties remain");
    assert_eq!((c.x, c.y), (1, 1));
}

#[test]
fn carve_maze_leaves_no_empty_tile() {
    let mut m = TileMap::new(20, 15);
    let mut rng = GenRng::from_seed(9);
    carve_maze(&mut m, &mut rng);
    for t in m.tiles() {
        assert_eq!(t.tile_type, TileType::Pathway);
        assert_eq!(t.color, Some(Rgb { r: 20, g: 20, b: 20 }));
    }
}

#[test]
fn nystrom_map_has_no_empty_tile() {
    for seed in 0..3u64 {
        let mut rng = GenRng::from_seed(seed);
        let (m, rooms) = nystrom_gen(&options(), &mut rng);
        assert_eq!(m.width(), 52);
        assert_eq!(m.height(), 42);
        assert!(!rooms.is_empty());
        for t in m.tiles() {
            assert_ne!(t.tile_type, TileType::Empty);
        }
        // the carve leaves every room as rasterized: walls all around,
        // floors inside
        for r in &rooms {
            for x in r.left()..=r.right() {
                for y in r.top()..=r.bottom() {
                    let t = m.tile_at(Coords::new(x, y)).unwrap();
                    let on_border = x == r.left() || x == r.right() || y == r.top()
                        || y == r.bottom();
                    assert_eq!(on_border, t.tile_type == TileType::Wall);
                    assert!(t.tile_type.is_room_tile());
                }
            }
        }
    }
}

#[test]
fn simple_map_doors_and_corridors() {
    // the end-to-end shape of the room-and-corridor generator: every door
    // tile sits in a room wall next to exactly one floor cell, and every
    // consecutive door pair that admits a route is joined by pathway tiles
    let mut rng = GenRng::from_seed(11);
    let generated = simple_gen(&options(), &mut rng);
    let (m, rooms, doors) = (generated.map, generated.rooms, generated.doors);
    let corridors = generated.corridors;
    assert_eq!(m.width(), 52);
    assert_eq!(m.height(), 42);
    assert!(doors.len() > 1);
    assert_eq!(doors.len(), rooms.len());

    // the fixed-iteration policy samples 101 candidates, so at most 101 rooms
    assert!(rooms.len() <= 101);

    // each door sits at one of the four edge midpoints of its own room
    for (d, r) in doors.iter().zip(rooms.iter()) {
        let cx = r.x + r.width / 2;
        let cy = r.y + r.height / 2;
        let midpoint = (d.x == cx && d.y == r.top()) || (d.x == cx && d.y == r.bottom())
            || (d.x == r.left() && d.y == cy) || (d.x == r.right() && d.y == cy);
        assert!(midpoint);
        assert!(r.contains((d.x, d.y)));
    }

    // the returned coordinates hold door tiles, and they are the only ones
    let mut door_cells = 0;
    for t in m.tiles() {
        if t.tile_type == TileType::Door {
            door_cells += 1;
            assert!(doors.iter().any(|d| d.x == t.pos.x && d.y == t.pos.y));
        }
    }
    assert_eq!(door_cells, doors.len());

    let floor = |x: i32, y: i32| {
        m.tile_at(Coords::new(x, y))
            .map(|t| t.tile_type.is_room_tile() && t.tile_type != TileType::Wall)
            .unwrap_or(false)
    };
    for d in &doors {
        let neighbors = [(d.x + 1, d.y), (d.x - 1, d.y), (d.x, d.y + 1), (d.x, d.y - 1)];
        let floor_neighbors = neighbors.iter().filter(|(x, y)| floor(*x, *y)).count();
        assert_eq!(floor_neighbors, 1);
    }

    // each returned corridor is an unbroken chain of pathway/door tiles
    // between its two doors
    assert_eq!(corridors.len(), doors.len() - 1);
    for (k, corridor) in corridors.iter().enumerate() {
        if let Some(path) = corridor {
            let d1 = doors[k];
            let d2 = doors[k + 1];
            assert_eq!(path[0], (d2.x, d2.y));
            assert_eq!(path[path.len() - 1], (d1.x, d1.y));
            for w in path.windows(2) {
                assert_eq!((w[0].0 - w[1].0).abs() + (w[0].1 - w[1].1).abs(), 1);
            }
            for (x, y) in path {
                let t = m.tile_at(Coords::new(*x, *y)).unwrap();
                assert!(t.tile_type == TileType::Pathway || t.tile_type == TileType::Door);
            }
        }
    }

    // generation writes only rooms, doors and corridors: every pathway tile
    // lies on a returned corridor, and cells off rooms and corridors are empty
    for t in m.tiles() {
        let on_corridor = corridors.iter().any(|c| {
            c.as_ref().map(|p| p.contains(&(t.pos.x, t.pos.y))).unwrap_or(false)
        });
        let in_room = rooms.iter().any(|r| r.contains((t.pos.x, t.pos.y)));
        if t.tile_type == TileType::Pathway {
            assert!(on_corridor);
        }
        if !in_room && !on_corridor {
            assert_eq!(t.tile_type, TileType::Empty);
        }
    }

    // walkability (non-room space) is unchanged by pathway writes, and the
    // search is deterministic, so re-running it reproduces each corridor
    for pair in doors.windows(2) {
        let (d1, d2) = (pair[0], pair[1]);
        let walk = |x: i32, y: i32| {
            m.tile_at(Coords::new(x, y)).map(|t| !t.tile_type.is_room_tile()).unwrap_or(false)
        };
        if let Some(path) = ortho_star((d1.x, d1.y), (d2.x, d2.y), walk, |_a, _b| 1) {
            for (x, y) in path {
                let t = m.tile_at(Coords::new(x, y)).expect("path stays on the map");
                assert!(
                    t.tile_type == TileType::Pathway || t.tile_type == TileType::Door,
                    "cell ({}, {}) on a found route is {:?}",
                    x,
                    y,
                    t.tile_type
                );
            }
        }
    }
}

#[test]
fn same_seed_reproduces_the_map() {
    let mut rng1 = GenRng::from_seed(5);
    let mut rng2 = GenRng::from_seed(5);
    let g1 = simple_gen(&options(), &mut rng1);
    let g2 = simple_gen(&options(), &mut rng2);
    let (m1, doors1) = (g1.map, g1.doors);
    let (m2, doors2) = (g2.map, g2.doors);
    assert_eq!(doors1.len(), doors2.len());
    for (a, b) in doors1.iter().zip(doors2.iter()) {
        assert_eq!((a.x, a.y), (b.x, b.y));
    }
    for (a, b) in m1.tiles().iter().zip(m2.tiles().iter()) {
        assert_eq!(a.tile_type, b.tile_type);
        assert_eq!((a.pos.x, a.pos.y), (b.pos.x, b.pos.y));
        assert_eq!(a.color, b.color);
    }
}

#[test]
fn options_clone_is_exact() {
    let o = options();
    let c = o.clone();
    assert_eq!(c.map_width, 52);
    assert_eq!(c.map_height, 42);
    assert_eq!(c.room_width, 4..8);
    assert_eq!(c.room_height, 4..8);
    assert_eq!(c.outside_buffer, 2);
    assert_eq!(c.room_buffer, 2);
}

#[test]
fn generate_map_validates_options() {
    let mut rng = GenRng::from_seed(2);
    let ok = generate_map::<Simple>(&options(), &mut rng);
    assert!(ok.is_ok());
    let ok2 = generate_map::<Nystrom>(&options(), &mut rng);
    assert!(ok2.is_ok());
    assert_eq!(ok2.unwrap().width(), 52);

    // an empty room range is refused
    let bad = MapGenOptions { room_width: 8..8, ..options() };
    assert!(matches!(
        generate_map::<Simple>(&bad, &mut rng),
        Err(MapGenError::InvalidConfiguration)
    ));
    // a map too small for the buffers and maximal room size is refused
    let small = MapGenOptions { map_width: 12, ..options() };
    assert!(matches!(
        generate_map::<Nystrom>(&small, &mut rng),
        Err(MapGenError::InvalidConfiguration)
    ));
}
