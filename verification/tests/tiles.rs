use dungeon_gen::{GenRng, Rect, Rgb, Tile, TileDecl, TileType};

const ALL: [TileType; 8] = [
    TileType::Empty,
    TileType::BlankRoomFloor,
    TileType::Grass,
    TileType::HeavyScatterRoomFloor,
    TileType::LightScatterRoomFloor,
    TileType::Pathway,
    TileType::Wall,
    TileType::Door,
];

#[test]
fn room_tile_classification() {
    for t in ALL {
        let expected = matches!(
            t,
            TileType::BlankRoomFloor
                | TileType::HeavyScatterRoomFloor
                | TileType::LightScatterRoomFloor
                | TileType::Grass
                | TileType::Wall
        );
        assert_eq!(t.is_room_tile(), expected);
    }
}

#[test]
fn walkable_tile_classification() {
    for t in ALL {
        let expected = matches!(
            t,
            TileType::BlankRoomFloor
                | TileType::HeavyScatterRoomFloor
                | TileType::LightScatterRoomFloor
                | TileType::Grass
                | TileType::Pathway
                | TileType::Door
        );
        assert_eq!(t.is_walkable_tile(), expected);
    }
    assert!(!TileType::Wall.is_walkable_tile());
    assert!(!TileType::Empty.is_walkable_tile());
}

#[test]
fn empty_tile_classification() {
    for t in ALL {
        assert_eq!(t.is_empty(), matches!(t, TileType::Empty));
    }
}

#[test]
fn tile_names() {
    assert_eq!(TileType::Empty.name(), " ");
    assert_eq!(TileType::BlankRoomFloor.name(), " ");
    assert_eq!(TileType::Grass.name(), "grass");
    assert_eq!(TileType::HeavyScatterRoomFloor.name(), "floor_scatter_heavy");
    assert_eq!(TileType::LightScatterRoomFloor.name(), "floor_scatter_light");
    assert_eq!(TileType::Pathway.name(), "path");
    assert_eq!(TileType::Wall.name(), "wall");
    assert_eq!(TileType::Door.name(), "door");
}

#[test]
fn tile_decl_holds_its_fields() {
    let d = TileDecl { name: "wall", x: 17, y: 5 };
    assert_eq!(d.name, "wall");
    assert_eq!(d.x, 17);
    assert_eq!(d.y, 5);
}

#[test]
fn tile_new_builds_the_tile() {
    let t = Tile::new(
        TileType::Grass,
        dungeon_gen::Coords::new(3, 4),
        Some(Rgb { r: 0, g: 127, b: 0 }),
    );
    assert_eq!(t.pos.x, 3);
    assert_eq!(t.pos.y, 4);
    assert_eq!(t.tile_type, TileType::Grass);
    assert_eq!(t.color, Some(Rgb { r: 0, g: 127, b: 0 }));
}

#[test]
fn rasterized_room_has_walls_and_floors() {
    let room = Rect::new(10, 10, 6, 5);
    let mut rng = GenRng::from_seed(42);
    let tiles = Tile::from_room_rect(room, &mut rng);
    assert_eq!(tiles.len() as i32, (6 + 1) * (5 + 1));
    for (i, t) in tiles.iter().enumerate() {
        // x-major listing: offset dx * (height + 1) + dy
        let dx = (i as i32) / 6;
        let dy = (i as i32) % 6;
        assert_eq!(t.pos.x, 10 + dx);
        assert_eq!(t.pos.y, 10 + dy);
        assert!(t.tile_type.is_room_tile());
        let on_border = dx == 0 || dx == 6 || dy == 0 || dy == 5;
        assert_eq!(on_border, t.tile_type == TileType::Wall);
        if t.tile_type == TileType::Grass {
            assert_eq!(t.color, Some(Rgb { r: 0, g: 127, b: 0 }));
        } else {
            assert_eq!(t.color, None);
        }
    }
}

#[test]
fn rasterized_interior_is_weighted_floor() {
    // over many draws every floor variant should appear, and nothing else
    let room = Rect::new(0, 0, 30, 30);
    let mut rng = GenRng::from_seed(1);
    let tiles = Tile::from_room_rect(room, &mut rng);
    let mut seen_grass = false;
    let mut seen_light = false;
    let mut seen_heavy = false;
    let mut seen_blank = false;
    for t in tiles.iter().filter(|t| t.tile_type != TileType::Wall) {
        match t.tile_type {
            TileType::Grass => seen_grass = true,
            TileType::LightScatterRoomFloor => seen_light = true,
            TileType::HeavyScatterRoomFloor => seen_heavy = true,
            TileType::BlankRoomFloor => seen_blank = true,
            other => panic!("unexpected interior tile {:?}", other),
        }
    }
    assert!(seen_grass && seen_light && seen_heavy && seen_blank);
}
