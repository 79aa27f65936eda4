//! Procedural dungeon-map generation: axis-aligned room placement with
//! rejection sampling, A* grid pathfinding, and randomized maze carving,
//! producing a typed tile grid.

pub mod entities;
pub mod generation;
pub mod geometry;
pub mod map;
pub mod maze;
pub mod pathfinding;
pub mod rng;
pub mod rooms;
pub mod tile;

pub use entities::{Creature, Goblin, HealingPotion, Item, Player};
pub use generation::{generate_map, nystrom_gen, simple_gen, MapGen, MapGenError, MapGenOptions,
    Nystrom, Simple, SimpleMap};
pub use geometry::{clamp, Coords, Rect};
pub use map::TileMap;
pub use maze::carve_maze;
pub use pathfinding::ortho_star;
pub use rng::GenRng;
pub use rooms::{gen_rooms, place_rooms, StopPolicy};
pub use tile::{Rgb, Tile, TileDecl, TileType};
