//! A turn-based tile-world engine: a rectangular grid of terrain tiles, a
//! player that moves across it, short-lived dynamic entities, and a
//! fog-of-war visibility map recomputed each turn by line-of-sight raycasts.
pub mod coord;
pub mod grid;
pub mod tile;
pub mod turn;
pub mod visibility;
pub mod world;

pub use coord::Coord;
pub use grid::Grid;
pub use tile::Image;
pub use tile::Rotation;
pub use tile::TerrainTag;
pub use tile::Tile;
pub use turn::MovementDirection;
pub use visibility::Visibility;
pub use world::DynamicEntity;
pub use world::Player;
pub use world::TileLabel;
pub use world::WorldState;
