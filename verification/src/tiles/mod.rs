pub mod domain;

pub use domain::{LevelInfo, Levels, TileClip, TileLocation, TileTree};
