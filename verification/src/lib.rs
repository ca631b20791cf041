//! Compact, randomly queryable encodings of the terrain of 50x50 tile rooms.
//!
//! A room is a grid of 2500 tiles in row-major order, each of one of three
//! terrain classes. The modules below hold a bit-packed array of the whole
//! grid, a bit-packed array of the four room edges, and three encodings built
//! on ordered sequences of runs.

pub mod agreement;
pub mod compressed_terrain;
pub mod room_connectivity;
pub mod room_name;
pub mod room_xy;
pub mod run_length_encoding;
pub mod size_comparison;
pub mod terrain;
