//! Bit-packed arrays of terrain: the whole room, and its four edges.

pub mod compressed_room_edge_terrain;
pub mod compressed_terrain;
