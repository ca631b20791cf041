//! Run length encodings of the terrain of a room.

pub mod generic_rle_terrain;
pub mod packed_rle_terrain;
pub mod wildcard_rle_terrain;

pub use generic_rle_terrain::RLERoomTerrain;
pub use packed_rle_terrain::BinarySearchPackedRoomTerrainRLE;
pub use packed_rle_terrain::PackedRLERoomTerrain;
pub use packed_rle_terrain::RoomTerrainPackedIndexedRLE;
pub use wildcard_rle_terrain::WildcardRLERoomTerrain;
