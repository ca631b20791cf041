//! Run length encoding of room terrain that leaves the edges of the room out
//! of the runs.
//!
//! The tiles on the edges of a room are kept in a [RoomEdgeTerrain], and only
//! the tiles inside are encoded as runs. A run is then not cut short by the
//! edge tiles that lie between two rows: to the runs, an edge tile is a
//! wildcard that goes with whatever run is in effect.

use vstd::prelude::*;
use vstd::layout::layout_for_type_is_valid;
use vstd::layout::size_of;
use crate::compressed_terrain::compressed_room_edge_terrain::edge_chunk;
use crate::compressed_terrain::compressed_room_edge_terrain::edge_lookup;
use crate::compressed_terrain::compressed_room_edge_terrain::holds_edge;
use crate::compressed_terrain::compressed_room_edge_terrain::stored_wall;
use crate::compressed_terrain::compressed_room_edge_terrain::RoomEdgeTerrain;
use crate::compressed_terrain::compressed_terrain::tiles_of_bytes;
use crate::compressed_terrain::compressed_terrain::tiles_of_tags;
use crate::compressed_terrain::compressed_terrain::CompressedRoomTerrain;
use crate::room_xy::linear_index;
use crate::room_xy::on_room_corner;
use crate::room_xy::on_room_edge;
use crate::room_xy::terrain_index_to_xy;
use crate::room_xy::xy_to_terrain_index;
use crate::room_xy::RoomXY;
use crate::room_xy::ROOM_AREA;
use crate::run_length_encoding::rle_terrain::packed_rle_terrain::lemma_packed_run_of_pack_run;
use crate::run_length_encoding::rle_terrain::packed_rle_terrain::BinarySearchPackedRoomTerrainRLE;
use crate::run_length_encoding::rle_terrain::packed_rle_terrain::RoomTerrainPackedIndexedRLE;
use crate::run_length_encoding::runs::encode_kept;
use crate::run_length_encoding::runs::lemma_encode_kept_accepts;
use crate::run_length_encoding::runs::lemma_encode_kept_token_at;
use crate::run_length_encoding::runs::token_at;
use crate::run_length_encoding::runs::well_formed;
use crate::run_length_encoding::runs::Run;
use crate::terrain::edge_terrain;
use crate::terrain::Terrain;

verus! {

/// The choice of the linear indices that do not lie on an edge of the room.
pub open spec fn interior() -> spec_fn(int) -> bool {
    |index: int| !on_room_edge(index % 50, index / 50)
}

/// The linear index of the tile at `position` along an edge: edge 0 is the
/// top and 2 the bottom, both from left to right; 1 is the right and 3 the
/// left, both from top to bottom.
pub open spec fn edge_index(edge: int, position: int) -> int {
    if edge == 0 {
        linear_index(position, 0)
    } else if edge == 1 {
        linear_index(49, position)
    } else if edge == 2 {
        linear_index(position, 49)
    } else {
        linear_index(0, position)
    }
}

/// The 50 tiles of one edge of a room, with walls in the two corners.
pub open spec fn edge_of(tiles: Seq<Terrain>, edge: int) -> Seq<Terrain> {
    Seq::new(
        50,
        |position: int|
            if position == 0 || position == 49 {
                Terrain::Wall
            } else {
                tiles[edge_index(edge, position)]
            },
    )
}

/// What this encoding keeps of the tile in column `x` of row `y`: a wall in
/// the corners of the room, a wall or a plain on its edges, and the tile as it
/// is elsewhere.
pub open spec fn wildcard_tile(tiles: Seq<Terrain>, x: int, y: int) -> Terrain {
    if on_room_corner(x, y) {
        Terrain::Wall
    } else if on_room_edge(x, y) {
        edge_terrain(tiles[linear_index(x, y)])
    } else {
        tiles[linear_index(x, y)]
    }
}

/// What runs and the bytes of the edges give for column `x` of row `y`: what
/// the bytes hold for a tile on an edge of the room, and what the runs give to
/// a tile inside.
pub open spec fn wildcard_lookup(runs: Seq<Run<Terrain>>, edges: Seq<u8>, x: int, y: int) -> Option<
    Terrain,
> {
    if on_room_edge(x, y) {
        edge_lookup(edges, x, y)
    } else {
        token_at(runs, linear_index(x, y) as nat)
    }
}

/// The bytes of the edges hold, for each tile on an edge, what this encoding
/// keeps of it.
pub proof fn lemma_edge_lookup_of_held_edges(bytes: Seq<u8>, tiles: Seq<Terrain>, x: int, y: int)
    requires
        bytes.len() == 24,
        forall|edge: int|
            0 <= edge < 4 ==> holds_edge(#[trigger] edge_chunk(bytes, edge), edge_of(tiles, edge)),
        0 <= x < 50,
        0 <= y < 50,
        on_room_edge(x, y),
    ensures
        edge_lookup(bytes, x, y) == Some(wildcard_tile(tiles, x, y)),
{
    if !on_room_corner(x, y) {
        if y == 0 {
            assert(holds_edge(edge_chunk(bytes, 0), edge_of(tiles, 0)));
            assert(stored_wall(edge_chunk(bytes, 0), x) == (edge_of(tiles, 0)[x] is Wall));
        } else if y == 49 {
            assert(holds_edge(edge_chunk(bytes, 2), edge_of(tiles, 2)));
            assert(stored_wall(edge_chunk(bytes, 2), x) == (edge_of(tiles, 2)[x] is Wall));
        } else if x == 0 {
            assert(holds_edge(edge_chunk(bytes, 3), edge_of(tiles, 3)));
            assert(stored_wall(edge_chunk(bytes, 3), y) == (edge_of(tiles, 3)[y] is Wall));
        } else {
            assert(holds_edge(edge_chunk(bytes, 1), edge_of(tiles, 1)));
            assert(stored_wall(edge_chunk(bytes, 1), y) == (edge_of(tiles, 1)[y] is Wall));
        }
    }
}

/// User-friendly interface for getting terrain data.
///
/// Uses [BinarySearchPackedRoomTerrainRLE] internally to store the tiles
/// inside the room, and [RoomEdgeTerrain] to store the tiles on its edges.
pub struct WildcardRLERoomTerrain {
    data: BinarySearchPackedRoomTerrainRLE,
    edge_data: RoomEdgeTerrain,
}

impl WildcardRLERoomTerrain {
    #[verifier::type_invariant]
    spec fn covers_interior(self) -> bool {
        &&& well_formed(self.data@)
        &&& forall|index: nat|
            index < 2500 && interior()(index as int) ==> (#[trigger] token_at(self.data@, index))
                is Some
    }

    /// The runs that encode the tiles inside the room.
    pub closed spec fn runs(&self) -> Seq<Run<Terrain>> {
        self.data@
    }

    /// The 24 bytes that hold the edges of the room.
    pub closed spec fn edges(&self) -> Seq<u8> {
        self.edge_data@
    }

    /// Encodes the tiles of a room, one after the other in row-major order.
    fn encode_tiles(tiles: &[Terrain; 2500]) -> (made: Self)
        ensures
            made.runs() == encode_kept(tiles@, interior(), 2500),
            made.edges().len() == 24,
            forall|edge: int|
                0 <= edge < 4 ==> holds_edge(
                    #[trigger] edge_chunk(made.edges(), edge),
                    edge_of(tiles@, edge),
                ),
            forall|index: nat|
                index < 2500 && interior()(index as int) ==> #[trigger] token_at(
                    made.runs(),
                    index,
                ) == Some(tiles@[index as int]),
            forall|x: int, y: int|
                0 <= x < 50 && 0 <= y < 50 && on_room_edge(x, y) ==> #[trigger] edge_lookup(
                    made.edges(),
                    x,
                    y,
                ) == Some(wildcard_tile(tiles@, x, y)),
    {
        let mut data = BinarySearchPackedRoomTerrainRLE::new();
        let mut top_edge_terrain: Vec<Terrain> = Vec::new();
        let mut right_edge_terrain: Vec<Terrain> = Vec::new();
        let mut bottom_edge_terrain: Vec<Terrain> = Vec::new();
        let mut left_edge_terrain: Vec<Terrain> = Vec::new();

        let mut idx: usize = 0;
        while idx < ROOM_AREA
            invariant
                idx <= 2500,
                well_formed(data@),
                data@ == encode_kept(tiles@, interior(), idx as nat),
                top_edge_terrain@.len() == (if idx < 50 {
                    idx as int
                } else {
                    50
                }),
                right_edge_terrain@.len() == idx / 50,
                bottom_edge_terrain@.len() == (if idx < 2450 {
                    0
                } else {
                    idx - 2450
                }),
                left_edge_terrain@.len() == (idx + 49) / 50,
                forall|p: int|
                    0 <= p < top_edge_terrain@.len() ==> top_edge_terrain@[p] == edge_of(
                        tiles@,
                        0,
                    )[p],
                forall|p: int|
                    0 <= p < right_edge_terrain@.len() ==> right_edge_terrain@[p] == edge_of(
                        tiles@,
                        1,
                    )[p],
                forall|p: int|
                    0 <= p < bottom_edge_terrain@.len() ==> bottom_edge_terrain@[p] == edge_of(
                        tiles@,
                        2,
                    )[p],
                forall|p: int|
                    0 <= p < left_edge_terrain@.len() ==> left_edge_terrain@[p] == edge_of(
                        tiles@,
                        3,
                    )[p],
            decreases 2500 - idx,
        {
            let xy = terrain_index_to_xy(idx);
            let tile = tiles[idx];

            if xy.is_room_edge() {
                let x = xy.x();
                let y = xy.y();
                if x == 0 && y == 0 {
                    // Top-left corner
                    top_edge_terrain.push(Terrain::Wall);
                    left_edge_terrain.push(Terrain::Wall);
                } else if x == 0 && y == 49 {
                    // Bottom-left corner
                    bottom_edge_terrain.push(Terrain::Wall);
                    left_edge_terrain.push(Terrain::Wall);
                } else if x == 49 && y == 0 {
                    // Top-right corner
                    top_edge_terrain.push(Terrain::Wall);
                    right_edge_terrain.push(Terrain::Wall);
                } else if x == 49 && y == 49 {
                    // Bottom-right corner
                    bottom_edge_terrain.push(Terrain::Wall);
                    right_edge_terrain.push(Terrain::Wall);
                } else if y == 0 {
                    // Top edge
                    top_edge_terrain.push(tile);
                } else if y == 49 {
                    // Bottom edge
                    bottom_edge_terrain.push(tile);
                } else if x == 0 {
                    // Left edge
                    left_edge_terrain.push(tile);
                } else {
                    // Right edge
                    right_edge_terrain.push(tile);
                }
            } else {
                // Leaving the edge tiles out of the runs makes wildcards of
                // them, which go with the run before them.
                proof {
                    lemma_packed_run_of_pack_run(tile, idx as u16);
                    lemma_encode_kept_accepts(
                        tiles@,
                        interior(),
                        idx as nat,
                        Run { token: tile, start: idx as nat },
                    );
                }
                data.append_token(tile, idx as u16);
            }
            idx += 1;
        }

        assert(top_edge_terrain@ =~= edge_of(tiles@, 0));
        assert(right_edge_terrain@ =~= edge_of(tiles@, 1));
        assert(bottom_edge_terrain@ =~= edge_of(tiles@, 2));
        assert(left_edge_terrain@ =~= edge_of(tiles@, 3));

        let edge_data = match RoomEdgeTerrain::new_from_terrain_slices(
            top_edge_terrain.as_slice(),
            right_edge_terrain.as_slice(),
            bottom_edge_terrain.as_slice(),
            left_edge_terrain.as_slice(),
        ) {
            Ok(edges) => edges,
            Err(_) => RoomEdgeTerrain::new_from_raw_bytes([0u8;24]),
        };

        proof {
            assert forall|index: nat| index < 2500 && interior()(index as int) implies #[trigger] token_at(
                data@,
                index,
            ) == Some(tiles@[index as int]) by {
                lemma_encode_kept_token_at(tiles@, interior(), 2500, index);
            }
            assert forall|x: int, y: int|
                0 <= x < 50 && 0 <= y < 50 && on_room_edge(x, y) implies #[trigger] edge_lookup(
                edge_data@,
                x,
                y,
            ) == Some(wildcard_tile(tiles@, x, y)) by {
                lemma_edge_lookup_of_held_edges(edge_data@, tiles@, x, y);
            }
        }
        Self { data, edge_data }
    }

    /// Converts the 2500 tags of a room, given in row-major order, into a
    /// RLE-compressed format with wildcards.
    pub fn new_from_uncompressed_terrain(terrain: &[u8; 2500]) -> (made: Self)
        ensures
            made.runs() == encode_kept(tiles_of_tags(terrain@), interior(), 2500),
            made.edges().len() == 24,
            forall|edge: int|
                0 <= edge < 4 ==> holds_edge(
                    #[trigger] edge_chunk(made.edges(), edge),
                    edge_of(tiles_of_tags(terrain@), edge),
                ),
            forall|index: nat|
                index < 2500 && interior()(index as int) ==> #[trigger] token_at(
                    made.runs(),
                    index,
                ) == Some(tiles_of_tags(terrain@)[index as int]),
            forall|x: int, y: int|
                0 <= x < 50 && 0 <= y < 50 && on_room_edge(x, y) ==> #[trigger] edge_lookup(
                    made.edges(),
                    x,
                    y,
                ) == Some(wildcard_tile(tiles_of_tags(terrain@), x, y)),
    {
        let mut tiles = [Terrain::Plain;2500];
        let mut idx: usize = 0;
        while idx < ROOM_AREA
            invariant
                idx <= 2500,
                forall|k: int| 0 <= k < idx ==> tiles@[k] == tiles_of_tags(terrain@)[k],
            decreases 2500 - idx,
        {
            let xy = terrain_index_to_xy(idx);
            tiles[idx] = Terrain::from_tag(terrain[xy_to_terrain_index(xy)]);
            idx += 1;
        }
        assert(tiles@ =~= tiles_of_tags(terrain@));
        Self::encode_tiles(&tiles)
    }

    /// Converts bit-packed compressed terrain into a RLE-compressed format
    /// with wildcards.
    pub fn new_from_compressed_terrain(terrain: &CompressedRoomTerrain) -> (made: Self)
        ensures
            made.runs() == encode_kept(tiles_of_bytes(terrain@), interior(), 2500),
            made.edges().len() == 24,
            forall|edge: int|
                0 <= edge < 4 ==> holds_edge(
                    #[trigger] edge_chunk(made.edges(), edge),
                    edge_of(tiles_of_bytes(terrain@), edge),
                ),
            forall|index: nat|
                index < 2500 && interior()(index as int) ==> #[trigger] token_at(
                    made.runs(),
                    index,
                ) == Some(tiles_of_bytes(terrain@)[index as int]),
            forall|x: int, y: int|
                0 <= x < 50 && 0 <= y < 50 && on_room_edge(x, y) ==> #[trigger] edge_lookup(
                    made.edges(),
                    x,
                    y,
                ) == Some(wildcard_tile(tiles_of_bytes(terrain@), x, y)),
    {
        let mut tiles = [Terrain::Plain;2500];
        let mut idx: usize = 0;
        while idx < ROOM_AREA
            invariant
                idx <= 2500,
                forall|k: int| 0 <= k < idx ==> tiles@[k] == tiles_of_bytes(terrain@)[k],
            decreases 2500 - idx,
        {
            let xy = terrain_index_to_xy(idx);
            tiles[idx] = terrain.get_xy(xy);
            idx += 1;
        }
        assert(tiles@ =~= tiles_of_bytes(terrain@));
        Self::encode_tiles(&tiles)
    }

    /// Gets the terrain value for the specified tile: what the edges hold for
    /// a tile on an edge of the room, and what the runs give to a tile inside.
    pub fn get_xy(&self, xy: RoomXY) -> (terrain: Terrain)
        ensures
            wildcard_lookup(self.runs(), self.edges(), xy.col(), xy.row()) == Some(terrain),
    {
        proof {
            use_type_invariant(self);
        }
        if xy.is_room_edge() {
            self.edge_data.get_xy(xy).unwrap_or(Terrain::Wall)
        } else {
            let idx = xy_to_terrain_index(xy);
            assert(interior()(idx as int));
            assert(token_at(self.runs(), idx as nat) is Some);
            self.data.find_token_at_index(idx as u16).unwrap()
        }
    }

    /// Returns the number of distinct runs contained.
    pub fn num_runs(&self) -> (count: usize)
        ensures
            count == self.runs().len(),
    {
        self.data.num_runs()
    }

    /// The amount of memory it takes to store this data: two bytes for each
    /// run, the vector that holds them, and the 24 bytes of the edges.
    pub fn memory_size(&self) -> (bytes: usize)
        ensures
            bytes == 2 * self.runs().len() + size_of::<Vec<RoomTerrainPackedIndexedRLE>>() + 24,
    {
        proof {
            use_type_invariant(self);
            self.data.lemma_num_runs_bound();
        }
        layout_for_type_is_valid::<Vec<RoomTerrainPackedIndexedRLE>>();
        self.data.memory_size() + self.edge_data.memory_size()
    }
}

} // verus!
