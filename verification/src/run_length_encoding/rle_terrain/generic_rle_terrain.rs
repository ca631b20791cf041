//! Run length encoding of room terrain with the runs of `generic_rle`: each
//! run holds the terrain as it is and a 16-bit start.

use vstd::prelude::*;
use vstd::layout::size_of;
use crate::compressed_terrain::compressed_terrain::tiles_of_bytes;
use crate::compressed_terrain::compressed_terrain::tiles_of_tags;
use crate::compressed_terrain::compressed_terrain::CompressedRoomTerrain;
use crate::room_xy::terrain_index_to_xy;
use crate::room_xy::xy_to_terrain_index;
use crate::room_xy::RoomXY;
use crate::room_xy::ROOM_AREA;
use crate::run_length_encoding::generic_rle::BinarySearchRLE;
use crate::run_length_encoding::generic_rle::IndexedRLE;
use crate::run_length_encoding::runs::encode;
use crate::run_length_encoding::runs::encode_kept;
use crate::run_length_encoding::runs::everywhere;
use crate::run_length_encoding::runs::lemma_encode_kept_accepts;
use crate::run_length_encoding::runs::lemma_encode_token_at;
use crate::run_length_encoding::runs::token_at;
use crate::run_length_encoding::runs::well_formed;
use crate::run_length_encoding::runs::Run;
use crate::terrain::lemma_terrain_obeys_concrete_eq;
use crate::terrain::Terrain;

verus! {

/// RLE-encoded room terrain data, using the runs of `generic_rle`.
pub struct RLERoomTerrain {
    data: BinarySearchRLE<Terrain, u16>,
}

impl View for RLERoomTerrain {
    type V = Seq<Run<Terrain>>;

    /// The runs that encode the room.
    closed spec fn view(&self) -> Seq<Run<Terrain>> {
        self.data@
    }
}

impl RLERoomTerrain {
    #[verifier::type_invariant]
    spec fn covers_room(self) -> bool {
        &&& well_formed(self.data@)
        &&& forall|index: nat| index < 2500 ==> (#[trigger] token_at(self.data@, index)) is Some
    }

    /// Encodes the tiles of a room, one after the other in row-major order.
    fn encode_tiles(tiles: &[Terrain; 2500]) -> (made: Self)
        ensures
            made@ == encode(tiles@),
            forall|index: nat|
                index < 2500 ==> #[trigger] token_at(made@, index) == Some(tiles@[index as int]),
    {
        let mut data = BinarySearchRLE::new();
        let mut idx: usize = 0;
        while idx < ROOM_AREA
            invariant
                idx <= 2500,
                well_formed(data@),
                data@ == encode_kept(tiles@, everywhere(), idx as nat),
            decreases 2500 - idx,
        {
            let tile = tiles[idx];
            proof {
                lemma_terrain_obeys_concrete_eq();
                lemma_encode_kept_accepts(
                    tiles@,
                    everywhere(),
                    idx as nat,
                    Run { token: tile, start: idx as nat },
                );
            }
            data.append_token(tile, idx as u16);
            idx += 1;
        }
        proof {
            assert forall|index: nat| index < 2500 implies #[trigger] token_at(data@, index)
                == Some(tiles@[index as int]) by {
                lemma_encode_token_at(tiles@, index);
            }
        }
        Self { data }
    }

    /// Converts the 2500 tags of a room, given in row-major order, into a
    /// compressed RLE-encoded format.
    pub fn new_from_uncompressed_terrain(terrain: &[u8; 2500]) -> (made: Self)
        ensures
            made@ == encode(tiles_of_tags(terrain@)),
            forall|index: nat|
                index < 2500 ==> #[trigger] token_at(made@, index) == Some(
                    tiles_of_tags(terrain@)[index as int],
                ),
    {
        let mut tiles = [Terrain::Plain;2500];
        let mut idx: usize = 0;
        while idx < ROOM_AREA
            invariant
                idx <= 2500,
                forall|k: int| 0 <= k < idx ==> tiles@[k] == tiles_of_tags(terrain@)[k],
            decreases 2500 - idx,
        {
            let xy = terrain_index_to_xy(idx);
            tiles[idx] = Terrain::from_tag(terrain[xy_to_terrain_index(xy)]);
            idx += 1;
        }
        assert(tiles@ =~= tiles_of_tags(terrain@));
        Self::encode_tiles(&tiles)
    }

    /// Converts bit-packed compressed terrain data into a compressed
    /// RLE-encoded format.
    pub fn new_from_compressed_terrain(terrain: &CompressedRoomTerrain) -> (made: Self)
        ensures
            made@ == encode(tiles_of_bytes(terrain@)),
            forall|index: nat|
                index < 2500 ==> #[trigger] token_at(made@, index) == Some(
                    tiles_of_bytes(terrain@)[index as int],
                ),
    {
        let mut tiles = [Terrain::Plain;2500];
        let mut idx: usize = 0;
        while idx < ROOM_AREA
            invariant
                idx <= 2500,
                forall|k: int| 0 <= k < idx ==> tiles@[k] == tiles_of_bytes(terrain@)[k],
            decreases 2500 - idx,
        {
            let xy = terrain_index_to_xy(idx);
            tiles[idx] = terrain.get_xy(xy);
            idx += 1;
        }
        assert(tiles@ =~= tiles_of_bytes(terrain@));
        Self::encode_tiles(&tiles)
    }

    /// Gets the terrain for a given tile.
    pub fn get_xy(&self, xy: RoomXY) -> (terrain: Terrain)
        ensures
            token_at(self@, xy.index() as nat) == Some(terrain),
    {
        proof {
            use_type_invariant(self);
        }
        let idx = xy_to_terrain_index(xy);
        assert(token_at(self@, idx as nat) is Some);
        self.data.find_token_at_index(idx as u16).unwrap()
    }

    /// Returns the number of distinct runs contained.
    pub fn num_runs(&self) -> (count: usize)
        ensures
            count == self@.len(),
    {
        self.data.num_runs()
    }

    /// The amount of memory it takes to store this data: the runs, and the
    /// vector that holds them. The amount has to fit into a `usize`.
    pub fn memory_size(&self) -> (bytes: usize)
        requires
            self@.len() * size_of::<IndexedRLE<Terrain, u16>>() + size_of::<
                Vec<IndexedRLE<Terrain, u16>>,
            >() <= usize::MAX,
        ensures
            bytes == self@.len() * size_of::<IndexedRLE<Terrain, u16>>() + size_of::<
                Vec<IndexedRLE<Terrain, u16>>,
            >(),
    {
        self.data.memory_size()
    }
}

} // verus!
