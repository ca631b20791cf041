//! What the encodings of one room have in common.
//!
//! The bit-packed array holds every tile of the room it was made of. The
//! sequences of runs give every tile back as the array holds it. The encoding
//! with wildcards does so for the tiles inside the room; on the edges it
//! keeps walls and turns everything else into plains, and it has walls in the
//! four corners whatever the room holds there.

use vstd::prelude::*;
use vstd::layout::size_of;
use crate::compressed_terrain::compressed_room_edge_terrain::edge_chunk;
use crate::compressed_terrain::compressed_room_edge_terrain::holds_edge;
use crate::compressed_terrain::compressed_terrain::compress;
use crate::compressed_terrain::compressed_terrain::lemma_tiles_of_compressed;
use crate::compressed_terrain::compressed_terrain::terrain_at;
use crate::compressed_terrain::compressed_terrain::tiles_of_bytes;
use crate::compressed_terrain::compressed_terrain::tiles_of_tags;
use crate::room_xy::linear_index;
use crate::room_xy::on_room_corner;
use crate::room_xy::on_room_edge;
use crate::run_length_encoding::generic_rle::IndexedRLE;
use crate::run_length_encoding::rle_terrain::packed_rle_terrain::RoomTerrainPackedIndexedRLE;
use crate::run_length_encoding::rle_terrain::wildcard_rle_terrain::edge_of;
use crate::run_length_encoding::rle_terrain::wildcard_rle_terrain::interior;
use crate::run_length_encoding::rle_terrain::wildcard_rle_terrain::lemma_edge_lookup_of_held_edges;
use crate::run_length_encoding::rle_terrain::wildcard_rle_terrain::wildcard_lookup;
use crate::run_length_encoding::rle_terrain::wildcard_rle_terrain::wildcard_tile;
use crate::run_length_encoding::runs::encode;
use crate::run_length_encoding::runs::encode_kept;
use crate::run_length_encoding::runs::lemma_encode_kept_token_at;
use crate::run_length_encoding::runs::lemma_encode_token_at;
use crate::run_length_encoding::runs::token_at;
use crate::terrain::terrain_of_tag;
use crate::terrain::Terrain;

verus! {

/// For every room and every position in it, the bit-packed array and the sequence of runs, whether it is made of the tags
/// of the room or of the bit-packed array, give the terrain that the tag of
/// the tile stands for. So does the encoding with wildcards for a tile that is
/// not on an edge of the room. For a tile on an edge it gives a wall in the
/// four corners, and elsewhere a wall where the tile is a wall and a plain
/// where it is a plain or a swamp.
pub proof fn lemma_codecs_agree(tags: Seq<u8>, edges: Seq<u8>, x: int, y: int)
    requires
        tags.len() == 2500,
        0 <= x < 50,
        0 <= y < 50,
        edges.len() == 24,
        forall|edge: int|
            0 <= edge < 4 ==> holds_edge(
                #[trigger] edge_chunk(edges, edge),
                edge_of(tiles_of_tags(tags), edge),
            ),
    ensures
        terrain_at(compress(tags), linear_index(x, y)) == terrain_of_tag(tags[linear_index(x, y)]),
        token_at(encode(tiles_of_tags(tags)), linear_index(x, y) as nat) == Some(
            terrain_of_tag(tags[linear_index(x, y)]),
        ),
        token_at(encode(tiles_of_bytes(compress(tags))), linear_index(x, y) as nat) == Some(
            terrain_of_tag(tags[linear_index(x, y)]),
        ),
        wildcard_lookup(encode_kept(tiles_of_tags(tags), interior(), 2500), edges, x, y) == Some(
            if on_room_corner(x, y) {
                Terrain::Wall
            } else if on_room_edge(x, y) && terrain_of_tag(tags[linear_index(x, y)]) is Swamp {
                Terrain::Plain
            } else {
                terrain_of_tag(tags[linear_index(x, y)])
            },
        ),
{
    let index = linear_index(x, y);
    let tiles = tiles_of_tags(tags);
    lemma_tiles_of_compressed(tags);
    assert(tiles_of_bytes(compress(tags))[index] == terrain_at(compress(tags), index));
    assert(tiles[index] == terrain_of_tag(tags[index]));
    lemma_encode_token_at(tiles, index as nat);
    if on_room_edge(x, y) {
        lemma_edge_lookup_of_held_edges(edges, tiles, x, y);
        assert(wildcard_tile(tiles, x, y) == if on_room_corner(x, y) {
            Terrain::Wall
        } else if tiles[index] is Swamp {
            Terrain::Plain
        } else {
            tiles[index]
        });
    } else {
        assert(interior()(index));
        lemma_encode_kept_token_at(tiles, interior(), 2500, index as nat);
    }
}

/// For a room with walls in its four corners, the encoding with wildcards
/// gives what the bit-packed array gives at every
/// position, except that it gives a plain for a swamp on an edge of the room.
pub proof fn lemma_wildcard_agrees_with_walled_corners(
    tags: Seq<u8>,
    edges: Seq<u8>,
    x: int,
    y: int,
)
    requires
        tags.len() == 2500,
        0 <= x < 50,
        0 <= y < 50,
        edges.len() == 24,
        forall|edge: int|
            0 <= edge < 4 ==> holds_edge(
                #[trigger] edge_chunk(edges, edge),
                edge_of(tiles_of_tags(tags), edge),
            ),
        terrain_of_tag(tags[linear_index(0, 0)]) is Wall,
        terrain_of_tag(tags[linear_index(49, 0)]) is Wall,
        terrain_of_tag(tags[linear_index(0, 49)]) is Wall,
        terrain_of_tag(tags[linear_index(49, 49)]) is Wall,
    ensures
        wildcard_lookup(encode_kept(tiles_of_tags(tags), interior(), 2500), edges, x, y) == Some(
            if on_room_edge(x, y) && terrain_at(compress(tags), linear_index(x, y)) is Swamp {
                Terrain::Plain
            } else {
                terrain_at(compress(tags), linear_index(x, y))
            },
        ),
{
    lemma_codecs_agree(tags, edges, x, y);
}

/// A packed run takes two bytes. Where a run with the terrain as it is and a
/// 16-bit start takes at least as many, and the vector of such runs is at
/// least as large as the vector of packed runs, the packed sequence of any
/// number of runs takes no more memory than the other sequence of as many.
pub proof fn lemma_packed_memory_at_most_naive(runs: nat)
    requires
        size_of::<IndexedRLE<Terrain, u16>>() >= 2,
        size_of::<Vec<RoomTerrainPackedIndexedRLE>>() <= size_of::<Vec<IndexedRLE<Terrain, u16>>>(),
    ensures
        2 * runs + size_of::<Vec<RoomTerrainPackedIndexedRLE>>() <= runs * size_of::<
            IndexedRLE<Terrain, u16>,
        >() + size_of::<Vec<IndexedRLE<Terrain, u16>>>(),
{
    let width = size_of::<IndexedRLE<Terrain, u16>>();
    assert(2 * runs <= runs * width) by (nonlinear_arith)
        requires
            width >= 2,
    ;
}

} // verus!
