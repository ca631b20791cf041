//! Run length encoding of room terrain with each run packed into 16 bits.
//!
//! The sequence of packed runs follows the same rules as the sequence of
//! runs of any token type in `generic_rle`; it is written out a second time
//! so that it can work on the packed words themselves.

use vstd::prelude::*;
use vstd::layout::layout_for_type_is_valid;
use vstd::layout::size_of;
use rle::AppendRle;
use rle::MergableSpan;
use crate::compressed_terrain::compressed_terrain::tiles_of_bytes;
use crate::compressed_terrain::compressed_terrain::tiles_of_tags;
use crate::compressed_terrain::compressed_terrain::CompressedRoomTerrain;
use crate::room_xy::terrain_index_to_xy;
use crate::room_xy::xy_to_terrain_index;
use crate::room_xy::RoomXY;
use crate::room_xy::ROOM_AREA;
use crate::run_length_encoding::runs::accepts;
use crate::run_length_encoding::runs::append;
use crate::run_length_encoding::runs::ascending;
use crate::run_length_encoding::runs::can_append;
use crate::run_length_encoding::runs::encode;
use crate::run_length_encoding::runs::encode_kept;
use crate::run_length_encoding::runs::everywhere;
use crate::run_length_encoding::runs::lemma_append_well_formed;
use crate::run_length_encoding::runs::lemma_ascending_len;
use crate::run_length_encoding::runs::lemma_covering_found;
use crate::run_length_encoding::runs::lemma_covering_none;
use crate::run_length_encoding::runs::lemma_encode_kept_accepts;
use crate::run_length_encoding::runs::lemma_encode_token_at;
use crate::run_length_encoding::runs::token_at;
use crate::run_length_encoding::runs::well_formed;
use crate::run_length_encoding::runs::Run;
use crate::terrain::tag_of_terrain;
use crate::terrain::Terrain;

verus! {

/// The packed word of a run. From the highest bit to the lowest: two bits
/// that are 0, two bits with the tag of the terrain, and twelve bits with the
/// linear index at which the run starts.
pub open spec fn pack_run(terrain: Terrain, start: u16) -> u16 {
    ((tag_of_terrain(terrain) as u16) << 12) | start
}

/// The terrain of a packed word: a plain for the tag 0, a swamp for the tag
/// 2, and a wall otherwise.
pub open spec fn packed_terrain(packed: u16) -> Terrain {
    if packed >> 12 == 0 {
        Terrain::Plain
    } else if packed >> 12 == 2 {
        Terrain::Swamp
    } else {
        Terrain::Wall
    }
}

/// The start of a packed word: its twelve low bits.
pub open spec fn packed_start(packed: u16) -> nat {
    (packed & 0b111111111111) as nat
}

/// The run that a packed word stands for.
pub open spec fn packed_run(packed: u16) -> Run<Terrain> {
    Run { token: packed_terrain(packed), start: packed_start(packed) }
}

/// A packed word gives back the terrain and the start that went into it, as
/// long as the start fits into twelve bits.
pub proof fn lemma_packed_run_of_pack_run(terrain: Terrain, start: u16)
    requires
        start < 4096,
    ensures
        packed_run(pack_run(terrain, start)) == (Run { token: terrain, start: start as nat }),
        pack_run(terrain, start) >> 12 == tag_of_terrain(terrain),
{
    let tag: u16 = tag_of_terrain(terrain) as u16;
    assert(((tag << 12) | start) >> 12 == tag && ((tag << 12) | start) & 0b111111111111 == start)
        by (bit_vector)
        requires
            tag <= 2,
            start < 4096,
    ;
}

/// The start of a packed word is below 4096.
pub proof fn lemma_packed_start_bound(packed: u16)
    ensures
        packed_start(packed) < 4096,
{
    assert(packed & 0b111111111111 < 4096) by (bit_vector);
}

/// Specialized struct that encodes a run of terrain in a bit-packed format.
#[derive(Clone)]
pub struct RoomTerrainPackedIndexedRLE {
    packed: u16,
}

impl View for RoomTerrainPackedIndexedRLE {
    type V = u16;

    /// The packed word of the run.
    closed spec fn view(&self) -> u16 {
        self.packed
    }
}

impl RoomTerrainPackedIndexedRLE {
    /// The run that this value stands for.
    pub open spec fn run(&self) -> Run<Terrain> {
        packed_run(self@)
    }

    /// Creates a new run of the specified terrain type starting at the
    /// specified index in the room.
    ///
    /// The start has to fit into twelve bits for the run to hold it, and the
    /// terrain, unchanged. Every linear index of a room does.
    pub fn new(terrain: Terrain, start: u16) -> (made: Self)
        ensures
            made@ == pack_run(terrain, start),
            start < 4096 ==> made.run() == (Run { token: terrain, start: start as nat }),
    {
        proof {
            if start < 4096 {
                lemma_packed_run_of_pack_run(terrain, start);
            }
        }
        let packed = Self::get_packed_repr(terrain, start);
        Self::new_from_packed_repr(packed)
    }

    /// Creates a new run directly from the bit-packed internal representation.
    pub fn new_from_packed_repr(packed: u16) -> (made: Self)
        ensures
            made@ == packed,
    {
        Self { packed }
    }

    /// Calculates the compressed internal representation of the provided run data.
    pub fn get_packed_repr(terrain: Terrain, start: u16) -> (packed: u16)
        ensures
            packed == pack_run(terrain, start),
    {
        let terrain_bytes: u16 = match terrain {
            Terrain::Plain => 0,
            Terrain::Wall => 1,
            Terrain::Swamp => 2,
        };
        (terrain_bytes << 12) | (start)
    }

    /// The terrain this run encodes.
    pub fn terrain(&self) -> (terrain: Terrain)
        ensures
            terrain == self.run().token,
    {
        let tag: u16 = self.packed >> 12;
        if tag == 0 {
            Terrain::Plain
        } else if tag == 2 {
            Terrain::Swamp
        } else {
            Terrain::Wall
        }
    }

    /// The linear terrain index that this run starts at.
    pub fn start(&self) -> (start: u16)
        ensures
            start == self.run().start,
            start < 4096,
    {
        proof {
            lemma_packed_start_bound(self.packed);
        }
        self.packed & 0b111111111111
    }

    /// Returns the compressed internal representation of this run.
    pub fn packed_repr(&self) -> (packed: u16)
        ensures
            packed == self@,
    {
        self.packed
    }

    /// The amount of memory it takes to store this data.
    pub fn memory_size(&self) -> (bytes: usize)
        ensures
            bytes == 2,
    {
        broadcast use vstd::layout::layout_of_primitives;

        core::mem::size_of::<u16>()
    }
}

impl MergableSpan for RoomTerrainPackedIndexedRLE {
    /// Whether `other` has the terrain of this run and does not start before
    /// it.
    fn can_append(&self, other: &Self) -> (mergeable: bool)
        ensures
            mergeable == can_append(self.run(), other.run()),
    {
        self.terrain() == other.terrain() && self.start() <= other.start()
    }

    /// Merges `other` into this run, which leaves this run as it is: a run
    /// lasts until the next one starts.
    fn append(&mut self, other: Self)
        ensures
            *final(self) == *old(self),
    {
    }

    /// Merges `other` in front of this run: the run then is the one of the
    /// two that starts earlier.
    fn prepend(&mut self, other: Self)
        ensures
            final(self)@ == if other.run().start < old(self).run().start {
                other@
            } else {
                old(self)@
            },
    {
        if other.start() < self.start() {
            self.packed = other.packed;
        }
    }
}

/// Calls `push_rle` of the `rle` crate on a vector of packed runs. It asks the
/// last run of the vector, if there is one, whether it `can_append` the new
/// run; if so it has the last run `append` it, which changes nothing, and
/// returns true. Otherwise it pushes the new run to the vector and returns
/// false.
#[verifier::external_body]
fn push_rle(runs: &mut Vec<RoomTerrainPackedIndexedRLE>, run: RoomTerrainPackedIndexedRLE) -> (merged:
    bool)
    ensures
        merged == (old(runs)@.len() > 0 && can_append(old(runs)@.last().run(), run.run())),
        final(runs)@ == (if merged {
            old(runs)@
        } else {
            old(runs)@.push(run)
        }),
{
    runs.push_rle(run)
}

/// Encodes the terrain for a room as an ordered sequence of packed runs,
/// searched by bisection.
pub struct BinarySearchPackedRoomTerrainRLE {
    vec: Vec<RoomTerrainPackedIndexedRLE>,
}

impl View for BinarySearchPackedRoomTerrainRLE {
    type V = Seq<Run<Terrain>>;

    /// The runs of the sequence, in the order in which they are held.
    closed spec fn view(&self) -> Seq<Run<Terrain>> {
        self.vec@.map_values(|run: RoomTerrainPackedIndexedRLE| run.run())
    }
}

impl BinarySearchPackedRoomTerrainRLE {
    /// Creates a new, empty sequence.
    pub fn new() -> (made: Self)
        ensures
            made@ == Seq::<Run<Terrain>>::empty(),
            well_formed(made@),
    {
        let made = Self { vec: Vec::new() };
        assert(made@ =~= Seq::<Run<Terrain>>::empty());
        made
    }

    /// Appends an individual terrain run to the sequence.
    ///
    /// Returns true if the run was added to the end of the sequence, or false
    /// if the run was instead merged with the run at the end of the sequence.
    ///
    /// Runs are to be appended in ascending order; this does no sorting.
    pub fn append_run(&mut self, run: RoomTerrainPackedIndexedRLE) -> (added: bool)
        requires
            well_formed(old(self)@),
            accepts(old(self)@, run.run()),
        ensures
            final(self)@ == append(old(self)@, run.run()),
            added == !(old(self)@.len() > 0 && can_append(old(self)@.last(), run.run())),
            well_formed(final(self)@),
    {
        proof {
            lemma_append_well_formed(self@, run.run());
        }
        let merged = push_rle(&mut self.vec, run);
        assert(self@ =~= append(old(self)@, run.run()));
        !merged
    }

    /// Appends an individual tile of terrain to the sequence as a run.
    ///
    /// Returns true if the run was added to the end of the sequence, or false
    /// if the run was instead merged with the run at the end of the sequence.
    ///
    /// Tiles are to be appended in ascending order; this does no sorting.
    pub fn append_token(&mut self, terrain: Terrain, start: u16) -> (added: bool)
        requires
            well_formed(old(self)@),
            accepts(old(self)@, packed_run(pack_run(terrain, start))),
        ensures
            final(self)@ == append(old(self)@, packed_run(pack_run(terrain, start))),
            added == !(old(self)@.len() > 0 && can_append(
                old(self)@.last(),
                packed_run(pack_run(terrain, start)),
            )),
            well_formed(final(self)@),
    {
        let run = RoomTerrainPackedIndexedRLE::new(terrain, start);
        self.append_run(run)
    }

    /// The number of runs that start before `index`, which is the place in the
    /// sequence of the first run that does not.
    fn partition_point(&self, index: u16) -> (point: usize)
        requires
            ascending(self@),
        ensures
            point <= self@.len(),
            forall|k: int| 0 <= k < point ==> (#[trigger] self@[k]).start < index,
            forall|k: int| point <= k < self@.len() ==> (#[trigger] self@[k]).start >= index,
    {
        let mut low: usize = 0;
        let mut high: usize = self.vec.len();
        while low < high
            invariant
                low <= high <= self@.len(),
                self@.len() == self.vec@.len(),
                ascending(self@),
                forall|k: int| 0 <= k < low ==> (#[trigger] self@[k]).start < index,
                forall|k: int| high <= k < self@.len() ==> (#[trigger] self@[k]).start >= index,
            decreases high - low,
        {
            let mid = low + (high - low) / 2;
            assert(self@[mid as int] == self.vec@[mid as int].run());
            if self.vec[mid].start() < index {
                assert forall|k: int| 0 <= k < mid + 1 implies (#[trigger] self@[k]).start
                    < index by {
                    if k < mid {
                        assert(self@[k].start < self@[mid as int].start);
                    }
                }
                low = mid + 1;
            } else {
                assert forall|k: int| mid <= k < self@.len() implies (#[trigger] self@[k]).start
                    >= index by {
                    if mid < k {
                        assert(self@[mid as int].start < self@[k].start);
                    }
                }
                high = mid;
            }
        }
        low
    }

    /// Searches for the terrain type at the tile given by the linear terrain index.
    ///
    /// Returns None if there are no runs in the sequence or if the index is
    /// before the start of the first run. Otherwise, this returns the terrain
    /// of the run that contains the index: the latest run that starts at or
    /// before it.
    pub fn find_token_at_index(&self, index: u16) -> (found: Option<Terrain>)
        requires
            well_formed(self@),
        ensures
            found == token_at(self@, index as nat),
    {
        if self.vec.len() == 0 {
            proof {
                lemma_covering_none(self@, index as nat);
            }
            None
        } else {
            assert(self@[0] == self.vec@[0].run());
            if index < self.vec[0].start() {
                proof {
                    lemma_covering_none(self@, index as nat);
                }
                None
            } else {
                let idx = self.partition_point(index);
                let run_idx = if idx == self.vec.len() {
                    idx - 1
                } else {
                    assert(self@[idx as int] == self.vec@[idx as int].run());
                    let current_run = &self.vec[idx];
                    if current_run.start() == index {
                        idx
                    } else {
                        idx - 1
                    }
                };
                proof {
                    assert(self@[run_idx as int] == self.vec@[run_idx as int].run());
                    lemma_covering_found(self@, index as nat, run_idx as int);
                }
                Some(self.vec[run_idx].terrain())
            }
        }
    }

    /// Returns the number of runs in the sequence.
    pub fn num_runs(&self) -> (count: usize)
        ensures
            count == self@.len(),
    {
        self.vec.len()
    }

    /// Returns the terrain of the last run in the sequence, or None if the
    /// sequence is empty.
    pub fn last_token(&self) -> (found: Option<Terrain>)
        ensures
            found == if self@.len() > 0 {
                Some(self@.last().token)
            } else {
                None
            },
    {
        if self.vec.len() > 0 {
            assert(self@.last() == self.vec@[self.vec@.len() - 1].run());
            Some(self.vec[self.vec.len() - 1].terrain())
        } else {
            None
        }
    }

    /// A sequence in order has at most 4096 runs, as there are no more starts
    /// for them.
    pub proof fn lemma_num_runs_bound(&self)
        requires
            well_formed(self@),
        ensures
            self@.len() <= 4096,
    {
        assert forall|k: int| 0 <= k < self@.len() implies (#[trigger] self@[k]).start < 4096 by {
            lemma_packed_start_bound(self.vec@[k]@);
        }
        lemma_ascending_len(self@, 4096);
    }

    /// The amount of memory it takes to store this data: two bytes for each
    /// run, and the vector that holds them.
    pub fn memory_size(&self) -> (bytes: usize)
        requires
            well_formed(self@),
        ensures
            bytes == 2 * self@.len() + size_of::<Vec<RoomTerrainPackedIndexedRLE>>(),
    {
        proof {
            self.lemma_num_runs_bound();
        }
        layout_for_type_is_valid::<Vec<RoomTerrainPackedIndexedRLE>>();
        let data_size = if self.vec.len() > 0 {
            self.vec.len() * self.vec[0].memory_size()
        } else {
            0
        };
        let vec_size = core::mem::size_of::<Vec<RoomTerrainPackedIndexedRLE>>();
        data_size + vec_size
    }
}

/// User-friendly interface for getting terrain data.
///
/// Uses [BinarySearchPackedRoomTerrainRLE] internally to store data efficiently.
pub struct PackedRLERoomTerrain {
    data: BinarySearchPackedRoomTerrainRLE,
}

impl View for PackedRLERoomTerrain {
    type V = Seq<Run<Terrain>>;

    /// The runs that encode the room.
    closed spec fn view(&self) -> Seq<Run<Terrain>> {
        self.data@
    }
}

impl PackedRLERoomTerrain {
    #[verifier::type_invariant]
    spec fn covers_room(self) -> bool {
        &&& well_formed(self.data@)
        &&& forall|index: nat| index < 2500 ==> (#[trigger] token_at(self.data@, index)) is Some
    }

    /// Encodes the tiles of a room, one after the other in row-major order.
    fn encode_tiles(tiles: &[Terrain; 2500]) -> (made: Self)
        ensures
            made@ == encode(tiles@),
            forall|index: nat|
                index < 2500 ==> #[trigger] token_at(made@, index) == Some(tiles@[index as int]),
    {
        let mut data = BinarySearchPackedRoomTerrainRLE::new();
        let mut idx: usize = 0;
        while idx < ROOM_AREA
            invariant
                idx <= 2500,
                well_formed(data@),
                data@ == encode_kept(tiles@, everywhere(), idx as nat),
            decreases 2500 - idx,
        {
            let tile = tiles[idx];
            proof {
                lemma_packed_run_of_pack_run(tile, idx as u16);
                lemma_encode_kept_accepts(
                    tiles@,
                    everywhere(),
                    idx as nat,
                    Run { token: tile, start: idx as nat },
                );
            }
            data.append_token(tile, idx as u16);
            idx += 1;
        }
        proof {
            assert forall|index: nat| index < 2500 implies #[trigger] token_at(data@, index)
                == Some(tiles@[index as int]) by {
                lemma_encode_token_at(tiles@, index);
            }
        }
        Self { data }
    }

    /// Converts the 2500 tags of a room, given in row-major order, into a
    /// RLE-compressed format.
    pub fn new_from_uncompressed_terrain(terrain: &[u8; 2500]) -> (made: Self)
        ensures
            made@ == encode(tiles_of_tags(terrain@)),
            forall|index: nat|
                index < 2500 ==> #[trigger] token_at(made@, index) == Some(
                    tiles_of_tags(terrain@)[index as int],
                ),
    {
        let mut tiles = [Terrain::Plain;2500];
        let mut idx: usize = 0;
        while idx < ROOM_AREA
            invariant
                idx <= 2500,
                forall|k: int| 0 <= k < idx ==> tiles@[k] == tiles_of_tags(terrain@)[k],
            decreases 2500 - idx,
        {
            let xy = terrain_index_to_xy(idx);
            tiles[idx] = Terrain::from_tag(terrain[xy_to_terrain_index(xy)]);
            idx += 1;
        }
        assert(tiles@ =~= tiles_of_tags(terrain@));
        Self::encode_tiles(&tiles)
    }

    /// Converts bit-packed compressed terrain into a RLE-compressed format.
    pub fn new_from_compressed_terrain(terrain: &CompressedRoomTerrain) -> (made: Self)
        ensures
            made@ == encode(tiles_of_bytes(terrain@)),
            forall|index: nat|
                index < 2500 ==> #[trigger] token_at(made@, index) == Some(
                    tiles_of_bytes(terrain@)[index as int],
                ),
    {
        let mut tiles = [Terrain::Plain;2500];
        let mut idx: usize = 0;
        while idx < ROOM_AREA
            invariant
                idx <= 2500,
                forall|k: int| 0 <= k < idx ==> tiles@[k] == tiles_of_bytes(terrain@)[k],
            decreases 2500 - idx,
        {
            let xy = terrain_index_to_xy(idx);
            tiles[idx] = terrain.get_xy(xy);
            idx += 1;
        }
        assert(tiles@ =~= tiles_of_bytes(terrain@));
        Self::encode_tiles(&tiles)
    }

    /// Gets the terrain value for the specified tile.
    pub fn get_xy(&self, xy: RoomXY) -> (terrain: Terrain)
        ensures
            token_at(self@, xy.index() as nat) == Some(terrain),
    {
        proof {
            use_type_invariant(self);
        }
        let idx = xy_to_terrain_index(xy);
        assert(token_at(self@, idx as nat) is Some);
        self.data.find_token_at_index(idx as u16).unwrap()
    }

    /// Returns the number of distinct runs contained.
    pub fn num_runs(&self) -> (count: usize)
        ensures
            count == self@.len(),
    {
        self.data.num_runs()
    }

    /// The amount of memory it takes to store this data: two bytes for each
    /// run, and the vector that holds them.
    pub fn memory_size(&self) -> (bytes: usize)
        ensures
            bytes == 2 * self@.len() + size_of::<Vec<RoomTerrainPackedIndexedRLE>>(),
    {
        proof {
            use_type_invariant(self);
        }
        self.data.memory_size()
    }
}

} // verus!
