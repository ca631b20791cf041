//! The terrain of a whole room in 625 bytes, four tiles to a byte.

use vstd::prelude::*;
use vstd::layout::layout_for_type_is_valid;
use vstd::layout::size_of;
use vstd::slice::slice_subrange;
use vstd::std_specs::ops::DivSpec;
use vstd::std_specs::ops::RemSpec;
use crate::room_xy::xy_to_terrain_index;
use crate::room_xy::RoomXY;
use crate::room_xy::ROOM_AREA;
use crate::terrain::lemma_terrain_of_low_bits;
use crate::terrain::terrain_of_tag;
use crate::terrain::Terrain;

verus! {

/// The number of bytes that hold a room: four tiles go into each.
pub const COMPRESSED_ARRAY_SIZE: usize = 625;

/// The byte that holds four tags, the first in the two highest bits. Only the
/// two low bits of each tag are kept.
pub open spec fn pack_four(t0: u8, t1: u8, t2: u8, t3: u8) -> u8 {
    ((t0 & 0b11) << 6) | ((t1 & 0b11) << 4) | ((t2 & 0b11) << 2) | (t3 & 0b11)
}

/// The tag that `byte` holds in place `offset`, counted from the highest bits.
pub open spec fn unpack(byte: u8, offset: int) -> u8 {
    if offset == 0 {
        (byte >> 6) & 0b11
    } else if offset == 1 {
        (byte >> 4) & 0b11
    } else if offset == 2 {
        (byte >> 2) & 0b11
    } else {
        byte & 0b11
    }
}

/// The tag in place `i` of `tags`, or 0 past their end.
pub open spec fn tag_or_zero(tags: Seq<u8>, i: int) -> u8 {
    if 0 <= i < tags.len() {
        tags[i]
    } else {
        0
    }
}

/// The 625 bytes that hold the 2500 tags of a room.
pub open spec fn compress(tags: Seq<u8>) -> Seq<u8> {
    Seq::new(
        625,
        |i: int| pack_four(tags[4 * i], tags[4 * i + 1], tags[4 * i + 2], tags[4 * i + 3]),
    )
}

/// The tag that the bytes of a room hold for the tile at a linear index.
pub open spec fn tag_at(bytes: Seq<u8>, index: int) -> u8 {
    unpack(bytes[index / 4], index % 4)
}

/// The 2500 tags that the bytes of a room hold.
pub open spec fn uncompress(bytes: Seq<u8>) -> Seq<u8> {
    Seq::new(2500, |index: int| tag_at(bytes, index))
}

/// The terrain that the bytes of a room hold for the tile at a linear index.
pub open spec fn terrain_at(bytes: Seq<u8>, index: int) -> Terrain {
    terrain_of_tag(tag_at(bytes, index))
}

/// The 2500 tiles that the tags of a room stand for.
pub open spec fn tiles_of_tags(tags: Seq<u8>) -> Seq<Terrain> {
    Seq::new(2500, |index: int| terrain_of_tag(tags[index]))
}

/// The 2500 tiles that the bytes of a room hold.
pub open spec fn tiles_of_bytes(bytes: Seq<u8>) -> Seq<Terrain> {
    Seq::new(2500, |index: int| terrain_at(bytes, index))
}

/// Each place of a packed byte holds the two low bits of the tag put there.
pub proof fn lemma_unpack_pack_four(t0: u8, t1: u8, t2: u8, t3: u8)
    ensures
        unpack(pack_four(t0, t1, t2, t3), 0) == t0 & 0b11,
        unpack(pack_four(t0, t1, t2, t3), 1) == t1 & 0b11,
        unpack(pack_four(t0, t1, t2, t3), 2) == t2 & 0b11,
        unpack(pack_four(t0, t1, t2, t3), 3) == t3 & 0b11,
{
    assert((((((t0 & 0b11) << 6) | ((t1 & 0b11) << 4) | ((t2 & 0b11) << 2) | (t3 & 0b11)) >> 6)
        & 0b11) == t0 & 0b11) by (bit_vector);
    assert((((((t0 & 0b11) << 6) | ((t1 & 0b11) << 4) | ((t2 & 0b11) << 2) | (t3 & 0b11)) >> 4)
        & 0b11) == t1 & 0b11) by (bit_vector);
    assert((((((t0 & 0b11) << 6) | ((t1 & 0b11) << 4) | ((t2 & 0b11) << 2) | (t3 & 0b11)) >> 2)
        & 0b11) == t2 & 0b11) by (bit_vector);
    assert(((((t0 & 0b11) << 6) | ((t1 & 0b11) << 4) | ((t2 & 0b11) << 2) | (t3 & 0b11)) & 0b11)
        == t3 & 0b11) by (bit_vector);
}

/// A byte is made of the four tags it holds.
pub proof fn lemma_pack_four_unpack(byte: u8)
    ensures
        pack_four(unpack(byte, 0), unpack(byte, 1), unpack(byte, 2), unpack(byte, 3)) == byte,
{
    assert((((((byte >> 6) & 0b11) & 0b11) << 6) | ((((byte >> 4) & 0b11) & 0b11) << 4) | ((((byte
        >> 2) & 0b11) & 0b11) << 2) | ((byte & 0b11) & 0b11)) == byte) by (bit_vector);
}

/// Packing a room and unpacking it again keeps the two low bits of each tag.
pub proof fn lemma_uncompress_compress(tags: Seq<u8>)
    requires
        tags.len() == 2500,
    ensures
        uncompress(compress(tags)).len() == 2500,
        forall|index: int|
            0 <= index < 2500 ==> #[trigger] uncompress(compress(tags))[index] == tags[index]
                & 0b11,
{
    assert forall|index: int| 0 <= index < 2500 implies #[trigger] uncompress(
        compress(tags),
    )[index] == tags[index] & 0b11 by {
        let i = index / 4;
        lemma_unpack_pack_four(tags[4 * i], tags[4 * i + 1], tags[4 * i + 2], tags[4 * i + 3]);
    }
}

/// A room whose tags are all below 4 comes back from its packed form exactly
/// as it went in.
pub proof fn lemma_round_trip(tags: Seq<u8>)
    requires
        tags.len() == 2500,
        forall|index: int| 0 <= index < 2500 ==> tags[index] < 4,
    ensures
        uncompress(compress(tags)) == tags,
{
    lemma_uncompress_compress(tags);
    assert forall|index: int| 0 <= index < 2500 implies uncompress(compress(tags))[index]
        == tags[index] by {
        let t = tags[index];
        assert(t < 4 ==> t & 0b11 == t) by (bit_vector);
    }
    assert(uncompress(compress(tags)) =~= tags);
}

/// The bytes of a room hold the tiles that its tags stand for.
pub proof fn lemma_tiles_of_compressed(tags: Seq<u8>)
    requires
        tags.len() == 2500,
    ensures
        tiles_of_bytes(compress(tags)) == tiles_of_tags(tags),
{
    lemma_uncompress_compress(tags);
    assert forall|index: int| 0 <= index < 2500 implies terrain_at(compress(tags), index)
        == terrain_of_tag(tags[index]) by {
        assert(uncompress(compress(tags))[index] == tags[index] & 0b11);
        lemma_terrain_of_low_bits(tags[index]);
    }
    assert(tiles_of_bytes(compress(tags)) =~= tiles_of_tags(tags));
}

/// Unpacking 625 bytes and packing the tags again gives the same bytes.
pub proof fn lemma_compress_uncompress(bytes: Seq<u8>)
    requires
        bytes.len() == 625,
    ensures
        compress(uncompress(bytes)) == bytes,
{
    assert forall|i: int| 0 <= i < 625 implies compress(uncompress(bytes))[i] == bytes[i] by {
        lemma_pack_four_unpack(bytes[i]);
    }
    assert(compress(uncompress(bytes)) =~= bytes);
}

/// Room terrain that has been compressed via bit-packing.
pub struct CompressedRoomTerrain {
    data: Box<[u8; 625]>,
}

impl View for CompressedRoomTerrain {
    type V = Seq<u8>;

    /// The 625 bytes of the room.
    closed spec fn view(&self) -> Seq<u8> {
        self.data@
    }
}

impl CompressedRoomTerrain {
    /// Gets the terrain at the specified position in this room.
    pub fn get_xy(&self, xy: RoomXY) -> (terrain: Terrain)
        ensures
            terrain == terrain_at(self@, xy.index()),
    {
        let tag = self.get_uncompressed_terrain_byte(xy);
        Terrain::from_tag(tag)
    }

    /// Gets the two-bit tag of the specified position.
    fn get_uncompressed_terrain_byte(&self, xy: RoomXY) -> (tag: u8)
        ensures
            tag == tag_at(self@, xy.index()),
    {
        let uncompressed_index = xy_to_terrain_index(xy);
        let (byte_index, internal_offset) = div_rem(uncompressed_index, 4);
        let raw_byte = self.data[byte_index];
        let bitshift_amount: u8 = if internal_offset == 0 {
            6
        } else if internal_offset == 1 {
            4
        } else if internal_offset == 2 {
            2
        } else {
            0
        };
        assert(raw_byte >> 0 == raw_byte) by (bit_vector);
        (raw_byte >> bitshift_amount) & 0b11
    }

    /// Compresses up to four tags into a single byte, the first into the two
    /// highest bits. Only the two low bits of each tag are kept; tags that
    /// `bytes` lacks count as 0, and those past the fourth are left out.
    pub fn compress_4_bytes(bytes: &[u8]) -> (byte: u8)
        ensures
            byte == pack_four(
                tag_or_zero(bytes@, 0),
                tag_or_zero(bytes@, 1),
                tag_or_zero(bytes@, 2),
                tag_or_zero(bytes@, 3),
            ),
    {
        let len = bytes.len();
        let b0: u8 = if 0 < len { bytes[0] } else { 0 };
        let b1: u8 = if 1 < len { bytes[1] } else { 0 };
        let b2: u8 = if 2 < len { bytes[2] } else { 0 };
        let b3: u8 = if 3 < len { bytes[3] } else { 0 };
        let mask = 0b11u8;
        let first_byte_bits = (b0 & mask) << 6;
        let second_byte_bits = (b1 & mask) << 4;
        let third_byte_bits = (b2 & mask) << 2;
        let fourth_byte_bits = b3 & mask;
        first_byte_bits | second_byte_bits | third_byte_bits | fourth_byte_bits
    }

    /// Converts a compressed byte into the four tags it holds.
    pub fn uncompress_byte(byte: u8) -> (tags: [u8; 4])
        ensures
            tags[0] == unpack(byte, 0),
            tags[1] == unpack(byte, 1),
            tags[2] == unpack(byte, 2),
            tags[3] == unpack(byte, 3),
    {
        let mask = 0b11u8;
        [(byte >> 6) & mask, (byte >> 4) & mask, (byte >> 2) & mask, byte & mask]
    }

    /// Creates a `CompressedRoomTerrain` from the 2500 tags of a room, given
    /// in row-major order.
    pub fn new_from_uncompressed_bits(bits: &[u8; 2500]) -> (terrain: Self)
        ensures
            terrain@ == compress(bits@),
    {
        let mut compressed_data: Box<[u8; 625]> = Box::new([0; 625]);
        let mut i: usize = 0;
        while i < COMPRESSED_ARRAY_SIZE
            invariant
                i <= 625,
                forall|k: int|
                    0 <= k < i ==> compressed_data@[k] == pack_four(
                        bits@[4 * k],
                        bits@[4 * k + 1],
                        bits@[4 * k + 2],
                        bits@[4 * k + 3],
                    ),
            decreases 625 - i,
        {
            let chunk = slice_subrange(bits.as_slice(), 4 * i, 4 * i + 4);
            let compressed_byte = Self::compress_4_bytes(chunk);
            compressed_data[i] = compressed_byte;
            i += 1;
        }
        assert(compressed_data@ =~= compress(bits@));
        Self { data: compressed_data }
    }

    /// Creates a `CompressedRoomTerrain` from the 625 bytes of a room.
    pub fn new_from_compressed_bytes(data: Box<[u8; 625]>) -> (terrain: Self)
        ensures
            terrain@ == data@,
    {
        Self { data }
    }

    /// Gets a reference to the 625 bytes of the room.
    pub fn get_compressed_bytes(&self) -> (bytes: &[u8; 625])
        ensures
            bytes@ == self@,
    {
        &self.data
    }

    /// Converts the compressed terrain into the 2500 tags of the room, in
    /// row-major order.
    pub fn get_uncompressed_bits(&self) -> (bits: Box<[u8; 2500]>)
        ensures
            bits@ == uncompress(self@),
    {
        let mut uncompressed_bits: Box<[u8; 2500]> = Box::new([0; 2500]);
        let mut compressed_index: usize = 0;
        while compressed_index < COMPRESSED_ARRAY_SIZE
            invariant
                compressed_index <= 625,
                forall|k: int|
                    0 <= k < 4 * compressed_index ==> uncompressed_bits@[k] == tag_at(self@, k),
            decreases 625 - compressed_index,
        {
            let compressed_byte = self.data[compressed_index];
            let uncompressed_bytes = Self::uncompress_byte(compressed_byte);
            let target = 4 * compressed_index;
            uncompressed_bits[target] = uncompressed_bytes[0];
            uncompressed_bits[target + 1] = uncompressed_bytes[1];
            uncompressed_bits[target + 2] = uncompressed_bytes[2];
            uncompressed_bits[target + 3] = uncompressed_bytes[3];
            compressed_index += 1;
        }
        assert(uncompressed_bits@ =~= uncompress(self@));
        uncompressed_bits
    }

    /// The amount of memory it takes to store this data: the 625 bytes and
    /// the box that points to them.
    pub fn memory_size(&self) -> (bytes: usize)
        ensures
            bytes == 625 + size_of::<Box<[u8; 625]>>(),
    {
        broadcast use vstd::layout::layout_of_primitives, vstd::layout::layout_of_slices;

        layout_for_type_is_valid::<Box<[u8; 625]>>();
        core::mem::size_of_val::<[u8]>(self.data.as_slice()) + core::mem::size_of::<Box<[u8; 625]>>()
    }
}

/// Calculates the quotient and the remainder of `x` by `y`, in this order.
pub fn div_rem<T: core::ops::Div<Output = T> + core::ops::Rem<Output = T> + Copy>(x: T, y: T) -> (parts: (T, T))
    requires
        x.div_req(y),
        x.rem_req(y),
    ensures
        T::obeys_div_spec() ==> parts.0 == x.div_spec(y),
        T::obeys_rem_spec() ==> parts.1 == x.rem_spec(y),
{
    let quot = x / y;
    let rem = x % y;
    (quot, rem)
}

} // verus!
