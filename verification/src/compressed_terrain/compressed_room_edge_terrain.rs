//! The terrain of the four edges of a room in 24 bytes, one bit to a tile.
//!
//! The two ends of an edge are room corners and always walls, so only the 48
//! tiles between them are stored: six bytes for each edge, in the order top,
//! right, bottom, left. A set bit is a wall, a clear bit a plain; a swamp on
//! an edge is stored as a plain.

use vstd::prelude::*;
use crate::room_xy::on_room_corner;
use crate::room_xy::RoomXY;
use crate::terrain::Terrain;

verus! {

/// Whether bit `k` of `byte` is set, counted from the highest bit.
pub open spec fn bit_from_top(byte: u8, k: int) -> bool {
    (byte >> ((7 - k) as u8)) & 1 == 1
}

/// Whether the six bytes of an edge hold a wall at `position` along the edge,
/// for the positions 1 to 48: the tile at `position` is bit `(position - 1) %
/// 8` of byte `(position - 1) / 8`.
pub open spec fn stored_wall(chunk: Seq<u8>, position: int) -> bool {
    bit_from_top(chunk[(position - 1) / 8], (position - 1) % 8)
}

/// The terrain that the six bytes of an edge hold at `position` along the
/// edge. The two ends are walls whatever the bytes hold.
pub open spec fn edge_tile(chunk: Seq<u8>, position: int) -> Terrain {
    if position <= 0 || position >= 49 {
        Terrain::Wall
    } else if stored_wall(chunk, position) {
        Terrain::Wall
    } else {
        Terrain::Plain
    }
}

/// Whether the six bytes of an edge hold the walls of the 50 tiles `edge`:
/// each of the positions 1 to 48 is stored as a wall where `edge` has a wall
/// there, and as a plain otherwise.
pub open spec fn holds_edge(chunk: Seq<u8>, edge: Seq<Terrain>) -> bool {
    &&& chunk.len() == 6
    &&& forall|position: int|
        1 <= position <= 48 ==> #[trigger] stored_wall(chunk, position) == (edge[position] is Wall)
}

/// The six bytes of one edge among the 24 of a room: edge 0 is the top, 1 the
/// right, 2 the bottom, 3 the left.
pub open spec fn edge_chunk(bytes: Seq<u8>, edge: int) -> Seq<u8> {
    bytes.subrange(6 * edge, 6 * edge + 6)
}

/// What the 24 bytes of the edges hold for column `x` of row `y`: a wall in
/// the corners, the stored tile on an edge, and nothing elsewhere.
pub open spec fn edge_lookup(bytes: Seq<u8>, x: int, y: int) -> Option<Terrain> {
    if on_room_corner(x, y) {
        Some(Terrain::Wall)
    } else if y == 0 {
        Some(edge_tile(edge_chunk(bytes, 0), x))
    } else if y == 49 {
        Some(edge_tile(edge_chunk(bytes, 2), x))
    } else if x == 0 {
        Some(edge_tile(edge_chunk(bytes, 3), y))
    } else if x == 49 {
        Some(edge_tile(edge_chunk(bytes, 1), y))
    } else {
        None
    }
}

/// Setting one bit of a byte changes that bit and no other.
proof fn lemma_set_bit(byte: u8, i: u8, k: u8)
    requires
        i < 8,
        k < 8,
    ensures
        bit_from_top(byte | (1u8 << (7 - i) as u8), k as int) == (bit_from_top(byte, k as int) || k
            == i),
{
    let s: u8 = (7 - i) as u8;
    let r: u8 = (7 - k) as u8;
    assert((((byte | (1u8 << s)) >> r) & 1 == 1) == (((byte >> r) & 1 == 1) || r == s))
        by (bit_vector)
        requires
            s < 8,
            r < 8,
    ;
}

/// No bit of the byte 0 is set.
proof fn lemma_no_bit_in_zero(k: u8)
    requires
        k < 8,
    ensures
        !bit_from_top(0, k as int),
{
    let r: u8 = (7 - k) as u8;
    assert((0u8 >> r) & 1 == 0) by (bit_vector);
}

/// Two bytes with the same eight bits are the same byte.
pub proof fn lemma_byte_from_bits(a: u8, b: u8)
    requires
        forall|k: int| 0 <= k < 8 ==> bit_from_top(a, k) == bit_from_top(b, k),
    ensures
        a == b,
{
    assert(bit_from_top(a, 0) == bit_from_top(b, 0));
    assert(bit_from_top(a, 1) == bit_from_top(b, 1));
    assert(bit_from_top(a, 2) == bit_from_top(b, 2));
    assert(bit_from_top(a, 3) == bit_from_top(b, 3));
    assert(bit_from_top(a, 4) == bit_from_top(b, 4));
    assert(bit_from_top(a, 5) == bit_from_top(b, 5));
    assert(bit_from_top(a, 6) == bit_from_top(b, 6));
    assert(bit_from_top(a, 7) == bit_from_top(b, 7));
    assert(a == b) by (bit_vector)
        requires
            ((a >> 7u8) & 1 == 1) == ((b >> 7u8) & 1 == 1),
            ((a >> 6u8) & 1 == 1) == ((b >> 6u8) & 1 == 1),
            ((a >> 5u8) & 1 == 1) == ((b >> 5u8) & 1 == 1),
            ((a >> 4u8) & 1 == 1) == ((b >> 4u8) & 1 == 1),
            ((a >> 3u8) & 1 == 1) == ((b >> 3u8) & 1 == 1),
            ((a >> 2u8) & 1 == 1) == ((b >> 2u8) & 1 == 1),
            ((a >> 1u8) & 1 == 1) == ((b >> 1u8) & 1 == 1),
            ((a >> 0u8) & 1 == 1) == ((b >> 0u8) & 1 == 1),
    ;
}

/// The bytes of an edge are fixed by the walls they hold: two chunks that hold
/// the same edge are equal.
pub proof fn lemma_holds_edge_is_exact(a: Seq<u8>, b: Seq<u8>, edge: Seq<Terrain>)
    requires
        holds_edge(a, edge),
        holds_edge(b, edge),
    ensures
        a == b,
{
    assert forall|j: int| 0 <= j < 6 implies a[j] == b[j] by {
        assert forall|k: int| 0 <= k < 8 implies bit_from_top(a[j], k) == bit_from_top(b[j], k) by {
            let position = 8 * j + k + 1;
            assert(stored_wall(a, position) == (edge[position] is Wall));
            assert(stored_wall(b, position) == (edge[position] is Wall));
        }
        lemma_byte_from_bits(a[j], b[j]);
    }
    assert(a =~= b);
}

/// The errors that can be returned when parsing edge terrain data from slices.
#[derive(Debug, Copy, Clone, PartialEq, Eq, Structural)]
pub enum RoomEdgeTerrainParseError {
    TopEdgeNotLength50,
    RightEdgeNotLength50,
    BottomEdgeNotLength50,
    LeftEdgeNotLength50,
}

/// Stores room edge terrain data compressed via bit-packing.
#[derive(Debug, Copy, Clone)]
pub struct RoomEdgeTerrain {
    data: [u8; 24],
}

impl View for RoomEdgeTerrain {
    type V = Seq<u8>;

    /// The 24 bytes of the four edges.
    closed spec fn view(&self) -> Seq<u8> {
        self.data@
    }
}

impl RoomEdgeTerrain {
    /// Creates a new RoomEdgeTerrain from raw compressed data bytes.
    pub fn new_from_raw_bytes(data: [u8; 24]) -> (edges: Self)
        ensures
            edges@ == data@,
    {
        Self { data }
    }

    /// Creates a new RoomEdgeTerrain from slices of terrain, one for each edge
    /// of a room.
    ///
    /// Each slice must hold 50 tiles; the first slice in the order top, right,
    /// bottom, left that does not is reported. The two ends of each slice are
    /// not read. Swamps are stored as plains.
    pub fn new_from_terrain_slices(
        top: &[Terrain],
        right: &[Terrain],
        bottom: &[Terrain],
        left: &[Terrain],
    ) -> (made: Result<Self, RoomEdgeTerrainParseError>)
        ensures
            match made {
                Ok(edges) => {
                    &&& top@.len() == 50
                    &&& right@.len() == 50
                    &&& bottom@.len() == 50
                    &&& left@.len() == 50
                    &&& edges@.len() == 24
                    &&& holds_edge(edge_chunk(edges@, 0), top@)
                    &&& holds_edge(edge_chunk(edges@, 1), right@)
                    &&& holds_edge(edge_chunk(edges@, 2), bottom@)
                    &&& holds_edge(edge_chunk(edges@, 3), left@)
                },
                Err(RoomEdgeTerrainParseError::TopEdgeNotLength50) => top@.len() != 50,
                Err(RoomEdgeTerrainParseError::RightEdgeNotLength50) => top@.len() == 50
                    && right@.len() != 50,
                Err(RoomEdgeTerrainParseError::BottomEdgeNotLength50) => top@.len() == 50
                    && right@.len() == 50 && bottom@.len() != 50,
                Err(RoomEdgeTerrainParseError::LeftEdgeNotLength50) => top@.len() == 50
                    && right@.len() == 50 && bottom@.len() == 50 && left@.len() != 50,
            },
    {
        if top.len() != 50 {
            return Err(RoomEdgeTerrainParseError::TopEdgeNotLength50);
        }
        if right.len() != 50 {
            return Err(RoomEdgeTerrainParseError::RightEdgeNotLength50);
        }
        if bottom.len() != 50 {
            return Err(RoomEdgeTerrainParseError::BottomEdgeNotLength50);
        }
        if left.len() != 50 {
            return Err(RoomEdgeTerrainParseError::LeftEdgeNotLength50);
        }
        let top_slice = Self::edge_from_slice(top);
        let right_slice = Self::edge_from_slice(right);
        let bottom_slice = Self::edge_from_slice(bottom);
        let left_slice = Self::edge_from_slice(left);

        let mut data = [0u8; 24];
        Self::store_edge(&mut data, 0, &top_slice);
        Self::store_edge(&mut data, 1, &right_slice);
        Self::store_edge(&mut data, 2, &bottom_slice);
        Self::store_edge(&mut data, 3, &left_slice);
        Ok(Self { data })
    }

    /// Copies a slice of 50 tiles into an array.
    fn edge_from_slice(tiles: &[Terrain]) -> (edge: [Terrain; 50])
        requires
            tiles@.len() == 50,
        ensures
            edge@ == tiles@,
    {
        let mut edge = [Terrain::Wall;50];
        let mut i: usize = 0;
        while i < 50
            invariant
                i <= 50,
                tiles@.len() == 50,
                forall|k: int| 0 <= k < i ==> edge@[k] == tiles@[k],
            decreases 50 - i,
        {
            edge[i] = tiles[i];
            i += 1;
        }
        assert(edge@ =~= tiles@);
        edge
    }

    /// Writes the six bytes of one edge into their place among the 24 bytes,
    /// and leaves the other edges as they are.
    fn store_edge(data: &mut [u8; 24], edge: usize, terrain: &[Terrain; 50])
        requires
            edge < 4,
        ensures
            holds_edge(edge_chunk(final(data)@, edge as int), terrain@),
            forall|other: int|
                0 <= other < 4 && other != edge ==> #[trigger] edge_chunk(final(data)@, other)
                    == edge_chunk(old(data)@, other),
    {
        let mut bytes = [0u8; 6];
        Self::copy_edge_terrain_to_byte_slice(terrain, &mut bytes);
        let mut j: usize = 0;
        while j < 6
            invariant
                j <= 6,
                edge < 4,
                forall|k: int| 0 <= k < j ==> data@[6 * edge + k] == bytes@[k],
                forall|k: int|
                    0 <= k < 24 && !(6 * edge <= k < 6 * edge + 6) ==> data@[k] == old(data)@[k],
            decreases 6 - j,
        {
            data[6 * edge + j] = bytes[j];
            j += 1;
        }
        assert(edge_chunk(data@, edge as int) =~= bytes@);
        assert forall|other: int| 0 <= other < 4 && other != edge implies #[trigger] edge_chunk(
            data@,
            other,
        ) == edge_chunk(old(data)@, other) by {
            assert(edge_chunk(data@, other) =~= edge_chunk(old(data)@, other));
        }
    }

    /// Returns the compressed internal representation of the room edge terrain data.
    pub fn get_raw_bytes(&self) -> (bytes: [u8; 24])
        ensures
            bytes@ == self@,
    {
        self.data
    }

    /// Compresses 8 tiles into a single byte, the first tile into the highest
    /// bit: a bit is set where the tile is a wall.
    pub fn get_byte_from_terrain(terrain: &[Terrain; 8]) -> (byte: u8)
        ensures
            forall|k: int| 0 <= k < 8 ==> #[trigger] bit_from_top(byte, k) == (terrain@[k] is Wall),
    {
        let mut output = 0_u8;
        let mut i: u8 = 0;
        assert forall|k: int| 0 <= k < 8 implies !#[trigger] bit_from_top(output, k) by {
            lemma_no_bit_in_zero(k as u8);
        }
        while i < 8
            invariant
                i <= 8,
                forall|k: int|
                    0 <= k < 8 ==> #[trigger] bit_from_top(output, k) == (k < i
                        && terrain@[k] is Wall),
            decreases 8 - i,
        {
            let ghost before = output;
            match terrain[i as usize] {
                Terrain::Wall => {
                    output = output | (1u8 << (7 - i));
                    assert forall|k: int| 0 <= k < 8 implies #[trigger] bit_from_top(output, k) == (
                    k < i + 1 && terrain@[k] is Wall) by {
                        lemma_set_bit(before, i, k as u8);
                    }
                },
                _ => {},
            }
            i += 1;
        }
        output
    }

    /// Writes an entire edge of 50 tiles into a chunk of 6 bytes. The two ends
    /// of the edge are not stored.
    pub fn copy_edge_terrain_to_byte_slice(terrain: &[Terrain; 50], output: &mut [u8; 6])
        ensures
            holds_edge(final(output)@, terrain@),
    {
        let mut i: usize = 0;
        while i < 6
            invariant
                i <= 6,
                forall|j: int, k: int|
                    0 <= j < i && 0 <= k < 8 ==> #[trigger] bit_from_top(output@[j], k) == (
                    terrain@[8 * j + k + 1] is Wall),
            decreases 6 - i,
        {
            let mut slice = [Terrain::Plain;8];
            let mut k: usize = 0;
            while k < 8
                invariant
                    k <= 8,
                    i < 6,
                    forall|m: int| 0 <= m < k ==> slice@[m] == terrain@[8 * i + m + 1],
                decreases 8 - k,
            {
                slice[k] = terrain[8 * i + k + 1];
                k += 1;
            }
            let byte = RoomEdgeTerrain::get_byte_from_terrain(&slice);
            output[i] = byte;
            i += 1;
        }
        assert forall|position: int| 1 <= position <= 48 implies #[trigger] stored_wall(
            output@,
            position,
        ) == (terrain@[position] is Wall) by {
            let j = (position - 1) / 8;
            let k = (position - 1) % 8;
            assert(bit_from_top(output@[j], k) == (terrain@[8 * j + k + 1] is Wall));
        }
    }

    /// Writes the 8 tiles that a byte holds into `output`, the highest bit
    /// first.
    pub fn copy_terrain_from_byte(byte: u8, output: &mut [Terrain; 8])
        ensures
            forall|k: int|
                0 <= k < 8 ==> #[trigger] final(output)@[k] == (if bit_from_top(byte, k) {
                    Terrain::Wall
                } else {
                    Terrain::Plain
                }),
    {
        let mut i: u8 = 0;
        while i < 8
            invariant
                i <= 8,
                forall|k: int|
                    0 <= k < i ==> #[trigger] output@[k] == (if bit_from_top(byte, k) {
                        Terrain::Wall
                    } else {
                        Terrain::Plain
                    }),
            decreases 8 - i,
        {
            let bit_idx: u8 = 7 - i;
            let bit: u8 = (byte >> bit_idx) & 1;
            assert(bit == 0 || bit == 1) by (bit_vector)
                requires
                    bit == (byte >> bit_idx) & 1,
            ;
            output[i as usize] = if bit == 0 {
                Terrain::Plain
            } else {
                Terrain::Wall
            };
            i += 1;
        }
    }

    /// Gets an individual tile's terrain directly from the six bytes of an
    /// edge. `edge_offset` is the position of the tile along the edge; there
    /// is nothing stored for positions outside 1 to 48.
    fn get_tile_terrain_from_chunk(chunk: &[u8; 6], edge_offset: u8) -> (found: Option<Terrain>)
        ensures
            found == if 0 < edge_offset < 49 {
                Some(edge_tile(chunk@, edge_offset as int))
            } else {
                None
            },
    {
        if edge_offset < 49 && edge_offset > 0 {
            let offset = (edge_offset - 1) as usize;
            let byte = chunk[offset / 8];
            let bit_idx: u8 = (offset % 8) as u8;
            let bitshift: u8 = 7 - bit_idx;
            let bit: u8 = (byte >> bitshift) & 1;
            assert(bit == 0 || bit == 1) by (bit_vector)
                requires
                    bit == (byte >> bitshift) & 1,
            ;
            if bit == 0 {
                Some(Terrain::Plain)
            } else {
                Some(Terrain::Wall)
            }
        } else {
            None
        }
    }

    /// Converts a byte into the 8 tiles it holds, the highest bit first.
    pub fn get_terrain_from_byte(byte: u8) -> (tiles: [Terrain; 8])
        ensures
            forall|k: int|
                0 <= k < 8 ==> #[trigger] tiles@[k] == (if bit_from_top(byte, k) {
                    Terrain::Wall
                } else {
                    Terrain::Plain
                }),
    {
        let mut output = [Terrain::Plain;8];
        RoomEdgeTerrain::copy_terrain_from_byte(byte, &mut output);
        output
    }

    /// Converts the six bytes of an edge into its 50 tiles. The two ends are
    /// walls.
    pub fn get_edge_terrain_from_bytes(bytes: &[u8; 6]) -> (edge: [Terrain; 50])
        ensures
            forall|position: int|
                0 <= position < 50 ==> #[trigger] edge@[position] == edge_tile(bytes@, position),
    {
        let mut edge = [Terrain::Wall;50];
        let mut i: usize = 0;
        while i < 6
            invariant
                i <= 6,
                edge@[0] == Terrain::Wall,
                edge@[49] == Terrain::Wall,
                forall|position: int|
                    1 <= position <= 8 * i ==> #[trigger] edge@[position] == edge_tile(
                        bytes@,
                        position,
                    ),
            decreases 6 - i,
        {
            let tiles = RoomEdgeTerrain::get_terrain_from_byte(bytes[i]);
            let mut k: usize = 0;
            while k < 8
                invariant
                    k <= 8,
                    i < 6,
                    edge@[0] == Terrain::Wall,
                    edge@[49] == Terrain::Wall,
                    forall|m: int|
                        0 <= m < 8 ==> #[trigger] tiles@[m] == (if bit_from_top(bytes@[i as int], m) {
                            Terrain::Wall
                        } else {
                            Terrain::Plain
                        }),
                    forall|position: int|
                        1 <= position <= 8 * i + k ==> #[trigger] edge@[position] == edge_tile(
                            bytes@,
                            position,
                        ),
                decreases 8 - k,
            {
                let ghost position = 8 * i + k + 1;
                assert((position - 1) / 8 == i && (position - 1) % 8 == k);
                edge[8 * i + k + 1] = tiles[k];
                k += 1;
            }
            i += 1;
        }
        edge
    }

    /// The six bytes of one edge: 0 is the top, 1 the right, 2 the bottom, 3
    /// the left.
    fn get_edge_bytes(&self, edge: usize) -> (chunk: [u8; 6])
        requires
            edge < 4,
        ensures
            chunk@ == edge_chunk(self@, edge as int),
    {
        let mut chunk = [0u8; 6];
        let mut j: usize = 0;
        while j < 6
            invariant
                j <= 6,
                edge < 4,
                forall|k: int| 0 <= k < j ==> chunk@[k] == self.data@[6 * edge + k],
            decreases 6 - j,
        {
            chunk[j] = self.data[6 * edge + j];
            j += 1;
        }
        assert(chunk@ =~= edge_chunk(self@, edge as int));
        chunk
    }

    /// The six bytes that hold the top edge of the room.
    pub fn get_top_edge_bytes_slice(&self) -> (chunk: [u8; 6])
        ensures
            chunk@ == edge_chunk(self@, 0),
    {
        self.get_edge_bytes(0)
    }

    /// The six bytes that hold the right edge of the room.
    pub fn get_right_edge_bytes_slice(&self) -> (chunk: [u8; 6])
        ensures
            chunk@ == edge_chunk(self@, 1),
    {
        self.get_edge_bytes(1)
    }

    /// The six bytes that hold the bottom edge of the room.
    pub fn get_bottom_edge_bytes_slice(&self) -> (chunk: [u8; 6])
        ensures
            chunk@ == edge_chunk(self@, 2),
    {
        self.get_edge_bytes(2)
    }

    /// The six bytes that hold the left edge of the room.
    pub fn get_left_edge_bytes_slice(&self) -> (chunk: [u8; 6])
        ensures
            chunk@ == edge_chunk(self@, 3),
    {
        self.get_edge_bytes(3)
    }

    /// Returns the 50 tiles of the top edge of the room, from left to right.
    pub fn get_top_edge_terrain(&self) -> (edge: [Terrain; 50])
        ensures
            forall|position: int|
                0 <= position < 50 ==> #[trigger] edge@[position] == edge_tile(
                    edge_chunk(self@, 0),
                    position,
                ),
    {
        Self::get_edge_terrain_from_bytes(&self.get_top_edge_bytes_slice())
    }

    /// Returns the 50 tiles of the right edge of the room, from top to bottom.
    pub fn get_right_edge_terrain(&self) -> (edge: [Terrain; 50])
        ensures
            forall|position: int|
                0 <= position < 50 ==> #[trigger] edge@[position] == edge_tile(
                    edge_chunk(self@, 1),
                    position,
                ),
    {
        Self::get_edge_terrain_from_bytes(&self.get_right_edge_bytes_slice())
    }

    /// Returns the 50 tiles of the bottom edge of the room, from left to right.
    pub fn get_bottom_edge_terrain(&self) -> (edge: [Terrain; 50])
        ensures
            forall|position: int|
                0 <= position < 50 ==> #[trigger] edge@[position] == edge_tile(
                    edge_chunk(self@, 2),
                    position,
                ),
    {
        Self::get_edge_terrain_from_bytes(&self.get_bottom_edge_bytes_slice())
    }

    /// Returns the 50 tiles of the left edge of the room, from top to bottom.
    pub fn get_left_edge_terrain(&self) -> (edge: [Terrain; 50])
        ensures
            forall|position: int|
                0 <= position < 50 ==> #[trigger] edge@[position] == edge_tile(
                    edge_chunk(self@, 3),
                    position,
                ),
    {
        Self::get_edge_terrain_from_bytes(&self.get_left_edge_bytes_slice())
    }

    /// Returns the terrain of the specified tile, or nothing if the tile is not
    /// on an edge of the room.
    pub fn get_xy(&self, xy: RoomXY) -> (found: Option<Terrain>)
        ensures
            found == edge_lookup(self@, xy.col(), xy.row()),
    {
        let x = xy.x();
        let y = xy.y();
        if (x == 0 || x == 49) && (y == 0 || y == 49) {
            Some(Terrain::Wall)
        } else if x > 0 && x < 49 && y > 0 && y < 49 {
            None
        } else if y == 0 {
            Self::get_tile_terrain_from_chunk(&self.get_top_edge_bytes_slice(), x)
        } else if y == 49 {
            Self::get_tile_terrain_from_chunk(&self.get_bottom_edge_bytes_slice(), x)
        } else if x == 0 {
            Self::get_tile_terrain_from_chunk(&self.get_left_edge_bytes_slice(), y)
        } else {
            Self::get_tile_terrain_from_chunk(&self.get_right_edge_bytes_slice(), y)
        }
    }

    /// The amount of memory that it takes to hold this data: 24 bytes.
    pub fn memory_size(&self) -> (bytes: usize)
        ensures
            bytes == 24,
    {
        broadcast use vstd::layout::layout_of_primitives, vstd::layout::layout_of_slices;

        core::mem::size_of_val::<[u8]>(self.data.as_slice())
    }
}

} // verus!
