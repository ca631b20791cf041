//! The exits of a room: the stretches of an edge that are not walls.

use vstd::prelude::*;
use crate::compressed_terrain::compressed_room_edge_terrain::edge_chunk;
use crate::compressed_terrain::compressed_room_edge_terrain::edge_tile;
use crate::compressed_terrain::compressed_room_edge_terrain::RoomEdgeTerrain;
use crate::room_name::room_at_offset;
use crate::room_name::RoomName;
use crate::terrain::Terrain;

verus! {

/// The edge of a room that an exit lies on.
#[derive(Debug, Clone, Copy, PartialEq, Eq, Structural)]
pub enum ExitDirection {
    Top,
    Right,
    Bottom,
    Left,
}

/// The three bits that stand for an edge in a packed exit.
pub open spec fn direction_bits(direction: ExitDirection) -> u16 {
    match direction {
        ExitDirection::Top => 1,
        ExitDirection::Right => 3,
        ExitDirection::Bottom => 5,
        ExitDirection::Left => 7,
    }
}

/// The packed word of an exit. From the highest bit to the lowest: seven bits
/// with the length, three bits with the edge, and six bits with the start.
pub open spec fn pack_exit(start: u8, length: u8, direction: ExitDirection) -> u16 {
    ((length as u16) << 9) | (direction_bits(direction) << 6) | (start as u16)
}

/// Whether the three bits for the edge in a packed word stand for an edge.
pub open spec fn has_direction(packed: u16) -> bool {
    (packed & 0b111000000) >> 6 == 1 || (packed & 0b111000000) >> 6 == 3 || (packed & 0b111000000)
        >> 6 == 5 || (packed & 0b111000000) >> 6 == 7
}

/// The packed word with the top edge in place of three bits that stand for
/// no edge.
pub open spec fn sanitized(packed: u16) -> u16 {
    if has_direction(packed) {
        packed
    } else {
        (packed & 0b111111000111111) | (1u16 << 6)
    }
}

/// The start of a packed exit: its six low bits.
pub open spec fn exit_start(packed: u16) -> u8 {
    (packed & 0b111111) as u8
}

/// The length of a packed exit: its seven high bits.
pub open spec fn exit_len(packed: u16) -> u8 {
    (packed >> 9) as u8
}

/// The position at which a packed exit ends.
pub open spec fn exit_end(packed: u16) -> int {
    if exit_start(packed) + exit_len(packed) == 0 {
        0
    } else {
        exit_start(packed) + exit_len(packed) - 1
    }
}

/// The edge of a packed exit.
pub open spec fn exit_direction(packed: u16) -> ExitDirection {
    if (packed & 0b111000000) >> 6 == 1 {
        ExitDirection::Top
    } else if (packed & 0b111000000) >> 6 == 3 {
        ExitDirection::Right
    } else if (packed & 0b111000000) >> 6 == 5 {
        ExitDirection::Bottom
    } else {
        ExitDirection::Left
    }
}

/// The stretches without a wall among the first `n` tiles of an edge, each as
/// its start and its length, in ascending order. A stretch ends at a wall or
/// at the end of the tiles.
pub open spec fn stretches(edge: Seq<Terrain>, n: nat) -> Seq<(nat, nat)>
    decreases n,
{
    if n == 0 {
        Seq::empty()
    } else if edge[n - 1] is Wall {
        stretches(edge, (n - 1) as nat)
    } else if n >= 2 && !(edge[n - 2] is Wall) && stretches(edge, (n - 1) as nat).len() > 0 {
        let before = stretches(edge, (n - 1) as nat);
        before.drop_last().push((before.last().0, before.last().1 + 1))
    } else {
        stretches(edge, (n - 1) as nat).push(((n - 1) as nat, 1))
    }
}

/// The packed exits of an edge of 50 tiles, in ascending order.
pub open spec fn exits_of(edge: Seq<Terrain>, direction: ExitDirection) -> Seq<u16> {
    stretches(edge, 50).map_values(
        |stretch: (nat, nat)| pack_exit(stretch.0 as u8, stretch.1 as u8, direction),
    )
}

/// The 50 tiles that the six bytes of an edge hold.
pub open spec fn edge_tiles(chunk: Seq<u8>) -> Seq<Terrain> {
    Seq::new(50, |position: int| edge_tile(chunk, position))
}

/// The packed words of a sequence of exits.
pub open spec fn exit_words(exits: Seq<RoomExit>) -> Seq<u16> {
    exits.map_values(|exit: RoomExit| exit@)
}

/// A packed exit gives back the start, the length and the edge that went
/// into it, as long as the start is below 64 and the length below 128.
pub proof fn lemma_exit_of_pack_exit(start: u8, length: u8, direction: ExitDirection)
    requires
        start < 64,
        length < 128,
    ensures
        exit_start(pack_exit(start, length, direction)) == start,
        exit_len(pack_exit(start, length, direction)) == length,
        exit_direction(pack_exit(start, length, direction)) == direction,
{
    let bits: u16 = direction_bits(direction);
    let s: u16 = start as u16;
    let l: u16 = length as u16;
    assert(((l << 9) | (bits << 6) | s) & 0b111111 == s && ((l << 9) | (bits << 6) | s) >> 9 == l
        && (((l << 9) | (bits << 6) | s) & 0b111000000) >> 6 == bits) by (bit_vector)
        requires
            s < 64,
            l < 128,
            bits < 8,
    ;
}

/// Whatever went into a packed exit, its three bits for the edge stand for an
/// edge.
pub proof fn lemma_pack_exit_has_direction(start: u8, length: u8, direction: ExitDirection)
    ensures
        has_direction(pack_exit(start, length, direction)),
{
    let bits: u16 = direction_bits(direction);
    let s: u16 = start as u16;
    let l: u16 = length as u16;
    let d: u16 = (((l << 9) | (bits << 6) | s) & 0b111000000) >> 6;
    assert(d == 1 || d == 3 || d == 5 || d == 7) by (bit_vector)
        requires
            d == (((l << 9) | (bits << 6) | s) & 0b111000000) >> 6,
            bits == 1 || bits == 3 || bits == 5 || bits == 7,
            s < 256,
    ;
}

/// A sanitized word has three bits that stand for an edge, and the start of
/// the word it was made of.
pub proof fn lemma_sanitized(packed: u16)
    ensures
        has_direction(sanitized(packed)),
        exit_start(sanitized(packed)) == exit_start(packed),
        !has_direction(packed) ==> exit_direction(sanitized(packed)) == ExitDirection::Top,
        !has_direction(packed) && packed < 0x8000 ==> exit_len(sanitized(packed)) == exit_len(
            packed,
        ),
{
    let fixed: u16 = (packed & 0b111111000111111) | (1u16 << 6);
    assert((fixed & 0b111000000) >> 6 == 1 && fixed & 0b111111 == packed & 0b111111 && (packed
        < 0x8000 ==> fixed >> 9 == packed >> 9)) by (bit_vector)
        requires
            fixed == (packed & 0b111111000111111) | (1u16 << 6),
    ;
}

/// The stretches among the first `n` tiles lie among them, one after the
/// other, and none is empty.
pub proof fn lemma_stretches_in_range(edge: Seq<Terrain>, n: nat)
    ensures
        stretches(edge, n).len() <= n,
        forall|k: int|
            0 <= k < stretches(edge, n).len() ==> (#[trigger] stretches(edge, n)[k]).1 >= 1 && (
            stretches(edge, n)[k]).0 + (stretches(edge, n)[k]).1 <= n,
    decreases n,
{
    if n > 0 {
        lemma_stretches_in_range(edge, (n - 1) as nat);
    }
}

/// Compact representation of an entire exit along a room edge.
#[derive(Debug, PartialEq, Clone, Copy)]
pub struct RoomExit {
    packed: u16,
}

impl View for RoomExit {
    type V = u16;

    /// The packed word of the exit.
    closed spec fn view(&self) -> u16 {
        self.packed
    }
}

/// The place of the three bits for the edge in a packed exit.
pub const EXIT_DIRECTION_OFFSET: u16 = 6;

/// The place of the length in a packed exit.
pub const LENGTH_OFFSET: u16 = 9;

/// The bits of the start in a packed exit.
pub const START_POSITION_BITMASK: u16 = 0b111111;

/// The bits of the edge in a packed exit.
pub const EXIT_DIRECTION_BITMASK: u16 = 0b111000000;

/// The bits of a packed exit but those of the edge.
pub const EXIT_DIRECTION_INVERTED_BITMASK: u16 = 0b111111000111111;

impl RoomExit {
    #[verifier::type_invariant]
    spec fn on_an_edge(self) -> bool {
        has_direction(self.packed)
    }

    /// Creates a new RoomExit from the packed representation.
    ///
    /// Three bits that stand for no edge are replaced by those of the top
    /// edge.
    pub fn new_from_packed(packed: u16) -> (exit: Self)
        ensures
            exit@ == sanitized(packed),
    {
        let dir_bits = (packed & EXIT_DIRECTION_BITMASK) >> EXIT_DIRECTION_OFFSET;
        let final_packed = if dir_bits == 1 || dir_bits == 3 || dir_bits == 5 || dir_bits == 7 {
            packed
        } else {
            (packed & EXIT_DIRECTION_INVERTED_BITMASK) | (1u16 << EXIT_DIRECTION_OFFSET)
        };
        proof {
            lemma_sanitized(packed);
        }
        Self { packed: final_packed }
    }

    /// Creates a new RoomExit from the start and length parameters.
    pub fn new(start: u8, length: u8, direction: ExitDirection) -> (exit: Self)
        ensures
            exit@ == pack_exit(start, length, direction),
    {
        let packed = Self::get_packed_from_parameters(start, length, direction);
        proof {
            lemma_pack_exit_has_direction(start, length, direction);
        }
        Self { packed }
    }

    /// Helper function to get the packed representation from the start and length parameters.
    pub fn get_packed_from_parameters(start: u8, length: u8, direction: ExitDirection) -> (packed:
        u16)
        ensures
            packed == pack_exit(start, length, direction),
    {
        let direction_val: u16 = match direction {
            ExitDirection::Top => 1,
            ExitDirection::Right => 3,
            ExitDirection::Bottom => 5,
            ExitDirection::Left => 7,
        };
        ((length as u16) << LENGTH_OFFSET) | (direction_val << EXIT_DIRECTION_OFFSET) | start as u16
    }

    /// The start position of this exit.
    pub fn start(&self) -> (start: u8)
        ensures
            start == exit_start(self@),
            start < 64,
    {
        let packed: u16 = self.packed;
        let low: u16 = packed & START_POSITION_BITMASK;
        assert(low < 64) by (bit_vector)
            requires
                low == packed & 0b111111,
        ;
        low as u8
    }

    /// The length of this exit.
    pub fn len(&self) -> (length: u8)
        ensures
            length == exit_len(self@),
            length < 128,
    {
        let packed: u16 = self.packed;
        let high: u16 = packed >> LENGTH_OFFSET;
        assert(high < 128) by (bit_vector)
            requires
                high == packed >> 9,
        ;
        high as u8
    }

    /// The end position of this exit.
    pub fn end(&self) -> (end: u8)
        ensures
            end == exit_end(self@),
    {
        self.start().saturating_add(self.len()).saturating_sub(1)
    }

    /// The edge that this exit is on.
    pub fn exit_direction(&self) -> (direction: ExitDirection)
        ensures
            direction == exit_direction(self@),
    {
        proof {
            use_type_invariant(self);
        }
        let val = (self.packed & EXIT_DIRECTION_BITMASK) >> EXIT_DIRECTION_OFFSET;
        if val == 1 {
            ExitDirection::Top
        } else if val == 3 {
            ExitDirection::Right
        } else if val == 5 {
            ExitDirection::Bottom
        } else {
            ExitDirection::Left
        }
    }

    /// The packed representation of this exit.
    pub fn packed(&self) -> (packed: u16)
        ensures
            packed == self@,
    {
        self.packed
    }

    /// How much space this exit takes up in memory (in bytes).
    pub fn memory_size(&self) -> (bytes: usize)
        ensures
            bytes == 2,
    {
        broadcast use vstd::layout::layout_of_primitives;

        core::mem::size_of::<u16>()
    }

    /// Extracts the individual exits for each edge from the compressed room edge terrain.
    ///
    /// Returned ordering is: Top, Right, Bottom, Left
    pub fn get_exits_from_edge_terrain(terrain: &RoomEdgeTerrain) -> (exits: (
        Vec<Self>,
        Vec<Self>,
        Vec<Self>,
        Vec<Self>,
    ))
        ensures
            exit_words(exits.0@) == exits_of(
                edge_tiles(edge_chunk(terrain@, 0)),
                ExitDirection::Top,
            ),
            exit_words(exits.1@) == exits_of(
                edge_tiles(edge_chunk(terrain@, 1)),
                ExitDirection::Right,
            ),
            exit_words(exits.2@) == exits_of(
                edge_tiles(edge_chunk(terrain@, 2)),
                ExitDirection::Bottom,
            ),
            exit_words(exits.3@) == exits_of(
                edge_tiles(edge_chunk(terrain@, 3)),
                ExitDirection::Left,
            ),
    {
        let top_terrain = terrain.get_top_edge_terrain();
        let right_terrain = terrain.get_right_edge_terrain();
        let bottom_terrain = terrain.get_bottom_edge_terrain();
        let left_terrain = terrain.get_left_edge_terrain();
        assert(top_terrain@ =~= edge_tiles(edge_chunk(terrain@, 0)));
        assert(right_terrain@ =~= edge_tiles(edge_chunk(terrain@, 1)));
        assert(bottom_terrain@ =~= edge_tiles(edge_chunk(terrain@, 2)));
        assert(left_terrain@ =~= edge_tiles(edge_chunk(terrain@, 3)));

        let top_exits = Self::get_exits_from_single_edge(&top_terrain, ExitDirection::Top);
        let right_exits = Self::get_exits_from_single_edge(&right_terrain, ExitDirection::Right);
        let bottom_exits = Self::get_exits_from_single_edge(&bottom_terrain, ExitDirection::Bottom);
        let left_exits = Self::get_exits_from_single_edge(&left_terrain, ExitDirection::Left);

        (top_exits, right_exits, bottom_exits, left_exits)
    }

    /// Utility function that processes edge terrain into a list of exits.
    ///
    /// Returned vector can be empty if the edge is entirely Walls, and thus has no exits.
    pub fn get_exits_from_single_edge(terrain: &[Terrain; 50], direction: ExitDirection) -> (exits:
        Vec<Self>)
        ensures
            exit_words(exits@) == exits_of(terrain@, direction),
    {
        let mut exits: Vec<Self> = Vec::new();
        let ghost mut closed: Seq<(nat, nat)> = Seq::empty();

        let mut current_exit_start: u8 = 0;
        let mut current_exit_length: u8 = 0;

        let mut i: usize = 0;
        while i < 50
            invariant
                i <= 50,
                exits@.len() == closed.len(),
                forall|k: int|
                    0 <= k < closed.len() ==> (#[trigger] exits@[k])@ == pack_exit(
                        closed[k].0 as u8,
                        closed[k].1 as u8,
                        direction,
                    ),
                current_exit_length > 0 ==> i > 0 && !(terrain@[i - 1] is Wall)
                    && current_exit_start + current_exit_length == i && stretches(terrain@, i as nat)
                    == closed.push((current_exit_start as nat, current_exit_length as nat)),
                current_exit_length == 0 ==> (i == 0 || terrain@[i - 1] is Wall) && stretches(
                    terrain@,
                    i as nat,
                ) == closed,
            decreases 50 - i,
        {
            if terrain[i] == Terrain::Wall {
                if current_exit_length > 0 {
                    let exit = Self::new(current_exit_start, current_exit_length, direction);
                    exits.push(exit);
                    proof {
                        closed = closed.push(
                            (current_exit_start as nat, current_exit_length as nat),
                        );
                    }
                    current_exit_start = 0;
                    current_exit_length = 0;
                }
            } else {
                let is_new_exit = {
                    if i == 0 {
                        true
                    } else {
                        terrain[i - 1] == Terrain::Wall
                    }
                };
                if is_new_exit {
                    current_exit_start = i as u8;
                    current_exit_length = 1;
                } else {
                    proof {
                        let before = stretches(terrain@, i as nat);
                        assert(before.drop_last() =~= closed);
                    }
                    current_exit_length += 1;
                }
            }
            i += 1;
        }

        if current_exit_length > 0 {
            let exit = Self::new(current_exit_start, current_exit_length, direction);
            exits.push(exit);
            proof {
                closed = closed.push((current_exit_start as nat, current_exit_length as nat));
            }
        }
        assert(exit_words(exits@) =~= exits_of(terrain@, direction));
        exits
    }
}

/// Compactly stores information about all the exits in a room.
pub struct RoomExitsData {
    data: RoomEdgeTerrain,
    room: RoomName,
    num_top_exits: usize,
    num_right_exits: usize,
    num_bottom_exits: usize,
    num_left_exits: usize,
}

impl RoomExitsData {
    #[verifier::type_invariant]
    spec fn counts_match(self) -> bool {
        &&& self.num_top_exits == self.exits_on(0, ExitDirection::Top).len()
        &&& self.num_right_exits == self.exits_on(1, ExitDirection::Right).len()
        &&& self.num_bottom_exits == self.exits_on(2, ExitDirection::Bottom).len()
        &&& self.num_left_exits == self.exits_on(3, ExitDirection::Left).len()
    }

    /// The 24 bytes that hold the edges of the room.
    pub closed spec fn edges(&self) -> Seq<u8> {
        self.data@
    }

    /// The packed name of the room.
    pub closed spec fn room_name(&self) -> u16 {
        self.room@
    }

    /// The packed exits on one edge of the room: edge 0 is the top, 1 the
    /// right, 2 the bottom, 3 the left.
    pub open spec fn exits_on(&self, edge: int, direction: ExitDirection) -> Seq<u16> {
        exits_of(edge_tiles(edge_chunk(self.edges(), edge)), direction)
    }

    /// The packed exits of the room: those of the top, the right, the bottom
    /// and the left edge, in this order.
    pub open spec fn all_exits(&self) -> Seq<u16> {
        self.exits_on(0, ExitDirection::Top) + self.exits_on(1, ExitDirection::Right)
            + self.exits_on(2, ExitDirection::Bottom) + self.exits_on(3, ExitDirection::Left)
    }

    /// Stores the edges of a room with the number of exits on each.
    pub fn new_from_compressed_edge_terrain_data(data: RoomEdgeTerrain, room: RoomName) -> (made:
        Self)
        ensures
            made.edges() == data@,
            made.room_name() == room@,
    {
        let exits = RoomExit::get_exits_from_edge_terrain(&data);
        let num_top_exits = exits.0.len();
        let num_right_exits = exits.1.len();
        let num_bottom_exits = exits.2.len();
        let num_left_exits = exits.3.len();

        Self { data, room, num_top_exits, num_right_exits, num_bottom_exits, num_left_exits }
    }

    /// The amount of memory used to store this data, in bytes.
    pub fn memory_size(&self) -> (bytes: usize)
        ensures
            bytes == 24,
    {
        self.data.memory_size()
    }

    /// The exits, if any, along the top edge of the room.
    pub fn top_edge_exits(&self) -> (exits: Vec<RoomExit>)
        ensures
            exit_words(exits@) == self.exits_on(0, ExitDirection::Top),
    {
        let edge = self.data.get_top_edge_terrain();
        assert(edge@ =~= edge_tiles(edge_chunk(self.edges(), 0)));
        RoomExit::get_exits_from_single_edge(&edge, ExitDirection::Top)
    }

    /// The exits, if any, along the right edge of the room.
    pub fn right_edge_exits(&self) -> (exits: Vec<RoomExit>)
        ensures
            exit_words(exits@) == self.exits_on(1, ExitDirection::Right),
    {
        let edge = self.data.get_right_edge_terrain();
        assert(edge@ =~= edge_tiles(edge_chunk(self.edges(), 1)));
        RoomExit::get_exits_from_single_edge(&edge, ExitDirection::Right)
    }

    /// The exits, if any, along the bottom edge of the room.
    pub fn bottom_edge_exits(&self) -> (exits: Vec<RoomExit>)
        ensures
            exit_words(exits@) == self.exits_on(2, ExitDirection::Bottom),
    {
        let edge = self.data.get_bottom_edge_terrain();
        assert(edge@ =~= edge_tiles(edge_chunk(self.edges(), 2)));
        RoomExit::get_exits_from_single_edge(&edge, ExitDirection::Bottom)
    }

    /// The exits, if any, along the left edge of the room.
    pub fn left_edge_exits(&self) -> (exits: Vec<RoomExit>)
        ensures
            exit_words(exits@) == self.exits_on(3, ExitDirection::Left),
    {
        let edge = self.data.get_left_edge_terrain();
        assert(edge@ =~= edge_tiles(edge_chunk(self.edges(), 3)));
        RoomExit::get_exits_from_single_edge(&edge, ExitDirection::Left)
    }

    /// The number of exits along the top edge of the room.
    pub fn num_top_exits(&self) -> (count: usize)
        ensures
            count == self.exits_on(0, ExitDirection::Top).len(),
    {
        proof {
            use_type_invariant(self);
        }
        self.num_top_exits
    }

    /// The number of exits along the right edge of the room.
    pub fn num_right_exits(&self) -> (count: usize)
        ensures
            count == self.exits_on(1, ExitDirection::Right).len(),
    {
        proof {
            use_type_invariant(self);
        }
        self.num_right_exits
    }

    /// The number of exits along the bottom edge of the room.
    pub fn num_bottom_exits(&self) -> (count: usize)
        ensures
            count == self.exits_on(2, ExitDirection::Bottom).len(),
    {
        proof {
            use_type_invariant(self);
        }
        self.num_bottom_exits
    }

    /// The number of exits along the left edge of the room.
    pub fn num_left_exits(&self) -> (count: usize)
        ensures
            count == self.exits_on(3, ExitDirection::Left).len(),
    {
        proof {
            use_type_invariant(self);
        }
        self.num_left_exits
    }

    /// A reference to the underlying edge terrain data for the room.
    pub fn edge_terrain_data(&self) -> (data: &RoomEdgeTerrain)
        ensures
            data@ == self.edges(),
    {
        &self.data
    }

    /// Returns true if the top edge has exits and has a neighbor to the north, false otherwise.
    pub fn connected_to_top_neighbor(&self) -> (connected: bool)
        ensures
            connected == (self.exits_on(0, ExitDirection::Top).len() > 0 && room_at_offset(
                self.room_name(),
                0,
                -1,
            ) is Some),
    {
        proof {
            use_type_invariant(self);
        }
        (self.num_top_exits > 0) && top_room(self.room).is_some()
    }

    /// Returns true if the right edge has exits and has a neighbor to the east, false otherwise.
    pub fn connected_to_right_neighbor(&self) -> (connected: bool)
        ensures
            connected == (self.exits_on(1, ExitDirection::Right).len() > 0 && room_at_offset(
                self.room_name(),
                1,
                0,
            ) is Some),
    {
        proof {
            use_type_invariant(self);
        }
        (self.num_right_exits > 0) && right_room(self.room).is_some()
    }

    /// Returns true if the bottom edge has exits and has a neighbor to the south, false otherwise.
    pub fn connected_to_bottom_neighbor(&self) -> (connected: bool)
        ensures
            connected == (self.exits_on(2, ExitDirection::Bottom).len() > 0 && room_at_offset(
                self.room_name(),
                0,
                1,
            ) is Some),
    {
        proof {
            use_type_invariant(self);
        }
        (self.num_bottom_exits > 0) && bottom_room(self.room).is_some()
    }

    /// Returns true if the left edge has exits and has a neighbor to the west, false otherwise.
    pub fn connected_to_left_neighbor(&self) -> (connected: bool)
        ensures
            connected == (self.exits_on(3, ExitDirection::Left).len() > 0 && room_at_offset(
                self.room_name(),
                -1,
                0,
            ) is Some),
    {
        proof {
            use_type_invariant(self);
        }
        (self.num_left_exits > 0) && left_room(self.room).is_some()
    }

    /// Returns the room exit identified by iterating through edges clockwise (top, right, bottom,
    /// left) and then scanning through each edge linearly (left-to-right, top-to-bottom).
    ///
    /// Returns None if the index is not below the number of exits of the room.
    pub fn get_exit_by_index(&self, index: usize) -> (found: Option<RoomExit>)
        ensures
            match found {
                Some(exit) => index < self.all_exits().len() && exit@ == self.all_exits()[index as int],
                None => index >= self.all_exits().len(),
            },
    {
        proof {
            use_type_invariant(self);
            lemma_stretches_in_range(edge_tiles(edge_chunk(self.edges(), 0)), 50);
            lemma_stretches_in_range(edge_tiles(edge_chunk(self.edges(), 1)), 50);
            lemma_stretches_in_range(edge_tiles(edge_chunk(self.edges(), 2)), 50);
            lemma_stretches_in_range(edge_tiles(edge_chunk(self.edges(), 3)), 50);
        }
        let total_num_exits = self.num_top_exits + self.num_right_exits + self.num_bottom_exits
            + self.num_left_exits;
        if total_num_exits == 0 {
            // If there aren't any exits, no index is valid
            None
        } else {
            let max_index = total_num_exits - 1;
            if index > max_index {
                // Index references an exit that doesn't exist
                None
            } else {
                // The index is valid, find the exit
                let min_idx_top: usize = 0;
                let max_idx_top = if self.num_top_exits > 0 {
                    min_idx_top + self.num_top_exits - 1
                } else {
                    min_idx_top
                };

                let min_idx_right = if self.num_top_exits > 0 {
                    max_idx_top + 1
                } else {
                    max_idx_top
                };
                let max_idx_right = if self.num_right_exits > 0 {
                    min_idx_right + self.num_right_exits - 1
                } else {
                    min_idx_right
                };

                let min_idx_bottom = if self.num_right_exits > 0 {
                    max_idx_right + 1
                } else {
                    max_idx_right
                };
                let max_idx_bottom = if self.num_bottom_exits > 0 {
                    min_idx_bottom + self.num_bottom_exits - 1
                } else {
                    min_idx_bottom
                };

                let min_idx_left = if self.num_bottom_exits > 0 {
                    max_idx_bottom + 1
                } else {
                    max_idx_bottom
                };

                if self.num_top_exits > 0 {
                    if index <= max_idx_top {
                        let exits = self.top_edge_exits();
                        let local_index = index - min_idx_top;
                        assert(exit_words(exits@)[local_index as int] == exits@[local_index as int]@);
                        return Some(exits[local_index]);
                    }
                }

                if self.num_right_exits > 0 {
                    if index <= max_idx_right {
                        let exits = self.right_edge_exits();
                        let local_index = index - min_idx_right;
                        assert(exit_words(exits@)[local_index as int] == exits@[local_index as int]@);
                        return Some(exits[local_index]);
                    }
                }

                if self.num_bottom_exits > 0 {
                    if index <= max_idx_bottom {
                        let exits = self.bottom_edge_exits();
                        let local_index = index - min_idx_bottom;
                        assert(exit_words(exits@)[local_index as int] == exits@[local_index as int]@);
                        return Some(exits[local_index]);
                    }
                }

                let exits = self.left_edge_exits();
                let local_index = index - min_idx_left;
                assert(exit_words(exits@)[local_index as int] == exits@[local_index as int]@);
                Some(exits[local_index])
            }
        }
    }

    /// The room this data is for.
    pub fn room(&self) -> (room: RoomName)
        ensures
            room@ == self.room_name(),
    {
        self.room
    }
}

/// Utility function to return the room above the given room, if it exists.
pub fn top_room(room: RoomName) -> (above: Option<RoomName>)
    ensures
        match room_at_offset(room@, 0, -1) {
            Some(packed) => above matches Some(found) && found@ == packed,
            None => above is None,
        },
{
    room.checked_add((0, -1))
}

/// Utility function to return the room to the right of the given room, if it exists.
pub fn right_room(room: RoomName) -> (right: Option<RoomName>)
    ensures
        match room_at_offset(room@, 1, 0) {
            Some(packed) => right matches Some(found) && found@ == packed,
            None => right is None,
        },
{
    room.checked_add((1, 0))
}

/// Utility function to return the room below the given room, if it exists.
pub fn bottom_room(room: RoomName) -> (below: Option<RoomName>)
    ensures
        match room_at_offset(room@, 0, 1) {
            Some(packed) => below matches Some(found) && found@ == packed,
            None => below is None,
        },
{
    room.checked_add((0, 1))
}

/// Utility function to return the room to the left of the given room, if it exists.
pub fn left_room(room: RoomName) -> (left: Option<RoomName>)
    ensures
        match room_at_offset(room@, -1, 0) {
            Some(packed) => left matches Some(found) && found@ == packed,
            None => left is None,
        },
{
    room.checked_add((-1, 0))
}

} // verus!
