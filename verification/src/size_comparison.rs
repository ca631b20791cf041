//! The choice of the encoding in which a room takes the least memory.

use vstd::prelude::*;

verus! {

/// The encodings among which a room is stored in the smallest.
#[derive(Debug, Clone, Copy, PartialEq, Eq, Structural)]
pub enum Encoding {
    /// The bit-packed array of the whole room.
    Compressed,
    /// The sequence of packed runs.
    RlePacked,
    /// The sequence of packed runs of the tiles inside the room, with the
    /// bit-packed array of its edges.
    RleWildcard,
}

/// The size that belongs to an encoding among the three sizes of a room.
pub open spec fn size_in(encoding: Encoding, compressed: int, rle_packed: int, rle_wildcard: int) -> int {
    match encoding {
        Encoding::Compressed => compressed,
        Encoding::RlePacked => rle_packed,
        Encoding::RleWildcard => rle_wildcard,
    }
}

/// The encoding to store a room in: the bit-packed array where it is smaller
/// than both sequences of runs; otherwise the sequence of packed runs where it
/// is smaller than the one with wildcards; otherwise the one with wildcards.
pub open spec fn optimal(compressed: int, rle_packed: int, rle_wildcard: int) -> Encoding {
    if compressed < rle_packed && compressed < rle_wildcard {
        Encoding::Compressed
    } else if rle_packed < rle_wildcard {
        Encoding::RlePacked
    } else {
        Encoding::RleWildcard
    }
}

/// No encoding is smaller than the one that is chosen.
pub proof fn lemma_optimal_is_smallest(compressed: int, rle_packed: int, rle_wildcard: int)
    ensures
        size_in(optimal(compressed, rle_packed, rle_wildcard), compressed, rle_packed, rle_wildcard)
            <= compressed,
        size_in(optimal(compressed, rle_packed, rle_wildcard), compressed, rle_packed, rle_wildcard)
            <= rle_packed,
        size_in(optimal(compressed, rle_packed, rle_wildcard), compressed, rle_packed, rle_wildcard)
            <= rle_wildcard,
{
}

/// Chooses the encoding to store a room in, given the memory that the room
/// takes in each.
pub fn optimal_encoding(compressed_size: usize, rle_packed_size: usize, rle_wildcard_size: usize) -> (encoding:
    Encoding)
    ensures
        encoding == optimal(compressed_size as int, rle_packed_size as int, rle_wildcard_size as int),
{
    if compressed_size < rle_packed_size && compressed_size < rle_wildcard_size {
        Encoding::Compressed
    } else {
        if rle_packed_size < rle_wildcard_size {
            Encoding::RlePacked
        } else {
            Encoding::RleWildcard
        }
    }
}

} // verus!
