//! Terrain classes and the two-bit tags that stand for them in storage.

use vstd::prelude::*;
use vstd::laws_eq::obeys_concrete_eq;
use vstd::std_specs::cmp::PartialEqSpecImpl;

verus! {

/// The movement-cost class of a single tile.
#[derive(Debug, Clone, Copy)]
pub enum Terrain {
    Plain,
    Wall,
    Swamp,
}

impl PartialEq for Terrain {
    fn eq(&self, other: &Self) -> (same: bool) {
        match self {
            Terrain::Plain => match other {
                Terrain::Plain => true,
                _ => false,
            },
            Terrain::Wall => match other {
                Terrain::Wall => true,
                _ => false,
            },
            Terrain::Swamp => match other {
                Terrain::Swamp => true,
                _ => false,
            },
        }
    }
}

impl Eq for Terrain {

}

impl PartialEqSpecImpl for Terrain {
    open spec fn obeys_eq_spec() -> bool {
        true
    }

    open spec fn eq_spec(&self, other: &Self) -> bool {
        *self == *other
    }
}

/// The terrain class that a stored tag stands for. Only the two low bits of
/// `tag` count: `00` is a plain, `01` a wall, `10` a swamp, and `11`, wall and
/// swamp at once, is a wall.
pub open spec fn terrain_of_tag(tag: u8) -> Terrain {
    if tag & 0b11 == 0b00 {
        Terrain::Plain
    } else if tag & 0b11 == 0b10 {
        Terrain::Swamp
    } else {
        Terrain::Wall
    }
}

/// The tag under which a terrain class is stored.
pub open spec fn tag_of_terrain(terrain: Terrain) -> u8 {
    match terrain {
        Terrain::Plain => 0,
        Terrain::Wall => 1,
        Terrain::Swamp => 2,
    }
}

/// What an edge tile holds once stored with one bit: walls stay walls,
/// anything else becomes a plain.
pub open spec fn edge_terrain(terrain: Terrain) -> Terrain {
    if terrain is Wall {
        Terrain::Wall
    } else {
        Terrain::Plain
    }
}

impl Terrain {
    /// Decodes the two low bits of `tag`.
    pub fn from_tag(tag: u8) -> (terrain: Terrain)
        ensures
            terrain == terrain_of_tag(tag),
    {
        let low: u8 = tag & 0b11;
        if low == 0b00 {
            Terrain::Plain
        } else if low == 0b10 {
            Terrain::Swamp
        } else {
            Terrain::Wall
        }
    }
}

/// The executable equality of terrain classes is their equality.
pub proof fn lemma_terrain_obeys_concrete_eq()
    ensures
        obeys_concrete_eq::<Terrain>(),
{
    reveal(obeys_concrete_eq);
}

/// A tag stands for the same terrain class as its two low bits do.
pub proof fn lemma_terrain_of_low_bits(tag: u8)
    ensures
        terrain_of_tag(tag & 0b11) == terrain_of_tag(tag),
{
    assert((tag & 0b11) & 0b11 == tag & 0b11) by (bit_vector);
}

} // verus!
