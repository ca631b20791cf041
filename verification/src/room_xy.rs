//! Positions inside a room and their row-major linear index.

use vstd::prelude::*;

verus! {

/// The number of tiles along one side of a room.
pub const ROOM_SIZE: u8 = 50;

/// [`ROOM_SIZE`] as a `usize`.
pub const ROOM_USIZE: usize = 50;

/// The number of tiles in a room.
pub const ROOM_AREA: usize = 2500;

/// The row-major linear index of the tile in column `x` of row `y`.
pub open spec fn linear_index(x: int, y: int) -> int {
    y * 50 + x
}

/// Whether column `x` of row `y` lies on the outer ring of the room.
pub open spec fn on_room_edge(x: int, y: int) -> bool {
    x == 0 || x == 49 || y == 0 || y == 49
}

/// Whether column `x` of row `y` is one of the four corners of the room.
pub open spec fn on_room_corner(x: int, y: int) -> bool {
    (x == 0 || x == 49) && (y == 0 || y == 49)
}

/// A coordinate that a position was asked to take although it lies outside
/// the room.
#[derive(Debug, Clone, Copy)]
pub struct OutOfBoundsError(pub u8);

/// A position inside a room: a column and a row, each below [`ROOM_SIZE`].
#[derive(Debug, Clone, Copy)]
pub struct RoomXY {
    x: u8,
    y: u8,
}

impl RoomXY {
    #[verifier::type_invariant]
    spec fn inside_room(self) -> bool {
        self.x < 50 && self.y < 50
    }

    /// The column of this position.
    pub closed spec fn col(self) -> int {
        self.x as int
    }

    /// The row of this position.
    pub closed spec fn row(self) -> int {
        self.y as int
    }

    /// The row-major linear index of this position.
    pub open spec fn index(self) -> int {
        linear_index(self.col(), self.row())
    }

    /// The position in column `x` of row `y`, or the first of the two
    /// coordinates that lies outside the room.
    pub fn checked_new(x: u8, y: u8) -> (made: Result<RoomXY, OutOfBoundsError>)
        ensures
            match made {
                Ok(xy) => x < 50 && y < 50 && xy.col() == x && xy.row() == y,
                Err(e) => if x >= 50 {
                    e.0 == x
                } else {
                    y >= 50 && e.0 == y
                },
            },
    {
        if x >= ROOM_SIZE {
            Err(OutOfBoundsError(x))
        } else if y >= ROOM_SIZE {
            Err(OutOfBoundsError(y))
        } else {
            Ok(RoomXY { x, y })
        }
    }

    /// The column of this position.
    pub fn x(&self) -> (x: u8)
        ensures
            x == self.col(),
            x < 50,
    {
        proof {
            use_type_invariant(self);
        }
        self.x
    }

    /// The row of this position.
    pub fn y(&self) -> (y: u8)
        ensures
            y == self.row(),
            y < 50,
    {
        proof {
            use_type_invariant(self);
        }
        self.y
    }

    /// Whether this position lies on the outer ring of the room.
    pub fn is_room_edge(&self) -> (on_edge: bool)
        ensures
            on_edge == on_room_edge(self.col(), self.row()),
    {
        proof {
            use_type_invariant(self);
        }
        is_room_edge(self.x, self.y)
    }
}

/// The row-major linear index of a position.
pub fn xy_to_terrain_index(xy: RoomXY) -> (index: usize)
    ensures
        index == xy.index(),
        index < 2500,
        index % 50 == xy.col(),
        index / 50 == xy.row(),
{
    terrain_index_of(xy.x(), xy.y())
}

/// The position that a row-major linear index stands for.
pub fn terrain_index_to_xy(index: usize) -> (xy: RoomXY)
    requires
        index < 2500,
    ensures
        xy.col() == index % 50,
        xy.row() == index / 50,
        xy.index() == index,
{
    let (x, y) = terrain_index_coordinates(index);
    RoomXY { x, y }
}

/// Calls `screeps::local::xy_to_terrain_index`, which multiplies the row by
/// the room size and adds the column.
#[verifier::external_body]
fn terrain_index_of(x: u8, y: u8) -> (index: usize)
    requires
        x < 50,
        y < 50,
    ensures
        index == linear_index(x as int, y as int),
{
    screeps::local::xy_to_terrain_index(screeps::local::RoomXY::checked_new(x, y).unwrap_or_default())
}

/// Calls `screeps::local::terrain_index_to_xy`, which takes the remainder of
/// the index by the room size as the column and the quotient as the row, and
/// panics on an index that is not below the room's area.
#[verifier::external_body]
fn terrain_index_coordinates(index: usize) -> (at: (u8, u8))
    requires
        index < 2500,
    ensures
        at.0 == index % 50,
        at.1 == index / 50,
{
    let xy = screeps::local::terrain_index_to_xy(index);
    (xy.x.u8(), xy.y.u8())
}

/// Calls `screeps::local::RoomXY::is_room_edge`, which holds where either
/// coordinate is 0 or 49.
#[verifier::external_body]
fn is_room_edge(x: u8, y: u8) -> (on_edge: bool)
    requires
        x < 50,
        y < 50,
    ensures
        on_edge == on_room_edge(x as int, y as int),
{
    screeps::local::RoomXY::checked_new(x, y).unwrap_or_default().is_room_edge()
}

} // verus!
