//! Names of rooms on the world map.

use vstd::prelude::*;

verus! {

/// The packed name of the room that lies `dx` rooms to the east and `dy`
/// rooms to the south of the room with the packed name `packed`, if the world
/// map reaches that far. A packed name holds the column of the room on the map
/// in its high byte and the row in its low byte.
pub open spec fn room_at_offset(packed: u16, dx: int, dy: int) -> Option<u16> {
    let x = packed / 256 + dx;
    let y = packed % 256 + dy;
    if 0 <= x < 256 && 0 <= y < 256 {
        Some((x * 256 + y) as u16)
    } else {
        None
    }
}

/// The name of a room, held as a packed integer: the column of the room on
/// the world map in the high byte, and the row in the low byte.
#[derive(Debug, Clone, Copy, PartialEq, Eq, Structural)]
pub struct RoomName {
    packed: u16,
}

impl View for RoomName {
    type V = u16;

    /// The packed name.
    closed spec fn view(&self) -> u16 {
        self.packed
    }
}

impl RoomName {
    /// The room with the given packed name.
    pub fn from_packed(packed: u16) -> (room: Self)
        ensures
            room@ == packed,
    {
        RoomName { packed }
    }

    /// The packed name of the room.
    pub fn packed_repr(&self) -> (packed: u16)
        ensures
            packed == self@,
    {
        self.packed
    }

    /// The room that lies `offset.0` rooms to the east and `offset.1` rooms to
    /// the south of this one, if the world map reaches that far.
    pub fn checked_add(&self, offset: (i32, i32)) -> (moved: Option<RoomName>)
        ensures
            match room_at_offset(self@, offset.0 as int, offset.1 as int) {
                Some(packed) => moved matches Some(room) && room@ == packed,
                None => moved is None,
            },
    {
        match room_checked_add(self.packed, offset.0, offset.1) {
            Some(packed) => Some(RoomName { packed }),
            None => None,
        }
    }
}

/// Calls `checked_add` of `screeps::RoomName` on the room with the packed
/// name `packed`. It adds the offsets to the column and the row of the room,
/// which are the two bytes of the packed name, and gives the room there if
/// both sums lie from 0 to 255.
#[verifier::external_body]
fn room_checked_add(packed: u16, dx: i32, dy: i32) -> (moved: Option<u16>)
    ensures
        moved == room_at_offset(packed, dx as int, dy as int),
{
    match screeps::RoomName::from_packed(packed).checked_add((dx, dy)) {
        Some(room) => Some(room.packed_repr()),
        None => None,
    }
}

} // verus!
