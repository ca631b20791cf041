//! Run length encoding: ordered sequences of runs that are searched by
//! bisection.

pub mod generic_rle;
pub mod rle_terrain;
pub mod runs;
