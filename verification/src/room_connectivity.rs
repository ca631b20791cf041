//! How a room connects to the rooms around it.

pub mod exit;
