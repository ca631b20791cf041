[package]
name = "screeps-map-processing"
version = "0.1.0"
edition = "2021"
publish = false

[dependencies]
rle = "*"
rusqlite = "*"
screeps-game-api = "*"
screeps-game-utils = "*"
