//! Procedural generation of tile-based dungeon levels.
//!
//! A level is a rectangular grid of tiles, each either floor or wall. Two
//! generation strategies are offered: rooms joined by L-shaped corridors, and
//! a scatter of walls over an open floor. Every function carries a contract,
//! stated over mathematical models of the grid and of the room list.

pub mod carve;
pub mod config;
pub mod dice;
pub mod entities;
pub mod error;
pub mod generator;
pub mod grid;
pub mod laws;
pub mod layout;
pub mod level;
pub mod rect;
pub mod rooms;
pub mod splatter;
pub mod tile;
