//! A four-in-a-row game played with cookies and milk on a walled 4x4 field.
//!
//! The board is a 5x6 grid whose outer columns and last row are walls. Pieces
//! are dropped into one of the four playable columns and come to rest on the
//! lowest empty cell. A game ends when one of the ten lines of four is held by
//! a single team, or when the top row has no empty cell left.

pub mod item;
pub mod grid;
pub mod coins;
pub mod text;
pub mod state;
pub mod game;
pub mod laws;
