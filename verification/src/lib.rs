//! Tiles of Riichi Mahjong and the enumeration of the waiting shapes of a
//! concealed hand.

pub mod game;
pub mod hand;
pub mod tile;
