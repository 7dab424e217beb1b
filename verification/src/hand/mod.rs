//! Groups of tiles and the arrangements of a hand.

pub mod group;
pub mod hand_arrangement;
pub mod laws;
pub mod meld;
pub mod rules;
pub mod wait;
