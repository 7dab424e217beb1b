//! Notions of the game that are not tiles by themselves.

pub mod wind;
