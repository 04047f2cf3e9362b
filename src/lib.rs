//! Character, enemy and battle rules of a small turn-based text adventure.
//!
//! Every random value the rules need is drawn from a generator the caller owns
//! and hands in, so a seeded generator replays a game exactly.
pub mod battle;
pub mod character;
pub mod dice;
pub mod enemy;
pub mod item;
