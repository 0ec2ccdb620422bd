//! Rules engine of a single-player poker-scoring card game: a hand of
//! 1 to 5 played cards is classified into a poker-hand category together
//! with the set of card positions that score, and a chip/multiplier score
//! is computed from the category's base values, the attributed cards'
//! face values, the active blind's debuff, and the player's ordered
//! collection of passive joker abilities.

pub mod blinds;
pub mod cards;
pub mod game;
pub mod hands;
pub mod jokers;
pub mod scoring;
