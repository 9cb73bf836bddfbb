//! Counts that the service keeps of a player.

use crate::floor::Floor;
use std::collections::HashMap;
use vstd::prelude::*;

verus! {

/// How far a player has brought one character.
#[derive(Debug, Clone, Copy)]
pub struct Stats {
    pub level: usize,
    pub wins: usize,
}

/// How many matches a player has played, and how many of them won.
#[derive(Debug, Clone, Copy)]
pub struct MatchStats {
    pub total: usize,
    pub wins: usize,
}

/// What the service tells of a player.
#[derive(Debug, Clone)]
pub struct User {
    pub user_id: String,
    pub name: String,
    pub comment: String,
    pub floor: Floor,
    pub stats: MatchStats,
    pub celestial_stats: MatchStats,
    /// How far the player has brought each character, by the character's
    /// byte.
    pub char_stats: HashMap<u8, Stats>,
}

} // verus!
