//! Descriptions of levels, level groups and their music, and score records.

use vstd::prelude::*;

verus! {

/// Milliseconds in a minute.
pub const MINUTE_MS: u64 = 60000;

/// How lit the player currently is.
#[derive(Debug, Clone, Copy, PartialEq, Eq, Structural)]
pub enum LitState {
    Dark,
    Light,
    Danger,
}

#[derive(Debug, Clone)]
pub struct MusicMeta {
    /// Beats per minute.
    pub bpm: u64,
    pub author: String,
}

impl MusicMeta {
    /// The duration of one beat, in milliseconds (rounded down).
    pub fn beat_time(&self) -> (r: u64)
        requires
            self.bpm > 0,
        ensures
            r == MINUTE_MS / self.bpm,
    {
        MINUTE_MS / self.bpm
    }
}

#[derive(Debug, Clone)]
pub struct GroupMeta {
    pub name: String,
    pub music: MusicMeta,
}

#[derive(Debug, Clone)]
pub struct LevelMeta {
    /// Zero for a level not yet uploaded.
    pub id: i64,
    pub name: String,
    pub author: String,
}

#[derive(Debug, Clone)]
pub struct ScoreRecord {
    pub player_id: i32,
    pub score: i32,
    pub extra_info: Option<String>,
}

} // verus!
