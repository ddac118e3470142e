use vstd::prelude::*;
use crate::assoc::{assoc, find_key};

verus! {

/// One player's line of a log.
pub struct PlayerStats {
    pub team: String,
    pub class_stats: Vec<ClassStats>,
    pub kills: i16,
    pub deaths: i16,
    pub assists: i16,
    pub dmg: i32,
    pub dmg_real: i32,
    pub dt: i32,
    pub dt_real: i32,
    pub hr: i32,
    pub ubers: i16,
    pub drops: i16,
    pub headshots: i16,
    pub headshots_hit: i16,
}

/// One class a player played in a log. `kind` is the class's name.
pub struct ClassStats {
    pub kind: String,
    pub kills: i16,
    pub assists: i16,
    pub deaths: i16,
    pub dmg: i32,
    pub total_time: i32,
}

/// One team's line of a log.
#[derive(Clone, Copy, Debug, PartialEq, Eq, Structural)]
pub struct TeamStats {
    pub score: i16,
    pub kills: i16,
    pub deaths: i16,
    pub dmg: i32,
    pub charges: i16,
    pub drops: i8,
    pub firstcaps: i8,
    pub caps: i8,
}

/// A whole log: the teams by name ("Red", "Blue") and the players by steam3 id.
pub struct LogSerialized {
    pub version: i8,
    pub teams: Vec<(String, TeamStats)>,
    pub length: i16,
    pub players: Vec<(String, PlayerStats)>,
    pub info: LogInfo,
}

/// The summary of a log that a log search returns.
pub struct LogView {
    pub date: i32,
    pub id: i32,
    pub map: String,
    pub players: i32,
    pub title: String,
    pub views: i32,
}

/// The answer to a log search.
pub struct SearchResult {
    pub logs: Vec<LogView>,
    pub results: i32,
    pub success: bool,
    pub total: i32,
}

pub struct LogInfo {
    pub map: String,
    pub date: i32,
}

impl LogSerialized {
    /// The stats of the team named `name`.
    pub fn team(&self, name: &str) -> (t: Option<TeamStats>)
        ensures
            t == assoc(self.teams@, name@),
    {
        match find_key(&self.teams, name) {
            Some(i) => Some(self.teams[i].1),
            None => None,
        }
    }
}

} // verus!
