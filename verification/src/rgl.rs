use vstd::prelude::*;
use crate::assoc::{assoc, find_key};

verus! {

/// A team as the RGL API describes it.
pub struct Team {
    pub id: i32,
    pub tag: String,
    pub name: String,
    pub status: String,
    pub season_id: i32,
    pub divison_id: i32,
    pub division_name: String,
}

/// A player's RGL profile: the current team per format ("sixes", "highlander", ...),
/// where the player has one, and the player's name.
pub struct Player {
    pub current_teams: Vec<(String, Option<Team>)>,
    pub name: String,
}

impl Player {
    /// The id of the player's current sixes team, if the profile names one.
    pub fn sixes_team_id(&self) -> (id: Option<i32>)
        ensures
            id == (match assoc(self.current_teams@, "sixes"@) {
                Some(Some(t)) => Some(t.id),
                _ => None,
            }),
    {
        match find_key(&self.current_teams, "sixes") {
            Some(i) => match &self.current_teams[i].1 {
                Some(t) => Some(t.id),
                None => None,
            },
            None => None,
        }
    }
}

} // verus!
