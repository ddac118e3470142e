use vstd::prelude::*;

verus! {

/// A demo as demos.tf describes it.
pub struct DemoSerialized {
    pub id: i32,
    pub url: String,
    pub name: String,
    pub server: String,
    pub duration: i32,
    pub nick: String,
    pub map: String,
    pub red: String,
    pub blue: String,
    pub red_score: i32,
    pub blue_score: i32,
    pub player_count: i32,
    pub uploader: i32,
    pub hash: String,
    pub backend: String,
    pub path: String,
}

/// A log matched with one of its demos, as queued for the bomb-attempt import.
pub struct MatchedDemoMessage {
    pub log_id: i32,
    pub demo: DemoSerialized,
}

impl DemoSerialized {
    /// Whether the demo's file was deleted (its backend is "deleted").
    pub fn is_deleted(&self) -> (b: bool)
        ensures
            b == (self.backend@ == "deleted"@),
    {
        let deleted: String = "deleted".to_owned();
        self.backend == deleted
    }
}

} // verus!
