use vstd::prelude::*;
use vstd::string::StringExecFns;
use crate::ids::{join_strings, join_with, push_i32};
use crate::log::LogSerialized;
use crate::steam_id::{steam3_convertible, steam3_converts, steam3_fields, steam3_id64, steam3_id_text};
use crate::text::{decimal, decimal_i32};

verus! {

/// The logs.tf search for logs that all the given players (comma-separated) played.
pub fn log_search_url(players: &str) -> (u: String)
    ensures
        u@ == "http://logs.tf/api/v1/log?player="@ + players@,
{
    let mut u: String = "http://logs.tf/api/v1/log?player=".to_owned();
    u.append(players);
    u
}

/// The logs.tf API address of a log.
pub fn log_url(log_id: i32) -> (u: String)
    ensures
        u@ == "http://logs.tf/api/v1/log/"@ + decimal_i32(log_id),
{
    let mut u: String = "http://logs.tf/api/v1/log/".to_owned();
    push_i32(&mut u, log_id);
    u
}

/// The logs.tf JSON address of a log.
pub fn log_json_url(log_id: i32) -> (u: String)
    ensures
        u@ == "http://logs.tf/json/"@ + decimal_i32(log_id),
{
    let mut u: String = "http://logs.tf/json/".to_owned();
    push_i32(&mut u, log_id);
    u
}

/// The RGL profile of a player.
pub fn rgl_profile_url(player_id: &str) -> (u: String)
    ensures
        u@ == "https://api.rgl.gg/v0/profile/"@ + player_id@,
{
    let mut u: String = "https://api.rgl.gg/v0/profile/".to_owned();
    u.append(player_id);
    u
}

/// The demos.tf search for 6v6 demos of a map with the given players.
pub fn demo_search_url(map: &str, players: &str) -> (u: String)
    ensures
        u@ == "https://api.demos.tf/demos?map="@ + map@ + "&type=6v6&players[]="@ + players@,
{
    let mut u: String = "https://api.demos.tf/demos?map=".to_owned();
    u.append(map);
    u.append("&type=6v6&players[]=");
    u.append(players);
    u
}

/// The demos.tf API address of a demo.
pub fn demo_info_url(demo_id: &str) -> (u: String)
    ensures
        u@ == "https://api.demos.tf/demos/"@ + demo_id@,
{
    let mut u: String = "https://api.demos.tf/demos/".to_owned();
    u.append(demo_id);
    u
}

/// Every player of the log has a steam3 id that `SteamID::from_steam3` reads.
pub open spec fn players_convert(log: &LogSerialized) -> bool {
    forall|i: int| 0 <= i < log.players@.len() ==> {
        &&& steam3_converts((#[trigger] log.players@[i]).0@)
        &&& steam3_fields(log.players@[i].0@) is Some
    }
}

/// Whether `demo_players_arg` can be made of the log.
pub fn players_convertible(log: &LogSerialized) -> (b: bool)
    ensures
        b == players_convert(log),
{
    let mut i: usize = 0;
    while i < log.players.len()
        invariant
            0 <= i <= log.players@.len(),
            forall|j: int| 0 <= j < i ==> {
                &&& steam3_converts((#[trigger] log.players@[j]).0@)
                &&& steam3_fields(log.players@[j].0@) is Some
            },
        decreases log.players@.len() - i,
    {
        let id = log.players[i].0.as_str();
        if !steam3_convertible(id) {
            return false;
        }
        if crate::steam_id::steam3_id(id).is_none() {
            return false;
        }
        i = i + 1;
    }
    true
}

/// The 64-bit ids of the log's players, in decimal.
pub open spec fn player_id_texts(log: &LogSerialized) -> Seq<Seq<char>> {
    log.players@.map_values(|p: (String, crate::log::PlayerStats)| decimal(steam3_id64(p.0@)->0 as nat))
}

/// The players part of a demos.tf search: the 64-bit ids of the log's players joined
/// with "&players[]=".
pub fn demo_players_arg(log: &LogSerialized) -> (arg: String)
    requires
        players_convert(log),
    ensures
        arg@ == join_with(player_id_texts(log), "&players[]="@),
{
    let mut ids: Vec<String> = Vec::new();
    let mut i: usize = 0;
    while i < log.players.len()
        invariant
            0 <= i <= log.players@.len(),
            players_convert(log),
            ids.deep_view() =~= player_id_texts(log).take(i as int),
        decreases log.players@.len() - i,
    {
        let id = log.players[i].0.as_str();
        assert(steam3_converts(log.players@[i as int].0@));
        let text = match steam3_id_text(id) {
            Some(t) => t,
            None => String::new(),
        };
        let ghost before = ids@;
        ids.push(text);
        assert(ids@ == before.push(text));
        assert(ids.deep_view() =~= before.map_values(|s: String| s.deep_view()).push(text@));
        assert(player_id_texts(log).take(i + 1) =~= player_id_texts(log).take(i as int).push(player_id_texts(log)[i as int]));
        i = i + 1;
    }
    assert(player_id_texts(log).take(log.players@.len() as int) =~= player_id_texts(log));
    join_strings(&ids, "&players[]=")
}

} // verus!
