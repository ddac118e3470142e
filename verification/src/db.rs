use vstd::prelude::*;
use crate::assoc::assoc;
use crate::attempt::{BombAttempt, BombState};
use crate::log::{LogSerialized, PlayerStats};

verus! {

/// A log matched with a demo, as the `connected_demos` view lists it.
pub struct ConnectedDemo {
    pub name: Option<String>,
    pub url: Option<String>,
    pub log_id: i32,
    pub id: Option<i32>,
    pub map: String,
}

/// The demos that have a demo id, in order.
pub open spec fn with_demo_id(s: Seq<ConnectedDemo>) -> Seq<ConnectedDemo>
    decreases s.len(),
{
    if s.len() == 0 {
        s
    } else if s[0].id is Some {
        seq![s[0]] + with_demo_id(s.drop_first())
    } else {
        with_demo_id(s.drop_first())
    }
}

/// Whether a connected demo has a demo id.
pub open spec fn has_demo_id() -> spec_fn(ConnectedDemo) -> bool {
    |d: ConnectedDemo| d.id is Some
}

/// The demos kept are exactly those with a demo id, in their order.
pub proof fn lemma_kept_demos_have_ids(s: Seq<ConnectedDemo>)
    ensures
        with_demo_id(s) == s.filter(has_demo_id()),
    decreases s.len(),
{
    reveal(Seq::filter);
    if s.len() > 0 {
        let rest = s.drop_first();
        lemma_kept_demos_have_ids(rest);
        assert(s =~= seq![s[0]] + rest);
        Seq::filter_distributes_over_add(seq![s[0]], rest, has_demo_id());
        assert(seq![s[0]].drop_last() =~= Seq::<ConnectedDemo>::empty());
        assert(seq![s[0]].last() == s[0]);
        assert(seq![s[0]].drop_last().filter(has_demo_id()) == seq![s[0]].drop_last());
        if s[0].id is Some {
            assert(seq![s[0]].filter(has_demo_id()) =~= seq![s[0]]);
        } else {
            assert(seq![s[0]].filter(has_demo_id()) =~= Seq::<ConnectedDemo>::empty());
            assert(Seq::<ConnectedDemo>::empty() + rest.filter(has_demo_id()) =~= rest.filter(has_demo_id()));
        }
    }
}

/// Keeps the demos that have a demo id, in order.
pub fn demos_with_id(demos: Vec<ConnectedDemo>) -> (kept: Vec<ConnectedDemo>)
    ensures
        kept@ == with_demo_id(demos@),
{
    let ghost all = demos@;
    let mut rest = demos;
    let mut kept: Vec<ConnectedDemo> = Vec::new();
    while rest.len() > 0
        invariant
            kept@ + with_demo_id(rest@) == with_demo_id(all),
        decreases rest@.len(),
    {
        let ghost before = rest@;
        let d = rest.remove(0);
        assert(before.drop_first() =~= rest@);
        if d.id.is_some() {
            let ghost k = kept@;
            kept.push(d);
            assert(k.push(d) + with_demo_id(rest@) =~= k + (seq![d] + with_demo_id(rest@)));
        }
    }
    assert(kept@ + with_demo_id(rest@) =~= kept@);
    kept
}

/// A row of the `log` table.
pub struct LogRow {
    pub log_id: i32,
    pub unix_timestamp: i32,
    pub map: String,
    pub red_team_id: i32,
    pub blu_team_id: i32,
    pub red_team_score: i32,
    pub blu_team_score: i32,
}

/// The log has a "Red" and a "Blue" team.
pub open spec fn has_both_teams(log: &LogSerialized) -> bool {
    assoc(log.teams@, "Red"@) is Some && assoc(log.teams@, "Blue"@) is Some
}

/// Whether `log_row` can be made of the log.
pub fn log_has_both_teams(log: &LogSerialized) -> (b: bool)
    ensures
        b == has_both_teams(log),
{
    log.team("Red").is_some() && log.team("Blue").is_some()
}

/// The `log` row of a log: its id, date and map, the two team ids, and the two scores.
pub fn log_row(log_id: i32, teams: (i32, i32), log: &LogSerialized) -> (row: LogRow)
    requires
        has_both_teams(log),
    ensures
        row.log_id == log_id,
        row.unix_timestamp == log.info.date,
        row.map@ == log.info.map@,
        row.red_team_id == teams.0,
        row.blu_team_id == teams.1,
        row.red_team_score == assoc(log.teams@, "Red"@)->0.score as i32,
        row.blu_team_score == assoc(log.teams@, "Blue"@)->0.score as i32,
{
    let red = match log.team("Red") {
        Some(t) => t.score as i32,
        None => 0,
    };
    let blu = match log.team("Blue") {
        Some(t) => t.score as i32,
        None => 0,
    };
    LogRow {
        log_id,
        unix_timestamp: log.info.date,
        map: log.info.map.clone(),
        red_team_id: teams.0,
        blu_team_id: teams.1,
        red_team_score: red,
        blu_team_score: blu,
    }
}

/// A row of the `player_stats` table.
#[derive(Clone, Copy, Debug, PartialEq, Eq, Structural)]
pub struct PlayerStatsRow {
    pub log_id: i32,
    pub player_steamid64: i64,
    pub kills: i32,
    pub deaths: i32,
    pub dmg: i32,
    pub dmg_real: i32,
    pub dt: i32,
    pub dt_real: i32,
    pub hr: i32,
    pub ubers: i32,
    pub drops: i32,
    pub headshots: i32,
    pub headshots_hit: i32,
}

/// The `player_stats` row of one player of a log.
pub fn player_stats_row(log_id: i32, player_id: i64, stats: &PlayerStats) -> (row: PlayerStatsRow)
    ensures
        row == (PlayerStatsRow {
            log_id,
            player_steamid64: player_id,
            kills: stats.kills as i32,
            deaths: stats.deaths as i32,
            dmg: stats.dmg,
            dmg_real: stats.dmg_real,
            dt: stats.dt,
            dt_real: stats.dt_real,
            hr: stats.hr,
            ubers: stats.ubers as i32,
            drops: stats.drops as i32,
            headshots: stats.headshots as i32,
            headshots_hit: stats.headshots_hit as i32,
        }),
{
    PlayerStatsRow {
        log_id,
        player_steamid64: player_id,
        kills: stats.kills as i32,
        deaths: stats.deaths as i32,
        dmg: stats.dmg,
        dmg_real: stats.dmg_real,
        dt: stats.dt,
        dt_real: stats.dt_real,
        hr: stats.hr,
        ubers: stats.ubers as i32,
        drops: stats.drops as i32,
        headshots: stats.headshots as i32,
        headshots_hit: stats.headshots_hit as i32,
    }
}

/// A row of the `bomb_attempt` table.
#[derive(Clone, Copy, Debug, PartialEq, Eq, Structural)]
pub struct BombAttemptRow {
    pub player_id: i64,
    pub log_id: i32,
    pub damage: i32,
    pub damage_taken: i32,
    pub start_tick: i32,
    pub end_tick: i32,
    pub died: bool,
}

/// The `bomb_attempt` row of an attempt: ticks are stored as `i32` (wrapping), an attempt
/// that never landed ends at tick 0.
pub fn bomb_attempt_row(attempt: &BombAttempt, player_id: i64, log_id: i32) -> (row: BombAttemptRow)
    ensures
        row == (BombAttemptRow {
            player_id,
            log_id,
            damage: attempt.damage as i32,
            damage_taken: attempt.damage_taken as i32,
            start_tick: attempt.start_tick as i32,
            end_tick: match attempt.land_tick {
                Some(t) => t as i32,
                None => 0,
            },
            died: attempt.state == BombState::Died,
        }),
{
    let end = match attempt.land_tick {
        Some(t) => t,
        None => 0,
    };
    BombAttemptRow {
        player_id,
        log_id,
        damage: attempt.damage as i32,
        damage_taken: attempt.damage_taken as i32,
        start_tick: attempt.start_tick as i32,
        end_tick: end as i32,
        died: attempt.died(),
    }
}

} // verus!
