use insights::attempt::{BombAttempt, BombState};
use insights::db::{bomb_attempt_row, demos_with_id, log_has_both_teams, log_row, player_stats_row, ConnectedDemo};
use insights::demos::DemoSerialized;
use insights::log::{LogInfo, LogSerialized, PlayerStats, TeamStats};
use insights::maps::{demo_map_pattern, demo_time_window, MapPattern};
use insights::urls::{demo_info_url, demo_players_arg, demo_search_url, log_json_url, log_search_url, log_url, players_convertible, rgl_profile_url};

fn team(score: i16) -> TeamStats {
    TeamStats { score, kills: 0, deaths: 0, dmg: 0, charges: 0, drops: 0, firstcaps: 0, caps: 0 }
}

fn stats(team: &str) -> PlayerStats {
    PlayerStats {
        team: team.to_string(),
        class_stats: vec![],
        kills: 10,
        deaths: -2,
        assists: 3,
        dmg: 5000,
        dmg_real: 400,
        dt: 3000,
        dt_real: 200,
        hr: 100,
        ubers: 1,
        drops: 0,
        headshots: 4,
        headshots_hit: 5,
    }
}

fn log() -> LogSerialized {
    LogSerialized {
        version: 3,
        teams: vec![("Red".to_string(), team(4)), ("Blue".to_string(), team(2))],
        length: 1800,
        players: vec![("[U:1:22202]".to_string(), stats("Red")), ("[U:1:5]".to_string(), stats("Blue"))],
        info: LogInfo { map: "cp_process_f12".to_string(), date: 1700000000 },
    }
}

#[test]
fn log_rows() {
    let l = log();
    assert!(log_has_both_teams(&l));
    let row = log_row(77, (10, 20), &l);
    assert_eq!((row.log_id, row.unix_timestamp, row.red_team_id, row.blu_team_id), (77, 1700000000, 10, 20));
    assert_eq!((row.red_team_score, row.blu_team_score), (4, 2));
    assert_eq!(row.map, "cp_process_f12");
    let mut only_red = log();
    only_red.teams.pop();
    assert!(!log_has_both_teams(&only_red));
}

#[test]
fn player_stats_rows() {
    let row = player_stats_row(77, 765, &stats("Red"));
    assert_eq!((row.kills, row.deaths, row.dmg, row.headshots_hit), (10, -2, 5000, 5));
    assert_eq!(row.player_steamid64, 765);
}

#[test]
fn bomb_attempt_rows() {
    let a = BombAttempt { user: 1, start_tick: 3_000_000_000, land_tick: None, damage: 9, damage_taken: 8, state: BombState::Died };
    let row = bomb_attempt_row(&a, 765, 12);
    assert_eq!(row.start_tick, 3_000_000_000u32 as i32);
    assert_eq!(row.end_tick, 0);
    assert!(row.died);
    let b = BombAttempt { land_tick: Some(44), state: BombState::TimedOut, ..a };
    let row = bomb_attempt_row(&b, 765, 12);
    assert_eq!(row.end_tick, 44);
    assert!(!row.died);
}

fn connected(id: Option<i32>, log_id: i32) -> ConnectedDemo {
    ConnectedDemo { name: None, url: None, log_id, id, map: "m".to_string() }
}

#[test]
fn connected_demos_with_id() {
    let kept = demos_with_id(vec![connected(Some(1), 1), connected(None, 2), connected(Some(3), 3)]);
    let ids: Vec<i32> = kept.iter().map(|d| d.log_id).collect();
    assert_eq!(ids, vec![1, 3]);
}

#[test]
fn urls() {
    assert_eq!(log_search_url("1,2"), "http://logs.tf/api/v1/log?player=1,2");
    assert_eq!(log_url(-5), "http://logs.tf/api/v1/log/-5");
    assert_eq!(log_json_url(3512345), "http://logs.tf/json/3512345");
    assert_eq!(rgl_profile_url("765"), "https://api.rgl.gg/v0/profile/765");
    assert_eq!(demo_search_url("cp_x", "1&players[]=2"), "https://api.demos.tf/demos?map=cp_x&type=6v6&players[]=1&players[]=2");
    assert_eq!(demo_info_url("99"), "https://api.demos.tf/demos/99");
}

#[test]
fn demo_players() {
    let l = log();
    assert!(players_convertible(&l));
    assert_eq!(demo_players_arg(&l), "76561197960287930&players[]=76561197960265733");
}

#[test]
fn map_patterns() {
    match demo_map_pattern("cp_process_f12") {
        MapPattern::Pattern(p) => assert_eq!(p, "%process%"),
        _ => panic!("expected a pattern"),
    }
    match demo_map_pattern("koth_product_final") {
        MapPattern::Pattern(p) => assert_eq!(p, "%product%"),
        _ => panic!("expected a pattern"),
    }
    match demo_map_pattern("cp_badlands") {
        MapPattern::NotInPool(m) => assert_eq!(m, "badlands"),
        _ => panic!("expected a map outside the pool"),
    }
    assert!(matches!(demo_map_pattern("nomap"), MapPattern::NoMatch));
    assert_eq!(demo_time_window(1000), (900, 1100));
}

#[test]
fn deleted_demos() {
    let mut d = DemoSerialized {
        id: 1, url: String::new(), name: String::new(), server: String::new(), duration: 0, nick: String::new(),
        map: String::new(), red: String::new(), blue: String::new(), red_score: 0, blue_score: 0, player_count: 12,
        uploader: 0, hash: String::new(), backend: "deleted".to_string(), path: String::new(),
    };
    assert!(d.is_deleted());
    d.backend = "s3".to_string();
    assert!(!d.is_deleted());
}

#[test]
fn map_names_by_the_regex_rules() {
    match demo_map_pattern("cp_process5") {
        MapPattern::NotInPool(m) => assert_eq!(m, "process5"),
        _ => panic!("expected a name outside the pool"),
    }
    match demo_map_pattern("cp_x_sunshine") {
        MapPattern::Pattern(p) => assert_eq!(p, "%sunshine%"),
        _ => panic!("expected the pool map"),
    }
    assert!(matches!(demo_map_pattern("cp_x_y"), MapPattern::NoMatch));
    match demo_map_pattern("cp_gr_x") {
        MapPattern::NotInPool(m) => assert_eq!(m, "gr"),
        _ => panic!("expected a name outside the pool"),
    }
}
