use insights::importer::{LocalCache, TeamIdScan, TeamLookup};
use insights::rgl::{Player, Team};

#[test]
fn scan_finds_both_teams() {
    let mut s = TeamIdScan::new();
    let players = [
        (Some(10), "Red"),
        (Some(20), "Blue"),
        (None, "Red"),
        (Some(10), "Red"),
        (Some(20), "Blue"),
        (Some(10), "Red"),
        (Some(20), "Blue"),
        (Some(99), "Red"),
    ];
    let mut stopped_at = None;
    for (i, (team, side)) in players.iter().enumerate() {
        if s.step(*team, side) {
            stopped_at = Some(i);
            break;
        }
    }
    assert_eq!(stopped_at, Some(6));
    assert_eq!(s.teams(), (10, 20));
}

#[test]
fn scan_ignores_other_sides() {
    let mut s = TeamIdScan::new();
    assert!(!s.step(Some(5), "Spectator"));
    assert_eq!(s.teams(), (0, 0));
}

#[test]
fn cache_lookup_order() {
    let mut c = LocalCache::with_players(vec![("765".to_string(), 3)]);
    assert_eq!(c.get_team_id_from_list("765"), Some(3));
    assert_eq!(c.fetch_team_id_for_past_player("766"), None);
    assert_eq!(c.lookup("765"), TeamLookup::Found(Some(3)));
    assert_eq!(c.lookup("766"), TeamLookup::NeedsFallback);
    c.remember("766", None);
    assert_eq!(c.lookup("766"), TeamLookup::Found(None));
    let mut e = LocalCache::new();
    assert_eq!(e.get_team_id_from_list("765"), None);
    e.load_player_lut(vec![("765".to_string(), 4)]);
    assert_eq!(e.lookup("765"), TeamLookup::Found(Some(4)));
}

fn team(id: i32) -> Team {
    Team {
        id,
        tag: "T".to_string(),
        name: "Team".to_string(),
        status: "Ready".to_string(),
        season_id: 1,
        divison_id: 2,
        division_name: "Invite".to_string(),
    }
}

#[test]
fn sixes_team_of_a_profile() {
    let p = Player {
        current_teams: vec![("highlander".to_string(), Some(team(1))), ("sixes".to_string(), Some(team(2)))],
        name: "x".to_string(),
    };
    assert_eq!(p.sixes_team_id(), Some(2));
    let q = Player { current_teams: vec![("sixes".to_string(), None)], name: "y".to_string() };
    assert_eq!(q.sixes_team_id(), None);
    let r = Player { current_teams: vec![], name: "z".to_string() };
    assert_eq!(r.sixes_team_id(), None);
}

#[test]
fn remembered_answer_replaces_earlier_one() {
    let mut c = LocalCache::new();
    c.remember("7", Some(1));
    c.remember("8", Some(2));
    assert_eq!(c.lookup("7"), TeamLookup::Found(Some(1)));
    c.remember("7", None);
    assert_eq!(c.lookup("7"), TeamLookup::Found(None));
    assert_eq!(c.lookup("8"), TeamLookup::Found(Some(2)));
}

#[test]
fn lookup_twice_same_answer() {
    let mut c = LocalCache::with_players(vec![("1".to_string(), 9)]);
    let first = c.lookup("1");
    let second = c.lookup("1");
    assert_eq!(first, second);
    assert_eq!(first, TeamLookup::Found(Some(9)));
}
