use insights::attempt::{BombAttempt, BombState};
use insights::summary::{package_totals, summary_possible, tallies_fit_check, tally_attempts};
use insights::tracker::UserRecord;
use std::collections::HashMap;

fn attempt(user: u16, damage: u16) -> BombAttempt {
    BombAttempt { user, start_tick: 0, land_tick: None, damage, damage_taken: 0, state: BombState::Died }
}

#[test]
fn tallies_per_player() {
    let attempts = vec![attempt(1, 100), attempt(2, 5), attempt(1, 50)];
    let mut t = tally_attempts(&attempts);
    t.sort_by_key(|r| r.user);
    assert_eq!(t.len(), 2);
    assert_eq!((t[0].user, t[0].attempts, t[0].damage), (1, 2, 150));
    assert_eq!((t[1].user, t[1].attempts, t[1].damage), (2, 1, 5));
    assert!(tallies_fit_check(&attempts));
}

#[test]
fn summary_rows_carry_name_and_id() {
    let attempts = vec![attempt(1, 100), attempt(1, 20)];
    let mut users = HashMap::new();
    users.insert(1, UserRecord { name: "alice".to_string(), user_id: 1, steam_id: "[U:1:22202]".to_string(), entity_id: 3 });
    assert!(summary_possible(&attempts, &users));
    let rows = package_totals(&attempts, &users, false);
    assert_eq!(rows.len(), 1);
    assert_eq!(rows[0].name, "alice");
    assert_eq!(rows[0].steamid, 76561197960287930);
    assert_eq!((rows[0].attempts, rows[0].damage), (2, 120));
    let rows = package_totals(&attempts, &users, true);
    assert_eq!(rows[0].steamid, 22202);
}

#[test]
fn summary_needs_known_users() {
    let attempts = vec![attempt(9, 1)];
    let users: HashMap<u16, UserRecord> = HashMap::new();
    assert!(!summary_possible(&attempts, &users));
}

#[test]
fn breakdown_counts_later_damaging_attempts() {
    let attempts = vec![attempt(1, 100), attempt(2, 0), attempt(1, 0), attempt(1, 30), attempt(2, 7)];
    let mut b = insights::breakdown::damage_breakdown(&attempts).unwrap();
    b.sort_by_key(|r| r.user);
    assert_eq!(b.len(), 2);
    assert_eq!((b[0].user, b[0].attempts, b[0].later_hits, b[0].damage), (1, 3, 1, 130));
    assert_eq!((b[1].user, b[1].attempts, b[1].later_hits, b[1].damage), (2, 2, 1, 7));
    assert_eq!(insights::breakdown::total_damage(&attempts), Some(137));
}

#[test]
fn total_damage_overflow_is_none() {
    let attempts = vec![attempt(1, 65000), attempt(2, 600)];
    assert_eq!(insights::breakdown::total_damage(&attempts), None);
    assert_eq!(insights::breakdown::total_damage(&vec![]), Some(0));
}

#[test]
fn damaging_attempts_counted() {
    let attempts = vec![attempt(1, 100), attempt(2, 0), attempt(1, 3)];
    assert_eq!(insights::breakdown::damaging_attempts(&attempts), 2);
}
