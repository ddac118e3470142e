use insights::collect::{start_or_default, Collector, Team, DEFAULT_START};
use insights::ids::{read_i32, read_log_ids};
use insights::log::LogView;
use std::collections::HashSet;

fn view(id: i32, date: i32, players: i32) -> LogView {
    LogView {
        date,
        id,
        map: "cp_process_f12".to_string(),
        players,
        title: "scrim".to_string(),
        views: 0,
    }
}

#[test]
fn search_keeps_sixes_logs_in_the_window() {
    let mut c = Collector::new(1000, Some(2000));
    let logs = vec![
        view(1, 1500, 12),
        view(2, 1500, 18),
        view(3, 999, 12),
        view(4, 2001, 14),
        view(5, 2000, 14),
        view(1, 1600, 13),
    ];
    assert_eq!(c.collect_from_search(&logs), 2);
    let expected: HashSet<i32> = [1, 5].into_iter().collect();
    assert_eq!(c.get_logs(), &expected);
    assert_eq!(c.log_count(), 2);
}

#[test]
fn search_without_end_date() {
    let mut c = Collector::new(0, None);
    assert_eq!(c.collect_from_search(&vec![view(9, 99999999, 12)]), 1);
    assert_eq!(c.collect_from_search(&vec![view(9, 99999999, 12)]), 0);
}

#[test]
fn reading_log_ids() {
    assert_eq!(read_log_ids("1,22,-3,+4"), Some(vec![1, 22, -3, 4]));
    assert_eq!(read_log_ids("1,,2"), None);
    assert_eq!(read_log_ids(""), None);
    assert_eq!(read_log_ids("12\n"), Some(vec![12]));
    assert_eq!(read_log_ids("12\n\n"), None);
    assert_eq!(read_log_ids("2147483647"), Some(vec![2147483647]));
    assert_eq!(read_log_ids("2147483648"), None);
    assert_eq!(read_log_ids("-2147483648"), Some(vec![-2147483648]));
}

#[test]
fn import_counts_entries_read() {
    let mut c = Collector::new(0, None);
    let ids = read_log_ids("5,6,5").unwrap();
    assert_eq!(c.import_log_ids(&ids), 3);
    assert_eq!(c.log_count(), 2);
}

#[test]
fn dump_then_import_restores_the_cache() {
    let mut c = Collector::new(0, None);
    c.import_log_ids(&vec![3512345, -7, 0, 42]);
    let text = c.log_ids_text();
    let mut d = Collector::new(0, None);
    let ids = read_log_ids(&text).unwrap();
    d.import_log_ids(&ids);
    assert_eq!(c.get_logs(), d.get_logs());
    assert_eq!(ids.len(), 4);
}

#[test]
fn parse_like_std() {
    for s in ["0", "-0", "+15", "-", "+", "", "12a", "99999999999", "-2147483649", " 1"] {
        assert_eq!(read_i32(s), s.parse::<i32>().ok(), "{s}");
    }
}

#[test]
fn queries_are_comma_joined_combinations() {
    let ids = vec!["a".to_string(), "b".to_string(), "c".to_string()];
    assert_eq!(
        Collector::player_queries(ids.clone(), 2),
        vec!["a,b".to_string(), "a,c".to_string(), "b,c".to_string()]
    );
    assert_eq!(Collector::player_queries(ids, 4), Vec::<String>::new());
}

#[test]
fn team_player_ids() {
    let t = Team {
        id: 7,
        players: vec![("x".to_string(), "765".to_string()), ("y".to_string(), "766".to_string())],
    };
    assert_eq!(t.player_ids(), vec!["765".to_string(), "766".to_string()]);
}

#[test]
fn start_defaults_to_registration_deadline() {
    assert_eq!(start_or_default(None), 1684123140);
    assert_eq!(DEFAULT_START, 1684123140);
    assert_eq!(start_or_default(Some(5)), 5);
    let c = Collector::new(100, None);
    assert!(c.too_old(99));
    assert!(!c.too_old(100));
}

#[test]
fn reading_newline_separated_ids() {
    assert_eq!(read_log_ids("3512345\n-7\n42"), Some(vec![3512345, -7, 42]));
    assert_eq!(read_log_ids("3512345\n-7\n42\n"), Some(vec![3512345, -7, 42]));
    assert_eq!(read_log_ids("1,2\n3"), Some(vec![1, 2, 3]));
    assert_eq!(read_log_ids("1\n2"), read_log_ids("1,2"));
    assert_eq!(read_log_ids("1\nx"), None);
    let mut c = Collector::new(0, None);
    assert_eq!(c.import_log_ids(&read_log_ids("5\n6\n5\n").unwrap()), 3);
    assert_eq!(c.log_count(), 2);
}
