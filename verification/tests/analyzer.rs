use insights::analyzer::{BombAttemptAnalyzer, BOMB_TIMEOUT_TICKS};
use insights::attempt::{BombAttempt, BombState};
use insights::tracker::{GameEvent, UserRecord};

#[test]
fn it_works() {
    assert!(true);
}

fn record(user_id: u16, entity_id: u32, name: &str, steam_id: &str) -> UserRecord {
    UserRecord {
        name: name.to_string(),
        user_id,
        steam_id: steam_id.to_string(),
        entity_id,
    }
}

fn started_analyzer() -> BombAttemptAnalyzer {
    let mut a = BombAttemptAnalyzer::new();
    a.handle_game_event(&GameEvent::RoundStart, 10);
    a
}

#[test]
fn jumps_before_the_match_are_ignored() {
    let mut a = BombAttemptAnalyzer::new();
    assert!(!a.should_record());
    a.handle_game_event(&GameEvent::RocketJump { user_id: 3 }, 5);
    assert!(!a.is_tracking(3));
    a.handle_game_event(&GameEvent::RoundStart, 10);
    assert!(a.should_record());
    a.handle_game_event(&GameEvent::RocketJump { user_id: 3 }, 11);
    assert!(a.is_tracking(3));
}

#[test]
fn death_ends_the_attempt_as_died() {
    let mut a = started_analyzer();
    a.handle_game_event(&GameEvent::RocketJump { user_id: 3 }, 20);
    a.handle_game_event(&GameEvent::RocketJumpLanded { user_id: 3, near_enemy: true }, 40);
    a.handle_game_event(&GameEvent::PlayerHurt { user_id: 7, attacker: 3, damage_amount: 50 }, 41);
    a.handle_game_event(&GameEvent::PlayerHurt { user_id: 3, attacker: 7, damage_amount: 30 }, 42);
    a.handle_game_event(&GameEvent::PlayerDeath { user_id: 3 }, 43);
    assert!(!a.is_tracking(3));
    let (jumps, _) = a.into_output();
    assert_eq!(
        jumps,
        vec![BombAttempt {
            user: 3,
            start_tick: 20,
            land_tick: Some(40),
            damage: 50,
            damage_taken: 30,
            state: BombState::Died,
        }]
    );
}

#[test]
fn landing_far_from_enemies_drops_the_attempt() {
    let mut a = started_analyzer();
    a.handle_game_event(&GameEvent::RocketJump { user_id: 4 }, 20);
    a.handle_game_event(&GameEvent::RocketJumpLanded { user_id: 4, near_enemy: false }, 30);
    assert!(!a.is_tracking(4));
    a.handle_game_event(&GameEvent::PlayerDeath { user_id: 4 }, 31);
    let (jumps, _) = a.into_output();
    assert!(jumps.is_empty());
}

#[test]
fn attempts_time_out_two_seconds_after_landing() {
    let mut a = started_analyzer();
    a.handle_game_event(&GameEvent::RocketJump { user_id: 5 }, 100);
    a.handle_game_event(&GameEvent::RocketJumpLanded { user_id: 5, near_enemy: true }, 200);
    assert!(a.net_tick_fits(200 + BOMB_TIMEOUT_TICKS - 1));
    a.handle_net_tick(200 + BOMB_TIMEOUT_TICKS - 1);
    assert!(a.is_tracking(5));
    a.handle_net_tick(200 + BOMB_TIMEOUT_TICKS);
    assert!(!a.is_tracking(5));
    let (jumps, _) = a.into_output();
    assert_eq!(jumps.len(), 1);
    assert_eq!(jumps[0].state, BombState::TimedOut);
    assert_eq!(jumps[0].land_tick, Some(200));
}

#[test]
fn a_second_jump_marks_the_attempt() {
    let mut a = started_analyzer();
    a.handle_game_event(&GameEvent::RocketJump { user_id: 6 }, 20);
    a.handle_game_event(&GameEvent::RocketJump { user_id: 6 }, 25);
    a.handle_game_event(&GameEvent::PlayerDeath { user_id: 6 }, 30);
    let (jumps, _) = a.into_output();
    assert_eq!(jumps[0].start_tick, 20);
    assert_eq!(jumps[0].state, BombState::Died);
}

#[test]
fn dead_time_stops_recording() {
    let mut a = started_analyzer();
    a.handle_game_event(&GameEvent::RocketJump { user_id: 6 }, 20);
    a.handle_game_event(&GameEvent::RoundWin, 21);
    assert!(!a.should_record());
    a.handle_game_event(&GameEvent::PlayerDeath { user_id: 6 }, 22);
    assert!(a.is_tracking(6));
    a.handle_game_event(&GameEvent::RoundStart, 30);
    a.handle_game_event(&GameEvent::PlayerDeath { user_id: 6 }, 31);
    let (jumps, _) = a.into_output();
    assert_eq!(jumps.len(), 1);
}

#[test]
fn self_damage_counts_only_as_taken() {
    let mut a = started_analyzer();
    a.handle_game_event(&GameEvent::RocketJump { user_id: 8 }, 20);
    a.handle_game_event(&GameEvent::PlayerHurt { user_id: 8, attacker: 8, damage_amount: 27 }, 21);
    a.handle_game_event(&GameEvent::PlayerDeath { user_id: 8 }, 22);
    let (jumps, _) = a.into_output();
    assert_eq!(jumps[0].damage, 0);
    assert_eq!(jumps[0].damage_taken, 27);
}

#[test]
fn user_info_updates_only_the_entity() {
    let mut a = BombAttemptAnalyzer::new();
    a.handle_user_info(record(2, 10, "alice", "[U:1:100]"));
    a.handle_user_info(record(2, 11, "other", "[U:1:200]"));
    let u = a.user(2).unwrap();
    assert_eq!(u.name, "alice");
    assert_eq!(u.steam_id, "[U:1:100]");
    assert_eq!(u.entity_id, 11);
    assert_eq!(a.user_for_entity(11), 2);
    assert_eq!(a.user_for_entity(99), 0);
}

#[test]
fn player_class_by_index() {
    let mut a = BombAttemptAnalyzer::new();
    a.handle_data_tables(vec!["CTFGameRulesProxy".to_string(), "CTFPlayer".to_string()]);
    assert!(a.is_player_class(1));
    assert!(!a.is_player_class(0));
    assert!(!a.is_player_class(2));
}

#[test]
fn damage_overflow_is_reported() {
    let mut a = started_analyzer();
    a.handle_game_event(&GameEvent::RocketJump { user_id: 3 }, 20);
    a.handle_game_event(&GameEvent::PlayerHurt { user_id: 7, attacker: 3, damage_amount: 65000 }, 21);
    assert!(a.event_fits(&GameEvent::PlayerHurt { user_id: 7, attacker: 3, damage_amount: 535 }));
    assert!(!a.event_fits(&GameEvent::PlayerHurt { user_id: 7, attacker: 3, damage_amount: 536 }));
}
