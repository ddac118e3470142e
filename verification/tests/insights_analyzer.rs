use insights::attempt::BombState;
use insights::insights_analyzer::{InsightsAnalyzer, INSIGHTS_TIMEOUT_TICKS};
use insights::tracker::GameEvent;

#[test]
fn damage_counts_only_between_jumpers() {
    let mut a = InsightsAnalyzer::new();
    a.handle_game_event(&GameEvent::RoundStart, 1);
    a.handle_game_event(&GameEvent::RocketJump { user_id: 1 }, 2);
    a.handle_game_event(&GameEvent::PlayerHurt { user_id: 9, attacker: 1, damage_amount: 80 }, 3);
    a.handle_game_event(&GameEvent::RocketJump { user_id: 9 }, 4);
    a.handle_game_event(&GameEvent::PlayerHurt { user_id: 9, attacker: 1, damage_amount: 40 }, 5);
    a.handle_game_event(&GameEvent::PlayerDeath { user_id: 1 }, 6);
    a.handle_game_event(&GameEvent::PlayerDeath { user_id: 9 }, 7);
    let jumps = a.into_output();
    assert_eq!(jumps.len(), 2);
    assert_eq!((jumps[0].user, jumps[0].damage, jumps[0].damage_taken), (1, 40, 0));
    assert_eq!((jumps[1].user, jumps[1].damage, jumps[1].damage_taken), (9, 0, 40));
}

#[test]
fn attempts_time_out_three_seconds_after_landing() {
    let mut a = InsightsAnalyzer::new();
    a.handle_game_event(&GameEvent::RoundStart, 1);
    a.handle_game_event(&GameEvent::RocketJump { user_id: 1 }, 2);
    a.handle_game_event(&GameEvent::RocketJumpLanded { user_id: 1, near_enemy: true }, 10);
    a.handle_net_tick(10 + 132);
    assert!(a.is_tracking(1));
    a.handle_net_tick(10 + INSIGHTS_TIMEOUT_TICKS);
    let jumps = a.into_output();
    assert_eq!(jumps[0].state, BombState::TimedOut);
}

#[test]
fn borrowed_output_grows_with_deaths() {
    let mut a = InsightsAnalyzer::new();
    a.handle_game_event(&GameEvent::RoundStart, 1);
    a.handle_game_event(&GameEvent::RocketJump { user_id: 3 }, 2);
    assert!(a.borrow_output().is_empty());
    a.handle_game_event(&GameEvent::PlayerDeath { user_id: 3 }, 5);
    assert_eq!(a.borrow_output().len(), 1);
    assert_eq!(a.borrow_output()[0].state, BombState::Died);
}
