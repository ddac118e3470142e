use vstd::prelude::*;
use crate::attempt::{BombAttempt, BombState};
use crate::ledger::LedgerView;
use crate::tracker::{GameEvent, HurtFilter, TrackerView};
use crate::analyzer::{bomb_step, BOMB_TIMEOUT_TICKS};
use crate::insights_analyzer::{insights_step, INSIGHTS_TIMEOUT_TICKS};

verus! {

/// No event breaks a ledger's consistency: finished attempts stay finished, followed
/// attempts stay active and filed under their own jumper.
pub proof fn lemma_event_keeps_consistency(s: TrackerView, e: GameEvent, tick: u32, f: HurtFilter)
    requires
        s.ledger.consistent(),
    ensures
        s.after_event(e, tick, f).ledger.consistent(),
{
    let t = s.after_event(e, tick, f);
    match e {
        GameEvent::PlayerDeath { user_id } => {
            if s.round.recording() && s.ledger.jumpers.contains_key(user_id) {
                assert forall|i: int| 0 <= i < t.ledger.jumps.len() implies #[trigger] t.ledger.jumps[i].is_finished() by {
                    if i < s.ledger.jumps.len() {
                        assert(t.ledger.jumps[i] == s.ledger.jumps[i]);
                    }
                }
            }
        },
        _ => {},
    }
}

/// A network tick keeps a ledger consistent and leaves no attempt that should have
/// timed out.
pub proof fn lemma_expire_keeps_consistency(pre: LedgerView, tick: u32, window: u32, post: LedgerView)
    requires
        pre.consistent(),
        pre.expired(tick, window, post),
    ensures
        post.consistent(),
        forall|k: u16| #[trigger] post.jumpers.contains_key(k) ==> !post.jumpers[k].expired_at(tick, window),
{
    assert forall|i: int| 0 <= i < post.jumps.len() implies #[trigger] post.jumps[i].is_finished() by {
        if i < pre.jumps.len() {
            assert(post.jumps[i] == post.jumps.take(pre.jumps.len() as int)[i]);
        } else {
            assert(pre.jumpers.contains_key(post.jumps[i].user));
        }
    }
}

/// Recorded attempts are never changed or dropped: after any event the earlier record is
/// a prefix of the new one.
pub proof fn lemma_event_keeps_record(s: TrackerView, e: GameEvent, tick: u32, f: HurtFilter)
    ensures
        s.ledger.jumps.len() <= s.after_event(e, tick, f).ledger.jumps.len(),
        s.after_event(e, tick, f).ledger.jumps.take(s.ledger.jumps.len() as int) == s.ledger.jumps,
{
    let t = s.after_event(e, tick, f);
    assert(t.ledger.jumps.take(s.ledger.jumps.len() as int) =~= s.ledger.jumps);
}

/// Before the match starts and between rounds, jumps, landings, deaths and damage leave
/// the attempts as they are.
pub proof fn lemma_nothing_recorded_between_rounds(s: TrackerView, e: GameEvent, tick: u32, f: HurtFilter)
    requires
        !s.round.recording(),
    ensures
        s.after_event(e, tick, f).ledger == s.ledger,
{
}

/// A jump by a player who is not mid-attempt, during a round, starts a fresh attempt at
/// that tick; a jump by one who is marks the running attempt and keeps its start and
/// damage.
pub proof fn lemma_jump_starts_or_marks(s: TrackerView, user: u16, tick: u32, f: HurtFilter)
    requires
        s.round.recording(),
    ensures
        ({
            let t = s.after_event(GameEvent::RocketJump { user_id: user }, tick, f);
            &&& t.ledger.jumpers.contains_key(user)
            &&& !s.ledger.jumpers.contains_key(user) ==> t.ledger.jumpers[user] == BombAttempt::fresh(user, tick)
            &&& s.ledger.jumpers.contains_key(user) ==> t.ledger.jumpers[user] == s.ledger.jumpers[user].with_state(BombState::NewJumpStarted)
            &&& t.ledger.jumps == s.ledger.jumps
        }),
{
}

/// The death of a player mid-attempt, during a round, ends the attempt: it is appended to
/// the record as `Died` and no longer followed.
pub proof fn lemma_death_ends_attempt(s: TrackerView, user: u16, tick: u32, f: HurtFilter)
    requires
        s.round.recording(),
        s.ledger.jumpers.contains_key(user),
    ensures
        ({
            let t = s.after_event(GameEvent::PlayerDeath { user_id: user }, tick, f);
            &&& t.ledger.jumps == s.ledger.jumps.push(s.ledger.jumpers[user].with_state(BombState::Died))
            &&& !t.ledger.jumpers.contains_key(user)
        }),
{
}

/// A landing far from every enemy drops the attempt without recording it.
pub proof fn lemma_landing_away_drops_attempt(s: TrackerView, user: u16, tick: u32, f: HurtFilter)
    requires
        s.round.recording(),
    ensures
        ({
            let t = s.after_event(GameEvent::RocketJumpLanded { user_id: user, near_enemy: false }, tick, f);
            &&& !t.ledger.jumpers.contains_key(user)
            &&& t.ledger.jumps == s.ledger.jumps
        }),
{
}

/// Damage counters of an attempt that is followed before and after an event never go down,
/// and its start tick never changes.
pub proof fn lemma_counters_never_decrease(s: TrackerView, e: GameEvent, tick: u32, f: HurtFilter, k: u16)
    requires
        s.event_fits(e, f),
        s.ledger.jumpers.contains_key(k),
        s.after_event(e, tick, f).ledger.jumpers.contains_key(k),
    ensures
        ({
            let before = s.ledger.jumpers[k];
            let after = s.after_event(e, tick, f).ledger.jumpers[k];
            &&& before.damage <= after.damage
            &&& before.damage_taken <= after.damage_taken
            &&& before.start_tick == after.start_tick
        }),
{
}

/// The round state: a round start starts the match and ends the dead time, a win or a
/// stalemate starts the dead time, every other event leaves it, and a started match is
/// never reset.
pub proof fn lemma_round_state(s: TrackerView, e: GameEvent, tick: u32, f: HurtFilter)
    ensures
        ({
            let r = s.after_event(e, tick, f).round;
            &&& e == GameEvent::RoundStart ==> r.has_match_started && !r.is_dead_time
            &&& (e == GameEvent::RoundWin || e == GameEvent::RoundStalemate) ==> r.is_dead_time
                && r.has_match_started == s.round.has_match_started
            &&& (e != GameEvent::RoundStart && e != GameEvent::RoundWin && e != GameEvent::RoundStalemate)
                ==> r == s.round
            &&& s.round.has_match_started ==> r.has_match_started
        }),
{
}

/// The state after a sequence of events, each at its tick.
pub open spec fn after_events(s: TrackerView, events: Seq<(GameEvent, u32)>, f: HurtFilter) -> TrackerView
    decreases events.len(),
{
    if events.len() == 0 {
        s
    } else {
        after_events(s, events.drop_last(), f).after_event(events.last().0, events.last().1, f)
    }
}

/// Over any sequence of events from a consistent state (a new analyzer's empty ledger is
/// one), the ledger stays consistent: every recorded attempt is over, every followed one
/// is active and filed under its own jumper; and the earlier record is kept as a prefix.
pub proof fn lemma_events_keep_ledger(s: TrackerView, events: Seq<(GameEvent, u32)>, f: HurtFilter)
    requires
        s.ledger.consistent(),
    ensures
        after_events(s, events, f).ledger.consistent(),
        s.ledger.jumps.len() <= after_events(s, events, f).ledger.jumps.len(),
        after_events(s, events, f).ledger.jumps.take(s.ledger.jumps.len() as int) == s.ledger.jumps,
    decreases events.len(),
{
    if events.len() > 0 {
        let init = events.drop_last();
        lemma_events_keep_ledger(s, init, f);
        let mid = after_events(s, init, f);
        lemma_event_keeps_consistency(mid, events.last().0, events.last().1, f);
        lemma_event_keeps_record(mid, events.last().0, events.last().1, f);
        let end = after_events(s, events, f);
        assert(end.ledger.jumps.take(s.ledger.jumps.len() as int) =~= mid.ledger.jumps.take(
            mid.ledger.jumps.len() as int,
        ).take(s.ledger.jumps.len() as int));
    }
}

/// A new analyzer's ledger is consistent.
pub proof fn lemma_empty_ledger_consistent()
    ensures
        LedgerView::empty().consistent(),
{
}

/// A landing of a followed jumper during a round, near an enemy, sets that attempt's
/// landing tick to this landing's tick (a later landing overwrites an earlier one) and
/// changes nothing else; a landing of a player who is not followed changes nothing.
pub proof fn lemma_landing_near_sets_tick(s: TrackerView, user: u16, tick: u32, f: HurtFilter)
    requires
        s.round.recording(),
    ensures
        ({
            let t = s.after_event(GameEvent::RocketJumpLanded { user_id: user, near_enemy: true }, tick, f);
            &&& t.round == s.round
            &&& t.users == s.users
            &&& t.ledger.jumps == s.ledger.jumps
            &&& s.ledger.jumpers.contains_key(user) ==> t.ledger.jumpers == s.ledger.jumpers.insert(
                user,
                BombAttempt {
                    user: s.ledger.jumpers[user].user,
                    start_tick: s.ledger.jumpers[user].start_tick,
                    land_tick: Some(tick),
                    damage: s.ledger.jumpers[user].damage,
                    damage_taken: s.ledger.jumpers[user].damage_taken,
                    state: s.ledger.jumpers[user].state,
                },
            )
            &&& !s.ledger.jumpers.contains_key(user) ==> t.ledger == s.ledger
        }),
{
}

/// A hurt event during a round. With the both-tracked filter, one whose attacker or
/// victim is not mid-attempt changes nothing. Otherwise the attacker's attempt (if the
/// attacker is mid-attempt and hurt someone else) gains the damage dealt, the victim's
/// attempt (if the victim is mid-attempt) gains the damage taken, and nothing else
/// changes. Outside a round nothing changes.
pub proof fn lemma_hurt_adds_damage(s: TrackerView, user: u16, attacker: u16, amount: u16, tick: u32, f: HurtFilter)
    requires
        s.ledger.jumpers.contains_key(attacker) ==> s.ledger.jumpers[attacker].damage + amount <= 65535,
        s.ledger.jumpers.contains_key(user) ==> s.ledger.jumpers[user].damage_taken + amount <= 65535,
    ensures
        ({
            let t = s.after_event(GameEvent::PlayerHurt { user_id: user, attacker, damage_amount: amount }, tick, f);
            let both = s.ledger.jumpers.contains_key(attacker) && s.ledger.jumpers.contains_key(user);
            &&& t.round == s.round
            &&& t.users == s.users
            &&& t.ledger.jumps == s.ledger.jumps
            &&& !s.round.recording() ==> t.ledger == s.ledger
            &&& (f == HurtFilter::BothTracked && !both) ==> t.ledger == s.ledger
            &&& (s.round.recording() && (f == HurtFilter::Any || both)) ==> {
                &&& t.ledger.jumpers.dom() == s.ledger.jumpers.dom()
                &&& forall|k: u16| #[trigger] s.ledger.jumpers.contains_key(k) ==> t.ledger.jumpers[k] == BombAttempt {
                    user: s.ledger.jumpers[k].user,
                    start_tick: s.ledger.jumpers[k].start_tick,
                    land_tick: s.ledger.jumpers[k].land_tick,
                    damage: (s.ledger.jumpers[k].damage + if k == attacker && attacker != user { amount as int } else { 0 }) as u16,
                    damage_taken: (s.ledger.jumpers[k].damage_taken + if k == user { amount as int } else { 0 }) as u16,
                    state: s.ledger.jumpers[k].state,
                }
            }
        }),
{
    let t = s.after_event(GameEvent::PlayerHurt { user_id: user, attacker, damage_amount: amount }, tick, f);
    let both = s.ledger.jumpers.contains_key(attacker) && s.ledger.jumpers.contains_key(user);
    if s.round.recording() && (f == HurtFilter::Any || both) {
        assert(t.ledger.jumpers.dom() =~= s.ledger.jumpers.dom());
    }
}

/// A rocket jump during a round by a player who is not mid-attempt starts an attempt at
/// that tick with no landing, no damage and state `InProgress`; by a player who is, it
/// marks the attempt `NewJumpStarted` and keeps the rest. No other attempt changes.
pub proof fn lemma_jump_starts_attempt(s: TrackerView, user: u16, tick: u32, f: HurtFilter)
    requires
        s.round.recording(),
    ensures
        ({
            let t = s.after_event(GameEvent::RocketJump { user_id: user }, tick, f);
            &&& t.round == s.round
            &&& t.ledger.jumps == s.ledger.jumps
            &&& !s.ledger.jumpers.contains_key(user) ==> t.ledger.jumpers == s.ledger.jumpers.insert(
                user,
                BombAttempt {
                    user,
                    start_tick: tick,
                    land_tick: None,
                    damage: 0,
                    damage_taken: 0,
                    state: BombState::InProgress,
                },
            )
            &&& s.ledger.jumpers.contains_key(user) ==> t.ledger.jumpers == s.ledger.jumpers.insert(
                user,
                BombAttempt {
                    user: s.ledger.jumpers[user].user,
                    start_tick: s.ledger.jumpers[user].start_tick,
                    land_tick: s.ledger.jumpers[user].land_tick,
                    damage: s.ledger.jumpers[user].damage,
                    damage_taken: s.ledger.jumpers[user].damage_taken,
                    state: BombState::NewJumpStarted,
                },
            )
        }),
{
}

/// A death during a round of a player mid-attempt appends that attempt, marked `Died`
/// and otherwise as it stood, to the record, and stops following it; the death of anyone
/// else changes nothing.
pub proof fn lemma_death_records_attempt(s: TrackerView, user: u16, tick: u32, f: HurtFilter)
    requires
        s.round.recording(),
    ensures
        ({
            let t = s.after_event(GameEvent::PlayerDeath { user_id: user }, tick, f);
            &&& t.round == s.round
            &&& s.ledger.jumpers.contains_key(user) ==> {
                &&& t.ledger.jumps == s.ledger.jumps.push(BombAttempt {
                    user: s.ledger.jumpers[user].user,
                    start_tick: s.ledger.jumpers[user].start_tick,
                    land_tick: s.ledger.jumpers[user].land_tick,
                    damage: s.ledger.jumpers[user].damage,
                    damage_taken: s.ledger.jumpers[user].damage_taken,
                    state: BombState::Died,
                })
                &&& t.ledger.jumpers == s.ledger.jumpers.remove(user)
            }
            &&& !s.ledger.jumpers.contains_key(user) ==> t.ledger == s.ledger
        }),
{
}

/// Round starts, ends and stalemates touch no attempt.
pub proof fn lemma_round_events_keep_attempts(s: TrackerView, tick: u32, f: HurtFilter)
    ensures
        s.after_event(GameEvent::RoundStart, tick, f).ledger == s.ledger,
        s.after_event(GameEvent::RoundWin, tick, f).ledger == s.ledger,
        s.after_event(GameEvent::RoundStalemate, tick, f).ledger == s.ledger,
        s.after_event(GameEvent::Other, tick, f) == s,
{
}

/// A network tick at `tick` with a timeout of `window` ticks: a followed attempt stays
/// followed, as it was, exactly when it has not landed or landed fewer than `window`
/// ticks before; every other one is appended to the record once, marked `TimedOut` and
/// otherwise as it stood, and the earlier record is kept.
pub proof fn lemma_timeout_after_landing(pre: LedgerView, tick: u32, window: u32, post: LedgerView)
    requires
        pre.expired(tick, window, post),
        pre.landed_by(tick),
    ensures
        forall|k: u16| #[trigger] post.jumpers.contains_key(k) <==> pre.jumpers.contains_key(k) && (
            pre.jumpers[k].land_tick is None || tick - pre.jumpers[k].land_tick->0 < window),
        forall|k: u16| #[trigger] post.jumpers.contains_key(k) ==> post.jumpers[k] == pre.jumpers[k],
        post.jumps.take(pre.jumps.len() as int) == pre.jumps,
        forall|j: int| pre.jumps.len() <= j < post.jumps.len() ==> {
            let u = #[trigger] post.jumps[j].user;
            &&& pre.jumpers.contains_key(u)
            &&& pre.jumpers[u].land_tick is Some
            &&& tick - pre.jumpers[u].land_tick->0 >= window
            &&& post.jumps[j] == BombAttempt {
                user: pre.jumpers[u].user,
                start_tick: pre.jumpers[u].start_tick,
                land_tick: pre.jumpers[u].land_tick,
                damage: pre.jumpers[u].damage,
                damage_taken: pre.jumpers[u].damage_taken,
                state: BombState::TimedOut,
            }
        },
        forall|k: u16| #[trigger] pre.jumpers.contains_key(k) && pre.jumpers[k].land_tick is Some && tick
            - pre.jumpers[k].land_tick->0 >= window ==> exists|j: int|
            pre.jumps.len() <= j < post.jumps.len() && #[trigger] post.jumps[j].user == k,
{
    assert forall|k: u16| #[trigger] pre.jumpers.contains_key(k) && pre.jumpers[k].land_tick is Some && tick
        - pre.jumpers[k].land_tick->0 >= window implies exists|j: int|
        pre.jumps.len() <= j < post.jumps.len() && #[trigger] post.jumps[j].user == k by {
        assert(pre.jumpers[k].expired_at(tick, window));
    }
}

/// In `BombAttemptAnalyzer` every hurt during a round counts: a victim mid-attempt gains
/// the damage taken even when the attacker is not mid-attempt.
pub proof fn lemma_bomb_counts_every_hurt(s: TrackerView, user: u16, attacker: u16, amount: u16, tick: u32)
    requires
        s.round.recording(),
        s.ledger.jumpers.contains_key(user),
        s.ledger.jumpers[user].damage_taken + amount <= 65535,
        s.ledger.jumpers.contains_key(attacker) ==> s.ledger.jumpers[attacker].damage + amount <= 65535,
    ensures
        bomb_step(s, GameEvent::PlayerHurt { user_id: user, attacker, damage_amount: amount }, tick).ledger.jumpers[user].damage_taken
            == s.ledger.jumpers[user].damage_taken + amount,
{
    lemma_hurt_adds_damage(s, user, attacker, amount, tick, HurtFilter::Any);
}

/// In `InsightsAnalyzer` a hurt counts only between two players who are both mid-attempt:
/// one whose attacker or victim is not mid-attempt changes no attempt.
pub proof fn lemma_insights_counts_hurt_between_jumpers(s: TrackerView, user: u16, attacker: u16, amount: u16, tick: u32)
    requires
        !s.ledger.jumpers.contains_key(attacker) || !s.ledger.jumpers.contains_key(user),
    ensures
        insights_step(s, GameEvent::PlayerHurt { user_id: user, attacker, damage_amount: amount }, tick).ledger
            == s.ledger,
{
}

/// `BombAttemptAnalyzer` ends an attempt 132 ticks (two seconds) after its landing: at a
/// network tick an attempt stays followed exactly when it has not landed or landed fewer
/// than 132 ticks before.
pub proof fn lemma_bomb_timeout(pre: LedgerView, tick: u32, post: LedgerView)
    requires
        pre.expired(tick, BOMB_TIMEOUT_TICKS, post),
        pre.landed_by(tick),
    ensures
        forall|k: u16| #[trigger] post.jumpers.contains_key(k) <==> pre.jumpers.contains_key(k) && (
            pre.jumpers[k].land_tick is None || tick - pre.jumpers[k].land_tick->0 < 132),
{
    lemma_timeout_after_landing(pre, tick, BOMB_TIMEOUT_TICKS, post);
}

/// `InsightsAnalyzer` ends an attempt 198 ticks (three seconds) after its landing.
pub proof fn lemma_insights_timeout(pre: LedgerView, tick: u32, post: LedgerView)
    requires
        pre.expired(tick, INSIGHTS_TIMEOUT_TICKS, post),
        pre.landed_by(tick),
    ensures
        forall|k: u16| #[trigger] post.jumpers.contains_key(k) <==> pre.jumpers.contains_key(k) && (
            pre.jumpers[k].land_tick is None || tick - pre.jumpers[k].land_tick->0 < 198),
{
    lemma_timeout_after_landing(pre, tick, INSIGHTS_TIMEOUT_TICKS, post);
}

/// Attempts are followed only while a round of a started match is on: before the first
/// round starts, and after a round is won or drawn until the next starts, jumps,
/// landings, deaths and damage change no attempt; once a round starts, a jump by a player
/// who is not mid-attempt starts one.
pub proof fn lemma_rounds_gate_attempts(s: TrackerView, e: GameEvent, tick: u32, later: u32, user: u16, f: HurtFilter)
    requires
        e is RocketJump || e is RocketJumpLanded || e is PlayerDeath || e is PlayerHurt,
    ensures
        !s.round.has_match_started ==> s.after_event(e, tick, f).ledger == s.ledger,
        ({
            let over = s.after_event(GameEvent::RoundWin, tick, f);
            over.after_event(e, later, f).ledger == s.ledger
        }),
        ({
            let over = s.after_event(GameEvent::RoundStalemate, tick, f);
            over.after_event(e, later, f).ledger == s.ledger
        }),
        ({
            let on = s.after_event(GameEvent::RoundStart, tick, f);
            !s.ledger.jumpers.contains_key(user) ==> on.after_event(GameEvent::RocketJump { user_id: user }, later, f).ledger.jumpers.contains_key(user)
        }),
{
}

} // verus!
