use std::collections::HashMap;
use vstd::prelude::*;
use crate::attempt::BombAttempt;
use crate::ledger::{keys_of, JumpLedger, LedgerView};

verus! {

broadcast use vstd::std_specs::hash::group_hash_axioms;

/// Whether the match has started and whether the round is over (the time between a
/// round's end and the next round's start).
#[derive(Clone, Copy, Debug, PartialEq, Eq, Structural)]
pub struct RoundState {
    pub has_match_started: bool,
    pub is_dead_time: bool,
}

impl RoundState {
    /// Attempts are followed only while a round of a started match is being played.
    pub open spec fn recording(self) -> bool {
        self.has_match_started && !self.is_dead_time
    }
}

/// The game events that bear on bomb attempts, as plain values.
///
/// `near_enemy` of a landing says whether an enemy player stood close enough to the
/// landing jumper for the landing to count as a bomb.
#[derive(Clone, Copy, Debug, PartialEq, Eq, Structural)]
pub enum GameEvent {
    RoundStart,
    RoundWin,
    RoundStalemate,
    RocketJumpLanded { user_id: u16, near_enemy: bool },
    RocketJump { user_id: u16 },
    PlayerDeath { user_id: u16 },
    PlayerHurt { user_id: u16, attacker: u16, damage_amount: u16 },
    Other,
}

/// Which hurt events count: all of them, or only those where both the attacker and the
/// victim are mid-attempt.
#[derive(Clone, Copy, Debug, PartialEq, Eq, Structural)]
pub enum HurtFilter {
    Any,
    BothTracked,
}

/// What the analysis keeps of a player from the demo's user table.
pub struct UserRecord {
    pub name: String,
    pub user_id: u16,
    pub steam_id: String,
    pub entity_id: u32,
}

/// The whole state of an analysis.
#[verifier::ext_equal]
pub struct TrackerView {
    pub ledger: LedgerView,
    pub round: RoundState,
    pub users: Map<u16, UserRecord>,
    pub class_names: Seq<String>,
}

impl TrackerView {
    /// Whether a hurt event between `user` and `attacker` touches the attempts.
    pub open spec fn hurt_counts(self, filter: HurtFilter, user: u16, attacker: u16) -> bool {
        &&& self.round.recording()
        &&& filter == HurtFilter::BothTracked ==> self.ledger.jumpers.contains_key(attacker)
            && self.ledger.jumpers.contains_key(user)
    }

    /// The damage counters that `event` adds to do not overflow.
    pub open spec fn event_fits(self, event: GameEvent, filter: HurtFilter) -> bool {
        match event {
            GameEvent::PlayerHurt { user_id, attacker, damage_amount } => self.hurt_counts(
                filter,
                user_id,
                attacker,
            ) ==> {
                &&& user_id != attacker ==> self.ledger.damage_fits(attacker, damage_amount)
                &&& self.ledger.damage_taken_fits(user_id, damage_amount)
            },
            _ => true,
        }
    }

    /// The state after `event` happens at `tick`.
    pub open spec fn after_event(self, event: GameEvent, tick: u32, filter: HurtFilter) -> TrackerView {
        match event {
            GameEvent::RoundStart => TrackerView {
                round: RoundState { has_match_started: true, is_dead_time: false },
                ..self
            },
            GameEvent::RoundWin => TrackerView {
                round: RoundState { is_dead_time: true, ..self.round },
                ..self
            },
            GameEvent::RoundStalemate => TrackerView {
                round: RoundState { is_dead_time: true, ..self.round },
                ..self
            },
            GameEvent::RocketJumpLanded { user_id, near_enemy } => if !self.round.recording() {
                self
            } else {
                let kept = if self.ledger.jumpers.contains_key(user_id) && !near_enemy {
                    self.ledger.forget(user_id)
                } else {
                    self.ledger
                };
                TrackerView { ledger: kept.land(user_id, tick), ..self }
            },
            GameEvent::RocketJump { user_id } => if !self.round.recording() {
                self
            } else {
                TrackerView { ledger: self.ledger.jump(user_id, tick), ..self }
            },
            GameEvent::PlayerDeath { user_id } => if !self.round.recording() {
                self
            } else {
                TrackerView { ledger: self.ledger.die(user_id), ..self }
            },
            GameEvent::PlayerHurt { user_id, attacker, damage_amount } => if !self.hurt_counts(
                filter,
                user_id,
                attacker,
            ) {
                self
            } else {
                let dealt = if user_id != attacker {
                    self.ledger.deal(attacker, damage_amount)
                } else {
                    self.ledger
                };
                TrackerView { ledger: dealt.take(user_id, damage_amount), ..self }
            },
            GameEvent::Other => self,
        }
    }

    /// Some user in the table has entity `entity_id`.
    pub open spec fn entity_known(self, entity_id: u32) -> bool {
        exists|k: u16| #[trigger] self.users.contains_key(k) && self.users[k].entity_id == entity_id
    }

    /// The user table after a user-info entry for `info.user_id` is read: a known user
    /// only takes the new entity id, a new one is added whole.
    pub open spec fn users_after(users: Map<u16, UserRecord>, info: UserRecord) -> Map<u16, UserRecord> {
        if users.contains_key(info.user_id) {
            users.insert(info.user_id, UserRecord { entity_id: info.entity_id, ..users[info.user_id] })
        } else {
            users.insert(info.user_id, info)
        }
    }
}

/// The state of one analysis: the attempts, the round, the user table and the server
/// class names.
pub struct AttemptTracker {
    ledger: JumpLedger,
    round: RoundState,
    users: HashMap<u16, UserRecord>,
    class_names: Vec<String>,
}

impl View for AttemptTracker {
    type V = TrackerView;

    closed spec fn view(&self) -> TrackerView {
        TrackerView {
            ledger: self.ledger@,
            round: self.round,
            users: self.users@,
            class_names: self.class_names@,
        }
    }
}

impl AttemptTracker {
    pub fn new() -> (t: AttemptTracker)
        ensures
            t@.ledger == LedgerView::empty(),
            t@.round == (RoundState { has_match_started: false, is_dead_time: false }),
            t@.users == Map::<u16, UserRecord>::empty(),
            t@.class_names == Seq::<String>::empty(),
    {
        let t = AttemptTracker {
            ledger: JumpLedger::new(),
            round: RoundState { has_match_started: false, is_dead_time: false },
            users: HashMap::new(),
            class_names: Vec::new(),
        };
        assert(t@.class_names =~= Seq::<String>::empty());
        t
    }

    pub fn should_record(&self) -> (b: bool)
        ensures
            b == self@.round.recording(),
    {
        self.round.has_match_started && !self.round.is_dead_time
    }

    pub fn ledger(&self) -> (l: &JumpLedger)
        ensures
            l@ == self@.ledger,
    {
        &self.ledger
    }

    pub fn event_fits(&self, event: &GameEvent, filter: HurtFilter) -> (b: bool)
        ensures
            b == self@.event_fits(*event, filter),
    {
        match *event {
            GameEvent::PlayerHurt { user_id, attacker, damage_amount } => {
                let counts = self.should_record() && match filter {
                    HurtFilter::Any => true,
                    HurtFilter::BothTracked => self.ledger.tracks(attacker) && self.ledger.tracks(
                        user_id,
                    ),
                };
                if !counts {
                    return true;
                }
                let dealt_fits = if user_id != attacker {
                    match self.ledger.attempt_of(attacker) {
                        Some(a) => a.damage as u32 + damage_amount as u32 <= 65535,
                        None => true,
                    }
                } else {
                    true
                };
                let taken_fits = match self.ledger.attempt_of(user_id) {
                    Some(a) => a.damage_taken as u32 + damage_amount as u32 <= 65535,
                    None => true,
                };
                dealt_fits && taken_fits
            },
            _ => true,
        }
    }

    pub fn handle_game_event(&mut self, event: &GameEvent, tick: u32, filter: HurtFilter)
        requires
            old(self)@.event_fits(*event, filter),
        ensures
            final(self)@ == old(self)@.after_event(*event, tick, filter),
    {
        match *event {
            GameEvent::RoundStart => {
                if !self.round.has_match_started {
                    self.round.has_match_started = true;
                }
                self.round.is_dead_time = false;
            },
            GameEvent::RoundWin => {
                self.round.is_dead_time = true;
            },
            GameEvent::RoundStalemate => {
                self.round.is_dead_time = true;
            },
            GameEvent::RocketJumpLanded { user_id, near_enemy } => {
                if !self.should_record() {
                    return;
                }
                if self.ledger.tracks(user_id) && !near_enemy {
                    self.ledger.forget(user_id);
                }
                self.ledger.land(user_id, tick);
            },
            GameEvent::RocketJump { user_id } => {
                if !self.should_record() {
                    return;
                }
                self.ledger.jump(user_id, tick);
            },
            GameEvent::PlayerDeath { user_id } => {
                if !self.should_record() {
                    return;
                }
                self.ledger.die(user_id);
            },
            GameEvent::PlayerHurt { user_id, attacker, damage_amount } => {
                let counts = match filter {
                    HurtFilter::Any => self.should_record(),
                    HurtFilter::BothTracked => self.ledger.tracks(attacker) && self.ledger.tracks(
                        user_id,
                    ) && self.should_record(),
                };
                if !counts {
                    return;
                }
                if user_id != attacker {
                    self.ledger.deal(attacker, damage_amount);
                }
                self.ledger.take(user_id, damage_amount);
            },
            GameEvent::Other => {},
        }
    }

    /// Whether no followed attempt landed after `tick`.
    pub fn landed_by(&self, tick: u32) -> (b: bool)
        ensures
            b == self@.ledger.landed_by(tick),
    {
        self.ledger.landed_by(tick)
    }

    /// A network tick at `tick`: attempts that landed `window` or more ticks ago end.
    pub fn handle_net_tick(&mut self, tick: u32, window: u32)
        requires
            old(self)@.ledger.landed_by(tick),
        ensures
            old(self)@.ledger.expired(tick, window, final(self)@.ledger),
            final(self)@.round == old(self)@.round,
            final(self)@.users == old(self)@.users,
            final(self)@.class_names == old(self)@.class_names,
    {
        self.ledger.expire(tick, window);
    }

    /// Files a user-info entry.
    pub fn record_user(&mut self, info: UserRecord)
        ensures
            final(self)@ == (TrackerView {
                users: TrackerView::users_after(old(self)@.users, info),
                ..old(self)@
            }),
    {
        let id = info.user_id;
        match self.users.remove(&id) {
            Some(existing) => {
                let mut e = existing;
                e.entity_id = info.entity_id;
                self.users.insert(id, e);
            },
            None => {
                self.users.insert(id, info);
            },
        }
    }

    /// The user whose entity is `entity_id`, or user 0 where there is none.
    pub fn user_for_entity(&self, entity_id: u32) -> (id: u16)
        ensures
            self@.entity_known(entity_id) ==> self@.users.contains_key(id)
                && self@.users[id].entity_id == entity_id,
            !self@.entity_known(entity_id) ==> id == 0,
    {
        let keys = keys_of(&self.users);
        let mut i: usize = 0;
        while i < keys.len()
            invariant
                0 <= i <= keys.len(),
                keys@.to_set() == self@.users.dom(),
                forall|j: int|
                    0 <= j < i ==> self@.users[#[trigger] keys@[j]].entity_id != entity_id,
            decreases keys.len() - i,
        {
            let k = keys[i];
            assert(keys@.to_set().contains(k));
            match self.users.get(&k) {
                Some(u) => {
                    if u.entity_id == entity_id {
                        return k;
                    }
                },
                None => {},
            }
            i = i + 1;
        }
        proof {
            assert forall|k: u16| #[trigger] self@.users.contains_key(k) implies self@.users[k].entity_id
                != entity_id by {
                assert(keys@.to_set().contains(k));
                let j = keys@.index_of(k);
                assert(keys@[j] == k);
            }
        }
        0
    }

    /// The user-table entry of `user_id`, if any.
    pub fn user(&self, user_id: u16) -> (u: Option<&UserRecord>)
        ensures
            match u {
                Some(r) => self@.users.contains_key(user_id) && *r == self@.users[user_id],
                None => !self@.users.contains_key(user_id),
            },
    {
        self.users.get(&user_id)
    }

    /// Files the server class names of the demo's data tables.
    pub fn set_class_names(&mut self, names: Vec<String>)
        ensures
            final(self)@ == (TrackerView { class_names: names@, ..old(self)@ }),
    {
        self.class_names = names;
    }

    /// Whether server class number `server_class` is the player class.
    pub fn is_player_class(&self, server_class: usize) -> (b: bool)
        ensures
            b == (server_class < self@.class_names.len() && self@.class_names[server_class as int]@
                == "CTFPlayer"@),
    {
        if server_class < self.class_names.len() {
            let player: String = "CTFPlayer".to_owned();
            self.class_names[server_class] == player
        } else {
            false
        }
    }

    /// The finished attempts and the user table, giving up the tracker.
    pub fn into_parts(self) -> (out: (Vec<BombAttempt>, HashMap<u16, UserRecord>))
        ensures
            out.0@ == self@.ledger.jumps,
            out.1@ == self@.users,
            forall|i: int| 0 <= i < out.0@.len() ==> #[trigger] out.0@[i].is_finished(),
    {
        (self.ledger.into_finished(), self.users)
    }
}

} // verus!
