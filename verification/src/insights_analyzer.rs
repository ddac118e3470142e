use vstd::prelude::*;
use crate::attempt::BombAttempt;
use crate::ledger::LedgerView;
use crate::tracker::{AttemptTracker, GameEvent, HurtFilter, RoundState, TrackerView, UserRecord};

verus! {

/// Ticks after landing at which an attempt is over (three seconds at 66 ticks a second).
pub const INSIGHTS_TIMEOUT_TICKS: u32 = 198;

/// The standalone demo analysis: bomb attempts as `BombAttemptAnalyzer` follows them,
/// except that an attempt ends three seconds after landing and that damage counts only
/// between two players who are both mid-attempt.
pub struct InsightsAnalyzer {
    tracker: AttemptTracker,
}

/// What an event does to this analysis: only hurt events between two players who are both mid-attempt count.
pub open spec fn insights_step(s: TrackerView, e: GameEvent, tick: u32) -> TrackerView {
    s.after_event(e, tick, HurtFilter::BothTracked)
}

impl View for InsightsAnalyzer {
    type V = TrackerView;

    closed spec fn view(&self) -> TrackerView {
        self.tracker@
    }
}

impl InsightsAnalyzer {
    pub fn new() -> (a: InsightsAnalyzer)
        ensures
            a@.ledger == LedgerView::empty(),
            a@.round == (RoundState { has_match_started: false, is_dead_time: false }),
            a@.users == Map::<u16, UserRecord>::empty(),
            a@.class_names == Seq::<String>::empty(),
    {
        InsightsAnalyzer { tracker: AttemptTracker::new() }
    }

    /// Whether attempts are being followed: the match has started and the round is on.
    pub fn should_record(&self) -> (b: bool)
        ensures
            b == self@.round.recording(),
    {
        self.tracker.should_record()
    }

    /// Whether `handle_game_event` may take `event` now: the damage it adds fits.
    pub fn event_fits(&self, event: &GameEvent) -> (b: bool)
        ensures
            b == self@.event_fits(*event, HurtFilter::BothTracked),
    {
        self.tracker.event_fits(event, HurtFilter::BothTracked)
    }

    pub fn handle_game_event(&mut self, event: &GameEvent, tick: u32)
        requires
            old(self)@.event_fits(*event, HurtFilter::BothTracked),
        ensures
            final(self)@ == old(self)@.after_event(*event, tick, HurtFilter::BothTracked),
            final(self)@ == insights_step(old(self)@, *event, tick),
    {
        self.tracker.handle_game_event(event, tick, HurtFilter::BothTracked)
    }

    /// Whether `handle_net_tick` may take `tick`: no followed attempt landed later.
    pub fn net_tick_fits(&self, tick: u32) -> (b: bool)
        ensures
            b == self@.ledger.landed_by(tick),
    {
        self.tracker.landed_by(tick)
    }

    /// A network tick: attempts that landed three seconds or more ago time out.
    pub fn handle_net_tick(&mut self, tick: u32)
        requires
            old(self)@.ledger.landed_by(tick),
        ensures
            old(self)@.ledger.expired(tick, INSIGHTS_TIMEOUT_TICKS, final(self)@.ledger),
            final(self)@.round == old(self)@.round,
            final(self)@.users == old(self)@.users,
            final(self)@.class_names == old(self)@.class_names,
    {
        self.tracker.handle_net_tick(tick, INSIGHTS_TIMEOUT_TICKS)
    }

    /// A user-info entry of the string tables.
    pub fn handle_user_info(&mut self, info: UserRecord)
        ensures
            final(self)@ == (TrackerView {
                users: TrackerView::users_after(old(self)@.users, info),
                ..old(self)@
            }),
    {
        self.tracker.record_user(info)
    }

    /// The server class names of the data tables.
    pub fn handle_data_tables(&mut self, class_names: Vec<String>)
        ensures
            final(self)@ == (TrackerView { class_names: class_names@, ..old(self)@ }),
    {
        self.tracker.set_class_names(class_names)
    }

    /// Whether an entity of server class `server_class` is a player.
    pub fn is_player_class(&self, server_class: usize) -> (b: bool)
        ensures
            b == (server_class < self@.class_names.len() && self@.class_names[server_class as int]@
                == "CTFPlayer"@),
    {
        self.tracker.is_player_class(server_class)
    }

    /// The user whose entity is `entity_id`, or user 0 where there is none.
    pub fn user_for_entity(&self, entity_id: u32) -> (id: u16)
        ensures
            self@.entity_known(entity_id) ==> self@.users.contains_key(id)
                && self@.users[id].entity_id == entity_id,
            !self@.entity_known(entity_id) ==> id == 0,
    {
        self.tracker.user_for_entity(entity_id)
    }

    /// Whether `user` is mid-attempt.
    pub fn is_tracking(&self, user: u16) -> (b: bool)
        ensures
            b == self@.ledger.jumpers.contains_key(user),
    {
        self.tracker.ledger().tracks(user)
    }

    /// The user-table entry of `user_id`, if any.
    pub fn user(&self, user_id: u16) -> (u: Option<&UserRecord>)
        ensures
            match u {
                Some(r) => self@.users.contains_key(user_id) && *r == self@.users[user_id],
                None => !self@.users.contains_key(user_id),
            },
    {
        self.tracker.user(user_id)
    }

    /// The attempts finished so far.
    pub fn borrow_output(&self) -> (out: &Vec<BombAttempt>)
        ensures
            out@ == self@.ledger.jumps,
    {
        self.tracker.ledger().finished()
    }

    /// The finished attempts.
    pub fn into_output(self) -> (out: Vec<BombAttempt>)
        ensures
            out@ == self@.ledger.jumps,
            forall|i: int| 0 <= i < out@.len() ==> #[trigger] out@[i].is_finished(),
    {
        self.tracker.into_parts().0
    }
}

} // verus!
