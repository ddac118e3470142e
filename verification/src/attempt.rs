use vstd::prelude::*;

verus! {

/// How a rocket-jump bomb attempt ended, or that it is still going on.
#[derive(Clone, Copy, Debug, PartialEq, Eq, Structural)]
pub enum BombState {
    InProgress,
    TimedOut,
    NewJumpStarted,
    Died,
}

/// One bomb attempt: a rocket jump by `user`, from the tick it started to the tick it
/// landed, with the damage dealt and taken on the way.
#[derive(Clone, Copy, Debug, PartialEq, Eq, Structural)]
pub struct BombAttempt {
    pub user: u16,
    pub start_tick: u32,
    pub land_tick: Option<u32>,
    pub damage: u16,
    pub damage_taken: u16,
    pub state: BombState,
}

impl BombAttempt {
    /// An attempt that is over: the jumper died or it timed out after landing.
    pub open spec fn is_finished(self) -> bool {
        self.state == BombState::Died || self.state == BombState::TimedOut
    }

    /// An attempt that is still being followed.
    pub open spec fn is_active(self) -> bool {
        self.state == BombState::InProgress || self.state == BombState::NewJumpStarted
    }

    /// The attempt that a rocket jump by `user` at `tick` starts.
    pub open spec fn fresh(user: u16, tick: u32) -> BombAttempt {
        BombAttempt {
            user,
            start_tick: tick,
            land_tick: None,
            damage: 0,
            damage_taken: 0,
            state: BombState::InProgress,
        }
    }

    pub open spec fn with_state(self, state: BombState) -> BombAttempt {
        BombAttempt { state, ..self }
    }

    pub open spec fn with_land_tick(self, tick: u32) -> BombAttempt {
        BombAttempt { land_tick: Some(tick), ..self }
    }

    pub open spec fn with_damage(self, damage: u16) -> BombAttempt {
        BombAttempt { damage, ..self }
    }

    pub open spec fn with_damage_taken(self, damage_taken: u16) -> BombAttempt {
        BombAttempt { damage_taken, ..self }
    }

    /// The attempt landed at least `window` ticks before `tick`.
    pub open spec fn expired_at(self, tick: u32, window: u32) -> bool {
        match self.land_tick {
            Some(land) => tick - land >= window,
            None => false,
        }
    }

    /// A fresh attempt by `user` that started at `tick`.
    pub fn started(user: u16, tick: u32) -> (a: BombAttempt)
        ensures
            a == BombAttempt::fresh(user, tick),
    {
        BombAttempt {
            user,
            start_tick: tick,
            land_tick: None,
            damage: 0,
            damage_taken: 0,
            state: BombState::InProgress,
        }
    }

    /// Whether the attempt ended in the jumper's death.
    pub fn died(&self) -> (b: bool)
        ensures
            b == (self.state == BombState::Died),
    {
        match self.state {
            BombState::Died => true,
            _ => false,
        }
    }
}

} // verus!
