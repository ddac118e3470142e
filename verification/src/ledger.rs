use std::collections::HashMap;
use vstd::prelude::*;
use crate::attempt::{BombAttempt, BombState};

verus! {

broadcast use {vstd::std_specs::hash::group_hash_axioms, vstd::seq_lib::group_seq_properties};

#[verifier::ext_equal]
/// What a ledger holds: the attempts that are over, in the order they ended, and the
/// attempts still being followed, by the jumper's user id.
pub struct LedgerView {
    pub jumps: Seq<BombAttempt>,
    pub jumpers: Map<u16, BombAttempt>,
}

impl LedgerView {
    pub open spec fn empty() -> LedgerView {
        LedgerView { jumps: Seq::empty(), jumpers: Map::empty() }
    }

    /// Finished attempts are over; followed attempts are active and filed under their
    /// own jumper.
    pub open spec fn consistent(self) -> bool {
        &&& forall|i: int| 0 <= i < self.jumps.len() ==> #[trigger] self.jumps[i].is_finished()
        &&& forall|k: u16| #[trigger] self.jumpers.contains_key(k) ==> {
            &&& self.jumpers[k].user == k
            &&& self.jumpers[k].is_active()
        }
    }

    /// A rocket jump: a followed jumper's attempt is marked as a new jump, anyone else
    /// starts a fresh attempt.
    pub open spec fn jump(self, user: u16, tick: u32) -> LedgerView {
        if self.jumpers.contains_key(user) {
            LedgerView {
                jumpers: self.jumpers.insert(
                    user,
                    self.jumpers[user].with_state(BombState::NewJumpStarted),
                ),
                ..self
            }
        } else {
            LedgerView { jumpers: self.jumpers.insert(user, BombAttempt::fresh(user, tick)), ..self }
        }
    }

    /// A landing: a followed jumper's attempt records the tick it landed.
    pub open spec fn land(self, user: u16, tick: u32) -> LedgerView {
        if self.jumpers.contains_key(user) {
            LedgerView {
                jumpers: self.jumpers.insert(user, self.jumpers[user].with_land_tick(tick)),
                ..self
            }
        } else {
            self
        }
    }

    /// The jumper is no longer followed; nothing is recorded of the attempt.
    pub open spec fn forget(self, user: u16) -> LedgerView {
        LedgerView { jumpers: self.jumpers.remove(user), ..self }
    }

    /// A death: a followed jumper's attempt is over and recorded as `Died`.
    pub open spec fn die(self, user: u16) -> LedgerView {
        if self.jumpers.contains_key(user) {
            LedgerView {
                jumps: self.jumps.push(self.jumpers[user].with_state(BombState::Died)),
                jumpers: self.jumpers.remove(user),
            }
        } else {
            self
        }
    }

    /// Adding `amount` to what the jumper `user` dealt cannot overflow.
    pub open spec fn damage_fits(self, user: u16, amount: u16) -> bool {
        self.jumpers.contains_key(user) ==> self.jumpers[user].damage + amount <= u16::MAX
    }

    /// Adding `amount` to what the jumper `user` took cannot overflow.
    pub open spec fn damage_taken_fits(self, user: u16, amount: u16) -> bool {
        self.jumpers.contains_key(user) ==> self.jumpers[user].damage_taken + amount <= u16::MAX
    }

    pub open spec fn deal(self, user: u16, amount: u16) -> LedgerView {
        if self.jumpers.contains_key(user) {
            LedgerView {
                jumpers: self.jumpers.insert(
                    user,
                    self.jumpers[user].with_damage((self.jumpers[user].damage + amount) as u16),
                ),
                ..self
            }
        } else {
            self
        }
    }

    pub open spec fn take(self, user: u16, amount: u16) -> LedgerView {
        if self.jumpers.contains_key(user) {
            LedgerView {
                jumpers: self.jumpers.insert(
                    user,
                    self.jumpers[user].with_damage_taken(
                        (self.jumpers[user].damage_taken + amount) as u16,
                    ),
                ),
                ..self
            }
        } else {
            self
        }
    }

    /// No followed attempt landed after `tick`.
    pub open spec fn landed_by(self, tick: u32) -> bool {
        forall|k: u16|
            #[trigger] self.jumpers.contains_key(k) ==> (self.jumpers[k].land_tick matches Some(
                land,
            ) ==> land <= tick)
    }

    /// `post` is this ledger after the attempts that landed at least `window` ticks
    /// before `tick` are over: they leave the followed set and are appended, marked
    /// `TimedOut`, each once, in some order.
    pub open spec fn expired(self, tick: u32, window: u32, post: LedgerView) -> bool {
        &&& forall|k: u16| #[trigger]
            post.jumpers.contains_key(k) <==> self.jumpers.contains_key(k)
                && !self.jumpers[k].expired_at(tick, window)
        &&& forall|k: u16| #[trigger]
            post.jumpers.contains_key(k) ==> post.jumpers[k] == self.jumpers[k]
        &&& self.jumps.len() <= post.jumps.len()
        &&& post.jumps.take(self.jumps.len() as int) == self.jumps
        &&& forall|j: int|
            self.jumps.len() <= j < post.jumps.len() ==> {
                let u = #[trigger] post.jumps[j].user;
                &&& self.jumpers.contains_key(u)
                &&& self.jumpers[u].expired_at(tick, window)
                &&& post.jumps[j] == self.jumpers[u].with_state(BombState::TimedOut)
            }
        &&& forall|j1: int, j2: int|
            self.jumps.len() <= j1 < post.jumps.len() && self.jumps.len() <= j2 < post.jumps.len()
                && j1 != j2 ==> #[trigger] post.jumps[j1].user != #[trigger] post.jumps[j2].user
        &&& forall|k: u16|
            #[trigger] self.jumpers.contains_key(k) && self.jumpers[k].expired_at(tick, window)
                ==> exists|j: int|
                self.jumps.len() <= j < post.jumps.len() && #[trigger] post.jumps[j].user == k
    }
}

/// The attempts of one demo: those that are over and those still being followed.
pub struct JumpLedger {
    jumps: Vec<BombAttempt>,
    jumpers: HashMap<u16, BombAttempt>,
}

impl View for JumpLedger {
    type V = LedgerView;

    closed spec fn view(&self) -> LedgerView {
        LedgerView { jumps: self.jumps@, jumpers: self.jumpers@ }
    }
}

/// The keys of a map keyed by user id, each once, in the map's own order.
pub fn keys_of<V>(m: &HashMap<u16, V>) -> (keys: Vec<u16>)
    ensures
        keys@.to_set() == m@.dom(),
        keys@.no_duplicates(),
{
    let mut keys: Vec<u16> = Vec::new();
    for k in it: m.keys()
        invariant
            keys@ =~= it.seq().take(it.index()).unref(),
            it.index() == it.seq().len() ==> keys@ =~= it.seq().unref(),
            it.seq().unref().to_set() == m@.dom(),
            it.seq().unref().no_duplicates(),
    {
        keys.push(*k);
    }
    keys
}

impl JumpLedger {
    #[verifier::type_invariant]
    spec fn inv(self) -> bool {
        self@.consistent()
    }

    /// An empty ledger.
    pub fn new() -> (l: JumpLedger)
        ensures
            l@ == LedgerView::empty(),
    {
        let l = JumpLedger { jumps: Vec::new(), jumpers: HashMap::new() };
        assert(l@.jumps =~= Seq::<BombAttempt>::empty());
        l
    }

    /// Whether `user` has an attempt being followed.
    pub fn tracks(&self, user: u16) -> (b: bool)
        ensures
            b == self@.jumpers.contains_key(user),
    {
        self.jumpers.contains_key(&user)
    }

    /// The attempt being followed for `user`, if any.
    pub fn attempt_of(&self, user: u16) -> (a: Option<BombAttempt>)
        ensures
            a == (if self@.jumpers.contains_key(user) {
                Some(self@.jumpers[user])
            } else {
                None
            }),
    {
        match self.jumpers.get(&user) {
            Some(a) => Some(*a),
            None => None,
        }
    }

    /// The finished attempts.
    pub fn finished(&self) -> (v: &Vec<BombAttempt>)
        ensures
            v@ == self@.jumps,
    {
        &self.jumps
    }

    /// The finished attempts, giving up the ledger.
    pub fn into_finished(self) -> (v: Vec<BombAttempt>)
        ensures
            v@ == self@.jumps,
            forall|i: int| 0 <= i < v@.len() ==> #[trigger] v@[i].is_finished(),
    {
        proof {
            use_type_invariant(&self);
            assert(self@.consistent());
        }
        self.jumps
    }

    /// Takes the followed attempts out of the ledger, leaving none.
    fn take_jumpers(&mut self) -> (m: HashMap<u16, BombAttempt>)
        ensures
            m@ == old(self)@.jumpers,
            final(self)@ == (LedgerView { jumpers: Map::empty(), ..old(self)@ }),
    {
        proof { use_type_invariant(&*self); }
        let mut m = HashMap::new();
        std::mem::swap(&mut m, &mut self.jumpers);
        m
    }

    /// Takes the finished attempts out of the ledger, leaving none.
    fn take_jumps(&mut self) -> (v: Vec<BombAttempt>)
        ensures
            v@ == old(self)@.jumps,
            final(self)@ == (LedgerView { jumps: Seq::empty(), ..old(self)@ }),
    {
        proof { use_type_invariant(&*self); }
        let mut v = Vec::new();
        std::mem::swap(&mut v, &mut self.jumps);
        v
    }

    pub fn jump(&mut self, user: u16, tick: u32)
        ensures
            final(self)@ == old(self)@.jump(user, tick),
    {
        proof { use_type_invariant(&*self); }
        let mut jumpers = self.take_jumpers();
        match jumpers.get(&user) {
            Some(a) => {
                let mut b = *a;
                b.state = BombState::NewJumpStarted;
                jumpers.insert(user, b);
            },
            None => {
                jumpers.insert(user, BombAttempt::started(user, tick));
            },
        }
        self.jumpers = jumpers;
    }

    pub fn land(&mut self, user: u16, tick: u32)
        ensures
            final(self)@ == old(self)@.land(user, tick),
    {
        proof { use_type_invariant(&*self); }
        let mut jumpers = self.take_jumpers();
        match jumpers.get(&user) {
            Some(a) => {
                let mut b = *a;
                b.land_tick = Some(tick);
                jumpers.insert(user, b);
            },
            None => {},
        }
        self.jumpers = jumpers;
    }

    pub fn forget(&mut self, user: u16)
        ensures
            final(self)@ == old(self)@.forget(user),
    {
        proof { use_type_invariant(&*self); }
        let mut jumpers = self.take_jumpers();
        jumpers.remove(&user);
        self.jumpers = jumpers;
    }

    pub fn die(&mut self, user: u16)
        ensures
            final(self)@ == old(self)@.die(user),
    {
        proof { use_type_invariant(&*self); }
        let mut jumpers = self.take_jumpers();
        let removed = jumpers.remove(&user);
        self.jumpers = jumpers;
        match removed {
            Some(a) => {
                let mut b = a;
                b.state = BombState::Died;
                assert(b == old(self)@.jumpers[user].with_state(BombState::Died));
                let mut jumps = self.take_jumps();
                jumps.push(b);
                self.jumps = jumps;
                assert(self@.jumps == old(self)@.jumps.push(b));
                assert(self@.jumpers == old(self)@.jumpers.remove(user));
            },
            None => {},
        }
    }

    pub fn deal(&mut self, user: u16, amount: u16)
        requires
            old(self)@.damage_fits(user, amount),
        ensures
            final(self)@ == old(self)@.deal(user, amount),
    {
        proof { use_type_invariant(&*self); }
        let mut jumpers = self.take_jumpers();
        match jumpers.get(&user) {
            Some(a) => {
                let mut b = *a;
                b.damage = b.damage + amount;
                jumpers.insert(user, b);
            },
            None => {},
        }
        self.jumpers = jumpers;
    }

    pub fn take(&mut self, user: u16, amount: u16)
        requires
            old(self)@.damage_taken_fits(user, amount),
        ensures
            final(self)@ == old(self)@.take(user, amount),
    {
        proof { use_type_invariant(&*self); }
        let mut jumpers = self.take_jumpers();
        match jumpers.get(&user) {
            Some(a) => {
                let mut b = *a;
                b.damage_taken = b.damage_taken + amount;
                jumpers.insert(user, b);
            },
            None => {},
        }
        self.jumpers = jumpers;
    }

    /// Whether no followed attempt landed after `tick`.
    pub fn landed_by(&self, tick: u32) -> (b: bool)
        ensures
            b == self@.landed_by(tick),
    {
        let keys = keys_of(&self.jumpers);
        let mut i: usize = 0;
        while i < keys.len()
            invariant
                0 <= i <= keys.len(),
                keys@.to_set() == self@.jumpers.dom(),
                forall|j: int|
                    0 <= j < i ==> (self@.jumpers[#[trigger] keys@[j]].land_tick matches Some(
                        land,
                    ) ==> land <= tick),
            decreases keys.len() - i,
        {
            let k = keys[i];
            assert(keys@.to_set().contains(k));
            match self.jumpers.get(&k) {
                Some(a) => match a.land_tick {
                    Some(land) => {
                        if land > tick {
                            return false;
                        }
                    },
                    None => {},
                },
                None => {},
            }
            i = i + 1;
        }
        proof {
            assert forall|k: u16| #[trigger] self@.jumpers.contains_key(k) implies (
            self@.jumpers[k].land_tick matches Some(land) ==> land <= tick) by {
                assert(keys@.to_set().contains(k));
                let j = keys@.index_of(k);
                assert(keys@[j] == k);
            }
        }
        true
    }

    /// Ends every attempt that landed at least `window` ticks before `tick`, recording
    /// it as `TimedOut`.
    pub fn expire(&mut self, tick: u32, window: u32)
        requires
            old(self)@.landed_by(tick),
        ensures
            old(self)@.expired(tick, window, final(self)@),
    {
        proof { use_type_invariant(&*self); }
        let ghost pre = self@;
        let mut jumpers = self.take_jumpers();
        let mut jumps = self.take_jumps();
        let keys = keys_of(&jumpers);
        let mut i: usize = 0;
        while i < keys.len()
            invariant
                0 <= i <= keys.len(),
                pre.landed_by(tick),
                pre.consistent(),
                keys@.to_set() == pre.jumpers.dom(),
                keys@.no_duplicates(),
                forall|k: u16| #[trigger]
                    jumpers@.contains_key(k) <==> pre.jumpers.contains_key(k) && !(
                    keys@.take(i as int).contains(k) && pre.jumpers[k].expired_at(tick, window)),
                forall|k: u16| #[trigger]
                    jumpers@.contains_key(k) ==> jumpers@[k] == pre.jumpers[k],
                pre.jumps.len() <= jumps@.len(),
                jumps@.take(pre.jumps.len() as int) == pre.jumps,
                forall|j: int|
                    pre.jumps.len() <= j < jumps@.len() ==> {
                        let u = #[trigger] jumps@[j].user;
                        &&& pre.jumpers.contains_key(u)
                        &&& keys@.take(i as int).contains(u)
                        &&& pre.jumpers[u].expired_at(tick, window)
                        &&& jumps@[j] == pre.jumpers[u].with_state(
                            BombState::TimedOut,
                        )
                    },
                forall|j1: int, j2: int|
                    pre.jumps.len() <= j1 < jumps@.len() && pre.jumps.len() <= j2
                        < jumps@.len() && j1 != j2 ==> #[trigger] jumps@[j1].user
                        != #[trigger] jumps@[j2].user,
                forall|k: u16|
                    #[trigger] keys@.take(i as int).contains(k) && pre.jumpers.contains_key(k)
                        && pre.jumpers[k].expired_at(tick, window) ==> exists|j: int|
                        pre.jumps.len() <= j < jumps@.len() && #[trigger] jumps@[j].user == k,
            decreases keys.len() - i,
        {
            let k = keys[i];
            let ghost before = jumps@;
            assert(keys@.to_set().contains(k));
            assert(keys@.take(i + 1) =~= keys@.take(i as int).push(k));
            assert(!keys@.take(i as int).contains(k)) by {
                if keys@.take(i as int).contains(k) {
                    let j = keys@.take(i as int).index_of(k);
                    assert(keys@[j] == keys@[i as int]);
                }
            }
            assert(jumpers@.contains_key(k) == pre.jumpers.contains_key(k));
            let timed_out = match jumpers.get(&k) {
                Some(a) => match a.land_tick {
                    Some(land) => tick - land >= window,
                    None => false,
                },
                None => false,
            };
            assert(timed_out == pre.jumpers[k].expired_at(tick, window));
            if timed_out {
                match jumpers.remove(&k) {
                    Some(a) => {
                        let mut b = a;
                        b.state = BombState::TimedOut;
                        jumps.push(b);
                    },
                    None => {},
                }
                proof {
                    assert forall|j: int| pre.jumps.len() <= j < before.len() implies #[trigger] before[j].user != k by {
                        assert(keys@.take(i as int).contains(before[j].user));
                    }
                    assert(jumps@.take(pre.jumps.len() as int) =~= before.take(
                        pre.jumps.len() as int,
                    ));
                    assert forall|kk: u16|
                        #[trigger] keys@.take(i + 1).contains(kk) && pre.jumpers.contains_key(kk)
                            && pre.jumpers[kk].expired_at(tick, window) implies exists|j: int|
                        pre.jumps.len() <= j < jumps@.len() && #[trigger] jumps@[j].user == kk by {
                        if kk == k {
                            assert(jumps@[jumps@.len() - 1].user == kk);
                        } else {
                            assert(keys@.take(i as int).contains(kk));
                            let j = choose|j: int|
                                pre.jumps.len() <= j < before.len()
                                    && #[trigger] before[j].user == kk;
                            assert(jumps@[j].user == kk);
                        }
                    }
                }
            } else {
                proof {
                    assert forall|kk: u16|
                        #[trigger] keys@.take(i + 1).contains(kk) && pre.jumpers.contains_key(kk)
                            && pre.jumpers[kk].expired_at(tick, window) implies exists|j: int|
                        pre.jumps.len() <= j < jumps@.len() && #[trigger] jumps@[j].user == kk by {
                        assert(kk != k);
                        assert(keys@.take(i as int).contains(kk));
                    }
                }
            }
            i = i + 1;
        }
        proof {
            assert(keys@.take(keys@.len() as int) =~= keys@);
            assert forall|k: u16| pre.jumpers.contains_key(k) implies #[trigger] keys@.contains(k) by {
                assert(keys@.to_set().contains(k));
            }
            assert forall|j: int| 0 <= j < jumps@.len() implies #[trigger] jumps@[j].is_finished() by {
                if j < pre.jumps.len() {
                    assert(jumps@[j] == jumps@.take(pre.jumps.len() as int)[j]);
                } else {
                    assert(pre.jumpers.contains_key(jumps@[j].user));
                }
            }
        }
        self.jumpers = jumpers;
        self.jumps = jumps;
    }
}

} // verus!
