use std::collections::HashMap;
use vstd::prelude::*;
use crate::attempt::BombAttempt;
use crate::ledger::keys_of;
use crate::summary::{count_of, damage_of, lemma_counts_bounded, lemma_counts_nonneg, lemma_no_count_no_damage, tally_wide};

verus! {

broadcast use {vstd::std_specs::hash::group_hash_axioms, vstd::seq_lib::group_seq_properties};

/// How many of `user`'s attempts after the player's first one dealt damage (the first
/// attempt of a player is not counted, whatever it dealt).
pub open spec fn later_hits_of(s: Seq<BombAttempt>, user: u16) -> int
    decreases s.len(),
{
    if s.len() == 0 {
        0
    } else {
        later_hits_of(s.drop_last(), user) + if s.last().user == user && s.last().damage > 0
            && count_of(s.drop_last(), user) > 0 { 1int } else { 0int }
    }
}

/// The damage dealt in all the attempts, summed.
pub open spec fn total_of(s: Seq<BombAttempt>) -> int
    decreases s.len(),
{
    if s.len() == 0 {
        0
    } else {
        total_of(s.drop_last()) + s.last().damage as int
    }
}

/// One player's line of the damage breakdown of a demo. `later_hits` counts the player's
/// damaging attempts after the first attempt: the breakdown starts a player's line at the
/// first attempt with no hit, so that attempt is never counted as one, whatever it dealt
/// (the printed "NonzeroDmgBombs" and bomb efficiency are this count).
#[derive(Clone, Copy, Debug, PartialEq, Eq, Structural)]
pub struct DamageBreakdown {
    pub user: u16,
    pub attempts: i32,
    pub later_hits: i32,
    pub damage: u32,
}

/// Every player's attempt count fits an `i32` and damage a `u32`.
pub open spec fn breakdown_fits(s: Seq<BombAttempt>) -> bool {
    forall|u: u16| #[trigger] count_of(s, u) <= i32::MAX && damage_of(s, u) <= u32::MAX
}

/// One line per player who made an attempt, each player once, with the player's count,
/// later damaging attempts and damage.
pub open spec fn is_breakdown(s: Seq<BombAttempt>, t: Seq<DamageBreakdown>) -> bool {
    &&& forall|i: int| 0 <= i < t.len() ==> {
        &&& (#[trigger] t[i]).attempts == count_of(s, t[i].user)
        &&& t[i].later_hits == later_hits_of(s, t[i].user)
        &&& t[i].damage == damage_of(s, t[i].user)
        &&& count_of(s, t[i].user) > 0
    }
    &&& forall|i: int, j: int| 0 <= i < t.len() && 0 <= j < t.len() && i != j ==> #[trigger] t[i].user != #[trigger] t[j].user
    &&& forall|u: u16| #[trigger] count_of(s, u) > 0 ==> exists|i: int| 0 <= i < t.len() && #[trigger] t[i].user == u
}

pub proof fn lemma_later_hits_bounded(s: Seq<BombAttempt>, u: u16)
    ensures
        0 <= later_hits_of(s, u) <= count_of(s, u),
        count_of(s, u) > 0 ==> later_hits_of(s, u) < count_of(s, u),
    decreases s.len(),
{
    if s.len() > 0 {
        lemma_later_hits_bounded(s.drop_last(), u);
        lemma_counts_nonneg(s.drop_last(), u);
    }
}

/// Per player with an attempt, the number of later attempts that dealt damage.
fn later_hits_wide(attempts: &Vec<BombAttempt>) -> (m: HashMap<u16, u128>)
    ensures
        forall|u: u16| #[trigger] m@.contains_key(u) <==> count_of(attempts@, u) > 0,
        forall|u: u16| #[trigger] m@.contains_key(u) ==> m@[u] == later_hits_of(attempts@, u),
{
    let ghost s = attempts@;
    let mut map: HashMap<u16, u128> = HashMap::new();
    let mut i: usize = 0;
    assert(s.take(0) =~= Seq::<BombAttempt>::empty());
    while i < attempts.len()
        invariant
            0 <= i <= s.len(),
            s == attempts@,
            forall|u: u16| #[trigger] map@.contains_key(u) <==> count_of(s.take(i as int), u) > 0,
            forall|u: u16| #[trigger] map@.contains_key(u) ==> map@[u] == later_hits_of(s.take(i as int), u),
        decreases s.len() - i,
    {
        let a = attempts[i];
        assert(s.take(i + 1).drop_last() =~= s.take(i as int));
        assert(s.take(i + 1).last() == a);
        proof {
            lemma_counts_bounded(s.take(i as int), a.user);
            lemma_counts_nonneg(s.take(i as int), a.user);
            lemma_later_hits_bounded(s.take(i as int), a.user);
        }
        match map.get(&a.user) {
            Some(hits) => {
                let h = *hits;
                let next: u128 = if a.damage > 0 { h + 1 } else { h };
                map.insert(a.user, next);
            },
            None => {
                map.insert(a.user, 0);
            },
        }
        proof {
            assert forall|u: u16| u != a.user implies count_of(s.take(i + 1), u) == count_of(s.take(i as int), u)
                && later_hits_of(s.take(i + 1), u) == later_hits_of(s.take(i as int), u) by {}
        }
        i = i + 1;
    }
    assert(s.take(s.len() as int) =~= s);
    map
}

/// The damage breakdown of a demo's attempts: per player with an attempt, how many
/// attempts, how many of the later ones dealt damage, and the damage dealt in all.
/// `None` where a player's count overflows an `i32` or damage a `u32`.
pub fn damage_breakdown(attempts: &Vec<BombAttempt>) -> (r: Option<Vec<DamageBreakdown>>)
    ensures
        r is Some <==> breakdown_fits(attempts@),
        r matches Some(t) ==> is_breakdown(attempts@, t@),
{
    let ghost s = attempts@;
    let totals = tally_wide(attempts);
    let hits = later_hits_wide(attempts);
    let keys = keys_of(&totals);
    let mut t: Vec<DamageBreakdown> = Vec::new();
    let mut j: usize = 0;
    while j < keys.len()
        invariant
            0 <= j <= keys@.len(),
            s == attempts@,
            keys@.to_set() == totals@.dom(),
            keys@.no_duplicates(),
            forall|u: u16| #[trigger] totals@.contains_key(u) <==> count_of(s, u) > 0,
            forall|u: u16| #[trigger] totals@.contains_key(u) ==> totals@[u].0 == count_of(s, u)
                && totals@[u].1 == damage_of(s, u),
            forall|u: u16| #[trigger] hits@.contains_key(u) <==> count_of(s, u) > 0,
            forall|u: u16| #[trigger] hits@.contains_key(u) ==> hits@[u] == later_hits_of(s, u),
            t@.len() == j,
            forall|k: int| 0 <= k < j ==> {
                &&& (#[trigger] t@[k]).user == keys@[k]
                &&& t@[k].attempts == count_of(s, keys@[k])
                &&& t@[k].later_hits == later_hits_of(s, keys@[k])
                &&& t@[k].damage == damage_of(s, keys@[k])
            },
        decreases keys@.len() - j,
    {
        let u = keys[j];
        assert(keys@.to_set().contains(u));
        proof { lemma_later_hits_bounded(s, u); }
        let (cnt, dmg) = match totals.get(&u) {
            Some(entry) => *entry,
            None => (0, 0),
        };
        let h: u128 = match hits.get(&u) {
            Some(x) => *x,
            None => 0,
        };
        if cnt > 2147483647 || dmg > 4294967295 {
            return None;
        }
        t.push(DamageBreakdown { user: u, attempts: cnt as i32, later_hits: h as i32, damage: dmg as u32 });
        j = j + 1;
    }
    proof {
        assert forall|u: u16| #[trigger] count_of(s, u) <= i32::MAX && damage_of(s, u) <= u32::MAX by {
            lemma_counts_nonneg(s, u);
            if count_of(s, u) > 0 {
                assert(keys@.to_set().contains(u));
                let k = keys@.index_of(u);
                assert(t@[k].user == u);
            } else {
                lemma_no_count_no_damage(s, u);
            }
        }
        assert forall|u: u16| #[trigger] count_of(s, u) > 0 implies exists|i: int| 0 <= i < t@.len() && #[trigger] t@[i].user == u by {
            assert(keys@.to_set().contains(u));
            let k = keys@.index_of(u);
            assert(t@[k].user == u);
        }
        assert forall|i: int, k: int| 0 <= i < t@.len() && 0 <= k < t@.len() && i != k implies #[trigger] t@[i].user != #[trigger] t@[k].user by {
            assert(keys@[i] != keys@[k]);
        }
        assert forall|i: int| 0 <= i < t@.len() implies count_of(s, (#[trigger] t@[i]).user) > 0 by {
            assert(keys@.to_set().contains(keys@[i]));
        }
    }
    Some(t)
}

proof fn lemma_total_prefix(s: Seq<BombAttempt>, i: int)
    requires
        0 <= i <= s.len(),
    ensures
        total_of(s.take(i)) <= total_of(s),
    decreases s.len() - i,
{
    if i < s.len() {
        lemma_total_prefix(s, i + 1);
        assert(s.take(i + 1).drop_last() =~= s.take(i));
    } else {
        assert(s.take(i) =~= s);
    }
}

/// The damage of all the attempts, summed, or `None` where it does not fit a `u16`.
pub fn total_damage(attempts: &Vec<BombAttempt>) -> (r: Option<u16>)
    ensures
        match r {
            Some(n) => n == total_of(attempts@),
            None => total_of(attempts@) > u16::MAX,
        },
{
    let ghost s = attempts@;
    let mut acc: u32 = 0;
    let mut i: usize = 0;
    assert(s.take(0) =~= Seq::<BombAttempt>::empty());
    while i < attempts.len()
        invariant
            0 <= i <= s.len(),
            s == attempts@,
            acc == total_of(s.take(i as int)),
            acc <= 65535,
        decreases s.len() - i,
    {
        assert(s.take(i + 1).drop_last() =~= s.take(i as int));
        acc = acc + attempts[i].damage as u32;
        i = i + 1;
        if acc > 65535 {
            proof { lemma_total_prefix(s, i as int); }
            return None;
        }
    }
    assert(s.take(s.len() as int) =~= s);
    Some(acc as u16)
}

/// How many of the attempts dealt damage.
pub open spec fn damaging_of(s: Seq<BombAttempt>) -> int
    decreases s.len(),
{
    if s.len() == 0 {
        0
    } else {
        damaging_of(s.drop_last()) + if s.last().damage > 0 { 1int } else { 0int }
    }
}

/// The number of attempts that dealt damage.
pub fn damaging_attempts(attempts: &Vec<BombAttempt>) -> (n: usize)
    ensures
        n == damaging_of(attempts@),
{
    let ghost s = attempts@;
    let mut n: usize = 0;
    let mut i: usize = 0;
    assert(s.take(0) =~= Seq::<BombAttempt>::empty());
    while i < attempts.len()
        invariant
            0 <= i <= s.len(),
            s == attempts@,
            n == damaging_of(s.take(i as int)),
            n <= i,
        decreases s.len() - i,
    {
        assert(s.take(i + 1).drop_last() =~= s.take(i as int));
        if attempts[i].damage > 0 {
            n = n + 1;
        }
        i = i + 1;
    }
    assert(s.take(s.len() as int) =~= s);
    n
}

/// Whether an attempt is `u`'s.
pub open spec fn by_user(u: u16) -> spec_fn(BombAttempt) -> bool {
    |a: BombAttempt| a.user == u
}

/// Whether an attempt dealt damage.
pub open spec fn dealt_damage() -> spec_fn(BombAttempt) -> bool {
    |a: BombAttempt| a.damage > 0
}

/// A player's tallies over all the attempts are those of the player's own attempts: the
/// count is how many there are, the damage their total; the later hits are how many of
/// them after the first dealt damage; and the damaging attempts are those with damage.
pub proof fn lemma_tallies_of_own_attempts(s: Seq<BombAttempt>, u: u16)
    ensures
        count_of(s, u) == s.filter(by_user(u)).len(),
        damage_of(s, u) == total_of(s.filter(by_user(u))),
        later_hits_of(s, u) == if s.filter(by_user(u)).len() == 0 {
            0
        } else {
            s.filter(by_user(u)).drop_first().filter(dealt_damage()).len() as int
        },
        damaging_of(s) == s.filter(dealt_damage()).len(),
    decreases s.len(),
{
    reveal(Seq::filter);
    if s.len() > 0 {
        let init = s.drop_last();
        let a = s.last();
        lemma_tallies_of_own_attempts(init, u);
        let f0 = init.filter(by_user(u));
        let f = s.filter(by_user(u));
        if a.user == u {
            assert(f == f0.push(a));
            assert(f.drop_last() =~= f0);
            if f0.len() > 0 {
                assert(f.drop_first() =~= f0.drop_first().push(a));
                assert(f.drop_first().drop_last() =~= f0.drop_first());
            } else {
                assert(f.drop_first() =~= Seq::<BombAttempt>::empty());
            }
        } else {
            assert(f == f0);
        }
    }
}

} // verus!
