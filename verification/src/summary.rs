use std::collections::HashMap;
use vstd::prelude::*;
use crate::attempt::BombAttempt;
use crate::ledger::keys_of;
use crate::steam_id::{steam3_convertible, steam3_converts, steam3_fields, steam3_id, steam3_id64};
use crate::tracker::UserRecord;

verus! {

broadcast use {vstd::std_specs::hash::group_hash_axioms, vstd::seq_lib::group_seq_properties};

/// How many of the attempts are by `user`.
pub open spec fn count_of(s: Seq<BombAttempt>, user: u16) -> int
    decreases s.len(),
{
    if s.len() == 0 {
        0
    } else {
        count_of(s.drop_last(), user) + if s.last().user == user { 1int } else { 0int }
    }
}

/// The damage dealt in the attempts by `user`, summed.
pub open spec fn damage_of(s: Seq<BombAttempt>, user: u16) -> int
    decreases s.len(),
{
    if s.len() == 0 {
        0
    } else {
        damage_of(s.drop_last(), user) + if s.last().user == user { s.last().damage as int } else { 0int }
    }
}

/// One player's bomb attempts: how many, and the damage they dealt in all.
#[derive(Clone, Copy, Debug, PartialEq, Eq, Structural)]
pub struct AttemptTotals {
    pub user: u16,
    pub attempts: i32,
    pub damage: i32,
}

/// The tallies fit in an `i32`, as the summary keeps them.
pub open spec fn tallies_fit(s: Seq<BombAttempt>) -> bool {
    forall|u: u16| #[trigger] count_of(s, u) <= i32::MAX && damage_of(s, u) <= i32::MAX
}

/// One row per player who made an attempt, each player once, with the player's count and
/// damage.
pub open spec fn is_tally(s: Seq<BombAttempt>, t: Seq<AttemptTotals>) -> bool {
    &&& forall|i: int| 0 <= i < t.len() ==> {
        &&& (#[trigger] t[i]).attempts == count_of(s, t[i].user)
        &&& t[i].damage == damage_of(s, t[i].user)
        &&& count_of(s, t[i].user) > 0
    }
    &&& forall|i: int, j: int| 0 <= i < t.len() && 0 <= j < t.len() && i != j ==> #[trigger] t[i].user != #[trigger] t[j].user
    &&& forall|u: u16| #[trigger] count_of(s, u) > 0 ==> exists|i: int| 0 <= i < t.len() && #[trigger] t[i].user == u
}

pub(crate) proof fn lemma_counts_nonneg(s: Seq<BombAttempt>, u: u16)
    ensures
        count_of(s, u) >= 0,
        damage_of(s, u) >= 0,
    decreases s.len(),
{
    if s.len() > 0 {
        lemma_counts_nonneg(s.drop_last(), u);
    }
}

pub proof fn lemma_counts_bounded(s: Seq<BombAttempt>, u: u16)
    ensures
        count_of(s, u) <= s.len(),
        damage_of(s, u) <= 65535 * s.len(),
    decreases s.len(),
{
    if s.len() > 0 {
        lemma_counts_bounded(s.drop_last(), u);
    }
}

/// Per player with an attempt, the number of attempts and the damage dealt, counted
/// without bound.
pub(crate) fn tally_wide(attempts: &Vec<BombAttempt>) -> (m: HashMap<u16, (u128, u128)>)
    ensures
        forall|u: u16| #[trigger] m@.contains_key(u) <==> count_of(attempts@, u) > 0,
        forall|u: u16| #[trigger] m@.contains_key(u) ==> m@[u].0 == count_of(attempts@, u)
            && m@[u].1 == damage_of(attempts@, u),
{
    let ghost s = attempts@;
    let mut map: HashMap<u16, (u128, u128)> = HashMap::new();
    let mut i: usize = 0;
    assert(s.take(0) =~= Seq::<BombAttempt>::empty());
    while i < attempts.len()
        invariant
            0 <= i <= s.len(),
            s == attempts@,
            forall|u: u16| #[trigger] map@.contains_key(u) <==> count_of(s.take(i as int), u) > 0,
            forall|u: u16| #[trigger] map@.contains_key(u) ==> map@[u].0 == count_of(s.take(i as int), u)
                && map@[u].1 == damage_of(s.take(i as int), u),
        decreases s.len() - i,
    {
        let a = attempts[i];
        assert(s.take(i + 1).drop_last() =~= s.take(i as int));
        assert(s.take(i + 1).last() == a);
        proof {
            lemma_counts_bounded(s.take(i as int), a.user);
            lemma_counts_nonneg(s.take(i as int), a.user);
            assert(65535 * i <= 65535 * 0x1_0000_0000_0000_0000) by (nonlinear_arith)
                requires i <= 0x1_0000_0000_0000_0000;
        }
        match map.get(&a.user) {
            Some(entry) => {
                let (cnt, dmg) = *entry;
                map.insert(a.user, (cnt + 1, dmg + a.damage as u128));
            },
            None => {
                proof { lemma_no_count_no_damage(s.take(i as int), a.user); }
                map.insert(a.user, (1, a.damage as u128));
            },
        }
        proof {
            assert forall|u: u16| u != a.user implies count_of(s.take(i + 1), u) == count_of(s.take(i as int), u)
                && damage_of(s.take(i + 1), u) == damage_of(s.take(i as int), u) by {}
        }
        i = i + 1;
    }
    assert(s.take(s.len() as int) =~= s);
    map
}

/// Counts, per player, the attempts and the damage dealt in them.
pub fn tally_attempts(attempts: &Vec<BombAttempt>) -> (t: Vec<AttemptTotals>)
    requires
        tallies_fit(attempts@),
    ensures
        is_tally(attempts@, t@),
{
    let ghost s = attempts@;
    let map = tally_wide(attempts);
    let keys = keys_of(&map);
    let mut t: Vec<AttemptTotals> = Vec::new();
    let mut j: usize = 0;
    while j < keys.len()
        invariant
            0 <= j <= keys@.len(),
            s == attempts@,
            tallies_fit(s),
            keys@.to_set() == map@.dom(),
            keys@.no_duplicates(),
            forall|u: u16| #[trigger] map@.contains_key(u) <==> count_of(s, u) > 0,
            forall|u: u16| #[trigger] map@.contains_key(u) ==> map@[u].0 == count_of(s, u) && map@[u].1
                == damage_of(s, u),
            t@.len() == j,
            forall|k: int| 0 <= k < j ==> (#[trigger] t@[k]).user == keys@[k] && map@.contains_key(keys@[k])
                && t@[k].attempts == map@[keys@[k]].0 && t@[k].damage == map@[keys@[k]].1,
        decreases keys@.len() - j,
    {
        let u = keys[j];
        assert(keys@.to_set().contains(u));
        assert(count_of(s, u) <= i32::MAX && damage_of(s, u) <= i32::MAX);
        match map.get(&u) {
            Some(entry) => {
                t.push(AttemptTotals { user: u, attempts: entry.0 as i32, damage: entry.1 as i32 });
            },
            None => {},
        }
        j = j + 1;
    }
    proof {
        assert forall|u: u16| #[trigger] count_of(s, u) > 0 implies exists|i: int| 0 <= i < t@.len() && #[trigger] t@[i].user == u by {
            assert(keys@.to_set().contains(u));
            let k = keys@.index_of(u);
            assert(t@[k].user == u);
        }
        assert forall|i: int, k: int| 0 <= i < t@.len() && 0 <= k < t@.len() && i != k implies #[trigger] t@[i].user != #[trigger] t@[k].user by {
            assert(keys@[i] != keys@[k]);
        }
    }
    t
}

/// Whether the per-player tallies of the attempts fit an `i32`.
pub fn tallies_fit_check(attempts: &Vec<BombAttempt>) -> (b: bool)
    ensures
        b == tallies_fit(attempts@),
{
    let ghost s = attempts@;
    let map = tally_wide(attempts);
    let keys = keys_of(&map);
    let mut j: usize = 0;
    while j < keys.len()
        invariant
            0 <= j <= keys@.len(),
            s == attempts@,
            keys@.to_set() == map@.dom(),
            forall|u: u16| #[trigger] map@.contains_key(u) <==> count_of(s, u) > 0,
            forall|u: u16| #[trigger] map@.contains_key(u) ==> map@[u].0 == count_of(s, u) && map@[u].1
                == damage_of(s, u),
            forall|k: int| 0 <= k < j ==> count_of(s, #[trigger] keys@[k]) <= i32::MAX && damage_of(s, keys@[k]) <= i32::MAX,
        decreases keys@.len() - j,
    {
        let u = keys[j];
        assert(keys@.to_set().contains(u));
        match map.get(&u) {
            Some(entry) => {
                if entry.0 > 2147483647 || entry.1 > 2147483647 {
                    return false;
                }
            },
            None => {},
        }
        j = j + 1;
    }
    proof {
        assert forall|u: u16| #[trigger] count_of(s, u) <= i32::MAX && damage_of(s, u) <= i32::MAX by {
            lemma_counts_nonneg(s, u);
            if count_of(s, u) > 0 {
                assert(keys@.to_set().contains(u));
                let k = keys@.index_of(u);
                assert(keys@[k] == u);
            } else {
                lemma_no_count_no_damage(s, u);
            }
        }
    }
    true
}

pub(crate) proof fn lemma_no_count_no_damage(s: Seq<BombAttempt>, u: u16)
    requires
        count_of(s, u) <= 0,
    ensures
        damage_of(s, u) == 0,
    decreases s.len(),
{
    if s.len() > 0 {
        lemma_counts_nonneg(s.drop_last(), u);
        lemma_no_count_no_damage(s.drop_last(), u);
    }
}

/// One player's line of a demo summary: the player's name and id with the attempt count
/// and total damage.
pub struct PlayerTotals {
    pub name: String,
    pub steamid: u64,
    pub attempts: i32,
    pub damage: i32,
}

/// Every player with an attempt is in the user table, with a steam3 id that
/// `SteamID::from_steam3` reads, and the tallies fit.
pub open spec fn summary_defined(attempts: Seq<BombAttempt>, users: Map<u16, UserRecord>) -> bool {
    &&& tallies_fit(attempts)
    &&& forall|u: u16| #[trigger] count_of(attempts, u) > 0 ==> {
        &&& users.contains_key(u)
        &&& steam3_converts(users[u].steam_id@)
        &&& steam3_fields(users[u].steam_id@) is Some
    }
}

/// `row` is the summary line of the tally `t` for the players in `users`; the id is the
/// full 64-bit id, or only its account number.
pub open spec fn summary_row(row: PlayerTotals, t: AttemptTotals, users: Map<u16, UserRecord>, account_only: bool) -> bool {
    let id = steam3_id64(users[t.user].steam_id@)->0;
    &&& row.name@ == users[t.user].name@
    &&& row.steamid == if account_only { id % 0x1_0000_0000 } else { id }
    &&& row.attempts == t.attempts
    &&& row.damage == t.damage
}

/// Whether `package_totals` can summarize these results.
pub fn summary_possible(attempts: &Vec<BombAttempt>, users: &HashMap<u16, UserRecord>) -> (b: bool)
    ensures
        b == summary_defined(attempts@, users@),
{
    let ghost s = attempts@;
    if !tallies_fit_check(attempts) {
        return false;
    }
    let mut i: usize = 0;
    while i < attempts.len()
        invariant
            0 <= i <= s.len(),
            s == attempts@,
            tallies_fit(s),
            forall|k: int| 0 <= k < i ==> {
                let u = (#[trigger] s[k]).user;
                &&& users@.contains_key(u)
                &&& steam3_converts(users@[u].steam_id@)
                &&& steam3_fields(users@[u].steam_id@) is Some
            },
        decreases s.len() - i,
    {
        let u = attempts[i].user;
        proof { lemma_user_has_attempt(s, i as int); }
        match users.get(&u) {
            Some(rec) => {
                if !steam3_convertible(rec.steam_id.as_str()) {
                    return false;
                }
                if steam3_id(rec.steam_id.as_str()).is_none() {
                    return false;
                }
            },
            None => {
                return false;
            },
        }
        i = i + 1;
    }
    proof {
        assert forall|u: u16| #[trigger] count_of(s, u) > 0 implies users@.contains_key(u)
            && steam3_converts(users@[u].steam_id@) && steam3_fields(users@[u].steam_id@) is Some by {
            let k = lemma_attempt_of_user(s, u);
        }
    }
    true
}

/// The player of attempt `i` has a positive count.
pub proof fn lemma_user_has_attempt(s: Seq<BombAttempt>, i: int)
    requires
        0 <= i < s.len(),
    ensures
        count_of(s, s[i].user) > 0,
    decreases s.len(),
{
    lemma_counts_nonneg(s.drop_last(), s[i].user);
    if i < s.len() - 1 {
        assert(s.drop_last()[i] == s[i]);
        lemma_user_has_attempt(s.drop_last(), i);
    }
}

/// A player with a positive count has an attempt.
pub proof fn lemma_attempt_of_user(s: Seq<BombAttempt>, u: u16) -> (k: int)
    requires
        count_of(s, u) > 0,
    ensures
        0 <= k < s.len() && s[k].user == u,
    decreases s.len(),
{
    if s.last().user == u {
        s.len() - 1
    } else {
        let k = lemma_attempt_of_user(s.drop_last(), u);
        assert(s[k] == s.drop_last()[k]);
        k
    }
}

/// The summary lines of a demo: per player with an attempt, the name, the id and the
/// tallies; `account_only` gives the account number in place of the 64-bit id.
pub fn package_totals(attempts: &Vec<BombAttempt>, users: &HashMap<u16, UserRecord>, account_only: bool) -> (rows: Vec<PlayerTotals>)
    requires
        summary_defined(attempts@, users@),
    ensures
        exists|t: Seq<AttemptTotals>| #[trigger] is_tally(attempts@, t) && rows@.len() == t.len()
            && forall|i: int| 0 <= i < t.len() ==> summary_row(#[trigger] rows@[i], t[i], users@, account_only),
{
    let t = tally_attempts(attempts);
    let mut rows: Vec<PlayerTotals> = Vec::new();
    let mut i: usize = 0;
    while i < t.len()
        invariant
            0 <= i <= t@.len(),
            is_tally(attempts@, t@),
            summary_defined(attempts@, users@),
            rows@.len() == i,
            forall|k: int| 0 <= k < i ==> summary_row(#[trigger] rows@[k], t@[k], users@, account_only),
        decreases t@.len() - i,
    {
        let row = t[i];
        assert(count_of(attempts@, row.user) > 0);
        match users.get(&row.user) {
            Some(rec) => {
                let id = match steam3_id(rec.steam_id.as_str()) {
                    Some(id) => id,
                    None => 0,
                };
                let steamid = if account_only { id % 0x1_0000_0000 } else { id };
                rows.push(PlayerTotals { name: rec.name.clone(), steamid, attempts: row.attempts, damage: row.damage });
            },
            None => {},
        }
        i = i + 1;
    }
    rows
}

} // verus!
