use std::collections::HashSet;
use vstd::prelude::*;
use crate::ids::{format_id_set, format_log_ids, join_strings, join_with, lemma_log_ids_round_trip, parse_log_ids};
use crate::log::LogView;

verus! {

broadcast use {vstd::std_specs::hash::group_hash_axioms, vstd::seq_lib::group_seq_properties};

/// A team of a team list: its id and its players, each as (name, steam id).
pub struct Team {
    pub id: i32,
    pub players: Vec<(String, String)>,
}

impl Team {
    /// The steam ids of the team's players.
    pub fn player_ids(&self) -> (ids: Vec<String>)
        ensures
            ids@.len() == self.players@.len(),
            forall|i: int| 0 <= i < ids@.len() ==> #[trigger] ids@[i] == self.players@[i].1,
    {
        let mut ids: Vec<String> = Vec::new();
        let mut i: usize = 0;
        while i < self.players.len()
            invariant
                0 <= i <= self.players@.len(),
                ids@.len() == i,
                forall|j: int| 0 <= j < i ==> #[trigger] ids@[j] == self.players@[j].1,
            decreases self.players@.len() - i,
        {
            ids.push(self.players[i].1.clone());
            i = i + 1;
        }
        ids
    }
}

/// The `k`-element combinations of `items`, by position, in lexicographic order of the
/// positions: those with the first item come first, then those without it. Taking no item
/// gives one empty combination; taking more items than there are gives none.
pub open spec fn combinations_of(items: Seq<Seq<char>>, k: nat) -> Seq<Seq<Seq<char>>>
    decreases items.len(),
{
    if k == 0 {
        seq![Seq::empty()]
    } else if items.len() == 0 {
        Seq::empty()
    } else {
        combinations_of(items.drop_first(), (k - 1) as nat).map_values(
            |c: Seq<Seq<char>>| seq![items[0]] + c,
        ) + combinations_of(items.drop_first(), k)
    }
}

/// `Itertools::combinations`: the `k`-element combinations of the items, by position, in
/// lexicographic order of the positions (the crate's documentation and the index walk
/// of its `next` give this order; `k == 0` gives one empty combination).
#[verifier::external_body]
fn k_combinations(items: Vec<String>, k: usize) -> (c: Vec<Vec<String>>)
    ensures
        c.deep_view() == combinations_of(items.deep_view(), k as nat),
{
    itertools::Itertools::combinations(items.into_iter(), k).collect()
}

/// A log counts when six to seven players a side played it (12 to 14 players) and it is
/// dated within the collection window.
pub open spec fn accepts(start: i32, end: Option<i32>, log: LogView) -> bool {
    &&& 12 <= log.players <= 14
    &&& end matches Some(e) ==> log.date <= e
    &&& log.date >= start
}

/// The cache after taking the logs of a search in order, and how many ids were new.
pub open spec fn after_search(cache: Set<i32>, logs: Seq<LogView>, start: i32, end: Option<i32>) -> (Set<i32>, int)
    decreases logs.len(),
{
    if logs.len() == 0 {
        (cache, 0)
    } else {
        let (c, n) = after_search(cache, logs.drop_last(), start, end);
        let l = logs.last();
        if accepts(start, end, l) && !c.contains(l.id) {
            (c.insert(l.id), n + 1)
        } else {
            (c, n)
        }
    }
}

/// The ids of the logs of a search that count.
pub open spec fn accepted_ids(logs: Seq<LogView>, start: i32, end: Option<i32>) -> Set<i32> {
    Set::new(|id: i32| exists|i: int| 0 <= i < logs.len() && #[trigger] logs[i].id == id && accepts(start, end, logs[i]))
}

pub proof fn lemma_after_search(cache: Set<i32>, logs: Seq<LogView>, start: i32, end: Option<i32>)
    ensures
        after_search(cache, logs, start, end).0 == cache.union(accepted_ids(logs, start, end)),
        after_search(cache, logs, start, end).1 >= 0,
    decreases logs.len(),
{
    if logs.len() > 0 {
        let init = logs.drop_last();
        lemma_after_search(cache, init, start, end);
        assert(after_search(cache, logs, start, end).0 =~= cache.union(accepted_ids(logs, start, end))) by {
            assert forall|id: i32| accepted_ids(logs, start, end).contains(id) implies
                #[trigger] after_search(cache, logs, start, end).0.contains(id) by {
                let i = choose|i: int| 0 <= i < logs.len() && #[trigger] logs[i].id == id && accepts(start, end, logs[i]);
                if i < logs.len() - 1 {
                    assert(init[i] == logs[i]);
                    assert(accepted_ids(init, start, end).contains(id));
                }
            }
            assert forall|id: i32| accepted_ids(init, start, end).contains(id) implies
                #[trigger] accepted_ids(logs, start, end).contains(id) by {
                let i = choose|i: int| 0 <= i < init.len() && #[trigger] init[i].id == id && accepts(start, end, init[i]);
                assert(logs[i] == init[i]);
            }
        }
    } else {
        assert(cache.union(accepted_ids(logs, start, end)) =~= cache);
    }
}

pub proof fn lemma_after_search_count_grows(cache: Set<i32>, logs: Seq<LogView>, start: i32, end: Option<i32>, i: int)
    requires
        0 <= i <= logs.len(),
    ensures
        after_search(cache, logs.take(i), start, end).1 <= after_search(cache, logs, start, end).1,
    decreases logs.len() - i,
{
    if i < logs.len() {
        lemma_after_search_count_grows(cache, logs, start, end, i + 1);
        assert(logs.take(i + 1).drop_last() =~= logs.take(i));
    } else {
        assert(logs.take(i) =~= logs);
    }
}

/// Taking one more log of a search: a log that 12 to 14 players played, dated no earlier
/// than the start and (where there is an end) no later than the end, whose id is not
/// collected yet, is collected and counted; any other log changes nothing.
pub proof fn lemma_search_takes_sixes_logs(cache: Set<i32>, logs: Seq<LogView>, log: LogView, start: i32, end: Option<i32>)
    ensures
        ({
            let (c, n) = after_search(cache, logs, start, end);
            let counts = 12 <= log.players && log.players <= 14 && log.date >= start && (end is None
                || log.date <= end->0);
            &&& (counts && !c.contains(log.id)) ==> after_search(cache, logs.push(log), start, end) == (
            c.insert(log.id), n + 1)
            &&& !(counts && !c.contains(log.id)) ==> after_search(cache, logs.push(log), start, end) == (
            c, n)
        }),
{
    assert(logs.push(log).drop_last() =~= logs);
}

/// A search whose counting logs are all collected already adds nothing.
pub proof fn lemma_search_of_collected(cache: Set<i32>, logs: Seq<LogView>, start: i32, end: Option<i32>)
    requires
        accepted_ids(logs, start, end).subset_of(cache),
    ensures
        after_search(cache, logs, start, end) == (cache, 0int),
    decreases logs.len(),
{
    if logs.len() > 0 {
        let init = logs.drop_last();
        assert forall|id: i32| accepted_ids(init, start, end).contains(id) implies #[trigger] cache.contains(id) by {
            let i = choose|i: int| 0 <= i < init.len() && #[trigger] init[i].id == id && accepts(start, end, init[i]);
            assert(logs[i] == init[i]);
            assert(accepted_ids(logs, start, end).contains(id));
        }
        lemma_search_of_collected(cache, init, start, end);
        let l = logs.last();
        if accepts(start, end, l) {
            assert(logs[logs.len() - 1] == l);
            assert(accepted_ids(logs, start, end).contains(l.id));
        }
    }
}

/// Collecting is idempotent: taking the same search a second time collects nothing new
/// and leaves the ids as they are, so no log is collected twice.
pub proof fn lemma_search_again_adds_nothing(cache: Set<i32>, logs: Seq<LogView>, start: i32, end: Option<i32>)
    ensures
        ({
            let once = after_search(cache, logs, start, end).0;
            after_search(once, logs, start, end) == (once, 0int)
        }),
{
    lemma_after_search(cache, logs, start, end);
    lemma_search_of_collected(after_search(cache, logs, start, end).0, logs, start, end);
}

/// One call that adds ids to a collection: `import_log_ids` with a list of ids, or
/// `collect_from_search` with the logs of a search.
pub enum CollectStep {
    Import(Seq<i32>),
    Search(Seq<LogView>),
}

/// The ids that one step adds.
pub open spec fn step_ids(step: CollectStep, start: i32, end: Option<i32>) -> Set<i32> {
    match step {
        CollectStep::Import(ids) => ids.to_set(),
        CollectStep::Search(logs) => accepted_ids(logs, start, end),
    }
}

/// The collection after the steps, in order, as the two calls' contracts give it.
pub open spec fn after_steps(cache: Set<i32>, steps: Seq<CollectStep>, start: i32, end: Option<i32>) -> Set<i32>
    decreases steps.len(),
{
    if steps.len() == 0 {
        cache
    } else {
        after_steps(cache, steps.drop_last(), start, end).union(step_ids(steps.last(), start, end))
    }
}

/// Over any sequence of imports and searches the collection only grows: it holds exactly
/// the ids it held before and the ids each step added, each once (it is a set), and the
/// collection after any earlier step is part of it.
pub proof fn lemma_collection_only_grows(cache: Set<i32>, steps: Seq<CollectStep>, start: i32, end: Option<i32>)
    ensures
        forall|id: i32| #[trigger] after_steps(cache, steps, start, end).contains(id) <==> cache.contains(id)
            || exists|j: int| 0 <= j < steps.len() && #[trigger] step_ids(steps[j], start, end).contains(id),
        forall|i: int| 0 <= i <= steps.len() ==> #[trigger] after_steps(cache, steps.take(i), start, end).subset_of(
            after_steps(cache, steps, start, end),
        ),
    decreases steps.len(),
{
    if steps.len() > 0 {
        let init = steps.drop_last();
        lemma_collection_only_grows(cache, init, start, end);
        let all = after_steps(cache, steps, start, end);
        assert forall|id: i32| #[trigger] all.contains(id) <==> cache.contains(id)
            || exists|j: int| 0 <= j < steps.len() && #[trigger] step_ids(steps[j], start, end).contains(id) by {
            if exists|j: int| 0 <= j < steps.len() && #[trigger] step_ids(steps[j], start, end).contains(id) {
                let j = choose|j: int| 0 <= j < steps.len() && #[trigger] step_ids(steps[j], start, end).contains(id);
                if j < steps.len() - 1 {
                    assert(init[j] == steps[j]);
                    assert(after_steps(cache, init, start, end).contains(id));
                }
            }
            if after_steps(cache, init, start, end).contains(id) && !cache.contains(id) {
                let j = choose|j: int| 0 <= j < init.len() && #[trigger] step_ids(init[j], start, end).contains(id);
                assert(init[j] == steps[j]);
            }
            if step_ids(steps.last(), start, end).contains(id) {
                assert(steps[steps.len() - 1] == steps.last());
            }
        }
        assert forall|i: int| 0 <= i <= steps.len() implies #[trigger] after_steps(cache, steps.take(i), start, end).subset_of(all) by {
            if i == steps.len() {
                assert(steps.take(i) =~= steps);
            } else {
                assert(steps.take(i) =~= init.take(i));
                assert(after_steps(cache, init.take(i), start, end).subset_of(after_steps(cache, init, start, end)));
            }
        }
    } else {
        assert(steps.take(0) =~= steps);
    }
}

/// A nonempty collection written out as `log_ids_text` writes it reads back, as
/// `read_log_ids` reads it, as the same ids: imported into an empty collection they give
/// the collection again.
pub proof fn lemma_dump_reads_back(order: Seq<i32>, cache: Set<i32>)
    requires
        order.no_duplicates(),
        order.to_set() == cache,
        cache.len() > 0,
    ensures
        parse_log_ids(format_log_ids(order)) == Some(order),
        Set::<i32>::empty().union(order.to_set()) == cache,
{
    if order.len() == 0 {
        assert(order.to_set() =~= Set::<i32>::empty());
    }
    lemma_log_ids_round_trip(order);
    assert(Set::<i32>::empty().union(order.to_set()) =~= cache);
}

/// The start date used when none is given or remembered: the season 12 team
/// registration deadline, Mon May 15 2023 03:59:00 UTC.
pub const DEFAULT_START: i32 = 1684123140;

/// The start date given, else the default.
pub fn start_or_default(start: Option<i32>) -> (s: i32)
    ensures
        s == match start {
            Some(v) => v,
            None => DEFAULT_START,
        },
{
    match start {
        Some(v) => v,
        None => DEFAULT_START,
    }
}

/// Collects the ids of scrim logs between a start date and an optional end date.
pub struct Collector {
    log_id_cache: HashSet<i32>,
    pub start: i32,
    pub end: Option<i32>,
}

impl Collector {
    /// The ids collected so far.
    pub closed spec fn cache(&self) -> Set<i32> {
        self.log_id_cache@
    }

    /// The earliest date that counts.
    pub closed spec fn start_date(&self) -> i32 {
        self.start
    }

    /// The latest date that counts, if there is one.
    pub closed spec fn end_date(&self) -> Option<i32> {
        self.end
    }

    pub fn new(start: i32, end: Option<i32>) -> (c: Collector)
        ensures
            c.cache() == Set::<i32>::empty(),
            c.start_date() == start,
            c.end_date() == end,
    {
        Collector { log_id_cache: HashSet::new(), start, end }
    }

    pub fn get_logs(&self) -> (logs: &HashSet<i32>)
        ensures
            logs@ == self.cache(),
    {
        &self.log_id_cache
    }

    /// Whether a log dated `date` is older than the start date, and so skipped.
    pub fn too_old(&self, date: i32) -> (b: bool)
        ensures
            b == (date < self.start_date()),
    {
        date < self.start
    }

    /// The number of ids collected, as an `i32`.
    pub fn log_count(&self) -> (n: i32)
        ensures
            n == self.cache().len() as i32,
    {
        self.log_id_cache.len() as i32
    }

    /// Adds the ids read from a list; gives the number of entries read.
    pub fn import_log_ids(&mut self, ids: &Vec<i32>) -> (n: i32)
        ensures
            final(self).cache() == old(self).cache().union(ids@.to_set()),
            final(self).start_date() == old(self).start_date(),
            final(self).end_date() == old(self).end_date(),
            n == ids@.len() as i32,
    {
        let mut i: usize = 0;
        while i < ids.len()
            invariant
                0 <= i <= ids@.len(),
                self.cache() == old(self).cache().union(ids@.take(i as int).to_set()),
                self.start == old(self).start_date(),
                self.end == old(self).end_date(),
            decreases ids@.len() - i,
        {
            self.log_id_cache.insert(ids[i]);
            assert(ids@.take(i + 1) =~= ids@.take(i as int).push(ids@[i as int]));
            assert(self.cache() =~= old(self).cache().union(ids@.take(i + 1).to_set()));
            i = i + 1;
        }
        assert(ids@.take(ids@.len() as int) =~= ids@);
        ids.len() as i32
    }

    /// The collected ids as a comma-separated list, in the cache's own order.
    pub fn log_ids_text(&self) -> (s: String)
        ensures
            exists|order: Seq<i32>|
                #![trigger format_log_ids(order)]
                order.no_duplicates() && order.to_set() == self.cache() && s@ == format_log_ids(order),
    {
        format_id_set(&self.log_id_cache)
    }

    /// Takes the logs of a search: each that counts and is new is collected; gives the
    /// number of new ones.
    pub fn collect_from_search(&mut self, logs: &Vec<LogView>) -> (n: i32)
        requires
            after_search(old(self).cache(), logs@, old(self).start_date(), old(self).end_date()).1 <= i32::MAX,
        ensures
            final(self).cache() == after_search(old(self).cache(), logs@, old(self).start_date(), old(self).end_date()).0,
            final(self).cache() == old(self).cache().union(accepted_ids(logs@, old(self).start_date(), old(self).end_date())),
            n == after_search(old(self).cache(), logs@, old(self).start_date(), old(self).end_date()).1,
            final(self).start_date() == old(self).start_date(),
            final(self).end_date() == old(self).end_date(),
    {
        let ghost c0 = self.cache();
        let mut collected: i32 = 0;
        let mut i: usize = 0;
        assert(logs@.take(0) =~= Seq::<LogView>::empty());
        while i < logs.len()
            invariant
                0 <= i <= logs@.len(),
                self.start == old(self).start_date(),
                self.end == old(self).end_date(),
                c0 == old(self).cache(),
                after_search(c0, logs@, self.start, self.end).1 <= i32::MAX,
                (self.cache(), collected as int) == after_search(c0, logs@.take(i as int), self.start, self.end),
            decreases logs@.len() - i,
        {
            let log = &logs[i];
            assert(logs@.take(i + 1).drop_last() =~= logs@.take(i as int));
            assert(logs@.take(i + 1).last() == logs@[i as int]);
            proof {
                lemma_after_search_count_grows(c0, logs@, self.start, self.end, i + 1);
            }
            let in_window = match self.end {
                Some(e) => log.date <= e,
                None => true,
            };
            if 12 <= log.players && log.players <= 14 && in_window && log.date >= self.start {
                if self.log_id_cache.insert(log.id) {
                    collected = collected + 1;
                }
            }
            i = i + 1;
        }
        assert(logs@.take(logs@.len() as int) =~= logs@);
        proof { lemma_after_search(c0, logs@, self.start, self.end); }
        collected
    }

    /// The search queries for every `k`-player combination of `player_ids`: the ids of
    /// each joined with commas.
    pub fn player_queries(player_ids: Vec<String>, k: usize) -> (q: Vec<String>)
        ensures
            q.deep_view() == combinations_of(player_ids.deep_view(), k as nat).map_values(
                |c: Seq<Seq<char>>| join_with(c, ","@),
            ),
    {
        let combos = k_combinations(player_ids, k);
        let mut q: Vec<String> = Vec::new();
        let mut i: usize = 0;
        while i < combos.len()
            invariant
                0 <= i <= combos@.len(),
                q.deep_view() =~= combos.deep_view().take(i as int).map_values(
                    |c: Seq<Seq<char>>| join_with(c, ","@),
                ),
            decreases combos@.len() - i,
        {
            let joined = join_strings(&combos[i], ",");
            let ghost before = q@;
            q.push(joined);
            assert(combos.deep_view()[i as int] == combos@[i as int].deep_view());
            assert(q@ == before.push(joined));
            assert(q.deep_view() =~= before.map_values(|s: String| s.deep_view()).push(joined@));
            assert(combos.deep_view().take(i + 1) =~= combos.deep_view().take(i as int).push(combos.deep_view()[i as int]));
            assert(combos.deep_view().take(i + 1).map_values(|c: Seq<Seq<char>>| join_with(c, ","@))
                =~= combos.deep_view().take(i as int).map_values(|c: Seq<Seq<char>>| join_with(c, ","@)).push(
                join_with(combos.deep_view()[i as int], ","@)));
            i = i + 1;
        }
        assert(combos.deep_view().take(combos@.len() as int) =~= combos.deep_view());
        q
    }
}

} // verus!
