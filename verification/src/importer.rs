use vstd::prelude::*;
use crate::assoc::{assoc, find_key, first_index, lemma_first_index_bounds, lemma_first_index_push, lemma_first_index_same_names};

verus! {

broadcast use vstd::seq_lib::group_seq_properties;

/// The running state of telling the two teams of a log apart: the last team id seen on
/// each side, and how many players so far belonged to a team already seen.
#[derive(Clone, Copy, Debug, PartialEq, Eq, Structural)]
pub struct TeamIdScan {
    pub last_red_id: i32,
    pub last_blu_id: i32,
    pub visited: i32,
}

/// The scan after one player of team `team_id` (if the player has a known team) who
/// played on `side`, and whether the scan is done.
pub open spec fn scan_step(s: TeamIdScan, team_id: Option<i32>, side: Seq<char>) -> (TeamIdScan, bool) {
    match team_id {
        None => (s, false),
        Some(id) => {
            let visited: int = if s.last_red_id == id || s.last_blu_id == id { s.visited + 1 } else { s.visited as int };
            let red = if side == "Red"@ { id } else { s.last_red_id };
            let blu = if side == "Blue"@ && side != "Red"@ { id } else { s.last_blu_id };
            (TeamIdScan { last_red_id: red, last_blu_id: blu, visited: visited as i32 }, visited >= 4)
        },
    }
}

/// One player of the scan: a player with no known team changes nothing; otherwise the
/// player counts as visited when the team is the last one seen on either side, the side
/// the player played on ("Red" or "Blue") takes the player's team whatever it held
/// before, the other side keeps its team, and the scan is done once four players were
/// visited.
pub proof fn lemma_scan_takes_last_team(s: TeamIdScan, team_id: Option<i32>, side: Seq<char>)
    requires
        s.visited < 4,
    ensures
        ({
            let (t, done) = scan_step(s, team_id, side);
            &&& team_id is None ==> t == s && !done
            &&& team_id matches Some(id) ==> {
                &&& t.last_red_id == (if side == "Red"@ { id } else { s.last_red_id })
                &&& t.last_blu_id == (if side == "Blue"@ { id } else { s.last_blu_id })
                &&& t.visited == s.visited + (if s.last_red_id == id || s.last_blu_id == id { 1int } else { 0int })
                &&& done == (t.visited >= 4)
            }
        }),
{
    reveal_strlit("Red");
    reveal_strlit("Blue");
    assert("Red"@.len() != "Blue"@.len());
    assert("Red"@ != "Blue"@);
}

impl TeamIdScan {
    /// No team seen yet.
    pub fn new() -> (s: TeamIdScan)
        ensures
            s == (TeamIdScan { last_red_id: 0, last_blu_id: 0, visited: 0 }),
    {
        TeamIdScan { last_red_id: 0, last_blu_id: 0, visited: 0 }
    }

    /// Takes one player; gives whether the scan is done (four players of teams already
    /// seen). A player without a known team is skipped.
    pub fn step(&mut self, team_id: Option<i32>, side: &str) -> (done: bool)
        requires
            old(self).visited < 4,
        ensures
            (*final(self), done) == scan_step(*old(self), team_id, side@),
    {
        let id = match team_id {
            Some(id) => id,
            None => return false,
        };
        if self.last_red_id == id || self.last_blu_id == id {
            self.visited = self.visited + 1;
        }
        let side_name: String = side.to_owned();
        let red: String = "Red".to_owned();
        let blue: String = "Blue".to_owned();
        if side_name == red {
            self.last_red_id = id;
        } else if side_name == blue {
            self.last_blu_id = id;
        }
        self.visited >= 4
    }

    /// The (red, blue) team ids found.
    pub fn teams(&self) -> (t: (i32, i32))
        ensures
            t == (self.last_red_id, self.last_blu_id),
    {
        (self.last_red_id, self.last_blu_id)
    }
}

/// What looking a player's team up in the local tables gave: the team (or that the player
/// has none) from the cache or the player list, or that the RGL API must be asked.
#[derive(Clone, Copy, Debug, PartialEq, Eq, Structural)]
pub enum TeamLookup {
    Found(Option<i32>),
    NeedsFallback,
}

/// The player-to-team tables of an import: the given list (steam id to team id) and a
/// cache of every answer found so far, a missing team included.
pub struct LocalCache {
    given_players: Option<Vec<(String, i32)>>,
    all_players: Vec<(String, Option<i32>)>,
}

#[verifier::ext_equal]
pub struct CacheView {
    pub given: Option<Seq<(String, i32)>>,
    pub all: Seq<(String, Option<i32>)>,
}

impl View for LocalCache {
    type V = CacheView;

    closed spec fn view(&self) -> CacheView {
        CacheView {
            given: match &self.given_players {
                Some(v) => Some(v@),
                None => None,
            },
            all: self.all_players@,
        }
    }
}

impl CacheView {
    /// The team of `id` in the given list.
    pub open spec fn listed(self, id: Seq<char>) -> Option<i32> {
        match self.given {
            Some(g) => assoc(g, id),
            None => None,
        }
    }

    /// What `lookup` answers for `id`: an earlier answer from the cache, else the team in
    /// the given list, else that the RGL API must be asked.
    pub open spec fn lookup_answer(self, id: Seq<char>) -> TeamLookup {
        match assoc(self.all, id) {
            Some(t) => TeamLookup::Found(t),
            None => match self.listed(id) {
                Some(t) => TeamLookup::Found(Some(t)),
                None => TeamLookup::NeedsFallback,
            },
        }
    }

    /// `lookup` files the answer in the cache: it came from the given list.
    pub open spec fn lookup_caches(self, id: Seq<char>) -> bool {
        assoc(self.all, id) is None && self.listed(id) is Some
    }

    /// `post` and `answer` are what fetching the team of `id` gives: the local answer of
    /// `lookup` (which files an answer from the given list), or else `fallback`, the RGL
    /// API's answer, filed with `remember`.
    pub open spec fn fetched(self, id: Seq<char>, fallback: Option<i32>, post: CacheView, answer: Option<i32>) -> bool {
        match self.lookup_answer(id) {
            TeamLookup::Found(t) => {
                &&& answer == t
                &&& self.lookup_caches(id) ==> self.filed(id, self.listed(id), post)
                &&& !self.lookup_caches(id) ==> post == self
            },
            TeamLookup::NeedsFallback => answer == fallback && self.filed(id, fallback, post),
        }
    }

    /// `post` is this cache with `team` filed under `id`: an earlier entry for `id` is
    /// overwritten in place, else the entry is added after the earlier answers.
    pub open spec fn filed(self, id: Seq<char>, team: Option<i32>, post: CacheView) -> bool {
        &&& post.given == self.given
        &&& match first_index(self.all, id) {
            Some(i) => {
                &&& post.all.len() == self.all.len()
                &&& forall|j: int| 0 <= j < self.all.len() && j != i ==> #[trigger] post.all[j] == self.all[j]
                &&& post.all[i].0@ == id
                &&& post.all[i].1 == team
            },
            None => {
                &&& post.all.len() == self.all.len() + 1
                &&& forall|j: int| 0 <= j < self.all.len() ==> #[trigger] post.all[j] == self.all[j]
                &&& post.all.last().0@ == id
                &&& post.all.last().1 == team
            },
        }
    }
}

impl LocalCache {
    /// Tables with no given list.
    pub fn new() -> (c: LocalCache)
        ensures
            c@.given is None,
            c@.all == Seq::<(String, Option<i32>)>::empty(),
    {
        LocalCache { given_players: None, all_players: Vec::new() }
    }

    /// Tables with a given list.
    pub fn with_players(players: Vec<(String, i32)>) -> (c: LocalCache)
        ensures
            c@.given == Some(players@),
            c@.all == Seq::<(String, Option<i32>)>::empty(),
    {
        LocalCache { given_players: Some(players), all_players: Vec::new() }
    }

    /// Sets the given list.
    pub fn load_player_lut(&mut self, players: Vec<(String, i32)>)
        ensures
            final(self)@.given == Some(players@),
            final(self)@.all == old(self)@.all,
    {
        self.given_players = Some(players);
    }

    /// The team of `player_id` in the given list.
    pub fn get_team_id_from_list(&self, player_id: &str) -> (t: Option<i32>)
        ensures
            t == self@.listed(player_id@),
    {
        match &self.given_players {
            Some(players) => match find_key(players, player_id) {
                Some(i) => Some(players[i].1),
                None => None,
            },
            None => None,
        }
    }

    /// A past season's lookup: the given list only.
    pub fn fetch_team_id_for_past_player(&self, id: &str) -> (t: Option<i32>)
        ensures
            t == self@.listed(id@),
    {
        self.get_team_id_from_list(id)
    }

    /// The local part of a current season's lookup: an earlier answer from the cache, else
    /// the given list (the answer is then cached), else the RGL API must be asked.
    pub fn lookup(&mut self, id: &str) -> (r: TeamLookup)
        ensures
            r == old(self)@.lookup_answer(id@),
            old(self)@.lookup_caches(id@) ==> old(self)@.filed(id@, old(self)@.listed(id@), final(self)@),
            !old(self)@.lookup_caches(id@) ==> final(self)@ == old(self)@,
    {
        match find_key(&self.all_players, id) {
            Some(i) => TeamLookup::Found(self.all_players[i].1),
            None => match self.get_team_id_from_list(id) {
                Some(t) => {
                    self.all_players.push((id.to_owned(), Some(t)));
                    TeamLookup::Found(Some(t))
                },
                None => TeamLookup::NeedsFallback,
            },
        }
    }

    /// Caches the RGL API's answer for `id`, replacing an earlier one.
    pub fn remember(&mut self, id: &str, team: Option<i32>)
        ensures
            old(self)@.filed(id@, team, final(self)@),
    {
        match find_key(&self.all_players, id) {
            Some(i) => {
                self.all_players.set(i, (id.to_owned(), team));
            },
            None => {
                self.all_players.push((id.to_owned(), team));
            },
        }
    }
}

/// What is filed under a player is what a lookup then answers for that player, and the
/// answers for every other player stay as they were.
pub proof fn lemma_lookup_after_filing(c: CacheView, id: Seq<char>, team: Option<i32>, post: CacheView, other: Seq<char>)
    requires
        c.filed(id, team, post),
    ensures
        assoc(post.all, id) == Some(team),
        post.lookup_answer(id) == TeamLookup::Found(team),
        other != id ==> post.lookup_answer(other) == c.lookup_answer(other),
{
    lemma_first_index_bounds(c.all, id);
    lemma_first_index_bounds(c.all, other);
    match first_index(c.all, id) {
        Some(i) => {
            assert forall|j: int| 0 <= j < post.all.len() implies (#[trigger] post.all[j]).0@ == c.all[j].0@ by {
                if j != i {
                    assert(post.all[j] == c.all[j]);
                }
            }
            lemma_first_index_same_names(post.all, c.all, id);
            lemma_first_index_same_names(post.all, c.all, other);
            if other != id {
                if let Some(k) = first_index(c.all, other) {
                    assert(k != i);
                    assert(post.all[k] == c.all[k]);
                }
            }
        },
        None => {
            assert(post.all =~= c.all.push(post.all.last()));
            lemma_first_index_push(c.all, post.all.last(), id);
            lemma_first_index_push(c.all, post.all.last(), other);
            if let Some(k) = first_index(c.all, other) {
                assert(post.all[k] == c.all[k]);
            }
        },
    }
}

/// Fetching a player's team a second time gives the first answer (a missing team
/// included) from the cache: the lookup finds it, the RGL API is not asked, and the cache
/// stays as it is.
pub proof fn lemma_fetch_twice(c: CacheView, id: Seq<char>, fallback: Option<i32>, post: CacheView, answer: Option<i32>)
    requires
        c.fetched(id, fallback, post, answer),
    ensures
        post.lookup_answer(id) == TeamLookup::Found(answer),
        !post.lookup_caches(id),
        forall|f: Option<i32>, again: CacheView, second: Option<i32>|
            #[trigger] post.fetched(id, f, again, second) ==> second == answer && again == post,
{
    match c.lookup_answer(id) {
        TeamLookup::Found(t) => {
            if c.lookup_caches(id) {
                lemma_lookup_after_filing(c, id, c.listed(id), post, id);
            }
        },
        TeamLookup::NeedsFallback => {
            lemma_lookup_after_filing(c, id, fallback, post, id);
        },
    }
}

/// Looking a player up twice gives the same answer both times.
pub proof fn lemma_lookup_is_stable(c: CacheView, id: Seq<char>, post: CacheView)
    requires
        c.lookup_caches(id) ==> c.filed(id, c.listed(id), post),
        !c.lookup_caches(id) ==> post == c,
    ensures
        post.lookup_answer(id) == c.lookup_answer(id),
{
    if c.lookup_caches(id) {
        lemma_lookup_after_filing(c, id, c.listed(id), post, id);
    }
}

} // verus!
