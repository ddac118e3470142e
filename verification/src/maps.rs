use vstd::prelude::*;
use vstd::string::StringExecFns;

verus! {

/// Whether `c` is an ASCII lowercase letter, as `[a-z]` matches.
pub open spec fn is_lower(c: char) -> bool {
    'a' <= c && c <= 'z'
}

/// Where the run of lowercase letters that starts at `i` ends.
pub open spec fn lower_run_end(s: Seq<char>, i: int) -> int
    decreases s.len() - i,
{
    if i < 0 || i >= s.len() || !is_lower(s[i]) {
        i
    } else {
        lower_run_end(s, i + 1)
    }
}

/// The group of a match of `_([a-z]+[^_])_?` that starts at `p`: an underscore, then the
/// longest run of lowercase letters with the character after it (where there is one and
/// it is not an underscore), or else that run itself (where it has two letters or more).
pub open spec fn map_name_at(s: Seq<char>, p: int) -> Option<Seq<char>> {
    if 0 <= p < s.len() && s[p] == '_' {
        let j = lower_run_end(s, p + 1);
        if j > p + 1 && j < s.len() && s[j] != '_' {
            Some(s.subrange(p + 1, j + 1))
        } else if j >= p + 3 {
            Some(s.subrange(p + 1, j))
        } else {
            None
        }
    } else {
        None
    }
}

/// The group of the leftmost match that starts at `p` or later.
pub open spec fn map_name_from(s: Seq<char>, p: int) -> Option<Seq<char>>
    decreases s.len() - p,
{
    if p < 0 || p >= s.len() {
        None
    } else {
        match map_name_at(s, p) {
            Some(m) => Some(m),
            None => map_name_from(s, p + 1),
        }
    }
}

/// The first group of the first match of `_([a-z]+[^_])_?` in a map name ("cp_process_f12"
/// gives "process"): the regex crate takes the leftmost match, and the greedy `[a-z]+`
/// gives back one letter where the next character cannot match `[^_]`.
pub open spec fn map_name_group(map: Seq<char>) -> Option<Seq<char>> {
    map_name_from(map, 0)
}

/// `regex::Regex::captures` with the pattern `_([a-z]+[^_])_?`: the first group of the
/// first match, if there is one.
#[verifier::external_body]
fn map_name_capture(map: &str) -> (c: Option<String>)
    ensures
        match c {
            Some(m) => map_name_group(map@) == Some(m@),
            None => map_name_group(map@) is None,
        },
{
    let pattern = regex::Regex::new(r"_([a-z]+[^_])_?").unwrap();
    let caps = pattern.captures(map)?;
    Some(caps.get(1)?.as_str().to_string())
}

/// The maps of the competitive pool.
pub open spec fn in_map_pool(m: Seq<char>) -> bool {
    m == "process"@ || m == "snakewater"@ || m == "bagel"@ || m == "sultry"@ || m == "gullywash"@
        || m == "product"@ || m == "metalworks"@ || m == "sunshine"@ || m == "granary"@
}

/// What a log's map name says about the demo to look for.
pub enum MapPattern {
    /// The name has no `_name_` part.
    NoMatch,
    /// The name's map is not in the pool.
    NotInPool(String),
    /// A `LIKE` pattern that finds the map in a demo's map name.
    Pattern(String),
}

fn is_pool_map(m: &String) -> (b: bool)
    ensures
        b == in_map_pool(m@),
{
    *m == "process".to_owned() || *m == "snakewater".to_owned() || *m == "bagel".to_owned()
        || *m == "sultry".to_owned() || *m == "gullywash".to_owned() || *m == "product".to_owned()
        || *m == "metalworks".to_owned() || *m == "sunshine".to_owned() || *m
        == "granary".to_owned()
}

/// The map pool is these nine maps, and only these: process, snakewater, bagel, sultry,
/// gullywash, product, metalworks, sunshine and granary.
pub proof fn lemma_map_pool(m: Seq<char>)
    ensures
        in_map_pool(m) <==> (m == "process"@ || m == "snakewater"@ || m == "bagel"@ || m == "sultry"@
            || m == "gullywash"@ || m == "product"@ || m == "metalworks"@ || m == "sunshine"@ || m
            == "granary"@),
{
}

/// The demo search pattern of a log's map: `%name%` for a pool map.
pub fn demo_map_pattern(map: &str) -> (p: MapPattern)
    ensures
        map_name_group(map@) matches Some(m) ==> ((m == "process"@ || m == "snakewater"@ || m
            == "bagel"@ || m == "sultry"@ || m == "gullywash"@ || m == "product"@ || m
            == "metalworks"@ || m == "sunshine"@ || m == "granary"@) ==> (p is Pattern && p->Pattern_0@
            == "%"@ + m + "%"@)),
        match p {
            MapPattern::NoMatch => map_name_group(map@) is None,
            MapPattern::NotInPool(m) => map_name_group(map@) == Some(m@) && !in_map_pool(m@),
            MapPattern::Pattern(pat) => map_name_group(map@) matches Some(m) && in_map_pool(m)
                && pat@ == "%"@ + m + "%"@,
        },
{
    match map_name_capture(map) {
        None => MapPattern::NoMatch,
        Some(m) => {
            if is_pool_map(&m) {
                let mut pat: String = "%".to_owned();
                pat.append(m.as_str());
                pat.append("%");
                MapPattern::Pattern(pat)
            } else {
                MapPattern::NotInPool(m)
            }
        },
    }
}

/// The dates between which a log's demo is looked for: 100 seconds either side.
pub fn demo_time_window(unix_timestamp: i32) -> (w: (i64, i64))
    ensures
        w.0 == unix_timestamp - 100,
        w.1 == unix_timestamp + 100,
{
    (unix_timestamp as i64 - 100, unix_timestamp as i64 + 100)
}

} // verus!
