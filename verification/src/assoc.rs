use vstd::prelude::*;

verus! {

/// The index of the first entry whose name is `key`, as a lookup in a map keyed by name
/// finds it (the names of a map are distinct).
pub open spec fn first_index<V>(entries: Seq<(String, V)>, key: Seq<char>) -> Option<int>
    decreases entries.len(),
{
    if entries.len() == 0 {
        None
    } else if entries[0].0@ == key {
        Some(0)
    } else {
        match first_index(entries.drop_first(), key) {
            Some(i) => Some(i + 1),
            None => None,
        }
    }
}

/// The value filed under `key`, if any.
pub open spec fn assoc<V>(entries: Seq<(String, V)>, key: Seq<char>) -> Option<V> {
    match first_index(entries, key) {
        Some(i) => Some(entries[i].1),
        None => None,
    }
}

pub proof fn lemma_first_index_bounds<V>(entries: Seq<(String, V)>, key: Seq<char>)
    ensures
        first_index(entries, key) matches Some(i) ==> 0 <= i < entries.len() && entries[i].0@ == key,
        first_index(entries, key) is None ==> forall|j: int| 0 <= j < entries.len() ==> (#[trigger] entries[j]).0@ != key,
    decreases entries.len(),
{
    if entries.len() > 0 {
        lemma_first_index_bounds(entries.drop_first(), key);
        if first_index(entries, key) is None {
            assert forall|j: int| 0 <= j < entries.len() implies (#[trigger] entries[j]).0@ != key by {
                if j > 0 {
                    assert(entries.drop_first()[j - 1] == entries[j]);
                }
            }
        }
    }
}

/// Appending an entry leaves every earlier match in place; the new entry is found only
/// for a name that nothing before it has.
pub proof fn lemma_first_index_push<V>(entries: Seq<(String, V)>, e: (String, V), key: Seq<char>)
    ensures
        first_index(entries.push(e), key) == match first_index(entries, key) {
            Some(i) => Some(i),
            None => if e.0@ == key { Some(entries.len() as int) } else { None },
        },
    decreases entries.len(),
{
    let pushed = entries.push(e);
    if entries.len() > 0 {
        assert(pushed[0] == entries[0]);
        assert(pushed.drop_first() =~= entries.drop_first().push(e));
        lemma_first_index_push(entries.drop_first(), e, key);
        assert(entries.drop_first().len() + 1 == entries.len());
    } else {
        assert(pushed[0] == e);
        assert(pushed.drop_first() =~= Seq::<(String, V)>::empty());
        assert(first_index(pushed.drop_first(), key) is None);
    }
}

/// Two lists with the same names at the same places find a name at the same place.
pub proof fn lemma_first_index_same_names<V>(a: Seq<(String, V)>, b: Seq<(String, V)>, key: Seq<char>)
    requires
        a.len() == b.len(),
        forall|j: int| 0 <= j < a.len() ==> (#[trigger] a[j]).0@ == b[j].0@,
    ensures
        first_index(a, key) == first_index(b, key),
    decreases a.len(),
{
    if a.len() > 0 {
        assert forall|j: int| 0 <= j < a.drop_first().len() implies (#[trigger] a.drop_first()[j]).0@ == b.drop_first()[j].0@ by {
            assert(a.drop_first()[j] == a[j + 1]);
            assert(b.drop_first()[j] == b[j + 1]);
        }
        assert(a[0].0@ == b[0].0@);
        lemma_first_index_same_names(a.drop_first(), b.drop_first(), key);
    }
}

/// The index of the first entry named `key`.
pub fn find_key<V>(entries: &Vec<(String, V)>, key: &str) -> (r: Option<usize>)
    ensures
        match r {
            Some(i) => first_index(entries@, key@) == Some(i as int) && i < entries@.len()
                && entries@[i as int].0@ == key@,
            None => first_index(entries@, key@) is None,
        },
{
    proof { lemma_first_index_bounds(entries@, key@); }
    let wanted: String = key.to_owned();
    let mut i: usize = 0;
    assert(entries@.skip(0) =~= entries@);
    while i < entries.len()
        invariant
            0 <= i <= entries@.len(),
            wanted@ == key@,
            first_index(entries@, key@) == match first_index(entries@.skip(i as int), key@) {
                Some(k) => Some(k + i),
                None => None::<int>,
            },
        decreases entries@.len() - i,
    {
        let ghost rest = entries@.skip(i as int);
        assert(rest[0] == entries@[i as int]);
        assert(rest.drop_first() =~= entries@.skip(i + 1));
        if entries[i].0 == wanted {
            return Some(i);
        }
        assert(first_index(rest, key@) == match first_index(rest.drop_first(), key@) {
            Some(k) => Some(k + 1),
            None => None::<int>,
        });
        i = i + 1;
    }
    None
}

} // verus!
