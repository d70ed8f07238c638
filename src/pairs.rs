//! Lists of string pairs read as maps from key to value.
use vstd::prelude::*;

verus! {

/// The map from key to value that a list of pairs describes, a later pair
/// overriding an earlier one with the same key.
pub open spec fn pairs_map(s: Seq<(String, String)>) -> Map<Seq<char>, Seq<char>>
    decreases s.len(),
{
    if s.len() == 0 {
        Map::empty()
    } else {
        pairs_map(s.drop_last()).insert(s.last().0@, s.last().1@)
    }
}

/// No key occurs twice.
pub open spec fn unique_keys(s: Seq<(String, String)>) -> bool {
    forall|i: int, j: int|
        0 <= i < s.len() && 0 <= j < s.len() && i != j ==> (#[trigger] s[i]).0@ != (#[trigger] s[j]).0@
}

/// The value paired with `key`, the last pair with that key winning.
pub open spec fn lookup(resolved: Seq<(String, String)>, key: Seq<char>) -> Option<Seq<char>>
    decreases resolved.len(),
{
    if resolved.len() == 0 {
        None
    } else if resolved.last().0@ == key {
        Some(resolved.last().1@)
    } else {
        lookup(resolved.drop_last(), key)
    }
}

/// The views of the strings.
pub open spec fn string_views(s: Seq<String>) -> Seq<Seq<char>> {
    s.map_values(|x: String| x@)
}

pub proof fn lemma_take_more<T>(s: Seq<T>, i: int)
    requires
        0 <= i < s.len(),
    ensures
        s.take(i + 1).drop_last() == s.take(i),
        s.take(i + 1).last() == s[i],
{
    assert(s.take(i + 1).drop_last() =~= s.take(i));
}

pub proof fn lemma_pairs_map_update(s: Seq<(String, String)>, i: int, e: (String, String))
    requires
        unique_keys(s),
        0 <= i < s.len(),
        e.0@ == s[i].0@,
    ensures
        pairs_map(s.update(i, e)) == pairs_map(s).insert(e.0@, e.1@),
        unique_keys(s.update(i, e)),
    decreases s.len(),
{
    let t = s.update(i, e);
    assert(t.drop_last() =~= if i == s.len() - 1 { s.drop_last() } else { s.drop_last().update(i, e) });
    if i < s.len() - 1 {
        lemma_pairs_map_update(s.drop_last(), i, e);
        assert(s.last().0@ != e.0@) by {
            assert(s[s.len() - 1] == s.last());
        };
    }
    assert(pairs_map(t) =~= pairs_map(s).insert(e.0@, e.1@));
    assert forall|a: int, b: int|
        0 <= a < t.len() && 0 <= b < t.len() && a != b implies (#[trigger] t[a]).0@ != (#[trigger] t[b]).0@ by {
        assert(s[a].0@ != s[b].0@);
    }
}

/// The value paired with `key`, the last pair with that key winning.
pub fn resolve(resolved: &Vec<(String, String)>, key: &String) -> (r: Option<String>)
    ensures
        match r {
            Some(tx) => lookup(resolved@, key@) == Some(tx@),
            None => lookup(resolved@, key@) is None,
        },
{
    let mut r: Option<String> = None;
    let mut i: usize = 0;
    while i < resolved.len()
        invariant
            i <= resolved@.len(),
            match r {
                Some(tx) => lookup(resolved@.take(i as int), key@) == Some(tx@),
                None => lookup(resolved@.take(i as int), key@) is None,
            },
        decreases resolved@.len() - i,
    {
        proof {
            lemma_take_more(resolved@, i as int);
        }
        if resolved[i].0 == *key {
            r = Some(resolved[i].1.clone());
        }
        i = i + 1;
    }
    assert(resolved@.take(resolved@.len() as int) =~= resolved@);
    r
}

} // verus!
