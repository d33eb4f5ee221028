//! Association lists with unique string keys, viewed as `Map<Seq<char>, V>`.
//!
//! The registries of this crate (sensor readings, valve states, the sequence
//! table) are small and single-owner, so a vector of pairs with a uniqueness
//! invariant is the concrete shape; contracts speak of the map it denotes.

use vstd::prelude::*;

verus! {

/// The map denoted by an association list; later entries win.
pub open spec fn assoc_map<V>(s: Seq<(String, V)>) -> Map<Seq<char>, V>
    decreases s.len(),
{
    if s.len() == 0 {
        Map::empty()
    } else {
        assoc_map(s.drop_last()).insert(s.last().0@, s.last().1)
    }
}

/// No two entries share a key.
pub open spec fn keys_unique<V>(s: Seq<(String, V)>) -> bool {
    forall|i: int, j: int| 0 <= i < j < s.len() ==> s[i].0@ != s[j].0@
}

/// A key is in the map exactly when some entry carries it.
pub proof fn lemma_assoc_contains<V>(s: Seq<(String, V)>, k: Seq<char>)
    ensures
        assoc_map(s).contains_key(k) <==> exists|i: int| 0 <= i < s.len() && s[i].0@ == k,
    decreases s.len(),
{
    if s.len() > 0 {
        lemma_assoc_contains(s.drop_last(), k);
        if s.last().0@ != k && assoc_map(s).contains_key(k) {
            let i = choose|i: int| 0 <= i < s.drop_last().len() && s.drop_last()[i].0@ == k;
            assert(s.drop_last()[i] == s[i]);
        }
        if exists|i: int| 0 <= i < s.len() && s[i].0@ == k {
            let i = choose|i: int| 0 <= i < s.len() && s[i].0@ == k;
            if i < s.len() - 1 {
                assert(s.drop_last()[i].0@ == k);
            }
        }
    }
}

/// With unique keys, the entry holding a key gives its value in the map.
pub proof fn lemma_assoc_value<V>(s: Seq<(String, V)>, i: int)
    requires
        keys_unique(s),
        0 <= i < s.len(),
    ensures
        assoc_map(s).contains_key(s[i].0@),
        assoc_map(s)[s[i].0@] == s[i].1,
    decreases s.len(),
{
    if i == s.len() - 1 {
    } else {
        lemma_assoc_value(s.drop_last(), i);
        assert(s.drop_last()[i] == s[i]);
        assert(s.last().0@ != s[i].0@);
    }
}

/// Replacing the entry at `i` by one with the same key updates the map at
/// that key and nothing else.
pub proof fn lemma_assoc_update<V>(s: Seq<(String, V)>, i: int, p: (String, V))
    requires
        keys_unique(s),
        0 <= i < s.len(),
        p.0@ == s[i].0@,
    ensures
        assoc_map(s.update(i, p)) =~= assoc_map(s).insert(p.0@, p.1),
        keys_unique(s.update(i, p)),
    decreases s.len(),
{
    let t = s.update(i, p);
    assert(t.len() == s.len());
    if i == s.len() - 1 {
        assert(t.drop_last() =~= s.drop_last());
        assert(t.last() == p);
        assert(assoc_map(t) =~= assoc_map(s).insert(p.0@, p.1));
    } else {
        assert(t.drop_last() =~= s.drop_last().update(i, p));
        assert(t.last() == s.last());
        assert(s.drop_last()[i] == s[i]);
        lemma_assoc_update(s.drop_last(), i, p);
        assert(s.last().0@ != p.0@);
        assert(assoc_map(t) =~= assoc_map(s).insert(p.0@, p.1));
    }
}

/// With unique keys the map has exactly one entry per list element.
pub proof fn lemma_assoc_dom_len<V>(s: Seq<(String, V)>)
    requires
        keys_unique(s),
    ensures
        assoc_map(s).dom().finite(),
        assoc_map(s).dom().len() == s.len(),
    decreases s.len(),
{
    if s.len() > 0 {
        lemma_assoc_dom_len(s.drop_last());
        lemma_assoc_contains(s.drop_last(), s.last().0@);
        assert(!assoc_map(s.drop_last()).contains_key(s.last().0@));
    }
}

/// The index of the first element satisfying a predicate, or `-1`.
pub open spec fn first_index<T>(s: Seq<T>, pred: spec_fn(T) -> bool) -> int
    decreases s.len(),
{
    if s.len() == 0 {
        -1
    } else if pred(s.first()) {
        0
    } else {
        let r = first_index(s.drop_first(), pred);
        if r < 0 {
            -1
        } else {
            r + 1
        }
    }
}

/// What `first_index` means: `-1` exactly when nothing satisfies the
/// predicate, otherwise the least satisfying index.
pub proof fn lemma_first_index<T>(s: Seq<T>, pred: spec_fn(T) -> bool)
    ensures
        ({
            let r = first_index(s, pred);
            &&& (r == -1 <==> forall|j: int| 0 <= j < s.len() ==> !pred(s[j]))
            &&& (r >= 0 ==> 0 <= r < s.len() && pred(s[r])
                && forall|j: int| 0 <= j < r ==> !pred(s[j]))
        }),
    decreases s.len(),
{
    if s.len() > 0 {
        if !pred(s.first()) {
            lemma_first_index(s.drop_first(), pred);
            let r = first_index(s.drop_first(), pred);
            assert(forall|j: int| 0 <= j < s.drop_first().len()
                ==> s.drop_first()[j] == s[j + 1]);
            if r == -1 {
                assert forall|j: int| 0 <= j < s.len() implies !pred(s[j]) by {
                    if j > 0 {
                        assert(s[j] == s.drop_first()[j - 1]);
                    }
                }
            } else {
                assert(s[r + 1] == s.drop_first()[r]);
                assert forall|j: int| 0 <= j < r + 1 implies !pred(s[j]) by {
                    if j > 0 {
                        assert(s[j] == s.drop_first()[j - 1]);
                    }
                }
            }
        }
    }
}

/// Looks a key up, by scan; the contract speaks of the denoted map.
pub fn assoc_get<V: Copy>(s: &Vec<(String, V)>, k: &String) -> (r: Option<V>)
    requires
        keys_unique(s@),
    ensures
        match r {
            Some(v) => assoc_map(s@).contains_key(k@) && assoc_map(s@)[k@] == v,
            None => !assoc_map(s@).contains_key(k@),
        },
{
    let n = s.len();
    let mut i: usize = 0;
    while i < n
        invariant
            n == s@.len(),
            keys_unique(s@),
            forall|j: int| 0 <= j < i ==> s@[j].0@ != k@,
        decreases n - i,
    {
        if s[i].0.eq(k) {
            proof {
                lemma_assoc_value(s@, i as int);
            }
            return Some(s[i].1);
        }
        i += 1;
    }
    proof {
        lemma_assoc_contains(s@, k@);
    }
    None
}

/// Inserts or overwrites the entry for a key; the contract is a map insert.
pub fn assoc_set<V: Copy>(s: &mut Vec<(String, V)>, k: String, v: V)
    requires
        keys_unique(old(s)@),
    ensures
        keys_unique(final(s)@),
        assoc_map(final(s)@) == assoc_map(old(s)@).insert(k@, v),
{
    let n = s.len();
    let mut i: usize = 0;
    while i < n
        invariant
            n == s@.len(),
            s@ == old(s)@,
            keys_unique(s@),
            forall|j: int| 0 <= j < i ==> s@[j].0@ != k@,
        decreases n - i,
    {
        if s[i].0.eq(&k) {
            proof {
                lemma_assoc_update(s@, i as int, (k, v));
            }
            s.set(i, (k, v));
            return ;
        }
        i += 1;
    }
    s.push((k, v));
    proof {
        assert(s@.drop_last() =~= old(s)@);
        assert(assoc_map(s@) =~= assoc_map(old(s)@).insert(k@, v));
    }
}

} // verus!
