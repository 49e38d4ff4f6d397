use vstd::prelude::*;

verus! {

/// First-match lookup in an association sequence keyed by symbol names.
/// Both the session's sequence table and the persistence worker's writer
/// table are such sequences at the specification level.
pub open spec fn assoc_lookup<V>(s: Seq<(Seq<char>, V)>, k: Seq<char>) -> Option<V>
    decreases s.len(),
{
    if s.len() == 0 {
        None
    } else if s[0].0 == k {
        Some(s[0].1)
    } else {
        assoc_lookup(s.drop_first(), k)
    }
}

/// A lookup skips over any prefix whose keys all differ from the key
/// sought.
pub proof fn lemma_lookup_skip<V>(s: Seq<(Seq<char>, V)>, k: Seq<char>, i: int)
    requires
        0 <= i <= s.len(),
        forall|j: int| 0 <= j < i ==> (#[trigger] s[j]).0 != k,
    ensures
        assoc_lookup(s, k) == assoc_lookup(s.skip(i), k),
    decreases i,
{
    if i > 0 {
        assert(s[0].0 != k);
        assert(forall|j: int| 0 <= j < i - 1 ==> (#[trigger] s.drop_first()[j]).0 != k) by {
            assert(forall|j: int| 0 <= j < i - 1 ==> s.drop_first()[j] == s[j + 1]);
        }
        lemma_lookup_skip(s.drop_first(), k, i - 1);
        assert(s.skip(i) =~= s.drop_first().skip(i - 1));
    } else {
        assert(s.skip(0) =~= s);
    }
}

/// A lookup right after the first match returns that entry's value.
pub proof fn lemma_lookup_found<V>(s: Seq<(Seq<char>, V)>, k: Seq<char>, i: int)
    requires
        0 <= i < s.len(),
        forall|j: int| 0 <= j < i ==> (#[trigger] s[j]).0 != k,
        s[i].0 == k,
    ensures
        assoc_lookup(s, k) == Some(s[i].1),
{
    lemma_lookup_skip(s, k, i);
    assert(s.skip(i)[0] == s[i]);
}

/// A lookup over a sequence none of whose keys is `k` finds nothing.
pub proof fn lemma_lookup_none<V>(s: Seq<(Seq<char>, V)>, k: Seq<char>)
    requires
        forall|j: int| 0 <= j < s.len() ==> (#[trigger] s[j]).0 != k,
    ensures
        assoc_lookup(s, k) is None,
{
    lemma_lookup_skip(s, k, s.len() as int);
    assert(s.skip(s.len() as int) =~= Seq::<(Seq<char>, V)>::empty());
}

/// Updating one entry in place, keeping its key, changes the lookup for
/// that key alone — and only when the entry is the first match.
pub proof fn lemma_lookup_update<V>(s: Seq<(Seq<char>, V)>, i: int, p: (Seq<char>, V), k: Seq<char>)
    requires
        0 <= i < s.len(),
        s[i].0 == p.0,
    ensures
        p.0 != k ==> assoc_lookup(s.update(i, p), k) == assoc_lookup(s, k),
        (p.0 == k && (forall|j: int| 0 <= j < i ==> (#[trigger] s[j]).0 != k)) ==> assoc_lookup(
            s.update(i, p),
            k,
        ) == Some(p.1),
    decreases i,
{
    let t = s.update(i, p);
    if i == 0 {
        assert(t[0] == p);
        assert(t.drop_first() =~= s.drop_first());
    } else {
        assert(t[0] == s[0]);
        assert(t.drop_first() =~= s.drop_first().update(i - 1, p));
        assert(s.drop_first()[i - 1] == s[i]);
        lemma_lookup_update(s.drop_first(), i - 1, p, k);
        if p.0 == k && (forall|j: int| 0 <= j < i ==> (#[trigger] s[j]).0 != k) {
            assert(s[0].0 != k);
            assert(forall|j: int| 0 <= j < i - 1 ==> (#[trigger] s.drop_first()[j]).0 != k) by {
                assert(forall|j: int| 0 <= j < i - 1 ==> s.drop_first()[j] == s[j + 1]);
            }
        }
    }
}

/// Appending an entry with a fresh key adds that key's binding and leaves
/// every other lookup unchanged.
pub proof fn lemma_lookup_push<V>(s: Seq<(Seq<char>, V)>, p: (Seq<char>, V), k: Seq<char>)
    requires
        forall|j: int| 0 <= j < s.len() ==> (#[trigger] s[j]).0 != p.0,
    ensures
        assoc_lookup(s.push(p), p.0) == Some(p.1),
        k != p.0 ==> assoc_lookup(s.push(p), k) == assoc_lookup(s, k),
    decreases s.len(),
{
    let t = s.push(p);
    if s.len() == 0 {
        assert(t[0] == p);
        assert(t.drop_first() =~= Seq::<(Seq<char>, V)>::empty());
        assert(assoc_lookup(Seq::<(Seq<char>, V)>::empty(), k) is None);
        assert(assoc_lookup(s, k) is None);
    } else {
        assert(t[0] == s[0]);
        assert(t.drop_first() =~= s.drop_first().push(p));
        assert(forall|j: int| 0 <= j < s.len() - 1 ==> (#[trigger] s.drop_first()[j]).0 != p.0)
            by {
            assert(forall|j: int| 0 <= j < s.len() - 1 ==> s.drop_first()[j] == s[j + 1]);
        }
        lemma_lookup_push(s.drop_first(), p, k);
    }
}

/// Rewriting every value with a key-preserving function rewrites each
/// lookup's result by that function.
pub proof fn lemma_lookup_map<V, W>(s: Seq<(Seq<char>, V)>, f: spec_fn(V) -> W, k: Seq<char>)
    ensures
        assoc_lookup(s.map_values(|p: (Seq<char>, V)| (p.0, f(p.1))), k) == match assoc_lookup(
            s,
            k,
        ) {
            None => None::<W>,
            Some(v) => Some(f(v)),
        },
    decreases s.len(),
{
    let g = |p: (Seq<char>, V)| (p.0, f(p.1));
    let t = s.map_values(g);
    if s.len() > 0 {
        assert(t[0] == g(s[0]));
        assert(t.drop_first() =~= s.drop_first().map_values(g));
        lemma_lookup_map(s.drop_first(), f, k);
    }
}

} // verus!
