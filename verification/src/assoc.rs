//! First-match lookup over key/value vectors.
//!
//! Every index of the semantic database stores its entries as a vector of
//! key/value pairs with pairwise-distinct keys, so that iteration order is
//! the insertion order and analysis stays deterministic.  The lookup spec
//! and the lemmas here are shared by all of them.

use vstd::prelude::*;

verus! {

/// The value of the first entry whose key is `k`, if any.
pub open spec fn alookup<K, V>(s: Seq<(K, V)>, k: K) -> Option<V>
    decreases s.len(),
{
    if s.len() == 0 {
        None
    } else if s[0].0 == k {
        Some(s[0].1)
    } else {
        alookup(s.skip(1), k)
    }
}

/// Pairwise-distinct keys.
pub open spec fn akeys_unique<K, V>(s: Seq<(K, V)>) -> bool {
    forall|i: int, j: int| 0 <= i < j < s.len() ==> s[i].0 != s[j].0
}

/// A key that occurs nowhere looks up to `None`.
pub proof fn lemma_alookup_absent<K, V>(s: Seq<(K, V)>, k: K)
    requires
        forall|j: int| 0 <= j < s.len() ==> s[j].0 != k,
    ensures
        alookup(s, k) is None,
    decreases s.len(),
{
    if s.len() > 0 {
        assert(forall|j: int| 0 <= j < s.skip(1).len() ==> s.skip(1)[j] == s[j + 1]);
        lemma_alookup_absent(s.skip(1), k);
    }
}

/// The first entry bearing a key is what lookup returns.
pub proof fn lemma_alookup_found<K, V>(s: Seq<(K, V)>, k: K, i: int)
    requires
        0 <= i < s.len(),
        s[i].0 == k,
        forall|j: int| 0 <= j < i ==> s[j].0 != k,
    ensures
        alookup(s, k) == Some(s[i].1),
    decreases s.len(),
{
    if i > 0 {
        assert(forall|j: int| 0 <= j < s.skip(1).len() ==> s.skip(1)[j] == s[j + 1]);
        lemma_alookup_found(s.skip(1), k, i - 1);
    }
}

/// With distinct keys, replacing the value at one entry changes exactly
/// that key's lookup.
pub proof fn lemma_alookup_update<K, V>(s: Seq<(K, V)>, i: int, v: V)
    requires
        akeys_unique(s),
        0 <= i < s.len(),
    ensures
        akeys_unique(s.update(i, (s[i].0, v))),
        alookup(s.update(i, (s[i].0, v)), s[i].0) == Some(v),
        forall|g: K| g != s[i].0 ==> alookup(s.update(i, (s[i].0, v)), g) == alookup(s, g),
{
    let t = s.update(i, (s[i].0, v));
    assert(forall|j: int| 0 <= j < t.len() && j != i ==> t[j] == s[j]);
    lemma_alookup_found(t, s[i].0, i);
    assert forall|g: K| g != s[i].0 implies alookup(t, g) == alookup(s, g) by {
        lemma_alookup_match_free(s, t, g);
    }
}

/// Appending an entry with a fresh key adds exactly that key's lookup.
pub proof fn lemma_alookup_push<K, V>(s: Seq<(K, V)>, k: K, v: V)
    requires
        akeys_unique(s),
        forall|j: int| 0 <= j < s.len() ==> s[j].0 != k,
    ensures
        akeys_unique(s.push((k, v))),
        alookup(s.push((k, v)), k) == Some(v),
        forall|g: K| g != k ==> alookup(s.push((k, v)), g) == alookup(s, g),
{
    let t = s.push((k, v));
    lemma_alookup_found(t, k, s.len() as int);
    assert forall|g: K| g != k implies alookup(t, g) == alookup(s, g) by {
        if exists|j: int| 0 <= j < s.len() && s[j].0 == g {
            let j = choose|j: int| 0 <= j < s.len() && s[j].0 == g && (forall|l: int|
                0 <= l < j ==> s[l].0 != g);
            lemma_alookup_found(s, g, j);
            lemma_alookup_found(t, g, j);
        } else {
            lemma_alookup_absent(s, g);
            lemma_alookup_absent(t, g);
        }
    }
}

/// Two sequences whose entries agree wherever either bears key `g` look
/// `g` up alike.  Helper for the lemmas above.
proof fn lemma_alookup_match_free<K, V>(s: Seq<(K, V)>, t: Seq<(K, V)>, g: K)
    requires
        s.len() == t.len(),
        forall|j: int| 0 <= j < s.len() ==> (s[j].0 == g || t[j].0 == g ==> s[j] == t[j]),
    ensures
        alookup(s, g) == alookup(t, g),
    decreases s.len(),
{
    if s.len() > 0 {
        if s[0].0 == g || t[0].0 == g {
            assert(s[0] == t[0]);
        }
        if s[0].0 != g && t[0].0 != g {
            assert(forall|j: int| 0 <= j < s.skip(1).len() ==> s.skip(1)[j] == s[j + 1]);
            assert(forall|j: int| 0 <= j < t.skip(1).len() ==> t.skip(1)[j] == t[j + 1]);
            lemma_alookup_match_free(s.skip(1), t.skip(1), g);
        }
    }
}

/// With distinct keys, removing one entry removes exactly that key's
/// lookup.
pub proof fn lemma_alookup_remove<K, V>(s: Seq<(K, V)>, i: int)
    requires
        akeys_unique(s),
        0 <= i < s.len(),
    ensures
        akeys_unique(s.remove(i)),
        alookup(s.remove(i), s[i].0) is None,
        forall|g: K| g != s[i].0 ==> alookup(s.remove(i), g) == alookup(s, g),
{
    let t = s.remove(i);
    let k = s[i].0;
    assert(forall|j: int| 0 <= j < i ==> t[j] == s[j]);
    assert(forall|j: int| i <= j < t.len() ==> t[j] == s[j + 1]);
    assert(forall|j: int| 0 <= j < t.len() ==> t[j].0 != k);
    lemma_alookup_absent(t, k);
    assert forall|g: K| g != k implies alookup(t, g) == alookup(s, g) by {
        if exists|j: int| 0 <= j < s.len() && s[j].0 == g {
            let j = choose|j: int| 0 <= j < s.len() && s[j].0 == g;
            assert(j != i);
            if j < i {
                assert(forall|l: int| 0 <= l < j ==> s[l].0 != g);
                lemma_alookup_found(s, g, j);
                lemma_alookup_found(t, g, j);
            } else {
                assert(forall|l: int| 0 <= l < j ==> s[l].0 != g);
                lemma_alookup_found(s, g, j);
                assert(t[j - 1] == s[j]);
                assert(forall|l: int| 0 <= l < j - 1 ==> t[l].0 != g);
                lemma_alookup_found(t, g, j - 1);
            }
        } else {
            lemma_alookup_absent(s, g);
            assert(forall|j: int| 0 <= j < t.len() ==> t[j].0 != g);
            lemma_alookup_absent(t, g);
        }
    }
}

} // verus!
