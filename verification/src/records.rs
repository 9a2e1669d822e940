use vstd::prelude::*;
use crate::ballot::RoundIdentifier;

verus! {

/// The entries of `s` carry pairwise distinct ballot keys.
pub open spec fn keys_distinct<V>(s: Seq<(RoundIdentifier, V)>) -> bool {
    forall|i: int, j: int| 0 <= i < j < s.len() ==> s[i].0 != s[j].0
}

/// The value recorded under ballot `k`, if any. With distinct keys this is
/// the map each record stands for.
pub open spec fn lookup<V>(s: Seq<(RoundIdentifier, V)>, k: RoundIdentifier) -> Option<V> {
    if exists|i: int| 0 <= i < s.len() && s[i].0 == k {
        Some(s[choose|i: int| 0 <= i < s.len() && s[i].0 == k].1)
    } else {
        None
    }
}

/// With distinct keys, an entry at index `i` is what `lookup` finds for its key.
pub proof fn lemma_lookup_at<V>(s: Seq<(RoundIdentifier, V)>, k: RoundIdentifier, i: int)
    requires
        keys_distinct(s),
        0 <= i < s.len(),
        s[i].0 == k,
    ensures
        lookup(s, k) == Some(s[i].1),
{
    let j = choose|j: int| 0 <= j < s.len() && s[j].0 == k;
    if i < j {
        assert(s[i].0 != s[j].0);
    } else if j < i {
        assert(s[j].0 != s[i].0);
    }
}

/// Replacing the value at index `i` keeps the keys distinct, rebinds that
/// entry's key, and leaves every other key's entry untouched.
pub proof fn lemma_lookup_update<V>(s: Seq<(RoundIdentifier, V)>, i: int, v: V, k: RoundIdentifier)
    requires
        keys_distinct(s),
        0 <= i < s.len(),
    ensures
        keys_distinct(s.update(i, (s[i].0, v))),
        lookup(s.update(i, (s[i].0, v)), s[i].0) == Some(v),
        k != s[i].0 ==> lookup(s.update(i, (s[i].0, v)), k) == lookup(s, k),
{
    let s2 = s.update(i, (s[i].0, v));
    assert(forall|m: int| 0 <= m < s2.len() ==> s2[m].0 == s[m].0);
    lemma_lookup_at(s2, s[i].0, i);
    if k != s[i].0 {
        if exists|j: int| 0 <= j < s.len() && s[j].0 == k {
            let j = choose|j: int| 0 <= j < s.len() && s[j].0 == k;
            lemma_lookup_at(s, k, j);
            lemma_lookup_at(s2, k, j);
        } else {
            assert(forall|j: int| 0 <= j < s2.len() ==> s2[j].0 != k);
        }
    }
}

/// Appending an entry under a fresh key keeps the keys distinct, makes the
/// new entry visible under its key, and leaves every other key's entry
/// untouched.
pub proof fn lemma_lookup_push<V>(s: Seq<(RoundIdentifier, V)>, nk: RoundIdentifier, v: V, k: RoundIdentifier)
    requires
        keys_distinct(s),
        lookup(s, nk) is None,
    ensures
        keys_distinct(s.push((nk, v))),
        lookup(s.push((nk, v)), nk) == Some(v),
        k != nk ==> lookup(s.push((nk, v)), k) == lookup(s, k),
{
    let s2 = s.push((nk, v));
    assert(forall|j: int| 0 <= j < s.len() ==> s2[j].0 == s[j].0);
    assert(forall|j: int| 0 <= j < s.len() ==> s[j].0 != nk);
    lemma_lookup_at(s2, nk, s.len() as int);
    if k != nk {
        if exists|j: int| 0 <= j < s.len() && s[j].0 == k {
            let j = choose|j: int| 0 <= j < s.len() && s[j].0 == k;
            lemma_lookup_at(s, k, j);
            lemma_lookup_at(s2, k, j);
        } else {
            assert(forall|j: int| 0 <= j < s2.len() ==> s2[j].0 != k);
        }
    }
}

/// Removing the entry at index `i` keeps the keys distinct, erases its key,
/// and leaves every other key's entry untouched.
pub proof fn lemma_lookup_remove<V>(s: Seq<(RoundIdentifier, V)>, i: int, k: RoundIdentifier)
    requires
        keys_distinct(s),
        0 <= i < s.len(),
    ensures
        keys_distinct(s.remove(i)),
        lookup(s.remove(i), s[i].0) is None,
        k != s[i].0 ==> lookup(s.remove(i), k) == lookup(s, k),
{
    let s2 = s.remove(i);
    assert(forall|m: int| 0 <= m < s2.len() ==> s2[m] == (if m < i { s[m] } else { s[m + 1] }));
    assert(keys_distinct(s2)) by {
        assert(forall|m: int, j: int| 0 <= m < j < s2.len() ==> s2[m].0 != s2[j].0);
    }
    assert(forall|m: int| 0 <= m < s2.len() ==> s2[m].0 != s[i].0);
    if k != s[i].0 {
        if exists|j: int| 0 <= j < s.len() && s[j].0 == k {
            let j = choose|j: int| 0 <= j < s.len() && s[j].0 == k;
            lemma_lookup_at(s, k, j);
            if j < i {
                lemma_lookup_at(s2, k, j);
            } else {
                lemma_lookup_at(s2, k, j - 1);
            }
        } else {
            assert(forall|j: int| 0 <= j < s2.len() ==> s2[j].0 != k);
        }
    }
}

/// Linear search for the entry keyed by `k`.
pub fn find_entry<V>(entries: &Vec<(RoundIdentifier, V)>, k: &RoundIdentifier) -> (r: Option<usize>)
    requires
        keys_distinct(entries@),
    ensures
        match r {
            Some(i) => i < entries@.len() && entries@[i as int].0 == *k
                && lookup(entries@, *k) == Some(entries@[i as int].1),
            None => lookup(entries@, *k) is None,
        },
{
    let n = entries.len();
    let mut i: usize = 0;
    while i < n
        invariant
            n == entries@.len(),
            i <= n,
            keys_distinct(entries@),
            forall|j: int| 0 <= j < i ==> entries@[j].0 != *k,
        decreases n - i,
    {
        if entries[i].0 == *k {
            proof {
                lemma_lookup_at(entries@, *k, i as int);
            }
            return Some(i);
        }
        i = i + 1;
    }
    None
}

/// Linear membership test on a voter list.
pub fn contains_id(voters: &Vec<u64>, x: u64) -> (r: bool)
    ensures
        r == voters@.contains(x),
{
    let n = voters.len();
    let mut i: usize = 0;
    while i < n
        invariant
            n == voters@.len(),
            i <= n,
            forall|j: int| 0 <= j < i ==> voters@[j] != x,
        decreases n - i,
    {
        if voters[i] == x {
            return true;
        }
        i = i + 1;
    }
    false
}

} // verus!
