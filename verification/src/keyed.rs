//! Association lists keyed by text: sequences of (key, value) pairs in
//! which no key occurs twice, read as maps.
use vstd::prelude::*;
use crate::text::text_eq;

verus! {

/// No two entries have the same key.
pub open spec fn keys_unique<V>(e: Seq<(Seq<char>, V)>) -> bool {
    forall|i: int, j: int| 0 <= i < j < e.len() ==> (#[trigger] e[i]).0 != (#[trigger] e[j]).0
}

/// Some entry has key `k`.
pub open spec fn key_in<V>(e: Seq<(Seq<char>, V)>, k: Seq<char>) -> bool {
    exists|i: int| 0 <= i < e.len() && (#[trigger] e[i]).0 == k
}

/// The value under key `k`, if any.
pub open spec fn value_of<V>(e: Seq<(Seq<char>, V)>, k: Seq<char>) -> Option<V> {
    if key_in(e, k) {
        Some(e[choose|i: int| 0 <= i < e.len() && (#[trigger] e[i]).0 == k].1)
    } else {
        None
    }
}

/// Where entry `i` has key `k` and keys are unique, the value under `k` is
/// that of entry `i`.
pub proof fn lemma_value_at<V>(e: Seq<(Seq<char>, V)>, k: Seq<char>, i: int)
    requires
        keys_unique(e),
        0 <= i < e.len(),
        e[i].0 == k,
    ensures
        value_of(e, k) == Some(e[i].1),
{
    let j = choose|j: int| 0 <= j < e.len() && (#[trigger] e[j]).0 == k;
    if j < i {
        assert(e[j].0 != e[i].0);
    } else if j > i {
        assert(e[i].0 != e[j].0);
    }
}

/// Where no entry before `n` has key `k`, and none from `n` on either, the
/// key is absent.
pub proof fn lemma_absent<V>(e: Seq<(Seq<char>, V)>, k: Seq<char>)
    requires
        forall|j: int| 0 <= j < e.len() ==> e[j].0 != k,
    ensures
        !key_in(e, k),
        value_of(e, k) is None,
{
    if key_in(e, k) {
        let j = choose|j: int| 0 <= j < e.len() && (#[trigger] e[j]).0 == k;
        assert(e[j].0 != k);
    }
}

/// Pushing an entry with a new key keeps keys unique and adds just that key.
pub proof fn lemma_push_new<V>(e: Seq<(Seq<char>, V)>, x: (Seq<char>, V), k: Seq<char>)
    requires
        keys_unique(e),
        !key_in(e, x.0),
    ensures
        keys_unique(e.push(x)),
        value_of(e.push(x), k) == if x.0 == k { Some(x.1) } else { value_of(e, k) },
{
    let f = e.push(x);
    assert forall|i: int, j: int| 0 <= i < j < f.len() implies (#[trigger] f[i]).0 != (#[trigger] f[j]).0 by {
        if j == e.len() {
            if f[i].0 == x.0 {
                assert(e[i].0 == x.0);
            }
        } else {
            assert(e[i].0 != e[j].0);
        }
    }
    if x.0 == k {
        lemma_value_at(f, k, e.len() as int);
    } else if key_in(e, k) {
        let i = choose|i: int| 0 <= i < e.len() && (#[trigger] e[i]).0 == k;
        lemma_value_at(e, k, i);
        lemma_value_at(f, k, i);
    } else {
        assert(!key_in(f, k)) by {
            if key_in(f, k) {
                let i = choose|i: int| 0 <= i < f.len() && (#[trigger] f[i]).0 == k;
                assert(e[i].0 == k);
            }
        }
    }
}

/// Replacing the value of entry `i` changes only the value under its key.
pub proof fn lemma_update_value<V>(e: Seq<(Seq<char>, V)>, i: int, v: V, k: Seq<char>)
    requires
        keys_unique(e),
        0 <= i < e.len(),
    ensures
        keys_unique(e.update(i, (e[i].0, v))),
        value_of(e.update(i, (e[i].0, v)), k) == if e[i].0 == k { Some(v) } else { value_of(e, k) },
{
    let f = e.update(i, (e[i].0, v));
    assert forall|a: int, b: int| 0 <= a < b < f.len() implies (#[trigger] f[a]).0 != (#[trigger] f[b]).0 by {
        assert(e[a].0 != e[b].0);
    }
    if e[i].0 == k {
        lemma_value_at(f, k, i);
    } else if key_in(e, k) {
        let j = choose|j: int| 0 <= j < e.len() && (#[trigger] e[j]).0 == k;
        lemma_value_at(e, k, j);
        lemma_value_at(f, k, j);
    } else {
        assert(!key_in(f, k)) by {
            if key_in(f, k) {
                let j = choose|j: int| 0 <= j < f.len() && (#[trigger] f[j]).0 == k;
                assert(e[j].0 == k);
            }
        }
    }
}

/// The texts of a list of pairs of strings.
pub open spec fn pair_views(m: Seq<(String, String)>) -> Seq<(Seq<char>, Seq<char>)> {
    m.map_values(|p: (String, String)| (p.0@, p.1@))
}

/// Sets the value of `key` in a list of pairs read as a map (as
/// `HashMap::insert`): the pair with that key gets the new value, or a new
/// pair is added at the end.
pub fn insert_pair(m: &mut Vec<(String, String)>, key: String, value: String)
    requires
        keys_unique(pair_views(old(m)@)),
    ensures
        keys_unique(pair_views(final(m)@)),
        value_of(pair_views(final(m)@), key@) == Some(value@),
        forall|k: Seq<char>| k != key@ ==> value_of(pair_views(final(m)@), k) == value_of(pair_views(old(m)@), k),
{
    let ghost before = pair_views(m@);
    let mut i: usize = 0;
    while i < m.len()
        invariant
            i <= m@.len(),
            before == pair_views(m@),
            before == pair_views(old(m)@),
            keys_unique(before),
            forall|j: int| 0 <= j < i ==> before[j].0 != key@,
        decreases m.len() - i,
    {
        if text_eq(m[i].0.as_str(), key.as_str()) {
            let k2 = m[i].0.clone();
            assert(before[i as int].0 == key@);
            let ghost vv = value@;
            m.set(i, (k2, value));
            proof {
                assert(pair_views(m@) =~= before.update(i as int, (before[i as int].0, vv)));
                assert forall|k: Seq<char>| k != key@ implies value_of(pair_views(m@), k) == value_of(before, k) by {
                    lemma_update_value(before, i as int, vv, k);
                }
                lemma_update_value(before, i as int, vv, key@);
            }
            return;
        }
        i = i + 1;
    }
    proof {
        lemma_absent(before, key@);
    }
    let ghost kv = key@;
    let ghost vv = value@;
    m.push((key, value));
    proof {
        assert(pair_views(m@) =~= before.push((kv, vv)));
        assert forall|k: Seq<char>| k != kv implies value_of(pair_views(m@), k) == value_of(before, k) by {
            lemma_push_new(before, (kv, vv), k);
        }
        lemma_push_new(before, (kv, vv), kv);
    }
}

} // verus!
