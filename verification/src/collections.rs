//! Helpers over the hash maps and hash sets that hold the broker state:
//! listing members, and maps from identifiers to sets of identifiers.

use vstd::prelude::*;
use std::collections::{HashMap, HashSet};
use vstd::std_specs::hash::{spec_hash_keys_iter, spec_keys_iter};
use vstd::std_specs::iter::IteratorSpec;

verus! {

broadcast use vstd::std_specs::hash::group_hash_axioms;

/// The view of a map of sets: each set taken by its view.
pub open spec fn sets_view(m: Map<u64, HashSet<u64>>) -> Map<u64, Set<u64>> {
    m.map_values(|s: HashSet<u64>| s@)
}

/// The set under `k`, or the empty set.
pub open spec fn set_or_empty(m: Map<u64, Set<u64>>, k: u64) -> Set<u64> {
    if m.contains_key(k) {
        m[k]
    } else {
        Set::empty()
    }
}

/// `v` lists the members of `s`, each once.
pub open spec fn lists(v: Seq<u64>, s: Set<u64>) -> bool {
    v.no_duplicates() && v.to_set() == s
}

/// Lists the members of `s` in the set's iteration order.
pub fn set_members(s: &HashSet<u64>) -> (r: Vec<u64>)
    ensures
        lists(r@, s@),
{
    let mut order: Vec<u64> = Vec::new();
    for x in it: s.iter()
        invariant
            it.seq() == spec_hash_keys_iter(s).remaining(),
            order@ == it.seq().take(it.index() as int).map_values(|r: &u64| *r),
    {
        let ghost prev = order@;
        order.push(*x);
        assert(order@ =~= it.seq().take(it.index() + 1).map_values(|r: &u64| *r));
    }
    let ghost keys = spec_hash_keys_iter(s).remaining();
    assert(order@ =~= keys.unref());
    order
}

/// Lists the keys of `m` in the map's iteration order.
pub fn map_keys<V>(m: &HashMap<u64, V>) -> (r: Vec<u64>)
    ensures
        lists(r@, m@.dom()),
{
    let mut order: Vec<u64> = Vec::new();
    for x in it: m.keys()
        invariant
            it.seq() == spec_keys_iter(m).remaining(),
            order@ == it.seq().take(it.index() as int).map_values(|r: &u64| *r),
    {
        order.push(*x);
        assert(order@ =~= it.seq().take(it.index() + 1).map_values(|r: &u64| *r));
    }
    let ghost keys = spec_keys_iter(m).remaining();
    assert(order@ =~= keys.unref());
    order
}

/// Builds a set holding the members of `v`.
pub fn set_from(v: &Vec<u64>) -> (r: HashSet<u64>)
    ensures
        r@ == v@.to_set(),
{
    broadcast use vstd::seq_lib::group_seq_properties;

    let mut r: HashSet<u64> = HashSet::new();
    let mut i: usize = 0;
    while i < v.len()
        invariant
            i <= v@.len(),
            r@ == v@.take(i as int).to_set(),
        decreases v.len() - i,
    {
        r.insert(v[i]);
        assert(v@.take(i + 1) =~= v@.take(i as int).push(v@[i as int]));
        proof {
            v@.take(i as int).lemma_push_to_set_commute(v@[i as int]);
        }
        i = i + 1;
    }
    assert(v@.take(v@.len() as int) =~= v@);
    r
}

/// Copy of a set of identifiers.
pub fn copy_set(s: &HashSet<u64>) -> (r: HashSet<u64>)
    ensures
        r@ == s@,
{
    let v = set_members(s);
    set_from(&v)
}

/// Lists the members of the set under `k`, none when there is no set.
pub fn members_of(m: &HashMap<u64, HashSet<u64>>, k: u64) -> (r: Vec<u64>)
    ensures
        lists(r@, set_or_empty(sets_view(m@), k)),
{
    match m.get(&k) {
        Some(s) => set_members(s),
        None => {
            let r: Vec<u64> = Vec::new();
            assert(r@.to_set() =~= Set::<u64>::empty());
            r
        },
    }
}

/// Adds `v` to the set under `k`, creating the set when there is none.
pub fn set_map_add(m: &mut HashMap<u64, HashSet<u64>>, k: u64, v: u64)
    ensures
        sets_view(final(m)@) == sets_view(old(m)@).insert(
            k,
            set_or_empty(sets_view(old(m)@), k).insert(v),
        ),
{
    let mut s = match m.remove(&k) {
        Some(s) => s,
        None => HashSet::new(),
    };
    s.insert(v);
    m.insert(k, s);
    assert(sets_view(final(m)@) =~= sets_view(old(m)@).insert(
        k,
        set_or_empty(sets_view(old(m)@), k).insert(v),
    ));
}

/// Removes `v` from the set under `k` when there is one.
pub fn set_map_remove_member(m: &mut HashMap<u64, HashSet<u64>>, k: u64, v: u64)
    ensures
        sets_view(final(m)@) == if sets_view(old(m)@).contains_key(k) {
            sets_view(old(m)@).insert(k, sets_view(old(m)@)[k].remove(v))
        } else {
            sets_view(old(m)@)
        },
{
    match m.remove(&k) {
        Some(mut s) => {
            s.remove(&v);
            m.insert(k, s);
            assert(sets_view(final(m)@) =~= sets_view(old(m)@).insert(
                k,
                sets_view(old(m)@)[k].remove(v),
            ));
        },
        None => {
            assert(sets_view(final(m)@) =~= sets_view(old(m)@));
        },
    }
}

/// Removes the set under `k` when there is one.
pub fn set_map_remove_key(m: &mut HashMap<u64, HashSet<u64>>, k: u64)
    ensures
        sets_view(final(m)@) == sets_view(old(m)@).remove(k),
{
    m.remove(&k);
    assert(sets_view(final(m)@) =~= sets_view(old(m)@).remove(k));
}

/// Puts `s` under `k`, replacing any set that was there.
pub fn set_map_put(m: &mut HashMap<u64, HashSet<u64>>, k: u64, s: HashSet<u64>)
    ensures
        sets_view(final(m)@) == sets_view(old(m)@).insert(k, s@),
{
    m.insert(k, s);
    assert(sets_view(final(m)@) =~= sets_view(old(m)@).insert(k, s@));
}

} // verus!
