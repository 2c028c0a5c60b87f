//! Ordered maps and sets with integer keys, as mathematical maps and sets.
use std::collections::{BTreeMap, BTreeSet};
use vstd::prelude::*;

verus! {

pub fn get<V>(m: &BTreeMap<u64, V>, k: u64) -> (r: Option<&V>)
    ensures
        match r {
            Some(v) => m@.contains_key(k) && *v == m@[k],
            None => !m@.contains_key(k),
        },
{
    broadcast use vstd::laws_cmp::group_laws_cmp;

    m.get(&k)
}

pub fn insert<V>(m: &mut BTreeMap<u64, V>, k: u64, v: V)
    ensures
        final(m)@ == old(m)@.insert(k, v),
{
    broadcast use vstd::laws_cmp::group_laws_cmp;

    m.insert(k, v);
}

pub fn remove<V>(m: &mut BTreeMap<u64, V>, k: u64) -> (r: Option<V>)
    ensures
        final(m)@ == old(m)@.remove(k),
        match r {
            Some(v) => old(m)@.contains_key(k) && v == old(m)@[k],
            None => !old(m)@.contains_key(k),
        },
{
    broadcast use vstd::laws_cmp::group_laws_cmp;

    m.remove(&k)
}

pub fn get32<V>(m: &BTreeMap<u32, V>, k: u32) -> (r: Option<&V>)
    ensures
        match r {
            Some(v) => m@.contains_key(k) && *v == m@[k],
            None => !m@.contains_key(k),
        },
{
    broadcast use vstd::laws_cmp::group_laws_cmp;

    m.get(&k)
}

pub fn insert32<V>(m: &mut BTreeMap<u32, V>, k: u32, v: V)
    ensures
        final(m)@ == old(m)@.insert(k, v),
{
    broadcast use vstd::laws_cmp::group_laws_cmp;

    m.insert(k, v);
}

pub fn remove32<V>(m: &mut BTreeMap<u32, V>, k: u32) -> (r: Option<V>)
    ensures
        final(m)@ == old(m)@.remove(k),
        match r {
            Some(v) => old(m)@.contains_key(k) && v == old(m)@[k],
            None => !old(m)@.contains_key(k),
        },
{
    broadcast use vstd::laws_cmp::group_laws_cmp;

    m.remove(&k)
}

pub fn set_insert(s: &mut BTreeSet<u64>, k: u64)
    ensures
        final(s)@ == old(s)@.insert(k),
{
    broadcast use vstd::laws_cmp::group_laws_cmp;

    s.insert(k);
}

pub fn set_remove(s: &mut BTreeSet<u64>, k: u64) -> (r: bool)
    ensures
        final(s)@ == old(s)@.remove(k),
        r == old(s)@.contains(k),
{
    broadcast use vstd::laws_cmp::group_laws_cmp;

    s.remove(&k)
}

pub fn set_contains(s: &BTreeSet<u64>, k: u64) -> (r: bool)
    ensures
        r == s@.contains(k),
{
    broadcast use vstd::laws_cmp::group_laws_cmp;

    s.contains(&k)
}

} // verus!
