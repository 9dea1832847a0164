use vstd::prelude::*;

use lru_cache::LruCache;
use std::hash::{BuildHasher, Hash};

use crate::epoch::{EpochState, EpochView};

verus! {

#[verifier::external_type_specification]
#[verifier::external_body]
#[verifier::reject_recursive_types(K)]
#[verifier::reject_recursive_types(V)]
#[verifier::reject_recursive_types(S)]
pub struct ExLruCache<K: Eq + Hash, V, S: BuildHasher>(LruCache<K, V, S>);

/// The epochs that a cache holds, with their keys, from the least recently
/// used to the most recently used.
pub uninterp spec fn cached_epochs(cache: LruCache<u32, EpochState>) -> Seq<(u32, EpochView)>;

/// The number of entries that a cache was made to hold.
pub uninterp spec fn cache_capacity(cache: LruCache<u32, EpochState>) -> nat;

/// Position of the entry with key `k`, or -1 where there is none.
pub open spec fn key_position(s: Seq<(u32, EpochView)>, k: u32) -> int {
    if exists|i: int| 0 <= i < s.len() && (#[trigger] s[i]).0 == k {
        choose|i: int| 0 <= i < s.len() && (#[trigger] s[i]).0 == k
    } else {
        -1
    }
}

/// The entries after `insert(k, v)`: an entry with key `k` is replaced and
/// becomes the most recently used; past the capacity the least recently used
/// entry leaves.
pub open spec fn lru_insert(s: Seq<(u32, EpochView)>, k: u32, v: EpochView, cap: nat) -> Seq<
    (u32, EpochView),
> {
    let p = key_position(s, k);
    let t = if p >= 0 {
        s.remove(p).push((k, v))
    } else {
        s.push((k, v))
    };
    if t.len() > cap {
        t.drop_first()
    } else {
        t
    }
}

/// `LruCache::new`: an empty cache that holds at most `capacity` entries.
#[verifier::external_body]
pub(crate) fn cache_new(capacity: usize) -> (c: LruCache<u32, EpochState>)
    ensures
        cached_epochs(c) == Seq::<(u32, EpochView)>::empty(),
        cache_capacity(c) == capacity,
{
    LruCache::new(capacity)
}

/// `LruCache::insert`: stores `v` under `k` as the most recently used entry,
/// replacing an entry with that key, then drops the least recently used entry
/// where the cache holds more than its capacity.  Gives back the replaced
/// value.
#[verifier::external_body]
pub(crate) fn cache_insert(c: &mut LruCache<u32, EpochState>, k: u32, v: EpochState) -> (r: Option<
    EpochState,
>)
    ensures
        cached_epochs(*final(c)) == lru_insert(cached_epochs(*old(c)), k, v@, cache_capacity(*old(c))),
        cache_capacity(*final(c)) == cache_capacity(*old(c)),
        match r {
            Some(o) => key_position(cached_epochs(*old(c)), k) >= 0 && o@ == cached_epochs(
                *old(c),
            )[key_position(cached_epochs(*old(c)), k)].1,
            None => key_position(cached_epochs(*old(c)), k) < 0,
        },
{
    c.insert(k, v)
}

/// `LruCache::get_mut`: the entry with key `k`, which becomes the most
/// recently used one; the cache then holds what is written through the
/// reference.
#[verifier::external_body]
pub(crate) fn cache_get_mut(c: &mut LruCache<u32, EpochState>, k: u32) -> (r: Option<&mut EpochState>)
    ensures
        cache_capacity(*final(c)) == cache_capacity(*old(c)),
        key_position(cached_epochs(*old(c)), k) < 0 ==> r is None && cached_epochs(*final(c))
            == cached_epochs(*old(c)),
        key_position(cached_epochs(*old(c)), k) >= 0 ==> {
            &&& r is Some
            &&& (*r.unwrap())@ == cached_epochs(*old(c))[key_position(cached_epochs(*old(c)), k)].1
            &&& cached_epochs(*final(c)) == cached_epochs(*old(c)).remove(
                key_position(cached_epochs(*old(c)), k),
            ).push((k, (*final(r.unwrap()))@))
        },
{
    c.get_mut(&k)
}

/// `LruCache::iter`: the entries from the least to the most recently used,
/// each as its key and a reference to its epoch.
#[verifier::external_body]
pub(crate) fn cache_entries(c: &LruCache<u32, EpochState>) -> (r: Vec<(u32, &EpochState)>)
    ensures
        r@.len() == cached_epochs(*c).len(),
        forall|i: int|
            0 <= i < r@.len() ==> (#[trigger] r@[i]).0 == cached_epochs(*c)[i].0 && r@[i].1@
                == cached_epochs(*c)[i].1,
{
    c.iter().map(|(k, v)| (*k, v)).collect()
}

} // verus!
