//! The recency-ordered map that backs the cache, and its ghost model.
//!
//! The slots live in hashlink's `LruCache`, which keeps its entries in use
//! order and drops the least recently used one when it grows past its
//! bound. The map itself is opaque to the verifier; the wrappers below
//! state, over a ghost sequence of slots, what hashlink's source shows of
//! each method the cache calls. Everything after the wrappers is proved.
//!
//! A slot is modelled as `(key, expiry tick, JSON text)`; the sequence is
//! ordered least recently used first.

use hashlink::LruCache;
use std::collections::hash_map::RandomState;
use vstd::prelude::*;

verus! {

#[verifier::external_type_specification]
#[verifier::external_body]
#[verifier::reject_recursive_types(K)]
#[verifier::reject_recursive_types(V)]
#[verifier::reject_recursive_types(S)]
pub struct ExLruCache<K, V, S>(LruCache<K, V, S>);

/// The slots an LRU map holds, least recently used first.
pub uninterp spec fn lru_entries(c: LruCache<String, (u64, String), RandomState>) -> Seq<
    (Seq<char>, u64, Seq<char>),
>;

/// The bound an LRU map was created with.
pub uninterp spec fn lru_capacity(c: LruCache<String, (u64, String), RandomState>) -> nat;

/// True when some slot of `s` carries the key `k`.
pub open spec fn has_key(s: Seq<(Seq<char>, u64, Seq<char>)>, k: Seq<char>) -> bool {
    exists|i: int| 0 <= i < s.len() && (#[trigger] s[i]).0 == k
}

/// No two slots of `s` carry the same key.
pub open spec fn distinct_keys(s: Seq<(Seq<char>, u64, Seq<char>)>) -> bool {
    forall|i: int, j: int|
        0 <= i < j < s.len() ==> (#[trigger] s[i]).0 != (#[trigger] s[j]).0
}

/// The expiry tick and text of the most recent slot for `k`, if any.
pub open spec fn find_entry(s: Seq<(Seq<char>, u64, Seq<char>)>, k: Seq<char>) -> Option<
    (u64, Seq<char>),
>
    decreases s.len(),
{
    if s.len() == 0 {
        None
    } else if s.last().0 == k {
        Some((s.last().1, s.last().2))
    } else {
        find_entry(s.drop_last(), k)
    }
}

/// The slots of `s` whose key is not `k`, in their order.
pub open spec fn remove_key(s: Seq<(Seq<char>, u64, Seq<char>)>, k: Seq<char>) -> Seq<
    (Seq<char>, u64, Seq<char>),
>
    decreases s.len(),
{
    if s.len() == 0 {
        s
    } else {
        let rest = remove_key(s.drop_last(), k);
        if s.last().0 == k {
            rest
        } else {
            rest.push(s.last())
        }
    }
}

/// The slots after an insert of `(k, expire, json)`: the key's old slot
/// leaves, the new slot joins at the recent end, and the least recently
/// used slot leaves when the length would pass the bound.
pub open spec fn insert_model(
    s: Seq<(Seq<char>, u64, Seq<char>)>,
    cap: nat,
    k: Seq<char>,
    expire: u64,
    json: Seq<char>,
) -> Seq<(Seq<char>, u64, Seq<char>)> {
    let pushed = remove_key(s, k).push((k, expire, json));
    if pushed.len() > cap {
        pushed.drop_first()
    } else {
        pushed
    }
}

/// Relies on hashlink::LruCache::with_hasher: a map made with `capacity`
/// starts empty and keeps that bound.
#[verifier::external_body]
pub(crate) fn lru_new(capacity: usize) -> (c: LruCache<String, (u64, String), RandomState>)
    ensures
        lru_entries(c) == Seq::<(Seq<char>, u64, Seq<char>)>::empty(),
        lru_capacity(c) == capacity,
{
    LruCache::with_hasher(capacity, RandomState::new())
}

/// Relies on hashlink::LruCache::len.
#[verifier::external_body]
pub(crate) fn lru_len(c: &LruCache<String, (u64, String), RandomState>) -> (r: usize)
    ensures
        r == lru_entries(*c).len(),
{
    c.len()
}

/// Relies on hashlink::LruCache::get: an absent key leaves the map
/// unchanged; a present key's slot is returned and moved to the recent
/// end.
#[verifier::external_body]
pub(crate) fn lru_get(c: &mut LruCache<String, (u64, String), RandomState>, key: &str) -> (r: Option<
    (u64, String),
>)
    ensures
        lru_capacity(*final(c)) == lru_capacity(*old(c)),
        (match find_entry(lru_entries(*old(c)), key@) {
            None => r is None && lru_entries(*final(c)) == lru_entries(*old(c)),
            Some(entry) => {
                &&& r matches Some(v) && v.0 == entry.0 && v.1@ == entry.1
                &&& lru_entries(*final(c)) == remove_key(lru_entries(*old(c)), key@).push(
                    (key@, entry.0, entry.1),
                )
            },
        }),
{
    c.get(key).cloned()
}

/// Relies on hashlink::LruCache::insert: the pair goes to the recent end,
/// any slot with the same key is replaced, and the least recently used
/// slot is dropped when the map would grow past its bound.
#[verifier::external_body]
pub(crate) fn lru_insert(c: &mut LruCache<String, (u64, String), RandomState>, key: &str, expire: u64, json: String)
    ensures
        lru_capacity(*final(c)) == lru_capacity(*old(c)),
        lru_entries(*final(c)) == insert_model(
            lru_entries(*old(c)),
            lru_capacity(*old(c)),
            key@,
            expire,
            json@,
        ),
{
    c.insert(key.to_owned(), (expire, json));
}

/// Relies on hashlink::LruCache::remove: the key's slot leaves, the rest
/// keep their order.
#[verifier::external_body]
pub(crate) fn lru_remove(c: &mut LruCache<String, (u64, String), RandomState>, key: &str)
    ensures
        lru_capacity(*final(c)) == lru_capacity(*old(c)),
        lru_entries(*final(c)) == remove_key(lru_entries(*old(c)), key@),
{
    c.remove(key);
}

/// Relies on hashlink::LruCache::clear: every slot leaves.
#[verifier::external_body]
pub(crate) fn lru_clear(c: &mut LruCache<String, (u64, String), RandomState>)
    ensures
        lru_capacity(*final(c)) == lru_capacity(*old(c)),
        lru_entries(*final(c)) == Seq::<(Seq<char>, u64, Seq<char>)>::empty(),
{
    c.clear();
}

} // verus!
