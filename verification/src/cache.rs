//! The bounded TTL-LRU cache.
//!
//! A mapping from key to the JSON text last confirmed for it, together with
//! an absolute expiry tick. The map is bounded: inserting past the capacity
//! evicts the least recently used slot. Expiry is lazy: a stale slot is
//! treated as absent by readers but may stay in place until it is replaced
//! or evicted. The cache never performs I/O and never fails.

use crate::lru::{
    distinct_keys, find_entry, has_key, insert_model, lru_capacity, lru_clear, lru_entries,
    lru_get, lru_insert, lru_len, lru_new, lru_remove, remove_key,
};
use hashlink::LruCache;
use std::collections::hash_map::RandomState;
use vstd::prelude::*;

verus! {

/// The expiry tick of an entry stored at `now`: `now + ttl`, saturating at
/// the largest tick.
pub open spec fn expire_at(now: u64, ttl: u64) -> u64 {
    if now + ttl <= u64::MAX {
        (now + ttl) as u64
    } else {
        u64::MAX
    }
}

/// The text a reader of slots `s` is owed for key `k` at tick `now`: the
/// key's text where its slot is fresh (`now <= expire`), nothing where the
/// slot is stale or absent.
pub open spec fn fresh_find(s: Seq<(Seq<char>, u64, Seq<char>)>, k: Seq<char>, now: u64) -> Option<
    Seq<char>,
> {
    match find_entry(s, k) {
        Some(e) => if now <= e.0 {
            Some(e.1)
        } else {
            None
        },
        None => None,
    }
}

/// The bounded TTL-LRU cache: recency-ordered slots and the duration, in
/// ticks, that each stored entry stays fresh.
pub struct Cache {
    expire_ttl: u64,
    inner: LruCache<String, (u64, String), RandomState>,
}

impl Cache {
    /// The slots, least recently used first: key, expiry tick, JSON text.
    pub closed spec fn entries(self) -> Seq<(Seq<char>, u64, Seq<char>)> {
        lru_entries(self.inner)
    }

    /// The bound on the number of live slots.
    pub closed spec fn capacity(self) -> nat {
        lru_capacity(self.inner)
    }

    /// The duration, in ticks, added to "now" at insert time.
    pub closed spec fn ttl(self) -> u64 {
        self.expire_ttl
    }

    /// Well-formed: one slot per key, at most `capacity` slots, and a bound
    /// of at least one.
    pub closed spec fn wf(self) -> bool {
        &&& distinct_keys(self.entries())
        &&& self.entries().len() <= self.capacity()
        &&& self.capacity() >= 1
    }

    /// The number of live slots, stale ones included.
    pub fn len(&self) -> (r: usize)
        ensures
            r == self.entries().len(),
    {
        lru_len(&self.inner)
    }

    /// Look a key up at tick `now`. A fresh slot is promoted to most
    /// recently used and its text returned; a stale or absent key yields
    /// nothing. A stale slot probed here is left in place (and promoted),
    /// to be dropped when it is replaced or evicted.
    pub fn lookup(&mut self, key: &str, now: u64) -> (r: Option<String>)
        requires
            old(self).wf(),
        ensures
            final(self).wf(),
            final(self).capacity() == old(self).capacity(),
            final(self).ttl() == old(self).ttl(),
            (match r {
                Some(s) => fresh_find(old(self).entries(), key@, now) == Some(s@),
                None => fresh_find(old(self).entries(), key@, now) is None,
            }),
            (match find_entry(old(self).entries(), key@) {
                None => final(self).entries() == old(self).entries(),
                Some(e) => final(self).entries() == remove_key(old(self).entries(), key@).push(
                    (key@, e.0, e.1),
                ),
            }),
    {
        proof {
            lemma_promote_wf(lru_entries(self.inner), key@);
        }
        match lru_get(&mut self.inner, key) {
            Some(v) => {
                if now <= v.0 {
                    Some(v.1)
                } else {
                    None
                }
            },
            None => None,
        }
    }

    /// Store `json` for `key` at tick `now`: the entry expires at
    /// `now + ttl`, replaces any prior slot for the key, and evicts the
    /// least recently used slot when the cache is full.
    pub fn store(&mut self, key: &str, json: String, now: u64)
        requires
            old(self).wf(),
        ensures
            final(self).wf(),
            final(self).capacity() == old(self).capacity(),
            final(self).ttl() == old(self).ttl(),
            final(self).entries() == insert_model(
                old(self).entries(),
                old(self).capacity(),
                key@,
                expire_at(now, old(self).ttl()),
                json@,
            ),
    {
        let expire: u64 = if now <= u64::MAX - self.expire_ttl {
            now + self.expire_ttl
        } else {
            u64::MAX
        };
        proof {
            lemma_insert_model_wf(
                lru_entries(self.inner),
                lru_capacity(self.inner),
                key@,
                expire,
                json@,
            );
        }
        lru_insert(&mut self.inner, key, expire, json);
    }

    /// Drop any slot for `key`.
    pub fn remove(&mut self, key: &str)
        requires
            old(self).wf(),
        ensures
            final(self).wf(),
            final(self).capacity() == old(self).capacity(),
            final(self).ttl() == old(self).ttl(),
            final(self).entries() == remove_key(old(self).entries(), key@),
    {
        proof {
            lemma_remove_key_distinct(lru_entries(self.inner), key@);
        }
        lru_remove(&mut self.inner, key);
    }

    /// Drop every slot.
    pub fn clear(&mut self)
        requires
            old(self).wf(),
        ensures
            final(self).wf(),
            final(self).capacity() == old(self).capacity(),
            final(self).ttl() == old(self).ttl(),
            final(self).entries() == Seq::<(Seq<char>, u64, Seq<char>)>::empty(),
    {
        lru_clear(&mut self.inner);
    }
}

/// Create a cache with `cache_size` slots and per-entry freshness
/// `expire_ttl`, in ticks; both are fixed for the cache's life.
pub fn new_cache(cache_size: usize, expire_ttl: u64) -> (r: Cache)
    requires
        cache_size >= 1,
    ensures
        r.wf(),
        r.entries() == Seq::<(Seq<char>, u64, Seq<char>)>::empty(),
        r.capacity() == cache_size,
        r.ttl() == expire_ttl,
{
    Cache { expire_ttl, inner: lru_new(cache_size) }
}

/// A key found in all but the last slot is in the whole; a key of the
/// whole sits in all but the last slot or in the last one.
proof fn lemma_has_key_drop_last(s: Seq<(Seq<char>, u64, Seq<char>)>, k: Seq<char>)
    requires
        s.len() > 0,
    ensures
        has_key(s, k) <==> (has_key(s.drop_last(), k) || s.last().0 == k),
{
    if has_key(s, k) {
        let i = choose|i: int| 0 <= i < s.len() && (#[trigger] s[i]).0 == k;
        if i < s.len() - 1 {
            assert(s.drop_last()[i] == s[i]);
        }
    }
    if has_key(s.drop_last(), k) {
        let i = choose|i: int| 0 <= i < s.drop_last().len() && (#[trigger] s.drop_last()[i]).0 == k;
        assert(s[i] == s.drop_last()[i]);
    }
}

/// No slot for `k` remains after `remove_key`, and every key that remains
/// was there before.
proof fn lemma_remove_key_keys(s: Seq<(Seq<char>, u64, Seq<char>)>, k: Seq<char>, k2: Seq<char>)
    ensures
        !has_key(remove_key(s, k), k),
        has_key(remove_key(s, k), k2) ==> has_key(s, k2),
    decreases s.len(),
{
    if s.len() == 0 {
    } else {
        lemma_remove_key_keys(s.drop_last(), k, k2);
        lemma_has_key_drop_last(s, k);
        lemma_has_key_drop_last(s, k2);
        let rest = remove_key(s.drop_last(), k);
        if s.last().0 == k {
        } else {
            let rp = rest.push(s.last());
            assert(!has_key(rp, k)) by {
                if has_key(rp, k) {
                    let i = choose|i: int| 0 <= i < rp.len() && (#[trigger] rp[i]).0 == k;
                    if i < rest.len() {
                        assert(rp[i] == rest[i]);
                    } else {
                        assert(rp[i] == s.last());
                    }
                }
            }
            if has_key(rp, k2) {
                let i = choose|i: int| 0 <= i < rp.len() && (#[trigger] rp[i]).0 == k2;
                if i < rest.len() {
                    assert(rest[i] == rp[i]);
                    assert(has_key(rest, k2));
                } else {
                    assert(rp[i] == s.last());
                }
            }
        }
    }
}

/// `remove_key` keeps distinctness and never grows the sequence; a present
/// key makes it strictly shorter.
pub proof fn lemma_remove_key_distinct(s: Seq<(Seq<char>, u64, Seq<char>)>, k: Seq<char>)
    requires
        distinct_keys(s),
    ensures
        distinct_keys(remove_key(s, k)),
        remove_key(s, k).len() <= s.len(),
        has_key(s, k) ==> remove_key(s, k).len() < s.len(),
        !has_key(remove_key(s, k), k),
    decreases s.len(),
{
    lemma_remove_key_keys(s, k, k);
    if s.len() == 0 {
    } else {
        assert(distinct_keys(s.drop_last())) by {
            assert forall|i: int, j: int| 0 <= i < j < s.drop_last().len() implies (
            #[trigger] s.drop_last()[i]).0 != (#[trigger] s.drop_last()[j]).0 by {
                assert(s.drop_last()[i] == s[i]);
                assert(s.drop_last()[j] == s[j]);
            }
        }
        lemma_remove_key_distinct(s.drop_last(), k);
        lemma_has_key_drop_last(s, k);
        let rest = remove_key(s.drop_last(), k);
        if s.last().0 == k {
        } else {
            let rp = rest.push(s.last());
            assert(!has_key(rest, s.last().0)) by {
                if has_key(rest, s.last().0) {
                    lemma_remove_key_keys(s.drop_last(), k, s.last().0);
                    let i = choose|i: int|
                        0 <= i < s.drop_last().len() && (#[trigger] s.drop_last()[i]).0
                            == s.last().0;
                    assert(s[i] == s.drop_last()[i]);
                    assert((s[i]).0 == (s[s.len() - 1]).0);
                    assert(false);
                }
            }
            assert forall|i: int, j: int| 0 <= i < j < rp.len() implies (#[trigger] rp[i]).0 != (
            #[trigger] rp[j]).0 by {
                if j < rest.len() {
                    assert(rp[i] == rest[i]);
                    assert(rp[j] == rest[j]);
                } else {
                    assert(rp[j] == s.last());
                    assert(rp[i] == rest[i]);
                    assert(has_key(rest, rest[i].0));
                }
            }
        }
    }
}

/// A key missing from `s` leaves `remove_key` with nothing to do.
pub proof fn lemma_remove_key_noop(s: Seq<(Seq<char>, u64, Seq<char>)>, k: Seq<char>)
    requires
        !has_key(s, k),
    ensures
        remove_key(s, k) == s,
    decreases s.len(),
{
    if s.len() == 0 {
        assert(remove_key(s, k) =~= s);
    } else {
        lemma_has_key_drop_last(s, k);
        lemma_remove_key_noop(s.drop_last(), k);
        assert(remove_key(s, k) =~= s);
    }
}

/// `find_entry` finds a slot exactly when the key is there.
pub proof fn lemma_find_entry_has(s: Seq<(Seq<char>, u64, Seq<char>)>, k: Seq<char>)
    ensures
        find_entry(s, k) is Some <==> has_key(s, k),
    decreases s.len(),
{
    if s.len() == 0 {
    } else {
        lemma_find_entry_has(s.drop_last(), k);
        lemma_has_key_drop_last(s, k);
    }
}

/// Promotion keeps the cache well-formed: after a hit the slots are the
/// others, in order, with the key's slot moved to the recent end.
proof fn lemma_promote_wf(s: Seq<(Seq<char>, u64, Seq<char>)>, k: Seq<char>)
    requires
        distinct_keys(s),
    ensures
        (match find_entry(s, k) {
            None => true,
            Some(e) => {
                let rp = remove_key(s, k).push((k, e.0, e.1));
                &&& distinct_keys(rp)
                &&& rp.len() <= s.len()
            },
        }),
{
    lemma_find_entry_has(s, k);
    lemma_remove_key_distinct(s, k);
    match find_entry(s, k) {
        None => {},
        Some(e) => {
            let rest = remove_key(s, k);
            let rp = rest.push((k, e.0, e.1));
            assert forall|i: int, j: int| 0 <= i < j < rp.len() implies (#[trigger] rp[i]).0 != (
            #[trigger] rp[j]).0 by {
                if j < rest.len() {
                    assert(rp[i] == rest[i]);
                    assert(rp[j] == rest[j]);
                } else {
                    assert(rp[i] == rest[i]);
                    assert(has_key(rest, rest[i].0));
                }
            }
        },
    }
}

/// An insert keeps the cache well-formed: keys stay distinct and the
/// length stays within the bound.
proof fn lemma_insert_model_wf(
    s: Seq<(Seq<char>, u64, Seq<char>)>,
    cap: nat,
    k: Seq<char>,
    expire: u64,
    json: Seq<char>,
)
    requires
        distinct_keys(s),
        s.len() <= cap,
        cap >= 1,
    ensures
        distinct_keys(insert_model(s, cap, k, expire, json)),
        insert_model(s, cap, k, expire, json).len() <= cap,
{
    lemma_remove_key_distinct(s, k);
    let rest = remove_key(s, k);
    let pushed = rest.push((k, expire, json));
    assert(distinct_keys(pushed)) by {
        assert forall|i: int, j: int|
            0 <= i < j < pushed.len() implies (#[trigger] pushed[i]).0 != (
        #[trigger] pushed[j]).0 by {
            if j < rest.len() {
                assert(pushed[i] == rest[i]);
                assert(pushed[j] == rest[j]);
            } else {
                assert(pushed[i] == rest[i]);
                assert(has_key(rest, rest[i].0));
            }
        }
    }
    if pushed.len() > cap {
        let dropped = pushed.drop_first();
        assert(distinct_keys(dropped)) by {
            assert forall|i: int, j: int|
                0 <= i < j < dropped.len() implies (#[trigger] dropped[i]).0 != (
            #[trigger] dropped[j]).0 by {
                assert(dropped[i] == pushed[i + 1]);
                assert(dropped[j] == pushed[j + 1]);
            }
        }
    }
}

/// Write-through and read-through: what a store leaves for its key is the
/// stored text, and it reads back fresh at every tick up to its expiry.
/// A get within TTL after a successful put, or after a get that filled the
/// cache, therefore needs no fetch and returns the stored value.
pub proof fn lemma_store_then_fresh(
    s: Seq<(Seq<char>, u64, Seq<char>)>,
    cap: nat,
    k: Seq<char>,
    expire: u64,
    json: Seq<char>,
    now: u64,
)
    requires
        cap >= 1,
        now <= expire,
    ensures
        fresh_find(insert_model(s, cap, k, expire, json), k, now) == Some(json),
{
    let pushed = remove_key(s, k).push((k, expire, json));
    let out = insert_model(s, cap, k, expire, json);
    if pushed.len() > cap {
        assert(out == pushed.drop_first());
        assert(out.len() == pushed.len() - 1);
        assert(out.last() == pushed[pushed.len() - 1]);
    }
    assert(out.last() == (k, expire, json));
    assert(find_entry(out, k) == Some((expire, json)));
}

/// A hit leaves what it returned in place: promotion moves the key's slot
/// to the recent end but keeps its expiry and text, so repeated gets
/// within TTL return the same value without a fetch.
pub proof fn lemma_promote_keeps_entry(s: Seq<(Seq<char>, u64, Seq<char>)>, k: Seq<char>)
    ensures
        (match find_entry(s, k) {
            None => true,
            Some(e) => find_entry(remove_key(s, k).push((k, e.0, e.1)), k) == Some(e),
        }),
{
    match find_entry(s, k) {
        None => {},
        Some(e) => {
            let rp = remove_key(s, k).push((k, e.0, e.1));
            assert(rp.last() == (k, e.0, e.1));
            assert((e.0, e.1) == e);
            assert(find_entry(rp, k) == Some(e));
        },
    }
}

/// Delete invalidates: a removed key reads as absent at every tick, until
/// a later store fills it again.
pub proof fn lemma_remove_then_absent(
    s: Seq<(Seq<char>, u64, Seq<char>)>,
    k: Seq<char>,
    now: u64,
)
    ensures
        fresh_find(remove_key(s, k), k, now) is None,
{
    lemma_remove_key_keys(s, k, k);
    lemma_find_entry_has(remove_key(s, k), k);
}

/// TTL expiry: once the expiry tick of a key's slot has passed, the key
/// reads as absent with no other mutation needed.
pub proof fn lemma_expired_reads_absent(
    s: Seq<(Seq<char>, u64, Seq<char>)>,
    k: Seq<char>,
    now: u64,
)
    requires
        (match find_entry(s, k) {
            Some(e) => e.0 < now,
            None => true,
        }),
    ensures
        fresh_find(s, k, now) is None,
{
}

/// Capacity bound: storing a key absent from a full cache evicts exactly
/// the least recently used slot. The front slot leaves, the others keep
/// their order, and the new slot joins at the recent end, so the cache
/// again holds exactly `cap` slots.
pub proof fn lemma_insert_full_evicts_lru(
    s: Seq<(Seq<char>, u64, Seq<char>)>,
    cap: nat,
    k: Seq<char>,
    expire: u64,
    json: Seq<char>,
)
    requires
        distinct_keys(s),
        !has_key(s, k),
        s.len() == cap,
        cap >= 1,
    ensures
        insert_model(s, cap, k, expire, json) == s.drop_first().push((k, expire, json)),
        insert_model(s, cap, k, expire, json).len() == cap,
{
    lemma_remove_key_noop(s, k);
    let pushed = s.push((k, expire, json));
    assert(pushed.len() == cap + 1);
    assert(pushed.drop_first() =~= s.drop_first().push((k, expire, json)));
}

} // verus!

