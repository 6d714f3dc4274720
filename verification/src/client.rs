//! The client facade's verified core.
//!
//! The core holds the normalized endpoint and the cache, and decides the
//! read-through, write-through-invalidate and delete-invalidate flows.
//! The transport issues the HTTP calls and the typed (de)serialization
//! around it hands this core plain values: a status code and a body text
//! on the way in, the serialized JSON text on the way out. Cache mutations
//! run only on a confirmed remote success, so cache content only ever
//! reflects confirmed remote state.

use crate::cache::{expire_at, new_cache, Cache};
use crate::endpoint::{is_normalized, normalize_endpoint, normalized};
use crate::envelope::{decode_envelope, envelope_fields_of, envelope_outcome};
use crate::errors::{spec_status_ok, status_error, Error};
use crate::lru::{find_entry, insert_model, remove_key};
use vstd::prelude::*;
use vstd::string::StringExecFns;

verus! {

/// Relies on coarsetime::Instant::now and Instant::as_ticks: one reading
/// of the coarse monotonic clock, as a tick count. Nothing is assumed of
/// the value; whatever the clock returns, the callers' contracts hold.
#[verifier::external_body]
fn now_ticks() -> u64 {
    coarsetime::Instant::now().as_ticks()
}

/// The verified core of the KV client: the normalized endpoint and the
/// TTL-LRU cache, with the decisions of every operation. Immutable but
/// for the cache, which the surrounding transport guards with its lock.
pub struct Client {
    endpoint: String,
    cache: Cache,
}

/// The outcome owed for a remote answer `(status, body)`: a failing
/// status becomes its typed error before any look at the body (other
/// failures carry a transport cause); a success body goes to the envelope
/// codec.
pub open spec fn response_outcome(status: u16, body: Seq<char>, r: Result<String, Error>) -> bool {
    if !spec_status_ok(status) {
        r matches Err(e) && status_error(status, "http status error"@, e)
    } else {
        envelope_outcome(envelope_fields_of(body), r)
    }
}

/// Interpret a remote answer: map a failing HTTP status to its typed
/// error first, and hand a success body to the envelope codec, which
/// yields the embedded document or the structured API error. A 404 is
/// always the typed `NotFound`.
pub fn handle_response(status: u16, body: &str) -> (r: Result<String, Error>)
    ensures
        response_outcome(status, body@, r),
{
    if status < 200 || status >= 300 {
        Err(Error::from_status(status, String::from_str("http status error")))
    } else {
        decode_envelope(body)
    }
}

impl Client {
    /// The endpoint requests use, with its trailing '/'.
    pub closed spec fn endpoint(self) -> Seq<char> {
        self.endpoint@
    }

    /// The cache's slots, least recently used first.
    pub closed spec fn entries(self) -> Seq<(Seq<char>, u64, Seq<char>)> {
        self.cache.entries()
    }

    /// The cache's bound.
    pub closed spec fn capacity(self) -> nat {
        self.cache.capacity()
    }

    /// The cache's freshness duration, in ticks.
    pub closed spec fn ttl(self) -> u64 {
        self.cache.ttl()
    }

    /// Well-formed: the endpoint ends in '/' and the cache is well-formed.
    pub closed spec fn wf(self) -> bool {
        &&& is_normalized(self.endpoint())
        &&& self.cache.wf()
    }

    /// Create the core with an endpoint, a cache bound and a cache TTL in
    /// ticks. The endpoint is normalized here, once; the cache starts
    /// empty.
    pub fn new(endpoint: &str, cache_size: usize, expire_ttl: u64) -> (r: Client)
        requires
            cache_size >= 1,
        ensures
            r.wf(),
            r.endpoint() == normalized(endpoint@),
            r.entries() == Seq::<(Seq<char>, u64, Seq<char>)>::empty(),
            r.capacity() == cache_size,
            r.ttl() == expire_ttl,
    {
        Client { endpoint: normalize_endpoint(endpoint), cache: new_cache(cache_size, expire_ttl) }
    }

    /// The URL for a key: the endpoint followed by the key, verbatim.
    pub fn url_for(&self, key: &str) -> (r: String)
        ensures
            r@ == self.endpoint() + key@,
    {
        self.endpoint.clone().concat(key)
    }

    /// Consult the cache for a key at the clock's current tick. A fresh
    /// entry is promoted and its text returned for the caller's typed
    /// decode; a stale or absent key yields nothing, which sends the
    /// caller to the transport.
    pub fn get_cache(&mut self, key: &str) -> (r: Option<String>)
        requires
            old(self).wf(),
        ensures
            final(self).wf(),
            final(self).endpoint() == old(self).endpoint(),
            final(self).capacity() == old(self).capacity(),
            final(self).ttl() == old(self).ttl(),
            (match r {
                Some(s) => find_entry(old(self).entries(), key@) matches Some(e) && e.1 == s@,
                None => true,
            }),
            (match find_entry(old(self).entries(), key@) {
                None => final(self).entries() == old(self).entries(),
                Some(e) => final(self).entries() == remove_key(old(self).entries(), key@).push(
                    (key@, e.0, e.1),
                ),
            }),
    {
        let now = now_ticks();
        self.cache.lookup(key, now)
    }

    /// Store the serialized text for a key at the clock's current tick,
    /// with the cache's TTL.
    pub fn set_cache(&mut self, key: &str, json: String)
        requires
            old(self).wf(),
        ensures
            final(self).wf(),
            final(self).endpoint() == old(self).endpoint(),
            final(self).capacity() == old(self).capacity(),
            final(self).ttl() == old(self).ttl(),
            exists|now: u64|
                final(self).entries() == insert_model(
                    old(self).entries(),
                    old(self).capacity(),
                    key@,
                    expire_at(now, old(self).ttl()),
                    json@,
                ),
    {
        let now = now_ticks();
        self.cache.store(key, json, now);
    }

    /// Drop every cached entry; the remote is not touched.
    pub fn clear_cached(&mut self)
        requires
            old(self).wf(),
        ensures
            final(self).wf(),
            final(self).endpoint() == old(self).endpoint(),
            final(self).capacity() == old(self).capacity(),
            final(self).ttl() == old(self).ttl(),
            final(self).entries() == Seq::<(Seq<char>, u64, Seq<char>)>::empty(),
    {
        self.cache.clear();
    }

    /// Drop a single key from the cache only; the remote is not touched.
    pub fn prune_cached(&mut self, key: &str)
        requires
            old(self).wf(),
        ensures
            final(self).wf(),
            final(self).endpoint() == old(self).endpoint(),
            final(self).capacity() == old(self).capacity(),
            final(self).ttl() == old(self).ttl(),
            final(self).entries() == remove_key(old(self).entries(), key@),
    {
        self.cache.remove(key);
    }

    /// Finish a get with the interpreted remote outcome: a success stores
    /// the document's text under the key (read-through), a failure leaves
    /// the cache exactly as it was. The outcome itself passes through
    /// unchanged.
    pub fn finish_get(&mut self, key: &str, outcome: Result<String, Error>) -> (r: Result<
        String,
        Error,
    >)
        requires
            old(self).wf(),
        ensures
            final(self).wf(),
            final(self).endpoint() == old(self).endpoint(),
            final(self).capacity() == old(self).capacity(),
            final(self).ttl() == old(self).ttl(),
            r == outcome,
            outcome is Err ==> *final(self) == *old(self),
            (match outcome {
                Ok(json) => exists|now: u64|
                    final(self).entries() == insert_model(
                        old(self).entries(),
                        old(self).capacity(),
                        key@,
                        expire_at(now, old(self).ttl()),
                        json@,
                    ),
                Err(_) => final(self).entries() == old(self).entries(),
            }),
    {
        match outcome {
            Ok(json) => {
                self.set_cache(key, json.clone());
                Ok(json)
            },
            Err(e) => Err(e),
        }
    }

    /// Finish a put whose body was the serialized text `json`: a remote
    /// success stores the same bytes under the key (write-through), a
    /// failure leaves the cache exactly as it was, so a prior cached
    /// value survives a failing put.
    pub fn finish_put(&mut self, key: &str, json: String, outcome: Result<(), Error>) -> (r:
        Result<(), Error>)
        requires
            old(self).wf(),
        ensures
            final(self).wf(),
            final(self).endpoint() == old(self).endpoint(),
            final(self).capacity() == old(self).capacity(),
            final(self).ttl() == old(self).ttl(),
            r == outcome,
            outcome is Err ==> *final(self) == *old(self),
            (match outcome {
                Ok(_) => exists|now: u64|
                    final(self).entries() == insert_model(
                        old(self).entries(),
                        old(self).capacity(),
                        key@,
                        expire_at(now, old(self).ttl()),
                        json@,
                    ),
                Err(_) => final(self).entries() == old(self).entries(),
            }),
    {
        match outcome {
            Ok(u) => {
                self.set_cache(key, json);
                Ok(u)
            },
            Err(e) => Err(e),
        }
    }

    /// Finish a delete: a remote success removes the key from the cache
    /// (delete-invalidate), a failure leaves the cache exactly as it was,
    /// so a transient error never masks a still-live entry.
    pub fn finish_delete(&mut self, key: &str, outcome: Result<(), Error>) -> (r: Result<
        (),
        Error,
    >)
        requires
            old(self).wf(),
        ensures
            final(self).wf(),
            final(self).endpoint() == old(self).endpoint(),
            final(self).capacity() == old(self).capacity(),
            final(self).ttl() == old(self).ttl(),
            r == outcome,
            outcome is Err ==> *final(self) == *old(self),
            (match outcome {
                Ok(_) => final(self).entries() == remove_key(old(self).entries(), key@),
                Err(_) => final(self).entries() == old(self).entries(),
            }),
    {
        match outcome {
            Ok(u) => {
                self.prune_cached(key);
                Ok(u)
            },
            Err(e) => Err(e),
        }
    }
}

} // verus!
