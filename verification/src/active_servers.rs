//! The servers a client is looking at: a time- and size-bounded cache
//! (`lru_time_cache::LruCache`) whose entries turn into member-event
//! subscriptions while they live and are dropped when they expire.

use vstd::prelude::*;
use lru_time_cache::{LruCache, TimedEntry};
use crate::gateway::should_reload_after_mark;
use crate::subscriptions::ActiveServerChange;

verus! {

#[verifier::external_type_specification]
#[verifier::external_body]
#[verifier::reject_recursive_types(Key)]
#[verifier::reject_recursive_types(Value)]
pub struct ExLruCache<Key, Value>(lru_time_cache::LruCache<Key, Value>);

/// The keys that a cache holds in its map, expired or not (an expired key
/// stays until a mutating call drops it).
pub uninterp spec fn stored_keys(c: LruCache<String, ()>) -> Set<Seq<char>>;

/// The capacity that a cache was made with.
pub uninterp spec fn capacity_of(c: LruCache<String, ()>) -> usize;

/// The time to live, in seconds, that a cache was made with.
pub uninterp spec fn ttl_seconds_of(c: LruCache<String, ()>) -> u64;

/// `LruCache::with_expiry_duration_and_capacity`: an empty cache with the
/// given time to live and capacity.
#[verifier::external_body]
fn new_cache(ttl_seconds: u64, capacity: usize) -> (r: LruCache<String, ()>)
    ensures
        stored_keys(r) == Set::<Seq<char>>::empty(),
        capacity_of(r) == capacity,
        ttl_seconds_of(r) == ttl_seconds,
{
    LruCache::with_expiry_duration_and_capacity(std::time::Duration::from_secs(ttl_seconds), capacity)
}

/// `LruCache::contains_key`: true only for a stored key that has not
/// expired. Which stored keys have expired depends on the clock and is not
/// stated.
#[verifier::external_body]
fn cache_contains(c: &LruCache<String, ()>, key: &String) -> (r: bool)
    ensures
        r ==> stored_keys(*c).contains(key@),
{
    c.contains_key(key)
}

/// `LruCache::insert`: drops the expired keys, and the least recently used
/// ones when the cache is full, then stores `key`. So `key` is stored
/// afterwards, and no other key is added. Which keys are dropped depends on
/// the clock and is not stated. A capacity of zero makes the crate's
/// eviction range run past the end of its list, which panics.
#[verifier::external_body]
fn cache_insert(c: &mut LruCache<String, ()>, key: String)
    requires
        capacity_of(*old(c)) > 0,
    ensures
        stored_keys(*final(c)).contains(key@),
        stored_keys(*final(c)).subset_of(stored_keys(*old(c)).insert(key@)),
        capacity_of(*final(c)) == capacity_of(*old(c)),
        ttl_seconds_of(*final(c)) == ttl_seconds_of(*old(c)),
{
    let _ = c.insert(key, ());
}

/// The key that a server change names.
pub open spec fn change_key(c: ActiveServerChange) -> Seq<char> {
    match c {
        ActiveServerChange::Subscribe(k) => k@,
        ActiveServerChange::Unsubscribe(k) => k@,
    }
}

/// Whether `cs` is what a full pass over a cache gives, with the stored
/// keys `before` the pass and `after` it: each stored key once, as a
/// `Subscribe` when it is still live (and stays) or as an `Unsubscribe` when
/// it expired (and is dropped).
pub open spec fn pass_changes(before: Set<Seq<char>>, after: Set<Seq<char>>, cs: Seq<ActiveServerChange>) -> bool {
    &&& forall|i: int| 0 <= i < cs.len() ==> before.contains(change_key(#[trigger] cs[i]))
    &&& forall|k: Seq<char>| #[trigger] before.contains(k) ==> exists|i: int| 0 <= i < cs.len() && change_key(#[trigger] cs[i]) == k
    &&& forall|k: Seq<char>| #[trigger] after.contains(k) <==> exists|i: int| 0 <= i < cs.len() && #[trigger] subscribes(cs[i], k)
}

/// Whether `c` is a `Subscribe` for key `k`.
pub open spec fn subscribes(c: ActiveServerChange, k: Seq<char>) -> bool {
    c matches ActiveServerChange::Subscribe(s) && s@ == k
}

/// `LruCache::notify_iter`, run to the end: every stored key once, from the
/// most recently used; live keys come as `Subscribe` and are kept, expired
/// ones come as `Unsubscribe` and are dropped. Which keys have expired
/// depends on the clock, and the order is not stated.
#[verifier::external_body]
fn cache_pass(c: &mut LruCache<String, ()>) -> (r: Vec<ActiveServerChange>)
    ensures
        pass_changes(stored_keys(*old(c)), stored_keys(*final(c)), r@),
        capacity_of(*final(c)) == capacity_of(*old(c)),
        ttl_seconds_of(*final(c)) == ttl_seconds_of(*old(c)),
{
    c.notify_iter().map(|e| match e {
        TimedEntry::Valid(k, _) => ActiveServerChange::Subscribe(k.clone()),
        TimedEntry::Expired(k, _) => ActiveServerChange::Unsubscribe(k),
    }).collect()
}

/// Servers a client has looked at recently: entries live for 15 minutes and
/// at most 5 are kept.
pub struct ActiveServers {
    cache: LruCache<String, ()>,
}

impl ActiveServers {
    /// The servers stored, expired or not.
    pub closed spec fn servers(&self) -> Set<Seq<char>> {
        stored_keys(self.cache)
    }

    /// How many servers are kept at most.
    pub closed spec fn capacity(&self) -> usize {
        capacity_of(self.cache)
    }

    /// How long an entry lives, in seconds.
    pub closed spec fn ttl_seconds(&self) -> u64 {
        ttl_seconds_of(self.cache)
    }

    /// An empty cache: entries live 900 s, and room for 5 servers.
    pub fn new() -> (r: ActiveServers)
        ensures
            r.servers() == Set::<Seq<char>>::empty(),
            r.capacity() == 5,
            r.ttl_seconds() == 900,
    {
        ActiveServers { cache: new_cache(900, 5) }
    }

    /// A full pass over the cache: every stored server once, live ones as
    /// `Subscribe` (kept), expired ones as `Unsubscribe` (dropped).
    pub fn changes(&mut self) -> (r: Vec<ActiveServerChange>)
        ensures
            pass_changes(old(self).servers(), final(self).servers(), r@),
            final(self).capacity() == old(self).capacity(),
            final(self).ttl_seconds() == old(self).ttl_seconds(),
    {
        cache_pass(&mut self.cache)
    }
}

/// Marks a server as active: the server is stored afterwards, and the
/// result says whether the listener must adjust its subscriptions, which it
/// must when the server was not active before. A server that was not stored
/// at all was not active; whether a stored one had expired depends on the
/// clock.
pub fn mark_server_active(cache: &mut ActiveServers, server_id: String) -> (r: bool)
    requires
        old(cache).capacity() > 0,
    ensures
        final(cache).servers().contains(server_id@),
        final(cache).servers().subset_of(old(cache).servers().insert(server_id@)),
        final(cache).capacity() == old(cache).capacity(),
        final(cache).ttl_seconds() == old(cache).ttl_seconds(),
        !old(cache).servers().contains(server_id@) ==> r,
        !r ==> old(cache).servers().contains(server_id@),
{
    let was_active = cache_contains(&cache.cache, &server_id);
    cache_insert(&mut cache.cache, server_id);
    should_reload_after_mark(was_active)
}

} // verus!
