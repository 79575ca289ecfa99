use vstd::prelude::*;

use crate::cache::CacheStore;
use crate::cache::LoadState;
use crate::cache::cache_extends;
use crate::cache::lemma_mark_not_found_covers;
use crate::cache::mark_not_found;
use crate::dup::Dup;
use crate::errors::LoadError;
use crate::util::vec_contains_u64;
use std::collections::HashMap;

verus! {

/// Whether a cursor entry has been resolved to a loaded value.
pub open spec fn entry_is_loaded<V>(e: Option<LoadState<V>>) -> bool {
    match e {
        Some(LoadState::Loaded(_)) => true,
        _ => false,
    }
}

/// The loaded value of a resolved cursor entry.
pub open spec fn entry_value<V>(e: Option<LoadState<V>>) -> V
    recommends
        entry_is_loaded(e),
{
    choose|v: V| e == Some(LoadState::Loaded(v))
}

/// The cursor's entries after copying in the cache `c`: an entry already
/// resolved keeps its state, and an unresolved one takes the cache's state
/// for its key when the cache has one.
pub open spec fn reload_entries<V>(
    e: Map<u64, Option<LoadState<V>>>,
    c: Map<u64, LoadState<V>>,
) -> Map<u64, Option<LoadState<V>>> {
    Map::new(
        |k: u64| e.dom().contains(k),
        |k: u64|
            if e[k] is Some {
                e[k]
            } else if c.dom().contains(k) {
                Some(c[k])
            } else {
                None
            },
    )
}

/// The distinct keys of a cursor that are still unresolved.
pub open spec fn pending_of<V>(e: Map<u64, Option<LoadState<V>>>) -> Set<u64> {
    Set::new(|k: u64| e.dom().contains(k) && e[k] is None)
}

/// The outcome of consulting the cache for a whole `load_many` call.
pub enum CacheLookupState<V> {
    /// Every key is resolved; the per-key outcome in caller order, or the
    /// first failure.
    Done(Result<Vec<V>, LoadError>),
    /// At least one key still has to be fetched.
    Pending,
}

/// Per-call lookup cursor: remembers the caller's ordered key list
/// (duplicates allowed) and, for each distinct key, what has been resolved
/// from the cache so far.
pub struct CacheLookup<V> {
    keys: Vec<u64>,
    entries: HashMap<u64, Option<LoadState<V>>>,
}

impl<V> CacheLookup<V> {
    /// The caller's key list, in caller order.
    pub closed spec fn key_seq(&self) -> Seq<u64> {
        self.keys@
    }

    /// The per-distinct-key resolution state.
    pub closed spec fn entry_map(&self) -> Map<u64, Option<LoadState<V>>> {
        self.entries@
    }

    /// The cursor tracks exactly the distinct keys of its key list.
    pub open spec fn wf(&self) -> bool {
        forall|k: u64| self.entry_map().dom().contains(k) <==> self.key_seq().contains(k)
    }

    /// A fresh cursor over `keys`: every distinct key starts unresolved.
    pub fn new(keys: Vec<u64>) -> (r: CacheLookup<V>)
        ensures
            r.wf(),
            r.key_seq() == keys@,
            forall|k: u64| r.entry_map().dom().contains(k) ==> r.entry_map()[k] is None,
    {
        let mut entries: HashMap<u64, Option<LoadState<V>>> = HashMap::new();
        let mut i: usize = 0;
        while i < keys.len()
            invariant
                i <= keys.len(),
                forall|k: u64| #[trigger]
                    entries@.dom().contains(k) <==> keys@.take(i as int).contains(k),
                forall|k: u64| entries@.dom().contains(k) ==> entries@[k] is None,
            decreases keys.len() - i,
        {
            entries.insert(keys[i], None);
            proof {
                broadcast use vstd::seq_lib::lemma_seq_contains_after_push;

                keys@.lemma_take_succ_push(i as int);
            }
            i += 1;
        }
        proof {
            keys@.lemma_take_len();
        }
        CacheLookup { keys, entries }
    }

    /// The distinct keys still unresolved after the most recent refresh,
    /// with no duplicates.
    pub fn pending_keys(&self) -> (r: Vec<u64>)
        requires
            self.wf(),
        ensures
            forall|k: u64| r@.contains(k) <==> pending_of(self.entry_map()).contains(k),
            forall|i: int, j: int| 0 <= i < j < r@.len() ==> r@[i] != r@[j],
    {
        let mut out: Vec<u64> = Vec::new();
        let mut i: usize = 0;
        while i < self.keys.len()
            invariant
                self.wf(),
                i <= self.keys.len(),
                forall|k: u64| #[trigger]
                    out@.contains(k) <==> (pending_of(self.entry_map()).contains(k)
                        && self.key_seq().take(i as int).contains(k)),
                forall|p: int, q: int| 0 <= p < q < out@.len() ==> out@[p] != out@[q],
            decreases self.keys.len() - i,
        {
            let k = self.keys[i];
            let is_pending = match self.entries.get(&k) {
                Some(e) => e.is_none(),
                None => false,
            };
            if is_pending && !vec_contains_u64(&out, k) {
                out.push(k);
            }
            proof {
                broadcast use vstd::seq_lib::lemma_seq_contains_after_push;

                self.key_seq().lemma_take_succ_push(i as int);
                assert(self.key_seq().contains(self.key_seq()[i as int]));
            }
            i += 1;
        }
        proof {
            self.key_seq().lemma_take_len();
        }
        out
    }
}

impl<V: Dup> CacheLookup<V> {
    /// For each key still unresolved, probe the store and copy in its state
    /// if the store has one. Resolved entries are left untouched.
    pub fn reload_keys_from_cache_store(&mut self, cache_store: &CacheStore<V>)
        requires
            old(self).wf(),
        ensures
            final(self).wf(),
            final(self).key_seq() == old(self).key_seq(),
            final(self).entry_map() == reload_entries(old(self).entry_map(), cache_store@),
    {
        let ghost e0 = self.entries@;
        let mut i: usize = 0;
        while i < self.keys.len()
            invariant
                i <= self.keys.len(),
                self.keys@ == old(self).keys@,
                self.entries@.dom() == e0.dom(),
                old(self).wf(),
                e0 == old(self).entry_map(),
                forall|k: u64| #[trigger] e0.dom().contains(k) ==> self.entries@[k] == (
                if self.keys@.take(i as int).contains(k) {
                    reload_entries(e0, cache_store@)[k]
                } else {
                    e0[k]
                }),
            decreases self.keys.len() - i,
        {
            let k = self.keys[i];
            proof {
                assert(self.keys@.contains(k));
            }
            let unresolved = match self.entries.get(&k) {
                Some(e) => e.is_none(),
                None => false,
            };
            if unresolved {
                match cache_store.get(k) {
                    Some(state) => {
                        let copied = state.dup();
                        self.entries.insert(k, Some(copied));
                    },
                    None => {},
                }
            }
            proof {
                broadcast use vstd::seq_lib::lemma_seq_contains_after_push;

                self.keys@.lemma_take_succ_push(i as int);
            }
            i += 1;
        }
        proof {
            self.keys@.lemma_take_len();
            assert(self.keys@.take(i as int) == self.keys@);
            assert forall|k: u64| #[trigger] e0.dom().contains(k) implies self.entries@[k]
                == reload_entries(e0, cache_store@)[k] by {
                assert(old(self).entry_map().dom().contains(k));
                assert(old(self).key_seq().contains(k));
                assert(self.keys@.take(i as int).contains(k));
            }
            assert(self.entries@ =~= reload_entries(e0, cache_store@));
            assert forall|k: u64| #[trigger] self.entry_map().dom().contains(k)
                <==> self.key_seq().contains(k) by {
                assert(old(self).entry_map().dom().contains(k) <==> old(self).key_seq().contains(
                    k,
                ));
            }
        }
    }

    /// Resolve the whole call in caller order: the value of each key if
    /// every key is loaded, and `NotFound` as soon as some key is not.
    pub fn lookup_result(&self) -> (r: Result<Vec<V>, LoadError>)
        requires
            self.wf(),
        ensures
            match r {
                Ok(vs) => {
                    &&& vs@.len() == self.key_seq().len()
                    &&& forall|i: int|
                        0 <= i < self.key_seq().len() ==> entry_is_loaded(
                            #[trigger] self.entry_map()[self.key_seq()[i]],
                        ) && vs@[i] == entry_value(self.entry_map()[self.key_seq()[i]])
                },
                Err(e) => {
                    &&& e is NotFound
                    &&& exists|i: int|
                        0 <= i < self.key_seq().len() && !entry_is_loaded(
                            #[trigger] self.entry_map()[self.key_seq()[i]],
                        )
                },
            },
    {
        let mut out: Vec<V> = Vec::new();
        let mut i: usize = 0;
        while i < self.keys.len()
            invariant
                self.wf(),
                i <= self.keys.len(),
                out@.len() == i,
                forall|j: int|
                    0 <= j < i ==> entry_is_loaded(
                        #[trigger] self.entry_map()[self.key_seq()[j]],
                    ) && out@[j] == entry_value(self.entry_map()[self.key_seq()[j]]),
            decreases self.keys.len() - i,
        {
            let k = self.keys[i];
            proof {
                assert(self.keys@.contains(k));
            }
            let state = match self.entries.get(&k) {
                Some(e) => e.as_ref(),
                None => None,
            };
            match state {
                Some(LoadState::Loaded(v)) => {
                    out.push(v.dup());
                    proof {
                        assert(self.entry_map()[k] == Some(LoadState::Loaded(*v)));
                    }
                },
                _ => {
                    proof {
                        assert(!entry_is_loaded(self.entry_map()[self.key_seq()[i as int]]));
                    }
                    return Err(LoadError::NotFound);
                },
            }
            i += 1;
        }
        Ok(out)
    }

    /// Refresh from the store, then report: `Done` with the final ordered
    /// result once no key is pending, `Pending` otherwise.
    pub fn lookup(&mut self, cache_store: &CacheStore<V>) -> (r: CacheLookupState<V>)
        requires
            old(self).wf(),
        ensures
            final(self).wf(),
            final(self).key_seq() == old(self).key_seq(),
            final(self).entry_map() == reload_entries(old(self).entry_map(), cache_store@),
            r is Pending <==> !pending_of(final(self).entry_map()).is_empty(),
            r matches CacheLookupState::Done(res) ==> match res {
                Ok(vs) => {
                    &&& vs@.len() == final(self).key_seq().len()
                    &&& forall|i: int|
                        0 <= i < final(self).key_seq().len() ==> entry_is_loaded(
                            #[trigger] final(self).entry_map()[final(self).key_seq()[i]],
                        ) && vs@[i] == entry_value(
                            final(self).entry_map()[final(self).key_seq()[i]],
                        )
                },
                Err(e) => {
                    &&& e is NotFound
                    &&& exists|i: int|
                        0 <= i < final(self).key_seq().len() && !entry_is_loaded(
                            #[trigger] final(self).entry_map()[final(self).key_seq()[i]],
                        )
                },
            },
    {
        self.reload_keys_from_cache_store(cache_store);
        let pending = self.pending_keys();
        if pending.is_empty() {
            proof {
                assert forall|k: u64| !pending_of(self.entry_map()).contains(k) by {
                    assert(!pending@.contains(k));
                }
                assert(pending_of(self.entry_map()) =~= Set::empty());
            }
            CacheLookupState::Done(self.lookup_result())
        } else {
            proof {
                assert(pending@.contains(pending@[0]));
            }
            CacheLookupState::Pending
        }
    }
}

/// Observations are stable: once a cursor has resolved a key to some state,
/// every later refresh leaves that state exactly as it was, whatever the
/// cache holds by then.
pub proof fn lemma_resolved_entry_stable<V>(
    e: Map<u64, Option<LoadState<V>>>,
    c: Map<u64, LoadState<V>>,
    k: u64,
)
    requires
        e.dom().contains(k),
        e[k] is Some,
    ensures
        reload_entries(e, c)[k] == e[k],
{
}

/// A key the cache has already resolved is never pending after a refresh,
/// so it is never sent to the handler again — `NotFound` memoization and
/// cache hits are sticky.
pub proof fn lemma_cached_key_not_pending<V>(
    e: Map<u64, Option<LoadState<V>>>,
    c: Map<u64, LoadState<V>>,
    k: u64,
)
    requires
        c.dom().contains(k),
    ensures
        !pending_of(reload_entries(e, c)).contains(k),
{
}

/// The happy path resolves a whole call: if a batch covers every pending
/// key of a cursor, then after the batch's not-found marking step and a
/// refresh, nothing is pending — the lookup must report `Done`.
pub proof fn lemma_successful_batch_resolves_lookup<V>(
    e: Map<u64, Option<LoadState<V>>>,
    c: Map<u64, LoadState<V>>,
    keys: Seq<u64>,
)
    requires
        forall|k: u64| pending_of(e).contains(k) ==> keys.contains(k),
    ensures
        pending_of(reload_entries(e, mark_not_found(c, keys))).is_empty(),
{
    assert forall|k: u64| !pending_of(reload_entries(e, mark_not_found(c, keys))).contains(
        k,
    ) by {
        if e.dom().contains(k) && e[k] is None {
            assert(pending_of(e).contains(k));
            assert(mark_not_found(c, keys).dom().contains(k));
        }
    }
    assert(pending_of(reload_entries(e, mark_not_found(c, keys))) =~= Set::empty());
}

/// At most one fetch per key on the happy path: after any successful batch
/// whose keys include `k` — which ends by marking its keys — every cache
/// state the store can later reach still has an entry for `k`, so no later
/// cursor, whatever its keys, ever lists `k` as pending again.
pub proof fn lemma_fetched_key_never_refetched<V>(
    c: Map<u64, LoadState<V>>,
    later: Map<u64, LoadState<V>>,
    keys: Seq<u64>,
    e: Map<u64, Option<LoadState<V>>>,
    k: u64,
)
    requires
        keys.contains(k),
        cache_extends(mark_not_found(c, keys), later),
    ensures
        !pending_of(reload_entries(e, later)).contains(k),
{
    lemma_mark_not_found_covers(c, keys, k);
    assert(later.dom().contains(k));
}

/// Retry after failure: a failed batch marks nothing, so a key the cache
/// still lacks stays pending after a refresh and is fetched again by the
/// next call that wants it.
pub proof fn lemma_unresolved_key_still_pending<V>(
    e: Map<u64, Option<LoadState<V>>>,
    c: Map<u64, LoadState<V>>,
    k: u64,
)
    requires
        e.dom().contains(k),
        e[k] is None,
        !c.dom().contains(k),
    ensures
        pending_of(reload_entries(e, c)).contains(k),
{
}

} // verus!
