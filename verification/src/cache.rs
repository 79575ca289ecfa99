use vstd::prelude::*;

use crate::dup::Dup;
use std::collections::HashMap;

verus! {

/// The load-state of one key in a fetch coalescer's cache.
///
/// There is no "absent" variant: a key without a cache entry has simply not
/// been looked up yet.
#[derive(Debug)]
pub enum LoadState<V> {
    /// The handler supplied a value for the key.
    Loaded(V),
    /// A batch containing the key succeeded without supplying a value, so
    /// the key is memoized as missing and is never fetched again.
    NotFound,
}

impl<V: Dup> Dup for LoadState<V> {
    fn dup(&self) -> (r: LoadState<V>)
        ensures
            r == *self,
    {
        match self {
            LoadState::Loaded(v) => LoadState::Loaded(v.dup()),
            LoadState::NotFound => LoadState::NotFound,
        }
    }
}

/// The cache map after the not-found marking step of a successful batch over
/// `keys`: every existing entry is kept exactly as it was, and each key of
/// the batch that has no entry yet is given `NotFound`.
pub open spec fn mark_not_found<V>(
    m: Map<u64, LoadState<V>>,
    keys: Seq<u64>,
) -> Map<u64, LoadState<V>> {
    Map::new(
        |k: u64| m.dom().contains(k) || keys.contains(k),
        |k: u64|
            if m.dom().contains(k) {
                m[k]
            } else {
                LoadState::NotFound
            },
    )
}

/// The keyed store backing a fetch coalescer: a map from key to
/// [`LoadState`], abstracted as `Map<u64, LoadState<V>>`.
pub struct CacheStore<V> {
    map: HashMap<u64, LoadState<V>>,
}

impl<V> View for CacheStore<V> {
    type V = Map<u64, LoadState<V>>;

    closed spec fn view(&self) -> Map<u64, LoadState<V>> {
        self.map@
    }
}

impl<V> CacheStore<V> {
    /// An empty store: no key has been looked up yet.
    pub fn new() -> (r: CacheStore<V>)
        ensures
            r@ == Map::<u64, LoadState<V>>::empty(),
    {
        CacheStore { map: HashMap::new() }
    }

    /// Store `Loaded(value)` for `key`, replacing any prior state.
    pub fn insert(&mut self, key: u64, value: V)
        ensures
            final(self)@ == old(self)@.insert(key, LoadState::Loaded(value)),
    {
        self.map.insert(key, LoadState::Loaded(value));
    }

    /// The current state of `key`, or `None` if it has never been resolved.
    pub fn get(&self, key: u64) -> (r: Option<&LoadState<V>>)
        ensures
            match r {
                Some(s) => self@.contains_key(key) && *s == self@[key],
                None => !self@.contains_key(key),
            },
    {
        self.map.get(&key)
    }

    /// Set `NotFound` for each of `keys` that has no entry yet. An existing
    /// entry — in particular a `Loaded` one — is never overwritten.
    pub fn mark_keys_not_found(&mut self, keys: &Vec<u64>)
        ensures
            final(self)@ == mark_not_found(old(self)@, keys@),
    {
        let ghost m0 = self@;
        let mut i: usize = 0;
        while i < keys.len()
            invariant
                i <= keys.len(),
                self.map@ == mark_not_found(m0, keys@.take(i as int)),
            decreases keys.len() - i,
        {
            let k = keys[i];
            if !self.map.contains_key(&k) {
                self.map.insert(k, LoadState::NotFound);
            }
            proof {
                broadcast use vstd::seq_lib::lemma_seq_contains_after_push;

                keys@.lemma_take_succ_push(i as int);
                assert(self.map@ =~= mark_not_found(m0, keys@.take(i + 1)));
            }
            i += 1;
        }
        proof {
            keys@.lemma_take_len();
        }
    }
}

/// How a fetch coalescer's cache can evolve after some point: entries are
/// only ever added — by handler inserts and by not-found marking — so a key
/// with an entry keeps one forever.
pub open spec fn cache_extends<V>(
    pre: Map<u64, LoadState<V>>,
    post: Map<u64, LoadState<V>>,
) -> bool {
    pre.dom().subset_of(post.dom())
}

/// A handler insert only adds to the cache's domain.
pub proof fn lemma_insert_extends<V>(m: Map<u64, LoadState<V>>, k: u64, v: V)
    ensures
        cache_extends(m, m.insert(k, LoadState::Loaded(v))),
{
}

/// The not-found marking step only adds to the cache's domain.
pub proof fn lemma_mark_not_found_extends<V>(m: Map<u64, LoadState<V>>, keys: Seq<u64>)
    ensures
        cache_extends(m, mark_not_found(m, keys)),
{
}

/// Cache monotonicity under the not-found marking step: marking a batch's
/// keys never changes an entry that is already present, so a `Loaded` entry
/// is never downgraded to `NotFound` and never changes value.
pub proof fn lemma_mark_not_found_preserves_entries<V>(
    m: Map<u64, LoadState<V>>,
    keys: Seq<u64>,
    k: u64,
)
    requires
        m.dom().contains(k),
    ensures
        mark_not_found(m, keys).dom().contains(k),
        mark_not_found(m, keys)[k] == m[k],
{
}

/// After a successful batch over `keys`, every key of the batch has a cache
/// entry: what the handler inserted if there was one, and `NotFound`
/// otherwise.
pub proof fn lemma_mark_not_found_covers<V>(m: Map<u64, LoadState<V>>, keys: Seq<u64>, k: u64)
    requires
        keys.contains(k),
    ensures
        mark_not_found(m, keys).dom().contains(k),
        !m.dom().contains(k) ==> mark_not_found(m, keys)[k] == LoadState::<V>::NotFound,
{
}

} // verus!
