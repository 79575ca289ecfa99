//! Request-coalescing building blocks: a keyed cache with not-found
//! memoization, a per-call lookup cursor, and batch accumulators that decide
//! when a batch is ready to flush and how a batch result is fanned back out
//! to its submitters.

mod cache;
mod dup;
mod errors;
mod execute_batch;
mod fetch_batch;
mod lookup;
mod util;

pub use cache::CacheStore;
pub use cache::LoadState;
pub use cache::cache_extends;
pub use cache::lemma_insert_extends;
pub use cache::lemma_mark_not_found_extends;
pub use cache::lemma_mark_not_found_covers;
pub use cache::lemma_mark_not_found_preserves_entries;
pub use cache::mark_not_found;
pub use dup::Dup;
pub use errors::ExecuteError;
pub use errors::LoadError;
pub use execute_batch::ExecuteBatch;
pub use execute_batch::ExecuteBatchEvent;
pub use execute_batch::lemma_result_segment_positions;
pub use execute_batch::result_segment;
pub use execute_batch::split_results;
pub use execute_batch::starts_sorted;
pub use fetch_batch::FetchBatch;
pub use fetch_batch::FetchBatchEvent;
pub use lookup::CacheLookup;
pub use lookup::CacheLookupState;
pub use lookup::entry_is_loaded;
pub use lookup::entry_value;
pub use lookup::lemma_cached_key_not_pending;
pub use lookup::lemma_fetched_key_never_refetched;
pub use lookup::lemma_resolved_entry_stable;
pub use lookup::lemma_successful_batch_resolves_lookup;
pub use lookup::lemma_unresolved_key_still_pending;
pub use lookup::pending_of;
pub use lookup::reload_entries;
