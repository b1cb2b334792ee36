//! A work-deduplicating cache for asynchronous queries and mutations.
//!
//! The crate holds the rules of the cache: which entry a registration finds,
//! when an entry must run again, who is told about a change, and when an
//! entry may be dropped. Running the work, sleeping and waking belong to the
//! host, which performs what these functions decide and reports back.
pub mod cached_result;
pub mod captured;
pub mod lookup;
pub mod mutation;
pub mod prelude;
pub mod query;
pub mod query_laws;
pub mod requests;
pub mod result;
pub mod subscribers;
pub mod time;
pub mod use_mutation;
pub mod use_query;
pub mod use_query_client;
