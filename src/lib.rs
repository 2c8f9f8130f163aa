//! Core of a caching DNS proxy: the cache key and entry model, a bounded
//! least-recently-used record cache with staleness, the per-query lookup
//! decisions, and the assembly of one response from several sub-queries.
pub mod model;
pub mod record_cache;
pub mod orchestrator;
pub mod assembler;
pub mod wire;
