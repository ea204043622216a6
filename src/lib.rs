//! A plain-HTTP forward proxy core: authority rewriting by an exact-match rule
//! table, and cache-path derivation with content decoding for a disk cache.
pub mod text;
pub mod rules;
pub mod rewrite;
pub mod cache_path;
pub mod decode;
pub mod caching;
