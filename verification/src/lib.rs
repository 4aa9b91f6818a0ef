//! Call execution against block state: strategy-driven dispatch between a
//! native and an interpreted runtime implementation, overlay-aware contextual
//! calls, and proof-recording execution over a trie-backed state view.

pub mod client;
pub mod errors;
pub mod executor;
pub mod kv;
pub mod overlay;
pub mod runtime;
pub mod scale;
pub mod strategy;
pub mod trie;
pub mod version;
