//! The decision logic of a caching forward HTTP proxy.
//!
//! The crate holds everything the proxy computes: the bounded response
//! cache with least-recently-used eviction, the request-line parser, the
//! request sent to the origin, the size-capped accumulation of a relayed
//! response, and the per-connection state machine that strings them
//! together. Sockets, tasks and locks are left to the program around it.

pub mod recency;
pub mod lru_cache;
pub mod cache;
pub mod recency_laws;
pub mod text;
pub mod uri;
pub mod request;
pub mod relay;
pub mod handler;
pub mod handler_laws;
