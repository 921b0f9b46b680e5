//! Federation-facing event ingestion and room-state authorization.
//!
//! The library holds the decisions of a chat-federation server: transaction
//! validation and per-room grouping of incoming events, the policy gates of
//! ephemeral signals, the compressed room-state encoding, history-visibility
//! and redaction rules, and the bounded caches that memoize visibility.

pub mod ids;
pub mod compressed;
pub mod visibility;
pub mod lru;
pub mod state_accessor;
pub mod room_policy;
pub mod transaction;
pub mod edu;
pub mod room_lock;
