//! A gossip / anti-entropy broadcast engine for a single node in a
//! distributed broadcast service.
//!
//! The library holds the node's verified core: the append-only value store
//! with duplicate suppression and the per-neighbour delivery cursor table
//! (`store`), the planning and reconciliation of propagation rounds with the
//! round generation counter and its wait predicate (`engine`), and the
//! request dispatch logic (`protocol`). Beside the broadcast core stand the
//! decision machine of a grow-only counter kept in an external key-value
//! store (`counter`), a striped unique-id allocator (`seed`), and the node
//! name parser (`names`). The surrounding runtime (message framing, RPC
//! transport, timers) drives these functions and performs the network calls.

pub mod counter;
pub mod engine;
pub mod names;
pub mod protocol;
pub mod seed;
pub mod store;
