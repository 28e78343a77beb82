//! State-management core of a blockchain node: the ledger of blocks, the pool
//! of pending transactions, the node context that owns both, and the bounded
//! queries and submissions served over them.
pub mod types;
pub mod ledger;
pub mod mempool;
pub mod node;
pub mod api;
