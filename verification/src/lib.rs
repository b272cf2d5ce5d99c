//! The rules of a chain-event gateway.
//!
//! For each tenant the gateway holds a connection to a blockchain node, fans
//! the node's new blocks out to consumers, backfills ranges of blocks into a
//! document store, and relays contract events and token deployments to
//! webhooks. This library holds what the gateway decides: which connection a
//! tenant has, when a header is published, which block is fetched next and
//! whether it is written, which log is delivered, which transaction is a
//! token deployment, when a delivery is tried again, and what is said to the
//! store. Connecting, sending and waiting are left to the program around it.

pub mod backfill;
pub mod bytecode;
pub mod chain;
pub mod deployments;
pub mod elastic;
pub mod events;
pub mod feed;
pub mod go_plus;
pub mod json;
pub mod labels;
pub mod queries;
pub mod registry;
pub mod retry;
pub mod routes;
pub mod rpc;
pub mod text;
pub mod tokens;
