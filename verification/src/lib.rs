//! A UDP DNS forwarding relay core: transaction-id rewriting, the
//! pending-request correlation table, and the upstream-selection policy.
//!
//! The relay accepts DNS queries from many clients on one socket, forwards
//! each query to one or more upstream resolvers, and routes each upstream
//! reply back to the originating client. Since the only per-message handle
//! is the 16-bit DNS transaction id, which clients choose independently and
//! which can collide across clients, the relay rewrites the id on the way
//! out and restores it on the way back, keeping a table of in-flight
//! queries keyed by the rewritten id.
//!
//! Socket I/O lives outside this crate; the library is the decision core:
//! given a datagram and its source address, it says exactly which datagrams
//! to send where, and how its state changes.

pub mod addr;
pub mod engine;
pub mod resolver;
pub mod table;
