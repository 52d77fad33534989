//! Verified state machines of a partitioned HTTP connection pool.
//!
//! Each origin cell owns an acquisition queue of waiters, HTTP/1 sender
//! records, HTTP/2 generations and the fairness bookkeeping that decides
//! whether a peer cell may reuse one of its connections.
#![allow(unused_imports)]

pub mod ids;
pub mod activation;
pub mod admission;
pub mod cell;
pub mod claims;
pub mod client;
pub mod connection;
pub mod dispatch;
pub mod establish;
pub mod events;
pub mod h1;
pub mod h2;
pub mod h2_request;
pub mod ordered_ids;
pub mod origin;
pub mod transport;
pub mod waiters;

