//! Decisions of one connection establishment after its transport connected.
//!
//! The transport's ALPN result selects the protocol handshake; a request that
//! needs HTTP/1 wire semantics fails when HTTP/2 was negotiated. Installed
//! connections receive identities that never wrap.

use crate::admission::{requirement_accepts_h2, ProtocolRequirement};
use crate::connection::ConnectionProtocol;
use vstd::prelude::*;

verus! {

/// How establishment continues after protocol negotiation.
#[derive(Clone, Copy, Debug, PartialEq, Eq, Structural)]
pub enum NegotiatedRoute {
    /// Run the HTTP/1 handshake.
    Http1,
    /// Join or start the cell's HTTP/2 flight.
    Http2,
    /// HTTP/2 was negotiated for a request that needs HTTP/1; the transport
    /// and its capacity are released and the attempt fails.
    Mismatch,
}

/// Routes an attempt by the protocol its transport negotiated, returning the
/// protocol recorded for the establishment and how it continues.
pub fn route_negotiated_protocol(negotiated_h2: bool, requirement: ProtocolRequirement) -> (routed: (
    ConnectionProtocol,
    NegotiatedRoute,
))
    ensures
        routed.0 == (if negotiated_h2 {
            ConnectionProtocol::Http2
        } else {
            ConnectionProtocol::Http1
        }),
        routed.1 == (if !negotiated_h2 {
            NegotiatedRoute::Http1
        } else if requirement_accepts_h2(requirement) {
            NegotiatedRoute::Http2
        } else {
            NegotiatedRoute::Mismatch
        }),
{
    if !negotiated_h2 {
        (ConnectionProtocol::Http1, NegotiatedRoute::Http1)
    } else if requirement.accepts_h2() {
        (ConnectionProtocol::Http2, NegotiatedRoute::Http2)
    } else {
        (ConnectionProtocol::Http2, NegotiatedRoute::Mismatch)
    }
}

/// The pool exhausted its monotonic physical-connection identity space.
#[derive(Clone, Copy, Debug, PartialEq, Eq, Structural)]
pub struct ConnectionIdExhausted;

/// Whether minting from a counter at `old` returned `minted` and left it at
/// `new`: the current value, with the counter advanced past it, until the
/// last value of the space, which is never handed out.
pub open spec fn minted_from(old: u64, new: u64, minted: Result<u64, ConnectionIdExhausted>) -> bool {
    if old < u64::MAX {
        minted == Ok::<u64, ConnectionIdExhausted>(old) && new == old + 1
    } else {
        minted == Err::<u64, ConnectionIdExhausted>(ConnectionIdExhausted) && new == old
    }
}

/// Mints one non-wrapping connection identity from the pool's counter.
pub fn next_connection_id(counter: &mut u64) -> (minted: Result<u64, ConnectionIdExhausted>)
    ensures
        minted_from(*old(counter), *final(counter), minted),
{
    match counter.checked_add(1) {
        Some(next) => {
            let id = *counter;
            *counter = next;
            Ok(id)
        },
        None => Err(ConnectionIdExhausted),
    }
}

/// Minted connection identities never repeat: of two successive mints from
/// one counter that both succeed, the later identity is greater; once a
/// mint fails, every later one fails too.
pub proof fn lemma_connection_ids_increase(
    start: u64,
    middle: u64,
    end: u64,
    first: Result<u64, ConnectionIdExhausted>,
    second: Result<u64, ConnectionIdExhausted>,
)
    requires
        minted_from(start, middle, first),
        minted_from(middle, end, second),
    ensures
        first is Ok && second is Ok ==> first->Ok_0 < second->Ok_0,
        first is Err ==> second is Err,
{
}

} // verus!
