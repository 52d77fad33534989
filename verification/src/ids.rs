//! Plain identities shared by the pool's state machines.

use vstd::prelude::*;

verus! {

/// Identity of one cross-cell HTTP/1 claim installed by origin admission.
#[derive(Clone, Copy, Debug, PartialEq, Eq, Structural)]
pub struct ClaimId(pub u64);

impl ClaimId {
    /// Creates a claim identity from its admission-assigned value.
    pub fn new(value: u64) -> (id: Self)
        ensures
            id.0 == value,
    {
        ClaimId(value)
    }
}

/// Identity of one cross-cell HTTP/1 match retained by origin admission.
#[derive(Clone, Copy, Debug, PartialEq, Eq, Structural)]
pub struct H1MatchId(pub u64);

impl H1MatchId {
    /// Creates a match identity from its admission-assigned value.
    pub fn new(value: u64) -> (id: Self)
        ensures
            id.0 == value,
    {
        H1MatchId(value)
    }
}

/// Identity of one post-ALPN HTTP/2 establishment flight.
#[derive(Clone, Copy, Debug, PartialEq, Eq, Structural)]
pub struct H2FlightId(pub u64);

/// Identity of one installed HTTP/2 generation within a cell.
#[derive(Clone, Copy, Debug, PartialEq, Eq, Structural)]
pub struct H2GenerationId(pub u64);

impl H2GenerationId {
    /// Creates a generation identity from its cell-local value.
    pub fn new(value: u64) -> (id: Self)
        ensures
            id.0 == value,
    {
        H2GenerationId(value)
    }
}

} // verus!
