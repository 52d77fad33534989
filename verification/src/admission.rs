//! Demand, capacity and protocol vocabulary shared between origin cells and
//! origin-wide admission.

use crate::ids::H2GenerationId;
use vstd::prelude::*;

verus! {

/// Identity of one connection-pool partition.
#[derive(Clone, Copy, Debug, PartialEq, Eq, Structural)]
pub struct PartitionId(pub u64);

/// Index of the partition a pool retains when it declares none.
pub const ANONYMOUS_PARTITION_INDEX: u64 = 18446744073709551615;

impl PartitionId {
    /// Identity of the partition a pool retains when it declares none.
    pub fn anonymous() -> (id: Self)
        ensures
            id.0 == ANONYMOUS_PARTITION_INDEX,
    {
        PartitionId(ANONYMOUS_PARTITION_INDEX)
    }

    /// Creates a partition identity from its index.
    pub fn from_index(index: u64) -> (id: Self)
        ensures
            id.0 == index,
    {
        PartitionId(index)
    }
}

/// Partitions whose connections may satisfy a cell's demand.
#[derive(Clone, Copy, Debug, PartialEq, Eq, Structural)]
pub enum EligibilityGroup {
    /// Any partition of the pool may serve the demand.
    Pool,
    /// Only the named partition may serve the demand.
    Partition(PartitionId),
}

/// Protocol capability a request needs from its connection.
#[derive(Clone, Copy, Debug, PartialEq, Eq, Structural)]
pub enum ProtocolRequirement {
    /// The request needs HTTP/1 wire semantics.
    H1Required,
    /// The request may use HTTP/1 or HTTP/2.
    H1Compatible,
    /// The request may only use HTTP/2.
    H2Required,
}

/// Whether a requirement can be served by an HTTP/2 stream.
pub open spec fn requirement_accepts_h2(requirement: ProtocolRequirement) -> bool {
    requirement != ProtocolRequirement::H1Required
}

impl ProtocolRequirement {
    /// Returns whether an HTTP/2 stream satisfies this requirement.
    pub fn accepts_h2(&self) -> (accepts: bool)
        ensures
            accepts == requirement_accepts_h2(*self),
    {
        match self {
            ProtocolRequirement::H1Required => false,
            _ => true,
        }
    }
}

/// Identity of one head-waiter demand generation.
#[derive(Clone, Copy, Debug, PartialEq, Eq, Structural)]
pub struct DemandId(pub u64);

impl DemandId {
    /// Creates a demand identity from its cell-local value.
    pub fn from_u64(value: u64) -> (id: Self)
        ensures
            id.0 == value,
    {
        DemandId(value)
    }
}

/// Ordering of complete publications for one demand identity.
#[derive(Clone, Copy, Debug, PartialEq, Eq, Structural)]
pub struct SnapshotVersion(pub u64);

impl SnapshotVersion {
    /// Returns the version of a demand's first publication.
    pub fn initial() -> (version: Self)
        ensures
            version.0 == 0,
    {
        SnapshotVersion(0)
    }

    /// Returns the version that supersedes this one.
    pub fn next(&self) -> (next: Self)
        requires
            self.0 < u64::MAX,
        ensures
            next.0 == self.0 + 1,
    {
        SnapshotVersion(self.0 + 1)
    }
}

/// One complete publication of a cell's aggregate demand.
#[derive(Clone, Copy, Debug, PartialEq, Eq, Structural)]
pub enum DemandSnapshot {
    /// The demand generation is live and describes its head waiter.
    Active {
        id: DemandId,
        version: SnapshotVersion,
        requirement: ProtocolRequirement,
        eligibility_group: EligibilityGroup,
    },
    /// The demand generation retired at this version.
    Inactive { id: DemandId, version: SnapshotVersion },
}

impl DemandSnapshot {
    /// Creates a live publication.
    pub fn active(
        id: DemandId,
        version: SnapshotVersion,
        requirement: ProtocolRequirement,
        eligibility_group: EligibilityGroup,
    ) -> (snapshot: Self)
        ensures
            snapshot == (DemandSnapshot::Active { id, version, requirement, eligibility_group }),
    {
        DemandSnapshot::Active { id, version, requirement, eligibility_group }
    }

    /// Creates a retirement publication.
    pub fn inactive(id: DemandId, version: SnapshotVersion) -> (snapshot: Self)
        ensures
            snapshot == (DemandSnapshot::Inactive { id, version }),
    {
        DemandSnapshot::Inactive { id, version }
    }

    /// Returns the demand generation this publication describes.
    pub fn id(&self) -> (id: DemandId)
        ensures
            id == snapshot_id(*self),
    {
        match self {
            DemandSnapshot::Active { id, .. } => *id,
            DemandSnapshot::Inactive { id, .. } => *id,
        }
    }

    /// Returns whether this publication keeps its demand live.
    pub fn is_active(&self) -> (active: bool)
        ensures
            active == (*self is Active),
    {
        matches!(self, DemandSnapshot::Active { .. })
    }

    /// Returns whether a live publication may be served by HTTP/2.
    pub fn accepts_h2(&self) -> (accepts: bool)
        ensures
            accepts == snapshot_accepts_h2(*self),
    {
        match self {
            DemandSnapshot::Active { requirement, .. } => requirement.accepts_h2(),
            DemandSnapshot::Inactive { .. } => false,
        }
    }
}

/// Demand identity of a publication.
pub open spec fn snapshot_id(snapshot: DemandSnapshot) -> DemandId {
    match snapshot {
        DemandSnapshot::Active { id, .. } => id,
        DemandSnapshot::Inactive { id, .. } => id,
    }
}

/// Whether a publication is live and may be served by HTTP/2.
pub open spec fn snapshot_accepts_h2(snapshot: DemandSnapshot) -> bool {
    match snapshot {
        DemandSnapshot::Active { requirement, .. } => requirement_accepts_h2(requirement),
        DemandSnapshot::Inactive { .. } => false,
    }
}

/// One unit of bounded-origin connection capacity.
///
/// A lease is created only by origin admission and is handed back to it when
/// the connection or establishment attempt that held it ends.
#[derive(Debug)]
pub struct CapacityLease {
    pub origin_limit: usize,
}

impl CapacityLease {
    /// Grants one unit of capacity of an origin bounded to `origin_limit`
    /// connections.
    pub fn grant(origin_limit: usize) -> (lease: Self)
        ensures
            lease.origin_limit == origin_limit,
    {
        CapacityLease { origin_limit }
    }

    /// Returns the connection limit of the origin this lease belongs to.
    pub fn origin_limit(&self) -> (limit: usize)
        ensures
            limit == self.origin_limit,
    {
        self.origin_limit
    }
}

/// HTTP/1 availability a cell reports to origin admission.
#[derive(Clone, Copy, Debug, PartialEq, Eq, Structural)]
pub struct H1SupplyStatus {
    /// Some installed connection could serve a peer now or when it returns.
    pub has_returnable_connection: bool,
    /// Local fairness or an active reservation currently excludes peer use.
    pub peer_use_blocked: bool,
}

/// HTTP/2 availability a cell reports to origin admission.
#[derive(Clone, Copy, Debug, PartialEq, Eq, Structural)]
pub enum H2SupplyStatus {
    /// No generation may be routed to.
    Unavailable,
    /// The exact generation peers may route to, and whether it holds no work.
    Accepting { generation: H2GenerationId, idle: bool },
}

/// One status report and its monotonic revision.
#[derive(Clone, Copy, Debug, PartialEq, Eq, Structural)]
pub struct SupplyRevision<T> {
    /// Strictly increasing revision of the reporting cell.
    pub revision: u64,
    /// Complete status at this revision.
    pub status: T,
}

impl<T> SupplyRevision<T> {
    /// Creates one report.
    pub fn new(revision: u64, status: T) -> (report: Self)
        ensures
            report == (SupplyRevision { revision, status }),
    {
        SupplyRevision { revision, status }
    }
}

/// A cell's answer to a peer HTTP/1 reservation request.
#[derive(Debug)]
pub enum H1ReservationDecision<O> {
    /// The cell refused; its current availability is attached.
    Rejected(SupplyRevision<H1SupplyStatus>),
    /// An idle sender was extracted for the peer.
    Candidate(O),
    /// The next reusable return is reserved for the peer.
    Installed,
}

} // verus!
