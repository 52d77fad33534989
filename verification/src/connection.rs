//! Protocol-independent connection lifetime.
//!
//! A connection's lifecycle serializes dispatch commitment with logical
//! close. Logical close happens once: the first reason is recorded, bounded
//! capacity is handed back, and no later dispatch may commit. Requests that
//! committed before it drain independently. Ownership of the root transport
//! ends once, separately from logical close.

use crate::admission::{CapacityLease, PartitionId};
use vstd::prelude::*;

verus! {

/// Why a connection stopped accepting new work.
#[derive(Clone, Copy, Debug, PartialEq, Eq, Structural)]
pub enum CloseReason {
    /// The connection exceeded its configured idle timeout.
    IdleTimeout,
    /// The connection was explicitly marked unsafe for reuse.
    Poisoned,
    /// The protocol driver or peer closed the connection.
    ProtocolClosed,
    /// HTTP/1 did not prove a complete reusable message boundary.
    IncompleteH1Exchange,
    /// The transport left HTTP/1 pool ownership through an upgrade.
    Upgraded,
    /// The connection closed to move bounded capacity to another cell.
    Reclaimed,
    /// The connection pool was dropped.
    PoolDropped,
    /// The runtime driving the connection shut down.
    OwnerRuntimeShutdown,
}

/// Protocol selected for one installed physical connection.
#[derive(Clone, Copy, Debug, PartialEq, Eq, Structural)]
pub enum ConnectionProtocol {
    /// HTTP/1.1 with one exclusive request sender.
    Http1,
    /// HTTP/2 with a multiplexed request sender.
    Http2,
}

/// Whether a connection may accept dispatch and still owns bounded capacity.
#[derive(Debug)]
pub enum LogicalState {
    /// Dispatch may commit.
    Open {
        /// Bounded-origin slot released by logical close, when configured.
        lease: Option<CapacityLease>,
    },
    /// New dispatch is rejected while accepted work may still drain.
    Closed {
        /// Reason recorded by the first logical-close transition.
        reason: CloseReason,
    },
}

/// Observable lifecycle state of one connection.
#[derive(Clone, Copy, Debug, PartialEq, Eq, Structural)]
pub struct ConnectionSnapshot {
    /// Reason logical close won, or `None` while dispatch is accepted.
    pub close_reason: Option<CloseReason>,
    /// Number of dispatches that have not completed.
    pub in_flight: usize,
    /// Whether root-I/O ownership has completed.
    pub physical_complete: bool,
}

/// Dispatch, logical-close and root-I/O state of one installed connection.
#[derive(Debug)]
pub struct ConnectionLifecycle {
    /// Stable identity assigned by the owning pool.
    id: u64,
    /// Partition that retains the transport and protocol driver.
    owner_partition: PartitionId,
    /// Dispatch eligibility and ownership of bounded capacity.
    logical: LogicalState,
    /// Requests that committed before logical close.
    in_flight: usize,
    /// Whether ownership of root transport I/O has ended.
    physical_complete: bool,
}

impl ConnectionLifecycle {
    /// The observable state.
    pub closed spec fn spec_snapshot(&self) -> ConnectionSnapshot {
        ConnectionSnapshot {
            close_reason: match self.logical {
                LogicalState::Open { .. } => None,
                LogicalState::Closed { reason } => Some(reason),
            },
            in_flight: self.in_flight,
            physical_complete: self.physical_complete,
        }
    }

    /// The capacity lease the connection still owns.
    pub closed spec fn spec_lease(&self) -> Option<CapacityLease> {
        match self.logical {
            LogicalState::Open { lease } => lease,
            LogicalState::Closed { .. } => None,
        }
    }

    /// The connection's identity.
    pub closed spec fn spec_id(&self) -> u64 {
        self.id
    }

    /// The partition that owns the connection's I/O.
    pub closed spec fn spec_owner_partition(&self) -> PartitionId {
        self.owner_partition
    }

    /// Creates the state of a freshly installed connection that owns `lease`,
    /// when its origin is bounded.
    pub fn new(id: u64, owner_partition: PartitionId, lease: Option<CapacityLease>) -> (connection: Self)
        ensures
            connection.spec_id() == id,
            connection.spec_owner_partition() == owner_partition,
            connection.spec_lease() == lease,
            connection.spec_snapshot() == (ConnectionSnapshot { close_reason: None, in_flight: 0, physical_complete: false }),
    {
        ConnectionLifecycle {
            id,
            owner_partition,
            logical: LogicalState::Open { lease },
            in_flight: 0,
            physical_complete: false,
        }
    }

    /// Creates a connection whose origin has no admission bound.
    pub fn unbounded(id: u64, owner_partition: PartitionId) -> (connection: Self)
        ensures
            connection.spec_id() == id,
            connection.spec_owner_partition() == owner_partition,
            connection.spec_lease() is None,
            connection.spec_snapshot() == (ConnectionSnapshot { close_reason: None, in_flight: 0, physical_complete: false }),
    {
        Self::new(id, owner_partition, None)
    }

    /// Creates a connection that owns one bounded-origin slot.
    pub fn bounded(id: u64, owner_partition: PartitionId, lease: CapacityLease) -> (connection: Self)
        ensures
            connection.spec_id() == id,
            connection.spec_owner_partition() == owner_partition,
            connection.spec_lease() == Some(lease),
            connection.spec_snapshot() == (ConnectionSnapshot { close_reason: None, in_flight: 0, physical_complete: false }),
    {
        Self::new(id, owner_partition, Some(lease))
    }

    /// Returns this connection's stable identity.
    pub fn id(&self) -> (id: u64)
        ensures
            id == self.spec_id(),
    {
        self.id
    }

    /// Returns the partition that owns this connection's I/O and driver.
    pub fn owner_partition(&self) -> (partition: PartitionId)
        ensures
            partition == self.spec_owner_partition(),
    {
        self.owner_partition
    }

    /// Attempts to commit one request against logical close.
    ///
    /// Counts the request while the connection is open; after logical close
    /// nothing changes.
    pub fn try_commit_dispatch(&mut self) -> (committed: bool)
        requires
            old(self).spec_snapshot().close_reason is None ==> old(self).spec_snapshot().in_flight < usize::MAX,
        ensures
            committed == (old(self).spec_snapshot().close_reason is None),
            final(self).spec_id() == old(self).spec_id(),
            final(self).spec_owner_partition() == old(self).spec_owner_partition(),
            final(self).spec_lease() == old(self).spec_lease(),
            final(self).spec_snapshot() == (if committed {
                ConnectionSnapshot { in_flight: (old(self).spec_snapshot().in_flight + 1) as usize, ..old(self).spec_snapshot() }
            } else {
                old(self).spec_snapshot()
            }),
    {
        match self.logical {
            LogicalState::Open { .. } => {},
            LogicalState::Closed { .. } => {
                return false;
            },
        }
        self.in_flight = self.in_flight + 1;
        true
    }

    /// Performs the first logical-close transition.
    ///
    /// Returns whether this call closed the connection and recorded `reason`,
    /// with the capacity lease it detached; a later close changes nothing
    /// and keeps the first reason.
    pub fn logical_close(&mut self, reason: CloseReason) -> (closed: (bool, Option<CapacityLease>))
        ensures
            logically_closed(*old(self), *final(self), reason, closed),
    {
        let mut previous = LogicalState::Closed { reason };
        std::mem::swap(&mut previous, &mut self.logical);
        match previous {
            LogicalState::Open { lease } => (true, lease),
            LogicalState::Closed { reason: first } => {
                self.logical = LogicalState::Closed { reason: first };
                (false, None)
            },
        }
    }

    /// Refines a driver-observed protocol close to an upgrade once the
    /// upgrade is confirmed; returns whether the refinement applied.
    ///
    /// It does not close the connection again or release capacity.
    pub fn refine_protocol_close_as_upgrade(&mut self) -> (refined: bool)
        ensures
            refined == (old(self).spec_snapshot().close_reason == Some(CloseReason::ProtocolClosed)),
            final(self).spec_lease() == old(self).spec_lease(),
            final(self).spec_id() == old(self).spec_id(),
            final(self).spec_owner_partition() == old(self).spec_owner_partition(),
            final(self).spec_snapshot() == (if refined {
                ConnectionSnapshot { close_reason: Some(CloseReason::Upgraded), ..old(self).spec_snapshot() }
            } else {
                old(self).spec_snapshot()
            }),
    {
        let protocol_closed = match self.logical {
            LogicalState::Closed { reason } => reason == CloseReason::ProtocolClosed,
            LogicalState::Open { .. } => false,
        };
        if protocol_closed {
            self.logical = LogicalState::Closed { reason: CloseReason::Upgraded };
        }
        protocol_closed
    }

    /// Records completion of one dispatch that committed earlier.
    pub fn finish_dispatch(&mut self)
        requires
            old(self).spec_snapshot().in_flight > 0,
        ensures
            final(self).spec_lease() == old(self).spec_lease(),
            final(self).spec_id() == old(self).spec_id(),
            final(self).spec_owner_partition() == old(self).spec_owner_partition(),
            final(self).spec_snapshot() == (ConnectionSnapshot {
                in_flight: (old(self).spec_snapshot().in_flight - 1) as usize,
                ..old(self).spec_snapshot()
            }),
    {
        self.in_flight = self.in_flight - 1;
    }

    /// Records that the connection's root I/O is no longer owned by the pool.
    pub fn finish_physical(&mut self)
        requires
            !old(self).spec_snapshot().physical_complete,
        ensures
            final(self).spec_lease() == old(self).spec_lease(),
            final(self).spec_id() == old(self).spec_id(),
            final(self).spec_owner_partition() == old(self).spec_owner_partition(),
            final(self).spec_snapshot() == (ConnectionSnapshot { physical_complete: true, ..old(self).spec_snapshot() }),
    {
        self.physical_complete = true;
    }

    /// Returns a consistent lifecycle snapshot.
    pub fn snapshot(&self) -> (snapshot: ConnectionSnapshot)
        ensures
            snapshot == self.spec_snapshot(),
    {
        ConnectionSnapshot {
            close_reason: match self.logical {
                LogicalState::Open { .. } => None,
                LogicalState::Closed { reason } => Some(reason),
            },
            in_flight: self.in_flight,
            physical_complete: self.physical_complete,
        }
    }
}

/// Whether `new` is `old` after one logical-close attempt with `reason` that
/// returned `closed`: the first attempt closes, records its reason and
/// detaches the capacity lease; a later one changes nothing.
pub open spec fn logically_closed(
    old: ConnectionLifecycle,
    new: ConnectionLifecycle,
    reason: CloseReason,
    closed: (bool, Option<CapacityLease>),
) -> bool {
    &&& closed.0 == (old.spec_snapshot().close_reason is None)
    &&& closed.1 == old.spec_lease()
    &&& new.spec_lease() is None
    &&& new.spec_id() == old.spec_id()
    &&& new.spec_owner_partition() == old.spec_owner_partition()
    &&& new.spec_snapshot() == (if closed.0 {
        ConnectionSnapshot { close_reason: Some(reason), ..old.spec_snapshot() }
    } else {
        old.spec_snapshot()
    })
}

/// Logical close happens once and hands capacity back once: of two
/// successive closes of an open connection, the first closes with its reason
/// and detaches the connection's lease; the second reports no close, returns
/// no lease and keeps the first reason.
pub proof fn lemma_logical_close_happens_once(
    open: ConnectionLifecycle,
    once: ConnectionLifecycle,
    twice: ConnectionLifecycle,
    first: CloseReason,
    second: CloseReason,
    first_closed: (bool, Option<CapacityLease>),
    second_closed: (bool, Option<CapacityLease>),
)
    requires
        open.spec_snapshot().close_reason is None,
        logically_closed(open, once, first, first_closed),
        logically_closed(once, twice, second, second_closed),
    ensures
        first_closed.0,
        first_closed.1 == open.spec_lease(),
        !second_closed.0,
        second_closed.1 is None,
        twice.spec_snapshot().close_reason == Some(first),
        twice.spec_lease() is None,
{
}

} // verus!
