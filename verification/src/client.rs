//! Partition-bound client handles.
//!
//! A client resolves its partition once, when it is built: from a pool's
//! registry of partitions, by identity. A pool built without declared
//! partitions retains only the anonymous partition.

use crate::admission::{PartitionId, ANONYMOUS_PARTITION_INDEX};
use vstd::prelude::*;

verus! {

/// Placement of one pool partition.
#[derive(Clone, Debug)]
pub struct PartitionState {
    /// Identity of the partition.
    pub id: PartitionId,
    /// Network-interface binding applied to the partition's connections.
    pub interface: Option<String>,
}

impl PartitionState {
    /// Creates the placement of one partition.
    pub fn new(id: PartitionId, interface: Option<String>) -> (partition: Self)
        ensures
            partition.id == id,
            partition.interface == interface,
    {
        PartitionState { id, interface }
    }

    /// Returns an equal copy of this placement.
    pub fn duplicate(&self) -> (copy: Self)
        ensures
            copy == *self,
    {
        let interface = match &self.interface {
            Some(name) => Some(name.clone()),
            None => None,
        };
        PartitionState { id: self.id, interface }
    }

    /// Returns the partition's identity.
    pub fn id(&self) -> (id: PartitionId)
        ensures
            id == self.id,
    {
        self.id
    }

    /// Returns the partition's interface binding.
    pub fn interface(&self) -> (interface: &Option<String>)
        ensures
            *interface == self.interface,
    {
        &self.interface
    }
}

/// The partitions one pool retains.
pub struct PartitionRegistry {
    partitions: Vec<PartitionState>,
}

impl PartitionRegistry {
    /// The identities of the retained partitions, in declaration order.
    pub closed spec fn ids(&self) -> Seq<PartitionId> {
        self.partitions@.map_values(|p: PartitionState| p.id)
    }

    /// The retained partition at `i`.
    pub closed spec fn at(&self, i: int) -> PartitionState {
        self.partitions@[i]
    }

    /// Creates the registry of a pool: the declared partitions, or the
    /// anonymous partition alone when none are declared.
    pub fn new(declared: Option<Vec<PartitionState>>) -> (registry: Self)
        ensures
            match declared {
                Some(partitions) => registry.ids() == partitions@.map_values(|p: PartitionState| p.id)
                    && forall|i: int| 0 <= i < partitions@.len() ==> registry.at(i) == partitions@[i],
                None => registry.ids() == seq![PartitionId(ANONYMOUS_PARTITION_INDEX)]
                    && registry.at(0).interface is None,
            },
    {
        match declared {
            Some(partitions) => PartitionRegistry { partitions },
            None => {
                let mut partitions = Vec::new();
                partitions.push(PartitionState { id: PartitionId::anonymous(), interface: None });
                let registry = PartitionRegistry { partitions };
                assert(registry.ids() =~= seq![PartitionId(ANONYMOUS_PARTITION_INDEX)]);
                registry
            },
        }
    }

    /// Returns the first retained partition with identity `id`.
    pub fn partition(&self, id: PartitionId) -> (partition: Option<&PartitionState>)
        ensures
            match partition {
                Some(p) => exists|i: int| 0 <= i < self.ids().len() && self.at(i) == *p && p.id == id
                    && forall|j: int| 0 <= j < i ==> self.ids()[j] != id,
                None => !self.ids().contains(id),
            },
    {
        let mut i: usize = 0;
        while i < self.partitions.len()
            invariant
                i <= self.partitions@.len(),
                forall|j: int| 0 <= j < i ==> self.ids()[j] != id,
            decreases self.partitions@.len() - i,
        {
            if self.partitions[i].id == id {
                assert(self.at(i as int) == self.partitions@[i as int]);
                return Some(&self.partitions[i]);
            }
            i = i + 1;
        }
        proof {
            if self.ids().contains(id) {
                let j = choose|j: int| 0 <= j < self.ids().len() && self.ids()[j] == id;
                assert(self.ids()[j] != id);
            }
        }
        None
    }
}

/// Why a client could not be built.
#[derive(Clone, Copy, Debug, PartialEq, Eq, Structural)]
pub enum ClientBuildErrorKind {
    /// The pool retained no partition with this identity.
    InvalidPartition(PartitionId),
}

/// Error returned when a [`Client`] cannot be resolved from a pool.
#[derive(Clone, Copy, Debug, PartialEq, Eq, Structural)]
pub struct ClientBuildError {
    kind: ClientBuildErrorKind,
}

impl ClientBuildError {
    /// The partition that could not be resolved.
    pub closed spec fn spec_partition(&self) -> PartitionId {
        match self.kind {
            ClientBuildErrorKind::InvalidPartition(partition) => partition,
        }
    }

    /// Creates an unresolved-partition error.
    pub fn invalid_partition(partition: PartitionId) -> (error: Self)
        ensures
            error.spec_partition() == partition,
    {
        ClientBuildError { kind: ClientBuildErrorKind::InvalidPartition(partition) }
    }

    /// Returns the unresolved partition identity, when applicable.
    pub fn partition(&self) -> (partition: Option<PartitionId>)
        ensures
            partition == Some(self.spec_partition()),
    {
        match self.kind {
            ClientBuildErrorKind::InvalidPartition(partition) => Some(partition),
        }
    }
}

/// Client bound to one partition of a connection pool.
///
/// Every request uses that partition for establishment placement and local
/// reuse. Cloning a client shares the pool handle.
#[derive(Clone, Debug)]
pub struct Client<P> {
    /// Shared connection pool.
    pool: P,
    /// Placement resolved when the client was built.
    partition: PartitionState,
}

impl<P: Clone> Client<P> {
    /// The partition the client is bound to.
    pub closed spec fn spec_partition(&self) -> PartitionState {
        self.partition
    }

    /// The pool handle the client shares.
    pub closed spec fn spec_pool(&self) -> P {
        self.pool
    }

    /// Creates a client for a pool built without declared partitions.
    ///
    /// Fails when the pool retains only declared partitions.
    pub fn new(pool: &P, registry: &PartitionRegistry) -> (client: Result<Self, ClientBuildError>)
        ensures
            registry.ids().contains(PartitionId(ANONYMOUS_PARTITION_INDEX)) == client is Ok,
            client matches Ok(c) ==> c.spec_partition().id == PartitionId(ANONYMOUS_PARTITION_INDEX)
                && cloned(*pool, c.spec_pool()),
            client matches Err(e) ==> e.spec_partition() == PartitionId(ANONYMOUS_PARTITION_INDEX),
    {
        Self::from_partition(pool, registry, PartitionId::anonymous())
    }

    /// Creates a client bound to partition `id`.
    ///
    /// Fails when the pool does not retain `id`.
    pub fn from_partition(pool: &P, registry: &PartitionRegistry, id: PartitionId) -> (client: Result<
        Self,
        ClientBuildError,
    >)
        ensures
            registry.ids().contains(id) == client is Ok,
            client matches Ok(c) ==> c.spec_partition().id == id && cloned(*pool, c.spec_pool()),
            client matches Err(e) ==> e.spec_partition() == id,
    {
        match registry.partition(id) {
            Some(partition) => {
                proof {
                    let i = choose|i: int| 0 <= i < registry.ids().len() && registry.at(i) == *partition
                        && partition.id == id && forall|j: int| 0 <= j < i ==> registry.ids()[j] != id;
                    assert(registry.ids()[i] == id);
                }
                Ok(Client { pool: pool.clone(), partition: partition.duplicate() })
            },
            None => Err(ClientBuildError::invalid_partition(id)),
        }
    }

    /// Returns the identity of the partition the client is bound to.
    pub fn partition_id(&self) -> (id: PartitionId)
        ensures
            id == self.spec_partition().id,
    {
        self.partition.id
    }

    /// Returns the pool handle the client shares.
    pub fn pool(&self) -> (pool: &P)
        ensures
            *pool == self.spec_pool(),
    {
        &self.pool
    }
}

/// Operation timeouts were configured without a runtime timer.
#[derive(Clone, Copy, Debug, PartialEq, Eq, Structural)]
pub struct MissingAsyncSleep;

impl MissingAsyncSleep {
    /// The message the rejected request reports.
    pub fn message(&self) -> (message: &'static str)
        ensures
            message@ == "an async sleep implementation is required for HTTP connect or read timeouts"@,
    {
        "an async sleep implementation is required for HTTP connect or read timeouts"
    }
}

/// Rejects an operation that configures a connect or read timeout while no
/// timer is available to enforce it; such a request never starts.
pub fn check_timeout_timer(connect_timeout: bool, read_timeout: bool, has_sleep: bool) -> (checked: Result<
    (),
    MissingAsyncSleep,
>)
    ensures
        checked is Err <==> ((connect_timeout || read_timeout) && !has_sleep),
{
    if (connect_timeout || read_timeout) && !has_sleep {
        Err(MissingAsyncSleep)
    } else {
        Ok(())
    }
}

} // verus!
