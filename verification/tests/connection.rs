use smithy_pool::admission::{CapacityLease, PartitionId};
use smithy_pool::connection::{CloseReason, ConnectionLifecycle};

#[test]
fn logical_close_releases_capacity_before_physical_completion() {
    let mut connection = ConnectionLifecycle::bounded(1, PartitionId::from_index(0), CapacityLease::grant(1));

    let (closed, released) = connection.logical_close(CloseReason::Reclaimed);
    assert!(closed);
    assert!(released.is_some());
    let (closed_again, released_again) = connection.logical_close(CloseReason::PoolDropped);
    assert!(!closed_again);
    assert!(released_again.is_none());
    assert!(!connection.snapshot().physical_complete);
    assert_eq!(Some(CloseReason::Reclaimed), connection.snapshot().close_reason);

    connection.finish_physical();
    assert!(connection.snapshot().physical_complete);
}

#[test]
fn upgrade_refines_only_a_driver_observed_protocol_close() {
    let mut connection = ConnectionLifecycle::bounded(1, PartitionId::from_index(0), CapacityLease::grant(1));

    let (closed, released) = connection.logical_close(CloseReason::ProtocolClosed);
    assert!(closed);
    assert!(released.is_some());
    assert!(connection.refine_protocol_close_as_upgrade());
    assert_eq!(Some(CloseReason::Upgraded), connection.snapshot().close_reason);
    assert!(!connection.refine_protocol_close_as_upgrade());

    let mut poisoned = ConnectionLifecycle::unbounded(2, PartitionId::from_index(0));
    assert!(poisoned.logical_close(CloseReason::Poisoned).0);
    assert!(!poisoned.refine_protocol_close_as_upgrade());
    assert_eq!(Some(CloseReason::Poisoned), poisoned.snapshot().close_reason);
}

#[test]
fn committed_dispatch_drains_after_logical_close() {
    let mut connection = ConnectionLifecycle::unbounded(1, PartitionId::from_index(0));
    assert!(connection.try_commit_dispatch());
    assert_eq!(1, connection.id());

    assert!(connection.logical_close(CloseReason::ProtocolClosed).0);
    assert!(!connection.try_commit_dispatch());
    assert_eq!(1, connection.snapshot().in_flight);

    connection.finish_dispatch();
    assert_eq!(0, connection.snapshot().in_flight);
}

#[test]
fn physical_guard_is_created_once_with_the_connection() {
    let mut connection = ConnectionLifecycle::unbounded(1, PartitionId::from_index(0));
    assert_eq!(1, connection.id());
    assert_eq!(PartitionId::from_index(0), connection.owner_partition());
    assert!(!connection.snapshot().physical_complete);
    connection.finish_physical();
    assert!(connection.snapshot().physical_complete);
}

#[test]
fn concurrent_logical_close_releases_one_capacity_lease() {
    let mut connection = ConnectionLifecycle::bounded(1, PartitionId::from_index(0), CapacityLease::grant(1));
    let first = connection.logical_close(CloseReason::Poisoned);
    let second = connection.logical_close(CloseReason::PoolDropped);
    assert_ne!(first.0, second.0);
    assert_eq!(1, [first.1, second.1].into_iter().flatten().count());
    assert_eq!(Some(CloseReason::Poisoned), connection.snapshot().close_reason);
}

#[test]
fn unbounded_connection_releases_no_capacity() {
    let mut connection = ConnectionLifecycle::new(3, PartitionId::from_index(4), None);
    let (closed, released) = connection.logical_close(CloseReason::IdleTimeout);
    assert!(closed);
    assert!(released.is_none());
    assert_eq!(PartitionId::from_index(4), connection.owner_partition());
}
