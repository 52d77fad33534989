use smithy_pool::admission::{DemandId, DemandSnapshot, EligibilityGroup, ProtocolRequirement, SnapshotVersion};
use smithy_pool::waiters::{AcquisitionQueue, DeliveryReservation};

#[test]
fn head_cancellation_uses_the_successors_protocol_requirement() {
    let mut queue = AcquisitionQueue::<u32, ()>::new();
    let (head, initial) =
        queue.register_waiter(ProtocolRequirement::H2Required, &EligibilityGroup::Pool, true);
    let (_successor, no_new_demand) =
        queue.register_waiter(ProtocolRequirement::H1Compatible, &EligibilityGroup::Pool, true);
    assert!(initial.is_some());
    assert!(no_new_demand.is_none());

    let cancelled = queue
        .cancel_waiter(head, &EligibilityGroup::Pool)
        .expect("head waiter was not cancelled");
    assert_eq!(
        Some(DemandSnapshot::active(
            DemandId::from_u64(1),
            SnapshotVersion::initial(),
            ProtocolRequirement::H1Compatible,
            EligibilityGroup::Pool,
        )),
        cancelled.demand_updates[1]
    );
}

#[test]
fn retired_demand_cannot_reserve_the_successor() {
    let mut queue = AcquisitionQueue::<u32, ()>::new();
    let (head, _initial) =
        queue.register_waiter(ProtocolRequirement::H1Compatible, &EligibilityGroup::Pool, true);
    queue.register_waiter(ProtocolRequirement::H1Compatible, &EligibilityGroup::Pool, true);
    queue
        .cancel_waiter(head, &EligibilityGroup::Pool)
        .expect("head waiter was not cancelled");

    assert!(matches!(
        queue.reserve_delivery_waiter(DemandId::from_u64(0), &EligibilityGroup::Pool),
        DeliveryReservation::Rejected
    ));
}

#[test]
fn head_cancellation_retires_its_demand_first() {
    let mut queue = AcquisitionQueue::<u32, ()>::new();
    let (head, initial) =
        queue.register_waiter(ProtocolRequirement::H1Compatible, &EligibilityGroup::Pool, true);
    assert_eq!(
        Some(DemandSnapshot::active(
            DemandId::from_u64(0),
            SnapshotVersion::initial(),
            ProtocolRequirement::H1Compatible,
            EligibilityGroup::Pool,
        )),
        initial
    );
    let cancelled = queue.cancel_waiter(head, &EligibilityGroup::Pool).expect("head was not cancelled");
    assert!(matches!(cancelled.demand_updates[0], Some(DemandSnapshot::Inactive { .. })));
    assert_eq!(None, cancelled.demand_updates[1]);
    assert_eq!(0, queue.snapshot().retained);
    assert_eq!(None, queue.snapshot().demand);
}

#[test]
fn unknown_waiter_is_not_cancelled() {
    let mut queue = AcquisitionQueue::<u32, ()>::new();
    assert!(queue.cancel_waiter(smithy_pool::waiters::WaiterId(42), &EligibilityGroup::Pool).is_none());
}

#[test]
fn current_demand_is_reserved_once() {
    let mut queue = AcquisitionQueue::<u32, ()>::new();
    let (head, _) =
        queue.register_waiter(ProtocolRequirement::H1Compatible, &EligibilityGroup::Pool, true);
    match queue.reserve_delivery_waiter(DemandId::from_u64(0), &EligibilityGroup::Pool) {
        DeliveryReservation::Reserved { waiter, successor } => {
            assert_eq!(head, waiter);
            assert_eq!(None, successor);
        },
        DeliveryReservation::Rejected => panic!("live demand was rejected"),
    }
    assert!(matches!(
        queue.reserve_delivery_waiter(DemandId::from_u64(0), &EligibilityGroup::Pool),
        DeliveryReservation::Rejected
    ));
}

#[test]
fn unbounded_waiter_publishes_no_demand() {
    let mut queue = AcquisitionQueue::<u32, ()>::new();
    let (_waiter, demand) =
        queue.register_waiter(ProtocolRequirement::H1Compatible, &EligibilityGroup::Pool, false);
    assert_eq!(None, demand);
    assert_eq!(0, queue.snapshot().waiting);
    assert_eq!(1, queue.snapshot().retained);
}

use smithy_pool::admission::CapacityLease;
use smithy_pool::waiters::{AcquisitionEvent, EstablishmentPermit};

#[test]
fn reserved_delivery_is_accepted_by_its_waiter() {
    let mut queue = AcquisitionQueue::<u32, ()>::new();
    let (head, _) = queue.register_waiter(ProtocolRequirement::H1Compatible, &EligibilityGroup::Pool, true);
    assert!(matches!(
        queue.reserve_delivery_waiter(DemandId::from_u64(0), &EligibilityGroup::Pool),
        DeliveryReservation::Reserved { waiter, .. } if waiter == head
    ));
    let install = queue.install_capacity(head, EstablishmentPermit::bounded(CapacityLease::grant(3)));
    assert!(install.accepted);
    assert!(install.error.is_none());
    match queue.poll_waiter(head, ()) {
        Some(AcquisitionEvent::Establish(permit)) => assert_eq!(Some(3), permit.into_lease().map(|l| l.origin_limit())),
        _ => panic!("the reserved waiter did not hold its capacity"),
    }
}

#[test]
fn cancelled_delivery_returns_its_capacity() {
    let mut queue = AcquisitionQueue::<u32, ()>::new();
    let (head, _) = queue.register_waiter(ProtocolRequirement::H1Compatible, &EligibilityGroup::Pool, true);
    assert!(matches!(
        queue.reserve_delivery_waiter(DemandId::from_u64(0), &EligibilityGroup::Pool),
        DeliveryReservation::Reserved { .. }
    ));
    assert!(queue.cancel_waiter(head, &EligibilityGroup::Pool).is_some());

    let install = queue.install_capacity(head, EstablishmentPermit::bounded(CapacityLease::grant(5)));
    assert!(!install.accepted);
    assert!(install.error.is_none());
    let returned: Vec<usize> = install
        .returned_events
        .into_iter()
        .flatten()
        .filter_map(|event| match event {
            AcquisitionEvent::Establish(permit) => permit.into_lease().map(|l| l.origin_limit()),
            AcquisitionEvent::Complete(_) => None,
        })
        .collect();
    assert_eq!(vec![5], returned);
    assert_eq!(0, queue.snapshot().retained);
}

#[test]
fn capacity_for_an_unknown_waiter_comes_back_as_an_error() {
    let mut queue = AcquisitionQueue::<u32, ()>::new();
    let install = queue.install_capacity(smithy_pool::waiters::WaiterId(9), EstablishmentPermit::unbounded());
    assert!(!install.accepted);
    assert_eq!(Some(smithy_pool::waiters::ResultInstallError::MissingWaiter), install.error);
    assert_eq!(1, install.returned_events.into_iter().flatten().count());
}
