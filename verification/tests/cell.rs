use smithy_pool::admission::{CapacityLease, DemandSnapshot, EligibilityGroup, PartitionId, ProtocolRequirement};
use smithy_pool::cell::{CellEffects, H1ReturnOutcome, OriginCell, ReturnedEventSettlement};
use smithy_pool::origin::{OriginKey, OriginScheme};
use smithy_pool::waiters::{AcquisitionEvent, DeliveryReservation, EstablishmentPermit, WaiterId};
use std::sync::atomic::{AtomicUsize, Ordering};
use std::sync::Arc;
use std::task::{Wake, Waker};

type Cell = OriginCell<u32, u32, String, Waker>;

struct WakeCounter(AtomicUsize);

impl Wake for WakeCounter {
    fn wake(self: Arc<Self>) {
        self.0.fetch_add(1, Ordering::Relaxed);
    }

    fn wake_by_ref(self: &Arc<Self>) {
        self.0.fetch_add(1, Ordering::Relaxed);
    }
}

fn noop_waker() -> Waker {
    Waker::from(Arc::new(WakeCounter(AtomicUsize::new(0))))
}

/// Origin admission for one bounded cell: ordered live demand and a
/// connection limit. Capacity is granted to the oldest live demand.
struct Admission {
    limit: usize,
    outstanding: usize,
    demands: Vec<DemandSnapshot>,
}

/// Capacity reserved for a demand whose delivery has not run yet.
struct PendingDelivery {
    demand: DemandSnapshot,
    lease: CapacityLease,
}

impl Admission {
    fn new(limit: usize) -> Self {
        Admission { limit, outstanding: 0, demands: Vec::new() }
    }

    fn ordered_demand_count_for_test(&self) -> usize {
        self.demands.len()
    }

    fn lease_for_test(&mut self) -> CapacityLease {
        self.outstanding += 1;
        CapacityLease::grant(self.limit)
    }

    fn record(&mut self, update: DemandSnapshot) {
        let id = update.id();
        self.demands.retain(|d| d.id() != id);
        if update.is_active() {
            self.demands.push(update);
        }
    }

    fn publish(&mut self, cell: &mut Cell, update: Option<DemandSnapshot>) {
        if let Some(update) = update {
            self.record(update);
        }
        self.run(cell);
    }

    fn submit_without_running(&mut self, demand: Option<DemandSnapshot>) -> Option<PendingDelivery> {
        let demand = demand?;
        if self.outstanding == self.limit {
            return None;
        }
        Some(PendingDelivery { demand, lease: self.lease_for_test() })
    }

    fn run(&mut self, cell: &mut Cell) {
        while self.outstanding < self.limit && !self.demands.is_empty() {
            let demand = self.demands.remove(0);
            let lease = self.lease_for_test();
            self.deliver(cell, PendingDelivery { demand, lease });
        }
    }

    fn deliver(&mut self, cell: &mut Cell, pending: PendingDelivery) {
        match cell.reserve_delivery(pending.demand.id()) {
            DeliveryReservation::Reserved { waiter, successor } => {
                let permit = EstablishmentPermit::bounded(pending.lease);
                let (install, h2_visible) = cell.commit_delivery(waiter, AcquisitionEvent::Establish(permit));
                if !h2_visible {
                    if let Some(successor) = successor {
                        self.record(successor);
                    }
                }
                for event in install.returned_events.into_iter().flatten() {
                    self.return_event(cell, event);
                }
                if let Some(waker) = install.waker {
                    waker.wake();
                }
            },
            DeliveryReservation::Rejected => {
                drop(pending.lease);
                self.outstanding -= 1;
            },
        }
    }

    fn run_pending(&mut self, cell: &mut Cell, pending: PendingDelivery) {
        self.deliver(cell, pending);
        self.run(cell);
    }

    /// Settles one event that lost its waiter, as dropping it after unlock
    /// does: capacity returns to admission, a sender to its cell.
    fn return_event(&mut self, cell: &mut Cell, event: AcquisitionEvent<smithy_pool::cell::AcquisitionOutcome<u32, u32, String>>) {
        match cell.settle_returned_event(event, None) {
            ReturnedEventSettlement::Capacity(Some(lease)) => {
                drop(lease);
                self.outstanding -= 1;
            },
            ReturnedEventSettlement::H1(H1ReturnOutcome::Installed(more)) => self.apply(cell, more),
            _ => {},
        }
    }

    fn release(&mut self, cell: &mut Cell, lease: CapacityLease) {
        drop(lease);
        self.outstanding -= 1;
        self.run(cell);
    }

    fn apply(&mut self, cell: &mut Cell, effects: CellEffects<u32, u32, String, Waker>) {
        for update in effects.demand_updates {
            self.record(update);
        }
        if let Some(waker) = effects.waker {
            waker.wake();
        }
        for event in effects.returned {
            self.return_event(cell, event);
        }
        self.run(cell);
    }

    fn register_waiter(&mut self, cell: &mut Cell, requirement: ProtocolRequirement) -> WaiterId {
        let (waiter, demand) = cell.register_waiter(requirement);
        self.publish(cell, demand);
        waiter
    }

    fn cancel_waiter(&mut self, cell: &mut Cell, waiter: WaiterId) -> bool {
        match cell.cancel_waiter(waiter) {
            Some(effects) => {
                self.apply(cell, effects);
                cell.settle_cancellation();
                true
            },
            None => false,
        }
    }

    fn take_ready_lease(&mut self, cell: &mut Cell, waiter: WaiterId) -> Option<CapacityLease> {
        let (lease, retired) = cell.take_ready_lease(waiter, noop_waker());
        if let Some(effects) = retired {
            self.apply(cell, effects);
        }
        lease
    }
}

fn origin() -> OriginKey {
    OriginKey::from_parts(OriginScheme::Https, "example.com".to_string(), None)
}

fn bounded_cell() -> (Admission, Cell) {
    let cell = OriginCell::new(PartitionId::from_index(1), origin(), EligibilityGroup::Pool, true);
    (Admission::new(1), cell)
}

fn saturated_bounded_cell() -> (Admission, Cell, CapacityLease) {
    let (mut admission, cell) = bounded_cell();
    let lease = admission.lease_for_test();
    (admission, cell, lease)
}

#[test]
fn three_waiters_receive_capacity_in_fifo_order() {
    let (mut admission, mut cell) = bounded_cell();
    let first = admission.register_waiter(&mut cell, ProtocolRequirement::H1Compatible);
    let second = admission.register_waiter(&mut cell, ProtocolRequirement::H1Compatible);
    let third = admission.register_waiter(&mut cell, ProtocolRequirement::H1Compatible);

    let first_lease = admission.take_ready_lease(&mut cell, first).unwrap();
    assert!(admission.take_ready_lease(&mut cell, second).is_none());
    assert!(admission.take_ready_lease(&mut cell, third).is_none());

    admission.release(&mut cell, first_lease);
    let second_lease = admission.take_ready_lease(&mut cell, second).unwrap();
    assert!(admission.take_ready_lease(&mut cell, third).is_none());

    admission.release(&mut cell, second_lease);
    let third_lease = admission.take_ready_lease(&mut cell, third).unwrap();
    admission.release(&mut cell, third_lease);
    assert_eq!(0, cell.snapshot().retained);
}

#[test]
fn cancelling_middle_and_tail_waiters_repairs_fifo_links() {
    let (mut admission, mut cell, held) = saturated_bounded_cell();
    let first = admission.register_waiter(&mut cell, ProtocolRequirement::H1Compatible);
    let second = admission.register_waiter(&mut cell, ProtocolRequirement::H2Required);
    let third = admission.register_waiter(&mut cell, ProtocolRequirement::H1Compatible);
    let fourth = admission.register_waiter(&mut cell, ProtocolRequirement::H1Compatible);
    let demand = cell.snapshot().demand;

    assert!(admission.cancel_waiter(&mut cell, second));
    assert!(admission.cancel_waiter(&mut cell, fourth));
    assert_eq!(demand, cell.snapshot().demand);
    assert_eq!(2, cell.snapshot().waiting);
    let fifth = admission.register_waiter(&mut cell, ProtocolRequirement::H1Compatible);
    assert_eq!(3, cell.snapshot().waiting);

    admission.release(&mut cell, held);
    let first_lease = admission.take_ready_lease(&mut cell, first).unwrap();
    assert!(admission.take_ready_lease(&mut cell, third).is_none());
    assert!(admission.take_ready_lease(&mut cell, fifth).is_none());
    admission.release(&mut cell, first_lease);

    let third_lease = admission.take_ready_lease(&mut cell, third).unwrap();
    assert!(admission.take_ready_lease(&mut cell, fifth).is_none());
    admission.release(&mut cell, third_lease);

    let fifth_lease = admission.take_ready_lease(&mut cell, fifth).unwrap();
    admission.release(&mut cell, fifth_lease);
    assert_eq!(0, cell.snapshot().retained);
}

#[test]
fn cancelling_head_waiter_preserves_remaining_fifo_order() {
    let (mut admission, mut cell, held) = saturated_bounded_cell();
    let first = admission.register_waiter(&mut cell, ProtocolRequirement::H1Compatible);
    let second = admission.register_waiter(&mut cell, ProtocolRequirement::H1Compatible);
    let third = admission.register_waiter(&mut cell, ProtocolRequirement::H1Compatible);
    let fourth = admission.register_waiter(&mut cell, ProtocolRequirement::H1Compatible);

    assert!(admission.cancel_waiter(&mut cell, first));
    admission.release(&mut cell, held);

    let second_lease = admission.take_ready_lease(&mut cell, second).unwrap();
    assert!(admission.take_ready_lease(&mut cell, third).is_none());
    assert!(admission.take_ready_lease(&mut cell, fourth).is_none());
    admission.release(&mut cell, second_lease);

    let third_lease = admission.take_ready_lease(&mut cell, third).unwrap();
    assert!(admission.take_ready_lease(&mut cell, fourth).is_none());
    admission.release(&mut cell, third_lease);

    let fourth_lease = admission.take_ready_lease(&mut cell, fourth).unwrap();
    admission.release(&mut cell, fourth_lease);
    assert_eq!(0, cell.snapshot().retained);
}

#[test]
fn cancelling_ready_waiter_refunnels_capacity() {
    let (mut admission, mut cell) = bounded_cell();
    let first = admission.register_waiter(&mut cell, ProtocolRequirement::H1Compatible);
    let second = admission.register_waiter(&mut cell, ProtocolRequirement::H1Compatible);

    assert!(admission.cancel_waiter(&mut cell, first));
    let lease = admission.take_ready_lease(&mut cell, second).unwrap();
    admission.release(&mut cell, lease);
}

#[test]
fn stale_delivery_is_rejected_after_head_cancellation() {
    let (mut admission, mut cell) = bounded_cell();
    let (first, first_demand) = cell.register_waiter_without_publish(ProtocolRequirement::H2Required);
    let second = admission.register_waiter(&mut cell, ProtocolRequirement::H1Compatible);
    let stale = admission.submit_without_running(first_demand).expect("first demand did not reserve capacity");

    assert!(admission.cancel_waiter(&mut cell, first));
    admission.run_pending(&mut cell, stale);

    let lease = admission
        .take_ready_lease(&mut cell, second)
        .expect("replacement demand did not receive refunnelled capacity");
    admission.release(&mut cell, lease);
}

#[test]
fn cancelling_the_only_waiter_retires_admission_demand() {
    let (mut admission, mut cell, held) = saturated_bounded_cell();
    let waiter = admission.register_waiter(&mut cell, ProtocolRequirement::H1Compatible);
    assert_eq!(1, admission.ordered_demand_count_for_test());

    assert!(admission.cancel_waiter(&mut cell, waiter));
    assert_eq!(0, admission.ordered_demand_count_for_test());
    admission.release(&mut cell, held);
}

#[test]
fn unknown_waiter_cancellation_is_a_noop() {
    let (mut admission, mut cell) = bounded_cell();
    assert!(!admission.cancel_waiter(&mut cell, WaiterId(99)));
}

#[test]
fn unbounded_waiter_registers_and_cancels_locally() {
    let mut cell: Cell = OriginCell::new(PartitionId::from_index(1), origin(), EligibilityGroup::Pool, false);

    let (waiter, demand) = cell.register_waiter(ProtocolRequirement::H1Compatible);
    assert_eq!(None, demand);
    assert_eq!(0, cell.snapshot().waiting);
    assert_eq!(1, cell.snapshot().retained);
    assert!(cell.cancel_waiter(waiter).is_some());
    assert_eq!(0, cell.snapshot().retained);
}

#[test]
fn delivered_waiter_is_woken_once() {
    let (mut admission, mut cell, held) = saturated_bounded_cell();
    let waiter = admission.register_waiter(&mut cell, ProtocolRequirement::H1Compatible);
    let counter = Arc::new(WakeCounter(AtomicUsize::new(0)));
    let waker = Waker::from(counter.clone());
    assert!(cell.poll_waiter(waiter, waker).is_none());

    admission.release(&mut cell, held);
    assert_eq!(1, counter.0.load(Ordering::Relaxed));
    let lease = admission.take_ready_lease(&mut cell, waiter).expect("woken waiter had no capacity");
    admission.release(&mut cell, lease);
    assert_eq!(1, counter.0.load(Ordering::Relaxed));
}

use smithy_pool::cell::{AcquisitionOutcome, CellState};
use smithy_pool::connection::{CloseReason, ConnectionLifecycle};
use smithy_pool::h1::OwnedH1Sender;
use smithy_pool::ids::H1MatchId;

fn unbounded_cell() -> Cell {
    OriginCell::new(PartitionId::from_index(1), origin(), EligibilityGroup::Pool, false)
}

fn install_selected(cell: &mut Cell, connection: u64, sender: u32) -> OwnedH1Sender<u32> {
    cell.insert_selected_h1(connection, sender).0.ok().expect("fresh HTTP/1 record was rejected")
}

/// Returns a sender the way a completed exchange does and reports whether it
/// became idle.
fn return_sender(admission: Option<&mut Admission>, cell: &mut Cell, owner: OwnedH1Sender<u32>) -> bool {
    match cell.return_h1_owner(owner, None) {
        H1ReturnOutcome::Idle => true,
        H1ReturnOutcome::Installed(effects) => {
            match admission {
                Some(admission) => admission.apply(cell, effects),
                None => {
                    if let Some(waker) = effects.waker {
                        waker.wake();
                    }
                },
            }
            false
        },
        H1ReturnOutcome::Retire { .. } => panic!("a reusable sender was retired"),
        H1ReturnOutcome::Intercepted { .. } => panic!("no peer reservation was installed"),
    }
}

/// Runs the work a transition detached, as the cell does after unlock:
/// each returned event is settled, and the work that settling detaches runs
/// in turn.
fn run_after_unlock(cell: &mut Cell, effects: CellEffects<u32, u32, String, Waker>) {
    if let Some(waker) = effects.waker {
        waker.wake();
    }
    for event in effects.returned {
        if let ReturnedEventSettlement::H1(H1ReturnOutcome::Installed(more)) = cell.settle_returned_event(event, None) {
            run_after_unlock(cell, more);
        }
    }
}

fn take_ready_h1(cell: &mut Cell, waiter: WaiterId) -> Option<OwnedH1Sender<u32>> {
    match cell.take_ready_result(waiter) {
        Some(AcquisitionOutcome::H1(owner)) => Some(owner),
        Some(_) => panic!("the waiter's result was not an HTTP/1 sender"),
        None => None,
    }
}

#[test]
fn h1_supply_revision_advances_only_when_status_changes() {
    let mut state: CellState<u32, u32, String, Waker> = CellState::new();
    assert!(state.take_h1_supply_update().is_some());
    assert_eq!(1, state.h1_supply_revision.revision);
    assert!(state.take_h1_supply_update().is_none());
    assert_eq!(1, state.h1_supply_revision.revision);

    assert!(state.h1.insert_idle(1, 11, None).is_ok());
    assert!(state.take_h1_supply_update().is_some());
    assert_eq!(2, state.h1_supply_revision.revision);
}

#[test]
fn active_reuse_reservation_blocks_peer_availability() {
    let mut state: CellState<u32, u32, String, Waker> = CellState::new();
    let owner = state.h1.insert_selected(1, 11).ok().expect("fresh HTTP/1 record was rejected");
    let match_id = H1MatchId::new(1);
    assert!(state.h1.reserve_waiting(match_id));

    assert!(state.h1_supply_status().peer_use_blocked);

    assert!(state.h1.release_peer_reservation(match_id));
    assert!(state.h1.close_owned(&owner));
}

#[test]
fn idle_h1_selection_returns_to_its_owning_cell() {
    let mut cell = unbounded_cell();
    assert!(cell.insert_idle_h1(1, 11, None).0.is_ok());

    let selection = cell.select_h1().0.expect("idle sender was not selected");
    assert_eq!(1, selection.connection);
    assert_eq!(11, selection.sender);
    assert!(selection.reused);
    assert_eq!((1, 0), cell.h1_counts());

    assert!(return_sender(None, &mut cell, selection));
    assert_eq!((1, 1), cell.h1_counts());
    assert_eq!(11, cell.select_h1().0.expect("returned sender was not reusable").sender);
}

#[test]
fn complete_h1_exchange_returns_sender_to_idle() {
    let mut cell = unbounded_cell();
    let selection = install_selected(&mut cell, 1, 11);
    assert!(!selection.reused);

    assert!(return_sender(None, &mut cell, selection));
    assert_eq!((1, 1), cell.h1_counts());
}

#[test]
fn incomplete_h1_return_closes_and_releases_capacity() {
    let (mut admission, mut cell) = bounded_cell();
    let lease = admission.lease_for_test();
    let mut connection = ConnectionLifecycle::bounded(1, PartitionId::from_index(1), lease);
    let selection = install_selected(&mut cell, 1, 11);

    assert!(cell.begin_retire_h1(&selection));
    let (closed, released) = connection.logical_close(CloseReason::IncompleteH1Exchange);
    assert!(closed);
    admission.release(&mut cell, released.expect("bounded connection held no capacity"));
    cell.remove_closed_h1(selection.connection);

    assert_eq!((0, 0), cell.h1_counts());
    assert_eq!(0, admission.outstanding);
    assert_eq!(Some(CloseReason::IncompleteH1Exchange), connection.snapshot().close_reason);
}

#[test]
fn returned_h1_satisfies_an_unbounded_waiter() {
    let mut cell = unbounded_cell();
    let selection = install_selected(&mut cell, 1, 11);
    let (waiter, _) = cell.register_waiter(ProtocolRequirement::H1Compatible);

    assert!(!return_sender(None, &mut cell, selection));

    let selected = take_ready_h1(&mut cell, waiter).expect("returned sender did not satisfy the waiter");
    assert_eq!(11, selected.sender);
    assert!(selected.reused);
    assert_eq!(0, cell.snapshot().retained);
    assert!(return_sender(None, &mut cell, selected));
    assert_eq!((1, 1), cell.h1_counts());
}

#[test]
fn returned_h1_satisfies_bounded_demand_without_releasing_capacity() {
    let (mut admission, mut cell) = bounded_cell();
    let lease = admission.lease_for_test();
    let _connection = ConnectionLifecycle::bounded(1, PartitionId::from_index(1), lease);
    let selection = install_selected(&mut cell, 1, 11);
    let waiter = admission.register_waiter(&mut cell, ProtocolRequirement::H1Compatible);
    assert_eq!(1, admission.ordered_demand_count_for_test());

    assert!(!return_sender(Some(&mut admission), &mut cell, selection));

    assert_eq!(0, admission.ordered_demand_count_for_test());
    assert_eq!(1, admission.outstanding);
    let selected = take_ready_h1(&mut cell, waiter).expect("returned sender did not satisfy bounded demand");
    assert!(return_sender(Some(&mut admission), &mut cell, selected));
    assert_eq!((1, 1), cell.h1_counts());
}

#[test]
fn cancelling_ready_h1_returns_it_after_unlock() {
    let mut cell = unbounded_cell();
    let selection = install_selected(&mut cell, 1, 11);
    let (waiter, _) = cell.register_waiter(ProtocolRequirement::H1Compatible);
    assert!(!return_sender(None, &mut cell, selection));

    let effects = cell.cancel_waiter(waiter).expect("ready waiter was not cancelled");
    run_after_unlock(&mut cell, effects);
    assert_eq!((1, 1), cell.h1_counts());
    assert_eq!(11, cell.select_h1().0.expect("cancelled result did not return its sender").sender);
}

#[test]
fn returned_h1_and_establishment_complete_one_acquisition_attempt() {
    let mut cell = unbounded_cell();
    let (waiter, _) = cell.register_waiter(ProtocolRequirement::H1Compatible);
    let permit = match cell.poll_waiter(waiter, noop_waker()) {
        Some(AcquisitionEvent::Establish(permit)) => permit,
        _ => panic!("unbounded miss did not start establishment"),
    };
    assert!(cell.start_establishment(waiter));
    assert!(permit.into_lease().is_none());

    let returning = install_selected(&mut cell, 1, 11);
    let fresh = install_selected(&mut cell, 2, 22);

    assert!(!return_sender(None, &mut cell, returning));
    let effects = cell.complete_establishment(waiter, AcquisitionOutcome::H1(fresh));
    run_after_unlock(&mut cell, effects);

    assert_eq!((2, 1), cell.h1_counts());
    let winner = take_ready_h1(&mut cell, waiter).expect("acquisition attempt had no terminal H1");
    assert_eq!(11, winner.sender);
    assert!(return_sender(None, &mut cell, winner));
    assert_eq!((2, 2), cell.h1_counts());
}

#[test]
fn completion_after_waiter_cancellation_returns_the_new_h1() {
    let mut cell = unbounded_cell();
    let (waiter, _) = cell.register_waiter(ProtocolRequirement::H1Compatible);
    let permit = match cell.poll_waiter(waiter, noop_waker()) {
        Some(AcquisitionEvent::Establish(permit)) => permit,
        _ => panic!("unbounded miss did not start establishment"),
    };
    assert!(cell.start_establishment(waiter));
    assert!(cell.cancel_waiter(waiter).is_some());
    drop(permit);

    let fresh = install_selected(&mut cell, 1, 11);
    let effects = cell.complete_establishment(waiter, AcquisitionOutcome::H1(fresh));
    run_after_unlock(&mut cell, effects);

    assert_eq!((1, 1), cell.h1_counts());
    assert_eq!(11, cell.select_h1().0.expect("cancelled acquisition lost its completed H1").sender);
}

#[test]
fn returned_h1_prevents_the_first_establishment_poll() {
    let mut cell = unbounded_cell();
    let (waiter, _) = cell.register_waiter(ProtocolRequirement::H1Compatible);
    let permit = match cell.poll_waiter(waiter, noop_waker()) {
        Some(AcquisitionEvent::Establish(permit)) => permit,
        _ => panic!("unbounded miss did not prepare establishment"),
    };
    let returning = install_selected(&mut cell, 1, 11);

    assert!(!return_sender(None, &mut cell, returning));
    assert!(!cell.start_establishment(waiter));
    drop(permit);
    let selected = take_ready_h1(&mut cell, waiter).expect("returned H1 did not win before establishment started");
    assert_eq!(11, selected.sender);
}

#[test]
fn h2_required_head_does_not_take_h1() {
    let mut cell = unbounded_cell();
    let selection = install_selected(&mut cell, 1, 11);
    let (waiter, _) = cell.register_waiter(ProtocolRequirement::H2Required);

    assert!(return_sender(None, &mut cell, selection));

    assert_eq!((1, 1), cell.h1_counts());
    match cell.poll_waiter(waiter, noop_waker()) {
        Some(AcquisitionEvent::Establish(_)) => {},
        _ => panic!("H2-required waiter accepted an HTTP/1 selection"),
    }
    assert!(cell.cancel_waiter(waiter).is_some());
}

#[test]
fn establishment_completion_clears_the_served_waiters_local_turn() {
    let mut cell = unbounded_cell();
    let reuse_id = H1MatchId::new(1);
    assert!(cell.state.h1.reserve_resolving(reuse_id));
    assert!(cell.state.h1.complete_peer_transfer(reuse_id, true));
    let (waiter, _) = cell.register_waiter(ProtocolRequirement::H1Compatible);
    let permit = match cell.poll_waiter(waiter, noop_waker()) {
        Some(AcquisitionEvent::Establish(permit)) => permit,
        _ => panic!("unbounded miss did not prepare establishment"),
    };
    assert!(cell.start_establishment(waiter));
    drop(permit);
    let fresh = install_selected(&mut cell, 1, 11);

    cell.complete_establishment(waiter, AcquisitionOutcome::H1(fresh));

    assert!(!cell.state.h1.local_turn_owed());
    assert!(take_ready_h1(&mut cell, waiter).is_some());
}

#[test]
fn close_marks_selected_record_until_sender_returns() {
    let mut cell = unbounded_cell();
    let mut connection = ConnectionLifecycle::unbounded(1, PartitionId::from_index(1));
    let selection = install_selected(&mut cell, 1, 11);

    let (transition, _) = cell.begin_close_h1(1).expect("installed record was not closed");
    assert!(transition.sender.is_none());
    assert!(connection.logical_close(CloseReason::Poisoned).0);
    assert!(cell.select_h1().0.is_none());
    assert_eq!((1, 0), cell.h1_counts());

    match cell.return_h1_owner(selection, None) {
        H1ReturnOutcome::Retire { owner, .. } => {
            cell.remove_closed_h1(owner.connection);
        },
        _ => panic!("a closed record accepted its sender back"),
    }
    assert_eq!((0, 0), cell.h1_counts());
    assert_eq!(Some(CloseReason::Poisoned), connection.snapshot().close_reason);
}

#[test]
fn confirmed_upgrade_refines_an_earlier_driver_close() {
    let (mut admission, mut cell) = bounded_cell();
    let lease = admission.lease_for_test();
    let mut connection = ConnectionLifecycle::bounded(1, PartitionId::from_index(1), lease);
    let selection = install_selected(&mut cell, 1, 11);

    let (closed, released) = connection.logical_close(CloseReason::ProtocolClosed);
    assert!(closed);
    admission.release(&mut cell, released.expect("bounded connection held no capacity"));
    assert!(cell.begin_close_h1(1).is_some());
    assert!(connection.refine_protocol_close_as_upgrade());
    assert!(!cell.begin_retire_h1(&selection));
    cell.remove_closed_h1(1);

    assert_eq!(Some(CloseReason::Upgraded), connection.snapshot().close_reason);
    assert_eq!(0, admission.outstanding);
    assert_eq!((0, 0), cell.h1_counts());
}

fn start_establishment(cell: &mut Cell, waiter: WaiterId) -> EstablishmentPermit {
    let permit = match cell.poll_waiter(waiter, noop_waker()) {
        Some(AcquisitionEvent::Establish(permit)) => permit,
        _ => panic!("miss did not prepare establishment"),
    };
    assert!(cell.start_establishment(waiter));
    permit
}

fn owe_local_turn(cell: &mut Cell) {
    let reuse_id = H1MatchId::new(1);
    assert!(cell.state.h1.reserve_resolving(reuse_id));
    assert!(cell.state.h1.complete_peer_transfer(reuse_id, true));
}

#[test]
fn establishment_failure_is_a_terminal_acquisition_outcome() {
    let mut cell = unbounded_cell();
    let (waiter, _) = cell.register_waiter(ProtocolRequirement::H1Compatible);
    drop(start_establishment(&mut cell, waiter));

    cell.complete_establishment(waiter, AcquisitionOutcome::Failed("synthetic establishment failure".to_string()));

    match cell.take_ready_result(waiter) {
        Some(AcquisitionOutcome::Failed(error)) => assert_eq!("synthetic establishment failure", error),
        _ => panic!("establishment failure produced the wrong acquisition step"),
    }
    assert_eq!(0, cell.snapshot().retained);
}

#[test]
fn failed_establishment_preserves_a_turn_for_compatible_successor() {
    let mut cell = unbounded_cell();
    owe_local_turn(&mut cell);
    let (failed, _) = cell.register_waiter(ProtocolRequirement::H1Compatible);
    drop(start_establishment(&mut cell, failed));
    let (successor, _) = cell.register_waiter(ProtocolRequirement::H1Compatible);

    cell.complete_establishment(failed, AcquisitionOutcome::Failed("synthetic establishment failure".to_string()));

    assert!(cell.state.h1.local_turn_owed());
    assert!(matches!(cell.take_ready_result(failed), Some(AcquisitionOutcome::Failed(_))));
    assert!(cell.cancel_waiter(successor).is_some());
    cell.settle_cancellation();
    assert!(!cell.state.h1.local_turn_owed());
}

#[test]
fn failed_establishment_clears_a_turn_after_local_demand_drains() {
    let mut cell = unbounded_cell();
    owe_local_turn(&mut cell);
    let (waiter, _) = cell.register_waiter(ProtocolRequirement::H1Compatible);
    drop(start_establishment(&mut cell, waiter));

    cell.complete_establishment(waiter, AcquisitionOutcome::Failed("synthetic establishment failure".to_string()));

    assert!(!cell.state.h1.local_turn_owed());
    assert!(matches!(cell.take_ready_result(waiter), Some(AcquisitionOutcome::Failed(_))));
}

#[test]
fn bounded_attempt_remains_eligible_for_a_returned_h1() {
    let mut admission = Admission::new(2);
    let mut cell: Cell = OriginCell::new(PartitionId::from_index(1), origin(), EligibilityGroup::Pool, true);
    let installed_lease = admission.lease_for_test();
    let _connection = ConnectionLifecycle::bounded(1, PartitionId::from_index(1), installed_lease);
    let returning = install_selected(&mut cell, 1, 11);

    let waiter = admission.register_waiter(&mut cell, ProtocolRequirement::H1Compatible);
    let permit = start_establishment(&mut cell, waiter);
    let attempt_lease = permit.into_lease().expect("bounded establishment carried no capacity");
    assert_eq!(admission.limit, admission.outstanding);

    assert!(!return_sender(Some(&mut admission), &mut cell, returning));
    let selected = take_ready_h1(&mut cell, waiter).expect("returned H1 did not beat the pending establishment");
    admission.release(&mut cell, attempt_lease);
    assert_eq!(1, admission.limit - admission.outstanding);
    assert!(return_sender(Some(&mut admission), &mut cell, selected));
    assert_eq!((1, 1), cell.h1_counts());
}

#[test]
fn older_launching_waiter_precedes_younger_capacity_waiter_for_returned_h1() {
    let mut admission = Admission::new(2);
    let mut cell: Cell = OriginCell::new(PartitionId::from_index(1), origin(), EligibilityGroup::Pool, true);
    let installed_lease = admission.lease_for_test();
    let _connection = ConnectionLifecycle::bounded(1, PartitionId::from_index(1), installed_lease);
    let returning = install_selected(&mut cell, 1, 11);

    let older = admission.register_waiter(&mut cell, ProtocolRequirement::H1Compatible);
    let permit = start_establishment(&mut cell, older);
    let attempt_lease = permit.into_lease().expect("bounded establishment carried no capacity");

    let younger = admission.register_waiter(&mut cell, ProtocolRequirement::H1Compatible);
    assert!(cell.poll_waiter(younger, noop_waker()).is_none());

    assert!(!return_sender(Some(&mut admission), &mut cell, returning));

    let selected = take_ready_h1(&mut cell, older).expect("younger capacity waiter overtook the older launching waiter");
    assert_eq!(11, selected.sender);
    assert!(cell.poll_waiter(younger, noop_waker()).is_none());

    assert!(admission.cancel_waiter(&mut cell, younger));
    admission.release(&mut cell, attempt_lease);
    assert!(return_sender(Some(&mut admission), &mut cell, selected));
    assert_eq!((1, 1), cell.h1_counts());
    assert_eq!(1, admission.limit - admission.outstanding);
    assert_eq!(0, cell.snapshot().retained);
}

#[test]
fn driver_drop_closes_its_installed_generation() {
    let mut cell = unbounded_cell();
    let mut connection = ConnectionLifecycle::unbounded(1, PartitionId::from_index(1));
    let selection = install_selected(&mut cell, 1, 11);

    assert!(cell.begin_close_h1(1).is_some());
    assert!(connection.logical_close(CloseReason::OwnerRuntimeShutdown).0);
    assert_eq!(Some(CloseReason::OwnerRuntimeShutdown), connection.snapshot().close_reason);
    assert!(!cell.begin_retire_h1(&selection));
    cell.remove_closed_h1(selection.connection);
    assert_eq!((0, 0), cell.h1_counts());
}

/// Reserves the head for a delivery of `demand`, as admission does before
/// crossing back with its payload.
fn reserve(cell: &mut Cell, demand: Option<DemandSnapshot>) -> WaiterId {
    let demand = demand.expect("bounded registration published no demand");
    match cell.reserve_delivery(demand.id()) {
        DeliveryReservation::Reserved { waiter, .. } => waiter,
        DeliveryReservation::Rejected => panic!("current delivery was rejected"),
    }
}

fn returned_parts(
    events: Vec<Option<AcquisitionEvent<AcquisitionOutcome<u32, u32, String>>>>,
) -> (Option<OwnedH1Sender<u32>>, Option<CapacityLease>) {
    let mut sender = None;
    let mut lease = None;
    for event in events.into_iter().flatten() {
        match event {
            AcquisitionEvent::Complete(AcquisitionOutcome::H1(owner)) => sender = Some(owner),
            AcquisitionEvent::Establish(permit) => lease = permit.into_lease(),
            _ => panic!("unexpected returned event"),
        }
    }
    (sender, lease)
}

#[test]
fn cancelling_during_delivery_refunnels_capacity_after_unlock() {
    let (mut admission, mut cell) = bounded_cell();
    let (waiter, demand) = cell.register_waiter_without_publish(ProtocolRequirement::H1Compatible);
    let lease = admission.lease_for_test();
    let reserved = reserve(&mut cell, demand);
    assert_eq!(waiter, reserved);

    assert!(cell.cancel_waiter(waiter).is_some());
    let (install, _) = cell.commit_delivery(waiter, AcquisitionEvent::Establish(EstablishmentPermit::bounded(lease)));
    assert!(!install.accepted);
    assert!(install.returned_events[0].is_none());
    assert!(matches!(install.returned_events[1], Some(AcquisitionEvent::Establish(_))));
    assert_eq!(0, cell.snapshot().retained);

    let (_, returned) = returned_parts(install.returned_events);
    admission.release(&mut cell, returned.expect("cancelled delivery kept its capacity"));
    assert_eq!(0, admission.outstanding);
}

#[test]
fn h1_return_during_capacity_delivery_refunnels_the_permit() {
    let mut admission = Admission::new(3);
    let mut cell: Cell = OriginCell::new(PartitionId::from_index(1), origin(), EligibilityGroup::Pool, true);
    let _first = ConnectionLifecycle::bounded(1, PartitionId::from_index(1), admission.lease_for_test());
    let first_return = install_selected(&mut cell, 1, 11);
    let _second = ConnectionLifecycle::bounded(2, PartitionId::from_index(1), admission.lease_for_test());
    let second_return = install_selected(&mut cell, 2, 22);
    let (waiter, demand) = cell.register_waiter_without_publish(ProtocolRequirement::H1Compatible);
    let lease = admission.lease_for_test();
    let reserved = reserve(&mut cell, demand);
    assert_eq!(waiter, reserved);

    assert!(!return_sender(None, &mut cell, first_return));
    assert!(return_sender(None, &mut cell, second_return));
    assert_eq!((2, 1), cell.h1_counts());
    let (install, _) = cell.commit_delivery(waiter, AcquisitionEvent::Establish(EstablishmentPermit::bounded(lease)));
    assert!(!install.accepted);
    assert!(install.returned_events[0].is_some());
    let (_, returned) = returned_parts(install.returned_events);
    admission.release(&mut cell, returned.expect("displaced capacity was not returned"));

    assert_eq!(1, admission.limit - admission.outstanding);
    let selected = take_ready_h1(&mut cell, waiter).expect("returning H1 did not win the crossing delivery");
    assert_eq!(11, selected.sender);
}

#[test]
fn cancellation_during_h1_and_capacity_crossing_returns_both() {
    let mut admission = Admission::new(2);
    let mut cell: Cell = OriginCell::new(PartitionId::from_index(1), origin(), EligibilityGroup::Pool, true);
    let _connection = ConnectionLifecycle::bounded(1, PartitionId::from_index(1), admission.lease_for_test());
    let returning = install_selected(&mut cell, 1, 11);
    let (waiter, demand) = cell.register_waiter_without_publish(ProtocolRequirement::H1Compatible);
    let lease = admission.lease_for_test();
    let reserved = reserve(&mut cell, demand);
    assert_eq!(waiter, reserved);

    assert!(!return_sender(None, &mut cell, returning));
    assert!(cell.cancel_waiter(waiter).is_some());
    let (install, _) = cell.commit_delivery(waiter, AcquisitionEvent::Establish(EstablishmentPermit::bounded(lease)));
    assert!(!install.accepted);
    assert!(install.returned_events.iter().all(Option::is_some));
    let (sender, returned) = returned_parts(install.returned_events);
    admission.release(&mut cell, returned.expect("cancelled crossing kept its capacity"));
    assert!(return_sender(None, &mut cell, sender.expect("cancelled crossing kept its sender")));

    assert_eq!(1, admission.limit - admission.outstanding);
    assert_eq!(0, cell.snapshot().retained);
    assert_eq!((1, 1), cell.h1_counts());
    assert_eq!(11, cell.select_h1().0.expect("cancelled crossing lost its H1 sender").sender);
}

#[test]
fn settling_keeps_foreign_senders_grants_and_capacity_for_their_owners() {
    let mut cell = unbounded_cell();
    let foreign = OwnedH1Sender { connection: 7, sender: 70, reused: true };
    match cell.settle_returned_event(AcquisitionEvent::Complete(AcquisitionOutcome::H1(foreign)), None) {
        ReturnedEventSettlement::ForeignH1(owner) => assert_eq!(7, owner.connection),
        _ => panic!("a sender without a record here was not handed back"),
    }
    match cell.settle_returned_event(AcquisitionEvent::Establish(EstablishmentPermit::unbounded()), None) {
        ReturnedEventSettlement::Capacity(lease) => assert!(lease.is_none()),
        _ => panic!("a permit did not come back as capacity"),
    }
    assert!(matches!(
        cell.settle_returned_event(AcquisitionEvent::Complete(AcquisitionOutcome::Failed("refused".to_string())), None),
        ReturnedEventSettlement::Discarded
    ));
    assert_eq!((0, 0), cell.h1_counts());
}

#[test]
fn a_settled_sender_of_this_cell_becomes_idle() {
    let mut cell = unbounded_cell();
    let selection = install_selected(&mut cell, 1, 11);
    match cell.settle_returned_event(AcquisitionEvent::Complete(AcquisitionOutcome::H1(selection)), Some(5)) {
        ReturnedEventSettlement::H1(H1ReturnOutcome::Idle) => {},
        _ => panic!("an idle-bound sender did not become idle"),
    }
    assert_eq!((1, 1), cell.h1_counts());
    assert_eq!(Some(5), cell.nearest_idle_deadline());
}
