use smithy_pool::activation::H2Activation;
use smithy_pool::admission::{EligibilityGroup, PartitionId, ProtocolRequirement};
use smithy_pool::cell::{AcquisitionOutcome, H2Grant, OriginCell};
use smithy_pool::connection::{CloseReason, ConnectionLifecycle};
use smithy_pool::h2::{H2CellState, H2FlightDecision, H2Route};
use smithy_pool::h2_request::H2RequestClaim;
use smithy_pool::h2_request::H2ActivationGateOwner;
use smithy_pool::ids::H2GenerationId;
use smithy_pool::origin::{OriginKey, OriginScheme};
use smithy_pool::waiters::{AcquisitionEvent, WaiterId};

type Cell = OriginCell<u32, u32, String, u32>;

fn cell() -> Cell {
    OriginCell::new(
        PartitionId::from_index(1),
        OriginKey::from_parts(OriginScheme::Https, "example.com".to_string(), None),
        EligibilityGroup::Pool,
        false,
    )
}

/// Registers an HTTP/2 waiter whose establishment has started.
fn begin_waiter(cell: &mut Cell) -> WaiterId {
    let (waiter, _) = cell.register_waiter(ProtocolRequirement::H2Required);
    match cell.poll_waiter(waiter, 0) {
        Some(AcquisitionEvent::Establish(_)) => {},
        _ => panic!("new H2 waiter completed before establishment"),
    }
    assert!(cell.start_establishment(waiter));
    waiter
}

fn take_ready_h2(cell: &mut Cell, waiter: WaiterId) -> Option<H2Grant<u32>> {
    match cell.take_ready_result(waiter) {
        Some(AcquisitionOutcome::H2(grant)) => Some(grant),
        Some(_) => panic!("waiter received a non-H2 result"),
        None => None,
    }
}

/// Cancels a prospective request the way dropping its activation does.
fn drop_activation(cell: &mut Cell, grant: H2Grant<u32>) {
    cell.cancel_h2_activation(grant.generation);
    if let Some(turn) = grant.turn {
        if let H2ActivationGateOwner::Local { generation } = turn.owner {
            cell.release_local_h2_turn(generation, turn.waiter);
        }
    }
}

#[test]
fn flight_converges_participants_and_cancellation() {
    let mut records: H2CellState<u32> = H2CellState::new();
    let first = WaiterId(1);
    let second = WaiterId(2);

    let flight = match records.converge_flight(first) {
        H2FlightDecision::RunFlight(flight) => flight,
        _ => panic!("first participant did not become the flight driver"),
    };
    assert!(matches!(records.converge_flight(second), H2FlightDecision::JoinedFlight));
    records.cancel_flight_participant(second);
    assert_eq!(Some(vec![first]), records.fail_flight(flight));
    assert!(records.fail_flight(flight).is_none());
}

#[test]
fn accepting_generation_prevents_a_second_flight() {
    let mut cell = cell();
    let waiter = begin_waiter(&mut cell);
    let flight = match cell.converge_h2_flight(waiter) {
        H2FlightDecision::RunFlight(flight) => flight,
        _ => panic!("fresh cell did not create an HTTP/2 flight"),
    };
    let generation = cell.complete_h2_flight(flight, 1, 1, None).0.ok().expect("fresh flight did not install");

    let (later, _) = cell.register_waiter(ProtocolRequirement::H2Required);
    assert!(matches!(
        cell.converge_h2_flight(later),
        H2FlightDecision::UseGeneration(current) if current == generation
    ));
}

#[test]
fn generation_gate_services_committed_waiters_before_direct_arrivals() {
    let mut cell = cell();
    let first = begin_waiter(&mut cell);
    let second = begin_waiter(&mut cell);
    let flight = match cell.converge_h2_flight(first) {
        H2FlightDecision::RunFlight(flight) => flight,
        _ => panic!("first participant did not become the flight driver"),
    };
    assert!(matches!(cell.converge_h2_flight(second), H2FlightDecision::JoinedFlight));
    cell.complete_h2_flight(flight, 1, 1, None).0.ok().expect("flight did not install");

    assert!(cell.select_local_h2().is_none(), "direct arrival bypassed committed waiters");
    let first_activation = take_ready_h2(&mut cell, first).expect("first waiter was not served");
    drop_activation(&mut cell, first_activation);

    assert!(cell.select_local_h2().is_none(), "direct arrival bypassed the second committed waiter");
    let second_activation = take_ready_h2(&mut cell, second).expect("second waiter was not served");
    drop_activation(&mut cell, second_activation);

    assert!(cell.select_local_h2().is_some(), "gate did not open after committed waiters drained");
}

#[test]
fn cancelling_an_unserved_flight_participant_prunes_the_generation() {
    let mut cell = cell();
    let first = begin_waiter(&mut cell);
    let second = begin_waiter(&mut cell);
    let flight = match cell.converge_h2_flight(first) {
        H2FlightDecision::RunFlight(flight) => flight,
        _ => panic!("first participant did not become the flight driver"),
    };
    assert!(matches!(cell.converge_h2_flight(second), H2FlightDecision::JoinedFlight));
    let generation = cell.complete_h2_flight(flight, 1, 1, None).0.ok().expect("flight did not install");
    let first_activation = take_ready_h2(&mut cell, first).expect("first participant was not served");

    assert!(cell.cancel_waiter(second).is_some());
    assert!(cell.close_h2(generation).is_some());
    drop_activation(&mut cell, first_activation);
    assert_eq!(0, cell.retained_waiters_for_test());
}

#[test]
fn generation_is_reused_only_after_acceptance() {
    let mut cell = cell();
    let waiter = begin_waiter(&mut cell);
    let flight = match cell.converge_h2_flight(waiter) {
        H2FlightDecision::RunFlight(flight) => flight,
        _ => panic!("fresh cell did not create an HTTP/2 flight"),
    };
    let generation: H2GenerationId =
        cell.complete_h2_flight(flight, 1, 7, None).0.ok().expect("fresh flight did not install");
    let first = take_ready_h2(&mut cell, waiter).expect("flight completion did not satisfy its waiter");
    assert!(!first.resources.reused);
    assert_eq!(7, first.resources.sender);
    drop_activation(&mut cell, first);

    let (direct, _) = cell.select_local_h2().expect("open generation refused a direct arrival");
    assert!(!direct.resources.reused, "a cancelled activation made the generation reused");
    assert_eq!((true, true), cell.accept_h2_activation(direct.generation, None));
    cell.release_h2_request(generation);

    let (again, _) = cell.select_local_h2().expect("open generation refused a direct arrival");
    assert!(again.resources.reused, "an accepted request did not make the generation reused");
}

/// Opens a generation whose first waiter was served and cancelled.
fn open_test_generation(cell: &mut Cell, connection: u64) -> H2GenerationId {
    let waiter = begin_waiter(cell);
    let flight = match cell.converge_h2_flight(waiter) {
        H2FlightDecision::RunFlight(flight) => flight,
        _ => panic!("fresh cell did not create an HTTP/2 flight"),
    };
    let generation = cell
        .complete_h2_flight(flight, connection, connection as u32, None)
        .0
        .ok()
        .expect("fresh flight did not install");
    let activation = take_ready_h2(cell, waiter).expect("flight completion did not satisfy its waiter");
    drop_activation(cell, activation);
    generation
}

/// Settles an activation the way dropping it does.
fn cancel_activation(cell: &mut Cell, activation: H2Activation<u32>) {
    let (generation, turn) = activation.cancel();
    cell.cancel_h2_activation(generation);
    if let Some(turn) = turn {
        if let H2ActivationGateOwner::Local { generation } = turn.owner {
            cell.release_local_h2_turn(generation, turn.waiter);
        }
    }
}

#[test]
fn prospective_activation_cancellation_returns_its_generation_count() {
    let mut cell = cell();
    let generation = open_test_generation(&mut cell, 1);

    let (grant, _) = cell.select_local_h2().expect("accepting generation was not selected");
    let activation = H2Activation::new(grant, PartitionId::from_index(1));
    assert_eq!(Some((1, 0)), cell.h2_request_counts(generation));
    cancel_activation(&mut cell, activation);
    assert_eq!(Some((0, 0)), cell.h2_request_counts(generation));
}

#[test]
fn open_generation_allows_concurrent_prospective_activations() {
    let mut cell = cell();
    let generation = open_test_generation(&mut cell, 1);

    let (first, _) = cell.select_local_h2().expect("first activation was not selected");
    let (second, _) =
        cell.select_local_h2().expect("open generation serialized the second activation");
    assert_eq!(Some((2, 0)), cell.h2_request_counts(generation));
    cancel_activation(&mut cell, H2Activation::new(first, PartitionId::from_index(1)));
    cancel_activation(&mut cell, H2Activation::new(second, PartitionId::from_index(1)));
    assert_eq!(Some((0, 0)), cell.h2_request_counts(generation));
}

#[test]
fn activation_hands_out_its_sender_once() {
    let mut cell = cell();
    let _generation = open_test_generation(&mut cell, 1);
    let (grant, _) = cell.select_local_h2().expect("accepting generation was not selected");
    let mut activation = H2Activation::new(grant, PartitionId::from_index(1));
    assert!(!activation.is_reused());
    assert_eq!(1, activation.connection());

    assert_eq!(Some(1), activation.take_dispatch_parts());
    assert_eq!(None, activation.take_dispatch_parts());
    assert_eq!(1, activation.connection());
}

#[test]
fn accepted_activation_moves_its_count_to_active() {
    let mut cell = cell();
    let generation = open_test_generation(&mut cell, 1);
    let (grant, _) = cell.select_local_h2().expect("accepting generation was not selected");
    let mut activation = H2Activation::new(grant, PartitionId::from_index(3));
    assert_eq!(PartitionId::from_index(3), activation.request_partition);
    assert!(activation.take_dispatch_parts().is_some());

    let (accepted, turn) = activation.accept();
    assert_eq!(generation, accepted);
    assert!(turn.is_none());
    assert_eq!((true, true), cell.accept_h2_activation(accepted, None));
    assert_eq!(Some((0, 1)), cell.h2_request_counts(generation));
    cell.release_h2_request(generation);
    assert_eq!(Some((0, 0)), cell.h2_request_counts(generation));
}

#[test]
fn accepted_claim_waits_for_both_sides_in_either_order() {
    for upload_first in [true, false] {
        let mut cell = cell();
        let generation = open_test_generation(&mut cell, 1);
        let mut connection = ConnectionLifecycle::unbounded(1, PartitionId::from_index(1));
        let (grant, _) = cell.select_local_h2().expect("accepting generation was not selected");
        let mut activation = H2Activation::new(grant, PartitionId::from_index(1));
        let mut claim: H2RequestClaim<u64> = H2RequestClaim::new(activation.generation());
        let _sender = activation.take_dispatch_parts().expect("dispatch parts were taken twice");
        assert!(connection.try_commit_dispatch());
        let (accepted, _) = activation.accept();
        assert!(cell.accept_h2_activation(accepted, None).0);
        assert!(claim.accept(connection.id()).is_none());
        assert_eq!(Some((0, 1)), cell.h2_request_counts(generation));
        assert_eq!(1, connection.snapshot().in_flight);

        let released = if upload_first {
            assert!(claim.finish_upload().is_none());
            assert_eq!(Some((0, 1)), cell.h2_request_counts(generation));
            claim.finish_response()
        } else {
            assert!(claim.finish_response().is_none());
            assert_eq!(Some((0, 1)), cell.h2_request_counts(generation));
            claim.finish_upload()
        };
        assert_eq!(Some(1), released);
        cell.release_h2_request(generation);
        connection.finish_dispatch();

        assert_eq!(Some((0, 0)), cell.h2_request_counts(generation));
        assert_eq!(0, connection.snapshot().in_flight);
    }
}

#[test]
fn accepting_identity_rejects_a_retained_draining_generation() {
    let mut cell = cell();
    let first = open_test_generation(&mut cell, 1);
    let (retained, _) = cell.select_local_h2().expect("first generation was not selectable");
    let mut connection = ConnectionLifecycle::unbounded(1, PartitionId::from_index(1));
    assert!(cell.close_h2(first).is_some());
    assert!(connection.logical_close(CloseReason::ProtocolClosed).0);
    let second = open_test_generation(&mut cell, 2);

    assert_ne!(first, second);
    assert!(cell.h2_generation_is_accepting(second));
    assert!(!cell.h2_generation_is_accepting(first));
    drop_activation(&mut cell, retained);
}

#[test]
fn local_generation_excludes_a_peer_route() {
    let mut local = cell();
    let generation = open_test_generation(&mut local, 1);
    let route = H2Route::new(PartitionId::from_index(2), H2GenerationId::new(99));

    local.state.h2.attach_peer_route(route, None);
    assert!(local.state.h2.open_peer_route(false).is_none());
    assert_eq!(Some(generation), local.state.h2.accepting());
}

use smithy_pool::waiters::WaiterStage;

type FailingCell = OriginCell<u32, u32, String, u32>;

fn failing_cell() -> FailingCell {
    OriginCell::new(
        PartitionId::from_index(1),
        OriginKey::from_parts(OriginScheme::Https, "example.com".to_string(), None),
        EligibilityGroup::Pool,
        false,
    )
}

fn launching_waiter(cell: &mut FailingCell) -> WaiterId {
    let (waiter, _) = cell.register_waiter(ProtocolRequirement::H2Required);
    match cell.poll_waiter(waiter, 0) {
        Some(AcquisitionEvent::Establish(_)) => {},
        _ => panic!("new H2 waiter did not receive establishment authority"),
    }
    assert!(cell.start_establishment(waiter));
    assert_eq!(Some(WaiterStage::Launching), cell.waiter_stage(waiter));
    waiter
}

/// Fails every participant the flight still retains, as its driver does.
fn fail_participants(cell: &mut FailingCell, flight: smithy_pool::ids::H2FlightId, error: &str) {
    for participant in cell.fail_h2_flight(flight).into_iter().flatten() {
        cell.complete_establishment(participant, AcquisitionOutcome::Failed(error.to_string()));
    }
}

fn failed_event(cell: &mut FailingCell, waiter: WaiterId) -> String {
    match cell.take_ready_result(waiter) {
        Some(AcquisitionOutcome::Failed(error)) => error,
        _ => panic!("flight participant did not receive a failure"),
    }
}

#[test]
fn flight_failure_reaches_every_live_participant() {
    let mut cell = failing_cell();
    let first = launching_waiter(&mut cell);
    let second = launching_waiter(&mut cell);
    let flight = match cell.converge_h2_flight(first) {
        H2FlightDecision::RunFlight(flight) => flight,
        _ => panic!("first participant did not become the flight driver"),
    };
    assert!(matches!(cell.converge_h2_flight(second), H2FlightDecision::JoinedFlight));

    fail_participants(&mut cell, flight, "synthetic HTTP/2 handshake failure");

    for waiter in [first, second] {
        assert_eq!("synthetic HTTP/2 handshake failure", failed_event(&mut cell, waiter));
    }
}

#[test]
fn task_drop_fails_only_participants_still_owned_by_the_flight() {
    let mut cell = failing_cell();
    let live = launching_waiter(&mut cell);
    let cancelled = launching_waiter(&mut cell);
    let flight = match cell.converge_h2_flight(live) {
        H2FlightDecision::RunFlight(flight) => flight,
        _ => panic!("first participant did not become the flight driver"),
    };
    assert!(matches!(cell.converge_h2_flight(cancelled), H2FlightDecision::JoinedFlight));
    assert!(cell.cancel_waiter(cancelled).is_some());

    fail_participants(&mut cell, flight, "HTTP/2 establishment task was dropped");

    assert_eq!("HTTP/2 establishment task was dropped", failed_event(&mut cell, live));
    assert_eq!(None, cell.waiter_stage(cancelled));
    let (successor, _) = cell.register_waiter(ProtocolRequirement::H2Required);
    assert_ne!(cancelled, successor);
    assert!(cell.cancel_waiter(successor).is_some());
}

#[test]
fn waiters_held_by_a_closed_generation_retry_acquisition() {
    let mut cell = cell();
    let first = begin_waiter(&mut cell);
    let second = begin_waiter(&mut cell);
    let flight = match cell.converge_h2_flight(first) {
        H2FlightDecision::RunFlight(flight) => flight,
        _ => panic!("first participant did not become the flight driver"),
    };
    assert!(cell.can_take_establishment_result(second));
    assert!(matches!(cell.converge_h2_flight(second), H2FlightDecision::JoinedFlight));
    let generation = cell.complete_h2_flight(flight, 1, 1, None).0.ok().expect("flight did not install");
    let first_activation = take_ready_h2(&mut cell, first).expect("first participant was not served");
    assert!(take_ready_h2(&mut cell, second).is_none(), "second participant was served before its activation turn");
    assert!(cell.can_take_establishment_result(second));

    let (mut transition, _, _) = cell.close_h2(generation).expect("accepting generation did not close");
    assert_eq!(vec![second.0], transition.pending_waiters.take_all());
    assert!(cell.can_take_establishment_result(second));
    cell.complete_establishment(second, AcquisitionOutcome::RetryAcquisition);
    assert!(matches!(cell.take_ready_result(second), Some(AcquisitionOutcome::RetryAcquisition)));
    drop_activation(&mut cell, first_activation);
}

#[test]
fn a_waiter_still_waiting_for_capacity_cannot_take_an_establishment_result() {
    let mut cell = OriginCell::<u32, u32, String, u32>::new(
        PartitionId::from_index(1),
        OriginKey::from_parts(OriginScheme::Https, "example.com".to_string(), None),
        EligibilityGroup::Pool,
        true,
    );
    let (waiter, _) = cell.register_waiter(ProtocolRequirement::H2Required);
    assert!(!cell.can_take_establishment_result(waiter));
    assert!(!cell.can_take_establishment_result(WaiterId(waiter.0 + 1)));
}
