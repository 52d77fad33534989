use smithy_pool::h1::{H1CellState, H1Reservation};
use smithy_pool::ids::H1MatchId;

#[test]
fn peer_reservation_distinguishes_waiting_resolution_and_completion() {
    let match_id = H1MatchId::new(1);
    let mut slot = H1Reservation::default();

    assert!(slot.reserve_waiting(match_id));
    assert!(!slot.reserve_waiting(H1MatchId::new(2)));
    assert_eq!(Some(match_id), slot.take_return_match());
    assert!(slot.complete_transfer(match_id, true));
    assert!(slot.local_turn_owed());
    assert!(slot.is_available());
}

#[test]
fn h1_rejection_does_not_manufacture_a_fairness_turn() {
    let match_id = H1MatchId::new(1);
    let mut slot = H1Reservation::default();

    assert!(slot.reserve_resolving(match_id));
    assert!(slot.release(match_id));
    assert!(!slot.local_turn_owed());
}

#[test]
fn h1_owed_turn_blocks_only_while_local_h1_demand_can_use_it() {
    let match_id = H1MatchId::new(1);
    let mut slot = H1Reservation::default();
    assert!(slot.reserve_resolving(match_id));
    assert!(slot.complete_transfer(match_id, true));

    assert!(slot.blocks_peer_selection(true));
    assert!(!slot.blocks_peer_selection(false));
    assert!(slot.clear_unused_turn(false));
    assert!(!slot.blocks_peer_selection(true));
}

#[test]
fn closing_a_selected_record_rejects_its_later_return() {
    let mut records: H1CellState<u32> = H1CellState::new();
    let owner = records
        .insert_selected(1, 11)
        .ok()
        .expect("fresh HTTP/1 record was rejected");

    assert!(records.accepts_return(&owner));
    assert!(records.begin_close(owner.id()).is_some());
    assert!(!records.accepts_return(&owner));

    drop(owner);
    records.remove_closed(1);
    assert_eq!((0, 0), records.counts());
}

#[test]
fn duplicate_connection_record_is_rejected() {
    let mut records: H1CellState<u32> = H1CellState::new();
    let first = records.insert_selected(5, 1).ok().expect("fresh record");
    assert!(records.insert_selected(5, 2).is_err());
    assert!(records.insert_idle(5, 3, None).is_err());
    assert_eq!(5, first.id());
}

#[test]
fn returned_sender_becomes_idle_and_selectable_again() {
    let mut records: H1CellState<u32> = H1CellState::new();
    let owner = records.insert_selected(9, 90).ok().expect("fresh record");
    assert!(records.return_idle(owner, Some(100)).is_ok());
    assert_eq!(Some(100), records.nearest_idle_deadline());
    assert!(records.expired_idle(99).is_empty());
    assert_eq!(vec![9], records.expired_idle(100));
    let selected = records.select_idle().expect("idle sender was not selected");
    assert_eq!(9, selected.id());
    assert!(records.select_idle().is_none());
}
