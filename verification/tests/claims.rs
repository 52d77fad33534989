use smithy_pool::claims::SourceClaimSlot;
use smithy_pool::ids::ClaimId;

#[test]
fn claim_slot_distinguishes_install_resolution_and_completion() {
    let claim = ClaimId::new(1);
    let mut slot = SourceClaimSlot::default();

    assert!(slot.install(claim));
    assert!(!slot.install(ClaimId::new(2)));
    assert_eq!(Some(claim), slot.intercept_return());
    assert!(slot.complete_transfer(claim, true));
    assert!(slot.local_turn_owed());
    assert!(slot.is_available());
}

#[test]
fn claims_rejection_does_not_manufacture_a_fairness_turn() {
    let claim = ClaimId::new(1);
    let mut slot = SourceClaimSlot::default();

    assert!(slot.install_resolving(claim));
    assert!(slot.reject(claim));
    assert!(!slot.local_turn_owed());
}

#[test]
fn claims_owed_turn_blocks_only_while_local_h1_demand_can_use_it() {
    let claim = ClaimId::new(1);
    let mut slot = SourceClaimSlot::default();
    assert!(slot.install_resolving(claim));
    assert!(slot.complete_transfer(claim, true));

    assert!(slot.blocks_peer_claim(true));
    assert!(!slot.blocks_peer_claim(false));
    assert!(slot.clear_unused_turn(false));
    assert!(!slot.blocks_peer_claim(true));
}

#[test]
fn claim_for_another_identity_is_neither_rejected_nor_completed() {
    let mut slot = SourceClaimSlot::default();
    assert!(slot.install(ClaimId::new(7)));
    assert!(!slot.reject(ClaimId::new(8)));
    assert!(!slot.complete_transfer(ClaimId::new(8), true));
    assert!(slot.names(ClaimId::new(7)));
    assert!(!slot.names(ClaimId::new(8)));
    assert!(!slot.is_available());
}

#[test]
fn consumed_turn_no_longer_blocks_peers() {
    let claim = ClaimId::new(3);
    let mut slot = SourceClaimSlot::default();
    assert!(slot.install(claim));
    assert_eq!(Some(claim), slot.intercept_return());
    assert!(slot.complete_transfer(claim, true));
    assert!(slot.consume_local_turn());
    assert!(!slot.consume_local_turn());
    assert!(!slot.blocks_peer_claim(true));
}

#[test]
fn completion_without_local_demand_owes_no_turn() {
    let claim = ClaimId::new(4);
    let mut slot = SourceClaimSlot::default();
    assert!(slot.install_resolving(claim));
    assert!(slot.complete_transfer(claim, false));
    assert!(!slot.local_turn_owed());
    assert!(slot.is_available());
}
