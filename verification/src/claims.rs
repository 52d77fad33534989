//! Source-cell endpoint for bounded-origin HTTP/1 claims.
//!
//! Admission owns claim scheduling and target identity. A source cell owns the
//! smaller question that must be serialized with sender return: whether one
//! claim is waiting to intercept a return, already owns a provisional sender,
//! or has completed. The fairness bit is independent of claim residence
//! because an HTTP/2-only local head cannot consume an HTTP/1 turn yet.

use crate::ids::ClaimId;
use vstd::prelude::*;

verus! {

/// Authoritative source-cell residence of a nonterminal claim.
#[derive(Clone, Copy, Debug, PartialEq, Eq, Structural)]
pub enum SourceClaimState {
    /// No claim may intercept a sender return.
    Available,
    /// The next reusable sender return is reserved for this claim.
    Installed(ClaimId),
    /// A provisional sender is outside the source lock for this claim.
    Resolving(ClaimId),
}

/// One source cell's claim endpoint and cross-cell fairness debt.
#[derive(Debug)]
pub struct SourceClaimSlot {
    /// Residence of the source endpoint for its current claim.
    pub state: SourceClaimState,
    /// Whether the next usable local HTTP/1 turn belongs to this source.
    pub local_turn_owed: bool,
}

/// Whether a claim state names `claim`, installed or resolving.
pub open spec fn claim_state_names(state: SourceClaimState, claim: ClaimId) -> bool {
    match state {
        SourceClaimState::Installed(current) => current == claim,
        SourceClaimState::Resolving(current) => current == claim,
        SourceClaimState::Available => false,
    }
}

impl SourceClaimSlot {
    /// The slot after installing `claim`, waiting for a return or already
    /// resolving; an occupied slot is unchanged.
    pub open spec fn after_install(self, claim: ClaimId, resolving: bool) -> SourceClaimSlot {
        SourceClaimSlot {
            state: if self.state == SourceClaimState::Available {
                if resolving {
                    SourceClaimState::Resolving(claim)
                } else {
                    SourceClaimState::Installed(claim)
                }
            } else {
                self.state
            },
            local_turn_owed: self.local_turn_owed,
        }
    }

    /// The slot after a reusable return reaches an installed claim.
    pub open spec fn after_intercept(self) -> SourceClaimSlot {
        SourceClaimSlot {
            state: match self.state {
                SourceClaimState::Installed(current) => SourceClaimState::Resolving(current),
                other => other,
            },
            local_turn_owed: self.local_turn_owed,
        }
    }

    /// The slot after rejecting `claim`: cleared when it names the claim,
    /// with the fairness debt untouched.
    pub open spec fn after_reject(self, claim: ClaimId) -> SourceClaimSlot {
        SourceClaimSlot {
            state: if claim_state_names(self.state, claim) {
                SourceClaimState::Available
            } else {
                self.state
            },
            local_turn_owed: self.local_turn_owed,
        }
    }

    /// The slot after the resolving `claim` completes its transfer: cleared,
    /// and owing a local turn when local HTTP/1 demand could use one.
    pub open spec fn after_complete(self, claim: ClaimId, local_h1_demand: bool) -> SourceClaimSlot {
        if self.state == SourceClaimState::Resolving(claim) {
            SourceClaimSlot {
                state: SourceClaimState::Available,
                local_turn_owed: self.local_turn_owed || local_h1_demand,
            }
        } else {
            self
        }
    }
}

/// Only a completed transfer earns the source a local turn, and each claim
/// settles once: from an available slot, a claim installed (waiting or
/// resolving) and then rejected leaves the slot available with its debt
/// unchanged; a claim that resolves and completes leaves the slot available
/// and owes a turn exactly when local HTTP/1 demand could use it; a second
/// rejection or completion of the settled claim changes nothing.
pub proof fn lemma_only_completion_earns_a_turn(
    slot: SourceClaimSlot,
    claim: ClaimId,
    resolving: bool,
    local_h1_demand: bool,
)
    requires
        slot.state == SourceClaimState::Available,
    ensures
        slot.after_install(claim, resolving).after_reject(claim) == slot,
        ({
            let resolved = if resolving {
                slot.after_install(claim, true)
            } else {
                slot.after_install(claim, false).after_intercept()
            };
            let completed = resolved.after_complete(claim, local_h1_demand);
            &&& completed == (SourceClaimSlot {
                state: SourceClaimState::Available,
                local_turn_owed: slot.local_turn_owed || local_h1_demand,
            })
            &&& completed.after_complete(claim, local_h1_demand) == completed
            &&& completed.after_reject(claim) == completed
        }),
{
}

impl Default for SourceClaimSlot {
    fn default() -> (slot: Self)
        ensures
            slot.state == SourceClaimState::Available,
            !slot.local_turn_owed,
    {
        SourceClaimSlot { state: SourceClaimState::Available, local_turn_owed: false }
    }
}

impl SourceClaimSlot {
    /// Installs a claim that will intercept a future reusable return.
    pub fn install(&mut self, claim: ClaimId) -> (installed: bool)
        ensures
            installed == (old(self).state == SourceClaimState::Available),
            *final(self) == old(self).after_install(claim, false),
    {
        if !matches!(self.state, SourceClaimState::Available) {
            return false;
        }
        self.state = SourceClaimState::Installed(claim);
        true
    }

    /// Installs a claim that has already extracted an idle sender.
    pub fn install_resolving(&mut self, claim: ClaimId) -> (installed: bool)
        ensures
            installed == (old(self).state == SourceClaimState::Available),
            *final(self) == old(self).after_install(claim, true),
    {
        if !matches!(self.state, SourceClaimState::Available) {
            return false;
        }
        self.state = SourceClaimState::Resolving(claim);
        true
    }

    /// Reserves the next reusable return for an installed claim.
    pub fn intercept_return(&mut self) -> (claim: Option<ClaimId>)
        ensures
            claim == match old(self).state {
                SourceClaimState::Installed(current) => Some(current),
                _ => None,
            },
            *final(self) == old(self).after_intercept(),
    {
        let claim = match self.state {
            SourceClaimState::Installed(claim) => claim,
            _ => return None,
        };
        self.state = SourceClaimState::Resolving(claim);
        Some(claim)
    }

    /// Clears a matching claim without earning a local fairness turn.
    pub fn reject(&mut self, claim: ClaimId) -> (rejected: bool)
        ensures
            rejected == claim_state_names(old(self).state, claim),
            *final(self) == old(self).after_reject(claim),
    {
        if !self.names(claim) {
            return false;
        }
        self.state = SourceClaimState::Available;
        true
    }

    /// Completes an irreversible transfer and records any usable local turn.
    pub fn complete_transfer(&mut self, claim: ClaimId, local_h1_demand: bool) -> (completed: bool)
        ensures
            completed == (old(self).state == SourceClaimState::Resolving(claim)),
            *final(self) == old(self).after_complete(claim, local_h1_demand),
    {
        let resolving = match self.state {
            SourceClaimState::Resolving(current) => current == claim,
            _ => false,
        };
        if !resolving {
            return false;
        }
        self.state = SourceClaimState::Available;
        self.local_turn_owed = self.local_turn_owed || local_h1_demand;
        true
    }

    /// Returns whether a usable local turn currently excludes a peer claim.
    pub fn blocks_peer_claim(&self, local_h1_demand: bool) -> (blocks: bool)
        ensures
            blocks == (self.local_turn_owed && local_h1_demand),
    {
        self.local_turn_owed && local_h1_demand
    }

    /// Consumes an owed turn when local HTTP/1 service wins.
    pub fn consume_local_turn(&mut self) -> (consumed: bool)
        ensures
            consumed == old(self).local_turn_owed,
            !final(self).local_turn_owed,
            final(self).state == old(self).state,
    {
        if !self.local_turn_owed {
            return false;
        }
        self.local_turn_owed = false;
        true
    }

    /// Clears debt that can no longer be consumed by local demand.
    pub fn clear_unused_turn(&mut self, local_h1_demand: bool) -> (cleared: bool)
        ensures
            cleared == (old(self).local_turn_owed && !local_h1_demand),
            final(self).local_turn_owed == (old(self).local_turn_owed && local_h1_demand),
            final(self).state == old(self).state,
    {
        if !self.local_turn_owed || local_h1_demand {
            return false;
        }
        self.local_turn_owed = false;
        true
    }

    /// Returns whether another source claim may be installed.
    pub fn is_available(&self) -> (available: bool)
        ensures
            available == (self.state == SourceClaimState::Available),
    {
        matches!(self.state, SourceClaimState::Available)
    }

    /// Returns whether this slot still names `claim`.
    pub fn names(&self, claim: ClaimId) -> (named: bool)
        ensures
            named == claim_state_names(self.state, claim),
    {
        match self.state {
            SourceClaimState::Installed(current) => current == claim,
            SourceClaimState::Resolving(current) => current == claim,
            SourceClaimState::Available => false,
        }
    }

    /// Whether the slot's state is consistent with its source's records: an
    /// installed claim needs an externally owned source record to settle it.
    pub fn is_consistent(&self, source_supports_installed_claim: bool) -> (consistent: bool)
        ensures
            consistent == (self.state is Installed ==> source_supports_installed_claim),
    {
        match self.state {
            SourceClaimState::Installed(_) => source_supports_installed_claim,
            _ => true,
        }
    }

    /// Returns whether the next usable local turn belongs to this source.
    pub fn local_turn_owed(&self) -> (owed: bool)
        ensures
            owed == self.local_turn_owed,
    {
        self.local_turn_owed
    }
}

} // verus!
