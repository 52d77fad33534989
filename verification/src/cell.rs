//! State local to one partition and origin.
//!
//! A [`CellState`] couples the cell's acquisition queue to its HTTP/1 sender
//! records, its HTTP/2 flight, generations and peer route, the cross-cell
//! reuse reservation, and the supply reports it publishes to origin admission.
//! A local HTTP/1 return either satisfies one acquisition or becomes idle,
//! never both. Every report carries a strictly increasing revision.
//!
//! An [`OriginCell`] runs each transition under one lock and hands back what
//! must happen after the lock is released: demand and supply publications,
//! task wakes, and values whose drop may re-enter the pool.

use crate::admission::{
    snapshot_accepts_h2, CapacityLease, DemandSnapshot, EligibilityGroup, H1ReservationDecision,
    H1SupplyStatus, H2SupplyStatus, PartitionId, ProtocolRequirement, SupplyRevision,
};
use crate::h1::{
    close_begun, closed_removed, idle_inserted, idle_selected, is_external, owned_closed, selected_inserted,
    H1CellState, H1CloseTransition, H1ReservationState, H1SenderResidence, OwnedH1Sender,
};
use crate::h2::{
    attached_route, closes_generation, flight_is_current, gate_next_turn, gate_reserved, gate_cutoff, peer_activation,
    releases_record, H2ActivationGate, H2ActivationTurn, H2CloseTransition, H2FlightDecision, H2Generation,
    H2GenerationView, H2Route, H2RouteId, PreparedPeerActivation, gate_releases, gate_released, PeerH2Route,
    flight_participant_cancelled, generation_is_idle, peer_activation_cancelled, peer_routable, pending_cancelled, H2ActivationResources, H2CellState,
};
use crate::h2_request::H2ActivationTurnGuard;
use crate::ids::{H1MatchId, H2FlightId, H2GenerationId};
use crate::origin::OriginKey;
use crate::waiters::{
    borrowed_h1_installed, capacity_installed, delivery_reserved, establishment_installed, ready_result_taken,
    waiter_polled, waiter_registered, AcquisitionEvent, CellSnapshot, DeliveryReservation, EstablishmentPhase,
    ResultInstall, WaiterPhase, accepts_establishment_result, keeps_settled, lemma_cancel_keeps_settled,
    lemma_returned_h1_keeps_settled, lemma_settled_accepts, holds_result, lemma_returned_sender_is_never_lost, h2_installed, H2WaiterInstall, registration_snapshot, returned_h1_installed, waiter_cancelled, AcquisitionQueue, H1Install, QueueView, WaiterCancellation, WaiterId,
};
use vstd::prelude::*;

verus! {

/// Prospective HTTP/2 request granted to one acquisition.
pub struct H2Grant<S> {
    /// Exact generation that holds the prospective request.
    pub generation: H2GenerationId,
    /// Partition of the connection-owning cell.
    pub connection_partition: PartitionId,
    /// Sender clone, connection and reuse flag of the generation.
    pub resources: H2ActivationResources<S>,
    /// Priority turn released when the request is accepted or cancelled.
    pub turn: Option<H2ActivationTurnGuard>,
}

/// A terminal result that may satisfy an acquisition waiter.
pub enum AcquisitionOutcome<S1, S2, E> {
    /// An exclusive HTTP/1 sender of an installed cell-owned record.
    H1(OwnedH1Sender<S1>),
    /// A prospective request on one HTTP/2 generation.
    H2(H2Grant<S2>),
    /// Establishment failed before producing a dispatchable connection.
    Failed(E),
    /// An HTTP/2 generation closed before serving a transferred attempt.
    RetryAcquisition,
}

/// The terminal result type of a cell's acquisitions.
pub type CellOutcome<S1, S2, E> = AcquisitionOutcome<S1, S2, E>;

/// The acquisition queue of a cell.
pub type CellQueue<S1, S2, E, W> = AcquisitionQueue<AcquisitionOutcome<S1, S2, E>, W>;

/// The abstract acquisition queue of a cell.
pub type CellQueueView<S1, S2, E, W> = QueueView<AcquisitionOutcome<S1, S2, E>, W>;

/// How a cell disposed of one returned HTTP/1 sender.
pub enum H1ReturnDecision<S1, S2, E, W> {
    /// The record no longer takes the sender back; the caller closes it and
    /// reports any peer match the return could not serve.
    Retire {
        owner: OwnedH1Sender<S1>,
        rejected_match: Option<(H1MatchId, SupplyRevision<H1SupplyStatus>)>,
    },
    /// A waiting peer reservation intercepted the sender.
    Intercepted { match_id: H1MatchId, owner: OwnedH1Sender<S1> },
    /// The oldest compatible local attempt received the sender.
    Installed { waiter: WaiterId, install: H1Install<AcquisitionOutcome<S1, S2, E>, W> },
    /// The sender became idle.
    Idle,
}

/// Values detached by cancelling one waiter.
pub struct CellCancellation<S1, S2, E, W> {
    /// The queue's cancellation, or `None` when the waiter was unknown or
    /// already cancelled during a delivery.
    pub cancelled: Option<WaiterCancellation<AcquisitionOutcome<S1, S2, E>>>,
    /// A local idle sender that the cancellation let a successor take.
    pub local_install: Option<(WaiterId, H1Install<AcquisitionOutcome<S1, S2, E>, W>)>,
}

/// Mutable state of one partition-origin cell.
pub struct CellState<S1, S2, E, W> {
    /// Cell-local acquisition order and delivered results.
    pub acquisitions: CellQueue<S1, S2, E, W>,
    /// HTTP/1 records, reusable sender order and the peer reservation.
    pub h1: H1CellState<S1>,
    /// HTTP/2 flight, generations and peer route.
    pub h2: H2CellState<S2>,
    /// Last HTTP/1 report and its revision.
    pub h1_supply_revision: SupplyRevision<H1SupplyStatus>,
    /// Last HTTP/2 report and its revision.
    pub h2_supply_revision: SupplyRevision<H2SupplyStatus>,
}

/// The report after bringing `last` up to `status`, advancing the revision
/// only when the status changed; an HTTP/1 report also advances from revision
/// zero.
pub open spec fn refreshed<T>(last: SupplyRevision<T>, status: T, from_zero: bool) -> SupplyRevision<T> {
    if (!from_zero || last.revision != 0) && last.status == status {
        last
    } else {
        SupplyRevision { revision: (last.revision + 1) as u64, status }
    }
}

/// The report to publish after bringing `last` up to `status`, if the
/// receiver's view must change.
pub open spec fn update_of<T>(last: SupplyRevision<T>, status: T, from_zero: bool) -> Option<SupplyRevision<T>> {
    if (!from_zero || last.revision != 0) && last.status == status {
        None
    } else {
        Some(SupplyRevision { revision: (last.revision + 1) as u64, status })
    }
}

/// A supply report is published only when admission's view must change:
/// bringing a revision up to a status and reporting that same status again
/// publishes nothing and keeps the revision, and every publication is the new
/// revision, one past the last.
pub proof fn lemma_unchanged_status_is_reported_once<T>(last: SupplyRevision<T>, status: T, from_zero: bool)
    requires
        last.revision < u64::MAX,
    ensures
        update_of(refreshed(last, status, from_zero), status, from_zero) is None,
        refreshed(refreshed(last, status, from_zero), status, from_zero) == refreshed(last, status, from_zero),
        match update_of(last, status, from_zero) {
            Some(report) => report == refreshed(last, status, from_zero) && report.revision == last.revision + 1,
            None => refreshed(last, status, from_zero) == last,
        },
{
}

/// A demand publication is withheld while visible HTTP/2 already serves it.
pub open spec fn publishable(snapshot: Option<DemandSnapshot>, h2_visible: bool) -> Option<DemandSnapshot> {
    match snapshot {
        Some(s) => if h2_visible && snapshot_accepts_h2(s) {
            None
        } else {
            Some(s)
        },
        None => None,
    }
}

/// A demand snapshot is withheld only when visible HTTP/2 can serve it: a
/// live snapshot whose head needs HTTP/1 and a retired snapshot are always
/// published, whatever HTTP/2 visibility; a live HTTP/2-compatible snapshot
/// is withheld exactly while HTTP/2 is visible.
pub proof fn lemma_only_h2_servable_demand_is_withheld(snapshot: Option<DemandSnapshot>, h2_visible: bool)
    ensures
        snapshot is None ==> publishable(snapshot, h2_visible) is None,
        snapshot matches Some(s) ==> match s {
            DemandSnapshot::Active { requirement, .. } => if requirement == ProtocolRequirement::H1Required {
                publishable(snapshot, h2_visible) == snapshot
            } else {
                publishable(snapshot, h2_visible) == (if h2_visible { None } else { snapshot })
            },
            DemandSnapshot::Inactive { .. } => publishable(snapshot, h2_visible) == snapshot,
        },
        !h2_visible ==> publishable(snapshot, h2_visible) == snapshot,
{
}

/// Whether `new` is `old` after disposing of the returned sender `owner` as `decision` says.
pub open spec fn return_decided<S1, S2, E, W>(old: CellState<S1, S2, E, W>, new: CellState<S1, S2, E, W>, owner: OwnedH1Sender<S1>, idle_deadline: Option<u64>, group: EligibilityGroup, decision: H1ReturnDecision<S1, S2, E, W>) -> bool {
    &&& (new.h2_supply_revision == old.h2_supply_revision)
    &&& (!old.takes_back(owner) ==> {
        &&& new.acquisitions@ == old.acquisitions@
        &&& new.h2@ == old.h2@
        &&& new.h1.records() == old.h1.records()
        &&& new.h1.idle_order() == old.h1.idle_order()
        &&& new.h1.reservation().local_turn_owed == old.h1.reservation().local_turn_owed
        &&& match old.h1.reservation().state {
            H1ReservationState::Installed(match_id) => {
                &&& new.h1.reservation().state == H1ReservationState::Available
                &&& decision matches H1ReturnDecision::Retire { owner: retired, rejected_match: Some((m, report)) }
                    && retired == owner && m == match_id
                    && report == refreshed(old.h1_supply_revision, new.spec_h1_supply_status(), true)
                    && new.h1_supply_revision == report
            },
            _ => {
                &&& new.h1.reservation() == old.h1.reservation()
                &&& new.h1_supply_revision == old.h1_supply_revision
                &&& decision matches H1ReturnDecision::Retire { owner: retired, rejected_match: None } && retired == owner
            },
        }
    })
    &&& (old.takes_back(owner) && old.h1.reservation().state is Installed ==> {
        &&& new.acquisitions@ == old.acquisitions@
        &&& new.h2@ == old.h2@
        &&& new.h1_supply_revision == old.h1_supply_revision
        &&& new.h1.records() == old.h1.records().insert(owner.connection, H1SenderResidence::ReservedForPeer)
        &&& new.h1.idle_order() == old.h1.idle_order()
        &&& new.h1.reservation().state
            == H1ReservationState::Resolving(old.h1.reservation().state->Installed_0)
        &&& new.h1.reservation().local_turn_owed == old.h1.reservation().local_turn_owed
        &&& decision matches H1ReturnDecision::Intercepted { match_id, owner: intercepted }
            && match_id == old.h1.reservation().state->Installed_0 && intercepted == owner
    })
    &&& (old.takes_back(owner) && !(old.h1.reservation().state is Installed) && old.local_h1_demand() ==> {
        let waiter = old.acquisitions@.oldest_h1();
        let reused = OwnedH1Sender { reused: true, ..owner };
        &&& decision matches H1ReturnDecision::Installed { waiter: w, install }
            && w == WaiterId(waiter)
            && returned_h1_installed(
                old.acquisitions@,
                new.acquisitions@,
                AcquisitionOutcome::H1(reused),
                group,
                install,
            )
        &&& new.h1.records() == old.h1.records().insert(owner.connection, H1SenderResidence::Selected)
        &&& new.h1.idle_order() == old.h1.idle_order()
        &&& new.h1.reservation().state == old.h1.reservation().state
        &&& !new.h1.reservation().local_turn_owed
        &&& new.h2@ == pending_cancelled(old.h2@, WaiterId(waiter))
        &&& new.h1_supply_revision == old.h1_supply_revision
    })
    &&& (old.takes_back(owner) && !(old.h1.reservation().state is Installed) && !old.local_h1_demand() ==> {
        &&& decision is Idle
        &&& new.acquisitions@ == old.acquisitions@
        &&& new.h2@ == old.h2@
        &&& new.h1_supply_revision == old.h1_supply_revision
        &&& new.h1.records() == old.h1.records().insert(
            owner.connection,
            H1SenderResidence::Idle { sender: owner.sender, deadline: idle_deadline },
        )
        &&& new.h1.idle_order() == old.h1.idle_order().push(owner.connection)
        &&& new.h1.reservation() == old.h1.reservation()
    })
}

/// A returned HTTP/1 sender satisfies one acquisition or becomes idle, never
/// both: a sender that a local attempt takes is marked selected, stays out of
/// the idle order, and is held by the oldest compatible attempt; a sender
/// that becomes idle found no compatible attempt, leaves every attempt as it
/// was, and is the newest idle sender.
pub proof fn lemma_return_serves_or_idles<S1, S2, E, W>(
    old: CellState<S1, S2, E, W>,
    new: CellState<S1, S2, E, W>,
    owner: OwnedH1Sender<S1>,
    idle_deadline: Option<u64>,
    group: EligibilityGroup,
    decision: H1ReturnDecision<S1, S2, E, W>,
)
    requires
        return_decided(old, new, owner, idle_deadline, group, decision),
    ensures
        decision is Installed ==> {
            let served = old.acquisitions@.oldest_h1();
            &&& new.h1.records()[owner.connection] == H1SenderResidence::<S1>::Selected
            &&& new.h1.idle_order() == old.h1.idle_order()
            &&& new.acquisitions@.waiters.contains_key(served)
            &&& holds_result(
                new.acquisitions@.waiters[served].phase,
                AcquisitionOutcome::H1(OwnedH1Sender { reused: true, ..owner }),
            )
        },
        decision is Idle ==> {
            &&& !old.acquisitions@.has_h1_eligible()
            &&& new.acquisitions@ == old.acquisitions@
            &&& new.h1.idle_order() == old.h1.idle_order().push(owner.connection)
        },
{
    if decision is Installed {
        lemma_returned_sender_is_never_lost(
            old.acquisitions@,
            new.acquisitions@,
            AcquisitionOutcome::H1(OwnedH1Sender { reused: true, ..owner }),
            group,
            decision->install,
        );
    }
}

/// Whether `new` is `old` after deciding a peer reservation for `match_id` as `decision`.
pub open spec fn reuse_decided<S1, S2, E, W>(old: CellState<S1, S2, E, W>, new: CellState<S1, S2, E, W>, match_id: H1MatchId, decision: H1ReservationDecision<OwnedH1Sender<S1>>) -> bool {
    &&& (new.acquisitions@ == old.acquisitions@)
    &&& (new.h2@ == old.h2@)
    &&& (new.h2_supply_revision == old.h2_supply_revision)
    &&& (old.refuses_peer_reuse() || (old.h1.idle_order().len() == 0 && !old.h1.spec_has_returnable()) ==> {
        &&& decision matches H1ReservationDecision::Rejected(report)
            && report == refreshed(old.h1_supply_revision, old.spec_h1_supply_status(), true)
            && new.h1_supply_revision == report
        &&& new.h1.records() == old.h1.records()
        &&& new.h1.idle_order() == old.h1.idle_order()
        &&& new.h1.reservation() == old.h1.reservation()
    })
    &&& (!old.refuses_peer_reuse() && old.h1.idle_order().len() > 0 ==> {
        let id = old.h1.idle_order().last();
        &&& decision matches H1ReservationDecision::Candidate(owner) && {
            &&& owner.connection == id
            &&& old.h1.records()[id] == (crate::h1::H1SenderResidence::Idle {
                sender: owner.sender,
                deadline: old.h1.records()[id]->deadline,
            })
            &&& owner.reused
        }
        &&& new.h1.records() == old.h1.records().insert(id, crate::h1::H1SenderResidence::ReservedForPeer)
        &&& new.h1.idle_order() == old.h1.idle_order().drop_last()
        &&& new.h1.reservation().state == H1ReservationState::Resolving(match_id)
        &&& new.h1.reservation().local_turn_owed == old.h1.reservation().local_turn_owed
        &&& new.h1_supply_revision == old.h1_supply_revision
    })
    &&& (!old.refuses_peer_reuse() && old.h1.idle_order().len() == 0 && old.h1.spec_has_returnable() ==> {
        &&& decision is Installed
        &&& new.h1.records() == old.h1.records()
        &&& new.h1.idle_order() == old.h1.idle_order()
        &&& new.h1.reservation().state == H1ReservationState::Installed(match_id)
        &&& new.h1.reservation().local_turn_owed == old.h1.reservation().local_turn_owed
        &&& new.h1_supply_revision == old.h1_supply_revision
    })
}

/// A local turn owed to waiting HTTP/1 demand blocks peers: while the
/// reservation owes the cell a local turn and some live attempt may take a
/// returned HTTP/1 sender, a peer's reservation is rejected with the cell's
/// current availability, which reports peer use as blocked, and the records,
/// the idle order and the reservation stay as they were.
pub proof fn lemma_owed_local_turn_blocks_peers<S1, S2, E, W>(
    old: CellState<S1, S2, E, W>,
    new: CellState<S1, S2, E, W>,
    match_id: H1MatchId,
    decision: H1ReservationDecision<OwnedH1Sender<S1>>,
)
    requires
        reuse_decided(old, new, match_id, decision),
        old.h1.reservation().local_turn_owed,
        old.acquisitions@.has_h1_eligible(),
    ensures
        decision matches H1ReservationDecision::Rejected(report) && report.status.peer_use_blocked,
        new.h1.records() == old.h1.records(),
        new.h1.idle_order() == old.h1.idle_order(),
        new.h1.reservation() == old.h1.reservation(),
        new.acquisitions@ == old.acquisitions@,
{
}

/// The HTTP/2 report names a generation only when peers may route to it:
/// the accepting generation with its activation gate open for it. It calls
/// that generation idle only when it holds no accepted request, no
/// prospective request and no transferred waiter; while that activation gate is closed
/// or prioritizing committed waiters the report is unavailable.
pub proof fn lemma_h2_supply_reflects_work<S1, S2, E, W>(state: CellState<S1, S2, E, W>)
    ensures
        state.spec_h2_supply_status() matches H2SupplyStatus::Accepting { generation, idle } ==> {
            &&& state.h2@.accepting == Some(generation)
            &&& state.h2@.local_gate == (crate::h2::H2ActivationGate::Open { generation })
            &&& idle ==> {
                &&& state.h2@.generations[generation.0].active_requests == 0
                &&& state.h2@.generations[generation.0].prospective_requests == 0
                &&& state.h2@.generations[generation.0].pending_waiters.is_empty()
            }
        },
        !(state.h2@.local_gate is Open) ==> state.spec_h2_supply_status() is Unavailable,
{
    crate::h2::lemma_routable_only_through_an_open_gate(state.h2@);
    if let Some(generation) = peer_routable(state.h2@) {
        crate::h2::lemma_idle_generation_carries_no_work(state.h2@, generation);
    }
}

impl<S1, S2, E, W> CellState<S1, S2, E, W> {
    /// The queue, HTTP/1 records and HTTP/2 state are each well formed.
    pub open spec fn wf(&self) -> bool {
        &&& self.acquisitions.wf()
        &&& self.h1.wf()
        &&& self.h2.wf()
    }

    /// Whether some live attempt could take a returned HTTP/1 sender.
    pub open spec fn local_h1_demand(&self) -> bool {
        self.acquisitions@.has_h1_eligible()
    }

    /// Complete HTTP/1 availability derived from cell state.
    pub open spec fn spec_h1_supply_status(&self) -> H1SupplyStatus {
        H1SupplyStatus {
            has_returnable_connection: self.h1.spec_has_returnable(),
            peer_use_blocked: self.h1.reservation().state != H1ReservationState::Available
                || (self.h1.reservation().local_turn_owed && self.local_h1_demand())
                || self.acquisitions@.has_prior_h1_candidate(),
        }
    }

    /// The generation admission may route to or reclaim.
    pub open spec fn spec_h2_supply_status(&self) -> H2SupplyStatus {
        match peer_routable(self.h2@) {
            Some(generation) => H2SupplyStatus::Accepting {
                generation,
                idle: generation_is_idle(self.h2@, generation),
            },
            None => H2SupplyStatus::Unavailable,
        }
    }

    /// Whether `new` differs from `self` at most in its HTTP/1 report.
    pub open spec fn same_but_h1_report(&self, new: &Self) -> bool {
        &&& new.acquisitions == self.acquisitions
        &&& new.h1 == self.h1
        &&& new.h2 == self.h2
        &&& new.h2_supply_revision == self.h2_supply_revision
    }

    /// Whether `new` differs from `self` at most in its HTTP/2 report.
    pub open spec fn same_but_h2_report(&self, new: &Self) -> bool {
        &&& new.acquisitions == self.acquisitions
        &&& new.h1 == self.h1
        &&& new.h2 == self.h2
        &&& new.h1_supply_revision == self.h1_supply_revision
    }

    /// Whether the state is that of a cell without waiters or connections:
    /// every record empty, no demand, no reservation or owed turn, the
    /// activation gate closed, and every counter and revision at zero.
    pub open spec fn is_fresh(&self) -> bool {
        &&& self.acquisitions@.waiters == Map::<u64, crate::waiters::WaiterView<AcquisitionOutcome<S1, S2, E>, W>>::empty()
        &&& self.acquisitions@.fifo == Seq::<u64>::empty()
        &&& self.acquisitions@.demand is None
        &&& self.acquisitions@.next_waiter == 0
        &&& self.acquisitions@.next_demand_id == 0
        &&& self.h1.records() == Map::<u64, crate::h1::H1SenderResidence<S1>>::empty()
        &&& self.h1.idle_order() == Seq::<u64>::empty()
        &&& self.h1.reservation().state == crate::h1::H1ReservationState::Available
        &&& !self.h1.reservation().local_turn_owed
        &&& self.h2@.flight is None
        &&& self.h2@.generations == Map::<u64, crate::h2::H2GenerationView<S2>>::empty()
        &&& self.h2@.accepting is None
        &&& self.h2@.peer_route is None
        &&& self.h2@.local_gate == crate::h2::H2ActivationGate::Closed
        &&& self.h2@.next_flight == 0
        &&& self.h2@.next_generation == 0
        &&& self.h1_supply_revision == (SupplyRevision {
            revision: 0,
            status: H1SupplyStatus { has_returnable_connection: false, peer_use_blocked: false },
        })
        &&& self.h2_supply_revision == (SupplyRevision { revision: 0, status: H2SupplyStatus::Unavailable })
    }

    /// Creates the state of a cell without waiters or connections.
    pub fn new() -> (state: Self)
        ensures
            state.wf(),
            state.is_fresh(),
    {
        CellState {
            acquisitions: AcquisitionQueue::new(),
            h1: H1CellState::new(),
            h2: H2CellState::new(),
            h1_supply_revision: SupplyRevision::new(
                0,
                H1SupplyStatus { has_returnable_connection: false, peer_use_blocked: false },
            ),
            h2_supply_revision: SupplyRevision::new(0, H2SupplyStatus::Unavailable),
        }
    }

    /// Derives the complete HTTP/1 status admission needs.
    pub fn h1_supply_status(&self) -> (status: H1SupplyStatus)
        requires
            self.wf(),
        ensures
            status == self.spec_h1_supply_status(),
    {
        let local_h1_demand = self.acquisitions.can_accept_h1();
        H1SupplyStatus {
            has_returnable_connection: self.h1.has_returnable(),
            peer_use_blocked: !self.h1.peer_reservation_available() || self.h1.blocks_peer_selection(local_h1_demand)
                || self.acquisitions.has_prior_h1_candidate(),
        }
    }

    /// Returns a new HTTP/1 report only when admission's view must change.
    ///
    /// The first report advances to revision one even when it reports the
    /// initial status, because it also drives retained HTTP/1 matching.
    pub fn take_h1_supply_update(&mut self) -> (update: Option<SupplyRevision<H1SupplyStatus>>)
        requires
            old(self).wf(),
            old(self).h1_supply_revision.revision < u64::MAX,
        ensures
            final(self).wf(),
            old(self).same_but_h1_report(&*final(self)),
            update == update_of(old(self).h1_supply_revision, old(self).spec_h1_supply_status(), true),
            final(self).h1_supply_revision == refreshed(old(self).h1_supply_revision, old(self).spec_h1_supply_status(), true),
    {
        let current = self.h1_supply_status();
        if self.h1_supply_revision.revision != 0 && self.h1_supply_revision.status == current {
            return None;
        }
        Some(self.advance_h1_supply_revision(current))
    }

    /// Returns the current HTTP/1 report, advancing it if the status changed.
    pub fn current_h1_supply_revision(&mut self) -> (report: SupplyRevision<H1SupplyStatus>)
        requires
            old(self).wf(),
            old(self).h1_supply_revision.revision < u64::MAX,
        ensures
            final(self).wf(),
            old(self).same_but_h1_report(&*final(self)),
            report == refreshed(old(self).h1_supply_revision, old(self).spec_h1_supply_status(), true),
            final(self).h1_supply_revision == report,
    {
        let current = self.h1_supply_status();
        if self.h1_supply_revision.revision != 0 && self.h1_supply_revision.status == current {
            return self.h1_supply_revision;
        }
        self.advance_h1_supply_revision(current)
    }

    /// Records `status` under the next HTTP/1 revision.
    pub fn advance_h1_supply_revision(&mut self, status: H1SupplyStatus) -> (report: SupplyRevision<H1SupplyStatus>)
        requires
            old(self).h1_supply_revision.revision < u64::MAX,
        ensures
            report == (SupplyRevision { revision: (old(self).h1_supply_revision.revision + 1) as u64, status }),
            final(self).h1_supply_revision == report,
            final(self).acquisitions == old(self).acquisitions,
            final(self).h1 == old(self).h1,
            final(self).h2 == old(self).h2,
            final(self).h2_supply_revision == old(self).h2_supply_revision,
    {
        let revision = self.h1_supply_revision.revision + 1;
        self.h1_supply_revision = SupplyRevision::new(revision, status);
        self.h1_supply_revision
    }

    /// Derives the exact generation admission may route to or reclaim.
    pub fn h2_supply_status(&self) -> (status: H2SupplyStatus)
        requires
            self.wf(),
        ensures
            status == self.spec_h2_supply_status(),
            status matches H2SupplyStatus::Accepting { generation, idle } ==> {
                &&& self.h2@.accepting == Some(generation)
                &&& self.h2@.local_gate == (crate::h2::H2ActivationGate::Open { generation })
                &&& idle ==> {
                    &&& self.h2@.generations[generation.0].active_requests == 0
                    &&& self.h2@.generations[generation.0].prospective_requests == 0
                    &&& self.h2@.generations[generation.0].pending_waiters.is_empty()
                }
            },
            !(self.h2@.local_gate is Open) ==> status is Unavailable,
    {
        proof {
            lemma_h2_supply_reflects_work(*self);
        }
        match self.h2.peer_routable_generation() {
            Some(generation) => H2SupplyStatus::Accepting { generation, idle: self.h2.is_idle(generation) },
            None => H2SupplyStatus::Unavailable,
        }
    }

    /// Returns a new HTTP/2 report only when admission's view must change.
    ///
    /// Initial unavailability is not reported: absence already represents it.
    pub fn take_h2_supply_update(&mut self) -> (update: Option<SupplyRevision<H2SupplyStatus>>)
        requires
            old(self).wf(),
            old(self).h2_supply_revision.revision < u64::MAX,
        ensures
            final(self).wf(),
            old(self).same_but_h2_report(&*final(self)),
            update == update_of(old(self).h2_supply_revision, old(self).spec_h2_supply_status(), false),
            final(self).h2_supply_revision == refreshed(old(self).h2_supply_revision, old(self).spec_h2_supply_status(), false),
    {
        let current = self.h2_supply_status();
        if self.h2_supply_revision.status == current {
            return None;
        }
        Some(self.advance_h2_supply_revision(current))
    }

    /// Returns the current HTTP/2 report, advancing it if the status changed.
    pub fn current_h2_supply_revision(&mut self) -> (report: SupplyRevision<H2SupplyStatus>)
        requires
            old(self).wf(),
            old(self).h2_supply_revision.revision < u64::MAX,
        ensures
            final(self).wf(),
            old(self).same_but_h2_report(&*final(self)),
            report == refreshed(old(self).h2_supply_revision, old(self).spec_h2_supply_status(), false),
            final(self).h2_supply_revision == report,
    {
        let current = self.h2_supply_status();
        if self.h2_supply_revision.status == current {
            return self.h2_supply_revision;
        }
        self.advance_h2_supply_revision(current)
    }

    /// Records `status` under the next HTTP/2 revision.
    pub fn advance_h2_supply_revision(&mut self, status: H2SupplyStatus) -> (report: SupplyRevision<H2SupplyStatus>)
        requires
            old(self).h2_supply_revision.revision < u64::MAX,
        ensures
            report == (SupplyRevision { revision: (old(self).h2_supply_revision.revision + 1) as u64, status }),
            final(self).h2_supply_revision == report,
            final(self).acquisitions == old(self).acquisitions,
            final(self).h1 == old(self).h1,
            final(self).h2 == old(self).h2,
            final(self).h1_supply_revision == old(self).h1_supply_revision,
    {
        let revision = self.h2_supply_revision.revision + 1;
        self.h2_supply_revision = SupplyRevision::new(revision, status);
        self.h2_supply_revision
    }

    /// Whether local fairness, older local candidates or an existing
    /// reservation refuse a peer's HTTP/1 reservation.
    pub open spec fn refuses_peer_reuse(&self) -> bool {
        ||| self.h1.reservation().local_turn_owed && self.local_h1_demand()
        ||| self.acquisitions@.has_prior_h1_candidate()
        ||| self.h1.reservation().state != H1ReservationState::Available
    }

    /// Decides whether a peer may reserve this cell's HTTP/1 connection.
    ///
    /// An idle sender is extracted for the peer at once; otherwise the next
    /// reusable return is reserved while some sender could still return.
    /// A refusal carries the cell's current availability.
    pub fn install_reuse(&mut self, match_id: H1MatchId) -> (decision: H1ReservationDecision<OwnedH1Sender<S1>>)
        requires
            old(self).wf(),
            old(self).h1_supply_revision.revision < u64::MAX,
        ensures
            final(self).wf(),
            reuse_decided(*old(self), *final(self), match_id, decision),
            old(self).h1.reservation().local_turn_owed && old(self).acquisitions@.has_h1_eligible() ==> {
                &&& decision matches H1ReservationDecision::Rejected(report) && report.status.peer_use_blocked
                &&& final(self).h1.records() == old(self).h1.records()
                &&& final(self).h1.idle_order() == old(self).h1.idle_order()
                &&& final(self).h1.reservation() == old(self).h1.reservation()
            },
    {
        let local_h1_demand = self.acquisitions.can_accept_h1();
        if self.h1.blocks_peer_selection(local_h1_demand) || self.acquisitions.has_prior_h1_candidate()
            || !self.h1.peer_reservation_available() {
            let report = self.current_h1_supply_revision();
            return H1ReservationDecision::Rejected(report);
        }
        if let Some(owner) = self.h1.take_idle_candidate() {
            self.h1.reserve_resolving(match_id);
            return H1ReservationDecision::Candidate(owner);
        }
        if self.h1.has_returnable() {
            self.h1.reserve_waiting(match_id);
            return H1ReservationDecision::Installed;
        }
        let report = self.current_h1_supply_revision();
        H1ReservationDecision::Rejected(report)
    }

    /// Clears a reservation after request cancellation and reports the
    /// cell's complete availability.
    pub fn cancel_reuse(&mut self, match_id: H1MatchId) -> (report: SupplyRevision<H1SupplyStatus>)
        requires
            old(self).wf(),
            old(self).h1_supply_revision.revision < u64::MAX,
        ensures
            final(self).wf(),
            final(self).acquisitions@ == old(self).acquisitions@,
            final(self).h2@ == old(self).h2@,
            final(self).h2_supply_revision == old(self).h2_supply_revision,
            final(self).h1.records() == old(self).h1.records(),
            final(self).h1.idle_order() == old(self).h1.idle_order(),
            final(self).h1.reservation().state == (if crate::h1::reservation_names(old(self).h1.reservation().state, match_id) {
                H1ReservationState::Available
            } else {
                old(self).h1.reservation().state
            }),
            final(self).h1.reservation().local_turn_owed == (old(self).h1.reservation().local_turn_owed
                && old(self).local_h1_demand()),
            report == refreshed(old(self).h1_supply_revision, final(self).spec_h1_supply_status(), true),
            final(self).h1_supply_revision == report,
    {
        self.h1.release_peer_reservation(match_id);
        let local_h1_demand = self.acquisitions.can_accept_h1();
        self.h1.clear_unused_turn(local_h1_demand);
        self.current_h1_supply_revision()
    }

    /// Clears a reservation before its provisional sender follows ordinary return.
    pub fn reject_reuse_candidate(&mut self, match_id: H1MatchId)
        requires
            old(self).wf(),
        ensures
            final(self).wf(),
            final(self).acquisitions@ == old(self).acquisitions@,
            final(self).h2@ == old(self).h2@,
            final(self).h1_supply_revision == old(self).h1_supply_revision,
            final(self).h2_supply_revision == old(self).h2_supply_revision,
            final(self).h1.records() == old(self).h1.records(),
            final(self).h1.idle_order() == old(self).h1.idle_order(),
            final(self).h1.reservation().state == (if crate::h1::reservation_names(old(self).h1.reservation().state, match_id) {
                H1ReservationState::Available
            } else {
                old(self).h1.reservation().state
            }),
            final(self).h1.reservation().local_turn_owed == old(self).h1.reservation().local_turn_owed,
    {
        self.h1.release_peer_reservation(match_id);
    }

    /// Revalidates a reservation and the sender's residence as one transition.
    pub fn commit_reuse(&mut self, match_id: H1MatchId, owner: &OwnedH1Sender<S1>) -> (committed: bool)
        requires
            old(self).wf(),
        ensures
            final(self).wf(),
            final(self).acquisitions@ == old(self).acquisitions@,
            final(self).h2@ == old(self).h2@,
            final(self).h1_supply_revision == old(self).h1_supply_revision,
            final(self).h2_supply_revision == old(self).h2_supply_revision,
            final(self).h1.reservation() == old(self).h1.reservation(),
            final(self).h1.idle_order() == old(self).h1.idle_order(),
            committed == (crate::h1::reservation_names(old(self).h1.reservation().state, match_id)
                && old(self).h1.records().contains_key(owner.connection)
                && crate::h1::is_external(old(self).h1.records()[owner.connection])),
            final(self).h1.records() == (if committed {
                old(self).h1.records().insert(owner.connection, crate::h1::H1SenderResidence::Selected)
            } else {
                old(self).h1.records()
            }),
    {
        self.h1.names_peer_reservation(match_id) && self.h1.commit_return_to_waiter(owner)
    }

    /// Completes or rejects a reservation after its crossing resolved, and
    /// reports the cell's complete availability.
    pub fn finish_reuse(&mut self, match_id: H1MatchId, transferred: bool) -> (report: SupplyRevision<H1SupplyStatus>)
        requires
            old(self).wf(),
            old(self).h1_supply_revision.revision < u64::MAX,
        ensures
            final(self).wf(),
            final(self).acquisitions@ == old(self).acquisitions@,
            final(self).h2@ == old(self).h2@,
            final(self).h2_supply_revision == old(self).h2_supply_revision,
            final(self).h1.records() == old(self).h1.records(),
            final(self).h1.idle_order() == old(self).h1.idle_order(),
            transferred ==> {
                let completed = old(self).h1.reservation().state == H1ReservationState::Resolving(match_id);
                &&& completed ==> final(self).h1.reservation().state == H1ReservationState::Available
                    && final(self).h1.reservation().local_turn_owed == (old(self).h1.reservation().local_turn_owed
                    || old(self).local_h1_demand())
                &&& !completed ==> final(self).h1.reservation() == old(self).h1.reservation()
            },
            !transferred ==> {
                &&& final(self).h1.reservation().state == (if crate::h1::reservation_names(old(self).h1.reservation().state, match_id) {
                    H1ReservationState::Available
                } else {
                    old(self).h1.reservation().state
                })
                &&& final(self).h1.reservation().local_turn_owed == old(self).h1.reservation().local_turn_owed
            },
            report == refreshed(old(self).h1_supply_revision, final(self).spec_h1_supply_status(), true),
            final(self).h1_supply_revision == report,
    {
        if transferred {
            let local_h1_demand = self.acquisitions.can_accept_h1();
            self.h1.complete_peer_transfer(match_id, local_h1_demand);
        } else {
            self.h1.release_peer_reservation(match_id);
        }
        self.current_h1_supply_revision()
    }

    /// Whether `owner`'s record is live and its sender is outside the cell.
    pub open spec fn takes_back(&self, owner: OwnedH1Sender<S1>) -> bool {
        self.h1.records().contains_key(owner.connection) && is_external(self.h1.records()[owner.connection])
    }

    /// Returns a reusable sender to a waiting peer reservation, to the oldest
    /// compatible local attempt, or to the idle set, in that order.
    ///
    /// A sender whose record no longer takes it back is handed back to be
    /// retired, and a peer reservation waiting for it is rejected.
    pub fn return_h1(
        &mut self,
        owner: OwnedH1Sender<S1>,
        idle_deadline: Option<u64>,
        eligibility_group: &EligibilityGroup,
    ) -> (decision: H1ReturnDecision<S1, S2, E, W>)
        requires
            old(self).wf(),
            old(self).acquisitions@.next_demand_id < u64::MAX,
            old(self).h1_supply_revision.revision < u64::MAX,
        ensures
            final(self).wf(),
            return_decided(*old(self), *final(self), owner, idle_deadline, *eligibility_group, decision),
    {
        if !self.h1.accepts_return(&owner) {
            let rejected_match = match self.h1.take_return_match() {
                Some(match_id) => {
                    let report = self.finish_reuse(match_id, false);
                    Some((match_id, report))
                },
                None => None,
            };
            return H1ReturnDecision::Retire { owner, rejected_match };
        }
        if let Some(match_id) = self.h1.take_return_match() {
            if self.h1.reserve_for_peer(&owner) {
                return H1ReturnDecision::Intercepted { match_id, owner };
            }
            let report = self.finish_reuse(match_id, false);
            return H1ReturnDecision::Retire { owner, rejected_match: Some((match_id, report)) };
        }
        let waiter = self.acquisitions.oldest_h1_candidate();
        if let Some(waiter) = waiter {
            if self.h1.commit_return_to_waiter(&owner) {
                self.h1.consume_local_turn();
                let mut returned = owner;
                returned.mark_reused();
                proof {
                    self.acquisitions@.lemma_oldest_h1_unique(waiter.0);
                }
                let install = self.acquisitions.install_returned_h1(AcquisitionOutcome::H1(returned), eligibility_group);
                self.h2.cancel_pending_waiter(waiter);
                return H1ReturnDecision::Installed { waiter, install };
            }
            return H1ReturnDecision::Retire { owner, rejected_match: None };
        }
        match self.h1.return_idle(owner, idle_deadline) {
            Ok(()) => H1ReturnDecision::Idle,
            Err(owner) => H1ReturnDecision::Retire { owner, rejected_match: None },
        }
    }

    /// The HTTP/2 state after a cancelled waiter left every flight, turn and
    /// generation that retained it.
    pub open spec fn h2_without(&self, waiter: WaiterId) -> crate::h2::H2CellView<S2> {
        pending_cancelled(
            peer_activation_cancelled(flight_participant_cancelled(self.h2@, waiter), waiter),
            waiter,
        )
    }

    /// The sender an idle selection takes: the newest idle record's.
    pub open spec fn newest_idle_owner(&self) -> OwnedH1Sender<S1> {
        let id = self.h1.idle_order().last();
        OwnedH1Sender { connection: id, sender: self.h1.records()[id]->Idle_sender, reused: true }
    }

    /// Cancels a waiter and lets a successor take a local idle sender in
    /// the same transition.
    ///
    /// Cancelling a waiter that blocked the queue head may leave a compatible
    /// successor that an idle sender can serve; it is served under the same
    /// lock, without a peer reuse operation.
    pub fn cancel_waiter(&mut self, waiter: WaiterId, eligibility_group: &EligibilityGroup) -> (cancellation:
        CellCancellation<S1, S2, E, W>)
        requires
            old(self).wf(),
            old(self).acquisitions@.next_demand_id < u64::MAX - 1,
        ensures
            final(self).wf(),
            final(self).h1_supply_revision == old(self).h1_supply_revision,
            final(self).h2_supply_revision == old(self).h2_supply_revision,
            exists|mid: CellQueueView<S1, S2, E, W>| #![trigger waiter_cancelled(old(self).acquisitions@, mid, waiter, *eligibility_group, cancellation.cancelled)] {
                &&& waiter_cancelled(old(self).acquisitions@, mid, waiter, *eligibility_group, cancellation.cancelled)
                &&& if cancellation.cancelled is Some && mid.has_h1_eligible() && old(self).h1.idle_order().len() > 0 {
                    let id = old(self).h1.idle_order().last();
                    let served = WaiterId(mid.oldest_h1());
                    &&& cancellation.local_install matches Some((w, install)) && w == served
                        && returned_h1_installed(
                            mid,
                            final(self).acquisitions@,
                            AcquisitionOutcome::H1(old(self).newest_idle_owner()),
                            *eligibility_group,
                            install,
                        )
                    &&& final(self).h1.records() == old(self).h1.records().insert(id, H1SenderResidence::Selected)
                    &&& final(self).h1.idle_order() == old(self).h1.idle_order().drop_last()
                    &&& final(self).h1.reservation().state == old(self).h1.reservation().state
                    &&& !final(self).h1.reservation().local_turn_owed
                    &&& final(self).h2@ == pending_cancelled(old(self).h2_without(waiter), served)
                } else {
                    &&& cancellation.local_install is None
                    &&& final(self).acquisitions@ == mid
                    &&& final(self).h1.records() == old(self).h1.records()
                    &&& final(self).h1.idle_order() == old(self).h1.idle_order()
                    &&& final(self).h1.reservation() == old(self).h1.reservation()
                    &&& final(self).h2@ == old(self).h2_without(waiter)
                }
            },
            keeps_settled(old(self).acquisitions@, final(self).acquisitions@),
            forall|w: u64| #[trigger] h2_retains(final(self).h2@, w) ==> h2_retains(old(self).h2@, w),
    {
        self.h2.cancel_flight_participant(waiter);
        self.h2.cancel_peer_activation(waiter);
        self.h2.cancel_pending_waiter(waiter);
        let ghost h2_after = self.h2@;
        let cancelled = self.acquisitions.cancel_waiter(waiter, eligibility_group);
        let ghost mid = self.acquisitions@;
        proof {
            crate::waiters::lemma_cancel_keeps_demand_room(old(self).acquisitions@, mid, waiter, *eligibility_group, cancelled);
            lemma_cancel_keeps_settled(old(self).acquisitions@, mid, waiter, *eligibility_group, cancelled);
        }
        if cancelled.is_none() {
            return CellCancellation { cancelled, local_install: None };
        }
        let served = self.acquisitions.oldest_h1_candidate();
        let served = match served {
            Some(served) => served,
            None => {
                return CellCancellation { cancelled, local_install: None };
            },
        };
        proof {
            mid.lemma_oldest_h1_unique(served.0);
        }
        let owner = match self.h1.select_idle() {
            Some(owner) => owner,
            None => {
                return CellCancellation { cancelled, local_install: None };
            },
        };
        self.h1.consume_local_turn();
        let install = self.acquisitions.install_returned_h1(AcquisitionOutcome::H1(owner), eligibility_group);
        proof {
            lemma_returned_h1_keeps_settled(mid, self.acquisitions@, AcquisitionOutcome::H1(owner), *eligibility_group, install);
            crate::waiters::lemma_keeps_settled_trans(old(self).acquisitions@, mid, self.acquisitions@);
        }
        self.h2.cancel_pending_waiter(served);
        CellCancellation { cancelled, local_install: Some((served, install)) }
    }

    /// Removes live HTTP/2-compatible demand already served by visible HTTP/2.
    pub fn publishable_demand_updates(&self, updates: [Option<DemandSnapshot>; 2]) -> (publishable_updates: [Option<
        DemandSnapshot,
    >; 2])
        ensures
            publishable_updates@ == seq![
                publishable(updates@[0], self.h2@.accepting is Some || self.h2@.peer_route is Some),
                publishable(updates@[1], self.h2@.accepting is Some || self.h2@.peer_route is Some),
            ],
            forall|i: int|
                0 <= i < 2 && (#[trigger] updates@[i] matches Some(s) && !snapshot_accepts_h2(s))
                    ==> publishable_updates@[i] == updates@[i],
            forall|i: int|
                0 <= i < 2 && (#[trigger] updates@[i] matches Some(s) && s matches DemandSnapshot::Active {
                    requirement,
                    ..
                } && requirement == ProtocolRequirement::H1Required) ==> publishable_updates@[i] == updates@[i],
    {
        proof {
            lemma_only_h2_servable_demand_is_withheld(updates@[0], self.h2@.accepting is Some || self.h2@.peer_route is Some);
            lemma_only_h2_servable_demand_is_withheld(updates@[1], self.h2@.accepting is Some || self.h2@.peer_route is Some);
        }
        let h2_visible = self.h2.has_visible_h2();
        let first = filter_served(updates[0], h2_visible);
        let second = filter_served(updates[1], h2_visible);
        let result = [first, second];
        assert(result@ =~= seq![first, second]);
        result
    }
}

/// Withholds one live HTTP/2-compatible publication while HTTP/2 is visible.
fn filter_served(snapshot: Option<DemandSnapshot>, h2_visible: bool) -> (kept: Option<DemandSnapshot>)
    ensures
        kept == publishable(snapshot, h2_visible),
{
    match snapshot {
        Some(s) => if h2_visible && s.is_active() && s.accepts_h2() {
            None
        } else {
            Some(s)
        },
        None => None,
    }
}

/// Stable identity of an origin cell.
#[derive(Clone, Debug)]
pub struct CellId {
    /// Partition that owns this cell's connection work.
    partition: PartitionId,
    /// Canonical origin whose requests share this cell.
    origin: OriginKey,
}

impl CellId {
    /// The owning partition.
    pub closed spec fn spec_partition(&self) -> PartitionId {
        self.partition
    }

    /// The canonical origin.
    pub closed spec fn spec_origin(&self) -> OriginKey {
        self.origin
    }

    /// Creates the identity of one partition-origin cell.
    pub fn new(partition: PartitionId, origin: OriginKey) -> (id: Self)
        ensures
            id.spec_partition() == partition,
            id.spec_origin() == origin,
    {
        CellId { partition, origin }
    }

    /// Returns the partition that owns this cell's connection work.
    pub fn partition(&self) -> (partition: PartitionId)
        ensures
            partition == self.spec_partition(),
    {
        self.partition
    }

    /// Returns the canonical origin of this cell.
    pub fn origin(&self) -> (origin: &OriginKey)
        ensures
            *origin == self.spec_origin(),
    {
        &self.origin
    }
}

/// The publications admission receives for `updates` from a cell that is
/// `bounded`, while HTTP/2 is `visible` there.
pub open spec fn published_by(bounded: bool, visible: bool, updates: Seq<Option<DemandSnapshot>>) -> Seq<DemandSnapshot> {
    if bounded {
        present(updates.map_values(|u: Option<DemandSnapshot>| publishable(u, visible)))
    } else {
        Seq::empty()
    }
}

/// Whether `grant` is a prospective request on generation `generation` of a
/// cell in `partition`, whose record was `record` before the activation.
pub open spec fn grants_from<S: Clone>(
    partition: PartitionId,
    grant: H2Grant<S>,
    generation: H2GenerationId,
    record: H2GenerationView<S>,
) -> bool {
    &&& grant.generation == generation
    &&& grant.connection_partition == partition
    &&& grant.resources.reused == record.has_accepted_request
    &&& grant.resources.connection == record.connection
    &&& cloned(record.sender, grant.resources.sender)
}

/// The turn an activation gate's next opportunity yields for `queue`, and the activation gate after
/// taking it.
pub open spec fn next_turn_for<R, W>(gate: H2ActivationGate, queue: QueueView<R, W>) -> (H2ActivationTurn, H2ActivationGate) {
    let has_prioritized = match gate_cutoff(gate) {
        Some(cutoff) => exists|w: u64| queue.h2_eligible(w) && w <= cutoff.0,
        None => false,
    };
    gate_next_turn(gate, has_prioritized)
}

/// The cutoff of a turn.
pub open spec fn turn_cutoff(turn: H2ActivationTurn) -> Option<WaiterId> {
    match turn {
        H2ActivationTurn::Through(cutoff) => Some(cutoff),
        _ => None,
    }
}

/// Whether a turn lets the oldest HTTP/2 candidate of `queue` activate.
pub open spec fn turn_serves<R, W>(turn: H2ActivationTurn, queue: QueueView<R, W>) -> bool {
    &&& !(turn is Unavailable)
    &&& queue.has_h2_eligible()
    &&& (turn_cutoff(turn) matches Some(c) ==> queue.oldest_h2() <= c.0)
}

/// Whether (`q2`, `h2_new`) is (`q`, `h2`) after offering the accepting
/// local generation to the oldest queued HTTP/2 acquisition of a cell in
/// `partition`, detaching `effects`.
pub open spec fn h2_offered<S1, S2: Clone, E, W>(
    q: CellQueueView<S1, S2, E, W>,
    h2: crate::h2::H2CellView<S2>,
    q2: CellQueueView<S1, S2, E, W>,
    h2_new: crate::h2::H2CellView<S2>,
    partition: PartitionId,
    group: EligibilityGroup,
    bounded: bool,
    effects: Option<CellEffects<S1, S2, E, W>>,
) -> bool {
    match h2.accepting {
        None => effects is None && q2 == q && h2_new == h2,
        Some(generation) => {
            let (turn, gate) = next_turn_for(h2.local_gate, q);
            if !turn_serves(turn, q) {
                &&& effects is None
                &&& q2 == q
                &&& h2_new == (crate::h2::H2CellView { local_gate: gate, ..h2 })
            } else {
                let w = WaiterId(q.oldest_h2());
                let record = h2.generations[generation.0];
                &&& h2_new == (crate::h2::H2CellView {
                    local_gate: gate_reserved(gate, w),
                    generations: h2.generations.insert(
                        generation.0,
                        H2GenerationView {
                            prospective_requests: (record.prospective_requests + 1) as usize,
                            pending_waiters: record.pending_waiters.remove(w.0),
                            ..record
                        },
                    ),
                    ..h2
                })
                &&& exists|grant: H2Grant<S2>, install: H2WaiterInstall<CellOutcome<S1, S2, E>, W>|
                    #![trigger h2_installed(q, q2, turn_cutoff(turn), AcquisitionOutcome::H2(grant), group, install)] {
                    &&& grants_from(partition, grant, generation, record)
                    &&& grant.turn == (if gate is Prioritizing {
                        Some(H2ActivationTurnGuard { waiter: w, owner: crate::h2_request::H2ActivationGateOwner::Local { generation } })
                    } else {
                        None
                    })
                    &&& h2_installed(q, q2, turn_cutoff(turn), AcquisitionOutcome::H2(grant), group, install)
                    &&& install.waiter == Some(w)
                    &&& effects matches Some(e) && {
                        &&& e.demand_updates@ == published_by(bounded, true, install.demand_updates@)
                        &&& e.returned@ == present_events(seq![install.returned_event])
                        &&& e.waker == install.waker
                    }
                }
            }
        },
    }
}

/// A peer-route grant carrying the requesting cell's turn when the prepared
/// activation holds one.
pub open spec fn with_peer_turn<S>(grant: H2Grant<S>, prepared: PreparedPeerActivation) -> H2Grant<S> {
    H2Grant {
        turn: if prepared.gated {
            Some(H2ActivationTurnGuard::peer_spec(prepared.route.spec_id(), prepared.waiter))
        } else {
            grant.turn
        },
        ..grant
    }
}

/// Whether `nearest` is the earliest idle deadline among the idle HTTP/1
/// records of `h1`, or `None` when no idle record has one.
pub open spec fn nearest_h1_idle<S>(h1: H1CellState<S>, nearest: Option<u64>) -> bool {
    match nearest {
        Some(d) => {
            &&& exists|id: u64| #[trigger] h1.idle_order().contains(id)
                && crate::h1::idle_deadline_of(h1.records()[id]) == Some(d)
            &&& forall|id: u64| #[trigger] h1.idle_order().contains(id)
                && crate::h1::idle_deadline_of(h1.records()[id]) is Some
                ==> d <= crate::h1::idle_deadline_of(h1.records()[id]).unwrap()
        },
        None => forall|id: u64| #[trigger] h1.idle_order().contains(id)
            ==> crate::h1::idle_deadline_of(h1.records()[id]) is None,
    }
}

/// The earlier of two optional deadlines.
pub open spec fn earliest(a: Option<u64>, b: Option<u64>) -> Option<u64> {
    match (a, b) {
        (Some(x), Some(y)) => Some(if x <= y { x } else { y }),
        (Some(x), None) => Some(x),
        (None, y) => y,
    }
}

/// The live publications among `updates`, in order.
pub open spec fn present(updates: Seq<Option<DemandSnapshot>>) -> Seq<DemandSnapshot>
    decreases updates.len(),
{
    if updates.len() == 0 {
        Seq::empty()
    } else {
        let rest = present(updates.drop_first());
        match updates[0] {
            Some(s) => seq![s] + rest,
            None => rest,
        }
    }
}

/// Appends `update` to `updates` when it is present.
fn push_present(updates: &mut Vec<DemandSnapshot>, update: Option<DemandSnapshot>)
    ensures
        final(updates)@ == old(updates)@ + present(seq![update]),
{
    proof {
        reveal_with_fuel(present, 2);
        assert(seq![update].drop_first() =~= Seq::<Option<DemandSnapshot>>::empty());
    }
    match update {
        Some(snapshot) => {
            updates.push(snapshot);
        },
        None => {
            assert(old(updates)@ + Seq::<DemandSnapshot>::empty() =~= old(updates)@);
        },
    }
}

/// Whether the HTTP/2 state retains waiter `w` for an establishment result:
/// as a participant of the running handshake, or as a waiter transferred to
/// the accepting generation.
pub open spec fn h2_retains<S>(h: crate::h2::H2CellView<S>, w: u64) -> bool {
    ||| h.flight is Some && h.flight.unwrap().participants.contains(w)
    ||| h.accepting is Some && h.generations[h.accepting.unwrap().0].pending_waiters.contains(w)
}

/// Every waiter the HTTP/2 state retains may still take an establishment
/// result.
pub open spec fn h2_waiters_ok<R, W, S>(q: QueueView<R, W>, h: crate::h2::H2CellView<S>) -> bool {
    forall|w: u64|
        #![trigger h.flight.unwrap().participants.contains(w)]
        #![trigger h.generations[h.accepting.unwrap().0].pending_waiters.contains(w)]
        (h.flight is Some && h.flight.unwrap().participants.contains(w))
            || (h.accepting is Some && h.generations[h.accepting.unwrap().0].pending_waiters.contains(w))
            ==> accepts_establishment_result(q, w)
}

/// Retained waiters stay able to take establishment results across a
/// transition that keeps settled waiters settled and retains no new waiter.
proof fn lemma_h2_waiters_kept<R, W, S>(
    q0: QueueView<R, W>,
    q1: QueueView<R, W>,
    h0: crate::h2::H2CellView<S>,
    h1: crate::h2::H2CellView<S>,
)
    requires
        h2_waiters_ok(q0, h0),
        keeps_settled(q0, q1),
        forall|w: u64| #[trigger] h2_retains(h1, w) ==> h2_retains(h0, w),
    ensures
        h2_waiters_ok(q1, h1),
{
    lemma_h2_waiters_joined(q0, q1, h0, h1, None);
}

/// Retained waiters stay able to take establishment results across a
/// transition that keeps settled waiters settled and retains at most one new
/// waiter, `joined`, which can take one.
proof fn lemma_h2_waiters_joined<R, W, S>(
    q0: QueueView<R, W>,
    q1: QueueView<R, W>,
    h0: crate::h2::H2CellView<S>,
    h1: crate::h2::H2CellView<S>,
    joined: Option<u64>,
)
    requires
        h2_waiters_ok(q0, h0),
        keeps_settled(q0, q1),
        joined matches Some(j) ==> accepts_establishment_result(q1, j),
        forall|w: u64| #[trigger] h2_retains(h1, w) ==> h2_retains(h0, w) || joined == Some(w),
    ensures
        h2_waiters_ok(q1, h1),
{
    assert forall|w: u64|
        (h1.flight is Some && #[trigger] h1.flight.unwrap().participants.contains(w))
            || (h1.accepting is Some && h1.generations[h1.accepting.unwrap().0].pending_waiters.contains(w))
        implies accepts_establishment_result(q1, w) by {
        assert(h2_retains(h1, w));
        if joined != Some(w) {
            assert(h2_retains(h0, w));
            lemma_settled_accepts(q0, q1, w);
        }
    }
    assert forall|w: u64|
        (h1.flight is Some && h1.flight.unwrap().participants.contains(w))
            || (h1.accepting is Some && #[trigger] h1.generations[h1.accepting.unwrap().0].pending_waiters.contains(w))
        implies accepts_establishment_result(q1, w) by {
        assert(h2_retains(h1, w));
        if joined != Some(w) {
            assert(h2_retains(h0, w));
            lemma_settled_accepts(q0, q1, w);
        }
    }
}

/// Work detached from one cell transition and run after the lock is released:
/// demand publications in order, then the drop of returned events, then the
/// wake.
pub struct CellEffects<S1, S2, E, W> {
    /// Demand publications for origin admission; empty for unbounded cells.
    pub demand_updates: Vec<DemandSnapshot>,
    /// Events that lost their waiter and run their fallback when dropped.
    pub returned: Vec<AcquisitionEvent<AcquisitionOutcome<S1, S2, E>>>,
    /// Task to wake after the publications.
    pub waker: Option<W>,
}

/// The events among `events` that are present, in order.
pub open spec fn present_events<R>(events: Seq<Option<AcquisitionEvent<R>>>) -> Seq<AcquisitionEvent<R>>
    decreases events.len(),
{
    if events.len() == 0 {
        Seq::empty()
    } else {
        let rest = present_events(events.drop_first());
        match events[0] {
            Some(e) => seq![e] + rest,
            None => rest,
        }
    }
}

/// Splits a two-element vector into its elements.
fn into_pair<T>(items: Vec<T>) -> (pair: (T, T))
    requires
        items@.len() == 2,
    ensures
        pair.0 == items@[0],
        pair.1 == items@[1],
{
    let mut items = items;
    let second = items.pop().unwrap();
    let first = items.pop().unwrap();
    (first, second)
}

/// The present events of a pair are those of its elements in order.
proof fn lemma_present_pair<R>(events: Seq<Option<AcquisitionEvent<R>>>)
    requires
        events.len() == 2,
    ensures
        present_events(events) == present_events(seq![events[0]]) + present_events(seq![events[1]]),
{
    reveal_with_fuel(present_events, 3);
    assert(events.drop_first() =~= seq![events[1]]);
    assert(events.drop_first().drop_first() =~= Seq::<Option<AcquisitionEvent<R>>>::empty());
    assert(seq![events[0]].drop_first() =~= Seq::<Option<AcquisitionEvent<R>>>::empty());
    assert(seq![events[1]].drop_first() =~= Seq::<Option<AcquisitionEvent<R>>>::empty());
}

/// Appends `event` to `events` when it is present.
fn push_event<R>(events: &mut Vec<AcquisitionEvent<R>>, event: Option<AcquisitionEvent<R>>)
    ensures
        final(events)@ == old(events)@ + present_events(seq![event]),
{
    proof {
        reveal_with_fuel(present_events, 2);
        assert(seq![event].drop_first() =~= Seq::<Option<AcquisitionEvent<R>>>::empty());
    }
    match event {
        Some(e) => {
            events.push(e);
        },
        None => {
            assert(old(events)@ + Seq::<AcquisitionEvent<R>>::empty() =~= old(events)@);
        },
    }
}

/// What follows the return of an HTTP/1 sender to its cell.
pub enum H1ReturnOutcome<S1, S2, E, W> {
    /// The sender must be retired; a peer match that could not be served is
    /// reported to admission first.
    Retire {
        owner: OwnedH1Sender<S1>,
        rejected_match: Option<(H1MatchId, SupplyRevision<H1SupplyStatus>)>,
    },
    /// A waiting peer reservation took the sender; admission resolves it.
    Intercepted { match_id: H1MatchId, owner: OwnedH1Sender<S1> },
    /// A local attempt took the sender; its cleanup work follows.
    Installed(CellEffects<S1, S2, E, W>),
    /// The sender became idle until `deadline`.
    Idle,
}

/// What became of one event that lost its waiter, once it is settled after
/// the cell lock was released.
pub enum ReturnedEventSettlement<S1, S2, E, W> {
    /// An HTTP/1 sender recorded in this cell went back through its return
    /// policy.
    H1(H1ReturnOutcome<S1, S2, E, W>),
    /// An HTTP/1 sender this cell holds no record of; the cell that owns its
    /// connection takes it back, or it is retired.
    ForeignH1(OwnedH1Sender<S1>),
    /// A prospective HTTP/2 request, which its connection cell cancels.
    H2(H2Grant<S2>),
    /// Establishment capacity handed back to origin admission, when bounded.
    Capacity(Option<CapacityLease>),
    /// A failure or retry result, which returns nothing.
    Discarded,
}

/// Result of committing a peer-route activation in the requesting cell.
pub struct PeerH2Commit<S1, S2, E, W> {
    /// Cleanup work of the acquisition that took the activation.
    pub installed: Option<CellEffects<S1, S2, E, W>>,
    /// The activation, when no acquisition took it; dropping it cancels the
    /// prospective request at the connection cell.
    pub unused: Option<H2Grant<S2>>,
}

/// Result of joining an accepting generation after ALPN selected HTTP/2.
#[derive(Clone, Copy, Debug, PartialEq, Eq, Structural)]
pub enum H2GenerationJoinOutcome {
    /// The waiter was transferred to the named generation.
    Joined,
    /// The named generation stopped accepting before the transfer.
    GenerationChanged,
    /// Another transition already installed the waiter's result.
    WaiterResolved,
}

/// State shared by requests for one partition and canonical origin.
///
/// Every method is one transition under the cell lock; what it returns runs
/// after the lock is released.
pub struct OriginCell<S1, S2, E, W> {
    /// Identity used by partition and admission indexes.
    pub id: CellId,
    /// Partitions whose connections may satisfy this cell's demand.
    pub eligibility_group: EligibilityGroup,
    /// Whether origin admission bounds this cell's connections.
    pub bounded: bool,
    /// Waiter order and protocol records.
    pub state: CellState<S1, S2, E, W>,
}

impl<S1, S2, E, W> OriginCell<S1, S2, E, W> {
    /// The cell state is well formed.
    pub open spec fn wf(&self) -> bool {
        &&& self.state.wf()
        &&& h2_waiters_ok(self.state.acquisitions@, self.state.h2@)
    }

    /// Whether local HTTP/2 state already serves HTTP/2-compatible demand.
    pub open spec fn h2_visible(&self) -> bool {
        self.state.h2@.accepting is Some || self.state.h2@.peer_route is Some
    }

    /// The publications admission receives for `updates`: none for an
    /// unbounded cell, and none that visible HTTP/2 already serves.
    pub open spec fn published(&self, updates: Seq<Option<DemandSnapshot>>) -> Seq<DemandSnapshot> {
        if self.bounded {
            present(updates.map_values(|u: Option<DemandSnapshot>| publishable(u, self.h2_visible())))
        } else {
            Seq::empty()
        }
    }

    /// Creates a cell before its publication in a partition registry.
    pub fn new(partition: PartitionId, origin: OriginKey, eligibility_group: EligibilityGroup, bounded: bool) -> (cell:
        Self)
        ensures
            cell.wf(),
            cell.id.spec_partition() == partition,
            cell.id.spec_origin() == origin,
            cell.eligibility_group == eligibility_group,
            cell.bounded == bounded,
            cell.state.is_fresh(),
    {
        OriginCell { id: CellId::new(partition, origin), eligibility_group, bounded, state: CellState::new() }
    }

    /// Whether every identity and revision counter of the cell can still
    /// advance by the few steps one transition takes.
    pub open spec fn spec_counters_have_room(&self) -> bool {
        &&& self.state.acquisitions@.next_waiter < u64::MAX
        &&& self.state.acquisitions@.next_demand_id < u64::MAX - 1
        &&& self.state.h1_supply_revision.revision < u64::MAX
        &&& self.state.h2_supply_revision.revision < u64::MAX
        &&& self.state.h2@.next_flight < u64::MAX
        &&& self.state.h2@.next_generation < u64::MAX
    }

    /// Returns whether every identity and revision counter of the cell can
    /// still advance; callers stop using an exhausted cell.
    pub fn counters_have_room(&self) -> (room: bool)
        ensures
            room == self.spec_counters_have_room(),
    {
        let (next_waiter, next_demand_id) = self.state.acquisitions.identity_counters();
        let (next_flight, next_generation) = self.state.h2.identity_counters();
        next_waiter < u64::MAX && next_demand_id < u64::MAX - 1 && self.state.h1_supply_revision.revision < u64::MAX
            && self.state.h2_supply_revision.revision < u64::MAX && next_flight < u64::MAX && next_generation
            < u64::MAX
    }

    /// Returns the cell's identity.
    pub fn id(&self) -> (id: &CellId)
        ensures
            id == &self.id,
    {
        &self.id
    }

    /// Returns the partitions whose connections may satisfy this cell.
    pub fn eligibility_group(&self) -> (group: EligibilityGroup)
        ensures
            group == self.eligibility_group,
    {
        self.eligibility_group
    }

    /// Returns whether origin admission bounds this cell.
    pub fn admission(&self) -> (bounded: bool)
        ensures
            bounded == self.bounded,
    {
        self.bounded
    }

    /// Adds the publishable, present updates of `updates` to `effects`.
    fn publish_into(&self, effects: &mut Vec<DemandSnapshot>, updates: [Option<DemandSnapshot>; 2])
        requires
            self.wf(),
        ensures
            final(effects)@ == old(effects)@ + self.published(updates@),
    {
        proof {
            reveal_with_fuel(present, 3);
        }
        if !self.bounded {
            assert(old(effects)@ + Seq::<DemandSnapshot>::empty() =~= old(effects)@);
            return;
        }
        let filtered = self.state.publishable_demand_updates(updates);
        let ghost before = effects@;
        push_present(effects, filtered[0]);
        push_present(effects, filtered[1]);
        proof {
            let mapped = updates@.map_values(|u: Option<DemandSnapshot>| publishable(u, self.h2_visible()));
            assert(mapped =~= filtered@);
            assert(mapped.drop_first() =~= seq![filtered@[1]]);
            assert(mapped.drop_first().drop_first() =~= Seq::<Option<DemandSnapshot>>::empty());
            assert(present(mapped) =~= present(seq![filtered@[0]]) + present(seq![filtered@[1]])) by {
                assert(seq![filtered@[0]].drop_first() =~= Seq::<Option<DemandSnapshot>>::empty());
                assert(seq![filtered@[1]].drop_first() =~= Seq::<Option<DemandSnapshot>>::empty());
            }
            assert(effects@ =~= before + self.published(updates@));
        }
    }

    /// Registers one acquisition waiter in cell-local arrival order and
    /// returns the demand admission must receive, if any.
    ///
    /// A waiter that visible HTTP/2 may serve publishes nothing.
    pub fn register_waiter(&mut self, requirement: ProtocolRequirement) -> (registered: (WaiterId, Option<DemandSnapshot>))
        requires
            old(self).wf(),
            old(self).state.acquisitions@.next_waiter < u64::MAX,
            old(self).state.acquisitions@.next_demand_id < u64::MAX,
        ensures
            final(self).wf(),
            final(self).id == old(self).id,
            final(self).eligibility_group == old(self).eligibility_group,
            final(self).bounded == old(self).bounded,
            final(self).state.h1 == old(self).state.h1,
            final(self).state.h2@ == old(self).state.h2@,
            final(self).state.h1_supply_revision == old(self).state.h1_supply_revision,
            final(self).state.h2_supply_revision == old(self).state.h2_supply_revision,
            ({
                let snapshot = registration_snapshot(
                    old(self).state.acquisitions@,
                    requirement,
                    old(self).eligibility_group,
                    old(self).bounded,
                );
                &&& waiter_registered(
                    old(self).state.acquisitions@,
                    final(self).state.acquisitions@,
                    requirement,
                    old(self).eligibility_group,
                    old(self).bounded,
                    (registered.0, snapshot),
                )
                &&& registered.1 == (if old(self).bounded && !(old(self).h2_visible()
                    && crate::admission::requirement_accepts_h2(requirement)) {
                    snapshot
                } else {
                    None
                })
            }),
    {
        let (waiter, snapshot) = self.state.acquisitions.register_waiter(requirement, &self.eligibility_group, self.bounded);
        let served = self.state.h2.has_visible_h2() && requirement.accepts_h2();
        let publish = if self.bounded && !served {
            snapshot
        } else {
            None
        };
        (waiter, publish)
    }

    /// Registers a waiter of a bounded cell and returns its demand without
    /// publishing it.
    pub fn register_waiter_without_publish(&mut self, requirement: ProtocolRequirement) -> (registered: (
        WaiterId,
        Option<DemandSnapshot>,
    ))
        requires
            old(self).wf(),
            old(self).state.acquisitions@.next_waiter < u64::MAX,
            old(self).state.acquisitions@.next_demand_id < u64::MAX,
        ensures
            final(self).wf(),
            final(self).state.h1 == old(self).state.h1,
            final(self).state.h2@ == old(self).state.h2@,
            waiter_registered(
                old(self).state.acquisitions@,
                final(self).state.acquisitions@,
                requirement,
                old(self).eligibility_group,
                true,
                registered,
            ),
    {
        self.state.acquisitions.register_waiter(requirement, &self.eligibility_group, true)
    }

    /// Cancels a waiter and detaches its cleanup work; `None` when the waiter
    /// was unknown or already cancelled.
    ///
    /// A successor that a local idle sender can now serve receives it in the
    /// same transition. [`Self::settle_cancellation`] runs after the
    /// returned work.
    pub fn cancel_waiter(&mut self, waiter: WaiterId) -> (effects: Option<CellEffects<S1, S2, E, W>>)
        requires
            old(self).wf(),
            old(self).state.acquisitions@.next_demand_id < u64::MAX - 1,
        ensures
            final(self).wf(),
            final(self).id == old(self).id,
            final(self).eligibility_group == old(self).eligibility_group,
            final(self).bounded == old(self).bounded,
            final(self).state.h1_supply_revision == old(self).state.h1_supply_revision,
            final(self).state.h2_supply_revision == old(self).state.h2_supply_revision,
            exists|c: CellCancellation<S1, S2, E, W>, mid: CellQueueView<S1, S2, E, W>| {
                &&& waiter_cancelled(old(self).state.acquisitions@, mid, waiter, old(self).eligibility_group, c.cancelled)
                &&& effects is Some == c.cancelled is Some
                &&& if c.cancelled is Some && mid.has_h1_eligible() && old(self).state.h1.idle_order().len() > 0 {
                    let id = old(self).state.h1.idle_order().last();
                    let served = WaiterId(mid.oldest_h1());
                    &&& c.local_install matches Some((w, install)) && w == served
                        && returned_h1_installed(
                            mid,
                            final(self).state.acquisitions@,
                            AcquisitionOutcome::H1(old(self).state.newest_idle_owner()),
                            old(self).eligibility_group,
                            install,
                        )
                        && effects.unwrap().demand_updates@ == old(self).published(c.cancelled.unwrap().demand_updates@)
                            + old(self).published(install.demand_updates@)
                        && effects.unwrap().returned@ == present_events(c.cancelled.unwrap().returned_events@)
                            + present_events(seq![install.returned_event])
                        && effects.unwrap().waker == install.waker
                    &&& final(self).state.h1.records() == old(self).state.h1.records().insert(id, H1SenderResidence::Selected)
                    &&& final(self).state.h1.idle_order() == old(self).state.h1.idle_order().drop_last()
                    &&& final(self).state.h1.reservation().state == old(self).state.h1.reservation().state
                    &&& !final(self).state.h1.reservation().local_turn_owed
                    &&& final(self).state.h2@ == pending_cancelled(old(self).state.h2_without(waiter), served)
                } else {
                    &&& final(self).state.acquisitions@ == mid
                    &&& final(self).state.h1.records() == old(self).state.h1.records()
                    &&& final(self).state.h1.idle_order() == old(self).state.h1.idle_order()
                    &&& final(self).state.h1.reservation() == old(self).state.h1.reservation()
                    &&& final(self).state.h2@ == old(self).state.h2_without(waiter)
                    &&& effects is Some ==> {
                        &&& effects.unwrap().demand_updates@ == old(self).published(c.cancelled.unwrap().demand_updates@)
                        &&& effects.unwrap().returned@ == present_events(c.cancelled.unwrap().returned_events@)
                        &&& effects.unwrap().waker is None
                    }
                }
            },
    {
        let cancellation = self.state.cancel_waiter(waiter, &self.eligibility_group);
        proof {
            lemma_h2_waiters_kept(old(self).state.acquisitions@, self.state.acquisitions@, old(self).state.h2@, self.state.h2@);
        }
        let ghost c = cancellation;
        let cancelled = match cancellation.cancelled {
            Some(cancelled) => cancelled,
            None => {
                return None;
            },
        };
        let mut demand_updates = Vec::new();
        let mut returned = Vec::new();
        let ghost visible_before = old(self).h2_visible();
        assert(self.h2_visible() == visible_before);
        self.publish_into(&mut demand_updates, cancelled.demand_updates);
        let (first, second) = into_pair(cancelled.returned_events);
        push_event(&mut returned, first);
        push_event(&mut returned, second);
        proof {
            reveal_with_fuel(present_events, 3);
            assert(cancelled.returned_events@.drop_first() =~= seq![second]);
            assert(cancelled.returned_events@.drop_first().drop_first() =~= Seq::<Option<AcquisitionEvent<AcquisitionOutcome<S1, S2, E>>>>::empty());
            assert(seq![first].drop_first() =~= Seq::<Option<AcquisitionEvent<AcquisitionOutcome<S1, S2, E>>>>::empty());
            assert(seq![second].drop_first() =~= Seq::<Option<AcquisitionEvent<AcquisitionOutcome<S1, S2, E>>>>::empty());
            assert(returned@ =~= present_events(cancelled.returned_events@));
        }
        let waker = match cancellation.local_install {
            Some((_, install)) => {
                self.publish_into(&mut demand_updates, install.demand_updates);
                push_event(&mut returned, install.returned_event);
                install.waker
            },
            None => None,
        };
        Some(CellEffects { demand_updates, returned, waker })
    }

    /// Whether `new` keeps everything of `self` but the acquisition queue.
    pub open spec fn only_queue_changed(&self, new: &Self) -> bool {
        &&& new.id == self.id
        &&& new.eligibility_group == self.eligibility_group
        &&& new.bounded == self.bounded
        &&& new.state.h1 == self.state.h1
        &&& new.state.h2@ == self.state.h2@
        &&& new.state.h1_supply_revision == self.state.h1_supply_revision
        &&& new.state.h2_supply_revision == self.state.h2_supply_revision
    }

    /// Polls the next event for one acquisition waiter, recording `waker`
    /// while it must wait.
    pub fn poll_waiter(&mut self, waiter: WaiterId, waker: W) -> (event: Option<AcquisitionEvent<AcquisitionOutcome<S1, S2, E>>>)
        requires
            old(self).wf(),
            old(self).state.acquisitions@.waiters.contains_key(waiter.0),
            !(old(self).state.acquisitions@.waiters[waiter.0].phase is DeliveryCancelled),
        ensures
            final(self).wf(),
            old(self).only_queue_changed(&*final(self)),
            waiter_polled(old(self).state.acquisitions@, final(self).state.acquisitions@, waiter, waker, event),
    {
        self.state.acquisitions.poll_waiter(waiter, waker)
    }

    /// Marks an establishment attempt as started before its first connector poll.
    pub fn start_establishment(&mut self, waiter: WaiterId) -> (started: bool)
        requires
            old(self).wf(),
            old(self).state.acquisitions@.waiters.contains_key(waiter.0) ==> {
                ||| old(self).state.acquisitions@.waiters[waiter.0].phase matches WaiterPhase::Launching { phase, .. }
                    && phase == EstablishmentPhase::Submitted
                ||| old(self).state.acquisitions@.waiters[waiter.0].phase is Ready
            },
        ensures
            final(self).wf(),
            old(self).only_queue_changed(&*final(self)),
            old(self).state.acquisitions@.same_order(final(self).state.acquisitions@),
            started == (old(self).state.acquisitions@.waiters.contains_key(waiter.0)
                && old(self).state.acquisitions@.waiters[waiter.0].phase is Launching),
            started ==> final(self).state.acquisitions@.waiters == old(self).state.acquisitions@.waiters.insert(
                waiter.0,
                crate::waiters::WaiterView {
                    requirement: old(self).state.acquisitions@.waiters[waiter.0].requirement,
                    phase: WaiterPhase::Launching {
                        phase: EstablishmentPhase::Started,
                        waker: crate::waiters::phase_waker(old(self).state.acquisitions@.waiters[waiter.0].phase),
                    },
                },
            ),
            !started ==> final(self).state.acquisitions@.waiters == old(self).state.acquisitions@.waiters,
    {
        self.state.acquisitions.start_establishment(waiter)
    }

    /// Commits one terminal establishment result to its launching waiter.
    ///
    /// A returned sender may already have served or cancelled the waiter;
    /// the losing result then comes back to run its ordinary fallback. A
    /// committed HTTP/1 result consumes an owed local turn; any other
    /// committed result clears a turn that local demand can no longer use.
    pub fn complete_establishment(&mut self, waiter: WaiterId, result: AcquisitionOutcome<S1, S2, E>) -> (effects:
        CellEffects<S1, S2, E, W>)
        requires
            old(self).wf(),
            old(self).state.acquisitions@.waiters.contains_key(waiter.0) ==> {
                ||| old(self).state.acquisitions@.waiters[waiter.0].phase is Launching
                ||| old(self).state.acquisitions@.waiters[waiter.0].phase is Ready
            },
        ensures
            final(self).wf(),
            final(self).id == old(self).id,
            final(self).eligibility_group == old(self).eligibility_group,
            final(self).bounded == old(self).bounded,
            final(self).state.h2@ == old(self).state.h2@,
            final(self).state.h1_supply_revision == old(self).state.h1_supply_revision,
            final(self).state.h2_supply_revision == old(self).state.h2_supply_revision,
            final(self).state.h1.records() == old(self).state.h1.records(),
            final(self).state.h1.idle_order() == old(self).state.h1.idle_order(),
            final(self).state.h1.reservation().state == old(self).state.h1.reservation().state,
            effects.demand_updates@ == Seq::<DemandSnapshot>::empty(),
            exists|install: ResultInstall<AcquisitionOutcome<S1, S2, E>, W>| {
                &&& establishment_installed(
                    old(self).state.acquisitions@,
                    final(self).state.acquisitions@,
                    waiter,
                    result,
                    install,
                )
                &&& effects.returned@ == present_events(install.returned_events@)
                &&& effects.waker == install.waker
                &&& final(self).state.h1.reservation().local_turn_owed == if !install.accepted {
                    old(self).state.h1.reservation().local_turn_owed
                } else if result is H1 {
                    false
                } else {
                    old(self).state.h1.reservation().local_turn_owed && final(self).state.local_h1_demand()
                }
            },
    {
        let served_with_h1 = match &result {
            AcquisitionOutcome::H1(_) => true,
            _ => false,
        };
        let install = self.state.acquisitions.install_establishment_result(waiter, result);
        let ghost installed = install;
        if install.accepted {
            if served_with_h1 {
                self.state.h1.consume_local_turn();
            } else {
                let local_h1_demand = self.state.acquisitions.can_accept_h1();
                self.state.h1.clear_unused_turn(local_h1_demand);
            }
        }
        let mut returned = Vec::new();
        let (first, second) = into_pair(install.returned_events);
        push_event(&mut returned, first);
        push_event(&mut returned, second);
        proof {
            lemma_present_pair(installed.returned_events@);
        }
        CellEffects { demand_updates: Vec::new(), returned, waker: install.waker }
    }

    /// Returns the HTTP/1 report if admission's view of this cell changed.
    pub fn take_h1_supply_update(&mut self) -> (update: Option<SupplyRevision<H1SupplyStatus>>)
        requires
            old(self).wf(),
            old(self).state.h1_supply_revision.revision < u64::MAX,
        ensures
            final(self).wf(),
            final(self).id == old(self).id,
            final(self).eligibility_group == old(self).eligibility_group,
            final(self).bounded == old(self).bounded,
            old(self).state.same_but_h1_report(&final(self).state),
            update == update_of(old(self).state.h1_supply_revision, old(self).state.spec_h1_supply_status(), true),
            final(self).state.h1_supply_revision == refreshed(
                old(self).state.h1_supply_revision,
                old(self).state.spec_h1_supply_status(),
                true,
            ),
    {
        self.state.take_h1_supply_update()
    }

    /// Reserves the FIFO head for one delivery of the named demand.
    pub fn reserve_delivery(&mut self, demand: crate::admission::DemandId) -> (reservation: DeliveryReservation)
        requires
            old(self).wf(),
            old(self).state.acquisitions@.next_demand_id < u64::MAX,
        ensures
            final(self).wf(),
            old(self).only_queue_changed(&*final(self)),
            delivery_reserved(
                old(self).state.acquisitions@,
                final(self).state.acquisitions@,
                demand,
                old(self).eligibility_group,
                reservation,
            ),
    {
        let reservation = self.state.acquisitions.reserve_delivery_waiter(demand, &self.eligibility_group);
        proof {
            old(self).state.acquisitions.lemma_reserve_keeps_settled(
                self.state.acquisitions@,
                demand,
                self.eligibility_group,
                reservation,
            );
            lemma_h2_waiters_kept(old(self).state.acquisitions@, self.state.acquisitions@, self.state.h2@, self.state.h2@);
        }
        reservation
    }

    /// Commits one reserved delivery: capacity to establish, or a borrowed
    /// HTTP/1 sender. Reports whether visible HTTP/2 makes the successor's
    /// HTTP/2 demand redundant.
    pub fn commit_delivery(&mut self, waiter: WaiterId, event: AcquisitionEvent<AcquisitionOutcome<S1, S2, E>>) -> (commit: (
        ResultInstall<AcquisitionOutcome<S1, S2, E>, W>,
        bool,
    ))
        requires
            old(self).wf(),
        ensures
            final(self).wf(),
            old(self).only_queue_changed(&*final(self)),
            commit.1 == old(self).h2_visible(),
            match event {
                AcquisitionEvent::Establish(permit) => capacity_installed(
                    old(self).state.acquisitions@,
                    final(self).state.acquisitions@,
                    waiter,
                    permit,
                    commit.0,
                ),
                AcquisitionEvent::Complete(result) => borrowed_h1_installed(
                    old(self).state.acquisitions@,
                    final(self).state.acquisitions@,
                    waiter,
                    result,
                    commit.0,
                ),
            },
    {
        let install = match event {
            AcquisitionEvent::Establish(permit) => self.state.acquisitions.install_capacity(waiter, permit),
            AcquisitionEvent::Complete(result) => self.state.acquisitions.install_borrowed_h1(waiter, result),
        };
        (install, self.state.h2.has_visible_h2())
    }

    /// Takes the terminal result of a ready waiter, removing the waiter.
    pub fn take_ready_result(&mut self, waiter: WaiterId) -> (result: Option<AcquisitionOutcome<S1, S2, E>>)
        requires
            old(self).wf(),
        ensures
            final(self).wf(),
            old(self).only_queue_changed(&*final(self)),
            ready_result_taken(old(self).state.acquisitions@, final(self).state.acquisitions@, waiter, result),
    {
        self.state.acquisitions.take_ready_result(waiter)
    }

    /// Takes the capacity granted to a waiter and retires the waiter,
    /// returning the retirement's cleanup work with the lease.
    ///
    /// Returns no lease while the waiter still waits for capacity.
    pub fn take_ready_lease(&mut self, waiter: WaiterId, waker: W) -> (taken: (Option<CapacityLease>, Option<CellEffects<S1, S2, E, W>>))
        requires
            old(self).wf(),
            old(self).state.acquisitions@.next_demand_id < u64::MAX - 1,
            old(self).state.acquisitions@.waiters.contains_key(waiter.0),
            !(old(self).state.acquisitions@.waiters[waiter.0].phase is DeliveryCancelled),
            !(old(self).state.acquisitions@.waiters[waiter.0].phase is Ready),
            !(old(self).state.acquisitions@.waiters[waiter.0].phase matches WaiterPhase::DeliveryPending { pending_result, .. } && pending_result is Some),
        ensures
            final(self).wf(),
            final(self).id == old(self).id,
            final(self).eligibility_group == old(self).eligibility_group,
            final(self).bounded == old(self).bounded,
            old(self).state.acquisitions@.waiters[waiter.0].phase matches WaiterPhase::ReadyToEstablish { permit }
                ==> taken.0 == permit.lease,
            !(old(self).state.acquisitions@.waiters[waiter.0].phase is ReadyToEstablish) ==> {
                &&& taken.0 is None
                &&& taken.1 is None
                &&& final(self).state.acquisitions@.fifo == old(self).state.acquisitions@.fifo
                &&& final(self).state.acquisitions@.demand == old(self).state.acquisitions@.demand
                &&& final(self).state.h1 == old(self).state.h1
                &&& final(self).state.h2@ == old(self).state.h2@
            },
            old(self).state.acquisitions@.waiters[waiter.0].phase is ReadyToEstablish ==> {
                let rest = QueueView {
                    waiters: old(self).state.acquisitions@.waiters.remove(waiter.0),
                    ..old(self).state.acquisitions@
                };
                &&& taken.1 is Some
                &&& !final(self).state.acquisitions@.waiters.contains_key(waiter.0)
                &&& if rest.has_h1_eligible() && old(self).state.h1.idle_order().len() > 0 {
                    &&& exists|mid: CellQueueView<S1, S2, E, W>, install: H1Install<AcquisitionOutcome<S1, S2, E>, W>|
                        #[trigger] returned_h1_installed(
                            mid,
                            final(self).state.acquisitions@,
                            AcquisitionOutcome::H1(old(self).state.newest_idle_owner()),
                            old(self).eligibility_group,
                            install,
                        ) && mid == rest && taken.1.unwrap().waker == install.waker
                    &&& final(self).state.h1.idle_order() == old(self).state.h1.idle_order().drop_last()
                } else {
                    &&& final(self).state.acquisitions@ == rest
                    &&& final(self).state.h1.records() == old(self).state.h1.records()
                    &&& final(self).state.h1.idle_order() == old(self).state.h1.idle_order()
                    &&& final(self).state.h1.reservation() == old(self).state.h1.reservation()
                    &&& final(self).state.h2@ == old(self).state.h2_without(waiter)
                    &&& taken.1.unwrap().demand_updates@ == Seq::<DemandSnapshot>::empty()
                    &&& taken.1.unwrap().returned@ == Seq::<AcquisitionEvent<AcquisitionOutcome<S1, S2, E>>>::empty()
                    &&& taken.1.unwrap().waker is None
                }
            },
    {
        let event = self.poll_waiter(waiter, waker);
        match event {
            Some(AcquisitionEvent::Establish(permit)) => {
                let ghost polled = self.state.acquisitions@;
                proof {
                    crate::waiters::lemma_poll_keeps_demand_room(old(self).state.acquisitions@, self.state.acquisitions@, waiter, waker, event);
                    assert(polled.waiters.remove(waiter.0) =~= old(self).state.acquisitions@.waiters.remove(waiter.0));
                    let rest = QueueView {
                        waiters: old(self).state.acquisitions@.waiters.remove(waiter.0),
                        ..old(self).state.acquisitions@
                    };
                    assert forall|m: CellQueueView<S1, S2, E, W>, c: Option<WaiterCancellation<AcquisitionOutcome<S1, S2, E>>>|
                        #[trigger] waiter_cancelled(polled, m, waiter, self.eligibility_group, c) implies m == rest by {
                        assert(m.waiters =~= rest.waiters);
                    }
                }
                let ghost polled_cell = *self;
                assert(polled_cell.state.newest_idle_owner() == old(self).state.newest_idle_owner());
                let retired = self.cancel_waiter(waiter);
                proof {
                    reveal_with_fuel(present_events, 3);
                    reveal_with_fuel(present, 3);
                    let rest = QueueView {
                        waiters: old(self).state.acquisitions@.waiters.remove(waiter.0),
                        ..old(self).state.acquisitions@
                    };
                    if rest.has_h1_eligible() {
                        rest.lemma_oldest_h1_exists();
                    }
                }
                (permit.into_lease(), retired)
            },
            _ => (None, None),
        }
    }

    /// Counts of the cell's waiting and retained acquisitions.
    pub fn snapshot(&self) -> (snapshot: CellSnapshot)
        requires
            self.wf(),
        ensures
            snapshot.waiting == self.state.acquisitions@.fifo.len(),
            snapshot.retained == self.state.acquisitions@.waiters.len(),
            snapshot.demand == match self.state.acquisitions@.demand {
                Some(ticket) => Some(ticket.id),
                None => None,
            },
    {
        self.state.acquisitions.snapshot()
    }

    /// Returns the number of retained acquisition attempts.
    pub fn retained_waiters_for_test(&self) -> (retained: usize)
        requires
            self.wf(),
        ensures
            retained == self.state.acquisitions@.waiters.len(),
    {
        self.state.acquisitions.snapshot().retained
    }

    /// Whether `new` keeps everything of `self` but the HTTP/1 records and
    /// the HTTP/1 report.
    pub open spec fn only_h1_changed(&self, new: &Self) -> bool {
        &&& new.id == self.id
        &&& new.eligibility_group == self.eligibility_group
        &&& new.bounded == self.bounded
        &&& new.state.acquisitions@ == self.state.acquisitions@
        &&& new.state.h2@ == self.state.h2@
        &&& new.state.h2_supply_revision == self.state.h2_supply_revision
    }

    /// Installs a fresh HTTP/1 connection selected by its launching request,
    /// with the HTTP/1 report if admission's view changed.
    ///
    /// A connection identity already installed comes back as an error.
    pub fn insert_selected_h1(&mut self, connection: u64, sender: S1) -> (installed: (
        Result<OwnedH1Sender<S1>, OwnedH1Sender<S1>>,
        Option<SupplyRevision<H1SupplyStatus>>,
    ))
        requires
            old(self).wf(),
            old(self).state.h1_supply_revision.revision < u64::MAX,
        ensures
            final(self).wf(),
            old(self).only_h1_changed(&*final(self)),
            selected_inserted(old(self).state.h1, final(self).state.h1, connection, sender, installed.0),
            installed.1 == update_of(
                old(self).state.h1_supply_revision,
                CellState { h1: final(self).state.h1, ..old(self).state }.spec_h1_supply_status(),
                true,
            ),
            final(self).state.h1_supply_revision == refreshed(
                old(self).state.h1_supply_revision,
                CellState { h1: final(self).state.h1, ..old(self).state }.spec_h1_supply_status(),
                true,
            ),
    {
        let installed = self.state.h1.insert_selected(connection, sender);
        let update = self.state.take_h1_supply_update();
        (installed, update)
    }

    /// Installs an HTTP/1 connection whose launching acquisition already
    /// completed, idle until `deadline`.
    pub fn insert_idle_h1(&mut self, connection: u64, sender: S1, deadline: Option<u64>) -> (installed: (
        Result<(), OwnedH1Sender<S1>>,
        Option<SupplyRevision<H1SupplyStatus>>,
    ))
        requires
            old(self).wf(),
            old(self).state.h1_supply_revision.revision < u64::MAX,
        ensures
            final(self).wf(),
            old(self).only_h1_changed(&*final(self)),
            idle_inserted(old(self).state.h1, final(self).state.h1, connection, sender, deadline, installed.0),
            installed.1 == update_of(
                old(self).state.h1_supply_revision,
                CellState { h1: final(self).state.h1, ..old(self).state }.spec_h1_supply_status(),
                true,
            ),
            final(self).state.h1_supply_revision == refreshed(
                old(self).state.h1_supply_revision,
                CellState { h1: final(self).state.h1, ..old(self).state }.spec_h1_supply_status(),
                true,
            ),
    {
        let installed = self.state.h1.insert_idle(connection, sender, deadline);
        let update = self.state.take_h1_supply_update();
        (installed, update)
    }

    /// Selects the newest reusable HTTP/1 sender for a direct request.
    ///
    /// A selection consumes an owed local turn. A bounded cell also returns
    /// its HTTP/1 report if admission's view changed.
    pub fn select_h1(&mut self) -> (selected: (Option<OwnedH1Sender<S1>>, Option<SupplyRevision<H1SupplyStatus>>))
        requires
            old(self).wf(),
            old(self).state.h1_supply_revision.revision < u64::MAX,
        ensures
            final(self).wf(),
            old(self).only_h1_changed(&*final(self)),
            old(self).state.h1.idle_order().len() == 0 ==> {
                &&& selected.0 is None
                &&& final(self).state.h1.records() == old(self).state.h1.records()
                &&& final(self).state.h1.idle_order() == old(self).state.h1.idle_order()
            },
            old(self).state.h1.idle_order().len() > 0 ==> {
                let id = old(self).state.h1.idle_order().last();
                &&& selected.0 == Some(old(self).state.newest_idle_owner())
                &&& final(self).state.h1.records() == old(self).state.h1.records().insert(id, H1SenderResidence::Selected)
                &&& final(self).state.h1.idle_order() == old(self).state.h1.idle_order().drop_last()
            },
            final(self).state.h1.reservation().state == old(self).state.h1.reservation().state,
            final(self).state.h1.reservation().local_turn_owed == (old(self).state.h1.reservation().local_turn_owed
                && selected.0 is None),
            old(self).bounded ==> selected.1 == update_of(
                old(self).state.h1_supply_revision,
                CellState { h1: final(self).state.h1, ..old(self).state }.spec_h1_supply_status(),
                true,
            ),
            old(self).bounded ==> final(self).state.h1_supply_revision == refreshed(
                old(self).state.h1_supply_revision,
                CellState { h1: final(self).state.h1, ..old(self).state }.spec_h1_supply_status(),
                true,
            ),
            !old(self).bounded ==> selected.1 is None
                && final(self).state.h1_supply_revision == old(self).state.h1_supply_revision,
    {
        let owner = self.state.h1.select_idle();
        if owner.is_some() {
            self.state.h1.consume_local_turn();
        }
        let ghost before_report = self.state;
        let update = if self.bounded {
            self.state.take_h1_supply_update()
        } else {
            None
        };
        proof {
            assert(before_report == CellState { h1: self.state.h1, ..old(self).state });
        }
        (owner, update)
    }

    /// Whether `new` is `self` after `owner` came back with `outcome`
    /// through the return policy of [`Self::return_h1_owner`].
    pub open spec fn h1_returned(
        &self,
        new: &Self,
        owner: OwnedH1Sender<S1>,
        idle_deadline: Option<u64>,
        outcome: H1ReturnOutcome<S1, S2, E, W>,
    ) -> bool {
        &&& new.id == self.id
        &&& new.eligibility_group == self.eligibility_group
        &&& new.bounded == self.bounded
        &&& exists|decision: H1ReturnDecision<S1, S2, E, W>| #![trigger return_decided(self.state, new.state, owner, idle_deadline, self.eligibility_group, decision)] {
            &&& return_decided(self.state, new.state, owner, idle_deadline, self.eligibility_group, decision)
            &&& match decision {
                H1ReturnDecision::Retire { owner: retired, rejected_match } => outcome matches H1ReturnOutcome::Retire { owner: o, rejected_match: r }
                    && o == retired && r == rejected_match,
                H1ReturnDecision::Intercepted { match_id, owner: taken } => outcome matches H1ReturnOutcome::Intercepted { match_id: m, owner: o }
                    && m == match_id && o == taken,
                H1ReturnDecision::Installed { install, .. } => outcome matches H1ReturnOutcome::Installed(effects)
                    && effects.demand_updates@ == self.published(install.demand_updates@)
                    && effects.returned@ == present_events(seq![install.returned_event])
                    && effects.waker == install.waker,
                H1ReturnDecision::Idle => outcome is Idle,
            }
        }
    }

    /// Returns a reusable sender to a waiting peer reservation, the oldest
    /// compatible local attempt, or the idle set.
    pub fn return_h1_owner(&mut self, owner: OwnedH1Sender<S1>, idle_deadline: Option<u64>) -> (outcome: H1ReturnOutcome<S1, S2, E, W>)
        requires
            old(self).wf(),
            old(self).state.acquisitions@.next_demand_id < u64::MAX,
            old(self).state.h1_supply_revision.revision < u64::MAX,
        ensures
            final(self).wf(),
            old(self).h1_returned(&*final(self), owner, idle_deadline, outcome),
    {
        let decision = self.state.return_h1(owner, idle_deadline, &self.eligibility_group);
        assert(return_decided(old(self).state, self.state, owner, idle_deadline, self.eligibility_group, decision));
        proof {
            let o = old(self).state;
            if o.takes_back(owner) && !(o.h1.reservation().state is Installed) && o.local_h1_demand() {
                let reused = OwnedH1Sender { reused: true, ..owner };
                lemma_returned_h1_keeps_settled(
                    o.acquisitions@,
                    self.state.acquisitions@,
                    AcquisitionOutcome::H1(reused),
                    self.eligibility_group,
                    decision->install,
                );
            }
            lemma_h2_waiters_kept(o.acquisitions@, self.state.acquisitions@, o.h2@, self.state.h2@);
        }
        match decision {
            H1ReturnDecision::Retire { owner, rejected_match } => H1ReturnOutcome::Retire { owner, rejected_match },
            H1ReturnDecision::Intercepted { match_id, owner } => H1ReturnOutcome::Intercepted { match_id, owner },
            H1ReturnDecision::Installed { waiter: _, install } => {
                let mut demand_updates = Vec::new();
                self.publish_into(&mut demand_updates, install.demand_updates);
                let mut returned = Vec::new();
                push_event(&mut returned, install.returned_event);
                assert(Seq::<AcquisitionEvent<AcquisitionOutcome<S1, S2, E>>>::empty() + present_events(seq![install.returned_event]) =~= present_events(seq![install.returned_event]));
                assert(Seq::<DemandSnapshot>::empty() + old(self).published(install.demand_updates@) =~= old(self).published(install.demand_updates@));
                H1ReturnOutcome::Installed(CellEffects { demand_updates, returned, waker: install.waker })
            },
            H1ReturnDecision::Idle => H1ReturnOutcome::Idle,
        }
    }

    /// Settles one event that a transition handed back: a sender recorded
    /// here goes through the return policy of [`Self::return_h1_owner`] and
    /// becomes idle, serves a waiter, a peer, or retires; everything else
    /// leaves the cell unchanged and comes back for the owner of its
    /// resource: a sender of another cell, a prospective HTTP/2 request for
    /// its connection cell, or capacity for admission.
    pub fn settle_returned_event(
        &mut self,
        event: AcquisitionEvent<AcquisitionOutcome<S1, S2, E>>,
        idle_deadline: Option<u64>,
    ) -> (settlement: ReturnedEventSettlement<S1, S2, E, W>)
        requires
            old(self).wf(),
            old(self).state.acquisitions@.next_demand_id < u64::MAX,
            old(self).state.h1_supply_revision.revision < u64::MAX,
        ensures
            final(self).wf(),
            match event {
                AcquisitionEvent::Complete(AcquisitionOutcome::H1(owner)) => {
                    if old(self).state.h1.records().contains_key(owner.connection) {
                        settlement matches ReturnedEventSettlement::H1(outcome)
                            && old(self).h1_returned(&*final(self), owner, idle_deadline, outcome)
                    } else {
                        settlement == ReturnedEventSettlement::<S1, S2, E, W>::ForeignH1(owner)
                            && *final(self) == *old(self)
                    }
                },
                AcquisitionEvent::Complete(AcquisitionOutcome::H2(grant)) => {
                    settlement == ReturnedEventSettlement::<S1, S2, E, W>::H2(grant) && *final(self) == *old(self)
                },
                AcquisitionEvent::Establish(permit) => {
                    settlement == ReturnedEventSettlement::<S1, S2, E, W>::Capacity(permit.lease)
                        && *final(self) == *old(self)
                },
                _ => settlement is Discarded && *final(self) == *old(self),
            },
    {
        match event {
            AcquisitionEvent::Complete(AcquisitionOutcome::H1(owner)) => {
                if self.state.h1.has_record(owner.connection) {
                    ReturnedEventSettlement::H1(self.return_h1_owner(owner, idle_deadline))
                } else {
                    ReturnedEventSettlement::ForeignH1(owner)
                }
            },
            AcquisitionEvent::Complete(AcquisitionOutcome::H2(grant)) => ReturnedEventSettlement::H2(grant),
            AcquisitionEvent::Establish(permit) => ReturnedEventSettlement::Capacity(permit.into_lease()),
            _ => ReturnedEventSettlement::Discarded,
        }
    }

    /// Marks an externally owned sender's record closing; returns whether
    /// the caller must close the connection.
    pub fn begin_retire_h1(&mut self, owner: &OwnedH1Sender<S1>) -> (should_close: bool)
        requires
            old(self).wf(),
            old(self).state.h1.records().contains_key(owner.connection)
                ==> !(old(self).state.h1.records()[owner.connection] is Idle),
        ensures
            final(self).wf(),
            old(self).only_h1_changed(&*final(self)),
            final(self).state.h1_supply_revision == old(self).state.h1_supply_revision,
            owned_closed(old(self).state.h1, final(self).state.h1, *owner, should_close),
    {
        self.state.h1.close_owned(owner)
    }

    /// Removes a closing HTTP/1 record after its connection closed and
    /// returns the HTTP/1 report if admission's view changed.
    pub fn remove_closed_h1(&mut self, id: u64) -> (update: Option<SupplyRevision<H1SupplyStatus>>)
        requires
            old(self).wf(),
            old(self).state.h1_supply_revision.revision < u64::MAX,
        ensures
            final(self).wf(),
            old(self).only_h1_changed(&*final(self)),
            closed_removed(old(self).state.h1, final(self).state.h1, id),
            update == update_of(
                old(self).state.h1_supply_revision,
                CellState { h1: final(self).state.h1, ..old(self).state }.spec_h1_supply_status(),
                true,
            ),
            final(self).state.h1_supply_revision == refreshed(
                old(self).state.h1_supply_revision,
                CellState { h1: final(self).state.h1, ..old(self).state }.spec_h1_supply_status(),
                true,
            ),
    {
        self.state.h1.remove_closed(id);
        self.state.take_h1_supply_update()
    }

    /// Begins close of an HTTP/1 record named without its sender, with the
    /// HTTP/1 report if admission's view changed; `None` when the record is
    /// absent or already closing.
    pub fn begin_close_h1(&mut self, id: u64) -> (close: Option<(H1CloseTransition<S1>, Option<SupplyRevision<H1SupplyStatus>>)>)
        requires
            old(self).wf(),
            old(self).state.h1_supply_revision.revision < u64::MAX,
        ensures
            final(self).wf(),
            old(self).only_h1_changed(&*final(self)),
            close_begun(
                old(self).state.h1,
                final(self).state.h1,
                id,
                match close {
                    Some((t, _)) => Some(t),
                    None => None,
                },
            ),
            close is Some ==> close.unwrap().1 == update_of(
                old(self).state.h1_supply_revision,
                CellState { h1: final(self).state.h1, ..old(self).state }.spec_h1_supply_status(),
                true,
            ),
            close is Some ==> final(self).state.h1_supply_revision == refreshed(
                old(self).state.h1_supply_revision,
                CellState { h1: final(self).state.h1, ..old(self).state }.spec_h1_supply_status(),
                true,
            ),
            close is None ==> final(self).state.h1_supply_revision == old(self).state.h1_supply_revision,
    {
        let transition = self.state.h1.begin_close(id);
        match transition {
            Some(t) => {
                let update = self.state.take_h1_supply_update();
                Some((t, update))
            },
            None => None,
        }
    }

    /// Decides whether a peer may reserve this cell's HTTP/1 connection.
    pub fn commit_h1_reservation(&mut self, match_id: H1MatchId) -> (decision: H1ReservationDecision<OwnedH1Sender<S1>>)
        requires
            old(self).wf(),
            old(self).state.h1_supply_revision.revision < u64::MAX,
        ensures
            final(self).wf(),
            old(self).only_h1_changed(&*final(self)),
            reuse_decided(old(self).state, final(self).state, match_id, decision),
    {
        self.state.install_reuse(match_id)
    }

    /// Clears an installed or resolving reservation after request cancellation.
    pub fn cancel_h1_reservation(&mut self, match_id: H1MatchId) -> (report: SupplyRevision<H1SupplyStatus>)
        requires
            old(self).wf(),
            old(self).state.h1_supply_revision.revision < u64::MAX,
        ensures
            final(self).wf(),
            old(self).only_h1_changed(&*final(self)),
            report == final(self).state.h1_supply_revision,
            report == refreshed(old(self).state.h1_supply_revision, final(self).state.spec_h1_supply_status(), true),
            final(self).state.h1.records() == old(self).state.h1.records(),
            final(self).state.h1.idle_order() == old(self).state.h1.idle_order(),
            !crate::h1::reservation_names(final(self).state.h1.reservation().state, match_id),
    {
        self.state.cancel_reuse(match_id)
    }

    /// Releases a rejected candidate's reservation before its sender follows
    /// ordinary return, and reports the cell's availability.
    pub fn reject_h1_match(&mut self, match_id: H1MatchId) -> (report: SupplyRevision<H1SupplyStatus>)
        requires
            old(self).wf(),
            old(self).state.h1_supply_revision.revision < u64::MAX,
        ensures
            final(self).wf(),
            old(self).only_h1_changed(&*final(self)),
            report == final(self).state.h1_supply_revision,
            report == refreshed(old(self).state.h1_supply_revision, final(self).state.spec_h1_supply_status(), true),
            final(self).state.h1.records() == old(self).state.h1.records(),
            final(self).state.h1.idle_order() == old(self).state.h1.idle_order(),
            final(self).state.h1.reservation().local_turn_owed == old(self).state.h1.reservation().local_turn_owed,
            !crate::h1::reservation_names(final(self).state.h1.reservation().state, match_id),
    {
        self.state.reject_reuse_candidate(match_id);
        self.state.current_h1_supply_revision()
    }

    /// Revalidates one match and commits its provisional sender for
    /// dispatch; the sender comes back when the match or its record changed.
    pub fn commit_h1_match(&mut self, match_id: H1MatchId, owner: OwnedH1Sender<S1>) -> (committed: Result<
        OwnedH1Sender<S1>,
        OwnedH1Sender<S1>,
    >)
        requires
            old(self).wf(),
        ensures
            final(self).wf(),
            old(self).only_h1_changed(&*final(self)),
            final(self).state.h1_supply_revision == old(self).state.h1_supply_revision,
            final(self).state.h1.reservation() == old(self).state.h1.reservation(),
            final(self).state.h1.idle_order() == old(self).state.h1.idle_order(),
            ({
                let ok = crate::h1::reservation_names(old(self).state.h1.reservation().state, match_id)
                    && old(self).state.takes_back(owner);
                &&& ok ==> committed == Ok::<OwnedH1Sender<S1>, OwnedH1Sender<S1>>(owner)
                    && final(self).state.h1.records() == old(self).state.h1.records().insert(owner.connection, H1SenderResidence::Selected)
                &&& !ok ==> committed == Err::<OwnedH1Sender<S1>, OwnedH1Sender<S1>>(owner)
                    && final(self).state.h1.records() == old(self).state.h1.records()
            }),
    {
        if self.state.commit_reuse(match_id, &owner) {
            Ok(owner)
        } else {
            Err(owner)
        }
    }

    /// Returns whether the cell's reservation still names `match_id`; a
    /// reclaim proceeds only then.
    pub fn names_h1_match(&self, match_id: H1MatchId) -> (named: bool)
        ensures
            named == crate::h1::reservation_names(self.state.h1.reservation().state, match_id),
    {
        self.state.h1.names_peer_reservation(match_id)
    }

    /// Completes local match state after a requesting cell accepted or
    /// refused the sender, and reports the cell's availability.
    pub fn complete_h1_match(&mut self, match_id: H1MatchId, transferred: bool) -> (report: SupplyRevision<H1SupplyStatus>)
        requires
            old(self).wf(),
            old(self).state.h1_supply_revision.revision < u64::MAX,
        ensures
            final(self).wf(),
            old(self).only_h1_changed(&*final(self)),
            report == final(self).state.h1_supply_revision,
            report == refreshed(old(self).state.h1_supply_revision, final(self).state.spec_h1_supply_status(), true),
            final(self).state.h1.records() == old(self).state.h1.records(),
            final(self).state.h1.idle_order() == old(self).state.h1.idle_order(),
            transferred && old(self).state.h1.reservation().state == H1ReservationState::Resolving(match_id) ==> {
                &&& final(self).state.h1.reservation().state == H1ReservationState::Available
                &&& final(self).state.h1.reservation().local_turn_owed == (old(self).state.h1.reservation().local_turn_owed
                    || old(self).state.local_h1_demand())
            },
            !transferred ==> final(self).state.h1.reservation().local_turn_owed == old(self).state.h1.reservation().local_turn_owed
                && !crate::h1::reservation_names(final(self).state.h1.reservation().state, match_id),
    {
        self.state.finish_reuse(match_id, transferred)
    }

    /// Returns the prospective and accepted request counts of an installed
    /// HTTP/2 generation.
    pub fn h2_request_counts(&self, generation: H2GenerationId) -> (counts: Option<(usize, usize)>)
        requires
            self.wf(),
        ensures
            counts == if self.state.h2@.generations.contains_key(generation.0) {
                Some(
                    (
                        self.state.h2@.generations[generation.0].prospective_requests,
                        self.state.h2@.generations[generation.0].active_requests,
                    ),
                )
            } else {
                None::<(usize, usize)>
            },
    {
        self.state.h2.request_counts(generation)
    }

    /// Returns whether `waiter` participates in the current HTTP/2 flight.
    pub fn is_h2_flight_participant(&self, waiter: WaiterId) -> (participant: bool)
        requires
            self.wf(),
        ensures
            participant == (self.state.h2@.flight is Some && self.state.h2@.flight.unwrap().participants.contains(
                waiter.0,
            )),
    {
        self.state.h2.is_flight_participant(waiter)
    }

    /// Returns the stage of an acquisition waiter, when it is retained.
    pub fn waiter_stage(&self, waiter: WaiterId) -> (stage: Option<crate::waiters::WaiterStage>)
        requires
            self.wf(),
        ensures
            stage == if self.state.acquisitions@.waiters.contains_key(waiter.0) {
                Some(crate::waiters::stage_of(self.state.acquisitions@.waiters[waiter.0].phase))
            } else {
                None::<crate::waiters::WaiterStage>
            },
    {
        self.state.acquisitions.waiter_stage(waiter)
    }

    /// Returns whether `waiter` may still take an establishment result: it
    /// was registered here and is launching, resolved, or gone.
    pub fn can_take_establishment_result(&self, waiter: WaiterId) -> (accepts: bool)
        requires
            self.wf(),
        ensures
            accepts == accepts_establishment_result(self.state.acquisitions@, waiter.0),
    {
        let (next_waiter, _) = self.state.acquisitions.identity_counters();
        let settled = match self.state.acquisitions.waiter_stage(waiter) {
            Some(crate::waiters::WaiterStage::Launching) => true,
            Some(crate::waiters::WaiterStage::Ready) => true,
            Some(_) => false,
            None => true,
        };
        waiter.0 < next_waiter && settled
    }

    /// Every waiter that the HTTP/2 state retains, as a participant of the
    /// running handshake or as a waiter transferred to the accepting
    /// generation, was registered here and is launching, already resolved,
    /// or gone: no retained waiter is back on the capacity path.
    pub proof fn lemma_retained_waiters_are_settled(&self, waiter: WaiterId)
        requires
            self.wf(),
            h2_retains(self.state.h2@, waiter.0),
        ensures
            waiter.0 < self.state.acquisitions@.next_waiter,
            self.state.acquisitions@.waiters.contains_key(waiter.0) ==> {
                ||| self.state.acquisitions@.waiters[waiter.0].phase is Launching
                ||| self.state.acquisitions@.waiters[waiter.0].phase is Ready
            },
    {
    }

    /// Returns the installed and idle HTTP/1 record counts.
    pub fn h1_counts(&self) -> (counts: (usize, usize))
        requires
            self.wf(),
        ensures
            counts.0 == self.state.h1.records().len(),
            counts.1 == self.state.h1.idle_order().len(),
    {
        self.state.h1.counts()
    }

    /// Whether `new` keeps everything of `self` but the HTTP/2 state and
    /// the HTTP/2 report.
    pub open spec fn only_h2_changed(&self, new: &Self) -> bool {
        &&& new.id == self.id
        &&& new.eligibility_group == self.eligibility_group
        &&& new.bounded == self.bounded
        &&& new.state.acquisitions@ == self.state.acquisitions@
        &&& new.state.h1 == self.state.h1
        &&& new.state.h1_supply_revision == self.state.h1_supply_revision
    }

    /// Whether `grant` is a prospective request on this cell's generation
    /// `generation`, whose record was `record` before the activation.
    pub open spec fn grants(
        &self,
        grant: H2Grant<S2>,
        generation: H2GenerationId,
        record: H2GenerationView<S2>,
    ) -> bool where S2: Clone {
        &&& grant.generation == generation
        &&& grant.connection_partition == self.id.spec_partition()
        &&& grant.resources.reused == record.has_accepted_request
        &&& grant.resources.connection == record.connection
        &&& cloned(record.sender, grant.resources.sender)
    }

    /// The HTTP/2 state after one more prospective request on `generation`.
    pub open spec fn activated(view: crate::h2::H2CellView<S2>, generation: H2GenerationId) -> crate::h2::H2CellView<S2> {
        let record = view.generations[generation.0];
        crate::h2::H2CellView {
            generations: view.generations.insert(
                generation.0,
                H2GenerationView { prospective_requests: (record.prospective_requests + 1) as usize, ..record },
            ),
            ..view
        }
    }

    /// Reserves a prospective request on the exact local generation, with the
    /// HTTP/2 report if admission's view changed.
    pub fn activate_h2(&mut self, generation: H2GenerationId) -> (activation: Option<(H2Grant<S2>, Option<SupplyRevision<H2SupplyStatus>>)>)
        where
            S2: Clone,
        requires
            old(self).wf(),
            old(self).state.h2_supply_revision.revision < u64::MAX,
            old(self).state.h2@.accepting == Some(generation)
                ==> old(self).state.h2@.generations[generation.0].prospective_requests < usize::MAX,
        ensures
            final(self).wf(),
            old(self).only_h2_changed(&*final(self)),
            activation is Some == (old(self).state.h2@.accepting == Some(generation)),
            activation is None ==> final(self).state.h2@ == old(self).state.h2@
                && final(self).state.h2_supply_revision == old(self).state.h2_supply_revision,
            activation is Some ==> {
                let (grant, update) = activation.unwrap();
                &&& old(self).grants(grant, generation, old(self).state.h2@.generations[generation.0])
                &&& grant.turn is None
                &&& final(self).state.h2@ == Self::activated(old(self).state.h2@, generation)
                &&& update == update_of(
                    old(self).state.h2_supply_revision,
                    CellState { h2: final(self).state.h2, ..old(self).state }.spec_h2_supply_status(),
                    false,
                )
                &&& final(self).state.h2_supply_revision == refreshed(
                    old(self).state.h2_supply_revision,
                    CellState { h2: final(self).state.h2, ..old(self).state }.spec_h2_supply_status(),
                    false,
                )
            },
    {
        let resources = match self.state.h2.activate(generation) {
            Some(resources) => resources,
            None => {
                return None;
            },
        };
        let ghost before_report = self.state;
        let update = self.state.take_h2_supply_update();
        proof {
            assert(before_report == CellState { h2: self.state.h2, ..old(self).state });
        }
        let grant = H2Grant { generation, connection_partition: self.id.partition(), resources, turn: None };
        Some((grant, update))
    }

    /// Converts a prospective request to an accepted one and restarts the
    /// generation's idle deadline; reports both outcomes.
    pub fn accept_h2_activation(&mut self, generation: H2GenerationId, deadline: Option<u64>) -> (accepted: (bool, bool))
        requires
            old(self).wf(),
            old(self).state.h2@.generations.contains_key(generation.0)
                ==> old(self).state.h2@.generations[generation.0].active_requests < usize::MAX,
        ensures
            final(self).wf(),
            old(self).only_h2_changed(&*final(self)),
            final(self).state.h2_supply_revision == old(self).state.h2_supply_revision,
            accepted.0 == (old(self).state.h2@.generations.contains_key(generation.0)
                && old(self).state.h2@.generations[generation.0].prospective_requests > 0),
            accepted.1 == (accepted.0 && old(self).state.h2@.accepting == Some(generation)),
            !accepted.0 ==> final(self).state.h2@ == old(self).state.h2@,
            accepted.0 ==> {
                let record = old(self).state.h2@.generations[generation.0];
                final(self).state.h2@ == (crate::h2::H2CellView {
                    generations: old(self).state.h2@.generations.insert(
                        generation.0,
                        H2GenerationView {
                            prospective_requests: (record.prospective_requests - 1) as usize,
                            active_requests: (record.active_requests + 1) as usize,
                            has_accepted_request: true,
                            idle_deadline: if accepted.1 { deadline } else { record.idle_deadline },
                            ..record
                        },
                    ),
                    ..old(self).state.h2@
                })
            },
    {
        let accepted = self.state.h2.accept(generation);
        let ghost mid = self.state.h2@;
        let reset = accepted && self.state.h2.reset_idle_deadline(generation, deadline);
        proof {
            if accepted {
                let record = old(self).state.h2@.generations[generation.0];
                let expected = old(self).state.h2@.generations.insert(
                    generation.0,
                    H2GenerationView {
                        prospective_requests: (record.prospective_requests - 1) as usize,
                        active_requests: (record.active_requests + 1) as usize,
                        has_accepted_request: true,
                        idle_deadline: if reset { deadline } else { record.idle_deadline },
                        ..record
                    },
                );
                assert(self.state.h2@.generations =~= expected);
            }
        }
        (accepted, reset)
    }

    /// Cancels one prospective request; a drained generation it held is
    /// detached. Returns the HTTP/2 report if admission's view changed.
    pub fn cancel_h2_activation(&mut self, generation: H2GenerationId) -> (cancelled: (
        Option<H2Generation<S2>>,
        Option<SupplyRevision<H2SupplyStatus>>,
    ))
        requires
            old(self).wf(),
            old(self).state.h2_supply_revision.revision < u64::MAX,
            old(self).state.h2@.generations.contains_key(generation.0),
            old(self).state.h2@.generations[generation.0].prospective_requests > 0,
        ensures
            final(self).wf(),
            old(self).only_h2_changed(&*final(self)),
            ({
                let record = old(self).state.h2@.generations[generation.0];
                let updated = H2GenerationView { prospective_requests: (record.prospective_requests - 1) as usize, ..record };
                releases_record(old(self).state.h2@, final(self).state.h2@, generation, updated, cancelled.0)
            }),
            cancelled.1 == update_of(
                old(self).state.h2_supply_revision,
                CellState { h2: final(self).state.h2, ..old(self).state }.spec_h2_supply_status(),
                false,
            ),
            final(self).state.h2_supply_revision == refreshed(
                old(self).state.h2_supply_revision,
                CellState { h2: final(self).state.h2, ..old(self).state }.spec_h2_supply_status(),
                false,
            ),
    {
        let removed = self.state.h2.cancel(generation);
        proof {
            old(self).state.h2.lemma_wf();
            lemma_h2_waiters_kept(old(self).state.acquisitions@, self.state.acquisitions@, old(self).state.h2@, self.state.h2@);
        }
        let ghost before_report = self.state;
        let update = self.state.take_h2_supply_update();
        proof {
            assert(before_report == CellState { h2: self.state.h2, ..old(self).state });
        }
        (removed, update)
    }

    /// Releases one accepted request after both of its sides finished; a
    /// drained generation it held is detached.
    pub fn release_h2_request(&mut self, generation: H2GenerationId) -> (released: (
        Option<H2Generation<S2>>,
        Option<SupplyRevision<H2SupplyStatus>>,
    ))
        requires
            old(self).wf(),
            old(self).state.h2_supply_revision.revision < u64::MAX,
            old(self).state.h2@.generations.contains_key(generation.0),
            old(self).state.h2@.generations[generation.0].active_requests > 0,
        ensures
            final(self).wf(),
            old(self).only_h2_changed(&*final(self)),
            ({
                let record = old(self).state.h2@.generations[generation.0];
                let updated = H2GenerationView { active_requests: (record.active_requests - 1) as usize, ..record };
                releases_record(old(self).state.h2@, final(self).state.h2@, generation, updated, released.0)
            }),
            released.1 == update_of(
                old(self).state.h2_supply_revision,
                CellState { h2: final(self).state.h2, ..old(self).state }.spec_h2_supply_status(),
                false,
            ),
            final(self).state.h2_supply_revision == refreshed(
                old(self).state.h2_supply_revision,
                CellState { h2: final(self).state.h2, ..old(self).state }.spec_h2_supply_status(),
                false,
            ),
    {
        let removed = self.state.h2.complete_request(generation);
        proof {
            old(self).state.h2.lemma_wf();
            lemma_h2_waiters_kept(old(self).state.acquisitions@, self.state.acquisitions@, old(self).state.h2@, self.state.h2@);
        }
        let ghost before_report = self.state;
        let update = self.state.take_h2_supply_update();
        proof {
            assert(before_report == CellState { h2: self.state.h2, ..old(self).state });
        }
        (removed, update)
    }

    /// Returns whether one exact generation still accepts activations.
    pub fn h2_generation_is_accepting(&self, generation: H2GenerationId) -> (accepting: bool)
        ensures
            accepting == (self.state.h2@.accepting == Some(generation)),
    {
        self.state.h2.is_accepting(generation)
    }

    /// Attaches visibility of one peer generation route for this cell's
    /// named demand, which stays queued behind the route gate.
    ///
    /// Refused for a route of another eligibility group, a route to this
    /// cell's own partition, or a demand that is no longer current.
    pub fn attach_h2_route(&mut self, route: H2Route, group: EligibilityGroup, demand: crate::admission::DemandId) -> (attached: bool)
        requires
            old(self).wf(),
            old(self).state.acquisitions@.demand is Some && old(self).state.acquisitions@.demand.unwrap().id == demand
                ==> old(self).state.acquisitions@.demand.unwrap().version.0 < u64::MAX - 2,
        ensures
            final(self).wf(),
            final(self).id == old(self).id,
            final(self).bounded == old(self).bounded,
            final(self).eligibility_group == old(self).eligibility_group,
            final(self).state.h1 == old(self).state.h1,
            final(self).state.h1_supply_revision == old(self).state.h1_supply_revision,
            final(self).state.h2_supply_revision == old(self).state.h2_supply_revision,
            attached == (old(self).eligibility_group == group
                && route.spec_id().connection_partition != old(self).id.spec_partition()
                && old(self).state.acquisitions@.demand is Some
                && old(self).state.acquisitions@.demand.unwrap().id == demand),
            !attached ==> final(self).state.acquisitions@ == old(self).state.acquisitions@
                && final(self).state.h2@ == old(self).state.h2@,
            attached ==> {
                let ticket = old(self).state.acquisitions@.demand.unwrap();
                let cutoff = if old(self).state.acquisitions@.waiters.dom() == Set::<u64>::empty() {
                    None
                } else {
                    Some(WaiterId((old(self).state.acquisitions@.next_waiter - 1) as u64))
                };
                &&& final(self).state.acquisitions@ == (QueueView {
                    demand: Some(crate::waiters::DemandTicket {
                        version: crate::admission::SnapshotVersion((ticket.version.0 + 2) as u64),
                        ..ticket
                    }),
                    ..old(self).state.acquisitions@
                })
                &&& final(self).state.h2@ == (crate::h2::H2CellView {
                    peer_route: attached_route(old(self).state.h2@, route, cutoff),
                    ..old(self).state.h2@
                })
            },
    {
        if self.eligibility_group != group || route.connection_partition() == self.id.partition() {
            return false;
        }
        if !self.state.acquisitions.suppress_published_demand(demand) {
            return false;
        }
        let cutoff = self.state.acquisitions.publication_cutoff();
        self.state.h2.attach_peer_route(route, cutoff);
        true
    }

    /// Returns the accepting generation for a direct request when no queued
    /// acquisition precedes it, with the prospective request it reserved.
    pub fn select_local_h2(&mut self) -> (activation: Option<(H2Grant<S2>, Option<SupplyRevision<H2SupplyStatus>>)>)
        where
            S2: Clone,
        requires
            old(self).wf(),
            old(self).state.h2_supply_revision.revision < u64::MAX,
            old(self).state.h2@.accepting is Some
                ==> old(self).state.h2@.generations[old(self).state.h2@.accepting.unwrap().0].prospective_requests < usize::MAX,
        ensures
            final(self).wf(),
            old(self).only_h2_changed(&*final(self)),
            ({
                let allowed = !old(self).state.acquisitions@.has_h2_eligible()
                    && old(self).state.h2@.local_gate is Open && old(self).state.h2@.accepting is Some;
                &&& activation is Some == allowed
                &&& !allowed ==> final(self).state.h2@ == old(self).state.h2@
                    && final(self).state.h2_supply_revision == old(self).state.h2_supply_revision
                &&& allowed ==> {
                    let generation = old(self).state.h2@.accepting.unwrap();
                    let (grant, update) = activation.unwrap();
                    &&& old(self).grants(grant, generation, old(self).state.h2@.generations[generation.0])
                    &&& grant.turn is None
                    &&& final(self).state.h2@ == Self::activated(old(self).state.h2@, generation)
                    &&& update == update_of(
                        old(self).state.h2_supply_revision,
                        CellState { h2: final(self).state.h2, ..old(self).state }.spec_h2_supply_status(),
                        false,
                    )
                    &&& final(self).state.h2_supply_revision == refreshed(
                        old(self).state.h2_supply_revision,
                        CellState { h2: final(self).state.h2, ..old(self).state }.spec_h2_supply_status(),
                        false,
                    )
                }
            }),
    {
        let queued = self.state.acquisitions.has_h2_candidate();
        if !self.state.h2.direct_is_allowed(queued) {
            return None;
        }
        let generation = match self.state.h2.accepting() {
            Some(generation) => generation,
            None => {
                return None;
            },
        };
        self.activate_h2(generation)
    }

    /// Returns the open peer route when no queued acquisition precedes a
    /// direct request.
    pub fn open_peer_route(&self) -> (route: Option<H2Route>)
        requires
            self.wf(),
        ensures
            route == match self.state.h2@.peer_route {
                Some(peer) => if !self.state.acquisitions@.has_h2_eligible() && peer.activation_gate
                    == (H2ActivationGate::Open { generation: peer.route.spec_id().generation }) {
                    Some(peer.route)
                } else {
                    None
                },
                None => None,
            },
    {
        let queued = self.state.acquisitions.has_h2_candidate();
        self.state.h2.open_peer_route(queued)
    }

    /// Revalidates a direct peer route after its connection-cell crossing.
    pub fn direct_peer_route_is_current(&self, route: H2RouteId) -> (current: bool)
        requires
            self.wf(),
        ensures
            current == (!self.state.acquisitions@.has_h2_eligible() && match self.state.h2@.peer_route {
                Some(peer) => peer.route.spec_id() == route
                    && peer.activation_gate == (H2ActivationGate::Open { generation: route.generation }),
                None => false,
            }),
    {
        let queued = self.state.acquisitions.has_h2_candidate();
        self.state.h2.direct_peer_route_is_current(route, queued)
    }

    /// Removes one exact stale route; returns the demand to republish, if
    /// the route was still attached.
    pub fn detach_stale_peer_route(&mut self, route: H2RouteId) -> (detached: Option<Option<DemandSnapshot>>)
        requires
            old(self).wf(),
        ensures
            final(self).wf(),
            old(self).only_h2_changed(&*final(self)),
            final(self).state.h2_supply_revision == old(self).state.h2_supply_revision,
            detached is Some == match old(self).state.h2@.peer_route {
                Some(peer) => peer.route.spec_id() == route,
                None => false,
            },
            detached is None ==> final(self).state.h2@ == old(self).state.h2@,
            detached is Some ==> {
                &&& final(self).state.h2@ == (crate::h2::H2CellView { peer_route: None, ..old(self).state.h2@ })
                &&& detached.unwrap() == if old(self).bounded {
                    match old(self).state.acquisitions@.demand {
                        Some(ticket) => Some(crate::waiters::ticket_snapshot(ticket, old(self).eligibility_group)),
                        None => None,
                    }
                } else {
                    None
                }
            },
    {
        if !self.state.h2.detach_peer_route(route) {
            return None;
        }
        if !self.bounded {
            return Some(None);
        }
        Some(self.state.acquisitions.current_demand_snapshot(&self.eligibility_group))
    }

    /// Prepares the peer route's next activation for the oldest queued
    /// HTTP/2 acquisition.
    pub fn prepare_peer_h2(&mut self) -> (prepared: Option<PreparedPeerActivation>)
        requires
            old(self).wf(),
        ensures
            final(self).wf(),
            old(self).only_h2_changed(&*final(self)),
            final(self).state.h2_supply_revision == old(self).state.h2_supply_revision,
            (prepared, final(self).state.h2@.peer_route) == peer_activation(
                old(self).state.h2@.peer_route,
                old(self).state.acquisitions@,
            ),
            final(self).state.h2@ == (crate::h2::H2CellView { peer_route: final(self).state.h2@.peer_route, ..old(self).state.h2@ }),
    {
        self.state.h2.prepare_peer_activation(&self.state.acquisitions)
    }

    /// Discharges a peer-route turn after its activation accepted or
    /// cancelled; returns whether the turn was released.
    pub fn release_peer_h2_turn(&mut self, route: H2RouteId, waiter: WaiterId) -> (released: bool)
        requires
            old(self).wf(),
        ensures
            final(self).wf(),
            old(self).only_h2_changed(&*final(self)),
            final(self).state.h2_supply_revision == old(self).state.h2_supply_revision,
            match old(self).state.h2@.peer_route {
                Some(peer) if peer.route.spec_id() == route => {
                    &&& released == gate_releases(peer.activation_gate, route.generation, waiter)
                    &&& final(self).state.h2@ == (crate::h2::H2CellView {
                        peer_route: Some(PeerH2Route {
                            activation_gate: gate_released(peer.activation_gate, route.generation, waiter),
                            ..peer
                        }),
                        ..old(self).state.h2@
                    })
                },
                _ => !released && final(self).state.h2@ == old(self).state.h2@,
            },
    {
        self.state.h2.release_peer_turn(route, waiter)
    }

    /// Atomically uses the accepting generation, joins the current flight,
    /// or starts a new flight for a post-ALPN waiter.
    pub fn converge_h2_flight(&mut self, waiter: WaiterId) -> (decision: H2FlightDecision)
        requires
            old(self).wf(),
            old(self).state.h2@.flight is Some ==> !old(self).state.h2@.flight.unwrap().participants.contains(waiter.0),
            old(self).state.h2@.accepting is None && old(self).state.h2@.flight is None
                ==> old(self).state.h2@.next_flight < u64::MAX,
            old(self).state.h2@.accepting is None ==> accepts_establishment_result(
                old(self).state.acquisitions@,
                waiter.0,
            ),
        ensures
            final(self).wf(),
            old(self).only_h2_changed(&*final(self)),
            final(self).state.h2_supply_revision == old(self).state.h2_supply_revision,
            match old(self).state.h2@.accepting {
                Some(generation) => decision == H2FlightDecision::UseGeneration(generation)
                    && final(self).state.h2@ == old(self).state.h2@,
                None => match old(self).state.h2@.flight {
                    Some(flight) => {
                        &&& decision == H2FlightDecision::JoinedFlight
                        &&& final(self).state.h2@ == (crate::h2::H2CellView {
                            flight: Some(crate::h2::H2FlightView { id: flight.id, participants: flight.participants.insert(waiter.0) }),
                            ..old(self).state.h2@
                        })
                    },
                    None => {
                        &&& decision == H2FlightDecision::RunFlight(H2FlightId(old(self).state.h2@.next_flight))
                        &&& final(self).state.h2@ == (crate::h2::H2CellView {
                            flight: Some(crate::h2::H2FlightView {
                                id: H2FlightId(old(self).state.h2@.next_flight),
                                participants: set![waiter.0],
                            }),
                            next_flight: (old(self).state.h2@.next_flight + 1) as u64,
                            ..old(self).state.h2@
                        })
                    },
                },
            },
    {
        let decision = self.state.h2.converge_flight(waiter);
        proof {
            let joined = if old(self).state.h2@.accepting is None { Some(waiter.0) } else { None };
            lemma_h2_waiters_joined(
                old(self).state.acquisitions@,
                self.state.acquisitions@,
                old(self).state.h2@,
                self.state.h2@,
                joined,
            );
        }
        decision
    }

    /// Retires one failed flight and returns its participants in arrival order.
    pub fn fail_h2_flight(&mut self, flight: H2FlightId) -> (participants: Option<Vec<WaiterId>>)
        requires
            old(self).wf(),
        ensures
            final(self).wf(),
            old(self).only_h2_changed(&*final(self)),
            final(self).state.h2_supply_revision == old(self).state.h2_supply_revision,
            old(self).state.h2@.flight is Some && old(self).state.h2@.flight.unwrap().id == flight ==> {
                &&& participants is Some
                &&& crate::h2::waiter_values(participants.unwrap()@).to_set() == old(self).state.h2@.flight.unwrap().participants
                &&& crate::ordered_ids::strictly_increasing(crate::h2::waiter_values(participants.unwrap()@))
                &&& final(self).state.h2@ == (crate::h2::H2CellView { flight: None, ..old(self).state.h2@ })
            },
            !(old(self).state.h2@.flight is Some && old(self).state.h2@.flight.unwrap().id == flight) ==> {
                &&& participants is None
                &&& final(self).state.h2@ == old(self).state.h2@
            },
    {
        self.state.h2.fail_flight(flight)
    }

    /// Returns the current HTTP/2 report, advancing it if the status changed.
    pub fn current_h2_supply_revision(&mut self) -> (report: SupplyRevision<H2SupplyStatus>)
        requires
            old(self).wf(),
            old(self).state.h2_supply_revision.revision < u64::MAX,
        ensures
            final(self).wf(),
            old(self).only_h2_changed(&*final(self)),
            final(self).state.h2@ == old(self).state.h2@,
            report == refreshed(old(self).state.h2_supply_revision, old(self).state.spec_h2_supply_status(), false),
            final(self).state.h2_supply_revision == report,
    {
        self.state.current_h2_supply_revision()
    }

    /// Reclaims one exact idle generation for admission and reports the
    /// cell's resulting HTTP/2 availability; a reclaimed generation's close
    /// transition and the demand to republish come with it.
    pub fn reclaim_idle_h2(&mut self, generation: H2GenerationId) -> (reclaimed: (
        SupplyRevision<H2SupplyStatus>,
        Option<H2CloseTransition<S2>>,
        Option<DemandSnapshot>,
    ))
        requires
            old(self).wf(),
            old(self).state.h2_supply_revision.revision < u64::MAX,
        ensures
            final(self).wf(),
            old(self).only_h2_changed(&*final(self)),
            reclaimed.1 is Some == generation_is_idle(old(self).state.h2@, generation),
            reclaimed.1 is Some ==> {
                &&& old(self).state.h2@.accepting == Some(generation)
                &&& old(self).state.h2@.generations.contains_key(generation.0)
                &&& old(self).state.h2@.generations[generation.0].active_requests == 0
                &&& old(self).state.h2@.generations[generation.0].prospective_requests == 0
                &&& old(self).state.h2@.generations[generation.0].pending_waiters.is_empty()
            },
            reclaimed.1 is None ==> final(self).state.h2@ == old(self).state.h2@ && reclaimed.2 is None,
            reclaimed.1 is Some ==> {
                &&& closes_generation(old(self).state.h2@, final(self).state.h2@, generation, reclaimed.1.unwrap())
                &&& reclaimed.2 == if old(self).bounded {
                    match old(self).state.acquisitions@.demand {
                        Some(ticket) => Some(crate::waiters::ticket_snapshot(ticket, old(self).eligibility_group)),
                        None => None,
                    }
                } else {
                    None
                }
            },
            reclaimed.0 == refreshed(
                old(self).state.h2_supply_revision,
                CellState { h2: final(self).state.h2, ..old(self).state }.spec_h2_supply_status(),
                false,
            ),
            final(self).state.h2_supply_revision == reclaimed.0,
    {
        proof {
            crate::h2::lemma_idle_generation_carries_no_work(old(self).state.h2@, generation);
        }
        let detached = self.state.h2.begin_idle_reclaim(generation);
        let ghost before_report = self.state;
        let revision = self.state.current_h2_supply_revision();
        proof {
            assert(before_report == CellState { h2: self.state.h2, ..old(self).state });
        }
        let demand = match &detached {
            Some(_) => if self.bounded {
                self.state.acquisitions.current_demand_snapshot(&self.eligibility_group)
            } else {
                None
            },
            None => None,
        };
        (revision, detached, demand)
    }

    /// Moves one exact accepting generation to draining; returns its close
    /// transition, the HTTP/2 report if admission's view changed, and the
    /// demand to republish.
    pub fn close_h2(&mut self, generation: H2GenerationId) -> (closed: Option<(
        H2CloseTransition<S2>,
        Option<SupplyRevision<H2SupplyStatus>>,
        Option<DemandSnapshot>,
    )>)
        requires
            old(self).wf(),
            old(self).state.h2_supply_revision.revision < u64::MAX,
        ensures
            final(self).wf(),
            old(self).only_h2_changed(&*final(self)),
            closed is Some == (old(self).state.h2@.accepting == Some(generation)),
            closed is None ==> final(self).state.h2@ == old(self).state.h2@
                && final(self).state.h2_supply_revision == old(self).state.h2_supply_revision,
            closed is Some ==> {
                let (transition, update, demand) = closed.unwrap();
                &&& closes_generation(old(self).state.h2@, final(self).state.h2@, generation, transition)
                &&& update == update_of(
                    old(self).state.h2_supply_revision,
                    CellState { h2: final(self).state.h2, ..old(self).state }.spec_h2_supply_status(),
                    false,
                )
                &&& final(self).state.h2_supply_revision == refreshed(
                    old(self).state.h2_supply_revision,
                    CellState { h2: final(self).state.h2, ..old(self).state }.spec_h2_supply_status(),
                    false,
                )
                &&& demand == if old(self).bounded {
                    match old(self).state.acquisitions@.demand {
                        Some(ticket) => Some(crate::waiters::ticket_snapshot(ticket, old(self).eligibility_group)),
                        None => None,
                    }
                } else {
                    None
                }
            },
    {
        let transition = match self.state.h2.begin_close(generation) {
            Some(transition) => transition,
            None => {
                return None;
            },
        };
        let ghost before_report = self.state;
        let update = self.state.take_h2_supply_update();
        proof {
            assert(before_report == CellState { h2: self.state.h2, ..old(self).state });
        }
        let demand = if self.bounded {
            self.state.acquisitions.current_demand_snapshot(&self.eligibility_group)
        } else {
            None
        };
        Some((transition, update, demand))
    }

    /// The HTTP/1 records that expired by `now` and the HTTP/2 generation
    /// whose idle deadline passed.
    pub fn expire_idle(&self, now: u64) -> (expired: (Vec<u64>, Option<H2GenerationId>))
        requires
            self.wf(),
        ensures
            expired.0@ == self.state.h1.idle_order().filter(|id: u64| self.state.h1.idle_expired_at(id, now)),
            expired.1 == match self.state.h2@.accepting {
                Some(accepting) => match self.state.h2@.generations[accepting.0].idle_deadline {
                    Some(deadline) => if deadline <= now { Some(accepting) } else { None },
                    None => None,
                },
                None => None,
            },
    {
        (self.state.h1.expired_idle(now), self.state.h2.expired(now))
    }

    /// Returns this cell's nearest reusable-connection deadline.
    pub fn nearest_idle_deadline(&self) -> (nearest: Option<u64>)
        requires
            self.wf(),
        ensures
            exists|h1: Option<u64>| #![trigger nearest_h1_idle(self.state.h1, h1)] {
                &&& nearest_h1_idle(self.state.h1, h1)
                &&& nearest == earliest(
                    h1,
                    match self.state.h2@.accepting {
                        Some(generation) => self.state.h2@.generations[generation.0].idle_deadline,
                        None => None,
                    },
                )
            },
    {
        let h1 = self.state.h1.nearest_idle_deadline();
        let h2 = self.state.h2.nearest_idle_deadline();
        let nearest = match (h1, h2) {
            (Some(a), Some(b)) => if a <= b { Some(a) } else { Some(b) },
            (Some(a), None) => Some(a),
            (None, b) => b,
        };
        assert(nearest_h1_idle(self.state.h1, h1));
        nearest
    }

    /// Every retained connection identity, for pool shutdown.
    pub fn close_all_targets(&self) -> (targets: (Vec<u64>, Vec<H2GenerationId>))
        requires
            self.wf(),
        ensures
            targets.0@.to_set() == self.state.h1.records().dom(),
            targets.0@.no_duplicates(),
            targets.1@.map_values(|g: H2GenerationId| g.0).to_set() == self.state.h2@.generations.dom(),
            targets.1@.map_values(|g: H2GenerationId| g.0).no_duplicates(),
    {
        (self.state.h1.connection_ids(), self.state.h2.generation_ids())
    }

    /// Offers the accepting local generation to the oldest queued HTTP/2
    /// acquisition while preserving the generation's priority cutoff.
    fn offer_local_h2_locked(&mut self) -> (effects: Option<CellEffects<S1, S2, E, W>>)
        where
            S2: Clone,
        requires
            old(self).wf(),
            old(self).state.acquisitions@.next_demand_id < u64::MAX,
            old(self).state.h2@.accepting is Some
                ==> old(self).state.h2@.generations[old(self).state.h2@.accepting.unwrap().0].prospective_requests < usize::MAX,
        ensures
            final(self).wf(),
            final(self).id == old(self).id,
            final(self).eligibility_group == old(self).eligibility_group,
            final(self).bounded == old(self).bounded,
            final(self).state.h1 == old(self).state.h1,
            final(self).state.h1_supply_revision == old(self).state.h1_supply_revision,
            final(self).state.h2_supply_revision == old(self).state.h2_supply_revision,
            h2_offered(
                old(self).state.acquisitions@,
                old(self).state.h2@,
                final(self).state.acquisitions@,
                final(self).state.h2@,
                old(self).id.spec_partition(),
                old(self).eligibility_group,
                old(self).bounded,
                effects,
            ),
    {
        let generation = match self.state.h2.accepting() {
            Some(generation) => generation,
            None => {
                return None;
            },
        };
        let has_prioritized = match self.state.h2.priority_cutoff() {
            Some(cutoff) => self.state.acquisitions.has_h2_candidate_through(cutoff),
            None => false,
        };
        let turn = self.state.h2.take_next_turn(has_prioritized);
        let ghost gate = self.state.h2@.local_gate;
        let cutoff = match turn {
            H2ActivationTurn::Unavailable => {
                return None;
            },
            H2ActivationTurn::Open => None,
            H2ActivationTurn::Through(cutoff) => Some(cutoff),
        };
        let waiter = match self.state.acquisitions.oldest_h2_candidate() {
            Some(waiter) => waiter,
            None => {
                return None;
            },
        };
        proof {
            self.state.acquisitions@.lemma_oldest_h2_unique(waiter.0);
        }
        match cutoff {
            Some(cutoff) => {
                if waiter.0 > cutoff.0 {
                    return None;
                }
            },
            None => {},
        }
        let ghost record = self.state.h2@.generations[generation.0];
        let resources = self.state.h2.activate(generation).unwrap();
        let gated = self.state.h2.reserve_activation_turn(waiter);
        let turn_guard = if gated {
            Some(H2ActivationTurnGuard::local(generation, waiter))
        } else {
            None
        };
        let grant = H2Grant { generation, connection_partition: self.id.partition(), resources, turn: turn_guard };
        let ghost granted = grant;
        let ghost expected: CellOutcome<S1, S2, E> = AcquisitionOutcome::H2(granted);
        proof {
            let generations = old(self).state.h2@.generations.insert(
                generation.0,
                H2GenerationView {
                    prospective_requests: (record.prospective_requests + 1) as usize,
                    pending_waiters: record.pending_waiters.remove(waiter.0),
                    ..record
                },
            );
            assert(self.state.h2@.generations =~= generations);
        }
        let install = self.state.acquisitions.install_h2(
            cutoff,
            (move |_w: WaiterId| -> (outcome: CellOutcome<S1, S2, E>)
                ensures
                    outcome == expected,
                { AcquisitionOutcome::H2(grant) }),
            &self.eligibility_group,
        );
        let mut demand_updates = Vec::new();
        self.publish_into(&mut demand_updates, install.demand_updates);
        let mut returned = Vec::new();
        push_event(&mut returned, install.returned_event);
        proof {
            assert(Seq::<AcquisitionEvent<AcquisitionOutcome<S1, S2, E>>>::empty() + present_events(seq![install.returned_event]) =~= present_events(seq![install.returned_event]));
            assert(Seq::<DemandSnapshot>::empty() + old(self).published(install.demand_updates@) =~= old(self).published(install.demand_updates@));
            assert(h2_installed(
                old(self).state.acquisitions@,
                self.state.acquisitions@,
                cutoff,
                AcquisitionOutcome::H2(granted),
                self.eligibility_group,
                install,
            ));
            assert(old(self).published(install.demand_updates@) == published_by(
                old(self).bounded,
                true,
                install.demand_updates@,
            ));
        }
        Some(CellEffects { demand_updates, returned, waker: install.waker })
    }

    /// Offers the accepting local generation to one queued acquisition and
    /// returns the HTTP/2 report if admission's view changed.
    pub fn offer_local_h2(&mut self) -> (offered: (Option<CellEffects<S1, S2, E, W>>, Option<SupplyRevision<H2SupplyStatus>>))
        where
            S2: Clone,
        requires
            old(self).wf(),
            old(self).state.acquisitions@.next_demand_id < u64::MAX,
            old(self).state.h2_supply_revision.revision < u64::MAX,
            old(self).state.h2@.accepting is Some
                ==> old(self).state.h2@.generations[old(self).state.h2@.accepting.unwrap().0].prospective_requests < usize::MAX,
        ensures
            final(self).wf(),
            final(self).id == old(self).id,
            final(self).eligibility_group == old(self).eligibility_group,
            final(self).bounded == old(self).bounded,
            final(self).state.h1 == old(self).state.h1,
            final(self).state.h1_supply_revision == old(self).state.h1_supply_revision,
            h2_offered(
                old(self).state.acquisitions@,
                old(self).state.h2@,
                final(self).state.acquisitions@,
                final(self).state.h2@,
                old(self).id.spec_partition(),
                old(self).eligibility_group,
                old(self).bounded,
                offered.0,
            ),
            offered.1 == update_of(
                old(self).state.h2_supply_revision,
                CellState { h2: final(self).state.h2, acquisitions: final(self).state.acquisitions, ..old(self).state }.spec_h2_supply_status(),
                false,
            ),
            final(self).state.h2_supply_revision == refreshed(
                old(self).state.h2_supply_revision,
                CellState { h2: final(self).state.h2, acquisitions: final(self).state.acquisitions, ..old(self).state }.spec_h2_supply_status(),
                false,
            ),
    {
        let effects = self.offer_local_h2_locked();
        let ghost before_report = self.state;
        let update = self.state.take_h2_supply_update();
        proof {
            assert(before_report == CellState { h2: self.state.h2, acquisitions: self.state.acquisitions, ..old(self).state });
        }
        (effects, update)
    }

    /// Advances the local generation gate after one activation accepted or
    /// cancelled, and offers the generation to the next acquisition; `None`
    /// when `waiter` held no turn on `generation`.
    pub fn release_local_h2_turn(&mut self, generation: H2GenerationId, waiter: WaiterId) -> (released: Option<(
        Option<CellEffects<S1, S2, E, W>>,
        Option<SupplyRevision<H2SupplyStatus>>,
    )>)
        where
            S2: Clone,
        requires
            old(self).wf(),
            old(self).state.acquisitions@.next_demand_id < u64::MAX,
            old(self).state.h2_supply_revision.revision < u64::MAX,
            old(self).state.h2@.accepting is Some
                ==> old(self).state.h2@.generations[old(self).state.h2@.accepting.unwrap().0].prospective_requests < usize::MAX,
        ensures
            final(self).wf(),
            final(self).id == old(self).id,
            final(self).eligibility_group == old(self).eligibility_group,
            final(self).bounded == old(self).bounded,
            final(self).state.h1 == old(self).state.h1,
            final(self).state.h1_supply_revision == old(self).state.h1_supply_revision,
            released is Some == gate_releases(old(self).state.h2@.local_gate, generation, waiter),
            released is None ==> final(self).state.acquisitions@ == old(self).state.acquisitions@
                && final(self).state.h2@ == old(self).state.h2@
                && final(self).state.h2_supply_revision == old(self).state.h2_supply_revision,
            released is Some ==> {
                &&& h2_offered(
                    old(self).state.acquisitions@,
                    crate::h2::H2CellView {
                        local_gate: gate_released(old(self).state.h2@.local_gate, generation, waiter),
                        ..old(self).state.h2@
                    },
                    final(self).state.acquisitions@,
                    final(self).state.h2@,
                    old(self).id.spec_partition(),
                    old(self).eligibility_group,
                    old(self).bounded,
                    released.unwrap().0,
                )
                &&& released.unwrap().1 == update_of(
                    old(self).state.h2_supply_revision,
                    CellState { h2: final(self).state.h2, acquisitions: final(self).state.acquisitions, ..old(self).state }.spec_h2_supply_status(),
                    false,
                )
                &&& final(self).state.h2_supply_revision == refreshed(
                    old(self).state.h2_supply_revision,
                    CellState { h2: final(self).state.h2, acquisitions: final(self).state.acquisitions, ..old(self).state }.spec_h2_supply_status(),
                    false,
                )
            },
    {
        if !self.state.h2.release_activation_turn(generation, waiter) {
            return None;
        }
        Some(self.offer_local_h2())
    }

    /// Places a post-ALPN waiter behind an already accepting generation and
    /// offers the generation; reports why it could not when the waiter was
    /// already resolved or the generation changed.
    pub fn join_h2_generation(&mut self, waiter: WaiterId, generation: H2GenerationId) -> (joined: (
        H2GenerationJoinOutcome,
        Option<CellEffects<S1, S2, E, W>>,
        Option<SupplyRevision<H2SupplyStatus>>,
    ))
        where
            S2: Clone,
        requires
            old(self).wf(),
            old(self).state.acquisitions@.next_demand_id < u64::MAX,
            old(self).state.h2_supply_revision.revision < u64::MAX,
            old(self).state.h2@.accepting is Some
                ==> old(self).state.h2@.generations[old(self).state.h2@.accepting.unwrap().0].prospective_requests < usize::MAX,
        ensures
            final(self).wf(),
            final(self).id == old(self).id,
            final(self).eligibility_group == old(self).eligibility_group,
            final(self).bounded == old(self).bounded,
            final(self).state.h1 == old(self).state.h1,
            final(self).state.h1_supply_revision == old(self).state.h1_supply_revision,
            ({
                let launching = old(self).state.acquisitions@.waiters.contains_key(waiter.0)
                    && old(self).state.acquisitions@.waiters[waiter.0].phase is Launching;
                let accepting = old(self).state.h2@.accepting == Some(generation);
                &&& !launching ==> joined.0 == H2GenerationJoinOutcome::WaiterResolved
                &&& launching && !accepting ==> joined.0 == H2GenerationJoinOutcome::GenerationChanged
                &&& !(launching && accepting) ==> {
                    &&& joined.1 is None
                    &&& joined.2 is None
                    &&& final(self).state.acquisitions@ == old(self).state.acquisitions@
                    &&& final(self).state.h2@ == old(self).state.h2@
                    &&& final(self).state.h2_supply_revision == old(self).state.h2_supply_revision
                }
                &&& launching && accepting ==> {
                    let record = old(self).state.h2@.generations[generation.0];
                    &&& joined.0 == H2GenerationJoinOutcome::Joined
                    &&& h2_offered(
                        old(self).state.acquisitions@,
                        crate::h2::H2CellView {
                            local_gate: crate::h2::gate_extended(old(self).state.h2@.local_gate, generation, waiter),
                            generations: old(self).state.h2@.generations.insert(
                                generation.0,
                                H2GenerationView { pending_waiters: record.pending_waiters.insert(waiter.0), ..record },
                            ),
                            ..old(self).state.h2@
                        },
                        final(self).state.acquisitions@,
                        final(self).state.h2@,
                        old(self).id.spec_partition(),
                        old(self).eligibility_group,
                        old(self).bounded,
                        joined.1,
                    )
                    &&& joined.2 == update_of(
                        old(self).state.h2_supply_revision,
                        CellState { h2: final(self).state.h2, acquisitions: final(self).state.acquisitions, ..old(self).state }.spec_h2_supply_status(),
                        false,
                    )
                    &&& final(self).state.h2_supply_revision == refreshed(
                        old(self).state.h2_supply_revision,
                        CellState { h2: final(self).state.h2, acquisitions: final(self).state.acquisitions, ..old(self).state }.spec_h2_supply_status(),
                        false,
                    )
                }
            }),
    {
        if !self.state.acquisitions.is_launching_h2_waiter(waiter) {
            return (H2GenerationJoinOutcome::WaiterResolved, None, None);
        }
        if !self.state.h2.prioritize_waiter(generation, waiter) {
            return (H2GenerationJoinOutcome::GenerationChanged, None, None);
        }
        proof {
            self.state.acquisitions.lemma_fifo_in_arrival_order();
            lemma_h2_waiters_joined(
                old(self).state.acquisitions@,
                self.state.acquisitions@,
                old(self).state.h2@,
                self.state.h2@,
                Some(waiter.0),
            );
        }
        let (effects, update) = self.offer_local_h2();
        (H2GenerationJoinOutcome::Joined, effects, update)
    }

    /// Installs one successful flight as the accepting generation, gives
    /// waiters committed before it priority, and offers it.
    ///
    /// A stale flight installs nothing and hands the connection back.
    pub fn complete_h2_flight(
        &mut self,
        flight: H2FlightId,
        connection: u64,
        sender: S2,
        idle_deadline: Option<u64>,
    ) -> (completed: (Result<H2GenerationId, (u64, S2)>, Option<CellEffects<S1, S2, E, W>>, Option<SupplyRevision<H2SupplyStatus>>))
        where
            S2: Clone,
        requires
            old(self).wf(),
            old(self).state.acquisitions@.next_demand_id < u64::MAX,
            old(self).state.h2_supply_revision.revision < u64::MAX,
            old(self).state.h2@.next_generation < u64::MAX,
        ensures
            final(self).wf(),
            final(self).id == old(self).id,
            final(self).eligibility_group == old(self).eligibility_group,
            final(self).bounded == old(self).bounded,
            final(self).state.h1 == old(self).state.h1,
            final(self).state.h1_supply_revision == old(self).state.h1_supply_revision,
            !flight_is_current(old(self).state.h2@, flight) ==> {
                &&& completed.0 == Err::<H2GenerationId, (u64, S2)>((connection, sender))
                &&& completed.1 is None
                &&& final(self).state.acquisitions@ == old(self).state.acquisitions@
                &&& final(self).state.h2@ == old(self).state.h2@
            },
            flight_is_current(old(self).state.h2@, flight) ==> {
                let generation = H2GenerationId(old(self).state.h2@.next_generation);
                let q = old(self).state.acquisitions@;
                let cutoff = if q.waiters.dom() == Set::<u64>::empty() {
                    None
                } else {
                    Some(WaiterId((q.next_waiter - 1) as u64))
                };
                &&& completed.0 == Ok::<H2GenerationId, (u64, S2)>(generation)
                &&& h2_offered(
                    q,
                    crate::h2::H2CellView {
                        flight: None,
                        generations: old(self).state.h2@.generations.insert(
                            generation.0,
                            H2GenerationView {
                                pending_waiters: old(self).state.h2@.flight.unwrap().participants,
                                connection,
                                sender,
                                state: crate::h2::H2GenerationState::Accepting,
                                prospective_requests: 0,
                                has_accepted_request: false,
                                active_requests: 0,
                                idle_deadline,
                            },
                        ),
                        accepting: Some(generation),
                        peer_route: None,
                        local_gate: match cutoff {
                            Some(cutoff) => H2ActivationGate::Prioritizing { generation, cutoff, active_turn: None },
                            None => H2ActivationGate::Open { generation },
                        },
                        next_generation: (generation.0 + 1) as u64,
                        ..old(self).state.h2@
                    },
                    final(self).state.acquisitions@,
                    final(self).state.h2@,
                    old(self).id.spec_partition(),
                    old(self).eligibility_group,
                    old(self).bounded,
                    completed.1,
                )
            },
            completed.2 == update_of(
                old(self).state.h2_supply_revision,
                CellState { h2: final(self).state.h2, acquisitions: final(self).state.acquisitions, ..old(self).state }.spec_h2_supply_status(),
                false,
            ),
            final(self).state.h2_supply_revision == refreshed(
                old(self).state.h2_supply_revision,
                CellState { h2: final(self).state.h2, acquisitions: final(self).state.acquisitions, ..old(self).state }.spec_h2_supply_status(),
                false,
            ),
    {
        let completion = self.state.h2.complete_flight(flight, connection, sender, idle_deadline);
        let effects = match completion {
            Ok(_) => {
                let cutoff = self.state.acquisitions.publication_cutoff();
                self.state.h2.prioritize_through(cutoff);
                self.offer_local_h2_locked()
            },
            Err(_) => None,
        };
        let ghost before_report = self.state;
        let update = self.state.take_h2_supply_update();
        proof {
            assert(before_report == CellState { h2: self.state.h2, acquisitions: self.state.acquisitions, ..old(self).state });
        }
        (completion, effects, update)
    }

    /// Commits a peer-route activation prepared by [`Self::prepare_peer_h2`]
    /// once the connection cell granted it.
    ///
    /// The activation goes to the prepared waiter only if the route, its
    /// crossing and turn, and the waiter's place as oldest HTTP/2 candidate
    /// are all still current; otherwise the crossing and turn are released
    /// and the activation comes back unused.
    pub fn commit_peer_h2(&mut self, prepared: PreparedPeerActivation, grant: H2Grant<S2>) -> (committed: PeerH2Commit<S1, S2, E, W>)
        requires
            old(self).wf(),
            old(self).state.acquisitions@.next_demand_id < u64::MAX,
            prepared.gated ==> grant.turn is None,
        ensures
            final(self).wf(),
            final(self).id == old(self).id,
            final(self).eligibility_group == old(self).eligibility_group,
            final(self).bounded == old(self).bounded,
            final(self).state.h1 == old(self).state.h1,
            final(self).state.h1_supply_revision == old(self).state.h1_supply_revision,
            final(self).state.h2_supply_revision == old(self).state.h2_supply_revision,
            ({
                let q = old(self).state.acquisitions@;
                let current = match old(self).state.h2@.peer_route {
                    Some(peer) => {
                        &&& peer.route.spec_id() == prepared.route.spec_id()
                        &&& peer.crossing_waiter == Some(prepared.waiter)
                        &&& (prepared.gated ==> crate::h2::gate_active_turn(peer.activation_gate) == Some(prepared.waiter))
                        &&& q.is_oldest_h2(prepared.waiter.0)
                    },
                    None => false,
                } && (prepared.cutoff matches Some(c) ==> prepared.waiter.0 <= c.0);
                let peer = old(self).state.h2@.peer_route.unwrap();
                let route = prepared.route.spec_id();
                let uncrossed = PeerH2Route { crossing_waiter: None, ..peer };
                &&& !current ==> {
                    &&& committed.installed is None
                    &&& committed.unused == Some(grant)
                    &&& final(self).state.acquisitions@ == q
                    &&& final(self).state.h2@.peer_route == match old(self).state.h2@.peer_route {
                        Some(peer) if peer.route.spec_id() == route => {
                            let released = if peer.crossing_waiter == Some(prepared.waiter) { uncrossed } else { peer };
                            Some(if prepared.gated {
                                PeerH2Route {
                                    activation_gate: gate_released(released.activation_gate, route.generation, prepared.waiter),
                                    ..released
                                }
                            } else {
                                released
                            })
                        },
                        other => other,
                    }
                    &&& final(self).state.h2@ == (crate::h2::H2CellView { peer_route: final(self).state.h2@.peer_route, ..old(self).state.h2@ })
                }
                &&& current ==> {
                    let taken = with_peer_turn(grant, prepared);
                    &&& committed.unused is None
                    &&& final(self).state.h2@ == (crate::h2::H2CellView { peer_route: Some(uncrossed), ..old(self).state.h2@ })
                    &&& exists|install: H2WaiterInstall<CellOutcome<S1, S2, E>, W>|
                        #![trigger h2_installed(q, final(self).state.acquisitions@, prepared.cutoff, AcquisitionOutcome::H2(taken), old(self).eligibility_group, install)] {
                        &&& h2_installed(q, final(self).state.acquisitions@, prepared.cutoff, AcquisitionOutcome::H2(taken), old(self).eligibility_group, install)
                        &&& install.waiter == Some(prepared.waiter)
                        &&& committed.installed matches Some(e) && {
                            &&& e.demand_updates@ == old(self).published(install.demand_updates@)
                            &&& e.returned@ == present_events(seq![install.returned_event])
                            &&& e.waker == install.waker
                        }
                    }
                }
            }),
    {
        let route = prepared.route.id();
        let within_cutoff = match prepared.cutoff {
            Some(cutoff) => prepared.waiter.0 <= cutoff.0,
            None => true,
        };
        let current = self.state.h2.peer_activation_is_current(&prepared, &self.state.acquisitions) && within_cutoff;
        if !current {
            self.state.h2.release_peer_crossing(route, prepared.waiter);
            if prepared.gated {
                self.state.h2.release_peer_turn(route, prepared.waiter);
            }
            return PeerH2Commit { installed: None, unused: Some(grant) };
        }
        proof {
            self.state.acquisitions@.lemma_oldest_h2_unique(prepared.waiter.0);
        }
        let mut grant = grant;
        if prepared.gated {
            grant.turn = Some(H2ActivationTurnGuard::peer(route, prepared.waiter));
        }
        let ghost granted = grant;
        let ghost expected: CellOutcome<S1, S2, E> = AcquisitionOutcome::H2(granted);
        let install = self.state.acquisitions.install_h2(
            prepared.cutoff,
            (move |_w: WaiterId| -> (outcome: CellOutcome<S1, S2, E>)
                ensures
                    outcome == expected,
                { AcquisitionOutcome::H2(grant) }),
            &self.eligibility_group,
        );
        self.state.h2.release_peer_crossing(route, prepared.waiter);
        let mut demand_updates = Vec::new();
        self.publish_into(&mut demand_updates, install.demand_updates);
        let mut returned = Vec::new();
        push_event(&mut returned, install.returned_event);
        proof {
            assert(Seq::<AcquisitionEvent<AcquisitionOutcome<S1, S2, E>>>::empty() + present_events(seq![install.returned_event]) =~= present_events(seq![install.returned_event]));
            assert(Seq::<DemandSnapshot>::empty() + old(self).published(install.demand_updates@) =~= old(self).published(install.demand_updates@));
            assert(h2_installed(
                old(self).state.acquisitions@,
                self.state.acquisitions@,
                prepared.cutoff,
                AcquisitionOutcome::H2(granted),
                self.eligibility_group,
                install,
            ));
        }
        PeerH2Commit { installed: Some(CellEffects { demand_updates, returned, waker: install.waker }), unused: None }
    }

    /// Clears fairness debt that local demand can no longer use after a
    /// cancellation, and returns the HTTP/1 report if admission's view changed.
    pub fn settle_cancellation(&mut self) -> (update: Option<SupplyRevision<H1SupplyStatus>>)
        requires
            old(self).wf(),
            old(self).state.h1_supply_revision.revision < u64::MAX,
        ensures
            final(self).wf(),
            final(self).state.acquisitions@ == old(self).state.acquisitions@,
            final(self).state.h2@ == old(self).state.h2@,
            final(self).state.h1.records() == old(self).state.h1.records(),
            final(self).state.h1.idle_order() == old(self).state.h1.idle_order(),
            final(self).state.h1.reservation().state == old(self).state.h1.reservation().state,
            final(self).state.h1.reservation().local_turn_owed == (old(self).state.h1.reservation().local_turn_owed
                && old(self).state.local_h1_demand()),
            update == update_of(old(self).state.h1_supply_revision, final(self).state.spec_h1_supply_status(), true),
            final(self).state.h1_supply_revision == refreshed(
                old(self).state.h1_supply_revision,
                final(self).state.spec_h1_supply_status(),
                true,
            ),
    {
        let local_h1_demand = self.state.acquisitions.can_accept_h1();
        self.state.h1.clear_unused_turn(local_h1_demand);
        self.state.take_h1_supply_update()
    }
}

} // verus!
