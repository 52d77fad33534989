//! Cell-local acquisition order and delivered-result ownership.
//!
//! [`AcquisitionQueue`] is the sole owner of every live acquisition attempt
//! in one origin cell. It combines the bounded FIFO, unlocked delivery
//! crossings, establishment launch, and terminal result handoff in one state
//! machine.
//!
//! ```text
//! bounded register ----------------------------------> Waiting
//! unbounded register --------------------------------> ReadyToEstablish
//! Waiting --reserve admission or reuse delivery-----> DeliveryPending
//! Waiting --local H1 return--------------------------> Ready
//! DeliveryPending --capacity-------------------------> ReadyToEstablish
//! DeliveryPending --borrowed H1----------------------> Ready
//! DeliveryPending --local H1--> DeliveryPending(pending H1)
//! DeliveryPending(pending H1) --delivery--> Ready + return delivered value
//! ReadyToEstablish --local H1 return-----------------> Ready + return permit
//! ReadyToEstablish --poll----------------------------> Launching(Submitted)
//! Launching(Submitted) --first owner-runtime poll----> Launching(Started)
//! Launching --local H1 or establishment result------> Ready
//! Waiting --local or peer H2 activation--------------> Ready
//! DeliveryPending --H2 activation--------------------> pending H2; delivery loses
//! ReadyToEstablish / Launching --H2 activation-------> Ready; permit/task loses
//! Ready --poll---------------------------------------> removed; result transferred
//! ```
//!
//! Cancellation has one residence used only while a committed delivery is
//! crossing the cell lock boundary:
//!
//! ```text
//! Waiting ----------------------> removed; retire or advance demand
//! DeliveryPending --------------> DeliveryCancelled
//! DeliveryCancelled --delivery-> removed; return payloads
//! ReadyToEstablish / Ready -----> removed; return the held event
//! Launching --------------------> removed; task settles separately
//! ```
//!
//! The waiting FIFO is an intrusive doubly-linked list threaded through the
//! record map; a ghost sequence names its order and the invariant ties every
//! link to that sequence.

use crate::admission::{
    CapacityLease, DemandId, DemandSnapshot, EligibilityGroup, ProtocolRequirement,
    SnapshotVersion,
};
use crate::ordered_ids::IdSet;
use std::collections::HashMap;
use vstd::prelude::*;

verus! {

broadcast use vstd::std_specs::hash::group_hash_axioms;

/// Local waiter identity within one cell.
#[derive(Clone, Copy, Debug, PartialEq, Eq, Structural)]
pub struct WaiterId(pub u64);

/// Optional bounded-origin capacity for one establishment attempt.
///
/// Unbounded origins carry no lease. For bounded origins the lease returns to
/// admission unless the attempt installs a connection.
#[derive(Debug)]
pub struct EstablishmentPermit {
    /// Bounded-origin slot transferred into a connection on success.
    pub lease: Option<CapacityLease>,
}

impl EstablishmentPermit {
    /// Creates a permit for an origin without a connection bound.
    pub fn unbounded() -> (permit: Self)
        ensures
            permit.lease is None,
    {
        EstablishmentPermit { lease: None }
    }

    /// Takes ownership of one bounded-origin capacity lease.
    pub fn bounded(lease: CapacityLease) -> (permit: Self)
        ensures
            permit.lease == Some(lease),
    {
        EstablishmentPermit { lease: Some(lease) }
    }

    /// Transfers bounded capacity into an installed connection, when present.
    pub fn into_lease(self) -> (lease: Option<CapacityLease>)
        ensures
            lease == self.lease,
    {
        self.lease
    }
}

/// One event observed while driving an acquisition attempt.
#[derive(Debug)]
pub enum AcquisitionEvent<R> {
    /// Capacity is available and one establishment attempt may start.
    Establish(EstablishmentPermit),
    /// A returned sender, activation or establishment produced the result.
    Complete(R),
}

/// Owner-runtime progress of one submitted establishment task.
#[derive(Clone, Copy, Debug, PartialEq, Eq, Structural)]
pub enum EstablishmentPhase {
    /// The task was submitted but has not begun polling the connector.
    Submitted,
    /// The owner runtime polled the task and the pool owns completion.
    Started,
}

/// Cell-local ownership of the aggregate head demand.
#[derive(Clone, Copy, Debug, PartialEq, Eq, Structural)]
pub struct DemandTicket {
    /// Identity of this head-waiter generation.
    pub id: DemandId,
    /// Version assigned to the next complete publication for this demand.
    pub version: SnapshotVersion,
    /// Protocol capability required by this head waiter.
    pub requirement: ProtocolRequirement,
}

/// The active publication of a demand ticket.
pub open spec fn ticket_snapshot(ticket: DemandTicket, group: EligibilityGroup) -> DemandSnapshot {
    DemandSnapshot::Active {
        id: ticket.id,
        version: ticket.version,
        requirement: ticket.requirement,
        eligibility_group: group,
    }
}

/// The retirement publication of a demand ticket.
pub open spec fn ticket_retirement(ticket: DemandTicket) -> DemandSnapshot {
    DemandSnapshot::Inactive { id: ticket.id, version: SnapshotVersion((ticket.version.0 + 1) as u64) }
}

impl DemandTicket {
    /// Creates the complete active state published for this head generation.
    pub fn snapshot(&self, eligibility_group: &EligibilityGroup) -> (snapshot: DemandSnapshot)
        ensures
            snapshot == ticket_snapshot(*self, *eligibility_group),
    {
        DemandSnapshot::active(self.id, self.version, self.requirement, *eligibility_group)
    }
}

/// Whether the cell has an active FIFO and aggregate head demand.
#[derive(Debug)]
pub enum WaitingQueueState {
    /// No waiter is linked and no demand is active.
    Empty,
    /// A nonempty FIFO represented by its endpoints, length, and head demand.
    Active { head: u64, tail: u64, len: u64, demand: DemandTicket },
}

/// Authoritative cell-local ownership state for one waiter.
#[derive(Debug)]
pub enum WaiterState<R, W> {
    /// The waiter is linked in the cell-local FIFO.
    Waiting { previous: Option<u64>, next: Option<u64>, waker: Option<W> },
    /// A committed capacity or reuse delivery reserved this waiter but has
    /// not installed its payload.
    DeliveryPending { waker: Option<W>, pending_result: Option<R> },
    /// Cancellation won after reservation while the committed delivery was
    /// outside the lock.
    DeliveryCancelled { waker: Option<W>, pending_result: Option<R> },
    /// Capacity is ready to start an establishment attempt.
    ReadyToEstablish { permit: EstablishmentPermit },
    /// Establishment was submitted to the owner runtime and may be unpolled.
    Launching { phase: EstablishmentPhase, waker: Option<W> },
    /// The waiter owns its terminal acquisition result.
    Ready(R),
}

/// One request retained while waiting for or owning an acquisition result.
#[derive(Debug)]
pub struct WaiterRecord<R, W> {
    /// Protocol requirement published while this waiter is the head.
    pub requirement: ProtocolRequirement,
    /// Queue residence, delivery state, and any owned result.
    pub state: WaiterState<R, W>,
}

/// Queue residence of one waiter, without the FIFO links.
pub enum WaiterPhase<R, W> {
    Waiting { waker: Option<W> },
    DeliveryPending { waker: Option<W>, pending_result: Option<R> },
    DeliveryCancelled { waker: Option<W>, pending_result: Option<R> },
    ReadyToEstablish { permit: EstablishmentPermit },
    Launching { phase: EstablishmentPhase, waker: Option<W> },
    Ready(R),
}

/// Abstract state of one waiter.
pub struct WaiterView<R, W> {
    pub requirement: ProtocolRequirement,
    pub phase: WaiterPhase<R, W>,
}

/// Abstract state of a whole acquisition queue.
pub struct QueueView<R, W> {
    /// Every retained waiter by identity.
    pub waiters: Map<u64, WaiterView<R, W>>,
    /// Waiting identities in arrival order.
    pub fifo: Seq<u64>,
    /// Demand generation of the FIFO head, when the FIFO is nonempty.
    pub demand: Option<DemandTicket>,
    /// Next identity handed to a registered waiter.
    pub next_waiter: u64,
    /// Next identity handed to a head demand generation.
    pub next_demand_id: u64,
}

pub open spec fn phase_of<R, W>(state: WaiterState<R, W>) -> WaiterPhase<R, W> {
    match state {
        WaiterState::Waiting { waker, .. } => WaiterPhase::Waiting { waker },
        WaiterState::DeliveryPending { waker, pending_result } => WaiterPhase::DeliveryPending {
            waker,
            pending_result,
        },
        WaiterState::DeliveryCancelled { waker, pending_result } => WaiterPhase::DeliveryCancelled {
            waker,
            pending_result,
        },
        WaiterState::ReadyToEstablish { permit } => WaiterPhase::ReadyToEstablish { permit },
        WaiterState::Launching { phase, waker } => WaiterPhase::Launching { phase, waker },
        WaiterState::Ready(result) => WaiterPhase::Ready(result),
    }
}

pub open spec fn record_view<R, W>(record: WaiterRecord<R, W>) -> WaiterView<R, W> {
    WaiterView { requirement: record.requirement, phase: phase_of(record.state) }
}

/// The stage of a waiter, without the values its phase carries.
#[derive(Clone, Copy, Debug, PartialEq, Eq, Structural)]
pub enum WaiterStage {
    Waiting,
    DeliveryPending,
    DeliveryCancelled,
    ReadyToEstablish,
    Launching,
    Ready,
}

/// The stage of a phase.
pub open spec fn stage_of<R, W>(phase: WaiterPhase<R, W>) -> WaiterStage {
    match phase {
        WaiterPhase::Waiting { .. } => WaiterStage::Waiting,
        WaiterPhase::DeliveryPending { .. } => WaiterStage::DeliveryPending,
        WaiterPhase::DeliveryCancelled { .. } => WaiterStage::DeliveryCancelled,
        WaiterPhase::ReadyToEstablish { .. } => WaiterStage::ReadyToEstablish,
        WaiterPhase::Launching { .. } => WaiterStage::Launching,
        WaiterPhase::Ready(_) => WaiterStage::Ready,
    }
}

/// Whether a waiter outside the FIFO may still receive an activation.
pub open spec fn phase_is_candidate<R, W>(phase: WaiterPhase<R, W>) -> bool {
    match phase {
        WaiterPhase::DeliveryPending { pending_result, .. } => pending_result is None,
        WaiterPhase::ReadyToEstablish { .. } => true,
        WaiterPhase::Launching { .. } => true,
        _ => false,
    }
}

/// Whether a waiter outside the FIFO may still receive a returned HTTP/1 sender.
pub open spec fn view_is_h1_candidate<R, W>(view: WaiterView<R, W>) -> bool {
    view.requirement == ProtocolRequirement::H1Compatible && phase_is_candidate(view.phase)
}

pub open spec fn sorted_ids(s: Seq<u64>) -> bool {
    forall|i: int, j: int| 0 <= i < j < s.len() ==> s[i] < s[j]
}

impl<R, W> QueueView<R, W> {
    /// Whether `w` is the FIFO head.
    pub open spec fn is_head(self, w: u64) -> bool {
        self.fifo.len() > 0 && self.fifo[0] == w
    }

    /// Whether `w` may receive a returned HTTP/1 sender.
    pub open spec fn h1_eligible(self, w: u64) -> bool {
        &&& self.waiters.contains_key(w)
        &&& self.waiters[w].requirement == ProtocolRequirement::H1Compatible
        &&& (self.is_head(w) || phase_is_candidate(self.waiters[w].phase))
    }

    /// Whether `w` may receive an HTTP/2 activation.
    pub open spec fn h2_eligible(self, w: u64) -> bool {
        &&& self.waiters.contains_key(w)
        &&& (self.is_head(w) || phase_is_candidate(self.waiters[w].phase))
    }

    /// Whether `w` is the oldest waiter that may receive a returned HTTP/1 sender.
    pub open spec fn is_oldest_h1(self, w: u64) -> bool {
        self.h1_eligible(w) && forall|x: u64| self.h1_eligible(x) ==> w <= x
    }

    /// Whether `w` is the oldest waiter that may receive an HTTP/2 activation.
    pub open spec fn is_oldest_h2(self, w: u64) -> bool {
        self.h2_eligible(w) && forall|x: u64| self.h2_eligible(x) ==> w <= x
    }

    /// Whether some waiter may receive a returned HTTP/1 sender.
    pub open spec fn has_h1_eligible(self) -> bool {
        exists|x: u64| self.h1_eligible(x)
    }

    /// Whether some waiter may receive an HTTP/2 activation.
    pub open spec fn has_h2_eligible(self) -> bool {
        exists|x: u64| self.h2_eligible(x)
    }

    /// Whether some waiter outside the FIFO may receive a returned HTTP/1 sender.
    pub open spec fn has_prior_h1_candidate(self) -> bool {
        exists|x: u64| self.waiters.contains_key(x) && view_is_h1_candidate(self.waiters[x])
    }

    /// The oldest waiter that may receive a returned HTTP/1 sender.
    pub open spec fn oldest_h1(self) -> u64 {
        choose|w: u64| self.is_oldest_h1(w)
    }

    /// The oldest waiter that may receive an HTTP/2 activation.
    pub open spec fn oldest_h2(self) -> u64 {
        choose|w: u64| self.is_oldest_h2(w)
    }

    /// Demand generation the FIFO head's successor receives when the head leaves.
    pub open spec fn successor_ticket(self) -> Option<DemandTicket> {
        if self.fifo.len() > 1 {
            Some(
                DemandTicket {
                    id: DemandId(self.next_demand_id),
                    version: SnapshotVersion(0),
                    requirement: self.waiters[self.fifo[1]].requirement,
                },
            )
        } else {
            None
        }
    }

    /// Whether `new` is `self` with its FIFO head unlinked and its demand
    /// handed to the successor, which `successor` publishes.
    pub open spec fn pops_head_to(
        self,
        new: QueueView<R, W>,
        successor: Option<DemandSnapshot>,
        group: EligibilityGroup,
    ) -> bool {
        &&& new.fifo == self.fifo.drop_first()
        &&& new.demand == self.successor_ticket()
        &&& successor == match self.successor_ticket() {
            Some(ticket) => Some(ticket_snapshot(ticket, group)),
            None => None,
        }
        &&& new.next_demand_id == self.next_demand_id + (if self.fifo.len() > 1 { 1int } else { 0int })
        &&& new.next_waiter == self.next_waiter
    }

    /// Whether nothing but the waiters may differ between `self` and `new`.
    pub open spec fn same_order(self, new: QueueView<R, W>) -> bool {
        &&& new.fifo == self.fifo
        &&& new.demand == self.demand
        &&& new.next_waiter == self.next_waiter
        &&& new.next_demand_id == self.next_demand_id
    }
}

impl<R, W> QueueView<R, W> {
    /// The oldest HTTP/1-eligible waiter is unique.
    pub proof fn lemma_oldest_h1_unique(self, w: u64)
        requires
            self.is_oldest_h1(w),
        ensures
            self.oldest_h1() == w,
    {
        let c = self.oldest_h1();
        assert(self.is_oldest_h1(c));
    }

    /// The oldest HTTP/2-eligible waiter is unique.
    pub proof fn lemma_oldest_h2_unique(self, w: u64)
        requires
            self.is_oldest_h2(w),
        ensures
            self.oldest_h2() == w,
    {
        let c = self.oldest_h2();
        assert(self.is_oldest_h2(c));
    }

    /// Some HTTP/1-eligible waiter is the oldest when any is eligible.
    pub proof fn lemma_oldest_h1_exists(self)
        requires
            self.has_h1_eligible(),
        ensures
            self.is_oldest_h1(self.oldest_h1()),
    {
        let x = choose|x: u64| self.h1_eligible(x);
        let p = |y: u64| self.h1_eligible(y);
        lemma_least_exists(p, x);
        let m = choose|m: u64| #[trigger] p(m) && forall|y: u64| #[trigger] p(y) ==> m <= y;
        assert forall|y: u64| self.h1_eligible(y) implies m <= y by {
            assert(p(y));
        }
        assert(self.is_oldest_h1(m));
    }
}

/// A nonempty set of identities has a least element.
proof fn lemma_least_exists(p: spec_fn(u64) -> bool, x: u64)
    requires
        p(x),
    ensures
        exists|m: u64| #[trigger] p(m) && forall|y: u64| #[trigger] p(y) ==> m <= y,
    decreases x,
{
    if exists|y: u64| #[trigger] p(y) && y < x {
        let y = choose|y: u64| #[trigger] p(y) && y < x;
        lemma_least_exists(p, y);
    } else {
        assert(p(x) && forall|y: u64| #[trigger] p(y) ==> x <= y);
    }
}

/// The phase a delivery-pending waiter enters when its crossing installs.
pub open spec fn crossing_phase<R, W>(event: AcquisitionEvent<R>) -> WaiterPhase<R, W> {
    match event {
        AcquisitionEvent::Establish(permit) => WaiterPhase::ReadyToEstablish { permit },
        AcquisitionEvent::Complete(result) => WaiterPhase::Ready(result),
    }
}

/// A pending result returned as a completion event.
pub open spec fn completion<R>(result: Option<R>) -> Option<AcquisitionEvent<R>> {
    match result {
        Some(r) => Some(AcquisitionEvent::Complete(r)),
        None => None,
    }
}

/// Whether an installation rejected `event` and left the queue unchanged.
pub open spec fn rejects_unchanged<R, W>(
    install: ResultInstall<R, W>,
    event: AcquisitionEvent<R>,
    error: Option<ResultInstallError>,
    old: QueueView<R, W>,
    new: QueueView<R, W>,
) -> bool {
    &&& install.returned_events@ == seq![Some(event), None]
    &&& install.waker is None
    &&& install.error == error
    &&& !install.accepted
    &&& new.waiters == old.waiters
    &&& old.same_order(new)
}

/// Latest task recorded by a waiter phase, if it records one.
pub open spec fn phase_waker<R, W>(phase: WaiterPhase<R, W>) -> Option<W> {
    match phase {
        WaiterPhase::Waiting { waker } => waker,
        WaiterPhase::DeliveryPending { waker, .. } => waker,
        WaiterPhase::DeliveryCancelled { waker, .. } => waker,
        WaiterPhase::Launching { waker, .. } => waker,
        _ => None,
    }
}

/// Result of reserving a requesting waiter for one unlocked delivery.
pub enum DeliveryReservation {
    /// The current head was reserved and may have a successor demand.
    Reserved { waiter: WaiterId, successor: Option<DemandSnapshot> },
    /// The delivery no longer matches live cell demand.
    Rejected,
}

/// Values detached from cell state by cancellation.
pub struct WaiterCancellation<R> {
    /// Demand retirement and optional successor published after unlocking.
    pub demand_updates: [Option<DemandSnapshot>; 2],
    /// Intermediate and terminal events returned for cleanup after unlocking.
    pub returned_events: Vec<Option<AcquisitionEvent<R>>>,
}

/// Values detached after attempting cell-local HTTP/1 service.
pub struct H1Install<R, W> {
    /// Demand retirement and optional successor published after unlocking.
    pub demand_updates: [Option<DemandSnapshot>; 2],
    /// Establishment permit or rejected H1 returned after unlocking.
    pub returned_event: Option<AcquisitionEvent<R>>,
    /// Waiting task woken after demand publication.
    pub waker: Option<W>,
}

/// Invalid state observed while a committed event was crossing to the cell.
#[derive(Clone, Copy, Debug, PartialEq, Eq, Structural)]
pub enum ResultInstallError {
    /// The waiter reserved for the delivery no longer exists.
    MissingWaiter,
    /// The waiter exists but cannot receive the reserved delivery.
    UnexpectedState,
}

/// Values produced after installing or rejecting a committed event.
pub struct ResultInstall<R, W> {
    /// Events rejected by cancellation and returned after unlocking; an H1
    /// fallback precedes a capacity fallback.
    pub returned_events: Vec<Option<AcquisitionEvent<R>>>,
    /// Waiting task woken after the delivery fence closes.
    pub waker: Option<W>,
    /// Invalid state reported only after the returned result runs its fallback.
    pub error: Option<ResultInstallError>,
    /// Whether cell state became authoritative for the incoming event.
    pub accepted: bool,
}

/// Result of offering one activation through the HTTP/2 generation gate.
pub struct H2WaiterInstall<R, W> {
    /// Waiter receiving the prospective activation.
    pub waiter: Option<WaiterId>,
    /// Demand retirement and successor publication produced by FIFO removal.
    pub demand_updates: [Option<DemandSnapshot>; 2],
    /// Permit displaced by the activation and returned after unlock.
    pub returned_event: Option<AcquisitionEvent<R>>,
    /// Task to wake after the activation becomes visible.
    pub waker: Option<W>,
}

/// Counts reported for boundary tests.
#[derive(Clone, Copy, Debug, PartialEq, Eq, Structural)]
pub struct CellSnapshot {
    /// Waiters linked in the FIFO.
    pub waiting: u64,
    /// Attempts retained in any state.
    pub retained: usize,
    /// Demand generation of the FIFO head.
    pub demand: Option<DemandId>,
}

/// FIFO state detached while advancing the active head.
pub struct RemovedHead<R, W> {
    /// Identity of the unlinked waiter.
    pub waiter: u64,
    /// The unlinked waiting record, moved out of the queue.
    pub record: WaiterRecord<R, W>,
    /// Retired demand generation that represented this head.
    pub demand: DemandTicket,
    /// New demand published if another waiter became the head.
    pub successor: Option<DemandSnapshot>,
}

/// Whether `new` is `old` after a returned HTTP/1 sender `result` went to the oldest compatible attempt, with `install` detached.
pub open spec fn returned_h1_installed<R, W>(old: QueueView<R, W>, new: QueueView<R, W>, result: R, group: EligibilityGroup, install: H1Install<R, W>) -> bool {
    &&& (!old.has_h1_eligible() ==> {
        &&& install.returned_event == Some(AcquisitionEvent::Complete(result))
        &&& install.demand_updates@ == seq![None::<DemandSnapshot>, None]
        &&& install.waker is None
        &&& new.waiters == old.waiters
        &&& old.same_order(new)
    })
    &&& (old.has_h1_eligible() && old.is_head(old.oldest_h1()) ==> {
        let w = old.oldest_h1();
        let v = old.waiters[w];
        &&& old.pops_head_to(new, install.demand_updates@[1], group)
        &&& install.demand_updates@[0] == Some(ticket_retirement(old.demand.unwrap()))
        &&& new.waiters == old.waiters.insert(
            w,
            WaiterView { requirement: v.requirement, phase: WaiterPhase::Ready(result) },
        )
        &&& install.returned_event is None
        &&& install.waker == phase_waker(v.phase)
    })
    &&& (old.has_h1_eligible() && !old.is_head(old.oldest_h1()) ==> {
        let w = old.oldest_h1();
        let v = old.waiters[w];
        &&& old.same_order(new)
        &&& install.demand_updates@ == seq![None::<DemandSnapshot>, None]
        &&& match v.phase {
            WaiterPhase::DeliveryPending { waker, .. } => {
                &&& new.waiters == old.waiters.insert(
                    w,
                    WaiterView {
                        requirement: v.requirement,
                        phase: WaiterPhase::DeliveryPending { waker, pending_result: Some(result) },
                    },
                )
                &&& install.returned_event is None
                &&& install.waker is None
            },
            WaiterPhase::ReadyToEstablish { permit } => {
                &&& new.waiters == old.waiters.insert(
                    w,
                    WaiterView { requirement: v.requirement, phase: WaiterPhase::Ready(result) },
                )
                &&& install.returned_event == Some(AcquisitionEvent::<R>::Establish(permit))
                &&& install.waker is None
            },
            WaiterPhase::Launching { waker, .. } => {
                &&& new.waiters == old.waiters.insert(
                    w,
                    WaiterView { requirement: v.requirement, phase: WaiterPhase::Ready(result) },
                )
                &&& install.returned_event is None
                &&& install.waker == waker
            },
            _ => false,
        }
    })
}

/// Whether `new` is `old` after cancelling `waiter`, with `cancelled` detached.
pub open spec fn waiter_cancelled<R, W>(old: QueueView<R, W>, new: QueueView<R, W>, waiter: WaiterId, group: EligibilityGroup, cancelled: Option<WaiterCancellation<R>>) -> bool {
    &&& (!old.waiters.contains_key(waiter.0) ==> {
        &&& cancelled is None
        &&& new.waiters == old.waiters
        &&& old.same_order(new)
    })
    &&& (old.waiters.contains_key(waiter.0) ==> match old.waiters[waiter.0].phase {
        WaiterPhase::Waiting { .. } => {
            &&& cancelled matches Some(c) && {
                &&& c.returned_events@ == seq![None::<AcquisitionEvent<R>>, None]
                &&& old.is_head(waiter.0) ==> {
                    &&& old.pops_head_to(new, c.demand_updates@[1], group)
                    &&& c.demand_updates@[0] == Some(ticket_retirement(old.demand.unwrap()))
                }
                &&& !old.is_head(waiter.0) ==> {
                    &&& c.demand_updates@ == seq![None::<DemandSnapshot>, None]
                    &&& new.fifo == old.fifo.remove(old.fifo.index_of(waiter.0))
                    &&& new.demand == old.demand
                    &&& new.next_waiter == old.next_waiter
                    &&& new.next_demand_id == old.next_demand_id
                }
            }
            &&& new.waiters == old.waiters.remove(waiter.0)
        },
        WaiterPhase::DeliveryPending { waker, pending_result } => {
            &&& cancelled matches Some(c) && {
                &&& c.returned_events@ == seq![None::<AcquisitionEvent<R>>, None]
                &&& c.demand_updates@ == seq![None::<DemandSnapshot>, None]
            }
            &&& new.waiters == old.waiters.insert(
                waiter.0,
                WaiterView {
                    requirement: old.waiters[waiter.0].requirement,
                    phase: WaiterPhase::DeliveryCancelled { waker, pending_result },
                },
            )
            &&& old.same_order(new)
        },
        WaiterPhase::DeliveryCancelled { .. } => {
            &&& cancelled is None
            &&& new.waiters == old.waiters
            &&& old.same_order(new)
        },
        WaiterPhase::ReadyToEstablish { permit } => {
            &&& cancelled matches Some(c) && {
                &&& c.returned_events@ == seq![Some(AcquisitionEvent::<R>::Establish(permit)), None]
                &&& c.demand_updates@ == seq![None::<DemandSnapshot>, None]
            }
            &&& new.waiters == old.waiters.remove(waiter.0)
            &&& old.same_order(new)
        },
        WaiterPhase::Ready(result) => {
            &&& cancelled matches Some(c) && {
                &&& c.returned_events@ == seq![Some(AcquisitionEvent::Complete(result)), None]
                &&& c.demand_updates@ == seq![None::<DemandSnapshot>, None]
            }
            &&& new.waiters == old.waiters.remove(waiter.0)
            &&& old.same_order(new)
        },
        WaiterPhase::Launching { .. } => {
            &&& cancelled matches Some(c) && {
                &&& c.returned_events@ == seq![None::<AcquisitionEvent<R>>, None]
                &&& c.demand_updates@ == seq![None::<DemandSnapshot>, None]
            }
            &&& new.waiters == old.waiters.remove(waiter.0)
            &&& old.same_order(new)
        },
    })
}

/// Whether `new` is `old` after reserving the waiter of `demand` for one delivery.
pub open spec fn delivery_reserved<R, W>(old: QueueView<R, W>, new: QueueView<R, W>, demand: DemandId, group: EligibilityGroup, reservation: DeliveryReservation) -> bool {
    &&& (!(old.demand is Some && old.demand.unwrap().id == demand) ==> {
        &&& reservation is Rejected
        &&& new.waiters == old.waiters
        &&& old.same_order(new)
    })
    &&& (old.demand is Some && old.demand.unwrap().id == demand ==> {
        let head = old.fifo[0];
        &&& reservation matches DeliveryReservation::Reserved { waiter, successor } && {
            &&& waiter.0 == head
            &&& old.pops_head_to(new, successor, group)
        }
        &&& new.waiters == old.waiters.insert(
            head,
            WaiterView {
                requirement: old.waiters[head].requirement,
                phase: WaiterPhase::DeliveryPending {
                    waker: phase_waker(old.waiters[head].phase),
                    pending_result: None,
                },
            },
        )
    })
}

/// Whether `new` is `old` after capacity `permit` crossed back to `waiter`.
pub open spec fn capacity_installed<R, W>(old: QueueView<R, W>, new: QueueView<R, W>, waiter: WaiterId, permit: EstablishmentPermit, install: ResultInstall<R, W>) -> bool {
    &&& (old.same_order(new))
    &&& (({
        let event = AcquisitionEvent::<R>::Establish(permit);
        &&& !old.waiters.contains_key(waiter.0) ==> rejects_unchanged(
            install,
            event,
            Some(ResultInstallError::MissingWaiter),
            old,
            new,
        )
        &&& old.waiters.contains_key(waiter.0) ==> {
            let v = old.waiters[waiter.0];
            match v.phase {
                WaiterPhase::DeliveryPending { waker, pending_result } => {
                    &&& install.waker == waker
                    &&& install.error is None
                    &&& match pending_result {
                        Some(result) => {
                            &&& new.waiters == old.waiters.insert(
                                waiter.0,
                                WaiterView { requirement: v.requirement, phase: WaiterPhase::Ready(result) },
                            )
                            &&& install.returned_events@ == seq![Some(event), None]
                            &&& !install.accepted
                        },
                        None => {
                            &&& new.waiters == old.waiters.insert(
                                waiter.0,
                                WaiterView {
                                    requirement: v.requirement,
                                    phase: WaiterPhase::ReadyToEstablish { permit },
                                },
                            )
                            &&& install.returned_events@ == seq![None::<AcquisitionEvent<R>>, None]
                            &&& install.accepted
                        },
                    }
                },
                WaiterPhase::DeliveryCancelled { waker, pending_result } => {
                    &&& new.waiters == old.waiters.remove(waiter.0)
                    &&& install.returned_events@ == seq![completion(pending_result), Some(event)]
                    &&& install.waker == waker
                    &&& install.error is None
                    &&& !install.accepted
                },
                _ => rejects_unchanged(
                    install,
                    event,
                    Some(ResultInstallError::UnexpectedState),
                    old,
                    new,
                ),
            }
        }
    }))
}

/// Delivered capacity is never lost: once a permit crosses back to its
/// waiter, either the waiter holds it, ready to establish, or the permit is
/// among the events handed back for cleanup.
pub proof fn lemma_delivered_capacity_is_never_lost<R, W>(
    old: QueueView<R, W>,
    new: QueueView<R, W>,
    waiter: WaiterId,
    permit: EstablishmentPermit,
    install: ResultInstall<R, W>,
)
    requires
        capacity_installed(old, new, waiter, permit, install),
    ensures
        install.accepted ==> new.waiters.contains_key(waiter.0) && new.waiters[waiter.0].phase
            == (WaiterPhase::ReadyToEstablish::<R, W> { permit }),
        !install.accepted ==> install.returned_events@.contains(Some(AcquisitionEvent::<R>::Establish(permit))),
{
    let event = Some(AcquisitionEvent::<R>::Establish(permit));
    if !install.accepted {
        if install.returned_events@.len() == 2 && install.returned_events@[0] == event {
            assert(install.returned_events@[0] == event);
        } else {
            assert(install.returned_events@[1] == event);
        }
    }
}

/// A delivery reserved for the FIFO head is committed to that waiter:
/// capacity crossing back right after the reservation is accepted without
/// error, and the waiter then holds the permit, ready to establish.
pub proof fn lemma_reserved_delivery_is_accepted<R, W>(
    queue: QueueView<R, W>,
    reserved: QueueView<R, W>,
    committed: QueueView<R, W>,
    demand: DemandId,
    group: EligibilityGroup,
    reservation: DeliveryReservation,
    permit: EstablishmentPermit,
    install: ResultInstall<R, W>,
)
    requires
        delivery_reserved(queue, reserved, demand, group, reservation),
        reservation is Reserved,
        capacity_installed(reserved, committed, reservation->waiter, permit, install),
    ensures
        install.accepted,
        install.error is None,
        committed.waiters[reservation->waiter.0].phase == (WaiterPhase::ReadyToEstablish::<R, W> { permit }),
{
    assert(reserved.waiters.contains_key(reservation->waiter.0));
}

/// Cancelling a waiter during its delivery refunnels the capacity: the
/// cancellation takes effect, and the permit that then crosses back is
/// returned for cleanup without error while the waiter is gone.
pub proof fn lemma_cancelled_delivery_returns_capacity<R, W>(
    queue: QueueView<R, W>,
    reserved: QueueView<R, W>,
    cancelled_view: QueueView<R, W>,
    committed: QueueView<R, W>,
    demand: DemandId,
    group: EligibilityGroup,
    reservation: DeliveryReservation,
    cancelled: Option<WaiterCancellation<R>>,
    permit: EstablishmentPermit,
    install: ResultInstall<R, W>,
)
    requires
        delivery_reserved(queue, reserved, demand, group, reservation),
        reservation is Reserved,
        waiter_cancelled(reserved, cancelled_view, reservation->waiter, group, cancelled),
        capacity_installed(cancelled_view, committed, reservation->waiter, permit, install),
    ensures
        cancelled is Some,
        !install.accepted,
        install.error is None,
        install.returned_events@.contains(Some(AcquisitionEvent::<R>::Establish(permit))),
        !committed.waiters.contains_key(reservation->waiter.0),
{
    let w = reservation->waiter.0;
    assert(reserved.waiters.contains_key(w));
    assert(cancelled_view.waiters.contains_key(w));
    assert(install.returned_events@[1] == Some(AcquisitionEvent::<R>::Establish(permit)));
}

/// Whether `phase` holds the terminal result `result`, ready or pending
/// behind a delivery.
pub open spec fn holds_result<R, W>(phase: WaiterPhase<R, W>, result: R) -> bool {
    ||| phase == WaiterPhase::<R, W>::Ready(result)
    ||| phase matches WaiterPhase::DeliveryPending { pending_result, .. } && pending_result == Some(result)
}

/// A returned HTTP/1 sender is never lost: it goes to the oldest attempt that
/// may take it, which then holds it, or, when no attempt may, it is handed
/// back for ordinary return.
pub proof fn lemma_returned_sender_is_never_lost<R, W>(
    old: QueueView<R, W>,
    new: QueueView<R, W>,
    result: R,
    group: EligibilityGroup,
    install: H1Install<R, W>,
)
    requires
        returned_h1_installed(old, new, result, group, install),
    ensures
        old.has_h1_eligible() ==> new.waiters.contains_key(old.oldest_h1()) && holds_result(
            new.waiters[old.oldest_h1()].phase,
            result,
        ),
        !old.has_h1_eligible() ==> install.returned_event == Some(AcquisitionEvent::Complete(result)),
{
}

/// Whether `new` is `old` after a borrowed HTTP/1 sender `result` crossed back to `waiter`.
pub open spec fn borrowed_h1_installed<R, W>(old: QueueView<R, W>, new: QueueView<R, W>, waiter: WaiterId, result: R, install: ResultInstall<R, W>) -> bool {
    &&& (old.same_order(new))
    &&& (({
        let event = AcquisitionEvent::Complete(result);
        &&& !old.waiters.contains_key(waiter.0) ==> rejects_unchanged(
            install,
            event,
            Some(ResultInstallError::MissingWaiter),
            old,
            new,
        )
        &&& old.waiters.contains_key(waiter.0) ==> {
            let v = old.waiters[waiter.0];
            match v.phase {
                WaiterPhase::DeliveryPending { waker, pending_result } => {
                    &&& install.waker == waker
                    &&& install.error is None
                    &&& match pending_result {
                        Some(local) => {
                            &&& new.waiters == old.waiters.insert(
                                waiter.0,
                                WaiterView { requirement: v.requirement, phase: WaiterPhase::Ready(local) },
                            )
                            &&& install.returned_events@ == seq![Some(event), None]
                            &&& !install.accepted
                        },
                        None => {
                            &&& new.waiters == old.waiters.insert(
                                waiter.0,
                                WaiterView { requirement: v.requirement, phase: WaiterPhase::Ready(result) },
                            )
                            &&& install.returned_events@ == seq![None::<AcquisitionEvent<R>>, None]
                            &&& install.accepted
                        },
                    }
                },
                WaiterPhase::DeliveryCancelled { waker, pending_result } => {
                    &&& new.waiters == old.waiters.remove(waiter.0)
                    &&& install.returned_events@ == seq![completion(pending_result), Some(event)]
                    &&& install.waker == waker
                    &&& install.error is None
                    &&& !install.accepted
                },
                _ => rejects_unchanged(
                    install,
                    event,
                    Some(ResultInstallError::UnexpectedState),
                    old,
                    new,
                ),
            }
        }
    }))
}

/// Whether `new` is `old` after establishment `result` completed `waiter`.
pub open spec fn establishment_installed<R, W>(old: QueueView<R, W>, new: QueueView<R, W>, waiter: WaiterId, result: R, install: ResultInstall<R, W>) -> bool {
    &&& (old.same_order(new))
    &&& (({
        let event = AcquisitionEvent::Complete(result);
        &&& (!old.waiters.contains_key(waiter.0) || old.waiters[waiter.0].phase is Ready)
            ==> rejects_unchanged(install, event, None, old, new)
        &&& old.waiters.contains_key(waiter.0) ==> match old.waiters[waiter.0].phase {
            WaiterPhase::Ready(_) => true,
            WaiterPhase::Launching { waker, .. } => {
                &&& new.waiters == old.waiters.insert(
                    waiter.0,
                    WaiterView {
                        requirement: old.waiters[waiter.0].requirement,
                        phase: WaiterPhase::Ready(result),
                    },
                )
                &&& install.returned_events@ == seq![None::<AcquisitionEvent<R>>, None]
                &&& install.waker == waker
                &&& install.error is None
                &&& install.accepted
            },
            _ => rejects_unchanged(
                install,
                event,
                Some(ResultInstallError::UnexpectedState),
                old,
                new,
            ),
        }
    }))
}

/// The demand a registration publishes: a bounded waiter that finds the
/// FIFO empty starts a new demand generation.
pub open spec fn registration_snapshot<R, W>(
    old: QueueView<R, W>,
    requirement: ProtocolRequirement,
    group: EligibilityGroup,
    bounded: bool,
) -> Option<DemandSnapshot> {
    if bounded && old.fifo.len() == 0 {
        Some(ticket_snapshot(
            DemandTicket { id: DemandId(old.next_demand_id), version: SnapshotVersion(0), requirement },
            group,
        ))
    } else {
        None
    }
}

/// Whether `new` is `old` after registering a waiter with `requirement`.
pub open spec fn waiter_registered<R, W>(old: QueueView<R, W>, new: QueueView<R, W>, requirement: ProtocolRequirement, group: EligibilityGroup, bounded: bool, registered: (WaiterId, Option<DemandSnapshot>)) -> bool {
    &&& (registered.0.0 == old.next_waiter)
    &&& (new.next_waiter == old.next_waiter + 1)
    &&& (!bounded ==> {
        &&& new.waiters == old.waiters.insert(
            registered.0.0,
            WaiterView {
                requirement,
                phase: WaiterPhase::ReadyToEstablish {
                    permit: EstablishmentPermit { lease: None },
                },
            },
        )
        &&& new.fifo == old.fifo
        &&& new.demand == old.demand
        &&& new.next_demand_id == old.next_demand_id
        &&& registered.1 is None
    })
    &&& (bounded ==> {
        &&& new.waiters == old.waiters.insert(
            registered.0.0,
            WaiterView { requirement, phase: WaiterPhase::Waiting { waker: None } },
        )
        &&& new.fifo == old.fifo.push(registered.0.0)
    })
    &&& (bounded && old.fifo.len() == 0 ==> {
        let ticket = DemandTicket {
            id: DemandId(old.next_demand_id),
            version: SnapshotVersion(0),
            requirement,
        };
        &&& new.demand == Some(ticket)
        &&& registered.1 == Some(ticket_snapshot(ticket, group))
        &&& new.next_demand_id == old.next_demand_id + 1
    })
    &&& (bounded && old.fifo.len() > 0 ==> {
        &&& new.demand == old.demand
        &&& registered.1 is None
        &&& new.next_demand_id == old.next_demand_id
    })
}

/// Whether `new` is `old` after polling `waiter` with `waker`.
pub open spec fn waiter_polled<R, W>(old: QueueView<R, W>, new: QueueView<R, W>, waiter: WaiterId, waker: W, event: Option<AcquisitionEvent<R>>) -> bool {
    &&& (old.same_order(new))
    &&& (({
        let v = old.waiters[waiter.0];
        match v.phase {
            WaiterPhase::ReadyToEstablish { permit } => {
                &&& event == Some(AcquisitionEvent::<R>::Establish(permit))
                &&& new.waiters == old.waiters.insert(
                    waiter.0,
                    WaiterView {
                        requirement: v.requirement,
                        phase: WaiterPhase::Launching { phase: EstablishmentPhase::Submitted, waker: None },
                    },
                )
            },
            WaiterPhase::Ready(result) => {
                &&& event == Some(AcquisitionEvent::Complete(result))
                &&& new.waiters == old.waiters.remove(waiter.0)
            },
            WaiterPhase::Waiting { .. } => {
                &&& event is None
                &&& new.waiters == old.waiters.insert(
                    waiter.0,
                    WaiterView { requirement: v.requirement, phase: WaiterPhase::Waiting { waker: Some(waker) } },
                )
            },
            WaiterPhase::DeliveryPending { pending_result, .. } => {
                &&& event is None
                &&& new.waiters == old.waiters.insert(
                    waiter.0,
                    WaiterView {
                        requirement: v.requirement,
                        phase: WaiterPhase::DeliveryPending { waker: Some(waker), pending_result },
                    },
                )
            },
            WaiterPhase::Launching { phase, .. } => {
                &&& event is None
                &&& new.waiters == old.waiters.insert(
                    waiter.0,
                    WaiterView { requirement: v.requirement, phase: WaiterPhase::Launching { phase, waker: Some(waker) } },
                )
            },
            WaiterPhase::DeliveryCancelled { .. } => false,
        }
    }))
}

/// Whether `new` is `old` after taking the ready result of `waiter`.
pub open spec fn ready_result_taken<R, W>(old: QueueView<R, W>, new: QueueView<R, W>, waiter: WaiterId, result: Option<R>) -> bool {
    &&& (old.same_order(new))
    &&& (match (if old.waiters.contains_key(waiter.0) {
        Some(old.waiters[waiter.0].phase)
    } else {
        None
    }) {
        Some(WaiterPhase::Ready(ready)) => {
            &&& result == Some(ready)
            &&& new.waiters == old.waiters.remove(waiter.0)
        },
        _ => result is None && new.waiters == old.waiters,
    })
}

/// Whether `new` is `old` after offering `activation` to the oldest HTTP/2
/// candidate at or before `cutoff`, with `install` detached.
pub open spec fn h2_installed<R, W>(old: QueueView<R, W>, new: QueueView<R, W>, cutoff: Option<WaiterId>, activation: R, group: EligibilityGroup, install: H2WaiterInstall<R, W>) -> bool {
                let w = old.oldest_h2();
                let offered = old.has_h2_eligible() && (cutoff matches Some(c) ==> w <= c.0);
                &&& !offered ==> {
                    &&& install.waiter is None
                    &&& install.demand_updates@ == seq![None::<DemandSnapshot>, None]
                    &&& install.returned_event is None
                    &&& install.waker is None
                    &&& new.waiters == old.waiters
                    &&& old.same_order(new)
                }
                &&& offered ==> {
                    let v = old.waiters[w];
                    &&& install.waiter == Some(WaiterId(w))
                    &&& {
                        &&& old.is_head(w) ==> {
                            &&& old.pops_head_to(new, install.demand_updates@[1], group)
                            &&& install.demand_updates@[0] == Some(ticket_retirement(old.demand.unwrap()))
                            &&& new.waiters == old.waiters.insert(
                                w,
                                WaiterView { requirement: v.requirement, phase: WaiterPhase::Ready(activation) },
                            )
                            &&& install.returned_event is None
                            &&& install.waker == phase_waker(v.phase)
                        }
                        &&& !old.is_head(w) ==> {
                            &&& old.same_order(new)
                            &&& install.demand_updates@ == seq![None::<DemandSnapshot>, None]
                            &&& match v.phase {
                                WaiterPhase::DeliveryPending { waker, .. } => {
                                    &&& new.waiters == old.waiters.insert(
                                        w,
                                        WaiterView {
                                            requirement: v.requirement,
                                            phase: WaiterPhase::DeliveryPending {
                                                waker,
                                                pending_result: Some(activation),
                                            },
                                        },
                                    )
                                    &&& install.returned_event is None
                                    &&& install.waker is None
                                },
                                WaiterPhase::ReadyToEstablish { permit } => {
                                    &&& new.waiters == old.waiters.insert(
                                        w,
                                        WaiterView { requirement: v.requirement, phase: WaiterPhase::Ready(activation) },
                                    )
                                    &&& install.returned_event == Some(AcquisitionEvent::<R>::Establish(permit))
                                    &&& install.waker is None
                                },
                                WaiterPhase::Launching { waker, .. } => {
                                    &&& new.waiters == old.waiters.insert(
                                        w,
                                        WaiterView { requirement: v.requirement, phase: WaiterPhase::Ready(activation) },
                                    )
                                    &&& install.returned_event is None
                                    &&& install.waker == waker
                                },
                                _ => false,
                            }
                        }
                    }
                }
            }

/// Cancelling a waiter consumes at most one demand identity.
pub proof fn lemma_cancel_keeps_demand_room<R, W>(
    old: QueueView<R, W>,
    new: QueueView<R, W>,
    waiter: WaiterId,
    group: EligibilityGroup,
    cancelled: Option<WaiterCancellation<R>>,
)
    requires
        waiter_cancelled(old, new, waiter, group, cancelled),
    ensures
        new.next_demand_id <= old.next_demand_id + 1,
        new.next_waiter == old.next_waiter,
{
}

/// Polling a waiter consumes no identity.
pub proof fn lemma_poll_keeps_demand_room<R, W>(
    old: QueueView<R, W>,
    new: QueueView<R, W>,
    waiter: WaiterId,
    waker: W,
    event: Option<AcquisitionEvent<R>>,
)
    requires
        waiter_polled(old, new, waiter, waker, event),
    ensures
        new.next_demand_id == old.next_demand_id,
        new.next_waiter == old.next_waiter,
{
}

/// Whether a waiter has left the capacity path: its establishment attempt
/// runs or its terminal result is installed.
pub open spec fn phase_is_settled<R, W>(phase: WaiterPhase<R, W>) -> bool {
    phase is Launching || phase is Ready
}

/// Whether waiter `w` may still take an establishment result in `q`: it was
/// registered, and it is launching, already resolved, or gone.
pub open spec fn accepts_establishment_result<R, W>(q: QueueView<R, W>, w: u64) -> bool {
    &&& w < q.next_waiter
    &&& q.waiters.contains_key(w) ==> phase_is_settled(q.waiters[w].phase)
}

/// Whether `new` keeps the settled waiters of `old` settled: identities only
/// grow, a waiter registered before `new` was retained by `old`, and a
/// settled waiter stays settled while it is retained.
pub open spec fn keeps_settled<R, W>(old: QueueView<R, W>, new: QueueView<R, W>) -> bool {
    &&& old.next_waiter <= new.next_waiter
    &&& forall|w: u64| #[trigger] new.waiters.contains_key(w) && w < old.next_waiter ==> {
        &&& old.waiters.contains_key(w)
        &&& phase_is_settled(old.waiters[w].phase) ==> phase_is_settled(new.waiters[w].phase)
    }
}

/// Settled waiters stay able to take establishment results.
pub proof fn lemma_settled_accepts<R, W>(old: QueueView<R, W>, new: QueueView<R, W>, w: u64)
    requires
        keeps_settled(old, new),
        accepts_establishment_result(old, w),
    ensures
        accepts_establishment_result(new, w),
{
}

/// Two transitions that keep settled waiters settled compose.
pub proof fn lemma_keeps_settled_trans<R, W>(a: QueueView<R, W>, b: QueueView<R, W>, c: QueueView<R, W>)
    requires
        keeps_settled(a, b),
        keeps_settled(b, c),
    ensures
        keeps_settled(a, c),
{
    assert forall|w: u64| #[trigger] c.waiters.contains_key(w) && w < a.next_waiter implies {
        &&& a.waiters.contains_key(w)
        &&& phase_is_settled(a.waiters[w].phase) ==> phase_is_settled(c.waiters[w].phase)
    } by {
        assert(b.waiters.contains_key(w));
    }
}

/// Cancellation keeps settled waiters settled.
pub proof fn lemma_cancel_keeps_settled<R, W>(
    old: QueueView<R, W>,
    new: QueueView<R, W>,
    waiter: WaiterId,
    group: EligibilityGroup,
    cancelled: Option<WaiterCancellation<R>>,
)
    requires
        waiter_cancelled(old, new, waiter, group, cancelled),
    ensures
        keeps_settled(old, new),
{
}

/// Installing a returned HTTP/1 sender keeps settled waiters settled.
pub proof fn lemma_returned_h1_keeps_settled<R, W>(
    old: QueueView<R, W>,
    new: QueueView<R, W>,
    result: R,
    group: EligibilityGroup,
    install: H1Install<R, W>,
)
    requires
        returned_h1_installed(old, new, result, group, install),
    ensures
        keeps_settled(old, new),
{
    if old.has_h1_eligible() {
        old.lemma_oldest_h1_exists();
    }
}

/// Complete acquisition state protected by one origin cell lock.
///
/// At every completed transition:
///
/// - `records` owns every retained acquisition attempt;
/// - the FIFO links thread exactly the waiting records, oldest first;
/// - the active demand identifies and describes the FIFO head;
/// - `h1_candidates` holds, in increasing order, exactly each H1-compatible
///   delivery-pending (without a pending result), ready-to-establish or
///   launching attempt;
/// - `h2_candidates` holds, in increasing order, every such attempt of any
///   requirement.
pub struct AcquisitionQueue<R, W> {
    /// Every attempt still waiting, launching, or holding a terminal result.
    records: HashMap<u64, WaiterRecord<R, W>>,
    /// FIFO endpoints and demand for the records currently waiting.
    waiting: WaitingQueueState,
    /// H1-compatible attempts still competing with a returned sender.
    h1_candidates: IdSet,
    /// Attempts outside the FIFO that may accept an H2 activation.
    h2_candidates: IdSet,
    /// Next cell-local waiter identity.
    next_waiter: u64,
    /// Next identity for a head-waiter demand generation.
    next_demand_id: u64,
    /// Order of the waiting records threaded by the FIFO links.
    fifo: Ghost<Seq<u64>>,
}

impl<R, W> View for AcquisitionQueue<R, W> {
    type V = QueueView<R, W>;

    closed spec fn view(&self) -> QueueView<R, W> {
        QueueView {
            waiters: self.records@.map_values(|r: WaiterRecord<R, W>| record_view(r)),
            fifo: self.fifo@,
            demand: match self.waiting {
                WaitingQueueState::Empty => None,
                WaitingQueueState::Active { demand, .. } => Some(demand),
            },
            next_waiter: self.next_waiter,
            next_demand_id: self.next_demand_id,
        }
    }
}

pub open spec fn link_previous<R, W>(state: WaiterState<R, W>) -> Option<u64> {
    match state {
        WaiterState::Waiting { previous, .. } => previous,
        _ => None,
    }
}

pub open spec fn link_next<R, W>(state: WaiterState<R, W>) -> Option<u64> {
    match state {
        WaiterState::Waiting { next, .. } => next,
        _ => None,
    }
}

pub open spec fn state_with_next<R, W>(state: WaiterState<R, W>, next: Option<u64>) -> WaiterState<R, W> {
    match state {
        WaiterState::Waiting { previous, waker, .. } => WaiterState::Waiting { previous, next, waker },
        other => other,
    }
}

pub open spec fn state_with_previous<R, W>(state: WaiterState<R, W>, previous: Option<u64>) -> WaiterState<R, W> {
    match state {
        WaiterState::Waiting { next, waker, .. } => WaiterState::Waiting { previous, next, waker },
        other => other,
    }
}

/// The FIFO links thread exactly the waiting records of `m` in the order `f`,
/// which is strictly increasing.
pub open spec fn links_ok<R, W>(m: Map<u64, WaiterRecord<R, W>>, f: Seq<u64>) -> bool {
    &&& sorted_ids(f)
    &&& forall|i: int| 0 <= i < f.len() ==> #[trigger] link_at(m, f, i)
    &&& forall|w: u64| #[trigger] m.contains_key(w) && m[w].state is Waiting ==> f.contains(w)
}

/// The record at FIFO position `i` is waiting and linked to its neighbours.
pub open spec fn link_at<R, W>(m: Map<u64, WaiterRecord<R, W>>, f: Seq<u64>, i: int) -> bool {
    &&& m.contains_key(f[i])
    &&& m[f[i]].state is Waiting
    &&& link_previous(m[f[i]].state) == (if i == 0 { None } else { Some(f[i - 1]) })
    &&& link_next(m[f[i]].state) == (if i == f.len() - 1 { None } else { Some(f[i + 1]) })
}

/// Whether a record is an HTTP/1 candidate outside the FIFO.
pub open spec fn is_h1_candidate_record<R, W>(m: Map<u64, WaiterRecord<R, W>>, w: u64) -> bool {
    m.contains_key(w) && view_is_h1_candidate(record_view(m[w]))
}

/// Whether a record is an HTTP/2 candidate outside the FIFO.
pub open spec fn is_h2_candidate_record<R, W>(m: Map<u64, WaiterRecord<R, W>>, w: u64) -> bool {
    m.contains_key(w) && phase_is_candidate(phase_of(m[w].state))
}

/// The candidate sets list exactly the candidate records of `m`.
pub open spec fn candidates_ok<R, W>(m: Map<u64, WaiterRecord<R, W>>, h1: Set<u64>, h2: Set<u64>) -> bool {
    &&& forall|w: u64| #[trigger] h1.contains(w) <==> is_h1_candidate_record(m, w)
    &&& forall|w: u64| #[trigger] h2.contains(w) <==> is_h2_candidate_record(m, w)
}

/// Replacing a record by one with the same view and candidacy keeps the
/// abstract waiters and the candidate sets.
proof fn lemma_replace_same_view<R, W>(
    m: Map<u64, WaiterRecord<R, W>>,
    k: u64,
    r: WaiterRecord<R, W>,
    h1: Set<u64>,
    h2: Set<u64>,
)
    requires
        m.contains_key(k),
        record_view(r) == record_view(m[k]),
        candidates_ok(m, h1, h2),
    ensures
        m.insert(k, r).map_values(|x: WaiterRecord<R, W>| record_view(x)) == m.map_values(
            |x: WaiterRecord<R, W>| record_view(x),
        ),
        candidates_ok(m.insert(k, r), h1, h2),
{
    assert(m.insert(k, r).map_values(|x: WaiterRecord<R, W>| record_view(x)) =~= m.map_values(
        |x: WaiterRecord<R, W>| record_view(x),
    ));
    let m2 = m.insert(k, r);
    assert forall|w: u64| #[trigger] h1.contains(w) <==> is_h1_candidate_record(m2, w) by {
        if w == k {
            assert(is_h1_candidate_record(m, w) == is_h1_candidate_record(m2, w));
        }
    }
    assert forall|w: u64| #[trigger] h2.contains(w) <==> is_h2_candidate_record(m2, w) by {
        if w == k {
            assert(phase_of(r.state) == phase_of(m[k].state));
        }
    }
}

/// The abstract waiters after inserting one record.
proof fn lemma_view_insert<R, W>(m: Map<u64, WaiterRecord<R, W>>, k: u64, r: WaiterRecord<R, W>)
    ensures
        m.insert(k, r).map_values(|x: WaiterRecord<R, W>| record_view(x)) == m.map_values(
            |x: WaiterRecord<R, W>| record_view(x),
        ).insert(k, record_view(r)),
{
    assert(m.insert(k, r).map_values(|x: WaiterRecord<R, W>| record_view(x)) =~= m.map_values(
        |x: WaiterRecord<R, W>| record_view(x),
    ).insert(k, record_view(r)));
}

/// Appending a fresh waiting record at the FIFO tail keeps the links.
proof fn lemma_links_append<R, W>(
    m0: Map<u64, WaiterRecord<R, W>>,
    f: Seq<u64>,
    w: u64,
    r: WaiterRecord<R, W>,
    m2: Map<u64, WaiterRecord<R, W>>,
)
    requires
        links_ok(m0, f),
        forall|k: u64| #[trigger] m0.contains_key(k) ==> k < w,
        r.state == (WaiterState::<R, W>::Waiting {
            previous: if f.len() == 0 { None } else { Some(f[f.len() - 1]) },
            next: None,
            waker: None,
        }),
        m2 == (if f.len() == 0 {
            m0
        } else {
            m0.insert(
                f[f.len() - 1],
                WaiterRecord {
                    requirement: m0[f[f.len() - 1]].requirement,
                    state: state_with_next(m0[f[f.len() - 1]].state, Some(w)),
                },
            )
        }).insert(w, r),
    ensures
        links_ok(m2, f.push(w)),
{
    let f2 = f.push(w);
    assert forall|i: int| 0 <= i < f2.len() implies link_at(m2, f2, i) by {
        if i < f.len() {
            assert(link_at(m0, f, i));
            assert(f[i] == f2[i]);
            assert(m0.contains_key(f[i]));
            if i > 0 {
                assert(f2[i - 1] == f[i - 1]);
            }
            if i < f.len() - 1 {
                assert(f2[i + 1] == f[i + 1]);
            }
        }
    }
    if f.len() > 0 {
        assert(link_at(m0, f, f.len() - 1));
    }
    assert forall|k: u64| #[trigger] m2.contains_key(k) && m2[k].state is Waiting implies f2.contains(k) by {
        if k == w {
            assert(f2[f2.len() - 1] == k);
        } else {
            assert(m0.contains_key(k));
            let j = choose|j: int| 0 <= j < f.len() && f[j] == k;
            assert(f2[j] == k);
        }
    }
    assert forall|i: int, j: int| 0 <= i < j < f2.len() implies f2[i] < f2[j] by {
        if j == f2.len() - 1 {
            assert(link_at(m0, f, i));
            assert(m0.contains_key(f[i]));
        }
    }
}

/// The abstract waiters after removing one record.
proof fn lemma_view_remove<R, W>(m: Map<u64, WaiterRecord<R, W>>, k: u64)
    ensures
        m.remove(k).map_values(|x: WaiterRecord<R, W>| record_view(x)) == m.map_values(
            |x: WaiterRecord<R, W>| record_view(x),
        ).remove(k),
{
    assert(m.remove(k).map_values(|x: WaiterRecord<R, W>| record_view(x)) =~= m.map_values(
        |x: WaiterRecord<R, W>| record_view(x),
    ).remove(k));
}

/// Removing a record that is no candidate keeps the candidate sets.
proof fn lemma_candidates_remove<R, W>(m: Map<u64, WaiterRecord<R, W>>, k: u64, h1: Set<u64>, h2: Set<u64>)
    requires
        candidates_ok(m, h1, h2),
        !is_h2_candidate_record(m, k),
    ensures
        candidates_ok(m.remove(k), h1, h2),
{
    assert forall|w: u64| #[trigger] h1.contains(w) <==> is_h1_candidate_record(m.remove(k), w) by {
        if w == k {
            assert(!is_h1_candidate_record(m, w));
        }
    }
    assert forall|w: u64| #[trigger] h2.contains(w) <==> is_h2_candidate_record(m.remove(k), w) by {}
}

/// Relinking a waiting record keeps candidacy and its abstract view.
proof fn lemma_relink_keeps<R, W>(m: Map<u64, WaiterRecord<R, W>>, k: u64, r: WaiterRecord<R, W>, h1: Set<u64>, h2: Set<u64>)
    requires
        m.contains_key(k),
        m[k].state is Waiting,
        r.requirement == m[k].requirement,
        r.state is Waiting,
        r.state->Waiting_waker == m[k].state->Waiting_waker,
        candidates_ok(m, h1, h2),
    ensures
        candidates_ok(m.insert(k, r), h1, h2),
        record_view(r) == record_view(m[k]),
{
    lemma_replace_same_view(m, k, r, h1, h2);
}

/// Unlinking the FIFO head keeps the links of the remaining FIFO.
proof fn lemma_links_pop_head<R, W>(m0: Map<u64, WaiterRecord<R, W>>, f0: Seq<u64>, m1: Map<u64, WaiterRecord<R, W>>)
    requires
        links_ok(m0, f0),
        f0.len() > 0,
        m1 == (if f0.len() > 1 {
            m0.insert(
                f0[1],
                WaiterRecord {
                    requirement: m0[f0[1]].requirement,
                    state: state_with_previous(m0[f0[1]].state, None),
                },
            )
        } else {
            m0
        }).remove(f0[0]),
    ensures
        links_ok(m1, f0.drop_first()),
{
    let f1 = f0.drop_first();
    assert forall|i: int| 0 <= i < f1.len() implies link_at(m1, f1, i) by {
        assert(link_at(m0, f0, i + 1));
        assert(f1[i] == f0[i + 1]);
        assert(f0[0] < f0[i + 1]);
        if i > 0 {
            assert(f1[i - 1] == f0[i]);
        }
        if i < f1.len() - 1 {
            assert(f1[i + 1] == f0[i + 2]);
        }
    }
    assert(link_at(m0, f0, 0));
    if f0.len() > 1 {
        assert(link_at(m0, f0, 1));
    }
    assert forall|w: u64| #[trigger] m1.contains_key(w) && m1[w].state is Waiting implies f1.contains(w) by {
        assert(m0.contains_key(w));
        let j = choose|j: int| 0 <= j < f0.len() && f0[j] == w;
        assert(j != 0);
        assert(f1[j - 1] == w);
    }
}

/// The record map after unlinking the inner FIFO record at index `k`.
pub open spec fn unlink_inner<R, W>(m0: Map<u64, WaiterRecord<R, W>>, f0: Seq<u64>, k: int) -> Map<u64, WaiterRecord<R, W>> {
    let after_previous = m0.insert(
        f0[k - 1],
        WaiterRecord {
            requirement: m0[f0[k - 1]].requirement,
            state: state_with_next(
                m0[f0[k - 1]].state,
                if k == f0.len() - 1 { None } else { Some(f0[k + 1]) },
            ),
        },
    );
    if k == f0.len() - 1 {
        after_previous.remove(f0[k])
    } else {
        after_previous.insert(
            f0[k + 1],
            WaiterRecord {
                requirement: m0[f0[k + 1]].requirement,
                state: state_with_previous(m0[f0[k + 1]].state, Some(f0[k - 1])),
            },
        ).remove(f0[k])
    }
}

/// One position of the FIFO after unlinking the inner record at `k`.
proof fn lemma_unlink_inner_index<R, W>(m0: Map<u64, WaiterRecord<R, W>>, f0: Seq<u64>, k: int, i: int)
    requires
        links_ok(m0, f0),
        0 < k < f0.len(),
        0 <= i < f0.len() - 1,
    ensures
        link_at(unlink_inner(m0, f0, k), f0.remove(k), i),
{
    let m1 = unlink_inner(m0, f0, k);
    let f1 = f0.remove(k);
    let last = f0.len() - 1;
    assert(f0[k - 1] < f0[k]);
    if k < last {
        assert(f0[k] < f0[k + 1]);
    }
    if i < k - 1 {
        assert(link_at(m0, f0, i));
        assert(f1[i] == f0[i]);
        assert(f0[i] < f0[k - 1]);
        assert(m1[f1[i]] == m0[f0[i]]);
        assert(f0[i]  == f0[i]);
        let _ = f0[i];
        assert(m0.contains_key(f0[i]));
        if i > 0 {
            assert(f1[i - 1] == f0[i - 1]);
        }
        assert(f1[i + 1] == f0[i + 1]);
    } else if i == k - 1 {
        assert(link_at(m0, f0, k - 1));
        assert(f1[i] == f0[k - 1]);
        let _ = f0[k - 1];
        if i > 0 {
            assert(f1[i - 1] == f0[i - 1]);
        }
        if k < last {
            assert(f1[i + 1] == f0[k + 1]);
        }
    } else if i == k {
        assert(k < last);
        assert(link_at(m0, f0, k + 1));
        assert(f1[i] == f0[k + 1]);
        let _ = f0[k + 1];
        assert(f1[i - 1] == f0[k - 1]);
        if i < f1.len() - 1 {
            assert(f1[i + 1] == f0[k + 2]);
        }
    } else {
        assert(link_at(m0, f0, i + 1));
        assert(f1[i] == f0[i + 1]);
        assert(f0[k + 1] < f0[i + 1]);
        let _ = f0[i + 1];
        assert(m1[f1[i]] == m0[f0[i + 1]]);
        assert(f1[i - 1] == f0[i]);
        if i < f1.len() - 1 {
            assert(f1[i + 1] == f0[i + 2]);
        }
    }
}

/// Unlinking an inner or tail record keeps the links of the remaining FIFO.
proof fn lemma_links_remove_inner<R, W>(m0: Map<u64, WaiterRecord<R, W>>, f0: Seq<u64>, k: int)
    requires
        links_ok(m0, f0),
        0 < k < f0.len(),
    ensures
        links_ok(unlink_inner(m0, f0, k), f0.remove(k)),
{
    let m1 = unlink_inner(m0, f0, k);
    let f1 = f0.remove(k);
    assert forall|i: int| 0 <= i < f1.len() implies link_at(m1, f1, i) by {
        lemma_unlink_inner_index(m0, f0, k, i);
    }
    assert forall|a: int, b: int| 0 <= a < b < f1.len() implies f1[a] < f1[b] by {
        let a0 = if a < k { a } else { a + 1 };
        let b0 = if b < k { b } else { b + 1 };
        assert(f1[a] == f0[a0]);
        assert(f1[b] == f0[b0]);
    }
    assert(link_at(m0, f0, k - 1));
    assert(link_at(m0, f0, k));
    if k < f0.len() - 1 {
        assert(link_at(m0, f0, k + 1));
    }
    assert forall|w: u64| #[trigger] m1.contains_key(w) && m1[w].state is Waiting implies f1.contains(w) by {
        assert(m0.contains_key(w));
        let j = choose|j: int| 0 <= j < f0.len() && f0[j] == w;
        assert(j != k);
        if j < k {
            assert(f1[j] == w);
        } else {
            assert(f1[j - 1] == w);
        }
    }
}

/// Replacing or adding one record keeps the candidate sets exact once the
/// record's own membership is set by its new state.
proof fn lemma_candidates_store<R, W>(
    m: Map<u64, WaiterRecord<R, W>>,
    k: u64,
    r: WaiterRecord<R, W>,
    h1: Set<u64>,
    h2: Set<u64>,
    h1n: Set<u64>,
    h2n: Set<u64>,
)
    requires
        candidates_ok(m, h1, h2),
        h1n == (if view_is_h1_candidate(record_view(r)) { h1.insert(k) } else { h1.remove(k) }),
        h2n == (if phase_is_candidate(phase_of(r.state)) { h2.insert(k) } else { h2.remove(k) }),
    ensures
        candidates_ok(m.insert(k, r), h1n, h2n),
{
    let m2 = m.insert(k, r);
    assert forall|w: u64| #[trigger] h1n.contains(w) <==> is_h1_candidate_record(m2, w) by {
        if w != k {
            assert(h1n.contains(w) == h1.contains(w));
        }
    }
    assert forall|w: u64| #[trigger] h2n.contains(w) <==> is_h2_candidate_record(m2, w) by {
        if w != k {
            assert(h2n.contains(w) == h2.contains(w));
        }
    }
}

/// Dropping one record and its memberships keeps the candidate sets exact.
proof fn lemma_candidates_drop<R, W>(m: Map<u64, WaiterRecord<R, W>>, k: u64, h1: Set<u64>, h2: Set<u64>)
    requires
        candidates_ok(m, h1, h2),
    ensures
        candidates_ok(m.remove(k), h1.remove(k), h2.remove(k)),
{
    let m2 = m.remove(k);
    assert forall|w: u64| #[trigger] h1.remove(k).contains(w) <==> is_h1_candidate_record(m2, w) by {}
    assert forall|w: u64| #[trigger] h2.remove(k).contains(w) <==> is_h2_candidate_record(m2, w) by {}
}

/// Whether a stored state may still receive an activation outside the FIFO.
fn state_is_candidate<R, W>(state: &WaiterState<R, W>) -> (candidate: bool)
    ensures
        candidate == phase_is_candidate(phase_of(*state)),
{
    match state {
        WaiterState::DeliveryPending { pending_result, .. } => pending_result.is_none(),
        WaiterState::ReadyToEstablish { .. } => true,
        WaiterState::Launching { .. } => true,
        _ => false,
    }
}

/// A strictly increasing sequence bounded by `n` has at most `n` elements.
proof fn lemma_sorted_len_bound(s: Seq<u64>, n: u64)
    requires
        sorted_ids(s),
        forall|i: int| 0 <= i < s.len() ==> s[i] < n,
    ensures
        s.len() <= n,
{
    if s.len() > 0 {
        assert forall|i: int| 0 <= i < s.len() implies s[i] >= i by {
            lemma_sorted_index_lower_bound(s, i);
        }
        assert(s[s.len() - 1] >= s.len() - 1);
    }
}

proof fn lemma_sorted_index_lower_bound(s: Seq<u64>, i: int)
    requires
        sorted_ids(s),
        0 <= i < s.len(),
    ensures
        s[i] >= i,
    decreases i,
{
    if i > 0 {
        lemma_sorted_index_lower_bound(s, i - 1);
    }
}

impl<R, W> AcquisitionQueue<R, W> {
    /// The FIFO links thread exactly the waiting records in increasing order.
    closed spec fn links_wf(&self) -> bool {
        links_ok(self.records@, self.fifo@)
    }

    /// The FIFO endpoints, length and demand describe the ghost order.
    closed spec fn waiting_wf(&self) -> bool {
        let f = self.fifo@;
        match self.waiting {
            WaitingQueueState::Empty => f.len() == 0,
            WaitingQueueState::Active { head, tail, len, demand } => {
                &&& f.len() > 0
                &&& head == f[0]
                &&& tail == f[f.len() - 1]
                &&& len == f.len()
                &&& demand.requirement == self.records@[head].requirement
                &&& demand.id.0 < self.next_demand_id
                &&& demand.version.0 < u64::MAX
            },
        }
    }

    /// The candidate indexes list exactly the records their rule names.
    closed spec fn candidates_wf(&self) -> bool {
        &&& self.h1_candidates.wf()
        &&& self.h2_candidates.wf()
        &&& candidates_ok(self.records@, self.h1_candidates@, self.h2_candidates@)
    }

    /// The queue's structural invariant.
    pub closed spec fn wf(&self) -> bool {
        &&& forall|w: u64| #[trigger] self.records@.contains_key(w) ==> w < self.next_waiter
        &&& self.links_wf()
        &&& self.waiting_wf()
        &&& self.candidates_wf()
    }

    /// Whether only the record map may differ between two queue states.
    closed spec fn same_except_records(&self, other: &Self) -> bool {
        &&& self.waiting == other.waiting
        &&& self.h1_candidates == other.h1_candidates
        &&& self.h2_candidates == other.h2_candidates
        &&& self.next_waiter == other.next_waiter
        &&& self.next_demand_id == other.next_demand_id
        &&& self.fifo == other.fifo
    }

    /// Replaces the newer-neighbour link of one waiting record.
    fn relink_next(&mut self, id: u64, next: Option<u64>)
        requires
            old(self).records@.contains_key(id),
        ensures
            final(self).records@ == old(self).records@.insert(
                id,
                WaiterRecord {
                    requirement: old(self).records@[id].requirement,
                    state: state_with_next(old(self).records@[id].state, next),
                },
            ),
            final(self).same_except_records(old(self)),
    {
        let record = self.records.remove(&id).unwrap();
        let WaiterRecord { requirement, state } = record;
        let state = match state {
            WaiterState::Waiting { previous, next: _, waker } => WaiterState::Waiting {
                previous,
                next,
                waker,
            },
            other => other,
        };
        self.records.insert(id, WaiterRecord { requirement, state });
    }

    /// Replaces the older-neighbour link of one waiting record.
    fn relink_previous(&mut self, id: u64, previous: Option<u64>)
        requires
            old(self).records@.contains_key(id),
        ensures
            final(self).records@ == old(self).records@.insert(
                id,
                WaiterRecord {
                    requirement: old(self).records@[id].requirement,
                    state: state_with_previous(old(self).records@[id].state, previous),
                },
            ),
            final(self).same_except_records(old(self)),
    {
        let record = self.records.remove(&id).unwrap();
        let WaiterRecord { requirement, state } = record;
        let state = match state {
            WaiterState::Waiting { previous: _, next, waker } => WaiterState::Waiting {
                previous,
                next,
                waker,
            },
            other => other,
        };
        self.records.insert(id, WaiterRecord { requirement, state });
    }

    /// Creates a queue with no waiters.
    pub fn new() -> (queue: Self)
        ensures
            queue.wf(),
            queue@.waiters == Map::<u64, WaiterView<R, W>>::empty(),
            queue@.fifo == Seq::<u64>::empty(),
            queue@.demand is None,
            queue@.next_waiter == 0,
            queue@.next_demand_id == 0,
    {
        let queue = AcquisitionQueue {
            records: HashMap::new(),
            waiting: WaitingQueueState::Empty,
            h1_candidates: IdSet::new(),
            h2_candidates: IdSet::new(),
            next_waiter: 0,
            next_demand_id: 0,
            fifo: Ghost(Seq::empty()),
        };
        assert(queue@.waiters =~= Map::<u64, WaiterView<R, W>>::empty());
        queue
    }

    /// Allocates an identity that is never reused within this cell.
    fn take_waiter_id(&mut self) -> (id: u64)
        requires
            old(self).next_waiter < u64::MAX,
        ensures
            id == old(self).next_waiter,
            final(self).next_waiter == id + 1,
            final(self).records == old(self).records,
            final(self).waiting == old(self).waiting,
            final(self).h1_candidates == old(self).h1_candidates,
            final(self).h2_candidates == old(self).h2_candidates,
            final(self).next_demand_id == old(self).next_demand_id,
            final(self).fifo == old(self).fifo,
    {
        let value = self.next_waiter;
        self.next_waiter = value + 1;
        value
    }

    /// Starts a demand generation for a waiter that became the FIFO head.
    fn new_demand(&mut self, requirement: ProtocolRequirement) -> (demand: DemandTicket)
        requires
            old(self).next_demand_id < u64::MAX,
        ensures
            demand == (DemandTicket {
                id: DemandId(old(self).next_demand_id),
                version: SnapshotVersion(0),
                requirement,
            }),
            final(self).next_demand_id == old(self).next_demand_id + 1,
            final(self).records == old(self).records,
            final(self).waiting == old(self).waiting,
            final(self).h1_candidates == old(self).h1_candidates,
            final(self).h2_candidates == old(self).h2_candidates,
            final(self).next_waiter == old(self).next_waiter,
            final(self).fifo == old(self).fifo,
    {
        let value = self.next_demand_id;
        self.next_demand_id = value + 1;
        DemandTicket {
            id: DemandId::from_u64(value),
            version: SnapshotVersion::initial(),
            requirement,
        }
    }

    /// Instantiates the link invariant at one FIFO position.
    proof fn lemma_fifo_at(&self, i: int)
        requires
            self.wf(),
            0 <= i < self.fifo@.len(),
        ensures
            link_at(self.records@, self.fifo@, i),
            self.records@.contains_key(self.fifo@[i]),
            self.records@[self.fifo@[i]].state is Waiting,
    {
    }

    /// The abstract waiters are the views of the stored records.
    proof fn lemma_waiters_view(&self, w: u64)
        ensures
            self@.waiters.contains_key(w) == self.records@.contains_key(w),
            self.records@.contains_key(w) ==> self@.waiters[w] == record_view(self.records@[w]),
    {
    }

    /// The capacity FIFO is always in arrival order: it lists exactly the
    /// waiting attempts, oldest first, each once; every retained attempt is
    /// older than the next registration; and demand is live exactly while
    /// some attempt waits, naming the requirement of the oldest one.
    pub proof fn lemma_fifo_in_arrival_order(&self)
        requires
            self.wf(),
        ensures
            sorted_ids(self@.fifo),
            forall|w: u64| #[trigger] self@.waiters.contains_key(w) ==> w < self@.next_waiter,
            forall|w: u64|
                #[trigger] self@.fifo.contains(w) <==> (self@.waiters.contains_key(w) && self@.waiters[w].phase is Waiting),
            self@.demand is Some <==> self@.fifo.len() > 0,
            self@.demand is Some ==> self@.demand.unwrap().requirement == self@.waiters[self@.fifo[0]].requirement,
    {
        assert forall|w: u64| #[trigger] self@.waiters.contains_key(w) implies w < self@.next_waiter by {
            self.lemma_waiters_view(w);
        }
        assert forall|w: u64|
            #[trigger] self@.fifo.contains(w) <==> (self@.waiters.contains_key(w) && self@.waiters[w].phase is Waiting) by {
            self.lemma_waiters_view(w);
            if self@.fifo.contains(w) {
                let i = choose|i: int| 0 <= i < self.fifo@.len() && self.fifo@[i] == w;
                assert(link_at(self.records@, self.fifo@, i));
            }
        }
        if self@.fifo.len() > 0 {
            assert(link_at(self.records@, self.fifo@, 0));
            self.lemma_waiters_view(self.fifo@[0]);
        }
    }

    /// Capacity reaches waiting attempts in arrival order: a delivery that
    /// reserves an attempt reserves a waiting one, and no waiting attempt is
    /// older than it.
    pub proof fn lemma_delivery_serves_the_oldest_waiter(
        &self,
        new: QueueView<R, W>,
        demand: DemandId,
        group: EligibilityGroup,
        reservation: DeliveryReservation,
    )
        requires
            self.wf(),
            delivery_reserved(self@, new, demand, group, reservation),
            reservation is Reserved,
        ensures
            ({
                let served = reservation->waiter.0;
                &&& self@.waiters.contains_key(served)
                &&& self@.waiters[served].phase is Waiting
                &&& forall|w: u64|
                    #[trigger] self@.waiters.contains_key(w) && self@.waiters[w].phase is Waiting ==> served <= w
            }),
    {
        self.lemma_fifo_in_arrival_order();
        let served = reservation->waiter.0;
        assert(self@.fifo.contains(self@.fifo[0]));
        assert forall|w: u64| #[trigger] self@.waiters.contains_key(w) && self@.waiters[w].phase is Waiting implies served
            <= w by {
            assert(self@.fifo.contains(w));
            let i = choose|i: int| 0 <= i < self@.fifo.len() && self@.fifo[i] == w;
            if i > 0 {
                assert(sorted_ids(self@.fifo));
                assert(self@.fifo[0] < self@.fifo[i]);
            }
        }
    }

    /// Reserving a delivery keeps settled waiters settled: the reserved
    /// waiter was waiting.
    pub proof fn lemma_reserve_keeps_settled(
        &self,
        new: QueueView<R, W>,
        demand: DemandId,
        group: EligibilityGroup,
        reservation: DeliveryReservation,
    )
        requires
            self.wf(),
            delivery_reserved(self@, new, demand, group, reservation),
        ensures
            keeps_settled(self@, new),
    {
        self.lemma_fifo_in_arrival_order();
        if self@.demand is Some && self@.demand.unwrap().id == demand {
            assert(self@.fifo.contains(self@.fifo[0]));
        }
    }

    /// A registration takes a fresh identity, newer than every retained
    /// attempt. An unbounded attempt is at once ready to establish without a
    /// lease and leaves the FIFO alone; a bounded one becomes the FIFO tail
    /// and starts a demand generation exactly when the FIFO was empty.
    pub proof fn lemma_registration_takes_a_fresh_identity(
        &self,
        new: QueueView<R, W>,
        requirement: ProtocolRequirement,
        group: EligibilityGroup,
        bounded: bool,
        registered: (WaiterId, Option<DemandSnapshot>),
    )
        requires
            self.wf(),
            waiter_registered(self@, new, requirement, group, bounded, registered),
        ensures
            forall|w: u64| #[trigger] self@.waiters.contains_key(w) ==> w < registered.0.0,
            !self@.waiters.contains_key(registered.0.0),
            new.waiters.contains_key(registered.0.0),
            !bounded ==> {
                &&& registered.1 is None
                &&& new.fifo == self@.fifo
                &&& new.waiters[registered.0.0].phase == (WaiterPhase::ReadyToEstablish::<R, W> {
                    permit: EstablishmentPermit { lease: None },
                })
            },
            bounded ==> {
                &&& new.fifo == self@.fifo.push(registered.0.0)
                &&& new.fifo.len() == self@.fifo.len() + 1
                &&& (registered.1 is Some <==> self@.fifo.len() == 0)
            },
    {
        self.lemma_fifo_in_arrival_order();
    }

    /// Returns the next waiter identity and the next demand identity.
    pub fn identity_counters(&self) -> (counters: (u64, u64))
        ensures
            counters == (self@.next_waiter, self@.next_demand_id),
    {
        (self.next_waiter, self.next_demand_id)
    }

    /// Returns the oldest acquisition attempt that can accept HTTP/1.
    ///
    /// A bounded waiter remains a candidate after receiving capacity so a
    /// returned sender can still beat its establishment attempt. Comparing
    /// waiter identities preserves arrival order between that set and the
    /// current capacity-waiting head.
    pub fn oldest_h1_candidate(&self) -> (oldest: Option<WaiterId>)
        requires
            self.wf(),
        ensures
            match oldest {
                Some(w) => self@.is_oldest_h1(w.0),
                None => !self@.has_h1_eligible(),
            },
    {
        proof {
            if self.fifo@.len() > 0 {
                self.lemma_fifo_at(0);
            }
        }
        let waiting = match &self.waiting {
            WaitingQueueState::Active { head, .. } => {
                let record = self.records.get(head).unwrap();
                if record.requirement == ProtocolRequirement::H1Compatible {
                    Some(*head)
                } else {
                    None
                }
            },
            WaitingQueueState::Empty => None,
        };
        let launching = self.h1_candidates.first();
        let oldest = match (waiting, launching) {
            (Some(waiting), Some(launching)) => if waiting < launching {
                Some(waiting)
            } else {
                Some(launching)
            },
            (Some(waiting), None) => Some(waiting),
            (None, launching) => launching,
        };
        proof {
            let v = self@;
            assert forall|x: u64| v.h1_eligible(x) implies (self.h1_candidates@.contains(x) || (v.is_head(x)
                && self.records@[x].requirement == ProtocolRequirement::H1Compatible)) by {
                self.lemma_waiters_view(x);
                if !v.is_head(x) {
                    assert(is_h1_candidate_record(self.records@, x));
                }
            }
            assert forall|x: u64| self.h1_candidates@.contains(x) implies v.h1_eligible(x) by {
                self.lemma_waiters_view(x);
            }
            if v.fifo.len() > 0 {
                self.lemma_waiters_view(v.fifo[0]);
                assert(v.fifo[0] == self.fifo@[0]);
            }
            match oldest {
                Some(w) => {
                    self.lemma_waiters_view(w);
                },
                None => {
                    assert forall|x: u64| !v.h1_eligible(x) by {}
                },
            }
        }
        match oldest {
            Some(w) => Some(WaiterId(w)),
            None => None,
        }
    }

    /// Returns whether a returned H1 can satisfy a live acquisition attempt.
    pub fn can_accept_h1(&self) -> (accepts: bool)
        requires
            self.wf(),
        ensures
            accepts == self@.has_h1_eligible(),
    {
        let oldest = self.oldest_h1_candidate();
        oldest.is_some()
    }

    /// Returns whether a previously admitted local attempt still accepts H1.
    ///
    /// These candidates left the capacity FIFO before its current head and
    /// therefore precede cross-cell reuse for that newer aggregate demand.
    pub fn has_prior_h1_candidate(&self) -> (has: bool)
        requires
            self.wf(),
        ensures
            has == self@.has_prior_h1_candidate(),
    {
        let first = self.h1_candidates.first();
        let has = first.is_some();
        proof {
            if has {
                let w = first.unwrap();
                self.lemma_waiters_view(w);
            } else {
                assert forall|x: u64| !(self@.waiters.contains_key(x) && view_is_h1_candidate(self@.waiters[x])) by {
                    self.lemma_waiters_view(x);
                    assert(!Set::<u64>::empty().contains(x));
                }
            }
        }
        has
    }

    /// Returns the oldest attempt that may accept an HTTP/2 activation.
    pub fn oldest_h2_candidate(&self) -> (oldest: Option<WaiterId>)
        requires
            self.wf(),
        ensures
            match oldest {
                Some(w) => self@.is_oldest_h2(w.0),
                None => !self@.has_h2_eligible(),
            },
    {
        proof {
            if self.fifo@.len() > 0 {
                self.lemma_fifo_at(0);
            }
        }
        let waiting = match &self.waiting {
            WaitingQueueState::Active { head, .. } => Some(*head),
            WaitingQueueState::Empty => None,
        };
        let active = self.h2_candidates.first();
        let oldest = match (waiting, active) {
            (Some(waiting), Some(active)) => if waiting < active {
                Some(waiting)
            } else {
                Some(active)
            },
            (Some(waiting), None) => Some(waiting),
            (None, active) => active,
        };
        proof {
            let v = self@;
            assert forall|x: u64| v.h2_eligible(x) implies (self.h2_candidates@.contains(x) || v.is_head(x)) by {
                self.lemma_waiters_view(x);
                if !v.is_head(x) {
                    assert(is_h2_candidate_record(self.records@, x));
                }
            }
            assert forall|x: u64| self.h2_candidates@.contains(x) implies v.h2_eligible(x) by {
                self.lemma_waiters_view(x);
            }
            if v.fifo.len() > 0 {
                self.lemma_waiters_view(v.fifo[0]);
                assert(v.fifo[0] == self.fifo@[0]);
            }
            match oldest {
                Some(w) => {
                    self.lemma_waiters_view(w);
                },
                None => {
                    assert forall|x: u64| !v.h2_eligible(x) by {}
                },
            }
        }
        match oldest {
            Some(w) => Some(WaiterId(w)),
            None => None,
        }
    }

    /// Returns whether `waiter` is still the oldest H2 activation candidate.
    pub fn is_oldest_h2_candidate(&self, waiter: WaiterId) -> (oldest: bool)
        requires
            self.wf(),
        ensures
            oldest == self@.is_oldest_h2(waiter.0),
    {
        match self.oldest_h2_candidate() {
            Some(current) => current.0 == waiter.0,
            None => false,
        }
    }

    /// Returns whether `waiter` is an establishment attempt still launching.
    pub fn is_launching_h2_waiter(&self, waiter: WaiterId) -> (launching: bool)
        requires
            self.wf(),
        ensures
            launching == (self@.waiters.contains_key(waiter.0) && self@.waiters[waiter.0].phase is Launching),
    {
        proof {
            self.lemma_waiters_view(waiter.0);
        }
        match self.records.get(&waiter.0) {
            Some(record) => match &record.state {
                WaiterState::Launching { .. } => true,
                _ => false,
            },
            None => false,
        }
    }

    /// Returns the stage of `waiter`, when it is retained.
    pub fn waiter_stage(&self, waiter: WaiterId) -> (stage: Option<WaiterStage>)
        requires
            self.wf(),
        ensures
            stage == if self@.waiters.contains_key(waiter.0) {
                Some(stage_of(self@.waiters[waiter.0].phase))
            } else {
                None::<WaiterStage>
            },
    {
        proof {
            self.lemma_waiters_view(waiter.0);
        }
        match self.records.get(&waiter.0) {
            Some(record) => Some(
                match &record.state {
                    WaiterState::Waiting { .. } => WaiterStage::Waiting,
                    WaiterState::DeliveryPending { .. } => WaiterStage::DeliveryPending,
                    WaiterState::DeliveryCancelled { .. } => WaiterStage::DeliveryCancelled,
                    WaiterState::ReadyToEstablish { .. } => WaiterStage::ReadyToEstablish,
                    WaiterState::Launching { .. } => WaiterStage::Launching,
                    WaiterState::Ready(_) => WaiterStage::Ready,
                },
            ),
            None => None,
        }
    }

    /// Returns whether an acquisition at or before `cutoff` still needs H2.
    pub fn has_h2_candidate_through(&self, cutoff: WaiterId) -> (has: bool)
        requires
            self.wf(),
        ensures
            has == exists|w: u64| self@.h2_eligible(w) && w <= cutoff.0,
    {
        match self.oldest_h2_candidate() {
            Some(waiter) => waiter.0 <= cutoff.0,
            None => false,
        }
    }

    /// Returns whether any acquisition must precede a new direct H2 arrival.
    pub fn has_h2_candidate(&self) -> (has: bool)
        requires
            self.wf(),
        ensures
            has == self@.has_h2_eligible(),
    {
        self.oldest_h2_candidate().is_some()
    }

    /// Returns the newest waiter identity committed before a publication.
    pub fn publication_cutoff(&self) -> (cutoff: Option<WaiterId>)
        requires
            self.wf(),
        ensures
            match cutoff {
                Some(w) => self@.waiters.dom() != Set::<u64>::empty() && w.0 == self@.next_waiter - 1,
                None => self@.waiters.dom() == Set::<u64>::empty(),
            },
    {
        let empty = self.records.is_empty();
        proof {
            if empty {
                assert(self.records@.dom() =~= Set::<u64>::empty());
                assert(self@.waiters.dom() =~= Set::<u64>::empty());
            } else {
                assert(self.records@.dom().len() != 0);
                if self.records@.dom() == Set::<u64>::empty() {
                    assert(self.records@.dom().len() == 0);
                }
                let w = self.records@.dom().choose();
                assert(self.records@.contains_key(w));
                assert(self@.waiters.dom().contains(w));
            }
        }
        if empty {
            None
        } else {
            Some(WaiterId(self.next_waiter - 1))
        }
    }

    /// Returns the current head demand for publication after route loss.
    pub fn current_demand_snapshot(&self, eligibility_group: &EligibilityGroup) -> (snapshot: Option<
        DemandSnapshot,
    >)
        requires
            self.wf(),
        ensures
            snapshot == match self@.demand {
                Some(ticket) => Some(ticket_snapshot(ticket, *eligibility_group)),
                None => None,
            },
    {
        match &self.waiting {
            WaitingQueueState::Empty => None,
            WaitingQueueState::Active { demand, .. } => Some(demand.snapshot(eligibility_group)),
        }
    }

    /// Advances the active demand beyond an accepted route publication.
    ///
    /// Admission retires the published version when it acknowledges route
    /// visibility. Reserving the following version here ensures that route
    /// invalidation can republish the same demand generation without an
    /// older inactive snapshot winning.
    pub fn suppress_published_demand(&mut self, demand: DemandId) -> (suppressed: bool)
        requires
            old(self).wf(),
            old(self)@.demand is Some && old(self)@.demand.unwrap().id == demand
                ==> old(self)@.demand.unwrap().version.0 < u64::MAX - 2,
        ensures
            final(self).wf(),
            suppressed == (old(self)@.demand is Some && old(self)@.demand.unwrap().id == demand),
            final(self)@.demand == (if suppressed {
                let ticket = old(self)@.demand.unwrap();
                Some(DemandTicket { version: SnapshotVersion((ticket.version.0 + 2) as u64), ..ticket })
            } else {
                old(self)@.demand
            }),
            final(self)@.waiters == old(self)@.waiters,
            final(self)@.fifo == old(self)@.fifo,
            final(self)@.next_waiter == old(self)@.next_waiter,
            final(self)@.next_demand_id == old(self)@.next_demand_id,
    {
        let updated = match &self.waiting {
            WaitingQueueState::Active { head, tail, len, demand: current } => {
                if current.id == demand {
                    let acknowledged = current.version.next();
                    Some(WaitingQueueState::Active {
                        head: *head,
                        tail: *tail,
                        len: *len,
                        demand: DemandTicket { version: acknowledged.next(), ..*current },
                    })
                } else {
                    None
                }
            },
            WaitingQueueState::Empty => None,
        };
        match updated {
            Some(waiting) => {
                self.waiting = waiting;
                true
            },
            None => false,
        }
    }

    /// Unlinks the FIFO head, moving its record out, and installs any
    /// successor demand.
    fn pop_head(&mut self, eligibility_group: &EligibilityGroup) -> (removed: RemovedHead<R, W>)
        requires
            old(self).wf(),
            old(self)@.fifo.len() > 0,
            old(self)@.next_demand_id < u64::MAX,
        ensures
            final(self).wf(),
            removed.waiter == old(self)@.fifo[0],
            old(self).records@.contains_key(removed.waiter),
            removed.record.requirement == old(self).records@[removed.waiter].requirement,
            removed.record.state is Waiting,
            removed.record.state->Waiting_waker == old(self).records@[removed.waiter].state->Waiting_waker,
            Some(removed.demand) == old(self)@.demand,
            final(self)@.waiters == old(self)@.waiters.remove(removed.waiter),
            final(self)@.fifo == old(self)@.fifo.drop_first(),
            final(self)@.next_waiter == old(self)@.next_waiter,
            final(self).h1_candidates@ == old(self).h1_candidates@,
            final(self).h2_candidates@ == old(self).h2_candidates@,
            old(self)@.fifo.len() == 1 ==> {
                &&& final(self)@.demand is None
                &&& removed.successor is None
                &&& final(self)@.next_demand_id == old(self)@.next_demand_id
            },
            old(self)@.fifo.len() > 1 ==> {
                let ticket = DemandTicket {
                    id: DemandId(old(self)@.next_demand_id),
                    version: SnapshotVersion(0),
                    requirement: old(self)@.waiters[old(self)@.fifo[1]].requirement,
                };
                &&& final(self)@.demand == Some(ticket)
                &&& removed.successor == Some(ticket_snapshot(ticket, *eligibility_group))
                &&& final(self)@.next_demand_id == old(self)@.next_demand_id + 1
            },
    {
        let ghost m0 = self.records@;
        let ghost f0 = self.fifo@;
        proof {
            self.lemma_fifo_at(0);
            if f0.len() > 1 {
                self.lemma_fifo_at(1);
            }
        }
        let (head, tail, len, demand) = match &self.waiting {
            WaitingQueueState::Active { head, tail, len, demand } => (*head, *tail, *len, *demand),
            WaitingQueueState::Empty => {
                assert(false);
                (0, 0, 0, DemandTicket {
                    id: DemandId(0),
                    version: SnapshotVersion(0),
                    requirement: ProtocolRequirement::H1Compatible,
                })
            },
        };
        assert(f0[0] == head);
        let next = match &self.records.get(&head).unwrap().state {
            WaiterState::Waiting { next, .. } => *next,
            _ => None,
        };
        proof {
            self.lemma_waiters_view(head);
            if f0.len() > 1 {
                self.lemma_waiters_view(f0[1]);
            }
        }
        let successor = match next {
            Some(next) => {
                assert(next == f0[1]);
                proof {
                    lemma_relink_keeps(
                        self.records@,
                        next,
                        WaiterRecord {
                            requirement: self.records@[next].requirement,
                            state: state_with_previous(self.records@[next].state, None),
                        },
                        self.h1_candidates@,
                        self.h2_candidates@,
                    );
                }
                self.relink_previous(next, None);
                let requirement = self.records.get(&next).unwrap().requirement;
                let next_demand = self.new_demand(requirement);
                let snapshot = next_demand.snapshot(eligibility_group);
                self.waiting = WaitingQueueState::Active { head: next, tail, len: len - 1, demand: next_demand };
                Some(snapshot)
            },
            None => {
                self.waiting = WaitingQueueState::Empty;
                None
            },
        };
        let ghost m1 = self.records@;
        let record = self.records.remove(&head).unwrap();
        proof {
            self.fifo@ = f0.drop_first();
            lemma_links_pop_head(m0, f0, self.records@);
            lemma_candidates_remove(m1, head, self.h1_candidates@, self.h2_candidates@);
            lemma_view_remove(m1, head);
            if f0.len() > 1 {
                lemma_view_insert(m0, f0[1], m1[f0[1]]);
                assert(self@.waiters =~= old(self)@.waiters.remove(head));
                assert(self.fifo@[0] == f0[1]);
                assert(self.fifo@[self.fifo@.len() - 1] == f0[f0.len() - 1]);
            } else {
                assert(self@.waiters =~= old(self)@.waiters.remove(head));
            }
            assert(forall|w: u64| #[trigger] self.records@.contains_key(w) ==> m0.contains_key(w));
            assert(self.links_wf());
            assert(self.waiting_wf());
        }
        RemovedHead { waiter: head, record, demand, successor }
    }

    /// Unlinks a waiting record behind the head, moving it out, without
    /// changing aggregate demand.
    fn remove_non_head(&mut self, waiter: u64) -> (record: WaiterRecord<R, W>)
        requires
            old(self).wf(),
            old(self)@.fifo.contains(waiter),
            old(self)@.fifo[0] != waiter,
        ensures
            final(self).wf(),
            record == old(self).records@[waiter],
            old(self).records@.contains_key(waiter),
            final(self)@.waiters == old(self)@.waiters.remove(waiter),
            final(self)@.fifo == old(self)@.fifo.remove(old(self)@.fifo.index_of(waiter)),
            final(self)@.demand == old(self)@.demand,
            final(self)@.next_waiter == old(self)@.next_waiter,
            final(self)@.next_demand_id == old(self)@.next_demand_id,
            final(self).h1_candidates@ == old(self).h1_candidates@,
            final(self).h2_candidates@ == old(self).h2_candidates@,
    {
        let ghost m0 = self.records@;
        let ghost f0 = self.fifo@;
        let ghost k = f0.index_of(waiter);
        proof {
            assert(0 <= k < f0.len() && f0[k] == waiter);
            assert(k > 0);
            self.lemma_fifo_at(k);
            self.lemma_fifo_at(k - 1);
            if k < f0.len() - 1 {
                self.lemma_fifo_at(k + 1);
            }
        }
        let (previous, next) = match &self.records.get(&waiter).unwrap().state {
            WaiterState::Waiting { previous, next, .. } => (*previous, *next),
            _ => (None, None),
        };
        let previous = previous.unwrap();
        assert(previous == f0[k - 1]);
        proof {
            self.lemma_waiters_view(previous);
            lemma_relink_keeps(
                self.records@,
                previous,
                WaiterRecord {
                    requirement: self.records@[previous].requirement,
                    state: state_with_next(self.records@[previous].state, next),
                },
                self.h1_candidates@,
                self.h2_candidates@,
            );
        }
        self.relink_next(previous, next);
        let ghost after_previous = self.records@;
        match next {
            Some(next) => {
                assert(next == f0[k + 1]);
                assert(f0[k - 1] < f0[k + 1]);
                proof {
                    lemma_relink_keeps(
                        self.records@,
                        next,
                        WaiterRecord {
                            requirement: self.records@[next].requirement,
                            state: state_with_previous(self.records@[next].state, Some(previous)),
                        },
                        self.h1_candidates@,
                        self.h2_candidates@,
                    );
                }
                self.relink_previous(next, Some(previous));
            },
            None => {},
        }
        let ghost m1 = self.records@;
        let record = self.records.remove(&waiter).unwrap();
        let updated = match &self.waiting {
            WaitingQueueState::Active { head, tail, len, demand } => WaitingQueueState::Active {
                head: *head,
                tail: if next.is_none() { previous } else { *tail },
                len: *len - 1,
                demand: *demand,
            },
            WaitingQueueState::Empty => WaitingQueueState::Empty,
        };
        self.waiting = updated;
        proof {
            self.fifo@ = f0.remove(k);
            assert(m1[waiter] == m0[waiter]);
            assert(self.records@ == unlink_inner(m0, f0, k));
            lemma_links_remove_inner(m0, f0, k);
            lemma_candidates_remove(m1, waiter, self.h1_candidates@, self.h2_candidates@);
            lemma_view_remove(m1, waiter);
            lemma_view_insert(m0, previous, after_previous[previous]);
            if next.is_some() {
                lemma_view_insert(after_previous, f0[k + 1], m1[f0[k + 1]]);
            }
            assert(self@.waiters =~= old(self)@.waiters.remove(waiter));
            assert(forall|w: u64| #[trigger] self.records@.contains_key(w) ==> m0.contains_key(w));
            assert(self.fifo@[0] == f0[0]);
            assert(self.fifo@[self.fifo@.len() - 1] == (if k == f0.len() - 1 { f0[k - 1] } else { f0[f0.len() - 1] }));
            assert(self.links_wf());
            assert(self.waiting_wf());
        }
        record
    }

    /// Moves a record that is not waiting out of the queue.
    fn take_record(&mut self, id: u64) -> (record: WaiterRecord<R, W>)
        requires
            old(self).wf(),
            old(self).records@.contains_key(id),
            !(old(self).records@[id].state is Waiting),
        ensures
            final(self).wf(),
            record == old(self).records@[id],
            final(self)@.waiters == old(self)@.waiters.remove(id),
            final(self)@.fifo == old(self)@.fifo,
            final(self)@.demand == old(self)@.demand,
            final(self)@.next_waiter == old(self)@.next_waiter,
            final(self)@.next_demand_id == old(self)@.next_demand_id,
    {
        let ghost m0 = self.records@;
        let record = self.records.remove(&id).unwrap();
        self.h1_candidates.remove(id);
        self.h2_candidates.remove(id);
        proof {
            lemma_candidates_drop(m0, id, old(self).h1_candidates@, old(self).h2_candidates@);
            lemma_view_remove(m0, id);
            let f = self.fifo@;
            assert forall|i: int| 0 <= i < f.len() implies link_at(self.records@, f, i) by {
                assert(link_at(m0, f, i));
                if i > 0 {
                    assert(link_at(m0, f, i - 1));
                }
                if i < f.len() - 1 {
                    assert(link_at(m0, f, i + 1));
                }
            }
            if f.len() > 0 {
                assert(link_at(m0, f, 0));
            }
            assert(self.links_wf());
            assert(self.waiting_wf());
        }
        record
    }

    /// Stores a record that is not waiting, keeping its candidate memberships.
    fn store_record(&mut self, id: u64, record: WaiterRecord<R, W>)
        requires
            old(self).wf(),
            id < old(self)@.next_waiter,
            !old(self)@.fifo.contains(id),
            !(record.state is Waiting),
        ensures
            final(self).wf(),
            final(self)@.waiters == old(self)@.waiters.insert(id, record_view(record)),
            final(self)@.fifo == old(self)@.fifo,
            final(self)@.demand == old(self)@.demand,
            final(self)@.next_waiter == old(self)@.next_waiter,
            final(self)@.next_demand_id == old(self)@.next_demand_id,
    {
        let ghost m0 = self.records@;
        let ghost r = record;
        let candidate = state_is_candidate(&record.state);
        let h1 = candidate && record.requirement == ProtocolRequirement::H1Compatible;
        self.records.insert(id, record);
        if h1 {
            self.h1_candidates.insert(id);
        } else {
            self.h1_candidates.remove(id);
        }
        if candidate {
            self.h2_candidates.insert(id);
        } else {
            self.h2_candidates.remove(id);
        }
        proof {
            lemma_candidates_store(m0, id, r, old(self).h1_candidates@, old(self).h2_candidates@,
                self.h1_candidates@, self.h2_candidates@);
            lemma_view_insert(m0, id, r);
            let f = self.fifo@;
            assert forall|i: int| 0 <= i < f.len() implies link_at(self.records@, f, i) by {
                assert(link_at(m0, f, i));
                if i > 0 {
                    assert(link_at(m0, f, i - 1));
                }
                if i < f.len() - 1 {
                    assert(link_at(m0, f, i + 1));
                }
            }
            if f.len() > 0 {
                assert(link_at(m0, f, 0));
            }
            assert forall|w: u64| #[trigger] self.records@.contains_key(w) && self.records@[w].state is Waiting
                implies f.contains(w) by {
                assert(m0.contains_key(w));
            }
            assert(self.links_wf());
            assert(self.waiting_wf());
        }
    }

    /// Reserves the current head when a delivery still names its demand
    /// generation.
    ///
    /// The reserved waiter leaves the FIFO and becomes delivery-pending. Any
    /// remaining head receives a new demand generation returned for
    /// admission acknowledgement.
    pub fn reserve_delivery_waiter(
        &mut self,
        demand: DemandId,
        eligibility_group: &EligibilityGroup,
    ) -> (reservation: DeliveryReservation)
        requires
            old(self).wf(),
            old(self)@.next_demand_id < u64::MAX,
        ensures
            final(self).wf(),
            delivery_reserved(old(self)@, final(self)@, demand, *eligibility_group, reservation),
    {
        let current = match &self.waiting {
            WaitingQueueState::Active { demand: current, .. } => current.id == demand,
            WaitingQueueState::Empty => false,
        };
        if !current {
            return DeliveryReservation::Rejected;
        }
        proof {
            self.lemma_fifo_at(0);
            self.lemma_waiters_view(self.fifo@[0]);
            if self.fifo@.len() > 1 {
                self.lemma_fifo_at(1);
                self.lemma_waiters_view(self.fifo@[1]);
            }
        }
        let removed = self.pop_head(eligibility_group);
        let RemovedHead { waiter, record, demand: _, successor } = removed;
        let WaiterRecord { requirement, state } = record;
        let waker = match state {
            WaiterState::Waiting { waker, .. } => waker,
            _ => None,
        };
        proof {
            assert(!self@.fifo.contains(waiter)) by {
                if self@.fifo.contains(waiter) {
                    let j = choose|j: int| 0 <= j < self@.fifo.len() && self@.fifo[j] == waiter;
                    assert(old(self)@.fifo[j + 1] == waiter);
                    assert(old(self)@.fifo[0] < old(self)@.fifo[j + 1]);
                }
            }
            assert(old(self).records@.contains_key(waiter));
        }
        self.store_record(
            waiter,
            WaiterRecord { requirement, state: WaiterState::DeliveryPending { waker, pending_result: None } },
        );
        assert(self@.waiters =~= old(self)@.waiters.insert(
            waiter,
            WaiterView {
                requirement: old(self)@.waiters[waiter].requirement,
                phase: WaiterPhase::DeliveryPending {
                    waker: phase_waker(old(self)@.waiters[waiter].phase),
                    pending_result: None,
                },
            },
        ));
        DeliveryReservation::Reserved { waiter: WaiterId(waiter), successor }
    }

    /// Commits a returned HTTP/1 sender to the oldest compatible attempt.
    ///
    /// The FIFO head is served directly and its demand retires. A reserved
    /// delivery keeps the sender pending until the delivery crosses back. A
    /// ready-to-establish attempt hands back its permit, a launching attempt
    /// its task. Without a compatible attempt the sender comes back.
    pub fn install_returned_h1(&mut self, result: R, eligibility_group: &EligibilityGroup) -> (install:
        H1Install<R, W>)
        requires
            old(self).wf(),
            old(self)@.next_demand_id < u64::MAX,
        ensures
            final(self).wf(),
            returned_h1_installed(old(self)@, final(self)@, result, *eligibility_group, install),
    {
        let oldest = self.oldest_h1_candidate();
        let w = match oldest {
            None => {
                return H1Install {
                    demand_updates: [None, None],
                    returned_event: Some(AcquisitionEvent::Complete(result)),
                    waker: None,
                };
            },
            Some(w) => w.0,
        };
        proof {
            old(self)@.lemma_oldest_h1_unique(w);
            self.lemma_waiters_view(w);
        }
        let is_waiting = match &self.records.get(&w).unwrap().state {
            WaiterState::Waiting { .. } => true,
            _ => false,
        };
        if is_waiting {
            proof {
                let j = choose|j: int| 0 <= j < self.fifo@.len() && self.fifo@[j] == w;
                if j > 0 {
                    self.lemma_fifo_at(j);
                }
                self.lemma_fifo_at(0);
                assert(self@.is_head(w));
                if self.fifo@.len() > 1 {
                    self.lemma_fifo_at(1);
                    self.lemma_waiters_view(self.fifo@[1]);
                }
            }
            let removed = self.pop_head(eligibility_group);
            let RemovedHead { waiter: _, record, demand, successor } = removed;
            let WaiterRecord { requirement, state } = record;
            let waker = match state {
                WaiterState::Waiting { waker, .. } => waker,
                _ => None,
            };
            proof {
                assert(!self@.fifo.contains(w)) by {
                    if self@.fifo.contains(w) {
                        let j = choose|j: int| 0 <= j < self@.fifo.len() && self@.fifo[j] == w;
                        assert(old(self)@.fifo[j + 1] == w);
                        assert(old(self)@.fifo[0] < old(self)@.fifo[j + 1]);
                    }
                }
            }
            self.store_record(w, WaiterRecord { requirement, state: WaiterState::Ready(result) });
            let retired = DemandSnapshot::inactive(demand.id, demand.version.next());
            assert(self@.waiters =~= old(self)@.waiters.insert(
                w,
                WaiterView { requirement: old(self)@.waiters[w].requirement, phase: WaiterPhase::Ready(result) },
            ));
            return H1Install { demand_updates: [Some(retired), successor], returned_event: None, waker };
        }
        proof {
            assert(!old(self)@.is_head(w)) by {
                if old(self)@.is_head(w) {
                    self.lemma_fifo_at(0);
                }
            }
            assert(!old(self)@.fifo.contains(w)) by {
                if old(self)@.fifo.contains(w) {
                    let j = choose|j: int| 0 <= j < self.fifo@.len() && self.fifo@[j] == w;
                    self.lemma_fifo_at(j);
                }
            }
        }
        let record = self.take_record(w);
        let WaiterRecord { requirement, state } = record;
        let (returned_event, waker) = match state {
            WaiterState::DeliveryPending { waker, pending_result: _ } => {
                self.store_record(
                    w,
                    WaiterRecord {
                        requirement,
                        state: WaiterState::DeliveryPending { waker, pending_result: Some(result) },
                    },
                );
                (None, None)
            },
            WaiterState::ReadyToEstablish { permit } => {
                self.store_record(w, WaiterRecord { requirement, state: WaiterState::Ready(result) });
                (Some(AcquisitionEvent::Establish(permit)), None)
            },
            WaiterState::Launching { phase: _, waker } => {
                self.store_record(w, WaiterRecord { requirement, state: WaiterState::Ready(result) });
                (None, waker)
            },
            _ => {
                assert(false);
                (Some(AcquisitionEvent::Complete(result)), None)
            },
        };
        proof {
            let v = old(self)@.waiters[w];
            match v.phase {
                WaiterPhase::DeliveryPending { waker, .. } => {
                    assert(self@.waiters =~= old(self)@.waiters.insert(
                        w,
                        WaiterView {
                            requirement: v.requirement,
                            phase: WaiterPhase::DeliveryPending { waker, pending_result: Some(result) },
                        },
                    ));
                },
                _ => {
                    assert(self@.waiters =~= old(self)@.waiters.insert(
                        w,
                        WaiterView { requirement: v.requirement, phase: WaiterPhase::Ready(result) },
                    ));
                },
            }
        }
        H1Install { demand_updates: [None, None], returned_event, waker }
    }

    /// Replaces the recorded task of a waiting record, keeping its links.
    fn set_waiting_waker(&mut self, id: u64, waker: W)
        requires
            old(self).wf(),
            old(self).records@.contains_key(id),
            old(self).records@[id].state is Waiting,
        ensures
            final(self).wf(),
            final(self)@.waiters == old(self)@.waiters.insert(
                id,
                WaiterView {
                    requirement: old(self)@.waiters[id].requirement,
                    phase: WaiterPhase::Waiting { waker: Some(waker) },
                },
            ),
            old(self)@.same_order(final(self)@),
    {
        let ghost m0 = self.records@;
        let record = self.records.remove(&id).unwrap();
        let WaiterRecord { requirement, state } = record;
        let state = match state {
            WaiterState::Waiting { previous, next, waker: _ } => WaiterState::Waiting {
                previous,
                next,
                waker: Some(waker),
            },
            other => other,
        };
        let ghost r = WaiterRecord { requirement, state };
        self.records.insert(id, WaiterRecord { requirement, state });
        proof {
            let f = self.fifo@;
            assert forall|i: int| 0 <= i < f.len() implies link_at(self.records@, f, i) by {
                assert(link_at(m0, f, i));
            }
            if f.len() > 0 {
                assert(link_at(m0, f, 0));
            }
            assert forall|w: u64| #[trigger] self.records@.contains_key(w) && self.records@[w].state is Waiting
                implies f.contains(w) by {
                assert(m0.contains_key(w));
            }
            assert(self.links_wf());
            assert(self.waiting_wf());
            lemma_candidates_store(m0, id, r, self.h1_candidates@, self.h2_candidates@,
                self.h1_candidates@.remove(id), self.h2_candidates@.remove(id));
            assert(self.h1_candidates@.remove(id) =~= self.h1_candidates@);
            assert(self.h2_candidates@.remove(id) =~= self.h2_candidates@);
            lemma_view_insert(m0, id, r);
            assert(self@.waiters =~= old(self)@.waiters.insert(
                id,
                WaiterView {
                    requirement: old(self)@.waiters[id].requirement,
                    phase: WaiterPhase::Waiting { waker: Some(waker) },
                },
            ));
        }
    }

    /// Cancels one waiter and detaches all cross-lock cleanup work.
    ///
    /// Removing the head retires its demand and starts a successor generation.
    /// Removing another waiting record leaves the active demand unchanged.
    /// Cancellation during delivery leaves a marker for result installation to
    /// observe. A ready result or permit is returned to the caller.
    pub fn cancel_waiter(&mut self, waiter: WaiterId, eligibility_group: &EligibilityGroup) -> (cancelled:
        Option<WaiterCancellation<R>>)
        requires
            old(self).wf(),
            old(self)@.next_demand_id < u64::MAX,
        ensures
            final(self).wf(),
            waiter_cancelled(old(self)@, final(self)@, waiter, *eligibility_group, cancelled),
    {
        let w = waiter.0;
        proof {
            self.lemma_waiters_view(w);
        }
        let kind: u8 = match self.records.get(&w) {
            None => 0,
            Some(record) => match &record.state {
                WaiterState::Waiting { .. } => 1,
                WaiterState::DeliveryPending { .. } => 2,
                WaiterState::DeliveryCancelled { .. } => 3,
                _ => 4,
            },
        };
        if kind == 0 || kind == 3 {
            return None;
        }
        if kind == 1 {
            let is_head = match &self.waiting {
                WaitingQueueState::Active { head, .. } => *head == w,
                WaitingQueueState::Empty => false,
            };
            proof {
                let j = choose|j: int| 0 <= j < self.fifo@.len() && self.fifo@[j] == w;
                self.lemma_fifo_at(0);
                if self.fifo@.len() > 1 {
                    self.lemma_fifo_at(1);
                    self.lemma_waiters_view(self.fifo@[1]);
                }
                assert(is_head == old(self)@.is_head(w));
                assert(old(self)@.fifo.contains(w));
            }
            if is_head {
                let removed = self.pop_head(eligibility_group);
                let retired = DemandSnapshot::inactive(removed.demand.id, removed.demand.version.next());
                return Some(WaiterCancellation {
                    demand_updates: [Some(retired), removed.successor],
                    returned_events: vec![None, None],
                });
            } else {
                let _record = self.remove_non_head(w);
                return Some(WaiterCancellation { demand_updates: [None, None], returned_events: vec![None, None] });
            }
        }
        proof {
            assert(!old(self)@.fifo.contains(w)) by {
                if old(self)@.fifo.contains(w) {
                    let j = choose|j: int| 0 <= j < self.fifo@.len() && self.fifo@[j] == w;
                    self.lemma_fifo_at(j);
                }
            }
        }
        let record = self.take_record(w);
        let WaiterRecord { requirement, state } = record;
        match state {
            WaiterState::DeliveryPending { waker, pending_result } => {
                self.store_record(
                    w,
                    WaiterRecord { requirement, state: WaiterState::DeliveryCancelled { waker, pending_result } },
                );
                assert(self@.waiters =~= old(self)@.waiters.insert(
                    w,
                    WaiterView {
                        requirement,
                        phase: WaiterPhase::DeliveryCancelled { waker, pending_result },
                    },
                ));
                Some(WaiterCancellation { demand_updates: [None, None], returned_events: vec![None, None] })
            },
            WaiterState::ReadyToEstablish { permit } => Some(
                WaiterCancellation {
                    demand_updates: [None, None],
                    returned_events: vec![Some(AcquisitionEvent::Establish(permit)), None],
                },
            ),
            WaiterState::Ready(result) => Some(
                WaiterCancellation {
                    demand_updates: [None, None],
                    returned_events: vec![Some(AcquisitionEvent::Complete(result)), None],
                },
            ),
            _ => Some(WaiterCancellation { demand_updates: [None, None], returned_events: vec![None, None] }),
        }
    }

    /// Returns the next event or records the latest task for a pending waiter.
    ///
    /// A ready-to-establish waiter hands out its permit and starts launching.
    /// A ready waiter is removed and hands out its result. `None` means the
    /// waiter is still pending and `waker` will be woken on progress.
    pub fn poll_waiter(&mut self, waiter: WaiterId, waker: W) -> (event: Option<AcquisitionEvent<R>>)
        requires
            old(self).wf(),
            old(self)@.waiters.contains_key(waiter.0),
            !(old(self)@.waiters[waiter.0].phase is DeliveryCancelled),
        ensures
            final(self).wf(),
            waiter_polled(old(self)@, final(self)@, waiter, waker, event),
    {
        let w = waiter.0;
        proof {
            self.lemma_waiters_view(w);
        }
        let waiting = match &self.records.get(&w).unwrap().state {
            WaiterState::Waiting { .. } => true,
            _ => false,
        };
        if waiting {
            self.set_waiting_waker(w, waker);
            return None;
        }
        proof {
            assert(!old(self)@.fifo.contains(w)) by {
                if old(self)@.fifo.contains(w) {
                    let j = choose|j: int| 0 <= j < self.fifo@.len() && self.fifo@[j] == w;
                    self.lemma_fifo_at(j);
                }
            }
        }
        let record = self.take_record(w);
        let WaiterRecord { requirement, state } = record;
        match state {
            WaiterState::ReadyToEstablish { permit } => {
                self.store_record(
                    w,
                    WaiterRecord {
                        requirement,
                        state: WaiterState::Launching { phase: EstablishmentPhase::Submitted, waker: None },
                    },
                );
                assert(self@.waiters =~= old(self)@.waiters.insert(
                    w,
                    WaiterView {
                        requirement,
                        phase: WaiterPhase::Launching { phase: EstablishmentPhase::Submitted, waker: None },
                    },
                ));
                Some(AcquisitionEvent::Establish(permit))
            },
            WaiterState::Ready(result) => Some(AcquisitionEvent::Complete(result)),
            WaiterState::DeliveryPending { waker: _, pending_result } => {
                let ghost pr = pending_result;
                self.store_record(
                    w,
                    WaiterRecord {
                        requirement,
                        state: WaiterState::DeliveryPending { waker: Some(waker), pending_result },
                    },
                );
                assert(self@.waiters =~= old(self)@.waiters.insert(
                    w,
                    WaiterView {
                        requirement,
                        phase: WaiterPhase::DeliveryPending { waker: Some(waker), pending_result: pr },
                    },
                ));
                None
            },
            WaiterState::Launching { phase, waker: _ } => {
                self.store_record(
                    w,
                    WaiterRecord { requirement, state: WaiterState::Launching { phase, waker: Some(waker) } },
                );
                assert(self@.waiters =~= old(self)@.waiters.insert(
                    w,
                    WaiterView { requirement, phase: WaiterPhase::Launching { phase, waker: Some(waker) } },
                ));
                None
            },
            other => {
                assert(false);
                None
            },
        }
    }

    /// Transfers completion ownership to the pool immediately before the
    /// first poll of a submitted establishment.
    ///
    /// A returned H1 that won first leaves the waiter ready, and the
    /// submitted attempt loses its authority.
    pub fn start_establishment(&mut self, waiter: WaiterId) -> (started: bool)
        requires
            old(self).wf(),
            old(self)@.waiters.contains_key(waiter.0) ==> {
                ||| old(self)@.waiters[waiter.0].phase matches WaiterPhase::Launching { phase, .. } && phase
                    == EstablishmentPhase::Submitted
                ||| old(self)@.waiters[waiter.0].phase is Ready
            },
        ensures
            final(self).wf(),
            old(self)@.same_order(final(self)@),
            started == (old(self)@.waiters.contains_key(waiter.0) && old(self)@.waiters[waiter.0].phase is Launching),
            started ==> final(self)@.waiters == old(self)@.waiters.insert(
                waiter.0,
                WaiterView {
                    requirement: old(self)@.waiters[waiter.0].requirement,
                    phase: WaiterPhase::Launching {
                        phase: EstablishmentPhase::Started,
                        waker: phase_waker(old(self)@.waiters[waiter.0].phase),
                    },
                },
            ),
            !started ==> final(self)@.waiters == old(self)@.waiters,
    {
        let w = waiter.0;
        proof {
            self.lemma_waiters_view(w);
        }
        let launching = match self.records.get(&w) {
            Some(record) => match &record.state {
                WaiterState::Launching { .. } => true,
                _ => false,
            },
            None => false,
        };
        if !launching {
            return false;
        }
        proof {
            assert(!old(self)@.fifo.contains(w)) by {
                if old(self)@.fifo.contains(w) {
                    let j = choose|j: int| 0 <= j < self.fifo@.len() && self.fifo@[j] == w;
                    self.lemma_fifo_at(j);
                }
            }
        }
        let record = self.take_record(w);
        let WaiterRecord { requirement, state } = record;
        let waker = match state {
            WaiterState::Launching { phase: _, waker } => waker,
            _ => None,
        };
        let ghost wk = waker;
        self.store_record(
            w,
            WaiterRecord { requirement, state: WaiterState::Launching { phase: EstablishmentPhase::Started, waker } },
        );
        assert(self@.waiters =~= old(self)@.waiters.insert(
            w,
            WaiterView { requirement, phase: WaiterPhase::Launching { phase: EstablishmentPhase::Started, waker: wk } },
        ));
        true
    }

    /// Completes an unlocked crossing for a reserved waiter without losing
    /// the crossing payload.
    ///
    /// A live receiver takes ownership of the payload. If a local result
    /// already won, the payload comes back and the local result stays ready.
    /// If the waiter was cancelled during the crossing, both come back.
    fn install_crossing(&mut self, waiter: WaiterId, event: AcquisitionEvent<R>) -> (install: ResultInstall<R, W>)
        requires
            old(self).wf(),
        ensures
            final(self).wf(),
            old(self)@.same_order(final(self)@),
            !old(self)@.waiters.contains_key(waiter.0) ==> rejects_unchanged(
                install,
                event,
                Some(ResultInstallError::MissingWaiter),
                old(self)@,
                final(self)@,
            ),
            old(self)@.waiters.contains_key(waiter.0) ==> {
                let v = old(self)@.waiters[waiter.0];
                match v.phase {
                    WaiterPhase::DeliveryPending { waker, pending_result } => {
                        &&& install.waker == waker
                        &&& install.error is None
                        &&& match pending_result {
                            Some(result) => {
                                &&& final(self)@.waiters == old(self)@.waiters.insert(
                                    waiter.0,
                                    WaiterView { requirement: v.requirement, phase: WaiterPhase::Ready(result) },
                                )
                                &&& install.returned_events@ == seq![Some(event), None]
                                &&& !install.accepted
                            },
                            None => {
                                &&& final(self)@.waiters == old(self)@.waiters.insert(
                                    waiter.0,
                                    WaiterView { requirement: v.requirement, phase: crossing_phase(event) },
                                )
                                &&& install.returned_events@ == seq![None::<AcquisitionEvent<R>>, None]
                                &&& install.accepted
                            },
                        }
                    },
                    WaiterPhase::DeliveryCancelled { waker, pending_result } => {
                        &&& final(self)@.waiters == old(self)@.waiters.remove(waiter.0)
                        &&& install.returned_events@ == seq![completion(pending_result), Some(event)]
                        &&& install.waker == waker
                        &&& install.error is None
                        &&& !install.accepted
                    },
                    _ => rejects_unchanged(
                        install,
                        event,
                        Some(ResultInstallError::UnexpectedState),
                        old(self)@,
                        final(self)@,
                    ),
                }
            },
    {
        let w = waiter.0;
        proof {
            self.lemma_waiters_view(w);
        }
        let kind: u8 = match self.records.get(&w) {
            None => 0,
            Some(record) => match &record.state {
                WaiterState::DeliveryPending { .. } => 1,
                WaiterState::DeliveryCancelled { .. } => 2,
                _ => 3,
            },
        };
        if kind == 0 {
            return ResultInstall {
                returned_events: vec![Some(event), None],
                waker: None,
                error: Some(ResultInstallError::MissingWaiter),
                accepted: false,
            };
        }
        if kind == 3 {
            return ResultInstall {
                returned_events: vec![Some(event), None],
                waker: None,
                error: Some(ResultInstallError::UnexpectedState),
                accepted: false,
            };
        }
        proof {
            assert(!old(self)@.fifo.contains(w)) by {
                if old(self)@.fifo.contains(w) {
                    let j = choose|j: int| 0 <= j < self.fifo@.len() && self.fifo@[j] == w;
                    self.lemma_fifo_at(j);
                }
            }
        }
        let record = self.take_record(w);
        let WaiterRecord { requirement, state } = record;
        match state {
            WaiterState::DeliveryPending { waker, pending_result } => {
                match pending_result {
                    Some(result) => {
                        let ghost r = result;
                        self.store_record(w, WaiterRecord { requirement, state: WaiterState::Ready(result) });
                        assert(self@.waiters =~= old(self)@.waiters.insert(
                            w,
                            WaiterView { requirement, phase: WaiterPhase::Ready(r) },
                        ));
                        ResultInstall { returned_events: vec![Some(event), None], waker, error: None, accepted: false }
                    },
                    None => {
                        let ghost e = event;
                        let state = match event {
                            AcquisitionEvent::Establish(permit) => WaiterState::ReadyToEstablish { permit },
                            AcquisitionEvent::Complete(result) => WaiterState::Ready(result),
                        };
                        self.store_record(w, WaiterRecord { requirement, state });
                        assert(self@.waiters =~= old(self)@.waiters.insert(
                            w,
                            WaiterView { requirement, phase: crossing_phase(e) },
                        ));
                        ResultInstall { returned_events: vec![None, None], waker, error: None, accepted: true }
                    },
                }
            },
            WaiterState::DeliveryCancelled { waker, pending_result } => {
                let returned = match pending_result {
                    Some(result) => Some(AcquisitionEvent::Complete(result)),
                    None => None,
                };
                ResultInstall { returned_events: vec![returned, Some(event)], waker, error: None, accepted: false }
            },
            _ => {
                assert(false);
                ResultInstall { returned_events: vec![Some(event), None], waker: None, error: None, accepted: false }
            },
        }
    }

    /// Completes the unlocked capacity crossing for a reserved waiter.
    ///
    /// A live receiver becomes ready to establish. If an H1 return already
    /// won, the permit comes back for refunnelling.
    pub fn install_capacity(&mut self, waiter: WaiterId, permit: EstablishmentPermit) -> (install:
        ResultInstall<R, W>)
        requires
            old(self).wf(),
        ensures
            final(self).wf(),
            capacity_installed(old(self)@, final(self)@, waiter, permit, install),
    {
        self.install_crossing(waiter, AcquisitionEvent::Establish(permit))
    }

    /// Installs a borrowed HTTP/1 result after its requesting waiter was
    /// reserved.
    ///
    /// A local return may have won while the borrowed sender crossed; then
    /// the local result stays ready and the borrowed one comes back.
    pub fn install_borrowed_h1(&mut self, waiter: WaiterId, result: R) -> (install: ResultInstall<R, W>)
        requires
            old(self).wf(),
        ensures
            final(self).wf(),
            borrowed_h1_installed(old(self)@, final(self)@, waiter, result, install),
    {
        self.install_crossing(waiter, AcquisitionEvent::Complete(result))
    }

    /// Commits one terminal establishment result when its waiter is still
    /// launching.
    ///
    /// A waiter already served or cancelled rejects the result, which comes
    /// back for its ordinary fallback.
    pub fn install_establishment_result(&mut self, waiter: WaiterId, result: R) -> (install: ResultInstall<R, W>)
        requires
            old(self).wf(),
        ensures
            final(self).wf(),
            establishment_installed(old(self)@, final(self)@, waiter, result, install),
    {
        let w = waiter.0;
        proof {
            self.lemma_waiters_view(w);
        }
        let kind: u8 = match self.records.get(&w) {
            None => 0,
            Some(record) => match &record.state {
                WaiterState::Ready(_) => 0,
                WaiterState::Launching { .. } => 1,
                _ => 2,
            },
        };
        if kind == 0 {
            return ResultInstall {
                returned_events: vec![Some(AcquisitionEvent::Complete(result)), None],
                waker: None,
                error: None,
                accepted: false,
            };
        }
        if kind == 2 {
            return ResultInstall {
                returned_events: vec![Some(AcquisitionEvent::Complete(result)), None],
                waker: None,
                error: Some(ResultInstallError::UnexpectedState),
                accepted: false,
            };
        }
        proof {
            assert(!old(self)@.fifo.contains(w)) by {
                if old(self)@.fifo.contains(w) {
                    let j = choose|j: int| 0 <= j < self.fifo@.len() && self.fifo@[j] == w;
                    self.lemma_fifo_at(j);
                }
            }
        }
        let record = self.take_record(w);
        let WaiterRecord { requirement, state } = record;
        let waker = match state {
            WaiterState::Launching { phase: _, waker } => waker,
            _ => None,
        };
        let ghost r = result;
        self.store_record(w, WaiterRecord { requirement, state: WaiterState::Ready(result) });
        assert(self@.waiters =~= old(self)@.waiters.insert(w, WaiterView { requirement, phase: WaiterPhase::Ready(r) }));
        ResultInstall { returned_events: vec![None, None], waker, error: None, accepted: true }
    }

    /// Removes a ready waiter and transfers ownership of its result.
    pub fn take_ready_result(&mut self, waiter: WaiterId) -> (result: Option<R>)
        requires
            old(self).wf(),
        ensures
            final(self).wf(),
            ready_result_taken(old(self)@, final(self)@, waiter, result),
    {
        let w = waiter.0;
        proof {
            self.lemma_waiters_view(w);
        }
        let ready = match self.records.get(&w) {
            Some(record) => match &record.state {
                WaiterState::Ready(_) => true,
                _ => false,
            },
            None => false,
        };
        if !ready {
            return None;
        }
        let record = self.take_record(w);
        match record.state {
            WaiterState::Ready(result) => Some(result),
            _ => None,
        }
    }

    /// Reports FIFO length, retained attempts and the head demand.
    pub fn snapshot(&self) -> (snapshot: CellSnapshot)
        requires
            self.wf(),
        ensures
            snapshot.waiting == self@.fifo.len(),
            snapshot.retained == self@.waiters.len(),
            snapshot.demand == match self@.demand {
                Some(ticket) => Some(ticket.id),
                None => None,
            },
    {
        let (waiting, demand) = match &self.waiting {
            WaitingQueueState::Empty => (0, None),
            WaitingQueueState::Active { len, demand, .. } => (*len, Some(demand.id)),
        };
        proof {
            assert(self@.waiters.dom() =~= self.records@.dom());
        }
        CellSnapshot { waiting, retained: self.records.len(), demand }
    }

    /// Offers an H2 activation to the oldest compatible acquisition.
    ///
    /// `cutoff` retains publication priority: a later waiter is left pending
    /// until every live acquisition at or before the cutoff has had an
    /// activation opportunity. `result` builds the activation for the chosen
    /// waiter.
    pub fn install_h2<F: FnOnce(WaiterId) -> R>(
        &mut self,
        cutoff: Option<WaiterId>,
        result: F,
        eligibility_group: &EligibilityGroup,
    ) -> (install: H2WaiterInstall<R, W>)
        requires
            old(self).wf(),
            old(self)@.next_demand_id < u64::MAX,
            forall|w: WaiterId| result.requires((w,)),
        ensures
            final(self).wf(),
            exists|activation: R| #![trigger h2_installed(old(self)@, final(self)@, cutoff, activation, *eligibility_group, install)] {
                &&& install.waiter is Some ==> result.ensures((install.waiter.unwrap(),), activation)
                &&& h2_installed(old(self)@, final(self)@, cutoff, activation, *eligibility_group, install)
            },
    {
        let oldest = self.oldest_h2_candidate();
        let w = match oldest {
            None => {
                let install = H2WaiterInstall { waiter: None, demand_updates: [None, None], returned_event: None, waker: None };
                proof {
                    let unused = vstd::pervasive::arbitrary::<R>();
                    assert(h2_installed(old(self)@, self@, cutoff, unused, *eligibility_group, install));
                }
                return install;
            },
            Some(w) => w.0,
        };
        proof {
            old(self)@.lemma_oldest_h2_unique(w);
            self.lemma_waiters_view(w);
        }
        let beyond = match cutoff {
            Some(c) => w > c.0,
            None => false,
        };
        if beyond {
            let install = H2WaiterInstall { waiter: None, demand_updates: [None, None], returned_event: None, waker: None };
            proof {
                let unused = vstd::pervasive::arbitrary::<R>();
                assert(h2_installed(old(self)@, self@, cutoff, unused, *eligibility_group, install));
            }
            return install;
        }
        let activation = result(WaiterId(w));
        let ghost act = activation;
        let is_waiting = match &self.records.get(&w).unwrap().state {
            WaiterState::Waiting { .. } => true,
            _ => false,
        };
        if is_waiting {
            proof {
                let j = choose|j: int| 0 <= j < self.fifo@.len() && self.fifo@[j] == w;
                if j > 0 {
                    self.lemma_fifo_at(j);
                }
                self.lemma_fifo_at(0);
                assert(self@.is_head(w));
                if self.fifo@.len() > 1 {
                    self.lemma_fifo_at(1);
                    self.lemma_waiters_view(self.fifo@[1]);
                }
            }
            let removed = self.pop_head(eligibility_group);
            let RemovedHead { waiter: _, record, demand, successor } = removed;
            let WaiterRecord { requirement, state } = record;
            let waker = match state {
                WaiterState::Waiting { waker, .. } => waker,
                _ => None,
            };
            proof {
                assert(!self@.fifo.contains(w)) by {
                    if self@.fifo.contains(w) {
                        let j = choose|j: int| 0 <= j < self@.fifo.len() && self@.fifo[j] == w;
                        assert(old(self)@.fifo[j + 1] == w);
                        assert(old(self)@.fifo[0] < old(self)@.fifo[j + 1]);
                    }
                }
            }
            self.store_record(w, WaiterRecord { requirement, state: WaiterState::Ready(activation) });
            let retired = DemandSnapshot::inactive(demand.id, demand.version.next());
            assert(self@.waiters =~= old(self)@.waiters.insert(
                w,
                WaiterView { requirement: old(self)@.waiters[w].requirement, phase: WaiterPhase::Ready(act) },
            ));
            let install = H2WaiterInstall {
                waiter: Some(WaiterId(w)),
                demand_updates: [Some(retired), successor],
                returned_event: None,
                waker,
            };
            assert(h2_installed(old(self)@, self@, cutoff, act, *eligibility_group, install));
            return install;
        }
        proof {
            assert(!old(self)@.is_head(w)) by {
                if old(self)@.is_head(w) {
                    self.lemma_fifo_at(0);
                }
            }
            assert(!old(self)@.fifo.contains(w)) by {
                if old(self)@.fifo.contains(w) {
                    let j = choose|j: int| 0 <= j < self.fifo@.len() && self.fifo@[j] == w;
                    self.lemma_fifo_at(j);
                }
            }
        }
        let record = self.take_record(w);
        let WaiterRecord { requirement, state } = record;
        let (returned_event, waker) = match state {
            WaiterState::DeliveryPending { waker, pending_result: _ } => {
                self.store_record(
                    w,
                    WaiterRecord {
                        requirement,
                        state: WaiterState::DeliveryPending { waker, pending_result: Some(activation) },
                    },
                );
                (None, None)
            },
            WaiterState::ReadyToEstablish { permit } => {
                self.store_record(w, WaiterRecord { requirement, state: WaiterState::Ready(activation) });
                (Some(AcquisitionEvent::Establish(permit)), None)
            },
            WaiterState::Launching { phase: _, waker } => {
                self.store_record(w, WaiterRecord { requirement, state: WaiterState::Ready(activation) });
                (None, waker)
            },
            _ => {
                assert(false);
                (None, None)
            },
        };
        proof {
            let v = old(self)@.waiters[w];
            assert(result.ensures((WaiterId(w),), act));
            assert(!old(self)@.is_head(w));
            match v.phase {
                WaiterPhase::DeliveryPending { waker, .. } => {
                    assert(self@.waiters =~= old(self)@.waiters.insert(
                        w,
                        WaiterView {
                            requirement: v.requirement,
                            phase: WaiterPhase::DeliveryPending { waker, pending_result: Some(act) },
                        },
                    ));
                },
                _ => {
                    assert(self@.waiters =~= old(self)@.waiters.insert(
                        w,
                        WaiterView { requirement: v.requirement, phase: WaiterPhase::Ready(act) },
                    ));
                },
            }
        }
        let install = H2WaiterInstall {
            waiter: Some(WaiterId(w)),
            demand_updates: [None, None],
            returned_event,
            waker,
        };
        proof {
            let v = old(self)@.waiters[w];
            assert(old(self)@.same_order(self@));
            assert(install.demand_updates@ == seq![None::<DemandSnapshot>, None]);
            match v.phase {
                WaiterPhase::DeliveryPending { waker, .. } => {
                    assert(install.returned_event is None);
                    assert(install.waker is None);
                },
                WaiterPhase::ReadyToEstablish { permit } => {
                    assert(install.returned_event == Some(AcquisitionEvent::<R>::Establish(permit)));
                    assert(install.waker is None);
                },
                WaiterPhase::Launching { waker, .. } => {
                    assert(install.returned_event is None);
                    assert(install.waker == waker);
                },
                _ => {},
            }
            assert(result.ensures((WaiterId(w),), act));
            assert(h2_installed(old(self)@, self@, cutoff, act, *eligibility_group, install));
        }
        install
    }

    /// Registers one acquisition attempt.
    ///
    /// An unbounded attempt starts ready to establish. A bounded attempt joins
    /// the capacity FIFO and publishes demand only when it becomes the head.
    pub fn register_waiter(
        &mut self,
        requirement: ProtocolRequirement,
        eligibility_group: &EligibilityGroup,
        bounded: bool,
    ) -> (registered: (WaiterId, Option<DemandSnapshot>))
        requires
            old(self).wf(),
            old(self)@.next_waiter < u64::MAX,
            old(self)@.next_demand_id < u64::MAX,
        ensures
            final(self).wf(),
            waiter_registered(old(self)@, final(self)@, requirement, *eligibility_group, bounded, registered),
    {
        if !bounded {
            (self.register_unbounded(requirement), None)
        } else {
            self.register_bounded(requirement, eligibility_group)
        }
    }

    /// Registers an attempt that starts ready to establish.
    fn register_unbounded(&mut self, requirement: ProtocolRequirement) -> (waiter: WaiterId)
        requires
            old(self).wf(),
            old(self)@.next_waiter < u64::MAX,
        ensures
            final(self).wf(),
            waiter.0 == old(self)@.next_waiter,
            final(self)@.next_waiter == old(self)@.next_waiter + 1,
            final(self)@.waiters == old(self)@.waiters.insert(
                waiter.0,
                WaiterView {
                    requirement,
                    phase: WaiterPhase::ReadyToEstablish {
                        permit: EstablishmentPermit { lease: None },
                    },
                },
            ),
            final(self)@.fifo == old(self)@.fifo,
            final(self)@.demand == old(self)@.demand,
            final(self)@.next_demand_id == old(self)@.next_demand_id,
    {
        let ghost old_records = self.records@;
        let waiter = self.take_waiter_id();
        let record = WaiterRecord {
            requirement,
            state: WaiterState::ReadyToEstablish { permit: EstablishmentPermit::unbounded() },
        };
        let ghost record_ghost = record;
        self.records.insert(waiter, record);
        if requirement == ProtocolRequirement::H1Compatible {
            self.h1_candidates.insert(waiter);
        }
        self.h2_candidates.insert(waiter);
        proof {
            let m = self.records@;
            let f = self.fifo@;
            assert forall|i: int| 0 <= i < f.len() implies link_at(m, f, i) by {
                assert(link_at(old_records, f, i));
            }
            if f.len() > 0 {
                assert(link_at(old_records, f, 0));
            }
            assert(self.links_wf());
            assert(self.waiting_wf());
            assert(self.candidates_wf());
            lemma_view_insert(old_records, waiter, record_ghost);
        }
        WaiterId(waiter)
    }

    /// Links an attempt at the FIFO tail, creating demand when it is the head.
    #[verifier::rlimit(60)]
    fn register_bounded(
        &mut self,
        requirement: ProtocolRequirement,
        eligibility_group: &EligibilityGroup,
    ) -> (registered: (WaiterId, Option<DemandSnapshot>))
        requires
            old(self).wf(),
            old(self)@.next_waiter < u64::MAX,
            old(self)@.next_demand_id < u64::MAX,
        ensures
            final(self).wf(),
            registered.0.0 == old(self)@.next_waiter,
            final(self)@.next_waiter == old(self)@.next_waiter + 1,
            final(self)@.waiters == old(self)@.waiters.insert(
                registered.0.0,
                WaiterView { requirement, phase: WaiterPhase::Waiting { waker: None } },
            ),
            final(self)@.fifo == old(self)@.fifo.push(registered.0.0),
            old(self)@.fifo.len() == 0 ==> {
                let ticket = DemandTicket {
                    id: DemandId(old(self)@.next_demand_id),
                    version: SnapshotVersion(0),
                    requirement,
                };
                &&& final(self)@.demand == Some(ticket)
                &&& registered.1 == Some(ticket_snapshot(ticket, *eligibility_group))
                &&& final(self)@.next_demand_id == old(self)@.next_demand_id + 1
            },
            old(self)@.fifo.len() > 0 ==> {
                &&& final(self)@.demand == old(self)@.demand
                &&& registered.1 is None
                &&& final(self)@.next_demand_id == old(self)@.next_demand_id
            },
    {
        let ghost old_records = self.records@;
        let waiter = self.take_waiter_id();
        let ghost old_fifo = self.fifo@;
        let previous = match &self.waiting {
            WaitingQueueState::Empty => None,
            WaitingQueueState::Active { tail, .. } => Some(*tail),
        };
        let initial_demand = if previous.is_none() {
            Some(self.new_demand(requirement))
        } else {
            None
        };
        if let Some(previous) = previous {
            assert(old_fifo[old_fifo.len() - 1] == previous);
            proof {
                self.lemma_fifo_at(old_fifo.len() - 1);
            }
            proof {
                lemma_replace_same_view(
                    self.records@,
                    previous,
                    WaiterRecord {
                        requirement: self.records@[previous].requirement,
                        state: state_with_next(self.records@[previous].state, Some(waiter)),
                    },
                    self.h1_candidates@,
                    self.h2_candidates@,
                );
            }
            self.relink_next(previous, Some(waiter));
        }
        let ghost mid_records = self.records@;
        let record = WaiterRecord {
            requirement,
            state: WaiterState::Waiting { previous, next: None, waker: None },
        };
        proof {
            lemma_links_append(old_records, old_fifo, waiter, record, mid_records.insert(waiter, record));
            lemma_view_insert(mid_records, waiter, record);
            lemma_sorted_len_bound(old_fifo, waiter);
            let m2 = mid_records.insert(waiter, record);
            assert(candidates_ok(m2, self.h1_candidates@, self.h2_candidates@)) by {
                assert forall|w: u64| #[trigger] self.h1_candidates@.contains(w) <==> is_h1_candidate_record(m2, w) by {
                    if w == waiter {
                        assert(!self.h1_candidates@.contains(w));
                    }
                }
                assert forall|w: u64| #[trigger] self.h2_candidates@.contains(w) <==> is_h2_candidate_record(m2, w) by {
                    if w == waiter {
                        assert(!self.h2_candidates@.contains(w));
                    }
                }
            }
        }
        self.records.insert(waiter, record);
        proof {
            self.fifo@ = old_fifo.push(waiter);
        }
        let snapshot = match initial_demand {
            Some(demand) => {
                let snapshot = demand.snapshot(eligibility_group);
                self.waiting = WaitingQueueState::Active { head: waiter, tail: waiter, len: 1, demand };
                Some(snapshot)
            },
            None => {
                let updated = match &self.waiting {
                    WaitingQueueState::Active { head, tail: _, len, demand } => {
                        WaitingQueueState::Active { head: *head, tail: waiter, len: *len + 1, demand: *demand }
                    },
                    WaitingQueueState::Empty => WaitingQueueState::Empty,
                };
                self.waiting = updated;
                None
            },
        };
        assert(self.links_wf());
        assert(self.waiting_wf());
        (WaiterId(waiter), snapshot)
    }
}

} // verus!
