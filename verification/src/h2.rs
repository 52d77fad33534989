//! HTTP/2 connection generations, routes, and request activation.
//!
//! HTTP/2 carries many concurrent exchanges as streams on one connection. The
//! pool calls one installed lifetime of that connection a generation. The
//! cell that established the connection owns its generation.
//!
//! A flight is the post-ALPN handshake work shared by concurrent requests
//! waiting for that generation. A successful flight installs one accepting
//! generation; failed or superseded flight work installs nothing.
//!
//! An accepting generation may issue new request streams. A draining
//! generation issues no new streams but remains recorded while selected or
//! accepted requests still own it.
//!
//! ```text
//! no flight -- post-ALPN owner task ----------------------> Flight
//! Flight -- successful handshake and install ------------> Accepting
//! Flight -- failure, stale completion, or task drop ------> no flight
//! Accepting -- close with retained request claims --------> Draining
//! Accepting -- close without retained request claims -----> removed
//! Draining -- last prospective or accepted claim --------> removed
//! ```
//!
//! A requesting cell may store an [`H2Route`] to a peer cell's generation;
//! the route carries only partition and generation identity. Each
//! generation and each route has an activation gate that lets waiters
//! committed before the generation became visible go before later arrivals.

use crate::admission::PartitionId;
use crate::ids::{H2FlightId, H2GenerationId};
use crate::ordered_ids::{strictly_increasing, IdSet};
use crate::waiters::{AcquisitionQueue, QueueView, WaiterId};
use vstd::std_specs::iter::IteratorSpec;
use std::collections::HashMap;
use vstd::prelude::*;

verus! {

broadcast use vstd::std_specs::hash::group_hash_axioms;

/// Local priority state for one accepting generation.
#[derive(Clone, Copy, Debug, PartialEq, Eq, Structural)]
pub enum H2ActivationGate {
    /// No accepting generation is visible.
    Closed,
    /// Waiters committed through `cutoff` precede later arrivals.
    Prioritizing {
        /// Exact generation governed by this gate.
        generation: H2GenerationId,
        /// Newest waiter committed before generation visibility.
        cutoff: WaiterId,
        /// Prioritized waiter whose activation has not accepted or cancelled.
        active_turn: Option<WaiterId>,
    },
    /// The priority cutoff drained; queued work still precedes direct arrivals.
    Open { generation: H2GenerationId },
}

/// One activation opportunity returned by a generation gate.
#[derive(Clone, Copy, Debug, PartialEq, Eq, Structural)]
pub enum H2ActivationTurn {
    /// The activation gate cannot issue another activation.
    Unavailable,
    /// Any oldest compatible acquisition may activate.
    Open,
    /// Only an acquisition at or before this waiter may activate.
    Through(WaiterId),
}

/// Generation governed by a gate, if it is not closed.
pub open spec fn gate_generation(gate: H2ActivationGate) -> Option<H2GenerationId> {
    match gate {
        H2ActivationGate::Closed => None,
        H2ActivationGate::Prioritizing { generation, .. } => Some(generation),
        H2ActivationGate::Open { generation } => Some(generation),
    }
}

/// Prioritized waiter holding an activation gate's activation opportunity, if any.
pub open spec fn gate_active_turn(gate: H2ActivationGate) -> Option<WaiterId> {
    match gate {
        H2ActivationGate::Prioritizing { active_turn, .. } => active_turn,
        _ => None,
    }
}

/// Priority cutoff of a gate, while it prioritizes.
pub open spec fn gate_cutoff(gate: H2ActivationGate) -> Option<WaiterId> {
    match gate {
        H2ActivationGate::Prioritizing { cutoff, .. } => Some(cutoff),
        _ => None,
    }
}

/// The activation opportunity a gate issues next, and the activation gate afterwards.
///
/// A prioritizing gate with an outstanding turn issues nothing; once no
/// prioritized waiter remains it opens.
pub open spec fn gate_next_turn(gate: H2ActivationGate, has_prioritized: bool) -> (H2ActivationTurn, H2ActivationGate) {
    match gate {
        H2ActivationGate::Closed => (H2ActivationTurn::Unavailable, gate),
        H2ActivationGate::Prioritizing { generation, cutoff, active_turn } => {
            if active_turn is Some {
                (H2ActivationTurn::Unavailable, gate)
            } else if !has_prioritized {
                (H2ActivationTurn::Open, H2ActivationGate::Open { generation })
            } else {
                (H2ActivationTurn::Through(cutoff), gate)
            }
        },
        H2ActivationGate::Open { .. } => (H2ActivationTurn::Open, gate),
    }
}

/// The activation gate after recording `waiter`'s prioritized activation.
pub open spec fn gate_reserved(gate: H2ActivationGate, waiter: WaiterId) -> H2ActivationGate {
    match gate {
        H2ActivationGate::Prioritizing { generation, cutoff, .. } => H2ActivationGate::Prioritizing {
            generation,
            cutoff,
            active_turn: Some(waiter),
        },
        _ => gate,
    }
}

/// Whether releasing `waiter`'s turn on `generation` discharges the activation gate's turn.
pub open spec fn gate_releases(gate: H2ActivationGate, generation: H2GenerationId, waiter: WaiterId) -> bool {
    gate_generation(gate) == Some(generation) && gate_active_turn(gate) == Some(waiter)
}

/// The activation gate after releasing `waiter`'s turn on `generation`.
pub open spec fn gate_released(gate: H2ActivationGate, generation: H2GenerationId, waiter: WaiterId) -> H2ActivationGate {
    if gate_releases(gate, generation, waiter) {
        H2ActivationGate::Prioritizing { generation, cutoff: gate_cutoff(gate).unwrap(), active_turn: None }
    } else {
        gate
    }
}

/// The activation gate after extending its priority to `waiter`.
pub open spec fn gate_extended(gate: H2ActivationGate, generation: H2GenerationId, waiter: WaiterId) -> H2ActivationGate {
    match gate {
        H2ActivationGate::Prioritizing { generation: current, cutoff, active_turn } => H2ActivationGate::Prioritizing {
            generation: current,
            cutoff: if cutoff.0 < waiter.0 { waiter } else { cutoff },
            active_turn,
        },
        _ => H2ActivationGate::Prioritizing { generation, cutoff: waiter, active_turn: None },
    }
}

impl H2ActivationGate {
    /// Creates a gate over every waiter committed through `cutoff`.
    pub fn for_generation(generation: H2GenerationId, cutoff: Option<WaiterId>) -> (gate: Self)
        ensures
            gate == match cutoff {
                Some(cutoff) => H2ActivationGate::Prioritizing { generation, cutoff, active_turn: None },
                None => H2ActivationGate::Open { generation },
            },
    {
        match cutoff {
            Some(cutoff) => H2ActivationGate::Prioritizing { generation, cutoff, active_turn: None },
            None => H2ActivationGate::Open { generation },
        }
    }

    /// Returns the generation this gate governs.
    pub fn generation(&self) -> (generation: Option<H2GenerationId>)
        ensures
            generation == gate_generation(*self),
    {
        match self {
            H2ActivationGate::Closed => None,
            H2ActivationGate::Prioritizing { generation, .. } => Some(*generation),
            H2ActivationGate::Open { generation } => Some(*generation),
        }
    }

    /// Returns the next activation opportunity and opens a drained priority gate.
    ///
    /// `has_prioritized` reports whether a waiter at or before the cutoff
    /// still needs an activation.
    pub fn take_next_turn(&mut self, has_prioritized: bool) -> (turn: H2ActivationTurn)
        ensures
            (turn, *final(self)) == gate_next_turn(*old(self), has_prioritized),
    {
        match *self {
            H2ActivationGate::Closed => H2ActivationTurn::Unavailable,
            H2ActivationGate::Prioritizing { generation, cutoff, active_turn } => {
                if active_turn.is_some() {
                    return H2ActivationTurn::Unavailable;
                }
                if !has_prioritized {
                    *self = H2ActivationGate::Open { generation };
                    H2ActivationTurn::Open
                } else {
                    H2ActivationTurn::Through(cutoff)
                }
            },
            H2ActivationGate::Open { .. } => H2ActivationTurn::Open,
        }
    }

    /// Records a prioritized activation until it accepts or cancels.
    ///
    /// An open gate issues no turn to record.
    pub fn reserve_turn(&mut self, waiter: WaiterId) -> (gated: bool)
        requires
            !(*old(self) is Closed),
            gate_active_turn(*old(self)) is None,
        ensures
            gated == (*old(self) is Prioritizing),
            *final(self) == gate_reserved(*old(self), waiter),
    {
        match *self {
            H2ActivationGate::Prioritizing { generation, cutoff, active_turn: _ } => {
                *self = H2ActivationGate::Prioritizing { generation, cutoff, active_turn: Some(waiter) };
                true
            },
            _ => false,
        }
    }

    /// Discharges one exact activation opportunity.
    pub fn release_turn(&mut self, generation: H2GenerationId, waiter: WaiterId) -> (released: bool)
        ensures
            released == gate_releases(*old(self), generation, waiter),
            *final(self) == gate_released(*old(self), generation, waiter),
    {
        match *self {
            H2ActivationGate::Prioritizing { generation: current, cutoff, active_turn } => {
                let matches = current == generation && match active_turn {
                    Some(turn) => turn == waiter,
                    None => false,
                };
                if matches {
                    *self = H2ActivationGate::Prioritizing { generation, cutoff, active_turn: None };
                }
                matches
            },
            _ => false,
        }
    }

    /// Returns the priority cutoff while the activation gate prioritizes.
    pub fn priority_cutoff(&self) -> (cutoff: Option<WaiterId>)
        ensures
            cutoff == gate_cutoff(*self),
    {
        match self {
            H2ActivationGate::Prioritizing { cutoff, .. } => Some(*cutoff),
            _ => None,
        }
    }

    /// Returns the prioritized waiter holding the activation opportunity.
    pub fn active_turn(&self) -> (turn: Option<WaiterId>)
        ensures
            turn == gate_active_turn(*self),
    {
        match self {
            H2ActivationGate::Prioritizing { active_turn, .. } => *active_turn,
            _ => None,
        }
    }

    /// Returns whether the activation gate is open for exactly `generation`.
    pub fn is_open_for(&self, generation: H2GenerationId) -> (open: bool)
        ensures
            open == (*self == H2ActivationGate::Open { generation }),
    {
        match self {
            H2ActivationGate::Open { generation: current } => *current == generation,
            _ => false,
        }
    }
}

/// Exact connection-owning generation named by one peer route.
#[derive(Clone, Copy, Debug, PartialEq, Eq, Structural)]
pub struct H2RouteId {
    /// Partition that owns the advertised generation.
    pub connection_partition: PartitionId,
    /// Advertised generation.
    pub generation: H2GenerationId,
}

/// Identity-only reference to one accepting generation of a peer cell.
///
/// The route owns no sender, connection capacity, driver, or socket. Every
/// activation through it revalidates the generation identity at its owner.
#[derive(Clone, Copy, Debug, PartialEq, Eq, Structural)]
pub struct H2Route {
    id: H2RouteId,
}

impl H2Route {
    /// The route's exact generation identity.
    pub closed spec fn spec_id(&self) -> H2RouteId {
        self.id
    }

    /// Creates a route after its generation has been installed.
    pub fn new(connection_partition: PartitionId, generation: H2GenerationId) -> (route: Self)
        ensures
            route.spec_id() == (H2RouteId { connection_partition, generation }),
    {
        H2Route { id: H2RouteId { connection_partition, generation } }
    }

    /// Returns the exact connection-owning generation named by this route.
    pub fn id(&self) -> (id: H2RouteId)
        ensures
            id == self.spec_id(),
    {
        self.id
    }

    /// Returns the partition that owns the advertised generation.
    pub fn connection_partition(&self) -> (partition: PartitionId)
        ensures
            partition == self.spec_id().connection_partition,
    {
        self.id.connection_partition
    }

    /// Returns the advertised generation identity.
    pub fn generation(&self) -> (generation: H2GenerationId)
        ensures
            generation == self.spec_id().generation,
    {
        self.id.generation
    }
}

/// Whether an installed generation may accept new requests.
#[derive(Clone, Copy, Debug, PartialEq, Eq, Structural)]
pub enum H2GenerationState {
    /// New requests may reserve prospective claims.
    Accepting,
    /// No new requests are admitted; retained claims may finish.
    Draining,
}

/// One installed multiplexed connection generation.
#[derive(Debug)]
pub struct H2Generation<S> {
    /// Establishment waiters transferred to this generation but not yet served.
    pub pending_waiters: IdSet,
    /// Connection whose capacity and logical close this generation owns.
    pub connection: u64,
    /// Authoritative request sender, cloned only after generation validation.
    pub sender: S,
    /// Whether new activations may be issued.
    pub state: H2GenerationState,
    /// Activations selected but not yet accepted.
    pub prospective_requests: usize,
    /// Whether a request has been accepted on this generation.
    pub has_accepted_request: bool,
    /// Accepted requests whose upload and response sides have not both finished.
    pub active_requests: usize,
    /// Expiration deadline while the generation remains accepting.
    pub idle_deadline: Option<u64>,
}

/// Abstract state of one installed generation.
pub struct H2GenerationView<S> {
    pub pending_waiters: Set<u64>,
    pub connection: u64,
    pub sender: S,
    pub state: H2GenerationState,
    pub prospective_requests: usize,
    pub has_accepted_request: bool,
    pub active_requests: usize,
    pub idle_deadline: Option<u64>,
}

/// The abstract state of a generation record.
pub open spec fn generation_view<S>(record: H2Generation<S>) -> H2GenerationView<S> {
    H2GenerationView {
        pending_waiters: record.pending_waiters@,
        connection: record.connection,
        sender: record.sender,
        state: record.state,
        prospective_requests: record.prospective_requests,
        has_accepted_request: record.has_accepted_request,
        active_requests: record.active_requests,
        idle_deadline: record.idle_deadline,
    }
}

/// One post-ALPN flight and the waiters awaiting its result.
#[derive(Debug)]
pub struct H2Flight {
    /// Identity checked by the owner task at completion.
    pub id: H2FlightId,
    /// Waiters that receive the shared handshake result.
    pub participants: IdSet,
}

/// Abstract state of a flight.
pub struct H2FlightView {
    pub id: H2FlightId,
    pub participants: Set<u64>,
}

/// Peer route visibility and requesting-cell activation order.
#[derive(Clone, Copy, Debug, PartialEq, Eq, Structural)]
pub struct PeerH2Route {
    /// Exact connection-cell generation visible to this requesting cell.
    pub route: H2Route,
    /// Local waiter priority for uses of this route.
    pub activation_gate: H2ActivationGate,
    /// Waiter whose route activation is crossing the connection-cell lock.
    pub crossing_waiter: Option<WaiterId>,
}

/// Result of converging one post-ALPN attempt.
#[derive(Clone, Copy, Debug, PartialEq, Eq, Structural)]
pub enum H2FlightDecision {
    /// An installed generation can serve this waiter.
    UseGeneration(H2GenerationId),
    /// The waiter joined the current flight as a result participant.
    JoinedFlight,
    /// The caller owns the task that must drive this new flight.
    RunFlight(H2FlightId),
}

/// Resources handed to one activation of an accepting generation.
pub struct H2ActivationResources<S> {
    /// Transient clone of the generation's sender.
    pub sender: S,
    /// Whether an earlier request was accepted on this generation.
    pub reused: bool,
    /// Connection that owns the generation.
    pub connection: u64,
}

/// State detached when an accepting generation begins draining.
pub struct H2CloseTransition<S> {
    /// Connection whose logical close follows the transition.
    pub connection: u64,
    /// Unserved transferred waiters that must re-enter acquisition.
    pub pending_waiters: IdSet,
    /// Record removed because no request retained it.
    pub removed_generation: Option<H2Generation<S>>,
}

/// One requesting-cell activation prepared before crossing to its connection cell.
#[derive(Clone, Copy, Debug, PartialEq, Eq, Structural)]
pub struct PreparedPeerActivation {
    /// Route validated in the requesting cell before the crossing.
    pub route: H2Route,
    /// Oldest waiter selected for this activation.
    pub waiter: WaiterId,
    /// Peer-route cutoff that this waiter must satisfy.
    pub cutoff: Option<WaiterId>,
    /// Whether acceptance or cancellation must discharge a priority turn.
    pub gated: bool,
}

/// Abstract HTTP/2 state of one cell.
pub struct H2CellView<S> {
    /// Flight in progress, if any.
    pub flight: Option<H2FlightView>,
    /// Installed accepting and draining generations by identity.
    pub generations: Map<u64, H2GenerationView<S>>,
    /// Sole generation permitted to issue new activations.
    pub accepting: Option<H2GenerationId>,
    /// Identity-only route to one peer generation.
    pub peer_route: Option<PeerH2Route>,
    /// Local activation order for the accepting generation.
    pub local_gate: H2ActivationGate,
    /// Next flight identity.
    pub next_flight: u64,
    /// Next generation identity.
    pub next_generation: u64,
}

/// HTTP/2 flight, generation, and route state of one cell.
///
/// At most one generation accepts; the local gate names it; a flight never
/// coexists with an accepting generation, nor a peer route with one; a
/// draining generation is retained only while a request holds it and keeps no
/// transferred waiter.
#[derive(Debug)]
pub struct H2CellState<S> {
    flight: Option<H2Flight>,
    generations: HashMap<u64, H2Generation<S>>,
    accepting_generation: Option<H2GenerationId>,
    peer_route: Option<PeerH2Route>,
    local_activation_gate: H2ActivationGate,
    next_flight_id: u64,
    next_generation_id: u64,
}

/// Whether `flight` names the current flight and no generation accepts.
pub open spec fn flight_is_current<S>(view: H2CellView<S>, flight: H2FlightId) -> bool {
    &&& view.flight is Some
    &&& view.flight.unwrap().id == flight
    &&& view.accepting is None
}

/// The identity values of a sequence of waiters.
pub open spec fn waiter_values(waiters: Seq<WaiterId>) -> Seq<u64> {
    waiters.map_values(|w: WaiterId| w.0)
}

/// Wraps each identity value as a waiter identity, keeping the order.
pub fn waiter_ids(ids: Vec<u64>) -> (waiters: Vec<WaiterId>)
    ensures
        waiter_values(waiters@) == ids@,
{
    let mut waiters: Vec<WaiterId> = Vec::new();
    let mut i: usize = 0;
    while i < ids.len()
        invariant
            i <= ids@.len(),
            waiters@.len() == i,
            forall|k: int| 0 <= k < i ==> waiters@[k].0 == ids@[k],
        decreases ids@.len() - i,
    {
        waiters.push(WaiterId(ids[i]));
        i = i + 1;
    }
    assert(waiter_values(waiters@) =~= ids@);
    waiters
}

/// The generation peers may discover: the accepting one, once its gate opened.
pub open spec fn peer_routable<S>(view: H2CellView<S>) -> Option<H2GenerationId> {
    match view.accepting {
        Some(generation) => if view.local_gate == (H2ActivationGate::Open { generation }) {
            Some(generation)
        } else {
            None
        },
        None => None,
    }
}

/// Whether `generation` is publishable and holds no request or waiter.
pub open spec fn generation_is_idle<S>(view: H2CellView<S>, generation: H2GenerationId) -> bool {
    &&& peer_routable(view) == Some(generation)
    &&& view.generations.contains_key(generation.0)
    &&& view.generations[generation.0].pending_waiters == Set::<u64>::empty()
    &&& view.generations[generation.0].prospective_requests == 0
    &&& view.generations[generation.0].active_requests == 0
}

/// Peers discover only a generation whose local priority has drained: a
/// routable generation is the accepting one with its activation gate open for
/// it, and while that activation gate is closed or still prioritizing committed waiters
/// nothing is routable.
pub proof fn lemma_routable_only_through_an_open_gate<S>(view: H2CellView<S>)
    ensures
        peer_routable(view) matches Some(g) ==> view.accepting == Some(g) && view.local_gate
            == (H2ActivationGate::Open { generation: g }),
        view.accepting is Some && view.local_gate == (H2ActivationGate::Open { generation: view.accepting.unwrap() })
            ==> peer_routable(view) == view.accepting,
        view.local_gate is Closed ==> peer_routable(view) is None,
        view.local_gate is Prioritizing ==> peer_routable(view) is None,
        view.accepting is None ==> peer_routable(view) is None,
{
}

/// A generation is idle only when it carries no request work: it is the
/// routable accepting generation, and it holds no accepted request, no
/// prospective request and no transferred waiter. Any request or waiter on
/// it keeps it from being idle.
pub proof fn lemma_idle_generation_carries_no_work<S>(view: H2CellView<S>, generation: H2GenerationId)
    ensures
        generation_is_idle(view, generation) ==> {
            &&& view.accepting == Some(generation)
            &&& view.local_gate == (H2ActivationGate::Open { generation })
            &&& view.generations.contains_key(generation.0)
            &&& view.generations[generation.0].active_requests == 0
            &&& view.generations[generation.0].prospective_requests == 0
            &&& view.generations[generation.0].pending_waiters.is_empty()
        },
        view.generations.contains_key(generation.0) && (view.generations[generation.0].active_requests > 0
            || view.generations[generation.0].prospective_requests > 0
            || !view.generations[generation.0].pending_waiters.is_empty()) ==> !generation_is_idle(view, generation),
{
    lemma_routable_only_through_an_open_gate(view);
}

/// Whether a generation record whose request count dropped to `updated` was
/// stored back, or detached because it drains with no request left.
pub open spec fn releases_record<S>(
    old: H2CellView<S>,
    new: H2CellView<S>,
    generation: H2GenerationId,
    updated: H2GenerationView<S>,
    removed: Option<H2Generation<S>>,
) -> bool {
    if updated.state == H2GenerationState::Draining && updated.prospective_requests == 0
        && updated.active_requests == 0 {
        &&& removed is Some
        &&& generation_view(removed.unwrap()) == updated
        &&& new == (H2CellView { generations: old.generations.remove(generation.0), ..old })
    } else {
        &&& removed is None
        &&& new == (H2CellView { generations: old.generations.insert(generation.0, updated), ..old })
    }
}

/// Whether `new` is `old` with its accepting `generation` closed by `transition`.
pub open spec fn closes_generation<S>(
    old: H2CellView<S>,
    new: H2CellView<S>,
    generation: H2GenerationId,
    transition: H2CloseTransition<S>,
) -> bool {
    let record = old.generations[generation.0];
    let draining = H2GenerationView {
        state: H2GenerationState::Draining,
        pending_waiters: Set::<u64>::empty(),
        ..record
    };
    &&& transition.connection == record.connection
    &&& transition.pending_waiters.wf()
    &&& transition.pending_waiters@ == record.pending_waiters
    &&& if record.prospective_requests == 0 && record.active_requests == 0 {
        &&& transition.removed_generation is Some
        &&& generation_view(transition.removed_generation.unwrap()) == draining
        &&& new == (H2CellView {
            generations: old.generations.remove(generation.0),
            accepting: None,
            local_gate: H2ActivationGate::Closed,
            ..old
        })
    } else {
        &&& transition.removed_generation is None
        &&& new == (H2CellView {
            generations: old.generations.insert(generation.0, draining),
            accepting: None,
            local_gate: H2ActivationGate::Closed,
            ..old
        })
    }
}

/// The peer route after installing or refreshing `route` with `cutoff`.
pub open spec fn attached_route<S>(view: H2CellView<S>, route: H2Route, cutoff: Option<WaiterId>) -> Option<PeerH2Route> {
    if view.accepting is Some {
        None
    } else {
        match view.peer_route {
            Some(current) if current.route.spec_id() == route.spec_id() => match cutoff {
                Some(cutoff) => Some(PeerH2Route {
                    activation_gate: gate_extended(current.activation_gate, route.spec_id().generation, cutoff),
                    ..current
                }),
                None => Some(current),
            },
            _ => Some(PeerH2Route {
                route,
                activation_gate: match cutoff {
                    Some(cutoff) => H2ActivationGate::Prioritizing {
                        generation: route.spec_id().generation,
                        cutoff,
                        active_turn: None,
                    },
                    None => H2ActivationGate::Open { generation: route.spec_id().generation },
                },
                crossing_waiter: None,
            }),
        }
    }
}

/// The activation a peer route prepares for the oldest HTTP/2 waiter of
/// `queue`, and the route afterwards.
pub open spec fn peer_activation<R, W>(
    peer_route: Option<PeerH2Route>,
    queue: QueueView<R, W>,
) -> (Option<PreparedPeerActivation>, Option<PeerH2Route>) {
    match peer_route {
        None => (None, peer_route),
        Some(peer) => if peer.crossing_waiter is Some {
            (None, peer_route)
        } else {
            let has_prioritized = match gate_cutoff(peer.activation_gate) {
                Some(cutoff) => exists|w: u64| queue.h2_eligible(w) && w <= cutoff.0,
                None => false,
            };
            let (turn, gate) = gate_next_turn(peer.activation_gate, has_prioritized);
            let cutoff = match turn {
                H2ActivationTurn::Through(cutoff) => Some(cutoff),
                _ => None,
            };
            let taken = Some(PeerH2Route { activation_gate: gate, ..peer });
            if turn is Unavailable || !queue.has_h2_eligible() {
                (None, taken)
            } else if cutoff is Some && queue.oldest_h2() > cutoff.unwrap().0 {
                (None, taken)
            } else {
                let waiter = WaiterId(queue.oldest_h2());
                (
                    Some(PreparedPeerActivation { route: peer.route, waiter, cutoff, gated: gate is Prioritizing }),
                    Some(PeerH2Route {
                        activation_gate: gate_reserved(gate, waiter),
                        crossing_waiter: Some(waiter),
                        ..peer
                    }),
                )
            }
        },
    }
}

/// The state after `waiter` left the current flight.
pub open spec fn flight_participant_cancelled<S>(view: H2CellView<S>, waiter: WaiterId) -> H2CellView<S> {
    H2CellView {
        flight: match view.flight {
            Some(flight) => Some(H2FlightView { id: flight.id, participants: flight.participants.remove(waiter.0) }),
            None => None,
        },
        ..view
    }
}

/// The state after a cancelled `waiter` released the peer-route turn it held.
pub open spec fn peer_activation_cancelled<S>(view: H2CellView<S>, waiter: WaiterId) -> H2CellView<S> {
    match view.peer_route {
        Some(peer) => if gate_active_turn(peer.activation_gate) == Some(waiter) {
            H2CellView {
                peer_route: Some(PeerH2Route {
                    activation_gate: gate_released(peer.activation_gate, peer.route.spec_id().generation, waiter),
                    ..peer
                }),
                ..view
            }
        } else {
            view
        },
        None => view,
    }
}

/// The state after `waiter` stopped awaiting the accepting generation.
pub open spec fn pending_cancelled<S>(view: H2CellView<S>, waiter: WaiterId) -> H2CellView<S> {
    match view.accepting {
        Some(generation) => H2CellView {
            generations: view.generations.insert(
                generation.0,
                H2GenerationView {
                    pending_waiters: view.generations[generation.0].pending_waiters.remove(waiter.0),
                    ..view.generations[generation.0]
                },
            ),
            ..view
        },
        None => view,
    }
}

/// The abstract generations of a record map.
pub open spec fn generations_view<S>(m: Map<u64, H2Generation<S>>) -> Map<u64, H2GenerationView<S>> {
    m.map_values(|r: H2Generation<S>| generation_view(r))
}

proof fn lemma_generations_insert<S>(m: Map<u64, H2Generation<S>>, k: u64, r: H2Generation<S>)
    ensures
        generations_view(m.insert(k, r)) == generations_view(m).insert(k, generation_view(r)),
{
    assert(generations_view(m.insert(k, r)) =~= generations_view(m).insert(k, generation_view(r)));
}

proof fn lemma_generations_replace<S>(m: Map<u64, H2Generation<S>>, k: u64, r: H2Generation<S>)
    requires
        m.contains_key(k),
    ensures
        m.remove(k).insert(k, r) == m.insert(k, r),
        generations_view(m.insert(k, r)) == generations_view(m).insert(k, generation_view(r)),
{
    assert(m.remove(k).insert(k, r) =~= m.insert(k, r));
    lemma_generations_insert(m, k, r);
}

proof fn lemma_generations_remove<S>(m: Map<u64, H2Generation<S>>, k: u64)
    ensures
        generations_view(m.remove(k)) == generations_view(m).remove(k),
{
    assert(generations_view(m.remove(k)) =~= generations_view(m).remove(k));
}

/// Whether a generation map, its accepting identity, and the local gate agree.
pub open spec fn generations_ok<S>(
    m: Map<u64, H2GenerationView<S>>,
    accepting: Option<H2GenerationId>,
    next_generation: u64,
) -> bool {
    &&& match accepting {
        Some(g) => m.contains_key(g.0) && m[g.0].state == H2GenerationState::Accepting,
        None => true,
    }
    &&& forall|k: u64| #[trigger] m.contains_key(k) ==> {
        &&& k < next_generation
        &&& (m[k].state == H2GenerationState::Accepting ==> accepting == Some(H2GenerationId(k)))
        &&& (m[k].state == H2GenerationState::Draining ==> {
            &&& m[k].prospective_requests > 0 || m[k].active_requests > 0
            &&& m[k].pending_waiters == Set::<u64>::empty()
        })
    }
}

impl<S> View for H2CellState<S> {
    type V = H2CellView<S>;

    closed spec fn view(&self) -> H2CellView<S> {
        H2CellView {
            flight: match self.flight {
                Some(f) => Some(H2FlightView { id: f.id, participants: f.participants@ }),
                None => None,
            },
            generations: generations_view(self.generations@),
            accepting: self.accepting_generation,
            peer_route: self.peer_route,
            local_gate: self.local_activation_gate,
            next_flight: self.next_flight_id,
            next_generation: self.next_generation_id,
        }
    }
}

impl<S> H2CellState<S> {
    /// Every identity set is ordered, and the records, accepting identity,
    /// gates, flight and peer route agree.
    pub closed spec fn wf(&self) -> bool {
        &&& generations_ok(self@.generations, self.accepting_generation, self.next_generation_id)
        &&& forall|k: u64| #[trigger] self.generations@.contains_key(k)
            ==> self.generations@[k].pending_waiters.wf()
        &&& match self.flight {
            Some(f) => f.participants.wf(),
            None => true,
        }
        &&& gate_generation(self.local_activation_gate) == self.accepting_generation
        &&& (self.flight is None || self.accepting_generation is None)
        &&& match self.peer_route {
            Some(peer) => {
                &&& self.accepting_generation is None
                &&& gate_generation(peer.activation_gate) == Some(peer.route.spec_id().generation)
            },
            None => true,
        }
    }

    /// The facts the well-formedness predicate promises about the view.
    pub proof fn lemma_wf(&self)
        requires
            self.wf(),
        ensures
            generations_ok(self@.generations, self@.accepting, self@.next_generation),
            gate_generation(self@.local_gate) == self@.accepting,
            self@.flight is None || self@.accepting is None,
            self@.peer_route is Some ==> {
                &&& self@.accepting is None
                &&& gate_generation(self@.peer_route.unwrap().activation_gate)
                    == Some(self@.peer_route.unwrap().route.spec_id().generation)
            },
    {
    }

    /// Creates the state of a cell without HTTP/2 work.
    pub fn new() -> (state: Self)
        ensures
            state.wf(),
            state@.flight is None,
            state@.generations == Map::<u64, H2GenerationView<S>>::empty(),
            state@.accepting is None,
            state@.peer_route is None,
            state@.local_gate == H2ActivationGate::Closed,
            state@.next_flight == 0,
            state@.next_generation == 0,
    {
        let state = H2CellState {
            flight: None,
            generations: HashMap::new(),
            accepting_generation: None,
            peer_route: None,
            local_activation_gate: H2ActivationGate::Closed,
            next_flight_id: 0,
            next_generation_id: 0,
        };
        assert(state@.generations =~= Map::<u64, H2GenerationView<S>>::empty());
        state
    }

    /// Returns the next flight identity and the next generation identity.
    pub fn identity_counters(&self) -> (counters: (u64, u64))
        ensures
            counters == (self@.next_flight, self@.next_generation),
    {
        (self.next_flight_id, self.next_generation_id)
    }

    /// Uses an accepting generation, joins its flight, or starts a new flight.
    pub fn converge_flight(&mut self, waiter: WaiterId) -> (decision: H2FlightDecision)
        requires
            old(self).wf(),
            old(self)@.flight is Some ==> !old(self)@.flight.unwrap().participants.contains(waiter.0),
            old(self)@.accepting is None && old(self)@.flight is None ==> old(self)@.next_flight < u64::MAX,
        ensures
            final(self).wf(),
            match old(self)@.accepting {
                Some(generation) => decision == H2FlightDecision::UseGeneration(generation) && final(self)@ == old(self)@,
                None => match old(self)@.flight {
                    Some(flight) => {
                        &&& decision == H2FlightDecision::JoinedFlight
                        &&& final(self)@ == (H2CellView {
                            flight: Some(H2FlightView { id: flight.id, participants: flight.participants.insert(waiter.0) }),
                            ..old(self)@
                        })
                    },
                    None => {
                        &&& decision == H2FlightDecision::RunFlight(H2FlightId(old(self)@.next_flight))
                        &&& final(self)@ == (H2CellView {
                            flight: Some(H2FlightView {
                                id: H2FlightId(old(self)@.next_flight),
                                participants: set![waiter.0],
                            }),
                            next_flight: (old(self)@.next_flight + 1) as u64,
                            ..old(self)@
                        })
                    },
                },
            },
    {
        if let Some(generation) = self.accepting_generation {
            return H2FlightDecision::UseGeneration(generation);
        }
        match self.flight.take() {
            Some(mut flight) => {
                flight.participants.insert(waiter.0);
                self.flight = Some(flight);
                H2FlightDecision::JoinedFlight
            },
            None => {
                let id = self.take_flight_id();
                let participants = IdSet::singleton(waiter.0);
                self.flight = Some(H2Flight { id, participants });
                H2FlightDecision::RunFlight(id)
            },
        }
    }

    /// Removes one cancelled waiter from the current flight, when present.
    pub fn cancel_flight_participant(&mut self, waiter: WaiterId)
        requires
            old(self).wf(),
        ensures
            final(self).wf(),
            final(self)@ == flight_participant_cancelled(old(self)@, waiter),
    {
        match self.flight.take() {
            Some(mut flight) => {
                flight.participants.remove(waiter.0);
                self.flight = Some(flight);
            },
            None => {},
        }
    }

    /// Removes a waiter that no longer awaits the accepting generation.
    pub fn cancel_pending_waiter(&mut self, waiter: WaiterId)
        requires
            old(self).wf(),
        ensures
            final(self).wf(),
            final(self)@ == pending_cancelled(old(self)@, waiter),
    {
        let generation = match self.accepting_generation {
            Some(generation) => generation,
            None => {
                return;
            },
        };
        let mut record = self.take_generation(generation.0);
        record.pending_waiters.remove(waiter.0);
        self.put_generation(generation.0, record);
        proof {
            lemma_generations_replace(old(self).generations@, generation.0, self.generations@[generation.0]);
            self.lemma_wf_after_update(old(self), generation.0);
        }
    }

    /// Installs the generation produced by the named flight.
    ///
    /// The flight's participants become the generation's transferred waiters.
    /// A stale flight, or one superseded by an accepting generation, installs
    /// nothing and hands the connection and sender back.
    pub fn complete_flight(
        &mut self,
        flight: H2FlightId,
        connection: u64,
        sender: S,
        idle_deadline: Option<u64>,
    ) -> (installed: Result<H2GenerationId, (u64, S)>)
        requires
            old(self).wf(),
            flight_is_current(old(self)@, flight) ==> old(self)@.next_generation < u64::MAX,
        ensures
            final(self).wf(),
            flight_is_current(old(self)@, flight) ==> {
                let generation = H2GenerationId(old(self)@.next_generation);
                &&& installed == Ok::<H2GenerationId, (u64, S)>(generation)
                &&& final(self)@ == (H2CellView {
                    flight: None,
                    generations: old(self)@.generations.insert(
                        generation.0,
                        H2GenerationView {
                            pending_waiters: old(self)@.flight.unwrap().participants,
                            connection,
                            sender,
                            state: H2GenerationState::Accepting,
                            prospective_requests: 0,
                            has_accepted_request: false,
                            active_requests: 0,
                            idle_deadline,
                        },
                    ),
                    accepting: Some(generation),
                    peer_route: None,
                    local_gate: H2ActivationGate::Open { generation },
                    next_generation: (generation.0 + 1) as u64,
                    ..old(self)@
                })
            },
            !flight_is_current(old(self)@, flight) ==> {
                &&& installed == Err::<H2GenerationId, (u64, S)>((connection, sender))
                &&& final(self)@ == old(self)@
            },
    {
        let current = match &self.flight {
            Some(f) => f.id.0 == flight.0,
            None => false,
        };
        if !current || self.accepting_generation.is_some() {
            return Err((connection, sender));
        }
        let taken = self.flight.take();
        let completed = taken.unwrap();
        let generation = self.open_generation(completed.participants, connection, sender, idle_deadline);
        Ok(generation)
    }

    /// Installs one accepting generation with its transferred waiters.
    fn open_generation(
        &mut self,
        pending_waiters: IdSet,
        connection: u64,
        sender: S,
        idle_deadline: Option<u64>,
    ) -> (generation: H2GenerationId)
        requires
            old(self).wf(),
            old(self)@.accepting is None,
            old(self)@.flight is None,
            old(self)@.next_generation < u64::MAX,
            pending_waiters.wf(),
        ensures
            final(self).wf(),
            generation == H2GenerationId(old(self)@.next_generation),
            final(self)@ == (H2CellView {
                generations: old(self)@.generations.insert(
                    generation.0,
                    H2GenerationView {
                        pending_waiters: pending_waiters@,
                        connection,
                        sender,
                        state: H2GenerationState::Accepting,
                        prospective_requests: 0,
                        has_accepted_request: false,
                        active_requests: 0,
                        idle_deadline,
                    },
                ),
                accepting: Some(generation),
                peer_route: None,
                local_gate: H2ActivationGate::Open { generation },
                next_generation: (generation.0 + 1) as u64,
                ..old(self)@
            }),
    {
        let value = self.next_generation_id;
        let generation = H2GenerationId(value);
        let record = H2Generation {
            pending_waiters,
            connection,
            sender,
            state: H2GenerationState::Accepting,
            prospective_requests: 0,
            has_accepted_request: false,
            active_requests: 0,
            idle_deadline,
        };
        proof {
            lemma_generations_insert(self.generations@, value, record);
        }
        self.generations.insert(value, record);
        self.next_generation_id = value + 1;
        self.accepting_generation = Some(generation);
        self.peer_route = None;
        self.local_activation_gate = H2ActivationGate::Open { generation };
        proof {
            let m = self@.generations;
            assert forall|k: u64| #[trigger] m.contains_key(k) implies {
                &&& k < self.next_generation_id
                &&& (m[k].state == H2GenerationState::Accepting ==> self.accepting_generation == Some(H2GenerationId(k)))
                &&& (m[k].state == H2GenerationState::Draining ==> {
                    &&& m[k].prospective_requests > 0 || m[k].active_requests > 0
                    &&& m[k].pending_waiters == Set::<u64>::empty()
                })
            } by {
                if k != value {
                    assert(old(self)@.generations.contains_key(k));
                }
            }
            assert forall|k: u64| #[trigger] self.generations@.contains_key(k) implies self.generations@[k].pending_waiters.wf() by {
                if k != value {
                    assert(old(self).generations@.contains_key(k));
                }
            }
        }
        generation
    }

    /// Retires a failed or dropped flight and returns its participants in
    /// arrival order.
    pub fn fail_flight(&mut self, flight: H2FlightId) -> (participants: Option<Vec<WaiterId>>)
        requires
            old(self).wf(),
        ensures
            final(self).wf(),
            old(self)@.flight is Some && old(self)@.flight.unwrap().id == flight ==> {
                &&& participants is Some
                &&& waiter_values(participants.unwrap()@).to_set() == old(self)@.flight.unwrap().participants
                &&& strictly_increasing(waiter_values(participants.unwrap()@))
                &&& final(self)@ == (H2CellView { flight: None, ..old(self)@ })
            },
            !(old(self)@.flight is Some && old(self)@.flight.unwrap().id == flight) ==> {
                &&& participants is None
                &&& final(self)@ == old(self)@
            },
    {
        let current = match &self.flight {
            Some(f) => f.id.0 == flight.0,
            None => false,
        };
        if !current {
            return None;
        }
        let taken = self.flight.take();
        let mut failed = taken.unwrap();
        proof {
            failed.participants.lemma_ordered();
        }
        let ids = failed.participants.take_all();
        Some(waiter_ids(ids))
    }

    /// Closes the activation gate over waiters committed when a generation became visible.
    pub fn prioritize_through(&mut self, cutoff: Option<WaiterId>)
        requires
            old(self).wf(),
            old(self)@.accepting is Some,
        ensures
            final(self).wf(),
            final(self)@ == (H2CellView {
                local_gate: match cutoff {
                    Some(cutoff) => H2ActivationGate::Prioritizing {
                        generation: old(self)@.accepting.unwrap(),
                        cutoff,
                        active_turn: None,
                    },
                    None => H2ActivationGate::Open { generation: old(self)@.accepting.unwrap() },
                },
                ..old(self)@
            }),
    {
        let generation = self.accepting_generation.unwrap();
        self.local_activation_gate = H2ActivationGate::for_generation(generation, cutoff);
    }

    /// Extends priority to a post-ALPN waiter that found this generation and
    /// records it as a transferred waiter.
    pub fn prioritize_waiter(&mut self, generation: H2GenerationId, waiter: WaiterId) -> (prioritized: bool)
        requires
            old(self).wf(),
        ensures
            final(self).wf(),
            prioritized == (old(self)@.accepting == Some(generation)),
            !prioritized ==> final(self)@ == old(self)@,
            prioritized ==> final(self)@ == (H2CellView {
                local_gate: gate_extended(old(self)@.local_gate, generation, waiter),
                generations: old(self)@.generations.insert(
                    generation.0,
                    H2GenerationView {
                        pending_waiters: old(self)@.generations[generation.0].pending_waiters.insert(waiter.0),
                        ..old(self)@.generations[generation.0]
                    },
                ),
                ..old(self)@
            }),
    {
        let accepting = match self.accepting_generation {
            Some(current) => current.0 == generation.0,
            None => false,
        };
        if !accepting {
            return false;
        }
        self.local_activation_gate = match self.local_activation_gate {
            H2ActivationGate::Prioritizing { generation: current, cutoff, active_turn } => {
                let cutoff = if cutoff.0 < waiter.0 { waiter } else { cutoff };
                H2ActivationGate::Prioritizing { generation: current, cutoff, active_turn }
            },
            _ => H2ActivationGate::Prioritizing { generation, cutoff: waiter, active_turn: None },
        };
        let mut record = self.take_generation(generation.0);
        record.pending_waiters.insert(waiter.0);
        self.put_generation(generation.0, record);
        proof {
            lemma_generations_replace(old(self).generations@, generation.0, self.generations@[generation.0]);
        }
        true
    }

    /// Returns the next queued activation opportunity of the local gate.
    pub fn take_next_turn(&mut self, has_prioritized: bool) -> (turn: H2ActivationTurn)
        requires
            old(self).wf(),
        ensures
            final(self).wf(),
            (turn, final(self)@.local_gate) == gate_next_turn(old(self)@.local_gate, has_prioritized),
            final(self)@ == (H2CellView { local_gate: final(self)@.local_gate, ..old(self)@ }),
    {
        self.local_activation_gate.take_next_turn(has_prioritized)
    }

    /// Records a prioritized activation and releases its transferred waiter.
    pub fn reserve_activation_turn(&mut self, waiter: WaiterId) -> (gated: bool)
        requires
            old(self).wf(),
            old(self)@.accepting is Some,
            gate_active_turn(old(self)@.local_gate) is None,
        ensures
            final(self).wf(),
            gated == (old(self)@.local_gate is Prioritizing),
            final(self)@ == ({
                let generation = old(self)@.accepting.unwrap();
                H2CellView {
                    local_gate: gate_reserved(old(self)@.local_gate, waiter),
                    generations: old(self)@.generations.insert(
                        generation.0,
                        H2GenerationView {
                            pending_waiters: old(self)@.generations[generation.0].pending_waiters.remove(waiter.0),
                            ..old(self)@.generations[generation.0]
                        },
                    ),
                    ..old(self)@
                }
            }),
    {
        let gated = self.local_activation_gate.reserve_turn(waiter);
        let generation = self.accepting_generation.unwrap();
        let mut record = self.take_generation(generation.0);
        record.pending_waiters.remove(waiter.0);
        self.put_generation(generation.0, record);
        proof {
            lemma_generations_replace(old(self).generations@, generation.0, self.generations@[generation.0]);
        }
        gated
    }

    /// Discharges one accepted or cancelled activation opportunity.
    pub fn release_activation_turn(&mut self, generation: H2GenerationId, waiter: WaiterId) -> (released: bool)
        requires
            old(self).wf(),
        ensures
            final(self).wf(),
            released == gate_releases(old(self)@.local_gate, generation, waiter),
            final(self)@ == (H2CellView {
                local_gate: gate_released(old(self)@.local_gate, generation, waiter),
                ..old(self)@
            }),
    {
        self.local_activation_gate.release_turn(generation, waiter)
    }

    /// Returns whether a direct arrival may use the accepting generation.
    pub fn direct_is_allowed(&self, queued: bool) -> (allowed: bool)
        ensures
            allowed == (!queued && self@.local_gate is Open),
    {
        !queued && match self.local_activation_gate {
            H2ActivationGate::Open { .. } => true,
            _ => false,
        }
    }

    /// Returns the local cutoff while older waiters remain prioritized.
    pub fn priority_cutoff(&self) -> (cutoff: Option<WaiterId>)
        ensures
            cutoff == gate_cutoff(self@.local_gate),
    {
        self.local_activation_gate.priority_cutoff()
    }

    /// Reserves one prospective request on the exact accepting generation and
    /// clones its sender for the activation.
    pub fn activate(&mut self, generation: H2GenerationId) -> (resources: Option<H2ActivationResources<S>>)
        where
            S: Clone,
        requires
            old(self).wf(),
            old(self)@.accepting == Some(generation)
                ==> old(self)@.generations[generation.0].prospective_requests < usize::MAX,
        ensures
            final(self).wf(),
            resources is Some == (old(self)@.accepting == Some(generation)),
            resources is None ==> final(self)@ == old(self)@,
            resources is Some ==> {
                let record = old(self)@.generations[generation.0];
                &&& resources.unwrap().reused == record.has_accepted_request
                &&& resources.unwrap().connection == record.connection
                &&& cloned(record.sender, resources.unwrap().sender)
                &&& final(self)@ == (H2CellView {
                    generations: old(self)@.generations.insert(
                        generation.0,
                        H2GenerationView { prospective_requests: (record.prospective_requests + 1) as usize, ..record },
                    ),
                    ..old(self)@
                })
            },
    {
        if !self.is_accepting(generation) {
            return None;
        }
        let mut record = self.take_generation(generation.0);
        record.prospective_requests = record.prospective_requests + 1;
        let resources = H2ActivationResources {
            sender: record.sender.clone(),
            reused: record.has_accepted_request,
            connection: record.connection,
        };
        self.put_generation(generation.0, record);
        proof {
            lemma_generations_replace(old(self).generations@, generation.0, self.generations@[generation.0]);
        }
        Some(resources)
    }

    /// Converts one prospective reservation to an accepted request.
    pub fn accept(&mut self, generation: H2GenerationId) -> (accepted: bool)
        requires
            old(self).wf(),
            old(self)@.generations.contains_key(generation.0)
                ==> old(self)@.generations[generation.0].active_requests < usize::MAX,
        ensures
            final(self).wf(),
            accepted == (old(self)@.generations.contains_key(generation.0)
                && old(self)@.generations[generation.0].prospective_requests > 0),
            !accepted ==> final(self)@ == old(self)@,
            accepted ==> {
                let record = old(self)@.generations[generation.0];
                final(self)@ == (H2CellView {
                    generations: old(self)@.generations.insert(
                        generation.0,
                        H2GenerationView {
                            prospective_requests: (record.prospective_requests - 1) as usize,
                            active_requests: (record.active_requests + 1) as usize,
                            has_accepted_request: true,
                            ..record
                        },
                    ),
                    ..old(self)@
                })
            },
    {
        if !self.generations.contains_key(&generation.0) {
            return false;
        }
        let mut record = self.take_generation(generation.0);
        if record.prospective_requests == 0 {
            self.put_generation(generation.0, record);
            proof {
                assert(self.generations@ =~= old(self).generations@);
            }
            return false;
        }
        record.prospective_requests = record.prospective_requests - 1;
        record.active_requests = record.active_requests + 1;
        record.has_accepted_request = true;
        self.put_generation(generation.0, record);
        proof {
            lemma_generations_replace(old(self).generations@, generation.0, self.generations@[generation.0]);
        }
        true
    }

    /// Cancels one prospective reservation; a draining generation that no
    /// request holds any longer is detached and returned.
    pub fn cancel(&mut self, generation: H2GenerationId) -> (removed: Option<H2Generation<S>>)
        requires
            old(self).wf(),
            old(self)@.generations.contains_key(generation.0),
            old(self)@.generations[generation.0].prospective_requests > 0,
        ensures
            final(self).wf(),
            ({
                let record = old(self)@.generations[generation.0];
                let updated = H2GenerationView { prospective_requests: (record.prospective_requests - 1) as usize, ..record };
                releases_record(old(self)@, final(self)@, generation, updated, removed)
            }),
    {
        let mut record = self.take_generation(generation.0);
        record.prospective_requests = record.prospective_requests - 1;
        if record.state == H2GenerationState::Draining && record.prospective_requests == 0
            && record.active_requests == 0 {
            proof {
                lemma_generations_remove(old(self).generations@, generation.0);
                self.lemma_wf_after_update(old(self), generation.0);
            }
            Some(record)
        } else {
            self.put_generation(generation.0, record);
            proof {
                lemma_generations_replace(old(self).generations@, generation.0, self.generations@[generation.0]);
                self.lemma_wf_after_update(old(self), generation.0);
            }
            None
        }
    }

    /// Releases one accepted request; a draining generation that no request
    /// holds any longer is detached and returned.
    pub fn complete_request(&mut self, generation: H2GenerationId) -> (removed: Option<H2Generation<S>>)
        requires
            old(self).wf(),
            old(self)@.generations.contains_key(generation.0),
            old(self)@.generations[generation.0].active_requests > 0,
        ensures
            final(self).wf(),
            ({
                let record = old(self)@.generations[generation.0];
                let updated = H2GenerationView { active_requests: (record.active_requests - 1) as usize, ..record };
                releases_record(old(self)@, final(self)@, generation, updated, removed)
            }),
    {
        let mut record = self.take_generation(generation.0);
        record.active_requests = record.active_requests - 1;
        if record.state == H2GenerationState::Draining && record.prospective_requests == 0
            && record.active_requests == 0 {
            proof {
                lemma_generations_remove(old(self).generations@, generation.0);
                self.lemma_wf_after_update(old(self), generation.0);
            }
            Some(record)
        } else {
            self.put_generation(generation.0, record);
            proof {
                lemma_generations_replace(old(self).generations@, generation.0, self.generations@[generation.0]);
                self.lemma_wf_after_update(old(self), generation.0);
            }
            None
        }
    }

    /// Stops one exact accepting generation from accepting new requests.
    ///
    /// The generation drains while prospective or accepted requests hold it
    /// and is removed at once when none does. Its transferred waiters are
    /// handed back so they can acquire another connection.
    pub fn begin_close(&mut self, generation: H2GenerationId) -> (transition: Option<H2CloseTransition<S>>)
        requires
            old(self).wf(),
        ensures
            final(self).wf(),
            transition is Some == (old(self)@.accepting == Some(generation)),
            transition is None ==> final(self)@ == old(self)@,
            transition is Some ==> closes_generation(old(self)@, final(self)@, generation, transition.unwrap()),
    {
        if !self.is_accepting(generation) {
            return None;
        }
        let mut record = self.take_generation(generation.0);
        let mut pending_waiters = IdSet::new();
        std::mem::swap(&mut pending_waiters, &mut record.pending_waiters);
        record.state = H2GenerationState::Draining;
        self.accepting_generation = None;
        self.local_activation_gate = H2ActivationGate::Closed;
        let connection = record.connection;
        let removed_generation = if record.prospective_requests == 0 && record.active_requests == 0 {
            proof {
                lemma_generations_remove(old(self).generations@, generation.0);
            }
            Some(record)
        } else {
            self.put_generation(generation.0, record);
            proof {
                lemma_generations_replace(old(self).generations@, generation.0, self.generations@[generation.0]);
            }
            None
        };
        proof {
            let m = self@.generations;
            assert forall|k: u64| #[trigger] m.contains_key(k) implies {
                &&& k < self.next_generation_id
                &&& (m[k].state == H2GenerationState::Accepting ==> self.accepting_generation == Some(H2GenerationId(k)))
                &&& (m[k].state == H2GenerationState::Draining ==> {
                    &&& m[k].prospective_requests > 0 || m[k].active_requests > 0
                    &&& m[k].pending_waiters == Set::<u64>::empty()
                })
            } by {
                if k != generation.0 {
                    assert(old(self)@.generations.contains_key(k));
                }
            }
            assert forall|k: u64| #[trigger] self.generations@.contains_key(k) implies self.generations@[k].pending_waiters.wf() by {
                if k != generation.0 {
                    assert(old(self).generations@.contains_key(k));
                }
            }
        }
        Some(H2CloseTransition { connection, pending_waiters, removed_generation })
    }

    /// Closes an exact generation only while it is publishable and holds no
    /// request or transferred waiter.
    pub fn begin_idle_reclaim(&mut self, generation: H2GenerationId) -> (transition: Option<H2CloseTransition<S>>)
        requires
            old(self).wf(),
        ensures
            final(self).wf(),
            transition is Some == generation_is_idle(old(self)@, generation),
            transition is None ==> final(self)@ == old(self)@,
            transition is Some ==> closes_generation(old(self)@, final(self)@, generation, transition.unwrap()),
    {
        if self.is_idle(generation) {
            self.begin_close(generation)
        } else {
            None
        }
    }

    /// Returns the accepting generation.
    pub fn accepting(&self) -> (generation: Option<H2GenerationId>)
        ensures
            generation == self@.accepting,
    {
        self.accepting_generation
    }

    /// Returns whether an exact generation still accepts.
    pub fn is_accepting(&self, generation: H2GenerationId) -> (accepting: bool)
        ensures
            accepting == (self@.accepting == Some(generation)),
    {
        match self.accepting_generation {
            Some(current) => current.0 == generation.0,
            None => false,
        }
    }

    /// Returns the generation peers may discover once the local cutoff drained.
    pub fn peer_routable_generation(&self) -> (generation: Option<H2GenerationId>)
        ensures
            generation == peer_routable(self@),
            generation matches Some(g) ==> self@.accepting == Some(g) && self@.local_gate
                == (H2ActivationGate::Open { generation: g }),
            !(self@.local_gate is Open) ==> generation is None,
    {
        proof {
            lemma_routable_only_through_an_open_gate(self@);
        }
        match self.accepting_generation {
            Some(generation) => if self.local_activation_gate.is_open_for(generation) {
                Some(generation)
            } else {
                None
            },
            None => None,
        }
    }

    /// Returns whether `waiter` participates in the current flight.
    pub fn is_flight_participant(&self, waiter: WaiterId) -> (participant: bool)
        requires
            self.wf(),
        ensures
            participant == (self@.flight is Some && self@.flight.unwrap().participants.contains(waiter.0)),
    {
        match &self.flight {
            Some(flight) => flight.participants.contains(waiter.0),
            None => false,
        }
    }

    /// Returns the prospective and accepted request counts of an installed
    /// generation.
    pub fn request_counts(&self, generation: H2GenerationId) -> (counts: Option<(usize, usize)>)
        requires
            self.wf(),
        ensures
            counts == if self@.generations.contains_key(generation.0) {
                Some(
                    (
                        self@.generations[generation.0].prospective_requests,
                        self@.generations[generation.0].active_requests,
                    ),
                )
            } else {
                None::<(usize, usize)>
            },
    {
        match self.generations.get(&generation.0) {
            Some(record) => Some((record.prospective_requests, record.active_requests)),
            None => None,
        }
    }

    /// Returns whether an exact publishable generation holds no request work.
    pub fn is_idle(&self, generation: H2GenerationId) -> (idle: bool)
        requires
            self.wf(),
        ensures
            idle == generation_is_idle(self@, generation),
            idle ==> {
                &&& self@.accepting == Some(generation)
                &&& self@.local_gate == (H2ActivationGate::Open { generation })
                &&& self@.generations.contains_key(generation.0)
                &&& self@.generations[generation.0].active_requests == 0
                &&& self@.generations[generation.0].prospective_requests == 0
                &&& self@.generations[generation.0].pending_waiters.is_empty()
            },
    {
        proof {
            lemma_idle_generation_carries_no_work(self@, generation);
        }
        match self.peer_routable_generation() {
            Some(current) => {
                if current.0 != generation.0 {
                    return false;
                }
            },
            None => {
                return false;
            },
        }
        match self.generations.get(&generation.0) {
            Some(record) => record.pending_waiters.is_empty() && record.prospective_requests == 0
                && record.active_requests == 0,
            None => false,
        }
    }

    /// Returns whether a local generation or a peer route suppresses demand.
    pub fn has_visible_h2(&self) -> (visible: bool)
        ensures
            visible == (self@.accepting is Some || self@.peer_route is Some),
    {
        self.accepting_generation.is_some() || self.peer_route.is_some()
    }

    /// Installs or refreshes one identity-only peer route.
    ///
    /// A local accepting generation excludes peer routes. Refreshing the same
    /// route extends its priority to `cutoff`; another route replaces it.
    pub fn attach_peer_route(&mut self, route: H2Route, cutoff: Option<WaiterId>)
        requires
            old(self).wf(),
        ensures
            final(self).wf(),
            final(self)@ == (H2CellView { peer_route: attached_route(old(self)@, route, cutoff), ..old(self)@ }),
    {
        if self.accepting_generation.is_some() {
            self.peer_route = None;
            return;
        }
        let id = route.id();
        let same = match &self.peer_route {
            Some(current) => current.route.id() == id,
            None => false,
        };
        if same {
            let current = self.peer_route.unwrap();
            match cutoff {
                Some(cutoff) => {
                    let gate = match current.activation_gate {
                        H2ActivationGate::Prioritizing { generation, cutoff: prior, active_turn } => {
                            let newest = if prior.0 < cutoff.0 { cutoff } else { prior };
                            H2ActivationGate::Prioritizing { generation, cutoff: newest, active_turn }
                        },
                        _ => H2ActivationGate::Prioritizing { generation: id.generation, cutoff, active_turn: None },
                    };
                    self.peer_route = Some(PeerH2Route { activation_gate: gate, ..current });
                },
                None => {},
            }
        } else {
            self.peer_route = Some(PeerH2Route {
                activation_gate: H2ActivationGate::for_generation(id.generation, cutoff),
                route,
                crossing_waiter: None,
            });
        }
    }

    /// Marks the oldest HTTP/2 waiter as the peer route's current activation
    /// and reserves its priority turn.
    ///
    /// Taking the turn may open a drained gate even when no waiter can use it.
    pub fn prepare_peer_activation<R, W>(&mut self, waiters: &AcquisitionQueue<R, W>) -> (prepared: Option<PreparedPeerActivation>)
        requires
            old(self).wf(),
            waiters.wf(),
        ensures
            final(self).wf(),
            (prepared, final(self)@.peer_route) == peer_activation(old(self)@.peer_route, waiters@),
            final(self)@ == (H2CellView { peer_route: final(self)@.peer_route, ..old(self)@ }),
    {
        let mut peer = match self.peer_route {
            Some(peer) => peer,
            None => {
                return None;
            },
        };
        if peer.crossing_waiter.is_some() {
            return None;
        }
        let has_prioritized = match peer.activation_gate.priority_cutoff() {
            Some(cutoff) => waiters.has_h2_candidate_through(cutoff),
            None => false,
        };
        let turn = peer.activation_gate.take_next_turn(has_prioritized);
        self.peer_route = Some(peer);
        let cutoff = match turn {
            H2ActivationTurn::Unavailable => {
                return None;
            },
            H2ActivationTurn::Open => None,
            H2ActivationTurn::Through(cutoff) => Some(cutoff),
        };
        let waiter = match waiters.oldest_h2_candidate() {
            Some(waiter) => waiter,
            None => {
                return None;
            },
        };
        proof {
            waiters@.lemma_oldest_h2_unique(waiter.0);
        }
        match cutoff {
            Some(cutoff) => {
                if waiter.0 > cutoff.0 {
                    return None;
                }
            },
            None => {},
        }
        let gated = peer.activation_gate.reserve_turn(waiter);
        peer.crossing_waiter = Some(waiter);
        self.peer_route = Some(peer);
        Some(PreparedPeerActivation { route: peer.route, waiter, cutoff, gated })
    }

    /// Revalidates one peer activation after the connection-cell crossing.
    pub fn peer_activation_is_current<R, W>(&self, prepared: &PreparedPeerActivation, waiters: &AcquisitionQueue<R, W>) -> (current: bool)
        requires
            waiters.wf(),
        ensures
            current == match self@.peer_route {
                Some(peer) => {
                    &&& peer.route.spec_id() == prepared.route.spec_id()
                    &&& peer.crossing_waiter == Some(prepared.waiter)
                    &&& (prepared.gated ==> gate_active_turn(peer.activation_gate) == Some(prepared.waiter))
                    &&& waiters@.is_oldest_h2(prepared.waiter.0)
                },
                None => false,
            },
    {
        match &self.peer_route {
            Some(peer) => {
                let crossing = match peer.crossing_waiter {
                    Some(waiter) => waiter.0 == prepared.waiter.0,
                    None => false,
                };
                let turn = match peer.activation_gate.active_turn() {
                    Some(waiter) => waiter.0 == prepared.waiter.0,
                    None => false,
                };
                peer.route.id() == prepared.route.id() && crossing && (!prepared.gated || turn)
                    && waiters.is_oldest_h2_candidate(prepared.waiter)
            },
            None => false,
        }
    }

    /// Ends one route crossing after its result is installed or rejected.
    pub fn release_peer_crossing(&mut self, route: H2RouteId, waiter: WaiterId) -> (released: bool)
        requires
            old(self).wf(),
        ensures
            final(self).wf(),
            released == match old(self)@.peer_route {
                Some(peer) => peer.route.spec_id() == route && peer.crossing_waiter == Some(waiter),
                None => false,
            },
            !released ==> final(self)@ == old(self)@,
            released ==> final(self)@ == (H2CellView {
                peer_route: Some(PeerH2Route { crossing_waiter: None, ..old(self)@.peer_route.unwrap() }),
                ..old(self)@
            }),
    {
        let peer = match self.peer_route {
            Some(peer) => peer,
            None => {
                return false;
            },
        };
        let crossing = match peer.crossing_waiter {
            Some(current) => current.0 == waiter.0,
            None => false,
        };
        if peer.route.id() != route || !crossing {
            return false;
        }
        self.peer_route = Some(PeerH2Route { crossing_waiter: None, ..peer });
        true
    }

    /// Discharges one prioritized peer-route activation opportunity.
    pub fn release_peer_turn(&mut self, route: H2RouteId, waiter: WaiterId) -> (released: bool)
        requires
            old(self).wf(),
        ensures
            final(self).wf(),
            match old(self)@.peer_route {
                Some(peer) if peer.route.spec_id() == route => {
                    &&& released == gate_releases(peer.activation_gate, route.generation, waiter)
                    &&& final(self)@ == (H2CellView {
                        peer_route: Some(PeerH2Route {
                            activation_gate: gate_released(peer.activation_gate, route.generation, waiter),
                            ..peer
                        }),
                        ..old(self)@
                    })
                },
                _ => !released && final(self)@ == old(self)@,
            },
    {
        let mut peer = match self.peer_route {
            Some(peer) => peer,
            None => {
                return false;
            },
        };
        if peer.route.id() != route {
            return false;
        }
        let released = peer.activation_gate.release_turn(route.generation, waiter);
        self.peer_route = Some(peer);
        released
    }

    /// Clears a peer activation turn when its requesting waiter is cancelled.
    pub fn cancel_peer_activation(&mut self, waiter: WaiterId) -> (cancelled: bool)
        requires
            old(self).wf(),
        ensures
            final(self).wf(),
            cancelled == match old(self)@.peer_route {
                Some(peer) => gate_active_turn(peer.activation_gate) == Some(waiter),
                None => false,
            },
            final(self)@ == peer_activation_cancelled(old(self)@, waiter),
    {
        let peer = match self.peer_route {
            Some(peer) => peer,
            None => {
                return false;
            },
        };
        let holds_turn = match peer.activation_gate.active_turn() {
            Some(turn) => turn.0 == waiter.0,
            None => false,
        };
        if !holds_turn {
            return false;
        }
        self.release_peer_turn(peer.route.id(), waiter)
    }

    /// Returns the open peer route when no queued acquisition precedes a
    /// direct arrival.
    pub fn open_peer_route(&self, queued: bool) -> (route: Option<H2Route>)
        ensures
            route == match self@.peer_route {
                Some(peer) => if !queued && peer.activation_gate == (H2ActivationGate::Open {
                    generation: peer.route.spec_id().generation,
                }) {
                    Some(peer.route)
                } else {
                    None
                },
                None => None,
            },
    {
        match &self.peer_route {
            Some(peer) => if !queued && peer.activation_gate.is_open_for(peer.route.generation()) {
                Some(peer.route)
            } else {
                None
            },
            None => None,
        }
    }

    /// Revalidates a direct peer route after its connection-cell crossing.
    pub fn direct_peer_route_is_current(&self, route: H2RouteId, queued: bool) -> (current: bool)
        ensures
            current == (!queued && match self@.peer_route {
                Some(peer) => peer.route.spec_id() == route
                    && peer.activation_gate == (H2ActivationGate::Open { generation: route.generation }),
                None => false,
            }),
    {
        !queued && match &self.peer_route {
            Some(peer) => peer.route.id() == route && peer.activation_gate.is_open_for(route.generation),
            None => false,
        }
    }

    /// Removes one stale exact peer route.
    pub fn detach_peer_route(&mut self, route: H2RouteId) -> (detached: bool)
        requires
            old(self).wf(),
        ensures
            final(self).wf(),
            detached == match old(self)@.peer_route {
                Some(peer) => peer.route.spec_id() == route,
                None => false,
            },
            detached ==> final(self)@ == (H2CellView { peer_route: None, ..old(self)@ }),
            !detached ==> final(self)@ == old(self)@,
    {
        let same = match &self.peer_route {
            Some(peer) => peer.route.id() == route,
            None => false,
        };
        if !same {
            return false;
        }
        self.peer_route = None;
        true
    }

    /// Returns every installed generation identity for shutdown.
    pub fn generation_ids(&self) -> (ids: Vec<H2GenerationId>)
        ensures
            ids@.map_values(|g: H2GenerationId| g.0).to_set() == self@.generations.dom(),
            ids@.map_values(|g: H2GenerationId| g.0).no_duplicates(),
    {
        let mut ids: Vec<H2GenerationId> = Vec::new();
        let keys = self.generations.keys();
        let ghost all = keys.remaining().unref();
        assert(all.to_set() == self.generations@.dom());
        for k in it: keys
            invariant
                it.seq().unref() == all,
                ids@.map_values(|g: H2GenerationId| g.0) == all.take(it.index() as int),
                all.no_duplicates(),
        {
            ids.push(H2GenerationId(*k));
            proof {
                assert(all.take(it.index() as int + 1) =~= all.take(it.index() as int).push(*k));
                assert(ids@.map_values(|g: H2GenerationId| g.0) =~= all.take(it.index() as int + 1));
            }
        }
        proof {
            assert(ids@.map_values(|g: H2GenerationId| g.0) =~= all);
            assert(self@.generations.dom() =~= self.generations@.dom());
        }
        ids
    }

    /// Returns the accepting generation's idle deadline.
    pub fn nearest_idle_deadline(&self) -> (deadline: Option<u64>)
        requires
            self.wf(),
        ensures
            deadline == match self@.accepting {
                Some(generation) => self@.generations[generation.0].idle_deadline,
                None => None,
            },
    {
        match self.accepting_generation {
            Some(generation) => match self.generations.get(&generation.0) {
                Some(record) => record.idle_deadline,
                None => None,
            },
            None => None,
        }
    }

    /// Returns the accepting generation when its idle deadline has passed.
    pub fn expired(&self, now: u64) -> (generation: Option<H2GenerationId>)
        requires
            self.wf(),
        ensures
            generation == match self@.accepting {
                Some(accepting) => match self@.generations[accepting.0].idle_deadline {
                    Some(deadline) => if deadline <= now { Some(accepting) } else { None },
                    None => None,
                },
                None => None,
            },
    {
        let accepting = match self.accepting_generation {
            Some(accepting) => accepting,
            None => {
                return None;
            },
        };
        match self.nearest_idle_deadline() {
            Some(deadline) => if deadline <= now {
                Some(accepting)
            } else {
                None
            },
            None => None,
        }
    }

    /// Replaces the accepting generation's idle deadline after dispatch.
    pub fn reset_idle_deadline(&mut self, generation: H2GenerationId, deadline: Option<u64>) -> (reset: bool)
        requires
            old(self).wf(),
        ensures
            final(self).wf(),
            reset == (old(self)@.accepting == Some(generation)),
            !reset ==> final(self)@ == old(self)@,
            reset ==> final(self)@ == (H2CellView {
                generations: old(self)@.generations.insert(
                    generation.0,
                    H2GenerationView { idle_deadline: deadline, ..old(self)@.generations[generation.0] },
                ),
                ..old(self)@
            }),
    {
        if !self.is_accepting(generation) {
            return false;
        }
        let mut record = self.take_generation(generation.0);
        record.idle_deadline = deadline;
        self.put_generation(generation.0, record);
        proof {
            lemma_generations_replace(old(self).generations@, generation.0, self.generations@[generation.0]);
            self.lemma_wf_after_update(old(self), generation.0);
        }
        true
    }

    /// Whether every transferred waiter of every generation is one of `waiters`.
    pub closed spec fn pending_within(&self, waiters: Set<u64>) -> bool {
        forall|k: u64, w: u64| #[trigger] self.generations@.contains_key(k)
            && #[trigger] self.generations@[k].pending_waiters@.contains(w) ==> waiters.contains(w)
    }

    /// Updating or removing one record keeps the state well formed when the
    /// rest of the state is unchanged and the updated record obeys the record
    /// rules.
    proof fn lemma_wf_after_update(&self, before: &Self, k: u64)
        requires
            before.wf(),
            self.flight == before.flight,
            self.accepting_generation == before.accepting_generation,
            self.peer_route == before.peer_route,
            self.local_activation_gate == before.local_activation_gate,
            self.next_generation_id == before.next_generation_id,
            self.generations@.dom() == before.generations@.dom()
                || self.generations@ == before.generations@.remove(k),
            forall|j: u64| j != k && #[trigger] self.generations@.contains_key(j)
                ==> self.generations@[j] == before.generations@[j],
            self.generations@.contains_key(k) ==> {
                &&& self.generations@[k].pending_waiters.wf()
                &&& self.generations@[k].state == before.generations@[k].state
                &&& (self.generations@[k].state == H2GenerationState::Draining ==> {
                    &&& self.generations@[k].prospective_requests > 0 || self.generations@[k].active_requests > 0
                    &&& self.generations@[k].pending_waiters@ == Set::<u64>::empty()
                })
            },
            !self.generations@.contains_key(k) && before.generations@.contains_key(k)
                ==> before.generations@[k].state == H2GenerationState::Draining,
        ensures
            self.wf(),
    {
        let m = self@.generations;
        let b = before@.generations;
        assert forall|j: u64| #[trigger] m.contains_key(j) implies {
            &&& j < self.next_generation_id
            &&& (m[j].state == H2GenerationState::Accepting ==> self.accepting_generation == Some(H2GenerationId(j)))
            &&& (m[j].state == H2GenerationState::Draining ==> {
                &&& m[j].prospective_requests > 0 || m[j].active_requests > 0
                &&& m[j].pending_waiters == Set::<u64>::empty()
            })
        } by {
            assert(b.contains_key(j));
        }
        assert forall|j: u64| #[trigger] self.generations@.contains_key(j) implies self.generations@[j].pending_waiters.wf() by {
            assert(before.generations@.contains_key(j));
        }
        match self.accepting_generation {
            Some(g) => {
                assert(b.contains_key(g.0));
                if g.0 == k {
                    assert(m.contains_key(k));
                }
            },
            None => {},
        }
    }

    /// Removes the record of `generation` for an in-place update.
    fn take_generation(&mut self, generation: u64) -> (record: H2Generation<S>)
        requires
            old(self).generations@.contains_key(generation),
        ensures
            record == old(self).generations@[generation],
            final(self).generations@ == old(self).generations@.remove(generation),
            final(self).flight == old(self).flight,
            final(self).accepting_generation == old(self).accepting_generation,
            final(self).peer_route == old(self).peer_route,
            final(self).local_activation_gate == old(self).local_activation_gate,
            final(self).next_flight_id == old(self).next_flight_id,
            final(self).next_generation_id == old(self).next_generation_id,
    {
        self.generations.remove(&generation).unwrap()
    }

    /// Stores the record of `generation` after an in-place update.
    fn put_generation(&mut self, generation: u64, record: H2Generation<S>)
        ensures
            final(self).generations@ == old(self).generations@.insert(generation, record),
            final(self).flight == old(self).flight,
            final(self).accepting_generation == old(self).accepting_generation,
            final(self).peer_route == old(self).peer_route,
            final(self).local_activation_gate == old(self).local_activation_gate,
            final(self).next_flight_id == old(self).next_flight_id,
            final(self).next_generation_id == old(self).next_generation_id,
    {
        self.generations.insert(generation, record);
    }

    fn take_flight_id(&mut self) -> (id: H2FlightId)
        requires
            old(self).next_flight_id < u64::MAX,
        ensures
            id == H2FlightId(old(self).next_flight_id),
            final(self).next_flight_id == old(self).next_flight_id + 1,
            final(self).flight == old(self).flight,
            final(self).generations == old(self).generations,
            final(self).accepting_generation == old(self).accepting_generation,
            final(self).peer_route == old(self).peer_route,
            final(self).local_activation_gate == old(self).local_activation_gate,
            final(self).next_generation_id == old(self).next_generation_id,
    {
        let value = self.next_flight_id;
        self.next_flight_id = value + 1;
        H2FlightId(value)
    }
}

} // verus!
