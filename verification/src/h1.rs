//! HTTP/1 connection records and exclusive request-sender ownership.
//!
//! Every installed connection remains in its connection-owning
//! [`H1CellState`] until logical close. While the record is live, its
//! exclusive sender exists in exactly one place: inside an `Idle` record or in
//! one external owner while the record is `Selected` or `ReservedForPeer`.
//! Transitions move the sender; they never copy it.
//!
//! ```text
//! completed handshake -- insert_selected ---------------------> Selected
//! test fixture ------- insert_idle ----------------------------> Idle(sender)
//!
//! Idle(sender) -- select_idle --------------------------------> Selected
//! Idle(sender) -- take_idle_candidate ----------------> ReservedForPeer
//! Selected ---- reserve_for_peer ---------------------> ReservedForPeer
//! ReservedForPeer -- commit_return_to_waiter -----------------> Selected
//! Selected ---- return_idle ----------------------------------> Idle(sender)
//! ReservedForPeer -- return_idle -----------------------------> Idle(sender)
//!
//! Idle(sender) ------------ begin_close ----------------------> Closing
//! Selected / ReservedForPeer -- begin_close / close_owned ---> Closing
//! Closing -------- remove_closed -----------------------------> removed
//! ```

use crate::ids::H1MatchId;
use vstd::std_specs::iter::IteratorSpec;
use std::collections::HashMap;
use vstd::prelude::*;

verus! {

broadcast use vstd::std_specs::hash::group_hash_axioms;

/// Authoritative state of one cell-local peer reservation.
#[derive(Clone, Copy, Debug, PartialEq, Eq, Structural)]
pub enum H1ReservationState {
    /// No peer match may intercept a sender return.
    Available,
    /// The next reusable sender return is reserved for this match.
    Installed(H1MatchId),
    /// A provisional sender is outside the cell lock for this match.
    Resolving(H1MatchId),
}

/// Local reservation for one peer match and its fairness debt.
///
/// Reservation residence and fairness debt are separate because a completed
/// transfer releases the reservation immediately, while the debt remains until
/// later local service or the disappearance of compatible local demand.
#[derive(Debug)]
pub struct H1Reservation {
    /// State of the current peer reservation.
    pub state: H1ReservationState,
    /// Whether this cell's next usable HTTP/1 turn must remain local.
    pub local_turn_owed: bool,
}

/// Whether a reservation state names `match_id`, waiting or resolving.
pub open spec fn reservation_names(state: H1ReservationState, match_id: H1MatchId) -> bool {
    match state {
        H1ReservationState::Installed(current) => current == match_id,
        H1ReservationState::Resolving(current) => current == match_id,
        H1ReservationState::Available => false,
    }
}

impl H1Reservation {
    /// The reservation after reserving `match_id`, waiting for a return or
    /// already resolving; an occupied reservation is unchanged.
    pub open spec fn after_reserve(self, match_id: H1MatchId, resolving: bool) -> H1Reservation {
        H1Reservation {
            state: if self.state == H1ReservationState::Available {
                if resolving {
                    H1ReservationState::Resolving(match_id)
                } else {
                    H1ReservationState::Installed(match_id)
                }
            } else {
                self.state
            },
            local_turn_owed: self.local_turn_owed,
        }
    }

    /// The reservation after a reusable return reaches a waiting match.
    pub open spec fn after_take_return(self) -> H1Reservation {
        H1Reservation {
            state: match self.state {
                H1ReservationState::Installed(current) => H1ReservationState::Resolving(current),
                other => other,
            },
            local_turn_owed: self.local_turn_owed,
        }
    }

    /// The reservation after releasing `match_id`: cleared when it names the
    /// match, with the fairness debt untouched.
    pub open spec fn after_release(self, match_id: H1MatchId) -> H1Reservation {
        H1Reservation {
            state: if reservation_names(self.state, match_id) {
                H1ReservationState::Available
            } else {
                self.state
            },
            local_turn_owed: self.local_turn_owed,
        }
    }

    /// The reservation after the resolving `match_id` completes its
    /// transfer: cleared, and owing a local turn when local HTTP/1 demand
    /// could use one.
    pub open spec fn after_complete(self, match_id: H1MatchId, local_h1_demand: bool) -> H1Reservation {
        if self.state == H1ReservationState::Resolving(match_id) {
            H1Reservation {
                state: H1ReservationState::Available,
                local_turn_owed: self.local_turn_owed || local_h1_demand,
            }
        } else {
            self
        }
    }
}

/// Only a completed transfer earns the cell a local turn, and each peer match
/// settles once: from an available reservation, a match reserved (waiting or
/// resolving) and then released leaves the reservation available with its
/// debt unchanged; a match that resolves and completes leaves it available and
/// owes a turn exactly when local HTTP/1 demand could use it; releasing or
/// completing the settled match again changes nothing.
pub proof fn lemma_only_completed_match_earns_a_turn(
    reservation: H1Reservation,
    match_id: H1MatchId,
    resolving: bool,
    local_h1_demand: bool,
)
    requires
        reservation.state == H1ReservationState::Available,
    ensures
        reservation.after_reserve(match_id, resolving).after_release(match_id) == reservation,
        ({
            let resolved = if resolving {
                reservation.after_reserve(match_id, true)
            } else {
                reservation.after_reserve(match_id, false).after_take_return()
            };
            let completed = resolved.after_complete(match_id, local_h1_demand);
            &&& completed == (H1Reservation {
                state: H1ReservationState::Available,
                local_turn_owed: reservation.local_turn_owed || local_h1_demand,
            })
            &&& completed.after_complete(match_id, local_h1_demand) == completed
            &&& completed.after_release(match_id) == completed
        }),
{
}

impl Default for H1Reservation {
    fn default() -> (slot: Self)
        ensures
            slot.state == H1ReservationState::Available,
            !slot.local_turn_owed,
    {
        H1Reservation { state: H1ReservationState::Available, local_turn_owed: false }
    }
}

impl H1Reservation {
    /// Reserves a future reusable return for one retained match.
    pub fn reserve_waiting(&mut self, match_id: H1MatchId) -> (installed: bool)
        ensures
            installed == (old(self).state == H1ReservationState::Available),
            *final(self) == old(self).after_reserve(match_id, false),
    {
        if !matches!(self.state, H1ReservationState::Available) {
            return false;
        }
        self.state = H1ReservationState::Installed(match_id);
        true
    }

    /// Reserves a match that already owns an extracted idle sender.
    pub fn reserve_resolving(&mut self, match_id: H1MatchId) -> (installed: bool)
        ensures
            installed == (old(self).state == H1ReservationState::Available),
            *final(self) == old(self).after_reserve(match_id, true),
    {
        if !matches!(self.state, H1ReservationState::Available) {
            return false;
        }
        self.state = H1ReservationState::Resolving(match_id);
        true
    }

    /// Transfers a waiting match into resolution on sender return.
    pub fn take_return_match(&mut self) -> (match_id: Option<H1MatchId>)
        ensures
            match_id == match old(self).state {
                H1ReservationState::Installed(current) => Some(current),
                _ => None,
            },
            *final(self) == old(self).after_take_return(),
    {
        let match_id = match self.state {
            H1ReservationState::Installed(match_id) => match_id,
            _ => return None,
        };
        self.state = H1ReservationState::Resolving(match_id);
        Some(match_id)
    }

    /// Releases a matching reservation without earning a local fairness turn.
    pub fn release(&mut self, match_id: H1MatchId) -> (rejected: bool)
        ensures
            rejected == reservation_names(old(self).state, match_id),
            *final(self) == old(self).after_release(match_id),
    {
        if !self.names(match_id) {
            return false;
        }
        self.state = H1ReservationState::Available;
        true
    }

    /// Completes an irreversible transfer and records any usable local turn.
    pub fn complete_transfer(&mut self, match_id: H1MatchId, local_h1_demand: bool) -> (completed: bool)
        ensures
            completed == (old(self).state == H1ReservationState::Resolving(match_id)),
            *final(self) == old(self).after_complete(match_id, local_h1_demand),
    {
        let resolving = match self.state {
            H1ReservationState::Resolving(current) => current == match_id,
            _ => false,
        };
        if !resolving {
            return false;
        }
        self.state = H1ReservationState::Available;
        self.local_turn_owed = self.local_turn_owed || local_h1_demand;
        true
    }

    /// Returns whether a usable local turn currently excludes a peer H1 match.
    pub fn blocks_peer_selection(&self, local_h1_demand: bool) -> (blocks: bool)
        ensures
            blocks == (self.local_turn_owed && local_h1_demand),
    {
        self.local_turn_owed && local_h1_demand
    }

    /// Consumes an owed turn when local HTTP/1 service wins.
    pub fn consume_local_turn(&mut self) -> (consumed: bool)
        ensures
            consumed == old(self).local_turn_owed,
            !final(self).local_turn_owed,
            final(self).state == old(self).state,
    {
        if !self.local_turn_owed {
            return false;
        }
        self.local_turn_owed = false;
        true
    }

    /// Clears debt that can no longer be consumed by local demand.
    pub fn clear_unused_turn(&mut self, local_h1_demand: bool) -> (cleared: bool)
        ensures
            cleared == (old(self).local_turn_owed && !local_h1_demand),
            final(self).local_turn_owed == (old(self).local_turn_owed && local_h1_demand),
            final(self).state == old(self).state,
    {
        if !self.local_turn_owed || local_h1_demand {
            return false;
        }
        self.local_turn_owed = false;
        true
    }

    /// Returns whether another peer reservation may be installed.
    pub fn is_available(&self) -> (available: bool)
        ensures
            available == (self.state == H1ReservationState::Available),
    {
        matches!(self.state, H1ReservationState::Available)
    }

    /// Returns whether this reservation still names `match_id`.
    pub fn names(&self, match_id: H1MatchId) -> (named: bool)
        ensures
            named == reservation_names(self.state, match_id),
    {
        match self.state {
            H1ReservationState::Installed(current) => current == match_id,
            H1ReservationState::Resolving(current) => current == match_id,
            H1ReservationState::Available => false,
        }
    }

    /// Whether the reservation is consistent with the cell's records: an
    /// installed reservation needs an externally owned sender record to
    /// settle it.
    pub fn is_consistent(&self, supports_peer_reservation: bool) -> (consistent: bool)
        ensures
            consistent == (self.state is Installed ==> supports_peer_reservation),
    {
        match self.state {
            H1ReservationState::Installed(_) => supports_peer_reservation,
            _ => true,
        }
    }

    /// Returns whether this cell owes its next usable sender to local demand.
    pub fn local_turn_owed(&self) -> (owed: bool)
        ensures
            owed == self.local_turn_owed,
    {
        self.local_turn_owed
    }
}

/// Authoritative location of one exclusive HTTP/1 sender.
#[derive(Debug)]
pub enum H1SenderResidence<S> {
    /// The sender is stored in this record and available for local selection.
    Idle {
        /// Exclusive sender available for the next local request.
        sender: S,
        /// Maintenance deadline, absent when idle expiry is disabled.
        deadline: Option<u64>,
    },
    /// A request-side owner holds the sender.
    Selected,
    /// A provisional cross-cell owner holds the sender.
    ReservedForPeer,
    /// Logical close has started and no new selection or return may commit.
    Closing,
}

/// Exclusive sender detached from a connection-owning cell record.
#[derive(Debug)]
pub struct OwnedH1Sender<S> {
    /// Identity of the installed connection.
    pub connection: u64,
    /// The one HTTP/1 sender for the connection.
    pub sender: S,
    /// Whether this sender came from an already installed reusable record.
    pub reused: bool,
}

impl<S> OwnedH1Sender<S> {
    /// Returns the installed connection identity.
    pub fn id(&self) -> (id: u64)
        ensures
            id == self.connection,
    {
        self.connection
    }

    /// Returns whether this selection came from an existing reusable record.
    pub fn is_reused(&self) -> (reused: bool)
        ensures
            reused == self.reused,
    {
        self.reused
    }

    /// Marks the next request as reusing an already established connection.
    pub fn mark_reused(&mut self)
        ensures
            final(self).reused,
            final(self).connection == old(self).connection,
            final(self).sender == old(self).sender,
    {
        self.reused = true;
    }
}

/// State detached when close begins for a record named by identity.
#[derive(Debug)]
pub struct H1CloseTransition<S> {
    /// Connection whose logical lifetime close must end.
    pub connection: u64,
    /// Idle sender extracted for destruction, if close found one in the cell.
    pub sender: Option<S>,
}

/// Whether a residence may still come back to reusable return policy.
pub open spec fn is_external(residence: H1SenderResidence<impl Sized>) -> bool {
    residence is Selected || residence is ReservedForPeer
}

/// Idle deadline of a residence, when it is idle and has one.
pub open spec fn idle_deadline_of<S>(residence: H1SenderResidence<S>) -> Option<u64> {
    match residence {
        H1SenderResidence::Idle { deadline, .. } => deadline,
        _ => None,
    }
}

/// Whether `new` is `old` after close began for record `id`, detaching `transition`.
pub open spec fn close_begun<S>(old: H1CellState<S>, new: H1CellState<S>, id: u64, transition: Option<H1CloseTransition<S>>) -> bool {
    &&& (new.reservation() == old.reservation())
    &&& ((!old.records().contains_key(id) || old.records()[id] is Closing) ==> {
        &&& transition is None
        &&& new.records() == old.records()
        &&& new.idle_order() == old.idle_order()
    })
    &&& ((old.records().contains_key(id) && !(old.records()[id] is Closing)) ==> {
        &&& transition matches Some(t) && {
            &&& t.connection == id
            &&& match old.records()[id] {
                H1SenderResidence::Idle { sender, .. } => t.sender == Some(sender),
                _ => t.sender is None,
            }
        }
        &&& new.records() == old.records().insert(id, H1SenderResidence::Closing)
        &&& new.idle_order() == (if old.records()[id] is Idle {
            old.idle_order().remove(old.idle_order().index_of(id))
        } else {
            old.idle_order()
        })
    })
}

/// Whether `new` is `old` after the externally owned sender `owner` began retiring.
pub open spec fn owned_closed<S>(old: H1CellState<S>, new: H1CellState<S>, owner: OwnedH1Sender<S>, should_close: bool) -> bool {
    &&& (new.idle_order() == old.idle_order())
    &&& (new.reservation() == old.reservation())
    &&& (should_close == !(old.records().contains_key(owner.connection)
        && old.records()[owner.connection] is Closing))
    &&& (new.records() == (if old.records().contains_key(owner.connection) {
        old.records().insert(owner.connection, H1SenderResidence::Closing)
    } else {
        old.records()
    }))
}

/// Whether `new` is `old` after a closing record `id` was removed.
pub open spec fn closed_removed<S>(old: H1CellState<S>, new: H1CellState<S>, id: u64) -> bool {
    &&& (new.idle_order() == old.idle_order())
    &&& (new.reservation() == old.reservation())
    &&& (new.records() == (if old.records().contains_key(id) && old.records()[id] is Closing {
        old.records().remove(id)
    } else {
        old.records()
    }))
}

/// Whether `new` is `old` after the newest idle sender was selected as `owner`.
pub open spec fn idle_selected<S>(old: H1CellState<S>, new: H1CellState<S>, owner: Option<OwnedH1Sender<S>>) -> bool {
    &&& (new.reservation() == old.reservation())
    &&& (old.idle_order().len() == 0 ==> {
        &&& owner is None
        &&& new.records() == old.records()
        &&& new.idle_order() == old.idle_order()
    })
    &&& (old.idle_order().len() > 0 ==> {
        let id = old.idle_order().last();
        &&& owner matches Some(o) && {
            &&& o.connection == id
            &&& old.records()[id] == (H1SenderResidence::Idle {
                sender: o.sender,
                deadline: old.records()[id]->deadline,
            })
            &&& o.reused
        }
        &&& new.records() == old.records().insert(id, H1SenderResidence::Selected)
        &&& new.idle_order() == old.idle_order().drop_last()
    })
}

/// Whether `new` is `old` after `owner` came back to become idle until
/// `deadline`: accepted while its record is outside the cell, refused
/// unchanged otherwise.
pub open spec fn idle_returned<S>(
    old: H1CellState<S>,
    new: H1CellState<S>,
    owner: OwnedH1Sender<S>,
    deadline: Option<u64>,
    returned: Result<(), OwnedH1Sender<S>>,
) -> bool {
    &&& new.reservation() == old.reservation()
    &&& (old.records().contains_key(owner.connection) && is_external(old.records()[owner.connection])) ==> {
        &&& returned is Ok
        &&& new.records() == old.records().insert(owner.connection, H1SenderResidence::Idle { sender: owner.sender, deadline })
        &&& new.idle_order() == old.idle_order().push(owner.connection)
    }
    &&& !(old.records().contains_key(owner.connection) && is_external(old.records()[owner.connection])) ==> {
        &&& returned == Err::<(), OwnedH1Sender<S>>(owner)
        &&& new.records() == old.records()
        &&& new.idle_order() == old.idle_order()
    }
}

/// An idle sender is reused most recently returned first: a selected sender
/// that comes back idle is the next one selected, as it was returned and now
/// marked reused, and the records and idle order are then as they were
/// before the return.
pub proof fn lemma_returned_sender_is_selected_next<S>(
    before: H1CellState<S>,
    returned_state: H1CellState<S>,
    after: H1CellState<S>,
    owner: OwnedH1Sender<S>,
    deadline: Option<u64>,
    returned: Result<(), OwnedH1Sender<S>>,
    selected: Option<OwnedH1Sender<S>>,
)
    requires
        before.records().contains_key(owner.connection),
        before.records()[owner.connection] is Selected,
        idle_returned(before, returned_state, owner, deadline, returned),
        idle_selected(returned_state, after, selected),
    ensures
        returned is Ok,
        selected == Some(OwnedH1Sender { reused: true, ..owner }),
        after.records() == before.records(),
        after.idle_order() == before.idle_order(),
        after.reservation() == before.reservation(),
{
    assert(returned_state.idle_order().last() == owner.connection);
    assert(after.records() =~= before.records());
    assert(after.idle_order() =~= before.idle_order());
}

/// Whether `new` is `old` after installing `connection` selected by its launching request.
pub open spec fn selected_inserted<S>(old: H1CellState<S>, new: H1CellState<S>, connection: u64, sender: S, installed: Result<OwnedH1Sender<S>, OwnedH1Sender<S>>) -> bool {
    &&& (new.reservation() == old.reservation())
    &&& (new.idle_order() == old.idle_order())
    &&& (old.records().contains_key(connection) ==> {
        &&& installed == Err::<OwnedH1Sender<S>, OwnedH1Sender<S>>(OwnedH1Sender { connection, sender, reused: false })
        &&& new.records() == old.records()
    })
    &&& (!old.records().contains_key(connection) ==> {
        &&& installed == Ok::<OwnedH1Sender<S>, OwnedH1Sender<S>>(OwnedH1Sender { connection, sender, reused: false })
        &&& new.records() == old.records().insert(connection, H1SenderResidence::Selected)
    })
}

/// Whether `new` is `old` after installing `connection` idle.
pub open spec fn idle_inserted<S>(old: H1CellState<S>, new: H1CellState<S>, connection: u64, sender: S, deadline: Option<u64>, installed: Result<(), OwnedH1Sender<S>>) -> bool {
    &&& (new.reservation() == old.reservation())
    &&& (old.records().contains_key(connection) ==> {
        &&& installed == Err::<(), OwnedH1Sender<S>>(OwnedH1Sender { connection, sender, reused: true })
        &&& new.records() == old.records()
        &&& new.idle_order() == old.idle_order()
    })
    &&& (!old.records().contains_key(connection) ==> {
        &&& installed is Ok
        &&& new.records() == old.records().insert(
            connection,
            H1SenderResidence::Idle { sender, deadline },
        )
        &&& new.idle_order() == old.idle_order().push(connection)
    })
}

/// Complete HTTP/1 sender and peer-reservation state under one cell lock.
#[derive(Debug)]
pub struct H1CellState<S> {
    /// Every installed record that has not completed logical close.
    records: HashMap<u64, H1SenderResidence<S>>,
    /// Reusable records in return order; selection takes the newest sender.
    idle_order: Vec<u64>,
    /// Peer match that may intercept the next reusable sender return.
    peer_reservation: H1Reservation,
}

impl<S> H1CellState<S> {
    /// Residence of every installed record.
    pub closed spec fn records(&self) -> Map<u64, H1SenderResidence<S>> {
        self.records@
    }

    /// The cell's peer reservation and fairness debt.
    pub closed spec fn reservation(&self) -> H1Reservation {
        self.peer_reservation
    }

    /// Idle records, oldest return first.
    pub closed spec fn idle_order(&self) -> Seq<u64> {
        self.idle_order@
    }

    /// The idle order lists exactly the idle records, each once.
    pub closed spec fn wf(&self) -> bool {
        &&& self.idle_order@.no_duplicates()
        &&& forall|i: int| 0 <= i < self.idle_order@.len() ==> {
            &&& #[trigger] self.records@.contains_key(self.idle_order@[i])
            &&& self.records@[self.idle_order@[i]] is Idle
        }
        &&& forall|k: u64| #[trigger] self.records@.contains_key(k) && self.records@[k] is Idle
            ==> self.idle_order@.contains(k)
    }

    /// Whether some installed sender could satisfy peer selection now or on return.
    pub open spec fn spec_has_returnable(&self) -> bool {
        exists|k: u64| #[trigger] self.records().contains_key(k) && !(self.records()[k] is Closing)
    }

    /// Whether some record could still settle an installed peer reservation.
    pub open spec fn spec_supports_peer_reservation(&self) -> bool {
        exists|k: u64| #[trigger] self.records().contains_key(k) && !(self.records()[k] is Idle)
    }

    /// Creates the state of a cell without HTTP/1 connections.
    pub fn new() -> (state: Self)
        ensures
            state.wf(),
            state.records() == Map::<u64, H1SenderResidence<S>>::empty(),
            state.idle_order() == Seq::<u64>::empty(),
            state.reservation().state == H1ReservationState::Available,
            !state.reservation().local_turn_owed,
    {
        let state = H1CellState { records: HashMap::new(), idle_order: Vec::new(), peer_reservation: H1Reservation::default() };
        assert(state.records@ =~= Map::<u64, H1SenderResidence<S>>::empty());
        state
    }

    /// Installs a fresh connection as selected by its launching acquisition.
    pub fn insert_selected(&mut self, connection: u64, sender: S) -> (installed: Result<OwnedH1Sender<S>, OwnedH1Sender<S>>)
        requires
            old(self).wf(),
        ensures
            final(self).wf(),
            selected_inserted(*old(self), *final(self), connection, sender, installed),
    {
        let owner = OwnedH1Sender { connection, sender, reused: false };
        if self.records.contains_key(&connection) {
            return Err(owner);
        }
        self.records.insert(connection, H1SenderResidence::Selected);
        Ok(owner)
    }

    /// Installs a connection that completed without a live launching waiter.
    pub fn insert_idle(&mut self, connection: u64, sender: S, deadline: Option<u64>) -> (installed: Result<(), OwnedH1Sender<S>>)
        requires
            old(self).wf(),
        ensures
            final(self).wf(),
            idle_inserted(*old(self), *final(self), connection, sender, deadline, installed),
    {
        if self.records.contains_key(&connection) {
            return Err(OwnedH1Sender { connection, sender, reused: true });
        }
        self.records.insert(connection, H1SenderResidence::Idle { sender, deadline });
        self.idle_order.push(connection);
        proof {
            let o = self.idle_order@;
            assert forall|i: int, j: int| 0 <= i < o.len() && 0 <= j < o.len() && i != j implies o[i] != o[j] by {
                if i == o.len() - 1 {
                    assert(old(self).records@.contains_key(o[j]));
                } else if j == o.len() - 1 {
                    assert(old(self).records@.contains_key(o[i]));
                }
            }
            assert forall|i: int| 0 <= i < o.len() implies {
                &&& #[trigger] self.records@.contains_key(o[i])
                &&& self.records@[o[i]] is Idle
            } by {
                if i < o.len() - 1 {
                    assert(old(self).idle_order@[i] == o[i]);
                }
            }
            assert forall|k: u64| #[trigger] self.records@.contains_key(k) && self.records@[k] is Idle implies o.contains(k) by {
                if k == connection {
                    assert(o[o.len() - 1] == k);
                } else {
                    let j = choose|j: int| 0 <= j < old(self).idle_order@.len() && old(self).idle_order@[j] == k;
                    assert(o[j] == k);
                }
            }
        }
        Ok(())
    }

    /// Moves the newest idle sender out, leaving its record with `residence`.
    fn take_newest_idle(&mut self, residence: H1SenderResidence<S>) -> (owner: Option<OwnedH1Sender<S>>)
        requires
            old(self).wf(),
            residence is Selected || residence is ReservedForPeer,
        ensures
            final(self).wf(),
            final(self).reservation() == old(self).reservation(),
            old(self).idle_order().len() == 0 ==> {
                &&& owner is None
                &&& final(self).records() == old(self).records()
                &&& final(self).idle_order() == old(self).idle_order()
            },
            old(self).idle_order().len() > 0 ==> {
                let id = old(self).idle_order().last();
                &&& owner matches Some(o) && {
                    &&& o.connection == id
                    &&& old(self).records()[id] == (H1SenderResidence::Idle {
                        sender: o.sender,
                        deadline: old(self).records()[id]->deadline,
                    })
                    &&& o.reused
                }
                &&& final(self).records() == old(self).records().insert(id, residence)
                &&& final(self).idle_order() == old(self).idle_order().drop_last()
            },
    {
        let id = match self.idle_order.pop() {
            Some(id) => id,
            None => return None,
        };
        proof {
            assert(old(self).idle_order@[old(self).idle_order@.len() - 1] == id);
        }
        let previous = self.records.remove(&id).unwrap();
        self.records.insert(id, residence);
        let sender = match previous {
            H1SenderResidence::Idle { sender, .. } => sender,
            _ => {
                assert(false);
                return None;
            },
        };
        proof {
            let o = self.idle_order@;
            let o0 = old(self).idle_order@;
            assert forall|i: int| 0 <= i < o.len() implies {
                &&& #[trigger] self.records@.contains_key(o[i])
                &&& self.records@[o[i]] is Idle
            } by {
                assert(o0[i] == o[i]);
                assert(o0[i] != o0[o0.len() - 1]);
            }
            assert forall|k: u64| #[trigger] self.records@.contains_key(k) && self.records@[k] is Idle implies o.contains(k) by {
                assert(old(self).records@.contains_key(k));
                let j = choose|j: int| 0 <= j < o0.len() && o0[j] == k;
                assert(j != o0.len() - 1);
                assert(o[j] == k);
            }
            assert(o.no_duplicates()) by {
                assert forall|i: int, j: int| 0 <= i < o.len() && 0 <= j < o.len() && i != j implies o[i] != o[j] by {
                    assert(o0[i] == o[i] && o0[j] == o[j]);
                }
            }
        }
        Some(OwnedH1Sender { connection: id, sender, reused: true })
    }

    /// Returns every installed record identity for pool-wide shutdown.
    pub fn connection_ids(&self) -> (ids: Vec<u64>)
        requires
            self.wf(),
        ensures
            ids@.to_set() == self.records().dom(),
            ids@.no_duplicates(),
    {
        let mut ids: Vec<u64> = Vec::new();
        let keys = self.records.keys();
        let ghost all = keys.remaining().unref();
        assert(all.to_set() == self.records@.dom());
        for k in it: keys
            invariant
                it.seq().unref() == all,
                ids@ == all.take(it.index() as int),
                all.no_duplicates(),
        {
            ids.push(*k);
            proof {
                assert(all.take(it.index() as int + 1) =~= all.take(it.index() as int).push(*k));
            }
        }
        proof {
            assert(ids@ =~= all);
        }
        ids
    }

    /// Returns whether some record's residence satisfies the chosen rule:
    /// not closing when `returnable`, not idle otherwise.
    fn any_record(&self, returnable: bool) -> (found: bool)
        requires
            self.wf(),
        ensures
            returnable ==> found == self.spec_has_returnable(),
            !returnable ==> found == self.spec_supports_peer_reservation(),
    {
        let keys = self.records.keys();
        let ghost all = keys.remaining().unref();
        assert(all.to_set() == self.records@.dom());
        for k in it: keys
            invariant
                it.seq().unref() == all,
                all.to_set() == self.records@.dom(),
                forall|j: int| 0 <= j < it.index() ==> {
                    let r = self.records@[#[trigger] all[j]];
                    if returnable { r is Closing } else { r is Idle }
                },
        {
            proof {
                assert(all.to_set().contains(all[it.index() as int]));
            }
            let record = self.records.get(k).unwrap();
            let hit = match record {
                H1SenderResidence::Closing => !returnable,
                H1SenderResidence::Idle { .. } => returnable,
                _ => true,
            };
            if hit {
                proof {
                    assert(self.records().contains_key(*k));
                }
                return true;
            }
        }
        proof {
            assert forall|key: u64| #[trigger] self.records().contains_key(key) implies (if returnable {
                self.records()[key] is Closing
            } else {
                self.records()[key] is Idle
            }) by {
                assert(all.to_set().contains(key));
                let j = choose|j: int| 0 <= j < all.len() && all[j] == key;
            }
        }
        false
    }

    /// Returns whether a sender could satisfy peer selection now or on return.
    pub fn has_returnable(&self) -> (found: bool)
        requires
            self.wf(),
        ensures
            found == self.spec_has_returnable(),
    {
        self.any_record(true)
    }

    /// Returns whether an installed peer reservation still has sender state.
    ///
    /// Logical close may move an externally owned sender to `Closing` before
    /// its return resolves the installed match, so reservation consistency is
    /// broader than current peer selectability.
    pub fn supports_peer_reservation(&self) -> (found: bool)
        requires
            self.wf(),
        ensures
            found == self.spec_supports_peer_reservation(),
    {
        self.any_record(false)
    }

    /// Returns whether this state holds a record of connection `id`.
    pub fn has_record(&self, id: u64) -> (found: bool)
        ensures
            found == self.records().contains_key(id),
    {
        self.records.contains_key(&id)
    }

    /// Returns whether `owner` may still re-enter reusable return policy.
    pub fn accepts_return(&self, owner: &OwnedH1Sender<S>) -> (accepts: bool)
        requires
            self.wf(),
        ensures
            accepts == (self.records().contains_key(owner.connection) && is_external(
                self.records()[owner.connection],
            )),
    {
        match self.records.get(&owner.connection) {
            Some(H1SenderResidence::Selected) => true,
            Some(H1SenderResidence::ReservedForPeer) => true,
            _ => false,
        }
    }

    /// Replaces the residence of a record that is not idle with another
    /// residence that is not idle.
    fn set_external_residence(&mut self, id: u64, residence: H1SenderResidence<S>)
        requires
            old(self).wf(),
            old(self).records().contains_key(id),
            !(old(self).records()[id] is Idle),
            !(residence is Idle),
        ensures
            final(self).wf(),
            final(self).records() == old(self).records().insert(id, residence),
            final(self).idle_order() == old(self).idle_order(),
            final(self).reservation() == old(self).reservation(),
    {
        self.records.insert(id, residence);
        proof {
            let o = self.idle_order@;
            assert forall|i: int| 0 <= i < o.len() implies {
                &&& #[trigger] self.records@.contains_key(o[i])
                &&& self.records@[o[i]] is Idle
            } by {
                assert(old(self).records@.contains_key(o[i]));
            }
        }
    }

    /// Reserves an external sender for cross-cell reuse.
    pub fn reserve_for_peer(&mut self, owner: &OwnedH1Sender<S>) -> (reserved: bool)
        requires
            old(self).wf(),
        ensures
            final(self).wf(),
            final(self).idle_order() == old(self).idle_order(),
            final(self).reservation() == old(self).reservation(),
            reserved == (old(self).records().contains_key(owner.connection) && is_external(
                old(self).records()[owner.connection],
            )),
            final(self).records() == (if reserved {
                old(self).records().insert(owner.connection, H1SenderResidence::ReservedForPeer)
            } else {
                old(self).records()
            }),
    {
        let external = self.accepts_return(owner);
        if !external {
            return false;
        }
        self.set_external_residence(owner.connection, H1SenderResidence::ReservedForPeer);
        proof {
            if old(self).records()[owner.connection] is ReservedForPeer {
                assert(self.records() =~= old(self).records().insert(owner.connection, H1SenderResidence::ReservedForPeer));
            }
        }
        true
    }

    /// Restores a returned sender to idle storage.
    pub fn return_idle(&mut self, owner: OwnedH1Sender<S>, deadline: Option<u64>) -> (returned: Result<(), OwnedH1Sender<S>>)
        requires
            old(self).wf(),
        ensures
            final(self).wf(),
            idle_returned(*old(self), *final(self), owner, deadline, returned),
    {
        if !self.accepts_return(&owner) {
            return Err(owner);
        }
        let id = owner.connection;
        let OwnedH1Sender { connection: _, sender, reused: _ } = owner;
        self.records.insert(id, H1SenderResidence::Idle { sender, deadline });
        self.idle_order.push(id);
        proof {
            let o = self.idle_order@;
            let o0 = old(self).idle_order@;
            assert(!o0.contains(id)) by {
                if o0.contains(id) {
                    let j = choose|j: int| 0 <= j < o0.len() && o0[j] == id;
                    assert(old(self).records@.contains_key(o0[j]));
                }
            }
            assert forall|i: int, j: int| 0 <= i < o.len() && 0 <= j < o.len() && i != j implies o[i] != o[j] by {
                if i == o.len() - 1 {
                    assert(o[j] == o0[j]);
                } else if j == o.len() - 1 {
                    assert(o[i] == o0[i]);
                }
            }
            assert forall|i: int| 0 <= i < o.len() implies {
                &&& #[trigger] self.records@.contains_key(o[i])
                &&& self.records@[o[i]] is Idle
            } by {
                if i < o.len() - 1 {
                    assert(o0[i] == o[i]);
                }
            }
            assert forall|k: u64| #[trigger] self.records@.contains_key(k) && self.records@[k] is Idle implies o.contains(k) by {
                if k == id {
                    assert(o[o.len() - 1] == k);
                } else {
                    let j = choose|j: int| 0 <= j < o0.len() && o0[j] == k;
                    assert(o[j] == k);
                }
            }
        }
        Ok(())
    }

    /// Commits a selected or returning sender to a waiting request.
    pub fn commit_return_to_waiter(&mut self, owner: &OwnedH1Sender<S>) -> (committed: bool)
        requires
            old(self).wf(),
        ensures
            final(self).wf(),
            final(self).idle_order() == old(self).idle_order(),
            final(self).reservation() == old(self).reservation(),
            committed == (old(self).records().contains_key(owner.connection) && is_external(
                old(self).records()[owner.connection],
            )),
            final(self).records() == (if committed {
                old(self).records().insert(owner.connection, H1SenderResidence::Selected)
            } else {
                old(self).records()
            }),
    {
        if !self.accepts_return(owner) {
            return false;
        }
        self.set_external_residence(owner.connection, H1SenderResidence::Selected);
        proof {
            if old(self).records()[owner.connection] is Selected {
                assert(self.records() =~= old(self).records().insert(owner.connection, H1SenderResidence::Selected));
            }
        }
        true
    }

    /// Marks a selected or returning sender as closing.
    ///
    /// The caller still owns the sender and completes logical close. A record
    /// that already left the cell needs close as well; one already closing
    /// does not.
    pub fn close_owned(&mut self, owner: &OwnedH1Sender<S>) -> (should_close: bool)
        requires
            old(self).wf(),
            old(self).records().contains_key(owner.connection) ==> !(old(self).records()[owner.connection] is Idle),
        ensures
            final(self).wf(),
            owned_closed(*old(self), *final(self), *owner, should_close),
    {
        let state: u8 = match self.records.get(&owner.connection) {
            None => 0,
            Some(H1SenderResidence::Closing) => 1,
            Some(_) => 2,
        };
        if state == 0 {
            return true;
        }
        if state == 1 {
            assert(self.records() =~= old(self).records().insert(owner.connection, H1SenderResidence::Closing));
            return false;
        }
        self.set_external_residence(owner.connection, H1SenderResidence::Closing);
        true
    }

    /// Starts close for a record named without its external sender.
    ///
    /// Idle close extracts the sender. Selected and returning records stay
    /// represented as `Closing` until their external owner comes back.
    pub fn begin_close(&mut self, id: u64) -> (transition: Option<H1CloseTransition<S>>)
        requires
            old(self).wf(),
        ensures
            final(self).wf(),
            final(self).reservation() == old(self).reservation(),
            (!old(self).records().contains_key(id) || old(self).records()[id] is Closing) ==> {
                &&& transition is None
                &&& final(self).records() == old(self).records()
                &&& final(self).idle_order() == old(self).idle_order()
            },
            (old(self).records().contains_key(id) && !(old(self).records()[id] is Closing)) ==> {
                &&& transition matches Some(t) && {
                    &&& t.connection == id
                    &&& match old(self).records()[id] {
                        H1SenderResidence::Idle { sender, .. } => t.sender == Some(sender),
                        _ => t.sender is None,
                    }
                }
                &&& final(self).records() == old(self).records().insert(id, H1SenderResidence::Closing)
                &&& final(self).idle_order() == (if old(self).records()[id] is Idle {
                    old(self).idle_order().remove(old(self).idle_order().index_of(id))
                } else {
                    old(self).idle_order()
                })
            },
            close_begun(*old(self), *final(self), id, transition),
    {
        let state: u8 = match self.records.get(&id) {
            None => 0,
            Some(H1SenderResidence::Closing) => 0,
            Some(H1SenderResidence::Idle { .. }) => 1,
            Some(_) => 2,
        };
        if state == 0 {
            return None;
        }
        if state == 2 {
            self.set_external_residence(id, H1SenderResidence::Closing);
            return Some(H1CloseTransition { connection: id, sender: None });
        }
        let ghost o0 = self.idle_order@;
        let ghost k = o0.index_of(id);
        assert(o0.contains(id));
        let mut position: usize = 0;
        while position < self.idle_order.len() && self.idle_order[position] != id
            invariant
                self.idle_order@ == o0,
                self.wf(),
                o0.contains(id),
                position <= o0.len(),
                forall|j: int| 0 <= j < position ==> o0[j] != id,
            decreases o0.len() - position,
        {
            position = position + 1;
        }
        proof {
            if position == o0.len() {
                let j = choose|j: int| 0 <= j < o0.len() && o0[j] == id;
            }
            assert(o0[position as int] == id);
            assert(position == k) by {
                if position != k {
                    assert(o0[k] == id);
                }
            }
        }
        self.idle_order.remove(position);
        let previous = self.records.remove(&id).unwrap();
        self.records.insert(id, H1SenderResidence::Closing);
        let sender = match previous {
            H1SenderResidence::Idle { sender, .. } => sender,
            _ => {
                assert(false);
                return None;
            },
        };
        proof {
            let o = self.idle_order@;
            assert(o == o0.remove(k));
            assert forall|i: int| 0 <= i < o.len() implies {
                &&& #[trigger] self.records@.contains_key(o[i])
                &&& self.records@[o[i]] is Idle
            } by {
                let i0 = if i < k { i } else { i + 1 };
                assert(o[i] == o0[i0]);
                assert(o0[i0] != o0[k]);
                assert(old(self).records@.contains_key(o0[i0]));
            }
            assert forall|key: u64| #[trigger] self.records@.contains_key(key) && self.records@[key] is Idle implies o.contains(key) by {
                let j = choose|j: int| 0 <= j < o0.len() && o0[j] == key;
                assert(j != k);
                if j < k {
                    assert(o[j] == key);
                } else {
                    assert(o[j - 1] == key);
                }
            }
            assert forall|a: int, b: int| 0 <= a < o.len() && 0 <= b < o.len() && a != b implies o[a] != o[b] by {
                let a0 = if a < k { a } else { a + 1 };
                let b0 = if b < k { b } else { b + 1 };
                assert(o[a] == o0[a0] && o[b] == o0[b0]);
            }
        }
        Some(H1CloseTransition { connection: id, sender: Some(sender) })
    }

    /// Removes a record after logical close and sender destruction complete.
    pub fn remove_closed(&mut self, id: u64)
        requires
            old(self).wf(),
        ensures
            final(self).wf(),
            closed_removed(*old(self), *final(self), id),
    {
        let closing = match self.records.get(&id) {
            Some(H1SenderResidence::Closing) => true,
            _ => false,
        };
        if closing {
            self.records.remove(&id);
            proof {
                let o = self.idle_order@;
                assert forall|i: int| 0 <= i < o.len() implies {
                    &&& #[trigger] self.records@.contains_key(o[i])
                    &&& self.records@[o[i]] is Idle
                } by {
                    assert(old(self).records@.contains_key(o[i]));
                }
            }
        }
    }

    /// Returns the installed record and idle counts.
    pub fn counts(&self) -> (counts: (usize, usize))
        requires
            self.wf(),
        ensures
            counts.0 == self.records().len(),
            counts.1 == self.idle_order().len(),
    {
        (self.records.len(), self.idle_order.len())
    }

    /// Returns whether admission may install another peer reservation.
    pub fn peer_reservation_available(&self) -> (available: bool)
        ensures
            available == (self.reservation().state == H1ReservationState::Available),
    {
        self.peer_reservation.is_available()
    }

    /// Returns whether fairness currently excludes peer selection.
    pub fn blocks_peer_selection(&self, local_h1_demand: bool) -> (blocks: bool)
        ensures
            blocks == (self.reservation().local_turn_owed && local_h1_demand),
    {
        self.peer_reservation.blocks_peer_selection(local_h1_demand)
    }

    /// Reserves a future sender return for one retained peer match.
    pub fn reserve_waiting(&mut self, match_id: H1MatchId) -> (installed: bool)
        requires
            old(self).wf(),
        ensures
            final(self).wf(),
            final(self).records() == old(self).records(),
            final(self).idle_order() == old(self).idle_order(),
            installed == (old(self).reservation().state == H1ReservationState::Available),
            final(self).reservation().state == (if installed {
                H1ReservationState::Installed(match_id)
            } else {
                old(self).reservation().state
            }),
            final(self).reservation().local_turn_owed == old(self).reservation().local_turn_owed,
    {
        self.peer_reservation.reserve_waiting(match_id)
    }

    /// Reserves a peer match that already owns an extracted sender.
    pub fn reserve_resolving(&mut self, match_id: H1MatchId) -> (installed: bool)
        requires
            old(self).wf(),
        ensures
            final(self).wf(),
            final(self).records() == old(self).records(),
            final(self).idle_order() == old(self).idle_order(),
            installed == (old(self).reservation().state == H1ReservationState::Available),
            final(self).reservation().state == (if installed {
                H1ReservationState::Resolving(match_id)
            } else {
                old(self).reservation().state
            }),
            final(self).reservation().local_turn_owed == old(self).reservation().local_turn_owed,
    {
        self.peer_reservation.reserve_resolving(match_id)
    }

    /// Takes a waiting peer match when a reusable sender returns.
    pub fn take_return_match(&mut self) -> (match_id: Option<H1MatchId>)
        requires
            old(self).wf(),
        ensures
            final(self).wf(),
            final(self).records() == old(self).records(),
            final(self).idle_order() == old(self).idle_order(),
            match old(self).reservation().state {
                H1ReservationState::Installed(current) => {
                    &&& match_id == Some(current)
                    &&& final(self).reservation().state == H1ReservationState::Resolving(current)
                },
                _ => match_id is None && final(self).reservation().state == old(self).reservation().state,
            },
            final(self).reservation().local_turn_owed == old(self).reservation().local_turn_owed,
    {
        self.peer_reservation.take_return_match()
    }

    /// Releases a peer reservation without recording a local turn.
    pub fn release_peer_reservation(&mut self, match_id: H1MatchId) -> (released: bool)
        requires
            old(self).wf(),
        ensures
            final(self).wf(),
            final(self).records() == old(self).records(),
            final(self).idle_order() == old(self).idle_order(),
            released == reservation_names(old(self).reservation().state, match_id),
            final(self).reservation().state == (if released {
                H1ReservationState::Available
            } else {
                old(self).reservation().state
            }),
            final(self).reservation().local_turn_owed == old(self).reservation().local_turn_owed,
    {
        self.peer_reservation.release(match_id)
    }

    /// Returns whether the peer reservation still names `match_id`.
    pub fn names_peer_reservation(&self, match_id: H1MatchId) -> (named: bool)
        ensures
            named == reservation_names(self.reservation().state, match_id),
    {
        self.peer_reservation.names(match_id)
    }

    /// Completes a transferred peer sender and records any local fairness turn.
    pub fn complete_peer_transfer(&mut self, match_id: H1MatchId, local_h1_demand: bool) -> (completed: bool)
        requires
            old(self).wf(),
        ensures
            final(self).wf(),
            final(self).records() == old(self).records(),
            final(self).idle_order() == old(self).idle_order(),
            completed == (old(self).reservation().state == H1ReservationState::Resolving(match_id)),
            completed ==> final(self).reservation().state == H1ReservationState::Available
                && final(self).reservation().local_turn_owed == (old(self).reservation().local_turn_owed
                || local_h1_demand),
            !completed ==> final(self).reservation() == old(self).reservation(),
    {
        self.peer_reservation.complete_transfer(match_id, local_h1_demand)
    }

    /// Consumes an owed local turn after local HTTP/1 service wins.
    pub fn consume_local_turn(&mut self) -> (consumed: bool)
        requires
            old(self).wf(),
        ensures
            final(self).wf(),
            final(self).records() == old(self).records(),
            final(self).idle_order() == old(self).idle_order(),
            consumed == old(self).reservation().local_turn_owed,
            !final(self).reservation().local_turn_owed,
            final(self).reservation().state == old(self).reservation().state,
    {
        self.peer_reservation.consume_local_turn()
    }

    /// Clears fairness debt that no live local demand can consume.
    pub fn clear_unused_turn(&mut self, local_h1_demand: bool) -> (cleared: bool)
        requires
            old(self).wf(),
        ensures
            final(self).wf(),
            final(self).records() == old(self).records(),
            final(self).idle_order() == old(self).idle_order(),
            cleared == (old(self).reservation().local_turn_owed && !local_h1_demand),
            final(self).reservation().local_turn_owed == (old(self).reservation().local_turn_owed && local_h1_demand),
            final(self).reservation().state == old(self).reservation().state,
    {
        self.peer_reservation.clear_unused_turn(local_h1_demand)
    }

    /// Returns whether this cell owes its next usable sender to local demand.
    pub fn local_turn_owed(&self) -> (owed: bool)
        ensures
            owed == self.reservation().local_turn_owed,
    {
        self.peer_reservation.local_turn_owed
    }

    /// Whether the idle record `id` has a deadline at or before `now`.
    pub open spec fn idle_expired_at(&self, id: u64, now: u64) -> bool {
        idle_deadline_of(self.records()[id]) matches Some(deadline) && deadline <= now
    }

    /// Returns idle records whose configured deadline has elapsed, in return order.
    pub fn expired_idle(&self, now: u64) -> (expired: Vec<u64>)
        requires
            self.wf(),
        ensures
            expired@ == self.idle_order().filter(|id: u64| self.idle_expired_at(id, now)),
    {
        let ghost pred = |id: u64| self.idle_expired_at(id, now);
        let mut expired: Vec<u64> = Vec::new();
        let mut i: usize = 0;
        while i < self.idle_order.len()
            invariant
                self.wf(),
                i <= self.idle_order@.len(),
                expired@ == self.idle_order@.take(i as int).filter(pred),
                pred == (|id: u64| self.idle_expired_at(id, now)),
            decreases self.idle_order@.len() - i,
        {
            let id = self.idle_order[i];
            assert(self.records@.contains_key(self.idle_order@[i as int]));
            let hit = match self.records.get(&id).unwrap() {
                H1SenderResidence::Idle { deadline: Some(deadline), .. } => *deadline <= now,
                _ => false,
            };
            proof {
                assert(hit == self.idle_expired_at(id, now));
                assert(hit == pred(id));
                assert(self.idle_order@.take(i as int + 1) =~= self.idle_order@.take(i as int).push(id));
                self.idle_order@.take(i as int).lemma_filter_push(id, pred);
            }
            if hit {
                expired.push(id);
            }
            i = i + 1;
        }
        assert(self.idle_order@.take(i as int) =~= self.idle_order@);
        expired
    }

    /// Returns the nearest configured deadline among reusable senders.
    pub fn nearest_idle_deadline(&self) -> (nearest: Option<u64>)
        requires
            self.wf(),
        ensures
            match nearest {
                Some(d) => {
                    &&& exists|id: u64| #[trigger] self.idle_order().contains(id) && idle_deadline_of(self.records()[id]) == Some(d)
                    &&& forall|id: u64| #[trigger] self.idle_order().contains(id) && idle_deadline_of(self.records()[id]) is Some
                        ==> d <= idle_deadline_of(self.records()[id]).unwrap()
                },
                None => forall|id: u64| #[trigger] self.idle_order().contains(id) ==> idle_deadline_of(self.records()[id]) is None,
            },
    {
        let mut nearest: Option<u64> = None;
        let mut i: usize = 0;
        while i < self.idle_order.len()
            invariant
                self.wf(),
                i <= self.idle_order@.len(),
                match nearest {
                    Some(d) => {
                        &&& exists|j: int| 0 <= j < i && idle_deadline_of(self.records@[#[trigger] self.idle_order@[j]]) == Some(d)
                        &&& forall|j: int| 0 <= j < i && idle_deadline_of(self.records@[#[trigger] self.idle_order@[j]]) is Some
                            ==> d <= idle_deadline_of(self.records@[self.idle_order@[j]]).unwrap()
                    },
                    None => forall|j: int| 0 <= j < i ==> idle_deadline_of(self.records@[#[trigger] self.idle_order@[j]]) is None,
                },
            decreases self.idle_order@.len() - i,
        {
            let id = self.idle_order[i];
            assert(self.records@.contains_key(self.idle_order@[i as int]));
            let deadline = match self.records.get(&id).unwrap() {
                H1SenderResidence::Idle { deadline, .. } => *deadline,
                _ => None,
            };
            match deadline {
                Some(d) => {
                    let better = match nearest {
                        Some(current) => d < current,
                        None => true,
                    };
                    if better {
                        nearest = Some(d);
                    }
                },
                None => {},
            }
            i = i + 1;
        }
        proof {
            match nearest {
                Some(d) => {
                    let j = choose|j: int| 0 <= j < i && idle_deadline_of(self.records@[#[trigger] self.idle_order@[j]]) == Some(d);
                    assert(self.idle_order().contains(self.idle_order@[j]));
                    assert forall|id: u64| #[trigger] self.idle_order().contains(id) && idle_deadline_of(self.records()[id]) is Some
                        implies d <= idle_deadline_of(self.records()[id]).unwrap() by {
                        let k = choose|k: int| 0 <= k < self.idle_order@.len() && self.idle_order@[k] == id;
                    }
                },
                None => {
                    assert forall|id: u64| #[trigger] self.idle_order().contains(id) implies idle_deadline_of(self.records()[id]) is None by {
                        let k = choose|k: int| 0 <= k < self.idle_order@.len() && self.idle_order@[k] == id;
                    }
                },
            }
        }
        nearest
    }

    /// Takes the most recently returned idle sender for one request.
    pub fn select_idle(&mut self) -> (owner: Option<OwnedH1Sender<S>>)
        requires
            old(self).wf(),
        ensures
            final(self).wf(),
            idle_selected(*old(self), *final(self), owner),
    {
        self.take_newest_idle(H1SenderResidence::Selected)
    }

    /// Extracts the newest idle sender into provisional return residence.
    ///
    /// Rejection of the candidate follows the same ordinary return fallback
    /// as a sender intercepted after an active exchange.
    pub fn take_idle_candidate(&mut self) -> (owner: Option<OwnedH1Sender<S>>)
        requires
            old(self).wf(),
        ensures
            final(self).wf(),
            final(self).reservation() == old(self).reservation(),
            old(self).idle_order().len() == 0 ==> {
                &&& owner is None
                &&& final(self).records() == old(self).records()
                &&& final(self).idle_order() == old(self).idle_order()
            },
            old(self).idle_order().len() > 0 ==> {
                let id = old(self).idle_order().last();
                &&& owner matches Some(o) && {
                    &&& o.connection == id
                    &&& old(self).records()[id] == (H1SenderResidence::Idle {
                        sender: o.sender,
                        deadline: old(self).records()[id]->deadline,
                    })
                    &&& o.reused
                }
                &&& final(self).records() == old(self).records().insert(id, H1SenderResidence::ReservedForPeer)
                &&& final(self).idle_order() == old(self).idle_order().drop_last()
            },
    {
        self.take_newest_idle(H1SenderResidence::ReservedForPeer)
    }

}

} // verus!
