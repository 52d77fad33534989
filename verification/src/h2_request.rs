//! Two-sided completion of one HTTP/2 request.
//!
//! An activation reserves one prospective request on an exact generation.
//! Acceptance converts that reservation into an accepted request whose upload
//! and response sides finish independently, in either order. The generation's
//! request count is released exactly once: when the request is accepted and
//! both sides have finished. Cancelling a prospective request completes it
//! without a release, because the prospective count is returned separately.

use crate::h2::H2RouteId;
use crate::ids::H2GenerationId;
use crate::waiters::WaiterId;
use vstd::prelude::*;

verus! {

/// Request phase and independent side-completion bits.
#[derive(Debug)]
pub enum H2RequestClaimState<D> {
    /// The generation count is reserved before the request is accepted.
    Prospective { upload_finished: bool, response_finished: bool },
    /// The request was accepted and its dispatch guard is retained.
    Accepted { dispatch: D, upload_finished: bool, response_finished: bool },
    /// Both sides finished, or the prospective request was cancelled.
    Complete,
}

/// Abstract phase of a claim.
#[derive(Clone, Copy, Debug, PartialEq, Eq, Structural)]
pub enum ClaimPhase {
    Prospective,
    Accepted,
    Complete,
}

/// Abstract state of a claim: its phase and which sides finished.
pub struct ClaimView {
    pub phase: ClaimPhase,
    pub upload_finished: bool,
    pub response_finished: bool,
}

/// One event that reaches a claim.
#[derive(Clone, Copy, Debug, PartialEq, Eq, Structural)]
pub enum ClaimEvent {
    /// The request was accepted.
    Accept,
    /// The request upload finished or was dropped.
    FinishUpload,
    /// The response future or body finished or was dropped.
    FinishResponse,
}

/// The abstract state of a claim state.
pub open spec fn claim_view<D>(state: H2RequestClaimState<D>) -> ClaimView {
    match state {
        H2RequestClaimState::Prospective { upload_finished, response_finished } => ClaimView {
            phase: ClaimPhase::Prospective,
            upload_finished,
            response_finished,
        },
        H2RequestClaimState::Accepted { upload_finished, response_finished, .. } => ClaimView {
            phase: ClaimPhase::Accepted,
            upload_finished,
            response_finished,
        },
        H2RequestClaimState::Complete => ClaimView {
            phase: ClaimPhase::Complete,
            upload_finished: true,
            response_finished: true,
        },
    }
}

/// The claim after one finishing side, and whether that side completed the
/// accepted request.
pub open spec fn claim_finish(view: ClaimView, upload: bool) -> (ClaimView, bool) {
    let upload_finished = view.upload_finished || upload;
    let response_finished = view.response_finished || !upload;
    match view.phase {
        ClaimPhase::Prospective => (ClaimView { upload_finished, response_finished, ..view }, false),
        ClaimPhase::Accepted => if upload_finished && response_finished {
            (ClaimView { phase: ClaimPhase::Complete, upload_finished: true, response_finished: true }, true)
        } else {
            (ClaimView { upload_finished, response_finished, ..view }, false)
        },
        ClaimPhase::Complete => (view, false),
    }
}

/// The claim after acceptance, and whether acceptance completed the request
/// because both sides had already finished.
pub open spec fn claim_accept(view: ClaimView) -> (ClaimView, bool) {
    if view.upload_finished && view.response_finished {
        (ClaimView { phase: ClaimPhase::Complete, upload_finished: true, response_finished: true }, true)
    } else {
        (ClaimView { phase: ClaimPhase::Accepted, ..view }, false)
    }
}

/// The claim after one event, and whether the event released the generation.
/// Acceptance outside the prospective phase is not an event a claim receives.
pub open spec fn claim_step(view: ClaimView, event: ClaimEvent) -> (ClaimView, bool) {
    match event {
        ClaimEvent::Accept => claim_accept(view),
        ClaimEvent::FinishUpload => claim_finish(view, true),
        ClaimEvent::FinishResponse => claim_finish(view, false),
    }
}

/// The claim after a sequence of events, and how many of them released the
/// generation.
pub open spec fn claim_run(view: ClaimView, events: Seq<ClaimEvent>) -> (ClaimView, nat)
    decreases events.len(),
{
    if events.len() == 0 {
        (view, 0)
    } else {
        let (next, released) = claim_step(view, events[0]);
        let (last, count) = claim_run(next, events.drop_first());
        (last, count + if released { 1nat } else { 0nat })
    }
}

/// A fresh claim: prospective with neither side finished.
pub open spec fn fresh_claim() -> ClaimView {
    ClaimView { phase: ClaimPhase::Prospective, upload_finished: false, response_finished: false }
}

/// Shared accounting for one prospective or accepted request.
#[derive(Debug)]
pub struct H2RequestClaim<D> {
    /// Exact generation whose request count this claim owns.
    pub generation: H2GenerationId,
    /// Request phase and side-completion bits.
    pub state: H2RequestClaimState<D>,
}

impl<D> H2RequestClaim<D> {
    /// Creates the claim of a freshly activated prospective request.
    pub fn new(generation: H2GenerationId) -> (claim: Self)
        ensures
            claim.generation == generation,
            claim_view(claim.state) == fresh_claim(),
    {
        H2RequestClaim {
            generation,
            state: H2RequestClaimState::Prospective { upload_finished: false, response_finished: false },
        }
    }

    /// Converts the prospective request to an accepted one.
    ///
    /// Returns the dispatch guard when both sides had already finished: the
    /// request is then complete and the caller releases the generation.
    pub fn accept(&mut self, dispatch: D) -> (completed: Option<D>)
        requires
            old(self).state is Prospective,
        ensures
            final(self).generation == old(self).generation,
            (claim_view(final(self).state), completed is Some) == claim_accept(claim_view(old(self).state)),
            completed is Some ==> completed == Some(dispatch),
            final(self).state is Accepted ==> final(self).state->dispatch == dispatch,
    {
        let (upload_finished, response_finished) = match self.state {
            H2RequestClaimState::Prospective { upload_finished, response_finished } => (upload_finished, response_finished),
            _ => (true, true),
        };
        if upload_finished && response_finished {
            self.state = H2RequestClaimState::Complete;
            Some(dispatch)
        } else {
            self.state = H2RequestClaimState::Accepted { dispatch, upload_finished, response_finished };
            None
        }
    }

    /// Completes a prospective request whose reservation was cancelled.
    pub fn cancel(&mut self)
        ensures
            final(self).generation == old(self).generation,
            old(self).state is Prospective ==> final(self).state is Complete,
            !(old(self).state is Prospective) ==> final(self).state == old(self).state,
    {
        if let H2RequestClaimState::Prospective { .. } = self.state {
            self.state = H2RequestClaimState::Complete;
        }
    }

    /// Marks the upload side finished; returns the dispatch guard when this
    /// completed the accepted request.
    pub fn finish_upload(&mut self) -> (completed: Option<D>)
        ensures
            final(self).generation == old(self).generation,
            (claim_view(final(self).state), completed is Some) == claim_finish(claim_view(old(self).state), true),
            completed is Some ==> old(self).state is Accepted && completed == Some(old(self).state->dispatch),
            final(self).state is Accepted ==> final(self).state->dispatch == old(self).state->dispatch,
    {
        self.finish_side(true)
    }

    /// Marks the response side finished; returns the dispatch guard when this
    /// completed the accepted request.
    pub fn finish_response(&mut self) -> (completed: Option<D>)
        ensures
            final(self).generation == old(self).generation,
            (claim_view(final(self).state), completed is Some) == claim_finish(claim_view(old(self).state), false),
            completed is Some ==> old(self).state is Accepted && completed == Some(old(self).state->dispatch),
            final(self).state is Accepted ==> final(self).state->dispatch == old(self).state->dispatch,
    {
        self.finish_side(false)
    }

    /// Marks one side finished and completes the request on the second side
    /// after acceptance.
    pub fn finish_side(&mut self, upload: bool) -> (completed: Option<D>)
        ensures
            final(self).generation == old(self).generation,
            (claim_view(final(self).state), completed is Some) == claim_finish(claim_view(old(self).state), upload),
            completed is Some ==> old(self).state is Accepted && completed == Some(old(self).state->dispatch),
            final(self).state is Accepted ==> final(self).state->dispatch == old(self).state->dispatch,
    {
        let mut previous = H2RequestClaimState::Complete;
        std::mem::swap(&mut previous, &mut self.state);
        match previous {
            H2RequestClaimState::Prospective { upload_finished, response_finished } => {
                self.state = H2RequestClaimState::Prospective {
                    upload_finished: upload_finished || upload,
                    response_finished: response_finished || !upload,
                };
                None
            },
            H2RequestClaimState::Accepted { dispatch, upload_finished, response_finished } => {
                let upload_finished = upload_finished || upload;
                let response_finished = response_finished || !upload;
                if upload_finished && response_finished {
                    Some(dispatch)
                } else {
                    self.state = H2RequestClaimState::Accepted { dispatch, upload_finished, response_finished };
                    None
                }
            },
            H2RequestClaimState::Complete => None,
        }
    }
}

/// Whether `events` holds each claim event exactly once.
pub open spec fn each_event_once(events: Seq<ClaimEvent>) -> bool {
    &&& events.len() == 3
    &&& events.contains(ClaimEvent::Accept)
    &&& events.contains(ClaimEvent::FinishUpload)
    &&& events.contains(ClaimEvent::FinishResponse)
}

/// Acceptance and the two finishing sides may arrive in any order: a fresh
/// claim that receives each of them once ends complete and releases its
/// generation exactly once.
pub proof fn lemma_claim_releases_once(events: Seq<ClaimEvent>)
    requires
        each_event_once(events),
    ensures
        claim_run(fresh_claim(), events).0.phase == ClaimPhase::Complete,
        claim_run(fresh_claim(), events).1 == 1,
{
    reveal_with_fuel(claim_run, 4);
    assert(events.drop_first().drop_first().drop_first().len() == 0);
    assert(events[0] != events[1] && events[1] != events[2] && events[0] != events[2]) by {
        if events[0] == events[1] || events[1] == events[2] || events[0] == events[2] {
            let missing = if !(events[0] == ClaimEvent::Accept || events[1] == ClaimEvent::Accept || events[2] == ClaimEvent::Accept) {
                ClaimEvent::Accept
            } else if !(events[0] == ClaimEvent::FinishUpload || events[1] == ClaimEvent::FinishUpload || events[2] == ClaimEvent::FinishUpload) {
                ClaimEvent::FinishUpload
            } else {
                ClaimEvent::FinishResponse
            };
            assert(events.contains(missing));
        }
    }
    assert(events.drop_first()[0] == events[1]);
    assert(events.drop_first().drop_first()[0] == events[2]);
}

/// Gate that owns one activation opportunity.
#[derive(Clone, Copy, Debug, PartialEq, Eq, Structural)]
pub enum H2ActivationGateOwner {
    /// Gate of the connection cell's local generation.
    Local { generation: H2GenerationId },
    /// Gate of a requesting cell's peer route.
    Peer { route: H2RouteId },
}

/// One activation-gate turn retained until acceptance or cancellation.
#[derive(Clone, Copy, Debug, PartialEq, Eq, Structural)]
pub struct H2ActivationTurnGuard {
    /// Waiter that received the activation opportunity.
    pub waiter: WaiterId,
    /// Local-generation or peer-route gate identity.
    pub owner: H2ActivationGateOwner,
}

impl H2ActivationTurnGuard {
    /// A turn on a peer route's gate, as a value.
    pub open spec fn peer_spec(route: H2RouteId, waiter: WaiterId) -> Self {
        H2ActivationTurnGuard { waiter, owner: H2ActivationGateOwner::Peer { route } }
    }

    /// A turn on the local generation gate.
    pub fn local(generation: H2GenerationId, waiter: WaiterId) -> (guard: Self)
        ensures
            guard == (H2ActivationTurnGuard { waiter, owner: H2ActivationGateOwner::Local { generation } }),
    {
        H2ActivationTurnGuard { waiter, owner: H2ActivationGateOwner::Local { generation } }
    }

    /// A turn on a peer route's gate.
    pub fn peer(route: H2RouteId, waiter: WaiterId) -> (guard: Self)
        ensures
            guard == (H2ActivationTurnGuard { waiter, owner: H2ActivationGateOwner::Peer { route } }),
    {
        H2ActivationTurnGuard { waiter, owner: H2ActivationGateOwner::Peer { route } }
    }
}

} // verus!
