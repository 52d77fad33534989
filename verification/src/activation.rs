//! Prospective HTTP/2 request authority.
//!
//! An activation leaves the connection cell with one counted prospective
//! request on an exact generation. Taking its dispatch parts transfers the
//! sender once. Acceptance after dispatch, or cancellation at any point,
//! ends the activation and names the generation whose count it settles and
//! the activation-gate turn it releases.

use crate::admission::PartitionId;
use crate::cell::H2Grant;
use crate::h2::{H2ActivationResources, H2RouteId};
use crate::h2_request::H2ActivationTurnGuard;
use crate::ids::H2GenerationId;
use crate::waiters::WaiterId;
use vstd::prelude::*;

verus! {

/// Where an activation's resources are.
pub enum H2ActivationStage<S> {
    /// The sender and connection have not been handed to a dispatch.
    Ready(H2ActivationResources<S>),
    /// The sender went to one dispatch attempt on this connection.
    Dispatched { connection: u64 },
}

/// Prospective request authority for one exact generation.
pub struct H2Activation<S> {
    /// Exact generation that owns the prospective count.
    pub generation: H2GenerationId,
    /// Partition of the connection-owning cell.
    pub connection_partition: PartitionId,
    /// Partition issuing the request.
    pub request_partition: PartitionId,
    /// Pre-dispatch resources or post-transfer identity.
    pub stage: H2ActivationStage<S>,
    /// Gate turn released at acceptance or cancellation.
    pub turn: Option<H2ActivationTurnGuard>,
}

/// The connection an activation stage refers to.
pub open spec fn stage_connection<S>(stage: H2ActivationStage<S>) -> u64 {
    match stage {
        H2ActivationStage::Ready(resources) => resources.connection,
        H2ActivationStage::Dispatched { connection } => connection,
    }
}

impl<S> H2Activation<S> {
    /// Builds the activation of one granted prospective request.
    pub fn new(grant: H2Grant<S>, request_partition: PartitionId) -> (activation: Self)
        ensures
            activation.generation == grant.generation,
            activation.connection_partition == grant.connection_partition,
            activation.request_partition == request_partition,
            activation.stage == H2ActivationStage::Ready(grant.resources),
            activation.turn == grant.turn,
    {
        let H2Grant { generation, connection_partition, resources, turn } = grant;
        H2Activation {
            generation,
            connection_partition,
            request_partition,
            stage: H2ActivationStage::Ready(resources),
            turn,
        }
    }

    /// Returns the exact selected generation.
    pub fn generation(&self) -> (generation: H2GenerationId)
        ensures
            generation == self.generation,
    {
        self.generation
    }

    /// Returns whether an earlier request was accepted on the generation.
    pub fn is_reused(&self) -> (reused: bool)
        requires
            self.stage is Ready,
        ensures
            reused == self.stage->Ready_0.reused,
    {
        match &self.stage {
            H2ActivationStage::Ready(resources) => resources.reused,
            H2ActivationStage::Dispatched { .. } => false,
        }
    }

    /// Returns the connection that owns the generation.
    pub fn connection(&self) -> (connection: u64)
        ensures
            connection == stage_connection(self.stage),
    {
        match &self.stage {
            H2ActivationStage::Ready(resources) => resources.connection,
            H2ActivationStage::Dispatched { connection } => *connection,
        }
    }

    /// Transfers the sender into one dispatch attempt; the parts of an
    /// activation can be taken once, and a second take returns `None` and
    /// changes nothing.
    pub fn take_dispatch_parts(&mut self) -> (sender: Option<S>)
        ensures
            final(self).generation == old(self).generation,
            final(self).connection_partition == old(self).connection_partition,
            final(self).request_partition == old(self).request_partition,
            final(self).turn == old(self).turn,
            match old(self).stage {
                H2ActivationStage::Ready(resources) => {
                    &&& sender == Some(resources.sender)
                    &&& final(self).stage == (H2ActivationStage::<S>::Dispatched { connection: resources.connection })
                },
                H2ActivationStage::Dispatched { .. } => sender is None && final(self).stage == old(self).stage,
            },
    {
        let connection = self.connection();
        let mut stage = H2ActivationStage::Dispatched { connection };
        std::mem::swap(&mut stage, &mut self.stage);
        match stage {
            H2ActivationStage::Ready(resources) => Some(resources.sender),
            H2ActivationStage::Dispatched { connection } => {
                self.stage = H2ActivationStage::Dispatched { connection };
                None
            },
        }
    }

    /// Retains a requesting-cell route turn until acceptance or cancellation.
    pub fn attach_peer_turn(&mut self, route: H2RouteId, waiter: WaiterId)
        requires
            old(self).turn is None,
        ensures
            final(self).turn == Some(H2ActivationTurnGuard::peer_spec(route, waiter)),
            final(self).generation == old(self).generation,
            final(self).connection_partition == old(self).connection_partition,
            final(self).request_partition == old(self).request_partition,
            final(self).stage == old(self).stage,
    {
        self.turn = Some(H2ActivationTurnGuard::peer(route, waiter));
    }

    /// Ends the activation after the protocol accepted its request: the
    /// prospective count of the returned generation becomes an accepted
    /// request, and the returned turn is released.
    pub fn accept(self) -> (settled: (H2GenerationId, Option<H2ActivationTurnGuard>))
        requires
            self.stage is Dispatched,
        ensures
            settled == (self.generation, self.turn),
    {
        (self.generation, self.turn)
    }

    /// Ends the activation without acceptance: the prospective count of the
    /// returned generation is cancelled and the returned turn is released.
    pub fn cancel(self) -> (settled: (H2GenerationId, Option<H2ActivationTurnGuard>))
        ensures
            settled == (self.generation, self.turn),
    {
        (self.generation, self.turn)
    }
}

} // verus!
