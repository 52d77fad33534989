//! Connection establishment and installed-lifetime observations.
//!
//! One observed establishment ends either failed or opened. An opened
//! connection is then logically closed before it is physically closed. The
//! establishment records the stage it reached and the time spent in each
//! phase; times are nanoseconds on the pool's clock.

use crate::admission::PartitionId;
use crate::connection::{CloseReason, ConnectionProtocol};
use crate::origin::OriginKey;
use aws_smithy_runtime_api::client::connection::ConnectionEstablishmentMetadata;
use std::time::Duration;
use vstd::prelude::*;

verus! {

/// Stable cause recorded when pool dispatch ownership ends.
///
/// The later physical close may carry a more specific [`CloseReason`].
#[derive(Clone, Copy, Debug, PartialEq, Eq, Structural)]
pub enum LogicalCloseCause {
    /// The connection exceeded its configured idle timeout.
    IdleTimeout,
    /// The connection was explicitly marked unsafe for reuse.
    Poisoned,
    /// The protocol's dispatch ownership ended.
    ProtocolEnded,
    /// HTTP/1 did not prove a complete reusable message boundary.
    IncompleteH1Exchange,
    /// The connection closed to move bounded capacity to another cell.
    Reclaimed,
    /// The connection pool was dropped.
    PoolDropped,
    /// The runtime driving the connection shut down.
    OwnerRuntimeShutdown,
}

/// The stable logical cause of a close classification.
pub open spec fn cause_of(reason: CloseReason) -> LogicalCloseCause {
    match reason {
        CloseReason::IdleTimeout => LogicalCloseCause::IdleTimeout,
        CloseReason::Poisoned => LogicalCloseCause::Poisoned,
        CloseReason::ProtocolClosed => LogicalCloseCause::ProtocolEnded,
        CloseReason::Upgraded => LogicalCloseCause::ProtocolEnded,
        CloseReason::IncompleteH1Exchange => LogicalCloseCause::IncompleteH1Exchange,
        CloseReason::Reclaimed => LogicalCloseCause::Reclaimed,
        CloseReason::PoolDropped => LogicalCloseCause::PoolDropped,
        CloseReason::OwnerRuntimeShutdown => LogicalCloseCause::OwnerRuntimeShutdown,
    }
}

impl LogicalCloseCause {
    /// Maps the first close classification to its stable logical cause.
    pub fn from_reason(reason: CloseReason) -> (cause: Self)
        ensures
            cause == cause_of(reason),
    {
        match reason {
            CloseReason::IdleTimeout => LogicalCloseCause::IdleTimeout,
            CloseReason::Poisoned => LogicalCloseCause::Poisoned,
            CloseReason::ProtocolClosed => LogicalCloseCause::ProtocolEnded,
            CloseReason::Upgraded => LogicalCloseCause::ProtocolEnded,
            CloseReason::IncompleteH1Exchange => LogicalCloseCause::IncompleteH1Exchange,
            CloseReason::Reclaimed => LogicalCloseCause::Reclaimed,
            CloseReason::PoolDropped => LogicalCloseCause::PoolDropped,
            CloseReason::OwnerRuntimeShutdown => LogicalCloseCause::OwnerRuntimeShutdown,
        }
    }
}

/// Every logical cause is the cause of some close reason, and only the two
/// ways a protocol's dispatch ends share one.
pub proof fn lemma_causes_cover_reasons(cause: LogicalCloseCause, a: CloseReason, b: CloseReason)
    ensures
        exists|reason: CloseReason| cause_of(reason) == cause,
        cause_of(a) == cause_of(b) ==> a == b || ({
            &&& (a == CloseReason::ProtocolClosed || a == CloseReason::Upgraded)
            &&& (b == CloseReason::ProtocolClosed || b == CloseReason::Upgraded)
        }),
{
    let witness = match cause {
        LogicalCloseCause::IdleTimeout => CloseReason::IdleTimeout,
        LogicalCloseCause::Poisoned => CloseReason::Poisoned,
        LogicalCloseCause::ProtocolEnded => CloseReason::ProtocolClosed,
        LogicalCloseCause::IncompleteH1Exchange => CloseReason::IncompleteH1Exchange,
        LogicalCloseCause::Reclaimed => CloseReason::Reclaimed,
        LogicalCloseCause::PoolDropped => CloseReason::PoolDropped,
        LogicalCloseCause::OwnerRuntimeShutdown => CloseReason::OwnerRuntimeShutdown,
    };
    assert(cause_of(witness) == cause);
}

/// Opaque identity for one connection establishment.
///
/// Identities are unique within their assigning pool; a retry that starts
/// another establishment receives another identity.
#[derive(Clone, Copy, Debug, PartialEq, Eq, Structural, Hash)]
pub struct ConnectionEstablishmentId(u64);

impl ConnectionEstablishmentId {
    /// The identity's value.
    pub closed spec fn spec_value(&self) -> u64 {
        self.0
    }

    /// Returns the identity's value, for display.
    pub fn value(&self) -> (value: u64)
        ensures
            value == self.spec_value(),
    {
        self.0
    }
}

/// Stable identity and routing context for one pool-level establishment.
#[derive(Debug)]
pub struct ConnectionEstablishmentInfo {
    id: ConnectionEstablishmentId,
    origin: OriginKey,
    partition: PartitionId,
}

impl ConnectionEstablishmentInfo {
    /// The establishment's identity.
    pub closed spec fn spec_id(&self) -> ConnectionEstablishmentId {
        self.id
    }

    /// The partition that owns the establishment task.
    pub closed spec fn spec_partition(&self) -> PartitionId {
        self.partition
    }

    /// The origin being connected.
    pub closed spec fn spec_origin(&self) -> OriginKey {
        self.origin
    }

    /// Returns this establishment's pool-assigned identity.
    pub fn id(&self) -> (id: ConnectionEstablishmentId)
        ensures
            id == self.spec_id(),
    {
        self.id
    }

    /// Returns the canonical origin being connected.
    pub fn origin(&self) -> (origin: &OriginKey)
        ensures
            *origin == self.spec_origin(),
    {
        &self.origin
    }

    /// Returns the partition that owns the establishment task.
    pub fn partition(&self) -> (partition: PartitionId)
        ensures
            partition == self.spec_partition(),
    {
        self.partition
    }
}

/// The duration of `nanos` nanoseconds, as `Duration::from_nanos` builds it.
pub uninterp spec fn nanos_duration(nanos: u64) -> Duration;

/// Calls `std::time::Duration::from_nanos`; the result is the duration of
/// exactly `nanos` nanoseconds, which is all this contract names.
#[verifier::external_body]
fn duration_from_nanos(nanos: u64) -> (duration: Duration)
    ensures
        duration == nanos_duration(nanos),
{
    Duration::from_nanos(nanos)
}

/// Establishment metadata as the runtime API's builder makes it from these
/// durations, in nanoseconds.
pub uninterp spec fn establishment_metadata(
    total_nanos: u64,
    transport_nanos: u64,
    protocol_handshake_nanos: Option<u64>,
) -> ConnectionEstablishmentMetadata;

/// The runtime API's establishment metadata, an opaque value here.
#[verifier::external_type_specification]
#[verifier::external_body]
pub struct ExConnectionEstablishmentMetadata(ConnectionEstablishmentMetadata);

/// Builds `ConnectionEstablishmentMetadata` with
/// `ConnectionEstablishmentMetadataBuilder`: total and transport durations
/// set, the protocol handshake duration set or left unset. The builder's
/// `build` panics only when total or transport is unset, which cannot happen
/// here. The contract names the result as a function of the three durations;
/// what the metadata's getters return is not stated.
#[verifier::external_body]
fn build_establishment_metadata(
    total_nanos: u64,
    transport_nanos: u64,
    protocol_handshake_nanos: Option<u64>,
) -> (metadata: ConnectionEstablishmentMetadata)
    ensures
        metadata == establishment_metadata(total_nanos, transport_nanos, protocol_handshake_nanos),
{
    let mut builder = ConnectionEstablishmentMetadata::builder()
        .total_duration(Duration::from_nanos(total_nanos))
        .transport_duration(Duration::from_nanos(transport_nanos));
    builder.set_protocol_handshake_duration(protocol_handshake_nanos.map(Duration::from_nanos));
    builder.build()
}

/// Measurements collected during one pool-level connection establishment.
#[derive(Clone, Copy, Debug, PartialEq, Eq, Structural)]
pub struct ConnectionEstablishmentStats {
    total_nanos: u64,
    transport_nanos: u64,
    protocol_handshake_nanos: Option<u64>,
}

impl ConnectionEstablishmentStats {
    /// Elapsed time through installation or terminal failure.
    pub closed spec fn spec_total(&self) -> u64 {
        self.total_nanos
    }

    /// Time spent in the transport connector.
    pub closed spec fn spec_transport(&self) -> u64 {
        self.transport_nanos
    }

    /// Time spent in the protocol handshake, when it started.
    pub closed spec fn spec_protocol_handshake(&self) -> Option<u64> {
        self.protocol_handshake_nanos
    }

    /// Creates measurements from their durations in nanoseconds.
    pub fn from_nanos(total_nanos: u64, transport_nanos: u64, protocol_handshake_nanos: Option<u64>) -> (stats: Self)
        ensures
            stats.spec_total() == total_nanos,
            stats.spec_transport() == transport_nanos,
            stats.spec_protocol_handshake() == protocol_handshake_nanos,
    {
        ConnectionEstablishmentStats { total_nanos, transport_nanos, protocol_handshake_nanos }
    }

    /// Returns elapsed time through successful protocol installation or
    /// terminal failure.
    pub fn total_duration(&self) -> (duration: Duration)
        ensures
            duration == nanos_duration(self.spec_total()),
    {
        duration_from_nanos(self.total_nanos)
    }

    /// Returns elapsed time spent in the configured transport connector.
    pub fn transport_duration(&self) -> (duration: Duration)
        ensures
            duration == nanos_duration(self.spec_transport()),
    {
        duration_from_nanos(self.transport_nanos)
    }

    /// Returns elapsed time spent in the protocol handshake, when started.
    pub fn protocol_handshake_duration(&self) -> (duration: Option<Duration>)
        ensures
            duration == match self.spec_protocol_handshake() {
                Some(nanos) => Some(nanos_duration(nanos)),
                None => None,
            },
    {
        match self.protocol_handshake_nanos {
            Some(nanos) => Some(duration_from_nanos(nanos)),
            None => None,
        }
    }

    /// Builds the runtime API's establishment metadata from these measurements.
    pub fn connection_metadata(&self) -> (metadata: ConnectionEstablishmentMetadata)
        ensures
            metadata == establishment_metadata(self.spec_total(), self.spec_transport(), self.spec_protocol_handshake()),
    {
        build_establishment_metadata(self.total_nanos, self.transport_nanos, self.protocol_handshake_nanos)
    }
}

/// Stage that terminated one failed connection establishment.
#[derive(Clone, Copy, Debug, PartialEq, Eq, Structural)]
pub enum ConnectionEstablishmentStage {
    /// Work performed by the configured transport connector.
    Transport,
    /// Selection of an HTTP protocol compatible with the request.
    ProtocolSelection,
    /// The HTTP/1 or HTTP/2 client handshake.
    ProtocolHandshake,
    /// Transfer of a handshaken connection into pool-owned protocol state.
    PoolInstallation,
}

/// Elapsed nanoseconds from `started_at` to `now`; zero if the clock went back.
pub open spec fn elapsed(now: u64, started_at: u64) -> u64 {
    if now >= started_at { (now - started_at) as u64 } else { 0 }
}

/// Timing collected for every connection establishment.
#[derive(Clone, Copy, Debug, PartialEq, Eq, Structural)]
pub struct EstablishmentTiming {
    /// When the establishment started.
    pub started_at: u64,
    /// When the protocol handshake started, while it runs.
    pub protocol_handshake_started_at: Option<u64>,
    /// Time spent in the transport connector, once it completed.
    pub transport_duration: Option<u64>,
    /// Time spent in the protocol handshake, once it ended.
    pub protocol_handshake_duration: Option<u64>,
}

/// The measurements of `timing` taken at `now`.
pub open spec fn timing_stats(timing: EstablishmentTiming, now: u64) -> (u64, u64, Option<u64>) {
    let total = elapsed(now, timing.started_at);
    (
        total,
        match timing.transport_duration {
            Some(d) => d,
            None => total,
        },
        match timing.protocol_handshake_duration {
            Some(d) => Some(d),
            None => match timing.protocol_handshake_started_at {
                Some(started) => Some(elapsed(now, started)),
                None => None,
            },
        },
    )
}

/// Elapsed nanoseconds from `started_at` to `now`.
fn elapsed_since(now: u64, started_at: u64) -> (nanos: u64)
    ensures
        nanos == elapsed(now, started_at),
{
    if now >= started_at { now - started_at } else { 0 }
}

impl EstablishmentTiming {
    /// Starts timing at `now`.
    pub fn start(now: u64) -> (timing: Self)
        ensures
            timing == (EstablishmentTiming {
                started_at: now,
                protocol_handshake_started_at: None,
                transport_duration: None,
                protocol_handshake_duration: None,
            }),
    {
        EstablishmentTiming {
            started_at: now,
            protocol_handshake_started_at: None,
            transport_duration: None,
            protocol_handshake_duration: None,
        }
    }

    /// Returns the measurements taken at `now`.
    ///
    /// A phase that has not ended is measured up to `now`; a transport that
    /// never completed counts the whole establishment.
    pub fn stats(&self, now: u64) -> (stats: ConnectionEstablishmentStats)
        ensures
            (stats.spec_total(), stats.spec_transport(), stats.spec_protocol_handshake()) == timing_stats(*self, now),
    {
        let total = elapsed_since(now, self.started_at);
        let transport = match self.transport_duration {
            Some(d) => d,
            None => total,
        };
        let handshake = match self.protocol_handshake_duration {
            Some(d) => Some(d),
            None => match self.protocol_handshake_started_at {
                Some(started) => Some(elapsed_since(now, started)),
                None => None,
            },
        };
        ConnectionEstablishmentStats::from_nanos(total, transport, handshake)
    }

    /// Ends a running protocol handshake at `now` and records its duration.
    pub fn finish_protocol_handshake(&mut self, now: u64)
        ensures
            *final(self) == (EstablishmentTiming {
                protocol_handshake_started_at: None,
                protocol_handshake_duration: match old(self).protocol_handshake_started_at {
                    Some(started) => Some(elapsed(now, started)),
                    None => None,
                },
                ..*old(self)
            }),
    {
        self.protocol_handshake_duration = match self.protocol_handshake_started_at {
            Some(started) => Some(elapsed_since(now, started)),
            None => None,
        };
        self.protocol_handshake_started_at = None;
    }
}

/// Callback state retained only when a listener is configured.
#[derive(Debug)]
pub struct EstablishmentObservation {
    /// Identity and routing context reported to the listener.
    pub info: ConnectionEstablishmentInfo,
    /// Stage the establishment reached.
    pub stage: ConnectionEstablishmentStage,
    /// Protocol selected, once selection completed.
    pub protocol: Option<ConnectionProtocol>,
}

/// Measurements and optional callback state of one establishment.
#[derive(Debug)]
pub struct ConnectionEstablishment {
    /// Timing collected for every establishment.
    pub timing: EstablishmentTiming,
    /// Callback state, when a listener observes the pool.
    pub observation: Option<EstablishmentObservation>,
    /// Measurements frozen at installation.
    pub successful_stats: Option<ConnectionEstablishmentStats>,
}

/// The observation after reaching `stage`, if there is one.
pub open spec fn at_stage(
    observation: Option<EstablishmentObservation>,
    stage: ConnectionEstablishmentStage,
) -> Option<EstablishmentObservation> {
    match observation {
        Some(o) => Some(EstablishmentObservation { stage, ..o }),
        None => None,
    }
}

impl ConnectionEstablishment {
    /// Records completion of the transport stage at `now`.
    pub fn transport_completed(&mut self, now: u64)
        ensures
            final(self).timing == (EstablishmentTiming {
                transport_duration: Some(elapsed(now, old(self).timing.started_at)),
                ..old(self).timing
            }),
            final(self).observation == at_stage(old(self).observation, ConnectionEstablishmentStage::ProtocolSelection),
            final(self).successful_stats == old(self).successful_stats,
    {
        self.timing.transport_duration = Some(elapsed_since(now, self.timing.started_at));
        self.set_stage(ConnectionEstablishmentStage::ProtocolSelection);
    }

    /// Records the protocol selected from connector metadata.
    pub fn protocol_selected(&mut self, protocol: ConnectionProtocol)
        ensures
            final(self).timing == old(self).timing,
            final(self).successful_stats == old(self).successful_stats,
            final(self).observation == match old(self).observation {
                Some(o) => Some(EstablishmentObservation { protocol: Some(protocol), ..o }),
                None => None,
            },
    {
        let observation = self.observation.take();
        self.observation = match observation {
            Some(o) => Some(EstablishmentObservation { protocol: Some(protocol), ..o }),
            None => None,
        };
    }

    /// Records entry into the protocol handshake at `now`.
    pub fn protocol_handshake_started(&mut self, now: u64)
        ensures
            final(self).timing == (EstablishmentTiming { protocol_handshake_started_at: Some(now), ..old(self).timing }),
            final(self).observation == at_stage(old(self).observation, ConnectionEstablishmentStage::ProtocolHandshake),
            final(self).successful_stats == old(self).successful_stats,
    {
        self.timing.protocol_handshake_started_at = Some(now);
        self.set_stage(ConnectionEstablishmentStage::ProtocolHandshake);
    }

    /// Records a failed protocol handshake at `now`, before the terminal event.
    pub fn protocol_handshake_failed(&mut self, now: u64)
        ensures
            final(self).timing == (EstablishmentTiming {
                protocol_handshake_started_at: None,
                protocol_handshake_duration: match old(self).timing.protocol_handshake_started_at {
                    Some(started) => Some(elapsed(now, started)),
                    None => None,
                },
                ..old(self).timing
            }),
            final(self).observation == old(self).observation,
            final(self).successful_stats == old(self).successful_stats,
    {
        self.timing.finish_protocol_handshake(now);
    }

    /// Records a successful protocol handshake at `now`, before installation.
    pub fn protocol_handshake_completed(&mut self, now: u64)
        ensures
            final(self).timing == (EstablishmentTiming {
                protocol_handshake_started_at: None,
                protocol_handshake_duration: match old(self).timing.protocol_handshake_started_at {
                    Some(started) => Some(elapsed(now, started)),
                    None => None,
                },
                ..old(self).timing
            }),
            final(self).observation == at_stage(old(self).observation, ConnectionEstablishmentStage::PoolInstallation),
            final(self).successful_stats == old(self).successful_stats,
    {
        self.timing.finish_protocol_handshake(now);
        self.set_stage(ConnectionEstablishmentStage::PoolInstallation);
    }

    /// Freezes the successful measurements at `now`, before the connection
    /// becomes visible; returns them.
    pub fn installed(&mut self, now: u64) -> (stats: ConnectionEstablishmentStats)
        requires
            old(self).successful_stats is None,
        ensures
            (stats.spec_total(), stats.spec_transport(), stats.spec_protocol_handshake())
                == timing_stats(old(self).timing, now),
            final(self).successful_stats == Some(stats),
            final(self).timing == old(self).timing,
            final(self).observation == old(self).observation,
    {
        let stats = self.timing.stats(now);
        self.successful_stats = Some(stats);
        stats
    }

    /// Ends the establishment as failed at `now`; returns its measurements
    /// and the observation the failure is reported to, if any.
    pub fn failed(self, now: u64) -> (ended: (ConnectionEstablishmentStats, Option<EstablishmentObservation>))
        ensures
            (ended.0.spec_total(), ended.0.spec_transport(), ended.0.spec_protocol_handshake())
                == timing_stats(self.timing, now),
            ended.1 == self.observation,
    {
        (self.timing.stats(now), self.observation)
    }

    /// Ends the establishment as opened at `now`; returns the measurements
    /// frozen at installation, or taken now, and the observation the opening
    /// is reported to, if any.
    pub fn opened(self, now: u64) -> (ended: (ConnectionEstablishmentStats, Option<EstablishmentObservation>))
        ensures
            match self.successful_stats {
                Some(stats) => ended.0 == stats,
                None => (ended.0.spec_total(), ended.0.spec_transport(), ended.0.spec_protocol_handshake())
                    == timing_stats(self.timing, now),
            },
            ended.1 == self.observation,
    {
        let stats = match self.successful_stats {
            Some(stats) => stats,
            None => self.timing.stats(now),
        };
        (stats, self.observation)
    }

    /// Ends an establishment whose transport lost to existing HTTP/2 supply;
    /// no event is reported.
    pub fn superseded(self) {
    }

    fn set_stage(&mut self, stage: ConnectionEstablishmentStage)
        ensures
            final(self).timing == old(self).timing,
            final(self).successful_stats == old(self).successful_stats,
            final(self).observation == at_stage(old(self).observation, stage),
    {
        let observation = self.observation.take();
        self.observation = match observation {
            Some(o) => Some(EstablishmentObservation { stage, ..o }),
            None => None,
        };
    }
}

/// Pool-owned source of establishment identities and timing.
#[derive(Debug)]
pub struct ConnectionEvents {
    /// Whether a listener observes this pool.
    listener: bool,
    /// Next establishment identity handed out.
    next_establishment_id: u64,
}

impl ConnectionEvents {
    /// Whether a listener observes the pool.
    pub closed spec fn has_listener(&self) -> bool {
        self.listener
    }

    /// The next identity handed to an observed establishment.
    pub closed spec fn next_id(&self) -> u64 {
        self.next_establishment_id
    }

    /// Creates the event source of one pool.
    pub fn new(listener: bool) -> (events: Self)
        ensures
            events.has_listener() == listener,
            events.next_id() == 0,
    {
        ConnectionEvents { listener, next_establishment_id: 0 }
    }

    /// Records the start of one establishment at `now`.
    ///
    /// Only an observed pool allocates an identity; identities wrap after
    /// the last one.
    pub fn establishment_started(&mut self, origin: OriginKey, partition: PartitionId, now: u64) -> (establishment:
        ConnectionEstablishment)
        ensures
            final(self).has_listener() == old(self).has_listener(),
            establishment.timing == EstablishmentTiming::start_spec(now),
            establishment.successful_stats is None,
            old(self).has_listener() ==> {
                &&& final(self).next_id() == (if old(self).next_id() == u64::MAX { 0 } else { (old(self).next_id() + 1) as u64 })
                &&& establishment.observation matches Some(o) && {
                    &&& o.info.spec_id().spec_value() == old(self).next_id()
                    &&& o.info.spec_partition() == partition
                    &&& o.stage == ConnectionEstablishmentStage::Transport
                    &&& o.protocol is None
                }
            },
            !old(self).has_listener() ==> final(self).next_id() == old(self).next_id() && establishment.observation is None,
    {
        let observation = if self.listener {
            let id = ConnectionEstablishmentId(self.next_establishment_id);
            self.next_establishment_id = if self.next_establishment_id == u64::MAX {
                0
            } else {
                self.next_establishment_id + 1
            };
            Some(EstablishmentObservation {
                info: ConnectionEstablishmentInfo { id, origin, partition },
                stage: ConnectionEstablishmentStage::Transport,
                protocol: None,
            })
        } else {
            None
        };
        ConnectionEstablishment { timing: EstablishmentTiming::start(now), observation, successful_stats: None }
    }
}

impl EstablishmentTiming {
    /// Timing started at `now`.
    pub open spec fn start_spec(now: u64) -> Self {
        EstablishmentTiming {
            started_at: now,
            protocol_handshake_started_at: None,
            transport_duration: None,
            protocol_handshake_duration: None,
        }
    }
}

} // verus!
