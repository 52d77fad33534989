use smithy_pool::connection::CloseReason;
use smithy_pool::events::LogicalCloseCause;

#[test]
fn logical_close_causes_cover_every_close_reason() {
    assert_eq!(
        [
            LogicalCloseCause::IdleTimeout,
            LogicalCloseCause::Poisoned,
            LogicalCloseCause::ProtocolEnded,
            LogicalCloseCause::ProtocolEnded,
            LogicalCloseCause::IncompleteH1Exchange,
            LogicalCloseCause::Reclaimed,
            LogicalCloseCause::PoolDropped,
            LogicalCloseCause::OwnerRuntimeShutdown,
        ],
        [
            CloseReason::IdleTimeout,
            CloseReason::Poisoned,
            CloseReason::ProtocolClosed,
            CloseReason::Upgraded,
            CloseReason::IncompleteH1Exchange,
            CloseReason::Reclaimed,
            CloseReason::PoolDropped,
            CloseReason::OwnerRuntimeShutdown,
        ]
        .map(LogicalCloseCause::from_reason)
    );
}

use smithy_pool::admission::PartitionId;
use smithy_pool::connection::ConnectionProtocol;
use smithy_pool::events::{ConnectionEstablishmentStage, ConnectionEstablishmentStats, ConnectionEvents};
use smithy_pool::origin::{OriginKey, OriginScheme};
use std::time::Duration;

const SECOND: u64 = 1_000_000_000;

fn origin() -> OriginKey {
    OriginKey::from_parts(OriginScheme::Https, "example.com".to_string(), None)
}

#[test]
fn disabled_callbacks_do_not_allocate_establishment_ids() {
    let mut events = ConnectionEvents::new(false);
    let establishment = events.establishment_started(origin(), PartitionId::from_index(1), 0);
    assert!(establishment.observation.is_none());
    establishment.superseded();

    let mut observed = ConnectionEvents::new(true);
    let first = observed.establishment_started(origin(), PartitionId::from_index(1), 0);
    assert_eq!(0, first.observation.expect("observed establishment has no identity").info.id().value());
}

#[test]
fn observed_establishments_receive_successive_identities() {
    let mut events = ConnectionEvents::new(true);
    let first = events.establishment_started(origin(), PartitionId::from_index(1), 0);
    let second = events.establishment_started(origin(), PartitionId::from_index(2), 0);
    let first = first.observation.expect("first establishment is observed");
    let second = second.observation.expect("second establishment is observed");
    assert_eq!(0, first.info.id().value());
    assert_eq!(1, second.info.id().value());
    assert_eq!(PartitionId::from_index(2), second.info.partition());
    assert_eq!("example.com", second.info.origin().host());
    assert_eq!(ConnectionEstablishmentStage::Transport, second.stage);
}

#[test]
fn failed_event_carries_recorded_stage_and_protocol() {
    let mut events = ConnectionEvents::new(true);
    let mut establishment = events.establishment_started(origin(), PartitionId::from_index(1), 0);
    establishment.transport_completed(0);
    establishment.protocol_selected(ConnectionProtocol::Http2);
    establishment.protocol_handshake_started(0);
    establishment.protocol_handshake_failed(0);

    let (stats, observation) = establishment.failed(0);
    let observation = observation.expect("observed establishment has no failure report");

    assert_eq!(0, observation.info.id().value());
    assert_eq!(ConnectionEstablishmentStage::ProtocolHandshake, observation.stage);
    assert_eq!(Some(ConnectionProtocol::Http2), observation.protocol);
    assert!(stats.protocol_handshake_duration().is_some());
}

#[test]
fn establishment_stats_measure_recorded_phases() {
    let mut events = ConnectionEvents::new(true);
    let mut establishment = events.establishment_started(origin(), PartitionId::from_index(1), 0);

    establishment.transport_completed(2 * SECOND);
    establishment.protocol_selected(ConnectionProtocol::Http2);
    establishment.protocol_handshake_started(2 * SECOND);
    establishment.protocol_handshake_completed(5 * SECOND);
    let (stats, _) = establishment.failed(7 * SECOND);

    assert_eq!(stats.total_duration(), Duration::from_secs(7));
    assert_eq!(stats.transport_duration(), Duration::from_secs(2));
    assert_eq!(stats.protocol_handshake_duration(), Some(Duration::from_secs(3)));
    let metadata = stats.connection_metadata();
    assert_eq!(metadata.total_duration(), Duration::from_secs(7));
    assert_eq!(metadata.transport_duration(), Duration::from_secs(2));
    assert_eq!(metadata.protocol_handshake_duration(), Some(Duration::from_secs(3)));
}

#[test]
fn installed_measurements_are_frozen_for_the_opened_report() {
    let mut events = ConnectionEvents::new(true);
    let mut establishment = events.establishment_started(origin(), PartitionId::from_index(1), SECOND);
    establishment.transport_completed(3 * SECOND);
    let installed = establishment.installed(4 * SECOND);
    let (opened, observation) = establishment.opened(9 * SECOND);
    assert_eq!(installed, opened);
    assert_eq!(Duration::from_secs(3), opened.total_duration());
    assert_eq!(Duration::from_secs(2), opened.transport_duration());
    assert_eq!(None, opened.protocol_handshake_duration());
    assert_eq!(ConnectionEstablishmentStage::ProtocolSelection, observation.expect("observed").stage);
}

#[test]
fn an_unfinished_transport_counts_the_whole_establishment() {
    let stats = ConnectionEstablishmentStats::from_nanos(5, 5, None);
    let mut events = ConnectionEvents::new(false);
    let establishment = events.establishment_started(origin(), PartitionId::from_index(1), 10);
    let (measured, observation) = establishment.failed(15);
    assert!(observation.is_none());
    assert_eq!(stats, measured);
    assert_eq!(Duration::from_nanos(5), measured.transport_duration());
}
