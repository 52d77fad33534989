use smithy_pool::admission::{PartitionId, ProtocolRequirement};
use smithy_pool::client::{PartitionRegistry, PartitionState};
use smithy_pool::transport::{alpn_protocols, AlpnOffer, CachedTransportFactory, ConnectorCacheKey};
use std::cell::RefCell;

type Construction = (Option<String>, AlpnOffer);

fn recording_factory(
    log: &RefCell<Vec<Construction>>,
) -> CachedTransportFactory<impl Fn(&ConnectorCacheKey) -> u32 + '_, u32> {
    CachedTransportFactory::new(
        move |key: &ConnectorCacheKey| {
            let mut log = log.borrow_mut();
            log.push((key.interface().map(str::to_owned), key.alpn_protocols));
            log.len() as u32
        },
        true,
    )
}

fn registry(partitions: Option<Vec<PartitionState>>) -> PartitionRegistry {
    PartitionRegistry::new(partitions)
}

#[test]
fn initialization_constructs_each_alpn_variant_once() {
    let registry = registry(None);
    let partition = registry.partition(PartitionId::anonymous()).expect("anonymous partition exists");
    let log = RefCell::new(Vec::new());
    let mut factory = recording_factory(&log);

    factory.initialize_connectors_for_partition(partition);
    factory.initialize_connectors_for_partition(partition);

    let constructions = log.borrow();
    assert_eq!(2, constructions.len());
    assert_eq!(None, constructions[0].0);
    assert_eq!(AlpnOffer::Http, constructions[0].1);
    assert_eq!(AlpnOffer::Http1, constructions[1].1);
    assert_eq!(2, factory.connectors.len());
}

#[test]
fn equal_interface_bindings_share_connector_entries() {
    let first = PartitionId::from_index(1);
    let second = PartitionId::from_index(2);
    let registry = registry(Some(vec![
        PartitionState::new(first, Some("interface-a".to_string())),
        PartitionState::new(second, Some("interface-a".to_string())),
    ]));
    let log = RefCell::new(Vec::new());
    let mut factory = recording_factory(&log);

    factory.initialize_connectors_for_partition(registry.partition(first).expect("first partition exists"));
    factory.initialize_connectors_for_partition(registry.partition(second).expect("second partition exists"));

    assert_eq!(2, log.borrow().len());
    assert_eq!(2, factory.connectors.len());
}

#[test]
fn distinct_interface_bindings_use_distinct_connector_entries() {
    let first = PartitionId::from_index(1);
    let second = PartitionId::from_index(2);
    let registry = registry(Some(vec![
        PartitionState::new(first, Some("interface-a".to_string())),
        PartitionState::new(second, Some("interface-b".to_string())),
    ]));
    let log = RefCell::new(Vec::new());
    let mut factory = recording_factory(&log);

    factory.initialize_connectors_for_partition(registry.partition(first).expect("first partition exists"));
    factory.initialize_connectors_for_partition(registry.partition(second).expect("second partition exists"));

    assert_eq!(4, log.borrow().len());
    assert_eq!(4, factory.connectors.len());
}

#[test]
fn connector_lookup_returns_the_retained_service() {
    let log = RefCell::new(Vec::new());
    let mut factory = recording_factory(&log);
    let interface = Some("eth0".to_string());
    let first = factory.connector(&interface, AlpnOffer::Http1);
    let again = factory.connector(&interface, AlpnOffer::Http1);
    let other = factory.connector(&None, AlpnOffer::Http1);
    assert_eq!(1, first);
    assert_eq!(first, again);
    assert_eq!(2, other);
    assert_eq!(vec![(Some("eth0".to_string()), AlpnOffer::Http1), (None, AlpnOffer::Http1)], *log.borrow());
    assert!(factory.can_guarantee_http1());
}

#[test]
fn only_http1_required_requests_restrict_the_offer() {
    assert_eq!(AlpnOffer::Http1, alpn_protocols(ProtocolRequirement::H1Required));
    assert_eq!(AlpnOffer::Http, alpn_protocols(ProtocolRequirement::H1Compatible));
    assert_eq!(AlpnOffer::Http, alpn_protocols(ProtocolRequirement::H2Required));
}

#[test]
fn cache_keys_compare_by_binding_and_offer() {
    let a = ConnectorCacheKey::for_partition(&Some("a".to_string()), AlpnOffer::Http);
    let a_again = ConnectorCacheKey::for_partition(&Some("a".to_string()), AlpnOffer::Http);
    let a_http1 = ConnectorCacheKey::for_partition(&Some("a".to_string()), AlpnOffer::Http1);
    let unbound = ConnectorCacheKey::for_partition(&None, AlpnOffer::Http);
    assert!(a.same(&a_again));
    assert!(!a.same(&a_http1));
    assert!(!a.same(&unbound));
    assert_eq!(Some("a"), a.interface());
    assert_eq!(None, unbound.interface());
}

#[test]
fn offers_send_their_alpn_identifiers_in_preference_order() {
    let http: Vec<Vec<u8>> = vec![b"h2".to_vec(), b"http/1.1".to_vec()];
    let http1: Vec<Vec<u8>> = vec![b"http/1.1".to_vec()];
    assert_eq!(http, AlpnOffer::Http.protocols());
    assert_eq!(http1, AlpnOffer::Http1.protocols());
}
