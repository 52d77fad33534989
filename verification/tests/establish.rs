use smithy_pool::admission::ProtocolRequirement;
use smithy_pool::connection::ConnectionProtocol;
use smithy_pool::establish::{next_connection_id, route_negotiated_protocol, ConnectionIdExhausted, NegotiatedRoute};

#[test]
fn negotiated_h2_fails_an_http1_required_attempt() {
    assert_eq!(
        (ConnectionProtocol::Http2, NegotiatedRoute::Mismatch),
        route_negotiated_protocol(true, ProtocolRequirement::H1Required)
    );
    assert_eq!(
        (ConnectionProtocol::Http2, NegotiatedRoute::Http2),
        route_negotiated_protocol(true, ProtocolRequirement::H1Compatible)
    );
    assert_eq!(
        (ConnectionProtocol::Http2, NegotiatedRoute::Http2),
        route_negotiated_protocol(true, ProtocolRequirement::H2Required)
    );
    assert_eq!(
        (ConnectionProtocol::Http1, NegotiatedRoute::Http1),
        route_negotiated_protocol(false, ProtocolRequirement::H2Required)
    );
}

#[test]
fn connection_id_exhaustion_is_reported_not_wrapped() {
    let mut counter = u64::MAX - 2;
    assert_eq!(Ok(u64::MAX - 2), next_connection_id(&mut counter));
    assert_eq!(Ok(u64::MAX - 1), next_connection_id(&mut counter));
    assert_eq!(Err(ConnectionIdExhausted), next_connection_id(&mut counter));
    assert_eq!(Err(ConnectionIdExhausted), next_connection_id(&mut counter));
    assert_eq!(u64::MAX, counter);
}

#[test]
fn connection_ids_start_at_the_counter() {
    let mut counter = 0;
    assert_eq!(Ok(0), next_connection_id(&mut counter));
    assert_eq!(Ok(1), next_connection_id(&mut counter));
    assert_eq!(2, counter);
}

use smithy_pool::client::{check_timeout_timer, MissingAsyncSleep};

#[test]
fn configured_timeout_without_sleep_is_rejected() {
    for (connect_timeout, read_timeout) in [(true, false), (false, true), (true, true)] {
        assert_eq!(Err(MissingAsyncSleep), check_timeout_timer(connect_timeout, read_timeout, false));
        assert_eq!(Ok(()), check_timeout_timer(connect_timeout, read_timeout, true));
    }
    assert_eq!(Ok(()), check_timeout_timer(false, false, false));
}

#[test]
fn configured_timeout_without_sleep_names_the_missing_timer() {
    let error = check_timeout_timer(true, false, false).expect_err("a timeout without sleep was accepted");
    assert_eq!("an async sleep implementation is required for HTTP connect or read timeouts", error.message());
}
