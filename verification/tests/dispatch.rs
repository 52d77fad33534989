use hyper::{Method, Uri};
use smithy_pool::connection::CloseReason;
use smithy_pool::dispatch::{
    add_host_header, finish_unaccepted_request, h1_dispatch_check, h1_finish_action, h1_send_failure_action, h2_send_decision, host_header_value,
    readiness_task_action, response_upgrades, rewrite_h1_request_target, validate_request_before_acquisition,
    H1FinishAction, H1RequestTarget, H1SendDecision, H1SendFailure, H2SendDecision, H2SendResult, HttpVersion, RequestDispatchError, SenderReadiness,
    UnacceptedStage,
};
use smithy_pool::origin::OriginScheme;

fn scheme_of(uri: &Uri) -> Option<OriginScheme> {
    match uri.scheme_str() {
        Some("http") => Some(OriginScheme::Http),
        Some("https") => Some(OriginScheme::Https),
        _ => None,
    }
}

/// Applies the host decision the way dispatch does and returns the header
/// value the request ends up with.
fn host_after(uri: &str, existing: Option<&str>) -> String {
    let absolute_uri: Uri = uri.parse().unwrap();
    let authority = absolute_uri.authority().map(|a| (a.host(), absolute_uri.port_u16()));
    match add_host_header(existing.is_some(), scheme_of(&absolute_uri), authority).unwrap() {
        Some(value) => value,
        None => existing.unwrap().to_string(),
    }
}

#[test]
fn host_header_preserves_or_derives_the_authority() {
    let cases = [
        ("existing", "http://ignored.example/", Some("kept.example"), "kept.example"),
        ("implicit default port", "http://example.com/", None, "example.com"),
        ("HTTP default port", "http://example.com:80/", None, "example.com"),
        ("HTTPS default port", "https://example.com:443/", None, "example.com"),
        ("explicit port", "http://example.com:8080/", None, "example.com:8080"),
        ("IPv6 default port", "http://[::1]:80/", None, "[::1]"),
        ("IPv6 explicit port", "http://[::1]:8080/", None, "[::1]:8080"),
    ];

    for (name, uri, existing, expected) in cases {
        assert_eq!(expected, host_after(uri, existing), "{name}");
    }
}

/// Applies the target decision the way dispatch does and returns the target
/// the request is sent with.
fn target_after(method: Method, uri: &str, is_proxied: bool) -> String {
    let uri: Uri = uri.parse().unwrap();
    let authority = uri.authority().map(|a| a.as_str());
    let path_and_query = uri.path_and_query().map(|p| p.as_str());
    match rewrite_h1_request_target(method == Method::CONNECT, is_proxied, authority, path_and_query) {
        H1RequestTarget::Unchanged => uri.to_string(),
        H1RequestTarget::Authority(authority) => authority,
        H1RequestTarget::Origin(Some(path)) => path,
        H1RequestTarget::Origin(None) => String::new(),
    }
}

#[test]
fn h1_request_target_uses_the_required_wire_form() {
    let cases = [
        ("CONNECT", Method::CONNECT, "http://example.com:8443/ignored", false, "example.com:8443"),
        ("direct", Method::GET, "http://example.com/path?key=value", false, "/path?key=value"),
        ("proxy", Method::GET, "http://example.com/path?key=value", true, "http://example.com/path?key=value"),
    ];

    for (name, method, uri, is_proxied, expected) in cases {
        assert_eq!(expected, target_after(method, uri, is_proxied), "{name}");
    }
}

#[test]
fn host_value_formats_every_port_digit() {
    assert_eq!("h:1", host_header_value(None, "h", Some(1)));
    assert_eq!("h:10", host_header_value(None, "h", Some(10)));
    assert_eq!("h:65535", host_header_value(Some(OriginScheme::Https), "h", Some(65535)));
    assert_eq!("h:0", host_header_value(Some(OriginScheme::Http), "h", Some(0)));
    assert_eq!("h:443", host_header_value(Some(OriginScheme::Http), "h", Some(443)));
    assert_eq!("h", host_header_value(Some(OriginScheme::Https), "h", Some(443)));
    assert_eq!("h", host_header_value(None, "h", None));
}

#[test]
fn host_header_errors_name_their_cause() {
    assert_eq!(Err(RequestDispatchError::MissingAuthority), add_host_header(false, None, None));
    assert_eq!(Ok(None), add_host_header(true, None, None));
    assert_eq!(
        Err(RequestDispatchError::InvalidHostHeader),
        add_host_header(false, Some(OriginScheme::Http), Some(("bad\u{7f}host", None)))
    );
    assert_eq!(
        Ok(Some("caf\u{e9}.example".to_string())),
        add_host_header(false, Some(OriginScheme::Http), Some(("caf\u{e9}.example", Some(80))))
    );
}

#[test]
fn only_routable_versions_pass_validation() {
    assert_eq!(Ok(()), validate_request_before_acquisition(HttpVersion::Http11, true));
    assert_eq!(Ok(()), validate_request_before_acquisition(HttpVersion::Http2, false));
    assert_eq!(Ok(()), validate_request_before_acquisition(HttpVersion::Http10, false));
    assert_eq!(
        Err(RequestDispatchError::ConnectOverHttp10),
        validate_request_before_acquisition(HttpVersion::Http10, true)
    );
    assert_eq!(
        Err(RequestDispatchError::UnsupportedVersion(HttpVersion::Http09)),
        validate_request_before_acquisition(HttpVersion::Http09, false)
    );
    assert_eq!(
        Err(RequestDispatchError::UnsupportedVersion(HttpVersion::Http3)),
        validate_request_before_acquisition(HttpVersion::Http3, false)
    );
}

#[test]
fn upgrades_are_switching_protocols_or_successful_connect() {
    assert!(response_upgrades(101, false));
    assert!(response_upgrades(200, true));
    assert!(response_upgrades(299, true));
    assert!(!response_upgrades(200, false));
    assert!(!response_upgrades(300, true));
    assert!(!response_upgrades(407, true));
}

#[test]
fn response_end_reuses_only_a_proven_sender() {
    assert_eq!(H1FinishAction::OfferForReuse, h1_finish_action(SenderReadiness::Ready));
    assert_eq!(H1FinishAction::Retire(CloseReason::ProtocolClosed), h1_finish_action(SenderReadiness::Failed));
    assert_eq!(H1FinishAction::AwaitReadiness, h1_finish_action(SenderReadiness::Pending));
    assert_eq!(H1FinishAction::OfferForReuse, readiness_task_action(Some(true)));
    assert_eq!(H1FinishAction::Retire(CloseReason::ProtocolClosed), readiness_task_action(Some(false)));
    assert_eq!(H1FinishAction::Retire(CloseReason::OwnerRuntimeShutdown), readiness_task_action(None));
}

#[test]
fn retry_authority_distinguishes_pool_checks_from_hyper_returns() {
    let checked_before_hyper = finish_unaccepted_request(UnacceptedStage::BeforeHyper, false);
    assert!(matches!(checked_before_hyper, H2SendDecision::Reacquire));

    let fresh_hyper_return = finish_unaccepted_request(UnacceptedStage::ReturnedByHyper, false);
    assert!(matches!(fresh_hyper_return, H2SendDecision::Fail));

    let reused_hyper_return = finish_unaccepted_request(UnacceptedStage::ReturnedByHyper, true);
    assert!(matches!(reused_hyper_return, H2SendDecision::Reacquire));
}

#[test]
fn h2_send_closes_on_returned_requests() {
    assert_eq!((H2SendDecision::Respond, false), h2_send_decision(H2SendResult::Response, true, true));
    assert_eq!((H2SendDecision::Reacquire, true), h2_send_decision(H2SendResult::Returned, false, true));
    assert_eq!((H2SendDecision::Fail, true), h2_send_decision(H2SendResult::Returned, false, false));
    assert_eq!((H2SendDecision::Fail, true), h2_send_decision(H2SendResult::Failed, true, false));
    assert_eq!((H2SendDecision::Fail, false), h2_send_decision(H2SendResult::Failed, false, true));
}

#[test]
fn an_h1_connection_refuses_an_h2_request() {
    assert_eq!(Err(RequestDispatchError::H2RequestOverH1), h1_dispatch_check(HttpVersion::Http2));
    assert_eq!(Ok(()), h1_dispatch_check(HttpVersion::Http11));
    assert_eq!(Ok(()), h1_dispatch_check(HttpVersion::Http10));
}

#[test]
fn h1_send_failures_retire_and_retry_as_the_connection_warrants() {
    assert_eq!((CloseReason::ProtocolClosed, H1SendDecision::Reacquire), h1_send_failure_action(H1SendFailure::Stale, false));
    assert_eq!((CloseReason::ProtocolClosed, H1SendDecision::Reacquire), h1_send_failure_action(H1SendFailure::Returned, true));
    assert_eq!((CloseReason::ProtocolClosed, H1SendDecision::Fail), h1_send_failure_action(H1SendFailure::Returned, false));
    assert_eq!((CloseReason::IncompleteH1Exchange, H1SendDecision::Fail), h1_send_failure_action(H1SendFailure::Failed, true));
}
