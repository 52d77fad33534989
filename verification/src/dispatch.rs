//! Request wire-form rules and dispatch decisions.
//!
//! HTTP/1 needs a `Host` header and an origin-form, authority-form or
//! absolute-form request target; HTTP/2 carries the absolute URI. The
//! decisions that follow a send attempt (reuse, retirement, reacquisition)
//! are functions of what the protocol reported.

use crate::connection::CloseReason;
use crate::origin::OriginScheme;
use vstd::prelude::*;
use vstd::string::StringExecFns;

verus! {

/// HTTP version a request selected.
#[derive(Clone, Copy, Debug, PartialEq, Eq, Structural)]
pub enum HttpVersion {
    Http09,
    Http10,
    Http11,
    Http2,
    Http3,
}

/// A request rejected before any protocol accepted it.
#[derive(Clone, Copy, Debug, PartialEq, Eq, Structural)]
pub enum RequestDispatchError {
    /// The absolute URI did not contain the authority required for `Host`.
    MissingAuthority,
    /// The derived `Host` value was not a valid HTTP header value.
    InvalidHostHeader,
    /// HTTP/1.0 cannot represent a CONNECT request accepted by this client.
    ConnectOverHttp10,
    /// The request selected an HTTP version this client cannot dispatch.
    UnsupportedVersion(HttpVersion),
    /// An HTTP/2 request reached an HTTP/1 connection.
    H2RequestOverH1,
}

/// Whether the pool can route a request of `version` and method.
pub open spec fn request_check(version: HttpVersion, is_connect: bool) -> Result<(), RequestDispatchError> {
    match version {
        HttpVersion::Http11 | HttpVersion::Http2 => Ok(()),
        HttpVersion::Http10 => if is_connect {
            Err(RequestDispatchError::ConnectOverHttp10)
        } else {
            Ok(())
        },
        other => Err(RequestDispatchError::UnsupportedVersion(other)),
    }
}

/// Rejects request forms the pool cannot route before acquiring connection
/// state: HTTP/1.1 and HTTP/2 pass, HTTP/1.0 passes unless it is a CONNECT.
pub fn validate_request_before_acquisition(version: HttpVersion, is_connect: bool) -> (checked: Result<
    (),
    RequestDispatchError,
>)
    ensures
        checked == request_check(version, is_connect),
{
    match version {
        HttpVersion::Http11 | HttpVersion::Http2 => Ok(()),
        HttpVersion::Http10 => if is_connect {
            Err(RequestDispatchError::ConnectOverHttp10)
        } else {
            Ok(())
        },
        other => Err(RequestDispatchError::UnsupportedVersion(other)),
    }
}

/// The port a scheme implies when the URI names none.
pub open spec fn default_port(scheme: Option<OriginScheme>) -> Option<u16> {
    match scheme {
        Some(OriginScheme::Http) => Some(80u16),
        Some(OriginScheme::Https) => Some(443u16),
        None => None,
    }
}

/// The decimal digit character of `d`.
pub open spec fn digit_char(d: int) -> char {
    if d == 0 {
        '0'
    } else if d == 1 {
        '1'
    } else if d == 2 {
        '2'
    } else if d == 3 {
        '3'
    } else if d == 4 {
        '4'
    } else if d == 5 {
        '5'
    } else if d == 6 {
        '6'
    } else if d == 7 {
        '7'
    } else if d == 8 {
        '8'
    } else {
        '9'
    }
}

/// The decimal representation of `n`, without leading zeros.
pub open spec fn decimal(n: nat) -> Seq<char>
    decreases n,
{
    if n < 10 {
        seq![digit_char(n as int)]
    } else {
        decimal(n / 10).push(digit_char((n % 10) as int))
    }
}

/// The `Host` value HTTP/1 sends for an authority: the host alone when the
/// port is absent or the scheme's default, else `host:port`.
pub open spec fn host_value(scheme: Option<OriginScheme>, host: Seq<char>, port: Option<u16>) -> Seq<char> {
    match port {
        Some(p) => if Some(p) == default_port(scheme) {
            host
        } else {
            host + seq![':'] + decimal(p as nat)
        },
        None => host,
    }
}

/// Whether a header value may hold `c`: a tab, or any character but a
/// control character and DEL.
pub open spec fn header_char_allowed(c: char) -> bool {
    c == '\t' || (32 <= (c as u32) && (c as u32) != 127)
}

/// Whether every character of `value` may appear in a header value.
pub open spec fn valid_header_value(value: Seq<char>) -> bool {
    forall|i: int| 0 <= i < value.len() ==> header_char_allowed(#[trigger] value[i])
}

/// Checks `value` with `http::header::HeaderValue::from_str`.
///
/// Trusted: that function accepts exactly the strings whose UTF-8 bytes are
/// all a tab or at least 32 and not 127; a multi-byte character's bytes are
/// all at least 128, so the check reads per character as stated.
#[verifier::external_body]
fn header_value_is_valid(value: &str) -> (valid: bool)
    ensures
        valid == valid_header_value(value@),
{
    hyper::header::HeaderValue::from_str(value).is_ok()
}

/// The string of one decimal digit.
fn digit_str(d: u16) -> (digit: &'static str)
    requires
        d < 10,
    ensures
        digit@ == seq![digit_char(d as int)],
{
    proof {
        reveal_strlit("0");
        reveal_strlit("1");
        reveal_strlit("2");
        reveal_strlit("3");
        reveal_strlit("4");
        reveal_strlit("5");
        reveal_strlit("6");
        reveal_strlit("7");
        reveal_strlit("8");
        reveal_strlit("9");
    }
    if d == 0 {
        "0"
    } else if d == 1 {
        "1"
    } else if d == 2 {
        "2"
    } else if d == 3 {
        "3"
    } else if d == 4 {
        "4"
    } else if d == 5 {
        "5"
    } else if d == 6 {
        "6"
    } else if d == 7 {
        "7"
    } else if d == 8 {
        "8"
    } else {
        "9"
    }
}

/// Appends the decimal representation of `n`.
fn append_decimal(out: &mut String, n: u16)
    ensures
        final(out)@ == old(out)@ + decimal(n as nat),
    decreases n,
{
    if n >= 10 {
        append_decimal(out, n / 10);
    }
    out.append(digit_str(n % 10));
    proof {
        if n >= 10 {
            assert(old(out)@ + decimal((n / 10) as nat) + seq![digit_char((n % 10) as int)] =~= old(out)@
                + decimal(n as nat));
        } else {
            assert(decimal(n as nat) == seq![digit_char(n as int)]);
        }
    }
}

/// Derives the `Host` value for an authority of a URI with `scheme`.
pub fn host_header_value(scheme: Option<OriginScheme>, host: &str, port: Option<u16>) -> (value: String)
    ensures
        value@ == host_value(scheme, host@, port),
{
    let mut value = String::from_str(host);
    let default = match scheme {
        Some(OriginScheme::Http) => Some(80u16),
        Some(OriginScheme::Https) => Some(443u16),
        None => None,
    };
    match port {
        Some(p) => {
            let implied = match default {
                Some(d) => d == p,
                None => false,
            };
            if !implied {
                proof {
                    reveal_strlit(":");
                }
                value.append(":");
                append_decimal(&mut value, p);
                assert(value@ =~= host@ + seq![':'] + decimal(p as nat));
            }
        },
        None => {},
    }
    value
}

/// The `Host` header decision for one HTTP/1 request.
pub open spec fn host_header_decision(
    has_host: bool,
    scheme: Option<OriginScheme>,
    authority: Option<(Seq<char>, Option<u16>)>,
) -> Result<Option<Seq<char>>, RequestDispatchError> {
    if has_host {
        Ok(None)
    } else {
        match authority {
            None => Err(RequestDispatchError::MissingAuthority),
            Some((host, port)) => if valid_header_value(host_value(scheme, host, port)) {
                Ok(Some(host_value(scheme, host, port)))
            } else {
                Err(RequestDispatchError::InvalidHostHeader)
            },
        }
    }
}

/// Decides the mandatory HTTP/1 `Host` header from the absolute request URI.
///
/// A request that already has one keeps it (`Ok(None)`); otherwise the value
/// to insert is derived from the URI's authority.
pub fn add_host_header(has_host: bool, scheme: Option<OriginScheme>, authority: Option<(&str, Option<u16>)>) -> (decision:
    Result<Option<String>, RequestDispatchError>)
    ensures
        match decision {
            Ok(Some(value)) => host_header_decision(
                has_host,
                scheme,
                match authority {
                    Some((host, port)) => Some((host@, port)),
                    None => None,
                },
            ) == Ok::<Option<Seq<char>>, RequestDispatchError>(Some(value@)),
            Ok(None) => host_header_decision(
                has_host,
                scheme,
                match authority {
                    Some((host, port)) => Some((host@, port)),
                    None => None,
                },
            ) == Ok::<Option<Seq<char>>, RequestDispatchError>(None),
            Err(e) => host_header_decision(
                has_host,
                scheme,
                match authority {
                    Some((host, port)) => Some((host@, port)),
                    None => None,
                },
            ) == Err::<Option<Seq<char>>, RequestDispatchError>(e),
        },
{
    if has_host {
        return Ok(None);
    }
    let (host, port) = match authority {
        Some(parts) => parts,
        None => {
            return Err(RequestDispatchError::MissingAuthority);
        },
    };
    let value = host_header_value(scheme, host, port);
    if !header_value_is_valid(value.as_str()) {
        return Err(RequestDispatchError::InvalidHostHeader);
    }
    Ok(Some(value))
}

/// The request target an HTTP/1 request is sent with.
#[derive(Debug)]
pub enum H1RequestTarget {
    /// The absolute URI stays: a proxied request, or a CONNECT without one.
    Unchanged,
    /// Authority form, for CONNECT.
    Authority(String),
    /// Origin form: the path and query alone.
    Origin(Option<String>),
}

/// Rewrites an absolute URI into the request target HTTP/1 requires.
pub fn rewrite_h1_request_target(
    is_connect: bool,
    is_proxied: bool,
    authority: Option<&str>,
    path_and_query: Option<&str>,
) -> (target: H1RequestTarget)
    ensures
        is_connect ==> match authority {
            Some(a) => target matches H1RequestTarget::Authority(t) && t@ == a@,
            None => target is Unchanged,
        },
        !is_connect && is_proxied ==> target is Unchanged,
        !is_connect && !is_proxied ==> match path_and_query {
            Some(p) => target matches H1RequestTarget::Origin(Some(t)) && t@ == p@,
            None => target matches H1RequestTarget::Origin(None),
        },
{
    if is_connect {
        return match authority {
            Some(a) => H1RequestTarget::Authority(String::from_str(a)),
            None => H1RequestTarget::Unchanged,
        };
    }
    if is_proxied {
        return H1RequestTarget::Unchanged;
    }
    match path_and_query {
        Some(p) => H1RequestTarget::Origin(Some(String::from_str(p))),
        None => H1RequestTarget::Origin(None),
    }
}

/// Whether an accepted HTTP/1 response hands the connection's root I/O to
/// the caller: `101 Switching Protocols`, or a successful CONNECT.
pub fn response_upgrades(status: u16, is_connect: bool) -> (upgrades: bool)
    ensures
        upgrades == (status == 101 || (is_connect && 200 <= status < 300)),
{
    status == 101 || (is_connect && 200 <= status && status < 300)
}

/// What HTTP/1 sender readiness reported at the end of a response.
#[derive(Clone, Copy, Debug, PartialEq, Eq, Structural)]
pub enum SenderReadiness {
    /// Another request may be sent.
    Ready,
    /// The sender failed.
    Failed,
    /// Readiness is not known yet.
    Pending,
}

/// What happens to an HTTP/1 exchange whose response reached end-of-stream.
#[derive(Clone, Copy, Debug, PartialEq, Eq, Structural)]
pub enum H1FinishAction {
    /// The proven-ready sender returns through its owning cell.
    OfferForReuse,
    /// The connection retires for the reason given.
    Retire(CloseReason),
    /// A task on the connection-owning runtime awaits readiness.
    AwaitReadiness,
}

/// Decides the end of one HTTP/1 response: a ready sender is offered for
/// reuse, a failed one retires the connection as protocol-closed, and pending
/// readiness moves to the owning runtime. Dispatch accounting completes in
/// every case.
pub fn h1_finish_action(readiness: SenderReadiness) -> (action: H1FinishAction)
    ensures
        action == match readiness {
            SenderReadiness::Ready => H1FinishAction::OfferForReuse,
            SenderReadiness::Failed => H1FinishAction::Retire(CloseReason::ProtocolClosed),
            SenderReadiness::Pending => H1FinishAction::AwaitReadiness,
        },
{
    match readiness {
        SenderReadiness::Ready => H1FinishAction::OfferForReuse,
        SenderReadiness::Failed => H1FinishAction::Retire(CloseReason::ProtocolClosed),
        SenderReadiness::Pending => H1FinishAction::AwaitReadiness,
    }
}

/// Decides the end of an owning-runtime readiness task: its readiness
/// result, or `None` when the task was dropped before one arrived, which
/// retires the exchange as owner-runtime shutdown so that an unproven sender
/// never re-enters the pool.
pub fn readiness_task_action(ready: Option<bool>) -> (action: H1FinishAction)
    ensures
        action == match ready {
            Some(true) => H1FinishAction::OfferForReuse,
            Some(false) => H1FinishAction::Retire(CloseReason::ProtocolClosed),
            None => H1FinishAction::Retire(CloseReason::OwnerRuntimeShutdown),
        },
{
    match ready {
        Some(true) => H1FinishAction::OfferForReuse,
        Some(false) => H1FinishAction::Retire(CloseReason::ProtocolClosed),
        None => H1FinishAction::Retire(CloseReason::OwnerRuntimeShutdown),
    }
}

/// Point at which the pool learned that the protocol had not accepted a request.
#[derive(Clone, Copy, Debug, PartialEq, Eq, Structural)]
pub enum UnacceptedStage {
    /// The pool rejected a stale generation before calling Hyper.
    BeforeHyper,
    /// Hyper returned the original request envelope.
    ReturnedByHyper,
}

/// Applies retry authority to a request the protocol did not accept: it is
/// retried on another connection after a pool-side check, and after a
/// returned envelope only when the connection had served before; otherwise
/// its error goes to the caller.
pub fn finish_unaccepted_request(stage: UnacceptedStage, reused: bool) -> (decision: H2SendDecision)
    ensures
        decision == (if stage == UnacceptedStage::BeforeHyper || reused {
            H2SendDecision::Reacquire
        } else {
            H2SendDecision::Fail
        }),
{
    match stage {
        UnacceptedStage::BeforeHyper => H2SendDecision::Reacquire,
        UnacceptedStage::ReturnedByHyper => if reused {
            H2SendDecision::Reacquire
        } else {
            H2SendDecision::Fail
        },
    }
}

/// What one HTTP/2 send reported.
#[derive(Clone, Copy, Debug, PartialEq, Eq, Structural)]
pub enum H2SendResult {
    /// Response headers arrived.
    Response,
    /// The send failed and the protocol returned the unsent request.
    Returned,
    /// The send failed without returning the request.
    Failed,
}

/// What follows one HTTP/2 send.
#[derive(Clone, Copy, Debug, PartialEq, Eq, Structural)]
pub enum H2SendDecision {
    /// The response goes to the caller.
    Respond,
    /// The unsent request is retried on another connection.
    Reacquire,
    /// The error goes to the caller.
    Fail,
}

/// Decides the end of one HTTP/2 send, and whether the generation closes as
/// protocol-closed: a returned request closes it and is retried when the
/// connection had served before; any other failure closes it only when the
/// sender was already closed.
pub fn h2_send_decision(result: H2SendResult, sender_closed: bool, reused: bool) -> (decision: (
    H2SendDecision,
    bool,
))
    ensures
        decision == match result {
            H2SendResult::Response => (H2SendDecision::Respond, false),
            H2SendResult::Returned => (
                if reused {
                    H2SendDecision::Reacquire
                } else {
                    H2SendDecision::Fail
                },
                true,
            ),
            H2SendResult::Failed => (H2SendDecision::Fail, sender_closed),
        },
{
    match result {
        H2SendResult::Response => (H2SendDecision::Respond, false),
        H2SendResult::Returned => {
            (finish_unaccepted_request(UnacceptedStage::ReturnedByHyper, reused), true)
        },
        H2SendResult::Failed => (H2SendDecision::Fail, sender_closed),
    }
}

/// Whether an HTTP/1 connection may carry a request of `version`: an
/// HTTP/2 request is refused before anything is sent.
pub fn h1_dispatch_check(version: HttpVersion) -> (checked: Result<(), RequestDispatchError>)
    ensures
        checked == if version == HttpVersion::Http2 {
            Err::<(), RequestDispatchError>(RequestDispatchError::H2RequestOverH1)
        } else {
            Ok(())
        },
{
    match version {
        HttpVersion::Http2 => Err(RequestDispatchError::H2RequestOverH1),
        _ => Ok(()),
    }
}

/// How an HTTP/1 send ended without a response.
#[derive(Clone, Copy, Debug, PartialEq, Eq, Structural)]
pub enum H1SendFailure {
    /// The connection closed before the dispatch committed; nothing was sent.
    Stale,
    /// The send failed and the protocol returned the unsent request.
    Returned,
    /// The send failed after the request left the pool.
    Failed,
}

/// What follows an HTTP/1 send that produced no response.
#[derive(Clone, Copy, Debug, PartialEq, Eq, Structural)]
pub enum H1SendDecision {
    /// The unsent request is retried on another connection.
    Reacquire,
    /// The error goes to the caller.
    Fail,
}

/// Decides the reason the connection retires with and whether the request is
/// retried: a stale selection is retried; a returned request retires the
/// connection as protocol-closed and is retried only when the connection had
/// served before; any other failure retires it as an incomplete exchange and
/// fails.
pub fn h1_send_failure_action(failure: H1SendFailure, reused: bool) -> (action: (CloseReason, H1SendDecision))
    ensures
        action == match failure {
            H1SendFailure::Stale => (CloseReason::ProtocolClosed, H1SendDecision::Reacquire),
            H1SendFailure::Returned => (
                CloseReason::ProtocolClosed,
                if reused {
                    H1SendDecision::Reacquire
                } else {
                    H1SendDecision::Fail
                },
            ),
            H1SendFailure::Failed => (CloseReason::IncompleteH1Exchange, H1SendDecision::Fail),
        },
{
    match failure {
        H1SendFailure::Stale => (CloseReason::ProtocolClosed, H1SendDecision::Reacquire),
        H1SendFailure::Returned => {
            let decision = if reused {
                H1SendDecision::Reacquire
            } else {
                H1SendDecision::Fail
            };
            (CloseReason::ProtocolClosed, decision)
        },
        H1SendFailure::Failed => (CloseReason::IncompleteH1Exchange, H1SendDecision::Fail),
    }
}

} // verus!
